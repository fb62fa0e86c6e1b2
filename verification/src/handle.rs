use vstd::prelude::*;
use vstd::std_specs::convert::FromSpecImpl;

use crate::error::{AppError, AppResult};

verus! {

/// The raw value that stands for "no resource".
pub const NULL_HANDLE: usize = 0;

/// The raw value with all bits set, by which some calls report failure and
/// which others return for a resource.
pub const INVALID_HANDLE_VALUE: usize = usize::MAX;

/// Owner of one resource of the operating system, named by its raw value.
///
/// A handle is neither `Copy` nor `Clone`: it is moved or borrowed. It hands
/// its raw value out for release once, on the first call of `close`.
#[derive(Debug, PartialEq, Eq)]
pub struct Handle {
    h: usize,
    open: bool,
}

impl Handle {
    /// The raw value of the resource.
    pub closed spec fn raw(&self) -> usize {
        self.h
    }

    /// Whether the resource still waits to be released.
    pub closed spec fn is_open(&self) -> bool {
        self.open
    }

    /// Takes ownership of the resource with raw value `h`. Only the null
    /// value is refused; the value with all bits set names a resource like
    /// any other. `code` is the platform error code current when `h` was
    /// obtained.
    pub fn new(h: usize, code: u32) -> (r: AppResult<Handle>)
        ensures
            h == NULL_HANDLE ==> r == Err::<Handle, AppError>(
                AppError::ResourceUnavailable { code },
            ),
            h != NULL_HANDLE ==> r is Ok && r->Ok_0.raw() == h && r->Ok_0.is_open(),
    {
        if h == NULL_HANDLE {
            Err(AppError::ResourceUnavailable { code })
        } else {
            Ok(Handle { h, open: true })
        }
    }

    /// What `close` guarantees of the handle `before` the call, the handle
    /// `after` it and the value `released`.
    pub open spec fn close_relates(before: Handle, after: Handle, released: Option<usize>) -> bool {
        &&& !after.is_open()
        &&& after.raw() == before.raw()
        &&& released == (if before.is_open() {
            Some(before.raw())
        } else {
            None
        })
    }

    /// Gives up the resource: the first call returns the raw value to
    /// release, every later call returns `None`.
    pub fn close(&mut self) -> (released: Option<usize>)
        ensures
            Handle::close_relates(*old(self), *final(self), released),
    {
        if self.open {
            self.open = false;
            Some(self.h)
        } else {
            None
        }
    }

    /// A handle that is open releases its raw value on the first `close`
    /// and on no later one.
    pub proof fn release_happens_once(
        fresh: Handle,
        closed_once: Handle,
        first: Option<usize>,
        closed_twice: Handle,
        second: Option<usize>,
    )
        requires
            fresh.is_open(),
            Handle::close_relates(fresh, closed_once, first),
            Handle::close_relates(closed_once, closed_twice, second),
        ensures
            first == Some(fresh.raw()),
            second is None,
            closed_twice == closed_once,
    {
    }
}

impl From<&Handle> for usize {
    /// The raw value, to pass to the operating system.
    fn from(hdl: &Handle) -> (raw: usize) {
        hdl.h
    }
}

impl FromSpecImpl<&Handle> for usize {
    open spec fn obeys_from_spec() -> bool {
        true
    }

    open spec fn from_spec(hdl: &Handle) -> usize {
        hdl.raw()
    }
}

} // verus!
