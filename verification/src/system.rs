use once_cell::sync::OnceCell;
use vstd::prelude::*;

verus! {

/// The address range that applications may use, and the granularities of
/// memory, as the operating system reports them.
#[derive(Debug, Clone, Copy, PartialEq, Eq)]
pub struct System {
    pub min_app_addr: usize,
    pub max_app_addr: usize,
    pub page_size: u32,
    pub alloc_granularity: u32,
}

/// `OnceCell` of once_cell: a cell that is empty or holds the one value it
/// was set to. Nothing inside it is visible here.
#[verifier::external_type_specification]
#[verifier::external_body]
#[verifier::reject_recursive_types(T)]
pub struct ExOnceCell<T>(once_cell::sync::OnceCell<T>);

/// What a cell holds: nothing, or the one value it was set to.
pub uninterp spec fn cell_contents(cell: OnceCell<System>) -> Seq<System>;

/// `OnceCell::new` of once_cell: a cell that holds nothing.
#[verifier::external_body]
fn cell_new() -> (cell: OnceCell<System>)
    ensures
        cell_contents(cell).len() == 0,
{
    OnceCell::new()
}

/// `OnceCell::get` of once_cell: the value that the cell holds, if it holds
/// one. A cell never holds more than one value.
#[verifier::external_body]
fn cell_get(cell: &OnceCell<System>) -> (value: Option<System>)
    ensures
        match value {
            Some(v) => cell_contents(*cell) == Seq::<System>::empty().push(v),
            None => cell_contents(*cell).len() == 0,
        },
{
    cell.get().copied()
}

/// `OnceCell::set` of once_cell: fills an empty cell with `value` and returns
/// `Ok`; leaves a full cell as it is and hands `value` back in `Err`.
#[verifier::external_body]
fn cell_set(cell: &mut OnceCell<System>, value: System) -> (r: Result<(), System>)
    ensures
        r is Ok <==> cell_contents(*old(cell)).len() == 0,
        r is Err ==> r->Err_0 == value,
        cell_contents(*final(cell)) == (if cell_contents(*old(cell)).len() == 0 {
            Seq::<System>::empty().push(value)
        } else {
            cell_contents(*old(cell))
        }),
{
    cell.set(value)
}

/// Holder of the system information, filled at most once.
pub struct SystemCache {
    cell: OnceCell<System>,
}

impl SystemCache {
    /// The information that the cache holds, if it was filled.
    pub closed spec fn value(&self) -> Option<System> {
        if cell_contents(self.cell).len() == 0 {
            None
        } else {
            Some(cell_contents(self.cell)[0])
        }
    }

    /// A cache that holds nothing yet.
    pub fn new() -> (cache: SystemCache)
        ensures
            cache.value() is None,
    {
        SystemCache { cell: cell_new() }
    }

    /// The information that the cache holds, if it was filled.
    pub fn get(&self) -> (value: Option<System>)
        ensures
            value == self.value(),
    {
        cell_get(&self.cell)
    }
}

impl System {
    /// The system information, asked for at most once per cache: a filled
    /// cache answers by itself and `query` is not called; an empty one is
    /// filled with what `query` returns.
    pub fn global<F: FnOnce() -> System>(cache: &mut SystemCache, query: F) -> (sys_info: System)
        requires
            old(cache).value() is None ==> query.requires(()),
        ensures
            final(cache).value() == Some(sys_info),
            old(cache).value() is Some ==> old(cache).value() == Some(sys_info),
            old(cache).value() is None ==> query.ensures((), sys_info),
    {
        if let Some(sys_info) = cell_get(&cache.cell) {
            return sys_info;
        }
        let sys_info = query();
        let _ = cell_set(&mut cache.cell, sys_info);
        match cell_get(&cache.cell) {
            Some(cached) => cached,
            None => sys_info,
        }
    }
}

} // verus!
