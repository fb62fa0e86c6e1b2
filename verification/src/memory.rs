use vstd::prelude::*;

use crate::error::{AppError, AppResult};
use crate::handle::{Handle, NULL_HANDLE};
use crate::process::Process;
use crate::system::System;

verus! {

/// State code of committed memory.
pub const MEM_COMMIT: u32 = 0x1000;

/// State code of reserved memory.
pub const MEM_RESERVE: u32 = 0x2000;

/// State code of free memory.
pub const MEM_FREE: u32 = 0x10000;

/// Type code of private memory.
pub const MEM_PRIVATE: u32 = 0x20000;

/// Type code of a mapped view.
pub const MEM_MAPPED: u32 = 0x40000;

/// Type code of a mapped image.
pub const MEM_IMAGE: u32 = 0x1000000;

/// Whether a region is backed by memory.
#[derive(Debug, Clone, Copy, PartialEq, Eq)]
pub enum MemoryCommitState {
    Commit,
    Free,
    Reserve,
    Unknown,
}

impl MemoryCommitState {
    /// The state that the code `state` stands for; a code that stands for
    /// none is `Unknown`.
    pub open spec fn decode(state: u32) -> MemoryCommitState {
        if state == MEM_COMMIT {
            MemoryCommitState::Commit
        } else if state == MEM_FREE {
            MemoryCommitState::Free
        } else if state == MEM_RESERVE {
            MemoryCommitState::Reserve
        } else {
            MemoryCommitState::Unknown
        }
    }

    /// The state that the code `state` stands for; a code that stands for
    /// none is `Unknown`.
    pub fn from_u32(state: u32) -> (s: MemoryCommitState)
        ensures
            s == MemoryCommitState::decode(state),
    {
        if state == MEM_COMMIT {
            MemoryCommitState::Commit
        } else if state == MEM_FREE {
            MemoryCommitState::Free
        } else if state == MEM_RESERVE {
            MemoryCommitState::Reserve
        } else {
            MemoryCommitState::Unknown
        }
    }

    /// The name of the state.
    pub open spec fn name(self) -> Seq<char> {
        match self {
            MemoryCommitState::Commit => "commit"@,
            MemoryCommitState::Free => "free"@,
            MemoryCommitState::Reserve => "reserve"@,
            MemoryCommitState::Unknown => "unknown"@,
        }
    }

    /// The name of the state, in lower case.
    pub fn as_str(&self) -> (text: &'static str)
        ensures
            text@ == self.name(),
    {
        match self {
            MemoryCommitState::Commit => "commit",
            MemoryCommitState::Free => "free",
            MemoryCommitState::Reserve => "reserve",
            MemoryCommitState::Unknown => "unknown",
        }
    }
}

/// What a region of memory maps.
#[derive(Debug, Clone, Copy, PartialEq, Eq)]
pub enum MemoryMappingType {
    Image,
    Mapped,
    Private,
    Unknown,
}

impl MemoryMappingType {
    /// The mapping type that the code `kind` stands for; a code that stands
    /// for none is `Unknown`.
    pub open spec fn decode(kind: u32) -> MemoryMappingType {
        if kind == MEM_IMAGE {
            MemoryMappingType::Image
        } else if kind == MEM_MAPPED {
            MemoryMappingType::Mapped
        } else if kind == MEM_PRIVATE {
            MemoryMappingType::Private
        } else {
            MemoryMappingType::Unknown
        }
    }

    /// The mapping type that the code `kind` stands for; a code that stands
    /// for none is `Unknown`.
    pub fn from_u32(kind: u32) -> (t: MemoryMappingType)
        ensures
            t == MemoryMappingType::decode(kind),
    {
        if kind == MEM_IMAGE {
            MemoryMappingType::Image
        } else if kind == MEM_MAPPED {
            MemoryMappingType::Mapped
        } else if kind == MEM_PRIVATE {
            MemoryMappingType::Private
        } else {
            MemoryMappingType::Unknown
        }
    }

    /// The name of the mapping type.
    pub open spec fn name(self) -> Seq<char> {
        match self {
            MemoryMappingType::Image => "image"@,
            MemoryMappingType::Mapped => "mapped"@,
            MemoryMappingType::Private => "private"@,
            MemoryMappingType::Unknown => "unknown"@,
        }
    }

    /// The name of the mapping type, in lower case.
    pub fn as_str(&self) -> (text: &'static str)
        ensures
            text@ == self.name(),
    {
        match self {
            MemoryMappingType::Image => "image",
            MemoryMappingType::Mapped => "mapped",
            MemoryMappingType::Private => "private",
            MemoryMappingType::Unknown => "unknown",
        }
    }
}

/// One region of an address space.
#[derive(Debug, Clone, Copy, PartialEq, Eq)]
pub struct Region {
    pub base_addr: usize,
    pub size: usize,
    pub map_type: MemoryMappingType,
    pub com_state: MemoryCommitState,
}

impl Region {
    /// The region record for the answer `info` to a query at `addr`: it
    /// starts where the query was put and has the size that the system
    /// told, with type and state decoded.
    pub fn new(addr: usize, info: &RegionInfo) -> (region: Region)
        ensures
            region == region_at(addr, *info),
    {
        Region {
            base_addr: addr,
            size: info.region_size,
            map_type: MemoryMappingType::from_u32(info.mapping_type),
            com_state: MemoryCommitState::from_u32(info.state),
        }
    }
}

/// What the system tells about the region at an address.
#[derive(Debug, Clone, Copy, PartialEq, Eq)]
pub struct RegionInfo {
    /// Where the allocation of the region starts.
    pub allocation_base: usize,
    /// How many bytes the region covers.
    pub region_size: usize,
    /// The code of what the region maps.
    pub mapping_type: u32,
    /// The code of the commit state of the region.
    pub state: u32,
}

/// How far a scan has come.
#[derive(Debug, Clone, Copy, PartialEq, Eq)]
pub enum ScanState {
    /// No query was answered yet.
    NotStarted,
    /// The next query is due at `cursor`.
    Scanning { cursor: usize },
    /// The scan is over.
    Exhausted,
}

/// The region record for the answer `info` to a query at `addr`.
pub open spec fn region_at(addr: usize, info: RegionInfo) -> Region {
    Region {
        base_addr: addr,
        size: info.region_size,
        map_type: MemoryMappingType::decode(info.mapping_type),
        com_state: MemoryCommitState::decode(info.state),
    }
}

/// Where the scan goes on after the answer `info` to a query at `cursor`:
/// at the end of the region, counted from its allocation base. An answer
/// that does not lead beyond `cursor`, or leads beyond every address, leads
/// nowhere.
pub open spec fn advance(cursor: usize, info: RegionInfo) -> Option<usize> {
    let end = info.allocation_base + info.region_size;
    if cursor < end <= usize::MAX {
        Some(end as usize)
    } else {
        None
    }
}

/// The state of a scan of the addresses below `max` that goes on at `next`.
pub open spec fn state_at(next: usize, max: usize) -> ScanState {
    if next < max {
        ScanState::Scanning { cursor: next }
    } else {
        ScanState::Exhausted
    }
}

/// The address at which a scan in `state` of the range from `min` to `max`
/// asks next; `None` when the scan is over.
pub open spec fn cursor_of(state: ScanState, min: usize, max: usize) -> Option<usize> {
    match state {
        ScanState::NotStarted => if min < max {
            Some(min)
        } else {
            None
        },
        ScanState::Scanning { cursor } => if cursor < max {
            Some(cursor)
        } else {
            None
        },
        ScanState::Exhausted => None,
    }
}

/// One step of a scan below `max`: the state after the answer `answer` to a
/// query at `cursor`, and the region that the step yields. A failed query,
/// and an answer that leads nowhere, end the scan.
pub open spec fn step(cursor: Option<usize>, max: usize, answer: Option<RegionInfo>) -> (
    ScanState,
    Option<Region>,
) {
    match (cursor, answer) {
        (Some(at), Some(info)) => match advance(at, info) {
            Some(next) => (state_at(next, max), Some(region_at(at, info))),
            None => (ScanState::Exhausted, None),
        },
        _ => (ScanState::Exhausted, None),
    }
}

/// The regions that a scan from `cursor` up to `max` yields of a process
/// that answers a query at an address with `target` of that address.
pub open spec fn scan(
    target: spec_fn(usize) -> Option<RegionInfo>,
    cursor: usize,
    max: usize,
) -> Seq<Region>
    decreases (if cursor < max {
        max - cursor
    } else {
        0
    }),
{
    if cursor >= max {
        Seq::empty()
    } else {
        match target(cursor) {
            Some(info) => match advance(cursor, info) {
                Some(next) => seq![region_at(cursor, info)] + scan(target, next, max),
                None => Seq::empty(),
            },
            None => Seq::empty(),
        }
    }
}

/// Whether the regions `layout` lie one after another and fill the range
/// from `min` to `max` exactly. Each region there is its own allocation.
pub open spec fn partitions(layout: Seq<RegionInfo>, min: usize, max: usize) -> bool {
    if min < max {
        &&& layout.len() > 0
        &&& layout[0].allocation_base == min
        &&& forall|i: int| 0 <= i < layout.len() ==> (#[trigger] layout[i]).region_size > 0
        &&& forall|i: int, j: int|
            0 <= i && j == i + 1 && j < layout.len() ==> (#[trigger] layout[i]).allocation_base
                + layout[i].region_size == (#[trigger] layout[j]).allocation_base
        &&& layout.last().allocation_base + layout.last().region_size == max
    } else {
        layout.len() == 0
    }
}

/// Whether a query at the start of each region of `layout` is answered by
/// `target` with that region.
pub open spec fn answers_from(
    target: spec_fn(usize) -> Option<RegionInfo>,
    layout: Seq<RegionInfo>,
) -> bool {
    forall|i: int|
        0 <= i < layout.len() ==> target((#[trigger] layout[i]).allocation_base) == Some(layout[i])
}

/// The region records of the regions `layout`.
pub open spec fn regions_of(layout: Seq<RegionInfo>) -> Seq<Region> {
    Seq::new(layout.len(), |i: int| region_at(layout[i].allocation_base, layout[i]))
}

/// Where the scan goes on after the answer `info` to a query at `cursor`.
fn advance_from(cursor: usize, info: &RegionInfo) -> (next: Option<usize>)
    ensures
        next == advance(cursor, *info),
{
    if info.region_size > usize::MAX - info.allocation_base {
        None
    } else {
        let end: usize = info.allocation_base + info.region_size;
        if end > cursor {
            Some(end)
        } else {
            None
        }
    }
}

/// Walker of the address space of one process, region by region.
///
/// The walk is driven from outside: `request` tells at which address to
/// query the system, and `next` takes the answer.
pub struct ProcessMemoryMapping {
    proc_hdl: Handle,
    state: ScanState,
    proc_min_addr: usize,
    proc_max_addr: usize,
}

impl ProcessMemoryMapping {
    /// How far the scan has come.
    pub closed spec fn state(&self) -> ScanState {
        self.state
    }

    /// The first address of the range to scan.
    pub closed spec fn min_addr(&self) -> usize {
        self.proc_min_addr
    }

    /// The end of the range to scan.
    pub closed spec fn max_addr(&self) -> usize {
        self.proc_max_addr
    }

    /// The handle of the process that is scanned.
    pub closed spec fn handle(&self) -> Handle {
        self.proc_hdl
    }

    /// The address at which the scan asks next; `None` when it is over.
    pub open spec fn cursor(&self) -> Option<usize> {
        cursor_of(self.state(), self.min_addr(), self.max_addr())
    }

    /// The regions that the scan has yet to yield of a process that answers
    /// by `target`.
    pub open spec fn pending(&self, target: spec_fn(usize) -> Option<RegionInfo>) -> Seq<Region> {
        match self.cursor() {
            Some(at) => scan(target, at, self.max_addr()),
            None => Seq::empty(),
        }
    }

    /// A scan of the application address range of `sys_info` that has not
    /// started, on the process that was opened with the raw handle `opened`.
    /// A null handle means that opening failed, classified by `code`.
    pub fn new(opened: usize, code: u32, sys_info: &System) -> (r: AppResult<Self>)
        ensures
            opened == NULL_HANDLE ==> r is Err && r->Err_0 == AppError::open_failure(code),
            opened != NULL_HANDLE ==> r is Ok && ({
                let mapping = r->Ok_0;
                &&& mapping.state() == ScanState::NotStarted
                &&& mapping.min_addr() == sys_info.min_app_addr
                &&& mapping.max_addr() == sys_info.max_app_addr
                &&& mapping.handle().raw() == opened
                &&& mapping.handle().is_open()
            }),
    {
        let proc_hdl = match Process::opened(opened, code) {
            Ok(hdl) => hdl,
            Err(e) => {
                return Err(e);
            },
        };
        Ok(
            Self {
                proc_hdl,
                state: ScanState::NotStarted,
                proc_min_addr: sys_info.min_app_addr,
                proc_max_addr: sys_info.max_app_addr,
            },
        )
    }

    /// The handle of the process that is scanned.
    pub fn process_handle(&self) -> (hdl: &Handle)
        ensures
            *hdl == self.handle(),
    {
        &self.proc_hdl
    }

    /// Gives up the process handle: the first call returns the raw value to
    /// release, every later call returns `None`. The scan itself is not
    /// touched.
    pub fn close(&mut self) -> (released: Option<usize>)
        ensures
            Handle::close_relates(old(self).handle(), final(self).handle(), released),
            final(self).state() == old(self).state(),
            final(self).min_addr() == old(self).min_addr(),
            final(self).max_addr() == old(self).max_addr(),
    {
        self.proc_hdl.close()
    }

    /// The address at which to query the system next; `None` when the scan
    /// is over.
    pub fn request(&self) -> (at: Option<usize>)
        ensures
            at == self.cursor(),
    {
        let at: usize = match self.state {
            ScanState::NotStarted => self.proc_min_addr,
            ScanState::Scanning { cursor } => cursor,
            ScanState::Exhausted => {
                return None;
            },
        };
        if at < self.proc_max_addr {
            Some(at)
        } else {
            None
        }
    }

    /// Takes the answer to the query at the address that `request` gave and
    /// yields the region found there. The scan then goes on at the end of
    /// that region, counted from its allocation base, and is over once that
    /// end reaches the end of the range. A failed query (`None`) ends the
    /// scan, and so does an answer that would not move the scan forward.
    pub fn next(&mut self, answer: Option<RegionInfo>) -> (region: Option<Region>)
        ensures
            (final(self).state(), region) == step(old(self).cursor(), old(self).max_addr(), answer),
            final(self).min_addr() == old(self).min_addr(),
            final(self).max_addr() == old(self).max_addr(),
            final(self).handle() == old(self).handle(),
            final(self).cursor() matches Some(later) ==> old(self).cursor() matches Some(earlier)
                && earlier < later,
            forall|target: spec_fn(usize) -> Option<RegionInfo>|
                (old(self).cursor() matches Some(at) ==> target(at) == answer) ==> #[trigger] old(
                    self,
                ).pending(target) == (match region {
                    Some(found) => seq![found] + final(self).pending(target),
                    None => Seq::empty(),
                }),
    {
        let moved = match (self.request(), answer) {
            (Some(at), Some(info)) => match advance_from(at, &info) {
                Some(end) => Some((at, info, end)),
                None => None,
            },
            _ => None,
        };
        let region = match moved {
            Some((at, info, end)) => {
                self.state = if end < self.proc_max_addr {
                    ScanState::Scanning { cursor: end }
                } else {
                    ScanState::Exhausted
                };
                Some(Region::new(at, &info))
            },
            None => {
                self.state = ScanState::Exhausted;
                None
            },
        };
        proof {
            let max = self.max_addr();
            assert forall|target: spec_fn(usize) -> Option<RegionInfo>|
                (old(self).cursor() matches Some(at) ==> target(at) == answer) implies #[trigger] old(
                self,
            ).pending(target) == (match region {
                Some(found) => seq![found] + self.pending(target),
                None => Seq::empty(),
            }) by {
                if let (Some(at), Some(info)) = (old(self).cursor(), answer) {
                    if let Some(next) = advance(at, info) {
                        assert(scan(target, at, max) == seq![region_at(at, info)] + scan(
                            target,
                            next,
                            max,
                        ));
                        if next >= max {
                            assert(scan(target, next, max) == Seq::<Region>::empty());
                        }
                    }
                }
            }
        }
        region
    }
}

/// Whatever a process answers, the regions of a scan start at strictly
/// increasing addresses, none before the address at which the scan began and
/// all below the end of the range.
pub proof fn scan_bases_increase(
    target: spec_fn(usize) -> Option<RegionInfo>,
    cursor: usize,
    max: usize,
)
    ensures
        forall|i: int|
            0 <= i < scan(target, cursor, max).len() ==> cursor <= (#[trigger] scan(
                target,
                cursor,
                max,
            )[i]).base_addr < max,
        forall|i: int, j: int|
            0 <= i < j < scan(target, cursor, max).len() ==> (#[trigger] scan(
                target,
                cursor,
                max,
            )[i]).base_addr < (#[trigger] scan(target, cursor, max)[j]).base_addr,
    decreases (if cursor < max {
        max - cursor
    } else {
        0
    }),
{
    if cursor < max {
        if let Some(info) = target(cursor) {
            if let Some(next) = advance(cursor, info) {
                scan_bases_increase(target, next, max);
                let rest = scan(target, next, max);
                let all = scan(target, cursor, max);
                assert(all == seq![region_at(cursor, info)] + rest);
                assert(all[0].base_addr == cursor);
                assert forall|i: int| 1 <= i < all.len() implies all[i] == rest[i - 1] by {}
                assert forall|i: int| 0 <= i < all.len() implies cursor <= (
                #[trigger] all[i]).base_addr < max by {
                    if i > 0 {
                        assert(all[i] == rest[i - 1]);
                    }
                }
                assert forall|i: int, j: int| 0 <= i < j < all.len() implies (
                #[trigger] all[i]).base_addr < (#[trigger] all[j]).base_addr by {
                    assert(all[j] == rest[j - 1]);
                    if i > 0 {
                        assert(all[i] == rest[i - 1]);
                    }
                }
            }
        }
    }
}

/// The regions of a layout start at increasing addresses.
pub(crate) proof fn layout_bases_increase(layout: Seq<RegionInfo>, min: usize, max: usize, i: int, j: int)
    requires
        partitions(layout, min, max),
        0 <= i < j < layout.len(),
    ensures
        layout[i].allocation_base < layout[j].allocation_base,
    decreases j - i,
{
    assert(layout[j - 1].allocation_base + layout[j - 1].region_size
        == layout[j].allocation_base);
    if i < j - 1 {
        layout_bases_increase(layout, min, max, i, j - 1);
    }
}

/// No region of a layout reaches beyond the end of the range.
pub(crate) proof fn layout_ends_within(layout: Seq<RegionInfo>, min: usize, max: usize, k: int)
    requires
        partitions(layout, min, max),
        0 <= k < layout.len(),
    ensures
        layout[k].allocation_base + layout[k].region_size <= max,
        layout[k].allocation_base < max,
    decreases layout.len() - k,
{
    if k < layout.len() - 1 {
        layout_ends_within(layout, min, max, k + 1);
        assert(layout[k].allocation_base + layout[k].region_size == layout[k
            + 1].allocation_base);
    }
}

/// A scan that begins at the start of a region of a layout yields that
/// region and those behind it.
proof fn scan_of_suffix(
    target: spec_fn(usize) -> Option<RegionInfo>,
    layout: Seq<RegionInfo>,
    min: usize,
    max: usize,
    k: int,
)
    requires
        partitions(layout, min, max),
        answers_from(target, layout),
        0 <= k < layout.len(),
    ensures
        scan(target, layout[k].allocation_base, max) == regions_of(layout).skip(k),
    decreases layout.len() - k,
{
    let at = layout[k].allocation_base;
    let info = layout[k];
    layout_ends_within(layout, min, max, k);
    assert(target(at) == Some(info));
    let next = advance(at, info)->0;
    assert(advance(at, info) == Some(next));
    assert(scan(target, at, max) == seq![region_at(at, info)] + scan(target, next, max));
    if k < layout.len() - 1 {
        assert(next == layout[k + 1].allocation_base);
        scan_of_suffix(target, layout, min, max, k + 1);
    } else {
        assert(next == max);
    }
    assert(seq![region_at(at, info)] + scan(target, next, max) =~= regions_of(layout).skip(k));
}

/// The address range of a process whose regions lie one after another from
/// `min` to `max` is scanned without a gap: the scan yields exactly those
/// regions, at strictly increasing addresses, the first at `min`, each
/// ending where the next begins, and the last ending at `max`.
pub proof fn scan_covers_range(
    target: spec_fn(usize) -> Option<RegionInfo>,
    layout: Seq<RegionInfo>,
    min: usize,
    max: usize,
)
    requires
        partitions(layout, min, max),
        answers_from(target, layout),
    ensures
        scan(target, min, max) == regions_of(layout),
        forall|i: int, j: int|
            0 <= i < j < scan(target, min, max).len() ==> (#[trigger] scan(
                target,
                min,
                max,
            )[i]).base_addr < (#[trigger] scan(target, min, max)[j]).base_addr,
        forall|i: int, j: int|
            0 <= i && j == i + 1 && j < scan(target, min, max).len() ==> (#[trigger] scan(
                target,
                min,
                max,
            )[i]).base_addr + scan(target, min, max)[i].size == (#[trigger] scan(
                target,
                min,
                max,
            )[j]).base_addr,
        scan(target, min, max).len() > 0 ==> scan(target, min, max)[0].base_addr == min && scan(
            target,
            min,
            max,
        ).last().base_addr + scan(target, min, max).last().size == max,
{
    if min < max {
        scan_of_suffix(target, layout, min, max, 0);
        assert(regions_of(layout).skip(0) =~= regions_of(layout));
    } else {
        assert(regions_of(layout) =~= Seq::<Region>::empty());
    }
    scan_bases_increase(target, min, max);
}

} // verus!
