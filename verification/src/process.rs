use vstd::prelude::*;

use crate::error::{AppError, AppResult};
use crate::handle::{Handle, INVALID_HANDLE_VALUE, NULL_HANDLE};
use crate::utils::{try_string_from_wide, wide_decode, wide_well_formed};

verus! {

/// Right to query information about a process.
pub const PROCESS_QUERY_INFORMATION: u32 = 0x0400;

/// Right to read the memory of a process.
pub const PROCESS_VM_READ: u32 = 0x0010;

/// How many loaded modules of one process are looked at, at most.
pub const MAX_MODULES: usize = 1024;

/// A resolved process: its image and where its main module lies.
#[derive(Debug, Clone, PartialEq, Eq)]
pub struct Process {
    pub id: u32,
    pub img_filepath: String,
    pub base_addr: usize,
    pub entry_point: usize,
    pub img_size: usize,
}

/// The mathematical value of a `Process`.
pub struct ProcessView {
    pub id: u32,
    pub img_filepath: Seq<char>,
    pub base_addr: usize,
    pub entry_point: usize,
    pub img_size: usize,
}

impl View for Process {
    type V = ProcessView;

    open spec fn view(&self) -> ProcessView {
        ProcessView {
            id: self.id,
            img_filepath: self.img_filepath@,
            base_addr: self.base_addr,
            entry_point: self.entry_point,
            img_size: self.img_size,
        }
    }
}

/// Where one loaded module lies in the address space of its process.
#[derive(Debug, Clone, Copy, PartialEq, Eq)]
pub struct LoadedModule {
    pub base_addr: usize,
    pub entry_point: usize,
    pub img_size: usize,
}

/// What the system told about one loaded module.
#[derive(Debug, Clone, PartialEq, Eq)]
pub struct ModuleEntry {
    /// The file path of the module in UTF-16; empty when the system gave none.
    pub file_path: Vec<u16>,
    /// Where the module lies; `None` when the system would not tell.
    pub info: Option<LoadedModule>,
}

/// What the system told about one process, call by call.
#[derive(Debug, Clone, PartialEq, Eq)]
pub struct ProcessProbe {
    /// The raw handle that opening the process gave; null when it failed.
    pub handle: usize,
    /// The path of the process image in UTF-16; empty when the system gave
    /// none.
    pub image_path: Vec<u16>,
    /// The loaded modules in the order of their enumeration; `None` when the
    /// enumeration failed.
    pub modules: Option<Vec<ModuleEntry>>,
    /// The platform error code after the first call that failed.
    pub last_error: u32,
}

/// A request to open a process.
#[derive(Debug, Clone, Copy, PartialEq, Eq)]
pub struct OpenRequest {
    pub process_id: u32,
    pub access: u32,
    pub inherit_handle: bool,
}

/// Whether `entry` carries the file path `path`.
pub open spec fn names_image(entry: ModuleEntry, path: Seq<char>) -> bool {
    &&& entry.file_path@.len() > 0
    &&& wide_well_formed(entry.file_path@)
    &&& wide_decode(entry.file_path@) == path
}

/// Whether `i` is the first among the first `bound` entries of `modules`
/// that carries the file path `path`.
pub open spec fn is_self_module_at(
    modules: Seq<ModuleEntry>,
    path: Seq<char>,
    bound: usize,
    i: int,
) -> bool {
    &&& 0 <= i < modules.len()
    &&& i < bound
    &&& names_image(modules[i], path)
    &&& forall|j: int| 0 <= j < i ==> !names_image(#[trigger] modules[j], path)
}

/// The main module of a process among `modules`: the first entry within
/// `bound` that carries `path` decides, by what the system told of where it
/// lies.
pub open spec fn self_module(
    modules: Seq<ModuleEntry>,
    path: Seq<char>,
    bound: usize,
    code: u32,
) -> AppResult<LoadedModule> {
    if exists|i: int| is_self_module_at(modules, path, bound, i) {
        let i = choose|i: int| is_self_module_at(modules, path, bound, i);
        match modules[i].info {
            Some(module) => Ok(module),
            None => Err(AppError::QueryFailed { code }),
        }
    } else {
        Err(AppError::ModuleNotFound { code })
    }
}

/// The image path that the wide text `units` stands for.
pub open spec fn image_file_path(units: Seq<u16>, code: u32) -> AppResult<Seq<char>> {
    if units.len() == 0 {
        Err(AppError::QueryFailed { code })
    } else if !wide_well_formed(units) {
        Err(AppError::NotFound { code })
    } else {
        Ok(wide_decode(units))
    }
}

/// What resolving process `id` comes to, given what the system told.
pub open spec fn resolution(id: u32, probe: ProcessProbe) -> AppResult<ProcessView> {
    if probe.handle == NULL_HANDLE {
        Err(AppError::open_failure(probe.last_error))
    } else {
        match image_file_path(probe.image_path@, probe.last_error) {
            Err(e) => Err(e),
            Ok(path) => match probe.modules {
                None => Err(AppError::QueryFailed { code: probe.last_error }),
                Some(modules) => match self_module(modules@, path, MAX_MODULES, probe.last_error) {
                    Err(e) => Err(e),
                    Ok(module) => Ok(
                        ProcessView {
                            id,
                            img_filepath: path,
                            base_addr: module.base_addr,
                            entry_point: module.entry_point,
                            img_size: module.img_size,
                        },
                    ),
                },
            },
        }
    }
}

impl Process {
    /// The rights that resolving a process asks for: to query it and to read
    /// its memory, and no more.
    pub fn query_access() -> (access: u32)
        ensures
            access == PROCESS_QUERY_INFORMATION | PROCESS_VM_READ,
            access == 0x0410,
    {
        assert(0x0400u32 | 0x0010u32 == 0x0410u32) by (bit_vector);
        PROCESS_QUERY_INFORMATION | PROCESS_VM_READ
    }

    /// The request that opens process `id` for resolving it.
    pub fn resolve_request(id: u32) -> (request: OpenRequest)
        ensures
            request == (OpenRequest { process_id: id, access: 0x0410, inherit_handle: false }),
    {
        OpenRequest { process_id: id, access: Self::query_access(), inherit_handle: false }
    }

    /// Turns the answer to an open request into a handle: a null `raw` is a
    /// failure, classified by `code`.
    pub fn opened(raw: usize, code: u32) -> (r: AppResult<Handle>)
        ensures
            raw == NULL_HANDLE ==> r == Err::<Handle, AppError>(AppError::open_failure(code)),
            raw != NULL_HANDLE ==> r is Ok && r->Ok_0.raw() == raw && r->Ok_0.is_open(),
    {
        match Handle::new(raw, code) {
            Ok(hdl) => Ok(hdl),
            Err(_) => Err(AppError::from_open_failure(code)),
        }
    }

    /// The path of the process image from the wide text `units` that the
    /// system wrote. No text means that the query failed; text that is not
    /// well-formed UTF-16 names no image.
    pub fn get_image_file_path(units: &[u16], code: u32) -> (r: AppResult<String>)
        ensures
            match r {
                Ok(path) => image_file_path(units@, code) == Ok::<Seq<char>, AppError>(path@),
                Err(e) => image_file_path(units@, code) == Err::<Seq<char>, AppError>(e),
            },
    {
        if units.len() == 0 {
            return Err(AppError::last_api_error(code));
        }
        match try_string_from_wide(units) {
            Some(path) => Ok(path),
            None => Err(AppError::NotFound { code }),
        }
    }

    /// How many modules an enumeration found, from the byte count that the
    /// system reported and the size of one module handle. The count is cut
    /// at `bound`, and the flag tells whether it was.
    pub fn module_count(bytes_needed: u32, handle_size: usize, bound: usize) -> (r: (usize, bool))
        requires
            handle_size > 0,
        ensures
            r.1 == (bytes_needed as int / handle_size as int > bound),
            r.0 == (if r.1 {
                bound as int
            } else {
                bytes_needed as int / handle_size as int
            }),
    {
        let found: usize = bytes_needed as usize / handle_size;
        if found > bound {
            (bound, true)
        } else {
            (found, false)
        }
    }

    /// Finds the main module of a process: the first of the first `bound`
    /// entries of `modules` whose file path is exactly `self_filepath`.
    /// Entries without a path, or with one that is not well-formed UTF-16,
    /// are passed over. Fails with `ModuleNotFound` when no entry matches,
    /// and with `QueryFailed` when the system would not tell where the
    /// matching module lies.
    pub fn get_self_as_loaded_module(
        modules: &Vec<ModuleEntry>,
        self_filepath: &str,
        bound: usize,
        code: u32,
    ) -> (r: AppResult<LoadedModule>)
        ensures
            r == self_module(modules@, self_filepath@, bound, code),
    {
        let wanted: String = self_filepath.to_owned();
        let mut i: usize = 0;
        while i < modules.len() && i < bound
            invariant
                i <= modules.len(),
                i <= bound,
                wanted@ == self_filepath@,
                forall|j: int| 0 <= j < i ==> !names_image(#[trigger] modules@[j], self_filepath@),
            decreases modules.len() - i,
        {
            let entry = &modules[i];
            if entry.file_path.len() > 0 {
                match try_string_from_wide(entry.file_path.as_slice()) {
                    Some(m_filepath) => {
                        if m_filepath == wanted {
                            assert(is_self_module_at(modules@, self_filepath@, bound, i as int));
                            proof {
                                Self::self_module_is_unique(modules@, self_filepath@, bound, i as int);
                            }
                            return match entry.info {
                                Some(module) => Ok(module),
                                None => Err(AppError::last_api_error(code)),
                            };
                        }
                    },
                    None => {},
                }
            }
            i += 1;
        }
        assert(forall|k: int| !is_self_module_at(modules@, self_filepath@, bound, k));
        Err(AppError::ModuleNotFound { code })
    }

    /// At most one index is the first match.
    proof fn self_module_is_unique(modules: Seq<ModuleEntry>, path: Seq<char>, bound: usize, i: int)
        requires
            is_self_module_at(modules, path, bound, i),
        ensures
            (choose|k: int| is_self_module_at(modules, path, bound, k)) == i,
    {
        let k = choose|k: int| is_self_module_at(modules, path, bound, k);
        assert(is_self_module_at(modules, path, bound, k));
        if k < i {
            assert(!names_image(modules[k], path));
        } else if i < k {
            assert(!names_image(modules[i], path));
        }
    }

    /// Resolves process `id` from what the system told about it: opening it
    /// must have given a handle, the image path must be there, and the first
    /// loaded module that carries that path gives base address, entry point
    /// and size.
    pub fn new(id: u32, probe: &ProcessProbe) -> (r: AppResult<Process>)
        ensures
            match r {
                Ok(process) => resolution(id, *probe) == Ok::<ProcessView, AppError>(process@),
                Err(e) => resolution(id, *probe) == Err::<ProcessView, AppError>(e),
            },
    {
        if probe.handle == NULL_HANDLE {
            return Err(AppError::from_open_failure(probe.last_error));
        }
        let img_filepath = match Self::get_image_file_path(
            probe.image_path.as_slice(),
            probe.last_error,
        ) {
            Ok(path) => path,
            Err(e) => {
                return Err(e);
            },
        };
        let modules = match &probe.modules {
            Some(modules) => modules,
            None => {
                return Err(AppError::last_api_error(probe.last_error));
            },
        };
        let self_mod = match Self::get_self_as_loaded_module(
            modules,
            img_filepath.as_str(),
            MAX_MODULES,
            probe.last_error,
        ) {
            Ok(module) => module,
            Err(e) => {
                return Err(e);
            },
        };
        Ok(
            Process {
                id,
                img_filepath,
                base_addr: self_mod.base_addr,
                img_size: self_mod.img_size,
                entry_point: self_mod.entry_point,
            },
        )
    }

    /// The request that opens this process with the rights `flag`, without
    /// handing the handle on to child processes.
    pub fn open_with_flag(&self, flag: u32) -> (request: OpenRequest)
        ensures
            request == (OpenRequest { process_id: self.id, access: flag, inherit_handle: false }),
    {
        OpenRequest { process_id: self.id, access: flag, inherit_handle: false }
    }
}

/// One entry of a snapshot of the processes of the system.
#[derive(Debug, Clone, Copy, PartialEq, Eq)]
pub struct ProcessEntry {
    pub process_id: u32,
    pub parent_process_id: u32,
    pub thread_count: u32,
}

/// A process that was executing when the snapshot was taken.
#[derive(Debug, Clone, PartialEq, Eq)]
pub struct ExecutingProcess {
    pub proc: Process,
    /// The id of the process that created this one.
    pub parent_id: u32,
    pub threads: u32,
}

/// How far the walk over a snapshot has come.
#[derive(Debug, Clone, Copy, PartialEq, Eq)]
pub enum SnapshotState {
    /// No entry was fetched yet.
    NotStarted,
    /// The entry was fetched and its process waits to be resolved.
    Resolving(ProcessEntry),
    /// The entry is done with; the one behind it is due.
    Visited(ProcessEntry),
    /// The snapshot holds no further entry.
    Exhausted,
}

/// What the walk over a snapshot asks of the system next.
#[derive(Debug, Clone, Copy, PartialEq, Eq)]
pub enum SnapshotRequest {
    /// Fetch the first entry of the snapshot.
    First,
    /// Fetch the entry behind the one fetched last.
    Next,
    /// Resolve the process with this id.
    Resolve { process_id: u32 },
    /// Nothing: the walk is over.
    Done,
}

/// The request that a walk in `state` makes.
pub open spec fn request_in(state: SnapshotState) -> SnapshotRequest {
    match state {
        SnapshotState::NotStarted => SnapshotRequest::First,
        SnapshotState::Resolving(entry) => SnapshotRequest::Resolve { process_id: entry.process_id },
        SnapshotState::Visited(_) => SnapshotRequest::Next,
        SnapshotState::Exhausted => SnapshotRequest::Done,
    }
}

/// The state of a walk in `state` after the system answered a fetch with
/// `entry`: an entry waits to be resolved, and no entry ends the walk. A
/// walk that asked for no entry stays as it is.
pub open spec fn after_fetch(state: SnapshotState, entry: Option<ProcessEntry>) -> SnapshotState {
    match state {
        SnapshotState::NotStarted | SnapshotState::Visited(_) => match entry {
            Some(e) => SnapshotState::Resolving(e),
            None => SnapshotState::Exhausted,
        },
        _ => state,
    }
}

/// The state of a walk in `state` after the process of its entry was
/// resolved or failed to be.
pub open spec fn after_resolve(state: SnapshotState) -> SnapshotState {
    match state {
        SnapshotState::Resolving(entry) => SnapshotState::Visited(entry),
        _ => state,
    }
}

/// What a walk yields for `entry` when resolving its process came to
/// `resolved`: the process with the parent id and the thread count of the
/// entry, or nothing when it was not resolved.
pub open spec fn yield_of(entry: ProcessEntry, resolved: AppResult<Process>) -> Seq<
    ExecutingProcess,
> {
    match resolved {
        Ok(proc) => seq![
            ExecutingProcess {
                proc,
                parent_id: entry.parent_process_id,
                threads: entry.thread_count,
            },
        ],
        Err(_) => Seq::empty(),
    }
}

/// The processes that a walk yields of a snapshot that lists `entries`,
/// when resolving the process with id `id` comes to `outcome(id)`.
pub open spec fn walked(
    entries: Seq<ProcessEntry>,
    outcome: spec_fn(u32) -> AppResult<Process>,
) -> Seq<ExecutingProcess>
    decreases entries.len(),
{
    if entries.len() == 0 {
        Seq::empty()
    } else {
        yield_of(entries[0], outcome(entries[0].process_id)) + walked(entries.skip(1), outcome)
    }
}

/// Walker over a snapshot of the processes of the system, entry by entry.
///
/// The walk is driven from outside: `request` tells what to ask of the
/// system, `accept` takes a fetched entry and `next` takes the outcome of
/// resolving its process.
pub struct ProcessesSnapshot {
    snapshot_hdl: usize,
    state: SnapshotState,
}

impl ProcessesSnapshot {
    /// The raw handle of the snapshot.
    pub closed spec fn raw_handle(&self) -> usize {
        self.snapshot_hdl
    }

    /// How far the walk has come.
    pub closed spec fn state(&self) -> SnapshotState {
        self.state
    }

    /// The processes that the walk has yet to yield when the snapshot lists
    /// `rest` behind the entry fetched last, and resolving the process with
    /// id `id` comes to `outcome(id)`.
    pub open spec fn pending(
        &self,
        rest: Seq<ProcessEntry>,
        outcome: spec_fn(u32) -> AppResult<Process>,
    ) -> Seq<ExecutingProcess> {
        match self.state() {
            SnapshotState::Resolving(entry) => walked(seq![entry] + rest, outcome),
            SnapshotState::NotStarted | SnapshotState::Visited(_) => walked(rest, outcome),
            SnapshotState::Exhausted => Seq::empty(),
        }
    }

    /// Turns the answer to the request for a snapshot into a handle. The
    /// value with all bits set reports that no snapshot could be taken, and
    /// so does the null value.
    pub fn snapshot_handle(raw: usize, code: u32) -> (r: AppResult<Handle>)
        ensures
            raw == INVALID_HANDLE_VALUE || raw == NULL_HANDLE ==> r == Err::<Handle, AppError>(
                AppError::ResourceUnavailable { code },
            ),
            raw != INVALID_HANDLE_VALUE && raw != NULL_HANDLE ==> r is Ok && r->Ok_0.raw() == raw
                && r->Ok_0.is_open(),
    {
        if raw == INVALID_HANDLE_VALUE {
            Err(AppError::ResourceUnavailable { code })
        } else {
            Handle::new(raw, code)
        }
    }

    /// A walk over the snapshot behind `snapshot_hdl` that has not started.
    /// The handle is borrowed: the snapshot is released by its owner.
    pub fn new(snapshot_hdl: &Handle) -> (r: AppResult<Self>)
        ensures
            r is Ok,
            r->Ok_0.raw_handle() == snapshot_hdl.raw(),
            r->Ok_0.state() == SnapshotState::NotStarted,
    {
        Ok(ProcessesSnapshot { snapshot_hdl: usize::from(snapshot_hdl), state: SnapshotState::NotStarted })
    }

    /// The raw handle of the snapshot, to pass to the system.
    pub fn handle(&self) -> (raw: usize)
        ensures
            raw == self.raw_handle(),
    {
        self.snapshot_hdl
    }

    /// What to ask of the system next.
    pub fn request(&self) -> (request: SnapshotRequest)
        ensures
            request == request_in(self.state()),
    {
        match self.state {
            SnapshotState::NotStarted => SnapshotRequest::First,
            SnapshotState::Resolving(entry) => SnapshotRequest::Resolve {
                process_id: entry.process_id,
            },
            SnapshotState::Visited(_) => SnapshotRequest::Next,
            SnapshotState::Exhausted => SnapshotRequest::Done,
        }
    }

    /// Takes the answer to a fetch: `entry` is the entry that the system
    /// gave, or `None` when the snapshot holds no further entry or the fetch
    /// failed, which ends the walk.
    pub fn accept(&mut self, entry: Option<ProcessEntry>)
        ensures
            final(self).state() == after_fetch(old(self).state(), entry),
            final(self).raw_handle() == old(self).raw_handle(),
            forall|rest: Seq<ProcessEntry>, outcome: spec_fn(u32) -> AppResult<Process>|
                request_in(old(self).state()) is First || request_in(old(self).state()) is Next
                    ==> #[trigger] final(self).pending(rest, outcome) == (match entry {
                    Some(e) => old(self).pending(seq![e] + rest, outcome),
                    None => Seq::empty(),
                }),
    {
        match self.state {
            SnapshotState::NotStarted | SnapshotState::Visited(_) => {
                self.state = match entry {
                    Some(e) => SnapshotState::Resolving(e),
                    None => SnapshotState::Exhausted,
                };
            },
            _ => {},
        }
    }

    /// Takes the outcome of resolving the process of the entry fetched last.
    /// A process that was resolved is yielded with the parent id and the
    /// thread count of its entry; one that was not is passed over in
    /// silence. Either way the entry is done with. A walk that waits for no
    /// such outcome yields nothing and stays as it is.
    pub fn next(&mut self, resolved: AppResult<Process>) -> (executing: Option<ExecutingProcess>)
        ensures
            final(self).state() == after_resolve(old(self).state()),
            final(self).raw_handle() == old(self).raw_handle(),
            match (old(self).state(), resolved) {
                (SnapshotState::Resolving(entry), Ok(proc)) => executing == Some(
                    ExecutingProcess {
                        proc,
                        parent_id: entry.parent_process_id,
                        threads: entry.thread_count,
                    },
                ),
                _ => executing is None,
            },
            forall|rest: Seq<ProcessEntry>, outcome: spec_fn(u32) -> AppResult<Process>|
                (old(self).state() matches SnapshotState::Resolving(entry) && outcome(
                    entry.process_id,
                ) == resolved) ==> #[trigger] old(self).pending(rest, outcome) == (match executing {
                    Some(found) => seq![found],
                    None => Seq::empty(),
                }) + final(self).pending(rest, outcome),
    {
        proof {
            assert forall|rest: Seq<ProcessEntry>, outcome: spec_fn(u32) -> AppResult<Process>|
                (old(self).state() matches SnapshotState::Resolving(entry) && outcome(
                    entry.process_id,
                ) == resolved) implies #[trigger] walked(
                seq![old(self).state()->Resolving_0] + rest,
                outcome,
            ) == yield_of(old(self).state()->Resolving_0, resolved) + walked(rest, outcome) by {
                assert((seq![old(self).state()->Resolving_0] + rest).skip(1) =~= rest);
            }
        }
        match self.state {
            SnapshotState::Resolving(entry) => {
                self.state = SnapshotState::Visited(entry);
                match resolved {
                    Ok(proc) => Some(
                        ExecutingProcess {
                            proc,
                            parent_id: entry.parent_process_id,
                            threads: entry.thread_count,
                        },
                    ),
                    Err(_) => None,
                }
            },
            _ => None,
        }
    }
}

/// A walk yields every process that the snapshot lists and that is
/// resolved, with the parent id and the thread count of its entry.
pub proof fn walk_yields_resolved(
    entries: Seq<ProcessEntry>,
    outcome: spec_fn(u32) -> AppResult<Process>,
    i: int,
)
    requires
        0 <= i < entries.len(),
        outcome(entries[i].process_id) is Ok,
    ensures
        walked(entries, outcome).contains(
            ExecutingProcess {
                proc: outcome(entries[i].process_id)->Ok_0,
                parent_id: entries[i].parent_process_id,
                threads: entries[i].thread_count,
            },
        ),
    decreases entries.len(),
{
    let head = yield_of(entries[0], outcome(entries[0].process_id));
    let tail = walked(entries.skip(1), outcome);
    let wanted = ExecutingProcess {
        proc: outcome(entries[i].process_id)->Ok_0,
        parent_id: entries[i].parent_process_id,
        threads: entries[i].thread_count,
    };
    if i == 0 {
        assert((head + tail)[0] == wanted);
    } else {
        walk_yields_resolved(entries.skip(1), outcome, i - 1);
        let k = choose|k: int| 0 <= k < tail.len() && tail[k] == wanted;
        assert((head + tail)[head.len() + k] == wanted);
    }
}

} // verus!
