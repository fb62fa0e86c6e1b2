use vstd::arithmetic::div_mod::{lemma_fundamental_div_mod, lemma_mod_bound};
use vstd::prelude::*;

use crate::error::{AppError, AppResult};
use crate::memory::{
    advance, answers_from, layout_bases_increase, layout_ends_within, partitions, region_at,
    regions_of, scan, scan_covers_range, step, ProcessMemoryMapping, Region, RegionInfo,
};

verus! {

/// One lookup of a bulk scan: the allocation base that was asked about, and
/// what the system answered.
#[derive(Debug, Clone, Copy, PartialEq, Eq)]
pub struct Lookup {
    pub base: usize,
    pub answer: Option<RegionInfo>,
}

/// The allocation bases `seen`, with `base` added at the end unless it is
/// among them already.
pub open spec fn record(seen: Seq<usize>, base: usize) -> Seq<usize> {
    if seen.contains(base) {
        seen
    } else {
        seen.push(base)
    }
}

/// The allocation bases known after the answer `answer` to a query at
/// `cursor`, when `seen` were known before: an answer that moves the scan
/// forward adds its allocation base.
pub open spec fn noted(cursor: Option<usize>, answer: Option<RegionInfo>, seen: Seq<usize>) -> Seq<
    usize,
> {
    match (cursor, answer) {
        (Some(at), Some(info)) => if advance(at, info) is Some {
            record(seen, info.allocation_base)
        } else {
            seen
        },
        _ => seen,
    }
}

/// The distinct allocation bases, in the order of their discovery, that a
/// scan from `cursor` up to `max` comes to know of a process that answers
/// by `target`, when it knew `seen` before.
pub open spec fn discovered(
    target: spec_fn(usize) -> Option<RegionInfo>,
    cursor: usize,
    max: usize,
    seen: Seq<usize>,
) -> Seq<usize>
    decreases (if cursor < max {
        max - cursor
    } else {
        0
    }),
{
    if cursor >= max {
        seen
    } else {
        match target(cursor) {
            Some(info) => match advance(cursor, info) {
                Some(next) => discovered(target, next, max, record(seen, info.allocation_base)),
                None => seen,
            },
            None => seen,
        }
    }
}

/// How many of `lookups` failed.
pub open spec fn failed_lookups(lookups: Seq<Lookup>) -> nat
    decreases lookups.len(),
{
    if lookups.len() == 0 {
        0
    } else {
        failed_lookups(lookups.drop_last()) + (if lookups.last().answer is None {
            1nat
        } else {
            0nat
        })
    }
}

/// The result of a bulk scan with the lookups `lookups`: one region for
/// each lookup, in their order, unless a lookup failed.
pub open spec fn assembled(lookups: Seq<Lookup>) -> AppResult<Seq<Region>> {
    if failed_lookups(lookups) == 0 {
        Ok(Seq::new(lookups.len(), |i: int| region_at(lookups[i].base, lookups[i].answer->0)))
    } else {
        Err(AppError::Aggregate { failed: failed_lookups(lookups) as usize })
    }
}

/// The lookups of the allocation bases `bases` in a process that answers by
/// `target`.
pub open spec fn lookups_of(target: spec_fn(usize) -> Option<RegionInfo>, bases: Seq<usize>) -> Seq<
    Lookup,
> {
    Seq::new(bases.len(), |i: int| Lookup { base: bases[i], answer: target(bases[i]) })
}

/// The result of a bulk scan of the range from `min` to `max` of a process
/// that answers by `target`: the allocation bases are discovered first, and
/// each is then looked up by itself.
pub open spec fn bulk_scan(
    target: spec_fn(usize) -> Option<RegionInfo>,
    min: usize,
    max: usize,
) -> AppResult<Seq<Region>> {
    assembled(lookups_of(target, discovered(target, min, max, Seq::empty())))
}

impl ProcessMemoryMapping {
    /// The allocation bases that the discovery knows in the end, when it
    /// knows `seen` by now, of a process that answers by `target`.
    pub open spec fn discovery(
        &self,
        target: spec_fn(usize) -> Option<RegionInfo>,
        seen: Seq<usize>,
    ) -> Seq<usize> {
        match self.cursor() {
            Some(at) => discovered(target, at, self.max_addr(), seen),
            None => seen,
        }
    }

    /// The first phase of a bulk scan: takes the answer to the query at the
    /// address that `request` gave, like `next`, but keeps only the
    /// allocation base of the region, at the end of `bases` and only if it
    /// is not among them yet. Returns the base that was added, if one was.
    pub fn discover(&mut self, answer: Option<RegionInfo>, bases: &mut Vec<usize>) -> (added: Option<
        usize,
    >)
        ensures
            final(self).state() == step(old(self).cursor(), old(self).max_addr(), answer).0,
            final(self).min_addr() == old(self).min_addr(),
            final(self).max_addr() == old(self).max_addr(),
            final(self).handle() == old(self).handle(),
            final(bases)@ == noted(old(self).cursor(), answer, old(bases)@),
            added == (if final(bases)@.len() > old(bases)@.len() {
                Some(final(bases)@.last())
            } else {
                None
            }),
            forall|target: spec_fn(usize) -> Option<RegionInfo>|
                (old(self).cursor() matches Some(at) ==> target(at) == answer) ==> #[trigger] old(
                    self,
                ).discovery(target, old(bases)@) == final(self).discovery(target, final(bases)@),
    {
        let found = self.next(answer);
        let added = match (found, answer) {
            (Some(_), Some(info)) => {
                if contains_base(bases, info.allocation_base) {
                    None
                } else {
                    bases.push(info.allocation_base);
                    Some(info.allocation_base)
                }
            },
            _ => None,
        };
        proof {
            let max = self.max_addr();
            assert forall|target: spec_fn(usize) -> Option<RegionInfo>|
                (old(self).cursor() matches Some(at) ==> target(at) == answer) implies #[trigger] old(
                self,
            ).discovery(target, old(bases)@) == self.discovery(target, bases@) by {
                if let (Some(at), Some(info)) = (old(self).cursor(), answer) {
                    if let Some(next) = advance(at, info) {
                        assert(discovered(target, at, max, old(bases)@) == discovered(
                            target,
                            next,
                            max,
                            bases@,
                        ));
                        if next >= max {
                            assert(discovered(target, next, max, bases@) == bases@);
                        }
                    }
                }
            }
        }
        added
    }

    /// The second phase of a bulk scan: the regions for the lookups
    /// `lookups`, in their order. One failed lookup fails the whole scan
    /// with `Aggregate`, which tells how many failed.
    pub fn assemble(lookups: &Vec<Lookup>) -> (r: AppResult<Vec<Region>>)
        ensures
            match r {
                Ok(regions) => assembled(lookups@) == Ok::<Seq<Region>, AppError>(regions@),
                Err(e) => assembled(lookups@) == Err::<Seq<Region>, AppError>(e),
            },
    {
        let mut regions: Vec<Region> = Vec::new();
        let mut failed: usize = 0;
        let mut i: usize = 0;
        while i < lookups.len()
            invariant
                i <= lookups.len(),
                failed == failed_lookups(lookups@.take(i as int)),
                failed <= i,
                failed == 0 ==> regions@ == Seq::new(
                    i as nat,
                    |k: int| region_at(lookups@[k].base, lookups@[k].answer->0),
                ),
            decreases lookups.len() - i,
        {
            assert(lookups@.take(i + 1).drop_last() =~= lookups@.take(i as int));
            match lookups[i].answer {
                Some(info) => {
                    regions.push(Region::new(lookups[i].base, &info));
                },
                None => {
                    failed += 1;
                },
            }
            i += 1;
            assert(failed == 0 ==> regions@ =~= Seq::new(
                i as nat,
                |k: int| region_at(lookups@[k].base, lookups@[k].answer->0),
            ));
        }
        assert(lookups@.take(i as int) =~= lookups@);
        if failed == 0 {
            Ok(regions)
        } else {
            Err(AppError::Aggregate { failed })
        }
    }
}

/// How many lookups each worker takes when `total` lookups are shared out
/// among `workers` workers (one worker, where `workers` is zero): the least
/// count, and at least one, with which no more than `workers` workers have
/// anything to do.
pub fn worker_share(total: usize, workers: usize) -> (share: usize)
    ensures
        share >= 1,
        share * (if workers == 0 {
            1
        } else {
            workers as int
        }) >= total,
        total > 0 ==> (share - 1) * (if workers == 0 {
            1
        } else {
            workers as int
        }) < total,
        total == 0 ==> share == 1,
{
    let pool: usize = if workers == 0 {
        1
    } else {
        workers
    };
    let full: usize = total / pool;
    let left: usize = total % pool;
    proof {
        lemma_fundamental_div_mod(total as int, pool as int);
        lemma_mod_bound(total as int, pool as int);
        assert(pool * full == full * pool) by (nonlinear_arith);
        assert((full + 1) * pool == full * pool + pool) by (nonlinear_arith);
        assert((full - 1) * pool == full * pool - pool) by (nonlinear_arith);
        assert(full * pool >= full) by (nonlinear_arith)
            requires
                pool >= 1,
                full >= 0,
        ;
        if full == 0 {
            assert(full * pool == 0) by (nonlinear_arith)
                requires
                    full == 0,
            ;
        }
    }
    if left != 0 {
        full + 1
    } else if full == 0 {
        1
    } else {
        full
    }
}

/// Tells whether `base` is among `bases`.
fn contains_base(bases: &Vec<usize>, base: usize) -> (found: bool)
    ensures
        found == bases@.contains(base),
{
    let mut i: usize = 0;
    while i < bases.len()
        invariant
            i <= bases.len(),
            forall|k: int| 0 <= k < i ==> bases@[k] != base,
        decreases bases.len() - i,
    {
        if bases[i] == base {
            return true;
        }
        i += 1;
    }
    false
}

/// The allocation bases of the regions `layout`.
pub open spec fn bases_of(layout: Seq<RegionInfo>) -> Seq<usize> {
    Seq::new(layout.len(), |i: int| layout[i].allocation_base)
}

/// A discovery that begins at the start of a region of a layout, knowing
/// the bases before it, comes to know the bases of all regions.
proof fn discovered_of_suffix(
    target: spec_fn(usize) -> Option<RegionInfo>,
    layout: Seq<RegionInfo>,
    min: usize,
    max: usize,
    k: int,
)
    requires
        partitions(layout, min, max),
        answers_from(target, layout),
        0 <= k < layout.len(),
    ensures
        discovered(target, layout[k].allocation_base, max, bases_of(layout).take(k)) == bases_of(
            layout,
        ),
    decreases layout.len() - k,
{
    let at = layout[k].allocation_base;
    let info = layout[k];
    let seen = bases_of(layout).take(k);
    layout_ends_within(layout, min, max, k);
    assert(target(at) == Some(info));
    let next = advance(at, info)->0;
    assert(advance(at, info) == Some(next));
    assert forall|i: int| 0 <= i < seen.len() implies seen[i] != at by {
        layout_bases_increase(layout, min, max, i, k);
    }
    assert(!seen.contains(at));
    assert(record(seen, at) =~= bases_of(layout).take(k + 1));
    assert(discovered(target, at, max, seen) == discovered(
        target,
        next,
        max,
        bases_of(layout).take(k + 1),
    ));
    if k < layout.len() - 1 {
        assert(next == layout[k + 1].allocation_base);
        discovered_of_suffix(target, layout, min, max, k + 1);
    } else {
        assert(next == max);
        assert(bases_of(layout).take(k + 1) =~= bases_of(layout));
    }
}

/// Lookups that all succeeded count no failure.
proof fn no_failed_lookups(lookups: Seq<Lookup>)
    requires
        forall|i: int| 0 <= i < lookups.len() ==> (#[trigger] lookups[i]).answer is Some,
    ensures
        failed_lookups(lookups) == 0,
    decreases lookups.len(),
{
    if lookups.len() > 0 {
        no_failed_lookups(lookups.drop_last());
    }
}

/// The discovery in a process whose regions are `layout` comes to know the
/// bases of all of them, in their order.
proof fn discovered_of_layout(
    target: spec_fn(usize) -> Option<RegionInfo>,
    layout: Seq<RegionInfo>,
    min: usize,
    max: usize,
)
    requires
        partitions(layout, min, max),
        answers_from(target, layout),
    ensures
        discovered(target, min, max, Seq::empty()) == bases_of(layout),
{
    if min < max {
        assert(bases_of(layout).take(0) =~= Seq::<usize>::empty());
        discovered_of_suffix(target, layout, min, max, 0);
    } else {
        assert(bases_of(layout) =~= Seq::<usize>::empty());
    }
}

/// Looking up the bases of the regions `layout` gives those regions.
proof fn assembled_of_layout(target: spec_fn(usize) -> Option<RegionInfo>, layout: Seq<RegionInfo>)
    requires
        answers_from(target, layout),
    ensures
        assembled(lookups_of(target, bases_of(layout))) == Ok::<Seq<Region>, AppError>(
            regions_of(layout),
        ),
{
    let lookups = lookups_of(target, bases_of(layout));
    assert forall|i: int| 0 <= i < lookups.len() implies (#[trigger] lookups[i]).answer == Some(
        layout[i],
    ) by {
        assert(target(layout[i].allocation_base) == Some(layout[i]));
    }
    no_failed_lookups(lookups);
    assert(assembled(lookups)->Ok_0 =~= regions_of(layout));
}

/// Of a process that does not change, and whose regions lie one after
/// another from `min` to `max`, the bulk scan succeeds and yields the
/// regions that the sequential scan yields, in the same order; so both
/// yield the same set of pairs of base and size.
pub proof fn bulk_matches_sequential(
    target: spec_fn(usize) -> Option<RegionInfo>,
    layout: Seq<RegionInfo>,
    min: usize,
    max: usize,
)
    requires
        partitions(layout, min, max),
        answers_from(target, layout),
    ensures
        bulk_scan(target, min, max) == Ok::<Seq<Region>, AppError>(scan(target, min, max)),
        bulk_scan(target, min, max)->Ok_0.map_values(|r: Region| (r.base_addr, r.size)).to_set()
            == scan(target, min, max).map_values(|r: Region| (r.base_addr, r.size)).to_set(),
{
    assert(scan(target, min, max) == regions_of(layout)) by {
        scan_covers_range(target, layout, min, max);
    }
    discovered_of_layout(target, layout, min, max);
    assembled_of_layout(target, layout);
}

} // verus!
