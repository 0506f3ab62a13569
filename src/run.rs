//! A whole synchronisation run, seen sequentially: the candidates in the order
//! in which the coordinator receives them, and the set of destination paths that
//! exist. Exclusive create makes concurrent copies behave as this sequence
//! does: a create succeeds exactly when nothing stands at its path.
use vstd::prelude::*;
use crate::coordinator::{decide, destination, statistic_of, CreateOutcome, Decision};
use crate::paths::file_name;
use crate::scanner::is_candidate;
use crate::stats::{count, empty_tally, Statistic, TallyView};

verus! {

/// The state of a run: its counts, the destination paths that exist, and the
/// destinations of the copies dispatched so far, in dispatch order.
pub struct RunView {
    pub tally: TallyView,
    pub existing: Set<Seq<u8>>,
    pub dispatched: Seq<Seq<u8>>,
}

/// What an exclusive create at `dest` meets, where `existing` exists.
pub open spec fn create_in(existing: Set<Seq<u8>>, dest: Seq<u8>) -> CreateOutcome {
    if existing.contains(dest) {
        CreateOutcome::AlreadyExists
    } else {
        CreateOutcome::Created
    }
}

/// The run after it has met one more walked path.
pub open spec fn step(
    dest_dir: Seq<u8>,
    exts: Seq<Seq<u8>>,
    dry_run: bool,
    r: RunView,
    path: Seq<u8>,
) -> RunView {
    if !is_candidate(path, exts) {
        r
    } else {
        let t = count(r.tally, Statistic::FoundSrcDocument);
        match destination(dest_dir, path) {
            None => RunView { tally: t, ..r },
            Some(d) => {
                let outcome = if dry_run {
                    CreateOutcome::NotAttempted
                } else {
                    create_in(r.existing, d)
                };
                let decision = decide(dry_run, outcome);
                let t2 = match statistic_of(decision) {
                    Some(s) => count(t, s),
                    None => t,
                };
                if decision == Decision::Dispatch {
                    RunView {
                        tally: t2,
                        existing: if dry_run {
                            r.existing
                        } else {
                            r.existing.insert(d)
                        },
                        dispatched: r.dispatched.push(d),
                    }
                } else {
                    RunView { tally: t2, ..r }
                }
            },
        }
    }
}

/// The run from `start` over the walked paths `paths`.
pub open spec fn run_from(
    dest_dir: Seq<u8>,
    exts: Seq<Seq<u8>>,
    dry_run: bool,
    start: RunView,
    paths: Seq<Seq<u8>>,
) -> RunView
    decreases paths.len(),
{
    if paths.len() == 0 {
        start
    } else {
        step(
            dest_dir,
            exts,
            dry_run,
            run_from(dest_dir, exts, dry_run, start, paths.drop_last()),
            paths.last(),
        )
    }
}

/// A run over `paths` against a destination where `existing` exists.
pub open spec fn run(
    dest_dir: Seq<u8>,
    exts: Seq<Seq<u8>>,
    dry_run: bool,
    existing: Set<Seq<u8>>,
    paths: Seq<Seq<u8>>,
) -> RunView {
    run_from(
        dest_dir,
        exts,
        dry_run,
        RunView { tally: empty_tally(), existing, dispatched: Seq::empty() },
        paths,
    )
}

/// Every walked path has a file name, as every entry of a directory walk does.
pub open spec fn all_named(paths: Seq<Seq<u8>>) -> bool {
    forall|i: int| 0 <= i < paths.len() ==> (#[trigger] file_name(paths[i])) is Some
}

proof fn lemma_all_named_prefix(paths: Seq<Seq<u8>>)
    requires
        all_named(paths),
        paths.len() > 0,
    ensures
        all_named(paths.drop_last()),
        file_name(paths.last()) is Some,
{
    assert forall|i: int| 0 <= i < paths.drop_last().len() implies (#[trigger] file_name(
        paths.drop_last()[i],
    )) is Some by {
        assert(paths.drop_last()[i] == paths[i]);
    }
}

/// Conservation: where every walked path has a file name, every document found
/// ends as exactly one of skipped or copied, so `found == skipped + copied`.
pub proof fn lemma_found_is_skipped_plus_copied(
    dest_dir: Seq<u8>,
    exts: Seq<Seq<u8>>,
    dry_run: bool,
    existing: Set<Seq<u8>>,
    paths: Seq<Seq<u8>>,
)
    requires
        all_named(paths),
    ensures
        ({
            let t = run(dest_dir, exts, dry_run, existing, paths).tally;
            t.found == t.skipped + t.copied
        }),
    decreases paths.len(),
{
    if paths.len() > 0 {
        lemma_all_named_prefix(paths);
        lemma_found_is_skipped_plus_copied(dest_dir, exts, dry_run, existing, paths.drop_last());
    }
}

/// A dry run leaves the destination as it found it, and a second dry run
/// reports the same counts as the first.
pub proof fn lemma_dry_run_changes_nothing(
    dest_dir: Seq<u8>,
    exts: Seq<Seq<u8>>,
    existing: Set<Seq<u8>>,
    paths: Seq<Seq<u8>>,
)
    ensures
        run(dest_dir, exts, true, existing, paths).existing == existing,
        run(
            dest_dir,
            exts,
            true,
            run(dest_dir, exts, true, existing, paths).existing,
            paths,
        ).tally == run(dest_dir, exts, true, existing, paths).tally,
    decreases paths.len(),
{
    if paths.len() > 0 {
        lemma_dry_run_changes_nothing(dest_dir, exts, existing, paths.drop_last());
    }
}

/// A real run ends with the destination of every candidate existing, and with
/// everything that existed before still there.
proof fn lemma_real_run_covers(
    dest_dir: Seq<u8>,
    exts: Seq<Seq<u8>>,
    existing: Set<Seq<u8>>,
    paths: Seq<Seq<u8>>,
)
    ensures
        existing.subset_of(run(dest_dir, exts, false, existing, paths).existing),
        forall|i: int|
            0 <= i < paths.len() && is_candidate(paths[i], exts) && (#[trigger] destination(
                dest_dir,
                paths[i],
            )) is Some ==> run(dest_dir, exts, false, existing, paths).existing.contains(
                destination(dest_dir, paths[i]).unwrap(),
            ),
    decreases paths.len(),
{
    if paths.len() > 0 {
        let prefix = paths.drop_last();
        lemma_real_run_covers(dest_dir, exts, existing, prefix);
        let before = run(dest_dir, exts, false, existing, prefix);
        let after = run(dest_dir, exts, false, existing, paths);
        assert(before.existing.subset_of(after.existing));
        assert forall|i: int|
            0 <= i < paths.len() && is_candidate(paths[i], exts) && (#[trigger] destination(
                dest_dir,
                paths[i],
            )) is Some implies after.existing.contains(
            destination(dest_dir, paths[i]).unwrap(),
        ) by {
            if i < paths.len() - 1 {
                assert(paths[i] == prefix[i]);
            }
        }
    }
}

/// A real run in which the destination of every candidate already exists
/// copies nothing, skips every named candidate, and changes nothing.
proof fn lemma_real_run_over_covered(
    dest_dir: Seq<u8>,
    exts: Seq<Seq<u8>>,
    existing: Set<Seq<u8>>,
    paths: Seq<Seq<u8>>,
)
    requires
        all_named(paths),
        forall|i: int|
            0 <= i < paths.len() && is_candidate(paths[i], exts) && (#[trigger] destination(
                dest_dir,
                paths[i],
            )) is Some ==> existing.contains(destination(dest_dir, paths[i]).unwrap()),
    ensures
        run(dest_dir, exts, false, existing, paths).existing == existing,
        run(dest_dir, exts, false, existing, paths).tally.copied == 0,
        run(dest_dir, exts, false, existing, paths).tally.skipped == run(
            dest_dir,
            exts,
            false,
            existing,
            paths,
        ).tally.found,
    decreases paths.len(),
{
    if paths.len() > 0 {
        let prefix = paths.drop_last();
        lemma_all_named_prefix(paths);
        assert forall|i: int|
            0 <= i < prefix.len() && is_candidate(prefix[i], exts) && (#[trigger] destination(
                dest_dir,
                prefix[i],
            )) is Some implies existing.contains(destination(dest_dir, prefix[i]).unwrap()) by {
            assert(prefix[i] == paths[i]);
        }
        lemma_real_run_over_covered(dest_dir, exts, existing, prefix);
        let last = paths.len() - 1;
        assert(paths.last() == paths[last]);
        if is_candidate(paths.last(), exts) {
            assert(destination(dest_dir, paths[last]) is Some);
        }
    }
}

/// Idempotence: a second real run over the same paths, against what the first
/// left, copies nothing and skips every document that it finds.
pub proof fn lemma_second_run_copies_nothing(
    dest_dir: Seq<u8>,
    exts: Seq<Seq<u8>>,
    existing: Set<Seq<u8>>,
    paths: Seq<Seq<u8>>,
)
    requires
        all_named(paths),
    ensures
        ({
            let first = run(dest_dir, exts, false, existing, paths);
            let second = run(dest_dir, exts, false, first.existing, paths);
            second.tally.copied == 0 && second.tally.skipped == second.tally.found
        }),
{
    let first = run(dest_dir, exts, false, existing, paths);
    lemma_real_run_covers(dest_dir, exts, existing, paths);
    lemma_real_run_over_covered(dest_dir, exts, first.existing, paths);
}

/// In a real run no two dispatched copies share a destination, and none
/// targets a path that existed before the run.
pub proof fn lemma_dispatched_destinations_distinct(
    dest_dir: Seq<u8>,
    exts: Seq<Seq<u8>>,
    existing: Set<Seq<u8>>,
    paths: Seq<Seq<u8>>,
)
    ensures
        run(dest_dir, exts, false, existing, paths).dispatched.no_duplicates(),
        forall|i: int|
            0 <= i < run(dest_dir, exts, false, existing, paths).dispatched.len()
                ==> !existing.contains(
                #[trigger] run(dest_dir, exts, false, existing, paths).dispatched[i],
            ),
        forall|i: int|
            0 <= i < run(dest_dir, exts, false, existing, paths).dispatched.len() ==> run(
                dest_dir,
                exts,
                false,
                existing,
                paths,
            ).existing.contains(#[trigger] run(dest_dir, exts, false, existing, paths).dispatched[i]),
    decreases paths.len(),
{
    if paths.len() > 0 {
        let prefix = paths.drop_last();
        lemma_dispatched_destinations_distinct(dest_dir, exts, existing, prefix);
        lemma_real_run_covers(dest_dir, exts, existing, prefix);
        let before = run(dest_dir, exts, false, existing, prefix);
        let after = run(dest_dir, exts, false, existing, paths);
        if after.dispatched.len() > before.dispatched.len() {
            let d = after.dispatched.last();
            assert(!before.existing.contains(d));
            assert forall|i: int| 0 <= i < after.dispatched.len() implies !existing.contains(
                #[trigger] after.dispatched[i],
            ) && after.existing.contains(after.dispatched[i]) by {
                if i < before.dispatched.len() {
                    assert(after.dispatched[i] == before.dispatched[i]);
                }
            }
            assert forall|i: int, j: int|
                0 <= i < after.dispatched.len() && 0 <= j < after.dispatched.len() && i != j
                    implies after.dispatched[i] != after.dispatched[j] by {
                if i < before.dispatched.len() && j < before.dispatched.len() {
                    assert(after.dispatched[i] == before.dispatched[i]);
                    assert(after.dispatched[j] == before.dispatched[j]);
                } else if i < before.dispatched.len() {
                    assert(after.dispatched[i] == before.dispatched[i]);
                    assert(before.existing.contains(before.dispatched[i]));
                } else if j < before.dispatched.len() {
                    assert(after.dispatched[j] == before.dispatched[j]);
                    assert(before.existing.contains(before.dispatched[j]));
                }
            }
        }
    }
}

/// Exclusive-create race: two candidates that resolve to one destination, which
/// does not exist yet, end as one copy and one skip, whichever comes first.
pub proof fn lemma_same_destination_copied_once(
    dest_dir: Seq<u8>,
    exts: Seq<Seq<u8>>,
    existing: Set<Seq<u8>>,
    first: Seq<u8>,
    second: Seq<u8>,
)
    requires
        is_candidate(first, exts),
        is_candidate(second, exts),
        destination(dest_dir, first) is Some,
        destination(dest_dir, first) == destination(dest_dir, second),
        !existing.contains(destination(dest_dir, first).unwrap()),
    ensures
        ({
            let r = run(dest_dir, exts, false, existing, seq![first, second]);
            r.tally.found == 2 && r.tally.copied == 1 && r.tally.skipped == 1 && r.dispatched
                == seq![destination(dest_dir, first).unwrap()]
        }),
{
    let paths = seq![first, second];
    let d = destination(dest_dir, first).unwrap();
    let start = RunView { tally: empty_tally(), existing, dispatched: Seq::empty() };
    assert(paths.drop_last() =~= seq![first]);
    assert(seq![first].drop_last() =~= Seq::<Seq<u8>>::empty());
    assert(run_from(dest_dir, exts, false, start, Seq::<Seq<u8>>::empty()) == start);
    let r1 = step(dest_dir, exts, false, start, first);
    assert(run_from(dest_dir, exts, false, start, seq![first]) == r1);
    assert(r1.existing.contains(d));
    assert(r1.dispatched =~= seq![d]);
    let r2 = step(dest_dir, exts, false, r1, second);
    assert(run(dest_dir, exts, false, existing, paths) == r2);
    assert(r2.dispatched == r1.dispatched);
}

} // verus!
