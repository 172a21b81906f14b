//! The work estimate of onboarding indexing: per top-level root, the number
//! of files, their bytes, and work units that weigh each file's metadata
//! read as 64 KiB of content.

use vstd::prelude::*;

use crate::order::{sort_by_key, text_le, lemma_insert_at};
use crate::reconcile::types::{IndexingRootWork, OnboardingIndexingWorkPlan};
use crate::text::to_chars;

verus! {

/// The work units one file's metadata read is worth.
pub open spec fn file_metadata_work_bytes() -> int {
    65536
}

/// `a + b`, capped at `u64::MAX`.
pub open spec fn sat_add(a: int, b: int) -> int {
    if a + b > u64::MAX {
        u64::MAX as int
    } else {
        a + b
    }
}

/// The files' byte total, added up with a cap at `u64::MAX`.
pub open spec fn capped_total(sizes: Seq<u64>) -> int
    decreases sizes.len(),
{
    if sizes.len() == 0 {
        0
    } else {
        sat_add(capped_total(sizes.drop_last()), sizes.last() as int)
    }
}

/// The work units of a root: its bytes plus 64 KiB per file, capped, and
/// never below one.
pub open spec fn root_work_units(file_count: int, total_bytes: int) -> int {
    let meta = if file_count * file_metadata_work_bytes() > u64::MAX {
        u64::MAX as int
    } else {
        file_count * file_metadata_work_bytes()
    };
    let w = sat_add(total_bytes, meta);
    if w < 1 {
        1
    } else {
        w
    }
}

/// The work of one root from the sizes of the files under it.
pub fn measure_root_work(root_name: String, file_sizes: &Vec<u64>) -> (r: IndexingRootWork)
    ensures
        r.root_name == root_name,
        r.file_count == if file_sizes@.len() > u64::MAX { u64::MAX as int } else { file_sizes@.len() as int },
        r.total_bytes == capped_total(file_sizes@),
        r.work_units == root_work_units(r.file_count as int, r.total_bytes as int),
{
    let mut file_count: u64 = 0;
    let mut total_bytes: u64 = 0;
    let mut i: usize = 0;
    while i < file_sizes.len()
        invariant
            i <= file_sizes@.len(),
            file_count == if i > u64::MAX { u64::MAX as int } else { i as int },
            total_bytes == capped_total(file_sizes@.take(i as int)),
        decreases file_sizes@.len() - i,
    {
        proof {
            assert(file_sizes@.take(i + 1).drop_last() =~= file_sizes@.take(i as int));
            assert(file_sizes@.take(i + 1).last() == file_sizes@[i as int]);
        }
        file_count = file_count.saturating_add(1);
        total_bytes = total_bytes.saturating_add(file_sizes[i]);
        i += 1;
    }
    assert(file_sizes@.take(file_sizes@.len() as int) =~= file_sizes@);
    let meta: u64 = if file_count > u64::MAX / 65536 {
        u64::MAX
    } else {
        file_count * 65536
    };
    let work = total_bytes.saturating_add(meta);
    let work_units = if work < 1 {
        1
    } else {
        work
    };
    IndexingRootWork { root_name, file_count, total_bytes, work_units }
}

/// Roots sort by name.
pub open spec fn root_name_key() -> spec_fn(IndexingRootWork) -> Seq<char> {
    |r: IndexingRootWork| r.root_name@
}

/// The roots in name order.
pub fn sort_roots_by_name(roots: Vec<IndexingRootWork>) -> (r: Vec<IndexingRootWork>)
    ensures
        r@ == sort_by_key(roots@, root_name_key()),
{
    let ghost original = roots@;
    let ghost total: usize = roots.len();
    let mut input = roots;
    let mut sorted: Vec<IndexingRootWork> = Vec::new();
    let mut done: usize = 0;
    assert(original.skip(0) =~= original);
    while input.len() > 0
        invariant
            done <= original.len(),
            original.len() == total,
            input@ == original.skip(done as int),
            sorted@ == sort_by_key(original.take(done as int), root_name_key()),
        decreases input@.len(),
    {
        let x = input.remove(0);
        proof {
            assert(x == original[done as int]);
            assert(original.skip(done as int).remove(0) =~= original.skip(done + 1));
            assert(original.take(done + 1).drop_last() =~= original.take(done as int));
            assert(original.take(done + 1).last() == x);
        }
        let xk = to_chars(x.root_name.as_str());
        let mut j: usize = sorted.len();
        while j > 0 && !crate::order::chars_le(to_chars(sorted[j - 1].root_name.as_str()).as_slice(), xk.as_slice())
            invariant
                j <= sorted@.len(),
                xk@ == x.root_name@,
                forall|k: int| j <= k < sorted@.len() ==> !text_le((#[trigger] sorted@[k]).root_name@, x.root_name@),
            decreases j,
        {
            j -= 1;
        }
        proof {
            let key = root_name_key();
            assert forall|k: int| j <= k < sorted@.len() implies !text_le(key(#[trigger] sorted@[k]), key(x)) by {}
            lemma_insert_at(sorted@, x, key, j as int);
            assert(sorted@.insert(j as int, x) =~= sorted@.take(j as int) + seq![x] + sorted@.skip(j as int));
        }
        sorted.insert(j, x);
        done += 1;
    }
    assert(original.take(original.len() as int) =~= original);
    sorted
}

/// The sum of the roots' file counts.
pub open spec fn sum_files(roots: Seq<IndexingRootWork>) -> int
    decreases roots.len(),
{
    if roots.len() == 0 {
        0
    } else {
        sum_files(roots.drop_last()) + roots.last().file_count
    }
}

/// The sum of the roots' bytes.
pub open spec fn sum_bytes(roots: Seq<IndexingRootWork>) -> int
    decreases roots.len(),
{
    if roots.len() == 0 {
        0
    } else {
        sum_bytes(roots.drop_last()) + roots.last().total_bytes
    }
}

/// The sum of the roots' work units.
pub open spec fn sum_units(roots: Seq<IndexingRootWork>) -> int
    decreases roots.len(),
{
    if roots.len() == 0 {
        0
    } else {
        sum_units(roots.drop_last()) + roots.last().work_units
    }
}

proof fn lemma_sums_monotone(roots: Seq<IndexingRootWork>, i: int)
    requires
        0 <= i <= roots.len(),
    ensures
        sum_files(roots.take(i)) <= sum_files(roots),
        sum_bytes(roots.take(i)) <= sum_bytes(roots),
        sum_units(roots.take(i)) <= sum_units(roots),
    decreases roots.len() - i,
{
    if i < roots.len() {
        lemma_sums_monotone(roots, i + 1);
        assert(roots.take(i + 1).drop_last() =~= roots.take(i));
    } else {
        assert(roots.take(i) =~= roots);
    }
}

/// The plan of one game: its roots in name order with their totals.
pub fn plan_game_work(game_id: String, roots: Vec<IndexingRootWork>) -> (r: OnboardingIndexingWorkPlan)
    requires
        sum_files(roots@) <= u64::MAX,
        sum_bytes(roots@) <= u64::MAX,
        sum_units(roots@) <= u64::MAX,
    ensures
        r.game_id == game_id,
        r.roots@ == sort_by_key(roots@, root_name_key()),
        r.file_count == sum_files(roots@),
        r.total_bytes == sum_bytes(roots@),
        r.work_units == sum_units(roots@),
{
    let mut file_count: u64 = 0;
    let mut total_bytes: u64 = 0;
    let mut work_units: u64 = 0;
    let mut i: usize = 0;
    while i < roots.len()
        invariant
            i <= roots@.len(),
            sum_files(roots@) <= u64::MAX,
            sum_bytes(roots@) <= u64::MAX,
            sum_units(roots@) <= u64::MAX,
            file_count == sum_files(roots@.take(i as int)),
            total_bytes == sum_bytes(roots@.take(i as int)),
            work_units == sum_units(roots@.take(i as int)),
        decreases roots@.len() - i,
    {
        proof {
            assert(roots@.take(i + 1).drop_last() =~= roots@.take(i as int));
            assert(roots@.take(i + 1).last() == roots@[i as int]);
            lemma_sums_monotone(roots@, i + 1);
        }
        file_count = file_count + roots[i].file_count;
        total_bytes = total_bytes + roots[i].total_bytes;
        work_units = work_units + roots[i].work_units;
        i += 1;
    }
    assert(roots@.take(roots@.len() as int) =~= roots@);
    let sorted = sort_roots_by_name(roots);
    OnboardingIndexingWorkPlan { game_id, file_count, total_bytes, work_units, roots: sorted }
}

/// The measurements of one game: its id, and each top-level root's name
/// with the sizes of the files under it.
#[derive(Debug)]
pub struct GameRootMeasurements {
    pub game_id: String,
    pub roots: Vec<(String, Vec<u64>)>,
}

/// The file count one root reports.
pub open spec fn measured_files(sizes: Seq<u64>) -> int {
    if sizes.len() > u64::MAX {
        u64::MAX as int
    } else {
        sizes.len() as int
    }
}

/// The totals of a game's roots: files, bytes and work units.
pub open spec fn measured_sums(roots: Seq<(String, Vec<u64>)>) -> (int, int, int)
    decreases roots.len(),
{
    if roots.len() == 0 {
        (0, 0, 0)
    } else {
        let (f, b, u) = measured_sums(roots.drop_last());
        let sizes = roots.last().1@;
        let files = measured_files(sizes);
        let bytes = capped_total(sizes);
        (f + files, b + bytes, u + root_work_units(files, bytes))
    }
}

/// The work one measured root reports, as `measure_root_work` gives it.
pub open spec fn measured_root(root: (String, Vec<u64>)) -> IndexingRootWork {
    let files = measured_files(root.1@);
    let bytes = capped_total(root.1@);
    IndexingRootWork {
        root_name: root.0,
        file_count: files as u64,
        total_bytes: bytes as u64,
        work_units: root_work_units(files, bytes) as u64,
    }
}

/// The work of each measured root, in measurement order.
pub open spec fn measured_roots(roots: Seq<(String, Vec<u64>)>) -> Seq<IndexingRootWork> {
    roots.map_values(|r: (String, Vec<u64>)| measured_root(r))
}

/// The totals fit the plan's counters.
pub open spec fn sums_fit(roots: Seq<(String, Vec<u64>)>) -> bool
    decreases roots.len(),
{
    if roots.len() == 0 {
        true
    } else {
        let (f, b, u) = measured_sums(roots);
        sums_fit(roots.drop_last()) && f <= u64::MAX && b <= u64::MAX && u <= u64::MAX
    }
}

/// The plans of several games, one per game in order, or `None` when a
/// game's totals do not fit `u64`.
pub fn plan_onboarding_indexing_work(games: &Vec<GameRootMeasurements>) -> (r: Option<Vec<OnboardingIndexingWorkPlan>>)
    ensures
        r is None <==> exists|g: int| 0 <= g < games@.len() && !sums_fit(#[trigger] games@[g].roots@),
        r matches Some(plans) ==> plans@.len() == games@.len() && forall|g: int| 0 <= g < games@.len() ==> {
            let (f, b, u) = measured_sums(games@[g].roots@);
            &&& (#[trigger] plans@[g]).game_id == games@[g].game_id
            &&& plans@[g].file_count == f
            &&& plans@[g].total_bytes == b
            &&& plans@[g].work_units == u
            &&& plans@[g].roots@ == sort_by_key(measured_roots(games@[g].roots@), root_name_key())
        },
{
    let mut plans: Vec<OnboardingIndexingWorkPlan> = Vec::new();
    let mut g: usize = 0;
    while g < games.len()
        invariant
            g <= games@.len(),
            plans@.len() == g,
            forall|x: int| 0 <= x < g ==> sums_fit(#[trigger] games@[x].roots@),
            forall|x: int| 0 <= x < g ==> {
                let (f, b, u) = measured_sums(games@[x].roots@);
                &&& (#[trigger] plans@[x]).game_id == games@[x].game_id
                &&& plans@[x].file_count == f
                &&& plans@[x].total_bytes == b
                &&& plans@[x].work_units == u
                &&& plans@[x].roots@ == sort_by_key(measured_roots(games@[x].roots@), root_name_key())
            },
        decreases games@.len() - g,
    {
        let game = &games[g];
        let mut roots: Vec<IndexingRootWork> = Vec::new();
        let mut files: u64 = 0;
        let mut bytes: u64 = 0;
        let mut units: u64 = 0;
        let mut i: usize = 0;
        while i < game.roots.len()
            invariant
                g < games@.len(),
                *game == games@[g as int],
                i <= game.roots@.len(),
                roots@.len() == i,
                roots@ == measured_roots(game.roots@.take(i as int)),
                sums_fit(game.roots@.take(i as int)),
                files == sum_files(roots@),
                bytes == sum_bytes(roots@),
                units == sum_units(roots@),
                (files as int, bytes as int, units as int) == measured_sums(game.roots@.take(i as int)),
            decreases game.roots@.len() - i,
        {
            let work = measure_root_work(game.roots[i].0.clone(), &game.roots[i].1);
            let ghost before = roots@;
            proof {
                let t = game.roots@.take(i + 1);
                assert(t.drop_last() =~= game.roots@.take(i as int));
                assert(t.last() == game.roots@[i as int]);
            }
            if files > u64::MAX - work.file_count || bytes > u64::MAX - work.total_bytes || units > u64::MAX - work.work_units {
                proof {
                    assert(!sums_fit(game.roots@.take(i + 1)));
                    lemma_fit_prefix(game.roots@, i + 1);
                    assert(!sums_fit(games@[g as int].roots@));
                }
                return None;
            }
            files = files + work.file_count;
            bytes = bytes + work.total_bytes;
            units = units + work.work_units;
            roots.push(work);
            proof {
                assert(roots@.drop_last() =~= before);
                assert(work == measured_root(game.roots@[i as int]));
                assert(roots@ =~= measured_roots(game.roots@.take(i + 1)));
            }
            i += 1;
        }
        proof {
            assert(game.roots@.take(i as int) =~= game.roots@);
        }
        let plan = plan_game_work(game.game_id.clone(), roots);
        plans.push(plan);
        g += 1;
    }
    Some(plans)
}

/// A game whose prefix of roots overflows overflows as a whole.
proof fn lemma_fit_prefix(roots: Seq<(String, Vec<u64>)>, i: int)
    requires
        0 <= i <= roots.len(),
        !sums_fit(roots.take(i)),
    ensures
        !sums_fit(roots),
    decreases roots.len() - i,
{
    if i < roots.len() {
        assert(roots.take(i + 1).drop_last() =~= roots.take(i));
        lemma_fit_prefix(roots, i + 1);
    } else {
        assert(roots.take(i) =~= roots);
    }
}

} // verus!
