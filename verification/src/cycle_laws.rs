//! Laws of the navigation cycle.
//!
//! The cycle is modelled by a position: every image of every candidate is
//! numbered, in candidate order, images of one directory in listing order.
//! `next` moves the position one step forward modulo the number of images,
//! `previous` one step back, and a position determines the whole state.
//! From that the round-trip laws follow: `next` then `previous` restores the
//! state, and as many `next` calls as there are images walk the cycle once.

use vstd::prelude::*;

use crate::models::{CandidateSnapshot, DwError};
use crate::navigator::{
    NavView, effective_sub, enter_at, find_image, images_of, lemma_find_image, next_nav, pred_index,
    prev_nav, reset_nav, succ_index,
};

verus! {

/// No two entries of the listing are the same path.
pub open spec fn distinct_listing(s: Seq<Seq<char>>) -> bool {
    forall|j: int, k: int| #![trigger s[j], s[k]] 0 <= j < k < s.len() ==> s[j] != s[k]
}

/// A stored position that matches the candidate list and the snapshot: the
/// index is in range, a directory candidate is entered as a child at an
/// in-range sub-index with the path drawn from its listing, and a plain file
/// candidate is the current path itself.
pub open spec fn nav_valid(nav: NavView, cands: Seq<Seq<char>>, fs: Seq<CandidateSnapshot>) -> bool {
    &&& fs.len() == cands.len()
    &&& 0 <= nav.index < cands.len()
    &&& (if fs[nav.index].is_dir {
        &&& nav.child
        &&& 0 <= nav.sub_index < images_of(fs[nav.index]).len()
        &&& nav.path == images_of(fs[nav.index])[nav.sub_index]
    } else {
        &&& !nav.child
        &&& nav.sub_index == 0
        &&& nav.path == cands[nav.index]
    })
}

/// Every directory candidate holds at least one image.
pub open spec fn dirs_nonempty(fs: Seq<CandidateSnapshot>) -> bool {
    forall|i: int| 0 <= i < fs.len() ==> ((#[trigger] fs[i]).is_dir ==> images_of(fs[i]).len() > 0)
}

/// Every directory listing is free of duplicate paths.
pub open spec fn listings_distinct(fs: Seq<CandidateSnapshot>) -> bool {
    forall|i: int| 0 <= i < fs.len() ==> distinct_listing(images_of(#[trigger] fs[i]))
}

/// How many images one candidate contributes to the cycle: each image of a
/// directory, a plain file itself.
pub open spec fn candidate_count(c: CandidateSnapshot) -> int {
    if c.is_dir {
        images_of(c).len() as int
    } else {
        1
    }
}

/// Images contributed by the first `i` candidates.
pub open spec fn prefix_count(fs: Seq<CandidateSnapshot>, i: int) -> int
    decreases i,
{
    if i <= 0 {
        0
    } else {
        prefix_count(fs, i - 1) + candidate_count(fs[i - 1])
    }
}

/// Total number of images in the cycle.
pub open spec fn total_count(fs: Seq<CandidateSnapshot>) -> int {
    prefix_count(fs, fs.len() as int)
}

/// The number of a position in the cycle: all images of the candidates
/// before it, plus its place inside its own candidate.
pub open spec fn cycle_position(nav: NavView, fs: Seq<CandidateSnapshot>) -> int {
    prefix_count(fs, nav.index) + if nav.child {
        nav.sub_index
    } else {
        0
    }
}

/// With no empty directory, every candidate contributes at least one image,
/// so the prefix counts grow at least as fast as the index.
proof fn lemma_prefix_count_monotone(fs: Seq<CandidateSnapshot>, i: int, j: int)
    requires
        dirs_nonempty(fs),
        0 <= i <= j <= fs.len(),
    ensures
        prefix_count(fs, i) + (j - i) <= prefix_count(fs, j),
    decreases j - i,
{
    if i < j {
        lemma_prefix_count_monotone(fs, i, j - 1);
        assert(fs[j - 1].is_dir ==> images_of(fs[j - 1]).len() > 0);
    }
}

/// A valid position's number lies in its candidate's segment of the cycle,
/// and in the cycle at all.
proof fn lemma_position_in_range(nav: NavView, cands: Seq<Seq<char>>, fs: Seq<CandidateSnapshot>)
    requires
        nav_valid(nav, cands, fs),
        dirs_nonempty(fs),
    ensures
        prefix_count(fs, nav.index) <= cycle_position(nav, fs) < prefix_count(fs, nav.index + 1),
        0 <= cycle_position(nav, fs) < total_count(fs),
{
    lemma_prefix_count_monotone(fs, 0, nav.index);
    lemma_prefix_count_monotone(fs, nav.index + 1, fs.len() as int);
}

/// A position's number determines the position: two valid positions with
/// the same number are the same.
proof fn lemma_position_injective(
    n1: NavView,
    n2: NavView,
    cands: Seq<Seq<char>>,
    fs: Seq<CandidateSnapshot>,
)
    requires
        nav_valid(n1, cands, fs),
        nav_valid(n2, cands, fs),
        dirs_nonempty(fs),
        cycle_position(n1, fs) == cycle_position(n2, fs),
    ensures
        n1 == n2,
{
    lemma_position_in_range(n1, cands, fs);
    lemma_position_in_range(n2, cands, fs);
    if n1.index < n2.index {
        lemma_prefix_count_monotone(fs, n1.index + 1, n2.index);
        assert(false);
    }
    if n2.index < n1.index {
        lemma_prefix_count_monotone(fs, n2.index + 1, n1.index);
        assert(false);
    }
    assert(n1 =~= n2);
}

/// For a valid child position over a duplicate-free listing, the lookup of
/// the current path lands exactly on the stored sub-index.
proof fn lemma_effective_sub_valid(nav: NavView, cands: Seq<Seq<char>>, fs: Seq<CandidateSnapshot>)
    requires
        nav_valid(nav, cands, fs),
        fs[nav.index].is_dir,
        listings_distinct(fs),
    ensures
        effective_sub(nav, images_of(fs[nav.index])) == nav.sub_index,
{
    let im = images_of(fs[nav.index]);
    lemma_find_image(im, nav.path);
    let f = find_image(im, nav.path);
    if f < 0 {
        assert(im[nav.sub_index] != nav.path);
        assert(false);
    }
    if f < nav.sub_index {
        assert(distinct_listing(im));
        assert(im[f] == im[nav.sub_index]);
        assert(false);
    }
    if f > nav.sub_index {
        assert(im[nav.sub_index] != nav.path);
        assert(false);
    }
}

/// Landing forward on the candidate after `i` succeeds when no directory is
/// empty, is valid, and its number is the start of that candidate's segment.
proof fn lemma_enter_next(i: int, cands: Seq<Seq<char>>, fs: Seq<CandidateSnapshot>)
    requires
        dirs_nonempty(fs),
        fs.len() == cands.len(),
        0 <= i < cands.len(),
    ensures
        ({
            let r = enter_at(succ_index(i, cands.len() as int), cands, fs, false);
            &&& r is Ok
            &&& nav_valid(r->Ok_0, cands, fs)
            &&& cycle_position(r->Ok_0, fs) == (if i == cands.len() - 1 {
                0
            } else {
                prefix_count(fs, i + 1)
            })
        }),
{
    let t = succ_index(i, cands.len() as int);
    assert(fs[t].is_dir ==> images_of(fs[t]).len() > 0);
}

/// Landing backward on the candidate before `i` succeeds when no directory
/// is empty, is valid, and its number is the end of that candidate's
/// segment.
proof fn lemma_enter_prev(i: int, cands: Seq<Seq<char>>, fs: Seq<CandidateSnapshot>)
    requires
        dirs_nonempty(fs),
        fs.len() == cands.len(),
        0 <= i < cands.len(),
    ensures
        ({
            let r = enter_at(pred_index(i, cands.len() as int), cands, fs, true);
            &&& r is Ok
            &&& nav_valid(r->Ok_0, cands, fs)
            &&& cycle_position(r->Ok_0, fs) == (if i == 0 {
                total_count(fs)
            } else {
                prefix_count(fs, i)
            }) - 1
        }),
{
    let t = pred_index(i, cands.len() as int);
    assert(fs[t].is_dir ==> images_of(fs[t]).len() > 0);
    assert(prefix_count(fs, t + 1) == prefix_count(fs, t) + candidate_count(fs[t]));
}

/// From a valid position, `next` succeeds and moves the position's number
/// one step forward, wrapping at the end of the cycle.
pub proof fn lemma_next_nav_ok(nav: NavView, cands: Seq<Seq<char>>, fs: Seq<CandidateSnapshot>)
    requires
        nav_valid(nav, cands, fs),
        dirs_nonempty(fs),
        listings_distinct(fs),
        cands.len() > 0,
    ensures
        ({
            let r = next_nav(nav, cands, fs);
            &&& r is Ok
            &&& nav_valid(r->Ok_0, cands, fs)
            &&& cycle_position(r->Ok_0, fs) == (if cycle_position(nav, fs) + 1 == total_count(fs) {
                0
            } else {
                cycle_position(nav, fs) + 1
            })
        }),
{
    let i = nav.index;
    let n = cands.len() as int;
    lemma_position_in_range(nav, cands, fs);
    assert(prefix_count(fs, i + 1) == prefix_count(fs, i) + candidate_count(fs[i]));
    if nav.child {
        assert(fs[i].is_dir);
        let im = images_of(fs[i]);
        lemma_effective_sub_valid(nav, cands, fs);
        if nav.sub_index == im.len() - 1 {
            lemma_enter_next(i, cands, fs);
            if i < n - 1 {
                lemma_prefix_count_monotone(fs, i + 1, n);
            }
        } else {
            lemma_prefix_count_monotone(fs, i + 1, n);
        }
    } else {
        lemma_enter_next(i, cands, fs);
        if i < n - 1 {
            lemma_prefix_count_monotone(fs, i + 1, n);
        }
    }
}

/// From a valid position, `previous` succeeds and moves the position's
/// number one step back, wrapping at the start of the cycle.
pub proof fn lemma_prev_nav_ok(nav: NavView, cands: Seq<Seq<char>>, fs: Seq<CandidateSnapshot>)
    requires
        nav_valid(nav, cands, fs),
        dirs_nonempty(fs),
        listings_distinct(fs),
        cands.len() > 0,
    ensures
        ({
            let r = prev_nav(nav, cands, fs);
            &&& r is Ok
            &&& nav_valid(r->Ok_0, cands, fs)
            &&& cycle_position(r->Ok_0, fs) == (if cycle_position(nav, fs) == 0 {
                total_count(fs) - 1
            } else {
                cycle_position(nav, fs) - 1
            })
        }),
{
    let i = nav.index;
    lemma_position_in_range(nav, cands, fs);
    assert(prefix_count(fs, i + 1) == prefix_count(fs, i) + candidate_count(fs[i]));
    if nav.child {
        assert(fs[i].is_dir);
        lemma_effective_sub_valid(nav, cands, fs);
        if nav.sub_index == 0 {
            lemma_enter_prev(i, cands, fs);
            if i > 0 {
                lemma_prefix_count_monotone(fs, 0, i);
            }
        } else {
            lemma_prefix_count_monotone(fs, 0, i);
        }
    } else {
        lemma_enter_prev(i, cands, fs);
        if i > 0 {
            lemma_prefix_count_monotone(fs, 0, i);
        }
    }
}

/// Inverse law: from any valid position over a snapshot with no empty
/// directory and duplicate-free listings, `next` succeeds and `previous`
/// returns exactly to the original position, across the wraparound boundary
/// as anywhere else.
pub proof fn lemma_next_then_previous(nav: NavView, cands: Seq<Seq<char>>, fs: Seq<CandidateSnapshot>)
    requires
        nav_valid(nav, cands, fs),
        dirs_nonempty(fs),
        listings_distinct(fs),
        cands.len() > 0,
    ensures
        (next_nav(nav, cands, fs) matches Ok(n2) && prev_nav(n2, cands, fs) == Ok::<
            NavView,
            DwError,
        >(nav)),
{
    lemma_position_in_range(nav, cands, fs);
    lemma_next_nav_ok(nav, cands, fs);
    let n2 = next_nav(nav, cands, fs)->Ok_0;
    lemma_prev_nav_ok(n2, cands, fs);
    let n3 = prev_nav(n2, cands, fs)->Ok_0;
    lemma_position_injective(n3, nav, cands, fs);
}

/// `next` iterated `k` times; an error stops the iteration.
pub open spec fn iterate_next(
    nav: NavView,
    cands: Seq<Seq<char>>,
    fs: Seq<CandidateSnapshot>,
    k: nat,
) -> Result<NavView, DwError>
    decreases k,
{
    if k == 0 {
        Ok(nav)
    } else {
        match iterate_next(nav, cands, fs, (k - 1) as nat) {
            Ok(n) => next_nav(n, cands, fs),
            Err(e) => Err(e),
        }
    }
}

/// After `k` steps the position's number has advanced by `k`, wrapping once
/// at most while `k` stays within one turn of the cycle.
proof fn lemma_iterate_next_pos(
    nav: NavView,
    cands: Seq<Seq<char>>,
    fs: Seq<CandidateSnapshot>,
    k: nat,
)
    requires
        nav_valid(nav, cands, fs),
        dirs_nonempty(fs),
        listings_distinct(fs),
        cands.len() > 0,
        k <= total_count(fs),
    ensures
        ({
            let r = iterate_next(nav, cands, fs, k);
            &&& r is Ok
            &&& nav_valid(r->Ok_0, cands, fs)
            &&& cycle_position(r->Ok_0, fs) == (if cycle_position(nav, fs) + k < total_count(fs) {
                cycle_position(nav, fs) + k
            } else {
                cycle_position(nav, fs) + k - total_count(fs)
            })
        }),
    decreases k,
{
    lemma_position_in_range(nav, cands, fs);
    if k > 0 {
        lemma_iterate_next_pos(nav, cands, fs, (k - 1) as nat);
        let n = iterate_next(nav, cands, fs, (k - 1) as nat)->Ok_0;
        lemma_next_nav_ok(n, cands, fs);
        lemma_position_in_range(n, cands, fs);
    }
}

/// Full-cycle law: from any valid position, as many `next` steps as there
/// are images in the cycle return exactly to the starting position.
pub proof fn lemma_next_cycles_back(nav: NavView, cands: Seq<Seq<char>>, fs: Seq<CandidateSnapshot>)
    requires
        nav_valid(nav, cands, fs),
        dirs_nonempty(fs),
        listings_distinct(fs),
        cands.len() > 0,
    ensures
        iterate_next(nav, cands, fs, total_count(fs) as nat) == Ok::<NavView, DwError>(nav),
{
    lemma_position_in_range(nav, cands, fs);
    lemma_iterate_next_pos(nav, cands, fs, total_count(fs) as nat);
    let n = iterate_next(nav, cands, fs, total_count(fs) as nat)->Ok_0;
    lemma_position_injective(n, nav, cands, fs);
}

/// Reset law: `reset` lands on the first candidate, at sub-index `0`; on a
/// directory candidate it is a child at the first sorted image, on a plain
/// file it is the file itself, and an empty first directory is reported as
/// `EmptyDirectory`.
pub proof fn lemma_reset_lands_on_first(cands: Seq<Seq<char>>, fs: Seq<CandidateSnapshot>)
    requires
        cands.len() > 0,
        fs.len() == cands.len(),
    ensures
        fs[0].is_dir && images_of(fs[0]).len() == 0 ==> reset_nav(cands, fs) == Err::<
            NavView,
            DwError,
        >(DwError::EmptyDirectory),
        fs[0].is_dir && images_of(fs[0]).len() > 0 ==> reset_nav(cands, fs) == Ok::<
            NavView,
            DwError,
        >((NavView { index: 0, child: true, sub_index: 0, path: images_of(fs[0])[0] })),
        !fs[0].is_dir ==> reset_nav(cands, fs) == Ok::<NavView, DwError>(
            (NavView { index: 0, child: false, sub_index: 0, path: cands[0] }),
        ),
{
}

/// Empty-directory law: when a step leaves its candidate and the candidate
/// it would enter is a directory with no images, `next` reports
/// `EmptyDirectory` (and the navigation operations leave the stored
/// configuration untouched on any error).
pub proof fn lemma_next_into_empty_directory(
    nav: NavView,
    cands: Seq<Seq<char>>,
    fs: Seq<CandidateSnapshot>,
)
    requires
        fs.len() == cands.len(),
        cands.len() > 0,
        0 <= nav.index < cands.len(),
        nav.child ==> images_of(fs[nav.index]).len() > 0 && effective_sub(
            nav,
            images_of(fs[nav.index]),
        ) == images_of(fs[nav.index]).len() - 1,
        ({
            let t = succ_index(nav.index, cands.len() as int);
            fs[t].is_dir && images_of(fs[t]).len() == 0
        }),
    ensures
        next_nav(nav, cands, fs) == Err::<NavView, DwError>(DwError::EmptyDirectory),
{
}

/// The mirror of the empty-directory law for `previous`: when a step leaves
/// its candidate backwards and the candidate it would enter is a directory
/// with no images, `previous` reports `EmptyDirectory`.
pub proof fn lemma_previous_into_empty_directory(
    nav: NavView,
    cands: Seq<Seq<char>>,
    fs: Seq<CandidateSnapshot>,
)
    requires
        fs.len() == cands.len(),
        cands.len() > 0,
        0 <= nav.index < cands.len(),
        nav.child ==> images_of(fs[nav.index]).len() > 0 && effective_sub(
            nav,
            images_of(fs[nav.index]),
        ) == 0,
        ({
            let t = pred_index(nav.index, cands.len() as int);
            fs[t].is_dir && images_of(fs[t]).len() == 0
        }),
    ensures
        prev_nav(nav, cands, fs) == Err::<NavView, DwError>(DwError::EmptyDirectory),
{
}

} // verus!
