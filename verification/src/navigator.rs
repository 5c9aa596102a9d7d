//! The cycle-navigation core: given the persisted position and a snapshot of
//! the candidate list's directory listings, compute the next, previous or
//! reset position.
//!
//! The mathematical model of a position is [`NavView`]; the transition
//! functions [`next_nav`], [`prev_nav`] and [`reset_nav`] say exactly where
//! each operation lands, and the executable operations are proved to follow
//! them.  The caller supplies one [`CandidateSnapshot`] per candidate; a
//! snapshot is never consulted beyond the candidate list's length.

use vstd::prelude::*;

use crate::models::{
    CandidateSnapshot, DwConfig, DwError, DwOperationExecutionResult, DwWallpaperCandidate,
    error_exit_code, error_message_view, error_result, success_result,
};
use crate::platform::now_timestamp;

verus! {

/// Spec-level view of a cycle position: the candidate index, whether the
/// current image comes from inside a directory candidate, its position in
/// that directory's listing, and the image path itself.
#[verifier::ext_equal]
pub struct NavView {
    pub index: int,
    pub child: bool,
    pub sub_index: int,
    pub path: Seq<char>,
}

/// The position stored in a configuration.
pub open spec fn nav_of(w: DwWallpaperCandidate) -> NavView {
    NavView {
        index: w.index as int,
        child: w.child,
        sub_index: w.sub_index as int,
        path: w.path@,
    }
}

/// The sorted image listing recorded in a snapshot.
pub open spec fn images_of(c: CandidateSnapshot) -> Seq<Seq<char>> {
    c.images.deep_view()
}

/// Index of the first entry of `images` equal to `path`, or `-1` if there is
/// none.
pub open spec fn find_image(images: Seq<Seq<char>>, path: Seq<char>) -> int
    decreases images.len(),
{
    if images.len() == 0 {
        -1
    } else if images[0] == path {
        0
    } else if find_image(images.drop_first(), path) < 0 {
        -1
    } else {
        1 + find_image(images.drop_first(), path)
    }
}

/// `find_image` characterised: it is the first occurrence when the path is
/// present, and `-1` exactly when it is absent.
pub proof fn lemma_find_image(images: Seq<Seq<char>>, path: Seq<char>)
    ensures
        ({
            let f = find_image(images, path);
            &&& f >= -1
            &&& f >= 0 ==> 0 <= f < images.len() && images[f] == path && (forall|k: int|
                0 <= k < f ==> images[k] != path)
            &&& f < 0 ==> (forall|k: int| 0 <= k < images.len() ==> images[k] != path)
        }),
    decreases images.len(),
{
    if images.len() == 0 {
    } else if images[0] == path {
    } else {
        let rest = images.drop_first();
        lemma_find_image(rest, path);
        let fr = find_image(rest, path);
        assert(forall|k: int| 1 <= k < images.len() ==> images[k] == #[trigger] rest[k - 1]);
        if fr >= 0 {
            assert(images[1 + fr] == rest[fr]);
            assert forall|k: int| 0 <= k < 1 + fr implies images[k] != path by {
                if k >= 1 {
                    assert(rest[k - 1] != path);
                }
            }
        } else {
            assert forall|k: int| 0 <= k < images.len() implies images[k] != path by {
                if k >= 1 {
                    assert(rest[k - 1] != path);
                }
            }
        }
    }
}

/// The sub-index the navigation works from: the current path is looked up in
/// the listing; when it is not found, the stored sub-index is used when it is
/// still in range, and a sub-index out of range is a lost reference, which
/// restarts the directory at `0`.  Meaningful only for a non-empty listing.
pub open spec fn effective_sub(nav: NavView, images: Seq<Seq<char>>) -> int {
    let f = find_image(images, nav.path);
    if f >= 0 {
        f
    } else if nav.sub_index < images.len() {
        nav.sub_index
    } else {
        0
    }
}

/// Landing on candidate `i`: the candidate itself when it is a plain file,
/// its first sorted image otherwise (its last when `last` is set, as the
/// `previous` operation lands at the end of a directory), and
/// `EmptyDirectory` when it is a directory with no images.
pub open spec fn enter_at(
    i: int,
    cands: Seq<Seq<char>>,
    fs: Seq<CandidateSnapshot>,
    last: bool,
) -> Result<NavView, DwError> {
    if fs[i].is_dir {
        let im = images_of(fs[i]);
        if im.len() == 0 {
            Err(DwError::EmptyDirectory)
        } else if last {
            Ok(NavView { index: i, child: true, sub_index: im.len() - 1, path: im[im.len() - 1] })
        } else {
            Ok(NavView { index: i, child: true, sub_index: 0, path: im[0] })
        }
    } else {
        Ok(NavView { index: i, child: false, sub_index: 0, path: cands[i] })
    }
}

/// The candidate index one step forward, wrapping at the end of the list.
pub open spec fn succ_index(i: int, n: int) -> int {
    if i == n - 1 {
        0
    } else {
        i + 1
    }
}

/// The candidate index one step back, wrapping at the start of the list.
pub open spec fn pred_index(i: int, n: int) -> int {
    if i == 0 {
        n - 1
    } else {
        i - 1
    }
}

/// Where `next` lands: one step forward inside the current directory, or the
/// first image (or the file itself) of the following candidate, wrapping
/// over the end of the candidate list.
pub open spec fn next_nav(
    nav: NavView,
    cands: Seq<Seq<char>>,
    fs: Seq<CandidateSnapshot>,
) -> Result<NavView, DwError> {
    if cands.len() == 0 {
        Err(DwError::EmptyCycle)
    } else if !(0 <= nav.index < cands.len()) {
        Err(DwError::IndexOutOfRange)
    } else if nav.child {
        let im = images_of(fs[nav.index]);
        if im.len() == 0 {
            Err(DwError::EmptyDirectory)
        } else {
            let sub = effective_sub(nav, im);
            if sub == im.len() - 1 {
                enter_at(succ_index(nav.index, cands.len() as int), cands, fs, false)
            } else {
                Ok(NavView { index: nav.index, child: true, sub_index: sub + 1, path: im[sub + 1] })
            }
        }
    } else {
        enter_at(succ_index(nav.index, cands.len() as int), cands, fs, false)
    }
}

/// Where `previous` lands: one step back inside the current directory, or
/// the last image (or the file itself) of the preceding candidate, wrapping
/// over the start of the candidate list.
pub open spec fn prev_nav(
    nav: NavView,
    cands: Seq<Seq<char>>,
    fs: Seq<CandidateSnapshot>,
) -> Result<NavView, DwError> {
    if cands.len() == 0 {
        Err(DwError::EmptyCycle)
    } else if !(0 <= nav.index < cands.len()) {
        Err(DwError::IndexOutOfRange)
    } else if nav.child {
        let im = images_of(fs[nav.index]);
        if im.len() == 0 {
            Err(DwError::EmptyDirectory)
        } else {
            let sub = effective_sub(nav, im);
            if sub == 0 {
                enter_at(pred_index(nav.index, cands.len() as int), cands, fs, true)
            } else {
                Ok(NavView { index: nav.index, child: true, sub_index: sub - 1, path: im[sub - 1] })
            }
        }
    } else {
        enter_at(pred_index(nav.index, cands.len() as int), cands, fs, true)
    }
}

/// Where `reset` lands: the first candidate, at its first image when it is a
/// directory.
pub open spec fn reset_nav(
    cands: Seq<Seq<char>>,
    fs: Seq<CandidateSnapshot>,
) -> Result<NavView, DwError> {
    if cands.len() == 0 {
        Err(DwError::EmptyCycle)
    } else {
        enter_at(0, cands, fs, false)
    }
}

/// How a navigation operation relates the configuration after the call to
/// the one before it: on success the position follows `step`, the timestamp
/// aside; on failure the configuration is untouched and the result carries
/// the failure's code and message.
pub open spec fn navigation_post(
    old_c: DwConfig,
    new_c: DwConfig,
    r: DwOperationExecutionResult,
    step: Result<NavView, DwError>,
) -> bool {
    match step {
        Ok(n) => {
            &&& r.success
            &&& r.exit_code == 0
            &&& r.message is None
            &&& nav_of(new_c.actual_wallpaper) == n
            &&& new_c.candidates == old_c.candidates
            &&& new_c.time_config == old_c.time_config
        },
        Err(e) => {
            &&& !r.success
            &&& r.exit_code == error_exit_code(e)
            &&& (r.message matches Some(m) && m@ == error_message_view(e))
            &&& new_c == old_c
        },
    }
}

/// Position of the first entry of `list` equal to `target`, compared as
/// whole paths.
pub(crate) fn index_of_path(list: &Vec<String>, target: &String) -> (r: Option<usize>)
    ensures
        ({
            let f = find_image(list.deep_view(), target@);
            &&& f >= 0 ==> (r matches Some(i) && i as int == f)
            &&& f < 0 ==> r is None
        }),
{
    proof {
        lemma_find_image(list.deep_view(), target@);
    }
    let mut j: usize = 0;
    while j < list.len()
        invariant
            j <= list@.len(),
            forall|k: int| 0 <= k < j ==> list.deep_view()[k] != target@,
        decreases list@.len() - j,
    {
        if list[j] == *target {
            proof {
                let dv = list.deep_view();
                let f = find_image(dv, target@);
                assert(dv[j as int] == target@);
                lemma_find_image(dv, target@);
                assert(f >= 0);
                assert(f as int <= j as int) by {
                    if f > j {
                        assert(dv[j as int] != target@);
                    }
                }
                assert(f == j as int) by {
                    if f < j {
                        assert(dv[f] != target@);
                    }
                }
            }
            return Some(j);
        }
        j += 1;
    }
    None
}

/// Position of `target` in the sorted image listing of a directory, found by
/// comparing full paths; `PathNotFound` when the listing does not hold it.
pub fn found_wpp_index_by_path_in_directory(images: &Vec<String>, target: &String) -> (r: Result<
    usize,
    DwError,
>)
    ensures
        ({
            let f = find_image(images.deep_view(), target@);
            &&& f >= 0 ==> (r matches Ok(i) && i as int == f)
            &&& f < 0 ==> (r matches Err(e) && e == DwError::PathNotFound)
        }),
{
    match index_of_path(images, target) {
        Some(i) => Ok(i),
        None => Err(DwError::PathNotFound),
    }
}

/// Entry of the sorted image listing at `index`; `IndexOutOfRange` when the
/// listing is shorter.
pub fn found_wpp_path_by_index_in_directory(images: &Vec<String>, index: usize) -> (r: Result<
    String,
    DwError,
>)
    ensures
        index < images@.len() ==> (r matches Ok(p) && p@ == images.deep_view()[index as int]),
        index >= images@.len() ==> (r matches Err(e) && e == DwError::IndexOutOfRange),
{
    if index < images.len() {
        Ok(images[index].clone())
    } else {
        Err(DwError::IndexOutOfRange)
    }
}

/// Landing on candidate `i`, executably: follows `enter_at`.
fn enter_at_exec(i: usize, candidates: &Vec<String>, fs: &Vec<CandidateSnapshot>, last: bool) -> (r:
    Result<(usize, bool, usize, String), DwError>)
    requires
        i < candidates@.len(),
        fs@.len() == candidates@.len(),
    ensures
        ({
            let s = enter_at(i as int, candidates.deep_view(), fs@, last);
            match r {
                Ok(t) => (s matches Ok(n) && t.0 as int == n.index && t.1 == n.child && t.2 as int
                    == n.sub_index && t.3@ == n.path),
                Err(e) => (s matches Err(e2) && e == e2),
            }
        }),
{
    if fs[i].is_dir {
        let images = &fs[i].images;
        if images.len() == 0 {
            Err(DwError::EmptyDirectory)
        } else if last {
            let li = images.len() - 1;
            Ok((i, true, li, images[li].clone()))
        } else {
            Ok((i, true, 0, images[0].clone()))
        }
    } else {
        Ok((i, false, 0, candidates[i].clone()))
    }
}

/// Store a computed landing in the configuration and stamp the time of the
/// change, or report the failure and leave the configuration untouched.
fn apply_step(config: &mut DwConfig, step: Result<(usize, bool, usize, String), DwError>) -> (r:
    DwOperationExecutionResult)
    ensures
        ({
            match step {
                Ok(t) => {
                    &&& r.success
                    &&& r.exit_code == 0
                    &&& r.message is None
                    &&& final(config).actual_wallpaper.index == t.0
                    &&& final(config).actual_wallpaper.child == t.1
                    &&& final(config).actual_wallpaper.sub_index == t.2
                    &&& final(config).actual_wallpaper.path == t.3
                    &&& final(config).candidates == old(config).candidates
                    &&& final(config).time_config == old(config).time_config
                },
                Err(e) => {
                    &&& !r.success
                    &&& r.exit_code == error_exit_code(e)
                    &&& (r.message matches Some(m) && m@ == error_message_view(e))
                    &&& *final(config) == *old(config)
                },
            }
        }),
{
    match step {
        Ok((index, child, sub_index, path)) => {
            config.actual_wallpaper.index = index;
            config.actual_wallpaper.child = child;
            config.actual_wallpaper.sub_index = sub_index;
            config.actual_wallpaper.path = path;
            config.actual_wallpaper.date_set = now_timestamp();
            success_result()
        },
        Err(e) => error_result(e),
    }
}

/// Advance the cycle by one image.
///
/// `fs` holds one snapshot per candidate.  On success the stored position
/// follows [`next_nav`] exactly (the timestamp is taken from the clock); on
/// failure the configuration is left untouched.  The caller persists the
/// configuration and applies the new wallpaper afterwards.
pub fn next(config: &mut DwConfig, fs: &Vec<CandidateSnapshot>) -> (r: DwOperationExecutionResult)
    requires
        fs@.len() == old(config).candidates@.len(),
    ensures
        navigation_post(
            *old(config),
            *final(config),
            r,
            next_nav(
                nav_of(old(config).actual_wallpaper),
                old(config).candidates.deep_view(),
                fs@,
            ),
        ),
{
    let ghost nav0 = nav_of(config.actual_wallpaper);
    let ghost cands = config.candidates.deep_view();
    let n = config.candidates.len();
    if n == 0 {
        return error_result(DwError::EmptyCycle);
    }
    let idx = config.actual_wallpaper.index;
    if idx >= n {
        return error_result(DwError::IndexOutOfRange);
    }
    let step: Result<(usize, bool, usize, String), DwError>;
    if config.actual_wallpaper.child {
        let images = &fs[idx].images;
        if images.len() == 0 {
            step = Err(DwError::EmptyDirectory);
        } else {
            let sub: usize = match found_wpp_index_by_path_in_directory(
                images,
                &config.actual_wallpaper.path,
            ) {
                Ok(i) => i,
                Err(_) => {
                    if config.actual_wallpaper.sub_index < images.len() {
                        config.actual_wallpaper.sub_index
                    } else {
                        0
                    }
                },
            };
            proof {
                lemma_find_image(images.deep_view(), nav0.path);
                assert(sub as int == effective_sub(nav0, images_of(fs@[idx as int])));
            }
            if sub == images.len() - 1 {
                let ni = if idx == n - 1 {
                    0
                } else {
                    idx + 1
                };
                step = enter_at_exec(ni, &config.candidates, fs, false);
            } else {
                step = Ok((idx, true, sub + 1, images[sub + 1].clone()));
            }
        }
    } else {
        let ni = if idx == n - 1 {
            0
        } else {
            idx + 1
        };
        step = enter_at_exec(ni, &config.candidates, fs, false);
    }
    let r = apply_step(config, step);
    proof {
        let s = next_nav(nav0, cands, fs@);
        if s is Ok {
            assert(nav_of(config.actual_wallpaper) =~= s->Ok_0);
        }
    }
    r
}

/// Step the cycle back by one image.
///
/// The mirror of [`next`]: on success the stored position follows
/// [`prev_nav`] exactly; on failure the configuration is left untouched.
pub fn previous(config: &mut DwConfig, fs: &Vec<CandidateSnapshot>) -> (r:
    DwOperationExecutionResult)
    requires
        fs@.len() == old(config).candidates@.len(),
    ensures
        navigation_post(
            *old(config),
            *final(config),
            r,
            prev_nav(
                nav_of(old(config).actual_wallpaper),
                old(config).candidates.deep_view(),
                fs@,
            ),
        ),
{
    let ghost nav0 = nav_of(config.actual_wallpaper);
    let ghost cands = config.candidates.deep_view();
    let n = config.candidates.len();
    if n == 0 {
        return error_result(DwError::EmptyCycle);
    }
    let idx = config.actual_wallpaper.index;
    if idx >= n {
        return error_result(DwError::IndexOutOfRange);
    }
    let step: Result<(usize, bool, usize, String), DwError>;
    if config.actual_wallpaper.child {
        let images = &fs[idx].images;
        if images.len() == 0 {
            step = Err(DwError::EmptyDirectory);
        } else {
            let sub: usize = match found_wpp_index_by_path_in_directory(
                images,
                &config.actual_wallpaper.path,
            ) {
                Ok(i) => i,
                Err(_) => {
                    if config.actual_wallpaper.sub_index < images.len() {
                        config.actual_wallpaper.sub_index
                    } else {
                        0
                    }
                },
            };
            proof {
                lemma_find_image(images.deep_view(), nav0.path);
                assert(sub as int == effective_sub(nav0, images_of(fs@[idx as int])));
            }
            if sub == 0 {
                let pi = if idx == 0 {
                    n - 1
                } else {
                    idx - 1
                };
                step = enter_at_exec(pi, &config.candidates, fs, true);
            } else {
                step = Ok((idx, true, sub - 1, images[sub - 1].clone()));
            }
        }
    } else {
        let pi = if idx == 0 {
            n - 1
        } else {
            idx - 1
        };
        step = enter_at_exec(pi, &config.candidates, fs, true);
    }
    let r = apply_step(config, step);
    proof {
        let s = prev_nav(nav0, cands, fs@);
        if s is Ok {
            assert(nav_of(config.actual_wallpaper) =~= s->Ok_0);
        }
    }
    r
}

/// Jump to the start of the cycle: the first candidate, at its first image
/// when it is a directory.  On failure the configuration is left untouched.
pub fn reset(config: &mut DwConfig, fs: &Vec<CandidateSnapshot>) -> (r: DwOperationExecutionResult)
    requires
        fs@.len() == old(config).candidates@.len(),
    ensures
        navigation_post(
            *old(config),
            *final(config),
            r,
            reset_nav(old(config).candidates.deep_view(), fs@),
        ),
{
    let ghost cands = config.candidates.deep_view();
    let n = config.candidates.len();
    if n == 0 {
        return error_result(DwError::EmptyCycle);
    }
    let step = enter_at_exec(0, &config.candidates, fs, false);
    let r = apply_step(config, step);
    proof {
        let s = reset_nav(cands, fs@);
        if s is Ok {
            assert(nav_of(config.actual_wallpaper) =~= s->Ok_0);
        }
    }
    r
}

} // verus!
