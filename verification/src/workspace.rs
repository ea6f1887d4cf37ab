//! The editor's bookkeeping around its documents: which tab is active after one is closed,
//! which files were opened last, and which entry of the file finder is selected.

use vstd::prelude::*;
use vstd::slice::*;
use vstd::utf8::encode_utf8;
use std::path::PathBuf;

verus! {

/// How many files the list of recent files holds at most.
pub const RECENT_FILES: usize = 20;

/// Whether `PathBuf`'s `==` holds of `a` and `b`.
pub uninterp spec fn same_path(a: PathBuf, b: PathBuf) -> bool;

/// `==` of two `PathBuf`s.
#[verifier::external_body]
fn paths_equal(a: &PathBuf, b: &PathBuf) -> (same: bool)
    ensures
        same == same_path(*a, *b),
{
    a == b
}

/// The active tab after tab `closed` of `tabs` tabs was closed.
///
/// A tab that does not exist closes nothing. After the last tab was closed none is active.
/// Otherwise the tab that was active stays active, at its new place; where it was the one
/// that closed, the tab that took its place is active, or the last one.
pub open spec fn active_after_close(active: Option<usize>, closed: usize, tabs: usize) -> Option<usize> {
    if closed >= tabs {
        active
    } else if tabs == 1 {
        None
    } else {
        match active {
            None => None,
            Some(a) => Some(
                if a >= tabs - 1 {
                    (tabs - 2) as usize
                } else if a > closed {
                    (a - 1) as usize
                } else {
                    a
                },
            ),
        }
    }
}

/// Which tab is active once tab `closed` of `tabs` tabs is gone.
pub fn close_tab(active: Option<usize>, closed: usize, tabs: usize) -> (now: Option<usize>)
    ensures
        now == active_after_close(active, closed, tabs),
{
    if closed >= tabs {
        return active;
    }
    let left = tabs - 1;
    if left == 0 {
        return None;
    }
    match active {
        None => None,
        Some(a) => {
            if a >= left {
                Some(left - 1)
            } else if a > closed {
                Some(a - 1)
            } else {
                Some(a)
            }
        },
    }
}

/// Which tab is active after tab `selected` of `tabs` tabs was asked for: that tab, or the
/// one that was active where there is no such tab.
pub fn select_tab(active: Option<usize>, selected: usize, tabs: usize) -> (now: Option<usize>)
    ensures
        now == if selected < tabs {
            Some(selected)
        } else {
            active
        },
{
    if selected < tabs {
        Some(selected)
    } else {
        active
    }
}

/// Whether `query` is long enough to search the workspace for: two bytes or more.
pub fn worth_searching(query: &str) -> (yes: bool)
    ensures
        yes == (encode_utf8(query@).len() >= 2),
{
    query.as_bytes().len() >= 2
}

/// The place of tab `tab` after tab `closed` was taken out of the row.
pub open spec fn place_after_close(tab: int, closed: int) -> int {
    if tab > closed {
        tab - 1
    } else {
        tab
    }
}

/// Closing a tab never leaves a tab active that does not exist, and where another tab than
/// the active one closes, the active tab stays the same tab.
pub proof fn lemma_close_keeps_active_tab(active: usize, closed: usize, tabs: usize)
    requires
        active < tabs,
        closed < tabs,
    ensures
        tabs == 1 ==> active_after_close(Some(active), closed, tabs) is None,
        tabs > 1 ==> active_after_close(Some(active), closed, tabs) is Some && active_after_close(
            Some(active),
            closed,
            tabs,
        )->0 < tabs - 1,
        tabs > 1 && active != closed ==> active_after_close(Some(active), closed, tabs) == Some(
            place_after_close(active as int, closed as int) as usize,
        ),
{
}

/// The entry selected after the selection moved by `delta` among `count` entries: it wraps
/// around at both ends. Among no entries the selection stays as it is.
pub open spec fn selection_after(selected: usize, delta: i32, count: usize) -> int {
    if count == 0 {
        selected as int
    } else {
        (selected + delta) % (count as int)
    }
}

/// Moves the selection of the file finder by `delta` entries, up or down.
pub fn move_selection(selected: usize, delta: i32, count: usize) -> (now: usize)
    ensures
        now == selection_after(selected, delta, count),
        count > 0 ==> now < count,
{
    if count == 0 {
        return selected;
    }
    let at = selected % count;
    let ahead = if delta >= 0 {
        (delta as usize) % count
    } else {
        let back = ((-(delta as i64)) as usize) % count;
        if back == 0 {
            0
        } else {
            count - back
        }
    };
    let now = if at >= count - ahead {
        at - (count - ahead)
    } else {
        at + ahead
    };
    proof {
        lemma_same_remainder(selected as int, delta as int, count as int, at as int, ahead as int, now as int);
    }
    now
}

/// `now` is below `c` and differs from `selected + delta` by a multiple of `c`, so it is
/// the remainder of that sum.
proof fn lemma_same_remainder(selected: int, delta: int, c: int, at: int, ahead: int, now: int)
    requires
        c > 0,
        selected >= 0,
        at == selected % c,
        0 <= ahead < c,
        delta >= 0 ==> ahead == delta % c,
        delta < 0 ==> ahead == if (-delta) % c == 0 {
            0
        } else {
            c - (-delta) % c
        },
        now == if at >= c - ahead {
            at - (c - ahead)
        } else {
            at + ahead
        },
    ensures
        0 <= now < c,
        now == (selected + delta) % c,
{
    vstd::arithmetic::div_mod::lemma_fundamental_div_mod(selected, c);
    vstd::arithmetic::div_mod::lemma_mod_bound(selected, c);
    let q1 = selected / c;
    let wrap = if at >= c - ahead {
        1int
    } else {
        0int
    };
    let q2 = if delta >= 0 {
        vstd::arithmetic::div_mod::lemma_fundamental_div_mod(delta, c);
        delta / c
    } else {
        vstd::arithmetic::div_mod::lemma_fundamental_div_mod(-delta, c);
        if (-delta) % c == 0 {
            -((-delta) / c)
        } else {
            -((-delta) / c) - 1
        }
    };
    assert(delta == c * q2 + ahead) by (nonlinear_arith)
        requires
            delta >= 0 ==> delta == c * (delta / c) + ahead && q2 == delta / c,
            delta < 0 && (-delta) % c == 0 ==> -delta == c * ((-delta) / c) && ahead == 0 && q2 == -((-delta)
                / c),
            delta < 0 && (-delta) % c != 0 ==> -delta == c * ((-delta) / c) + (c - ahead) && q2 == -((-delta)
                / c) - 1,
    ;
    assert(selected + delta == (q1 + q2 + wrap) * c + now) by (nonlinear_arith)
        requires
            selected == c * q1 + at,
            delta == c * q2 + ahead,
            now == at + ahead - wrap * c,
    ;
    vstd::arithmetic::div_mod::lemma_fundamental_div_mod_converse(selected + delta, c, q1 + q2 + wrap, now);
}

/// The first `n` entries of `recent` without those that are the path `path`.
pub open spec fn others(recent: Seq<PathBuf>, path: PathBuf, n: int) -> Seq<PathBuf>
    decreases n,
{
    if n <= 0 {
        seq![]
    } else if same_path(recent[n - 1], path) {
        others(recent, path, n - 1)
    } else {
        others(recent, path, n - 1).push(recent[n - 1])
    }
}

/// The list of recent files after `path` was opened: `path` first, then the files that were
/// in the list in their order, `path` itself left out, and no more than [`RECENT_FILES`] in
/// all.
pub open spec fn recent_after(recent: Seq<PathBuf>, path: PathBuf) -> Seq<PathBuf> {
    let all = seq![path] + others(recent, path, recent.len() as int);
    if all.len() > RECENT_FILES {
        all.take(RECENT_FILES as int)
    } else {
        all
    }
}

/// What the first `n` entries keep grows with `n` and begins with what fewer entries keep.
proof fn lemma_others_grow(recent: Seq<PathBuf>, path: PathBuf, n: int, m: int)
    requires
        0 <= n <= m <= recent.len(),
    ensures
        others(recent, path, n).len() <= others(recent, path, m).len(),
        others(recent, path, m).take(others(recent, path, n).len() as int) == others(recent, path, n),
    decreases m - n,
{
    if n < m {
        lemma_others_grow(recent, path, n, m - 1);
        let short = others(recent, path, n);
        let less = others(recent, path, m - 1);
        if !same_path(recent[m - 1], path) {
            assert(less.push(recent[m - 1]).take(short.len() as int) =~= less.take(short.len() as int));
        }
    } else {
        assert(others(recent, path, n).take(others(recent, path, n).len() as int) =~= others(
            recent,
            path,
            n,
        ));
    }
}

/// The list of recent files once `path` was opened.
pub fn remember_recent(recent: &Vec<PathBuf>, path: PathBuf) -> (now: Vec<PathBuf>)
    ensures
        now@ == recent_after(recent@, path),
{
    let mut now: Vec<PathBuf> = Vec::new();
    let mut i: usize = 0;
    while i < recent.len() && now.len() < RECENT_FILES - 1
        invariant
            0 <= i <= recent@.len(),
            now@ == others(recent@, path, i as int),
            now@.len() <= RECENT_FILES - 1,
        decreases recent@.len() - i,
    {
        if !paths_equal(&recent[i], &path) {
            now.push(recent[i].clone());
        }
        i = i + 1;
    }
    proof {
        lemma_others_grow(recent@, path, i as int, recent@.len() as int);
        let kept = others(recent@, path, recent@.len() as int);
        let all = seq![path] + kept;
        if i < recent@.len() {
            assert(now@.len() == RECENT_FILES - 1);
            assert(all.take(RECENT_FILES as int) =~= seq![path] + now@);
        } else {
            assert(all =~= seq![path] + now@);
            if all.len() == RECENT_FILES {
                assert(all.take(RECENT_FILES as int) =~= all);
            }
        }
    }
    now.insert(0, path);
    proof {
        assert(now@ =~= seq![path] + others(recent@, path, i as int));
    }
    now
}

} // verus!
