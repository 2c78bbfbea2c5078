//! The operator-search palette.

use vstd::prelude::*;
use crate::shortcuts::registry::{palette_commands, palette_rows, Command};
use crate::windows::ranking::{
    arrowed, arrows_step_through_the_list, is_ranking, move_highlight, moved_highlight, rank,
    ranks_before,
};

verus! {

/// The palette: the filter text and the highlighted row.
#[derive(Debug)]
pub struct OperatorSearchState {
    pub open: bool,
    pub search: String,
    pub idx: usize,
}

impl Default for OperatorSearchState {
    fn default() -> (r: Self)
        ensures
            !r.open && r.search@.len() == 0 && r.idx == 0,
    {
        OperatorSearchState { open: false, search: String::new(), idx: 0 }
    }
}

impl OperatorSearchState {
    /// Open the palette afresh.
    pub fn show(&mut self)
        ensures
            final(self).open,
            final(self).search@.len() == 0,
            final(self).idx == 0,
    {
        self.open = true;
        self.search = String::new();
        self.idx = 0;
    }

    /// The filter text changed: the highlight goes back to the first row.
    pub fn search_changed(&mut self)
        ensures
            final(self).idx == 0,
            final(self).open == old(self).open,
            final(self).search == old(self).search,
    {
        self.idx = 0;
    }
}

/// The commands that the palette lists, given how well each of
/// [`palette_rows`] matches the filter.
pub open spec fn is_palette_list(scores: Seq<Option<i32>>, list: Seq<Command>) -> bool {
    exists|r: Seq<usize>| #[trigger]
        is_ranking(scores, r) && list == r.map_values(|i: usize| palette_rows()[i as int])
}

/// The commands that the palette lists, best match first.
pub fn palette_list(scores: &Vec<Option<i32>>) -> (r: Vec<Command>)
    requires
        scores@.len() == palette_rows().len(),
    ensures
        is_palette_list(scores@, r@),
{
    let rows = palette_commands();
    let order = rank(scores);
    let mut out: Vec<Command> = Vec::new();
    let ghost f = |i: usize| palette_rows()[i as int];
    let mut k: usize = 0;
    while k < order.len()
        invariant
            k <= order@.len(),
            rows@ == palette_rows(),
            scores@.len() == rows@.len(),
            is_ranking(scores@, order@),
            f == (|i: usize| palette_rows()[i as int]),
            out@ == order@.take(k as int).map_values(f),
        decreases order@.len() - k,
    {
        out.push(rows[order[k]]);
        assert(order@.take(k + 1).map_values(f) =~= order@.take(k as int).map_values(f).push(
            f(order@[k as int]),
        ));
        k = k + 1;
    }
    assert(order@.take(k as int) =~= order@);
    out
}

/// A frame's keys and click.
#[derive(Clone, Copy, Debug, PartialEq, Eq, Structural)]
pub struct PaletteKeys {
    pub escape: bool,
    pub enter: bool,
    pub down: bool,
    pub up: bool,
}

/// The row that a frame picks: Enter picks the highlighted one, else the click
/// its own; a row that cannot run now is not picked.
pub open spec fn picked_row(
    idx: nat,
    enter: bool,
    clicked: Option<usize>,
    runnable: Seq<bool>,
) -> Option<usize> {
    if enter && idx < runnable.len() && runnable[idx as int] {
        Some(idx as usize)
    } else {
        match clicked {
            Some(i) => if i < runnable.len() && runnable[i as int] { Some(i) } else { None },
            None => None,
        }
    }
}

/// The row that a frame returns: the one picked, unless the palette is closed or
/// Escape closes it.
pub open spec fn returned_row(
    open: bool,
    idx: usize,
    keys: PaletteKeys,
    clicked: Option<usize>,
    runnable: Seq<bool>,
) -> Option<usize> {
    if open && !keys.escape {
        picked_row(
            moved_highlight(idx, keys.down, keys.up, runnable.len()),
            keys.enter,
            clicked,
            runnable,
        )
    } else {
        None
    }
}

/// Is the palette open after a frame? Escape and a pick close it.
pub open spec fn palette_open(
    open: bool,
    idx: usize,
    keys: PaletteKeys,
    clicked: Option<usize>,
    runnable: Seq<bool>,
) -> bool {
    open && !keys.escape && returned_row(open, idx, keys, clicked, runnable) is None
}

/// A frame of the open palette: Escape closes it; the arrows move the
/// highlight within the list; a pick closes it and is returned once.
/// `runnable` says of each listed row whether it can run now.
pub fn palette_step(
    state: &mut OperatorSearchState,
    keys: PaletteKeys,
    clicked: Option<usize>,
    runnable: &Vec<bool>,
) -> (r: Option<usize>)
    ensures
        final(state).search == old(state).search,
        r == returned_row(old(state).open, old(state).idx, keys, clicked, runnable@),
        final(state).open == palette_open(
            old(state).open,
            old(state).idx,
            keys,
            clicked,
            runnable@,
        ),
        final(state).idx == (if !old(state).open {
            old(state).idx as nat
        } else if keys.escape {
            arrowed(old(state).idx, keys.down, keys.up) as nat
        } else {
            moved_highlight(old(state).idx, keys.down, keys.up, runnable@.len())
        }),
{
    if !state.open {
        return None;
    }
    if keys.escape {
        state.open = false;
        state.idx = arrowed(state.idx, keys.down, keys.up);
        return None;
    }
    let n: usize = runnable.len();
    let idx: usize = move_highlight(state.idx, keys.down, keys.up, n);
    state.idx = idx;
    let mut picked: Option<usize> = None;
    if let Some(i) = clicked {
        if i < n && runnable[i] {
            picked = Some(i);
        }
    }
    if keys.enter && idx < n && runnable[idx] {
        picked = Some(idx);
    }
    if picked.is_some() {
        state.open = false;
    }
    picked
}

/// A pick is returned once: the frame that returns it closes the palette, and
/// the next one returns nothing.
pub proof fn pick_is_returned_once(
    open: bool,
    idx: usize,
    keys: PaletteKeys,
    clicked: Option<usize>,
    runnable: Seq<bool>,
    next_idx: usize,
    next_keys: PaletteKeys,
    next_clicked: Option<usize>,
    next_runnable: Seq<bool>,
)
    requires
        returned_row(open, idx, keys, clicked, runnable) is Some,
    ensures
        ({
            let left = palette_open(open, idx, keys, clicked, runnable);
            &&& !left
            &&& returned_row(left, next_idx, next_keys, next_clicked, next_runnable) is None
        }),
{
}

/// What is returned can run.
pub proof fn only_runnable_rows_are_returned(
    open: bool,
    idx: usize,
    keys: PaletteKeys,
    clicked: Option<usize>,
    runnable: Seq<bool>,
)
    requires
        runnable.len() <= usize::MAX,
    ensures
        returned_row(open, idx, keys, clicked, runnable) matches Some(i) ==> i < runnable.len()
            && runnable[i as int],
{
    if runnable.len() > 0 {
        vstd::arithmetic::div_mod::lemma_mod_decreases(
            arrowed(idx, keys.down, keys.up) as nat,
            runnable.len(),
        );
    }
}

/// Enter returns the highlighted row where it can run, and a click its own row; Escape
/// closes the palette and returns nothing, and without any of them it stays open.
pub proof fn enter_and_click_pick_their_row(
    idx: usize,
    keys: PaletteKeys,
    i: usize,
    clicked: Option<usize>,
    runnable: Seq<bool>,
)
    requires
        idx < runnable.len() < usize::MAX,
        !keys.down && !keys.up,
    ensures
        !keys.escape && keys.enter && runnable[idx as int] ==> returned_row(
            true,
            idx,
            keys,
            clicked,
            runnable,
        ) == Some(idx),
        !keys.escape && !keys.enter && i < runnable.len() && runnable[i as int] ==> returned_row(
            true,
            idx,
            keys,
            Some(i),
            runnable,
        ) == Some(i),
        keys.escape ==> returned_row(true, idx, keys, clicked, runnable) is None && !palette_open(
            true,
            idx,
            keys,
            clicked,
            runnable,
        ),
        !keys.escape && !keys.enter ==> returned_row(true, idx, keys, None, runnable) is None
            && palette_open(true, idx, keys, None, runnable),
        returned_row(false, idx, keys, clicked, runnable) is None,
{
    arrows_step_through_the_list(idx, runnable.len());
}

/// The palette lists exactly the commands that match, and a better match before a worse
/// one.
pub proof fn palette_lists_the_matches(scores: Seq<Option<i32>>, list: Seq<Command>, i: int)
    requires
        scores.len() == palette_rows().len() <= usize::MAX,
        is_palette_list(scores, list),
    ensures
        0 <= i < scores.len() && scores[i] is Some ==> list.contains(palette_rows()[i]),
        forall|k: int|
            0 <= k < list.len() ==> exists|j: int|
                0 <= j < scores.len() && scores[j] is Some && #[trigger] palette_rows()[j]
                    == #[trigger] list[k],
        list.len() > 0 && 0 <= i < scores.len() && scores[i] is Some ==> exists|j: int|
            0 <= j < scores.len() && scores[j] is Some && scores[j]->0 >= scores[i]->0
                && #[trigger] palette_rows()[j] == list[0],
{
    let r = choose|r: Seq<usize>| #[trigger]
        is_ranking(scores, r) && list == r.map_values(|i: usize| palette_rows()[i as int]);
    assert(list.len() == r.len());
    if 0 <= i < scores.len() && scores[i] is Some {
        assert(r.contains(i as usize));
        let k = choose|k: int| 0 <= k < r.len() && r[k] == i as usize;
        assert(list[k] == palette_rows()[i]);
        assert(list[0] == palette_rows()[r[0] as int]);
        if k > 0 {
            assert(ranks_before(scores, r[0] as int, r[k] as int));
        }
    }
    assert forall|k: int| 0 <= k < list.len() implies exists|j: int|
        0 <= j < scores.len() && scores[j] is Some && #[trigger] palette_rows()[j]
            == #[trigger] list[k] by {
        assert(list[k] == palette_rows()[r[k] as int]);
    }
}

} // verus!
