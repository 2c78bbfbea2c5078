//! The quick-select palette: batch selection of fixtures.

use vstd::prelude::*;
use crate::scene::{Fixture, Scene};
use crate::selection::{filter_keeps, first_of, index_in, Selection, SelectionView};
use crate::text::same_text;
use crate::tree::rows::indices;
use crate::viewport::transform::{below, kept_below};

verus! {

/// A batch selection.
#[derive(Clone, Copy, Debug, PartialEq, Eq, Structural)]
pub enum QuickAction {
    All,
    SameType,
    SameMaker,
    Invert,
    Clear,
    Dismiss,
}

/// The palette's keys in a frame.
#[derive(Clone, Copy, Debug, PartialEq, Eq, Structural)]
pub struct QuickKeys {
    pub a: bool,
    pub t: bool,
    pub m: bool,
    pub i: bool,
    pub n: bool,
    pub escape: bool,
}

/// What the keys ask for. Of several the last in the palette's order counts, and
/// Escape before all; a type or maker is asked for only where there is one.
#[verifier::allow_in_spec]
pub fn quick_key(keys: QuickKeys, has_type: bool, has_maker: bool) -> Option<QuickAction>
    returns
        (if keys.escape {
            Some(QuickAction::Dismiss)
        } else if keys.n {
            Some(QuickAction::Clear)
        } else if keys.i {
            Some(QuickAction::Invert)
        } else if keys.m && has_maker {
            Some(QuickAction::SameMaker)
        } else if keys.t && has_type {
            Some(QuickAction::SameType)
        } else if keys.a {
            Some(QuickAction::All)
        } else {
            None
        }),
{
    if keys.escape {
        Some(QuickAction::Dismiss)
    } else if keys.n {
        Some(QuickAction::Clear)
    } else if keys.i {
        Some(QuickAction::Invert)
    } else if keys.m && has_maker {
        Some(QuickAction::SameMaker)
    } else if keys.t && has_type {
        Some(QuickAction::SameType)
    } else if keys.a {
        Some(QuickAction::All)
    } else {
        None
    }
}

/// The primary fixture, where the scene holds it.
pub open spec fn primary_of(scene: Scene, s: SelectionView) -> Option<usize> {
    match first_of(s.fixtures) {
        Some(i) => if i < scene.fixtures@.len() { Some(i) } else { None },
        None => None,
    }
}

/// The maker of a fixture, where it has one that is not empty.
pub open spec fn maker_of(f: Fixture) -> Option<Seq<char>> {
    match f.maker {
        Some(m) => if m@.len() > 0 { Some(m@) } else { None },
        None => None,
    }
}

/// Does the fixture have the maker?
pub open spec fn made_by(f: Fixture, maker: Seq<char>) -> bool {
    f.maker is Some && f.maker->0@ == maker
}

/// The fixtures that an action selects; none where it does not apply.
pub open spec fn quick_fixtures(
    scene: Scene,
    s: SelectionView,
    action: QuickAction,
) -> Option<Seq<usize>> {
    let all = indices(scene.fixtures@.len());
    let primary = primary_of(scene, s);
    match action {
        QuickAction::All => Some(all),
        QuickAction::SameType => match primary {
            Some(p) => Some(
                all.filter(
                    |i: usize|
                        scene.fixtures@[i as int].profile@ == scene.fixtures@[p as int].profile@,
                ),
            ),
            None => None,
        },
        QuickAction::SameMaker => match primary {
            Some(p) => match maker_of(scene.fixtures@[p as int]) {
                Some(m) => Some(all.filter(|i: usize| made_by(scene.fixtures@[i as int], m))),
                None => None,
            },
            None => None,
        },
        QuickAction::Invert => Some(all.filter(|i: usize| !s.fixtures.contains(i))),
        QuickAction::Clear => Some(seq![]),
        QuickAction::Dismiss => None,
    }
}

/// The selection after an action: its fixtures, with neither an environment nor
/// geometry; the same as before where the action does not apply.
pub open spec fn after_quick(
    scene: Scene,
    s: SelectionView,
    action: QuickAction,
) -> SelectionView {
    match quick_fixtures(scene, s, action) {
        Some(f) => SelectionView { fixtures: f, environment: None, geometry: seq![], ..s },
        None => s,
    }
}

/// The primary fixture, where the scene holds it.
pub fn primary(scene: &Scene, selection: &Selection) -> (r: Option<usize>)
    ensures
        r == primary_of(*scene, selection@),
{
    match selection.primary_fixture() {
        Some(i) => if i < scene.fixtures.len() {
            Some(i)
        } else {
            None
        },
        None => None,
    }
}

/// Is there a type to ask for?
pub fn has_type(scene: &Scene, selection: &Selection) -> (r: bool)
    ensures
        r == (primary_of(*scene, selection@) is Some),
{
    primary(scene, selection).is_some()
}

/// Is there a maker to ask for?
pub fn has_maker(scene: &Scene, selection: &Selection) -> (r: bool)
    ensures
        r == (primary_of(*scene, selection@) matches Some(p) && maker_of(
            scene.fixtures@[p as int],
        ) is Some),
{
    match primary(scene, selection) {
        Some(p) => match &scene.fixtures[p].maker {
            Some(m) => m.as_str().unicode_len() > 0,
            None => false,
        },
        None => false,
    }
}

/// Is the fixture `i` among what the action selects? `p` is the primary fixture.
fn takes(scene: &Scene, cur: &Vec<usize>, action: QuickAction, p: usize, i: usize) -> (r: bool)
    requires
        i < scene.fixtures@.len(),
        action is SameType || action is SameMaker ==> p < scene.fixtures@.len(),
        action is SameMaker ==> maker_of(scene.fixtures@[p as int]) is Some,
    ensures
        r == (match action {
            QuickAction::All => true,
            QuickAction::SameType => scene.fixtures@[i as int].profile@
                == scene.fixtures@[p as int].profile@,
            QuickAction::SameMaker => made_by(
                scene.fixtures@[i as int],
                maker_of(scene.fixtures@[p as int])->0,
            ),
            QuickAction::Invert => !cur@.contains(i),
            _ => false,
        }),
{
    match action {
        QuickAction::All => true,
        QuickAction::SameType => same_text(
            scene.fixtures[i].profile.as_str(),
            scene.fixtures[p].profile.as_str(),
        ),
        QuickAction::SameMaker => match (&scene.fixtures[i].maker, &scene.fixtures[p].maker) {
            (Some(a), Some(b)) => same_text(a.as_str(), b.as_str()),
            _ => false,
        },
        QuickAction::Invert => !index_in(cur, i),
        _ => false,
    }
}

/// Does an action apply?
fn applies(scene: &Scene, selection: &Selection, action: QuickAction) -> (r: bool)
    ensures
        r == (quick_fixtures(*scene, selection@, action) is Some),
{
    match action {
        QuickAction::SameType => has_type(scene, selection),
        QuickAction::SameMaker => has_maker(scene, selection),
        QuickAction::Dismiss => false,
        _ => true,
    }
}

/// The fixtures that an action which applies selects.
fn list_fixtures(scene: &Scene, selection: &Selection, action: QuickAction) -> (r: Vec<usize>)
    requires
        quick_fixtures(*scene, selection@, action) is Some,
    ensures
        r@ == quick_fixtures(*scene, selection@, action)->0,
{
    let p: usize = match primary(scene, selection) {
        Some(p) => p,
        None => 0,
    };
    let mut out: Vec<usize> = Vec::new();
    let ghost all = indices(scene.fixtures@.len());
    let ghost keep = match action {
        QuickAction::All => |i: usize| true,
        QuickAction::SameType => |i: usize|
            scene.fixtures@[i as int].profile@ == scene.fixtures@[p as int].profile@,
        QuickAction::SameMaker => |i: usize|
            made_by(scene.fixtures@[i as int], maker_of(scene.fixtures@[p as int])->0),
        QuickAction::Invert => |i: usize| !selection@.fixtures.contains(i),
        _ => |i: usize| false,
    };
    let mut i: usize = 0;
    proof {
        reveal(Seq::filter);
    }
    while i < scene.fixtures.len()
        invariant
            i <= scene.fixtures@.len(),
            all == indices(scene.fixtures@.len()),
            action is SameType || action is SameMaker ==> p < scene.fixtures@.len(),
            action is SameMaker ==> maker_of(scene.fixtures@[p as int]) is Some,
            forall|j: usize|
                j < scene.fixtures@.len() ==> #[trigger] keep(j) == (match action {
                    QuickAction::All => true,
                    QuickAction::SameType => scene.fixtures@[j as int].profile@
                        == scene.fixtures@[p as int].profile@,
                    QuickAction::SameMaker => made_by(
                        scene.fixtures@[j as int],
                        maker_of(scene.fixtures@[p as int])->0,
                    ),
                    QuickAction::Invert => !selection.fixtures@.contains(j),
                    _ => false,
                }),
            out@ == all.take(i as int).filter(keep),
        decreases scene.fixtures@.len() - i,
    {
        reveal(Seq::filter);
        assert(all.take(i + 1).drop_last() =~= all.take(i as int));
        assert(all.take(i + 1).last() == i);
        let t = takes(scene, &selection.fixtures, action, p, i);
        assert(t == keep(i));
        if t {
            out.push(i);
        }
        i = i + 1;
    }
    assert(all.take(i as int) =~= all);
    proof {
        match action {
            QuickAction::All => keep_all(all, keep),
            QuickAction::Clear => keep_nothing(all, keep),
            _ => {},
        }
    }
    out
}

proof fn keep_all(s: Seq<usize>, p: spec_fn(usize) -> bool)
    requires
        forall|i: usize| #[trigger] p(i),
    ensures
        s.filter(p) == s,
    decreases s.len(),
{
    reveal(Seq::filter);
    if s.len() > 0 {
        keep_all(s.drop_last(), p);
        assert(s =~= s.drop_last().push(s.last()));
    }
}

proof fn keep_nothing(s: Seq<usize>, p: spec_fn(usize) -> bool)
    requires
        forall|i: usize| !#[trigger] p(i),
    ensures
        s.filter(p) == Seq::<usize>::empty(),
    decreases s.len(),
{
    reveal(Seq::filter);
    if s.len() > 0 {
        keep_nothing(s.drop_last(), p);
    }
}

/// Carry out an action on the selection.
pub fn apply_quick(scene: &Scene, selection: &mut Selection, action: QuickAction)
    ensures
        final(selection)@ == after_quick(*scene, old(selection)@, action),
{
    if applies(scene, selection, action) {
        let f = list_fixtures(scene, selection, action);
        selection.fixtures = f;
        selection.environment = None;
        selection.geometry = Vec::new();
    }
    assert(selection@ =~= after_quick(*scene, old(selection)@, action));
}

/// A frame of the palette. It closes itself where there is no fixture, and with
/// any action; a click counts before the keys.
pub fn quick_select_step(
    open: &mut bool,
    scene: &Scene,
    selection: &mut Selection,
    keys: QuickKeys,
    clicked: Option<QuickAction>,
)
    ensures
        (*final(open), final(selection)@) == after_palette(
            *old(open),
            *scene,
            old(selection)@,
            keys,
            clicked,
        ),
        ({
            let live = *old(open) && scene.fixtures@.len() > 0;
            let p = primary_of(*scene, old(selection)@);
            let by_key = quick_key(
                keys,
                p is Some,
                p is Some && maker_of(scene.fixtures@[p->0 as int]) is Some,
            );
            let action = if clicked is Some { clicked } else { by_key };
            &&& *final(open) == (live && action is None)
            &&& final(selection)@ == (if live && action is Some {
                after_quick(*scene, old(selection)@, action->0)
            } else {
                old(selection)@
            })
        }),
{
    if !*open {
        return;
    }
    if scene.fixtures.len() == 0 {
        *open = false;
        return;
    }
    let by_key = quick_key(keys, has_type(scene, selection), has_maker(scene, selection));
    let action = if clicked.is_some() {
        clicked
    } else {
        by_key
    };
    if let Some(a) = action {
        apply_quick(scene, selection, a);
        *open = false;
    }
}

/// How many fixtures each row of the palette counts; none where the row does not
/// say.
#[derive(Clone, Copy, Debug, PartialEq, Eq, Structural)]
pub struct QuickCounts {
    pub all: usize,
    pub same_type: Option<usize>,
    pub same_maker: Option<usize>,
    pub inverted: usize,
}

/// How many fixtures each row of the palette counts. The inverted row counts all
/// of them but the listed ones that the scene holds; a fixture that is listed
/// twice is taken off twice.
pub fn quick_counts(scene: &Scene, selection: &Selection) -> (r: QuickCounts)
    requires
        kept_below(selection@.fixtures, scene.fixtures@.len()).len() <= scene.fixtures@.len(),
    ensures
        r.all == scene.fixtures@.len(),
        r.same_type == (match quick_fixtures(*scene, selection@, QuickAction::SameType) {
            Some(f) => Some(f.len() as usize),
            None => None,
        }),
        r.same_maker == (match quick_fixtures(*scene, selection@, QuickAction::SameMaker) {
            Some(f) => Some(f.len() as usize),
            None => None,
        }),
        r.inverted == scene.fixtures@.len() - kept_below(
            selection@.fixtures,
            scene.fixtures@.len(),
        ).len(),
{
    QuickCounts {
        all: scene.fixtures.len(),
        same_type: if has_type(scene, selection) {
            Some(list_fixtures(scene, selection, QuickAction::SameType).len())
        } else {
            None
        },
        same_maker: if has_maker(scene, selection) {
            Some(list_fixtures(scene, selection, QuickAction::SameMaker).len())
        } else {
            None
        },
        inverted: scene.fixtures.len() - below(&selection.fixtures, scene.fixtures.len()).len(),
    }
}

proof fn lemma_one_more_below(s: Seq<usize>, n: usize)
    requires
        s.no_duplicates(),
    ensures
        kept_below(s, (n + 1) as nat).len() == kept_below(s, n as nat).len() + (if s.contains(n) {
            1int
        } else {
            0
        }),
    decreases s.len(),
{
    reveal(Seq::filter);
    if s.len() > 0 {
        let front = s.drop_last();
        assert(front.no_duplicates());
        lemma_one_more_below(front, n);
        if s.last() == n {
            assert(s[s.len() - 1] == n);
            assert(!front.contains(n)) by {
                if front.contains(n) {
                    let j = choose|j: int| 0 <= j < front.len() && front[j] == n;
                    assert(s[j] == s[s.len() - 1]);
                }
            }
        } else if s.contains(n) {
            let j = choose|j: int| 0 <= j < s.len() && s[j] == n;
            assert(front[j] == n);
        } else if front.contains(n) {
            let j = choose|j: int| 0 <= j < front.len() && front[j] == n;
            assert(s[j] == n);
        }
    }
}

proof fn lemma_others(s: Seq<usize>, n: nat)
    requires
        s.no_duplicates(),
        n <= usize::MAX,
    ensures
        indices(n).filter(|i: usize| !s.contains(i)).len() + kept_below(s, n).len() == n,
    decreases n,
{
    reveal(Seq::filter);
    if n == 0 {
        keep_nothing_below(s);
    } else {
        let m = (n - 1) as nat;
        assert(indices(n).drop_last() =~= indices(m));
        lemma_others(s, m);
        lemma_one_more_below(s, m as usize);
    }
}

proof fn keep_nothing_below(s: Seq<usize>)
    ensures
        kept_below(s, 0).len() == 0,
    decreases s.len(),
{
    reveal(Seq::filter);
    if s.len() > 0 {
        keep_nothing_below(s.drop_last());
    }
}

/// Where no fixture is listed twice, the inverted row counts what it selects.
pub proof fn inverted_count_is_exact(scene: Scene, s: SelectionView)
    requires
        s.fixtures.no_duplicates(),
    ensures
        kept_below(s.fixtures, scene.fixtures@.len()).len() <= scene.fixtures@.len(),
        scene.fixtures@.len() - kept_below(s.fixtures, scene.fixtures@.len()).len()
            == quick_fixtures(scene, s, QuickAction::Invert)->0.len(),
{
    assert(scene.fixtures@.len() == scene.fixtures.len());
    lemma_others(s.fixtures, scene.fixtures@.len());
}

/// What each batch selection takes, fixture by fixture: all of the scene, those with the
/// profile of the primary one, those with its maker, those that were not selected, or
/// none. Afterwards neither geometry nor an environment is selected.
pub proof fn batch_takes_what_it_names(scene: Scene, s: SelectionView, i: usize)
    requires
        i < scene.fixtures@.len(),
        s.fixtures.len() > 0,
        s.fixtures[0] < scene.fixtures@.len(),
    ensures
        ({
            let first = scene.fixtures@[s.fixtures[0] as int];
            let this = scene.fixtures@[i as int];
            let typed = after_quick(scene, s, QuickAction::SameType);
            let made = after_quick(scene, s, QuickAction::SameMaker);
            &&& after_quick(scene, s, QuickAction::All).fixtures.contains(i)
            &&& typed.fixtures.contains(i) <==> this.profile@ == first.profile@
            &&& first.maker is Some && first.maker->0@.len() > 0 ==> (made.fixtures.contains(i)
                <==> this.maker is Some && this.maker->0@ == first.maker->0@)
            &&& first.maker is None || first.maker->0@.len() == 0 ==> made == s
            &&& after_quick(scene, s, QuickAction::Invert).fixtures.contains(i)
                <==> !s.fixtures.contains(i)
            &&& after_quick(scene, s, QuickAction::Clear).fixtures.len() == 0
            &&& after_quick(scene, s, QuickAction::Dismiss) == s
            &&& typed.geometry.len() == 0 && typed.environment is None
        }),
{
    let all = indices(scene.fixtures@.len());
    assert(scene.fixtures@.len() == scene.fixtures.len());
    assert(all[i as int] == i);
    let p = s.fixtures[0];
    let same = |i: usize| scene.fixtures@[i as int].profile@ == scene.fixtures@[p as int].profile@;
    filter_keeps(all, same);
    assert(quick_fixtures(scene, s, QuickAction::SameType) == Some(all.filter(same)));
    if let Some(m) = maker_of(scene.fixtures@[p as int]) {
        let by = |i: usize| made_by(scene.fixtures@[i as int], m);
        filter_keeps(all, by);
        assert(quick_fixtures(scene, s, QuickAction::SameMaker) == Some(all.filter(by)));
    }
    lemma_inverted(scene, s, i);
}

proof fn lemma_inverted(scene: Scene, s: SelectionView, i: usize)
    requires
        i < scene.fixtures@.len(),
    ensures
        quick_fixtures(scene, s, QuickAction::Invert)->0.contains(i) <==> !s.fixtures.contains(i),
{
    let all = indices(scene.fixtures@.len());
    assert(scene.fixtures@.len() == scene.fixtures.len());
    assert(all[i as int] == i);
    let listed = s.fixtures;
    let others = |i: usize| !listed.contains(i);
    filter_keeps(all, others);
    assert(quick_fixtures(scene, s, QuickAction::Invert) == Some(all.filter(others)));
}

/// A batch selection that goes by the primary fixture does nothing without one.
pub proof fn batch_needs_its_primary(scene: Scene, s: SelectionView)
    requires
        s.fixtures.len() == 0 || s.fixtures[0] >= scene.fixtures@.len(),
    ensures
        after_quick(scene, s, QuickAction::SameType) == s,
        after_quick(scene, s, QuickAction::SameMaker) == s,
        primary_of(scene, s) is None,
{
}

/// A key asks for its own selection where it is pressed alone; Escape dismisses whatever
/// else is pressed, and no key asks for nothing.
pub proof fn each_key_asks_for_its_own(keys: QuickKeys, has_type: bool, has_maker: bool)
    ensures
        keys.escape <==> quick_key(keys, has_type, has_maker) == Some(QuickAction::Dismiss),
        quick_key(keys, has_type, has_maker) == Some(QuickAction::Clear) ==> keys.n,
        quick_key(keys, has_type, has_maker) == Some(QuickAction::Invert) ==> keys.i,
        quick_key(keys, has_type, has_maker) == Some(QuickAction::SameMaker) ==> keys.m && has_maker,
        quick_key(keys, has_type, has_maker) == Some(QuickAction::SameType) ==> keys.t && has_type,
        quick_key(keys, has_type, has_maker) == Some(QuickAction::All) ==> keys.a,
        keys.a || keys.i || keys.n || (keys.t && has_type) || (keys.m && has_maker) ==> quick_key(
            keys,
            has_type,
            has_maker,
        ) is Some,
        !keys.a && !keys.t && !keys.m && !keys.i && !keys.n && !keys.escape ==> quick_key(
            keys,
            has_type,
            has_maker,
        ) is None,
{
}

/// The palette and the selection after a frame.
pub open spec fn after_palette(
    open: bool,
    scene: Scene,
    s: SelectionView,
    keys: QuickKeys,
    clicked: Option<QuickAction>,
) -> (bool, SelectionView) {
    let live = open && scene.fixtures@.len() > 0;
    let p = primary_of(scene, s);
    let by_key = quick_key(
        keys,
        p is Some,
        p is Some && maker_of(scene.fixtures@[p->0 as int]) is Some,
    );
    let action = if clicked is Some { clicked } else { by_key };
    (
        live && action is None,
        if live && action is Some { after_quick(scene, s, action->0) } else { s },
    )
}

/// A closed palette does nothing, and so does an open one of a scene without fixtures but
/// close. A click carries out what was clicked and closes it, Escape closes it and leaves
/// the selection, and without either it waits.
pub proof fn palette_carries_out_and_closes(
    scene: Scene,
    s: SelectionView,
    keys: QuickKeys,
    action: QuickAction,
)
    ensures
        after_palette(false, scene, s, keys, Some(action)) == (false, s),
        scene.fixtures@.len() == 0 ==> after_palette(true, scene, s, keys, Some(action)) == (false, s),
        scene.fixtures@.len() > 0 ==> after_palette(true, scene, s, keys, Some(action)) == (
            false,
            after_quick(scene, s, action),
        ),
        scene.fixtures@.len() > 0 && keys.escape ==> after_palette(true, scene, s, keys, None) == (
            false,
            s,
        ),
        scene.fixtures@.len() > 0 && !keys.a && !keys.t && !keys.m && !keys.i && !keys.n
            && !keys.escape ==> after_palette(true, scene, s, keys, None) == (true, s),
{
}

/// The type key works where there is a primary fixture, and the maker key where that has a
/// maker; where not, the palette waits on.
pub proof fn keys_need_what_they_name(scene: Scene, s: SelectionView, keys: QuickKeys)
    requires
        scene.fixtures@.len() > 0,
        !keys.a && !keys.i && !keys.n && !keys.escape,
    ensures
        primary_of(scene, s) is None ==> after_palette(true, scene, s, keys, None) == (true, s),
        primary_of(scene, s) matches Some(p) ==> (scene.fixtures@[p as int].maker is None && !keys.t
            ==> after_palette(true, scene, s, keys, None) == (true, s)),
        primary_of(scene, s) is Some && keys.t && !keys.m ==> after_palette(
            true,
            scene,
            s,
            keys,
            None,
        ) == (false, after_quick(scene, s, QuickAction::SameType)),
{
}

} // verus!
