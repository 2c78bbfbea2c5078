//! The selection: which entities are selected, the first of each kind being
//! the primary one, and how clicks and picks change it.

use vstd::prelude::*;
use crate::scene::ObjectRef;

verus! {

/// The selected entities by their places in the scene's collections.
#[derive(Debug)]
pub struct Selection {
    pub fixtures: Vec<usize>,
    pub geometry: Vec<usize>,
    pub screens: Vec<usize>,
    pub pyro: Vec<usize>,
    pub environment: Option<usize>,
    pub world: bool,
}

/// What a [`Selection`] is.
#[verifier::ext_equal]
pub struct SelectionView {
    pub fixtures: Seq<usize>,
    pub geometry: Seq<usize>,
    pub screens: Seq<usize>,
    pub pyro: Seq<usize>,
    pub environment: Option<usize>,
    pub world: bool,
}

impl View for Selection {
    type V = SelectionView;

    open spec fn view(&self) -> SelectionView {
        SelectionView {
            fixtures: self.fixtures@,
            geometry: self.geometry@,
            screens: self.screens@,
            pyro: self.pyro@,
            environment: self.environment,
            world: self.world,
        }
    }
}

/// Nothing selected.
pub open spec fn nothing() -> SelectionView {
    SelectionView {
        fixtures: seq![],
        geometry: seq![],
        screens: seq![],
        pyro: seq![],
        environment: None,
        world: false,
    }
}

/// Is a placed object selected: anything but the world?
pub open spec fn has_object(s: SelectionView) -> bool {
    s.fixtures.len() > 0 || s.geometry.len() > 0 || s.screens.len() > 0 || s.pyro.len() > 0
        || s.environment is Some
}

/// `s` without `i`.
pub open spec fn without(s: Seq<usize>, i: usize) -> Seq<usize> {
    s.filter(|x: usize| x != i)
}

/// `s` with `i` at the end, unless it is there already.
pub open spec fn with(s: Seq<usize>, i: usize) -> Seq<usize> {
    if s.contains(i) { s } else { s.push(i) }
}

/// `s` without `i` where it was there, else with it.
pub open spec fn toggled(s: Seq<usize>, i: usize) -> Seq<usize> {
    if s.contains(i) { without(s, i) } else { s.push(i) }
}

/// Is `i` among `v`?
pub fn index_in(v: &Vec<usize>, i: usize) -> (r: bool)
    ensures
        r == v@.contains(i),
{
    let mut k: usize = 0;
    while k < v.len()
        invariant
            k <= v@.len(),
            forall|j: int| 0 <= j < k ==> #[trigger] v@[j] != i,
        decreases v@.len() - k,
    {
        if v[k] == i {
            return true;
        }
        k = k + 1;
    }
    false
}

/// The place of `i` in `v`, the first if there are several.
pub fn position_in(v: &Vec<usize>, i: usize) -> (r: Option<usize>)
    ensures
        r is Some <==> v@.contains(i),
        r matches Some(k) ==> k < v@.len() && v@[k as int] == i && forall|j: int|
            0 <= j < k ==> #[trigger] v@[j] != i,
{
    let mut k: usize = 0;
    while k < v.len()
        invariant
            k <= v@.len(),
            forall|j: int| 0 <= j < k ==> #[trigger] v@[j] != i,
        decreases v@.len() - k,
    {
        if v[k] == i {
            return Some(k);
        }
        k = k + 1;
    }
    None
}

/// Take `i` out of `v`.
fn remove_from(v: &mut Vec<usize>, i: usize)
    ensures
        final(v)@ == without(old(v)@, i),
{
    let mut out: Vec<usize> = Vec::new();
    let mut k: usize = 0;
    proof {
        reveal(Seq::filter);
    }
    while k < v.len()
        invariant
            k <= v@.len(),
            *v == *old(v),
            out@ == without(v@.take(k as int), i),
        decreases v@.len() - k,
    {
        reveal(Seq::filter);
        assert(v@.take(k + 1).drop_last() =~= v@.take(k as int));
        if v[k] != i {
            out.push(v[k]);
        }
        k = k + 1;
    }
    assert(v@.take(k as int) =~= v@);
    *v = out;
}

/// Put `i` at the end of `v`, unless it is there already.
fn add_to(v: &mut Vec<usize>, i: usize)
    ensures
        final(v)@ == with(old(v)@, i),
{
    if !index_in(v, i) {
        v.push(i);
    }
}

/// Take `i` out of `v` where it is there, else put it at the end.
fn toggle_in(v: &mut Vec<usize>, i: usize)
    ensures
        final(v)@ == toggled(old(v)@, i),
{
    if index_in(v, i) {
        remove_from(v, i);
    } else {
        v.push(i);
    }
}

/// A copy of a list of indices.
pub fn copy_indices(v: &Vec<usize>) -> (r: Vec<usize>)
    ensures
        r@ == v@,
{
    copy_range(v, 0, v.len())
}

/// A copy of `v[from..to]`.
pub fn copy_range(v: &Vec<usize>, from: usize, to: usize) -> (r: Vec<usize>)
    requires
        from <= to <= v@.len(),
    ensures
        r@ == v@.subrange(from as int, to as int),
{
    let mut out: Vec<usize> = Vec::new();
    let mut k: usize = from;
    while k < to
        invariant
            from <= k <= to <= v@.len(),
            out@ == v@.subrange(from as int, k as int),
        decreases to - k,
    {
        out.push(v[k]);
        k = k + 1;
        assert(out@ =~= v@.subrange(from as int, k as int));
    }
    out
}

impl Default for Selection {
    fn default() -> (r: Self)
        ensures
            r@ == nothing(),
    {
        Selection {
            fixtures: Vec::new(),
            geometry: Vec::new(),
            screens: Vec::new(),
            pyro: Vec::new(),
            environment: None,
            world: false,
        }
    }
}

impl Selection {
    /// One fixture.
    pub fn fixture(i: usize) -> (r: Selection)
        ensures
            r@ == (SelectionView { fixtures: seq![i], ..nothing() }),
    {
        Selection { fixtures: vec![i], ..Selection::default() }
    }

    /// One piece of geometry.
    pub fn geometry(i: usize) -> (r: Selection)
        ensures
            r@ == (SelectionView { geometry: seq![i], ..nothing() }),
    {
        Selection { geometry: vec![i], ..Selection::default() }
    }

    /// One screen.
    pub fn screen(i: usize) -> (r: Selection)
        ensures
            r@ == (SelectionView { screens: seq![i], ..nothing() }),
    {
        Selection { screens: vec![i], ..Selection::default() }
    }

    /// One pyro device.
    pub fn pyro(i: usize) -> (r: Selection)
        ensures
            r@ == (SelectionView { pyro: seq![i], ..nothing() }),
    {
        Selection { pyro: vec![i], ..Selection::default() }
    }

    /// One environment.
    pub fn environment(i: usize) -> (r: Selection)
        ensures
            r@ == (SelectionView { environment: Some(i), ..nothing() }),
    {
        Selection { environment: Some(i), ..Selection::default() }
    }

    /// The world.
    pub fn world() -> (r: Selection)
        ensures
            r@ == (SelectionView { world: true, ..nothing() }),
    {
        Selection { world: true, ..Selection::default() }
    }

    /// Is the fixture `i` selected?
    pub fn contains_fixture(&self, i: usize) -> (r: bool)
        ensures
            r == self@.fixtures.contains(i),
    {
        index_in(&self.fixtures, i)
    }

    /// Is the piece of geometry `i` selected?
    pub fn contains_geometry(&self, i: usize) -> (r: bool)
        ensures
            r == self@.geometry.contains(i),
    {
        index_in(&self.geometry, i)
    }

    /// Is the screen `i` selected?
    pub fn contains_screen(&self, i: usize) -> (r: bool)
        ensures
            r == self@.screens.contains(i),
    {
        index_in(&self.screens, i)
    }

    /// Is the pyro device `i` selected?
    pub fn contains_pyro(&self, i: usize) -> (r: bool)
        ensures
            r == self@.pyro.contains(i),
    {
        index_in(&self.pyro, i)
    }

    /// The primary fixture.
    pub fn primary_fixture(&self) -> (r: Option<usize>)
        ensures
            r == first_of(self@.fixtures),
    {
        first_index(&self.fixtures)
    }

    /// The primary piece of geometry.
    pub fn primary_geometry(&self) -> (r: Option<usize>)
        ensures
            r == first_of(self@.geometry),
    {
        first_index(&self.geometry)
    }

    /// The primary screen.
    pub fn primary_screen(&self) -> (r: Option<usize>)
        ensures
            r == first_of(self@.screens),
    {
        first_index(&self.screens)
    }

    /// Select or deselect the piece of geometry `i`.
    pub fn toggle_geometry(&mut self, i: usize)
        ensures
            final(self)@ == (SelectionView {
                geometry: toggled(old(self)@.geometry, i),
                ..old(self)@
            }),
    {
        toggle_in(&mut self.geometry, i);
    }

    /// Select or deselect the screen `i`.
    pub fn toggle_screen(&mut self, i: usize)
        ensures
            final(self)@ == (SelectionView { screens: toggled(old(self)@.screens, i), ..old(self)@ }),
    {
        toggle_in(&mut self.screens, i);
    }

    /// Select or deselect the fixture `i`.
    pub fn toggle_fixture(&mut self, i: usize)
        ensures
            final(self)@ == (SelectionView {
                fixtures: toggled(old(self)@.fixtures, i),
                ..old(self)@
            }),
    {
        toggle_in(&mut self.fixtures, i);
    }

    /// Is a placed object selected: anything but the world?
    pub fn has_object(&self) -> (r: bool)
        ensures
            r == has_object(self@),
    {
        self.fixtures.len() > 0 || self.geometry.len() > 0 || self.screens.len() > 0
            || self.pyro.len() > 0 || self.environment.is_some()
    }

    /// A copy of the selection.
    pub fn copy(&self) -> (r: Selection)
        ensures
            r@ == self@,
    {
        Selection {
            fixtures: copy_indices(&self.fixtures),
            geometry: copy_indices(&self.geometry),
            screens: copy_indices(&self.screens),
            pyro: copy_indices(&self.pyro),
            environment: self.environment,
            world: self.world,
        }
    }
}

/// The first of a list.
pub open spec fn first_of(s: Seq<usize>) -> Option<usize> {
    if s.len() > 0 { Some(s[0]) } else { None }
}

/// The first of a list.
pub fn first_index(v: &Vec<usize>) -> (r: Option<usize>)
    ensures
        r == first_of(v@),
{
    if v.len() > 0 {
        Some(v[0])
    } else {
        None
    }
}

/// How a pick combines with the selection.
#[derive(Clone, Copy, Debug, PartialEq, Eq, Structural)]
pub enum SelectOp {
    Replace,
    Add,
    Subtract,
    Toggle,
}

/// An entity that a pick found.
#[derive(Clone, Copy, Debug, PartialEq, Eq, Structural)]
pub enum SelItem {
    Fixture(usize),
    Geometry(usize),
    Screen(usize),
    Pyro(usize),
    Environment(usize),
}

/// A list of one kind after one more pick of that kind.
pub open spec fn picked(s: Seq<usize>, i: usize, op: SelectOp) -> Seq<usize> {
    match op {
        SelectOp::Replace => with(s, i),
        SelectOp::Add => with(s, i),
        SelectOp::Subtract => without(s, i),
        SelectOp::Toggle => toggled(s, i),
    }
}

/// The selected environment after one more pick.
pub open spec fn picked_environment(e: Option<usize>, i: usize, op: SelectOp) -> Option<usize> {
    match op {
        SelectOp::Replace => Some(i),
        SelectOp::Add => Some(i),
        SelectOp::Subtract => if e == Some(i) { None } else { e },
        SelectOp::Toggle => if e == Some(i) { None } else { Some(i) },
    }
}

/// The selection after one more pick.
pub open spec fn after_pick(s: SelectionView, item: SelItem, op: SelectOp) -> SelectionView {
    match item {
        SelItem::Fixture(i) => SelectionView { fixtures: picked(s.fixtures, i, op), ..s },
        SelItem::Geometry(i) => SelectionView { geometry: picked(s.geometry, i, op), ..s },
        SelItem::Screen(i) => SelectionView { screens: picked(s.screens, i, op), ..s },
        SelItem::Pyro(i) => SelectionView { pyro: picked(s.pyro, i, op), ..s },
        SelItem::Environment(i) => SelectionView {
            environment: picked_environment(s.environment, i, op),
            ..s
        },
    }
}

/// The selection after a run of picks.
pub open spec fn after_picks(s: SelectionView, hits: Seq<SelItem>, op: SelectOp) -> SelectionView
    decreases hits.len(),
{
    if hits.len() == 0 {
        s
    } else {
        after_pick(after_picks(s, hits.drop_last(), op), hits.last(), op)
    }
}

/// One more pick of a kind.
fn pick_index(v: &mut Vec<usize>, i: usize, op: SelectOp)
    ensures
        final(v)@ == picked(old(v)@, i, op),
{
    match op {
        SelectOp::Replace => add_to(v, i),
        SelectOp::Add => add_to(v, i),
        SelectOp::Subtract => remove_from(v, i),
        SelectOp::Toggle => toggle_in(v, i),
    }
}

/// The selection that a set of picked entities makes of `selection`: replaced
/// by them, with them added, taken out or toggled.
pub fn apply_select(selection: &Selection, hits: &Vec<SelItem>, op: SelectOp) -> (r: Selection)
    ensures
        r@ == after_picks(if op == SelectOp::Replace { nothing() } else { selection@ }, hits@, op),
        r@ == combined(selection@, hits@, op),
{
    let mut out = if op == SelectOp::Replace {
        Selection::default()
    } else {
        selection.copy()
    };
    let ghost start = out@;
    let mut k: usize = 0;
    assert(hits@.take(0) =~= seq![]);
    while k < hits.len()
        invariant
            k <= hits@.len(),
            out@ == after_picks(start, hits@.take(k as int), op),
        decreases hits@.len() - k,
    {
        assert(hits@.take(k + 1).drop_last() =~= hits@.take(k as int));
        match hits[k] {
            SelItem::Fixture(i) => pick_index(&mut out.fixtures, i, op),
            SelItem::Geometry(i) => pick_index(&mut out.geometry, i, op),
            SelItem::Screen(i) => pick_index(&mut out.screens, i, op),
            SelItem::Pyro(i) => pick_index(&mut out.pyro, i, op),
            SelItem::Environment(i) => {
                out.environment = match op {
                    SelectOp::Replace => Some(i),
                    SelectOp::Add => Some(i),
                    SelectOp::Subtract => {
                        if out.environment == Some(i) {
                            None
                        } else {
                            out.environment
                        }
                    },
                    SelectOp::Toggle => {
                        if out.environment == Some(i) {
                            None
                        } else {
                            Some(i)
                        }
                    },
                };
            },
        }
        k = k + 1;
    }
    assert(hits@.take(k as int) =~= hits@);
    out
}

/// The indices from `lo` to `hi`, both included.
pub open spec fn index_range(lo: int, hi: int) -> Seq<usize> {
    Seq::new((hi - lo + 1) as nat, |k: int| (lo + k) as usize)
}

/// The selection and range anchor after a click on the fixture `i` of `n`. A
/// plain click selects it alone; with `toggle` it is selected or deselected;
/// with `shift` the fixtures between the anchor and it are selected.
pub open spec fn clicked_fixture(
    s: SelectionView,
    anchor: Option<usize>,
    i: usize,
    shift: bool,
    toggle: bool,
    n: usize,
) -> (SelectionView, Option<usize>) {
    if shift {
        let a = match anchor {
            Some(a) => if a < n { a } else { i },
            None => i,
        };
        let range = if a <= i { index_range(a as int, i as int) } else { index_range(i as int, a as int) };
        (SelectionView { fixtures: range, ..nothing() }, Some(a))
    } else if toggle {
        (SelectionView { fixtures: toggled(s.fixtures, i), ..s }, Some(i))
    } else {
        (SelectionView { fixtures: seq![i], ..nothing() }, Some(i))
    }
}

/// Apply a click on the fixture `i` of `n`.
pub fn apply_fixture_click(
    selection: &mut Selection,
    anchor: &mut Option<usize>,
    i: usize,
    shift: bool,
    toggle: bool,
    n: usize,
)
    requires
        i < n,
    ensures
        (final(selection)@, *final(anchor)) == clicked_fixture(
            old(selection)@,
            *old(anchor),
            i,
            shift,
            toggle,
            n,
        ),
{
    if shift {
        let a: usize = match *anchor {
            Some(a) => {
                if a < n {
                    a
                } else {
                    i
                }
            },
            None => i,
        };
        let lo: usize = if a <= i { a } else { i };
        let hi: usize = if a <= i { i } else { a };
        let mut range: Vec<usize> = Vec::new();
        let mut k: usize = lo;
        while k <= hi
            invariant
                lo <= k <= hi + 1,
                hi < n,
                range@ == index_range(lo as int, k - 1),
            decreases hi + 1 - k,
        {
            range.push(k);
            k = k + 1;
            assert(range@ =~= index_range(lo as int, k - 1));
        }
        let mut next = Selection::default();
        next.fixtures = range;
        *selection = next;
        *anchor = Some(a);
    } else if toggle {
        selection.toggle_fixture(i);
        *anchor = Some(i);
    } else {
        *selection = Selection::fixture(i);
        *anchor = Some(i);
    }
}

/// The selection of a list of object references, in their order.
pub open spec fn of_objects(objs: Seq<ObjectRef>) -> SelectionView
    decreases objs.len(),
{
    if objs.len() == 0 {
        nothing()
    } else {
        let s = of_objects(objs.drop_last());
        match objs.last() {
            ObjectRef::Fixture(i) => SelectionView { fixtures: s.fixtures.push(i), ..s },
            ObjectRef::Geometry(i) => SelectionView { geometry: s.geometry.push(i), ..s },
            ObjectRef::Screen(i) => SelectionView { screens: s.screens.push(i), ..s },
            ObjectRef::Pyro(i) => SelectionView { pyro: s.pyro.push(i), ..s },
            ObjectRef::Environment(i) => SelectionView { environment: Some(i), ..s },
        }
    }
}

impl Selection {
    /// The selection of a list of object references, in their order.
    pub fn from_object_refs(objs: &Vec<ObjectRef>) -> (r: Selection)
        ensures
            r@ == of_objects(objs@),
    {
        let mut out = Selection::default();
        let mut k: usize = 0;
        assert(objs@.take(0) =~= seq![]);
        while k < objs.len()
            invariant
                k <= objs@.len(),
                out@ == of_objects(objs@.take(k as int)),
            decreases objs@.len() - k,
        {
            assert(objs@.take(k + 1).drop_last() =~= objs@.take(k as int));
            match objs[k] {
                ObjectRef::Fixture(i) => out.fixtures.push(i),
                ObjectRef::Geometry(i) => out.geometry.push(i),
                ObjectRef::Screen(i) => out.screens.push(i),
                ObjectRef::Pyro(i) => out.pyro.push(i),
                ObjectRef::Environment(i) => {
                    out.environment = Some(i);
                },
            }
            k = k + 1;
        }
        assert(objs@.take(k as int) =~= objs@);
        out
    }
}

/// Is the entity selected?
pub open spec fn holds(s: SelectionView, item: SelItem) -> bool {
    match item {
        SelItem::Fixture(i) => s.fixtures.contains(i),
        SelItem::Geometry(i) => s.geometry.contains(i),
        SelItem::Screen(i) => s.screens.contains(i),
        SelItem::Pyro(i) => s.pyro.contains(i),
        SelItem::Environment(i) => s.environment == Some(i),
    }
}

/// A filter keeps what it is met by, once where it was listed once, and nothing
/// else.
pub proof fn filter_keeps<A>(s: Seq<A>, p: spec_fn(A) -> bool)
    ensures
        forall|x: A| #[trigger] s.filter(p).contains(x) <==> s.contains(x) && p(x),
        s.no_duplicates() ==> s.filter(p).no_duplicates(),
    decreases s.len(),
{
    reveal(Seq::filter);
    if s.len() > 0 {
        let front = s.drop_last();
        let kept = front.filter(p);
        let all = s.filter(p);
        filter_keeps(front, p);
        assert forall|x: A| #[trigger] all.contains(x) implies s.contains(x) && p(x) by {
            let k = choose|k: int| 0 <= k < all.len() && all[k] == x;
            if k < kept.len() {
                assert(kept[k] == x);
                assert(kept.contains(x));
                let j = choose|j: int| 0 <= j < front.len() && front[j] == x;
                assert(s[j] == x);
            } else {
                assert(s[s.len() - 1] == x);
            }
        }
        assert forall|x: A| s.contains(x) && p(x) implies #[trigger] all.contains(x) by {
            let j = choose|j: int| 0 <= j < s.len() && s[j] == x;
            if j < front.len() {
                assert(front[j] == x);
                assert(kept.contains(x));
                let k = choose|k: int| 0 <= k < kept.len() && kept[k] == x;
                assert(all[k] == x);
            } else {
                assert(all[kept.len() as int] == x);
            }
        }
        if s.no_duplicates() {
            assert(front.no_duplicates()) by {
                assert forall|a: int, b: int| 0 <= a < front.len() && 0 <= b < front.len() && a
                    != b implies front[a] != front[b] by {
                    assert(s[a] != s[b]);
                }
            }
            if p(s.last()) {
                assert(!kept.contains(s.last())) by {
                    if kept.contains(s.last()) {
                        let j = choose|j: int| 0 <= j < front.len() && front[j] == s.last();
                        assert(s[j] != s[s.len() - 1]);
                    }
                }
                assert forall|a: int, b: int| 0 <= a < all.len() && 0 <= b < all.len() && a
                    != b implies all[a] != all[b] by {
                    if a < kept.len() {
                        assert(kept[a] == all[a]);
                        assert(kept.contains(all[a]));
                    }
                    if b < kept.len() {
                        assert(kept[b] == all[b]);
                        assert(kept.contains(all[b]));
                    }
                }
            }
        }
    }
}

proof fn lemma_without(s: Seq<usize>, i: usize)
    ensures
        forall|x: usize| #[trigger] without(s, i).contains(x) <==> s.contains(x) && x != i,
        s.no_duplicates() ==> without(s, i).no_duplicates(),
    decreases s.len(),
{
    reveal(Seq::filter);
    let less = without(s, i);
    if s.len() > 0 {
        let front = s.drop_last();
        let kept = without(front, i);
        lemma_without(front, i);
        assert(less == if s.last() != i { kept.push(s.last()) } else { kept });
        assert forall|x: usize| #[trigger] less.contains(x) <==> s.contains(x) && x != i by {
            if less.contains(x) {
                let k = choose|k: int| 0 <= k < less.len() && less[k] == x;
                if k < kept.len() {
                    assert(kept[k] == x);
                    assert(kept.contains(x));
                    let j = choose|j: int| 0 <= j < front.len() && front[j] == x;
                    assert(s[j] == x);
                } else {
                    assert(s[s.len() - 1] == x);
                }
            }
            if s.contains(x) && x != i {
                let j = choose|j: int| 0 <= j < s.len() && s[j] == x;
                if j < front.len() {
                    assert(front[j] == x);
                    assert(kept.contains(x));
                    let k = choose|k: int| 0 <= k < kept.len() && kept[k] == x;
                    assert(less[k] == x);
                } else {
                    assert(less[kept.len() as int] == x);
                }
            }
        }
        if s.no_duplicates() {
            assert forall|a: int, b: int| 0 <= a < front.len() && 0 <= b < front.len() && a
                != b implies front[a] != front[b] by {
                assert(s[a] != s[b]);
            }
            if front.contains(s.last()) {
                let j = choose|j: int| 0 <= j < front.len() && front[j] == s.last();
                assert(s[j] != s[s.len() - 1]);
            }
            assert(!kept.contains(s.last()));
            assert forall|a: int, b: int| 0 <= a < less.len() && 0 <= b < less.len() && a
                != b implies less[a] != less[b] by {
                if a < kept.len() {
                    assert(kept.contains(kept[a]));
                }
                if b < kept.len() {
                    assert(kept.contains(kept[b]));
                }
            }
        }
    }
}

/// Adding, taking out and toggling an index touch that index alone: added it is
/// there, taken out it is not, toggled it is there where it was not. What is
/// listed once stays so.
pub proof fn one_index_changes(s: Seq<usize>, i: usize)
    ensures
        forall|x: usize| #[trigger] with(s, i).contains(x) <==> s.contains(x) || x == i,
        forall|x: usize| #[trigger] without(s, i).contains(x) <==> s.contains(x) && x != i,
        forall|x: usize| #[trigger] toggled(s, i).contains(x) <==> (s.contains(x) != (x == i)),
        s.no_duplicates() ==> with(s, i).no_duplicates() && without(s, i).no_duplicates()
            && toggled(s, i).no_duplicates(),
{
    lemma_without(s, i);
    let longer = s.push(i);
    assert forall|x: usize| #[trigger] longer.contains(x) <==> s.contains(x) || x == i by {
        if s.contains(x) {
            let k = choose|k: int| 0 <= k < s.len() && s[k] == x;
            assert(longer[k] == x);
        }
        assert(longer[s.len() as int] == i);
    }
}

/// Toggling twice leaves the same indices as before.
pub proof fn toggling_twice_restores(s: Seq<usize>, i: usize)
    ensures
        forall|x: usize| #[trigger] toggled(toggled(s, i), i).contains(x) <==> s.contains(x),
{
    one_index_changes(s, i);
    one_index_changes(toggled(s, i), i);
}

/// What one pick does, entity by entity. The scene shows one environment, so a
/// pick of another takes its place.
proof fn lemma_one_pick(s: SelectionView, hit: SelItem, op: SelectOp)
    ensures
        after_pick(s, hit, op).world == s.world,
        op is Subtract ==> forall|e: SelItem| #[trigger]
            holds(after_pick(s, hit, op), e) <==> holds(s, e) && e != hit,
        op is Replace || op is Add ==> forall|e: SelItem|
            !(e is Environment) ==> (#[trigger] holds(after_pick(s, hit, op), e) <==> holds(s, e)
                || e == hit),
        op is Toggle ==> forall|e: SelItem|
            !(e is Environment) ==> (#[trigger] holds(after_pick(s, hit, op), e) <==> holds(s, e)
                != (e == hit)),
{
    match hit {
        SelItem::Fixture(i) => one_index_changes(s.fixtures, i),
        SelItem::Geometry(i) => one_index_changes(s.geometry, i),
        SelItem::Screen(i) => one_index_changes(s.screens, i),
        SelItem::Pyro(i) => one_index_changes(s.pyro, i),
        SelItem::Environment(i) => {},
    }
}

proof fn lemma_last_hit(hits: Seq<SelItem>, e: SelItem)
    requires
        hits.len() > 0,
    ensures
        hits.contains(e) <==> hits.drop_last().contains(e) || e == hits.last(),
{
    let front = hits.drop_last();
    if hits.contains(e) {
        let k = choose|k: int| 0 <= k < hits.len() && hits[k] == e;
        if k < front.len() {
            assert(front[k] == e);
        }
    }
    if front.contains(e) {
        let k = choose|k: int| 0 <= k < front.len() && front[k] == e;
        assert(hits[k] == e);
    }
    assert(hits[hits.len() - 1] == hits.last());
}

/// Picks added to a selection are selected beside what was, and nothing else is.
pub proof fn added_picks_join(s: SelectionView, hits: Seq<SelItem>, e: SelItem)
    requires
        !(e is Environment),
    ensures
        holds(after_picks(s, hits, SelectOp::Add), e) <==> holds(s, e) || hits.contains(e),
        after_picks(s, hits, SelectOp::Add).world == s.world,
    decreases hits.len(),
{
    if hits.len() > 0 {
        let front = hits.drop_last();
        added_picks_join(s, front, e);
        lemma_one_pick(after_picks(s, front, SelectOp::Add), hits.last(), SelectOp::Add);
        lemma_last_hit(hits, e);
    }
}

/// Picks taken out of a selection are no longer selected, and what was not picked
/// stays.
pub proof fn subtracted_picks_leave(s: SelectionView, hits: Seq<SelItem>, e: SelItem)
    ensures
        holds(after_picks(s, hits, SelectOp::Subtract), e) <==> holds(s, e) && !hits.contains(e),
        after_picks(s, hits, SelectOp::Subtract).world == s.world,
    decreases hits.len(),
{
    if hits.len() > 0 {
        let front = hits.drop_last();
        subtracted_picks_leave(s, front, e);
        lemma_one_pick(after_picks(s, front, SelectOp::Subtract), hits.last(), SelectOp::Subtract);
        lemma_last_hit(hits, e);
    }
}

/// Toggled picks, each given once, change sides: what was selected among them is
/// not, what was not is, and nothing else changes.
pub proof fn toggled_picks_change_sides(s: SelectionView, hits: Seq<SelItem>, e: SelItem)
    requires
        !(e is Environment),
        hits.no_duplicates(),
    ensures
        holds(after_picks(s, hits, SelectOp::Toggle), e) <==> (holds(s, e) != hits.contains(e)),
        after_picks(s, hits, SelectOp::Toggle).world == s.world,
    decreases hits.len(),
{
    if hits.len() > 0 {
        let front = hits.drop_last();
        assert(front.no_duplicates()) by {
            assert forall|a: int, b: int| 0 <= a < front.len() && 0 <= b < front.len() && a
                != b implies front[a] != front[b] by {
                assert(hits[a] != hits[b]);
            }
        }
        if front.contains(hits.last()) {
            let k = choose|k: int| 0 <= k < front.len() && front[k] == hits.last();
            assert(hits[k] != hits[hits.len() - 1]);
        }
        toggled_picks_change_sides(s, front, e);
        lemma_one_pick(after_picks(s, front, SelectOp::Toggle), hits.last(), SelectOp::Toggle);
        lemma_last_hit(hits, e);
    }
}

/// The selection after picks that combine with it in the given way; a
/// replacing one starts from nothing.
pub open spec fn combined(s: SelectionView, hits: Seq<SelItem>, op: SelectOp) -> SelectionView {
    after_picks(if op == SelectOp::Replace { nothing() } else { s }, hits, op)
}

/// Replacing picks are selected and nothing else is, whatever was before.
pub proof fn replacing_picks_stand_alone(s: SelectionView, hits: Seq<SelItem>, e: SelItem)
    requires
        !(e is Environment),
    ensures
        holds(combined(s, hits, SelectOp::Replace), e) <==> hits.contains(e),
        !combined(s, hits, SelectOp::Replace).world,
    decreases hits.len(),
{
    if hits.len() > 0 {
        let front = hits.drop_last();
        replacing_picks_stand_alone(s, front, e);
        lemma_one_pick(after_picks(nothing(), front, SelectOp::Replace), hits.last(), SelectOp::Replace);
        lemma_last_hit(hits, e);
    }
}

/// A picked environment becomes the selected one, unless it is taken out, or
/// toggled while it was the selected one.
pub proof fn picked_environment_takes_over(s: SelectionView, i: usize, op: SelectOp)
    ensures
        ({
            let r = combined(s, seq![SelItem::Environment(i)], op);
            &&& op is Replace || op is Add ==> r.environment == Some(i)
            &&& op is Toggle && s.environment != Some(i) ==> r.environment == Some(i)
            &&& op is Toggle && s.environment == Some(i) ==> r.environment is None
            &&& op is Subtract ==> r.environment != Some(i)
            &&& op is Subtract && s.environment != Some(i) ==> r.environment == s.environment
        }),
{
    let hits = seq![SelItem::Environment(i)];
    assert(hits.drop_last() =~= seq![]);
    reveal_with_fuel(after_picks, 2);
}

/// A plain click on a fixture selects it and nothing else, whatever was selected
/// before.
pub proof fn plain_fixture_click_selects_alone(
    s: SelectionView,
    anchor: Option<usize>,
    i: usize,
    n: usize,
)
    ensures
        ({
            let r = clicked_fixture(s, anchor, i, false, false, n).0;
            &&& !r.world
            &&& forall|e: SelItem| #[trigger] holds(r, e) <==> e == SelItem::Fixture(i)
        }),
{
    assert(seq![i].contains(i)) by {
        assert(seq![i][0] == i);
    }
}

/// A toggling click on a fixture changes whether it is selected, and nothing
/// else.
pub proof fn toggling_fixture_click_changes_it_alone(
    s: SelectionView,
    anchor: Option<usize>,
    i: usize,
    n: usize,
)
    ensures
        ({
            let r = clicked_fixture(s, anchor, i, false, true, n).0;
            &&& r.world == s.world
            &&& forall|e: SelItem| #[trigger]
                holds(r, e) <==> (holds(s, e) != (e == SelItem::Fixture(i)))
        }),
{
    one_index_changes(s.fixtures, i);
}

proof fn lemma_range_has(lo: usize, hi: usize, x: usize)
    requires
        lo <= hi,
    ensures
        index_range(lo as int, hi as int).contains(x) <==> lo <= x <= hi,
{
    let range = index_range(lo as int, hi as int);
    if lo <= x <= hi {
        assert(range[x - lo] == x);
    }
}

/// A range click after a click on `i` selects the fixtures from `i` to `j`, in
/// either direction, and nothing else; a further range click starts at `i` again.
pub proof fn range_runs_from_the_last_click(
    s: SelectionView,
    anchor: Option<usize>,
    i: usize,
    j: usize,
    k: usize,
    toggle: bool,
    n: usize,
)
    requires
        i < n && j < n && k < n,
    ensures
        ({
            let first = clicked_fixture(s, anchor, i, false, toggle, n);
            let second = clicked_fixture(first.0, first.1, j, true, toggle, n);
            let third = clicked_fixture(second.0, second.1, k, true, toggle, n);
            &&& !second.0.world
            &&& forall|e: SelItem| #[trigger]
                holds(second.0, e) <==> (e matches SelItem::Fixture(x) && (i <= x <= j || j <= x
                    <= i))
            &&& forall|e: SelItem| #[trigger]
                holds(third.0, e) <==> (e matches SelItem::Fixture(x) && (i <= x <= k || k <= x
                    <= i))
        }),
{
    let first = clicked_fixture(s, anchor, i, false, toggle, n);
    let second = clicked_fixture(first.0, first.1, j, true, toggle, n);
    let third = clicked_fixture(second.0, second.1, k, true, toggle, n);
    assert forall|x: usize| #[trigger] second.0.fixtures.contains(x) <==> (i <= x <= j || j <= x
        <= i) by {
        if i <= j {
            lemma_range_has(i, j, x);
        } else {
            lemma_range_has(j, i, x);
        }
    }
    assert forall|x: usize| #[trigger] third.0.fixtures.contains(x) <==> (i <= x <= k || k <= x
        <= i) by {
        if i <= k {
            lemma_range_has(i, k, x);
        } else {
            lemma_range_has(k, i, x);
        }
    }
}

/// The entity that a reference names.
pub open spec fn item_of(o: ObjectRef) -> SelItem {
    match o {
        ObjectRef::Fixture(i) => SelItem::Fixture(i),
        ObjectRef::Geometry(i) => SelItem::Geometry(i),
        ObjectRef::Screen(i) => SelItem::Screen(i),
        ObjectRef::Pyro(i) => SelItem::Pyro(i),
        ObjectRef::Environment(i) => SelItem::Environment(i),
    }
}

/// Selecting a list of objects selects each of them and nothing else; of several
/// environments the last.
pub proof fn listed_objects_are_selected(objs: Seq<ObjectRef>, o: ObjectRef)
    ensures
        !of_objects(objs).world,
        !(o is Environment) ==> (holds(of_objects(objs), item_of(o)) <==> objs.contains(o)),
        o is Environment && holds(of_objects(objs), item_of(o)) ==> objs.contains(o),
        objs.len() > 0 ==> holds(of_objects(objs), item_of(objs.last())),
    decreases objs.len(),
{
    if objs.len() > 0 {
        let front = objs.drop_last();
        let s = of_objects(front);
        listed_objects_are_selected(front, o);
        if objs.contains(o) {
            let k = choose|k: int| 0 <= k < objs.len() && objs[k] == o;
            if k < front.len() {
                assert(front[k] == o);
            }
        }
        if front.contains(o) {
            let k = choose|k: int| 0 <= k < front.len() && front[k] == o;
            assert(objs[k] == o);
        }
        assert(objs[objs.len() - 1] == objs.last());
        let list = match objs.last() {
            ObjectRef::Fixture(i) => s.fixtures,
            ObjectRef::Geometry(i) => s.geometry,
            ObjectRef::Screen(i) => s.screens,
            ObjectRef::Pyro(i) => s.pyro,
            ObjectRef::Environment(i) => seq![],
        };
        assert forall|i: usize, x: usize| #[trigger] list.push(i).contains(x) <==> list.contains(x)
            || x == i by {
            if list.contains(x) {
                let k = choose|k: int| 0 <= k < list.len() && list[k] == x;
                assert(list.push(i)[k] == x);
            }
            assert(list.push(i)[list.len() as int] == i);
        }
    }
}

/// A placed object is selected exactly where some entity is; the world is none.
pub proof fn object_is_selected_where_one_is(s: SelectionView)
    ensures
        has_object(s) <==> exists|e: SelItem| #[trigger] holds(s, e),
        !has_object(SelectionView { world: true, ..nothing() }),
        !has_object(nothing()),
{
    if s.fixtures.len() > 0 {
        assert(holds(s, SelItem::Fixture(s.fixtures[0])));
    }
    if s.geometry.len() > 0 {
        assert(holds(s, SelItem::Geometry(s.geometry[0])));
    }
    if s.screens.len() > 0 {
        assert(holds(s, SelItem::Screen(s.screens[0])));
    }
    if s.pyro.len() > 0 {
        assert(holds(s, SelItem::Pyro(s.pyro[0])));
    }
    if let Some(i) = s.environment {
        assert(holds(s, SelItem::Environment(i)));
    }
}

/// The primary of a list is its first, and an empty list has none; adding to a list that is
/// not empty keeps the primary.
pub proof fn primary_is_the_first(s: Seq<usize>, i: usize)
    ensures
        first_of(s) is Some <==> s.len() > 0,
        s.len() > 0 ==> first_of(s) == Some(s[0]) && first_of(with(s, i)) == Some(s[0]),
        first_of(seq![i]) == Some(i),
{
}

/// A range click without a start that the scene holds takes the clicked fixture alone, and
/// starts there.
pub proof fn range_without_a_start_is_one(
    s: SelectionView,
    anchor: Option<usize>,
    i: usize,
    toggle: bool,
    n: usize,
    e: SelItem,
)
    requires
        anchor matches Some(a) ==> a >= n,
    ensures
        holds(clicked_fixture(s, anchor, i, true, toggle, n).0, e) <==> e == SelItem::Fixture(i),
        clicked_fixture(s, anchor, i, true, toggle, n).1 == Some(i),
{
    if let SelItem::Fixture(x) = e {
        lemma_range_has(i, i, x);
    }
    lemma_range_has(i, i, i);
}

} // verus!
