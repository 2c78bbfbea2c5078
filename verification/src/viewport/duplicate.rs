//! The live array of a duplication: how many further copies the typed count
//! asks for, which of them go when it shrinks, and where each stands.
//!
//! A copy is always appended to the collection of its kind, so the youngest
//! copies of a kind are its last objects.

use vstd::prelude::*;
use crate::scene::{ObjectRef, Scene};
use crate::text::decimal;
use crate::viewport::num_input::{array_count, typed_number_is_itself, NumView};
use crate::viewport::transform::{OpView, TransformOp};

verus! {

/// The kinds of object.
#[derive(Clone, Copy, Debug, PartialEq, Eq, Structural)]
pub enum ObjectKind {
    Fixture,
    Geometry,
    Screen,
    Environment,
    Pyro,
}

/// The kind of an object.
#[verifier::allow_in_spec]
pub fn kind_of(obj: ObjectRef) -> ObjectKind
    returns
        (match obj {
            ObjectRef::Fixture(_) => ObjectKind::Fixture,
            ObjectRef::Geometry(_) => ObjectKind::Geometry,
            ObjectRef::Screen(_) => ObjectKind::Screen,
            ObjectRef::Environment(_) => ObjectKind::Environment,
            ObjectRef::Pyro(_) => ObjectKind::Pyro,
        }),
{
    match obj {
        ObjectRef::Fixture(_) => ObjectKind::Fixture,
        ObjectRef::Geometry(_) => ObjectKind::Geometry,
        ObjectRef::Screen(_) => ObjectKind::Screen,
        ObjectRef::Environment(_) => ObjectKind::Environment,
        ObjectRef::Pyro(_) => ObjectKind::Pyro,
    }
}

/// How many of the objects are of the kind.
pub open spec fn count_kind(objs: Seq<ObjectRef>, kind: ObjectKind) -> nat
    decreases objs.len(),
{
    if objs.len() == 0 {
        0
    } else {
        count_kind(objs.drop_last(), kind) + (if kind_of(objs.last()) == kind { 1nat } else { 0nat })
    }
}

/// `s` without its last `count`; nothing is left where it has no more.
pub open spec fn without_tail<A>(s: Seq<A>, count: nat) -> Seq<A> {
    s.take(if s.len() >= count { s.len() - count } else { 0 })
}

/// `now` is `before` without the last objects of each kind, as many as the
/// removed ones of that kind.
pub open spec fn tails_dropped(before: Scene, now: Scene, removed: Seq<ObjectRef>) -> bool {
    &&& now.fixtures@ == without_tail(before.fixtures@, count_kind(removed, ObjectKind::Fixture))
    &&& now.geometry@ == without_tail(before.geometry@, count_kind(removed, ObjectKind::Geometry))
    &&& now.screens@ == without_tail(before.screens@, count_kind(removed, ObjectKind::Screen))
    &&& now.pyro@ == without_tail(before.pyro@, count_kind(removed, ObjectKind::Pyro))
    &&& now.environments@ == without_tail(
        before.environments@,
        count_kind(removed, ObjectKind::Environment),
    )
}

/// Drop the last `count` of a list.
fn drop_tail<A>(v: &mut Vec<A>, count: usize)
    ensures
        final(v)@ == without_tail(old(v)@, count as nat),
{
    let n: usize = v.len();
    let keep: usize = if n >= count {
        n - count
    } else {
        0
    };
    v.truncate(keep);
    assert(v@ =~= without_tail(old(v)@, count as nat));
}

/// Drop the last `count` objects of the kind of `kind`.
pub fn truncate_objects(scene: &mut Scene, kind: ObjectRef, count: usize)
    ensures
        final(scene).fixtures@ == without_tail(
            old(scene).fixtures@,
            dropped_of(kind, ObjectKind::Fixture, count as nat),
        ),
        final(scene).geometry@ == without_tail(
            old(scene).geometry@,
            dropped_of(kind, ObjectKind::Geometry, count as nat),
        ),
        final(scene).screens@ == without_tail(
            old(scene).screens@,
            dropped_of(kind, ObjectKind::Screen, count as nat),
        ),
        final(scene).pyro@ == without_tail(
            old(scene).pyro@,
            dropped_of(kind, ObjectKind::Pyro, count as nat),
        ),
        final(scene).environments@ == without_tail(
            old(scene).environments@,
            dropped_of(kind, ObjectKind::Environment, count as nat),
        ),
        final(scene).fixtures@ == (if kind is Fixture {
            without_tail(old(scene).fixtures@, count as nat)
        } else {
            old(scene).fixtures@
        }),
        final(scene).geometry@ == (if kind is Geometry {
            without_tail(old(scene).geometry@, count as nat)
        } else {
            old(scene).geometry@
        }),
        final(scene).screens@ == (if kind is Screen {
            without_tail(old(scene).screens@, count as nat)
        } else {
            old(scene).screens@
        }),
        final(scene).pyro@ == (if kind is Pyro {
            without_tail(old(scene).pyro@, count as nat)
        } else {
            old(scene).pyro@
        }),
        final(scene).environments@ == (if kind is Environment {
            without_tail(old(scene).environments@, count as nat)
        } else {
            old(scene).environments@
        }),
{
    match kind {
        ObjectRef::Fixture(_) => drop_tail(&mut scene.fixtures, count),
        ObjectRef::Geometry(_) => drop_tail(&mut scene.geometry, count),
        ObjectRef::Screen(_) => drop_tail(&mut scene.screens, count),
        ObjectRef::Environment(_) => drop_tail(&mut scene.environments, count),
        ObjectRef::Pyro(_) => drop_tail(&mut scene.pyro, count),
    }
}

/// Drop the last object of each kind, as often as `removed` names the kind.
fn drop_objects(scene: &mut Scene, removed: &Vec<ObjectRef>)
    ensures
        tails_dropped(*old(scene), *final(scene), removed@),
{
    let n: usize = removed.len();
    let mut k: usize = 0;
    assert(removed@.take(0) =~= seq![]);
    proof {
        assert(scene.fixtures@ =~= without_tail(scene.fixtures@, 0));
        assert(scene.geometry@ =~= without_tail(scene.geometry@, 0));
        assert(scene.screens@ =~= without_tail(scene.screens@, 0));
        assert(scene.pyro@ =~= without_tail(scene.pyro@, 0));
        assert(scene.environments@ =~= without_tail(scene.environments@, 0));
    }
    while k < n
        invariant
            n == removed@.len(),
            k <= n,
            tails_dropped(*old(scene), *scene, removed@.take(k as int)),
        decreases n - k,
    {
        truncate_objects(scene, removed[k], 1);
        proof {
            assert(removed@.take(k + 1).drop_last() =~= removed@.take(k as int));
            assert(scene.fixtures@ =~= without_tail(
                old(scene).fixtures@,
                count_kind(removed@.take(k + 1), ObjectKind::Fixture),
            ));
            assert(scene.geometry@ =~= without_tail(
                old(scene).geometry@,
                count_kind(removed@.take(k + 1), ObjectKind::Geometry),
            ));
            assert(scene.screens@ =~= without_tail(
                old(scene).screens@,
                count_kind(removed@.take(k + 1), ObjectKind::Screen),
            ));
            assert(scene.pyro@ =~= without_tail(
                old(scene).pyro@,
                count_kind(removed@.take(k + 1), ObjectKind::Pyro),
            ));
            assert(scene.environments@ =~= without_tail(
                old(scene).environments@,
                count_kind(removed@.take(k + 1), ObjectKind::Environment),
            ));
        }
        k = k + 1;
    }
    assert(removed@.take(n as int) =~= removed@);
}

/// How many further copies the typed count asks for: none for one, and one of
/// each base copy for each further.
pub open spec fn extras_wanted(op: OpView) -> nat {
    if op.from_duplicate {
        ((array_count(op.num) - 1) * op.dup_base.len()) as nat
    } else {
        0
    }
}

/// Where a further copy stands: at its base copy's place at the start, moved
/// by `steps` times the way that the first target has come.
#[derive(Clone, Copy, Debug, PartialEq, Eq, Structural)]
pub struct Placement {
    pub target: ObjectRef,
    pub base: ObjectRef,
    pub steps: usize,
}

/// Where each further copy stands. Copy `k` repeats base copy `k` modulo their
/// number; the base copies are the first of the array, so a round of further
/// copies stands two steps out, the next three.
pub open spec fn placements_of(op: OpView) -> Seq<Placement> {
    Seq::new(
        op.dup_extra.len(),
        |k: int|
            Placement {
                target: op.dup_extra[k],
                base: op.dup_base[k % op.dup_base.len() as int],
                steps: (2 + k / op.dup_base.len() as int) as usize,
            },
    )
}

/// The sources of the copies still to make, in the order to make them.
pub open spec fn sources_of(op: OpView) -> Seq<ObjectRef> {
    let have = op.dup_extra.len();
    let want = extras_wanted(op);
    Seq::new(
        (if have < want { want - have } else { 0 }) as nat,
        |j: int| op.dup_base[(have + j) % op.dup_base.len() as int],
    )
}

proof fn wanted_fits(n: nat, base: nat)
    requires
        1 <= n <= 1000,
        base * 1000 <= usize::MAX,
    ensures
        0 <= (n - 1) * base <= usize::MAX,
{
    assert(0 <= (n - 1) * base <= 1000 * base) by (nonlinear_arith)
        requires
            1 <= n <= 1000,
            0 <= base,
    ;
}

impl TransformOp {
    /// The typed number is well-formed, and the largest array of the base
    /// copies can be counted.
    pub open spec fn array_wf(self) -> bool {
        self.wf() && self.dup_base@.len() * 1000 <= usize::MAX
    }

    /// How many further copies the typed count asks for.
    pub fn extras_wanted(&self) -> (r: usize)
        requires
            self.array_wf(),
        ensures
            r == extras_wanted(self@),
    {
        if !self.from_duplicate {
            return 0;
        }
        let n: usize = self.num.count();
        proof {
            wanted_fits(n as nat, self.dup_base@.len());
        }
        (n - 1) * self.dup_base.len()
    }

    /// Drop the copies past the count asked for, the youngest first, from the
    /// array and from the scene.
    pub fn shrink_array(&mut self, scene: &mut Scene)
        requires
            old(self).array_wf(),
        ensures
            final(self).array_wf(),
            final(self)@ == shrunk(old(self)@),
            final(self)@ == (OpView {
                dup_extra: old(self)@.dup_extra.take(
                    if extras_wanted(old(self)@) < old(self)@.dup_extra.len() {
                        extras_wanted(old(self)@) as int
                    } else {
                        old(self)@.dup_extra.len() as int
                    },
                ),
                ..old(self)@
            }),
            tails_dropped(
                *old(scene),
                *final(scene),
                old(self)@.dup_extra.skip(final(self)@.dup_extra.len() as int),
            ),
    {
        let want: usize = self.extras_wanted();
        self.drop_extras(scene, want);
    }

    /// Keep the first `keep` further copies; the rest leave the array and the
    /// scene.
    fn drop_extras(&mut self, scene: &mut Scene, keep: usize)
        ensures
            final(self)@ == (OpView {
                dup_extra: old(self)@.dup_extra.take(
                    if keep < old(self)@.dup_extra.len() {
                        keep as int
                    } else {
                        old(self)@.dup_extra.len() as int
                    },
                ),
                ..old(self)@
            }),
            final(self).num == old(self).num,
            final(self).dup_base == old(self).dup_base,
            tails_dropped(
                *old(scene),
                *final(scene),
                old(self)@.dup_extra.skip(final(self)@.dup_extra.len() as int),
            ),
    {
        let n: usize = self.dup_extra.len();
        let from: usize = if keep < n {
            keep
        } else {
            n
        };
        let mut removed: Vec<ObjectRef> = Vec::new();
        let mut k: usize = from;
        while k < n
            invariant
                from <= k <= n,
                n == self.dup_extra@.len(),
                *self == *old(self),
                removed@ == self.dup_extra@.subrange(from as int, k as int),
            decreases n - k,
        {
            removed.push(self.dup_extra[k]);
            assert(removed@ =~= self.dup_extra@.subrange(from as int, k + 1));
            k = k + 1;
        }
        assert(removed@ =~= self.dup_extra@.skip(from as int));
        drop_objects(scene, &removed);
        self.dup_extra.truncate(from);
        assert(self.dup_extra@ =~= old(self)@.dup_extra.take(from as int));
        assert(self@ =~= (OpView {
            dup_extra: old(self)@.dup_extra.take(from as int),
            ..old(self)@
        }));
    }

    /// A cancelled duplication leaves only the base copies: every further copy
    /// leaves the array and the scene.
    pub fn cancel_array(&mut self, scene: &mut Scene)
        ensures
            final(self)@ == (OpView { dup_extra: seq![], ..old(self)@ }),
            tails_dropped(*old(scene), *final(scene), old(self)@.dup_extra),
    {
        self.drop_extras(scene, 0);
        assert(self@.dup_extra =~= seq![]);
        assert(old(self)@.dup_extra.skip(0) =~= old(self)@.dup_extra);
    }

    /// The sources of the copies still to make, in the order to make them.
    pub fn sources_wanted(&self) -> (r: Vec<ObjectRef>)
        requires
            self.array_wf(),
        ensures
            r@ == sources_of(self@),
    {
        let want: usize = self.extras_wanted();
        let base: usize = self.dup_base.len();
        let have: usize = self.dup_extra.len();
        let mut out: Vec<ObjectRef> = Vec::new();
        let mut k: usize = have;
        if base > 0 {
            while k < want
                invariant
                    want == extras_wanted(self@),
                    have == self.dup_extra@.len(),
                    base == self.dup_base@.len(),
                    base > 0,
                    have <= k,
                    have < want ==> k <= want,
                    have >= want ==> k == have,
                    out@.len() == k - have,
                    forall|j: int|
                        0 <= j < out@.len() ==> #[trigger] out@[j] == self.dup_base@[(have + j)
                            % base as int],
                decreases want - k,
            {
                let b: usize = k % base;
                out.push(self.dup_base[b]);
                assert(out@[k - have] == self.dup_base@[(have + (k - have)) % base as int]);
                k = k + 1;
            }
        } else {
            assert(want == 0) by (nonlinear_arith)
                requires
                    base == 0,
                    want == 0 || want == (array_count(self@.num) - 1) * base,
            ;
        }
        assert(out@ =~= sources_of(self@));
        out
    }

    /// Take in the copies that were made.
    pub fn grow_array(&mut self, made: &Vec<ObjectRef>)
        ensures
            final(self)@ == (OpView { dup_extra: old(self)@.dup_extra + made@, ..old(self)@ }),
            final(self).num == old(self).num,
            final(self).dup_base == old(self).dup_base,
    {
        let ghost before = *self;
        let mut k: usize = 0;
        while k < made.len()
            invariant
                k <= made@.len(),
                self@ == (OpView { dup_extra: before@.dup_extra + made@.take(k as int), ..before@ }),
                self.num == before.num,
                self.dup_base == before.dup_base,
            decreases made@.len() - k,
        {
            self.dup_extra.push(made[k]);
            assert(self@ =~= (OpView {
                dup_extra: before@.dup_extra + made@.take(k + 1),
                ..before@
            }));
            k = k + 1;
        }
        assert(made@.take(k as int) =~= made@);
    }

    /// Where each further copy stands.
    pub fn placements(&self) -> (r: Vec<Placement>)
        requires
            self.dup_base@.len() > 0,
            self.dup_extra@.len() + 2 <= usize::MAX,
        ensures
            r@ == placements_of(self@),
    {
        let base: usize = self.dup_base.len();
        let n: usize = self.dup_extra.len();
        let mut out: Vec<Placement> = Vec::new();
        let mut k: usize = 0;
        while k < n
            invariant
                base == self.dup_base@.len(),
                base > 0,
                n == self.dup_extra@.len(),
                n + 2 <= usize::MAX,
                k <= n,
                out@ == placements_of(self@).take(k as int),
            decreases n - k,
        {
            assert(k / base <= k) by (nonlinear_arith)
                requires
                    base > 0,
                    k >= 0,
            ;
            let b: usize = k % base;
            let steps: usize = 2 + k / base;
            out.push(Placement { target: self.dup_extra[k], base: self.dup_base[b], steps });
            assert(out@ =~= placements_of(self@).take(k + 1));
            k = k + 1;
        }
        assert(out@ =~= placements_of(self@));
        out
    }
}

/// A collection that grew by copies at its end.
pub open spec fn grew<A>(before: Seq<A>, now: Seq<A>, count: nat) -> bool {
    now.len() == before.len() + count && now.take(before.len() as int) == before
}

/// Does `now` hold what `before` does, with the copies `made` at the ends of
/// the collections of their kinds?
pub open spec fn copies_appended(before: Scene, now: Scene, made: Seq<ObjectRef>) -> bool {
    &&& grew(before.fixtures@, now.fixtures@, count_kind(made, ObjectKind::Fixture))
    &&& grew(before.geometry@, now.geometry@, count_kind(made, ObjectKind::Geometry))
    &&& grew(before.screens@, now.screens@, count_kind(made, ObjectKind::Screen))
    &&& grew(before.pyro@, now.pyro@, count_kind(made, ObjectKind::Pyro))
    &&& grew(before.environments@, now.environments@, count_kind(made, ObjectKind::Environment))
}

/// The array is reversible: dropping the copies that were made leaves the
/// scene's collections as they were before, whatever mix of kinds they are.
pub proof fn array_is_reversible(before: Scene, grown: Scene, after: Scene, made: Seq<ObjectRef>)
    requires
        copies_appended(before, grown, made),
        tails_dropped(grown, after, made),
    ensures
        after.fixtures@ == before.fixtures@,
        after.geometry@ == before.geometry@,
        after.screens@ == before.screens@,
        after.pyro@ == before.pyro@,
        after.environments@ == before.environments@,
{
}

/// With no number typed, or with one that rounds to at most one, there is no
/// further copy.
pub proof fn one_copy_is_no_array(op: OpView)
    requires
        !op.num.active || op.num.sign,
    ensures
        extras_wanted(op) == 0,
{
    assert((array_count(op.num) - 1) * op.dup_base.len() == 0) by (nonlinear_arith)
        requires
            array_count(op.num) == 1,
    ;
}

/// Once the copies asked for are made, no further one is wanted and none is
/// left over; they stand in whole rounds, so every base copy is repeated as
/// often as the others.
pub proof fn made_array_is_complete(op: OpView, made: Seq<ObjectRef>)
    requires
        op.from_duplicate,
        op.dup_extra.len() <= extras_wanted(op),
        made.len() == sources_of(op).len(),
    ensures
        ({
            let grown = OpView { dup_extra: op.dup_extra + made, ..op };
            &&& grown.dup_extra.len() == extras_wanted(grown)
            &&& sources_of(grown).len() == 0
            &&& grown.dup_extra.len() == (array_count(op.num) - 1) * op.dup_base.len()
        }),
{
}

/// The copies of an array are evenly spaced: the first round beyond the base copies
/// stands two steps out, each further round one step more, and a round repeats the
/// base copies in their order.
pub proof fn copies_are_evenly_spaced(op: OpView, k: int)
    requires
        op.dup_base.len() > 0,
        0 <= k < op.dup_extra.len(),
        op.dup_extra.len() + 2 <= usize::MAX,
    ensures
        ({
            let p = placements_of(op);
            let n = op.dup_base.len() as int;
            &&& p.len() == op.dup_extra.len()
            &&& p[k].target == op.dup_extra[k]
            &&& k < n ==> p[k].steps == 2 && p[k].base == op.dup_base[k]
            &&& k >= n ==> p[k].steps == p[k - n].steps + 1 && p[k].base == p[k - n].base
        }),
{
    let n = op.dup_base.len() as int;
    lemma_rounds(k, n);
    if k >= n {
        lemma_rounds(k - n, n);
    }
}

proof fn lemma_rounds(k: int, n: int)
    requires
        0 <= k,
        n > 0,
    ensures
        0 <= k / n <= k,
        k < n ==> k / n == 0 && k % n == k,
        k >= n ==> k / n == (k - n) / n + 1 && k % n == (k - n) % n,
{
    assert(0 <= k / n <= k) by (nonlinear_arith)
        requires
            0 <= k,
            n > 0,
    ;
    if k < n {
        assert(k / n == 0 && k % n == k) by (nonlinear_arith)
            requires
                0 <= k < n,
        ;
    } else {
        vstd::arithmetic::div_mod::lemma_fundamental_div_mod(k - n, n);
        let q = (k - n) / n;
        let r = (k - n) % n;
        assert(k == n * (q + 1) + r) by (nonlinear_arith)
            requires
                k - n == n * q + r,
        ;
        assert(0 <= r < n) by (nonlinear_arith)
            requires
                n > 0,
                r == (k - n) % n,
        ;
        vstd::arithmetic::div_mod::lemma_fundamental_div_mod_converse(k, n, q + 1, r);
    }
}

/// A copy is made from the base copy that it is then placed by.
pub proof fn copies_stand_by_their_source(op: OpView, made: Seq<ObjectRef>, j: int)
    requires
        op.dup_base.len() > 0,
        made.len() == sources_of(op).len(),
        0 <= j < made.len(),
    ensures
        ({
            let grown = OpView { dup_extra: op.dup_extra + made, ..op };
            let p = placements_of(grown)[op.dup_extra.len() + j];
            &&& p.target == made[j]
            &&& p.base == sources_of(op)[j]
        }),
{
}

/// Typing the number of an array gives that many objects for each base copy, the base
/// copies among them. A transform that is no duplication makes none.
pub proof fn typed_count_is_the_array(op: OpView, n: nat)
    requires
        1 <= n <= 1000,
        op.num.text == decimal(n),
        op.num.active && !op.num.sign,
    ensures
        op.from_duplicate ==> op.dup_base.len() + extras_wanted(op) == n * op.dup_base.len(),
        !op.from_duplicate ==> extras_wanted(op) == 0,
{
    typed_number_is_itself(n);
    assert(op.num == NumView { text: decimal(n), sign: false, active: true });
    let b = op.dup_base.len() as int;
    assert((n - 1) * b == n * b - b) by (nonlinear_arith);
    assert(n * b >= b) by (nonlinear_arith)
        requires
            n >= 1,
            b >= 0,
    ;
}

/// Every object is counted under exactly one kind.
pub proof fn kinds_add_up(objs: Seq<ObjectRef>)
    ensures
        count_kind(objs, ObjectKind::Fixture) + count_kind(objs, ObjectKind::Geometry) + count_kind(
            objs,
            ObjectKind::Screen,
        ) + count_kind(objs, ObjectKind::Environment) + count_kind(objs, ObjectKind::Pyro)
            == objs.len(),
        forall|i: usize|
            #![trigger objs.push(ObjectRef::Fixture(i))]
            count_kind(objs.push(ObjectRef::Fixture(i)), ObjectKind::Fixture) == count_kind(
                objs,
                ObjectKind::Fixture,
            ) + 1,
        forall|i: usize|
            #![trigger objs.push(ObjectRef::Geometry(i))]
            count_kind(objs.push(ObjectRef::Geometry(i)), ObjectKind::Geometry) == count_kind(
                objs,
                ObjectKind::Geometry,
            ) + 1,
        forall|i: usize|
            #![trigger objs.push(ObjectRef::Screen(i))]
            count_kind(objs.push(ObjectRef::Screen(i)), ObjectKind::Screen) == count_kind(
                objs,
                ObjectKind::Screen,
            ) + 1,
        forall|i: usize|
            #![trigger objs.push(ObjectRef::Pyro(i))]
            count_kind(objs.push(ObjectRef::Pyro(i)), ObjectKind::Pyro) == count_kind(
                objs,
                ObjectKind::Pyro,
            ) + 1,
    decreases objs.len(),
{
    if objs.len() > 0 {
        kinds_add_up(objs.drop_last());
    }
    assert forall|o: ObjectRef| #[trigger] objs.push(o).drop_last() == objs by {
        assert(objs.push(o).drop_last() =~= objs);
    }
}

/// The running transform once the copies past the count asked for are dropped.
pub open spec fn shrunk(op: OpView) -> OpView {
    let want = extras_wanted(op);
    OpView {
        dup_extra: op.dup_extra.take(
            if want < op.dup_extra.len() { want as int } else { op.dup_extra.len() as int },
        ),
        ..op
    }
}

/// A smaller count drops the youngest copies: as many are left as it asks for, the
/// oldest in their order. A count that is not smaller drops none.
pub proof fn shrinking_drops_the_youngest(op: OpView, k: int)
    ensures
        extras_wanted(op) <= op.dup_extra.len() ==> shrunk(op).dup_extra.len() == extras_wanted(op),
        extras_wanted(op) >= op.dup_extra.len() ==> shrunk(op) == op,
        0 <= k < shrunk(op).dup_extra.len() ==> shrunk(op).dup_extra[k] == op.dup_extra[k],
        shrunk(op).dup_base == op.dup_base && shrunk(op).num == op.num,
{
    if extras_wanted(op) >= op.dup_extra.len() {
        assert(op.dup_extra.take(op.dup_extra.len() as int) =~= op.dup_extra);
    }
}

/// Dropping a tail leaves the front as it was and shortens the list by that many.
pub proof fn tail_goes_alone<A>(s: Seq<A>, count: nat, k: int)
    ensures
        count <= s.len() ==> without_tail(s, count).len() == s.len() - count,
        count > s.len() ==> without_tail(s, count).len() == 0,
        0 <= k < without_tail(s, count).len() ==> without_tail(s, count)[k] == s[k],
{
}

/// How many of the last objects of a kind go, where `count` of the kind of `obj` do.
pub open spec fn dropped_of(obj: ObjectRef, kind: ObjectKind, count: nat) -> nat {
    if kind_of(obj) == kind { count } else { 0 }
}

/// Dropping objects of one kind leaves the others.
pub proof fn other_kinds_stay<A>(obj: ObjectRef, kind: ObjectKind, count: nat, s: Seq<A>)
    ensures
        dropped_of(ObjectRef::Fixture(0), ObjectKind::Fixture, count) == count,
        dropped_of(ObjectRef::Geometry(0), ObjectKind::Geometry, count) == count,
        dropped_of(ObjectRef::Screen(0), ObjectKind::Screen, count) == count,
        dropped_of(ObjectRef::Pyro(0), ObjectKind::Pyro, count) == count,
        dropped_of(ObjectRef::Environment(0), ObjectKind::Environment, count) == count,
        kind_of(obj) != kind ==> without_tail(s, dropped_of(obj, kind, count)) == s,
{
    assert(s.take(s.len() as int) =~= s);
}

} // verus!
