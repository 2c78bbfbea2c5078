//! Picking: which object a ray or a marquee finds, and what a click on it does
//! to the selection.
//!
//! A distance along a ray is given as a whole number that grows with it.

use vstd::prelude::*;
use crate::scene::{
    environments_hidden, fixtures_hidden, geometry_hidden, push_environments_hidden,
    push_fixtures_hidden, push_geometry_hidden, push_pyro_hidden, push_screens_hidden, pyro_hidden,
    screens_hidden, ObjectRef, Scene,
};
use crate::selection::{
    added_picks_join, after_picks, apply_fixture_click, apply_select, clicked_fixture, combined,
    filter_keeps, holds, index_in, nothing, plain_fixture_click_selects_alone,
    picked_environment_takes_over, replacing_picks_stand_alone, subtracted_picks_leave,
    toggled_picks_change_sides, toggling_fixture_click_changes_it_alone, SelItem, SelectOp,
    Selection, SelectionView,
};
use crate::text::same_text;
use crate::tree::rows::indices;

verus! {

/// What a ray hit.
#[derive(Clone, Copy, Debug, PartialEq, Eq, Structural)]
pub enum Hit {
    Fixture(usize),
    Screen(usize),
    Pyro(usize),
    Geometry(usize),
    Environment(usize),
}

/// How far along a ray each object of a kind is hit, where it is.
#[derive(Debug)]
pub struct RayHits {
    pub fixtures: Vec<Option<u32>>,
    pub screens: Vec<Option<u32>>,
    pub pyro: Vec<Option<u32>>,
    pub geometry: Vec<Option<u32>>,
    pub environments: Vec<Option<u32>>,
}

impl RayHits {
    /// There is one entry for each object of the scene.
    pub open spec fn covers(self, scene: Scene) -> bool {
        &&& self.fixtures@.len() == scene.fixtures@.len()
        &&& self.screens@.len() == scene.screens@.len()
        &&& self.pyro@.len() == scene.pyro@.len()
        &&& self.geometry@.len() == scene.geometry@.len()
        &&& self.environments@.len() == scene.environments@.len()
    }
}

/// Is the object `i` hit and not hidden?
pub open spec fn shown_hit(ts: Seq<Option<u32>>, hidden: Seq<bool>, i: int) -> bool {
    0 <= i < ts.len() && ts[i] is Some && !hidden[i]
}

/// Is any object that is not hidden hit?
pub open spec fn any_hit(ts: Seq<Option<u32>>, hidden: Seq<bool>) -> bool {
    exists|i: int| #[trigger] shown_hit(ts, hidden, i)
}

/// Is `i` the nearest hit that is not hidden, and of equals the first?
pub open spec fn nearest_hit(ts: Seq<Option<u32>>, hidden: Seq<bool>, i: int) -> bool {
    &&& shown_hit(ts, hidden, i)
    &&& forall|j: int| #[trigger]
        shown_hit(ts, hidden, j) ==> ts[i]->0 < ts[j]->0 || (ts[i]->0 == ts[j]->0 && i <= j)
}

/// The nearest hit that is not hidden.
fn nearest(ts: &Vec<Option<u32>>, hidden: &Vec<bool>) -> (r: Option<usize>)
    requires
        ts@.len() == hidden@.len(),
    ensures
        r is Some <==> any_hit(ts@, hidden@),
        r matches Some(i) ==> nearest_hit(ts@, hidden@, i as int),
{
    let mut best: Option<(u32, usize)> = None;
    let mut k: usize = 0;
    while k < ts.len()
        invariant
            ts@.len() == hidden@.len(),
            k <= ts@.len(),
            best is None ==> forall|j: int| 0 <= j < k ==> !#[trigger] shown_hit(ts@, hidden@, j),
            best matches Some((t, i)) ==> {
                &&& i < k
                &&& shown_hit(ts@, hidden@, i as int)
                &&& ts@[i as int] == Some(t)
                &&& forall|j: int|
                    0 <= j < k && #[trigger] shown_hit(ts@, hidden@, j) ==> t < ts@[j]->0 || (t
                        == ts@[j]->0 && i <= j)
            },
        decreases ts@.len() - k,
    {
        if !hidden[k] {
            if let Some(t) = ts[k] {
                assert(shown_hit(ts@, hidden@, k as int));
                match best {
                    Some((b, _)) => {
                        if t < b {
                            best = Some((t, k));
                        }
                    },
                    None => {
                        best = Some((t, k));
                    },
                }
            }
        }
        k = k + 1;
    }
    match best {
        Some((_, i)) => {
            assert(shown_hit(ts@, hidden@, i as int));
            Some(i)
        },
        None => {
            assert forall|j: int| !#[trigger] shown_hit(ts@, hidden@, j) by {
                if 0 <= j < ts@.len() {
                    assert(j < k);
                }
            }
            None
        },
    }
}

/// What a ray picks. A fixture comes before everything, so that it can be
/// clicked inside set geometry or fog; then come screens, pyro devices,
/// geometry and environments. Within a kind the nearest is picked.
pub open spec fn picked_by_ray(scene: Scene, hits: RayHits, r: Option<Hit>) -> bool {
    if any_hit(hits.fixtures@, fixtures_hidden(scene)) {
        r matches Some(Hit::Fixture(i)) && nearest_hit(
            hits.fixtures@,
            fixtures_hidden(scene),
            i as int,
        )
    } else if any_hit(hits.screens@, screens_hidden(scene)) {
        r matches Some(Hit::Screen(i)) && nearest_hit(hits.screens@, screens_hidden(scene), i as int)
    } else if any_hit(hits.pyro@, pyro_hidden(scene)) {
        r matches Some(Hit::Pyro(i)) && nearest_hit(hits.pyro@, pyro_hidden(scene), i as int)
    } else if any_hit(hits.geometry@, geometry_hidden(scene)) {
        r matches Some(Hit::Geometry(i)) && nearest_hit(
            hits.geometry@,
            geometry_hidden(scene),
            i as int,
        )
    } else if any_hit(hits.environments@, environments_hidden(scene)) {
        r matches Some(Hit::Environment(i)) && nearest_hit(
            hits.environments@,
            environments_hidden(scene),
            i as int,
        )
    } else {
        r is None
    }
}

/// What a ray picks.
pub fn pick(scene: &Scene, hits: &RayHits) -> (r: Option<Hit>)
    requires
        hits.covers(*scene),
    ensures
        picked_by_ray(*scene, *hits, r),
{
    let mut hidden: Vec<bool> = Vec::new();
    push_fixtures_hidden(&mut hidden, scene);
    assert(hidden@ =~= fixtures_hidden(*scene));
    if let Some(i) = nearest(&hits.fixtures, &hidden) {
        return Some(Hit::Fixture(i));
    }
    let mut hidden: Vec<bool> = Vec::new();
    push_screens_hidden(&mut hidden, scene);
    assert(hidden@ =~= screens_hidden(*scene));
    if let Some(i) = nearest(&hits.screens, &hidden) {
        return Some(Hit::Screen(i));
    }
    let mut hidden: Vec<bool> = Vec::new();
    push_pyro_hidden(&mut hidden, scene);
    assert(hidden@ =~= pyro_hidden(*scene));
    if let Some(i) = nearest(&hits.pyro, &hidden) {
        return Some(Hit::Pyro(i));
    }
    let mut hidden: Vec<bool> = Vec::new();
    push_geometry_hidden(&mut hidden, scene);
    assert(hidden@ =~= geometry_hidden(*scene));
    if let Some(i) = nearest(&hits.geometry, &hidden) {
        return Some(Hit::Geometry(i));
    }
    let mut hidden: Vec<bool> = Vec::new();
    push_environments_hidden(&mut hidden, scene);
    assert(hidden@ =~= environments_hidden(*scene));
    match nearest(&hits.environments, &hidden) {
        Some(i) => Some(Hit::Environment(i)),
        None => None,
    }
}

/// Is `t` the distance of a surface that the ray meets in front of its start: of
/// an object that is not hidden? Pyro devices have none.
pub open spec fn surface_at(scene: Scene, hits: RayHits, t: u32) -> bool {
    &&& t > 0
    &&& {
        ||| at_distance(hits.fixtures@, fixtures_hidden(scene), t)
        ||| at_distance(hits.screens@, screens_hidden(scene), t)
        ||| at_distance(hits.geometry@, geometry_hidden(scene), t)
        ||| at_distance(hits.environments@, environments_hidden(scene), t)
    }
}

/// Is an object that is not hidden hit at the distance `t`?
pub open spec fn at_distance(ts: Seq<Option<u32>>, hidden: Seq<bool>, t: u32) -> bool {
    exists|i: int| #[trigger] shown_hit(ts, hidden, i) && ts[i] == Some(t)
}

/// The nearer of two distances that lie in front.
fn nearer(a: Option<u32>, b: Option<u32>) -> (r: Option<u32>)
    requires
        a matches Some(t) ==> t > 0,
    ensures
        r == (match b {
            Some(t) => if t > 0 && (a is None || t < a->0) { b } else { a },
            None => a,
        }),
{
    match b {
        Some(t) => if t > 0 && (match a {
            Some(s) => t < s,
            None => true,
        }) {
            b
        } else {
            a
        },
        None => a,
    }
}

/// The nearest distance in front at which an object of one kind is hit.
fn nearest_distance(ts: &Vec<Option<u32>>, hidden: &Vec<bool>) -> (r: Option<u32>)
    requires
        ts@.len() == hidden@.len(),
    ensures
        r matches Some(t) ==> t > 0 && at_distance(ts@, hidden@, t) && forall|u: u32|
            u > 0 && #[trigger] at_distance(ts@, hidden@, u) ==> t <= u,
        r is None ==> forall|u: u32| u > 0 ==> !#[trigger] at_distance(ts@, hidden@, u),
{
    let mut best: Option<u32> = None;
    let mut k: usize = 0;
    while k < ts.len()
        invariant
            ts@.len() == hidden@.len(),
            k <= ts@.len(),
            best matches Some(t) ==> t > 0 && at_distance(ts@, hidden@, t),
            forall|j: int|
                0 <= j < k && #[trigger] shown_hit(ts@, hidden@, j) && ts@[j]->0 > 0 ==> best is Some
                    && best->0 <= ts@[j]->0,
        decreases ts@.len() - k,
    {
        if !hidden[k] {
            best = nearer(best, ts[k]);
            proof {
                if ts@[k as int] is Some {
                    assert(shown_hit(ts@, hidden@, k as int));
                }
            }
        }
        k = k + 1;
    }
    assert forall|u: u32| u > 0 && #[trigger] at_distance(ts@, hidden@, u) implies best is Some
        && best->0 <= u by {
        let i = choose|i: int| #[trigger] shown_hit(ts@, hidden@, i) && ts@[i] == Some(u);
        assert(shown_hit(ts@, hidden@, i));
    }
    best
}

/// How far along a ray the world is met: at the nearest surface of an object that
/// is not hidden. A ray that misses them all falls back to the ground, where that
/// lies in front. Pyro devices are passed through.
pub fn world_distance(scene: &Scene, hits: &RayHits, ground: Option<u32>) -> (r: Option<u32>)
    requires
        hits.covers(*scene),
    ensures
        (exists|u: u32| #[trigger] surface_at(*scene, *hits, u)) ==> {
            &&& r is Some
            &&& surface_at(*scene, *hits, r->0)
            &&& forall|u: u32| #[trigger] surface_at(*scene, *hits, u) ==> r->0 <= u
        },
        (forall|u: u32| !#[trigger] surface_at(*scene, *hits, u)) ==> r == (match ground {
            Some(t) => if t > 0 { Some(t) } else { None },
            None => None,
        }),
{
    let mut hidden: Vec<bool> = Vec::new();
    push_fixtures_hidden(&mut hidden, scene);
    assert(hidden@ =~= fixtures_hidden(*scene));
    let a = nearest_distance(&hits.fixtures, &hidden);
    let mut hidden: Vec<bool> = Vec::new();
    push_screens_hidden(&mut hidden, scene);
    assert(hidden@ =~= screens_hidden(*scene));
    let b = nearer(a, nearest_distance(&hits.screens, &hidden));
    let mut hidden: Vec<bool> = Vec::new();
    push_geometry_hidden(&mut hidden, scene);
    assert(hidden@ =~= geometry_hidden(*scene));
    let c = nearer(b, nearest_distance(&hits.geometry, &hidden));
    let mut hidden: Vec<bool> = Vec::new();
    push_environments_hidden(&mut hidden, scene);
    assert(hidden@ =~= environments_hidden(*scene));
    let d = nearer(c, nearest_distance(&hits.environments, &hidden));
    proof {
        if d is Some {
            assert(surface_at(*scene, *hits, d->0));
        }
    }
    if d.is_some() {
        d
    } else {
        nearer(None, ground)
    }
}

/// How far each object's origin is from the pointer on the screen; none where it
/// is not on it.
#[derive(Debug)]
pub struct NodeDistances {
    pub fixtures: Vec<Option<u32>>,
    pub geometry: Vec<Option<u32>>,
    pub screens: Vec<Option<u32>>,
}

impl NodeDistances {
    /// There is one entry for each object of the scene.
    pub open spec fn covers(self, scene: Scene) -> bool {
        &&& self.fixtures@.len() == scene.fixtures@.len()
        &&& self.geometry@.len() == scene.geometry@.len()
        &&& self.screens@.len() == scene.screens@.len()
    }
}

/// Is the object a node to snap to, at the distance `d`: not hidden, within
/// reach, and, for a fixture, not one of those being moved?
pub open spec fn is_node(
    scene: Scene,
    near: NodeDistances,
    exclude: Seq<usize>,
    reach: u32,
    obj: ObjectRef,
    d: u32,
) -> bool {
    d <= reach && match obj {
        ObjectRef::Fixture(i) => shown_hit(near.fixtures@, fixtures_hidden(scene), i as int)
            && !exclude.contains(i) && near.fixtures@[i as int] == Some(d),
        ObjectRef::Geometry(i) => shown_hit(near.geometry@, geometry_hidden(scene), i as int)
            && near.geometry@[i as int] == Some(d),
        ObjectRef::Screen(i) => shown_hit(near.screens@, screens_hidden(scene), i as int)
            && near.screens@[i as int] == Some(d),
        _ => false,
    }
}

/// The order in which equally near nodes are preferred: fixtures, geometry,
/// screens, each by its place.
pub open spec fn node_order(scene: Scene, obj: ObjectRef) -> int {
    match obj {
        ObjectRef::Fixture(i) => i as int,
        ObjectRef::Geometry(i) => scene.fixtures@.len() + i,
        ObjectRef::Screen(i) => scene.fixtures@.len() + scene.geometry@.len() + i,
        _ => 0,
    }
}

/// Is `obj` the nearest node, and of equals the preferred one?
pub open spec fn nearest_node(
    scene: Scene,
    near: NodeDistances,
    exclude: Seq<usize>,
    reach: u32,
    obj: ObjectRef,
) -> bool {
    exists|d: u32|
        {
            &&& #[trigger] is_node(scene, near, exclude, reach, obj, d)
            &&& forall|o: ObjectRef, e: u32| #[trigger]
                is_node(scene, near, exclude, reach, o, e) ==> d < e || (d == e && node_order(
                    scene,
                    obj,
                ) <= node_order(scene, o))
        }
}

/// The nearer of the best so far and another candidate; the best so far where
/// they are equally near.
fn better(best: Option<(u32, ObjectRef)>, d: u32, obj: ObjectRef) -> (r: Option<(u32, ObjectRef)>)
    ensures
        r == (match best {
            Some((b, _)) => if d < b { Some((d, obj)) } else { best },
            None => Some((d, obj)),
        }),
{
    match best {
        Some((b, _)) => if d < b {
            Some((d, obj))
        } else {
            best
        },
        None => Some((d, obj)),
    }
}

/// Does `best` hold the nearest of the nodes that stand before the place `upto`
/// in the preferred order?
spec fn best_before(
    scene: Scene,
    near: NodeDistances,
    exclude: Seq<usize>,
    reach: u32,
    best: Option<(u32, ObjectRef)>,
    upto: int,
) -> bool {
    match best {
        Some((d, obj)) => {
            &&& is_node(scene, near, exclude, reach, obj, d)
            &&& node_order(scene, obj) < upto
            &&& forall|o: ObjectRef, e: u32| #[trigger]
                is_node(scene, near, exclude, reach, o, e) && node_order(scene, o) < upto ==> d < e
                    || (d == e && node_order(scene, obj) <= node_order(scene, o))
        },
        None => forall|o: ObjectRef, e: u32| #[trigger]
            is_node(scene, near, exclude, reach, o, e) ==> node_order(scene, o) >= upto,
    }
}

/// The node that a move snaps to: the object's origin nearest to the pointer,
/// within `reach`.
pub fn nearest_origin_screen(
    scene: &Scene,
    near: &NodeDistances,
    exclude: &Vec<usize>,
    reach: u32,
) -> (r: Option<ObjectRef>)
    requires
        near.covers(*scene),
    ensures
        r matches Some(obj) ==> nearest_node(*scene, *near, exclude@, reach, obj),
        r is None ==> forall|o: ObjectRef, e: u32| !#[trigger]
            is_node(*scene, *near, exclude@, reach, o, e),
{
    let mut best: Option<(u32, ObjectRef)> = None;
    let mut i: usize = 0;
    while i < near.fixtures.len()
        invariant
            near.covers(*scene),
            i <= near.fixtures@.len(),
            best_before(*scene, *near, exclude@, reach, best, i as int),
        decreases near.fixtures@.len() - i,
    {
        if let Some(d) = near.fixtures[i] {
            if d <= reach && !scene.fixtures[i].hidden && !index_in(exclude, i) {
                assert(is_node(*scene, *near, exclude@, reach, ObjectRef::Fixture(i), d));
                best = better(best, d, ObjectRef::Fixture(i));
            }
        }
        i = i + 1;
    }
    i = 0;
    while i < near.geometry.len()
        invariant
            near.covers(*scene),
            i <= near.geometry@.len(),
            best_before(
                *scene,
                *near,
                exclude@,
                reach,
                best,
                scene.fixtures@.len() + i,
            ),
        decreases near.geometry@.len() - i,
    {
        if let Some(d) = near.geometry[i] {
            if d <= reach && !scene.geometry[i].hidden {
                assert(is_node(*scene, *near, exclude@, reach, ObjectRef::Geometry(i), d));
                best = better(best, d, ObjectRef::Geometry(i));
            }
        }
        i = i + 1;
    }
    i = 0;
    while i < near.screens.len()
        invariant
            near.covers(*scene),
            i <= near.screens@.len(),
            best_before(
                *scene,
                *near,
                exclude@,
                reach,
                best,
                scene.fixtures@.len() + scene.geometry@.len() + i,
            ),
        decreases near.screens@.len() - i,
    {
        if let Some(d) = near.screens[i] {
            if d <= reach && !scene.screens[i].hidden {
                assert(is_node(*scene, *near, exclude@, reach, ObjectRef::Screen(i), d));
                best = better(best, d, ObjectRef::Screen(i));
            }
        }
        i = i + 1;
    }
    match best {
        Some((d, obj)) => {
            assert(is_node(*scene, *near, exclude@, reach, obj, d));
            Some(obj)
        },
        None => None,
    }
}

/// Which objects of each kind have their centre inside a marquee.
#[derive(Debug)]
pub struct InsideFlags {
    pub fixtures: Vec<bool>,
    pub geometry: Vec<bool>,
    pub screens: Vec<bool>,
    pub pyro: Vec<bool>,
}

impl InsideFlags {
    /// There is one flag for each object of the scene.
    pub open spec fn covers(self, scene: Scene) -> bool {
        &&& self.fixtures@.len() == scene.fixtures@.len()
        &&& self.geometry@.len() == scene.geometry@.len()
        &&& self.screens@.len() == scene.screens@.len()
        &&& self.pyro@.len() == scene.pyro@.len()
    }
}

/// The indices that are inside and not hidden.
pub open spec fn swept(inside: Seq<bool>, hidden: Seq<bool>) -> Seq<usize> {
    indices(inside.len()).filter(|i: usize| inside[i as int] && !hidden[i as int])
}

/// The indices that are inside and not hidden.
fn sweep(inside: &Vec<bool>, hidden: &Vec<bool>) -> (r: Vec<usize>)
    requires
        inside@.len() == hidden@.len(),
    ensures
        r@ == swept(inside@, hidden@),
{
    let mut out: Vec<usize> = Vec::new();
    let ghost p = |i: usize| inside@[i as int] && !hidden@[i as int];
    let ghost all = indices(inside@.len());
    let mut i: usize = 0;
    proof {
        reveal(Seq::filter);
    }
    while i < inside.len()
        invariant
            inside@.len() == hidden@.len(),
            i <= inside@.len(),
            all == indices(inside@.len()),
            p == (|i: usize| inside@[i as int] && !hidden@[i as int]),
            out@ == all.take(i as int).filter(p),
        decreases inside@.len() - i,
    {
        reveal(Seq::filter);
        assert(all.take(i + 1).drop_last() =~= all.take(i as int));
        assert(all.take(i + 1).last() == i);
        if inside[i] && !hidden[i] {
            out.push(i);
        }
        i = i + 1;
    }
    assert(all.take(i as int) =~= all);
    out
}

/// What a marquee finds: the fixtures, geometry, screens and pyro devices whose
/// centre it holds and that are not hidden. Environments are never swept up.
pub open spec fn marquee_items(scene: Scene, inside: InsideFlags) -> Seq<SelItem> {
    swept(inside.fixtures@, fixtures_hidden(scene)).map_values(|i: usize| SelItem::Fixture(i))
        + swept(inside.geometry@, geometry_hidden(scene)).map_values(
        |i: usize| SelItem::Geometry(i),
    ) + swept(inside.screens@, screens_hidden(scene)).map_values(|i: usize| SelItem::Screen(i))
        + swept(inside.pyro@, pyro_hidden(scene)).map_values(|i: usize| SelItem::Pyro(i))
}

/// What a marquee finds.
pub fn marquee_hits(scene: &Scene, inside: &InsideFlags) -> (r: Vec<SelItem>)
    requires
        inside.covers(*scene),
    ensures
        r@ == marquee_items(*scene, *inside),
{
    let mut out: Vec<SelItem> = Vec::new();
    let mut hidden: Vec<bool> = Vec::new();
    push_fixtures_hidden(&mut hidden, scene);
    assert(hidden@ =~= fixtures_hidden(*scene));
    let found = sweep(&inside.fixtures, &hidden);
    let ghost f = |i: usize| SelItem::Fixture(i);
    let mut k: usize = 0;
    while k < found.len()
        invariant
            k <= found@.len(),
            f == (|i: usize| SelItem::Fixture(i)),
            out@ == found@.take(k as int).map_values(f),
        decreases found@.len() - k,
    {
        out.push(SelItem::Fixture(found[k]));
        assert(found@.take(k + 1).map_values(f) =~= found@.take(k as int).map_values(f).push(
            SelItem::Fixture(found@[k as int]),
        ));
        k = k + 1;
    }
    assert(found@.take(k as int) =~= found@);
    let ghost done = out@;
    let mut hidden: Vec<bool> = Vec::new();
    push_geometry_hidden(&mut hidden, scene);
    assert(hidden@ =~= geometry_hidden(*scene));
    let found = sweep(&inside.geometry, &hidden);
    let ghost f = |i: usize| SelItem::Geometry(i);
    k = 0;
    while k < found.len()
        invariant
            k <= found@.len(),
            f == (|i: usize| SelItem::Geometry(i)),
            out@ == done + found@.take(k as int).map_values(f),
        decreases found@.len() - k,
    {
        out.push(SelItem::Geometry(found[k]));
        assert(found@.take(k + 1).map_values(f) =~= found@.take(k as int).map_values(f).push(
            SelItem::Geometry(found@[k as int]),
        ));
        k = k + 1;
    }
    assert(found@.take(k as int) =~= found@);
    let ghost done = out@;
    let mut hidden: Vec<bool> = Vec::new();
    push_screens_hidden(&mut hidden, scene);
    assert(hidden@ =~= screens_hidden(*scene));
    let found = sweep(&inside.screens, &hidden);
    let ghost f = |i: usize| SelItem::Screen(i);
    k = 0;
    while k < found.len()
        invariant
            k <= found@.len(),
            f == (|i: usize| SelItem::Screen(i)),
            out@ == done + found@.take(k as int).map_values(f),
        decreases found@.len() - k,
    {
        out.push(SelItem::Screen(found[k]));
        assert(found@.take(k + 1).map_values(f) =~= found@.take(k as int).map_values(f).push(
            SelItem::Screen(found@[k as int]),
        ));
        k = k + 1;
    }
    assert(found@.take(k as int) =~= found@);
    let ghost done = out@;
    let mut hidden: Vec<bool> = Vec::new();
    push_pyro_hidden(&mut hidden, scene);
    assert(hidden@ =~= pyro_hidden(*scene));
    let found = sweep(&inside.pyro, &hidden);
    let ghost f = |i: usize| SelItem::Pyro(i);
    k = 0;
    while k < found.len()
        invariant
            k <= found@.len(),
            f == (|i: usize| SelItem::Pyro(i)),
            out@ == done + found@.take(k as int).map_values(f),
        decreases found@.len() - k,
    {
        out.push(SelItem::Pyro(found[k]));
        assert(found@.take(k + 1).map_values(f) =~= found@.take(k as int).map_values(f).push(
            SelItem::Pyro(found@[k as int]),
        ));
        k = k + 1;
    }
    assert(found@.take(k as int) =~= found@);
    out
}

/// How a marquee combines with the selection: with Ctrl it is taken out, with
/// Shift it is added, else it replaces.
#[verifier::allow_in_spec]
pub fn marquee_op(ctrl: bool, shift: bool) -> SelectOp
    returns
        (if ctrl {
            SelectOp::Subtract
        } else if shift {
            SelectOp::Add
        } else {
            SelectOp::Replace
        }),
{
    if ctrl {
        SelectOp::Subtract
    } else if shift {
        SelectOp::Add
    } else {
        SelectOp::Replace
    }
}

/// How a click combines with the selection: with Ctrl it toggles, with Shift
/// it adds, else it replaces.
#[verifier::allow_in_spec]
pub fn click_op(ctrl: bool, shift: bool) -> SelectOp
    returns
        (if ctrl {
            SelectOp::Toggle
        } else if shift {
            SelectOp::Add
        } else {
            SelectOp::Replace
        }),
{
    if ctrl {
        SelectOp::Toggle
    } else if shift {
        SelectOp::Add
    } else {
        SelectOp::Replace
    }
}

/// What a hit other than a fixture is as a pick.
pub open spec fn hit_items(hit: Option<Hit>) -> Seq<SelItem> {
    match hit {
        Some(Hit::Geometry(i)) => seq![SelItem::Geometry(i)],
        Some(Hit::Screen(i)) => seq![SelItem::Screen(i)],
        Some(Hit::Pyro(i)) => seq![SelItem::Pyro(i)],
        Some(Hit::Environment(i)) => seq![SelItem::Environment(i)],
        _ => seq![],
    }
}

/// The selection and range anchor after a click. A plain click into the void
/// that only brings the focus leaves both alone.
pub open spec fn after_click(
    s: SelectionView,
    anchor: Option<usize>,
    hit: Option<Hit>,
    was_focused: bool,
    ctrl: bool,
    shift: bool,
    n: usize,
) -> (SelectionView, Option<usize>) {
    if hit is None && !was_focused && !ctrl && !shift {
        (s, anchor)
    } else {
        match hit {
            Some(Hit::Fixture(i)) => clicked_fixture(s, anchor, i, shift, ctrl, n),
            _ => {
                let op = click_op(ctrl, shift);
                (
                    after_picks(
                        if op == SelectOp::Replace { nothing() } else { s },
                        hit_items(hit),
                        op,
                    ),
                    None,
                )
            },
        }
    }
}

/// A click at what the pointer's ray picks; `n` is the number of fixtures.
pub fn click_select(
    selection: &mut Selection,
    anchor: &mut Option<usize>,
    hit: Option<Hit>,
    was_focused: bool,
    ctrl: bool,
    shift: bool,
    n: usize,
)
    requires
        hit matches Some(Hit::Fixture(i)) ==> i < n,
    ensures
        (final(selection)@, *final(anchor)) == after_click(
            old(selection)@,
            *old(anchor),
            hit,
            was_focused,
            ctrl,
            shift,
            n,
        ),
{
    if hit.is_none() && !was_focused && !ctrl && !shift {
        return;
    }
    let items: Vec<SelItem> = match hit {
        Some(Hit::Fixture(i)) => {
            apply_fixture_click(selection, anchor, i, shift, ctrl, n);
            return;
        },
        Some(Hit::Geometry(i)) => vec![SelItem::Geometry(i)],
        Some(Hit::Screen(i)) => vec![SelItem::Screen(i)],
        Some(Hit::Pyro(i)) => vec![SelItem::Pyro(i)],
        Some(Hit::Environment(i)) => vec![SelItem::Environment(i)],
        None => Vec::new(),
    };
    assert(items@ =~= hit_items(hit));
    *selection = apply_select(selection, &items, click_op(ctrl, shift));
    *anchor = None;
}

/// The selection and range anchor after a secondary click: an object that is
/// not selected becomes the selection. An environment is left alone.
pub open spec fn after_secondary_click(
    s: SelectionView,
    anchor: Option<usize>,
    hit: Option<Hit>,
) -> (SelectionView, Option<usize>) {
    match hit {
        Some(Hit::Fixture(i)) => if s.fixtures.contains(i) {
            (s, anchor)
        } else {
            (SelectionView { fixtures: seq![i], ..nothing() }, Some(i))
        },
        Some(Hit::Geometry(i)) => if s.geometry.contains(i) {
            (s, anchor)
        } else {
            (SelectionView { geometry: seq![i], ..nothing() }, None)
        },
        Some(Hit::Screen(i)) => if s.screens.contains(i) {
            (s, anchor)
        } else {
            (SelectionView { screens: seq![i], ..nothing() }, None)
        },
        Some(Hit::Pyro(i)) => if s.pyro.contains(i) {
            (s, anchor)
        } else {
            (SelectionView { pyro: seq![i], ..nothing() }, None)
        },
        _ => (s, anchor),
    }
}

/// A secondary click at what the pointer's ray picks.
pub fn secondary_select(selection: &mut Selection, anchor: &mut Option<usize>, hit: Option<Hit>)
    ensures
        (final(selection)@, *final(anchor)) == after_secondary_click(
            old(selection)@,
            *old(anchor),
            hit,
        ),
{
    match hit {
        Some(Hit::Fixture(i)) => {
            if !selection.contains_fixture(i) {
                *selection = Selection::fixture(i);
                *anchor = Some(i);
            }
        },
        Some(Hit::Geometry(i)) => {
            if !selection.contains_geometry(i) {
                *selection = Selection::geometry(i);
                *anchor = None;
            }
        },
        Some(Hit::Screen(i)) => {
            if !selection.contains_screen(i) {
                *selection = Selection::screen(i);
                *anchor = None;
            }
        },
        Some(Hit::Pyro(i)) => {
            if !selection.contains_pyro(i) {
                *selection = Selection::pyro(i);
                *anchor = None;
            }
        },
        _ => {},
    }
}

/// Does a selected fixture that the scene holds have the profile?
pub open spec fn profile_selected(scene: Scene, fixtures: Seq<usize>, profile: Seq<char>) -> bool {
    exists|k: int|
        0 <= k < fixtures.len() && (#[trigger] fixtures[k]) < scene.fixtures@.len()
            && scene.fixtures@[fixtures[k] as int].profile@ == profile
}

/// Is a fixture that the scene holds selected?
pub open spec fn fixture_selected(scene: Scene, fixtures: Seq<usize>) -> bool {
    exists|k: int| 0 <= k < fixtures.len() && (#[trigger] fixtures[k]) < scene.fixtures@.len()
}

/// The fixtures with the profile of a selected one, in scene order.
pub open spec fn same_type(scene: Scene, fixtures: Seq<usize>) -> Seq<usize> {
    indices(scene.fixtures@.len()).filter(
        |i: usize| profile_selected(scene, fixtures, scene.fixtures@[i as int].profile@),
    )
}

fn shares_profile(scene: &Scene, fixtures: &Vec<usize>, i: usize) -> (r: bool)
    requires
        i < scene.fixtures@.len(),
    ensures
        r == profile_selected(*scene, fixtures@, scene.fixtures@[i as int].profile@),
{
    let mut k: usize = 0;
    while k < fixtures.len()
        invariant
            k <= fixtures@.len(),
            i < scene.fixtures@.len(),
            forall|j: int|
                0 <= j < k ==> !((#[trigger] fixtures@[j]) < scene.fixtures@.len()
                    && scene.fixtures@[fixtures@[j] as int].profile@
                    == scene.fixtures@[i as int].profile@),
        decreases fixtures@.len() - k,
    {
        let f: usize = fixtures[k];
        if f < scene.fixtures.len() {
            if same_text(scene.fixtures[f].profile.as_str(), scene.fixtures[i].profile.as_str()) {
                assert(fixtures@[k as int] == f);
                return true;
            }
        }
        k = k + 1;
    }
    false
}

/// Extend the selection to every fixture with the profile of a selected one.
/// With no fixture selected nothing changes.
pub fn select_same_type(scene: &Scene, selection: &mut Selection)
    ensures
        final(selection)@ == extended_by_type(*scene, old(selection)@),
        final(selection)@ == (if fixture_selected(*scene, old(selection)@.fixtures) {
            SelectionView {
                fixtures: same_type(*scene, old(selection)@.fixtures),
                environment: None,
                ..old(selection)@
            }
        } else {
            old(selection)@
        }),
{
    let mut any = false;
    let mut k: usize = 0;
    while k < selection.fixtures.len()
        invariant
            *selection == *old(selection),
            k <= selection.fixtures@.len(),
            any == exists|j: int|
                0 <= j < k && (#[trigger] selection.fixtures@[j]) < scene.fixtures@.len(),
        decreases selection.fixtures@.len() - k,
    {
        if selection.fixtures[k] < scene.fixtures.len() {
            assert(selection.fixtures@[k as int] < scene.fixtures@.len());
            any = true;
        }
        k = k + 1;
    }
    if !any {
        return;
    }
    let mut out: Vec<usize> = Vec::new();
    let ghost sel = selection.fixtures@;
    let ghost p = |i: usize| profile_selected(*scene, sel, scene.fixtures@[i as int].profile@);
    let ghost all = indices(scene.fixtures@.len());
    let mut i: usize = 0;
    proof {
        reveal(Seq::filter);
    }
    while i < scene.fixtures.len()
        invariant
            *selection == *old(selection),
            sel == selection.fixtures@,
            i <= scene.fixtures@.len(),
            all == indices(scene.fixtures@.len()),
            p == (|i: usize| profile_selected(*scene, sel, scene.fixtures@[i as int].profile@)),
            out@ == all.take(i as int).filter(p),
        decreases scene.fixtures@.len() - i,
    {
        reveal(Seq::filter);
        assert(all.take(i + 1).drop_last() =~= all.take(i as int));
        assert(all.take(i + 1).last() == i);
        if shares_profile(scene, &selection.fixtures, i) {
            out.push(i);
        }
        i = i + 1;
    }
    assert(all.take(i as int) =~= all);
    selection.fixtures = out;
    selection.environment = None;
    assert(selection@ =~= (SelectionView {
        fixtures: same_type(*scene, old(selection)@.fixtures),
        environment: None,
        ..old(selection)@
    }));
}

/// A fixture that is hit is picked whatever else the ray meets.
pub proof fn fixtures_are_picked_first(scene: Scene, hits: RayHits, r: Option<Hit>, i: int)
    requires
        hits.covers(scene),
        shown_hit(hits.fixtures@, fixtures_hidden(scene), i),
        picked_by_ray(scene, hits, r),
    ensures
        r matches Some(Hit::Fixture(_)),
{
}

/// What is picked is never hidden.
pub proof fn hidden_objects_are_not_picked(scene: Scene, hits: RayHits, r: Option<Hit>)
    requires
        hits.covers(scene),
        picked_by_ray(scene, hits, r),
    ensures
        match r {
            Some(Hit::Fixture(i)) => i < scene.fixtures@.len() && !scene.fixtures@[i as int].hidden,
            Some(Hit::Screen(i)) => i < scene.screens@.len() && !scene.screens@[i as int].hidden,
            Some(Hit::Pyro(i)) => i < scene.pyro@.len() && !scene.pyro@[i as int].hidden,
            Some(Hit::Geometry(i)) => i < scene.geometry@.len()
                && !scene.geometry@[i as int].hidden,
            Some(Hit::Environment(i)) => i < scene.environments@.len()
                && !scene.environments@[i as int].hidden,
            None => true,
        },
{
}

/// The ray decides: two picks of the same hits are the same.
pub proof fn pick_is_determined(scene: Scene, hits: RayHits, a: Option<Hit>, b: Option<Hit>)
    requires
        hits.covers(scene),
        picked_by_ray(scene, hits, a),
        picked_by_ray(scene, hits, b),
    ensures
        a == b,
{
}

/// The entity that a ray hit.
pub open spec fn item_hit(hit: Hit) -> SelItem {
    match hit {
        Hit::Fixture(i) => SelItem::Fixture(i),
        Hit::Screen(i) => SelItem::Screen(i),
        Hit::Pyro(i) => SelItem::Pyro(i),
        Hit::Geometry(i) => SelItem::Geometry(i),
        Hit::Environment(i) => SelItem::Environment(i),
    }
}

/// Of the kinds that a ray meets, fixtures are picked before screens, those before
/// pyro devices, those before geometry and that before environments; it picks
/// nothing only where it meets nothing that shows.
pub proof fn kinds_are_picked_in_order(scene: Scene, hits: RayHits, r: Option<Hit>)
    requires
        hits.covers(scene),
        picked_by_ray(scene, hits, r),
    ensures
        !(r matches Some(Hit::Fixture(_))) ==> forall|i: int|
            0 <= i < scene.fixtures@.len() && (#[trigger] hits.fixtures@[i]) is Some
                ==> scene.fixtures@[i].hidden,
        r is None || r->0 is Pyro || r->0 is Geometry || r->0 is Environment ==> forall|i: int|
            0 <= i < scene.screens@.len() && (#[trigger] hits.screens@[i]) is Some
                ==> scene.screens@[i].hidden,
        r is None || r->0 is Geometry || r->0 is Environment ==> forall|i: int|
            0 <= i < scene.pyro@.len() && (#[trigger] hits.pyro@[i]) is Some
                ==> scene.pyro@[i].hidden,
        r is None || r->0 is Environment ==> forall|i: int|
            0 <= i < scene.geometry@.len() && (#[trigger] hits.geometry@[i]) is Some
                ==> scene.geometry@[i].hidden,
        r is None ==> forall|i: int|
            0 <= i < scene.environments@.len() && (#[trigger] hits.environments@[i]) is Some
                ==> scene.environments@[i].hidden,
{
    assert forall|i: int|
        !(r matches Some(Hit::Fixture(_))) && 0 <= i < scene.fixtures@.len() && (
        #[trigger] hits.fixtures@[i]) is Some implies scene.fixtures@[i].hidden by {
        assert(!shown_hit(hits.fixtures@, fixtures_hidden(scene), i));
    }
    assert forall|i: int|
        (r is None || r->0 is Pyro || r->0 is Geometry || r->0 is Environment) && 0 <= i
            < scene.screens@.len() && (
        #[trigger] hits.screens@[i]) is Some implies scene.screens@[i].hidden by {
        assert(!shown_hit(hits.screens@, screens_hidden(scene), i));
    }
    assert forall|i: int|
        (r is None || r->0 is Geometry || r->0 is Environment) && 0 <= i < scene.pyro@.len() && (
        #[trigger] hits.pyro@[i]) is Some implies scene.pyro@[i].hidden by {
        assert(!shown_hit(hits.pyro@, pyro_hidden(scene), i));
    }
    assert forall|i: int|
        (r is None || r->0 is Environment) && 0 <= i < scene.geometry@.len() && (
        #[trigger] hits.geometry@[i]) is Some implies scene.geometry@[i].hidden by {
        assert(!shown_hit(hits.geometry@, geometry_hidden(scene), i));
    }
    assert forall|i: int|
        r is None && 0 <= i < scene.environments@.len() && (
        #[trigger] hits.environments@[i]) is Some implies scene.environments@[i].hidden by {
        assert(!shown_hit(hits.environments@, environments_hidden(scene), i));
    }
}

/// Within its kind the picked object is hit, and no object that shows is hit nearer.
pub proof fn nearest_of_its_kind_is_picked(scene: Scene, hits: RayHits, r: Option<Hit>, j: int)
    requires
        hits.covers(scene),
        picked_by_ray(scene, hits, r),
    ensures
        r matches Some(Hit::Fixture(i)) ==> hits.fixtures@[i as int] is Some && (0 <= j
            < scene.fixtures@.len() && !scene.fixtures@[j].hidden && hits.fixtures@[j] is Some
            ==> hits.fixtures@[i as int]->0 <= hits.fixtures@[j]->0),
        r matches Some(Hit::Screen(i)) ==> hits.screens@[i as int] is Some && (0 <= j
            < scene.screens@.len() && !scene.screens@[j].hidden && hits.screens@[j] is Some
            ==> hits.screens@[i as int]->0 <= hits.screens@[j]->0),
        r matches Some(Hit::Pyro(i)) ==> hits.pyro@[i as int] is Some && (0 <= j
            < scene.pyro@.len() && !scene.pyro@[j].hidden && hits.pyro@[j] is Some
            ==> hits.pyro@[i as int]->0 <= hits.pyro@[j]->0),
        r matches Some(Hit::Geometry(i)) ==> hits.geometry@[i as int] is Some && (0 <= j
            < scene.geometry@.len() && !scene.geometry@[j].hidden && hits.geometry@[j] is Some
            ==> hits.geometry@[i as int]->0 <= hits.geometry@[j]->0),
        r matches Some(Hit::Environment(i)) ==> hits.environments@[i as int] is Some && (0 <= j
            < scene.environments@.len() && !scene.environments@[j].hidden
            && hits.environments@[j] is Some ==> hits.environments@[i as int]->0
            <= hits.environments@[j]->0),
{
    if 0 <= j < scene.fixtures@.len() && !scene.fixtures@[j].hidden && hits.fixtures@[j] is Some {
        assert(shown_hit(hits.fixtures@, fixtures_hidden(scene), j));
    }
    if 0 <= j < scene.screens@.len() && !scene.screens@[j].hidden && hits.screens@[j] is Some {
        assert(shown_hit(hits.screens@, screens_hidden(scene), j));
    }
    if 0 <= j < scene.pyro@.len() && !scene.pyro@[j].hidden && hits.pyro@[j] is Some {
        assert(shown_hit(hits.pyro@, pyro_hidden(scene), j));
    }
    if 0 <= j < scene.geometry@.len() && !scene.geometry@[j].hidden && hits.geometry@[j] is Some {
        assert(shown_hit(hits.geometry@, geometry_hidden(scene), j));
    }
    if 0 <= j < scene.environments@.len() && !scene.environments@[j].hidden
        && hits.environments@[j] is Some {
        assert(shown_hit(hits.environments@, environments_hidden(scene), j));
    }
}

/// A surface in front that shows is met, of every kind but pyro devices, and
/// nothing that is hidden is.
pub proof fn surfaces_in_front_are_met(scene: Scene, hits: RayHits, i: int, t: u32)
    requires
        hits.covers(scene),
        t > 0,
    ensures
        0 <= i < scene.fixtures@.len() && !scene.fixtures@[i].hidden && hits.fixtures@[i] == Some(t)
            ==> surface_at(scene, hits, t),
        0 <= i < scene.screens@.len() && !scene.screens@[i].hidden && hits.screens@[i] == Some(t)
            ==> surface_at(scene, hits, t),
        0 <= i < scene.geometry@.len() && !scene.geometry@[i].hidden && hits.geometry@[i] == Some(t)
            ==> surface_at(scene, hits, t),
        0 <= i < scene.environments@.len() && !scene.environments@[i].hidden
            && hits.environments@[i] == Some(t) ==> surface_at(scene, hits, t),
        surface_at(scene, hits, t) ==> exists|k: int|
            (0 <= k < scene.fixtures@.len() && !scene.fixtures@[k].hidden
                && #[trigger] hits.fixtures@[k] == Some(t)) || (0 <= k < scene.screens@.len()
                && !scene.screens@[k].hidden && hits.screens@[k] == Some(t)) || (0 <= k
                < scene.geometry@.len() && !scene.geometry@[k].hidden && hits.geometry@[k] == Some(
                t,
            )) || (0 <= k < scene.environments@.len() && !scene.environments@[k].hidden
                && hits.environments@[k] == Some(t)),
{
    if 0 <= i < scene.fixtures@.len() && !scene.fixtures@[i].hidden && hits.fixtures@[i] == Some(
        t,
    ) {
        assert(shown_hit(hits.fixtures@, fixtures_hidden(scene), i));
    }
    if 0 <= i < scene.screens@.len() && !scene.screens@[i].hidden && hits.screens@[i] == Some(t) {
        assert(shown_hit(hits.screens@, screens_hidden(scene), i));
    }
    if 0 <= i < scene.geometry@.len() && !scene.geometry@[i].hidden && hits.geometry@[i] == Some(
        t,
    ) {
        assert(shown_hit(hits.geometry@, geometry_hidden(scene), i));
    }
    if 0 <= i < scene.environments@.len() && !scene.environments@[i].hidden
        && hits.environments@[i] == Some(t) {
        assert(shown_hit(hits.environments@, environments_hidden(scene), i));
    }
    if surface_at(scene, hits, t) {
        let k = if at_distance(hits.fixtures@, fixtures_hidden(scene), t) {
            choose|k: int|
                #[trigger] shown_hit(hits.fixtures@, fixtures_hidden(scene), k) && hits.fixtures@[k]
                    == Some(t)
        } else if at_distance(hits.screens@, screens_hidden(scene), t) {
            choose|k: int|
                #[trigger] shown_hit(hits.screens@, screens_hidden(scene), k) && hits.screens@[k]
                    == Some(t)
        } else if at_distance(hits.geometry@, geometry_hidden(scene), t) {
            choose|k: int|
                #[trigger] shown_hit(hits.geometry@, geometry_hidden(scene), k) && hits.geometry@[k]
                    == Some(t)
        } else {
            choose|k: int|
                #[trigger] shown_hit(hits.environments@, environments_hidden(scene), k)
                    && hits.environments@[k] == Some(t)
        };
        let hit = hits.fixtures@[k];
    }
}

/// The node that a move snaps to lies within reach, shows and is not one of the
/// moved fixtures, and no other such node is nearer.
pub proof fn snapped_node_is_the_nearest(
    scene: Scene,
    near: NodeDistances,
    exclude: Seq<usize>,
    reach: u32,
    obj: ObjectRef,
    j: usize,
)
    requires
        near.covers(scene),
        nearest_node(scene, near, exclude, reach, obj),
    ensures
        ({
            let d = match obj {
                ObjectRef::Fixture(i) => near.fixtures@[i as int],
                ObjectRef::Geometry(i) => near.geometry@[i as int],
                ObjectRef::Screen(i) => near.screens@[i as int],
                _ => None,
            };
            &&& d is Some && d->0 <= reach
            &&& obj matches ObjectRef::Fixture(i) ==> i < scene.fixtures@.len()
                && !scene.fixtures@[i as int].hidden && !exclude.contains(i)
            &&& obj matches ObjectRef::Geometry(i) ==> i < scene.geometry@.len()
                && !scene.geometry@[i as int].hidden
            &&& obj matches ObjectRef::Screen(i) ==> i < scene.screens@.len()
                && !scene.screens@[i as int].hidden
            &&& j < scene.fixtures@.len() && !scene.fixtures@[j as int].hidden && !exclude.contains(
                j,
            ) && near.fixtures@[j as int] is Some ==> d->0 <= near.fixtures@[j as int]->0
            &&& j < scene.geometry@.len() && !scene.geometry@[j as int].hidden
                && near.geometry@[j as int] is Some ==> d->0 <= near.geometry@[j as int]->0
            &&& j < scene.screens@.len() && !scene.screens@[j as int].hidden
                && near.screens@[j as int] is Some ==> d->0 <= near.screens@[j as int]->0
        }),
{
    let d = choose|d: u32|
        {
            &&& #[trigger] is_node(scene, near, exclude, reach, obj, d)
            &&& forall|o: ObjectRef, e: u32| #[trigger]
                is_node(scene, near, exclude, reach, o, e) ==> d < e || (d == e && node_order(
                    scene,
                    obj,
                ) <= node_order(scene, o))
        };
    if j < scene.fixtures@.len() && near.fixtures@[j as int] is Some && near.fixtures@[j as int]->0
        <= reach && !scene.fixtures@[j as int].hidden && !exclude.contains(j) {
        assert(is_node(scene, near, exclude, reach, ObjectRef::Fixture(j), near.fixtures@[j as int]->0));
    }
    if j < scene.geometry@.len() && near.geometry@[j as int] is Some && near.geometry@[j as int]->0
        <= reach && !scene.geometry@[j as int].hidden {
        assert(is_node(scene, near, exclude, reach, ObjectRef::Geometry(j), near.geometry@[j as int]->0));
    }
    if j < scene.screens@.len() && near.screens@[j as int] is Some && near.screens@[j as int]->0
        <= reach && !scene.screens@[j as int].hidden {
        assert(is_node(scene, near, exclude, reach, ObjectRef::Screen(j), near.screens@[j as int]->0));
    }
}

/// A plain click on an object selects it and nothing else, whatever was selected
/// before and whether or not the viewport had the focus.
pub proof fn plain_click_selects_the_hit(
    s: SelectionView,
    anchor: Option<usize>,
    hit: Hit,
    was_focused: bool,
    n: usize,
)
    ensures
        ({
            let r = after_click(s, anchor, Some(hit), was_focused, false, false, n).0;
            &&& !r.world
            &&& forall|e: SelItem| #[trigger] holds(r, e) <==> e == item_hit(hit)
        }),
{
    let r = after_click(s, anchor, Some(hit), was_focused, false, false, n).0;
    if hit is Fixture {
        plain_fixture_click_selects_alone(s, anchor, hit->Fixture_0, n);
    } else {
        let one = hit_items(Some(hit));
        assert(one.len() == 1 && one[0] == item_hit(hit));
        assert(one.drop_last() =~= seq![]);
        reveal_with_fuel(after_picks, 2);
        assert(r == combined(s, one, SelectOp::Replace));
        assert forall|e: SelItem| #[trigger] holds(r, e) <==> e == item_hit(hit) by {
            if !(e is Environment) {
                replacing_picks_stand_alone(s, one, e);
            }
        }
    }
}

/// A click with Ctrl changes whether the hit object is selected, and nothing else
/// but that another environment takes the place of the selected one.
pub proof fn ctrl_click_toggles_the_hit(
    s: SelectionView,
    anchor: Option<usize>,
    hit: Hit,
    was_focused: bool,
    n: usize,
    e: SelItem,
)
    requires
        !(hit is Environment && e is Environment && e != item_hit(hit)),
    ensures
        ({
            let r = after_click(s, anchor, Some(hit), was_focused, true, false, n).0;
            &&& r.world == s.world
            &&& holds(r, e) <==> (holds(s, e) != (e == item_hit(hit)))
        }),
{
    let r = after_click(s, anchor, Some(hit), was_focused, true, false, n).0;
    if hit is Fixture {
        toggling_fixture_click_changes_it_alone(s, anchor, hit->Fixture_0, n);
    } else {
        let one = hit_items(Some(hit));
        assert(one.len() == 1 && one[0] == item_hit(hit));
        assert(one.drop_last() =~= seq![]);
        reveal_with_fuel(after_picks, 2);
        if !(e is Environment) {
            toggled_picks_change_sides(s, one, e);
        }
    }
}

/// A click with Shift on an object other than a fixture selects it beside what was
/// selected.
pub proof fn shift_click_adds_the_hit(
    s: SelectionView,
    anchor: Option<usize>,
    hit: Hit,
    was_focused: bool,
    n: usize,
    e: SelItem,
)
    requires
        !(hit is Fixture),
        !(e is Environment),
    ensures
        ({
            let r = after_click(s, anchor, Some(hit), was_focused, false, true, n).0;
            &&& r.world == s.world
            &&& holds(r, item_hit(hit))
            &&& holds(r, e) <==> holds(s, e) || e == item_hit(hit)
        }),
{
    let one = hit_items(Some(hit));
    assert(one.len() == 1 && one[0] == item_hit(hit));
    added_picks_join(s, one, e);
    if hit is Environment {
        picked_environment_takes_over(s, hit->Environment_0, SelectOp::Add);
    } else {
        added_picks_join(s, one, item_hit(hit));
    }
}

/// A click into the void of the focused viewport clears the selection; with a
/// modifier it leaves it.
pub proof fn void_click_clears(s: SelectionView, anchor: Option<usize>, e: SelItem, n: usize)
    ensures
        !holds(after_click(s, anchor, None, true, false, false, n).0, e),
        !after_click(s, anchor, None, true, false, false, n).0.world,
        forall|was_focused: bool| #[trigger]
            after_click(s, anchor, None, was_focused, true, false, n).0 == s,
        forall|was_focused: bool| #[trigger]
            after_click(s, anchor, None, was_focused, false, true, n).0 == s,
{
}

/// A secondary click on an object that is not selected selects it and nothing
/// else; on a selected one, on an environment and into the void it leaves the
/// selection.
pub proof fn secondary_click_keeps_what_it_hits(
    s: SelectionView,
    anchor: Option<usize>,
    hit: Hit,
)
    ensures
        ({
            let r = after_secondary_click(s, anchor, Some(hit)).0;
            &&& hit is Environment || holds(s, item_hit(hit)) ==> r == s
            &&& !(hit is Environment) && !holds(s, item_hit(hit)) ==> !r.world && forall|e: SelItem|
                #[trigger] holds(r, e) <==> e == item_hit(hit)
        }),
        after_secondary_click(s, anchor, None) == (s, anchor),
{
    let i = match hit {
        Hit::Fixture(i) => i,
        Hit::Screen(i) => i,
        Hit::Pyro(i) => i,
        Hit::Geometry(i) => i,
        Hit::Environment(i) => i,
    };
    assert(seq![i][0] == i);
}

/// Is the entity's centre inside the marquee, and does the entity show?
pub open spec fn found_inside(scene: Scene, inside: InsideFlags, e: SelItem) -> bool {
    match e {
        SelItem::Fixture(i) => i < scene.fixtures@.len() && inside.fixtures@[i as int]
            && !scene.fixtures@[i as int].hidden,
        SelItem::Geometry(i) => i < scene.geometry@.len() && inside.geometry@[i as int]
            && !scene.geometry@[i as int].hidden,
        SelItem::Screen(i) => i < scene.screens@.len() && inside.screens@[i as int]
            && !scene.screens@[i as int].hidden,
        SelItem::Pyro(i) => i < scene.pyro@.len() && inside.pyro@[i as int]
            && !scene.pyro@[i as int].hidden,
        SelItem::Environment(_) => false,
    }
}

proof fn lemma_swept(inside: Vec<bool>, hidden: Seq<bool>, i: usize)
    ensures
        swept(inside@, hidden).contains(i) <==> i < inside@.len() && inside@[i as int]
            && !hidden[i as int],
{
    let flags = inside@;
    let p = |i: usize| flags[i as int] && !hidden[i as int];
    filter_keeps(indices(flags.len()), p);
    assert(swept(flags, hidden) == indices(flags.len()).filter(p));
    assert(inside@.len() == inside.len());
    let all = indices(flags.len());
    if i < flags.len() {
        assert(all[i as int] == i);
    }
}

/// A marquee finds exactly the entities whose centre it holds and that show.
pub proof fn marquee_finds_what_it_holds(scene: Scene, inside: InsideFlags, e: SelItem)
    requires
        inside.covers(scene),
    ensures
        marquee_items(scene, inside).contains(e) <==> found_inside(scene, inside, e),
{
    let f = swept(inside.fixtures@, fixtures_hidden(scene));
    let g = swept(inside.geometry@, geometry_hidden(scene));
    let s = swept(inside.screens@, screens_hidden(scene));
    let y = swept(inside.pyro@, pyro_hidden(scene));
    let all = marquee_items(scene, inside);
    let i = match e {
        SelItem::Fixture(i) => i,
        SelItem::Geometry(i) => i,
        SelItem::Screen(i) => i,
        SelItem::Pyro(i) => i,
        SelItem::Environment(i) => i,
    };
    lemma_swept(inside.fixtures, fixtures_hidden(scene), i);
    lemma_swept(inside.geometry, geometry_hidden(scene), i);
    lemma_swept(inside.screens, screens_hidden(scene), i);
    lemma_swept(inside.pyro, pyro_hidden(scene), i);
    let a = f.len();
    let b = a + g.len();
    let c = b + s.len();
    assert(all.len() == c + y.len());
    assert forall|k: int| 0 <= k < all.len() implies #[trigger] all[k] == (if k < a {
        SelItem::Fixture(f[k])
    } else if k < b {
        SelItem::Geometry(g[k - a])
    } else if k < c {
        SelItem::Screen(s[k - b])
    } else {
        SelItem::Pyro(y[k - c])
    }) by {}
    if f.contains(i) {
        let k = choose|k: int| 0 <= k < f.len() && f[k] == i;
        assert(all[k] == SelItem::Fixture(i));
    }
    if g.contains(i) {
        let k = choose|k: int| 0 <= k < g.len() && g[k] == i;
        assert(all[a + k] == SelItem::Geometry(i));
    }
    if s.contains(i) {
        let k = choose|k: int| 0 <= k < s.len() && s[k] == i;
        assert(all[b + k] == SelItem::Screen(i));
    }
    if y.contains(i) {
        let k = choose|k: int| 0 <= k < y.len() && y[k] == i;
        assert(all[c + k] == SelItem::Pyro(i));
    }
}

/// A marquee selects what it holds and nothing else; with Shift it adds that to the
/// selection, with Ctrl it takes that out of it. Its found entities are
/// never environments, so the selected one stays with a modifier and goes without.
pub proof fn marquee_selects_what_it_holds(
    scene: Scene,
    inside: InsideFlags,
    s: SelectionView,
    e: SelItem,
    shift: bool,
)
    requires
        inside.covers(scene),
        !(e is Environment),
    ensures
        ({
            let found = marquee_items(scene, inside);
            let plain = combined(s, found, marquee_op(false, false));
            let added = combined(s, found, marquee_op(false, true));
            let taken = combined(s, found, marquee_op(true, shift));
            &&& holds(plain, e) <==> found_inside(scene, inside, e)
            &&& holds(added, e) <==> holds(s, e) || found_inside(scene, inside, e)
            &&& holds(taken, e) <==> holds(s, e) && !found_inside(scene, inside, e)
        }),
{
    let found = marquee_items(scene, inside);
    marquee_finds_what_it_holds(scene, inside, e);
    replacing_picks_stand_alone(s, found, e);
    added_picks_join(s, found, e);
    subtracted_picks_leave(s, found, e);
}

/// The selection extended to the profiles of its fixtures.
pub open spec fn extended_by_type(scene: Scene, s: SelectionView) -> SelectionView {
    if fixture_selected(scene, s.fixtures) {
        SelectionView { fixtures: same_type(scene, s.fixtures), environment: None, ..s }
    } else {
        s
    }
}

/// Extending the selection by type selects a fixture exactly where a selected one
/// has its profile, so every selected fixture of the scene stays; the other kinds
/// are left, and without a selected fixture everything is.
pub proof fn same_profile_is_selected(scene: Scene, s: SelectionView, k: int, i: usize)
    requires
        0 <= k < s.fixtures.len(),
        s.fixtures[k] < scene.fixtures@.len(),
        i < scene.fixtures@.len(),
    ensures
        ({
            let r = extended_by_type(scene, s);
            &&& r.fixtures.contains(s.fixtures[k])
            &&& scene.fixtures@[i as int].profile@ == scene.fixtures@[s.fixtures[k] as int].profile@
                ==> r.fixtures.contains(i)
            &&& r.fixtures.contains(i) ==> exists|j: int|
                0 <= j < s.fixtures.len() && (#[trigger] s.fixtures[j]) < scene.fixtures@.len()
                    && scene.fixtures@[s.fixtures[j] as int].profile@
                    == scene.fixtures@[i as int].profile@
            &&& r.geometry == s.geometry && r.screens == s.screens && r.pyro == s.pyro && r.world
                == s.world
        }),
{
    let p = |i: usize|
        profile_selected(scene, s.fixtures, scene.fixtures@[i as int].profile@);
    let all = indices(scene.fixtures@.len());
    filter_keeps(all, p);
    assert(same_type(scene, s.fixtures) == all.filter(p));
    assert(scene.fixtures@.len() == scene.fixtures.len());
    assert(all[i as int] == i);
    assert(all[s.fixtures[k] as int] == s.fixtures[k]);
}

/// Of equally near nodes a fixture is preferred to geometry, and that to a screen; within a
/// kind the first.
pub proof fn equally_near_nodes_have_an_order(
    scene: Scene,
    near: NodeDistances,
    exclude: Seq<usize>,
    reach: u32,
    obj: ObjectRef,
    j: usize,
)
    requires
        near.covers(scene),
        nearest_node(scene, near, exclude, reach, obj),
        j < scene.fixtures@.len(),
        !scene.fixtures@[j as int].hidden,
        !exclude.contains(j),
        near.fixtures@[j as int] is Some,
    ensures
        obj matches ObjectRef::Geometry(i) ==> near.geometry@[i as int]->0 < near.fixtures@[
        j as int]->0,
        obj matches ObjectRef::Screen(i) ==> near.screens@[i as int]->0 < near.fixtures@[
        j as int]->0,
        obj matches ObjectRef::Fixture(i) ==> near.fixtures@[i as int]->0 < near.fixtures@[
        j as int]->0 || (near.fixtures@[i as int] == near.fixtures@[j as int] && i <= j),
{
    let d = choose|d: u32|
        {
            &&& #[trigger] is_node(scene, near, exclude, reach, obj, d)
            &&& forall|o: ObjectRef, e: u32| #[trigger]
                is_node(scene, near, exclude, reach, o, e) ==> d < e || (d == e && node_order(
                    scene,
                    obj,
                ) <= node_order(scene, o))
        };
    if near.fixtures@[j as int]->0 <= reach {
        assert(is_node(scene, near, exclude, reach, ObjectRef::Fixture(j), near.fixtures@[j as int]->0));
    }
}

/// A surface lies in front of the ray's start: never at the start itself.
pub proof fn start_is_no_surface(scene: Scene, hits: RayHits)
    ensures
        !surface_at(scene, hits, 0),
{
}

/// Without a selected fixture that the scene holds, extending by type changes nothing.
pub proof fn stale_fixtures_extend_nothing(scene: Scene, s: SelectionView)
    requires
        forall|k: int| 0 <= k < s.fixtures.len() ==> (#[trigger] s.fixtures[k]) >= scene.fixtures@.len(),
    ensures
        extended_by_type(scene, s) == s,
{
}

} // verus!
