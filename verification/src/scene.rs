//! The scene as the user interface reads it: named, hideable entities in flat
//! collections, and the DMX patch entry of each fixture.

use vstd::prelude::*;

verus! {

/// An identity that survives adding, deleting and reordering.
pub type EntityId = u64;

/// A lighting fixture.
#[derive(Debug)]
pub struct Fixture {
    pub id: EntityId,
    pub name: String,
    pub profile: String,
    /// The manufacturer, for a fixture with an imported definition.
    pub maker: Option<String>,
    /// The names of the DMX modes of the imported definition.
    pub modes: Vec<String>,
    pub hidden: bool,
    pub is_laser: bool,
}

/// A piece of stage geometry.
#[derive(Debug)]
pub struct Geometry {
    pub id: EntityId,
    pub name: String,
    /// The kind that an import gave the object.
    pub kind: Option<String>,
    pub hidden: bool,
}

/// An LED screen.
#[derive(Debug)]
pub struct Screen {
    pub id: EntityId,
    pub name: String,
    pub width_px: u32,
    pub height_px: u32,
    /// What the screen shows, in words.
    pub content: String,
    pub hidden: bool,
}

/// A fog volume.
#[derive(Debug)]
pub struct Environment {
    pub id: EntityId,
    pub name: String,
    pub hidden: bool,
}

/// A pyro device.
#[derive(Debug)]
pub struct Pyro {
    pub id: EntityId,
    pub name: String,
    pub hidden: bool,
}

/// The scene's flat collections.
#[derive(Debug)]
pub struct Scene {
    pub fixtures: Vec<Fixture>,
    pub geometry: Vec<Geometry>,
    pub screens: Vec<Screen>,
    pub environments: Vec<Environment>,
    pub pyro: Vec<Pyro>,
}

/// The hidden flags of the fixtures.
pub open spec fn fixtures_hidden(scene: Scene) -> Seq<bool> {
    Seq::new(scene.fixtures@.len(), |i: int| scene.fixtures@[i].hidden)
}

/// The hidden flags of the geometry.
pub open spec fn geometry_hidden(scene: Scene) -> Seq<bool> {
    Seq::new(scene.geometry@.len(), |i: int| scene.geometry@[i].hidden)
}

/// The hidden flags of the screens.
pub open spec fn screens_hidden(scene: Scene) -> Seq<bool> {
    Seq::new(scene.screens@.len(), |i: int| scene.screens@[i].hidden)
}

/// The hidden flags of the environments.
pub open spec fn environments_hidden(scene: Scene) -> Seq<bool> {
    Seq::new(scene.environments@.len(), |i: int| scene.environments@[i].hidden)
}

/// Append the hidden flags of the fixtures.
pub fn push_fixtures_hidden(out: &mut Vec<bool>, scene: &Scene)
    ensures
        final(out)@ == old(out)@ + fixtures_hidden(*scene),
{
    let mut i: usize = 0;
    while i < scene.fixtures.len()
        invariant
            i <= scene.fixtures@.len(),
            out@ == old(out)@ + fixtures_hidden(*scene).take(i as int),
        decreases scene.fixtures@.len() - i,
    {
        out.push(scene.fixtures[i].hidden);
        i = i + 1;
        assert(out@ =~= old(out)@ + fixtures_hidden(*scene).take(i as int));
    }
    assert(fixtures_hidden(*scene).take(i as int) =~= fixtures_hidden(*scene));
}

/// Append the hidden flags of the geometry.
pub fn push_geometry_hidden(out: &mut Vec<bool>, scene: &Scene)
    ensures
        final(out)@ == old(out)@ + geometry_hidden(*scene),
{
    let mut i: usize = 0;
    while i < scene.geometry.len()
        invariant
            i <= scene.geometry@.len(),
            out@ == old(out)@ + geometry_hidden(*scene).take(i as int),
        decreases scene.geometry@.len() - i,
    {
        out.push(scene.geometry[i].hidden);
        i = i + 1;
        assert(out@ =~= old(out)@ + geometry_hidden(*scene).take(i as int));
    }
    assert(geometry_hidden(*scene).take(i as int) =~= geometry_hidden(*scene));
}

/// Append the hidden flags of the screens.
pub fn push_screens_hidden(out: &mut Vec<bool>, scene: &Scene)
    ensures
        final(out)@ == old(out)@ + screens_hidden(*scene),
{
    let mut i: usize = 0;
    while i < scene.screens.len()
        invariant
            i <= scene.screens@.len(),
            out@ == old(out)@ + screens_hidden(*scene).take(i as int),
        decreases scene.screens@.len() - i,
    {
        out.push(scene.screens[i].hidden);
        i = i + 1;
        assert(out@ =~= old(out)@ + screens_hidden(*scene).take(i as int));
    }
    assert(screens_hidden(*scene).take(i as int) =~= screens_hidden(*scene));
}

/// Append the hidden flags of the environments.
pub fn push_environments_hidden(out: &mut Vec<bool>, scene: &Scene)
    ensures
        final(out)@ == old(out)@ + environments_hidden(*scene),
{
    let mut i: usize = 0;
    while i < scene.environments.len()
        invariant
            i <= scene.environments@.len(),
            out@ == old(out)@ + environments_hidden(*scene).take(i as int),
        decreases scene.environments@.len() - i,
    {
        out.push(scene.environments[i].hidden);
        i = i + 1;
        assert(out@ =~= old(out)@ + environments_hidden(*scene).take(i as int));
    }
    assert(environments_hidden(*scene).take(i as int) =~= environments_hidden(*scene));
}

/// The hidden flags of the pyro devices.
pub open spec fn pyro_hidden(scene: Scene) -> Seq<bool> {
    Seq::new(scene.pyro@.len(), |i: int| scene.pyro@[i].hidden)
}

/// Append the hidden flags of the pyro devices.
pub fn push_pyro_hidden(out: &mut Vec<bool>, scene: &Scene)
    ensures
        final(out)@ == old(out)@ + pyro_hidden(*scene),
{
    let mut i: usize = 0;
    while i < scene.pyro.len()
        invariant
            i <= scene.pyro@.len(),
            out@ == old(out)@ + pyro_hidden(*scene).take(i as int),
        decreases scene.pyro@.len() - i,
    {
        out.push(scene.pyro[i].hidden);
        i = i + 1;
        assert(out@ =~= old(out)@ + pyro_hidden(*scene).take(i as int));
    }
    assert(pyro_hidden(*scene).take(i as int) =~= pyro_hidden(*scene));
}

/// A reference to one object of the scene, by its place in its collection.
#[derive(Clone, Copy, Debug, PartialEq, Eq, Structural)]
pub enum ObjectRef {
    Fixture(usize),
    Geometry(usize),
    Screen(usize),
    Environment(usize),
    Pyro(usize),
}

/// Where a patch entry comes from.
#[derive(Clone, Copy, Debug, PartialEq, Eq, Structural)]
pub enum PatchSource {
    Import,
    Manual,
}

/// A fixture's DMX patch: universe and start channel, both counted from 1.
#[derive(Clone, Copy, Debug, PartialEq, Eq, Structural)]
pub struct PatchEntry {
    pub universe: u16,
    pub address: u16,
    /// How many channels the fixture takes in its mode.
    pub footprint: u16,
    pub mode_index: usize,
    pub enabled: bool,
    pub source: PatchSource,
}

/// The patch entries, by fixture index. A fixture past the end has none.
#[derive(Debug)]
pub struct PatchTable {
    pub entries: Vec<PatchEntry>,
}

impl View for PatchTable {
    type V = Seq<PatchEntry>;

    open spec fn view(&self) -> Seq<PatchEntry> {
        self.entries@
    }
}

/// Does the fixture `i` have an enabled patch entry?
pub open spec fn is_patched(patch: Seq<PatchEntry>, i: int) -> bool {
    0 <= i < patch.len() && patch[i].enabled
}

impl PatchTable {
    /// The patch entry of the fixture `i`.
    pub fn get(&self, i: usize) -> (r: Option<PatchEntry>)
        ensures
            r == (if i < self@.len() { Some(self@[i as int]) } else { None }),
    {
        if i < self.entries.len() {
            Some(self.entries[i])
        } else {
            None
        }
    }

    /// Does the fixture `i` have an enabled patch entry?
    pub fn is_patched(&self, i: usize) -> (r: bool)
        ensures
            r == is_patched(self@, i as int),
    {
        i < self.entries.len() && self.entries[i].enabled
    }
}

/// Does one of the pairs name the fixture `i`?
pub open spec fn in_conflict(pairs: Seq<(usize, usize)>, i: int) -> bool {
    exists|k: int| 0 <= k < pairs.len() && ((#[trigger] pairs[k]).0 == i || pairs[k].1 == i)
}

/// Which of the first `n` fixtures the address conflicts name. A pair that
/// names a fixture past the end marks only the other.
pub fn conflicted_flags(pairs: &Vec<(usize, usize)>, n: usize) -> (r: Vec<bool>)
    ensures
        r@.len() == n,
        forall|i: int| 0 <= i < n ==> #[trigger] r@[i] == in_conflict(pairs@, i),
{
    let mut out: Vec<bool> = Vec::new();
    let mut f: usize = 0;
    while f < n
        invariant
            f <= n,
            out@.len() == f,
            forall|i: int| 0 <= i < f ==> !#[trigger] out@[i],
        decreases n - f,
    {
        out.push(false);
        f = f + 1;
    }
    let mut k: usize = 0;
    assert(pairs@.take(0) =~= seq![]);
    while k < pairs.len()
        invariant
            k <= pairs@.len(),
            out@.len() == n,
            forall|i: int| 0 <= i < n ==> #[trigger] out@[i] == in_conflict(pairs@.take(k as int), i),
        decreases pairs@.len() - k,
    {
        let ghost before = out@;
        let (a, b) = pairs[k];
        if a < n {
            out.set(a, true);
        }
        if b < n {
            out.set(b, true);
        }
        assert forall|i: int| 0 <= i < n implies #[trigger] out@[i] == in_conflict(
            pairs@.take(k + 1),
            i,
        ) by {
            let old_pairs = pairs@.take(k as int);
            let new_pairs = pairs@.take(k + 1);
            if in_conflict(old_pairs, i) {
                let j = choose|j: int|
                    0 <= j < old_pairs.len() && ((#[trigger] old_pairs[j]).0 == i || old_pairs[j].1 == i);
                assert(new_pairs[j] == old_pairs[j]);
            }
            if i == a || i == b {
                assert(new_pairs[k as int] == (a, b));
            } else if in_conflict(new_pairs, i) {
                let j = choose|j: int|
                    0 <= j < new_pairs.len() && ((#[trigger] new_pairs[j]).0 == i || new_pairs[j].1 == i);
                assert(old_pairs[j] == new_pairs[j]);
            }
            assert(before[i] == in_conflict(old_pairs, i));
        }
        k = k + 1;
    }
    assert(pairs@.take(k as int) =~= pairs@);
    out
}

} // verus!
