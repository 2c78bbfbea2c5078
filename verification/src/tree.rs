//! The scene outliner: its filter chips, the flattened row list that it is
//! drawn from, and what a click on a row does.

use vstd::prelude::*;
use crate::scene::EntityId;
use crate::theme::Icon;

pub mod clicks;
pub mod rows;

verus! {

/// Which entity kinds the tree shows.
#[derive(Clone, Copy, Debug, PartialEq, Eq, Structural)]
pub enum TypeChip {
    All,
    Fixtures,
    Objects,
    Screens,
}

impl Default for TypeChip {
    fn default() -> (r: Self)
        ensures
            r == TypeChip::All,
    {
        TypeChip::All
    }
}

impl TypeChip {
    /// The chip strip's order, left to right.
    pub const ORDER: [TypeChip; 4] = [
        TypeChip::All,
        TypeChip::Fixtures,
        TypeChip::Objects,
        TypeChip::Screens,
    ];

    /// The chip's text.
    pub fn label(self) -> (r: &'static str)
        ensures
            r@ == (match self {
                TypeChip::All => "All"@,
                TypeChip::Fixtures => "Fixtures"@,
                TypeChip::Objects => "Objects"@,
                TypeChip::Screens => "Screens"@,
            }),
    {
        match self {
            TypeChip::All => "All",
            TypeChip::Fixtures => "Fixtures",
            TypeChip::Objects => "Objects",
            TypeChip::Screens => "Screens",
        }
    }

    /// Are fixtures shown?
    #[verifier::allow_in_spec]
    pub fn fixtures(self) -> bool
        returns
            (self is All || self is Fixtures),
    {
        match self {
            TypeChip::All => true,
            TypeChip::Fixtures => true,
            _ => false,
        }
    }

    /// Are objects shown?
    #[verifier::allow_in_spec]
    pub fn objects(self) -> bool
        returns
            (self is All || self is Objects),
    {
        match self {
            TypeChip::All => true,
            TypeChip::Objects => true,
            _ => false,
        }
    }

    /// Are screens shown?
    #[verifier::allow_in_spec]
    pub fn screens(self) -> bool
        returns
            (self is All || self is Screens),
    {
        match self {
            TypeChip::All => true,
            TypeChip::Screens => true,
            _ => false,
        }
    }

    /// Are the world and its environments shown?
    #[verifier::allow_in_spec]
    pub fn world(self) -> bool
        returns
            (self is All),
    {
        match self {
            TypeChip::All => true,
            _ => false,
        }
    }
}

/// Toggles that each restrict the fixtures to a state; several compose as AND.
#[derive(Clone, Copy, Debug, PartialEq, Eq, Structural)]
pub struct StateChips {
    pub unpatched: bool,
    pub selected: bool,
    pub conflicts: bool,
}

impl Default for StateChips {
    fn default() -> (r: Self)
        ensures
            r == (StateChips { unpatched: false, selected: false, conflicts: false }),
    {
        StateChips { unpatched: false, selected: false, conflicts: false }
    }
}

impl StateChips {
    /// Is a state chip on? Then the tree shows fixtures only.
    #[verifier::allow_in_spec]
    pub fn any(self) -> bool
        returns
            (self.unpatched || self.selected || self.conflicts),
    {
        self.unpatched || self.selected || self.conflicts
    }
}

/// The outliner's chips.
#[derive(Clone, Copy, Debug, PartialEq, Eq, Structural)]
pub struct OutlinerFilter {
    pub kind: TypeChip,
    pub state: StateChips,
}

impl Default for OutlinerFilter {
    fn default() -> (r: Self)
        ensures
            r.kind == TypeChip::All,
            !r.state.any(),
    {
        OutlinerFilter { kind: TypeChip::default(), state: StateChips::default() }
    }
}

impl OutlinerFilter {
    /// Does a fixture in this state pass every state chip that is on?
    pub open spec fn passes(self, patched: bool, selected: bool, conflict: bool) -> bool {
        &&& self.state.unpatched ==> !patched
        &&& self.state.selected ==> selected
        &&& self.state.conflicts ==> conflict
    }

    /// Does a fixture in this state pass every state chip that is on?
    pub fn fixture_passes(&self, patched: bool, selected: bool, conflict: bool) -> (r: bool)
        ensures
            r == self.passes(patched, selected, conflict),
    {
        if self.state.unpatched && patched {
            return false;
        }
        if self.state.selected && !selected {
            return false;
        }
        if self.state.conflicts && !conflict {
            return false;
        }
        true
    }
}

/// The three entity collections that have a group row.
#[derive(Clone, Copy, Debug, PartialEq, Eq, Structural)]
pub enum GroupKind {
    Fixtures,
    Objects,
    Screens,
}

/// A node of the hierarchy, by a key that stays the same within a session.
#[derive(Clone, Copy, Debug, PartialEq, Eq, Structural)]
pub enum NodeKey {
    Root,
    World,
    EnvGroup,
    Group(GroupKind),
    Entity(EntityId),
}

/// An edit that the outliner asks for and the caller carries out as one undo
/// step.
#[derive(Debug)]
pub enum TreeAction {
    Nothing,
    /// Flip the visibility of an entity or of a whole group.
    ToggleHidden(NodeKey),
    /// Give an entity a new name.
    Rename(NodeKey, String),
}

impl Default for TreeAction {
    fn default() -> (r: Self)
        ensures
            r == TreeAction::Nothing,
    {
        TreeAction::Nothing
    }
}

/// What a row stands for, with its place in the collection for a leaf.
#[derive(Clone, Copy, Debug, PartialEq, Eq, Structural)]
pub enum RowKind {
    Root,
    World,
    EnvGroup,
    Group(GroupKind),
    Fixture(usize),
    Object(usize),
    Screen(usize),
    Environment(usize),
}

/// The visibility of a row: that of a leaf, or of a container's children.
#[derive(Clone, Copy, Debug, PartialEq, Eq, Structural)]
pub enum VisState {
    Shown,
    Hidden,
    Mixed,
}

/// The visibility of a container over its children's hidden flags: shown where
/// none is hidden, hidden where all are, mixed otherwise.
pub open spec fn folded(hidden: Seq<bool>) -> VisState {
    if !hidden.contains(true) {
        VisState::Shown
    } else if !hidden.contains(false) {
        VisState::Hidden
    } else {
        VisState::Mixed
    }
}

impl VisState {
    /// The visibility of a container over its children's hidden flags.
    pub fn fold(states: &Vec<bool>) -> (r: VisState)
        ensures
            r == folded(states@),
    {
        let mut any_hidden = false;
        let mut any_shown = false;
        let mut i: usize = 0;
        while i < states.len()
            invariant
                i <= states@.len(),
                any_hidden == states@.take(i as int).contains(true),
                any_shown == states@.take(i as int).contains(false),
            decreases states@.len() - i,
        {
            let ghost before = states@.take(i as int);
            let ghost after = states@.take(i + 1);
            assert(after =~= before.push(states@[i as int]));
            assert(after.contains(true) == (before.contains(true) || states@[i as int])) by {
                lemma_push_contains(before, states@[i as int], true);
            }
            assert(after.contains(false) == (before.contains(false) || !states@[i as int])) by {
                lemma_push_contains(before, states@[i as int], false);
            }
            if states[i] {
                any_hidden = true;
            } else {
                any_shown = true;
            }
            i = i + 1;
        }
        assert(states@.take(i as int) =~= states@);
        if !any_hidden {
            VisState::Shown
        } else if !any_shown {
            VisState::Hidden
        } else {
            VisState::Mixed
        }
    }

    /// Is the row's content dimmed? Only where all of it is hidden.
    pub fn dim(self) -> (r: bool)
        ensures
            r == (self == VisState::Hidden),
    {
        self == VisState::Hidden
    }

    /// The eye's hover text.
    pub fn hint(self) -> (r: &'static str)
        ensures
            r@ == (match self {
                VisState::Hidden => "Hidden — click to show"@,
                VisState::Mixed => "Partly hidden — click to hide the rest"@,
                VisState::Shown => "Visible — click to hide"@,
            }),
    {
        match self {
            VisState::Hidden => "Hidden — click to show",
            VisState::Mixed => "Partly hidden — click to hide the rest",
            VisState::Shown => "Visible — click to hide",
        }
    }
}

proof fn lemma_push_contains(s: Seq<bool>, x: bool, y: bool)
    ensures
        s.push(x).contains(y) == (s.contains(y) || x == y),
{
    if s.contains(y) {
        let k = choose|k: int| 0 <= k < s.len() && s[k] == y;
        assert(s.push(x)[k] == y);
    }
    if x == y {
        assert(s.push(x)[s.len() as int] == y);
    }
    if s.push(x).contains(y) && x != y {
        let k = choose|k: int| 0 <= k < s.push(x).len() && s.push(x)[k] == y;
        assert(s[k] == y);
    }
}

/// A row of the tree, in depth-first order of what is expanded.
#[derive(Debug)]
pub struct TreeRow {
    pub key: NodeKey,
    pub kind: RowKind,
    pub depth: u8,
    pub icon: Icon,
    pub label: String,
    pub secondary: String,
    pub has_children: bool,
    pub vis: VisState,
    /// A fixture's address, `"unpatched"` without one; empty for other rows.
    pub patch_tag: String,
    pub conflict: bool,
    pub renameable: bool,
}

/// What a [`TreeRow`] is.
pub struct RowView {
    pub key: NodeKey,
    pub kind: RowKind,
    pub depth: int,
    pub icon: Icon,
    pub label: Seq<char>,
    pub secondary: Seq<char>,
    pub has_children: bool,
    pub vis: VisState,
    pub patch_tag: Seq<char>,
    pub conflict: bool,
    pub renameable: bool,
}

impl View for TreeRow {
    type V = RowView;

    open spec fn view(&self) -> RowView {
        RowView {
            key: self.key,
            kind: self.kind,
            depth: self.depth as int,
            icon: self.icon,
            label: self.label@,
            secondary: self.secondary@,
            has_children: self.has_children,
            vis: self.vis,
            patch_tag: self.patch_tag@,
            conflict: self.conflict,
            renameable: self.renameable,
        }
    }
}

/// The views of a list of rows.
pub open spec fn rows_view(rows: Seq<TreeRow>) -> Seq<RowView> {
    Seq::new(rows.len(), |i: int| rows[i]@)
}

/// The set of nodes that are expanded.
#[derive(Debug)]
pub struct NodeSet {
    keys: Vec<NodeKey>,
}

impl View for NodeSet {
    type V = Set<NodeKey>;

    closed spec fn view(&self) -> Set<NodeKey> {
        self.keys@.to_set()
    }
}

impl NodeSet {
    /// Nothing is expanded.
    pub fn new() -> (r: Self)
        ensures
            r@ == Set::<NodeKey>::empty(),
    {
        let r = NodeSet { keys: Vec::new() };
        assert(r@ =~= Set::<NodeKey>::empty());
        r
    }

    /// Is the node expanded?
    pub fn contains(&self, key: NodeKey) -> (r: bool)
        ensures
            r == self@.contains(key),
    {
        let mut i: usize = 0;
        while i < self.keys.len()
            invariant
                i <= self.keys@.len(),
                forall|j: int| 0 <= j < i ==> #[trigger] self.keys@[j] != key,
            decreases self.keys@.len() - i,
        {
            if self.keys[i] == key {
                return true;
            }
            i = i + 1;
        }
        false
    }

    /// Expand the node.
    pub fn insert(&mut self, key: NodeKey)
        ensures
            final(self)@ == old(self)@.insert(key),
    {
        let ghost s = self.keys@;
        self.keys.push(key);
        assert forall|k: NodeKey| self@.contains(k) == old(self)@.insert(key).contains(k) by {
            if old(self)@.contains(k) {
                let i = choose|i: int| 0 <= i < s.len() && s[i] == k;
                assert(self.keys@[i] == k);
            }
            if k == key {
                assert(self.keys@[s.len() as int] == k);
            }
            if self@.contains(k) && k != key {
                let i = choose|i: int| 0 <= i < self.keys@.len() && self.keys@[i] == k;
                assert(s[i] == k);
            }
        }
        assert(self@ =~= old(self)@.insert(key));
    }

    /// Collapse the node.
    pub fn remove(&mut self, key: NodeKey)
        ensures
            final(self)@ == old(self)@.remove(key),
    {
        let mut out: Vec<NodeKey> = Vec::new();
        let mut i: usize = 0;
        let n: usize = self.keys.len();
        let ghost s = self.keys@;
        while i < n
            invariant
                i <= n == self.keys@.len(),
                s == self.keys@,
                *self == *old(self),
                forall|k: NodeKey| #[trigger]
                    out@.contains(k) <==> s.take(i as int).contains(k) && k != key,
            decreases n - i,
        {
            let ghost prev = out@;
            let k0 = self.keys[i];
            if k0 != key {
                out.push(k0);
            }
            assert forall|k: NodeKey| #[trigger] out@.contains(k) <==> s.take(i + 1).contains(k) && k
                != key by {
                assert(s.take(i + 1) =~= s.take(i as int).push(k0));
                lemma_push_key(s.take(i as int), k0, k);
                lemma_push_key(prev, k0, k);
                assert(prev.contains(k) <==> s.take(i as int).contains(k) && k != key);
            }
            i = i + 1;
        }
        assert(s.take(n as int) =~= s);
        self.keys = out;
        assert(self@ =~= old(self)@.remove(key));
    }
}

proof fn lemma_push_key(s: Seq<NodeKey>, x: NodeKey, y: NodeKey)
    ensures
        s.push(x).contains(y) == (s.contains(y) || x == y),
{
    if s.contains(y) {
        let k = choose|k: int| 0 <= k < s.len() && s[k] == y;
        assert(s.push(x)[k] == y);
    }
    if x == y {
        assert(s.push(x)[s.len() as int] == y);
    }
    if s.push(x).contains(y) && x != y {
        let k = choose|k: int| 0 <= k < s.push(x).len() && s.push(x)[k] == y;
        assert(s[k] == y);
    }
}

/// The set with the node's state flipped.
pub open spec fn flipped(expanded: Set<NodeKey>, key: NodeKey) -> Set<NodeKey> {
    if expanded.contains(key) { expanded.remove(key) } else { expanded.insert(key) }
}

/// Expand the node if it is collapsed, else collapse it.
pub fn toggle_expand(expanded: &mut NodeSet, key: NodeKey)
    ensures
        final(expanded)@ == flipped(old(expanded)@, key),
{
    if expanded.contains(key) {
        expanded.remove(key);
    } else {
        expanded.insert(key);
    }
}

/// Toggling a node twice leaves what was expanded, and toggling once leaves
/// every other node alone.
pub proof fn toggle_twice_is_nothing(expanded: Set<NodeKey>, key: NodeKey)
    ensures
        flipped(flipped(expanded, key), key) == expanded,
        forall|k: NodeKey| k != key ==> #[trigger] flipped(expanded, key).contains(k) == expanded.contains(k),
{
    assert(flipped(flipped(expanded, key), key) =~= expanded);
}

/// With every state chip off, every fixture passes.
pub proof fn no_chip_passes_all(filter: OutlinerFilter, patched: bool, selected: bool, conflict: bool)
    requires
        !filter.state.any(),
    ensures
        filter.passes(patched, selected, conflict),
{
}

/// The chips that are on in either of two sets.
pub open spec fn both_chips(a: StateChips, b: StateChips) -> StateChips {
    StateChips {
        unpatched: a.unpatched || b.unpatched,
        selected: a.selected || b.selected,
        conflicts: a.conflicts || b.conflicts,
    }
}

/// State chips compose as AND: a fixture passes two sets of chips together
/// exactly where it passes each of them.
pub proof fn chips_compose(
    kind: TypeChip,
    a: StateChips,
    b: StateChips,
    patched: bool,
    selected: bool,
    conflict: bool,
)
    ensures
        (OutlinerFilter { kind, state: both_chips(a, b) }).passes(patched, selected, conflict) <==> {
            &&& (OutlinerFilter { kind, state: a }).passes(patched, selected, conflict)
            &&& (OutlinerFilter { kind, state: b }).passes(patched, selected, conflict)
        },
{
}

/// A container shows as shown where nothing in it is hidden, as hidden where
/// something is in it and all of that is, and as mixed where it holds both.
pub proof fn container_shows_its_children(hidden: Seq<bool>)
    ensures
        folded(hidden) == VisState::Shown <==> forall|i: int|
            0 <= i < hidden.len() ==> !#[trigger] hidden[i],
        folded(hidden) == VisState::Hidden <==> hidden.len() > 0 && forall|i: int|
            0 <= i < hidden.len() ==> #[trigger] hidden[i],
        folded(hidden) == VisState::Mixed <==> (exists|i: int|
            0 <= i < hidden.len() && #[trigger] hidden[i]) && (exists|i: int|
            0 <= i < hidden.len() && !#[trigger] hidden[i]),
{
    if hidden.len() > 0 {
        assert(hidden.contains(hidden[0]));
    }
    assert forall|i: int| 0 <= i < hidden.len() implies hidden.contains(#[trigger] hidden[i]) by {}
}

/// Toggling changes whether the node itself is expanded.
pub proof fn toggling_changes_the_node(expanded: Set<NodeKey>, key: NodeKey)
    ensures
        flipped(expanded, key).contains(key) <==> !expanded.contains(key),
{
}

/// A type chip admits its own kind alone, and All admits every kind and the world.
pub proof fn chip_admits_its_kind(chip: TypeChip)
    ensures
        chip == TypeChip::All <==> chip.world(),
        chip.world() ==> chip.fixtures() && chip.objects() && chip.screens(),
        chip == TypeChip::Fixtures ==> chip.fixtures() && !chip.objects() && !chip.screens(),
        chip == TypeChip::Objects ==> chip.objects() && !chip.fixtures() && !chip.screens(),
        chip == TypeChip::Screens ==> chip.screens() && !chip.fixtures() && !chip.objects(),
{
}

/// Each state chip that is on admits the fixtures in its state alone.
pub proof fn chip_restricts_to_its_state(
    filter: OutlinerFilter,
    patched: bool,
    selected: bool,
    conflict: bool,
)
    ensures
        filter.state.unpatched && patched ==> !filter.passes(patched, selected, conflict),
        filter.state.selected && !selected ==> !filter.passes(patched, selected, conflict),
        filter.state.conflicts && !conflict ==> !filter.passes(patched, selected, conflict),
        !patched && selected && conflict ==> filter.passes(patched, selected, conflict),
{
}

} // verus!
