//! Keys, triggers and the shipped keymaps: which trigger is bound to which
//! command id in each context, and how a trigger reads in the cheat sheet.

use vstd::prelude::*;
use crate::shortcuts::registry::{
    command, command_table, every_command_is_found, registered, Action, Category, Command,
};
use crate::text::same_text;

verus! {

/// The canonical name of the key that a name stands for: what
/// `egui::Key::name` says of the key that `egui::Key::from_name` finds.
pub uninterp spec fn canonical_key(name: Seq<char>) -> Option<Seq<char>>;

/// `egui::Key::from_name`, with the key given back by `egui::Key::name`. The
/// result depends on the name alone (which names are known, and the canonical
/// name of each, is a table of egui's). A canonical name is found under itself.
#[verifier::external_body]
fn egui_key_name(name: &str) -> (r: Option<&'static str>)
    ensures
        r is Some <==> canonical_key(name@) is Some,
        r matches Some(n) ==> canonical_key(name@) == Some(n@),
        r matches Some(n) ==> canonical_key(n@) == Some(n@),
{
    egui::Key::from_name(name).map(|key| key.name())
}

/// A keyboard key, known by its canonical name (`"F"`, `"Left"`, `"Escape"`).
#[derive(Clone, Copy, Debug)]
pub struct Key {
    pub name: &'static str,
}

impl View for Key {
    type V = Seq<char>;

    open spec fn view(&self) -> Seq<char> {
        self.name@
    }
}

impl PartialEq for Key {
    fn eq(&self, other: &Self) -> (r: bool) {
        same_text(self.name, other.name)
    }
}

impl vstd::std_specs::cmp::PartialEqSpecImpl for Key {
    open spec fn obeys_eq_spec() -> bool {
        true
    }

    open spec fn eq_spec(&self, other: &Self) -> bool {
        self@ == other@
    }
}

impl Key {
    /// The key with the canonical name `name`.
    #[verifier::allow_in_spec]
    pub fn named(name: &'static str) -> Key
        returns
            (Key { name }),
    {
        Key { name }
    }

    /// The key that `name` stands for, if any: canonical names, symbols and
    /// the usual alternatives (`"ArrowLeft"`, `","`) are all understood.
    pub fn from_name(name: &str) -> (r: Option<Key>)
        ensures
            r is Some <==> canonical_key(name@) is Some,
            r matches Some(k) ==> canonical_key(name@) == Some(k@) && k.is_canonical(),
    {
        match egui_key_name(name) {
            Some(name) => Some(Key { name }),
            None => None,
        }
    }

    /// Is the name the one egui itself gives the key?
    pub open spec fn is_canonical(self) -> bool {
        canonical_key(self@) == Some(self@)
    }
}

/// The modifier keys held at an instant. `command` is Cmd on macOS and Ctrl
/// elsewhere.
#[derive(Clone, Copy, Debug, PartialEq, Eq, Structural)]
pub struct Modifiers {
    pub command: bool,
    pub shift: bool,
    pub alt: bool,
}

/// Tri-state modifier requirement: `Some(true)` must be held, `Some(false)`
/// must be released, `None` does not matter.
#[derive(Clone, Copy, Debug, PartialEq, Eq, Structural)]
pub struct Mods {
    pub command: Option<bool>,
    pub shift: Option<bool>,
    pub alt: Option<bool>,
}

/// Does a modifier in state `held` meet the requirement `want`?
pub open spec fn meets(want: Option<bool>, held: bool) -> bool {
    want is None || want == Some(held)
}

impl Mods {
    /// Every modifier released.
    #[verifier::allow_in_spec]
    pub fn none() -> Mods
        returns
            (Mods { command: Some(false), shift: Some(false), alt: Some(false) }),
    {
        Mods { command: Some(false), shift: Some(false), alt: Some(false) }
    }

    /// The same, with the command key held.
    #[verifier::allow_in_spec]
    pub fn cmd(self) -> Mods
        returns
            (Mods { command: Some(true), shift: self.shift, alt: self.alt }),
    {
        Mods { command: Some(true), shift: self.shift, alt: self.alt }
    }

    /// The same, with Shift held.
    #[verifier::allow_in_spec]
    pub fn shift(self) -> Mods
        returns
            (Mods { command: self.command, shift: Some(true), alt: self.alt }),
    {
        Mods { command: self.command, shift: Some(true), alt: self.alt }
    }

    /// Does the modifier state `m` satisfy the requirement?
    pub open spec fn accepts(self, m: Modifiers) -> bool {
        meets(self.command, m.command) && meets(self.shift, m.shift) && meets(self.alt, m.alt)
    }

    /// Does the modifier state `m` satisfy the requirement?
    pub fn matches(&self, m: &Modifiers) -> (r: bool)
        ensures
            r == self.accepts(*m),
    {
        (match self.command {
            None => true,
            Some(w) => m.command == w,
        }) && (match self.shift {
            None => true,
            Some(w) => m.shift == w,
        }) && (match self.alt {
            None => true,
            Some(w) => m.alt == w,
        })
    }
}

/// The kind of input event a trigger fires on.
#[derive(Clone, Copy, Debug, PartialEq, Eq, Structural)]
pub enum Event {
    Press,
    Release,
    Click,
    Drag,
}

/// A key with the modifier state it requires.
#[derive(Clone, Copy, Debug)]
pub struct Trigger {
    pub key: Key,
    pub mods: Mods,
    pub event: Event,
}

/// What a [`Trigger`] is: the key's name, the modifiers and the event.
pub struct TriggerView {
    pub key: Seq<char>,
    pub mods: Mods,
    pub event: Event,
}

impl View for Trigger {
    type V = TriggerView;

    open spec fn view(&self) -> TriggerView {
        TriggerView { key: self.key@, mods: self.mods, event: self.event }
    }
}

impl TriggerView {
    /// Do two triggers share key and modifiers?
    pub open spec fn same_chord(self, other: TriggerView) -> bool {
        self.key == other.key && self.mods == other.mods
    }
}

impl Trigger {
    /// A press of `key` with every modifier released.
    #[verifier::allow_in_spec]
    pub fn key(key: Key) -> Trigger
        returns
            (Trigger { key, mods: Mods::none(), event: Event::Press }),
    {
        Trigger { key, mods: Mods::none(), event: Event::Press }
    }

    /// The same, with Shift held.
    #[verifier::allow_in_spec]
    pub fn shift(self) -> Trigger
        returns
            (Trigger { key: self.key, mods: self.mods.shift(), event: self.event }),
    {
        Trigger { key: self.key, mods: self.mods.shift(), event: self.event }
    }

    /// The same, with the command key held.
    #[verifier::allow_in_spec]
    pub fn cmd(self) -> Trigger
        returns
            (Trigger { key: self.key, mods: self.mods.cmd(), event: self.event }),
    {
        Trigger { key: self.key, mods: self.mods.cmd(), event: self.event }
    }

    /// Do two triggers share key and modifiers?
    pub fn same_chord(&self, other: &Trigger) -> (r: bool)
        ensures
            r == self@.same_chord(other@),
    {
        self.key == other.key && self.mods == other.mods
    }
}

/// One keymap item: a trigger bound to a command id. Label, category and
/// action are those of the command.
#[derive(Clone, Copy, Debug)]
pub struct Kmi {
    pub trigger: Trigger,
    pub cmd: &'static str,
}

/// What a [`Kmi`] is: the trigger and the characters of the command id.
pub struct KmiView {
    pub trigger: TriggerView,
    pub cmd: Seq<char>,
}

impl View for Kmi {
    type V = KmiView;

    open spec fn view(&self) -> KmiView {
        KmiView { trigger: self.trigger@, cmd: self.cmd@ }
    }
}

/// The views of the rows of a keymap.
pub open spec fn row_views(rows: Seq<Kmi>) -> Seq<KmiView> {
    Seq::new(rows.len(), |i: int| rows[i]@)
}

impl KmiView {
    /// Is the bound id that of a registered command?
    pub open spec fn resolves(self) -> bool {
        registered(self.cmd) is Some
    }

    /// The action of the bound command.
    pub open spec fn action(self) -> Action {
        registered(self.cmd)->0.action
    }
}

impl Kmi {
    /// The command this item binds.
    fn command(&self) -> (r: Command)
        requires
            self@.resolves(),
        ensures
            Some(r) == registered(self.cmd@),
    {
        command(self.cmd).unwrap()
    }

    /// The action the keymap dispatches for this bind.
    pub fn action(&self) -> (r: Action)
        requires
            self@.resolves(),
        ensures
            r == self@.action(),
    {
        self.command().action
    }

    /// The cheat-sheet category.
    pub fn category(&self) -> (r: Category)
        requires
            self@.resolves(),
        ensures
            r == registered(self.cmd@)->0.category,
    {
        self.command().category
    }

    /// The cheat-sheet label.
    pub fn label(&self) -> (r: &'static str)
        requires
            self@.resolves(),
        ensures
            r == registered(self.cmd@)->0.label,
    {
        self.command().label
    }
}

/// The context a keymap belongs to, from general to specific.
#[derive(Clone, Copy, Debug, PartialEq, Eq, Structural)]
pub enum KeymapId {
    Global,
    Viewport,
    Modal,
}

/// A named, ordered set of items.
#[derive(Debug)]
pub struct KeyMap {
    pub id: KeymapId,
    pub items: Vec<Kmi>,
}

/// A keymap row: `trigger` bound to the command `cmd`.
#[verifier::allow_in_spec]
pub fn kmi(trigger: Trigger, cmd: &'static str) -> Kmi
    returns
        (Kmi { trigger, cmd }),
{
    Kmi { trigger, cmd }
}

/// The Global keymap.
#[verifier::opaque]
pub open spec fn global_rows() -> Seq<Kmi> {
    seq![
        kmi(Trigger::key(Key::named("F")), "view.frame_selection"),
        kmi(Trigger::key(Key::named("F")).shift(), "view.frame_all"),
        kmi(Trigger::key(Key::named("Period")), "view.frame_selection_alias"),
        kmi(Trigger::key(Key::named("Home")), "view.frame_all_alias"),
        kmi(Trigger::key(Key::named("L")), "view.toggle_labels"),
        kmi(Trigger::key(Key::named("A")), "select.all"),
        kmi(Trigger::key(Key::named("S")), "select.quick"),
        kmi(Trigger::key(Key::named("R")).shift(), "select.replace"),
        kmi(Trigger::key(Key::named("Escape")), "select.deselect"),
        kmi(Trigger::key(Key::named("Left")), "transform.nudge_x_neg"),
        kmi(Trigger::key(Key::named("Right")), "transform.nudge_x_pos"),
        kmi(Trigger::key(Key::named("Up")), "transform.nudge_z_neg"),
        kmi(Trigger::key(Key::named("Down")), "transform.nudge_z_pos"),
        kmi(Trigger::key(Key::named("PageUp")), "transform.nudge_y_up"),
        kmi(Trigger::key(Key::named("PageDown")), "transform.nudge_y_down"),
        kmi(Trigger::key(Key::named("Left")).shift(), "transform.nudge_x_neg_1m"),
        kmi(Trigger::key(Key::named("Right")).shift(), "transform.nudge_x_pos_1m"),
        kmi(Trigger::key(Key::named("Up")).shift(), "transform.nudge_z_neg_1m"),
        kmi(Trigger::key(Key::named("Down")).shift(), "transform.nudge_z_pos_1m"),
        kmi(Trigger::key(Key::named("PageUp")).shift(), "transform.nudge_y_up_1m"),
        kmi(Trigger::key(Key::named("PageDown")).shift(), "transform.nudge_y_down_1m"),
        kmi(Trigger::key(Key::named("Delete")), "kmi.delete"),
        kmi(Trigger::key(Key::named("Backspace")), "kmi.delete_alias"),
        kmi(Trigger::key(Key::named("P")), "kmi.patch"),
        kmi(Trigger::key(Key::named("U")), "kmi.unpatch"),
        kmi(Trigger::key(Key::named("Z")).cmd(), "edit.undo"),
        kmi(Trigger::key(Key::named("Z")).cmd().shift(), "edit.redo"),
        kmi(Trigger::key(Key::named("Y")).cmd(), "edit.redo_alias"),
        kmi(Trigger::key(Key::named("F3")), "edit.operator_search"),
        kmi(Trigger::key(Key::named("Space")), "edit.operator_search"),
        kmi(Trigger::key(Key::named("F9")), "edit.adjust_last"),
        kmi(Trigger::key(Key::named("S")).cmd(), "file.save"),
        kmi(Trigger::key(Key::named("S")).cmd().shift(), "file.save_as"),
        kmi(Trigger::key(Key::named("O")).cmd(), "file.open"),
        kmi(Trigger::key(Key::named("N")).cmd(), "file.new"),
        kmi(Trigger::key(Key::named("Comma")).cmd(), "app.preferences"),
    ]
}

/// The Viewport keymap: active while the 3D viewport is focused.
#[verifier::opaque]
pub open spec fn viewport_rows() -> Seq<Kmi> {
    seq![
        kmi(Trigger::key(Key::named("G")), "transform.move"),
        kmi(Trigger::key(Key::named("R")), "transform.rotate"),
        kmi(Trigger::key(Key::named("S")), "transform.scale"),
        kmi(Trigger::key(Key::named("A")).shift(), "kmi.add_menu"),
        kmi(Trigger::key(Key::named("D")), "kmi.duplicate"),
        kmi(Trigger::key(Key::named("D")).shift(), "kmi.duplicate_grab"),
        kmi(Trigger::key(Key::named("N")), "view.toggle_n_panel"),
        kmi(Trigger::key(Key::named("T")), "view.toggle_t_panel"),
        kmi(Trigger::key(Key::named("1")), "view.front"),
        kmi(Trigger::key(Key::named("1")).cmd(), "view.back"),
        kmi(Trigger::key(Key::named("3")), "view.right"),
        kmi(Trigger::key(Key::named("3")).cmd(), "view.left"),
        kmi(Trigger::key(Key::named("7")), "view.top"),
        kmi(Trigger::key(Key::named("7")).cmd(), "view.bottom"),
        kmi(Trigger::key(Key::named("5")), "view.toggle_ortho"),
        kmi(Trigger::key(Key::named("8")), "view.orbit_up"),
        kmi(Trigger::key(Key::named("2")), "view.orbit_down"),
        kmi(Trigger::key(Key::named("4")), "view.orbit_left"),
        kmi(Trigger::key(Key::named("6")), "view.orbit_right"),
        kmi(Trigger::key(Key::named("Backtick")), "view.pie"),
    ]
}

/// The Modal keymap: active while a transform owns the viewport.
#[verifier::opaque]
pub open spec fn modal_rows() -> Seq<Kmi> {
    seq![
        kmi(Trigger::key(Key::named("X")), "transform.axis_x"),
        kmi(Trigger::key(Key::named("Y")), "transform.axis_y"),
        kmi(Trigger::key(Key::named("Z")), "transform.axis_z"),
    ]
}

/// The shipped rows of a keymap.
pub open spec fn keymap_rows(id: KeymapId) -> Seq<Kmi> {
    match id {
        KeymapId::Global => global_rows(),
        KeymapId::Viewport => viewport_rows(),
        KeymapId::Modal => modal_rows(),
    }
}

fn global() -> (r: Vec<Kmi>)
    ensures
        r@ == global_rows(),
{
    reveal(global_rows);
    vec![
        kmi(Trigger::key(Key::named("F")), "view.frame_selection"),
        kmi(Trigger::key(Key::named("F")).shift(), "view.frame_all"),
        kmi(Trigger::key(Key::named("Period")), "view.frame_selection_alias"),
        kmi(Trigger::key(Key::named("Home")), "view.frame_all_alias"),
        kmi(Trigger::key(Key::named("L")), "view.toggle_labels"),
        kmi(Trigger::key(Key::named("A")), "select.all"),
        kmi(Trigger::key(Key::named("S")), "select.quick"),
        kmi(Trigger::key(Key::named("R")).shift(), "select.replace"),
        kmi(Trigger::key(Key::named("Escape")), "select.deselect"),
        kmi(Trigger::key(Key::named("Left")), "transform.nudge_x_neg"),
        kmi(Trigger::key(Key::named("Right")), "transform.nudge_x_pos"),
        kmi(Trigger::key(Key::named("Up")), "transform.nudge_z_neg"),
        kmi(Trigger::key(Key::named("Down")), "transform.nudge_z_pos"),
        kmi(Trigger::key(Key::named("PageUp")), "transform.nudge_y_up"),
        kmi(Trigger::key(Key::named("PageDown")), "transform.nudge_y_down"),
        kmi(Trigger::key(Key::named("Left")).shift(), "transform.nudge_x_neg_1m"),
        kmi(Trigger::key(Key::named("Right")).shift(), "transform.nudge_x_pos_1m"),
        kmi(Trigger::key(Key::named("Up")).shift(), "transform.nudge_z_neg_1m"),
        kmi(Trigger::key(Key::named("Down")).shift(), "transform.nudge_z_pos_1m"),
        kmi(Trigger::key(Key::named("PageUp")).shift(), "transform.nudge_y_up_1m"),
        kmi(Trigger::key(Key::named("PageDown")).shift(), "transform.nudge_y_down_1m"),
        kmi(Trigger::key(Key::named("Delete")), "kmi.delete"),
        kmi(Trigger::key(Key::named("Backspace")), "kmi.delete_alias"),
        kmi(Trigger::key(Key::named("P")), "kmi.patch"),
        kmi(Trigger::key(Key::named("U")), "kmi.unpatch"),
        kmi(Trigger::key(Key::named("Z")).cmd(), "edit.undo"),
        kmi(Trigger::key(Key::named("Z")).cmd().shift(), "edit.redo"),
        kmi(Trigger::key(Key::named("Y")).cmd(), "edit.redo_alias"),
        kmi(Trigger::key(Key::named("F3")), "edit.operator_search"),
        kmi(Trigger::key(Key::named("Space")), "edit.operator_search"),
        kmi(Trigger::key(Key::named("F9")), "edit.adjust_last"),
        kmi(Trigger::key(Key::named("S")).cmd(), "file.save"),
        kmi(Trigger::key(Key::named("S")).cmd().shift(), "file.save_as"),
        kmi(Trigger::key(Key::named("O")).cmd(), "file.open"),
        kmi(Trigger::key(Key::named("N")).cmd(), "file.new"),
        kmi(Trigger::key(Key::named("Comma")).cmd(), "app.preferences"),
    ]
}

fn viewport() -> (r: Vec<Kmi>)
    ensures
        r@ == viewport_rows(),
{
    reveal(viewport_rows);
    vec![
        kmi(Trigger::key(Key::named("G")), "transform.move"),
        kmi(Trigger::key(Key::named("R")), "transform.rotate"),
        kmi(Trigger::key(Key::named("S")), "transform.scale"),
        kmi(Trigger::key(Key::named("A")).shift(), "kmi.add_menu"),
        kmi(Trigger::key(Key::named("D")), "kmi.duplicate"),
        kmi(Trigger::key(Key::named("D")).shift(), "kmi.duplicate_grab"),
        kmi(Trigger::key(Key::named("N")), "view.toggle_n_panel"),
        kmi(Trigger::key(Key::named("T")), "view.toggle_t_panel"),
        kmi(Trigger::key(Key::named("1")), "view.front"),
        kmi(Trigger::key(Key::named("1")).cmd(), "view.back"),
        kmi(Trigger::key(Key::named("3")), "view.right"),
        kmi(Trigger::key(Key::named("3")).cmd(), "view.left"),
        kmi(Trigger::key(Key::named("7")), "view.top"),
        kmi(Trigger::key(Key::named("7")).cmd(), "view.bottom"),
        kmi(Trigger::key(Key::named("5")), "view.toggle_ortho"),
        kmi(Trigger::key(Key::named("8")), "view.orbit_up"),
        kmi(Trigger::key(Key::named("2")), "view.orbit_down"),
        kmi(Trigger::key(Key::named("4")), "view.orbit_left"),
        kmi(Trigger::key(Key::named("6")), "view.orbit_right"),
        kmi(Trigger::key(Key::named("Backtick")), "view.pie"),
    ]
}

fn modal() -> (r: Vec<Kmi>)
    ensures
        r@ == modal_rows(),
{
    reveal(modal_rows);
    vec![
        kmi(Trigger::key(Key::named("X")), "transform.axis_x"),
        kmi(Trigger::key(Key::named("Y")), "transform.axis_y"),
        kmi(Trigger::key(Key::named("Z")), "transform.axis_z"),
    ]
}

/// The shipped rows of the keymap `id`.
pub fn by_id(id: KeymapId) -> (r: Vec<Kmi>)
    ensures
        r@ == keymap_rows(id),
{
    match id {
        KeymapId::Global => global(),
        KeymapId::Viewport => viewport(),
        KeymapId::Modal => modal(),
    }
}

/// The keymaps in registry order.
pub open spec fn keymap_order() -> Seq<KeymapId> {
    seq![KeymapId::Global, KeymapId::Viewport, KeymapId::Modal]
}

/// Every keymap, in registry order.
pub fn keymaps() -> (r: Vec<KeyMap>)
    ensures
        r@.len() == keymap_order().len(),
        forall|i: int|
            0 <= i < r@.len() ==> (#[trigger] r@[i]).id == keymap_order()[i] && r@[i].items@ == keymap_rows(
                keymap_order()[i],
            ),
{
    vec![
        KeyMap { id: KeymapId::Global, items: global() },
        KeyMap { id: KeymapId::Viewport, items: viewport() },
        KeyMap { id: KeymapId::Modal, items: modal() },
    ]
}

/// Is some row of `rows` bound to the command `cmd`?
pub open spec fn binds(rows: Seq<Kmi>, cmd: Seq<char>) -> bool {
    exists|i: int| 0 <= i < rows.len() && (#[trigger] rows[i]).cmd@ == cmd
}

/// The position of the first row of `rows` bound to `cmd`.
pub fn find_bind(rows: &Vec<Kmi>, cmd: &str) -> (r: Option<usize>)
    ensures
        r is Some <==> binds(rows@, cmd@),
        r matches Some(i) ==> i < rows@.len() && rows@[i as int].cmd@ == cmd@ && forall|j: int|
            0 <= j < i ==> (#[trigger] rows@[j]).cmd@ != cmd@,
{
    let mut i: usize = 0;
    while i < rows.len()
        invariant
            i <= rows@.len(),
            forall|j: int| 0 <= j < i ==> (#[trigger] rows@[j]).cmd@ != cmd@,
        decreases rows@.len() - i,
    {
        if same_text(rows[i].cmd, cmd) {
            return Some(i);
        }
        i = i + 1;
    }
    None
}

/// The keymap of a command's first shipped bind, in registry order.
pub open spec fn home_keymap(cmd: Seq<char>) -> Option<KeymapId> {
    if binds(global_rows(), cmd) {
        Some(KeymapId::Global)
    } else if binds(viewport_rows(), cmd) {
        Some(KeymapId::Viewport)
    } else if binds(modal_rows(), cmd) {
        Some(KeymapId::Modal)
    } else {
        None
    }
}

/// The keymap of a command's first shipped bind, or `None` for a command that
/// only the palette or a menu reaches.
pub fn keymap_of(cmd_id: &str) -> (r: Option<KeymapId>)
    ensures
        r == home_keymap(cmd_id@),
{
    if find_bind(&global(), cmd_id).is_some() {
        Some(KeymapId::Global)
    } else if find_bind(&viewport(), cmd_id).is_some() {
        Some(KeymapId::Viewport)
    } else if find_bind(&modal(), cmd_id).is_some() {
        Some(KeymapId::Modal)
    } else {
        None
    }
}

/// Which glyphs the modifier keys have.
#[derive(Clone, Copy, Debug, PartialEq, Eq, Structural)]
pub enum Platform {
    Mac,
    Other,
}

/// The display name of the key with canonical name `name`.
pub open spec fn display_name(name: Seq<char>) -> Seq<char> {
    if name == "Left"@ {
        "←"@
    } else if name == "Right"@ {
        "→"@
    } else if name == "Up"@ {
        "↑"@
    } else if name == "Down"@ {
        "↓"@
    } else if name == "Period"@ {
        "."@
    } else if name == "Comma"@ {
        ","@
    } else if name == "Escape"@ {
        "Esc"@
    } else if name == "Delete"@ {
        "Del"@
    } else if name == "0"@ {
        "Numpad 0"@
    } else if name == "1"@ {
        "Numpad 1"@
    } else if name == "3"@ {
        "Numpad 3"@
    } else if name == "5"@ {
        "Numpad 5"@
    } else if name == "7"@ {
        "Numpad 7"@
    } else {
        name
    }
}

/// The display name of a key.
pub fn key_name(key: Key) -> (r: String)
    ensures
        r@ == display_name(key@),
{
    let name = key.name;
    let shown: &str = if same_text(name, "Left") {
        "←"
    } else if same_text(name, "Right") {
        "→"
    } else if same_text(name, "Up") {
        "↑"
    } else if same_text(name, "Down") {
        "↓"
    } else if same_text(name, "Period") {
        "."
    } else if same_text(name, "Comma") {
        ","
    } else if same_text(name, "Escape") {
        "Esc"
    } else if same_text(name, "Delete") {
        "Del"
    } else if same_text(name, "0") {
        "Numpad 0"
    } else if same_text(name, "1") {
        "Numpad 1"
    } else if same_text(name, "3") {
        "Numpad 3"
    } else if same_text(name, "5") {
        "Numpad 5"
    } else if same_text(name, "7") {
        "Numpad 7"
    } else {
        name
    };
    shown.to_owned()
}

/// `part` where the modifier is required held, else nothing.
pub open spec fn modifier_part(want: Option<bool>, part: Seq<char>) -> Seq<char> {
    if want == Some(true) { part } else { Seq::empty() }
}

/// How a trigger reads: the modifiers it requires held, then the key, with plus
/// signs between them. On a Mac the command glyph stands directly before what
/// follows.
pub open spec fn label_of(t: TriggerView, platform: Platform) -> Seq<char> {
    modifier_part(t.mods.command, if platform == Platform::Mac { "⌘"@ } else { "Ctrl+"@ })
        + modifier_part(t.mods.alt, if platform == Platform::Mac { "⌥+"@ } else { "Alt+"@ })
        + modifier_part(t.mods.shift, "Shift+"@) + display_name(t.key)
}

/// A human-readable label for a trigger.
pub fn key_label(t: &Trigger, platform: Platform) -> (r: String)
    ensures
        r@ == label_of(t@, platform),
{
    let mut out = String::new();
    if t.mods.command == Some(true) {
        out.push_str(
            match platform {
                Platform::Mac => "⌘",
                Platform::Other => "Ctrl+",
            },
        );
    }
    assert(out@ =~= modifier_part(
        t.mods.command,
        if platform == Platform::Mac { "⌘"@ } else { "Ctrl+"@ },
    ));
    if t.mods.alt == Some(true) {
        out.push_str(
            match platform {
                Platform::Mac => "⌥+",
                Platform::Other => "Alt+",
            },
        );
    }
    if t.mods.shift == Some(true) {
        out.push_str("Shift+");
    }
    let key = key_name(t.key);
    out.push_str(key.as_str());
    assert(out@ =~= label_of(t@, platform));
    out
}

spec fn plain(mods: Mods) -> bool {
    mods == Mods::none()
}

spec fn command_only(mods: Mods) -> bool {
    mods == Mods::none().cmd()
}

spec fn shift_only(mods: Mods) -> bool {
    mods == Mods::none().shift()
}

spec fn command_shift(mods: Mods) -> bool {
    mods == Mods::none().cmd().shift()
}

/// The position of the Global row with the chord, or -1.
spec fn global_index(key: Seq<char>, mods: Mods) -> int {
    if key.len() == 1 {
        if key[0] == 'A' {
            if plain(mods) {
                5
            } else {
                -1
            }
        } else if key[0] == 'F' {
            if plain(mods) {
                0
            } else if shift_only(mods) {
                1
            } else {
                -1
            }
        } else if key[0] == 'L' {
            if plain(mods) {
                4
            } else {
                -1
            }
        } else if key[0] == 'N' {
            if command_only(mods) {
                34
            } else {
                -1
            }
        } else if key[0] == 'O' {
            if command_only(mods) {
                33
            } else {
                -1
            }
        } else if key[0] == 'P' {
            if plain(mods) {
                23
            } else {
                -1
            }
        } else if key[0] == 'R' {
            if shift_only(mods) {
                7
            } else {
                -1
            }
        } else if key[0] == 'S' {
            if plain(mods) {
                6
            } else if command_only(mods) {
                31
            } else if command_shift(mods) {
                32
            } else {
                -1
            }
        } else if key[0] == 'U' {
            if plain(mods) {
                24
            } else {
                -1
            }
        } else if key[0] == 'Y' {
            if command_only(mods) {
                27
            } else {
                -1
            }
        } else if key[0] == 'Z' {
            if command_only(mods) {
                25
            } else if command_shift(mods) {
                26
            } else {
                -1
            }
        } else {
            -1
        }
    } else if key.len() == 2 {
        if key[1] == '3' {
            if plain(mods) {
                28
            } else {
                -1
            }
        } else if key[1] == '9' {
            if plain(mods) {
                30
            } else {
                -1
            }
        } else if key[1] == 'p' {
            if plain(mods) {
                11
            } else if shift_only(mods) {
                17
            } else {
                -1
            }
        } else {
            -1
        }
    } else if key.len() == 4 {
        if key[0] == 'D' {
            if plain(mods) {
                12
            } else if shift_only(mods) {
                18
            } else {
                -1
            }
        } else if key[0] == 'H' {
            if plain(mods) {
                3
            } else {
                -1
            }
        } else if key[0] == 'L' {
            if plain(mods) {
                9
            } else if shift_only(mods) {
                15
            } else {
                -1
            }
        } else {
            -1
        }
    } else if key.len() == 5 {
        if key[0] == 'C' {
            if command_only(mods) {
                35
            } else {
                -1
            }
        } else if key[0] == 'R' {
            if plain(mods) {
                10
            } else if shift_only(mods) {
                16
            } else {
                -1
            }
        } else if key[0] == 'S' {
            if plain(mods) {
                29
            } else {
                -1
            }
        } else {
            -1
        }
    } else if key.len() == 6 {
        if key[2] == 'c' {
            if plain(mods) {
                8
            } else {
                -1
            }
        } else if key[2] == 'g' {
            if plain(mods) {
                13
            } else if shift_only(mods) {
                19
            } else {
                -1
            }
        } else if key[2] == 'l' {
            if plain(mods) {
                21
            } else {
                -1
            }
        } else if key[2] == 'r' {
            if plain(mods) {
                2
            } else {
                -1
            }
        } else {
            -1
        }
    } else if key.len() == 8 {
        if plain(mods) {
            14
        } else if shift_only(mods) {
            20
        } else {
            -1
        }
    } else if key.len() == 9 {
        if plain(mods) {
            22
        } else {
            -1
        }
    } else {
        -1
    }
}

/// The position of the Viewport row with the chord, or -1.
spec fn viewport_index(key: Seq<char>, mods: Mods) -> int {
    if key.len() == 1 {
        if key[0] == '1' {
            if plain(mods) {
                8
            } else if command_only(mods) {
                9
            } else {
                -1
            }
        } else if key[0] == '2' {
            if plain(mods) {
                16
            } else {
                -1
            }
        } else if key[0] == '3' {
            if plain(mods) {
                10
            } else if command_only(mods) {
                11
            } else {
                -1
            }
        } else if key[0] == '4' {
            if plain(mods) {
                17
            } else {
                -1
            }
        } else if key[0] == '5' {
            if plain(mods) {
                14
            } else {
                -1
            }
        } else if key[0] == '6' {
            if plain(mods) {
                18
            } else {
                -1
            }
        } else if key[0] == '7' {
            if plain(mods) {
                12
            } else if command_only(mods) {
                13
            } else {
                -1
            }
        } else if key[0] == '8' {
            if plain(mods) {
                15
            } else {
                -1
            }
        } else if key[0] == 'A' {
            if shift_only(mods) {
                3
            } else {
                -1
            }
        } else if key[0] == 'D' {
            if plain(mods) {
                4
            } else if shift_only(mods) {
                5
            } else {
                -1
            }
        } else if key[0] == 'G' {
            if plain(mods) {
                0
            } else {
                -1
            }
        } else if key[0] == 'N' {
            if plain(mods) {
                6
            } else {
                -1
            }
        } else if key[0] == 'R' {
            if plain(mods) {
                1
            } else {
                -1
            }
        } else if key[0] == 'S' {
            if plain(mods) {
                2
            } else {
                -1
            }
        } else if key[0] == 'T' {
            if plain(mods) {
                7
            } else {
                -1
            }
        } else {
            -1
        }
    } else if key.len() == 8 {
        if plain(mods) {
            19
        } else {
            -1
        }
    } else {
        -1
    }
}

/// The position of the Modal row with the chord, or -1.
spec fn modal_index(key: Seq<char>, mods: Mods) -> int {
    if key[0] == 'X' {
        if plain(mods) {
            0
        } else {
            -1
        }
    } else if key[0] == 'Y' {
        if plain(mods) {
            1
        } else {
            -1
        }
    } else if key[0] == 'Z' {
        if plain(mods) {
            2
        } else {
            -1
        }
    } else {
        -1
    }
}

#[verifier::rlimit(60)]
proof fn lemma_global_index()
    ensures
        forall|i: int| 0 <= i < global_rows().len() ==> global_index(
            (#[trigger] global_rows()[i]).trigger.key@,
            global_rows()[i].trigger.mods,
        ) == i,
{
    reveal(global_rows);
    reveal_strlit("A");
    reveal_strlit("Backspace");
    reveal_strlit("Comma");
    reveal_strlit("Delete");
    reveal_strlit("Down");
    reveal_strlit("Escape");
    reveal_strlit("F");
    reveal_strlit("F3");
    reveal_strlit("F9");
    reveal_strlit("Home");
    reveal_strlit("L");
    reveal_strlit("Left");
    reveal_strlit("N");
    reveal_strlit("O");
    reveal_strlit("P");
    reveal_strlit("PageDown");
    reveal_strlit("PageUp");
    reveal_strlit("Period");
    reveal_strlit("R");
    reveal_strlit("Right");
    reveal_strlit("S");
    reveal_strlit("Space");
    reveal_strlit("U");
    reveal_strlit("Up");
    reveal_strlit("Y");
    reveal_strlit("Z");
}

#[verifier::rlimit(60)]
proof fn lemma_viewport_index()
    ensures
        forall|i: int| 0 <= i < viewport_rows().len() ==> viewport_index(
            (#[trigger] viewport_rows()[i]).trigger.key@,
            viewport_rows()[i].trigger.mods,
        ) == i,
{
    reveal(viewport_rows);
    reveal_strlit("1");
    reveal_strlit("2");
    reveal_strlit("3");
    reveal_strlit("4");
    reveal_strlit("5");
    reveal_strlit("6");
    reveal_strlit("7");
    reveal_strlit("8");
    reveal_strlit("A");
    reveal_strlit("Backtick");
    reveal_strlit("D");
    reveal_strlit("G");
    reveal_strlit("N");
    reveal_strlit("R");
    reveal_strlit("S");
    reveal_strlit("T");
}

proof fn lemma_modal_index()
    ensures
        forall|i: int| 0 <= i < modal_rows().len() ==> modal_index(
            (#[trigger] modal_rows()[i]).trigger.key@,
            modal_rows()[i].trigger.mods,
        ) == i,
{
    reveal(modal_rows);
    reveal_strlit("X");
    reveal_strlit("Y");
    reveal_strlit("Z");
}

/// Within one keymap no two rows share key and modifiers, so that one key
/// press never dispatches two commands of it.
pub proof fn shipped_triggers_are_unique(id: KeymapId, i: int, j: int)
    requires
        0 <= i < keymap_rows(id).len(),
        0 <= j < keymap_rows(id).len(),
        keymap_rows(id)[i].trigger@.same_chord(keymap_rows(id)[j].trigger@),
    ensures
        i == j,
{
    lemma_global_index();
    lemma_viewport_index();
    lemma_modal_index();
}

/// Every shipped bind is that of a registered command.
pub proof fn every_shipped_bind_resolves(id: KeymapId, i: int)
    requires
        0 <= i < keymap_rows(id).len(),
    ensures
        keymap_rows(id)[i]@.resolves(),
{
    match id {
        KeymapId::Global => lemma_global_resolves(),
        KeymapId::Viewport => lemma_viewport_resolves(),
        KeymapId::Modal => lemma_modal_resolves(),
    }
}

proof fn lemma_global_resolves()
    ensures
        forall|i: int| 0 <= i < global_rows().len() ==> (#[trigger] global_rows()[i])@.resolves(),
{
    reveal(global_rows);
    reveal(command_table);
    every_command_is_found(0);
    assert(registered("view.frame_selection"@) is Some);
    every_command_is_found(1);
    assert(registered("view.frame_all"@) is Some);
    every_command_is_found(73);
    assert(registered("view.frame_selection_alias"@) is Some);
    every_command_is_found(74);
    assert(registered("view.frame_all_alias"@) is Some);
    every_command_is_found(2);
    assert(registered("view.toggle_labels"@) is Some);
    every_command_is_found(32);
    assert(registered("select.all"@) is Some);
    every_command_is_found(33);
    assert(registered("select.quick"@) is Some);
    every_command_is_found(34);
    assert(registered("select.replace"@) is Some);
    every_command_is_found(35);
    assert(registered("select.deselect"@) is Some);
    every_command_is_found(36);
    assert(registered("transform.nudge_x_neg"@) is Some);
    every_command_is_found(37);
    assert(registered("transform.nudge_x_pos"@) is Some);
    every_command_is_found(38);
    assert(registered("transform.nudge_z_neg"@) is Some);
    every_command_is_found(39);
    assert(registered("transform.nudge_z_pos"@) is Some);
    every_command_is_found(40);
    assert(registered("transform.nudge_y_up"@) is Some);
    every_command_is_found(41);
    assert(registered("transform.nudge_y_down"@) is Some);
    every_command_is_found(42);
    assert(registered("transform.nudge_x_neg_1m"@) is Some);
    every_command_is_found(43);
    assert(registered("transform.nudge_x_pos_1m"@) is Some);
    every_command_is_found(44);
    assert(registered("transform.nudge_z_neg_1m"@) is Some);
    every_command_is_found(45);
    assert(registered("transform.nudge_z_pos_1m"@) is Some);
    every_command_is_found(46);
    assert(registered("transform.nudge_y_up_1m"@) is Some);
    every_command_is_found(47);
    assert(registered("transform.nudge_y_down_1m"@) is Some);
    every_command_is_found(66);
    assert(registered("kmi.delete"@) is Some);
    every_command_is_found(67);
    assert(registered("kmi.delete_alias"@) is Some);
    every_command_is_found(62);
    assert(registered("kmi.patch"@) is Some);
    every_command_is_found(63);
    assert(registered("kmi.unpatch"@) is Some);
    every_command_is_found(68);
    assert(registered("edit.undo"@) is Some);
    every_command_is_found(69);
    assert(registered("edit.redo"@) is Some);
    every_command_is_found(70);
    assert(registered("edit.redo_alias"@) is Some);
    every_command_is_found(71);
    assert(registered("edit.operator_search"@) is Some);
    every_command_is_found(72);
    assert(registered("edit.adjust_last"@) is Some);
    every_command_is_found(75);
    assert(registered("file.save"@) is Some);
    every_command_is_found(76);
    assert(registered("file.save_as"@) is Some);
    every_command_is_found(77);
    assert(registered("file.open"@) is Some);
    every_command_is_found(78);
    assert(registered("file.new"@) is Some);
    every_command_is_found(79);
    assert(registered("app.preferences"@) is Some);
}

proof fn lemma_viewport_resolves()
    ensures
        forall|i: int| 0 <= i < viewport_rows().len() ==> (#[trigger] viewport_rows()[i])@.resolves(),
{
    reveal(viewport_rows);
    reveal(command_table);
    every_command_is_found(48);
    assert(registered("transform.move"@) is Some);
    every_command_is_found(49);
    assert(registered("transform.rotate"@) is Some);
    every_command_is_found(50);
    assert(registered("transform.scale"@) is Some);
    every_command_is_found(54);
    assert(registered("kmi.add_menu"@) is Some);
    every_command_is_found(64);
    assert(registered("kmi.duplicate"@) is Some);
    every_command_is_found(65);
    assert(registered("kmi.duplicate_grab"@) is Some);
    every_command_is_found(30);
    assert(registered("view.toggle_n_panel"@) is Some);
    every_command_is_found(31);
    assert(registered("view.toggle_t_panel"@) is Some);
    every_command_is_found(7);
    assert(registered("view.front"@) is Some);
    every_command_is_found(8);
    assert(registered("view.back"@) is Some);
    every_command_is_found(9);
    assert(registered("view.right"@) is Some);
    every_command_is_found(10);
    assert(registered("view.left"@) is Some);
    every_command_is_found(11);
    assert(registered("view.top"@) is Some);
    every_command_is_found(12);
    assert(registered("view.bottom"@) is Some);
    every_command_is_found(13);
    assert(registered("view.toggle_ortho"@) is Some);
    every_command_is_found(15);
    assert(registered("view.orbit_up"@) is Some);
    every_command_is_found(16);
    assert(registered("view.orbit_down"@) is Some);
    every_command_is_found(17);
    assert(registered("view.orbit_left"@) is Some);
    every_command_is_found(18);
    assert(registered("view.orbit_right"@) is Some);
    every_command_is_found(19);
    assert(registered("view.pie"@) is Some);
}

proof fn lemma_modal_resolves()
    ensures
        forall|i: int| 0 <= i < modal_rows().len() ==> (#[trigger] modal_rows()[i])@.resolves(),
{
    reveal(modal_rows);
    reveal(command_table);
    every_command_is_found(51);
    assert(registered("transform.axis_x"@) is Some);
    every_command_is_found(52);
    assert(registered("transform.axis_y"@) is Some);
    every_command_is_found(53);
    assert(registered("transform.axis_z"@) is Some);
}

} // verus!
