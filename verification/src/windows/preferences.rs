//! The preferences and the keymap editor.

use vstd::prelude::*;
use crate::selection::filter_keeps;
use crate::shortcuts::dispatch::{capture_trigger, captured, InputState, InputView};
use crate::shortcuts::effective::{effective_rows, kept_rows, shortcut_for, shown_trigger};
use crate::shortcuts::keymaps::{
    canonical_key, home_keymap, keymap_of, keymap_rows, label_of, row_views, Key, KeymapId, KmiView,
    Platform, Trigger, TriggerView,
};
use crate::shortcuts::laws::{
    added_bind_has_its_row, captured_chord_fires, disabled_command_is_silent,
    nothing_is_captured_without_a_press, other_added_binds_stay, rebound_command_moves,
    reset_leaves_nothing, untouched_command_keeps_its_binds,
};
use crate::shortcuts::overrides::{
    added_without, adds, trigger_round_trip, AddedBind, AddedView, IdSet, KeymapOverrides,
    OverridesView, SerKeymapId, SerTrigger,
};
use crate::shortcuts::registry::{command_table, commands, registered, Category, Command};
use crate::text::{contains_text, lowercase, occurs_in, same_text};

verus! {

/// What a fixture label shows.
#[derive(Clone, Copy, Debug, PartialEq, Eq, Structural)]
pub enum LabelMode {
    Name,
    FixtureId,
    Address,
}

impl LabelMode {
    /// The menu order.
    pub const ALL: [LabelMode; 3] = [LabelMode::Name, LabelMode::FixtureId, LabelMode::Address];

    /// The menu label.
    pub fn label(self) -> (r: &'static str)
        ensures
            r@ == (match self {
                LabelMode::Name => "Name"@,
                LabelMode::FixtureId => "Fixture ID"@,
                LabelMode::Address => "DMX address"@,
            }),
    {
        match self {
            LabelMode::Name => "Name",
            LabelMode::FixtureId => "Fixture ID",
            LabelMode::Address => "DMX address",
        }
    }
}

/// The switches among the preferences.
#[derive(Clone, Copy, Debug, PartialEq, Eq, Structural)]
pub struct Preferences {
    /// Show lengths in feet rather than metres.
    pub units_feet: bool,
    pub theme_light: bool,
    pub show_labels: bool,
    pub labels_selected_only: bool,
    pub label_mode: LabelMode,
    pub show_fps: bool,
    pub show_stats: bool,
    pub show_gizmos: bool,
    pub show_hint: bool,
}

/// The default of a switch that a stored file may lack.
#[verifier::allow_in_spec]
pub fn default_true() -> bool
    returns
        true,
{
    true
}

/// The preferences at the start.
pub open spec fn default_preferences() -> Preferences {
    Preferences {
        units_feet: false,
        theme_light: false,
        show_labels: true,
        labels_selected_only: false,
        label_mode: LabelMode::Name,
        show_fps: true,
        show_stats: false,
        show_gizmos: true,
        show_hint: true,
    }
}

impl Default for Preferences {
    fn default() -> (r: Self)
        ensures
            r == default_preferences(),
    {
        Preferences {
            units_feet: false,
            theme_light: false,
            show_labels: true,
            labels_selected_only: false,
            label_mode: LabelMode::Name,
            show_fps: true,
            show_stats: false,
            show_gizmos: default_true(),
            show_hint: default_true(),
        }
    }
}

impl Preferences {
    /// The suffix of a length.
    pub fn unit_suffix(&self) -> (r: &'static str)
        ensures
            r@ == (if self.units_feet { " ft"@ } else { " m"@ }),
    {
        if self.units_feet {
            " ft"
        } else {
            " m"
        }
    }
}

/// The keymap editor: the command that waits for its new chord, and the filter.
#[derive(Debug)]
pub struct KeymapEditorState {
    pub capturing: Option<String>,
    pub search: String,
}

impl Default for KeymapEditorState {
    fn default() -> (r: Self)
        ensures
            r.capturing is None,
            r.search@.len() == 0,
    {
        KeymapEditorState { capturing: None, search: String::new() }
    }
}

/// What the editor's capture is.
pub open spec fn capture_of(c: Option<String>) -> Option<Seq<char>> {
    match c {
        Some(id) => Some(id@),
        None => None,
    }
}

/// The overrides after the chord `t` was captured for the command `id`. A
/// command with a shipped bind is rebound, which also lifts its disabling; any
/// other gets a bind in the Global keymap in place of its earlier added ones.
pub open spec fn chord_bound(ov: OverridesView, id: Seq<char>, t: TriggerView) -> OverridesView {
    if home_keymap(id) is Some {
        OverridesView {
            disabled: ov.disabled.remove(id),
            rebind: ov.rebind.insert(id, t.stored()),
            ..ov
        }
    } else {
        OverridesView {
            added: added_without(ov.added, id).push(
                AddedView { keymap: KeymapId::Global, trigger: t.stored(), cmd: id },
            ),
            ..ov
        }
    }
}

/// Bind the chord to the command, as the keymap editor does.
pub fn bind_chord(ov: &mut KeymapOverrides, id: &str, t: &Trigger)
    requires
        old(ov).wf(),
    ensures
        final(ov).wf(),
        final(ov)@ == chord_bound(old(ov)@, id@, t@),
{
    if keymap_of(id).is_some() {
        ov.disabled.remove(id);
        ov.rebind(id, t);
    } else {
        ov.drop_added(id);
        let ghost before = ov@.added;
        let bind = AddedBind {
            keymap: SerKeymapId::from_id(KeymapId::Global),
            trigger: SerTrigger::from_trigger(t),
            cmd: id.to_owned(),
        };
        let ghost view = bind@;
        ov.added.push(bind);
        assert(ov@.added =~= before.push(view));
    }
    assert(ov@ =~= chord_bound(old(ov)@, id@, t@));
}

/// The overrides and the capture after a frame of the editor: Escape gives the
/// capture up, a chord ends it, and without either it waits.
pub open spec fn after_capture(
    capture: Option<Seq<char>>,
    ov: OverridesView,
    input: InputView,
) -> (Option<Seq<char>>, OverridesView) {
    match capture {
        Some(id) => match captured(input) {
            Some(t) => (None, chord_bound(ov, id, t)),
            None => if input.moved("Escape"@, true) { (None, ov) } else { (capture, ov) },
        },
        None => (None, ov),
    }
}

/// The overrides after the disable button of the command `id`: where it is in
/// effect already it is lifted, else the rebind goes and the shipped bind is
/// suppressed.
pub open spec fn disable_toggled(ov: OverridesView, id: Seq<char>) -> OverridesView {
    if ov.disabled.contains(id) && !ov.rebind.contains_key(id) {
        OverridesView { disabled: ov.disabled.remove(id), ..ov }
    } else {
        OverridesView { rebind: ov.rebind.remove(id), disabled: ov.disabled.insert(id), ..ov }
    }
}

impl KeymapEditorState {
    /// A frame of the capture. The result says whether the overrides changed.
    pub fn capture_step(&mut self, ov: &mut KeymapOverrides, input: &InputState) -> (changed: bool)
        requires
            old(ov).wf(),
        ensures
            final(ov).wf(),
            (capture_of(final(self).capturing), final(ov)@) == after_capture(
                capture_of(old(self).capturing),
                old(ov)@,
                input@,
            ),
            final(self).search == old(self).search,
            changed == (old(self).capturing is Some && captured(input@) is Some),
    {
        match &self.capturing {
            Some(id) => {
                if input.key_pressed(Key::named("Escape")) {
                    self.capturing = None;
                    return false;
                }
                if let Some(t) = capture_trigger(input) {
                    bind_chord(ov, id.as_str(), &t);
                    self.capturing = None;
                    return true;
                }
                false
            },
            None => false,
        }
    }

    /// Does the row of `id` wait for its chord?
    pub fn captures(&self, id: &str) -> (r: bool)
        ensures
            r == (capture_of(self.capturing) == Some(id@)),
    {
        match &self.capturing {
            Some(c) => same_text(c.as_str(), id),
            None => false,
        }
    }

    /// A click on the shortcut of `id`: it starts to wait for a chord, or stops.
    pub fn click_chip(&mut self, id: &str)
        ensures
            capture_of(final(self).capturing) == chip_clicked(capture_of(old(self).capturing), id@),
            capture_of(final(self).capturing) == (if capture_of(old(self).capturing) == Some(id@) {
                None
            } else {
                Some(id@)
            }),
            final(self).search == old(self).search,
    {
        if self.captures(id) {
            self.capturing = None;
        } else {
            self.capturing = Some(id.to_owned());
        }
    }

    /// Stop waiting for the chord of `id`.
    fn release(&mut self, id: &str)
        ensures
            capture_of(final(self).capturing) == (if capture_of(old(self).capturing) == Some(id@) {
                None
            } else {
                capture_of(old(self).capturing)
            }),
            final(self).search == old(self).search,
    {
        if self.captures(id) {
            self.capturing = None;
        }
    }

    /// Reset the command `id` to its shipped binds.
    pub fn reset_row(&mut self, ov: &mut KeymapOverrides, id: &str)
        requires
            old(ov).wf(),
        ensures
            final(ov).wf(),
            final(ov)@ == row_reset(old(ov)@, id@),
            final(ov)@ == (OverridesView {
                rebind: old(ov)@.rebind.remove(id@),
                disabled: old(ov)@.disabled.remove(id@),
                added: added_without(old(ov)@.added, id@),
            }),
            capture_of(final(self).capturing) == (if capture_of(old(self).capturing) == Some(id@) {
                None
            } else {
                capture_of(old(self).capturing)
            }),
            final(self).search == old(self).search,
    {
        ov.reset(id);
        self.release(id);
    }

    /// The disable button of the command `id`. Without a shipped bind there is
    /// nothing to disable.
    pub fn toggle_disabled(&mut self, ov: &mut KeymapOverrides, id: &str)
        requires
            old(ov).wf(),
        ensures
            final(ov).wf(),
            final(ov)@ == (if home_keymap(id@) is Some {
                disable_toggled(old(ov)@, id@)
            } else {
                old(ov)@
            }),
            capture_of(final(self).capturing) == (if home_keymap(id@) is Some && capture_of(
                old(self).capturing,
            ) == Some(id@) {
                None
            } else {
                capture_of(old(self).capturing)
            }),
            final(self).search == old(self).search,
    {
        if keymap_of(id).is_none() {
            return;
        }
        if ov.disabled.contains(id) && !ov.rebind.contains_key(id) {
            ov.set_disabled(id, false);
        } else {
            ov.rebind.remove(id);
            ov.set_disabled(id, true);
        }
        self.release(id);
    }

    /// Reset every command.
    pub fn reset_all(&mut self, ov: &mut KeymapOverrides)
        ensures
            final(ov).wf(),
            final(ov)@.is_empty(),
            final(self).capturing is None,
            final(self).search == old(self).search,
    {
        ov.reset_all();
        self.capturing = None;
    }
}

/// Does the filter leave the command in: does its label, id or heading hold the
/// text, whatever the case?
pub open spec fn command_listed(c: Command, search: Seq<char>) -> bool {
    let needle = lowercase(search);
    ||| needle.len() == 0
    ||| occurs_in(lowercase(c.label@), needle)
    ||| occurs_in(lowercase(c.id@), needle)
    ||| occurs_in(lowercase(c.category.heading()), needle)
}

/// The editor's rows of one category, in registry order.
pub open spec fn listed_commands(category: Category, search: Seq<char>) -> Seq<Command> {
    command_table().filter(|c: Command| c.category == category && command_listed(c, search))
}

/// The editor's rows of one category.
pub fn editor_rows(category: Category, search: &str) -> (r: Vec<Command>)
    ensures
        r@ == listed_commands(category, search@),
{
    let rows = commands();
    let needle = search.to_lowercase();
    let mut out: Vec<Command> = Vec::new();
    let ghost p = |c: Command| c.category == category && command_listed(c, search@);
    let mut i: usize = 0;
    proof {
        reveal(Seq::filter);
    }
    while i < rows.len()
        invariant
            i <= rows@.len(),
            rows@ == command_table(),
            needle@ == lowercase(search@),
            p == (|c: Command| c.category == category && command_listed(c, search@)),
            out@ == rows@.take(i as int).filter(p),
        decreases rows@.len() - i,
    {
        reveal(Seq::filter);
        assert(rows@.take(i + 1).drop_last() =~= rows@.take(i as int));
        let c = rows[i];
        if c.category == category {
            let label = c.label.to_lowercase();
            let id = c.id.to_lowercase();
            let title = c.category.title().to_lowercase();
            let listed = needle.as_str().unicode_len() == 0 || contains_text(
                label.as_str(),
                needle.as_str(),
            ) || contains_text(id.as_str(), needle.as_str()) || contains_text(
                title.as_str(),
                needle.as_str(),
            );
            if listed {
                out.push(c);
            }
        }
        i = i + 1;
    }
    assert(rows@.take(i as int) =~= rows@);
    out
}

/// How a row of the editor looks.
#[derive(Debug)]
pub struct EditorRow {
    /// The shipped bind is suppressed and not rebound.
    pub disabled: bool,
    pub capturing: bool,
    pub in_conflict: bool,
    /// Some override touches the command.
    pub overridden: bool,
    /// The text of the shortcut.
    pub chip: String,
    pub can_disable: bool,
}

/// How the row of the command `id` looks.
pub fn editor_row(
    id: &str,
    state: &KeymapEditorState,
    ov: &KeymapOverrides,
    conflicting: &IdSet,
    platform: Platform,
) -> (r: EditorRow)
    ensures
        r.disabled == (ov@.disabled.contains(id@) && !ov@.rebind.contains_key(id@)),
        r.capturing == (capture_of(state.capturing) == Some(id@)),
        r.in_conflict == conflicting@.contains(id@),
        r.overridden == ov@.touches(id@),
        r.can_disable == (home_keymap(id@) is Some),
        r.chip@ == (if r.capturing {
            "Press a key…  (Esc cancels)"@
        } else {
            match shown_trigger(id@, ov@) {
                Some(t) => label_of(t, platform),
                None => "—"@,
            }
        }),
{
    let capturing = state.captures(id);
    let chip = if capturing {
        "Press a key…  (Esc cancels)".to_owned()
    } else {
        match shortcut_for(id, ov, platform) {
            Some(s) => s,
            None => "—".to_owned(),
        }
    };
    EditorRow {
        disabled: ov.disabled.contains(id) && !ov.rebind.contains_key(id),
        capturing,
        in_conflict: conflicting.contains(id),
        overridden: ov.touches(id),
        chip,
        can_disable: keymap_of(id).is_some(),
    }
}

/// Disabling takes effect at once, also for a rebound command, and a second
/// press takes it back; the rebind is gone then.
pub proof fn disabling_takes_effect(ov: OverridesView, id: Seq<char>)
    ensures
        ({
            let off = disable_toggled(ov, id);
            let was_off = ov.disabled.contains(id) && !ov.rebind.contains_key(id);
            &&& !was_off ==> off.disabled.contains(id) && !off.rebind.contains_key(id)
            &&& !was_off ==> !disable_toggled(off, id).disabled.contains(id)
            &&& !disable_toggled(off, id).rebind.contains_key(id) || was_off
        }),
{
}

/// A captured chord is the one that the command then has, and no disabling is
/// left to hide it.
pub proof fn captured_chord_is_bound(ov: OverridesView, id: Seq<char>, t: TriggerView)
    requires
        home_keymap(id) is Some,
    ensures
        chord_bound(ov, id, t).rebind.contains_key(id),
        chord_bound(ov, id, t).rebind[id] == t.stored(),
        !chord_bound(ov, id, t).disabled.contains(id),
{
}

/// A captured chord takes effect: on a known key and with every modifier pinned, as a
/// capture gives it, it is bound to the command in the command's own keymap, or in
/// the Global one for a command without a shipped bind. In the command's own keymap
/// the shipped chords that it replaces are gone.
pub proof fn captured_chord_takes_effect(ov: OverridesView, id: Seq<char>, t: TriggerView)
    requires
        t.pinned(),
        canonical_key(t.key) == Some(t.key),
        registered(id) is Some,
    ensures
        ({
            let after = chord_bound(ov, id, t);
            let keymap = match home_keymap(id) {
                Some(k) => k,
                None => KeymapId::Global,
            };
            let rows = effective_rows(keymap, after);
            &&& rows.contains(KmiView { trigger: t, cmd: id })
            &&& home_keymap(id) is Some ==> forall|k: int|
                0 <= k < kept_rows(keymap, after).len() && (#[trigger] kept_rows(
                    keymap,
                    after,
                )[k]).cmd == id ==> kept_rows(keymap, after)[k].trigger == t
        }),
{
    let after = chord_bound(ov, id, t);
    trigger_round_trip(t);
    let keymap = match home_keymap(id) {
        Some(k) => k,
        None => KeymapId::Global,
    };
    let row = KmiView { trigger: t, cmd: id };
    if home_keymap(id) is Some {
        rebound_command_moves(keymap, after, id);
        let kept = kept_rows(keymap, after);
        let k = choose|k: int| 0 <= k < kept.len() && kept[k] == row;
        assert(effective_rows(keymap, after)[k] == row);
    } else {
        let bind = AddedView { keymap: KeymapId::Global, trigger: t.stored(), cmd: id };
        assert(after.added[after.added.len() - 1] == bind);
        added_bind_has_its_row(after, bind);
    }
}

/// Binding a chord, disabling and resetting leave every other command's overrides as
/// they were.
pub proof fn editing_one_command_leaves_the_others(
    ov: OverridesView,
    id: Seq<char>,
    t: TriggerView,
    other: Seq<char>,
    bind: AddedView,
)
    requires
        other != id,
        bind.cmd == other,
    ensures
        ({
            let bound = chord_bound(ov, id, t);
            let toggled = disable_toggled(ov, id);
            let reset = row_reset(ov, id);
            &&& bound.rebind.contains_key(other) <==> ov.rebind.contains_key(other)
            &&& toggled.rebind.contains_key(other) <==> ov.rebind.contains_key(other)
            &&& reset.rebind.contains_key(other) <==> ov.rebind.contains_key(other)
            &&& ov.rebind.contains_key(other) ==> bound.rebind[other] == ov.rebind[other]
                && toggled.rebind[other] == ov.rebind[other] && reset.rebind[other]
                == ov.rebind[other]
            &&& bound.disabled.contains(other) <==> ov.disabled.contains(other)
            &&& toggled.disabled.contains(other) <==> ov.disabled.contains(other)
            &&& reset.disabled.contains(other) <==> ov.disabled.contains(other)
            &&& bound.added.contains(bind) <==> ov.added.contains(bind)
            &&& toggled.added.contains(bind) <==> ov.added.contains(bind)
            &&& reset.added.contains(bind) <==> ov.added.contains(bind)
        }),
{
    other_added_binds_stay(ov.added, id, bind);
    if home_keymap(id) is None {
        let kept = added_without(ov.added, id);
        let new = AddedView { keymap: KeymapId::Global, trigger: t.stored(), cmd: id };
        let longer = kept.push(new);
        if kept.contains(bind) {
            let k = choose|k: int| 0 <= k < kept.len() && kept[k] == bind;
            assert(longer[k] == bind);
        }
        if longer.contains(bind) {
            let k = choose|k: int| 0 <= k < longer.len() && longer[k] == bind;
            assert(k < kept.len());
            assert(kept[k] == bind);
        }
    }
}

/// The overrides after the command `id` was reset.
pub open spec fn row_reset(ov: OverridesView, id: Seq<char>) -> OverridesView {
    OverridesView {
        rebind: ov.rebind.remove(id),
        disabled: ov.disabled.remove(id),
        added: added_without(ov.added, id),
    }
}

/// A reset command has exactly its shipped binds again, in every keymap.
pub proof fn reset_brings_the_shipped_binds_back(
    ov: OverridesView,
    id: Seq<char>,
    keymap: KeymapId,
)
    ensures
        !row_reset(ov, id).touches(id),
        effective_rows(keymap, row_reset(ov, id)).filter(|row: KmiView| row.cmd == id) == row_views(
            keymap_rows(keymap),
        ).filter(|row: KmiView| row.cmd == id),
{
    reset_leaves_nothing(ov, id);
    untouched_command_keeps_its_binds(keymap, row_reset(ov, id), id);
}

/// A disabled command keeps none of its shipped binds; a second press of the button
/// brings back what was shipped.
pub proof fn disabled_binds_are_gone(ov: OverridesView, id: Seq<char>, keymap: KeymapId)
    requires
        !ov.disabled.contains(id),
        !adds(ov.added, id),
    ensures
        ({
            let off = disable_toggled(ov, id);
            let on = disable_toggled(off, id);
            &&& forall|k: int|
                0 <= k < kept_rows(keymap, off).len() ==> (#[trigger] kept_rows(keymap, off)[k]).cmd
                    != id
            &&& effective_rows(keymap, on).filter(|row: KmiView| row.cmd == id) == row_views(
                keymap_rows(keymap),
            ).filter(|row: KmiView| row.cmd == id)
        }),
{
    let off = disable_toggled(ov, id);
    let on = disable_toggled(off, id);
    assert forall|k: int| 0 <= k < kept_rows(keymap, off).len() implies (#[trigger] kept_rows(
        keymap,
        off,
    )[k]).cmd != id by {
        disabled_command_is_silent(keymap, off, id, k);
    }
    assert(!on.touches(id));
    untouched_command_keeps_its_binds(keymap, on, id);
}

/// A waiting capture ends with the first press: Escape gives it up and changes nothing,
/// another key binds its chord. Without a press it waits on, and where nothing
/// waits nothing changes.
pub proof fn capture_waits_for_a_press(
    id: Seq<char>,
    ov: OverridesView,
    input: InputView,
    i: int,
)
    ensures
        after_capture(None, ov, input) == (None::<Seq<char>>, ov),
        input.moved("Escape"@, true) ==> after_capture(Some(id), ov, input) == (
            None::<Seq<char>>,
            ov,
        ),
        (forall|j: int| 0 <= j < input.events.len() ==> !(#[trigger] input.events[j]).pressed)
            ==> after_capture(Some(id), ov, input) == (Some(id), ov),
        !input.moved("Escape"@, true) && 0 <= i < input.events.len() && input.events[i].pressed
            && (forall|j: int| 0 <= j < i ==> !(#[trigger] input.events[j]).pressed) ==> {
            &&& after_capture(Some(id), ov, input).0 is None
            &&& exists|t: TriggerView|
                t.key == input.events[i].key && t.pinned() && after_capture(Some(id), ov, input).1
                    == #[trigger] chord_bound(ov, id, t)
        },
{
    nothing_is_captured_without_a_press(input);
    if forall|j: int| 0 <= j < input.events.len() ==> !(#[trigger] input.events[j]).pressed {
        if input.moved("Escape"@, true) {
            let k = choose|k: int|
                0 <= k < input.events.len() && (#[trigger] input.events[k]).key == "Escape"@
                    && input.events[k].pressed == true;
            assert(!input.events[k].pressed);
        }
    }
    if !input.moved("Escape"@, true) && 0 <= i < input.events.len() && input.events[i].pressed && (
    forall|j: int| 0 <= j < i ==> !(#[trigger] input.events[j]).pressed) {
        captured_chord_fires(input, i, input);
        let t = captured(input)->0;
        assert(after_capture(Some(id), ov, input).1 == chord_bound(ov, id, t));
    }
}

/// What waits for a chord after a click on the shortcut of `id`.
pub open spec fn chip_clicked(capture: Option<Seq<char>>, id: Seq<char>) -> Option<Seq<char>> {
    if capture == Some(id) { None } else { Some(id) }
}

/// A click on a shortcut makes its command wait, whatever waited before; a second
/// click there makes it stop.
pub proof fn chip_starts_and_stops(capture: Option<Seq<char>>, id: Seq<char>)
    ensures
        capture != Some(id) ==> chip_clicked(capture, id) == Some(id),
        chip_clicked(Some(id), id) is None,
        capture != Some(id) ==> chip_clicked(chip_clicked(capture, id), id) is None,
{
}

/// The editor lists a command under its own category, and there exactly where its
/// label, its id or the category's heading holds what is searched for.
pub proof fn editor_lists_what_matches(category: Category, search: Seq<char>, c: Command)
    ensures
        listed_commands(category, search).contains(c) <==> command_table().contains(c) && c.category
            == category && (lowercase(search).len() == 0 || occurs_in(
            lowercase(c.label@),
            lowercase(search),
        ) || occurs_in(lowercase(c.id@), lowercase(search)) || occurs_in(
            lowercase(category.heading()),
            lowercase(search),
        )),
{
    let p = |c: Command| c.category == category && command_listed(c, search);
    filter_keeps(command_table(), p);
    assert(listed_commands(category, search) == command_table().filter(p));
}

} // verus!
