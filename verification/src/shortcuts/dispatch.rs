//! Dispatch: which keymaps are active, which actions a frame's input fires,
//! how a chord is captured for a rebind, and the modal transform's keys.

use vstd::prelude::*;
use crate::shortcuts::effective::{effective_items, effective_rows, filter_map};
use crate::shortcuts::keymaps::{
    key_label, label_of, row_views, Event, Key, KeymapId, KmiView, Modifiers, Mods, Platform,
    Trigger, TriggerView,
};
use crate::shortcuts::overrides::{KeymapOverrides, OverridesView};
use crate::shortcuts::registry::{Action, Axis};
use crate::text::same_text;

verus! {

/// A key going down or up, with the modifiers held at that instant.
#[derive(Clone, Copy, Debug)]
pub struct KeyEvent {
    pub key: Key,
    pub pressed: bool,
    pub modifiers: Modifiers,
}

/// What a [`KeyEvent`] is.
pub struct KeyEventView {
    pub key: Seq<char>,
    pub pressed: bool,
    pub modifiers: Modifiers,
}

impl View for KeyEvent {
    type V = KeyEventView;

    open spec fn view(&self) -> KeyEventView {
        KeyEventView { key: self.key@, pressed: self.pressed, modifiers: self.modifiers }
    }
}

/// The keyboard input of one frame: the key events in order, the modifiers
/// held, and whether a text field has the keyboard.
#[derive(Debug)]
pub struct InputState {
    pub events: Vec<KeyEvent>,
    pub modifiers: Modifiers,
    pub wants_keyboard: bool,
}

/// What an [`InputState`] is.
pub struct InputView {
    pub events: Seq<KeyEventView>,
    pub modifiers: Modifiers,
    pub wants_keyboard: bool,
}

/// The views of a list of key events.
pub open spec fn event_views(events: Seq<KeyEvent>) -> Seq<KeyEventView> {
    Seq::new(events.len(), |i: int| events[i]@)
}

impl View for InputState {
    type V = InputView;

    open spec fn view(&self) -> InputView {
        InputView {
            events: event_views(self.events@),
            modifiers: self.modifiers,
            wants_keyboard: self.wants_keyboard,
        }
    }
}

impl InputView {
    /// Did the key named `key` go down (`down`) or up this frame?
    pub open spec fn moved(self, key: Seq<char>, down: bool) -> bool {
        exists|i: int|
            0 <= i < self.events.len() && (#[trigger] self.events[i]).key == key
                && self.events[i].pressed == down
    }
}

impl InputState {
    /// Did the key named `name` go down (`down`) or up this frame?
    fn moved(&self, name: &str, down: bool) -> (r: bool)
        ensures
            r == self@.moved(name@, down),
    {
        let mut i: usize = 0;
        while i < self.events.len()
            invariant
                i <= self.events@.len(),
                forall|j: int|
                    0 <= j < i ==> !((#[trigger] self@.events[j]).key == name@ && self@.events[j].pressed
                        == down),
            decreases self.events@.len() - i,
        {
            let e = self.events[i];
            if e.pressed == down && same_text(e.key.name, name) {
                assert(self@.events[i as int].key == name@);
                return true;
            }
            i = i + 1;
        }
        false
    }

    /// Was `key` pressed this frame?
    pub fn key_pressed(&self, key: Key) -> (r: bool)
        ensures
            r == self@.moved(key@, true),
    {
        self.moved(key.name, true)
    }

    /// Was `key` released this frame?
    pub fn key_released(&self, key: Key) -> (r: bool)
        ensures
            r == self@.moved(key@, false),
    {
        self.moved(key.name, false)
    }
}

impl TriggerView {
    /// Does the trigger fire on this frame's input? Clicks and drags are not
    /// keyboard events and never do.
    pub open spec fn fires(self, input: InputView) -> bool {
        &&& match self.event {
            Event::Press => input.moved(self.key, true),
            Event::Release => input.moved(self.key, false),
            Event::Click => false,
            Event::Drag => false,
        }
        &&& self.mods.accepts(input.modifiers)
    }
}

impl Trigger {
    /// Did the trigger fire on this frame's input?
    pub fn fired(&self, i: &InputState) -> (r: bool)
        ensures
            r == self@.fires(i@),
    {
        let key_ok = match self.event {
            Event::Press => i.key_pressed(self.key),
            Event::Release => i.key_released(self.key),
            Event::Click => false,
            Event::Drag => false,
        };
        key_ok && self.mods.matches(&i.modifiers)
    }
}

/// Where the user is: whether the 3D viewport is focused and whether a
/// transform owns it.
#[derive(Clone, Copy, Debug, PartialEq, Eq, Structural)]
pub struct ActiveContext {
    pub viewport_focused: bool,
    pub transform_active: bool,
}

/// The active keymaps, most specific first. During a transform no press keymap
/// is active.
pub open spec fn active_keymaps(cx: ActiveContext) -> Seq<KeymapId> {
    if cx.transform_active {
        seq![]
    } else if cx.viewport_focused {
        seq![KeymapId::Viewport, KeymapId::Global]
    } else {
        seq![KeymapId::Global]
    }
}

/// The active keymaps, most specific first.
pub fn gather(cx: ActiveContext) -> (r: Vec<KeymapId>)
    ensures
        r@ == active_keymaps(cx),
{
    if cx.transform_active {
        Vec::new()
    } else if cx.viewport_focused {
        vec![KeymapId::Viewport, KeymapId::Global]
    } else {
        vec![KeymapId::Global]
    }
}

/// The rows in effect over a stack of keymaps, in order.
pub open spec fn stacked_rows(stack: Seq<KeymapId>, ov: OverridesView) -> Seq<KmiView>
    decreases stack.len(),
{
    if stack.len() == 0 {
        Seq::empty()
    } else {
        stacked_rows(stack.drop_last(), ov) + effective_rows(stack.last(), ov)
    }
}

/// Does some row of `rows` hold the key `key`?
pub open spec fn holds_key(rows: Seq<KmiView>, key: Seq<char>) -> bool {
    exists|i: int| 0 <= i < rows.len() && (#[trigger] rows[i]).trigger.key == key
}

/// The rows that fire, the first for each key only.
pub open spec fn dispatched(rows: Seq<KmiView>, input: InputView) -> Seq<KmiView>
    decreases rows.len(),
{
    if rows.len() == 0 {
        Seq::empty()
    } else {
        let front = dispatched(rows.drop_last(), input);
        let row = rows.last();
        if row.trigger.fires(input) && !holds_key(front, row.trigger.key) {
            front.push(row)
        } else {
            front
        }
    }
}

/// The actions of a list of rows.
pub open spec fn actions_of(rows: Seq<KmiView>) -> Seq<Action> {
    Seq::new(rows.len(), |i: int| rows[i].action())
}

/// The actions that a frame's input fires: none while a text field has the
/// keyboard, else those of the active keymaps' rows, the first per key.
pub open spec fn fired_actions(
    input: InputView,
    cx: ActiveContext,
    ov: OverridesView,
) -> Seq<Action> {
    if input.wants_keyboard {
        Seq::empty()
    } else {
        actions_of(dispatched(stacked_rows(active_keymaps(cx), ov), input))
    }
}

/// Is `key` among `keys`?
fn key_in(keys: &Vec<Key>, key: Key) -> (r: bool)
    ensures
        r == exists|i: int| 0 <= i < keys@.len() && (#[trigger] keys@[i])@ == key@,
{
    let mut i: usize = 0;
    while i < keys.len()
        invariant
            i <= keys@.len(),
            forall|j: int| 0 <= j < i ==> (#[trigger] keys@[j])@ != key@,
        decreases keys@.len() - i,
    {
        if keys[i] == key {
            return true;
        }
        i = i + 1;
    }
    false
}

/// The actions that this frame's input fires.
pub fn poll(input: &InputState, cx: ActiveContext, ov: &KeymapOverrides) -> (r: Vec<Action>)
    ensures
        r@ == fired_actions(input@, cx, ov@),
{
    let mut out: Vec<Action> = Vec::new();
    if input.wants_keyboard {
        return out;
    }
    let stack = gather(cx);
    let mut claimed: Vec<Key> = Vec::new();
    let mut s: usize = 0;
    let ghost mut done: Seq<KmiView> = Seq::empty();
    assert(stack@.take(0) =~= seq![]);
    while s < stack.len()
        invariant
            s <= stack@.len(),
            done == stacked_rows(stack@.take(s as int), ov@),
            out@ == actions_of(dispatched(done, input@)),
            claimed@.len() == dispatched(done, input@).len(),
            forall|j: int|
                0 <= j < claimed@.len() ==> (#[trigger] claimed@[j])@ == dispatched(
                    done,
                    input@,
                )[j].trigger.key,
        decreases stack@.len() - s,
    {
        let items = effective_items(stack[s], ov);
        let ghost start = done;
        let ghost rows = row_views(items@);
        let mut i: usize = 0;
        assert(start + rows.take(0) =~= start);
        while i < items.len()
            invariant
                i <= items@.len(),
                rows == row_views(items@),
                done == start + rows.take(i as int),
                forall|j: int| 0 <= j < items@.len() ==> (#[trigger] items@[j])@.resolves(),
                out@ == actions_of(dispatched(done, input@)),
                claimed@.len() == dispatched(done, input@).len(),
                forall|j: int|
                    0 <= j < claimed@.len() ==> (#[trigger] claimed@[j])@ == dispatched(
                        done,
                        input@,
                    )[j].trigger.key,
            decreases items@.len() - i,
        {
            let row = items[i];
            let ghost before = dispatched(done, input@);
            let ghost next = done.push(row@);
            proof {
                assert(next.drop_last() =~= done);
                assert(start + rows.take(i + 1) =~= next);
            }
            let taken = key_in(&claimed, row.trigger.key);
            proof {
                if taken {
                    let j = choose|j: int| 0 <= j < claimed@.len() && (#[trigger] claimed@[j])@ == row.trigger.key@;
                    assert(before[j].trigger.key == row.trigger.key@);
                } else {
                    assert(forall|j: int| 0 <= j < before.len() ==> claimed@[j]@ == (
                    #[trigger] before[j]).trigger.key);
                }
                assert(taken == holds_key(before, row@.trigger.key));
            }
            if row.trigger.fired(input) && !taken {
                claimed.push(row.trigger.key);
                out.push(row.action());
                assert(out@ =~= actions_of(before.push(row@)));
            }
            proof {
                done = next;
            }
            i = i + 1;
        }
        proof {
            assert(rows.take(i as int) =~= rows);
            assert(stack@.take(s + 1).drop_last() =~= stack@.take(s as int));
        }
        s = s + 1;
    }
    assert(stack@.take(s as int) =~= stack@);
    out
}

/// What the keys of a modal transform ask for.
#[derive(Clone, Copy, Debug, PartialEq, Eq, Structural)]
pub enum ModalAction {
    ConstrainX,
    ConstrainY,
    ConstrainZ,
    Confirm,
    Cancel,
}

/// The constraint to an axis.
#[verifier::allow_in_spec]
pub fn constrain(axis: Axis) -> ModalAction
    returns
        (match axis {
            Axis::X => ModalAction::ConstrainX,
            Axis::Y => ModalAction::ConstrainY,
            Axis::Z => ModalAction::ConstrainZ,
        }),
{
    match axis {
        Axis::X => ModalAction::ConstrainX,
        Axis::Y => ModalAction::ConstrainY,
        Axis::Z => ModalAction::ConstrainZ,
    }
}

/// The constraint that a row asks for, if it fires and locks an axis.
pub open spec fn row_constraint(row: KmiView, input: InputView) -> Option<ModalAction> {
    if row.trigger.fires(input) {
        match row.action() {
            Action::AxisLock(axis) => Some(constrain(axis)),
            _ => None,
        }
    } else {
        None
    }
}

/// What this frame's input asks of a running transform: the axis locks of the
/// Modal rows in effect, then confirm on Enter or Space, then cancel on Escape.
pub open spec fn modal_actions(input: InputView, ov: OverridesView) -> Seq<ModalAction> {
    let locks = filter_map(
        effective_rows(KeymapId::Modal, ov),
        |row: KmiView| row_constraint(row, input),
    );
    let confirm: Seq<ModalAction> = if input.moved("Enter"@, true) || input.moved("Space"@, true) {
        seq![ModalAction::Confirm]
    } else {
        seq![]
    };
    let cancel: Seq<ModalAction> = if input.moved("Escape"@, true) {
        seq![ModalAction::Cancel]
    } else {
        seq![]
    };
    locks + confirm + cancel
}

/// What this frame's input asks of a running transform.
pub fn poll_modal(input: &InputState, ov: &KeymapOverrides) -> (r: Vec<ModalAction>)
    ensures
        r@ == modal_actions(input@, ov@),
{
    let items = effective_items(KeymapId::Modal, ov);
    let ghost rows = row_views(items@);
    let ghost f = |row: KmiView| row_constraint(row, input@);
    let mut out: Vec<ModalAction> = Vec::new();
    let mut i: usize = 0;
    while i < items.len()
        invariant
            i <= items@.len(),
            rows == row_views(items@),
            f == (|row: KmiView| row_constraint(row, input@)),
            forall|j: int| 0 <= j < items@.len() ==> (#[trigger] items@[j])@.resolves(),
            out@ == filter_map(rows.take(i as int), f),
        decreases items@.len() - i,
    {
        proof {
            assert(rows.take(i + 1).drop_last() =~= rows.take(i as int));
            assert(rows.take(i + 1).last() == items@[i as int]@);
        }
        if items[i].trigger.fired(input) {
            match items[i].action() {
                Action::AxisLock(axis) => {
                    out.push(constrain(axis));
                },
                _ => {},
            }
        }
        i = i + 1;
    }
    assert(rows.take(i as int) =~= rows);
    let ghost locks = out@;
    let enter = input.key_pressed(Key::named("Enter"));
    let space = input.key_pressed(Key::named("Space"));
    if enter || space {
        out.push(ModalAction::Confirm);
    }
    if input.key_pressed(Key::named("Escape")) {
        out.push(ModalAction::Cancel);
    }
    assert(out@ =~= modal_actions(input@, ov@));
    out
}

/// The first key press of a frame.
pub open spec fn first_press(events: Seq<KeyEventView>) -> Option<KeyEventView>
    decreases events.len(),
{
    if events.len() == 0 {
        None
    } else if events[0].pressed {
        Some(events[0])
    } else {
        first_press(events.drop_first())
    }
}

/// The chord that a frame's input offers for a rebind: the first key press
/// with every modifier pinned to its state at that instant; none where Escape,
/// which cancels, is among the presses.
pub open spec fn captured(input: InputView) -> Option<TriggerView> {
    if input.moved("Escape"@, true) {
        None
    } else {
        match first_press(input.events) {
            Some(e) => Some(
                TriggerView {
                    key: e.key,
                    mods: Mods {
                        command: Some(e.modifiers.command),
                        shift: Some(e.modifiers.shift),
                        alt: Some(e.modifiers.alt),
                    },
                    event: Event::Press,
                },
            ),
            None => None,
        }
    }
}

/// The chord that this frame's input offers for a rebind.
pub fn capture_trigger(input: &InputState) -> (r: Option<Trigger>)
    ensures
        r is Some <==> captured(input@) is Some,
        r matches Some(t) ==> captured(input@) == Some(t@),
{
    if input.key_pressed(Key::named("Escape")) {
        return None;
    }
    let ghost events = input@.events;
    let n: usize = input.events.len();
    let mut i: usize = 0;
    assert(events.subrange(0, n as int) =~= events);
    while i < n
        invariant
            i <= n == input.events@.len(),
            events == event_views(input.events@),
            !input@.moved("Escape"@, true),
            first_press(events) == first_press(events.subrange(i as int, n as int)),
        decreases n - i,
    {
        assert(events.subrange(i as int, n as int).drop_first() =~= events.subrange(
            i + 1,
            n as int,
        ));
        let e = input.events[i];
        if e.pressed {
            return Some(
                Trigger {
                    key: e.key,
                    mods: Mods {
                        command: Some(e.modifiers.command),
                        shift: Some(e.modifiers.shift),
                        alt: Some(e.modifiers.alt),
                    },
                    event: Event::Press,
                },
            );
        }
        i = i + 1;
    }
    None
}

/// The label of the first row that locks `axis`, or nothing.
pub open spec fn axis_label(rows: Seq<KmiView>, axis: Axis, platform: Platform) -> Seq<char>
    decreases rows.len(),
{
    if rows.len() == 0 {
        Seq::empty()
    } else if rows[0].action() == Action::AxisLock(axis) {
        label_of(rows[0].trigger, platform)
    } else {
        axis_label(rows.drop_first(), axis, platform)
    }
}

/// The key label of a modal action: the axis locks as the Modal rows in effect
/// bind them, confirm and cancel by their fixed keys.
pub open spec fn modal_label(
    action: ModalAction,
    ov: OverridesView,
    platform: Platform,
) -> Seq<char> {
    let rows = effective_rows(KeymapId::Modal, ov);
    match action {
        ModalAction::ConstrainX => axis_label(rows, Axis::X, platform),
        ModalAction::ConstrainY => axis_label(rows, Axis::Y, platform),
        ModalAction::ConstrainZ => axis_label(rows, Axis::Z, platform),
        ModalAction::Confirm => "Enter"@,
        ModalAction::Cancel => "Esc"@,
    }
}

/// The live key label of a modal action: a rebound axis lock shows its new key.
pub fn modal_key_label(action: ModalAction, ov: &KeymapOverrides, platform: Platform) -> (r: String)
    ensures
        r@ == modal_label(action, ov@, platform),
{
    let axis = match action {
        ModalAction::ConstrainX => Axis::X,
        ModalAction::ConstrainY => Axis::Y,
        ModalAction::ConstrainZ => Axis::Z,
        ModalAction::Confirm => {
            return "Enter".to_owned();
        },
        ModalAction::Cancel => {
            return "Esc".to_owned();
        },
    };
    let items = effective_items(KeymapId::Modal, ov);
    let ghost rows = row_views(items@);
    let n: usize = items.len();
    let mut i: usize = 0;
    assert(rows.subrange(0, n as int) =~= rows);
    while i < n
        invariant
            i <= n == items@.len(),
            rows == row_views(items@),
            forall|k: int| 0 <= k < items@.len() ==> (#[trigger] items@[k])@.resolves(),
            modal_label(action, ov@, platform) == axis_label(rows, axis, platform),
            axis_label(rows, axis, platform) == axis_label(
                rows.subrange(i as int, n as int),
                axis,
                platform,
            ),
        decreases n - i,
    {
        proof {
            assert(rows.subrange(i as int, n as int).drop_first() =~= rows.subrange(
                i + 1,
                n as int,
            ));
        }
        if items[i].action() == Action::AxisLock(axis) {
            return key_label(&items[i].trigger, platform);
        }
        i = i + 1;
    }
    String::new()
}

/// The hint of a running transform: its axis-lock keys, then how to confirm
/// and cancel.
pub open spec fn modal_hint(ov: OverridesView, platform: Platform) -> Seq<char> {
    modal_label(ModalAction::ConstrainX, ov, platform) + "/"@ + modal_label(
        ModalAction::ConstrainY,
        ov,
        platform,
    ) + "/"@ + modal_label(ModalAction::ConstrainZ, ov, platform) + " lock · type number · "@
        + modal_label(ModalAction::Confirm, ov, platform) + " confirm · "@ + modal_label(
        ModalAction::Cancel,
        ov,
        platform,
    ) + " cancel"@
}

/// The hint of a running transform.
pub fn modal_hint_keys(ov: &KeymapOverrides, platform: Platform) -> (r: String)
    ensures
        r@ == modal_hint(ov@, platform),
{
    let mut out = modal_key_label(ModalAction::ConstrainX, ov, platform);
    out.push_str("/");
    let y = modal_key_label(ModalAction::ConstrainY, ov, platform);
    out.push_str(y.as_str());
    out.push_str("/");
    let z = modal_key_label(ModalAction::ConstrainZ, ov, platform);
    out.push_str(z.as_str());
    out.push_str(" lock · type number · ");
    let confirm = modal_key_label(ModalAction::Confirm, ov, platform);
    out.push_str(confirm.as_str());
    out.push_str(" confirm · ");
    let cancel = modal_key_label(ModalAction::Cancel, ov, platform);
    out.push_str(cancel.as_str());
    out.push_str(" cancel");
    out
}

/// The overrides in force for call sites that are not handed any: empty until
/// the first publish.
#[derive(Debug)]
pub struct ActiveOverrides {
    pub current: KeymapOverrides,
}

impl Default for ActiveOverrides {
    fn default() -> (r: Self)
        ensures
            r.current@.is_empty(),
    {
        ActiveOverrides { current: KeymapOverrides::default() }
    }
}

/// A cell that holds no overrides yet.
pub fn active_cell() -> (r: ActiveOverrides)
    ensures
        r.current@.is_empty(),
{
    ActiveOverrides::default()
}

/// Make `ov` the overrides in force.
pub fn publish_active(cell: &mut ActiveOverrides, ov: &KeymapOverrides)
    ensures
        final(cell).current@ == ov@,
{
    cell.current = ov.clone();
}

/// A snapshot of the overrides in force.
pub fn active(cell: &ActiveOverrides) -> (r: KeymapOverrides)
    ensures
        r@ == cell.current@,
{
    cell.current.clone()
}

} // verus!
