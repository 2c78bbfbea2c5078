//! The user's override layer over the shipped keymaps: rebinds, suppressed
//! binds and added binds, with the stored form of each.

use vstd::prelude::*;
use crate::shortcuts::keymaps::{canonical_key, Event, Key, KeymapId, Mods, Trigger, TriggerView};
use crate::text::same_text;

verus! {

/// The stored form of an [`Event`].
#[derive(Clone, Copy, Debug, PartialEq, Eq, Structural)]
pub enum SerEvent {
    Press,
    Release,
    Click,
    Drag,
}

impl Default for SerEvent {
    fn default() -> (r: Self)
        ensures
            r == SerEvent::Press,
    {
        SerEvent::Press
    }
}

impl SerEvent {
    /// The event stored.
    #[verifier::allow_in_spec]
    pub fn to_event(self) -> Event
        returns
            (match self {
                SerEvent::Press => Event::Press,
                SerEvent::Release => Event::Release,
                SerEvent::Click => Event::Click,
                SerEvent::Drag => Event::Drag,
            }),
    {
        match self {
            SerEvent::Press => Event::Press,
            SerEvent::Release => Event::Release,
            SerEvent::Click => Event::Click,
            SerEvent::Drag => Event::Drag,
        }
    }

    /// The stored form of an event.
    #[verifier::allow_in_spec]
    pub fn from_event(e: Event) -> SerEvent
        returns
            (match e {
                Event::Press => SerEvent::Press,
                Event::Release => SerEvent::Release,
                Event::Click => SerEvent::Click,
                Event::Drag => SerEvent::Drag,
            }),
    {
        match e {
            Event::Press => SerEvent::Press,
            Event::Release => SerEvent::Release,
            Event::Click => SerEvent::Click,
            Event::Drag => SerEvent::Drag,
        }
    }
}

/// The stored form of a [`KeymapId`].
#[derive(Clone, Copy, Debug, PartialEq, Eq, Structural)]
pub enum SerKeymapId {
    Global,
    Viewport,
    Modal,
}

impl SerKeymapId {
    /// The keymap stored.
    #[verifier::allow_in_spec]
    pub fn to_id(self) -> KeymapId
        returns
            (match self {
                SerKeymapId::Global => KeymapId::Global,
                SerKeymapId::Viewport => KeymapId::Viewport,
                SerKeymapId::Modal => KeymapId::Modal,
            }),
    {
        match self {
            SerKeymapId::Global => KeymapId::Global,
            SerKeymapId::Viewport => KeymapId::Viewport,
            SerKeymapId::Modal => KeymapId::Modal,
        }
    }

    /// The stored form of a keymap id.
    #[verifier::allow_in_spec]
    pub fn from_id(id: KeymapId) -> SerKeymapId
        returns
            (match id {
                KeymapId::Global => SerKeymapId::Global,
                KeymapId::Viewport => SerKeymapId::Viewport,
                KeymapId::Modal => SerKeymapId::Modal,
            }),
    {
        match id {
            KeymapId::Global => SerKeymapId::Global,
            KeymapId::Viewport => SerKeymapId::Viewport,
            KeymapId::Modal => SerKeymapId::Modal,
        }
    }
}

/// Storing an event and reading it back gives the event.
pub proof fn event_round_trip(e: Event)
    ensures
        SerEvent::from_event(e).to_event() == e,
{
}

/// Storing a keymap id and reading it back gives the id.
pub proof fn keymap_id_round_trip(id: KeymapId)
    ensures
        SerKeymapId::from_id(id).to_id() == id,
{
}

/// The stored form of a [`Trigger`]: the key by name, the modifiers that must
/// be held as plain flags.
#[derive(Debug)]
pub struct SerTrigger {
    pub key: String,
    pub command: bool,
    pub shift: bool,
    pub alt: bool,
    pub event: SerEvent,
}

/// What a [`SerTrigger`] is, with the key's characters.
pub struct SerTriggerView {
    pub key: Seq<char>,
    pub command: bool,
    pub shift: bool,
    pub alt: bool,
    pub event: SerEvent,
}

impl View for SerTrigger {
    type V = SerTriggerView;

    open spec fn view(&self) -> SerTriggerView {
        SerTriggerView {
            key: self.key@,
            command: self.command,
            shift: self.shift,
            alt: self.alt,
            event: self.event,
        }
    }
}

impl Clone for SerTrigger {
    fn clone(&self) -> (r: Self)
        ensures
            r@ == self@,
    {
        SerTrigger {
            key: self.key.clone(),
            command: self.command,
            shift: self.shift,
            alt: self.alt,
            event: self.event,
        }
    }
}

impl SerTriggerView {
    /// The trigger stored, or `None` where the key name is unknown. Every
    /// modifier is pinned: held where the flag is set, released elsewhere.
    pub open spec fn live(self) -> Option<TriggerView> {
        match canonical_key(self.key) {
            Some(key) => Some(
                TriggerView {
                    key,
                    mods: Mods {
                        command: Some(self.command),
                        shift: Some(self.shift),
                        alt: Some(self.alt),
                    },
                    event: self.event.to_event(),
                },
            ),
            None => None,
        }
    }
}

impl TriggerView {
    /// The stored form: a modifier's flag is set where it must be held.
    pub open spec fn stored(self) -> SerTriggerView {
        SerTriggerView {
            key: self.key,
            command: self.mods.command == Some(true),
            shift: self.mods.shift == Some(true),
            alt: self.mods.alt == Some(true),
            event: SerEvent::from_event(self.event),
        }
    }

    /// Is every modifier pinned to held or released?
    pub open spec fn pinned(self) -> bool {
        self.mods.command is Some && self.mods.shift is Some && self.mods.alt is Some
    }
}

impl SerTrigger {
    /// The stored form of a trigger.
    pub fn from_trigger(t: &Trigger) -> (r: SerTrigger)
        ensures
            r@ == t@.stored(),
    {
        SerTrigger {
            key: t.key.name.to_owned(),
            command: t.mods.command == Some(true),
            shift: t.mods.shift == Some(true),
            alt: t.mods.alt == Some(true),
            event: SerEvent::from_event(t.event),
        }
    }

    /// The trigger stored, or `None` where the key name is unknown.
    pub fn to_trigger(&self) -> (r: Option<Trigger>)
        ensures
            r is Some <==> self@.live() is Some,
            r matches Some(t) ==> self@.live() == Some(t@),
    {
        match Key::from_name(self.key.as_str()) {
            Some(key) => Some(
                Trigger {
                    key,
                    mods: Mods {
                        command: Some(self.command),
                        shift: Some(self.shift),
                        alt: Some(self.alt),
                    },
                    event: self.event.to_event(),
                },
            ),
            None => None,
        }
    }
}

/// A trigger on a key under its canonical name, with every modifier pinned,
/// is read back from its stored form unchanged.
pub proof fn trigger_round_trip(t: TriggerView)
    ensures
        t.pinned() && canonical_key(t.key) == Some(t.key) ==> t.stored().live() == Some(t),
{
    if t.pinned() && canonical_key(t.key) == Some(t.key) {
        event_round_trip(t.event);
        let back = t.stored().live()->0;
        assert(back.mods.command == t.mods.command);
        assert(back.mods.shift == t.mods.shift);
        assert(back.mods.alt == t.mods.alt);
        assert(back.mods == t.mods);
        assert(back.event == t.event);
        assert(back == t);
    }
}

/// A bind that the user added: `trigger` fires `cmd` in `keymap`.
#[derive(Debug)]
pub struct AddedBind {
    pub keymap: SerKeymapId,
    pub trigger: SerTrigger,
    pub cmd: String,
}

/// What an [`AddedBind`] is.
pub struct AddedView {
    pub keymap: KeymapId,
    pub trigger: SerTriggerView,
    pub cmd: Seq<char>,
}

impl View for AddedBind {
    type V = AddedView;

    open spec fn view(&self) -> AddedView {
        AddedView { keymap: self.keymap.to_id(), trigger: self.trigger@, cmd: self.cmd@ }
    }
}

impl Clone for AddedBind {
    fn clone(&self) -> (r: Self)
        ensures
            r@ == self@,
    {
        AddedBind { keymap: self.keymap, trigger: self.trigger.clone(), cmd: self.cmd.clone() }
    }
}

/// The views of a list of added binds.
pub open spec fn added_views(added: Seq<AddedBind>) -> Seq<AddedView> {
    Seq::new(added.len(), |i: int| added[i]@)
}

/// A command id with the trigger it is rebound to.
#[derive(Debug)]
pub struct Rebind {
    pub id: String,
    pub trigger: SerTrigger,
}

/// A map from command ids to stored triggers.
#[derive(Debug)]
pub struct TriggerMap {
    entries: Vec<Rebind>,
}

/// The map that a list of entries stands for.
spec fn entries_map(s: Seq<Rebind>) -> Map<Seq<char>, SerTriggerView>
    decreases s.len(),
{
    if s.len() == 0 {
        Map::empty()
    } else {
        entries_map(s.drop_last()).insert(s.last().id@, s.last().trigger@)
    }
}

impl View for TriggerMap {
    type V = Map<Seq<char>, SerTriggerView>;

    closed spec fn view(&self) -> Map<Seq<char>, SerTriggerView> {
        entries_map(self.entries@)
    }
}

impl TriggerMap {
    /// No id occurs twice.
    pub closed spec fn wf(self) -> bool {
        forall|i: int, j: int|
            0 <= i < j < self.entries@.len() ==> (#[trigger] self.entries@[i]).id@ != (
            #[trigger] self.entries@[j]).id@
    }

    /// The empty map.
    pub fn new() -> (r: Self)
        ensures
            r@ == Map::<Seq<char>, SerTriggerView>::empty(),
            r.wf(),
    {
        TriggerMap { entries: Vec::new() }
    }

    /// Is nothing rebound?
    pub fn is_empty(&self) -> (r: bool)
        ensures
            r == (self@ == Map::<Seq<char>, SerTriggerView>::empty()),
    {
        let r = self.entries.len() == 0;
        proof {
            if !r {
                let last = self.entries@.last();
                assert(self@.contains_key(last.id@));
            }
        }
        r
    }

    /// The trigger stored under `id`.
    pub fn get(&self, id: &str) -> (r: Option<&SerTrigger>)
        ensures
            r is Some <==> self@.contains_key(id@),
            r matches Some(t) ==> t@ == self@[id@],
    {
        let mut i: usize = self.entries.len();
        assert(self.entries@.take(i as int) =~= self.entries@);
        while i > 0
            invariant
                i <= self.entries@.len(),
                self@.contains_key(id@) == entries_map(self.entries@.take(i as int)).contains_key(
                    id@,
                ),
                self@.contains_key(id@) ==> self@[id@] == entries_map(
                    self.entries@.take(i as int),
                )[id@],
            decreases i,
        {
            assert(self.entries@.take(i as int).drop_last() =~= self.entries@.take(i - 1));
            if same_text(self.entries[i - 1].id.as_str(), id) {
                return Some(&self.entries[i - 1].trigger);
            }
            i = i - 1;
        }
        None
    }

    /// Is a trigger stored under `id`?
    pub fn contains_key(&self, id: &str) -> (r: bool)
        ensures
            r == self@.contains_key(id@),
    {
        self.get(id).is_some()
    }

    /// Forget what is stored under `id`.
    pub fn remove(&mut self, id: &str)
        ensures
            final(self)@ == old(self)@.remove(id@),
            old(self).wf() ==> final(self).wf(),
            final(self).absent(id@),
    {
        let mut out: Vec<Rebind> = Vec::new();
        let mut i: usize = 0;
        let n: usize = self.entries.len();
        assert(entries_map(self.entries@.take(0)).remove(id@) =~= Map::empty());
        while i < n
            invariant
                i <= n == self.entries@.len(),
                *self == *old(self),
                entries_map(out@) == entries_map(self.entries@.take(i as int)).remove(id@),
                forall|j: int| 0 <= j < out@.len() ==> (#[trigger] out@[j]).id@ != id@,
                forall|j: int|
                    0 <= j < out@.len() ==> exists|k: int|
                        0 <= k < i && (#[trigger] out@[j]).id@ == (#[trigger] self.entries@[k]).id@,
                self.wf() ==> forall|a: int, b: int|
                    0 <= a < b < out@.len() ==> (#[trigger] out@[a]).id@ != (#[trigger] out@[b]).id@,
            decreases n - i,
        {
            let ghost before = self.entries@.take(i as int);
            assert(self.entries@.take(i + 1).drop_last() =~= before);
            let e = &self.entries[i];
            if !same_text(e.id.as_str(), id) {
                let copy = Rebind { id: e.id.clone(), trigger: e.trigger.clone() };
                let ghost prev = out@;
                out.push(copy);
                assert(out@.drop_last() =~= prev);
                assert(entries_map(out@) =~= entries_map(self.entries@.take(i + 1)).remove(id@));
            } else {
                assert(entries_map(out@) =~= entries_map(self.entries@.take(i + 1)).remove(id@));
            }
            i = i + 1;
        }
        assert(self.entries@.take(n as int) =~= self.entries@);
        self.entries = out;
    }

    /// Does no entry hold `id`?
    pub closed spec fn absent(self, id: Seq<char>) -> bool {
        forall|i: int| 0 <= i < self.entries@.len() ==> (#[trigger] self.entries@[i]).id@ != id
    }

    /// Store `trigger` under `id`, in place of what was stored there.
    pub fn insert(&mut self, id: String, trigger: SerTrigger)
        ensures
            final(self)@ == old(self)@.insert(id@, trigger@),
            old(self).wf() ==> final(self).wf(),
    {
        let ghost m = self@;
        self.remove(id.as_str());
        let ghost key = id@;
        let ghost value = trigger@;
        let ghost prev = self.entries@;
        self.entries.push(Rebind { id, trigger });
        assert(self.entries@.drop_last() =~= prev);
        assert(m.remove(key).insert(key, value) =~= m.insert(key, value));
    }

    /// Forget everything.
    pub fn clear(&mut self)
        ensures
            final(self)@ == Map::<Seq<char>, SerTriggerView>::empty(),
            final(self).wf(),
    {
        self.entries = Vec::new();
    }

    /// Every id with its trigger, as a list.
    pub fn to_vec(&self) -> (r: Vec<Rebind>)
        ensures
            forall|id: Seq<char>| #[trigger]
                self@.contains_key(id) <==> exists|i: int| 0 <= i < r@.len() && (#[trigger] r@[i]).id@ == id,
            self.wf() ==> forall|i: int|
                0 <= i < r@.len() ==> self@[(#[trigger] r@[i]).id@] == r@[i].trigger@,
    {
        let mut out: Vec<Rebind> = Vec::new();
        let mut i: usize = 0;
        while i < self.entries.len()
            invariant
                i <= self.entries@.len(),
                out@.len() == i,
                forall|j: int|
                    0 <= j < i ==> (#[trigger] out@[j]).id@ == self.entries@[j].id@
                        && out@[j].trigger@ == self.entries@[j].trigger@,
            decreases self.entries@.len() - i,
        {
            let e = &self.entries[i];
            out.push(Rebind { id: e.id.clone(), trigger: e.trigger.clone() });
            i = i + 1;
        }
        proof {
            lemma_entries(self.entries@);
            assert forall|id: Seq<char>| #[trigger]
                self@.contains_key(id) implies exists|i: int|
                0 <= i < out@.len() && (#[trigger] out@[i]).id@ == id by {
                let k = choose|k: int| 0 <= k < self.entries@.len() && (#[trigger] self.entries@[k]).id@ == id;
                assert(out@[k].id@ == id);
            }
            if self.wf() {
                lemma_entries_unique(self.entries@);
            }
        }
        out
    }
}

impl Clone for TriggerMap {
    fn clone(&self) -> (r: Self)
        ensures
            r@ == self@,
            self.wf() ==> r.wf(),
    {
        let mut entries: Vec<Rebind> = Vec::new();
        let mut i: usize = 0;
        assert(self.entries@.take(0) =~= entries@);
        while i < self.entries.len()
            invariant
                i <= self.entries@.len(),
                entries@.len() == i,
                forall|j: int| 0 <= j < i ==> (#[trigger] entries@[j]).id@ == self.entries@[j].id@,
                entries_map(entries@) == entries_map(self.entries@.take(i as int)),
            decreases self.entries@.len() - i,
        {
            let e = &self.entries[i];
            let ghost prev = entries@;
            entries.push(Rebind { id: e.id.clone(), trigger: e.trigger.clone() });
            assert(entries@.drop_last() =~= prev);
            assert(self.entries@.take(i + 1).drop_last() =~= self.entries@.take(i as int));
            i = i + 1;
        }
        assert(self.entries@.take(i as int) =~= self.entries@);
        TriggerMap { entries }
    }
}

/// The ids of a list of entries are those of its map.
proof fn lemma_entries(s: Seq<Rebind>)
    ensures
        forall|id: Seq<char>| #[trigger]
            entries_map(s).contains_key(id) <==> exists|i: int| 0 <= i < s.len() && (#[trigger] s[i]).id@ == id,
    decreases s.len(),
{
    if s.len() > 0 {
        let front = s.drop_last();
        lemma_entries(front);
        assert forall|id: Seq<char>| #[trigger] entries_map(s).contains_key(id) <==> exists|i: int|
            0 <= i < s.len() && (#[trigger] s[i]).id@ == id by {
            if entries_map(s).contains_key(id) {
                if id == s.last().id@ {
                    assert(s[s.len() - 1].id@ == id);
                } else {
                    assert(entries_map(front).contains_key(id));
                    let k = choose|k: int| 0 <= k < front.len() && (#[trigger] front[k]).id@ == id;
                    assert(s[k].id@ == id);
                }
            }
            if exists|i: int| 0 <= i < s.len() && (#[trigger] s[i]).id@ == id {
                let k = choose|k: int| 0 <= k < s.len() && (#[trigger] s[k]).id@ == id;
                if k < front.len() {
                    assert(front[k].id@ == id);
                    assert(entries_map(front).contains_key(id));
                }
            }
        }
    }
}

/// Where no id occurs twice, the map holds every entry.
proof fn lemma_entries_unique(s: Seq<Rebind>)
    requires
        forall|i: int, j: int| 0 <= i < j < s.len() ==> (#[trigger] s[i]).id@ != (#[trigger] s[j]).id@,
    ensures
        forall|i: int| 0 <= i < s.len() ==> entries_map(s)[(#[trigger] s[i]).id@] == s[i].trigger@,
    decreases s.len(),
{
    if s.len() > 0 {
        let front = s.drop_last();
        assert forall|i: int, j: int| 0 <= i < j < front.len() implies (#[trigger] front[i]).id@ != (
        #[trigger] front[j]).id@ by {
            assert(s[i].id@ != s[j].id@);
        }
        lemma_entries_unique(front);
        assert forall|i: int| 0 <= i < s.len() implies entries_map(s)[(#[trigger] s[i]).id@]
            == s[i].trigger@ by {
            if i < front.len() {
                assert(front[i] == s[i]);
                assert(s[i].id@ != s[s.len() - 1].id@);
            }
        }
    }
}

/// A set of command ids.
#[derive(Debug)]
pub struct IdSet {
    ids: Vec<String>,
}

impl View for IdSet {
    type V = Set<Seq<char>>;

    closed spec fn view(&self) -> Set<Seq<char>> {
        Set::new(|id: Seq<char>| exists|i: int| 0 <= i < self.ids@.len() && (#[trigger] self.ids@[i])@ == id)
    }
}

impl IdSet {
    /// No id occurs twice.
    pub closed spec fn wf(self) -> bool {
        forall|i: int, j: int|
            0 <= i < j < self.ids@.len() ==> (#[trigger] self.ids@[i])@ != (#[trigger] self.ids@[j])@
    }

    /// The empty set.
    pub fn new() -> (r: Self)
        ensures
            r@ == Set::<Seq<char>>::empty(),
            r.wf(),
    {
        let r = IdSet { ids: Vec::new() };
        assert(r@ =~= Set::<Seq<char>>::empty());
        r
    }

    /// Is the set empty?
    pub fn is_empty(&self) -> (r: bool)
        ensures
            r == (self@ == Set::<Seq<char>>::empty()),
    {
        let r = self.ids.len() == 0;
        proof {
            if r {
                assert(self@ =~= Set::<Seq<char>>::empty());
            } else {
                assert(self@.contains(self.ids@[0]@));
            }
        }
        r
    }

    /// Is `id` in the set?
    pub fn contains(&self, id: &str) -> (r: bool)
        ensures
            r == self@.contains(id@),
    {
        let mut i: usize = 0;
        while i < self.ids.len()
            invariant
                i <= self.ids@.len(),
                forall|j: int| 0 <= j < i ==> (#[trigger] self.ids@[j])@ != id@,
            decreases self.ids@.len() - i,
        {
            if same_text(self.ids[i].as_str(), id) {
                return true;
            }
            i = i + 1;
        }
        false
    }

    /// Put `id` into the set.
    pub fn insert(&mut self, id: String)
        ensures
            final(self)@ == old(self)@.insert(id@),
            old(self).wf() ==> final(self).wf(),
    {
        let ghost key = id@;
        let ghost s = self.ids@;
        if self.contains(id.as_str()) {
            assert(self@ =~= old(self)@.insert(key));
            return;
        }
        self.ids.push(id);
        assert forall|k: Seq<char>| self@.contains(k) == old(self)@.insert(key).contains(k) by {
            if old(self)@.contains(k) {
                let i = choose|i: int| 0 <= i < s.len() && (#[trigger] s[i])@ == k;
                assert(self.ids@[i]@ == k);
            }
            if k == key {
                assert(self.ids@[s.len() as int]@ == k);
            }
            if self@.contains(k) && k != key {
                let i = choose|i: int| 0 <= i < self.ids@.len() && (#[trigger] self.ids@[i])@ == k;
                assert(s[i]@ == k);
            }
        }
        assert(self@ =~= old(self)@.insert(key));
    }

    /// Take `id` out of the set.
    pub fn remove(&mut self, id: &str)
        ensures
            final(self)@ == old(self)@.remove(id@),
            old(self).wf() ==> final(self).wf(),
    {
        let mut out: Vec<String> = Vec::new();
        let mut i: usize = 0;
        let n: usize = self.ids.len();
        let ghost s = self.ids@;
        while i < n
            invariant
                i <= n == self.ids@.len(),
                s == self.ids@,
                *self == *old(self),
                forall|j: int|
                    0 <= j < out@.len() ==> (#[trigger] out@[j])@ != id@ && exists|k: int|
                        0 <= k < i && (#[trigger] s[k])@ == out@[j]@,
                forall|k: int|
                    0 <= k < i && (#[trigger] s[k])@ != id@ ==> exists|j: int|
                        0 <= j < out@.len() && (#[trigger] out@[j])@ == s[k]@,
                self.wf() ==> forall|a: int, b: int|
                    0 <= a < b < out@.len() ==> (#[trigger] out@[a])@ != (#[trigger] out@[b])@,
            decreases n - i,
        {
            let ghost prev = out@;
            if !same_text(self.ids[i].as_str(), id) {
                out.push(self.ids[i].clone());
                assert(out@[prev.len() as int]@ == s[i as int]@);
                assert forall|k: int| 0 <= k < i + 1 && (#[trigger] s[k])@ != id@ implies exists|j: int|
                    0 <= j < out@.len() && (#[trigger] out@[j])@ == s[k]@ by {
                    if k < i {
                        let j = choose|j: int| 0 <= j < prev.len() && (#[trigger] prev[j])@ == s[k]@;
                        assert(out@[j]@ == s[k]@);
                    }
                }
            }
            i = i + 1;
        }
        self.ids = out;
        assert forall|k: Seq<char>| self@.contains(k) == old(self)@.remove(id@).contains(k) by {
            if self@.contains(k) {
                let j = choose|j: int| 0 <= j < self.ids@.len() && (#[trigger] self.ids@[j])@ == k;
                let m = choose|m: int| 0 <= m < n && (#[trigger] s[m])@ == self.ids@[j]@;
                assert(s[m]@ == k);
            }
            if old(self)@.contains(k) && k != id@ {
                let m = choose|m: int| 0 <= m < s.len() && (#[trigger] s[m])@ == k;
                assert(s[m]@ != id@);
                let j = choose|j: int| 0 <= j < self.ids@.len() && (#[trigger] self.ids@[j])@ == s[m]@;
                assert(self.ids@[j]@ == k);
            }
        }
        assert(self@ =~= old(self)@.remove(id@));
    }

    /// Empty the set.
    pub fn clear(&mut self)
        ensures
            final(self)@ == Set::<Seq<char>>::empty(),
            final(self).wf(),
    {
        self.ids = Vec::new();
        assert(self@ =~= Set::<Seq<char>>::empty());
    }

    /// Every id of the set, as a list.
    pub fn to_vec(&self) -> (r: Vec<String>)
        ensures
            forall|id: Seq<char>| #[trigger]
                self@.contains(id) <==> exists|i: int| 0 <= i < r@.len() && (#[trigger] r@[i])@ == id,
            self.wf() ==> forall|i: int, j: int|
                0 <= i < j < r@.len() ==> (#[trigger] r@[i])@ != (#[trigger] r@[j])@,
    {
        let mut out: Vec<String> = Vec::new();
        let mut i: usize = 0;
        while i < self.ids.len()
            invariant
                i <= self.ids@.len(),
                out@.len() == i,
                forall|j: int| 0 <= j < i ==> (#[trigger] out@[j])@ == self.ids@[j]@,
            decreases self.ids@.len() - i,
        {
            out.push(self.ids[i].clone());
            i = i + 1;
        }
        assert forall|id: Seq<char>| #[trigger] self@.contains(id) implies exists|i: int|
            0 <= i < out@.len() && (#[trigger] out@[i])@ == id by {
            let k = choose|k: int| 0 <= k < self.ids@.len() && (#[trigger] self.ids@[k])@ == id;
            assert(out@[k]@ == id);
        }
        out
    }
}

impl Clone for IdSet {
    fn clone(&self) -> (r: Self)
        ensures
            r@ == self@,
            self.wf() ==> r.wf(),
    {
        let ids = self.to_vec();
        let r = IdSet { ids };
        assert(r@ =~= self@);
        r
    }
}

/// The override layer. Empty by default, and then without effect.
///
/// A rebind replaces the trigger of a command's shipped bind; a disabled
/// command's shipped bind is suppressed unless it is rebound as well; added
/// binds come on top.
#[derive(Debug)]
pub struct KeymapOverrides {
    pub rebind: TriggerMap,
    pub disabled: IdSet,
    pub added: Vec<AddedBind>,
}

/// What [`KeymapOverrides`] are.
pub struct OverridesView {
    pub rebind: Map<Seq<char>, SerTriggerView>,
    pub disabled: Set<Seq<char>>,
    pub added: Seq<AddedView>,
}

impl View for KeymapOverrides {
    type V = OverridesView;

    open spec fn view(&self) -> OverridesView {
        OverridesView {
            rebind: self.rebind@,
            disabled: self.disabled@,
            added: added_views(self.added@),
        }
    }
}

impl OverridesView {
    /// Is nothing overridden?
    pub open spec fn is_empty(self) -> bool {
        &&& self.rebind == Map::<Seq<char>, SerTriggerView>::empty()
        &&& self.disabled == Set::<Seq<char>>::empty()
        &&& self.added.len() == 0
    }

    /// Does some override touch the command `id`?
    pub open spec fn touches(self, id: Seq<char>) -> bool {
        ||| self.rebind.contains_key(id)
        ||| self.disabled.contains(id)
        ||| adds(self.added, id)
    }
}

impl Clone for KeymapOverrides {
    fn clone(&self) -> (r: Self)
        ensures
            r@ == self@,
            self.wf() ==> r.wf(),
    {
        let mut added: Vec<AddedBind> = Vec::new();
        let mut i: usize = 0;
        while i < self.added.len()
            invariant
                i <= self.added@.len(),
                added@.len() == i,
                forall|j: int| 0 <= j < i ==> (#[trigger] added@[j])@ == self.added@[j]@,
            decreases self.added@.len() - i,
        {
            added.push(self.added[i].clone());
            i = i + 1;
        }
        assert(added_views(added@) =~= added_views(self.added@));
        KeymapOverrides { rebind: self.rebind.clone(), disabled: self.disabled.clone(), added }
    }
}

/// Does some added bind fire the command `id`?
pub open spec fn adds(added: Seq<AddedView>, id: Seq<char>) -> bool {
    exists|i: int| 0 <= i < added.len() && (#[trigger] added[i]).cmd == id
}

/// The added binds that do not fire the command `id`.
pub open spec fn added_without(added: Seq<AddedView>, id: Seq<char>) -> Seq<AddedView> {
    added.filter(|a: AddedView| a.cmd != id)
}

impl Default for KeymapOverrides {
    fn default() -> (r: Self)
        ensures
            r@.is_empty(),
            r.wf(),
    {
        KeymapOverrides { rebind: TriggerMap::new(), disabled: IdSet::new(), added: Vec::new() }
    }
}

impl KeymapOverrides {
    /// No id is rebound twice or disabled twice.
    pub open spec fn wf(self) -> bool {
        self.rebind.wf() && self.disabled.wf()
    }

    /// Is nothing overridden?
    pub fn is_empty(&self) -> (r: bool)
        ensures
            r == self@.is_empty(),
    {
        self.rebind.is_empty() && self.disabled.is_empty() && self.added.len() == 0
    }

    /// Move the shipped bind of `cmd_id` to `trigger`.
    pub fn rebind(&mut self, cmd_id: &str, trigger: &Trigger)
        ensures
            final(self)@ == (OverridesView {
                rebind: old(self)@.rebind.insert(cmd_id@, trigger@.stored()),
                ..old(self)@
            }),
            old(self).wf() ==> final(self).wf(),
    {
        self.rebind.insert(cmd_id.to_owned(), SerTrigger::from_trigger(trigger));
    }

    /// Suppress the shipped bind of `cmd_id`.
    pub fn disable(&mut self, cmd_id: &str)
        ensures
            final(self)@ == (OverridesView {
                disabled: old(self)@.disabled.insert(cmd_id@),
                ..old(self)@
            }),
            old(self).wf() ==> final(self).wf(),
    {
        self.disabled.insert(cmd_id.to_owned());
    }

    /// Drop every added bind that fires `cmd_id`.
    pub fn drop_added(&mut self, cmd_id: &str)
        ensures
            final(self)@ == (OverridesView {
                added: added_without(old(self)@.added, cmd_id@),
                ..old(self)@
            }),
            old(self).wf() ==> final(self).wf(),
    {
        let mut out: Vec<AddedBind> = Vec::new();
        let mut i: usize = 0;
        let n: usize = self.added.len();
        let ghost views = added_views(self.added@);
        proof {
            reveal(Seq::filter);
        }
        while i < n
            invariant
                i <= n == self.added@.len(),
                *self == *old(self),
                views == added_views(self.added@),
                added_views(out@) == added_without(views.take(i as int), cmd_id@),
            decreases n - i,
        {
            reveal(Seq::filter);
            let ghost prev = out@;
            assert(views.take(i + 1).drop_last() =~= views.take(i as int));
            if !same_text(self.added[i].cmd.as_str(), cmd_id) {
                out.push(self.added[i].clone());
                assert(added_views(out@) =~= added_views(prev).push(views[i as int]));
            }
            i = i + 1;
        }
        assert(views.take(n as int) =~= views);
        self.added = out;
    }

    /// Clear every override that touches `cmd_id`.
    pub fn reset(&mut self, cmd_id: &str)
        ensures
            final(self)@ == (OverridesView {
                rebind: old(self)@.rebind.remove(cmd_id@),
                disabled: old(self)@.disabled.remove(cmd_id@),
                added: added_without(old(self)@.added, cmd_id@),
            }),
            old(self).wf() ==> final(self).wf(),
    {
        self.rebind.remove(cmd_id);
        self.disabled.remove(cmd_id);
        self.drop_added(cmd_id);
    }

    /// Clear every override.
    pub fn reset_all(&mut self)
        ensures
            final(self)@.is_empty(),
            final(self).wf(),
    {
        self.rebind.clear();
        self.disabled.clear();
        self.added = Vec::new();
    }

    /// Suppress the shipped bind of `cmd_id`, or let it be again.
    pub fn set_disabled(&mut self, cmd_id: &str, disabled: bool)
        ensures
            final(self)@.disabled == disabled_after(old(self)@.disabled, cmd_id@, disabled),
            final(self)@ == (OverridesView {
                disabled: if disabled {
                    old(self)@.disabled.insert(cmd_id@)
                } else {
                    old(self)@.disabled.remove(cmd_id@)
                },
                ..old(self)@
            }),
            old(self).wf() ==> final(self).wf(),
    {
        if disabled {
            self.disabled.insert(cmd_id.to_owned());
        } else {
            self.disabled.remove(cmd_id);
        }
    }

    /// Does some override touch the command `id`?
    pub fn touches(&self, id: &str) -> (r: bool)
        ensures
            r == self@.touches(id@),
    {
        if self.rebind.contains_key(id) || self.disabled.contains(id) {
            return true;
        }
        let mut i: usize = 0;
        while i < self.added.len()
            invariant
                i <= self.added@.len(),
                forall|j: int| 0 <= j < i ==> (#[trigger] self@.added[j]).cmd != id@,
            decreases self.added@.len() - i,
        {
            if same_text(self.added[i].cmd.as_str(), id) {
                assert(self@.added[i as int].cmd == id@);
                return true;
            }
            i = i + 1;
        }
        false
    }
}

/// The disabled commands once `id` is disabled, or let be again.
pub open spec fn disabled_after(set: Set<Seq<char>>, id: Seq<char>, disabled: bool) -> Set<
    Seq<char>,
> {
    if disabled { set.insert(id) } else { set.remove(id) }
}

/// Disabling and enabling say what they do: the command is disabled exactly where that is
/// asked for, and no other command changes.
pub proof fn disabling_touches_one_command(
    set: Set<Seq<char>>,
    id: Seq<char>,
    other: Seq<char>,
    disabled: bool,
)
    ensures
        disabled_after(set, id, disabled).contains(id) <==> disabled,
        other != id ==> (disabled_after(set, id, disabled).contains(other) <==> set.contains(other)),
{
}

/// A stored trigger asks for what its flags say: every modifier held where its flag is set
/// and released where it is not, on the key that its name stands for.
pub proof fn stored_trigger_says_what_it_asks(t: SerTriggerView)
    ensures
        t.live() matches Some(live) ==> live.pinned() && live.mods.command == Some(t.command)
            && live.mods.shift == Some(t.shift) && live.mods.alt == Some(t.alt) && Some(live.key)
            == canonical_key(t.key),
        t.live() is None <==> canonical_key(t.key) is None,
        t.event == SerEvent::Press ==> (t.live() matches Some(live) ==> live.event == Event::Press),
        t.event == SerEvent::Release ==> (t.live() matches Some(live) ==> live.event
            == Event::Release),
{
}

} // verus!
