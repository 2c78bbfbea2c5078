//! The fixture manager: which fixtures its table shows, what a click selects,
//! and the bulk edits of the patch.

use vstd::prelude::*;
use crate::scene::{PatchEntry, PatchSource, PatchTable, Scene};
use crate::selection::{
    apply_fixture_click, clicked_fixture, filter_keeps, holds, index_in,
    plain_fixture_click_selects_alone, toggling_fixture_click_changes_it_alone, SelItem, Selection,
    SelectionView,
};
use crate::text::{
    contains_text, copy_texts, lowercase, occurs_in, same_text, texts_of, trimmed,
};
use crate::tree::clicks::{
    range_click, range_click_takes_what_lies_between, visible_range, ClickLists,
};
use crate::tree::rows::{query_of, search_query};
use crate::viewport::transform::{below, kept_below};

verus! {

/// How fixtures are sorted.
#[derive(Clone, Copy, Debug, PartialEq, Eq, Structural)]
pub enum SceneSort {
    Patch,
    Name,
    Type,
    Sequence,
}

/// The table's filter, sort and bulk fields.
#[derive(Debug)]
pub struct FmState {
    pub search: String,
    pub sort: SceneSort,
    pub conflicts_only: bool,
    pub unpatched_only: bool,
    pub bulk_universe: u16,
    pub bulk_address: u16,
}

impl Default for FmState {
    fn default() -> (r: Self)
        ensures
            r.search@.len() == 0,
            r.sort == SceneSort::Patch,
            !r.conflicts_only && !r.unpatched_only,
            r.bulk_universe == 1 && r.bulk_address == 1,
    {
        FmState {
            search: String::new(),
            sort: SceneSort::Patch,
            conflicts_only: false,
            unpatched_only: false,
            bulk_universe: 1,
            bulk_address: 1,
        }
    }
}

/// How many of the flags are set.
pub open spec fn count_set(flags: Seq<bool>) -> nat
    decreases flags.len(),
{
    if flags.len() == 0 {
        0
    } else {
        count_set(flags.drop_last()) + (if flags.last() { 1nat } else { 0nat })
    }
}

/// How many fixtures are in conflict.
pub fn conflict_count(flags: &Vec<bool>) -> (r: usize)
    ensures
        r == count_set(flags@),
        r <= flags@.len(),
{
    let n: usize = flags.len();
    let mut r: usize = 0;
    let mut k: usize = 0;
    assert(flags@.take(0) =~= seq![]);
    while k < n
        invariant
            n == flags@.len(),
            k <= n,
            r <= k,
            r == count_set(flags@.take(k as int)),
        decreases n - k,
    {
        assert(flags@.take(k + 1).drop_last() =~= flags@.take(k as int));
        if flags[k] {
            r = r + 1;
        }
        k = k + 1;
    }
    assert(flags@.take(n as int) =~= flags@);
    r
}

/// The selected fixtures that the scene holds.
pub fn bulk_selection(scene: &Scene, selection: &Selection) -> (r: Vec<usize>)
    ensures
        r@ == kept_below(selection@.fixtures, scene.fixtures@.len()),
{
    below(&selection.fixtures, scene.fixtures.len())
}

/// A number of channels, or an address, kept within a universe.
#[verifier::allow_in_spec]
pub fn within_universe(v: u16) -> u16
    returns
        (if v < 1 {
            1
        } else if v > 512 {
            512
        } else {
            v
        }),
{
    if v < 1 {
        1
    } else if v > 512 {
        512
    } else {
        v
    }
}

/// The footprint of the fixture `i`; one without a patch entry takes a channel.
pub open spec fn footprint(patch: Seq<PatchEntry>, i: usize) -> u16 {
    if i < patch.len() { within_universe(patch[i as int].footprint) } else { 1 }
}

/// A place in the patch.
#[derive(Clone, Copy, Debug, PartialEq, Eq, Structural)]
pub struct Slot {
    pub universe: u16,
    pub address: u16,
}

/// Where a fixture of `fp` channels goes, from a slot on: there, where it fits,
/// else at the start of the next universe. The last universe is not left.
pub open spec fn fitted(at: Slot, fp: u16) -> Slot {
    if at.address + fp - 1 > 512 {
        Slot {
            universe: if at.universe + 1 > 63999 { 63999 } else { (at.universe + 1) as u16 },
            address: 1,
        }
    } else {
        at
    }
}

/// The slot behind a fixture of `fp` channels.
pub open spec fn behind(at: Slot, fp: u16) -> Slot {
    Slot { universe: at.universe, address: (at.address + fp) as u16 }
}

/// The slots of the fixtures in `seq`, packed from `at` on.
pub open spec fn packed(patch: Seq<PatchEntry>, seq: Seq<usize>, at: Slot) -> Seq<Slot>
    decreases seq.len(),
{
    if seq.len() == 0 {
        seq![]
    } else {
        let before = packed(patch, seq.drop_last(), at);
        before.push(
            fitted(slot_after(patch, seq.drop_last(), at), footprint(patch, seq.last())),
        )
    }
}

/// The slot behind the last of the fixtures in `seq`, packed from `at` on.
pub open spec fn slot_after(patch: Seq<PatchEntry>, seq: Seq<usize>, at: Slot) -> Slot
    decreases seq.len(),
{
    if seq.len() == 0 {
        at
    } else {
        let fp = footprint(patch, seq.last());
        behind(fitted(slot_after(patch, seq.drop_last(), at), fp), fp)
    }
}

/// The entry of a fixture that was patched by hand to a slot.
pub open spec fn hand_patched(p: PatchEntry, at: Slot) -> PatchEntry {
    PatchEntry {
        universe: at.universe,
        address: at.address,
        enabled: true,
        source: PatchSource::Manual,
        ..p
    }
}

/// The patch after the fixtures in `seq` were packed from `at` on.
pub open spec fn patched_in_sequence(
    patch: Seq<PatchEntry>,
    seq: Seq<usize>,
    at: Slot,
) -> Seq<PatchEntry>
    decreases seq.len(),
{
    if seq.len() == 0 {
        patch
    } else {
        let before = patched_in_sequence(patch, seq.drop_last(), at);
        let i = seq.last();
        if i < before.len() {
            before.update(
                i as int,
                hand_patched(
                    before[i as int],
                    fitted(slot_after(patch, seq.drop_last(), at), footprint(patch, i)),
                ),
            )
        } else {
            before
        }
    }
}

/// Where packing starts: the bulk fields, kept within their range.
#[verifier::allow_in_spec]
pub fn start_slot(bulk_universe: u16, bulk_address: u16) -> Slot
    returns
        (Slot {
            universe: if bulk_universe < 1 { 1 } else { bulk_universe },
            address: within_universe(bulk_address),
        }),
{
    Slot {
        universe: if bulk_universe < 1 {
            1
        } else {
            bulk_universe
        },
        address: within_universe(bulk_address),
    }
}

proof fn lemma_packing_keeps_footprints(patch: Seq<PatchEntry>, seq: Seq<usize>, at: Slot)
    ensures
        patched_in_sequence(patch, seq, at).len() == patch.len(),
        forall|i: int|
            0 <= i < patch.len() ==> (#[trigger] patched_in_sequence(patch, seq, at)[i]).footprint
                == patch[i].footprint,
    decreases seq.len(),
{
    if seq.len() > 0 {
        lemma_packing_keeps_footprints(patch, seq.drop_last(), at);
    }
}

/// Patch the selected fixtures one behind the other from the bulk fields on, in
/// the order shown. `order` is the table's order of all fixtures.
pub fn patch_sequence(
    patch: &mut PatchTable,
    order: &Vec<usize>,
    sel: &Vec<usize>,
    bulk_universe: u16,
    bulk_address: u16,
)
    ensures
        final(patch)@ == sequence_patched(
            old(patch)@,
            order@,
            sel@,
            bulk_universe,
            bulk_address,
        ),
        final(patch)@ == patched_in_sequence(
            old(patch)@,
            order@.filter(|i: usize| sel@.contains(i)),
            start_slot(bulk_universe, bulk_address),
        ),
{
    let ghost p0 = patch@;
    let ghost keep = |i: usize| sel@.contains(i);
    let ghost start = start_slot(bulk_universe, bulk_address);
    let mut at = start_slot(bulk_universe, bulk_address);
    let mut k: usize = 0;
    proof {
        reveal(Seq::filter);
        assert(order@.take(0).filter(keep) =~= seq![]);
    }
    while k < order.len()
        invariant
            k <= order@.len(),
            p0 == old(patch)@,
            keep == (|i: usize| sel@.contains(i)),
            patch@ == patched_in_sequence(p0, order@.take(k as int).filter(keep), start),
            at == slot_after(p0, order@.take(k as int).filter(keep), start),
            at.universe >= 1,
            1 <= at.address <= 1024,
        decreases order@.len() - k,
    {
        reveal(Seq::filter);
        let ghost done = order@.take(k as int).filter(keep);
        assert(order@.take(k + 1).drop_last() =~= order@.take(k as int));
        let i: usize = order[k];
        if index_in(sel, i) {
            proof {
                lemma_packing_keeps_footprints(p0, done, start);
                assert(done.push(i).drop_last() =~= done);
            }
            let entry = patch.get(i);
            let fp: u16 = match entry {
                Some(p) => within_universe(p.footprint),
                None => 1,
            };
            if at.address as u32 + fp as u32 - 1 > 512 {
                let next: u32 = at.universe as u32 + 1;
                at = Slot {
                    universe: if next > 63999 {
                        63999
                    } else {
                        next as u16
                    },
                    address: 1,
                };
            }
            if let Some(p) = entry {
                let new = PatchEntry {
                    universe: at.universe,
                    address: at.address,
                    enabled: true,
                    source: PatchSource::Manual,
                    ..p
                };
                patch.entries.set(i, new);
            }
            at = Slot { universe: at.universe, address: at.address + fp };
            assert(patch@ =~= patched_in_sequence(p0, done.push(i), start));
        }
        k = k + 1;
    }
    assert(order@.take(k as int) =~= order@);
}

/// The patch after an edit of each of the fixtures in `sel`.
pub open spec fn edited_all(
    patch: Seq<PatchEntry>,
    sel: Seq<usize>,
    f: spec_fn(PatchEntry) -> PatchEntry,
) -> Seq<PatchEntry> {
    Seq::new(patch.len(), |i: int| if sel.contains(i as usize) { f(patch[i]) } else { patch[i] })
}

/// The entry with another universe, enabled and patched by hand.
pub open spec fn with_universe(p: PatchEntry, universe: u16) -> PatchEntry {
    PatchEntry { universe, enabled: true, source: PatchSource::Manual, ..p }
}

/// Patch every selected fixture to a universe, at its own address.
pub fn set_universe(patch: &mut PatchTable, sel: &Vec<usize>, universe: u16)
    ensures
        final(patch)@ == universe_set(old(patch)@, sel@, universe),
        final(patch)@ == edited_all(
            old(patch)@,
            sel@,
            |p: PatchEntry| with_universe(p, universe),
        ),
{
    let n: usize = patch.entries.len();
    let ghost f = |p: PatchEntry| with_universe(p, universe);
    let ghost goal = edited_all(patch@, sel@, f);
    let mut i: usize = 0;
    while i < n
        invariant
            n == patch@.len(),
            i <= n,
            f == (|p: PatchEntry| with_universe(p, universe)),
            old(patch)@.len() == n,
            goal == edited_all(old(patch)@, sel@, f),
            forall|j: int| 0 <= j < i ==> #[trigger] patch@[j] == goal[j],
            forall|j: int| i <= j < n ==> #[trigger] patch@[j] == old(patch)@[j],
        decreases n - i,
    {
        if index_in(sel, i) {
            let p = patch.entries[i];
            patch.entries.set(
                i,
                PatchEntry { universe, enabled: true, source: PatchSource::Manual, ..p },
            );
        }
        assert(patch@[i as int] == goal[i as int]);
        i = i + 1;
    }
    assert(patch@ =~= goal);
}

/// Enable or disable every selected fixture's patch.
pub fn set_enabled(patch: &mut PatchTable, sel: &Vec<usize>, enabled: bool)
    ensures
        final(patch)@ == enabled_set(old(patch)@, sel@, enabled),
        final(patch)@ == edited_all(
            old(patch)@,
            sel@,
            |p: PatchEntry| PatchEntry { enabled, ..p },
        ),
{
    let n: usize = patch.entries.len();
    let ghost f = |p: PatchEntry| PatchEntry { enabled, ..p };
    let ghost goal = edited_all(patch@, sel@, f);
    let mut i: usize = 0;
    while i < n
        invariant
            n == patch@.len(),
            i <= n,
            f == (|p: PatchEntry| PatchEntry { enabled, ..p }),
            old(patch)@.len() == n,
            goal == edited_all(old(patch)@, sel@, f),
            forall|j: int| 0 <= j < i ==> #[trigger] patch@[j] == goal[j],
            forall|j: int| i <= j < n ==> #[trigger] patch@[j] == old(patch)@[j],
        decreases n - i,
    {
        if index_in(sel, i) {
            let p = patch.entries[i];
            patch.entries.set(i, PatchEntry { enabled, ..p });
        }
        assert(patch@[i as int] == goal[i as int]);
        i = i + 1;
    }
    assert(patch@ =~= goal);
}

/// An entry whose universe or address was edited in its row.
pub fn edit_entry(patch: &mut PatchTable, i: usize, universe: u16, address: u16)
    requires
        i < old(patch)@.len(),
    ensures
        final(patch)@ == entry_edited(old(patch)@, i, universe, address),
        final(patch)@ == old(patch)@.update(
            i as int,
            hand_patched(old(patch)@[i as int], Slot { universe, address }),
        ),
{
    let p = patch.entries[i];
    patch.entries.set(
        i,
        PatchEntry { universe, address, enabled: true, source: PatchSource::Manual, ..p },
    );
}

/// Do all the fixtures have the first one's profile?
pub open spec fn one_profile(scene: Scene, sel: Seq<usize>) -> bool {
    forall|k: int|
        0 <= k < sel.len() ==> scene.fixtures@[(#[trigger] sel[k]) as int].profile@
            == scene.fixtures@[sel[0] as int].profile@
}

/// The modes that the bulk toolbar offers: those of the first fixture, where
/// all have its profile.
pub fn bulk_modes(scene: &Scene, sel: &Vec<usize>) -> (r: Vec<String>)
    requires
        sel@.len() > 0,
        forall|k: int| 0 <= k < sel@.len() ==> (#[trigger] sel@[k]) < scene.fixtures@.len(),
    ensures
        texts_of(r@) == modes_offered(*scene, sel@),
        texts_of(r@) == (if one_profile(*scene, sel@) {
            texts_of(scene.fixtures@[sel@[0] as int].modes@)
        } else {
            seq![]
        }),
{
    let first: usize = sel[0];
    let mut k: usize = 0;
    while k < sel.len()
        invariant
            k <= sel@.len(),
            sel@.len() > 0,
            first == sel@[0],
            forall|j: int| 0 <= j < sel@.len() ==> (#[trigger] sel@[j]) < scene.fixtures@.len(),
            forall|j: int|
                0 <= j < k ==> scene.fixtures@[(#[trigger] sel@[j]) as int].profile@
                    == scene.fixtures@[sel@[0] as int].profile@,
        decreases sel@.len() - k,
    {
        if !same_text(
            scene.fixtures[sel[k]].profile.as_str(),
            scene.fixtures[first].profile.as_str(),
        ) {
            assert(sel@[k as int] < scene.fixtures@.len());
            let r: Vec<String> = Vec::new();
            assert(texts_of(r@) =~= seq![]);
            return r;
        }
        k = k + 1;
    }
    copy_texts(&scene.fixtures[first].modes)
}

/// The fixtures that take a mode picked in the bulk toolbar: those that have it.
pub fn mode_targets(scene: &Scene, sel: &Vec<usize>, mode: usize) -> (r: Vec<usize>)
    requires
        forall|k: int| 0 <= k < sel@.len() ==> (#[trigger] sel@[k]) < scene.fixtures@.len(),
    ensures
        r@ == taking_mode(*scene, sel@, mode),
        r@ == sel@.filter(|i: usize| mode < scene.fixtures@[i as int].modes@.len()),
{
    let mut out: Vec<usize> = Vec::new();
    let ghost p = |i: usize| mode < scene.fixtures@[i as int].modes@.len();
    let mut k: usize = 0;
    proof {
        reveal(Seq::filter);
    }
    while k < sel.len()
        invariant
            k <= sel@.len(),
            forall|j: int| 0 <= j < sel@.len() ==> (#[trigger] sel@[j]) < scene.fixtures@.len(),
            p == (|i: usize| mode < scene.fixtures@[i as int].modes@.len()),
            out@ == sel@.take(k as int).filter(p),
        decreases sel@.len() - k,
    {
        reveal(Seq::filter);
        assert(sel@.take(k + 1).drop_last() =~= sel@.take(k as int));
        assert(sel@[k as int] < scene.fixtures@.len());
        if mode < scene.fixtures[sel[k]].modes.len() {
            out.push(sel[k]);
        }
        k = k + 1;
    }
    assert(sel@.take(k as int) =~= sel@);
    out
}

/// Does the table show the fixture `i`: does its name or profile hold the
/// filter, and does it pass the switches?
pub open spec fn table_shows(
    scene: Scene,
    patch: Seq<PatchEntry>,
    conflicted: Seq<bool>,
    fm: FmState,
    i: usize,
) -> bool {
    let f = scene.fixtures@[i as int];
    let q = query_of(fm.search@);
    &&& q.len() == 0 || occurs_in(lowercase(f.name@), q) || occurs_in(lowercase(f.profile@), q)
    &&& fm.conflicts_only ==> conflicted[i as int]
    &&& fm.unpatched_only ==> !(i < patch.len() && patch[i as int].enabled)
}

/// The rows of the table: of the fixtures in `order`, those that the filter and
/// the switches leave.
pub fn table_rows(
    scene: &Scene,
    patch: &PatchTable,
    conflicted: &Vec<bool>,
    fm: &FmState,
    order: &Vec<usize>,
) -> (r: Vec<usize>)
    requires
        conflicted@.len() == scene.fixtures@.len(),
        forall|k: int| 0 <= k < order@.len() ==> (#[trigger] order@[k]) < scene.fixtures@.len(),
    ensures
        r@ == rows_shown(*scene, patch@, conflicted@, *fm, order@),
        r@ == order@.filter(|i: usize| table_shows(*scene, patch@, conflicted@, *fm, i)),
{
    let q = search_query(fm.search.as_str());
    let mut out: Vec<usize> = Vec::new();
    let ghost p = |i: usize| table_shows(*scene, patch@, conflicted@, *fm, i);
    let mut k: usize = 0;
    proof {
        reveal(Seq::filter);
    }
    while k < order.len()
        invariant
            k <= order@.len(),
            q@ == query_of(fm.search@),
            conflicted@.len() == scene.fixtures@.len(),
            forall|j: int| 0 <= j < order@.len() ==> (#[trigger] order@[j]) < scene.fixtures@.len(),
            p == (|i: usize| table_shows(*scene, patch@, conflicted@, *fm, i)),
            out@ == order@.take(k as int).filter(p),
        decreases order@.len() - k,
    {
        reveal(Seq::filter);
        assert(order@.take(k + 1).drop_last() =~= order@.take(k as int));
        let i: usize = order[k];
        assert(order@[k as int] < scene.fixtures@.len());
        let name = scene.fixtures[i].name.as_str().to_lowercase();
        let profile = scene.fixtures[i].profile.as_str().to_lowercase();
        let named = q.as_str().unicode_len() == 0 || contains_text(name.as_str(), q.as_str())
            || contains_text(profile.as_str(), q.as_str());
        if named && (!fm.conflicts_only || conflicted[i]) && (!fm.unpatched_only
            || !patch.is_patched(i)) {
            out.push(i);
        }
        k = k + 1;
    }
    assert(order@.take(k as int) =~= order@);
    out
}

/// What the last column of a row says.
#[derive(Clone, Copy, Debug, PartialEq, Eq, Structural)]
pub enum RowFlag {
    Conflict,
    Off,
    Plain,
}

/// What the last column of a row says: a conflict before a disabled patch.
pub fn row_flag(patch: &PatchTable, conflicted: bool, i: usize) -> (r: RowFlag)
    ensures
        r == flag_of(patch@, conflicted, i),
        r == (if conflicted {
            RowFlag::Conflict
        } else if i < patch@.len() && !patch@[i as int].enabled {
            RowFlag::Off
        } else {
            RowFlag::Plain
        }),
{
    if conflicted {
        return RowFlag::Conflict;
    }
    match patch.get(i) {
        Some(p) => if p.enabled {
            RowFlag::Plain
        } else {
            RowFlag::Off
        },
        None => RowFlag::Plain,
    }
}

/// The anchor that a range click on `i` goes by: the shared one while the table
/// shows it, else `i`.
pub open spec fn live_anchor(order: Seq<usize>, anchor: Option<usize>, i: usize) -> Option<usize> {
    match anchor {
        Some(a) => if order.contains(a) { anchor } else { Some(i) },
        None => Some(i),
    }
}

/// The selection and anchor after a click on the row of `i`.
pub open spec fn after_table_click(
    s: SelectionView,
    anchor: Option<usize>,
    order: Seq<usize>,
    i: usize,
    shift: bool,
    toggle: bool,
    n: usize,
) -> (SelectionView, Option<usize>) {
    if shift {
        let a = live_anchor(order, anchor, i);
        (SelectionView { fixtures: visible_range(order, a, i), environment: None, ..s }, a)
    } else {
        clicked_fixture(s, anchor, i, false, toggle, n)
    }
}

/// A click on the row of `i`: with Shift a range of the rows shown, else as a
/// click in the scene.
pub fn table_click(
    selection: &mut Selection,
    anchor: &mut Option<usize>,
    order: &Vec<usize>,
    i: usize,
    shift: bool,
    toggle: bool,
    n: usize,
)
    requires
        i < n,
        order@.contains(i),
    ensures
        (final(selection)@, *final(anchor)) == after_table_click(
            old(selection)@,
            *old(anchor),
            order@,
            i,
            shift,
            toggle,
            n,
        ),
{
    if !shift {
        apply_fixture_click(selection, anchor, i, false, toggle, n);
        return;
    }
    let live = match *anchor {
        Some(a) => index_in(order, a),
        None => false,
    };
    if !live {
        *anchor = Some(i);
    }
    let picked = range_click(order, *anchor, i);
    selection.fixtures = picked;
    selection.environment = None;
    assert(selection@ =~= after_table_click(
        old(selection)@,
        *old(anchor),
        order@,
        i,
        shift,
        toggle,
        n,
    ).0);
}

/// Every fixture that packing places fits into its universe.
pub proof fn packed_fixtures_fit(patch: Seq<PatchEntry>, seq: Seq<usize>, at: Slot, k: int)
    requires
        1 <= at.address <= 512,
        0 <= k < seq.len(),
    ensures
        packed(patch, seq, at).len() == seq.len(),
        1 <= packed(patch, seq, at)[k].address,
        packed(patch, seq, at)[k].address + footprint(patch, seq[k]) - 1 <= 512,
    decreases seq.len(),
{
    lemma_packed_len(patch, seq, at);
    lemma_slot_bounds(patch, seq.drop_last(), at);
    if k < seq.len() - 1 {
        packed_fixtures_fit(patch, seq.drop_last(), at, k);
    }
}

proof fn lemma_packed_len(patch: Seq<PatchEntry>, seq: Seq<usize>, at: Slot)
    ensures
        packed(patch, seq, at).len() == seq.len(),
    decreases seq.len(),
{
    if seq.len() > 0 {
        lemma_packed_len(patch, seq.drop_last(), at);
    }
}

proof fn lemma_slot_bounds(patch: Seq<PatchEntry>, seq: Seq<usize>, at: Slot)
    requires
        1 <= at.address <= 512,
    ensures
        1 <= slot_after(patch, seq, at).address <= 1024,
    decreases seq.len(),
{
    if seq.len() > 0 {
        lemma_slot_bounds(patch, seq.drop_last(), at);
    }
}

/// The channels of two slots with their footprints are apart.
pub open spec fn apart(a: Slot, fa: u16, b: Slot, fb: u16) -> bool {
    a.universe != b.universe || a.address + fa <= b.address || b.address + fb <= a.address
}

proof fn lemma_slots_ascend(patch: Seq<PatchEntry>, seq: Seq<usize>, at: Slot, k: int)
    requires
        1 <= at.address <= 512,
        at.universe + seq.len() <= 63999,
        0 <= k < seq.len(),
    ensures
        ({
            let s = packed(patch, seq, at)[k];
            let e = slot_after(patch, seq, at);
            &&& packed(patch, seq, at).len() == seq.len()
            &&& s.universe < e.universe || (s.universe == e.universe && s.address + footprint(
                patch,
                seq[k],
            ) <= e.address)
            &&& e.universe <= at.universe + seq.len()
        }),
    decreases seq.len(),
{
    let front = seq.drop_last();
    lemma_packed_len(patch, seq, at);
    lemma_slot_bounds(patch, front, at);
    lemma_universe_bound(patch, front, at);
    if k < front.len() {
        lemma_slots_ascend(patch, front, at, k);
    }
}

proof fn lemma_universe_bound(patch: Seq<PatchEntry>, seq: Seq<usize>, at: Slot)
    requires
        at.universe + seq.len() <= 63999,
    ensures
        at.universe <= slot_after(patch, seq, at).universe <= at.universe + seq.len(),
    decreases seq.len(),
{
    if seq.len() > 0 {
        lemma_universe_bound(patch, seq.drop_last(), at);
    }
}

/// No two fixtures that packing places overlap, as long as the universes do not
/// run out.
pub proof fn packed_fixtures_are_apart(
    patch: Seq<PatchEntry>,
    seq: Seq<usize>,
    at: Slot,
    j: int,
    k: int,
)
    requires
        1 <= at.address <= 512,
        at.universe + seq.len() <= 63999,
        0 <= j < k < seq.len(),
    ensures
        apart(
            packed(patch, seq, at)[j],
            footprint(patch, seq[j]),
            packed(patch, seq, at)[k],
            footprint(patch, seq[k]),
        ),
    decreases seq.len(),
{
    let front = seq.drop_last();
    lemma_packed_len(patch, seq, at);
    lemma_packed_len(patch, front, at);
    if k < front.len() {
        packed_fixtures_are_apart(patch, front, at, j, k);
    } else {
        lemma_slots_ascend(patch, front, at, j);
        lemma_slot_bounds(patch, front, at);
    }
}

/// Each fixture of a sequence without repetition gets the slot that packing has
/// for it, and no other fixture's entry changes.
pub proof fn sequence_takes_the_packed_slots(
    patch: Seq<PatchEntry>,
    seq: Seq<usize>,
    at: Slot,
    k: int,
)
    requires
        seq.no_duplicates(),
        0 <= k < seq.len(),
        seq[k] < patch.len(),
    ensures
        packed(patch, seq, at).len() == seq.len(),
        patched_in_sequence(patch, seq, at)[seq[k] as int] == hand_patched(
            patch[seq[k] as int],
            packed(patch, seq, at)[k],
        ),
        forall|i: int|
            0 <= i < patch.len() && !seq.contains(i as usize)
                ==> #[trigger] patched_in_sequence(patch, seq, at)[i] == patch[i],
    decreases seq.len(),
{
    let front = seq.drop_last();
    lemma_packed_len(patch, seq, at);
    lemma_packed_len(patch, front, at);
    lemma_packing_keeps_footprints(patch, front, at);
    lemma_untouched(patch, seq, at);
    lemma_untouched(patch, front, at);
    if k < front.len() {
        assert(front.no_duplicates());
        sequence_takes_the_packed_slots(patch, front, at, k);
        assert(seq[k] != seq[seq.len() - 1]);
    } else {
        assert(!front.contains(seq[k])) by {
            if front.contains(seq[k]) {
                let j = choose|j: int| 0 <= j < front.len() && front[j] == seq[k];
                assert(seq[j] == seq[k]);
            }
        }
    }
}

proof fn lemma_untouched(patch: Seq<PatchEntry>, seq: Seq<usize>, at: Slot)
    ensures
        patched_in_sequence(patch, seq, at).len() == patch.len(),
        forall|i: int|
            0 <= i < patch.len() && !seq.contains(i as usize)
                ==> #[trigger] patched_in_sequence(patch, seq, at)[i] == patch[i],
    decreases seq.len(),
{
    if seq.len() > 0 {
        let front = seq.drop_last();
        lemma_untouched(patch, front, at);
        assert forall|i: int|
            0 <= i < patch.len() && !seq.contains(
                i as usize,
            ) implies #[trigger] patched_in_sequence(patch, seq, at)[i] == patch[i] by {
            assert(seq.last() == seq[seq.len() - 1]);
            assert(!front.contains(i as usize)) by {
                if front.contains(i as usize) {
                    let j = choose|j: int| 0 <= j < front.len() && front[j] == i as usize;
                    assert(seq[j] == i as usize);
                }
            }
            assert(patched_in_sequence(patch, front, at)[i] == patch[i]);
        }
    }
}

/// A range click goes by the shared anchor only while the table shows it: the
/// range never reaches a row that is not there.
pub proof fn range_stays_in_the_table(order: Seq<usize>, anchor: Option<usize>, i: usize)
    requires
        order.contains(i),
    ensures
        live_anchor(order, anchor, i) matches Some(a) && order.contains(a),
{
}

/// The patch after the selected fixtures were packed in the order shown, from the
/// bulk fields on.
pub open spec fn sequence_patched(
    patch: Seq<PatchEntry>,
    order: Seq<usize>,
    sel: Seq<usize>,
    bulk_universe: u16,
    bulk_address: u16,
) -> Seq<PatchEntry> {
    patched_in_sequence(
        patch,
        order.filter(|i: usize| sel.contains(i)),
        start_slot(bulk_universe, bulk_address),
    )
}

/// A sequence leaves no gap. Its first fixture starts at the bulk fields, brought into
/// their range, where it fits there. Each later one starts exactly where the one
/// before ends, in the same universe, whenever it fits below channel 513 there. A
/// fixture that does not fit goes to channel 1 of the next universe, of which
/// 63999 is the last. Footprints count from 1 to 512.
pub proof fn sequence_leaves_no_gap(
    patch: Seq<PatchEntry>,
    seq: Seq<usize>,
    bulk_universe: u16,
    bulk_address: u16,
    k: int,
)
    requires
        seq.no_duplicates(),
        forall|j: int| 0 <= j < seq.len() ==> (#[trigger] seq[j]) < patch.len(),
        0 <= k < seq.len(),
    ensures
        ({
            let out = patched_in_sequence(patch, seq, start_slot(bulk_universe, bulk_address));
            let channels = |j: int|
                {
                    let n = patch[seq[j] as int].footprint as int;
                    if n < 1 {
                        1
                    } else if n > 512 {
                        512
                    } else {
                        n
                    }
                };
            let here = out[seq[k] as int];
            let (universe, address) = if k == 0 {
                (
                    if bulk_universe < 1 { 1 } else { bulk_universe as int },
                    if bulk_address < 1 {
                        1
                    } else if bulk_address > 512 {
                        512
                    } else {
                        bulk_address as int
                    },
                )
            } else {
                let before = out[seq[k - 1] as int];
                (before.universe as int, before.address + channels(k - 1))
            };
            &&& out.len() == patch.len()
            &&& address + channels(k) <= 513 ==> here.universe == universe && here.address == address
            &&& address + channels(k) > 513 ==> here.address == 1 && here.universe == (if universe
                >= 63999 {
                63999
            } else {
                universe + 1
            })
        }),
{
    let at = start_slot(bulk_universe, bulk_address);
    sequence_takes_the_packed_slots(patch, seq, at, k);
    lemma_untouched(patch, seq, at);
    lemma_packed_at(patch, seq, at, k);
    let head = seq.take(k);
    lemma_slot_bounds(patch, head, at);
    if k > 0 {
        sequence_takes_the_packed_slots(patch, seq, at, k - 1);
        lemma_packed_at(patch, seq, at, k - 1);
        assert(head.drop_last() =~= seq.take(k - 1));
        assert(head.last() == seq[k - 1]);
        lemma_slot_bounds(patch, seq.take(k - 1), at);
    } else {
        assert(head =~= seq![]);
    }
}

proof fn lemma_packed_at(patch: Seq<PatchEntry>, seq: Seq<usize>, at: Slot, k: int)
    requires
        0 <= k < seq.len(),
    ensures
        packed(patch, seq, at).len() == seq.len(),
        packed(patch, seq, at)[k] == fitted(
            slot_after(patch, seq.take(k), at),
            footprint(patch, seq[k]),
        ),
    decreases seq.len(),
{
    let front = seq.drop_last();
    lemma_packed_len(patch, seq, at);
    lemma_packed_len(patch, front, at);
    if k < front.len() {
        lemma_packed_at(patch, front, at, k);
        assert(front.take(k) =~= seq.take(k));
    } else {
        assert(seq.take(k) =~= front);
    }
}

/// Patching in sequence enables the selected fixtures that are listed and marks them as
/// patched by hand. It leaves their footprint and mode, and every other fixture.
pub proof fn sequence_patches_the_selected_alone(
    patch: Seq<PatchEntry>,
    order: Seq<usize>,
    sel: Seq<usize>,
    bulk_universe: u16,
    bulk_address: u16,
    i: usize,
)
    requires
        order.no_duplicates(),
        i < patch.len(),
    ensures
        ({
            let out = sequence_patched(patch, order, sel, bulk_universe, bulk_address);
            let p = patch[i as int];
            &&& out.len() == patch.len()
            &&& !order.contains(i) || !sel.contains(i) ==> out[i as int] == p
            &&& order.contains(i) && sel.contains(i) ==> out[i as int].enabled && out[i as int].source
                == PatchSource::Manual && out[i as int].footprint == p.footprint
                && out[i as int].mode_index == p.mode_index
        }),
{
    let chosen = |i: usize| sel.contains(i);
    let seq = order.filter(chosen);
    let at = start_slot(bulk_universe, bulk_address);
    filter_keeps(order, chosen);
    assert(sequence_patched(patch, order, sel, bulk_universe, bulk_address) == patched_in_sequence(
        patch,
        seq,
        at,
    ));
    lemma_untouched(patch, seq, at);
    if seq.contains(i) {
        let k = choose|k: int| 0 <= k < seq.len() && seq[k] == i;
        sequence_takes_the_packed_slots(patch, seq, at, k);
    }
}

proof fn lemma_filter_order(order: Seq<usize>, p: spec_fn(usize) -> bool, a: int, b: int) -> (r: (
    int,
    int,
))
    requires
        0 <= a < b < order.len(),
        p(order[a]),
        p(order[b]),
    ensures
        0 <= r.0 < r.1 < order.filter(p).len(),
        order.filter(p)[r.0] == order[a],
        order.filter(p)[r.1] == order[b],
    decreases order.len(),
{
    reveal(Seq::filter);
    let front = order.drop_last();
    let kept = front.filter(p);
    if b < front.len() {
        lemma_filter_order(front, p, a, b)
    } else {
        filter_keeps(front, p);
        assert(front[a] == order[a]);
        assert(kept.contains(order[a]));
        let j = choose|j: int| 0 <= j < kept.len() && kept[j] == order[a];
        (j, kept.len() as int)
    }
}

/// A sequence follows the order shown: of two selected fixtures the one listed first
/// ends before the other begins, as long as the universes do not run out.
pub proof fn sequence_follows_the_order_shown(
    patch: Seq<PatchEntry>,
    order: Seq<usize>,
    sel: Seq<usize>,
    bulk_universe: u16,
    bulk_address: u16,
    a: int,
    b: int,
)
    requires
        order.no_duplicates(),
        bulk_universe + order.len() < 63999,
        0 <= a < b < order.len(),
        sel.contains(order[a]) && sel.contains(order[b]),
        order[a] < patch.len() && order[b] < patch.len(),
    ensures
        ({
            let out = sequence_patched(patch, order, sel, bulk_universe, bulk_address);
            let first = out[order[a] as int];
            let second = out[order[b] as int];
            first.universe < second.universe || (first.universe == second.universe && first.address
                + footprint(patch, order[a]) <= second.address)
        }),
{
    let chosen = |i: usize| sel.contains(i);
    let seq = order.filter(chosen);
    let at = start_slot(bulk_universe, bulk_address);
    filter_keeps(order, chosen);
    order.lemma_filter_len(chosen);
    assert(sequence_patched(patch, order, sel, bulk_universe, bulk_address) == patched_in_sequence(
        patch,
        seq,
        at,
    ));
    let (j, k) = lemma_filter_order(order, chosen, a, b);
    sequence_takes_the_packed_slots(patch, seq, at, j);
    sequence_takes_the_packed_slots(patch, seq, at, k);
    lemma_packed_at(patch, seq, at, j);
    lemma_packed_at(patch, seq, at, k);
    let head = seq.take(k);
    lemma_packed_at(patch, head, at, j);
    assert(head.take(j) =~= seq.take(j));
    lemma_slots_ascend(patch, head, at, j);
    lemma_slot_bounds(patch, head, at);
    lemma_universe_bound(patch, head, at);
}

/// A place of the start is kept as it is within the range, and brought to the nearer
/// end of the range outside it.
pub proof fn start_is_brought_into_range(bulk_universe: u16, bulk_address: u16)
    ensures
        ({
            let at = start_slot(bulk_universe, bulk_address);
            &&& 1 <= at.address <= 512 && 1 <= at.universe
            &&& 1 <= bulk_address <= 512 ==> at.address == bulk_address
            &&& bulk_address < 1 ==> at.address == 1
            &&& bulk_address > 512 ==> at.address == 512
            &&& 1 <= bulk_universe ==> at.universe == bulk_universe
        }),
{
}

/// The patch after every selected fixture went to a universe.
pub open spec fn universe_set(patch: Seq<PatchEntry>, sel: Seq<usize>, universe: u16) -> Seq<
    PatchEntry,
> {
    edited_all(patch, sel, |p: PatchEntry| with_universe(p, universe))
}

/// The patch after every selected fixture was enabled or disabled.
pub open spec fn enabled_set(patch: Seq<PatchEntry>, sel: Seq<usize>, enabled: bool) -> Seq<
    PatchEntry,
> {
    edited_all(patch, sel, |p: PatchEntry| PatchEntry { enabled, ..p })
}

/// A bulk edit touches the selected fixtures alone. Setting the universe keeps their
/// addresses and enables them as patched by hand; enabling and disabling change
/// nothing else of them.
pub proof fn bulk_edits_touch_the_selected_alone(
    patch: Seq<PatchEntry>,
    sel: Seq<usize>,
    universe: u16,
    enabled: bool,
    i: usize,
)
    requires
        i < patch.len(),
    ensures
        ({
            let p = patch[i as int];
            let moved = universe_set(patch, sel, universe)[i as int];
            let switched = enabled_set(patch, sel, enabled)[i as int];
            &&& universe_set(patch, sel, universe).len() == patch.len()
            &&& enabled_set(patch, sel, enabled).len() == patch.len()
            &&& !sel.contains(i) ==> moved == p && switched == p
            &&& sel.contains(i) ==> moved.universe == universe && moved.address == p.address
                && moved.footprint == p.footprint && moved.mode_index == p.mode_index
                && moved.enabled && moved.source == PatchSource::Manual
            &&& sel.contains(i) ==> switched.enabled == enabled && switched.universe == p.universe
                && switched.address == p.address && switched.footprint == p.footprint
                && switched.mode_index == p.mode_index && switched.source == p.source
        }),
{
}

/// The patch after the universe or address of a fixture was edited in its row.
pub open spec fn entry_edited(patch: Seq<PatchEntry>, i: usize, universe: u16, address: u16) -> Seq<
    PatchEntry,
> {
    patch.update(i as int, hand_patched(patch[i as int], Slot { universe, address }))
}

/// An edit in a row gives that fixture the universe and address, enables it as patched
/// by hand, and changes nothing else.
pub proof fn row_edit_patches_its_fixture(
    patch: Seq<PatchEntry>,
    i: usize,
    universe: u16,
    address: u16,
    j: usize,
)
    requires
        i < patch.len(),
        j < patch.len(),
    ensures
        ({
            let out = entry_edited(patch, i, universe, address);
            let p = out[i as int];
            &&& out.len() == patch.len()
            &&& j != i ==> out[j as int] == patch[j as int]
            &&& p.universe == universe && p.address == address && p.enabled && p.source
                == PatchSource::Manual
            &&& p.footprint == patch[i as int].footprint && p.mode_index
                == patch[i as int].mode_index
        }),
{
}

/// The count of the set flags is the number of places that are set.
pub proof fn count_is_of_the_set_flags(flags: Seq<bool>)
    ensures
        count_set(flags) == flags.filter(|b: bool| b).len(),
        count_set(flags) == 0 <==> forall|i: int| 0 <= i < flags.len() ==> !#[trigger] flags[i],
    decreases flags.len(),
{
    reveal(Seq::filter);
    if flags.len() > 0 {
        let front = flags.drop_last();
        count_is_of_the_set_flags(front);
        if count_set(flags) == 0 {
            assert forall|i: int| 0 <= i < flags.len() implies !#[trigger] flags[i] by {
                if i < front.len() {
                    assert(!front[i]);
                }
            }
        }
        if forall|i: int| 0 <= i < flags.len() ==> !#[trigger] flags[i] {
            assert forall|i: int| 0 <= i < front.len() implies !#[trigger] front[i] by {
                assert(flags[i] == front[i]);
            }
            assert(!flags[flags.len() - 1]);
        }
    }
}

/// The rows of the table.
pub open spec fn rows_shown(
    scene: Scene,
    patch: Seq<PatchEntry>,
    conflicted: Seq<bool>,
    fm: FmState,
    order: Seq<usize>,
) -> Seq<usize> {
    order.filter(|i: usize| table_shows(scene, patch, conflicted, fm, i))
}

/// The table shows a fixture exactly where its name or its profile holds what is
/// searched for, and it is in conflict, or without a patch, where only those are
/// asked for.
pub proof fn table_shows_what_matches(
    scene: Scene,
    patch: Seq<PatchEntry>,
    conflicted: Seq<bool>,
    fm: FmState,
    order: Seq<usize>,
    i: usize,
)
    ensures
        ({
            let q = lowercase(trimmed(fm.search@));
            let f = scene.fixtures@[i as int];
            rows_shown(scene, patch, conflicted, fm, order).contains(i) <==> {
                &&& order.contains(i)
                &&& q.len() == 0 || occurs_in(lowercase(f.name@), q) || occurs_in(
                    lowercase(f.profile@),
                    q,
                )
                &&& fm.conflicts_only ==> conflicted[i as int]
                &&& fm.unpatched_only ==> i >= patch.len() || !patch[i as int].enabled
            }
        }),
{
    let p = |i: usize| table_shows(scene, patch, conflicted, fm, i);
    filter_keeps(order, p);
    assert(rows_shown(scene, patch, conflicted, fm, order) == order.filter(p));
}

/// What the last column of a row says.
pub open spec fn flag_of(patch: Seq<PatchEntry>, conflicted: bool, i: usize) -> RowFlag {
    if conflicted {
        RowFlag::Conflict
    } else if i < patch.len() && !patch[i as int].enabled {
        RowFlag::Off
    } else {
        RowFlag::Plain
    }
}

/// A conflict is always flagged, a disabled patch where there is no conflict, and
/// nothing else is.
pub proof fn trouble_is_flagged(patch: Seq<PatchEntry>, conflicted: bool, i: usize)
    ensures
        flag_of(patch, conflicted, i) == RowFlag::Conflict <==> conflicted,
        flag_of(patch, conflicted, i) == RowFlag::Off ==> i < patch.len()
            && !patch[i as int].enabled,
        !conflicted && i < patch.len() ==> (flag_of(patch, conflicted, i) == RowFlag::Plain
            <==> patch[i as int].enabled),
        !conflicted && i >= patch.len() ==> flag_of(patch, conflicted, i) == RowFlag::Plain,
{
}

/// The modes that the bulk toolbar offers.
pub open spec fn modes_offered(scene: Scene, sel: Seq<usize>) -> Seq<Seq<char>> {
    if one_profile(scene, sel) { texts_of(scene.fixtures@[sel[0] as int].modes@) } else { seq![] }
}

/// The toolbar offers the modes of the selected fixtures where all of these have one
/// profile, and none where two differ.
pub proof fn modes_are_of_one_profile(scene: Scene, sel: Seq<usize>, a: int, b: int)
    requires
        0 <= a < sel.len(),
        0 <= b < sel.len(),
    ensures
        scene.fixtures@[sel[a] as int].profile@ != scene.fixtures@[sel[b] as int].profile@
            ==> modes_offered(scene, sel).len() == 0,
        (forall|j: int, k: int|
            0 <= j < sel.len() && 0 <= k < sel.len() ==> scene.fixtures@[(
            #[trigger] sel[j]) as int].profile@ == scene.fixtures@[(
            #[trigger] sel[k]) as int].profile@) ==> modes_offered(scene, sel).len()
            == scene.fixtures@[sel[0] as int].modes@.len() && (forall|m: int|
            0 <= m < modes_offered(scene, sel).len() ==> #[trigger] modes_offered(scene, sel)[m]
                == scene.fixtures@[sel[0] as int].modes@[m]@),
{
    if one_profile(scene, sel) {
        let x = scene.fixtures@[sel[a] as int].profile@;
        let y = scene.fixtures@[sel[b] as int].profile@;
        assert(x == y);
    }
    if forall|j: int, k: int|
        0 <= j < sel.len() && 0 <= k < sel.len() ==> scene.fixtures@[(
        #[trigger] sel[j]) as int].profile@ == scene.fixtures@[(
        #[trigger] sel[k]) as int].profile@ {
        assert(one_profile(scene, sel)) by {
            assert forall|k: int| 0 <= k < sel.len() implies scene.fixtures@[(
            #[trigger] sel[k]) as int].profile@ == scene.fixtures@[sel[0] as int].profile@ by {}
        }
    }
}

/// The selected fixtures that have the mode.
pub open spec fn taking_mode(scene: Scene, sel: Seq<usize>, mode: usize) -> Seq<usize> {
    sel.filter(|i: usize| mode < scene.fixtures@[i as int].modes@.len())
}

/// A mode goes to every selected fixture that has it, and to no other.
pub proof fn mode_goes_where_it_is(scene: Scene, sel: Seq<usize>, mode: usize, i: usize)
    ensures
        taking_mode(scene, sel, mode).contains(i) <==> sel.contains(i) && mode
            < scene.fixtures@[i as int].modes@.len(),
{
    let p = |i: usize| mode < scene.fixtures@[i as int].modes@.len();
    filter_keeps(sel, p);
    assert(taking_mode(scene, sel, mode) == sel.filter(p));
}

/// A plain click on a row of the table selects that fixture alone; a toggling click
/// changes whether it is selected, and nothing else.
pub proof fn table_click_selects_its_fixture(
    s: SelectionView,
    anchor: Option<usize>,
    order: Seq<usize>,
    i: usize,
    n: usize,
    e: SelItem,
)
    ensures
        ({
            let plain = after_table_click(s, anchor, order, i, false, false, n);
            let toggling = after_table_click(s, anchor, order, i, false, true, n);
            &&& holds(plain.0, e) <==> e == SelItem::Fixture(i)
            &&& !plain.0.world
            &&& holds(toggling.0, e) <==> (holds(s, e) != (e == SelItem::Fixture(i)))
            &&& plain.1 == Some(i) && toggling.1 == Some(i)
        }),
{
    plain_fixture_click_selects_alone(s, anchor, i, n);
    toggling_fixture_click_changes_it_alone(s, anchor, i, n);
}

/// A range click in the table selects exactly the rows shown between the anchor and the
/// clicked one, in either direction; where the anchor is not shown, the clicked one
/// alone.
pub proof fn table_range_takes_what_lies_between(
    s: SelectionView,
    order: Seq<usize>,
    hidden: usize,
    a: int,
    b: int,
    k: int,
    toggle: bool,
    n: usize,
)
    requires
        order.no_duplicates(),
        0 <= a < order.len(),
        0 <= b < order.len(),
        0 <= k < order.len(),
        !order.contains(hidden),
    ensures
        ({
            let r = after_table_click(s, Some(order[a]), order, order[b], true, toggle, n);
            let lone = after_table_click(s, Some(hidden), order, order[b], true, toggle, n);
            &&& r.0.fixtures.contains(order[k]) <==> a <= k <= b || b <= k <= a
            &&& r.1 == Some(order[a])
            &&& lone.0.fixtures.contains(order[k]) <==> k == b
            &&& lone.1 == Some(order[b])
        }),
{
    let lists = ClickLists { fixtures: order, objects: seq![], screens: seq![] };
    range_click_takes_what_lies_between(s, n, toggle, lists, a, b, k);
    range_click_takes_what_lies_between(s, n, toggle, lists, b, b, k);
    assert(order.contains(order[a]) && order.contains(order[b]));
}

/// A fixture takes as many channels as its entry says, from 1 to 512; one without an entry
/// takes one.
pub proof fn footprint_counts_channels(patch: Seq<PatchEntry>, i: usize)
    ensures
        i >= patch.len() ==> footprint(patch, i) == 1,
        i < patch.len() && 1 <= patch[i as int].footprint <= 512 ==> footprint(patch, i)
            == patch[i as int].footprint,
        i < patch.len() && patch[i as int].footprint < 1 ==> footprint(patch, i) == 1,
        i < patch.len() && patch[i as int].footprint > 512 ==> footprint(patch, i) == 512,
{
}

} // verus!
