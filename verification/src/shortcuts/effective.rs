//! The rows in effect under the override layer, the shortcut a command shows,
//! the clashes between rows, and what the layer promises.

use vstd::prelude::*;
use crate::shortcuts::keymaps::{
    by_id, every_shipped_bind_resolves, key_label, keymap_rows, label_of, row_views, KeymapId, Kmi,
    KmiView, Platform, Trigger, TriggerView,
};
use crate::shortcuts::overrides::{
    added_views, AddedView, IdSet, KeymapOverrides, OverridesView,
};
use crate::shortcuts::registry::{command, found_commands_are_registered, registered};
use crate::text::same_text;

verus! {

/// The values of `f` over `s` where it has one, in order.
pub open spec fn filter_map<A, B>(s: Seq<A>, f: spec_fn(A) -> Option<B>) -> Seq<B>
    decreases s.len(),
{
    if s.len() == 0 {
        Seq::empty()
    } else {
        let front = filter_map(s.drop_last(), f);
        match f(s.last()) {
            Some(b) => front.push(b),
            None => front,
        }
    }
}

/// What becomes of a shipped row: its trigger is swapped where the command is
/// rebound (and the row dropped where the stored key is unknown), else the row
/// is dropped where the command is disabled, else it stays.
pub open spec fn effective_row(row: KmiView, ov: OverridesView) -> Option<KmiView> {
    if ov.rebind.contains_key(row.cmd) {
        match ov.rebind[row.cmd].live() {
            Some(trigger) => Some(KmiView { trigger, cmd: row.cmd }),
            None => None,
        }
    } else if ov.disabled.contains(row.cmd) {
        None
    } else {
        Some(row)
    }
}

/// The row that an added bind gives the keymap `id`: one where the bind is for
/// that keymap, fires a registered command and its stored key is known.
pub open spec fn added_row(id: KeymapId, bind: AddedView) -> Option<KmiView> {
    if bind.keymap == id && registered(bind.cmd) is Some {
        match bind.trigger.live() {
            Some(trigger) => Some(KmiView { trigger, cmd: bind.cmd }),
            None => None,
        }
    } else {
        None
    }
}

/// The shipped rows of the keymap `id` as the overrides leave them.
pub open spec fn kept_rows(id: KeymapId, ov: OverridesView) -> Seq<KmiView> {
    filter_map(row_views(keymap_rows(id)), |row: KmiView| effective_row(row, ov))
}

/// The rows in effect in the keymap `id`: the shipped rows as the overrides
/// leave them, then the added binds.
pub open spec fn effective_rows(id: KeymapId, ov: OverridesView) -> Seq<KmiView> {
    kept_rows(id, ov) + filter_map(ov.added, |bind: AddedView| added_row(id, bind))
}

/// The rows in effect in the keymap `id`.
pub fn effective_items(id: KeymapId, ov: &KeymapOverrides) -> (r: Vec<Kmi>)
    ensures
        row_views(r@) == effective_rows(id, ov@),
        forall|i: int| 0 <= i < r@.len() ==> (#[trigger] r@[i])@.resolves(),
{
    let base = by_id(id);
    let mut out: Vec<Kmi> = Vec::new();
    let mut i: usize = 0;
    let ghost views = row_views(base@);
    let ghost keep = |row: KmiView| effective_row(row, ov@);
    while i < base.len()
        invariant
            i <= base@.len(),
            base@ == keymap_rows(id),
            views == row_views(base@),
            keep == (|row: KmiView| effective_row(row, ov@)),
            row_views(out@) == filter_map(views.take(i as int), keep),
            forall|j: int| 0 <= j < out@.len() ==> (#[trigger] out@[j])@.resolves(),
        decreases base@.len() - i,
    {
        let row = base[i];
        let ghost prev = out@;
        proof {
            every_shipped_bind_resolves(id, i as int);
            assert(views.take(i + 1).drop_last() =~= views.take(i as int));
            assert(views.take(i + 1).last() == row@);
        }
        match ov.rebind.get(row.cmd) {
            Some(stored) => {
                match stored.to_trigger() {
                    Some(trigger) => {
                        out.push(Kmi { trigger, cmd: row.cmd });
                        assert(row_views(out@) =~= row_views(prev).push(keep(row@)->0));
                    },
                    None => {},
                }
            },
            None => {
                if !ov.disabled.contains(row.cmd) {
                    out.push(row);
                    assert(row_views(out@) =~= row_views(prev).push(row@));
                }
            },
        }
        i = i + 1;
    }
    assert(views.take(i as int) =~= views);
    let ghost kept = out@;
    let ghost adds = added_views(ov.added@);
    let ghost extra = |bind: AddedView| added_row(id, bind);
    let mut k: usize = 0;
    while k < ov.added.len()
        invariant
            k <= ov.added@.len(),
            adds == added_views(ov.added@),
            extra == (|bind: AddedView| added_row(id, bind)),
            row_views(out@) == row_views(kept) + filter_map(adds.take(k as int), extra),
            forall|j: int| 0 <= j < out@.len() ==> (#[trigger] out@[j])@.resolves(),
        decreases ov.added@.len() - k,
    {
        let bind = &ov.added[k];
        let ghost prev = out@;
        proof {
            assert(adds.take(k + 1).drop_last() =~= adds.take(k as int));
            assert(adds.take(k + 1).last() == bind@);
        }
        if bind.keymap.to_id() == id {
            match command(bind.cmd.as_str()) {
                Some(c) => {
                    proof {
                        found_commands_are_registered(bind.cmd@);
                    }
                    match bind.trigger.to_trigger() {
                        Some(trigger) => {
                            out.push(Kmi { trigger, cmd: c.id });
                            assert(row_views(out@) =~= row_views(prev).push(extra(bind@)->0));
                        },
                        None => {},
                    }
                },
                None => {},
            }
        }
        k = k + 1;
        assert(row_views(out@) =~= row_views(kept) + filter_map(adds.take(k as int), extra));
    }
    assert(adds.take(k as int) =~= adds);
    out
}

/// The trigger of the first row bound to `cmd`.
pub open spec fn first_bound(rows: Seq<KmiView>, cmd: Seq<char>) -> Option<TriggerView>
    decreases rows.len(),
{
    if rows.len() == 0 {
        None
    } else {
        match first_bound(rows.drop_last(), cmd) {
            Some(t) => Some(t),
            None => if rows.last().cmd == cmd { Some(rows.last().trigger) } else { None },
        }
    }
}

/// The trigger of the first row in effect that is bound to `cmd`, in the keymap
/// `id`.
fn first_in(id: KeymapId, cmd: &str, ov: &KeymapOverrides) -> (r: Option<Trigger>)
    ensures
        r is Some <==> first_bound(effective_rows(id, ov@), cmd@) is Some,
        r matches Some(t) ==> Some(t@) == first_bound(effective_rows(id, ov@), cmd@),
{
    let items = effective_items(id, ov);
    let ghost rows = row_views(items@);
    let mut found: Option<Trigger> = None;
    let mut i: usize = 0;
    while i < items.len()
        invariant
            i <= items@.len(),
            rows == row_views(items@),
            found is Some <==> first_bound(rows.take(i as int), cmd@) is Some,
            found matches Some(t) ==> Some(t@) == first_bound(rows.take(i as int), cmd@),
        decreases items@.len() - i,
    {
        proof {
            assert(rows.take(i + 1).drop_last() =~= rows.take(i as int));
            assert(rows.take(i + 1).last() == items@[i as int]@);
        }
        if found.is_none() && same_text(items[i].cmd, cmd) {
            found = Some(items[i].trigger);
        }
        i = i + 1;
    }
    assert(rows.take(i as int) =~= rows);
    found
}

/// The trigger that a command shows: that of the first row in effect bound to it,
/// in the Global keymap, then the Viewport one, then the Modal one.
pub open spec fn shown_trigger(id: Seq<char>, ov: OverridesView) -> Option<TriggerView> {
    match first_bound(effective_rows(KeymapId::Global, ov), id) {
        Some(t) => Some(t),
        None => match first_bound(effective_rows(KeymapId::Viewport, ov), id) {
            Some(t) => Some(t),
            None => first_bound(effective_rows(KeymapId::Modal, ov), id),
        },
    }
}

/// The label of the shortcut currently bound to a command, read from the rows in
/// effect, or `None` where no key is.
pub fn shortcut_for(id: &str, ov: &KeymapOverrides, platform: Platform) -> (r: Option<String>)
    ensures
        r is Some <==> shown_trigger(id@, ov@) is Some,
        r matches Some(s) ==> s@ == label_of(shown_trigger(id@, ov@)->0, platform),
{
    match first_in(KeymapId::Global, id, ov) {
        Some(t) => {
            return Some(key_label(&t, platform));
        },
        None => {},
    }
    match first_in(KeymapId::Viewport, id, ov) {
        Some(t) => {
            return Some(key_label(&t, platform));
        },
        None => {},
    }
    match first_in(KeymapId::Modal, id, ov) {
        Some(t) => Some(key_label(&t, platform)),
        None => None,
    }
}

/// Two rows of one keymap that share key and modifiers and fire different
/// commands.
pub struct ClashView {
    pub keymap: KeymapId,
    pub label: Seq<char>,
    pub first: Seq<char>,
    pub second: Seq<char>,
}

/// Do two rows share key and modifiers, and fire different commands?
pub open spec fn clash(a: KmiView, b: KmiView) -> bool {
    a.cmd != b.cmd && a.trigger.same_chord(b.trigger)
}

/// The clash of the rows `i` and `j`.
pub open spec fn clash_of(
    id: KeymapId,
    rows: Seq<KmiView>,
    i: int,
    j: int,
    platform: Platform,
) -> ClashView {
    ClashView {
        keymap: id,
        label: label_of(rows[i].trigger, platform),
        first: rows[i].cmd,
        second: rows[j].cmd,
    }
}

/// The clashes of the row `i` with the rows after it and before `to`.
pub open spec fn row_clashes(
    id: KeymapId,
    rows: Seq<KmiView>,
    i: int,
    to: int,
    platform: Platform,
) -> Seq<ClashView>
    decreases to,
{
    if to <= i + 1 || to <= 0 {
        Seq::empty()
    } else {
        let front = row_clashes(id, rows, i, to - 1, platform);
        if clash(rows[i], rows[to - 1]) {
            front.push(clash_of(id, rows, i, to - 1, platform))
        } else {
            front
        }
    }
}

/// The clashes of the first `n` rows with later rows.
pub open spec fn keymap_clashes(
    id: KeymapId,
    rows: Seq<KmiView>,
    n: int,
    platform: Platform,
) -> Seq<ClashView>
    decreases n,
{
    if n <= 0 {
        Seq::empty()
    } else {
        keymap_clashes(id, rows, n - 1, platform) + row_clashes(
            id,
            rows,
            n - 1,
            rows.len() as int,
            platform,
        )
    }
}

/// The clashes within the keymap `id` under `ov`.
pub open spec fn clashes_in(id: KeymapId, ov: OverridesView, platform: Platform) -> Seq<ClashView> {
    keymap_clashes(id, effective_rows(id, ov), effective_rows(id, ov).len() as int, platform)
}

/// Every clash under `ov`, keymap by keymap.
pub open spec fn all_clashes(ov: OverridesView, platform: Platform) -> Seq<ClashView> {
    clashes_in(KeymapId::Global, ov, platform) + clashes_in(KeymapId::Viewport, ov, platform)
        + clashes_in(KeymapId::Modal, ov, platform)
}

/// What a reported clash is.
pub open spec fn clash_view(c: (KeymapId, String, String, String)) -> ClashView {
    ClashView { keymap: c.0, label: c.1@, first: c.2@, second: c.3@ }
}

/// What a list of reported clashes is.
pub open spec fn clash_views(s: Seq<(KeymapId, String, String, String)>) -> Seq<ClashView> {
    Seq::new(s.len(), |i: int| clash_view(s[i]))
}

/// Append the clashes within the keymap `id` to `out`.
fn push_clashes(
    id: KeymapId,
    ov: &KeymapOverrides,
    platform: Platform,
    out: &mut Vec<(KeymapId, String, String, String)>,
)
    ensures
        clash_views(final(out)@) == clash_views(old(out)@) + clashes_in(id, ov@, platform),
{
    let items = effective_items(id, ov);
    let ghost rows = effective_rows(id, ov@);
    let ghost start = clash_views(out@);
    let n: usize = items.len();
    let mut i: usize = 0;
    assert(clash_views(out@) =~= start + keymap_clashes(id, rows, 0, platform));
    while i < n
        invariant
            i <= n == items@.len(),
            rows == row_views(items@),
            clash_views(out@) == start + keymap_clashes(id, rows, i as int, platform),
        decreases n - i,
    {
        let mut j: usize = i + 1;
        let ghost base = clash_views(out@);
        assert(clash_views(out@) =~= base + row_clashes(id, rows, i as int, j as int, platform));
        while j < n
            invariant
                i < j <= n == items@.len(),
                rows == row_views(items@),
                clash_views(out@) == base + row_clashes(id, rows, i as int, j as int, platform),
            decreases n - j,
        {
            if !same_text(items[i].cmd, items[j].cmd) && items[i].trigger.same_chord(&items[j].trigger) {
                let ghost prev = out@;
                out.push(
                    (
                        id,
                        key_label(&items[i].trigger, platform),
                        items[i].cmd.to_owned(),
                        items[j].cmd.to_owned(),
                    ),
                );
                assert(clash_views(out@) =~= clash_views(prev).push(
                    clash_of(id, rows, i as int, j as int, platform),
                ));
            }
            j = j + 1;
            assert(clash_views(out@) =~= base + row_clashes(
                id,
                rows,
                i as int,
                j as int,
                platform,
            ));
        }
        i = i + 1;
        assert(clash_views(out@) =~= start + keymap_clashes(id, rows, i as int, platform));
    }
}

/// Every pair of rows in effect that share key and modifiers within one keymap
/// and fire different commands: the keymap, the label of the trigger and the two
/// command ids.
pub fn conflicts(ov: &KeymapOverrides, platform: Platform) -> (r: Vec<
    (KeymapId, String, String, String),
>)
    ensures
        clash_views(r@) == all_clashes(ov@, platform),
{
    let mut out: Vec<(KeymapId, String, String, String)> = Vec::new();
    push_clashes(KeymapId::Global, ov, platform, &mut out);
    push_clashes(KeymapId::Viewport, ov, platform, &mut out);
    push_clashes(KeymapId::Modal, ov, platform, &mut out);
    assert(clash_views(out@) =~= all_clashes(ov@, platform));
    out
}

/// Do the rows `i` and `j` of the keymap `id` share key and modifiers, and fire
/// different commands?
pub open spec fn clash_at(id: KeymapId, ov: OverridesView, i: int, j: int) -> bool {
    let rows = effective_rows(id, ov);
    &&& 0 <= i < rows.len()
    &&& 0 <= j < rows.len()
    &&& clash(rows[i], rows[j])
}

/// Does a row of the command `cmd` clash with the row of another in its keymap?
pub open spec fn clashes(ov: OverridesView, cmd: Seq<char>) -> bool {
    exists|id: KeymapId, i: int, j: int| #[trigger]
        clash_at(id, ov, i, j) && effective_rows(id, ov)[i].cmd == cmd
}

/// Does `c` name `cmd` on either side?
pub open spec fn names(c: ClashView, cmd: Seq<char>) -> bool {
    c.first == cmd || c.second == cmd
}

/// A row's clashes name exactly the commands of the row pairs that clash.
proof fn lemma_row_clashes(
    id: KeymapId,
    rows: Seq<KmiView>,
    i: int,
    to: int,
    platform: Platform,
    cmd: Seq<char>,
)
    requires
        0 <= i < rows.len(),
        to <= rows.len(),
    ensures
        (exists|k: int| 0 <= k < row_clashes(id, rows, i, to, platform).len() && names(
            #[trigger] row_clashes(id, rows, i, to, platform)[k],
            cmd,
        )) <==> exists|j: int|
            i < j < to && #[trigger] clash(rows[i], rows[j]) && (rows[i].cmd == cmd
                || rows[j].cmd == cmd),
    decreases to,
{
    if to > i + 1 {
        let front = row_clashes(id, rows, i, to - 1, platform);
        let all = row_clashes(id, rows, i, to, platform);
        lemma_row_clashes(id, rows, i, to - 1, platform, cmd);
        if exists|k: int| 0 <= k < all.len() && names(#[trigger] all[k], cmd) {
            let k = choose|k: int| 0 <= k < all.len() && names(#[trigger] all[k], cmd);
            if k < front.len() {
                assert(front[k] == all[k]);
            } else {
                assert(clash(rows[i], rows[to - 1]));
            }
        }
        if exists|j: int|
            i < j < to && #[trigger] clash(rows[i], rows[j]) && (rows[i].cmd == cmd
                || rows[j].cmd == cmd) {
            let j = choose|j: int|
                i < j < to && #[trigger] clash(rows[i], rows[j]) && (rows[i].cmd
                    == cmd || rows[j].cmd == cmd);
            if j < to - 1 {
                let k = choose|k: int| 0 <= k < front.len() && names(#[trigger] front[k], cmd);
                assert(all[k] == front[k]);
            } else {
                assert(names(all[all.len() - 1], cmd));
            }
        }
    }
}

/// A keymap's clashes name exactly the commands of the row pairs that clash.
proof fn lemma_keymap_clashes(
    id: KeymapId,
    rows: Seq<KmiView>,
    n: int,
    platform: Platform,
    cmd: Seq<char>,
)
    requires
        0 <= n <= rows.len(),
    ensures
        (exists|k: int| 0 <= k < keymap_clashes(id, rows, n, platform).len() && names(
            #[trigger] keymap_clashes(id, rows, n, platform)[k],
            cmd,
        )) <==> exists|i: int, j: int|
            0 <= i < n && i < j < rows.len() && #[trigger] clash(rows[i], rows[j]) && (rows[i].cmd == cmd || rows[j].cmd == cmd),
    decreases n,
{
    if n > 0 {
        let front = keymap_clashes(id, rows, n - 1, platform);
        let back = row_clashes(id, rows, n - 1, rows.len() as int, platform);
        let all = keymap_clashes(id, rows, n, platform);
        lemma_keymap_clashes(id, rows, n - 1, platform, cmd);
        lemma_row_clashes(id, rows, n - 1, rows.len() as int, platform, cmd);
        if exists|k: int| 0 <= k < all.len() && names(#[trigger] all[k], cmd) {
            let k = choose|k: int| 0 <= k < all.len() && names(#[trigger] all[k], cmd);
            if k < front.len() {
                assert(front[k] == all[k]);
            } else {
                assert(back[k - front.len()] == all[k]);
            }
        }
        if exists|i: int, j: int|
            0 <= i < n && i < j < rows.len() && #[trigger] clash(rows[i], rows[j]) && (rows[i].cmd == cmd || rows[j].cmd == cmd) {
            let (i, j) = choose|i: int, j: int|
                0 <= i < n && i < j < rows.len() && #[trigger] clash(rows[i], rows[j]) && (rows[i].cmd == cmd || rows[j].cmd == cmd);
            if i < n - 1 {
                let k = choose|k: int| 0 <= k < front.len() && names(#[trigger] front[k], cmd);
                assert(all[k] == front[k]);
            } else {
                let k = choose|k: int| 0 <= k < back.len() && names(#[trigger] back[k], cmd);
                assert(all[front.len() + k] == back[k]);
            }
        }
    }
}

/// The clashes within one keymap name exactly the commands with a clashing row
/// there.
proof fn lemma_clashes_in(id: KeymapId, ov: OverridesView, platform: Platform, cmd: Seq<char>)
    ensures
        (exists|k: int| 0 <= k < clashes_in(id, ov, platform).len() && names(
            #[trigger] clashes_in(id, ov, platform)[k],
            cmd,
        )) <==> exists|i: int, j: int| #[trigger]
            clash_at(id, ov, i, j) && effective_rows(id, ov)[i].cmd == cmd,
{
    let rows = effective_rows(id, ov);
    lemma_keymap_clashes(id, rows, rows.len() as int, platform, cmd);
    if exists|i: int, j: int|
        0 <= i < rows.len() && i < j < rows.len() && #[trigger] clash(rows[i], rows[j]) && (rows[i].cmd == cmd || rows[j].cmd == cmd) {
        let (i, j) = choose|i: int, j: int|
            0 <= i < rows.len() && i < j < rows.len() && #[trigger] clash(rows[i], rows[j]) && (rows[i].cmd == cmd || rows[j].cmd == cmd);
        assert(clash_at(id, ov, i, j));
        assert(clash_at(id, ov, j, i));
    }
    if exists|i: int, j: int| #[trigger] clash_at(id, ov, i, j) && rows[i].cmd == cmd {
        let (i, j) = choose|i: int, j: int| #[trigger] clash_at(id, ov, i, j) && rows[i].cmd == cmd;
        if i < j {
            assert(clash(rows[i], rows[j]));
        } else {
            assert(clash(rows[j], rows[i]));
        }
        let all = keymap_clashes(id, rows, rows.len() as int, platform);
        let k = choose|k: int| 0 <= k < all.len() && names(#[trigger] all[k], cmd);
        assert(names(clashes_in(id, ov, platform)[k], cmd));
    }
    if exists|k: int| 0 <= k < clashes_in(id, ov, platform).len() && names(
        #[trigger] clashes_in(id, ov, platform)[k],
        cmd,
    ) {
        let k = choose|k: int| 0 <= k < clashes_in(id, ov, platform).len() && names(
            #[trigger] clashes_in(id, ov, platform)[k],
            cmd,
        );
        assert(names(keymap_clashes(id, rows, rows.len() as int, platform)[k], cmd));
    }
}

/// The list of all clashes names exactly the commands that clash.
proof fn lemma_all_clashes(ov: OverridesView, platform: Platform, cmd: Seq<char>)
    ensures
        (exists|k: int| 0 <= k < all_clashes(ov, platform).len() && names(
            #[trigger] all_clashes(ov, platform)[k],
            cmd,
        )) <==> clashes(ov, cmd),
{
    let g = clashes_in(KeymapId::Global, ov, platform);
    let v = clashes_in(KeymapId::Viewport, ov, platform);
    let m = clashes_in(KeymapId::Modal, ov, platform);
    let all = all_clashes(ov, platform);
    lemma_clashes_in(KeymapId::Global, ov, platform, cmd);
    lemma_clashes_in(KeymapId::Viewport, ov, platform, cmd);
    lemma_clashes_in(KeymapId::Modal, ov, platform, cmd);
    if exists|k: int| 0 <= k < all.len() && names(#[trigger] all[k], cmd) {
        let k = choose|k: int| 0 <= k < all.len() && names(#[trigger] all[k], cmd);
        if k < g.len() {
            assert(g[k] == all[k]);
        } else if k < g.len() + v.len() {
            assert(v[k - g.len()] == all[k]);
        } else {
            assert(m[k - g.len() - v.len()] == all[k]);
        }
    }
    if clashes(ov, cmd) {
        let (id, i, j) = choose|id: KeymapId, i: int, j: int| #[trigger]
            clash_at(id, ov, i, j) && effective_rows(id, ov)[i].cmd == cmd;
        let part = clashes_in(id, ov, platform);
        let k = choose|k: int| 0 <= k < part.len() && names(#[trigger] part[k], cmd);
        match id {
            KeymapId::Global => {
                assert(all[k] == g[k]);
            },
            KeymapId::Viewport => {
                assert(all[g.len() + k] == v[k]);
            },
            KeymapId::Modal => {
                assert(all[g.len() + v.len() + k] == m[k]);
            },
        }
    }
}

/// The commands with a row in effect that shares key and modifiers with the row of
/// another command in its keymap.
pub fn conflicting_ids(ov: &KeymapOverrides) -> (r: IdSet)
    ensures
        forall|cmd: Seq<char>| #[trigger] r@.contains(cmd) <==> clashes(ov@, cmd),
        r.wf(),
{
    let list = conflicts(ov, Platform::Other);
    let ghost all = all_clashes(ov@, Platform::Other);
    let mut out = IdSet::new();
    let mut i: usize = 0;
    while i < list.len()
        invariant
            i <= list@.len(),
            clash_views(list@) == all,
            out.wf(),
            forall|cmd: Seq<char>| #[trigger]
                out@.contains(cmd) <==> exists|k: int| 0 <= k < i && names(#[trigger] all[k], cmd),
        decreases list@.len() - i,
    {
        let ghost prev = out@;
        assert(all[i as int] == clash_view(list@[i as int]));
        out.insert(list[i].2.clone());
        out.insert(list[i].3.clone());
        assert forall|cmd: Seq<char>| #[trigger] out@.contains(cmd) <==> exists|k: int|
            0 <= k < i + 1 && names(#[trigger] all[k], cmd) by {
            if out@.contains(cmd) {
                if prev.contains(cmd) {
                    let k = choose|k: int| 0 <= k < i && names(#[trigger] all[k], cmd);
                    assert(0 <= k < i + 1 && names(all[k], cmd));
                } else {
                    assert(names(all[i as int], cmd));
                }
            }
            if exists|k: int| 0 <= k < i + 1 && names(#[trigger] all[k], cmd) {
                let k = choose|k: int| 0 <= k < i + 1 && names(#[trigger] all[k], cmd);
                if k < i {
                    assert(prev.contains(cmd));
                }
            }
        }
        i = i + 1;
    }
    assert forall|cmd: Seq<char>| #[trigger] out@.contains(cmd) <==> clashes(ov@, cmd) by {
        lemma_all_clashes(ov@, Platform::Other, cmd);
    }
    out
}

/// The commands in conflict are exactly those that a report names, on either side.
pub proof fn conflicting_commands_are_reported(
    ov: OverridesView,
    platform: Platform,
    cmd: Seq<char>,
)
    ensures
        clashes(ov, cmd) <==> exists|k: int|
            0 <= k < all_clashes(ov, platform).len() && ((#[trigger] all_clashes(
                ov,
                platform,
            )[k]).first == cmd || all_clashes(ov, platform)[k].second == cmd),
{
    lemma_all_clashes(ov, platform, cmd);
    let all = all_clashes(ov, platform);
    if exists|k: int| 0 <= k < all.len() && ((#[trigger] all[k]).first == cmd || all[k].second == cmd) {
        let k = choose|k: int|
            0 <= k < all.len() && ((#[trigger] all[k]).first == cmd || all[k].second == cmd);
        assert(names(all[k], cmd));
    }
}

} // verus!
