//! What holds of the shortcut layer as a whole: the overrides' effect on the
//! rows, and the masking of keymaps in dispatch.

use vstd::prelude::*;
use crate::shortcuts::dispatch::{
    active_keymaps, axis_label, captured, dispatched, fired_actions, first_press, holds_key,
    modal_actions, modal_hint, modal_label, row_constraint, stacked_rows, ActiveContext, InputView,
    KeyEventView, ModalAction,
};
use crate::shortcuts::effective::{
    added_row, all_clashes, clash, clash_of, clashes_in, effective_row, effective_rows, filter_map,
    first_bound, kept_rows, keymap_clashes, row_clashes, shown_trigger, ClashView,
};
use crate::shortcuts::keymaps::{
    binds, display_name, every_shipped_bind_resolves, home_keymap, keymap_rows, label_of, row_views,
    shipped_triggers_are_unique, Event, Key, KeymapId, KmiView, Modifiers, Platform, Trigger,
    TriggerView,
};
use crate::shortcuts::overrides::{added_without, adds, AddedView, OverridesView};
use crate::shortcuts::registry::{registered, Action, Axis};

verus! {

/// Over a list on which `f` always answers with its argument, `filter_map`
/// changes nothing.
proof fn lemma_identity(s: Seq<KmiView>, f: spec_fn(KmiView) -> Option<KmiView>)
    requires
        forall|i: int| 0 <= i < s.len() ==> f(#[trigger] s[i]) == Some(s[i]),
    ensures
        filter_map(s, f) == s,
    decreases s.len(),
{
    if s.len() > 0 {
        let front = s.drop_last();
        assert forall|i: int| 0 <= i < front.len() implies f(#[trigger] front[i]) == Some(front[i]) by {
            assert(front[i] == s[i]);
        }
        lemma_identity(front, f);
        assert(s[s.len() - 1] == s.last());
        assert(front.push(s.last()) =~= s);
    } else {
        assert(filter_map(s, f) =~= s);
    }
}

/// Every value of `filter_map` comes from an element.
proof fn lemma_from<A, B>(s: Seq<A>, f: spec_fn(A) -> Option<B>, k: int)
    requires
        0 <= k < filter_map(s, f).len(),
    ensures
        exists|i: int| 0 <= i < s.len() && f(#[trigger] s[i]) == Some(filter_map(s, f)[k]),
    decreases s.len(),
{
    let front = filter_map(s.drop_last(), f);
    if k < front.len() {
        lemma_from(s.drop_last(), f, k);
        let i = choose|i: int|
            0 <= i < s.drop_last().len() && f(#[trigger] s.drop_last()[i]) == Some(front[k]);
        assert(f(s[i]) == Some(front[k]));
    } else {
        assert(f(s[s.len() - 1]) == Some(filter_map(s, f)[k]));
    }
}

/// Every element with a value contributes it to `filter_map`.
proof fn lemma_into<A, B>(s: Seq<A>, f: spec_fn(A) -> Option<B>, i: int)
    requires
        0 <= i < s.len(),
        f(s[i]) is Some,
    ensures
        filter_map(s, f).contains(f(s[i])->0),
    decreases s.len(),
{
    let front = filter_map(s.drop_last(), f);
    if i < s.len() - 1 {
        assert(s.drop_last()[i] == s[i]);
        lemma_into(s.drop_last(), f, i);
        let k = choose|k: int| 0 <= k < front.len() && front[k] == f(s[i])->0;
        assert(filter_map(s, f)[k] == f(s[i])->0);
    } else {
        assert(filter_map(s, f)[front.len() as int] == f(s[i])->0);
    }
}

/// Without overrides every keymap is the shipped one.
pub proof fn no_overrides_no_effect(id: KeymapId, ov: OverridesView)
    requires
        ov.is_empty(),
    ensures
        effective_rows(id, ov) == row_views(keymap_rows(id)),
{
    let rows = row_views(keymap_rows(id));
    let f = |row: KmiView| effective_row(row, ov);
    lemma_identity(rows, f);
    assert(effective_rows(id, ov) =~= rows);
}

/// Every row in effect is bound to a registered command, whatever the
/// overrides hold.
pub proof fn every_effective_row_resolves(id: KeymapId, ov: OverridesView, k: int)
    requires
        0 <= k < effective_rows(id, ov).len(),
    ensures
        effective_rows(id, ov)[k].resolves(),
{
    let rows = row_views(keymap_rows(id));
    let f = |row: KmiView| effective_row(row, ov);
    let g = |bind: AddedView| added_row(id, bind);
    let kept = filter_map(rows, f);
    if k < kept.len() {
        lemma_from(rows, f, k);
        let i = choose|i: int| 0 <= i < rows.len() && f(#[trigger] rows[i]) == Some(kept[k]);
        every_shipped_bind_resolves(id, i);
    } else {
        lemma_from(ov.added, g, k - kept.len());
    }
}

/// A rebound command's shipped binds all move to the new trigger: every kept
/// row of the command has it, and there is one wherever the command had a
/// shipped bind. That the command is disabled as well changes nothing.
pub proof fn rebound_command_moves(id: KeymapId, ov: OverridesView, cmd: Seq<char>)
    requires
        ov.rebind.contains_key(cmd),
    ensures
        forall|k: int|
            0 <= k < kept_rows(id, ov).len() && (#[trigger] kept_rows(id, ov)[k]).cmd == cmd
                ==> Some(kept_rows(id, ov)[k].trigger) == ov.rebind[cmd].live(),
        binds(keymap_rows(id), cmd) ==> (ov.rebind[cmd].live() matches Some(trigger) ==> kept_rows(
            id,
            ov,
        ).contains(KmiView { trigger, cmd })),
        kept_rows(id, ov) == kept_rows(
            id,
            OverridesView { disabled: ov.disabled.remove(cmd), ..ov },
        ),
{
    let rows = row_views(keymap_rows(id));
    let f = |row: KmiView| effective_row(row, ov);
    assert forall|k: int|
        0 <= k < kept_rows(id, ov).len() && (#[trigger] kept_rows(id, ov)[k]).cmd == cmd implies Some(
        kept_rows(id, ov)[k].trigger,
    ) == ov.rebind[cmd].live() by {
        lemma_from(rows, f, k);
    }
    if binds(keymap_rows(id), cmd) {
        let i = choose|i: int|
            0 <= i < keymap_rows(id).len() && (#[trigger] keymap_rows(id)[i]).cmd@ == cmd;
        assert(rows[i].cmd == cmd);
        if ov.rebind[cmd].live() is Some {
            lemma_into(rows, f, i);
        }
    }
    let without = OverridesView { disabled: ov.disabled.remove(cmd), ..ov };
    lemma_same_values(rows, f, |row: KmiView| effective_row(row, without));
}

/// `filter_map` depends only on the values of the function on the elements.
proof fn lemma_same_values<A, B>(
    s: Seq<A>,
    f: spec_fn(A) -> Option<B>,
    g: spec_fn(A) -> Option<B>,
)
    requires
        forall|i: int| 0 <= i < s.len() ==> f(#[trigger] s[i]) == g(s[i]),
    ensures
        filter_map(s, f) == filter_map(s, g),
    decreases s.len(),
{
    if s.len() > 0 {
        let front = s.drop_last();
        assert forall|i: int| 0 <= i < front.len() implies f(#[trigger] front[i]) == g(front[i]) by {
            assert(front[i] == s[i]);
        }
        lemma_same_values(front, f, g);
        assert(f(s[s.len() - 1]) == g(s[s.len() - 1]));
    } else {
        assert(filter_map(s, f) =~= filter_map(s, g));
    }
}

/// A disabled command that is not rebound keeps none of its shipped binds.
pub proof fn disabled_command_is_silent(id: KeymapId, ov: OverridesView, cmd: Seq<char>, k: int)
    requires
        ov.disabled.contains(cmd),
        !ov.rebind.contains_key(cmd),
        0 <= k < kept_rows(id, ov).len(),
    ensures
        kept_rows(id, ov)[k].cmd != cmd,
{
    lemma_from(row_views(keymap_rows(id)), |row: KmiView| effective_row(row, ov), k);
}

/// Adding a bind only appends its row, if it has one: nothing else changes. A
/// bind of an unknown command, or on an unknown key, has none.
pub proof fn added_binds_are_additive(id: KeymapId, ov: OverridesView, bind: AddedView)
    ensures
        effective_rows(id, OverridesView { added: ov.added.push(bind), ..ov }) == (match added_row(
            id,
            bind,
        ) {
            Some(row) => effective_rows(id, ov).push(row),
            None => effective_rows(id, ov),
        }),
{
    let more = OverridesView { added: ov.added.push(bind), ..ov };
    let rows = row_views(keymap_rows(id));
    lemma_same_values(
        rows,
        |row: KmiView| effective_row(row, ov),
        |row: KmiView| effective_row(row, more),
    );
    assert(more.added.drop_last() =~= ov.added);
    match added_row(id, bind) {
        Some(row) => {
            assert(effective_rows(id, more) =~= effective_rows(id, ov).push(row));
        },
        None => {
            assert(effective_rows(id, more) =~= effective_rows(id, ov));
        },
    }
}

/// After the overrides that touch a command are cleared, none does.
pub proof fn reset_leaves_nothing(ov: OverridesView, cmd: Seq<char>)
    ensures
        !(OverridesView {
            rebind: ov.rebind.remove(cmd),
            disabled: ov.disabled.remove(cmd),
            added: added_without(ov.added, cmd),
        }).touches(cmd),
{
    lemma_without(ov.added, cmd);
}

proof fn lemma_without(added: Seq<AddedView>, cmd: Seq<char>)
    ensures
        !adds(added_without(added, cmd), cmd),
    decreases added.len(),
{
    reveal(Seq::filter);
    if added.len() > 0 {
        lemma_without(added.drop_last(), cmd);
        let front = added_without(added.drop_last(), cmd);
        let all = added_without(added, cmd);
        assert forall|i: int| 0 <= i < all.len() implies (#[trigger] all[i]).cmd != cmd by {
            if i < front.len() {
                assert(front[i].cmd != cmd);
            }
        }
    }
}

/// A command that no override touches has exactly its shipped binds.
pub proof fn untouched_command_keeps_its_binds(id: KeymapId, ov: OverridesView, cmd: Seq<char>)
    requires
        !ov.touches(cmd),
    ensures
        effective_rows(id, ov).filter(|row: KmiView| row.cmd == cmd) == row_views(
            keymap_rows(id),
        ).filter(|row: KmiView| row.cmd == cmd),
{
    let p = |row: KmiView| row.cmd == cmd;
    let rows = row_views(keymap_rows(id));
    let f = |row: KmiView| effective_row(row, ov);
    let g = |bind: AddedView| added_row(id, bind);
    lemma_kept_filter(rows, ov, cmd);
    lemma_added_filter(id, ov.added, cmd);
    Seq::filter_distributes_over_add(filter_map(rows, f), filter_map(ov.added, g), p);
    assert(effective_rows(id, ov).filter(p) =~= rows.filter(p));
}

proof fn lemma_kept_filter(rows: Seq<KmiView>, ov: OverridesView, cmd: Seq<char>)
    requires
        !ov.touches(cmd),
    ensures
        filter_map(rows, |row: KmiView| effective_row(row, ov)).filter(|row: KmiView| row.cmd == cmd)
            == rows.filter(|row: KmiView| row.cmd == cmd),
    decreases rows.len(),
{
    reveal(Seq::filter);
    let p = |row: KmiView| row.cmd == cmd;
    let f = |row: KmiView| effective_row(row, ov);
    if rows.len() > 0 {
        let front = rows.drop_last();
        lemma_kept_filter(front, ov, cmd);
        match f(rows.last()) {
            Some(row) => {
                let all = filter_map(front, f).push(row);
                assert(all.drop_last() =~= filter_map(front, f));
                assert(all.last() == row);
            },
            None => {},
        }
    }
}

proof fn lemma_added_filter(id: KeymapId, added: Seq<AddedView>, cmd: Seq<char>)
    requires
        !adds(added, cmd),
    ensures
        filter_map(added, |bind: AddedView| added_row(id, bind)).filter(
            |row: KmiView| row.cmd == cmd,
        ).len() == 0,
    decreases added.len(),
{
    reveal(Seq::filter);
    let g = |bind: AddedView| added_row(id, bind);
    if added.len() > 0 {
        let front = added.drop_last();
        assert(added[added.len() - 1].cmd != cmd);
        assert forall|i: int| 0 <= i < front.len() implies (#[trigger] front[i]).cmd != cmd by {
            assert(front[i] == added[i]);
        }
        lemma_added_filter(id, front, cmd);
        match g(added.last()) {
            Some(row) => {
                let all = filter_map(front, g).push(row);
                assert(all.drop_last() =~= filter_map(front, g));
                assert(all.last() == row);
            },
            None => {},
        }
    }
}

proof fn lemma_first_bound(rows: Seq<KmiView>, cmd: Seq<char>)
    ensures
        first_bound(rows, cmd) is None ==> forall|i: int|
            0 <= i < rows.len() ==> (#[trigger] rows[i]).cmd != cmd,
        first_bound(rows, cmd) matches Some(trigger) ==> rows.contains(KmiView { trigger, cmd }),
    decreases rows.len(),
{
    if rows.len() > 0 {
        let front = rows.drop_last();
        lemma_first_bound(front, cmd);
        match first_bound(front, cmd) {
            Some(trigger) => {
                let i = choose|i: int| 0 <= i < front.len() && front[i] == (KmiView { trigger, cmd });
                assert(rows[i] == (KmiView { trigger, cmd }));
            },
            None => {
                assert forall|i: int| 0 <= i < front.len() implies (#[trigger] rows[i]).cmd != cmd by {
                    assert(front[i].cmd != cmd);
                }
                if rows.last().cmd == cmd {
                    assert(rows[rows.len() - 1] == (KmiView { trigger: rows.last().trigger, cmd }));
                }
            },
        }
    }
}

/// The shortcut shown for a command is one that is in effect, and one is shown
/// wherever a row in effect is bound to the command.
pub proof fn shown_shortcut_is_live(cmd: Seq<char>, ov: OverridesView)
    ensures
        shown_trigger(cmd, ov) matches Some(trigger) ==> exists|id: KeymapId|
            (#[trigger] effective_rows(id, ov)).contains(KmiView { trigger, cmd }),
        shown_trigger(cmd, ov) is None ==> forall|id: KeymapId, i: int|
            0 <= i < effective_rows(id, ov).len() ==> (#[trigger] effective_rows(id, ov)[i]).cmd
                != cmd,
{
    lemma_first_bound(effective_rows(KeymapId::Global, ov), cmd);
    lemma_first_bound(effective_rows(KeymapId::Viewport, ov), cmd);
    lemma_first_bound(effective_rows(KeymapId::Modal, ov), cmd);
    assert forall|id: KeymapId, i: int|
        shown_trigger(cmd, ov) is None && 0 <= i < effective_rows(id, ov).len() implies (
    #[trigger] effective_rows(id, ov)[i]).cmd != cmd by {
        match id {
            KeymapId::Global => {},
            KeymapId::Viewport => {},
            KeymapId::Modal => {},
        }
    }
}

/// The shipped keymaps hold no clash.
pub proof fn shipped_keymaps_do_not_clash(ov: OverridesView, platform: Platform)
    requires
        ov.is_empty(),
    ensures
        all_clashes(ov, platform).len() == 0,
{
    lemma_no_clash(KeymapId::Global, ov, platform);
    lemma_no_clash(KeymapId::Viewport, ov, platform);
    lemma_no_clash(KeymapId::Modal, ov, platform);
}

proof fn lemma_no_clash(id: KeymapId, ov: OverridesView, platform: Platform)
    requires
        ov.is_empty(),
    ensures
        clashes_in(id, ov, platform).len() == 0,
{
    no_overrides_no_effect(id, ov);
    let rows = row_views(keymap_rows(id));
    lemma_no_clash_upto(id, rows.len() as int, platform);
}

proof fn lemma_no_clash_upto(id: KeymapId, n: int, platform: Platform)
    requires
        n <= keymap_rows(id).len(),
    ensures
        keymap_clashes(id, row_views(keymap_rows(id)), n, platform).len() == 0,
    decreases n,
{
    if n > 0 {
        lemma_no_clash_upto(id, n - 1, platform);
        lemma_no_row_clash(id, n - 1, keymap_rows(id).len() as int, platform);
    }
}

proof fn lemma_no_row_clash(id: KeymapId, i: int, to: int, platform: Platform)
    requires
        0 <= i < keymap_rows(id).len(),
        to <= keymap_rows(id).len(),
    ensures
        row_clashes(id, row_views(keymap_rows(id)), i, to, platform).len() == 0,
    decreases to,
{
    if to > i + 1 {
        lemma_no_row_clash(id, i, to - 1, platform);
        let rows = row_views(keymap_rows(id));
        if clash(rows[i], rows[to - 1]) {
            shipped_triggers_are_unique(id, i, to - 1);
        }
    }
}

/// Of the rows that fire, dispatch takes for each key the first: what it takes
/// fires and has a key of its own, and a row that fires is taken, or one
/// before it with the same key is.
pub proof fn first_match_per_key_wins(rows: Seq<KmiView>, input: InputView)
    ensures
        forall|i: int|
            0 <= i < dispatched(rows, input).len() ==> (#[trigger] dispatched(
                rows,
                input,
            )[i]).trigger.fires(input) && rows.contains(dispatched(rows, input)[i]),
        forall|i: int, j: int|
            0 <= i < j < dispatched(rows, input).len() ==> (#[trigger] dispatched(
                rows,
                input,
            )[i]).trigger.key != (#[trigger] dispatched(rows, input)[j]).trigger.key,
        forall|i: int|
            0 <= i < rows.len() && (#[trigger] rows[i]).trigger.fires(input) ==> holds_key(
                dispatched(rows.take(i + 1), input),
                rows[i].trigger.key,
            ),
    decreases rows.len(),
{
    if rows.len() > 0 {
        let front_rows = rows.drop_last();
        let front = dispatched(front_rows, input);
        let all = dispatched(rows, input);
        first_match_per_key_wins(front_rows, input);
        assert forall|i: int| 0 <= i < all.len() implies (#[trigger] all[i]).trigger.fires(input)
            && rows.contains(all[i]) by {
            if i < front.len() {
                assert(all[i] == front[i]);
                let k = choose|k: int| 0 <= k < front_rows.len() && front_rows[k] == front[i];
                assert(rows[k] == all[i]);
            } else {
                assert(rows[rows.len() - 1] == all[i]);
            }
        }
        assert forall|i: int, j: int| 0 <= i < j < all.len() implies (#[trigger] all[i]).trigger.key != (
        #[trigger] all[j]).trigger.key by {
            assert(all[i] == front[i]);
            if j < front.len() {
                assert(all[j] == front[j]);
            }
        }
        assert forall|i: int|
            0 <= i < rows.len() && (#[trigger] rows[i]).trigger.fires(input) implies holds_key(
            dispatched(rows.take(i + 1), input),
            rows[i].trigger.key,
        ) by {
            if i < front_rows.len() {
                assert(front_rows[i] == rows[i]);
                assert(front_rows.take(i + 1) =~= rows.take(i + 1));
            } else {
                assert(rows.take(i + 1) =~= rows);
                if !holds_key(front, rows.last().trigger.key) {
                    assert(all[front.len() as int] == rows.last());
                } else {
                    let k = choose|k: int|
                        0 <= k < front.len() && (#[trigger] front[k]).trigger.key
                            == rows.last().trigger.key;
                    assert(all[k] == front[k]);
                }
            }
        }
    }
}

/// Dispatch over two stacked lists takes everything it takes from the first
/// alone, and from the second only keys that the first did not take.
proof fn lemma_stacked(a: Seq<KmiView>, b: Seq<KmiView>, input: InputView)
    ensures
        dispatched(a, input).len() <= dispatched(a + b, input).len(),
        forall|i: int|
            0 <= i < dispatched(a, input).len() ==> #[trigger] dispatched(a + b, input)[i]
                == dispatched(a, input)[i],
        forall|i: int|
            dispatched(a, input).len() <= i < dispatched(a + b, input).len() ==> !holds_key(
                dispatched(a, input),
                (#[trigger] dispatched(a + b, input)[i]).trigger.key,
            ),
    decreases b.len(),
{
    if b.len() == 0 {
        assert(a + b =~= a);
    } else {
        let front = a + b.drop_last();
        lemma_stacked(a, b.drop_last(), input);
        assert((a + b).drop_last() =~= front);
        assert((a + b).last() == b.last());
        let taken = dispatched(front, input);
        let all = dispatched(a + b, input);
        let first = dispatched(a, input);
        assert forall|i: int| first.len() <= i < all.len() implies !holds_key(
            first,
            (#[trigger] all[i]).trigger.key,
        ) by {
            if i < taken.len() {
                assert(all[i] == taken[i]);
            } else if holds_key(first, all[i].trigger.key) {
                let k = choose|k: int|
                    0 <= k < first.len() && (#[trigger] first[k]).trigger.key == all[i].trigger.key;
                assert(taken[k] == first[k]);
                assert(holds_key(taken, all[i].trigger.key));
            }
        }
        assert forall|i: int| 0 <= i < first.len() implies #[trigger] all[i] == first[i] by {
            assert(taken[i] == first[i]);
        }
    }
}

/// While the viewport is focused, a Viewport row that fires masks every Global
/// row on its key: the row dispatched for that key is a Viewport row, and it
/// is the only one.
pub proof fn viewport_masks_global(ov: OverridesView, input: InputView, i: int)
    requires
        0 <= i < effective_rows(KeymapId::Viewport, ov).len(),
        effective_rows(KeymapId::Viewport, ov)[i].trigger.fires(input),
    ensures
        ({
            let key = effective_rows(KeymapId::Viewport, ov)[i].trigger.key;
            let cx = ActiveContext { viewport_focused: true, transform_active: false };
            let taken = dispatched(stacked_rows(active_keymaps(cx), ov), input);
            &&& holds_key(taken, key)
            &&& forall|k: int|
                0 <= k < taken.len() && (#[trigger] taken[k]).trigger.key == key
                    ==> effective_rows(KeymapId::Viewport, ov).contains(taken[k])
        }),
{
    let v = effective_rows(KeymapId::Viewport, ov);
    let g = effective_rows(KeymapId::Global, ov);
    let cx = ActiveContext { viewport_focused: true, transform_active: false };
    let stack = active_keymaps(cx);
    let key = v[i].trigger.key;
    reveal_with_fuel(stacked_rows, 3);
    assert(stack.drop_last() =~= seq![KeymapId::Viewport]);
    assert(stack.drop_last().drop_last() =~= seq![]);
    assert(stacked_rows(stack, ov) =~= v + g);
    let first = dispatched(v, input);
    let taken = dispatched(v + g, input);
    first_match_per_key_wins(v, input);
    lemma_stacked(v, g, input);
    lemma_stacked(v.take(i + 1), v.skip(i + 1), input);
    assert(v.take(i + 1) + v.skip(i + 1) =~= v);
    let upto = dispatched(v.take(i + 1), input);
    let k = choose|k: int| 0 <= k < upto.len() && (#[trigger] upto[k]).trigger.key == key;
    assert(first[k] == upto[k]);
    assert(taken[k] == first[k]);
    assert forall|m: int| 0 <= m < taken.len() && (#[trigger] taken[m]).trigger.key == key implies v.contains(
        taken[m],
    ) by {
        if m < first.len() {
            assert(taken[m] == first[m]);
        } else {
            assert(holds_key(first, key));
        }
    }
}

/// While a transform owns the viewport, or a text field the keyboard, no
/// action fires.
pub proof fn transform_and_typing_suppress_actions(
    input: InputView,
    cx: ActiveContext,
    ov: OverridesView,
)
    requires
        cx.transform_active || input.wants_keyboard,
    ensures
        fired_actions(input, cx, ov) == Seq::<Action>::empty(),
{
    assert(fired_actions(input, cx, ov) =~= Seq::<Action>::empty());
}

/// The actions fired depend on the overrides only through the rows in effect:
/// overrides that leave every keymap as shipped leave dispatch as shipped.
pub proof fn dispatch_follows_the_rows(
    input: InputView,
    cx: ActiveContext,
    a: OverridesView,
    b: OverridesView,
)
    requires
        forall|id: KeymapId| #[trigger] effective_rows(id, a) == effective_rows(id, b),
    ensures
        fired_actions(input, cx, a) == fired_actions(input, cx, b),
        modal_actions(input, a) == modal_actions(input, b),
{
    lemma_same_stack(active_keymaps(cx), a, b);
}

proof fn lemma_same_stack(stack: Seq<KeymapId>, a: OverridesView, b: OverridesView)
    requires
        forall|id: KeymapId| #[trigger] effective_rows(id, a) == effective_rows(id, b),
    ensures
        stacked_rows(stack, a) == stacked_rows(stack, b),
    decreases stack.len(),
{
    if stack.len() > 0 {
        lemma_same_stack(stack.drop_last(), a, b);
    }
}

proof fn lemma_first_press(events: Seq<KeyEventView>, i: int)
    requires
        0 <= i < events.len(),
        events[i].pressed,
        forall|j: int| 0 <= j < i ==> !(#[trigger] events[j]).pressed,
    ensures
        first_press(events) == Some(events[i]),
    decreases events.len(),
{
    if i > 0 {
        let rest = events.drop_first();
        assert(!events[0].pressed);
        assert(rest[i - 1] == events[i]);
        assert forall|j: int| 0 <= j < i - 1 implies !(#[trigger] rest[j]).pressed by {
            assert(rest[j] == events[j + 1]);
        }
        lemma_first_press(rest, i - 1);
    }
}

proof fn lemma_no_press(events: Seq<KeyEventView>)
    requires
        forall|j: int| 0 <= j < events.len() ==> !(#[trigger] events[j]).pressed,
    ensures
        first_press(events) is None,
    decreases events.len(),
{
    if events.len() > 0 {
        let rest = events.drop_first();
        assert(!events[0].pressed);
        assert forall|j: int| 0 <= j < rest.len() implies !(#[trigger] rest[j]).pressed by {
            assert(rest[j] == events[j + 1]);
        }
        lemma_no_press(rest);
    }
}

/// A captured chord fires on the input it was captured from. The first press of a
/// frame, with the modifiers held at that instant, gives a chord on that key that
/// asks for exactly those modifiers: it fires where that key is pressed with them,
/// and on no input without them or without the key.
pub proof fn captured_chord_fires(input: InputView, i: int, other: InputView)
    requires
        0 <= i < input.events.len(),
        input.events[i].pressed,
        forall|j: int| 0 <= j < i ==> !(#[trigger] input.events[j]).pressed,
        !input.moved("Escape"@, true),
    ensures
        ({
            let e = input.events[i];
            let t = captured(input)->0;
            &&& captured(input) is Some
            &&& input.modifiers == e.modifiers ==> t.fires(input)
            &&& t.key == e.key
            &&& t.mods.command == Some(e.modifiers.command)
            &&& t.mods.shift == Some(e.modifiers.shift)
            &&& t.mods.alt == Some(e.modifiers.alt)
            &&& other.modifiers == e.modifiers && other.moved(e.key, true) ==> t.fires(other)
            &&& t.fires(other) ==> other.modifiers == e.modifiers && other.moved(e.key, true)
        }),
{
    lemma_first_press(input.events, i);
    assert(input.moved(input.events[i].key, true));
}

/// Escape is never captured, and without a press nothing is: a key that is let go
/// gives no chord.
pub proof fn nothing_is_captured_without_a_press(input: InputView)
    ensures
        input.moved("Escape"@, true) ==> captured(input) is None,
        (forall|j: int| 0 <= j < input.events.len() ==> !(#[trigger] input.events[j]).pressed)
            ==> captured(input) is None,
{
    if forall|j: int| 0 <= j < input.events.len() ==> !(#[trigger] input.events[j]).pressed {
        lemma_no_press(input.events);
    }
}

/// A trigger with every modifier pinned fires on exactly one state of the modifiers;
/// a modifier that it leaves open does not matter. A press trigger needs the press of
/// its key, a release trigger the release, and the other events never come from keys.
pub proof fn trigger_fires_on_its_chord(t: TriggerView, input: InputView, flipped: Modifiers)
    ensures
        t.fires(input) ==> input.moved(t.key, t.event == Event::Press),
        t.event == Event::Click || t.event == Event::Drag ==> !t.fires(input),
        t.fires(input) && t.mods.command is Some ==> input.modifiers.command == t.mods.command->0,
        t.fires(input) && t.mods.shift is Some ==> input.modifiers.shift == t.mods.shift->0,
        t.fires(input) && t.mods.alt is Some ==> input.modifiers.alt == t.mods.alt->0,
        t.fires(input) && (t.mods.command is Some ==> flipped.command == input.modifiers.command)
            && (t.mods.shift is Some ==> flipped.shift == input.modifiers.shift) && (
        t.mods.alt is Some ==> flipped.alt == input.modifiers.alt) ==> t.fires(
            InputView { modifiers: flipped, ..input },
        ),
        (t.event == Event::Press || t.event == Event::Release) && input.moved(
            t.key,
            t.event == Event::Press,
        ) && (t.mods.command is None || t.mods.command == Some(input.modifiers.command)) && (
        t.mods.shift is None || t.mods.shift == Some(input.modifiers.shift)) && (
        t.mods.alt is None || t.mods.alt == Some(input.modifiers.alt)) ==> t.fires(input),
{
    let moved = InputView { modifiers: flipped, ..input };
    assert(moved.events == input.events);
    if input.moved(t.key, true) {
        let k = choose|k: int|
            0 <= k < input.events.len() && (#[trigger] input.events[k]).key == t.key
                && input.events[k].pressed == true;
        assert(moved.events[k].key == t.key);
        assert(moved.moved(t.key, true));
    }
    if input.moved(t.key, false) {
        let k = choose|k: int|
            0 <= k < input.events.len() && (#[trigger] input.events[k]).key == t.key
                && input.events[k].pressed == false;
        assert(moved.events[k].key == t.key);
        assert(moved.moved(t.key, false));
    }
}

/// A shipped chord asks for exactly the modifiers that it names: a plain key for none
/// of them, with Shift for Shift alone, with the command key for that alone.
pub proof fn chord_asks_for_what_it_names(key: Key, input: InputView)
    ensures
        Trigger::key(key)@.fires(input) ==> input.moved(key@, true) && !input.modifiers.command
            && !input.modifiers.shift && !input.modifiers.alt,
        Trigger::key(key).shift()@.fires(input) ==> input.moved(key@, true) && input.modifiers.shift
            && !input.modifiers.command && !input.modifiers.alt,
        Trigger::key(key).cmd()@.fires(input) ==> input.moved(key@, true)
            && input.modifiers.command && !input.modifiers.shift && !input.modifiers.alt,
        Trigger::key(key).cmd().shift()@.fires(input) ==> input.moved(key@, true)
            && input.modifiers.command && input.modifiers.shift && !input.modifiers.alt,
{
}

/// Rows in conflict compete for the same input: where two rows of different commands
/// share a chord and an event, whatever fires one fires the other. The relation
/// goes both ways, and no row is in conflict with one of its own command.
pub proof fn clashing_rows_compete(a: KmiView, b: KmiView, input: InputView)
    ensures
        clash(a, b) <==> clash(b, a),
        a.cmd == b.cmd ==> !clash(a, b),
        clash(a, b) && a.trigger.event == b.trigger.event ==> (a.trigger.fires(input)
            <==> b.trigger.fires(input)),
        a.cmd != b.cmd && a.trigger.key == b.trigger.key && a.trigger.mods == b.trigger.mods
            ==> clash(a, b),
{
}

proof fn lemma_row_clash_listed(
    id: KeymapId,
    rows: Seq<KmiView>,
    i: int,
    j: int,
    to: int,
    platform: Platform,
)
    requires
        0 <= i < j < to <= rows.len(),
        clash(rows[i], rows[j]),
    ensures
        row_clashes(id, rows, i, to, platform).contains(clash_of(id, rows, i, j, platform)),
    decreases to,
{
    let all = row_clashes(id, rows, i, to, platform);
    let front = row_clashes(id, rows, i, to - 1, platform);
    if j == to - 1 {
        assert(all[front.len() as int] == clash_of(id, rows, i, j, platform));
    } else {
        lemma_row_clash_listed(id, rows, i, j, to - 1, platform);
        let k = choose|k: int|
            0 <= k < front.len() && front[k] == clash_of(id, rows, i, j, platform);
        assert(all[k] == front[k]);
    }
}

proof fn lemma_keymap_clash_listed(
    id: KeymapId,
    rows: Seq<KmiView>,
    i: int,
    j: int,
    n: int,
    platform: Platform,
)
    requires
        0 <= i < j < rows.len(),
        i < n <= rows.len(),
        clash(rows[i], rows[j]),
    ensures
        keymap_clashes(id, rows, n, platform).contains(clash_of(id, rows, i, j, platform)),
    decreases n,
{
    let all = keymap_clashes(id, rows, n, platform);
    let front = keymap_clashes(id, rows, n - 1, platform);
    let last = row_clashes(id, rows, n - 1, rows.len() as int, platform);
    if i == n - 1 {
        lemma_row_clash_listed(id, rows, i, j, rows.len() as int, platform);
        let k = choose|k: int|
            0 <= k < last.len() && last[k] == clash_of(id, rows, i, j, platform);
        assert(all[front.len() + k] == last[k]);
    } else {
        lemma_keymap_clash_listed(id, rows, i, j, n - 1, platform);
        let k = choose|k: int|
            0 <= k < front.len() && front[k] == clash_of(id, rows, i, j, platform);
        assert(all[k] == front[k]);
    }
}

/// Every two rows in effect of one keymap that share a chord and fire different
/// commands are reported: with the keymap, both commands and how the chord reads.
pub proof fn every_clash_is_reported(
    id: KeymapId,
    ov: OverridesView,
    platform: Platform,
    i: int,
    j: int,
)
    requires
        0 <= i < j < effective_rows(id, ov).len(),
        effective_rows(id, ov)[i].cmd != effective_rows(id, ov)[j].cmd,
        effective_rows(id, ov)[i].trigger.key == effective_rows(id, ov)[j].trigger.key,
        effective_rows(id, ov)[i].trigger.mods == effective_rows(id, ov)[j].trigger.mods,
    ensures
        all_clashes(ov, platform).contains(
            (ClashView {
                keymap: id,
                label: label_of(effective_rows(id, ov)[i].trigger, platform),
                first: effective_rows(id, ov)[i].cmd,
                second: effective_rows(id, ov)[j].cmd,
            }),
        ),
{
    let rows = effective_rows(id, ov);
    let c = clash_of(id, rows, i, j, platform);
    lemma_keymap_clash_listed(id, rows, i, j, rows.len() as int, platform);
    let g = clashes_in(KeymapId::Global, ov, platform);
    let v = clashes_in(KeymapId::Viewport, ov, platform);
    let m = clashes_in(KeymapId::Modal, ov, platform);
    let here = clashes_in(id, ov, platform);
    let k = choose|k: int| 0 <= k < here.len() && here[k] == c;
    let all = all_clashes(ov, platform);
    match id {
        KeymapId::Global => assert(all[k] == c),
        KeymapId::Viewport => assert(all[g.len() + k] == c),
        KeymapId::Modal => assert(all[g.len() + v.len() + k] == c),
    }
}

proof fn lemma_reported_row(
    id: KeymapId,
    rows: Seq<KmiView>,
    i: int,
    to: int,
    platform: Platform,
    k: int,
) -> (j: int)
    requires
        0 <= i,
        to <= rows.len(),
        0 <= k < row_clashes(id, rows, i, to, platform).len(),
    ensures
        i < j < to,
        clash(rows[i], rows[j]),
        row_clashes(id, rows, i, to, platform)[k] == clash_of(id, rows, i, j, platform),
    decreases to,
{
    let front = row_clashes(id, rows, i, to - 1, platform);
    if k < front.len() {
        lemma_reported_row(id, rows, i, to - 1, platform, k)
    } else {
        to - 1
    }
}

proof fn lemma_reported(
    id: KeymapId,
    rows: Seq<KmiView>,
    n: int,
    platform: Platform,
    k: int,
) -> (r: (int, int))
    requires
        n <= rows.len(),
        0 <= k < keymap_clashes(id, rows, n, platform).len(),
    ensures
        0 <= r.0 < r.1 < rows.len(),
        clash(rows[r.0], rows[r.1]),
        keymap_clashes(id, rows, n, platform)[k] == clash_of(id, rows, r.0, r.1, platform),
    decreases n,
{
    let front = keymap_clashes(id, rows, n - 1, platform);
    if k < front.len() {
        lemma_reported(id, rows, n - 1, platform, k)
    } else {
        let j = lemma_reported_row(
            id,
            rows,
            n - 1,
            rows.len() as int,
            platform,
            k - front.len(),
        );
        (n - 1, j)
    }
}

/// Nothing else is reported: each report names two rows in effect of its keymap that
/// share a chord and fire different commands.
pub proof fn every_report_is_a_clash(ov: OverridesView, platform: Platform, k: int)
    requires
        0 <= k < all_clashes(ov, platform).len(),
    ensures
        ({
            let c = all_clashes(ov, platform)[k];
            let rows = effective_rows(c.keymap, ov);
            &&& c.first != c.second
            &&& exists|i: int, j: int|
                0 <= i < j < rows.len() && (#[trigger] rows[i]).cmd == c.first && (
                #[trigger] rows[j]).cmd == c.second && rows[i].trigger.key == rows[j].trigger.key
                    && rows[i].trigger.mods == rows[j].trigger.mods
        }),
{
    let g = clashes_in(KeymapId::Global, ov, platform);
    let v = clashes_in(KeymapId::Viewport, ov, platform);
    let (id, at) = if k < g.len() {
        (KeymapId::Global, k)
    } else if k < g.len() + v.len() {
        (KeymapId::Viewport, k - g.len())
    } else {
        (KeymapId::Modal, k - g.len() - v.len())
    };
    let rows = effective_rows(id, ov);
    assert(all_clashes(ov, platform)[k] == clashes_in(id, ov, platform)[at]);
    let (i, j) = lemma_reported(id, rows, rows.len() as int, platform, at);
    assert(rows[i].cmd == all_clashes(ov, platform)[k].first);
    assert(rows[j].cmd == all_clashes(ov, platform)[k].second);
}

/// What a running transform is told: to confirm exactly on Enter or Space, to cancel
/// exactly on Escape, and to lock an axis exactly where a Modal row in effect that
/// locks this axis fires.
pub proof fn modal_keys_say_what_they_mean(input: InputView, ov: OverridesView, axis: Axis)
    ensures
        ({
            let actions = modal_actions(input, ov);
            let rows = effective_rows(KeymapId::Modal, ov);
            let key = match axis {
                Axis::X => ModalAction::ConstrainX,
                Axis::Y => ModalAction::ConstrainY,
                Axis::Z => ModalAction::ConstrainZ,
            };
            &&& actions.contains(ModalAction::Confirm) <==> input.moved("Enter"@, true)
                || input.moved("Space"@, true)
            &&& actions.contains(ModalAction::Cancel) <==> input.moved("Escape"@, true)
            &&& actions.contains(key) <==> exists|i: int|
                0 <= i < rows.len() && (#[trigger] rows[i]).trigger.fires(input) && rows[i].action()
                    == Action::AxisLock(axis)
        }),
{
    let rows = effective_rows(KeymapId::Modal, ov);
    let f = |row: KmiView| row_constraint(row, input);
    let locks = filter_map(rows, f);
    let actions = modal_actions(input, ov);
    let confirms = input.moved("Enter"@, true) || input.moved("Space"@, true);
    let cancels = input.moved("Escape"@, true);
    let c: int = if confirms { 1 } else { 0 };
    assert(actions.len() == locks.len() + c + (if cancels { 1int } else { 0int }));
    assert forall|k: int| 0 <= k < locks.len() implies #[trigger] actions[k] == locks[k] by {}
    if confirms {
        assert(actions[locks.len() as int] == ModalAction::Confirm);
    }
    if cancels {
        assert(actions[locks.len() + c] == ModalAction::Cancel);
    }
    assert forall|k: int| 0 <= k < locks.len() implies exists|i: int|
        0 <= i < rows.len() && (#[trigger] rows[i]).trigger.fires(input) && row_constraint(
            rows[i],
            input,
        ) == Some(#[trigger] locks[k]) by {
        lemma_from(rows, f, k);
        let i = choose|i: int| 0 <= i < rows.len() && f(#[trigger] rows[i]) == Some(locks[k]);
        assert(rows[i].trigger.fires(input));
    }
    let key = match axis {
        Axis::X => ModalAction::ConstrainX,
        Axis::Y => ModalAction::ConstrainY,
        Axis::Z => ModalAction::ConstrainZ,
    };
    if actions.contains(key) {
        let k = choose|k: int| 0 <= k < actions.len() && actions[k] == key;
        assert(k < locks.len());
        assert(locks[k] == key);
    }
    if exists|i: int|
        0 <= i < rows.len() && (#[trigger] rows[i]).trigger.fires(input) && rows[i].action()
            == Action::AxisLock(axis) {
        let i = choose|i: int|
            0 <= i < rows.len() && (#[trigger] rows[i]).trigger.fires(input) && rows[i].action()
                == Action::AxisLock(axis);
        assert(f(rows[i]) == Some(key));
        lemma_into(rows, f, i);
        let k = choose|k: int| 0 <= k < locks.len() && locks[k] == key;
        assert(actions[k] == key);
    }
    if actions.contains(ModalAction::Confirm) {
        let k = choose|k: int| 0 <= k < actions.len() && actions[k] == ModalAction::Confirm;
        if k < locks.len() {
            assert(locks[k] == ModalAction::Confirm);
        }
    }
    if actions.contains(ModalAction::Cancel) {
        let k = choose|k: int| 0 <= k < actions.len() && actions[k] == ModalAction::Cancel;
        if k < locks.len() {
            assert(locks[k] == ModalAction::Cancel);
        }
    }
}

/// An action fires only where a row in effect of an active keymap fires it: of the
/// Viewport keymap with the viewport focused, of the Global one with or without, and
/// never of the Modal one.
pub proof fn actions_come_from_active_rows(
    input: InputView,
    cx: ActiveContext,
    ov: OverridesView,
    k: int,
)
    requires
        0 <= k < fired_actions(input, cx, ov).len(),
    ensures
        ({
            let a = fired_actions(input, cx, ov)[k];
            let v = effective_rows(KeymapId::Viewport, ov);
            let g = effective_rows(KeymapId::Global, ov);
            &&& !cx.transform_active && !input.wants_keyboard
            &&& (exists|i: int|
                0 <= i < g.len() && (#[trigger] g[i]).trigger.fires(input) && g[i].action() == a)
                || (cx.viewport_focused && exists|i: int|
                0 <= i < v.len() && (#[trigger] v[i]).trigger.fires(input) && v[i].action() == a)
        }),
{
    let v = effective_rows(KeymapId::Viewport, ov);
    let g = effective_rows(KeymapId::Global, ov);
    let stack = active_keymaps(cx);
    let rows = stacked_rows(stack, ov);
    lemma_active_rows(cx, ov);
    first_match_per_key_wins(rows, input);
    let taken = dispatched(rows, input);
    let row = taken[k];
    assert(rows.contains(row));
    let j = choose|j: int| 0 <= j < rows.len() && rows[j] == row;
    if cx.viewport_focused && j < v.len() {
        assert(v[j] == row);
    } else if cx.viewport_focused {
        assert(g[j - v.len()] == row);
    } else {
        assert(g[j] == row);
    }
}

proof fn lemma_active_rows(cx: ActiveContext, ov: OverridesView)
    ensures
        stacked_rows(active_keymaps(cx), ov) == (if cx.transform_active {
            seq![]
        } else if cx.viewport_focused {
            effective_rows(KeymapId::Viewport, ov) + effective_rows(KeymapId::Global, ov)
        } else {
            effective_rows(KeymapId::Global, ov)
        }),
{
    let v = effective_rows(KeymapId::Viewport, ov);
    let g = effective_rows(KeymapId::Global, ov);
    let stack = active_keymaps(cx);
    reveal_with_fuel(stacked_rows, 3);
    if !cx.transform_active {
        if cx.viewport_focused {
            assert(stack.drop_last() =~= seq![KeymapId::Viewport]);
            assert(stack.drop_last().drop_last() =~= seq![]);
            assert(stacked_rows(stack, ov) =~= v + g);
        } else {
            assert(stack.drop_last() =~= seq![]);
            assert(stacked_rows(stack, ov) =~= g);
        }
    }
}

/// A row that fires has its action fired, unless a row before it on the same key
/// fires: in the Viewport keymap while the viewport is focused, and in the Global
/// keymap while it is not.
pub proof fn firing_row_is_dispatched(
    input: InputView,
    ov: OverridesView,
    focused: bool,
    id: KeymapId,
    i: int,
)
    requires
        !input.wants_keyboard,
        focused ==> id == KeymapId::Viewport,
        !focused ==> id == KeymapId::Global,
        0 <= i < effective_rows(id, ov).len(),
        effective_rows(id, ov)[i].trigger.fires(input),
        forall|j: int|
            0 <= j < i && (#[trigger] effective_rows(id, ov)[j]).trigger.key == effective_rows(
                id,
                ov,
            )[i].trigger.key ==> !effective_rows(id, ov)[j].trigger.fires(input),
    ensures
        fired_actions(
            input,
            (ActiveContext { viewport_focused: focused, transform_active: false }),
            ov,
        ).contains(effective_rows(id, ov)[i].action()),
{
    let rows = effective_rows(id, ov);
    let cx = ActiveContext { viewport_focused: focused, transform_active: false };
    lemma_active_rows(cx, ov);
    let all = stacked_rows(active_keymaps(cx), ov);
    let head = rows.take(i + 1);
    assert(head + all.skip(i + 1) =~= all);
    lemma_stacked(head, all.skip(i + 1), input);
    first_match_per_key_wins(rows, input);
    first_match_per_key_wins(head, input);
    let upto = dispatched(head, input);
    let key = rows[i].trigger.key;
    let k = choose|k: int| 0 <= k < upto.len() && (#[trigger] upto[k]).trigger.key == key;
    assert(head.contains(upto[k]));
    let j = choose|j: int| 0 <= j < head.len() && head[j] == upto[k];
    assert(head[j] == rows[j]);
    assert(j == i);
    let taken = dispatched(all, input);
    assert(taken[k] == upto[k]);
    assert(fired_actions(input, cx, ov)[k] == rows[i].action());
}

/// The label of a chord ends in the key's, and before it stands something exactly
/// where a modifier must be held. It depends on nothing but the key and which
/// modifiers these are.
pub proof fn label_shows_key_and_modifiers(t: TriggerView, u: TriggerView, platform: Platform)
    ensures
        ({
            let label = label_of(t, platform);
            let name = display_name(t.key);
            let held = t.mods.command == Some(true) || t.mods.alt == Some(true) || t.mods.shift
                == Some(true);
            &&& label.len() >= name.len() && label.skip(label.len() - name.len()) == name
            &&& label.len() == name.len() <==> !held
        }),
        t.key == u.key && (t.mods.command == Some(true) <==> u.mods.command == Some(true)) && (
        t.mods.alt == Some(true) <==> u.mods.alt == Some(true)) && (t.mods.shift == Some(true)
            <==> u.mods.shift == Some(true)) ==> label_of(t, platform) == label_of(u, platform),
{
    reveal_strlit("⌘");
    reveal_strlit("Ctrl+");
    reveal_strlit("⌥+");
    reveal_strlit("Alt+");
    reveal_strlit("Shift+");
    let label = label_of(t, platform);
    let name = display_name(t.key);
    assert(label.skip(label.len() - name.len()) =~= name);
}

proof fn lemma_axis_label(rows: Seq<KmiView>, axis: Axis, platform: Platform)
    ensures
        (exists|i: int|
            0 <= i < rows.len() && (#[trigger] rows[i]).action() == Action::AxisLock(axis)
                && axis_label(rows, axis, platform) == label_of(rows[i].trigger, platform)) || ((
        forall|i: int|
            0 <= i < rows.len() ==> (#[trigger] rows[i]).action() != Action::AxisLock(axis))
            && axis_label(rows, axis, platform).len() == 0),
    decreases rows.len(),
{
    if rows.len() > 0 {
        if rows[0].action() != Action::AxisLock(axis) {
            let rest = rows.drop_first();
            lemma_axis_label(rest, axis, platform);
            if exists|i: int|
                0 <= i < rest.len() && (#[trigger] rest[i]).action() == Action::AxisLock(axis)
                    && axis_label(rest, axis, platform) == label_of(rest[i].trigger, platform) {
                let i = choose|i: int|
                    0 <= i < rest.len() && (#[trigger] rest[i]).action() == Action::AxisLock(axis)
                        && axis_label(rest, axis, platform) == label_of(rest[i].trigger, platform);
                assert(rows[i + 1] == rest[i]);
            } else {
                assert forall|i: int| 0 <= i < rows.len() implies (#[trigger] rows[i]).action()
                    != Action::AxisLock(axis) by {
                    if i > 0 {
                        assert(rest[i - 1] == rows[i]);
                    }
                }
            }
        }
    }
}

/// The hint for an axis is the label of a row in effect that locks that axis, and empty
/// only where none does: what it shows is what the key does.
pub proof fn axis_hint_is_live(axis: Axis, ov: OverridesView, platform: Platform)
    ensures
        ({
            let rows = effective_rows(KeymapId::Modal, ov);
            let label = modal_label(
                match axis {
                    Axis::X => ModalAction::ConstrainX,
                    Axis::Y => ModalAction::ConstrainY,
                    Axis::Z => ModalAction::ConstrainZ,
                },
                ov,
                platform,
            );
            (exists|i: int|
                0 <= i < rows.len() && (#[trigger] rows[i]).action() == Action::AxisLock(axis)
                    && label == label_of(rows[i].trigger, platform)) || ((forall|i: int|
                0 <= i < rows.len() ==> (#[trigger] rows[i]).action() != Action::AxisLock(axis))
                && label.len() == 0)
        }),
{
    lemma_axis_label(effective_rows(KeymapId::Modal, ov), axis, platform);
}

/// Dropping the added binds of a command keeps those of the others.
pub proof fn other_added_binds_stay(added: Seq<AddedView>, cmd: Seq<char>, bind: AddedView)
    ensures
        added_without(added, cmd).contains(bind) <==> added.contains(bind) && bind.cmd != cmd,
    decreases added.len(),
{
    reveal(Seq::filter);
    let kept = added_without(added, cmd);
    if added.len() > 0 {
        let front = added.drop_last();
        let before = added_without(front, cmd);
        other_added_binds_stay(front, cmd, bind);
        assert(kept == if added.last().cmd != cmd { before.push(added.last()) } else { before });
        if kept.contains(bind) {
            let k = choose|k: int| 0 <= k < kept.len() && kept[k] == bind;
            if k < before.len() {
                assert(before[k] == bind);
                assert(before.contains(bind));
                let j = choose|j: int| 0 <= j < front.len() && front[j] == bind;
                assert(added[j] == bind);
            } else {
                assert(added[added.len() - 1] == bind);
            }
        }
        if added.contains(bind) && bind.cmd != cmd {
            let j = choose|j: int| 0 <= j < added.len() && added[j] == bind;
            if j < front.len() {
                assert(front[j] == bind);
                let k = choose|k: int| 0 <= k < before.len() && before[k] == bind;
                assert(kept[k] == bind);
            } else {
                assert(kept[before.len() as int] == bind);
            }
        }
    }
}

/// An added bind on a known key has its row in its keymap, with the chord it was stored
/// with.
pub proof fn added_bind_has_its_row(ov: OverridesView, bind: AddedView)
    requires
        ov.added.contains(bind),
        registered(bind.cmd) is Some,
    ensures
        bind.trigger.live() matches Some(trigger) ==> effective_rows(bind.keymap, ov).contains(
            KmiView { trigger, cmd: bind.cmd },
        ),
{
    let f = |b: AddedView| added_row(bind.keymap, b);
    let i = choose|i: int| 0 <= i < ov.added.len() && ov.added[i] == bind;
    if bind.trigger.live() is Some {
        let row = KmiView { trigger: bind.trigger.live()->0, cmd: bind.cmd };
        assert(f(ov.added[i]) == Some(row));
        lemma_into(ov.added, f, i);
        let rows = filter_map(ov.added, f);
        let kept = kept_rows(bind.keymap, ov);
        let k = choose|k: int| 0 <= k < rows.len() && rows[k] == row;
        assert(effective_rows(bind.keymap, ov) == kept + rows);
        assert((kept + rows)[kept.len() + k] == row);
    }
}

/// A command's home is a keymap that ships a bind for it, and it has none only where no
/// keymap does; a bind in the Global keymap counts first, then one in the Viewport's.
pub proof fn home_keymap_binds_the_command(cmd: Seq<char>, id: KeymapId)
    ensures
        home_keymap(cmd) matches Some(home) ==> binds(keymap_rows(home), cmd),
        home_keymap(cmd) is None ==> !binds(keymap_rows(id), cmd),
        binds(keymap_rows(KeymapId::Global), cmd) ==> home_keymap(cmd) == Some(KeymapId::Global),
        binds(keymap_rows(KeymapId::Viewport), cmd) ==> home_keymap(cmd) != Some(KeymapId::Modal),
{
}

/// The hint of a running transform begins with the labels of the axis keys, in the order of
/// the axes, with a slash after each of the first two.
pub proof fn hint_shows_the_axis_keys(ov: OverridesView, platform: Platform)
    ensures
        ({
            let hint = modal_hint(ov, platform);
            let x = modal_label(ModalAction::ConstrainX, ov, platform);
            let y = modal_label(ModalAction::ConstrainY, ov, platform);
            let z = modal_label(ModalAction::ConstrainZ, ov, platform);
            let a = x.len() as int;
            let b = a + 1 + y.len();
            &&& hint.take(a) == x && hint[a] == '/'
            &&& hint.subrange(a + 1, b) == y && hint[b] == '/'
            &&& hint.subrange(b + 1, b + 1 + z.len()) == z
        }),
{
    reveal_strlit("/");
    let hint = modal_hint(ov, platform);
    let x = modal_label(ModalAction::ConstrainX, ov, platform);
    let y = modal_label(ModalAction::ConstrainY, ov, platform);
    let z = modal_label(ModalAction::ConstrainZ, ov, platform);
    let a = x.len() as int;
    let b = a + 1 + y.len();
    assert(hint.take(a) =~= x);
    assert(hint.subrange(a + 1, b) =~= y);
    assert(hint.subrange(b + 1, b + 1 + z.len()) =~= z);
}

/// A key of one character reads as itself, but for the digits 0, 1, 3, 5 and 7, which read
/// as keys of the numeric pad. So no two of them read alike.
pub proof fn plain_keys_read_as_themselves(a: char, b: char)
    ensures
        ({
            let on_pad = a == '0' || a == '1' || a == '3' || a == '5' || a == '7';
            &&& on_pad ==> display_name(seq![a]) == "Numpad "@ + seq![a]
            &&& !on_pad ==> display_name(seq![a]) == seq![a]
            &&& display_name(seq![a]) == display_name(seq![b]) ==> a == b
        }),
{
    lemma_plain_key(a);
    lemma_plain_key(b);
    reveal_strlit("Numpad ");
    let x = display_name(seq![a]);
    let y = display_name(seq![b]);
    assert(x.last() == a);
    assert(y.last() == b);
}

proof fn lemma_plain_key(a: char)
    ensures
        ({
            let on_pad = a == '0' || a == '1' || a == '3' || a == '5' || a == '7';
            display_name(seq![a]) == if on_pad { "Numpad "@ + seq![a] } else { seq![a] }
        }),
{
    reveal_strlit("Left");
    reveal_strlit("Right");
    reveal_strlit("Up");
    reveal_strlit("Down");
    reveal_strlit("Period");
    reveal_strlit("Comma");
    reveal_strlit("Escape");
    reveal_strlit("Delete");
    reveal_strlit("0");
    reveal_strlit("1");
    reveal_strlit("3");
    reveal_strlit("5");
    reveal_strlit("7");
    reveal_strlit("Numpad ");
    reveal_strlit("Numpad 0");
    reveal_strlit("Numpad 1");
    reveal_strlit("Numpad 3");
    reveal_strlit("Numpad 5");
    reveal_strlit("Numpad 7");
    let key = seq![a];
    assert(key[0] == a);
    assert(key == "0"@ <==> a == '0') by {
        assert("0"@ =~= seq!['0']);
    }
    assert(key == "1"@ <==> a == '1') by {
        assert("1"@ =~= seq!['1']);
    }
    assert(key == "3"@ <==> a == '3') by {
        assert("3"@ =~= seq!['3']);
    }
    assert(key == "5"@ <==> a == '5') by {
        assert("5"@ =~= seq!['5']);
    }
    assert(key == "7"@ <==> a == '7') by {
        assert("7"@ =~= seq!['7']);
    }
    assert("Numpad 0"@ =~= "Numpad "@ + seq!['0']);
    assert("Numpad 1"@ =~= "Numpad "@ + seq!['1']);
    assert("Numpad 3"@ =~= "Numpad "@ + seq!['3']);
    assert("Numpad 5"@ =~= "Numpad "@ + seq!['5']);
    assert("Numpad 7"@ =~= "Numpad "@ + seq!['7']);
}

} // verus!
