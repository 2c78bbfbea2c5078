//! The keyboard-shortcuts cheat sheet, made from the shipped keymaps.

use vstd::prelude::*;
use crate::shortcuts::effective::filter_map;
use crate::shortcuts::keymaps::{
    by_id, every_shipped_bind_resolves, key_label, keymap_rows, label_of, Kmi, KeymapId, Platform,
};
use crate::shortcuts::registry::{registered, Category};

verus! {

/// A row of the sheet.
#[derive(Debug)]
pub struct SheetRow {
    pub label: &'static str,
    pub keys: String,
}

/// What the rows say.
pub open spec fn sheet_views(s: Seq<SheetRow>) -> Seq<(Seq<char>, Seq<char>)> {
    Seq::new(s.len(), |i: int| (s[i].label@, s[i].keys@))
}

/// The row of a bind, if its command is of the category.
pub open spec fn bind_row(k: Kmi, category: Category, platform: Platform) -> Option<
    (Seq<char>, Seq<char>),
> {
    let c = registered(k.cmd@)->0;
    if c.category == category { Some((c.label@, label_of(k.trigger@, platform))) } else { None }
}

/// The rows of a category that a keymap has, in its order.
pub open spec fn keymap_sheet(
    rows: Seq<Kmi>,
    category: Category,
    platform: Platform,
) -> Seq<(Seq<char>, Seq<char>)> {
    filter_map(rows, |k: Kmi| bind_row(k, category, platform))
}

/// What the mouse does, which no keymap holds; it comes first under Navigation.
pub open spec fn mouse_sheet(category: Category) -> Seq<(Seq<char>, Seq<char>)> {
    if category == Category::Navigation {
        seq![
            ("Orbit / Pan / Zoom"@, "drag / Shift+drag / scroll"@),
            ("Select (multi / range)"@, "click / ⌘·Ctrl·Shift+click"@),
        ]
    } else {
        seq![]
    }
}

/// The rows of a category: those of the mouse, then those of the Global keymap,
/// of the Viewport's and of the Modal's.
pub open spec fn sheet_of(category: Category, platform: Platform) -> Seq<(Seq<char>, Seq<char>)> {
    mouse_sheet(category) + keymap_sheet(keymap_rows(KeymapId::Global), category, platform) + keymap_sheet(
        keymap_rows(KeymapId::Viewport),
        category,
        platform,
    ) + keymap_sheet(keymap_rows(KeymapId::Modal), category, platform)
}

/// Append the rows of a category that a keymap has.
fn push_keymap(out: &mut Vec<SheetRow>, id: KeymapId, category: Category, platform: Platform)
    ensures
        sheet_views(final(out)@) == sheet_views(old(out)@) + keymap_sheet(
            keymap_rows(id),
            category,
            platform,
        ),
{
    let rows = by_id(id);
    let ghost start = sheet_views(out@);
    let ghost f = |k: Kmi| bind_row(k, category, platform);
    let mut i: usize = 0;
    assert(filter_map(rows@.take(0), f) =~= seq![]);
    while i < rows.len()
        invariant
            i <= rows@.len(),
            rows@ == keymap_rows(id),
            f == (|k: Kmi| bind_row(k, category, platform)),
            sheet_views(out@) == start + filter_map(rows@.take(i as int), f),
        decreases rows@.len() - i,
    {
        proof {
            every_shipped_bind_resolves(id, i as int);
            assert(rows@.take(i + 1).drop_last() =~= rows@.take(i as int));
        }
        let ghost before = out@;
        let k = &rows[i];
        if k.category() == category {
            out.push(SheetRow { label: k.label(), keys: key_label(&k.trigger, platform) });
            assert(sheet_views(out@) =~= sheet_views(before).push(
                bind_row(rows@[i as int], category, platform)->0,
            ));
        }
        assert(sheet_views(out@) =~= start + filter_map(rows@.take(i + 1), f));
        i = i + 1;
    }
    assert(rows@.take(i as int) =~= rows@);
}

/// The rows of a category: what the mouse does, then the binds of all keymaps.
pub fn sheet_rows(category: Category, platform: Platform) -> (r: Vec<SheetRow>)
    ensures
        sheet_views(r@) == sheet_of(category, platform),
{
    let mut out: Vec<SheetRow> = Vec::new();
    if category == Category::Navigation {
        out.push(
            SheetRow {
                label: "Orbit / Pan / Zoom",
                keys: "drag / Shift+drag / scroll".to_owned(),
            },
        );
        out.push(
            SheetRow {
                label: "Select (multi / range)",
                keys: "click / ⌘·Ctrl·Shift+click".to_owned(),
            },
        );
    }
    assert(sheet_views(out@) =~= mouse_sheet(category));
    push_keymap(&mut out, KeymapId::Global, category, platform);
    push_keymap(&mut out, KeymapId::Viewport, category, platform);
    push_keymap(&mut out, KeymapId::Modal, category, platform);
    assert(sheet_views(out@) =~= sheet_of(category, platform));
    out
}

proof fn lemma_row_is_listed(rows: Seq<Kmi>, i: int, category: Category, platform: Platform)
    requires
        0 <= i < rows.len(),
        bind_row(rows[i], category, platform) is Some,
    ensures
        keymap_sheet(rows, category, platform).contains(
            bind_row(rows[i], category, platform)->0,
        ),
    decreases rows.len(),
{
    let row = bind_row(rows[i], category, platform)->0;
    let f = |k: Kmi| bind_row(k, category, platform);
    let all = filter_map(rows, f);
    let front = filter_map(rows.drop_last(), f);
    if i < rows.len() - 1 {
        lemma_row_is_listed(rows.drop_last(), i, category, platform);
        let j = choose|j: int| 0 <= j < front.len() && front[j] == row;
        assert(all[j] == row);
    } else {
        assert(all[all.len() - 1] == row);
    }
}

/// The sheet leaves no bind out: every shipped one is listed under its
/// command's category, with the command's label and the bind's keys.
pub proof fn every_bind_is_on_the_sheet(id: KeymapId, i: int, platform: Platform)
    requires
        0 <= i < keymap_rows(id).len(),
    ensures
        ({
            let k = keymap_rows(id)[i];
            let c = registered(k.cmd@)->0;
            &&& registered(k.cmd@) is Some
            &&& sheet_of(c.category, platform).contains((c.label@, label_of(k.trigger@, platform)))
        }),
{
    every_shipped_bind_resolves(id, i);
    let k = keymap_rows(id)[i];
    let c = registered(k.cmd@)->0;
    let row = (c.label@, label_of(k.trigger@, platform));
    lemma_row_is_listed(keymap_rows(id), i, c.category, platform);
    let mouse = mouse_sheet(c.category);
    let global = keymap_sheet(keymap_rows(KeymapId::Global), c.category, platform);
    let viewport = keymap_sheet(keymap_rows(KeymapId::Viewport), c.category, platform);
    let modal = keymap_sheet(keymap_rows(KeymapId::Modal), c.category, platform);
    let all = sheet_of(c.category, platform);
    match id {
        KeymapId::Global => {
            let j = choose|j: int| 0 <= j < global.len() && global[j] == row;
            assert(all[mouse.len() + j] == row);
        },
        KeymapId::Viewport => {
            let j = choose|j: int| 0 <= j < viewport.len() && viewport[j] == row;
            assert(all[mouse.len() + global.len() + j] == row);
        },
        KeymapId::Modal => {
            let j = choose|j: int| 0 <= j < modal.len() && modal[j] == row;
            assert(all[mouse.len() + global.len() + viewport.len() + j] == row);
        },
    }
}

proof fn lemma_listed_row(rows: Seq<Kmi>, category: Category, platform: Platform, k: int)
    requires
        0 <= k < keymap_sheet(rows, category, platform).len(),
    ensures
        exists|i: int|
            0 <= i < rows.len() && bind_row(#[trigger] rows[i], category, platform) == Some(
                keymap_sheet(rows, category, platform)[k],
            ),
    decreases rows.len(),
{
    let f = |k: Kmi| bind_row(k, category, platform);
    let front = rows.drop_last();
    let before = keymap_sheet(front, category, platform);
    if k < before.len() {
        lemma_listed_row(front, category, platform, k);
        let i = choose|i: int|
            0 <= i < front.len() && bind_row(#[trigger] front[i], category, platform) == Some(
                before[k],
            );
        assert(rows[i] == front[i]);
    } else {
        assert(rows[rows.len() - 1] == rows.last());
    }
}

/// The sheet lists nothing else: behind what the mouse does, each row is a shipped bind of
/// a command of that category.
pub proof fn every_sheet_row_is_a_bind(category: Category, platform: Platform, k: int)
    requires
        mouse_sheet(category).len() <= k < sheet_of(category, platform).len(),
    ensures
        exists|id: KeymapId, i: int|
            0 <= i < keymap_rows(id).len() && {
                let b = #[trigger] keymap_rows(id)[i];
                let c = registered(b.cmd@)->0;
                c.category == category && sheet_of(category, platform)[k] == (
                    c.label@,
                    label_of(b.trigger@, platform),
                )
            },
{
    let mouse = mouse_sheet(category);
    let global = keymap_sheet(keymap_rows(KeymapId::Global), category, platform);
    let viewport = keymap_sheet(keymap_rows(KeymapId::Viewport), category, platform);
    let modal = keymap_sheet(keymap_rows(KeymapId::Modal), category, platform);
    let all = sheet_of(category, platform);
    let at = k - mouse.len();
    let (id, j) = if at < global.len() {
        (KeymapId::Global, at)
    } else if at < global.len() + viewport.len() {
        (KeymapId::Viewport, at - global.len())
    } else {
        (KeymapId::Modal, at - global.len() - viewport.len())
    };
    let rows = keymap_rows(id);
    lemma_listed_row(rows, category, platform, j);
    assert(all[k] == keymap_sheet(rows, category, platform)[j]);
    let i = choose|i: int|
        0 <= i < rows.len() && bind_row(#[trigger] rows[i], category, platform) == Some(
            keymap_sheet(rows, category, platform)[j],
        );
    assert(keymap_rows(id)[i] == rows[i]);
}

} // verus!
