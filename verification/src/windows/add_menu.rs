//! The Add menu: the library's entries by category, what is pinned above them,
//! and how the keyboard drives it.

use vstd::prelude::*;
use crate::selection::filter_keeps;
use crate::shortcuts::effective::filter_map;
use crate::text::{same_text, trimmed, lowercase, trim_text};
use crate::theme::Icon;
use crate::windows::ranking::{
    arrowed, is_ranking, move_highlight, moved_highlight, rank, ranks_before,
};

verus! {

/// A group of things to add.
#[derive(Clone, Copy, Debug, PartialEq, Eq, Structural)]
pub enum AddCategory {
    Fixtures,
    Screens,
    Environment,
}

impl AddCategory {
    /// The order of the left column.
    pub const ORDER: [AddCategory; 3] = [
        AddCategory::Fixtures,
        AddCategory::Screens,
        AddCategory::Environment,
    ];

    /// The category's label.
    pub fn label(self) -> (r: &'static str)
        ensures
            r@ == (match self {
                AddCategory::Fixtures => "Fixtures"@,
                AddCategory::Screens => "Screens"@,
                AddCategory::Environment => "Environment"@,
            }),
    {
        match self {
            AddCategory::Fixtures => "Fixtures",
            AddCategory::Screens => "Screens",
            AddCategory::Environment => "Environment",
        }
    }

    /// The category's icon.
    #[verifier::allow_in_spec]
    pub fn icon(self) -> Icon
        returns
            (match self {
                AddCategory::Fixtures => Icon::Fixture,
                AddCategory::Screens => Icon::Screen,
                AddCategory::Environment => Icon::Environment,
            }),
    {
        match self {
            AddCategory::Fixtures => Icon::Fixture,
            AddCategory::Screens => Icon::Screen,
            AddCategory::Environment => Icon::Environment,
        }
    }

    /// The next category, and the first after the last.
    #[verifier::allow_in_spec]
    pub fn next(self) -> AddCategory
        returns
            (match self {
                AddCategory::Fixtures => AddCategory::Screens,
                AddCategory::Screens => AddCategory::Environment,
                AddCategory::Environment => AddCategory::Fixtures,
            }),
    {
        match self {
            AddCategory::Fixtures => AddCategory::Screens,
            AddCategory::Screens => AddCategory::Environment,
            AddCategory::Environment => AddCategory::Fixtures,
        }
    }

    /// The category before, and the last before the first.
    #[verifier::allow_in_spec]
    pub fn previous(self) -> AddCategory
        returns
            (match self {
                AddCategory::Fixtures => AddCategory::Environment,
                AddCategory::Screens => AddCategory::Fixtures,
                AddCategory::Environment => AddCategory::Screens,
            }),
    {
        match self {
            AddCategory::Fixtures => AddCategory::Environment,
            AddCategory::Screens => AddCategory::Fixtures,
            AddCategory::Environment => AddCategory::Screens,
        }
    }
}

/// The thing to add, by its place in the library.
#[derive(Clone, Copy, Debug, PartialEq, Eq, Structural)]
pub enum AddAction {
    /// A built-in fixture profile.
    Fixture(usize),
    /// An imported fixture definition.
    Gdtf(usize),
    Screen(usize),
    Environment(usize),
}

/// An item of the library, as the library's preferences name it.
#[derive(Clone, Copy, Debug, PartialEq, Eq, Structural)]
pub enum LibItem {
    Fixture(usize),
    Gdtf(usize),
    Screen(usize),
    Env(usize),
}

/// The library item that an action adds.
#[verifier::allow_in_spec]
pub fn action_item(a: AddAction) -> LibItem
    returns
        (match a {
            AddAction::Fixture(i) => LibItem::Fixture(i),
            AddAction::Gdtf(i) => LibItem::Gdtf(i),
            AddAction::Screen(i) => LibItem::Screen(i),
            AddAction::Environment(i) => LibItem::Env(i),
        }),
{
    match a {
        AddAction::Fixture(i) => LibItem::Fixture(i),
        AddAction::Gdtf(i) => LibItem::Gdtf(i),
        AddAction::Screen(i) => LibItem::Screen(i),
        AddAction::Environment(i) => LibItem::Env(i),
    }
}

/// An entry of the library: what groups it, its name, the key under which it is
/// pinned, and whether it is a laser.
#[derive(Debug)]
pub struct Stock {
    /// The category of a profile, the manufacturer of a definition.
    pub group: String,
    pub name: String,
    /// Empty where the item has no key.
    pub key: String,
    pub laser: bool,
}

/// The library.
#[derive(Debug)]
pub struct Library {
    pub gdtf: Vec<Stock>,
    pub fixtures: Vec<Stock>,
    pub screens: Vec<Stock>,
    pub environments: Vec<Stock>,
}

/// A row of the menu.
#[derive(Debug)]
pub struct Entry {
    pub icon: Icon,
    pub label: String,
    pub action: AddAction,
    pub key: String,
}

/// What an [`Entry`] is.
#[verifier::ext_equal]
pub struct EntryView {
    pub icon: Icon,
    pub label: Seq<char>,
    pub action: AddAction,
    pub key: Seq<char>,
}

impl View for Entry {
    type V = EntryView;

    open spec fn view(&self) -> EntryView {
        EntryView { icon: self.icon, label: self.label@, action: self.action, key: self.key@ }
    }
}

/// What the rows are.
pub open spec fn entry_views(s: Seq<Entry>) -> Seq<EntryView> {
    Seq::new(s.len(), |i: int| s[i]@)
}

impl Entry {
    /// A copy of the row.
    pub fn copy(&self) -> (r: Entry)
        ensures
            r@ == self@,
    {
        Entry {
            icon: self.icon,
            label: self.label.as_str().to_owned(),
            action: self.action,
            key: self.key.as_str().to_owned(),
        }
    }
}

/// The row of a library entry.
pub open spec fn stock_row(s: Stock, icon: Icon, action: AddAction) -> EntryView {
    EntryView { icon, label: s.group@ + " · "@ + s.name@, action, key: s.key@ }
}

fn make_row(s: &Stock, icon: Icon, action: AddAction) -> (r: Entry)
    ensures
        r@ == stock_row(*s, icon, action),
{
    let mut label = s.group.as_str().to_owned();
    label.push_str(" · ");
    label.push_str(s.name.as_str());
    Entry { icon, label, action, key: s.key.as_str().to_owned() }
}

/// The icon of a built-in profile.
#[verifier::allow_in_spec]
pub fn profile_icon(laser: bool) -> Icon
    returns
        (if laser {
            Icon::Color
        } else {
            Icon::Fixture
        }),
{
    if laser {
        Icon::Color
    } else {
        Icon::Fixture
    }
}

/// The rows of the imported definitions.
pub open spec fn gdtf_rows(l: Library) -> Seq<EntryView> {
    Seq::new(
        l.gdtf@.len(),
        |i: int| stock_row(l.gdtf@[i], Icon::Fixture, AddAction::Gdtf(i as usize)),
    )
}

/// The rows of the built-in profiles.
pub open spec fn profile_rows(l: Library) -> Seq<EntryView> {
    Seq::new(
        l.fixtures@.len(),
        |i: int|
            stock_row(
                l.fixtures@[i],
                profile_icon(l.fixtures@[i].laser),
                AddAction::Fixture(i as usize),
            ),
    )
}

/// The rows of the screens.
pub open spec fn screen_stock_rows(l: Library) -> Seq<EntryView> {
    Seq::new(
        l.screens@.len(),
        |i: int| stock_row(l.screens@[i], Icon::Screen, AddAction::Screen(i as usize)),
    )
}

/// The rows of the environments.
pub open spec fn environment_stock_rows(l: Library) -> Seq<EntryView> {
    Seq::new(
        l.environments@.len(),
        |i: int|
            stock_row(l.environments@[i], Icon::Environment, AddAction::Environment(i as usize)),
    )
}

/// The rows of a category, in catalog order. Imported definitions come before
/// the built-in profiles.
pub open spec fn category_rows(l: Library, category: AddCategory) -> Seq<EntryView> {
    match category {
        AddCategory::Fixtures => gdtf_rows(l) + profile_rows(l),
        AddCategory::Screens => screen_stock_rows(l),
        AddCategory::Environment => environment_stock_rows(l),
    }
}

/// The rows of a category, in catalog order.
pub fn category_entries(library: &Library, category: AddCategory) -> (r: Vec<Entry>)
    ensures
        entry_views(r@) == category_rows(*library, category),
{
    let mut out: Vec<Entry> = Vec::new();
    assert(entry_views(out@) =~= seq![]);
    match category {
        AddCategory::Fixtures => {
            let mut i: usize = 0;
            while i < library.gdtf.len()
                invariant
                    i <= library.gdtf@.len(),
                    entry_views(out@) == gdtf_rows(*library).take(i as int),
                decreases library.gdtf@.len() - i,
            {
                let ghost before = out@;
                out.push(make_row(&library.gdtf[i], Icon::Fixture, AddAction::Gdtf(i)));
                assert(entry_views(out@) =~= entry_views(before).push(
                    gdtf_rows(*library)[i as int],
                ));
                assert(gdtf_rows(*library).take(i + 1) =~= gdtf_rows(*library).take(i as int).push(
                    gdtf_rows(*library)[i as int],
                ));
                i = i + 1;
            }
            assert(gdtf_rows(*library).take(i as int) =~= gdtf_rows(*library));
            let ghost done = entry_views(out@);
            i = 0;
            while i < library.fixtures.len()
                invariant
                    i <= library.fixtures@.len(),
                    entry_views(out@) == done + profile_rows(*library).take(i as int),
                decreases library.fixtures@.len() - i,
            {
                let ghost before = out@;
                let p = &library.fixtures[i];
                out.push(make_row(p, profile_icon(p.laser), AddAction::Fixture(i)));
                assert(entry_views(out@) =~= entry_views(before).push(
                    profile_rows(*library)[i as int],
                ));
                assert(profile_rows(*library).take(i + 1) =~= profile_rows(*library).take(
                    i as int,
                ).push(profile_rows(*library)[i as int]));
                i = i + 1;
            }
            assert(profile_rows(*library).take(i as int) =~= profile_rows(*library));
        },
        AddCategory::Screens => {
            let mut i: usize = 0;
            while i < library.screens.len()
                invariant
                    i <= library.screens@.len(),
                    entry_views(out@) == screen_stock_rows(*library).take(i as int),
                decreases library.screens@.len() - i,
            {
                let ghost before = out@;
                out.push(make_row(&library.screens[i], Icon::Screen, AddAction::Screen(i)));
                assert(entry_views(out@) =~= entry_views(before).push(
                    screen_stock_rows(*library)[i as int],
                ));
                assert(screen_stock_rows(*library).take(i + 1) =~= screen_stock_rows(*library).take(
                    i as int,
                ).push(screen_stock_rows(*library)[i as int]));
                i = i + 1;
            }
            assert(screen_stock_rows(*library).take(i as int) =~= screen_stock_rows(*library));
        },
        AddCategory::Environment => {
            let mut i: usize = 0;
            while i < library.environments.len()
                invariant
                    i <= library.environments@.len(),
                    entry_views(out@) == environment_stock_rows(*library).take(i as int),
                decreases library.environments@.len() - i,
            {
                let ghost before = out@;
                out.push(
                    make_row(
                        &library.environments[i],
                        Icon::Environment,
                        AddAction::Environment(i),
                    ),
                );
                assert(entry_views(out@) =~= entry_views(before).push(
                    environment_stock_rows(*library)[i as int],
                ));
                assert(environment_stock_rows(*library).take(i + 1) =~= environment_stock_rows(
                    *library,
                ).take(i as int).push(environment_stock_rows(*library)[i as int]));
                i = i + 1;
            }
            assert(environment_stock_rows(*library).take(i as int) =~= environment_stock_rows(
                *library,
            ));
        },
    }
    out
}

/// The menu's filter as it is searched for: trimmed, in lower case.
pub fn menu_query(search: &str) -> (r: String)
    ensures
        r@ == lowercase(trimmed(search@)),
{
    trim_text(search).as_str().to_lowercase()
}

/// The rows that the menu lists of a category's: all of them in catalog order
/// without a query, else those that match, best first.
pub open spec fn is_menu_list(
    rows: Seq<EntryView>,
    query: Seq<char>,
    scores: Seq<Option<i32>>,
    list: Seq<EntryView>,
) -> bool {
    if query.len() == 0 {
        list == rows
    } else {
        exists|r: Seq<usize>| #[trigger]
            is_ranking(scores, r) && list == r.map_values(|i: usize| rows[i as int])
    }
}

/// The rows that the menu lists. `scores` says how well each of the category's
/// rows matches the query.
pub fn entries(
    library: &Library,
    category: AddCategory,
    query: &str,
    scores: &Vec<Option<i32>>,
) -> (r: Vec<Entry>)
    requires
        query@.len() > 0 ==> scores@.len() == category_rows(*library, category).len(),
    ensures
        is_menu_list(category_rows(*library, category), query@, scores@, entry_views(r@)),
{
    let rows = category_entries(library, category);
    if query.unicode_len() == 0 {
        return rows;
    }
    let ghost views = entry_views(rows@);
    let order = rank(scores);
    let mut out: Vec<Entry> = Vec::new();
    let ghost f = |i: usize| views[i as int];
    let mut k: usize = 0;
    assert(entry_views(out@) =~= order@.take(0).map_values(f));
    while k < order.len()
        invariant
            k <= order@.len(),
            views == entry_views(rows@),
            scores@.len() == rows@.len(),
            is_ranking(scores@, order@),
            f == (|i: usize| views[i as int]),
            entry_views(out@) == order@.take(k as int).map_values(f),
        decreases order@.len() - k,
    {
        let ghost before = out@;
        out.push(rows[order[k]].copy());
        assert(entry_views(out@) =~= entry_views(before).push(views[order@[k as int] as int]));
        assert(order@.take(k + 1).map_values(f) =~= order@.take(k as int).map_values(f).push(
            f(order@[k as int]),
        ));
        k = k + 1;
    }
    assert(order@.take(k as int) =~= order@);
    out
}

/// Every row of every category, in order.
pub open spec fn all_rows(l: Library) -> Seq<EntryView> {
    category_rows(l, AddCategory::Fixtures) + category_rows(l, AddCategory::Screens)
        + category_rows(l, AddCategory::Environment)
}

/// The first row with the key.
pub open spec fn row_with_key(rows: Seq<EntryView>, key: Seq<char>) -> Option<EntryView>
    decreases rows.len(),
{
    if rows.len() == 0 {
        None
    } else if rows[0].key == key {
        Some(rows[0])
    } else {
        row_with_key(rows.drop_first(), key)
    }
}

/// The rows with the recent keys, most recent first. A key that the library
/// does not have is passed over.
pub open spec fn recent_rows(rows: Seq<EntryView>, recent: Seq<String>) -> Seq<EntryView> {
    filter_map(recent, |k: String| row_with_key(rows, k@))
}

/// The rows with a favourite key, in catalog order.
pub open spec fn favourite_rows(rows: Seq<EntryView>, favourites: Seq<String>) -> Seq<EntryView> {
    rows.filter(|e: EntryView| holds_key(favourites, e.key))
}

/// Is the key among them?
pub open spec fn holds_key(keys: Seq<String>, key: Seq<char>) -> bool {
    exists|i: int| 0 <= i < keys.len() && (#[trigger] keys[i])@ == key
}

fn key_in(keys: &Vec<String>, key: &str) -> (r: bool)
    ensures
        r == holds_key(keys@, key@),
{
    let mut k: usize = 0;
    while k < keys.len()
        invariant
            k <= keys@.len(),
            forall|j: int| 0 <= j < k ==> (#[trigger] keys@[j])@ != key@,
        decreases keys@.len() - k,
    {
        if same_text(keys[k].as_str(), key) {
            return true;
        }
        k = k + 1;
    }
    false
}

fn find_key(rows: &Vec<Entry>, key: &str) -> (r: Option<Entry>)
    ensures
        match r {
            Some(e) => row_with_key(entry_views(rows@), key@) == Some(e@),
            None => row_with_key(entry_views(rows@), key@) is None,
        },
{
    let n: usize = rows.len();
    let ghost views = entry_views(rows@);
    let mut k: usize = 0;
    assert(views.subrange(0, n as int) =~= views);
    while k < n
        invariant
            n == rows@.len(),
            k <= n,
            views == entry_views(rows@),
            row_with_key(views, key@) == row_with_key(views.subrange(k as int, n as int), key@),
        decreases n - k,
    {
        assert(views.subrange(k as int, n as int).drop_first() =~= views.subrange(k + 1, n as int));
        if same_text(rows[k].key.as_str(), key) {
            return Some(rows[k].copy());
        }
        k = k + 1;
    }
    None
}

/// The rows pinned above the catalog: the recent ones and the favourites, of
/// all categories.
pub fn pinned_entries(
    library: &Library,
    recent: &Vec<String>,
    favourites: &Vec<String>,
) -> (r: (Vec<Entry>, Vec<Entry>))
    ensures
        entry_views(r.0@) == recent_rows(all_rows(*library), recent@),
        entry_views(r.1@) == favourite_rows(all_rows(*library), favourites@),
{
    let mut all: Vec<Entry> = category_entries(library, AddCategory::Fixtures);
    let mut more = category_entries(library, AddCategory::Screens);
    let ghost a = entry_views(all@);
    let ghost b = entry_views(more@);
    all.append(&mut more);
    assert(entry_views(all@) =~= a + b);
    let mut more = category_entries(library, AddCategory::Environment);
    let ghost c = entry_views(more@);
    all.append(&mut more);
    assert(entry_views(all@) =~= a + b + c);
    let ghost rows = all_rows(*library);
    let ghost f = |k: String| row_with_key(rows, k@);
    let mut found: Vec<Entry> = Vec::new();
    let mut k: usize = 0;
    assert(entry_views(found@) =~= seq![]);
    while k < recent.len()
        invariant
            k <= recent@.len(),
            entry_views(all@) == rows,
            f == (|k: String| row_with_key(rows, k@)),
            entry_views(found@) == filter_map(recent@.take(k as int), f),
        decreases recent@.len() - k,
    {
        let ghost before = found@;
        assert(recent@.take(k + 1).drop_last() =~= recent@.take(k as int));
        if let Some(e) = find_key(&all, recent[k].as_str()) {
            let ghost v = e@;
            found.push(e);
            assert(entry_views(found@) =~= entry_views(before).push(v));
        }
        k = k + 1;
    }
    assert(recent@.take(k as int) =~= recent@);
    let ghost p = |e: EntryView| holds_key(favourites@, e.key);
    let mut starred: Vec<Entry> = Vec::new();
    k = 0;
    assert(entry_views(starred@) =~= seq![]);
    proof {
        reveal(Seq::filter);
    }
    while k < all.len()
        invariant
            k <= all@.len(),
            entry_views(all@) == rows,
            p == (|e: EntryView| holds_key(favourites@, e.key)),
            entry_views(starred@) == rows.take(k as int).filter(p),
        decreases all@.len() - k,
    {
        reveal(Seq::filter);
        let ghost before = starred@;
        assert(rows.take(k + 1).drop_last() =~= rows.take(k as int));
        assert(rows[k as int] == all@[k as int]@);
        if key_in(favourites, all[k].key.as_str()) {
            starred.push(all[k].copy());
            assert(entry_views(starred@) =~= entry_views(before).push(rows[k as int]));
        }
        k = k + 1;
    }
    assert(rows.take(k as int) =~= rows);
    (found, starred)
}

/// Is the row starred? A row without a key cannot be.
pub fn is_starred(e: &Entry, favourites: &Vec<String>) -> (r: bool)
    ensures
        r == starred(e.key@, favourites@),
        r == (e.key@.len() > 0 && holds_key(favourites@, e.key@)),
{
    e.key.as_str().unicode_len() > 0 && key_in(favourites, e.key.as_str())
}

/// The open menu; `S` is where on the screen it stands.
#[derive(Debug)]
pub struct AddMenuState<S> {
    pub open: bool,
    pub anchor: S,
    pub category: AddCategory,
    /// The highlighted row of the list.
    pub idx: usize,
    pub search: String,
}

/// A frame's keys.
#[derive(Clone, Copy, Debug, PartialEq, Eq, Structural)]
pub struct MenuKeys {
    pub escape: bool,
    pub enter: bool,
    pub down: bool,
    pub up: bool,
    pub left: bool,
    pub right: bool,
}

/// The category after a frame's arrows; the left arrow wins over the right.
#[verifier::allow_in_spec]
pub fn category_after(category: AddCategory, keys: MenuKeys) -> AddCategory
    returns
        (if keys.left {
            category.previous()
        } else if keys.right {
            category.next()
        } else {
            category
        }),
{
    if keys.left {
        category.previous()
    } else if keys.right {
        category.next()
    } else {
        category
    }
}

impl<S> AddMenuState<S> {
    /// A closed menu.
    pub fn closed(anchor: S) -> (r: AddMenuState<S>)
        ensures
            !r.open,
            r.anchor == anchor,
            r.category == AddCategory::Fixtures,
            r.idx == 0,
            r.search@.len() == 0,
    {
        AddMenuState {
            open: false,
            anchor,
            category: AddCategory::Fixtures,
            idx: 0,
            search: String::new(),
        }
    }

    /// Open the menu at a point, with the first row highlighted and no filter;
    /// the category stays.
    pub fn show_at(&mut self, anchor: S)
        ensures
            final(self).open,
            final(self).anchor == anchor,
            final(self).idx == 0,
            final(self).search@.len() == 0,
            final(self).category == old(self).category,
    {
        self.open = true;
        self.anchor = anchor;
        self.idx = 0;
        self.search = String::new();
    }

    /// Go to a category, as a click on it does.
    pub fn go_to(&mut self, category: AddCategory)
        ensures
            final(self).category == category,
            final(self).idx == 0,
            final(self).open == old(self).open,
            final(self).search == old(self).search,
            final(self).anchor == old(self).anchor,
    {
        self.category = category;
        self.idx = 0;
    }

    /// A frame's keys, before the list is made: the up and down arrows move the
    /// highlight; Escape closes; where it does not, the left and right arrows go
    /// to another category, whose first row is highlighted. The result says
    /// whether the menu stays.
    pub fn keys(&mut self, keys: MenuKeys) -> (open: bool)
        requires
            old(self).open,
        ensures
            open == !keys.escape,
            final(self).open == open,
            final(self).search == old(self).search,
            final(self).anchor == old(self).anchor,
            final(self).category == (if open {
                category_after(old(self).category, keys)
            } else {
                old(self).category
            }),
            final(self).idx == (if open && (keys.left || keys.right) {
                0
            } else {
                arrowed(old(self).idx, keys.down, keys.up)
            }),
    {
        self.idx = arrowed(self.idx, keys.down, keys.up);
        if keys.escape {
            self.open = false;
            return false;
        }
        if keys.left || keys.right {
            self.category = category_after(self.category, keys);
            self.idx = 0;
        }
        true
    }

    /// Keep the highlight within a list of `len` rows.
    pub fn keep_within(&mut self, len: usize)
        ensures
            final(self).idx == moved_highlight(old(self).idx, false, false, len as nat),
            len > 0 ==> final(self).idx < len,
            final(self).open == old(self).open,
            final(self).search == old(self).search,
            final(self).anchor == old(self).anchor,
            final(self).category == old(self).category,
    {
        self.idx = move_highlight(self.idx, false, false, len);
    }

    /// What the frame adds: the row clicked, else on Enter the highlighted row
    /// of the list, or its last where the highlight is past it. That, or a press
    /// outside, closes the menu.
    pub fn finish(
        &mut self,
        list: &Vec<Entry>,
        enter: bool,
        clicked: Option<AddAction>,
        outside: bool,
    ) -> (r: Option<AddAction>)
        ensures
            r == added_by(
                Seq::new(list@.len(), |i: int| list@[i].action),
                old(self).idx,
                enter,
                clicked,
            ),
            r == (match clicked {
                Some(a) => Some(a),
                None => if enter && list@.len() > 0 {
                    Some(
                        list@[if old(self).idx < list@.len() {
                            old(self).idx as int
                        } else {
                            list@.len() - 1
                        }].action,
                    )
                } else {
                    None
                },
            }),
            final(self).open == (old(self).open && r is None && !outside),
            final(self).idx == old(self).idx,
            final(self).search == old(self).search,
            final(self).anchor == old(self).anchor,
            final(self).category == old(self).category,
    {
        let mut picked = clicked;
        let n: usize = list.len();
        if enter && picked.is_none() && n > 0 {
            let at: usize = if self.idx < n {
                self.idx
            } else {
                n - 1
            };
            picked = Some(list[at].action);
        }
        if picked.is_some() || outside {
            self.open = false;
        }
        picked
    }
}

/// Going through the categories to the right and back to the left ends where
/// it began, and three steps go round.
pub proof fn categories_go_round(c: AddCategory)
    ensures
        c.next().previous() == c,
        c.previous().next() == c,
        c.next().next().next() == c,
{
}

/// Every row of the library stands in the category that lists it, and picking
/// it adds that library item.
pub proof fn every_item_has_its_row(l: Library, i: int)
    ensures
        0 <= i < l.gdtf@.len() ==> category_rows(l, AddCategory::Fixtures)[i].action
            == AddAction::Gdtf(i as usize),
        0 <= i < l.fixtures@.len() ==> category_rows(l, AddCategory::Fixtures)[l.gdtf@.len()
            + i].action == AddAction::Fixture(i as usize),
        0 <= i < l.screens@.len() ==> category_rows(l, AddCategory::Screens)[i].action
            == AddAction::Screen(i as usize),
        0 <= i < l.environments@.len() ==> category_rows(l, AddCategory::Environment)[i].action
            == AddAction::Environment(i as usize),
{
}

/// A row shows what it adds: the group and the name of the library's entry, under the key
/// by which it is pinned.
pub proof fn row_shows_what_it_adds(l: Library, c: AddCategory, k: int)
    requires
        0 <= k < category_rows(l, c).len(),
    ensures
        ({
            let row = category_rows(l, c)[k];
            let stock = match row.action {
                AddAction::Fixture(i) => l.fixtures@[i as int],
                AddAction::Gdtf(i) => l.gdtf@[i as int],
                AddAction::Screen(i) => l.screens@[i as int],
                AddAction::Environment(i) => l.environments@[i as int],
            };
            &&& row.label == stock.group@ + " · "@ + stock.name@
            &&& row.key == stock.key@
            &&& c == AddCategory::Screens <==> row.action is Screen
            &&& c == AddCategory::Environment <==> row.action is Environment
            &&& c == AddCategory::Fixtures <==> row.action is Fixture || row.action is Gdtf
        }),
        category_rows(l, AddCategory::Fixtures).len() == l.gdtf@.len() + l.fixtures@.len(),
        category_rows(l, AddCategory::Screens).len() == l.screens@.len(),
        category_rows(l, AddCategory::Environment).len() == l.environments@.len(),
{
    assert(l.gdtf@.len() == l.gdtf.len());
    assert(l.fixtures@.len() == l.fixtures.len());
    assert(l.screens@.len() == l.screens.len());
    assert(l.environments@.len() == l.environments.len());
}

/// An action adds the library item of its own kind and place.
pub proof fn action_adds_its_item(i: usize)
    ensures
        action_item(AddAction::Fixture(i)) == LibItem::Fixture(i),
        action_item(AddAction::Gdtf(i)) == LibItem::Gdtf(i),
        action_item(AddAction::Screen(i)) == LibItem::Screen(i),
        action_item(AddAction::Environment(i)) == LibItem::Env(i),
{
}

/// Without a query the menu lists the whole category in its order; with one exactly the
/// rows that match, the best of them first.
pub proof fn menu_lists_the_matches(
    rows: Seq<EntryView>,
    query: Seq<char>,
    scores: Seq<Option<i32>>,
    list: Seq<EntryView>,
    i: int,
)
    requires
        is_menu_list(rows, query, scores, list),
        query.len() > 0 ==> scores.len() == rows.len() <= usize::MAX,
    ensures
        query.len() == 0 ==> list == rows,
        query.len() > 0 && 0 <= i < rows.len() && scores[i] is Some ==> list.contains(rows[i]),
        query.len() > 0 ==> forall|k: int|
            0 <= k < list.len() ==> exists|j: int|
                0 <= j < rows.len() && scores[j] is Some && #[trigger] rows[j] == #[trigger] list[k],
        query.len() > 0 && 0 <= i < rows.len() && scores[i] is Some ==> exists|j: int|
            0 <= j < rows.len() && scores[j] is Some && scores[j]->0 >= scores[i]->0
                && #[trigger] rows[j] == list[0],
{
    if query.len() > 0 {
        let r = choose|r: Seq<usize>| #[trigger]
            is_ranking(scores, r) && list == r.map_values(|i: usize| rows[i as int]);
        assert(list.len() == r.len());
        if 0 <= i < rows.len() && scores[i] is Some {
            assert(r.contains(i as usize));
            let k = choose|k: int| 0 <= k < r.len() && r[k] == i as usize;
            assert(list[k] == rows[i]);
            assert(list[0] == rows[r[0] as int]);
            if k > 0 {
                assert(ranks_before(scores, r[0] as int, r[k] as int));
            }
        }
        assert forall|k: int| 0 <= k < list.len() implies exists|j: int|
            0 <= j < rows.len() && scores[j] is Some && #[trigger] rows[j] == #[trigger] list[k] by {
            assert(list[k] == rows[r[k] as int]);
        }
    }
}

/// The favourites are exactly the rows whose key is starred.
pub proof fn favourites_are_the_starred(
    rows: Seq<EntryView>,
    favourites: Seq<String>,
    e: EntryView,
)
    ensures
        favourite_rows(rows, favourites).contains(e) <==> rows.contains(e) && exists|i: int|
            0 <= i < favourites.len() && (#[trigger] favourites[i])@ == e.key,
{
    let p = |e: EntryView| holds_key(favourites, e.key);
    filter_keeps(rows, p);
    assert(favourite_rows(rows, favourites) == rows.filter(p));
}

proof fn lemma_row_with_key(rows: Seq<EntryView>, key: Seq<char>)
    ensures
        row_with_key(rows, key) matches Some(e) ==> rows.contains(e) && e.key == key,
        row_with_key(rows, key) is None ==> forall|k: int|
            0 <= k < rows.len() ==> (#[trigger] rows[k]).key != key,
    decreases rows.len(),
{
    if rows.len() > 0 {
        if rows[0].key != key {
            let rest = rows.drop_first();
            lemma_row_with_key(rest, key);
            if let Some(e) = row_with_key(rest, key) {
                let k = choose|k: int| 0 <= k < rest.len() && rest[k] == e;
                assert(rows[k + 1] == e);
            } else {
                assert forall|k: int| 0 <= k < rows.len() implies (#[trigger] rows[k]).key
                    != key by {
                    if k > 0 {
                        assert(rest[k - 1] == rows[k]);
                    }
                }
            }
        }
    }
}

/// A recent key has its row where the library has an entry with that key, and none where
/// it has not; so the rows keep the order of the keys.
pub proof fn recent_rows_follow_the_keys(
    rows: Seq<EntryView>,
    recent: Seq<String>,
    last: String,
)
    ensures
        ({
            let before = recent_rows(rows, recent);
            let after = recent_rows(rows, recent.push(last));
            &&& (exists|k: int| 0 <= k < rows.len() && (#[trigger] rows[k]).key == last@)
                ==> after.len() == before.len() + 1 && after.take(before.len() as int) == before
                && after.last().key == last@ && rows.contains(after.last())
            &&& (forall|k: int| 0 <= k < rows.len() ==> (#[trigger] rows[k]).key != last@) ==> after
                == before
        }),
{
    lemma_row_with_key(rows, last@);
    assert(recent.push(last).drop_last() =~= recent);
    let before = recent_rows(rows, recent);
    let after = recent_rows(rows, recent.push(last));
    if let Some(e) = row_with_key(rows, last@) {
        assert(after == before.push(e));
        assert(after.take(before.len() as int) =~= before);
        let k = choose|k: int| 0 <= k < rows.len() && rows[k] == e;
        assert(rows[k].key == last@);
    }
}

/// What a frame adds: the row clicked, else on Enter the highlighted one.
pub open spec fn added_by(
    actions: Seq<AddAction>,
    idx: usize,
    enter: bool,
    clicked: Option<AddAction>,
) -> Option<AddAction> {
    match clicked {
        Some(a) => Some(a),
        None => if enter && actions.len() > 0 {
            Some(actions[if idx < actions.len() { idx as int } else { actions.len() - 1 }])
        } else {
            None
        },
    }
}

/// A click adds what was clicked, whatever is highlighted; Enter adds the highlighted row,
/// or the last where the highlight is past it; nothing is added otherwise.
pub proof fn click_and_enter_add_their_row(
    actions: Seq<AddAction>,
    idx: usize,
    enter: bool,
    a: AddAction,
)
    ensures
        added_by(actions, idx, enter, Some(a)) == Some(a),
        idx < actions.len() ==> added_by(actions, idx, true, None) == Some(actions[idx as int]),
        actions.len() > 0 && idx >= actions.len() ==> added_by(actions, idx, true, None) == Some(
            actions.last(),
        ),
        actions.len() == 0 ==> added_by(actions, idx, true, None) is None,
        added_by(actions, idx, false, None) is None,
{
}

/// The arrows go through the categories: right to the next, left to the one before, and
/// without either it stays.
pub proof fn arrows_change_the_category(c: AddCategory, keys: MenuKeys)
    ensures
        keys.left ==> category_after(c, keys).next() == c,
        keys.right && !keys.left ==> category_after(c, keys) == c.next(),
        !keys.left && !keys.right ==> category_after(c, keys) == c,
        AddCategory::Fixtures.next() == AddCategory::Screens,
{
}

/// The rows that can be pinned are those of every category.
pub proof fn every_category_can_be_pinned(l: Library, c: AddCategory, k: int)
    requires
        0 <= k < category_rows(l, c).len(),
    ensures
        all_rows(l).contains(category_rows(l, c)[k]),
{
    let f = category_rows(l, AddCategory::Fixtures);
    let s = category_rows(l, AddCategory::Screens);
    let all = all_rows(l);
    let row = category_rows(l, c)[k];
    match c {
        AddCategory::Fixtures => assert(all[k] == row),
        AddCategory::Screens => assert(all[f.len() + k] == row),
        AddCategory::Environment => assert(all[f.len() + s.len() + k] == row),
    }
}

/// Is a row with that key starred?
pub open spec fn starred(key: Seq<char>, favourites: Seq<String>) -> bool {
    key.len() > 0 && holds_key(favourites, key)
}

/// A star shows on the rows whose key is among the favourites, and never on a row without a
/// key.
pub proof fn star_needs_a_key(key: Seq<char>, favourites: Seq<String>, i: int)
    ensures
        key.len() == 0 ==> !starred(key, favourites),
        key.len() > 0 && 0 <= i < favourites.len() && favourites[i]@ == key ==> starred(
            key,
            favourites,
        ),
        starred(key, favourites) ==> exists|k: int|
            0 <= k < favourites.len() && (#[trigger] favourites[k])@ == key,
{
}

} // verus!
