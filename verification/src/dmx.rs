//! The DMX universe grid: which universes there are, which fixture occupies
//! which channel, and what the grid says of it; and the texts of the
//! connectivity panel.

use vstd::prelude::*;
use crate::scene::{Fixture, PatchEntry, PatchTable, Scene};
use crate::selection::{holds, nothing, SelItem, Selection, SelectionView};
use crate::text::{decimal, decimal_reads_back, number_of, push_decimal};
use crate::viewport::overlay::Tier;

verus! {

/// The channels of a universe.
pub const CELLS: usize = 512;

/// The columns of the grid.
pub const COLS: usize = 16;

/// The rows of the grid.
pub const ROWS: usize = 32;

/// The numbers ascend, and none occurs twice.
pub open spec fn ascending(s: Seq<u16>) -> bool {
    forall|i: int, j: int| 0 <= i < j < s.len() ==> #[trigger] s[i] < #[trigger] s[j]
}

/// Put `u` into an ascending list, unless it is there.
fn put_universe(v: &mut Vec<u16>, u: u16)
    requires
        ascending(old(v)@),
    ensures
        ascending(final(v)@),
        forall|x: u16| final(v)@.contains(x) <==> (old(v)@.contains(x) || x == u),
{
    let ghost before = v@;
    let mut at: usize = 0;
    while at < v.len()
        invariant
            v@ == before,
            before == old(v)@,
            ascending(v@),
            at <= v@.len(),
            forall|k: int| 0 <= k < at ==> #[trigger] v@[k] < u,
        decreases v@.len() - at,
    {
        if v[at] == u {
            assert(v@[at as int] == u);
            return;
        }
        if v[at] > u {
            v.insert(at, u);
            proof {
                lemma_put(before, at as int, u);
            }
            return;
        }
        at = at + 1;
    }
    v.push(u);
    proof {
        assert(v@ =~= before.insert(at as int, u));
        lemma_put(before, at as int, u);
    }
}

proof fn lemma_put(s: Seq<u16>, at: int, u: u16)
    requires
        ascending(s),
        0 <= at <= s.len(),
        forall|k: int| 0 <= k < at ==> #[trigger] s[k] < u,
        at < s.len() ==> s[at] > u,
    ensures
        ascending(s.insert(at, u)),
        forall|x: u16| s.insert(at, u).contains(x) <==> (s.contains(x) || x == u),
{
    let t = s.insert(at, u);
    assert forall|i: int, j: int| 0 <= i < j < t.len() implies #[trigger] t[i] < #[trigger] t[j] by {
        if j < at {
            assert(t[i] == s[i] && t[j] == s[j]);
        } else if j == at {
            assert(t[i] == s[i]);
        } else if i < at {
            assert(t[i] == s[i] && t[j] == s[j - 1]);
        } else if i == at {
            assert(t[j] == s[j - 1]);
            if j - 1 > at {
                assert(s[at] < s[j - 1]);
            }
        } else {
            assert(t[i] == s[i - 1] && t[j] == s[j - 1]);
        }
    }
    assert forall|x: u16| t.contains(x) <==> (s.contains(x) || x == u) by {
        if t.contains(x) {
            let k = choose|k: int| 0 <= k < t.len() && t[k] == x;
            if k < at {
                assert(s[k] == x);
            } else if k > at {
                assert(s[k - 1] == x);
            }
        }
        if s.contains(x) {
            let k = choose|k: int| 0 <= k < s.len() && s[k] == x;
            if k < at {
                assert(t[k] == x);
            } else {
                assert(t[k + 1] == x);
            }
        }
        if x == u {
            assert(t[at] == x);
        }
    }
}

/// The universes that the grid can show, given those that the patch refers to
/// and those that frames came for: all of them, ascending; where there is none,
/// the selected one.
pub fn universe_list(patched: &Vec<u16>, live: &Vec<u16>, selected: u16) -> (r: Vec<u16>)
    ensures
        r@.len() > 0,
        ascending(r@),
        patched@.len() + live@.len() > 0 ==> forall|x: u16|
            r@.contains(x) <==> (patched@.contains(x) || live@.contains(x)),
        patched@.len() + live@.len() == 0 ==> r@ == seq![selected],
{
    let mut out: Vec<u16> = Vec::new();
    let mut k: usize = 0;
    while k < patched.len()
        invariant
            k <= patched@.len(),
            ascending(out@),
            k > 0 ==> out@.len() > 0,
            k == 0 ==> out@.len() == 0,
            forall|x: u16| out@.contains(x) <==> patched@.take(k as int).contains(x),
        decreases patched@.len() - k,
    {
        put_universe(&mut out, patched[k]);
        proof {
            let a = patched@.take(k as int);
            let b = patched@.take(k + 1);
            assert(b =~= a.push(patched@[k as int]));
            assert forall|x: u16| out@.contains(x) <==> b.contains(x) by {
                lemma_pushed(a, patched@[k as int], x);
            }
            assert(out@.contains(patched@[k as int]));
        }
        k = k + 1;
    }
    assert(patched@.take(k as int) =~= patched@);
    k = 0;
    while k < live.len()
        invariant
            k <= live@.len(),
            ascending(out@),
            k + patched@.len() > 0 ==> out@.len() > 0,
            k + patched@.len() == 0 ==> out@.len() == 0,
            forall|x: u16|
                out@.contains(x) <==> (patched@.contains(x) || live@.take(k as int).contains(x)),
        decreases live@.len() - k,
    {
        put_universe(&mut out, live[k]);
        proof {
            let a = live@.take(k as int);
            let b = live@.take(k + 1);
            assert(b =~= a.push(live@[k as int]));
            assert forall|x: u16|
                out@.contains(x) <==> (patched@.contains(x) || b.contains(x)) by {
                lemma_pushed(a, live@[k as int], x);
            }
            assert(out@.contains(live@[k as int]));
        }
        k = k + 1;
    }
    assert(live@.take(k as int) =~= live@);
    if out.len() == 0 {
        out.push(selected);
        assert(out@ =~= seq![selected]);
    }
    out
}

proof fn lemma_pushed(s: Seq<u16>, u: u16, x: u16)
    ensures
        s.push(u).contains(x) <==> (s.contains(x) || x == u),
{
    let t = s.push(u);
    if t.contains(x) {
        let k = choose|k: int| 0 <= k < t.len() && t[k] == x;
        if k < s.len() {
            assert(s[k] == x);
        }
    }
    if s.contains(x) {
        let k = choose|k: int| 0 <= k < s.len() && s[k] == x;
        assert(t[k] == x);
    }
    if x == u {
        assert(t[s.len() as int] == x);
    }
}

/// The place of a universe in the list.
fn universe_place(list: &Vec<u16>, u: u16) -> (r: Option<usize>)
    ensures
        r is Some <==> list@.contains(u),
        r matches Some(k) ==> k < list@.len() && list@[k as int] == u,
{
    let mut k: usize = 0;
    while k < list.len()
        invariant
            k <= list@.len(),
            forall|j: int| 0 <= j < k ==> #[trigger] list@[j] != u,
        decreases list@.len() - k,
    {
        if list[k] == u {
            return Some(k);
        }
        k = k + 1;
    }
    None
}

/// The universe to show: the selected one where the list has it, else the
/// first.
pub fn shown_universe(list: &Vec<u16>, selected: u16) -> (r: u16)
    requires
        list@.len() > 0,
    ensures
        r == universe_shown(list@, selected),
        r == (if list@.contains(selected) { selected } else { list@[0] }),
{
    match universe_place(list, selected) {
        Some(_) => selected,
        None => list[0],
    }
}

/// The universe before the selected one; the first stays.
pub fn previous_universe(list: &Vec<u16>, selected: u16) -> (r: u16)
    requires
        ascending(list@),
    ensures
        forall|k: int|
            0 <= k < list@.len() && #[trigger] list@[k] == selected ==> r == list@[place_beside(
                list@.len(),
                k,
                false,
            )],
        !list@.contains(selected) ==> r == selected,
        forall|k: int|
            0 <= k < list@.len() && #[trigger] list@[k] == selected ==> r == list@[if k > 0 {
                k - 1
            } else {
                0
            }],
{
    match universe_place(list, selected) {
        Some(k) => {
            proof {
                assert forall|j: int| 0 <= j < list@.len() && #[trigger] list@[j] == selected implies j
                    == k by {
                    assert(list@[k as int] == selected);
                }
            }
            if k > 0 {
                list[k - 1]
            } else {
                list[0]
            }
        },
        None => selected,
    }
}

/// The universe after the selected one; the last stays.
pub fn next_universe(list: &Vec<u16>, selected: u16) -> (r: u16)
    requires
        ascending(list@),
    ensures
        forall|k: int|
            0 <= k < list@.len() && #[trigger] list@[k] == selected ==> r == list@[place_beside(
                list@.len(),
                k,
                true,
            )],
        !list@.contains(selected) ==> r == selected,
        forall|k: int|
            0 <= k < list@.len() && #[trigger] list@[k] == selected ==> r == list@[if k + 1
                < list@.len() {
                k + 1
            } else {
                list@.len() - 1
            }],
{
    match universe_place(list, selected) {
        Some(k) => {
            proof {
                assert forall|j: int| 0 <= j < list@.len() && #[trigger] list@[j] == selected implies j
                    == k by {
                    assert(list@[k as int] == selected);
                }
            }
            let n: usize = list.len();
            if k + 1 < n {
                list[k + 1]
            } else {
                list[n - 1]
            }
        },
        None => selected,
    }
}

/// A channel of a fixture's DMX mode: its offset from the start address, how
/// many cells it takes and what it controls.
#[derive(Debug)]
pub struct MapChannel {
    pub offset: u16,
    pub width: u8,
    pub attribute: String,
}

/// A cell that a fixture claims: counted from 0, and possibly past the end of
/// the universe.
pub struct Claim {
    pub cell: int,
    pub fixture: usize,
    pub attribute: Seq<char>,
}

/// The first cell of an address, counted from 0.
pub open spec fn base_cell(address: u16) -> int {
    if address == 0 { 0 } else { address - 1 }
}

/// The cells that a channel claims.
pub open spec fn channel_claims(base: int, c: MapChannel, fixture: usize) -> Seq<Claim> {
    Seq::new(
        c.width as nat,
        |k: int| Claim { cell: base + c.offset + k, fixture, attribute: c.attribute@ },
    )
}

/// The cells that a fixture's channels claim, in order.
pub open spec fn mode_claims(base: int, channels: Seq<MapChannel>, fixture: usize) -> Seq<Claim>
    decreases channels.len(),
{
    if channels.len() == 0 {
        seq![]
    } else {
        mode_claims(base, channels.drop_last(), fixture) + channel_claims(
            base,
            channels.last(),
            fixture,
        )
    }
}

/// Is the fixture `i` patched to the universe?
pub open spec fn in_universe(patch: Seq<PatchEntry>, i: int, universe: u16) -> bool {
    0 <= i < patch.len() && patch[i].enabled && patch[i].universe == universe
}

/// The cells that the first `n` fixtures claim in a universe, in order.
/// `channels` are the channels of each fixture in its patched mode.
pub open spec fn claims(
    patch: Seq<PatchEntry>,
    channels: Seq<Vec<MapChannel>>,
    universe: u16,
    n: nat,
) -> Seq<Claim>
    decreases n,
{
    if n == 0 {
        seq![]
    } else {
        let i = n - 1;
        let before = claims(patch, channels, universe, i as nat);
        if in_universe(patch, i, universe) {
            before + mode_claims(base_cell(patch[i].address), channels[i]@, i as usize)
        } else {
            before
        }
    }
}

/// Is the cell claimed?
pub open spec fn claimed(cs: Seq<Claim>, cell: int) -> bool {
    exists|k: int| 0 <= k < cs.len() && (#[trigger] cs[k]).cell == cell
}

/// The first claim of a cell.
pub open spec fn first_claim(cs: Seq<Claim>, cell: int) -> Option<Claim>
    decreases cs.len(),
{
    if cs.len() == 0 {
        None
    } else {
        match first_claim(cs.drop_last(), cell) {
            Some(c) => Some(c),
            None => if cs.last().cell == cell { Some(cs.last()) } else { None },
        }
    }
}

/// Is the cell claimed more than once?
pub open spec fn contested(cs: Seq<Claim>, cell: int) -> bool
    decreases cs.len(),
{
    if cs.len() == 0 {
        false
    } else {
        contested(cs.drop_last(), cell) || (cs.last().cell == cell && first_claim(
            cs.drop_last(),
            cell,
        ) is Some)
    }
}

/// Who occupies each cell of a universe, and which cells are contested.
#[derive(Debug)]
pub struct Occupancy {
    pub cells: Vec<Option<(usize, String)>>,
    pub conflicts: Vec<bool>,
}

/// A cell as the claims have it.
pub open spec fn cell_is(cell: Option<(usize, String)>, claim: Option<Claim>) -> bool {
    match (cell, claim) {
        (Some((f, a)), Some(c)) => f == c.fixture && a@ == c.attribute,
        (None, None) => true,
        _ => false,
    }
}

impl Occupancy {
    /// Does the occupancy show the claims?
    pub open spec fn shows(self, cs: Seq<Claim>) -> bool {
        &&& self.cells@.len() == 512
        &&& self.conflicts@.len() == 512
        &&& forall|c: int| 0 <= c < 512 ==> cell_is(#[trigger] self.cells@[c], first_claim(cs, c))
        &&& forall|c: int| 0 <= c < 512 ==> #[trigger] self.conflicts@[c] == contested(cs, c)
    }

    /// An occupancy without a claim.
    fn empty() -> (r: Occupancy)
        ensures
            r.shows(seq![]),
    {
        let mut cells: Vec<Option<(usize, String)>> = Vec::new();
        let mut conflicts: Vec<bool> = Vec::new();
        let mut k: usize = 0;
        while k < CELLS
            invariant
                k <= CELLS,
                cells@.len() == k,
                conflicts@.len() == k,
                forall|c: int| 0 <= c < k ==> (#[trigger] cells@[c]) is None,
                forall|c: int| 0 <= c < k ==> !#[trigger] conflicts@[c],
            decreases CELLS - k,
        {
            cells.push(None);
            conflicts.push(false);
            k = k + 1;
        }
        Occupancy { cells, conflicts }
    }

    /// One claim more.
    fn claim(&mut self, cell: usize, fixture: usize, attribute: &str, Ghost(cs): Ghost<Seq<Claim>>)
        requires
            old(self).shows(cs),
        ensures
            final(self).shows(cs.push(Claim { cell: cell as int, fixture, attribute: attribute@ })),
    {
        let ghost claim = Claim { cell: cell as int, fixture, attribute: attribute@ };
        let ghost now = cs.push(claim);
        assert(now.drop_last() =~= cs);
        if cell < CELLS {
            assert(cell_is(self.cells@[cell as int], first_claim(cs, cell as int)));
            let taken = self.cells[cell].is_some();
            if taken {
                self.conflicts.set(cell, true);
            } else {
                self.cells.set(cell, Some((fixture, attribute.to_owned())));
            }
            let ghost before = *old(self);
            assert forall|c: int| 0 <= c < 512 implies cell_is(
                #[trigger] self.cells@[c],
                first_claim(now, c),
            ) by {
                assert(cell_is(before.cells@[c], first_claim(cs, c)));
            }
            assert forall|c: int| 0 <= c < 512 implies #[trigger] self.conflicts@[c] == contested(
                now,
                c,
            ) by {
                assert(before.conflicts@[c] == contested(cs, c));
                assert(cell_is(before.cells@[c], first_claim(cs, c)));
            }
        } else {
            assert forall|c: int| 0 <= c < 512 implies cell_is(
                #[trigger] self.cells@[c],
                first_claim(now, c),
            ) by {
                assert(cell_is(self.cells@[c], first_claim(cs, c)));
            }
            assert forall|c: int| 0 <= c < 512 implies #[trigger] self.conflicts@[c] == contested(
                now,
                c,
            ) by {
                assert(self.conflicts@[c] == contested(cs, c));
            }
        }
    }

    /// The claims of a fixture's channels.
    fn claim_mode(
        &mut self,
        base: usize,
        channels: &Vec<MapChannel>,
        fixture: usize,
        Ghost(cs): Ghost<Seq<Claim>>,
    )
        requires
            old(self).shows(cs),
            base <= 65535,
        ensures
            final(self).shows(cs + mode_claims(base as int, channels@, fixture)),
    {
        let mut j: usize = 0;
        assert(channels@.take(0) =~= seq![]);
        assert(cs + mode_claims(base as int, channels@.take(0), fixture) =~= cs);
        while j < channels.len()
            invariant
                j <= channels@.len(),
                base <= 65535,
                self.shows(cs + mode_claims(base as int, channels@.take(j as int), fixture)),
            decreases channels@.len() - j,
        {
            let c = &channels[j];
            let ghost done = cs + mode_claims(base as int, channels@.take(j as int), fixture);
            let ghost mine = channel_claims(base as int, *c, fixture);
            let width: usize = c.width as usize;
            let start: usize = base + c.offset as usize;
            let mut k: usize = 0;
            assert(done + mine.take(0) =~= done);
            while k < width
                invariant
                    k <= width,
                    width == c.width,
                    base <= 65535,
                    start == base + c.offset,
                    mine == channel_claims(base as int, *c, fixture),
                    self.shows(done + mine.take(k as int)),
                decreases width - k,
            {
                self.claim(start + k, fixture, c.attribute.as_str(), Ghost(done + mine.take(k as int)));
                assert((done + mine.take(k as int)).push(mine[k as int]) =~= done + mine.take(k + 1));
                k = k + 1;
            }
            assert(mine.take(k as int) =~= mine);
            assert(channels@.take(j + 1).drop_last() =~= channels@.take(j as int));
            assert(done + mine =~= cs + mode_claims(base as int, channels@.take(j + 1), fixture));
            j = j + 1;
        }
        assert(channels@.take(j as int) =~= channels@);
    }
}

/// Who occupies each cell of a universe: of several claims the first counts,
/// and the cell is contested.
pub fn occupancy(
    patch: &PatchTable,
    channels: &Vec<Vec<MapChannel>>,
    universe: u16,
) -> (r: Occupancy)
    ensures
        r.shows(claims(patch@, channels@, universe, channels@.len())),
{
    let mut out = Occupancy::empty();
    let n: usize = channels.len();
    let mut i: usize = 0;
    while i < n
        invariant
            n == channels@.len(),
            i <= n,
            out.shows(claims(patch@, channels@, universe, i as nat)),
        decreases n - i,
    {
        let ghost cs = claims(patch@, channels@, universe, i as nat);
        if let Some(p) = patch.get(i) {
            if p.enabled && p.universe == universe {
                let base: usize = if p.address == 0 {
                    0
                } else {
                    (p.address - 1) as usize
                };
                out.claim_mode(base, &channels[i], i, Ghost(cs));
            }
        }
        i = i + 1;
    }
    out
}

/// How many of the levels are not zero.
pub open spec fn count_lit(levels: Seq<u8>) -> nat
    decreases levels.len(),
{
    if levels.len() == 0 {
        0
    } else {
        count_lit(levels.drop_last()) + (if levels.last() > 0 { 1nat } else { 0nat })
    }
}

/// How many channels are active.
pub fn active_count(levels: &Vec<u8>) -> (r: usize)
    ensures
        r == count_lit(levels@),
        r <= levels@.len(),
{
    let n: usize = levels.len();
    let mut r: usize = 0;
    let mut k: usize = 0;
    assert(levels@.take(0) =~= seq![]);
    while k < n
        invariant
            n == levels@.len(),
            k <= n,
            r <= k,
            r == count_lit(levels@.take(k as int)),
        decreases n - k,
    {
        assert(levels@.take(k + 1).drop_last() =~= levels@.take(k as int));
        if levels[k] > 0 {
            r = r + 1;
        }
        k = k + 1;
    }
    assert(levels@.take(n as int) =~= levels@);
    r
}

/// How many of the cells are occupied.
pub open spec fn count_taken(cells: Seq<Option<(usize, String)>>) -> nat
    decreases cells.len(),
{
    if cells.len() == 0 {
        0
    } else {
        count_taken(cells.drop_last()) + (if cells.last() is Some { 1nat } else { 0nat })
    }
}

/// How many channels are patched.
pub fn patched_count(occ: &Occupancy) -> (r: usize)
    ensures
        r == count_taken(occ.cells@),
        r <= occ.cells@.len(),
{
    let n: usize = occ.cells.len();
    let mut r: usize = 0;
    let mut k: usize = 0;
    assert(occ.cells@.take(0) =~= seq![]);
    while k < n
        invariant
            n == occ.cells@.len(),
            k <= n,
            r <= k,
            r == count_taken(occ.cells@.take(k as int)),
        decreases n - k,
    {
        assert(occ.cells@.take(k + 1).drop_last() =~= occ.cells@.take(k as int));
        if occ.cells[k].is_some() {
            r = r + 1;
        }
        k = k + 1;
    }
    assert(occ.cells@.take(n as int) =~= occ.cells@);
    r
}

/// A level in per cent of full, rounded to the nearest.
#[verifier::allow_in_spec]
pub fn percent(level: u8) -> u32
    returns
        ((level as int * 200 + 255) / 510) as u32,
{
    (level as u32 * 200 + 255) / 510
}

/// The cell of the grid in a column and row, where there is one.
pub fn cell_at(col: usize, row: usize) -> (r: Option<usize>)
    ensures
        r == grid_cell(col, row),
        r == (if col < 16 && row < 32 { Some((row * 16 + col) as usize) } else { None }),
        r matches Some(c) ==> c < 512,
{
    if col < COLS && row < ROWS {
        Some(row * COLS + col)
    } else {
        None
    }
}

/// What the tooltip of a cell says.
pub open spec fn cell_text(
    cell: int,
    occupant: Option<(usize, String)>,
    fixtures: Seq<Fixture>,
    level: u8,
) -> Seq<char> {
    "Ch "@ + decimal((cell + 1) as nat) + (match occupant {
        Some((f, attribute)) => " · "@ + fixtures[f as int].name@ + " · "@ + attribute@,
        None => " · unpatched"@,
    }) + "\n"@ + decimal(level as nat) + "  ("@ + decimal(percent(level) as nat) + "%)"@
}

/// What the tooltip of a cell says.
pub fn cell_tooltip(cell: usize, occ: &Occupancy, scene: &Scene, level: u8) -> (r: String)
    requires
        cell < occ.cells@.len(),
        cell < usize::MAX,
        occ.cells@[cell as int] matches Some((f, _)) ==> f < scene.fixtures@.len(),
    ensures
        r@ == cell_text(cell as int, occ.cells@[cell as int], scene.fixtures@, level),
{
    let mut s = "Ch ".to_owned();
    push_decimal(&mut s, (cell + 1) as u128);
    match &occ.cells[cell] {
        Some((f, attribute)) => {
            let ghost before = s@;
            s.push_str(" · ");
            s.push_str(scene.fixtures[*f].name.as_str());
            s.push_str(" · ");
            s.push_str(attribute.as_str());
            assert(s@ =~= before + (" · "@ + scene.fixtures@[*f as int].name@ + " · "@
                + attribute@));
        },
        None => {
            s.push_str(" · unpatched");
        },
    }
    s.push_str("\n");
    push_decimal(&mut s, level as u128);
    s.push_str("  (");
    push_decimal(&mut s, percent(level) as u128);
    s.push_str("%)");
    s
}

/// A click on a cell selects its occupant alone; a cell without one leaves the
/// selection.
pub fn click_cell(cell: usize, occ: &Occupancy, selection: &mut Selection)
    requires
        cell < occ.cells@.len(),
    ensures
        final(selection)@ == after_cell_click(occ.cells@[cell as int], old(selection)@),
        final(selection)@ == (match occ.cells@[cell as int] {
            Some((f, _)) => SelectionView { fixtures: seq![f], ..nothing() },
            None => old(selection)@,
        }),
{
    if let Some((f, _)) = &occ.cells[cell] {
        *selection = Selection::fixture(*f);
    }
}

/// The text of the conflict count.
pub fn conflict_text(n: usize) -> (r: String)
    ensures
        r@ == decimal(n as nat) + (if n == 1 { " conflict"@ } else { " conflicts"@ }),
{
    let mut s = String::new();
    push_decimal(&mut s, n as u128);
    s.push_str(
        if n == 1 {
            " conflict"
        } else {
            " conflicts"
        },
    );
    assert(s@ =~= decimal(n as nat) + (if n == 1 { " conflict"@ } else { " conflicts"@ }));
    s
}

/// The sockets that are bound, in words.
pub fn bound_text(artnet: bool, sacn: bool) -> (r: &'static str)
    ensures
        r@ == (if artnet && sacn {
            "Art-Net + sACN"@
        } else if artnet {
            "Art-Net"@
        } else if sacn {
            "sACN"@
        } else {
            "no sockets bound"@
        }),
{
    if artnet && sacn {
        "Art-Net + sACN"
    } else if artnet {
        "Art-Net"
    } else if sacn {
        "sACN"
    } else {
        "no sockets bound"
    }
}

/// The receiver's status line.
pub fn status_text(running: bool, artnet: bool, sacn: bool, sources: usize) -> (r: String)
    ensures
        r@ == (if !running {
            "stopped"@
        } else {
            (if artnet && sacn {
                "Art-Net + sACN"@
            } else if artnet {
                "Art-Net"@
            } else if sacn {
                "sACN"@
            } else {
                "no sockets bound"@
            }) + " · "@ + decimal(sources as nat) + " source(s)"@
        }),
{
    if !running {
        return "stopped".to_owned();
    }
    let mut s = bound_text(artnet, sacn).to_owned();
    s.push_str(" · ");
    push_decimal(&mut s, sources as u128);
    s.push_str(" source(s)");
    s
}

/// What the panel says where no source is seen.
pub fn no_source_text(running: bool) -> (r: &'static str)
    ensures
        r@ == (if running { "listening — no sources seen yet"@ } else { "not receiving"@ }),
{
    if running {
        "listening — no sources seen yet"
    } else {
        "not receiving"
    }
}

/// A source's name: its label alone where it has no name.
pub fn source_text(name: &str, label: &str) -> (r: String)
    ensures
        r@ == (if name@.len() == 0 { label@ } else { name@ + " ("@ + label@ + ")"@ }),
{
    if name.unicode_len() == 0 {
        return label.to_owned();
    }
    let mut s = name.to_owned();
    s.push_str(" (");
    s.push_str(label);
    s.push_str(")");
    s
}

/// How a source's frame rate does, by its whole part.
#[verifier::allow_in_spec]
pub fn source_tier(fps: u32) -> Tier
    returns
        (if fps >= 30 {
            Tier::Good
        } else if fps >= 10 {
            Tier::Warn
        } else {
            Tier::Conflict
        }),
{
    if fps >= 30 {
        Tier::Good
    } else if fps >= 10 {
        Tier::Warn
    } else {
        Tier::Conflict
    }
}

/// The receiver's command.
#[derive(Clone, Copy, Debug, PartialEq, Eq, Structural)]
pub enum NetCommand {
    Start,
    Stop,
    Reapply,
}

/// What the receive switch and the Reapply button ask for. The button works only
/// while the receiver runs, and counts before the switch.
#[verifier::allow_in_spec]
pub fn net_command(switched: Option<bool>, reapply: bool, running: bool) -> Option<NetCommand>
    returns
        (if reapply && running {
            Some(NetCommand::Reapply)
        } else {
            match switched {
                Some(true) => Some(NetCommand::Start),
                Some(false) => Some(NetCommand::Stop),
                None => None,
            }
        }),
{
    if reapply && running {
        Some(NetCommand::Reapply)
    } else {
        match switched {
            Some(true) => Some(NetCommand::Start),
            Some(false) => Some(NetCommand::Stop),
            None => None,
        }
    }
}

/// A cell is contested only where it is occupied.
pub proof fn contested_cells_are_occupied(cs: Seq<Claim>, cell: int)
    requires
        contested(cs, cell),
    ensures
        first_claim(cs, cell) is Some,
    decreases cs.len(),
{
    if cs.len() > 0 && contested(cs.drop_last(), cell) {
        contested_cells_are_occupied(cs.drop_last(), cell);
    }
}

/// Do two claims meet in the cell?
pub open spec fn claimed_twice(cs: Seq<Claim>, cell: int) -> bool {
    exists|j: int, k: int|
        0 <= j < k < cs.len() && (#[trigger] cs[j]).cell == cell && (#[trigger] cs[k]).cell == cell
}

/// A cell is contested exactly where two claims meet in it.
pub proof fn contested_means_claimed_twice(cs: Seq<Claim>, cell: int)
    ensures
        contested(cs, cell) <==> claimed_twice(cs, cell),
    decreases cs.len(),
{
    if cs.len() > 0 {
        let front = cs.drop_last();
        let last = cs.len() - 1;
        contested_means_claimed_twice(front, cell);
        occupied_means_claimed(front, cell);
        if claimed_twice(front, cell) {
            let (j, k) = choose|j: int, k: int|
                0 <= j < k < front.len() && (#[trigger] front[j]).cell == cell && (
                #[trigger] front[k]).cell == cell;
            assert(cs[j].cell == cell && cs[k].cell == cell);
        }
        if claimed(front, cell) && cs[last].cell == cell {
            let j = choose|j: int| 0 <= j < front.len() && (#[trigger] front[j]).cell == cell;
            assert(cs[j].cell == cell);
        }
        if claimed_twice(cs, cell) {
            let (j, k) = choose|j: int, k: int|
                0 <= j < k < cs.len() && (#[trigger] cs[j]).cell == cell && (
                #[trigger] cs[k]).cell == cell;
            assert(front[j].cell == cell);
            if k < last {
                assert(front[k].cell == cell);
            }
        }
    }
}

/// A cell shows an occupant exactly where something claims it.
pub proof fn occupied_means_claimed(cs: Seq<Claim>, cell: int)
    ensures
        first_claim(cs, cell) is Some <==> claimed(cs, cell),
        first_claim(cs, cell) matches Some(c) ==> c.cell == cell,
    decreases cs.len(),
{
    if cs.len() > 0 {
        let front = cs.drop_last();
        occupied_means_claimed(front, cell);
        if claimed(front, cell) {
            let k = choose|k: int| 0 <= k < front.len() && (#[trigger] front[k]).cell == cell;
            assert(cs[k].cell == cell);
        }
        if cs.last().cell == cell {
            assert(cs[cs.len() - 1].cell == cell);
        }
        if claimed(cs, cell) && cs.last().cell != cell {
            let k = choose|k: int| 0 <= k < cs.len() && (#[trigger] cs[k]).cell == cell;
            assert(front[k].cell == cell);
        }
    }
}

/// Does the fixture claim the cell?
pub open spec fn claims_cell(cs: Seq<Claim>, fixture: usize, cell: int) -> bool {
    exists|k: int|
        0 <= k < cs.len() && (#[trigger] cs[k]).fixture == fixture && cs[k].cell == cell
}

proof fn lemma_mode_claims(base: int, channels: Seq<MapChannel>, fixture: usize, cell: int)
    ensures
        claims_cell(mode_claims(base, channels, fixture), fixture, cell) <==> exists|j: int|
            0 <= j < channels.len() && base + (#[trigger] channels[j]).offset <= cell < base
                + channels[j].offset + channels[j].width,
        forall|k: int|
            0 <= k < mode_claims(base, channels, fixture).len() ==> (#[trigger] mode_claims(
                base,
                channels,
                fixture,
            )[k]).fixture == fixture,
    decreases channels.len(),
{
    let all = mode_claims(base, channels, fixture);
    if channels.len() > 0 {
        let front = channels.drop_last();
        let last = channels.last();
        let before = mode_claims(base, front, fixture);
        let own = channel_claims(base, last, fixture);
        lemma_mode_claims(base, front, fixture, cell);
        assert forall|k: int| 0 <= k < all.len() implies (#[trigger] all[k]).fixture == fixture by {
            if k < before.len() {
                assert(all[k] == before[k]);
            } else {
                assert(all[k] == own[k - before.len()]);
            }
        }
        if claims_cell(all, fixture, cell) {
            let k = choose|k: int|
                0 <= k < all.len() && (#[trigger] all[k]).fixture == fixture && all[k].cell == cell;
            if k < before.len() {
                assert(before[k] == all[k]);
                assert(claims_cell(before, fixture, cell));
                let j = choose|j: int|
                    0 <= j < front.len() && base + (#[trigger] front[j]).offset <= cell < base
                        + front[j].offset + front[j].width;
                assert(channels[j] == front[j]);
            } else {
                assert(own[k - before.len()] == all[k]);
                assert(channels[channels.len() - 1] == last);
            }
        }
        if exists|j: int|
            0 <= j < channels.len() && base + (#[trigger] channels[j]).offset <= cell < base
                + channels[j].offset + channels[j].width {
            let j = choose|j: int|
                0 <= j < channels.len() && base + (#[trigger] channels[j]).offset <= cell < base
                    + channels[j].offset + channels[j].width;
            if j < front.len() {
                assert(front[j] == channels[j]);
                assert(claims_cell(before, fixture, cell));
                let k = choose|k: int|
                    0 <= k < before.len() && (#[trigger] before[k]).fixture == fixture
                        && before[k].cell == cell;
                assert(all[k] == before[k]);
            } else {
                let m = cell - base - last.offset;
                assert(own[m].cell == cell);
                assert(all[before.len() + m] == own[m]);
            }
        }
    }
}

/// A fixture claims exactly the cells of its channels: those from its address on, by
/// each channel's offset and width, in the universe that it is patched to, and none
/// while its patch is off. An address counts from 1.
pub proof fn fixture_claims_its_channels(
    patch: Seq<PatchEntry>,
    channels: Seq<Vec<MapChannel>>,
    universe: u16,
    n: nat,
    fixture: usize,
    cell: int,
)
    requires
        n <= channels.len(),
        n <= usize::MAX,
    ensures
        claims_cell(claims(patch, channels, universe, n), fixture, cell) <==> {
            &&& fixture < n && fixture < patch.len()
            &&& patch[fixture as int].enabled && patch[fixture as int].universe == universe
            &&& exists|j: int|
                0 <= j < channels[fixture as int]@.len() && {
                    let c = #[trigger] channels[fixture as int]@[j];
                    let address = patch[fixture as int].address as int;
                    let first = (if address == 0 { 1 } else { address }) - 1 + c.offset;
                    first <= cell < first + c.width
                }
        },
        forall|k: int|
            0 <= k < claims(patch, channels, universe, n).len() ==> (#[trigger] claims(
                patch,
                channels,
                universe,
                n,
            )[k]).fixture < n,
    decreases n,
{
    if n > 0 {
        let m = (n - 1) as nat;
        let i = m as usize;
        let before = claims(patch, channels, universe, m);
        let all = claims(patch, channels, universe, n);
        fixture_claims_its_channels(patch, channels, universe, m, fixture, cell);
        if in_universe(patch, m as int, universe) {
            let base = base_cell(patch[m as int].address);
            let own = mode_claims(base, channels[m as int]@, i);
            lemma_mode_claims(base, channels[m as int]@, i, cell);
            assert(all == before + own);
            assert forall|k: int| 0 <= k < all.len() implies (#[trigger] all[k]).fixture < n by {
                if k < before.len() {
                    assert(all[k] == before[k]);
                } else {
                    assert(all[k] == own[k - before.len()]);
                }
            }
            if claims_cell(all, fixture, cell) {
                let k = choose|k: int|
                    0 <= k < all.len() && (#[trigger] all[k]).fixture == fixture && all[k].cell
                        == cell;
                if k < before.len() {
                    assert(before[k] == all[k]);
                    assert(claims_cell(before, fixture, cell));
                } else {
                    assert(own[k - before.len()] == all[k]);
                    assert(claims_cell(own, i, cell));
                }
            }
            if claims_cell(before, fixture, cell) {
                let k = choose|k: int|
                    0 <= k < before.len() && (#[trigger] before[k]).fixture == fixture
                        && before[k].cell == cell;
                assert(all[k] == before[k]);
            }
            if fixture == i && claims_cell(own, i, cell) {
                let k = choose|k: int|
                    0 <= k < own.len() && (#[trigger] own[k]).fixture == i && own[k].cell == cell;
                assert(all[before.len() + k] == own[k]);
            }
        }
    }
}

/// The occupant of a cell is one that claims it, and of several the first fixture.
pub proof fn first_fixture_occupies(
    patch: Seq<PatchEntry>,
    channels: Seq<Vec<MapChannel>>,
    universe: u16,
    n: nat,
    cell: int,
    other: usize,
)
    requires
        n <= channels.len(),
        n <= usize::MAX,
    ensures
        ({
            let cs = claims(patch, channels, universe, n);
            first_claim(cs, cell) matches Some(c) ==> claims_cell(cs, c.fixture, cell) && (
            claims_cell(cs, other, cell) ==> c.fixture <= other)
        }),
        first_claim(claims(patch, channels, universe, n), cell) is None ==> !claims_cell(
            claims(patch, channels, universe, n),
            other,
            cell,
        ),
    decreases n,
{
    let all = claims(patch, channels, universe, n);
    occupied_means_claimed(all, cell);
    if n > 0 {
        let m = (n - 1) as nat;
        let i = m as usize;
        let before = claims(patch, channels, universe, m);
        first_fixture_occupies(patch, channels, universe, m, cell, other);
        fixture_claims_its_channels(patch, channels, universe, m, other, cell);
        if in_universe(patch, m as int, universe) {
            let base = base_cell(patch[m as int].address);
            let own = mode_claims(base, channels[m as int]@, i);
            lemma_mode_claims(base, channels[m as int]@, i, cell);
            lemma_first_of_two(before, own, cell);
            assert(all == before + own);
            if claims_cell(all, other, cell) {
                let k = choose|k: int|
                    0 <= k < all.len() && (#[trigger] all[k]).fixture == other && all[k].cell
                        == cell;
                if k < before.len() {
                    assert(before[k] == all[k]);
                    assert(claims_cell(before, other, cell));
                } else {
                    assert(own[k - before.len()] == all[k]);
                }
            }
            match first_claim(before, cell) {
                Some(c) => {
                    fixture_claims_its_channels(patch, channels, universe, m, c.fixture, cell);
                    let k = choose|k: int|
                        0 <= k < before.len() && (#[trigger] before[k]).fixture == c.fixture
                            && before[k].cell == cell;
                    assert(all[k] == before[k]);
                },
                None => {
                    if let Some(c) = first_claim(own, cell) {
                        let k = lemma_first_is_listed(own, cell);
                        assert(all[before.len() + k] == own[k]);
                    }
                },
            }
        }
    }
}

proof fn lemma_first_is_listed(cs: Seq<Claim>, cell: int) -> (k: int)
    requires
        first_claim(cs, cell) is Some,
    ensures
        0 <= k < cs.len(),
        first_claim(cs, cell) == Some(cs[k]),
        cs[k].cell == cell,
    decreases cs.len(),
{
    if first_claim(cs.drop_last(), cell) is Some {
        lemma_first_is_listed(cs.drop_last(), cell)
    } else {
        cs.len() - 1
    }
}

proof fn lemma_first_of_two(a: Seq<Claim>, b: Seq<Claim>, cell: int)
    ensures
        first_claim(a + b, cell) == (match first_claim(a, cell) {
            Some(c) => Some(c),
            None => first_claim(b, cell),
        }),
    decreases b.len(),
{
    if b.len() == 0 {
        assert(a + b =~= a);
    } else {
        lemma_first_of_two(a, b.drop_last(), cell);
        assert((a + b).drop_last() =~= a + b.drop_last());
        assert((a + b).last() == b.last());
    }
}

/// The percentage is the nearest: nothing is 0, full is 100, a higher level never shows
/// less, and it is never off by more than half a per cent.
pub proof fn percent_is_the_nearest(a: u8, b: u8)
    requires
        a <= b,
    ensures
        percent(0) == 0,
        percent(255) == 100,
        percent(a) <= percent(b),
        -255 <= percent(a) as int * 510 - a as int * 200 <= 255,
{
}

/// The cell of the grid in a column and row.
pub open spec fn grid_cell(col: usize, row: usize) -> Option<usize> {
    if col < 16 && row < 32 { Some((row * 16 + col) as usize) } else { None }
}

/// The grid holds every channel of a universe once: row by row, sixteen to a row.
pub proof fn grid_holds_every_cell_once(col: usize, row: usize, cell: usize)
    ensures
        grid_cell(col, row) matches Some(c) ==> c < 512 && c % 16 == col && c / 16 == row,
        cell < 512 ==> grid_cell((cell % 16) as usize, (cell / 16) as usize) == Some(cell),
        grid_cell(col, row) is Some <==> col < 16 && row < 32,
{
}

/// How many levels are not zero, and how many cells are taken, is the number of places
/// where that is so.
pub proof fn counts_are_of_the_lit_and_taken(
    levels: Seq<u8>,
    cells: Seq<Option<(usize, String)>>,
)
    ensures
        count_lit(levels) == levels.filter(|v: u8| v > 0).len(),
        count_taken(cells) == cells.filter(|c: Option<(usize, String)>| c is Some).len(),
    decreases levels.len() + cells.len(),
{
    reveal(Seq::filter);
    if levels.len() > 0 {
        counts_are_of_the_lit_and_taken(levels.drop_last(), cells);
    } else if cells.len() > 0 {
        counts_are_of_the_lit_and_taken(levels, cells.drop_last());
    }
}

/// The place beside `k` in a list of `n`, towards its end or its start; the ends stay.
pub open spec fn place_beside(n: nat, k: int, forward: bool) -> int {
    if forward {
        if k + 1 < n { k + 1 } else { n - 1 }
    } else {
        if k > 0 { k - 1 } else { 0 }
    }
}

/// Stepping forward and back returns to the same universe, except at the last one;
/// stepping never leaves the list and never skips.
pub proof fn stepping_goes_and_comes_back(n: nat, k: int)
    requires
        0 <= k < n,
    ensures
        0 <= place_beside(n, k, true) < n && 0 <= place_beside(n, k, false) < n,
        k + 1 < n ==> place_beside(n, k, true) == k + 1 && place_beside(
            n,
            place_beside(n, k, true),
            false,
        ) == k,
        k > 0 ==> place_beside(n, place_beside(n, k, false), true) == k,
        place_beside(n, n - 1, true) == n - 1,
        place_beside(n, 0, false) == 0,
{
}

/// The selection after a click on a cell with that occupant.
pub open spec fn after_cell_click(
    occupant: Option<(usize, String)>,
    s: SelectionView,
) -> SelectionView {
    match occupant {
        Some((f, _)) => SelectionView { fixtures: seq![f], ..nothing() },
        None => s,
    }
}

/// A click on an occupied cell selects its fixture and nothing else; on a free cell it
/// leaves the selection.
pub proof fn cell_click_selects_the_occupant(
    fixture: usize,
    attribute: String,
    s: SelectionView,
    e: SelItem,
)
    ensures
        holds(after_cell_click(Some((fixture, attribute)), s), e) <==> e == SelItem::Fixture(fixture),
        !after_cell_click(Some((fixture, attribute)), s).world,
        after_cell_click(None, s) == s,
{
    assert(seq![fixture][0] == fixture);
}

/// The switch starts and stops the receiver; the button reapplies where it runs and does
/// nothing else; without either nothing is asked.
pub proof fn receiver_does_what_is_asked(running: bool, reapply: bool)
    ensures
        net_command(None, false, running) is None,
        net_command(Some(true), false, running) == Some(NetCommand::Start),
        net_command(Some(false), false, running) == Some(NetCommand::Stop),
        net_command(None, true, true) == Some(NetCommand::Reapply),
        net_command(None, reapply, false) is None,
{
}

/// A source is good from 30 frames a second on and bad below 10.
pub proof fn source_rates_have_three_tiers(fps: u32)
    ensures
        source_tier(fps) == Tier::Good <==> fps >= 30,
        source_tier(fps) == Tier::Conflict <==> fps < 10,
{
}

/// The tooltip names the channel as the user counts it, from 1, and ends in the level and
/// its percentage.
pub proof fn tooltip_names_channel_and_level(
    cell: int,
    occupant: Option<(usize, String)>,
    fixtures: Seq<Fixture>,
    level: u8,
)
    requires
        cell >= 0,
    ensures
        ({
            let text = cell_text(cell, occupant, fixtures, level);
            let d = decimal((cell + 1) as nat).len() as int;
            let p = decimal(percent(level) as nat).len() as int;
            let l = decimal(level as nat).len() as int;
            let end = text.len() - 2;
            &&& number_of(text.subrange(3, 3 + d)) == cell + 1
            &&& number_of(text.subrange(end - p, end)) == percent(level)
            &&& number_of(text.subrange(end - p - 3 - l, end - p - 3)) == level
        }),
{
    let text = cell_text(cell, occupant, fixtures, level);
    let c = decimal((cell + 1) as nat);
    let l = decimal(level as nat);
    let p = decimal(percent(level) as nat);
    let end = text.len() - 2;
    decimal_reads_back((cell + 1) as nat);
    decimal_reads_back(level as nat);
    decimal_reads_back(percent(level) as nat);
    reveal_strlit("Ch ");
    reveal_strlit("\n");
    reveal_strlit("  (");
    reveal_strlit("%)");
    assert(text.subrange(3, 3 + c.len() as int) =~= c);
    assert(text.subrange(end - p.len(), end) =~= p);
    assert(text.subrange(end - p.len() - 3 - l.len(), end - p.len() - 3) =~= l);
}

/// The universe that the grid shows.
pub open spec fn universe_shown(list: Seq<u16>, selected: u16) -> u16 {
    if list.contains(selected) { selected } else { list[0] }
}

/// The grid shows a universe of the list: the selected one where it is there.
pub proof fn shown_universe_is_listed(list: Seq<u16>, selected: u16)
    requires
        list.len() > 0,
    ensures
        list.contains(universe_shown(list, selected)),
        list.contains(selected) ==> universe_shown(list, selected) == selected,
{
}

/// The grid shows the claims: a cell has an occupant exactly where something claims it, and
/// is marked exactly where two claims meet.
pub proof fn grid_shows_the_claims(occ: Occupancy, cs: Seq<Claim>, cell: int)
    requires
        occ.shows(cs),
        0 <= cell < 512,
    ensures
        occ.cells@.len() == 512 && occ.conflicts@.len() == 512,
        occ.cells@[cell] is Some <==> exists|k: int|
            0 <= k < cs.len() && (#[trigger] cs[k]).cell == cell,
        occ.cells@[cell] matches Some((f, a)) ==> exists|k: int|
            0 <= k < cs.len() && (#[trigger] cs[k]).cell == cell && cs[k].fixture == f
                && cs[k].attribute == a@,
        occ.conflicts@[cell] <==> exists|j: int, k: int|
            0 <= j < k < cs.len() && (#[trigger] cs[j]).cell == cell && (#[trigger] cs[k]).cell
                == cell,
{
    occupied_means_claimed(cs, cell);
    contested_means_claimed_twice(cs, cell);
    assert(cell_is(occ.cells@[cell], first_claim(cs, cell)));
    assert(occ.conflicts@[cell] == contested(cs, cell));
    if first_claim(cs, cell) is Some {
        let k = lemma_first_is_listed(cs, cell);
        assert(cs[k].cell == cell);
    }
}

} // verus!
