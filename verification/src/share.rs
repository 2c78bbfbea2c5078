//! The online fixture library: what becomes of downloads, what a row of the
//! catalogue offers, and its texts.

use vstd::prelude::*;
use crate::text::{
    decimal, decimal_reads_back, digit, number_of, padded, padded_reads_back, push_decimal,
    push_padded, same_text, trim_text, trimmed, trimming_takes_the_ends_off, white_space,
};

verus! {

/// Is the id among them?
pub fn holds(ids: &Vec<i64>, id: i64) -> (r: bool)
    ensures
        r == ids@.contains(id),
{
    let mut k: usize = 0;
    while k < ids.len()
        invariant
            k <= ids@.len(),
            forall|j: int| 0 <= j < k ==> #[trigger] ids@[j] != id,
        decreases ids@.len() - k,
    {
        if ids[k] == id {
            assert(ids@[k as int] == id);
            return true;
        }
        k = k + 1;
    }
    false
}

/// `ids` with `id`, which is not listed twice.
pub open spec fn joined(ids: Seq<i64>, id: i64) -> Seq<i64> {
    if ids.contains(id) { ids } else { ids.push(id) }
}

/// Add an id, unless it is there.
pub fn join(ids: &mut Vec<i64>, id: i64)
    ensures
        final(ids)@ == joined(old(ids)@, id),
{
    if !holds(ids, id) {
        ids.push(id);
    }
}

/// The sets of fixtures that the window keeps by revision id, and what went
/// wrong.
#[derive(Debug)]
pub struct ShareState {
    /// To be added to the library once they are downloaded.
    pub pending_add: Vec<i64>,
    pub downloaded: Vec<i64>,
    pub downloading: Vec<i64>,
    /// In this project's library.
    pub added: Vec<i64>,
    pub logged_in: bool,
    pub error: Option<String>,
}

impl ShareState {
    /// No id is listed twice.
    pub open spec fn wf(self) -> bool {
        &&& self.pending_add@.no_duplicates()
        &&& self.downloaded@.no_duplicates()
        &&& self.downloading@.no_duplicates()
        &&& self.added@.no_duplicates()
    }
}

/// What a filter keeps is in the list and meets it, and is kept once where it was
/// listed once.
proof fn lemma_filtered(s: Seq<i64>, p: spec_fn(i64) -> bool)
    ensures
        forall|x: i64| #[trigger] s.filter(p).contains(x) <==> s.contains(x) && p(x),
        s.no_duplicates() ==> s.filter(p).no_duplicates(),
    decreases s.len(),
{
    reveal(Seq::filter);
    if s.len() > 0 {
        let front = s.drop_last();
        let kept = front.filter(p);
        let all = s.filter(p);
        lemma_filtered(front, p);
        assert forall|x: i64| #[trigger] all.contains(x) implies s.contains(x) && p(x) by {
            let k = choose|k: int| 0 <= k < all.len() && all[k] == x;
            if k < kept.len() {
                assert(kept[k] == x);
                assert(kept.contains(x));
                let j = choose|j: int| 0 <= j < front.len() && front[j] == x;
                assert(s[j] == x);
            } else {
                assert(s[s.len() - 1] == x);
            }
        }
        assert forall|x: i64| s.contains(x) && p(x) implies #[trigger] all.contains(x) by {
            let j = choose|j: int| 0 <= j < s.len() && s[j] == x;
            if j < front.len() {
                assert(front[j] == x);
                assert(kept.contains(x));
                let k = choose|k: int| 0 <= k < kept.len() && kept[k] == x;
                assert(all[k] == x);
            } else {
                assert(all[kept.len() as int] == x);
            }
        }
        if s.no_duplicates() {
            assert(front.no_duplicates());
            assert forall|i: int, j: int|
                0 <= i < all.len() && 0 <= j < all.len() && i != j implies all[i] != all[j] by {
                if i < kept.len() && j < kept.len() {
                    assert(kept[i] != kept[j]);
                } else {
                    let k = if i < kept.len() { i } else { j };
                    assert(kept.contains(kept[k]));
                    let m = choose|m: int| 0 <= m < front.len() && front[m] == kept[k];
                    assert(s[m] != s[s.len() - 1]);
                }
            }
        }
    }
}

/// Finish the background downloads: those that are there leave the waiting list
/// and are returned, to be imported; those that are neither there nor on their
/// way leave it too, as they have failed.
pub fn resolve_pending(share: &mut ShareState) -> (ready: Vec<i64>)
    ensures
        ready@ == ready_of(old(share).pending_add@, old(share).downloaded@),
        final(share).pending_add@ == still_waiting(
            old(share).pending_add@,
            old(share).downloaded@,
            old(share).downloading@,
        ),
        ready@ == old(share).pending_add@.filter(|id: i64| old(share).downloaded@.contains(id)),
        final(share).pending_add@ == old(share).pending_add@.filter(
            |id: i64|
                !old(share).downloaded@.contains(id) && old(share).downloading@.contains(id),
        ),
        final(share).downloaded == old(share).downloaded,
        final(share).downloading == old(share).downloading,
        final(share).added == old(share).added,
        final(share).logged_in == old(share).logged_in,
        final(share).error == old(share).error,
        old(share).wf() ==> final(share).wf() && ready@.no_duplicates(),
{
    let ghost p = |id: i64| old(share).downloaded@.contains(id);
    let ghost q = |id: i64|
        !old(share).downloaded@.contains(id) && old(share).downloading@.contains(id);
    let mut ready: Vec<i64> = Vec::new();
    let mut waiting: Vec<i64> = Vec::new();
    let mut k: usize = 0;
    proof {
        reveal(Seq::filter);
    }
    while k < share.pending_add.len()
        invariant
            *share == *old(share),
            k <= share.pending_add@.len(),
            p == (|id: i64| old(share).downloaded@.contains(id)),
            q == (|id: i64|
                !old(share).downloaded@.contains(id) && old(share).downloading@.contains(id)),
            ready@ == share.pending_add@.take(k as int).filter(p),
            waiting@ == share.pending_add@.take(k as int).filter(q),
        decreases share.pending_add@.len() - k,
    {
        reveal(Seq::filter);
        assert(share.pending_add@.take(k + 1).drop_last() =~= share.pending_add@.take(k as int));
        let id: i64 = share.pending_add[k];
        if holds(&share.downloaded, id) {
            ready.push(id);
        } else if holds(&share.downloading, id) {
            waiting.push(id);
        }
        k = k + 1;
    }
    assert(share.pending_add@.take(k as int) =~= share.pending_add@);
    proof {
        lemma_filtered(share.pending_add@, p);
        lemma_filtered(share.pending_add@, q);
    }
    share.pending_add = waiting;
    ready
}

/// The file name of a downloaded fixture.
pub open spec fn file_name(id: i64) -> Seq<char> {
    (if id < 0 { seq!['-'] + decimal((-id) as nat) } else { decimal(id as nat) }) + ".gdtf"@
}

/// The file name of a downloaded fixture.
pub fn gdtf_file(id: i64) -> (r: String)
    ensures
        r@ == file_name(id),
{
    let mut s = String::new();
    if id < 0 {
        s.push('-');
        let n: i128 = -(id as i128);
        push_decimal(&mut s, n as u128);
        assert(s@ =~= seq!['-'] + decimal((-id) as nat));
    } else {
        push_decimal(&mut s, id as u128);
        assert(s@ =~= decimal(id as nat));
    }
    s.push_str(".gdtf");
    s
}

/// Does the library hold the file?
pub open spec fn in_library(specs: Seq<String>, name: Seq<char>) -> bool {
    exists|i: int| 0 <= i < specs.len() && (#[trigger] specs[i])@ == name
}

/// Is a downloaded fixture still to be imported? One that the library holds
/// already counts as added at once. `specs` are the files of the library.
pub fn needs_import(share: &mut ShareState, id: i64, specs: &Vec<String>) -> (r: bool)
    ensures
        r == !in_library(specs@, file_name(id)),
        final(share).added@ == (if r { old(share).added@ } else { joined(old(share).added@, id) }),
        final(share).pending_add == old(share).pending_add,
        final(share).downloaded == old(share).downloaded,
        final(share).downloading == old(share).downloading,
        final(share).logged_in == old(share).logged_in,
        final(share).error == old(share).error,
        old(share).wf() ==> final(share).wf(),
{
    let name = gdtf_file(id);
    let mut k: usize = 0;
    while k < specs.len()
        invariant
            k <= specs@.len(),
            *share == *old(share),
            name@ == file_name(id),
            forall|j: int| 0 <= j < k ==> (#[trigger] specs@[j])@ != file_name(id),
        decreases specs@.len() - k,
    {
        if same_text(specs[k].as_str(), name.as_str()) {
            assert(in_library(specs@, file_name(id)));
            join(&mut share.added, id);
            return false;
        }
        k = k + 1;
    }
    true
}

/// Take note of an import: it worked, or failed with an error.
pub fn import_done(share: &mut ShareState, id: i64, failure: Option<String>)
    ensures
        final(share).added@ == (if failure is Some {
            old(share).added@
        } else {
            joined(old(share).added@, id)
        }),
        match failure {
            Some(e) => final(share).error matches Some(t) && t@
                == "could not load downloaded fixture "@ + number_text(id) + ": "@ + e@,
            None => final(share).error == old(share).error,
        },
        final(share).pending_add == old(share).pending_add,
        final(share).downloaded == old(share).downloaded,
        final(share).downloading == old(share).downloading,
        final(share).logged_in == old(share).logged_in,
        old(share).wf() ==> final(share).wf(),
{
    match failure {
        Some(e) => {
            let mut s = "could not load downloaded fixture ".to_owned();
            let ghost before = s@;
            if id < 0 {
                s.push('-');
                let n: i128 = -(id as i128);
                push_decimal(&mut s, n as u128);
            } else {
                push_decimal(&mut s, id as u128);
            }
            assert(s@ =~= before + number_text(id));
            s.push_str(": ");
            s.push_str(e.as_str());
            share.error = Some(s);
        },
        None => join(&mut share.added, id),
    }
}

/// A number in decimal, with its sign where it is negative.
pub open spec fn number_text(id: i64) -> Seq<char> {
    if id < 0 { seq!['-'] + decimal((-id) as nat) } else { decimal(id as nat) }
}

/// What a click on a row's action leads to.
#[derive(Clone, Copy, Debug, PartialEq, Eq, Structural)]
pub enum AddStep {
    /// Import the file that is there.
    Import,
    /// Download it first.
    Download,
    Nothing,
}

/// What a click on a row's action leads to: a downloaded fixture is imported;
/// any other is downloaded and waits, if the user is signed in.
pub fn add_click(share: &mut ShareState, id: i64) -> (r: AddStep)
    ensures
        r == click_leads(old(share).downloaded@.contains(id), old(share).logged_in),
        r == (if old(share).downloaded@.contains(id) {
            AddStep::Import
        } else if old(share).logged_in {
            AddStep::Download
        } else {
            AddStep::Nothing
        }),
        final(share).pending_add@ == (if r == AddStep::Download {
            joined(old(share).pending_add@, id)
        } else {
            old(share).pending_add@
        }),
        final(share).downloaded == old(share).downloaded,
        final(share).downloading == old(share).downloading,
        final(share).added == old(share).added,
        final(share).logged_in == old(share).logged_in,
        final(share).error == old(share).error,
        old(share).wf() ==> final(share).wf(),
{
    if holds(&share.downloaded, id) {
        AddStep::Import
    } else if share.logged_in {
        join(&mut share.pending_add, id);
        AddStep::Download
    } else {
        AddStep::Nothing
    }
}

/// Where a catalogue entry stands.
#[derive(Clone, Copy, Debug, PartialEq, Eq, Structural)]
pub enum RowStatus {
    Cloud,
    Cached,
    Update,
    Downloading,
}

/// What a row offers.
#[derive(Clone, Copy, Debug, PartialEq, Eq, Structural)]
pub enum RowOffer {
    /// It is in the library; nothing more to click.
    Added,
    Downloading,
    Add,
    /// Needs the user to be signed in.
    Update { enabled: bool },
    /// Needs the user to be signed in.
    Download { enabled: bool },
}

/// What a row offers. Once it is in the library it offers nothing more.
#[verifier::allow_in_spec]
pub fn row_offer(added: bool, status: RowStatus, logged_in: bool) -> RowOffer
    returns
        (if added {
            RowOffer::Added
        } else {
            match status {
                RowStatus::Downloading => RowOffer::Downloading,
                RowStatus::Cached => RowOffer::Add,
                RowStatus::Update => RowOffer::Update { enabled: logged_in },
                RowStatus::Cloud => RowOffer::Download { enabled: logged_in },
            }
        }),
{
    if added {
        RowOffer::Added
    } else {
        match status {
            RowStatus::Downloading => RowOffer::Downloading,
            RowStatus::Cached => RowOffer::Add,
            RowStatus::Update => RowOffer::Update { enabled: logged_in },
            RowStatus::Cloud => RowOffer::Download { enabled: logged_in },
        }
    }
}

/// Is the catalogue hidden behind the sign-in card? Only while there is none to
/// show and nobody is signed in.
#[verifier::allow_in_spec]
pub fn first_run(logged_in: bool, listed: usize) -> bool
    returns
        !logged_in && listed == 0,
{
    !logged_in && listed == 0
}

/// Can the sign-in be submitted: is there a user besides white space, and a
/// password?
pub fn can_submit(user: &str, password: &str) -> (r: bool)
    ensures
        r == submittable(user@, password@),
        r == (trimmed(user@).len() > 0 && password@.len() > 0),
{
    let t = trim_text(user);
    t.as_str().unicode_len() > 0 && password.unicode_len() > 0
}

/// What an empty catalogue says.
pub fn empty_text(listed: usize) -> (r: &'static str)
    ensures
        r@ == (if listed == 0 {
            "No fixtures yet — Refresh to fetch the library."@
        } else {
            "No fixtures match the current filters."@
        }),
{
    if listed == 0 {
        "No fixtures yet — Refresh to fetch the library."
    } else {
        "No fixtures match the current filters."
    }
}

/// `n / d` rounded to the nearest, a half to the even.
pub open spec fn rounded_even(n: nat, d: nat) -> nat {
    let q = n / d;
    let r = n % d;
    if 2 * r > d || (2 * r == d && q % 2 == 1) { q + 1 } else { q }
}

/// How far apart the whole numbers that a double holds are, around `n`.
pub open spec fn spacing(n: nat) -> nat
    decreases n,
{
    if n < 0x20_0000_0000_0000 {
        1
    } else {
        2 * spacing(n / 2)
    }
}

/// The number nearest to `n` that a double holds, of two the even one.
pub open spec fn as_double(n: nat) -> nat {
    rounded_even(n, spacing(n)) * spacing(n)
}

/// A file size in words: megabytes with a decimal, counted in doubles, whole
/// kilobytes, or bytes; a dash where it is not known.
pub open spec fn size_text(bytes: i64) -> Seq<char> {
    if bytes <= 0 {
        "—"@
    } else if bytes >= 1048576 {
        let t = rounded_even(as_double(bytes as nat) * 10, 1048576);
        decimal(t / 10).push('.').push(digit(t % 10)) + " MB"@
    } else if bytes >= 1024 {
        decimal(rounded_even(bytes as nat, 1024)) + " KB"@
    } else {
        decimal(bytes as nat) + " B"@
    }
}

fn round_even(n: u128, d: u128) -> (r: u128)
    requires
        0 < d <= 1048576,
        n < u128::MAX,
    ensures
        r == rounded_even(n as nat, d as nat),
{
    let q: u128 = n / d;
    let m: u128 = n % d;
    assert(q <= n) by (nonlinear_arith)
        requires
            d > 0,
            q == n / d,
    ;
    if 2 * m > d || (2 * m == d && q % 2 == 1) {
        q + 1
    } else {
        q
    }
}

proof fn lemma_spacing(n: nat)
    ensures
        spacing(n) == 1 || spacing(n) * 0x10_0000_0000_0000 <= n,
    decreases n,
{
    if n >= 0x20_0000_0000_0000 {
        lemma_spacing(n / 2);
    }
}

fn spacing_of(n: u128) -> (r: u128)
    requires
        n < 0x8000_0000_0000_0000,
    ensures
        r == spacing(n as nat),
        0 < r <= 2048,
    decreases n,
{
    proof {
        lemma_spacing(n as nat);
        lemma_spacing((n / 2) as nat);
    }
    if n < 0x20_0000_0000_0000 {
        1
    } else {
        2 * spacing_of(n / 2)
    }
}

fn nearest_double(n: u128) -> (r: u128)
    requires
        n < 0x8000_0000_0000_0000,
    ensures
        r == as_double(n as nat),
        r <= n + 2048,
{
    let d: u128 = spacing_of(n);
    let q: u128 = round_even(n, d);
    assert(q * d <= n + d) by (nonlinear_arith)
        requires
            d > 0,
            q <= n / d + 1,
    ;
    q * d
}

/// A file size in words.
pub fn human_size(bytes: i64) -> (r: String)
    ensures
        r@ == size_text(bytes),
{
    if bytes <= 0 {
        return "—".to_owned();
    }
    let mut s = String::new();
    if bytes >= 1048576 {
        let t: u128 = round_even(nearest_double(bytes as u128) * 10, 1048576);
        push_decimal(&mut s, t / 10);
        s.push('.');
        push_decimal(&mut s, t % 10);
        s.push_str(" MB");
        assert(decimal((t % 10) as nat) =~= seq![digit((t % 10) as nat)]);
        assert(s@ =~= size_text(bytes));
    } else if bytes >= 1024 {
        push_decimal(&mut s, round_even(bytes as u128, 1024));
        s.push_str(" KB");
        assert(s@ =~= size_text(bytes));
    } else {
        push_decimal(&mut s, bytes as u128);
        s.push_str(" B");
        assert(s@ =~= size_text(bytes));
    }
    s
}

/// Is the year a leap year?
pub open spec fn is_leap(y: int) -> bool {
    y % 4 == 0 && (y % 100 != 0 || y % 400 == 0)
}

/// The days of a year.
pub open spec fn days_in_year(y: int) -> int {
    if is_leap(y) { 366 } else { 365 }
}

/// The days of a month.
pub open spec fn days_in_month(y: int, m: int) -> int {
    if m == 2 {
        if is_leap(y) { 29 } else { 28 }
    } else if m == 4 || m == 6 || m == 9 || m == 11 {
        30
    } else {
        31
    }
}

/// The days from the start of 1970 to the start of the year.
pub open spec fn days_before_year(y: int) -> int
    decreases y - 1970,
{
    if y <= 1970 { 0 } else { days_before_year(y - 1) + days_in_year(y - 1) }
}

/// The days from the start of the year to the start of the month.
pub open spec fn days_before_month(y: int, m: int) -> int
    decreases m,
{
    if m <= 1 { 0 } else { days_before_month(y, m - 1) + days_in_month(y, m - 1) }
}

/// Is it a date, from 1970 on?
pub open spec fn is_date(y: int, m: int, d: int) -> bool {
    y >= 1970 && 1 <= m <= 12 && 1 <= d <= days_in_month(y, m)
}

/// The days from the start of 1970 to the date.
pub open spec fn day_number(y: int, m: int, d: int) -> int {
    days_before_year(y) + days_before_month(y, m) + d - 1
}

/// A date in words.
pub open spec fn date_text(y: int, m: int, d: int) -> Seq<char> {
    padded(y as nat, 4).push('-') + padded(m as nat, 2).push('-') + padded(d as nat, 2)
}

/// How many of the years from 1970 to before `y` are leap years.
spec fn leaps_before(y: int) -> int {
    (y - 1) / 4 - (y - 1) / 100 + (y - 1) / 400 - 477
}

#[verifier::spinoff_prover]
proof fn lemma_year_formula(y: int)
    requires
        y >= 1970,
    ensures
        days_before_year(y) == 365 * (y - 1970) + leaps_before(y),
    decreases y,
{
    if y > 1970 {
        lemma_year_formula(y - 1);
        let p = y - 1;
        assert(p / 4 - (p - 1) / 4 == (if p % 4 == 0 { 1int } else { 0int }));
        assert(p / 100 - (p - 1) / 100 == (if p % 100 == 0 { 1int } else { 0int }));
        assert(p / 400 - (p - 1) / 400 == (if p % 400 == 0 { 1int } else { 0int }));
        assert(p % 400 == 0 ==> p % 100 == 0);
        assert(p % 100 == 0 ==> p % 4 == 0);
    } else {
        assert(1969int / 4 == 492 && 1969int / 100 == 19 && 1969int / 400 == 4);
    }
}

proof fn lemma_era(q: int)
    requires
        q >= 0,
    ensures
        days_before_year(1970 + 400 * q) == 146097 * q,
{
    let y = 1970 + 400 * q;
    lemma_year_formula(y);
    assert((y - 1) / 4 == 492 + 100 * q);
    assert((y - 1) / 100 == 19 + 4 * q);
    assert((y - 1) / 400 == 4 + q);
}

proof fn lemma_months(y: int)
    ensures
        days_before_month(y, 13) == days_in_year(y),
{
    reveal_with_fuel(days_before_month, 13);
}

fn leap(y: u64) -> (r: bool)
    ensures
        r == is_leap(y as int),
{
    y % 4 == 0 && (y % 100 != 0 || y % 400 == 0)
}

fn month_days(y: u64, m: u64) -> (r: u64)
    ensures
        r == days_in_month(y as int, m as int),
{
    if m == 2 {
        if leap(y) {
            29
        } else {
            28
        }
    } else if m == 4 || m == 6 || m == 9 || m == 11 {
        30
    } else {
        31
    }
}

/// The date of a day, counted from the start of 1970.
pub fn date_of_day(days: u64) -> (r: (u64, u64, u64))
    requires
        days <= 200_000_000_000_000,
    ensures
        is_date(r.0 as int, r.1 as int, r.2 as int),
        day_number(r.0 as int, r.1 as int, r.2 as int) == days,
{
    let q: u64 = days / 146097;
    let mut rest: u64 = days % 146097;
    let mut y: u64 = 1970 + 400 * q;
    let ghost y0 = y as int;
    proof {
        lemma_era(q as int);
        lemma_era(q as int + 1);
    }
    loop
        invariant
            y0 == 1970 + 400 * q,
            q <= 2_000_000_000,
            y0 <= y <= y0 + 400,
            days_before_year(y as int) + rest == days,
            days_before_year(y0 + 400) > days,
        ensures
            y0 <= y <= y0 + 400,
            days_before_year(y as int) + rest == days,
            rest < days_in_year(y as int),
        decreases rest,
    {
        let len: u64 = if leap(y) {
            366
        } else {
            365
        };
        if rest < len {
            break;
        }
        assert(y < y0 + 400);
        rest = rest - len;
        y = y + 1;
    }
    let mut m: u64 = 1;
    let ghost in_year = rest as int;
    proof {
        lemma_months(y as int);
    }
    loop
        invariant
            1 <= m <= 12,
            days_before_month(y as int, m as int) + rest == in_year,
            in_year < days_before_month(y as int, 13),
        ensures
            1 <= m <= 12,
            days_before_month(y as int, m as int) + rest == in_year,
            rest < days_in_month(y as int, m as int),
        decreases rest,
    {
        let len: u64 = month_days(y, m);
        if rest < len {
            break;
        }
        assert(m < 12);
        rest = rest - len;
        m = m + 1;
    }
    (y, m, rest + 1)
}

/// A point in time, in seconds from the start of 1970, as its date; a dash where
/// it is not known.
pub fn unix_to_date(ts: i64) -> (r: String)
    ensures
        ts <= 0 ==> r@ == "—"@,
        ts > 0 ==> exists|y: int, m: int, d: int| #[trigger]
            is_date(y, m, d) && day_number(y, m, d) == ts / 86400 && r@ == date_text(y, m, d),
{
    if ts <= 0 {
        return "—".to_owned();
    }
    let days: u64 = ts as u64 / 86400;
    let (y, m, d) = date_of_day(days);
    let mut s = String::new();
    push_padded(&mut s, y as u128, 4);
    s.push('-');
    push_padded(&mut s, m as u128, 2);
    s.push('-');
    push_padded(&mut s, d as u128, 2);
    assert(s@ =~= date_text(y as int, m as int, d as int));
    assert(is_date(y as int, m as int, d as int));
    s
}

proof fn lemma_years_grow(a: int, b: int)
    requires
        1970 <= a < b,
    ensures
        days_before_year(a) + days_in_year(a) <= days_before_year(b),
    decreases b,
{
    if a < b - 1 {
        lemma_years_grow(a, b - 1);
    }
}

proof fn lemma_months_grow(y: int, a: int, b: int)
    requires
        1 <= a < b,
    ensures
        days_before_month(y, a) + days_in_month(y, a) <= days_before_month(y, b),
    decreases b,
{
    if a < b - 1 {
        lemma_months_grow(y, a, b - 1);
    }
}

proof fn lemma_within_year(y: int, m: int, d: int)
    requires
        is_date(y, m, d),
    ensures
        0 <= days_before_month(y, m) + d - 1 < days_in_year(y),
{
    lemma_months(y);
    lemma_months_grow(y, m, 13);
    lemma_month_start(y, m);
}

proof fn lemma_month_start(y: int, m: int)
    ensures
        days_before_month(y, m) >= 0,
    decreases m,
{
    if m > 1 {
        lemma_month_start(y, m - 1);
    }
}

/// A day has one date: two dates with the same day number are the same.
pub proof fn day_has_one_date(y: int, m: int, d: int, y2: int, m2: int, d2: int)
    requires
        is_date(y, m, d),
        is_date(y2, m2, d2),
        day_number(y, m, d) == day_number(y2, m2, d2),
    ensures
        y == y2 && m == m2 && d == d2,
{
    lemma_within_year(y, m, d);
    lemma_within_year(y2, m2, d2);
    if y < y2 {
        lemma_years_grow(y, y2);
    }
    if y2 < y {
        lemma_years_grow(y2, y);
    }
    if m < m2 {
        lemma_months_grow(y, m, m2);
    }
    if m2 < m {
        lemma_months_grow(y, m2, m);
    }
}

/// The line under a fixture's name: maker, revision, modes and size.
pub fn row_detail(manufacturer: &str, revision: &str, modes: usize, size: i64) -> (r: String)
    ensures
        r@ == manufacturer@ + "   ·   rev "@ + (if revision@.len() == 0 { "—"@ } else { revision@ })
            + "   ·   "@ + decimal(modes as nat) + (if modes == 1 { " mode"@ } else { " modes"@ })
            + "   ·   "@ + size_text(size),
{
    let mut s = manufacturer.to_owned();
    s.push_str("   ·   rev ");
    s.push_str(
        if revision.unicode_len() == 0 {
            "—"
        } else {
            revision
        },
    );
    s.push_str("   ·   ");
    push_decimal(&mut s, modes as u128);
    s.push_str(
        if modes == 1 {
            " mode"
        } else {
            " modes"
        },
    );
    s.push_str("   ·   ");
    s.push_str(human_size(size).as_str());
    s
}

/// Can the list be fetched again?
#[verifier::allow_in_spec]
pub fn can_refresh(logged_in: bool, busy: bool) -> bool
    returns
        (logged_in && !busy),
{
    logged_in && !busy
}

/// How many fixtures the list holds, in words; nothing for an empty list.
pub fn listed_text(listed: usize) -> (r: Option<String>)
    ensures
        r is Some <==> listed > 0,
        r matches Some(t) ==> t@ == decimal(listed as nat) + " fixtures"@,
{
    if listed == 0 {
        return None;
    }
    let mut s = String::new();
    push_decimal(&mut s, listed as u128);
    assert(s@ =~= decimal(listed as nat));
    s.push_str(" fixtures");
    Some(s)
}

/// Who makes a fixture and which version its file follows; a question mark
/// where that is not known.
pub fn spec_text(manufacturer: &str, version: &str) -> (r: String)
    ensures
        r@ == manufacturer@ + " · GDTF spec "@ + (if version@.len() == 0 { "?"@ } else { version@ }),
{
    let mut s = manufacturer.to_owned();
    s.push_str(" · GDTF spec ");
    s.push_str(
        if version.unicode_len() == 0 {
            "?"
        } else {
            version
        },
    );
    s
}

/// The row of a mode in the details.
pub fn mode_line(name: &str, footprint: u32) -> (r: String)
    ensures
        r@ == "• "@ + name@ + " — "@ + decimal(footprint as nat) + " ch"@,
{
    let mut s = "• ".to_owned();
    s.push_str(name);
    s.push_str(" — ");
    push_decimal(&mut s, footprint as u128);
    s.push_str(" ch");
    s
}

/// Who made an entry: the uploader and the creator, as far as they are known.
pub fn credits(uploader: &str, creator: &str) -> (r: Option<String>)
    ensures
        match r {
            None => uploader@.len() == 0 && creator@.len() == 0,
            Some(s) => (uploader@.len() > 0 || creator@.len() > 0) && s@ == "by "@ + uploader@ + (
            if uploader@.len() > 0 && creator@.len() > 0 { " · "@ } else { seq![] }) + creator@,
        },
{
    let u: usize = uploader.unicode_len();
    let c: usize = creator.unicode_len();
    if u == 0 && c == 0 {
        return None;
    }
    let mut s = "by ".to_owned();
    s.push_str(uploader);
    if u > 0 && c > 0 {
        s.push_str(" · ");
    }
    s.push_str(creator);
    assert(s@ =~= "by "@ + uploader@ + (if uploader@.len() > 0 && creator@.len() > 0 {
        " · "@
    } else {
        seq![]
    }) + creator@);
    Some(s)
}

/// A download is handed out to be imported once: what is handed out at one time,
/// of the ids that were waiting, is not among those that still wait, and so not
/// among what is handed out later, whatever has been downloaded by then.
pub proof fn download_is_imported_once(
    pending: Seq<i64>,
    downloaded: Seq<i64>,
    downloading: Seq<i64>,
    later: Seq<i64>,
    id: i64,
)
    requires
        pending.filter(|x: i64| downloaded.contains(x)).contains(id),
    ensures
        !pending.filter(
            |x: i64| !downloaded.contains(x) && downloading.contains(x),
        ).contains(id),
        !pending.filter(|x: i64| !downloaded.contains(x) && downloading.contains(x)).filter(
            |x: i64| later.contains(x),
        ).contains(id),
{
    let q = |x: i64| !downloaded.contains(x) && downloading.contains(x);
    lemma_filtered(pending, |x: i64| downloaded.contains(x));
    lemma_filtered(pending, q);
    lemma_filtered(pending.filter(q), |x: i64| later.contains(x));
}

/// Nothing is waited for that has been downloaded or has failed: what stays on
/// the list is on its way.
pub proof fn only_running_downloads_wait(
    pending: Seq<i64>,
    downloaded: Seq<i64>,
    downloading: Seq<i64>,
    id: i64,
)
    requires
        pending.filter(
            |x: i64| !downloaded.contains(x) && downloading.contains(x),
        ).contains(id),
    ensures
        pending.contains(id) && downloading.contains(id) && !downloaded.contains(id),
{
    lemma_filtered(pending, |x: i64| !downloaded.contains(x) && downloading.contains(x));
}

/// The waiting downloads that are there.
pub open spec fn ready_of(pending: Seq<i64>, downloaded: Seq<i64>) -> Seq<i64> {
    pending.filter(|id: i64| downloaded.contains(id))
}

/// The waiting downloads that are still on their way.
pub open spec fn still_waiting(
    pending: Seq<i64>,
    downloaded: Seq<i64>,
    downloading: Seq<i64>,
) -> Seq<i64> {
    pending.filter(|id: i64| !downloaded.contains(id) && downloading.contains(id))
}

/// What waits is handed out once it is there, keeps waiting while it is on its way, and is
/// dropped where it is neither; nothing else is handed out or waits.
pub proof fn downloads_are_handed_out_when_there(
    pending: Seq<i64>,
    downloaded: Seq<i64>,
    downloading: Seq<i64>,
    id: i64,
)
    ensures
        ready_of(pending, downloaded).contains(id) <==> pending.contains(id) && downloaded.contains(
            id,
        ),
        still_waiting(pending, downloaded, downloading).contains(id) <==> pending.contains(id)
            && downloading.contains(id) && !downloaded.contains(id),
{
    let p = |id: i64| downloaded.contains(id);
    let q = |id: i64| !downloaded.contains(id) && downloading.contains(id);
    lemma_filtered(pending, p);
    lemma_filtered(pending, q);
    assert(ready_of(pending, downloaded) == pending.filter(p));
    assert(still_waiting(pending, downloaded, downloading) == pending.filter(q));
}

/// Adding an id lists it, and nothing else that was not there; no id is listed twice.
pub proof fn joining_adds_one(ids: Seq<i64>, id: i64, other: i64)
    ensures
        joined(ids, id).contains(other) <==> ids.contains(other) || other == id,
        ids.contains(id) ==> joined(ids, id) == ids,
        ids.no_duplicates() ==> joined(ids, id).no_duplicates(),
{
    let longer = ids.push(id);
    if ids.contains(other) {
        let k = choose|k: int| 0 <= k < ids.len() && ids[k] == other;
        assert(longer[k] == other);
    }
    assert(longer[ids.len() as int] == id);
}

/// What a click on a row's action leads to.
pub open spec fn click_leads(downloaded: bool, logged_in: bool) -> AddStep {
    if downloaded {
        AddStep::Import
    } else if logged_in {
        AddStep::Download
    } else {
        AddStep::Nothing
    }
}

/// What is downloaded is imported, signed in or not; anything else needs the user to be
/// signed in, and is downloaded then.
pub proof fn click_imports_or_downloads(logged_in: bool)
    ensures
        click_leads(true, logged_in) == AddStep::Import,
        click_leads(false, true) == AddStep::Download,
        click_leads(false, false) == AddStep::Nothing,
{
}

/// A row in the library offers nothing more, whatever its status; one that is cached
/// offers to be added without signing in; a download and an update are offered always, and
/// enabled exactly for a user who is signed in.
pub proof fn row_offers_what_can_be_done(status: RowStatus, logged_in: bool)
    ensures
        row_offer(true, status, logged_in) == RowOffer::Added,
        row_offer(false, RowStatus::Cached, logged_in) == RowOffer::Add,
        row_offer(false, RowStatus::Downloading, logged_in) == RowOffer::Downloading,
        row_offer(false, RowStatus::Cloud, logged_in) == (RowOffer::Download {
            enabled: logged_in,
        }),
        row_offer(false, RowStatus::Update, logged_in) == (RowOffer::Update { enabled: logged_in }),
        first_run(logged_in, 0) <==> !logged_in,
        !can_refresh(false, true) && !can_refresh(true, true) && !can_refresh(false, false)
            && can_refresh(true, false),
{
}

/// Rounding goes to the nearest: the rounded quotient is never off by more than a half, and
/// it is exact where the division is.
pub proof fn rounding_is_to_the_nearest(n: nat, d: nat)
    requires
        d > 0,
    ensures
        ({
            let q = rounded_even(n, d) as int;
            &&& -(d as int) <= 2 * (q * d - n) <= d
            &&& n % d == 0 ==> q * d == n
            &&& 2 * (q * d - n) == d || 2 * (q * d - n) == -(d as int) ==> q % 2 == 0
        }),
{
    let a = (n / d) as int;
    let r = (n % d) as int;
    let e = d as int;
    let m = n as int;
    vstd::arithmetic::div_mod::lemma_fundamental_div_mod(m, e);
    assert(m == a * e + r && 0 <= r < e) by (nonlinear_arith)
        requires
            e > 0,
            a == m / e,
            r == m % e,
    ;
    assert((a + 1) * e == a * e + e) by (nonlinear_arith);
}

/// A size in bytes or whole kilobytes reads back, in its unit: bytes below 1024, rounded
/// kilobytes below 1048576, megabytes from there on; one that is not known is a dash.
pub proof fn size_reads_back(bytes: i64)
    ensures
        bytes <= 0 ==> size_text(bytes) == "—"@,
        0 < bytes < 1024 ==> number_of(size_text(bytes).take(size_text(bytes).len() - 2)) == bytes
            && size_text(bytes).last() == 'B' && size_text(bytes)[size_text(bytes).len() - 2] == ' ',
        1024 <= bytes < 1048576 ==> ({
            let text = size_text(bytes);
            let kb = number_of(text.take(text.len() - 3)) as int;
            &&& text[text.len() - 2] == 'K'
            &&& -1024 <= 2 * (kb * 1024 - bytes) <= 1024
        }),
        bytes >= 1048576 ==> size_text(bytes)[size_text(bytes).len() - 2] == 'M'
            && size_text(bytes)[size_text(bytes).len() - 5] == '.',
{
    reveal_strlit(" B");
    reveal_strlit(" KB");
    reveal_strlit(" MB");
    let text = size_text(bytes);
    if 0 < bytes < 1024 {
        decimal_reads_back(bytes as nat);
        assert(text.take(text.len() - 2) =~= decimal(bytes as nat));
    } else if 1024 <= bytes < 1048576 {
        let kb = rounded_even(bytes as nat, 1024);
        decimal_reads_back(kb);
        rounding_is_to_the_nearest(bytes as nat, 1024);
        assert(text.take(text.len() - 3) =~= decimal(kb));
    }
}

/// A date reads back: four digits of the year, two of the month, two of the day.
pub proof fn date_reads_back(y: int, m: int, d: int)
    requires
        is_date(y, m, d),
        y < 10000,
    ensures
        ({
            let text = date_text(y, m, d);
            &&& text.len() == 10 && text[4] == '-' && text[7] == '-'
            &&& number_of(text.subrange(0, 4)) == y
            &&& number_of(text.subrange(5, 7)) == m
            &&& number_of(text.subrange(8, 10)) == d
        }),
{
    padded_reads_back(y as nat, 4);
    padded_reads_back(m as nat, 2);
    padded_reads_back(d as nat, 2);
    reveal_with_fuel(decimal, 5);
    assert(decimal(y as nat).len() <= 4);
    assert(decimal(m as nat).len() <= 2 && decimal(d as nat).len() <= 2);
    let text = date_text(y, m, d);
    assert(text.subrange(0, 4) =~= padded(y as nat, 4));
    assert(text.subrange(5, 7) =~= padded(m as nat, 2));
    assert(text.subrange(8, 10) =~= padded(d as nat, 2));
}

/// The calendar: a leap year every four years, not in the centuries but in every fourth of
/// them, and a day more in it; the months of a year make up its days, and the day after the
/// last of a month or a year is the first of the next.
pub proof fn calendar_has_no_gap(y: int, m: int)
    requires
        y >= 1970,
        1 <= m <= 12,
    ensures
        y % 4 != 0 ==> days_in_year(y) == 365,
        y % 100 == 0 && y % 400 != 0 ==> days_in_year(y) == 365,
        y % 400 == 0 ==> days_in_year(y) == 366,
        y % 4 == 0 && y % 100 != 0 ==> days_in_year(y) == 366,
        m < 12 ==> day_number(y, m + 1, 1) == day_number(y, m, days_in_month(y, m)) + 1,
        day_number(y + 1, 1, 1) == day_number(y, 12, 31) + 1,
        day_number(1970, 1, 1) == 0,
        28 <= days_in_month(y, m) <= 31,
{
    lemma_months(y);
    assert(days_before_month(y, 13) == days_before_month(y, 12) + days_in_month(y, 12));
    assert(days_before_month(y, 1) == 0 && days_before_month(y + 1, 1) == 0);
    assert(days_before_month(1970, 1) == 0);
}

/// A revision's id reads back from its file name: the digits before the extension, with a
/// minus before a negative one. So two ids have two file names.
pub proof fn file_name_reads_back(id: i64)
    ensures
        ({
            let name = file_name(id);
            let n = name.len() as int;
            &&& id >= 0 ==> number_of(name.take(n - 5)) == id
            &&& id < 0 ==> name[0] == '-' && number_of(name.subrange(1, n - 5)) == -id
            &&& name.skip(n - 5) == ".gdtf"@
            &&& name.take(n - 5) == number_text(id)
        }),
{
    reveal_strlit(".gdtf");
    let name = file_name(id);
    let n = name.len() as int;
    assert(name.skip(n - 5) =~= ".gdtf"@);
    if id >= 0 {
        decimal_reads_back(id as nat);
        assert(name.take(n - 5) =~= decimal(id as nat));
    } else {
        decimal_reads_back((-id) as nat);
        assert(name.subrange(1, n - 5) =~= decimal((-id) as nat));
        assert(name.take(n - 5) =~= seq!['-'] + decimal((-id) as nat));
    }
}

/// Can the sign-in be submitted?
pub open spec fn submittable(user: Seq<char>, password: Seq<char>) -> bool {
    trimmed(user).len() > 0 && password.len() > 0
}

/// A sign-in needs a password, and a user that is more than white space.
pub proof fn sign_in_needs_both(user: Seq<char>, password: Seq<char>)
    ensures
        password.len() == 0 ==> !submittable(user, password),
        (forall|k: int| 0 <= k < user.len() ==> white_space(#[trigger] user[k])) ==> !submittable(
            user,
            password,
        ),
        user.len() > 0 && !white_space(user[0]) && password.len() > 0 ==> submittable(user, password),
{
    trimming_takes_the_ends_off(user);
    let (a, b) = choose|a: int, b: int|
        0 <= a <= b <= user.len() && trimmed(user) == #[trigger] user.subrange(a, b) && (forall|k: int|
            0 <= k < user.len() && (k < a || b <= k) ==> white_space(#[trigger] user[k]));
    if trimmed(user).len() > 0 {
        assert(trimmed(user)[0] == user[a]);
    }
    if user.len() > 0 && !white_space(user[0]) {
        assert(a == 0 && b > 0);
    }
}

} // verus!
