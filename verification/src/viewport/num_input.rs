//! The number typed during a modal transform.

use vstd::prelude::*;
use crate::text::{chars_of, decimal, decimal_reads_back, number_of, text_of};

verus! {

/// A number being typed. Once `active`, it takes over from the mouse.
#[derive(Debug)]
pub struct NumInput {
    /// The digits typed so far, with at most one point among them.
    pub str: String,
    /// Is the number negative?
    pub sign: bool,
    pub active: bool,
}

/// What a [`NumInput`] is.
#[verifier::ext_equal]
pub struct NumView {
    pub text: Seq<char>,
    pub sign: bool,
    pub active: bool,
}

impl View for NumInput {
    type V = NumView;

    open spec fn view(&self) -> NumView {
        NumView { text: self.str@, sign: self.sign, active: self.active }
    }
}

/// No digit is typed past this many characters.
pub const MAX_TYPED: usize = 16;

/// Is `c` one of the ten decimal digits?
#[verifier::allow_in_spec]
pub fn is_digit(c: char) -> bool
    returns
        '0' <= c && c <= '9',
{
    '0' <= c && c <= '9'
}

/// Is there a point in the text?
pub open spec fn has_point(s: Seq<char>) -> bool {
    s.contains('.')
}

/// The text holds digits and at most one point, and no more than can be typed:
/// the point alone may come past the last digit.
pub open spec fn is_number(s: Seq<char>) -> bool {
    &&& forall|i: int| 0 <= i < s.len() ==> is_digit(#[trigger] s[i]) || s[i] == '.'
    &&& forall|i: int, j: int|
        0 <= i < s.len() && 0 <= j < s.len() && #[trigger] s[i] == '.' && #[trigger] s[j] == '.'
            ==> i == j
    &&& s.len() <= MAX_TYPED + 1
    &&& !has_point(s) ==> s.len() <= MAX_TYPED
}

/// The value of a digit.
pub open spec fn digit_value(c: char) -> nat {
    (c as int - '0' as int) as nat
}

/// The digits of a text read as one whole number, the point passed over.
pub open spec fn mantissa(s: Seq<char>) -> nat
    decreases s.len(),
{
    if s.len() == 0 {
        0
    } else if s.last() == '.' {
        mantissa(s.drop_last())
    } else {
        mantissa(s.drop_last()) * 10 + digit_value(s.last())
    }
}

/// How many digits follow the point.
pub open spec fn places(s: Seq<char>) -> nat
    decreases s.len(),
{
    if s.len() == 0 || s.last() == '.' || !has_point(s.drop_last()) {
        0
    } else {
        places(s.drop_last()) + 1
    }
}

/// `10` to the power of `n`.
pub open spec fn pow10(n: nat) -> nat
    decreases n,
{
    if n == 0 {
        1
    } else {
        10 * pow10((n - 1) as nat)
    }
}

proof fn mantissa_is_bounded(s: Seq<char>)
    requires
        forall|i: int| 0 <= i < s.len() ==> is_digit(#[trigger] s[i]) || s[i] == '.',
    ensures
        mantissa(s) < pow10(s.len()),
    decreases s.len(),
{
    if s.len() > 0 {
        let t = s.drop_last();
        assert forall|i: int| 0 <= i < t.len() implies is_digit(#[trigger] t[i]) || t[i] == '.' by {
            assert(t[i] == s[i]);
        }
        mantissa_is_bounded(t);
        assert(s.last() == s[s.len() - 1]);
        assert(pow10(s.len()) == 10 * pow10(t.len()));
    }
}

proof fn pow10_grows(a: nat, b: nat)
    requires
        a <= b,
    ensures
        1 <= pow10(a) <= pow10(b),
    decreases b,
{
    if a < b {
        pow10_grows(a, (b - 1) as nat);
    } else if a > 0 {
        pow10_grows((a - 1) as nat, (b - 1) as nat);
    }
}

/// An exact decimal number: `mantissa / 10^places`, negated where `negative`.
#[derive(Clone, Copy, Debug, PartialEq, Eq, Structural)]
pub struct Decimal {
    pub negative: bool,
    pub mantissa: u64,
    pub places: u32,
}

/// How many objects an array may have.
pub const MAX_ARRAY: u64 = 1000;

/// `m / 10^p` rounded to a whole number, a half away from zero.
pub open spec fn rounded(m: nat, p: nat) -> nat {
    ((2 * m + pow10(p)) / (2 * pow10(p))) as nat
}

/// How many objects a typed number asks for: the number rounded, within
/// `1..=MAX_ARRAY`; one while nothing is typed.
pub open spec fn array_count(v: NumView) -> nat {
    if !v.active || v.sign {
        1
    } else {
        let n = rounded(mantissa(v.text), places(v.text));
        if n < 1 {
            1
        } else if n > MAX_ARRAY {
            MAX_ARRAY as nat
        } else {
            n
        }
    }
}

/// The number after the character `c` of a text event: a digit is taken while
/// there is room, the first point is taken, and the rest is passed over.
pub open spec fn typed(v: NumView, c: char) -> NumView {
    if is_digit(c) {
        if v.text.len() < MAX_TYPED {
            NumView { text: v.text.push(c), active: true, ..v }
        } else {
            v
        }
    } else if c == '.' {
        pointed(v)
    } else {
        v
    }
}

/// The number after a point, unless it has one.
pub open spec fn pointed(v: NumView) -> NumView {
    if has_point(v.text) {
        v
    } else {
        NumView { text: v.text.push('.'), active: true, ..v }
    }
}

/// The number after each character of a text.
pub open spec fn typed_text(v: NumView, s: Seq<char>) -> NumView
    decreases s.len(),
{
    if s.len() == 0 {
        v
    } else {
        typed(typed_text(v, s.drop_last()), s.last())
    }
}

/// The number after each text event.
pub open spec fn typed_texts(v: NumView, texts: Seq<String>) -> NumView
    decreases texts.len(),
{
    if texts.len() == 0 {
        v
    } else {
        typed_text(typed_texts(v, texts.drop_last()), texts.last()@)
    }
}

/// The number after the sign key.
pub open spec fn negated(v: NumView) -> NumView {
    NumView { sign: !v.sign, active: true, ..v }
}

/// The number after Backspace. With nothing left, not even a sign, the mouse
/// takes over again.
pub open spec fn erased(v: NumView) -> NumView {
    let text = if v.text.len() > 0 { v.text.drop_last() } else { v.text };
    NumView { text, active: v.active && !(text.len() == 0 && !v.sign), ..v }
}

/// A frame's number keys.
#[derive(Debug)]
pub struct NumKeys {
    /// The text events, in order.
    pub text: Vec<String>,
    /// Was Period or Comma pressed? The keypad's point comes as a key.
    pub point: bool,
    pub minus: bool,
    pub backspace: bool,
}

/// The number after a frame's keys: text, then the point key, the sign key and
/// Backspace.
pub open spec fn edited(v: NumView, keys: NumKeys) -> NumView {
    let a = typed_texts(v, keys.text@);
    let b = if keys.point { pointed(a) } else { a };
    let c = if keys.minus { negated(b) } else { b };
    if keys.backspace { erased(c) } else { c }
}

impl Default for NumInput {
    fn default() -> (r: Self)
        ensures
            r@ == (NumView { text: seq![], sign: false, active: false }),
            r.wf(),
    {
        let r = NumInput { str: String::new(), sign: false, active: false };
        assert(r@ =~= (NumView { text: seq![], sign: false, active: false }));
        r
    }
}

impl NumInput {
    /// The text is a number as far as it is typed.
    pub open spec fn wf(self) -> bool {
        is_number(self.str@)
    }

    /// A copy of the number.
    pub fn copy(&self) -> (r: NumInput)
        ensures
            r@ == self@,
    {
        NumInput { str: self.str.as_str().to_owned(), sign: self.sign, active: self.active }
    }

    /// The number typed so far; nothing, or a lone point, is zero.
    pub fn value(&self) -> (r: Decimal)
        requires
            self.wf(),
        ensures
            r.negative == self.sign,
            r.mantissa == mantissa(self.str@),
            r.places == places(self.str@),
    {
        let c = chars_of(self.str.as_str());
        let n: usize = c.len();
        let mut m: u64 = 0;
        let mut p: u32 = 0;
        let mut seen: bool = false;
        let mut k: usize = 0;
        assert(c@.take(0) =~= seq![]);
        while k < n
            invariant
                n == c@.len(),
                is_number(c@),
                k <= n,
                m == mantissa(c@.take(k as int)),
                p == places(c@.take(k as int)),
                p <= k,
                seen == has_point(c@.take(k as int)),
            decreases n - k,
        {
            let d: char = c[k];
            proof {
                let before = c@.take(k as int);
                let after = c@.take(k + 1);
                assert(after.drop_last() =~= before);
                assert(after.last() == d);
                assert(is_digit(c@[k as int]) || c@[k as int] == '.');
                if before.contains('.') {
                    let j = choose|j: int| 0 <= j < before.len() && before[j] == '.';
                    assert(after[j] == '.');
                }
                if d == '.' {
                    assert(after[k as int] == '.');
                }
                if after.contains('.') && d != '.' {
                    let j = choose|j: int| 0 <= j < after.len() && after[j] == '.';
                    assert(before[j] == '.');
                }
                assert forall|i: int| 0 <= i < before.len() implies is_digit(#[trigger] before[i])
                    || before[i] == '.' by {
                    assert(before[i] == c@[i]);
                }
                mantissa_is_bounded(before);
                pow10_grows(before.len(), 16);
                assert(pow10(16) == 10_000_000_000_000_000) by {
                    reveal_with_fuel(pow10, 17);
                }
            }
            if d == '.' {
                seen = true;
                p = 0;
            } else {
                let v: u64 = d as u64 - '0' as u64;
                m = m * 10 + v;
                if seen {
                    p = p + 1;
                }
            }
            k = k + 1;
        }
        assert(c@.take(n as int) =~= c@);
        Decimal { negative: self.sign, mantissa: m, places: p }
    }

    /// How many objects the typed number asks for, within `1..=MAX_ARRAY`.
    pub fn count(&self) -> (r: usize)
        requires
            self.wf(),
        ensures
            r == array_count(self@),
            1 <= r <= MAX_ARRAY,
    {
        if !self.active || self.sign {
            return 1;
        }
        let v = self.value();
        proof {
            mantissa_is_bounded(self.str@);
            places_are_few(self.str@);
            pow10_grows(self.str@.len(), 17);
            pow10_grows(places(self.str@), 17);
            assert(pow10(17) == 100_000_000_000_000_000) by {
                reveal_with_fuel(pow10, 18);
            }
        }
        let mut unit: u128 = 1;
        let mut k: u32 = 0;
        while k < v.places
            invariant
                k <= v.places,
                v.places <= 17,
                unit == pow10(k as nat),
                unit <= 100_000_000_000_000_000,
                pow10(17) == 100_000_000_000_000_000,
            decreases v.places - k,
        {
            proof {
                pow10_grows((k + 1) as nat, 17);
            }
            unit = unit * 10;
            k = k + 1;
        }
        let m: u128 = v.mantissa as u128;
        let n: u128 = (2 * m + unit) / (2 * unit);
        if n < 1 {
            1
        } else if n > 1000 {
            1000
        } else {
            n as usize
        }
    }

    /// The number as the hint shows it. A lone sign shows as `-0`.
    pub fn display(&self) -> (r: String)
        ensures
            r@ == shown_number(self@),
            r@ == (if self.sign { seq!['-'] } else { seq![] }) + (if self.str@.len() == 0 {
                seq!['0']
            } else {
                self.str@
            }),
    {
        let mut s = String::new();
        if self.sign {
            s.push('-');
        }
        if self.str.as_str().unicode_len() == 0 {
            s.push('0');
        } else {
            s.push_str(self.str.as_str());
        }
        assert(s@ =~= (if self.sign { seq!['-'] } else { seq![] }) + (if self.str@.len() == 0 {
            seq!['0']
        } else {
            self.str@
        }));
        s
    }

    /// One character of a text event.
    pub fn type_char(&mut self, c: char)
        requires
            old(self).wf(),
        ensures
            final(self)@ == typed(old(self)@, c),
            final(self).wf(),
    {
        if is_digit(c) {
            if self.str.as_str().unicode_len() < MAX_TYPED {
                proof {
                    pushed_is_number(self.str@, c);
                }
                self.str.push(c);
                self.active = true;
            }
        } else if c == '.' {
            self.type_point();
        }
        assert(self@ =~= typed(old(self)@, c));
    }

    /// The point key.
    pub fn type_point(&mut self)
        requires
            old(self).wf(),
        ensures
            final(self)@ == pointed(old(self)@),
            final(self).wf(),
    {
        let c = chars_of(self.str.as_str());
        let mut k: usize = 0;
        while k < c.len()
            invariant
                k <= c@.len(),
                c@ == self.str@,
                *self == *old(self),
                is_number(self.str@),
                forall|j: int| 0 <= j < k ==> #[trigger] c@[j] != '.',
            decreases c@.len() - k,
        {
            if c[k] == '.' {
                assert(c@[k as int] == '.');
                assert(self.str@.contains('.'));
                return;
            }
            k = k + 1;
        }
        assert(!has_point(self.str@));
        proof {
            pushed_is_number(self.str@, '.');
        }
        self.str.push('.');
        self.active = true;
        assert(self@ =~= pointed(old(self)@));
    }

    /// The characters of a text event.
    pub fn type_text(&mut self, text: &str)
        requires
            old(self).wf(),
        ensures
            final(self)@ == typed_text(old(self)@, text@),
            final(self).wf(),
    {
        let c = chars_of(text);
        let ghost start = self@;
        let mut k: usize = 0;
        assert(c@.take(0) =~= seq![]);
        while k < c.len()
            invariant
                k <= c@.len(),
                self@ == typed_text(start, c@.take(k as int)),
                self.wf(),
            decreases c@.len() - k,
        {
            self.type_char(c[k]);
            assert(c@.take(k + 1).drop_last() =~= c@.take(k as int));
            k = k + 1;
        }
        assert(c@.take(k as int) =~= text@);
    }

    /// A frame's number keys.
    pub fn edit(&mut self, keys: &NumKeys)
        requires
            old(self).wf(),
        ensures
            final(self)@ == edited(old(self)@, *keys),
            final(self).wf(),
    {
        let ghost start = self@;
        let mut k: usize = 0;
        assert(keys.text@.take(0) =~= seq![]);
        while k < keys.text.len()
            invariant
                k <= keys.text@.len(),
                self@ == typed_texts(start, keys.text@.take(k as int)),
                self.wf(),
            decreases keys.text@.len() - k,
        {
            self.type_text(keys.text[k].as_str());
            assert(keys.text@.take(k + 1).drop_last() =~= keys.text@.take(k as int));
            k = k + 1;
        }
        assert(keys.text@.take(k as int) =~= keys.text@);
        if keys.point {
            self.type_point();
        }
        if keys.minus {
            let ghost before = self@;
            self.sign = !self.sign;
            self.active = true;
            assert(self@ =~= negated(before));
        }
        if keys.backspace {
            let ghost before = self@;
            let c = chars_of(self.str.as_str());
            let n: usize = c.len();
            if n > 0 {
                self.str = text_of(&c, 0, n - 1);
                assert(self.str@ =~= before.text.drop_last());
                proof {
                    shorter_is_number(before.text);
                }
            }
            if self.str.as_str().unicode_len() == 0 && !self.sign {
                self.active = false;
            }
            assert(self@ =~= erased(before));
        }
    }
}

proof fn places_are_few(s: Seq<char>)
    ensures
        places(s) <= s.len(),
    decreases s.len(),
{
    if s.len() > 0 {
        places_are_few(s.drop_last());
    }
}

proof fn pushed_is_number(s: Seq<char>, c: char)
    requires
        is_number(s),
        (is_digit(c) && s.len() < MAX_TYPED) || (c == '.' && !has_point(s)),
    ensures
        is_number(s.push(c)),
{
    let t = s.push(c);
    assert forall|i: int| 0 <= i < t.len() implies is_digit(#[trigger] t[i]) || t[i] == '.' by {
        if i < s.len() {
            assert(t[i] == s[i]);
        }
    }
    assert forall|i: int, j: int|
        0 <= i < t.len() && 0 <= j < t.len() && #[trigger] t[i] == '.' && #[trigger] t[j]
            == '.' implies i == j by {
        if i < s.len() {
            assert(s[i] == '.');
            assert(s.contains('.'));
        }
        if j < s.len() {
            assert(s[j] == '.');
            assert(s.contains('.'));
        }
    }
    if s.contains('.') {
        let j = choose|j: int| 0 <= j < s.len() && s[j] == '.';
        assert(t[j] == '.');
    }
    assert(t.last() == c);
    if c == '.' {
        assert(t[s.len() as int] == '.');
    }
}

proof fn shorter_is_number(s: Seq<char>)
    requires
        is_number(s),
        s.len() > 0,
    ensures
        is_number(s.drop_last()),
{
    let t = s.drop_last();
    assert forall|i: int| 0 <= i < t.len() implies is_digit(#[trigger] t[i]) || t[i] == '.' by {
        assert(t[i] == s[i]);
    }
    assert forall|i: int, j: int|
        0 <= i < t.len() && 0 <= j < t.len() && #[trigger] t[i] == '.' && #[trigger] t[j]
            == '.' implies i == j by {
        assert(s[i] == '.' && s[j] == '.');
    }
    if s.contains('.') && s.last() != '.' {
        let j = choose|j: int| 0 <= j < s.len() && s[j] == '.';
        assert(t[j] == '.');
    }
}

/// Backspace takes back the digit typed last.
pub proof fn backspace_undoes_a_digit(v: NumView, c: char)
    requires
        is_digit(c),
        v.text.len() < MAX_TYPED,
    ensures
        erased(typed(v, c)).text == v.text,
        erased(typed(v, c)).sign == v.sign,
{
    assert(v.text.push(c).drop_last() =~= v.text);
}

proof fn lemma_push_point(s: Seq<char>, c: char)
    ensures
        has_point(s.push(c)) <==> has_point(s) || c == '.',
{
    let t = s.push(c);
    if has_point(s) {
        let k = choose|k: int| 0 <= k < s.len() && s[k] == '.';
        assert(t[k] == '.');
    }
    assert(t[s.len() as int] == c);
    if has_point(t) && c != '.' {
        let k = choose|k: int| 0 <= k < t.len() && t[k] == '.';
        assert(s[k] == '.');
    }
}

/// A digit extends the number as on paper: before the point it takes ten times what
/// was there and adds itself, behind it it counts one place further. Past sixteen
/// characters it is not taken. The sign stays.
pub proof fn digit_extends_the_number(v: NumView, c: char)
    requires
        '0' <= c <= '9',
    ensures
        ({
            let w = typed(v, c);
            &&& v.text.len() < 16 ==> w.active && mantissa(w.text) == 10 * mantissa(v.text) + (
            c as int - '0' as int)
            &&& v.text.len() < 16 && !v.text.contains('.') ==> places(w.text) == 0
            &&& v.text.len() < 16 && v.text.contains('.') ==> places(w.text) == places(v.text) + 1
            &&& v.text.len() >= 16 ==> w == v
            &&& w.sign == v.sign
        }),
{
    assert(v.text.push(c).drop_last() =~= v.text);
}

/// The point is taken once and leaves the digits before it; what is neither digit nor
/// point is passed over.
pub proof fn point_is_taken_once(v: NumView, c: char)
    ensures
        mantissa(pointed(v).text) == mantissa(v.text),
        !v.text.contains('.') ==> pointed(v).active && pointed(v).text == v.text.push('.') && places(
            pointed(v).text,
        ) == 0,
        v.text.contains('.') ==> pointed(v) == v,
        pointed(pointed(v)) == pointed(v),
        typed(v, '.') == pointed(v),
        !('0' <= c <= '9') && c != '.' ==> typed(v, c) == v,
{
    assert(v.text.push('.').drop_last() =~= v.text);
    lemma_push_point(v.text, '.');
}

/// The sign key turns the sign round and back, and leaves the digits.
pub proof fn sign_key_turns_the_sign(v: NumView)
    ensures
        negated(v).sign == !v.sign,
        negated(v).text == v.text,
        negated(v).active,
        negated(negated(v)).sign == v.sign,
{
}

/// Backspace takes the last character. With no character and no sign left the mouse
/// takes over again; a sign alone keeps the number going.
pub proof fn backspace_takes_the_last(v: NumView)
    ensures
        v.text.len() > 0 ==> erased(v).text == v.text.drop_last(),
        v.text.len() == 0 ==> erased(v).text.len() == 0,
        erased(v).sign == v.sign,
        v.active && (v.text.len() > 1 || v.sign) ==> erased(v).active,
        v.text.len() <= 1 && !v.sign ==> !erased(v).active,
{
}

/// Each key of a frame does its own part, and a frame without number keys changes
/// nothing.
pub proof fn frame_keys_edit_the_number(v: NumView, keys: NumKeys)
    requires
        keys.text@.len() == 0,
    ensures
        !keys.point && !keys.minus && !keys.backspace ==> edited(v, keys) == v,
        keys.point && !keys.minus && !keys.backspace ==> edited(v, keys) == pointed(v),
        keys.minus && !keys.point && !keys.backspace ==> edited(v, keys) == negated(v),
        keys.backspace && !keys.point && !keys.minus ==> edited(v, keys) == erased(v),
        keys.backspace && keys.minus && !keys.point ==> edited(v, keys).sign != v.sign,
{
}

/// Typing goes on where it stopped: a text is typed as its parts one after the other.
pub proof fn typing_goes_on(v: NumView, s: Seq<char>, c: char)
    ensures
        typed_text(v, seq![]) == v,
        typed_text(v, s.push(c)) == typed(typed_text(v, s), c),
{
    assert(s.push(c).drop_last() =~= s);
}

proof fn lemma_digits_read(s: Seq<char>)
    requires
        forall|k: int| 0 <= k < s.len() ==> '0' <= #[trigger] s[k] <= '9',
    ensures
        mantissa(s) == number_of(s),
        places(s) == 0,
        !has_point(s),
    decreases s.len(),
{
    if has_point(s) {
        let k = choose|k: int| 0 <= k < s.len() && s[k] == '.';
        assert('0' <= s[k] <= '9');
    }
    if s.len() > 0 {
        let front = s.drop_last();
        assert forall|k: int| 0 <= k < front.len() implies '0' <= #[trigger] front[k] <= '9' by {
            assert(s[k] == front[k]);
        }
        lemma_digits_read(front);
        assert('0' <= s[s.len() - 1] <= '9');
    }
}

/// A number typed in digits is that number, and as a count of objects it is itself
/// between one and a thousand, and the nearer bound beyond them.
pub proof fn typed_number_is_itself(n: nat)
    ensures
        mantissa(decimal(n)) == n,
        places(decimal(n)) == 0,
        ({
            let count = array_count(NumView { text: decimal(n), sign: false, active: true });
            &&& 1 <= n <= 1000 ==> count == n
            &&& n < 1 ==> count == 1
            &&& n > 1000 ==> count == 1000
        }),
{
    decimal_reads_back(n);
    lemma_digits_read(decimal(n));
    reveal_with_fuel(pow10, 1);
    assert(rounded(n, 0) == n) by {
        assert((2 * n + 1) / 2 == n as int);
    }
}

/// The count of an array is the typed number rounded to the nearest, a half upwards,
/// within one and a thousand; nothing typed and a negative number count as one.
pub proof fn count_is_the_nearest(v: NumView)
    ensures
        ({
            let count = array_count(v) as int;
            let m = mantissa(v.text) as int;
            let unit = pow10(places(v.text)) as int;
            &&& 1 <= count <= 1000
            &&& !v.active || v.sign ==> count == 1
            &&& v.active && !v.sign && 1 < count < 1000 ==> 2 * count * unit - unit <= 2 * m < 2 * count
                * unit + unit
            &&& v.active && !v.sign && count == 1000 ==> 2 * m >= 1999 * unit
            &&& v.active && !v.sign && count == 1 ==> 2 * m < 3 * unit
        }),
        pow10(0) == 1,
        forall|p: nat| #[trigger] pow10(p + 1) == 10 * pow10(p),
{
    let m = mantissa(v.text) as int;
    let p = places(v.text);
    let unit = pow10(p) as int;
    pow10_grows(0, p);
    let q = (2 * m + unit) / (2 * unit);
    assert(q * (2 * unit) <= 2 * m + unit < (q + 1) * (2 * unit)) by (nonlinear_arith)
        requires
            unit >= 1,
            q == (2 * m + unit) / (2 * unit),
    ;
    assert(rounded(mantissa(v.text), p) == q) by (nonlinear_arith)
        requires
            m >= 0,
            unit >= 1,
            q == (2 * m + unit) / (2 * unit),
            rounded(mantissa(v.text), p) == ((2 * m + unit) / (2 * unit)) as nat,
    ;
    assert(q * (2 * unit) == 2 * q * unit) by (nonlinear_arith);
    assert((q + 1) * (2 * unit) == 2 * q * unit + 2 * unit) by (nonlinear_arith);
    if v.active && !v.sign {
        if q >= 1000 {
            assert(2 * q * unit >= 2000 * unit) by (nonlinear_arith)
                requires
                    q >= 1000,
                    unit >= 1,
            ;
        }
        if q <= 1 {
            assert(2 * q * unit <= 2 * unit) by (nonlinear_arith)
                requires
                    q <= 1,
                    unit >= 1,
            ;
        }
    }
    assert forall|k: nat| #[trigger] pow10(k + 1) == 10 * pow10(k) by {}
}

/// The number as the hint shows it.
pub open spec fn shown_number(v: NumView) -> Seq<char> {
    (if v.sign { seq!['-'] } else { seq![] }) + (if v.text.len() == 0 { seq!['0'] } else { v.text })
}

/// The hint shows what was typed, or a zero, and a minus before it exactly where the
/// number is negative.
pub proof fn hint_shows_what_was_typed(v: NumView)
    ensures
        !v.sign && v.text.len() > 0 ==> shown_number(v) == v.text,
        !v.sign && v.text.len() == 0 ==> shown_number(v) == seq!['0'],
        v.sign ==> shown_number(v)[0] == '-' && shown_number(v).drop_first() == shown_number(
            NumView { sign: false, ..v },
        ),
{
    assert(shown_number(NumView { sign: true, ..v }).drop_first() =~= shown_number(
        NumView { sign: false, ..v },
    ));
    assert(!v.sign && v.text.len() > 0 ==> shown_number(v) =~= v.text);
}

/// Text events are typed one after the other, and Backspace in the same frame takes the last
/// of what they typed.
pub proof fn text_events_are_typed_in_order(v: NumView, texts: Seq<String>, t: String, keys: NumKeys)
    ensures
        typed_texts(v, texts.push(t)) == typed_text(typed_texts(v, texts), t@),
        typed_texts(v, seq![]) == v,
        !keys.point && !keys.minus && !keys.backspace ==> edited(v, keys) == typed_texts(
            v,
            keys.text@,
        ),
        !keys.point && !keys.minus && keys.backspace ==> edited(v, keys) == erased(
            typed_texts(v, keys.text@),
        ),
{
    assert(texts.push(t).drop_last() =~= texts);
}

} // verus!
