//! The Patch and Unpatch dialogs.

use vstd::prelude::*;
use crate::text::{decimal, decimal_reads_back, number_of, push_decimal};

verus! {

/// The highest universe.
pub const MAX_UNIVERSE: u16 = 63999;

/// The channels of a universe.
pub const CHANNELS: u16 = 512;

/// The Patch dialog: how many fixtures it patches, and from where, both counted
/// from 1.
#[derive(Clone, Copy, Debug, PartialEq, Eq, Structural)]
pub struct PatchDialog {
    pub open: bool,
    pub count: usize,
    pub start_universe: u16,
    pub start_address: u16,
}

impl Default for PatchDialog {
    fn default() -> (r: Self)
        ensures
            r == (PatchDialog { open: false, count: 0, start_universe: 0, start_address: 0 }),
    {
        PatchDialog { open: false, count: 0, start_universe: 0, start_address: 0 }
    }
}

/// The kinds of selection that can be unpatched.
#[derive(Clone, Copy, Debug, PartialEq, Eq, Structural)]
pub enum SelKind {
    Fixture,
    Geometry,
    Screen,
    Pyro,
    Environment,
}

/// The Unpatch dialog: how many of what it unpatches.
#[derive(Clone, Copy, Debug, PartialEq, Eq, Structural)]
pub struct UnpatchDialog {
    pub open: bool,
    pub count: usize,
    pub kind: SelKind,
}

impl Default for UnpatchDialog {
    fn default() -> (r: Self)
        ensures
            r == (UnpatchDialog { open: false, count: 0, kind: SelKind::Fixture }),
    {
        UnpatchDialog { open: false, count: 0, kind: SelKind::Fixture }
    }
}

/// A frame's keys and buttons.
#[derive(Clone, Copy, Debug, PartialEq, Eq, Structural)]
pub struct DialogInput {
    pub escape: bool,
    pub enter: bool,
    /// The button that goes ahead.
    pub confirm: bool,
    pub cancel: bool,
}

/// A value kept within `lo..=hi`.
pub open spec fn within(v: int, lo: int, hi: int) -> int {
    if v < lo {
        lo
    } else if v > hi {
        hi
    } else {
        v
    }
}

/// A value kept within `1..=hi`.
fn keep_within(v: i32, hi: u16) -> (r: u16)
    requires
        hi >= 1,
    ensures
        r == within(v as int, 1, hi as int),
{
    if v < 1 {
        1
    } else if v > hi as i32 {
        hi
    } else {
        v as u16
    }
}

/// A count with its noun in the plural, unless it is one.
pub open spec fn plural(n: nat, noun: Seq<char>) -> Seq<char> {
    decimal(n).push(' ') + noun + (if n == 1 { seq![] } else { seq!['s'] })
}

fn push_plural(s: &mut String, n: usize, noun: &str)
    ensures
        final(s)@ == old(s)@ + plural(n as nat, noun@),
{
    push_decimal(s, n as u128);
    s.push(' ');
    s.push_str(noun);
    if n != 1 {
        s.push('s');
    }
    assert(s@ =~= old(s)@ + plural(n as nat, noun@));
}

/// Does a frame go ahead? The button does it, and Enter unless a text field has
/// it.
pub open spec fn goes_ahead(open: bool, input: DialogInput, text_focus: bool) -> bool {
    open && ((input.enter && !text_focus) || input.confirm)
}

/// Is the dialog open after a frame? Going ahead and a cancel close it.
pub open spec fn left_open(open: bool, input: DialogInput, text_focus: bool) -> bool {
    open && !goes_ahead(open, input, text_focus) && !input.escape && !input.cancel
}

impl PatchDialog {
    /// The universe was edited.
    pub fn set_universe(&mut self, u: i32)
        ensures
            final(self).start_universe == universe_of(u as int),
            *final(self) == (PatchDialog {
                start_universe: within(u as int, 1, 63999) as u16,
                ..*old(self)
            }),
    {
        self.start_universe = keep_within(u, MAX_UNIVERSE);
    }

    /// The address was edited.
    pub fn set_address(&mut self, a: i32)
        ensures
            final(self).start_address == address_of(a as int),
            *final(self) == (PatchDialog {
                start_address: within(a as int, 1, 512) as u16,
                ..*old(self)
            }),
    {
        self.start_address = keep_within(a, CHANNELS);
    }

    /// The dialog's question.
    pub fn prompt(&self) -> (r: String)
        ensures
            r@ == "Patch "@ + plural(self.count as nat, "fixture"@) + " from:"@,
    {
        let mut s = "Patch ".to_owned();
        push_plural(&mut s, self.count, "fixture");
        s.push_str(" from:");
        s
    }

    /// A frame of the dialog: the button or Enter goes ahead, and that or a
    /// cancel closes it. The result says whether to go ahead.
    pub fn step(&mut self, input: DialogInput) -> (confirm: bool)
        ensures
            confirm == goes_ahead(old(self).open, input, false),
            *final(self) == (PatchDialog {
                open: left_open(old(self).open, input, false),
                ..*old(self)
            }),
    {
        if !self.open {
            return false;
        }
        let confirm = input.enter || input.confirm;
        if confirm || input.escape || input.cancel {
            self.open = false;
        }
        confirm
    }
}

impl UnpatchDialog {
    /// The dialog's question, with the noun of what is unpatched.
    pub fn prompt(&self, noun: &str) -> (r: String)
        ensures
            r@ == "Unpatch "@ + plural(self.count as nat, noun@) + "?"@,
    {
        let mut s = "Unpatch ".to_owned();
        push_plural(&mut s, self.count, noun);
        s.push_str("?");
        s
    }

    /// A frame of the dialog. Enter does not go ahead while a text field has it.
    pub fn step(&mut self, input: DialogInput, text_focus: bool) -> (confirm: bool)
        ensures
            confirm == goes_ahead(old(self).open, input, text_focus),
            *final(self) == (UnpatchDialog {
                open: left_open(old(self).open, input, text_focus),
                ..*old(self)
            }),
    {
        if !self.open {
            return false;
        }
        let confirm = (input.enter && !text_focus) || input.confirm;
        if confirm || input.escape || input.cancel {
            self.open = false;
        }
        confirm
    }
}

/// A dialog goes ahead once: the frame that does so closes it, and the next one
/// does not go ahead again.
pub proof fn dialog_goes_ahead_once(
    open: bool,
    first: DialogInput,
    first_focus: bool,
    next: DialogInput,
    next_focus: bool,
)
    requires
        goes_ahead(open, first, first_focus),
    ensures
        !left_open(open, first, first_focus),
        !goes_ahead(left_open(open, first, first_focus), next, next_focus),
{
}

/// The universe that an edit gives.
pub open spec fn universe_of(v: int) -> int {
    within(v, 1, 63999)
}

/// The address that an edit gives.
pub open spec fn address_of(v: int) -> int {
    within(v, 1, 512)
}

/// An edit is taken as it is where it lies in range, and goes to the nearer end of the
/// range where it does not: universes run from 1 to 63999, addresses from 1 to 512.
pub proof fn edits_stay_in_range(v: int)
    ensures
        1 <= universe_of(v) <= 63999,
        1 <= v <= 63999 ==> universe_of(v) == v,
        v < 1 ==> universe_of(v) == 1 && address_of(v) == 1,
        v > 63999 ==> universe_of(v) == 63999,
        1 <= address_of(v) <= 512,
        1 <= v <= 512 ==> address_of(v) == v,
        v > 512 ==> address_of(v) == 512,
{
}

/// An open dialog goes ahead on its button, and on Enter unless a text field has the
/// keyboard. Escape and the cancel button close it without that, and a frame without any
/// of them leaves it open. A closed dialog does nothing.
pub proof fn dialog_answers_its_keys(input: DialogInput, text_focus: bool)
    ensures
        input.confirm ==> goes_ahead(true, input, text_focus),
        input.enter ==> goes_ahead(true, input, false),
        input.enter && !input.confirm ==> !goes_ahead(true, input, true),
        !input.enter && !input.confirm ==> !goes_ahead(true, input, text_focus),
        input.escape || input.cancel ==> !left_open(true, input, text_focus),
        !input.escape && !input.cancel && !input.enter && !input.confirm ==> left_open(
            true,
            input,
            text_focus,
        ),
        !goes_ahead(false, input, text_focus) && !left_open(false, input, text_focus),
{
}

/// A count with its noun reads back, and the noun has its plural but for one.
pub proof fn plural_reads_back(n: nat, noun: Seq<char>)
    ensures
        ({
            let text = plural(n, noun);
            let d = decimal(n).len() as int;
            &&& number_of(text.take(d)) == n && text[d] == ' '
            &&& n == 1 ==> text.skip(d + 1) == noun
            &&& n != 1 ==> text.skip(d + 1) == noun.push('s')
        }),
{
    decimal_reads_back(n);
    let text = plural(n, noun);
    let d = decimal(n).len() as int;
    assert(text.take(d) =~= decimal(n));
    assert(text.skip(d + 1) =~= if n == 1 { noun } else { noun.push('s') });
}

} // verus!
