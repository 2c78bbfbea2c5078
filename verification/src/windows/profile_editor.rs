//! The fixture profile editor: its tabs, when it closes, and the texts of its
//! tables.

use vstd::prelude::*;
use crate::scene::Scene;
use crate::text::{decimal, decimal_reads_back, number_of, push_decimal};
use crate::theme::Icon;

verus! {

/// A detail tab.
#[derive(Clone, Copy, Debug, PartialEq, Eq, Structural)]
pub enum ProfileTab {
    Identity,
    Physical,
    Optics,
    Modes,
    Channels,
    Wheels,
    Defaults,
}

impl ProfileTab {
    /// The tabs, in order.
    pub const ALL: [ProfileTab; 7] = [
        ProfileTab::Identity,
        ProfileTab::Physical,
        ProfileTab::Optics,
        ProfileTab::Modes,
        ProfileTab::Channels,
        ProfileTab::Wheels,
        ProfileTab::Defaults,
    ];

    /// The tab's label.
    pub fn label(self) -> (r: &'static str)
        ensures
            r@ == (match self {
                ProfileTab::Identity => "Identity"@,
                ProfileTab::Physical => "Physical"@,
                ProfileTab::Optics => "Optics"@,
                ProfileTab::Modes => "DMX Modes"@,
                ProfileTab::Channels => "Channels"@,
                ProfileTab::Wheels => "Wheels"@,
                ProfileTab::Defaults => "Defaults"@,
            }),
    {
        match self {
            ProfileTab::Identity => "Identity",
            ProfileTab::Physical => "Physical",
            ProfileTab::Optics => "Optics",
            ProfileTab::Modes => "DMX Modes",
            ProfileTab::Channels => "Channels",
            ProfileTab::Wheels => "Wheels",
            ProfileTab::Defaults => "Defaults",
        }
    }

    /// The tab's icon.
    #[verifier::allow_in_spec]
    pub fn icon(self) -> Icon
        returns
            (match self {
                ProfileTab::Identity => Icon::Info,
                ProfileTab::Physical => Icon::Fixture,
                ProfileTab::Optics => Icon::Inspector,
                ProfileTab::Modes => Icon::Dmx,
                ProfileTab::Channels => Icon::Patch,
                ProfileTab::Wheels => Icon::Color,
                ProfileTab::Defaults => Icon::Settings,
            }),
    {
        match self {
            ProfileTab::Identity => Icon::Info,
            ProfileTab::Physical => Icon::Fixture,
            ProfileTab::Optics => Icon::Inspector,
            ProfileTab::Modes => Icon::Dmx,
            ProfileTab::Channels => Icon::Patch,
            ProfileTab::Wheels => Icon::Color,
            ProfileTab::Defaults => Icon::Settings,
        }
    }
}

/// The open editor: its fixture, tab and emitter.
#[derive(Clone, Copy, Debug, PartialEq, Eq, Structural)]
pub struct ProfileEditor {
    pub fixture: usize,
    pub tab: ProfileTab,
    pub emitter: usize,
}

impl ProfileEditor {
    /// The editor of a fixture, at its first tab and emitter.
    pub fn new(fixture: usize) -> (r: ProfileEditor)
        ensures
            r == (ProfileEditor { fixture, tab: ProfileTab::Identity, emitter: 0 }),
    {
        ProfileEditor { fixture, tab: ProfileTab::Identity, emitter: 0 }
    }
}

/// Does the editor stay open: is its fixture there, with an imported definition?
pub open spec fn stays_open(scene: Scene, state: Option<ProfileEditor>) -> bool {
    state matches Some(ed) && ed.fixture < scene.fixtures@.len()
        && scene.fixtures@[ed.fixture as int].maker is Some
}

/// Close the editor where its fixture is gone or has no imported definition.
pub fn check_open(scene: &Scene, state: &mut Option<ProfileEditor>)
    ensures
        *final(state) == (if stays_open(*scene, *old(state)) { *old(state) } else { None }),
{
    let keep = match *state {
        Some(ed) => ed.fixture < scene.fixtures.len() && scene.fixtures[ed.fixture].maker.is_some(),
        None => false,
    };
    if !keep {
        *state = None;
    }
}

/// Spaces in front of a number, up to a width of two.
pub open spec fn right_two(n: nat) -> Seq<char> {
    if n < 10 { seq![' '] + decimal(n) } else { decimal(n) }
}

/// The row of the emitter `i`.
pub fn emitter_text(i: usize, name: &str) -> (r: String)
    ensures
        r@ == right_two(i as nat) + "  ·  "@ + name@,
{
    let mut s = String::new();
    if i < 10 {
        s.push(' ');
    }
    push_decimal(&mut s, i as u128);
    assert(s@ =~= right_two(i as nat));
    s.push_str("  ·  ");
    s.push_str(name);
    s
}

/// The row of a DMX mode.
pub fn mode_text(name: &str, footprint: u32, emitters: usize) -> (r: String)
    ensures
        r@ == name@ + "  ·  "@ + decimal(footprint as nat) + " ch  ·  "@ + decimal(emitters as nat)
            + " emitters"@,
{
    let mut s = name.to_owned();
    s.push_str("  ·  ");
    push_decimal(&mut s, footprint as u128);
    s.push_str(" ch  ·  ");
    push_decimal(&mut s, emitters as u128);
    s.push_str(" emitters");
    s
}

/// The heading of the channel table.
pub fn channels_heading(name: &str, footprint: u32) -> (r: String)
    ensures
        r@ == name@ + "  ·  "@ + decimal(footprint as nat) + " ch"@,
{
    let mut s = name.to_owned();
    s.push_str("  ·  ");
    push_decimal(&mut s, footprint as u128);
    s.push_str(" ch");
    s
}

/// The heading of a wheel.
pub fn wheel_heading(name: &str, slots: usize) -> (r: String)
    ensures
        r@ == name@ + "  ·  "@ + decimal(slots as nat) + " slots"@,
{
    let mut s = name.to_owned();
    s.push_str("  ·  ");
    push_decimal(&mut s, slots as u128);
    s.push_str(" slots");
    s
}

/// The address and geometry of a channel row: the first offset, or a dash, and
/// the instance, or the channel's own geometry.
pub fn channel_cells(
    offsets: &Vec<u32>,
    instance: &Option<String>,
    geometry: &str,
) -> (r: (String, String))
    ensures
        r.0@ == (if offsets@.len() > 0 { decimal(offsets@[0] as nat) } else { "—"@ }),
        r.1@ == (match *instance {
            Some(i) => i@,
            None => geometry@,
        }),
{
    let addr = if offsets.len() > 0 {
        let mut s = String::new();
        push_decimal(&mut s, offsets[0] as u128);
        assert(s@ =~= decimal(offsets@[0] as nat));
        s
    } else {
        "—".to_owned()
    };
    let geo = match instance {
        Some(i) => i.as_str().to_owned(),
        None => geometry.to_owned(),
    };
    (addr, geo)
}

/// What the identity table reads of an imported definition.
#[derive(Debug)]
pub struct ProfileInfo {
    pub manufacturer: String,
    pub name: String,
    pub long_name: String,
    pub short_name: String,
    pub spec: String,
}

/// A row of a read-only table.
pub struct InfoRow {
    pub key: &'static str,
    pub value: String,
}

/// What the rows say.
pub open spec fn info_views(s: Seq<InfoRow>) -> Seq<(Seq<char>, Seq<char>)> {
    Seq::new(s.len(), |i: int| (s[i].key@, s[i].value@))
}

/// The read-only rows of the identity table; the file only where there is one.
pub fn identity_rows(info: &ProfileInfo) -> (r: Vec<InfoRow>)
    ensures
        info_views(r@) == seq![
            ("Manufacturer"@, info.manufacturer@),
            ("Model"@, info.name@),
            ("Long name"@, info.long_name@),
            ("Short name"@, info.short_name@),
        ] + (if info.spec@.len() > 0 { seq![("GDTF file"@, info.spec@)] } else { seq![] }),
{
    let mut rows: Vec<InfoRow> = vec![
        InfoRow { key: "Manufacturer", value: info.manufacturer.as_str().to_owned() },
        InfoRow { key: "Model", value: info.name.as_str().to_owned() },
        InfoRow { key: "Long name", value: info.long_name.as_str().to_owned() },
        InfoRow { key: "Short name", value: info.short_name.as_str().to_owned() },
    ];
    if info.spec.as_str().unicode_len() > 0 {
        rows.push(InfoRow { key: "GDTF file", value: info.spec.as_str().to_owned() });
    }
    assert(info_views(rows@) =~= seq![
        ("Manufacturer"@, info.manufacturer@),
        ("Model"@, info.name@),
        ("Long name"@, info.long_name@),
        ("Short name"@, info.short_name@),
    ] + (if info.spec@.len() > 0 { seq![("GDTF file"@, info.spec@)] } else { seq![] }));
    rows
}

/// The editor stays open as long as its fixture is in the scene with an imported
/// definition, and closes where either is gone; a closed one stays closed.
pub proof fn editor_closes_with_its_fixture(scene: Scene, ed: ProfileEditor)
    ensures
        !stays_open(scene, None),
        ed.fixture >= scene.fixtures@.len() ==> !stays_open(scene, Some(ed)),
        ed.fixture < scene.fixtures@.len() ==> (stays_open(scene, Some(ed))
            <==> scene.fixtures@[ed.fixture as int].maker is Some),
{
}

/// A number of up to two digits takes two places and reads back.
pub proof fn right_two_reads_back(n: nat)
    ensures
        n < 100 ==> right_two(n).len() == 2,
        n < 10 ==> right_two(n)[0] == ' ' && number_of(right_two(n).skip(1)) == n,
        n >= 10 ==> number_of(right_two(n)) == n,
{
    decimal_reads_back(n);
    reveal_with_fuel(decimal, 3);
    if n < 10 {
        assert(right_two(n).skip(1) =~= decimal(n));
    }
}

} // verus!
