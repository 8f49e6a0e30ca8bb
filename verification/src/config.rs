//! The configuration vocabulary the backend's logic reads: what a slot
//! presents itself as, what opposite directions do, and the `[[device]]`,
//! `[[slot]]` and `[[game]]` entries as plain values. Loading and saving the
//! files is the caller's business; everything here is the data in memory.

use vstd::prelude::*;

use crate::text::copy_opt_string;

verus! {

/// How many slots a configuration can name.
pub const MAX_SLOTS: u8 = 8;

/// Windows exposes this many XInput slots, and no more.
pub const MAX_XINPUT_SLOTS: u8 = 4;

/// Which controller a slot presents itself as.
#[derive(Clone, Copy, Debug, PartialEq, Eq, Structural, Hash, PartialOrd, Ord)]
pub enum Persona {
    Xbox360,
    XboxSeries,
    PlayStation,
    DualSense,
    SwitchPro,
}

/// Which driver creates a persona's pad.
#[derive(Clone, Copy, Debug, PartialEq, Eq, Structural)]
pub enum PadBackend {
    ViGEmBus,
    HidMaestro,
}

impl PadBackend {
    pub fn label(self) -> (l: &'static str)
        ensures
            l@ == (match self {
                PadBackend::ViGEmBus => "ViGEmBus"@,
                PadBackend::HidMaestro => "HIDMaestro"@,
            }),
    {
        match self {
            PadBackend::ViGEmBus => "ViGEmBus",
            PadBackend::HidMaestro => "HIDMaestro",
        }
    }
}

impl Persona {
    /// The persona a slot with no `persona` key presents itself as.
    pub open spec fn spec_default() -> Persona {
        Persona::Xbox360
    }

    pub fn default_persona() -> (p: Persona)
        ensures
            p == Persona::spec_default(),
    {
        Persona::Xbox360
    }

    /// Does this persona occupy one of Windows' four XInput slots?
    pub open spec fn spec_is_xinput(self) -> bool {
        self is Xbox360 || self is XboxSeries
    }

    pub fn is_xinput(self) -> (b: bool)
        ensures
            b == self.spec_is_xinput(),
    {
        match self {
            Persona::Xbox360 | Persona::XboxSeries => true,
            _ => false,
        }
    }

    /// Can this build create this persona's pad?
    pub open spec fn spec_can_plug(self) -> bool {
        self is Xbox360 || self is PlayStation
    }

    pub fn can_plug(self) -> (b: bool)
        ensures
            b == self.spec_can_plug(),
    {
        match self {
            Persona::Xbox360 | Persona::PlayStation => true,
            _ => false,
        }
    }

    /// The driver this persona's pad is created through.
    pub fn backend(self) -> (b: PadBackend)
        ensures
            b == (if self is Xbox360 || self is PlayStation {
                PadBackend::ViGEmBus
            } else {
                PadBackend::HidMaestro
            }),
    {
        match self {
            Persona::Xbox360 | Persona::PlayStation => PadBackend::ViGEmBus,
            _ => PadBackend::HidMaestro,
        }
    }

    /// The closest persona this build can create: itself when it can.
    pub open spec fn spec_nearest_pluggable(self) -> Persona {
        match self {
            Persona::DualSense => Persona::PlayStation,
            Persona::PlayStation => Persona::PlayStation,
            _ => Persona::Xbox360,
        }
    }

    pub fn nearest_pluggable(self) -> (p: Persona)
        ensures
            p == self.spec_nearest_pluggable(),
            p.spec_can_plug(),
    {
        match self {
            Persona::DualSense | Persona::PlayStation => Persona::PlayStation,
            _ => Persona::Xbox360,
        }
    }

    /// Why this build cannot create the persona, when it cannot.
    pub fn gap(self) -> (g: Option<&'static str>)
        ensures
            g is None <==> self.spec_can_plug(),
            g is Some ==> g->0@ == persona_gap_text(),
    {
        if self.can_plug() {
            None
        } else {
            Some("this build ships no HIDMaestro controller for it, and installing HIDMaestro does not change it")
        }
    }

    /// The name the config files use.
    pub open spec fn spec_as_str(self) -> Seq<char> {
        match self {
            Persona::Xbox360 => "xbox360"@,
            Persona::XboxSeries => "xboxseries"@,
            Persona::PlayStation => "playstation"@,
            Persona::DualSense => "dualsense"@,
            Persona::SwitchPro => "switchpro"@,
        }
    }

    pub fn as_str(self) -> (s: &'static str)
        ensures
            s@ == self.spec_as_str(),
    {
        match self {
            Persona::Xbox360 => "xbox360",
            Persona::XboxSeries => "xboxseries",
            Persona::PlayStation => "playstation",
            Persona::DualSense => "dualsense",
            Persona::SwitchPro => "switchpro",
        }
    }

    /// The name a human reads.
    pub open spec fn spec_label(self) -> Seq<char> {
        match self {
            Persona::Xbox360 => "Xbox 360"@,
            Persona::XboxSeries => "Xbox Series"@,
            Persona::PlayStation => "PlayStation"@,
            Persona::DualSense => "DualSense"@,
            Persona::SwitchPro => "Switch Pro"@,
        }
    }

    pub fn label(self) -> (s: &'static str)
        ensures
            s@ == self.spec_label(),
    {
        match self {
            Persona::Xbox360 => "Xbox 360",
            Persona::XboxSeries => "Xbox Series",
            Persona::PlayStation => "PlayStation",
            Persona::DualSense => "DualSense",
            Persona::SwitchPro => "Switch Pro",
        }
    }
}

pub open spec fn persona_gap_text() -> Seq<char> {
    "this build ships no HIDMaestro controller for it, and installing HIDMaestro does not change it"@
}

/// What simultaneous opposite directions do.
#[derive(Clone, Copy, Debug, PartialEq, Eq, Structural)]
pub enum Socd {
    Off,
    Neutral,
    UpPriority,
    LastInput,
    FirstInput,
}

impl Socd {
    pub open spec fn spec_default() -> Socd {
        Socd::Off
    }

    pub fn default_socd() -> (s: Socd)
        ensures
            s == Socd::spec_default(),
    {
        Socd::Off
    }
}

/// Which capture backend a `[[device]]` is on.
#[derive(Clone, Copy, Debug, PartialEq, Eq, Structural)]
pub enum Backend {
    Interception,
    Winusb,
}

/// One `[[device]]`: a board by the id it was written with, and its alias.
#[derive(Clone, Debug, PartialEq, Eq)]
pub struct DeviceEntry {
    pub id: String,
    pub alias: String,
    pub backend: Backend,
}

/// One `[[slot]]` of `config.toml`, or one `[[game.slot]]` of a profile (the
/// profile form also carries its advisory XInput `user_index`).
#[derive(Clone, Debug, PartialEq, Eq)]
pub struct SlotEntry {
    pub number: u8,
    pub user_index: Option<u8>,
    pub keyboard: Option<String>,
    pub mouse: Option<String>,
    pub preset: String,
    pub persona: Persona,
    pub socd: Socd,
    pub macros: bool,
}

impl SlotEntry {
    /// A copy of this entry, equal to it.
    pub fn duplicate(&self) -> (r: SlotEntry)
        ensures
            r == *self,
    {
        SlotEntry {
            number: self.number,
            user_index: self.user_index,
            keyboard: copy_opt_string(&self.keyboard),
            mouse: copy_opt_string(&self.mouse),
            preset: self.preset.clone(),
            persona: self.persona,
            socd: self.socd,
            macros: self.macros,
        }
    }
}

/// A copy of a slot list, equal to it.
pub fn copy_slots(v: &Vec<SlotEntry>) -> (r: Vec<SlotEntry>)
    ensures
        r@ == v@,
{
    let mut r: Vec<SlotEntry> = Vec::new();
    let mut i: usize = 0;
    while i < v.len()
        invariant
            i <= v@.len(),
            r@ == v@.take(i as int),
        decreases v.len() - i,
    {
        r.push(v[i].duplicate());
        assert(r@ =~= v@.take(i + 1));
        i = i + 1;
    }
    assert(v@.take(v@.len() as int) =~= v@);
    r
}

/// One `[[game]]` profile of `games.toml`.
#[derive(Clone, Debug, PartialEq, Eq)]
pub struct GameEntry {
    pub title: String,
    pub slots: Vec<SlotEntry>,
}

/// How many of these slots occupy one of Windows' four XInput slots.
pub open spec fn xinput_count(slots: Seq<SlotEntry>) -> nat
    decreases slots.len(),
{
    if slots.len() == 0 {
        0
    } else {
        xinput_count(slots.drop_last()) + (if slots.last().persona.spec_is_xinput() {
            1nat
        } else {
            0nat
        })
    }
}

/// Counts the slots on an XInput persona.
pub fn count_xinput(slots: &Vec<SlotEntry>) -> (n: usize)
    ensures
        n == xinput_count(slots@),
{
    let mut n: usize = 0;
    let mut i: usize = 0;
    while i < slots.len()
        invariant
            i <= slots@.len(),
            n == xinput_count(slots@.take(i as int)),
            n <= i,
        decreases slots.len() - i,
    {
        assert(slots@.take(i + 1).drop_last() =~= slots@.take(i as int));
        if slots[i].persona.is_xinput() {
            n = n + 1;
        }
        i = i + 1;
    }
    assert(slots@.take(slots@.len() as int) =~= slots@);
    n
}

/// The `games.toml` profile a launch with no `--game` starts on: none when
/// `config.toml` loaded and has `[[slot]]` rows of its own; otherwise the
/// first saved game, when `games.toml` loaded (`game_titles`, in file order)
/// and holds one.
pub fn configured_profile(config_has_slots: bool, game_titles: Option<&Vec<String>>) -> (profile: Option<String>)
    ensures
        config_has_slots ==> profile is None,
        !config_has_slots ==> match game_titles {
            None => profile is None,
            Some(titles) => if titles@.len() == 0 {
                profile is None
            } else {
                profile is Some && profile->0@ == titles@[0]@
            },
        },
{
    if config_has_slots {
        return None;
    }
    match game_titles {
        None => None,
        Some(titles) => {
            if titles.len() == 0 {
                None
            } else {
                Some(titles[0].clone())
            }
        },
    }
}

} // verus!
