//! `ksx slot assign` — which preset a slot uses, and what it presents itself as.
//!
//! One writer for every surface: a typed spec in, a typed "here is what
//! landed" out. Everything that can refuse does so before anything would be
//! written — a bad slot number, a persona this build cannot create, a preset
//! or profile that does not exist, a persona-only write on a slot that has no
//! preset to keep, and a write that would leave a destination with more XInput
//! slots than Windows has. Unasked fields (`None`) are never the thing that
//! makes a write necessary: an existing slot keeps its own preset, persona and
//! SOCD. Loading the files and writing them (with a backup first) is the
//! caller's edge; this module decides what the files become.

use vstd::prelude::*;

use crate::config::{
    copy_slots, count_xinput, persona_gap_text, xinput_count, GameEntry, Persona, SlotEntry, Socd, MAX_SLOTS,
    MAX_XINPUT_SLOTS,
};
use crate::text::{copy_strings, decimal, eq_ignore_case, lower_char, push_decimal, same_ignoring_case};

verus! {

/// One slot assignment, as any surface spells it.
#[derive(Clone, Debug, PartialEq, Eq)]
pub struct SlotSpec {
    /// 1..=[`MAX_SLOTS`].
    pub slot: u8,
    /// The preset's name, matched case-insensitively, or `None` for "the one
    /// it already uses".
    pub preset: Option<String>,
    /// A games.toml profile title, or `None` for `config.toml`.
    pub profile: Option<String>,
    /// Which controller this slot presents itself as, or `None` for "leave it".
    pub persona: Option<Persona>,
    /// What opposite directions do, or `None` for "leave it".
    pub socd: Option<Socd>,
}

/// What a successful assignment did.
#[derive(Clone, Debug, PartialEq, Eq)]
pub struct AppliedSlot {
    pub path: String,
    pub slot: u8,
    /// The preset as the FILE now spells it.
    pub preset: String,
    /// What the slot pointed at before; `None` when the slot was created.
    pub previous: Option<String>,
    /// The persona the slot presents itself as NOW.
    pub persona: Persona,
    /// What it was before, and `None` when this call left the persona alone.
    pub previous_persona: Option<Persona>,
    pub profile: Option<String>,
    /// The slot was added rather than repointed.
    pub created: bool,
    /// The slot already used that preset AND that persona: nothing to write.
    pub unchanged: bool,
    /// The timestamped copy taken before the write.
    pub backup: Option<String>,
}

/// `" in profile \"P\""`, or nothing for `config.toml`.
pub open spec fn where_text(profile: Option<String>) -> Seq<char> {
    match profile {
        Some(p) => " in profile \""@ + p@ + "\""@,
        None => seq![],
    }
}

/// `", now a X pad (was Y)"` when the persona moved, nothing otherwise.
pub open spec fn persona_change_text(now: Persona, previous: Option<Persona>) -> Seq<char> {
    match previous {
        Some(p) => ", now a "@ + now.spec_label() + " pad (was "@ + p.spec_label() + ")"@,
        None => seq![],
    }
}

impl AppliedSlot {
    /// The one sentence a surface prints.
    pub open spec fn message_text(self) -> Seq<char> {
        let w = where_text(self.profile);
        if self.unchanged {
            "slot "@ + decimal(self.slot as nat) + " already uses \""@ + self.preset@ + "\" as a "@
                + self.persona.spec_label() + " pad"@ + w + " — nothing was written"@
        } else {
            let pc = persona_change_text(self.persona, self.previous_persona);
            let change = match self.previous {
                Some(previous) => if previous@ == self.preset@ {
                    "slot "@ + decimal(self.slot as nat) + w + " keeps \""@ + previous@ + "\""@ + pc
                } else {
                    "slot "@ + decimal(self.slot as nat) + w + ": \""@ + previous@ + "\" → \""@
                        + self.preset@ + "\""@ + pc
                },
                None => "slot "@ + decimal(self.slot as nat) + " added"@ + w + ", using \""@
                    + self.preset@ + "\" as a "@ + self.persona.spec_label() + " pad"@,
            };
            change + " — a slot change needs the pads replugged"@
        }
    }

    /// The one sentence a surface prints. It always names the pad bounce,
    /// because the pad bounce is the part a user must not have to infer.
    pub fn message(&self) -> (s: String)
        ensures
            s@ == self.message_text(),
    {
        let mut w = String::new();
        match &self.profile {
            Some(profile) => {
                w.append(" in profile \"");
                w.append(profile.as_str());
                w.append("\"");
            },
            None => {},
        }
        assert(w@ =~= where_text(self.profile));
        if self.unchanged {
            let mut s = "slot ".to_owned();
            push_decimal(&mut s, self.slot as u64);
            s.append(" already uses \"");
            s.append(self.preset.as_str());
            s.append("\" as a ");
            s.append(self.persona.label());
            s.append(" pad");
            s.append(w.as_str());
            s.append(" — nothing was written");
            return s;
        }
        let mut pc = String::new();
        match self.previous_persona {
            Some(previous) => {
                pc.append(", now a ");
                pc.append(self.persona.label());
                pc.append(" pad (was ");
                pc.append(previous.label());
                pc.append(")");
            },
            None => {},
        }
        assert(pc@ =~= persona_change_text(self.persona, self.previous_persona));
        let mut s = "slot ".to_owned();
        push_decimal(&mut s, self.slot as u64);
        match &self.previous {
            Some(previous) => {
                if crate::text::str_eq(previous.as_str(), self.preset.as_str()) {
                    s.append(w.as_str());
                    s.append(" keeps \"");
                    s.append(previous.as_str());
                    s.append("\"");
                    s.append(pc.as_str());
                } else {
                    s.append(w.as_str());
                    s.append(": \"");
                    s.append(previous.as_str());
                    s.append("\" → \"");
                    s.append(self.preset.as_str());
                    s.append("\"");
                    s.append(pc.as_str());
                }
            },
            None => {
                s.append(" added");
                s.append(w.as_str());
                s.append(", using \"");
                s.append(self.preset.as_str());
                s.append("\" as a ");
                s.append(self.persona.label());
                s.append(" pad");
            },
        }
        s.append(" — a slot change needs the pads replugged");
        s
    }
}

/// Why an assignment was refused. Every variant carries what the caller should
/// have said instead.
#[derive(Clone, Debug, PartialEq, Eq)]
pub enum SlotError {
    BadSlot { given: u8 },
    UnknownPreset { preset: String, available: Vec<String> },
    UnknownProfile { profile: String, available: Vec<String> },
    /// The persona is a real persona, and this build cannot create it.
    PersonaNotImplemented {
        persona: Persona,
        backend: &'static str,
        reason: &'static str,
        instead: Persona,
    },
    /// The write would leave the destination with a fifth XInput slot.
    TooManyXinputSlots { slot: u8, after: usize, destination: String },
    /// A persona-only write named a slot that is not in the file yet.
    NoPresetToKeep { slot: u8, destination: String },
    /// The configuration could not be read or written.
    Config(String),
}

/// `items` joined by `sep`.
pub open spec fn join(items: Seq<Seq<char>>, sep: Seq<char>) -> Seq<char>
    decreases items.len(),
{
    if items.len() == 0 {
        seq![]
    } else if items.len() == 1 {
        items[0]
    } else {
        join(items.drop_last(), sep) + sep + items.last()
    }
}

pub open spec fn views(items: Seq<String>) -> Seq<Seq<char>> {
    items.map_values(|s: String| s@)
}

/// `items` joined by `sep`.
pub fn join_strings(items: &Vec<String>, sep: &str) -> (s: String)
    ensures
        s@ == join(views(items@), sep@),
{
    let mut s = String::new();
    let mut i: usize = 0;
    while i < items.len()
        invariant
            i <= items@.len(),
            s@ == join(views(items@.take(i as int)), sep@),
        decreases items.len() - i,
    {
        assert(views(items@.take(i + 1)).drop_last() =~= views(items@.take(i as int)));
        if i > 0 {
            s.append(sep);
        }
        s.append(items[i].as_str());
        proof {
            if i == 0 {
                assert(s@ =~= join(views(items@.take(1)), sep@));
            }
        }
        i = i + 1;
    }
    assert(items@.take(items@.len() as int) =~= items@);
    s
}

/// `" — what: a, b, c"`, or a plain note when there are none.
pub open spec fn list_or_none_text(available: Seq<String>, what: Seq<char>) -> Seq<char> {
    if available.len() == 0 {
        " — there are no "@ + what
    } else {
        " — "@ + what + ": "@ + join(views(available), ", "@)
    }
}

pub fn list_or_none(available: &Vec<String>, what: &str) -> (s: String)
    ensures
        s@ == list_or_none_text(available@, what@),
{
    if available.len() == 0 {
        let mut s = " — there are no ".to_owned();
        s.append(what);
        s
    } else {
        let mut s = " — ".to_owned();
        s.append(what);
        s.append(": ");
        let joined = join_strings(available, ", ");
        s.append(joined.as_str());
        s
    }
}

pub open spec fn too_many_text(slot: u8, after: usize, destination: Seq<char>) -> Seq<char> {
    "slot "@ + decimal(slot as nat) + " would make "@ + decimal(after as nat) + " slots in "@
        + destination + " use an XInput persona, and Windows exposes only "@ + decimal(
        MAX_XINPUT_SLOTS as nat,
    )
        + " XInput slots — the fifth pad plugs and no game reads it (measured on this cabinet, docs/research/m6.5-ds4-findings.md). What decides it is `Persona::is_xinput()`: '"@
        + Persona::Xbox360.spec_as_str() + "' and '"@ + Persona::XboxSeries.spec_as_str()
        + "' each take one of the four; '"@ + Persona::PlayStation.spec_as_str()
        + "' is plain HID and takes none, which is how players 5+ exist at all. This counts the SLOT LIST in that one file — a real Xbox pad plugged into the cabinet takes a slot too, and `ksx pads` is what reads those. Give slot "@
        + decimal(slot as nat) + " persona '"@ + Persona::PlayStation.spec_as_str()
        + "', or move one of the other "@ + decimal(after as nat) + " off XInput"@
}

pub open spec fn not_implemented_text(
    persona: Persona,
    backend: Seq<char>,
    reason: Seq<char>,
    instead: Persona,
) -> Seq<char> {
    "persona '"@ + persona.spec_as_str() + "' is a persona ksx knows and this build cannot create — "@
        + reason
        + ". What decides it is the BINARY, not the machine: `Persona::backend()` sends "@
        + persona.spec_as_str() + " to "@ + backend + ", and `Persona::can_plug` is false for "@
        + persona.spec_as_str()
        + " in this build, so this refusal is identical on every PC and on this one tomorrow. It changes when a ksx release ships and proves host support for that exact persona — nothing you can install moves it. Use persona '"@
        + instead.spec_as_str() + "' for now"@
}

impl SlotError {
    /// The stable refusal word — the same one `--json` prints and the pipe
    /// answers with.
    pub open spec fn code_text(self) -> Seq<char> {
        match self {
            SlotError::BadSlot { .. } => "bad-slot"@,
            SlotError::UnknownPreset { .. } => "unknown-preset"@,
            SlotError::UnknownProfile { .. } => "unknown-profile"@,
            SlotError::PersonaNotImplemented { .. } => "persona-not-implemented"@,
            SlotError::TooManyXinputSlots { .. } => "too-many-xinput-slots"@,
            SlotError::NoPresetToKeep { .. } => "no-preset-to-keep"@,
            SlotError::Config(_) => "config-error"@,
        }
    }

    pub fn code(&self) -> (c: &'static str)
        ensures
            c@ == self.code_text(),
    {
        match self {
            SlotError::BadSlot { .. } => "bad-slot",
            SlotError::UnknownPreset { .. } => "unknown-preset",
            SlotError::UnknownProfile { .. } => "unknown-profile",
            SlotError::PersonaNotImplemented { .. } => "persona-not-implemented",
            SlotError::TooManyXinputSlots { .. } => "too-many-xinput-slots",
            SlotError::NoPresetToKeep { .. } => "no-preset-to-keep",
            SlotError::Config(_) => "config-error",
        }
    }

    /// The refusal as a user reads it.
    pub open spec fn message_text(self) -> Seq<char> {
        match self {
            SlotError::BadSlot { given } => "slot number must be 1..="@ + decimal(MAX_SLOTS as nat)
                + ", got "@ + decimal(given as nat),
            SlotError::UnknownPreset { preset, available } => "no preset called \""@ + preset@
                + "\""@ + list_or_none_text(available@, "presets on disk"@),
            SlotError::UnknownProfile { profile, available } => "no games.toml profile called \""@
                + profile@ + "\""@ + list_or_none_text(available@, "profiles in games.toml"@),
            SlotError::PersonaNotImplemented { persona, backend, reason, instead } =>
                not_implemented_text(persona, backend@, reason@, instead),
            SlotError::TooManyXinputSlots { slot, after, destination } => too_many_text(
                slot,
                after,
                destination@,
            ),
            SlotError::NoPresetToKeep { slot, destination } => "slot "@ + decimal(slot as nat)
                + " is not in "@ + destination@
                + " yet, so there is no preset for it to keep — name one (`--preset NAME`) and this call will create the slot with it"@,
            SlotError::Config(message) => message@,
        }
    }

    pub fn message(&self) -> (s: String)
        ensures
            s@ == self.message_text(),
    {
        match self {
            SlotError::BadSlot { given } => {
                let mut s = "slot number must be 1..=".to_owned();
                push_decimal(&mut s, MAX_SLOTS as u64);
                s.append(", got ");
                push_decimal(&mut s, *given as u64);
                s
            },
            SlotError::UnknownPreset { preset, available } => {
                let mut s = "no preset called \"".to_owned();
                s.append(preset.as_str());
                s.append("\"");
                let tail = list_or_none(available, "presets on disk");
                s.append(tail.as_str());
                s
            },
            SlotError::UnknownProfile { profile, available } => {
                let mut s = "no games.toml profile called \"".to_owned();
                s.append(profile.as_str());
                s.append("\"");
                let tail = list_or_none(available, "profiles in games.toml");
                s.append(tail.as_str());
                s
            },
            SlotError::PersonaNotImplemented { persona, backend, reason, instead } => {
                let mut s = "persona '".to_owned();
                s.append(persona.as_str());
                s.append("' is a persona ksx knows and this build cannot create — ");
                s.append(reason);
                s.append(". What decides it is the BINARY, not the machine: `Persona::backend()` sends ");
                s.append(persona.as_str());
                s.append(" to ");
                s.append(backend);
                s.append(", and `Persona::can_plug` is false for ");
                s.append(persona.as_str());
                s.append(" in this build, so this refusal is identical on every PC and on this one tomorrow. It changes when a ksx release ships and proves host support for that exact persona — nothing you can install moves it. Use persona '");
                s.append(instead.as_str());
                s.append("' for now");
                s
            },
            SlotError::TooManyXinputSlots { slot, after, destination } => {
                let mut s = "slot ".to_owned();
                push_decimal(&mut s, *slot as u64);
                s.append(" would make ");
                push_decimal(&mut s, *after as u64);
                s.append(" slots in ");
                s.append(destination.as_str());
                s.append(" use an XInput persona, and Windows exposes only ");
                push_decimal(&mut s, MAX_XINPUT_SLOTS as u64);
                s.append(" XInput slots — the fifth pad plugs and no game reads it (measured on this cabinet, docs/research/m6.5-ds4-findings.md). What decides it is `Persona::is_xinput()`: '");
                s.append(Persona::Xbox360.as_str());
                s.append("' and '");
                s.append(Persona::XboxSeries.as_str());
                s.append("' each take one of the four; '");
                s.append(Persona::PlayStation.as_str());
                s.append("' is plain HID and takes none, which is how players 5+ exist at all. This counts the SLOT LIST in that one file — a real Xbox pad plugged into the cabinet takes a slot too, and `ksx pads` is what reads those. Give slot ");
                push_decimal(&mut s, *slot as u64);
                s.append(" persona '");
                s.append(Persona::PlayStation.as_str());
                s.append("', or move one of the other ");
                push_decimal(&mut s, *after as u64);
                s.append(" off XInput");
                s
            },
            SlotError::NoPresetToKeep { slot, destination } => {
                let mut s = "slot ".to_owned();
                push_decimal(&mut s, *slot as u64);
                s.append(" is not in ");
                s.append(destination.as_str());
                s.append(" yet, so there is no preset for it to keep — name one (`--preset NAME`) and this call will create the slot with it");
                s
            },
            SlotError::Config(message) => message.clone(),
        }
    }
}

/// Refuse a persona this BUILD cannot create, in the persona's own words.
pub fn check_pluggable(persona: Persona) -> (r: Result<(), SlotError>)
    ensures
        r is Ok <==> persona.spec_can_plug(),
        r is Err ==> r->Err_0 is PersonaNotImplemented && r->Err_0->PersonaNotImplemented_persona
            == persona && r->Err_0->PersonaNotImplemented_instead
            == persona.spec_nearest_pluggable() && r->Err_0->PersonaNotImplemented_reason@
            == persona_gap_text() && r->Err_0->PersonaNotImplemented_backend@ == "HIDMaestro"@,
{
    if persona.can_plug() {
        return Ok(());
    }
    let backend = persona.backend();
    let reason = match persona.gap() {
        Some(gap) => gap,
        None => "this build ships no code that can create it",
    };
    Err(SlotError::PersonaNotImplemented {
        persona,
        backend: backend.label(),
        reason,
        instead: persona.nearest_pluggable(),
    })
}

/// Refuse a write that MAKES the XInput count worse past the ceiling. A file
/// already over it can still be repaired.
pub fn check_xinput_ceiling(slot: u8, before: usize, after: usize, destination: String) -> (r:
    Result<(), SlotError>)
    ensures
        r is Err <==> (after > MAX_XINPUT_SLOTS && after > before),
        r is Err ==> r == Err::<(), SlotError>(
            SlotError::TooManyXinputSlots { slot, after, destination },
        ),
{
    if after > MAX_XINPUT_SLOTS as usize && after > before {
        return Err(SlotError::TooManyXinputSlots { slot, after, destination });
    }
    Ok(())
}

/// The first preset whose name matches `wanted` ignoring ASCII case.
pub open spec fn preset_match(names: Seq<String>, wanted: Seq<char>) -> Option<int> {
    if exists|i: int| 0 <= i < names.len() && eq_ignore_case(#[trigger] names[i]@, wanted) {
        Some(
            choose|i: int|
                0 <= i < names.len() && eq_ignore_case(#[trigger] names[i]@, wanted) && forall|
                    j: int,
                | 0 <= j < i ==> !eq_ignore_case(#[trigger] names[j]@, wanted),
        )
    } else {
        None
    }
}

/// The first index whose entry answers `wanted` ignoring ASCII case.
pub(crate) fn first_match(names: &Vec<String>, wanted: &str) -> (r: Option<usize>)
    ensures
        match r {
            Some(i) => i < names@.len() && eq_ignore_case(names@[i as int]@, wanted@) && forall|
                j: int,
            | 0 <= j < i ==> !eq_ignore_case(#[trigger] names@[j]@, wanted@),
            None => forall|j: int|
                0 <= j < names@.len() ==> !eq_ignore_case(#[trigger] names@[j]@, wanted@),
        },
{
    let mut i: usize = 0;
    while i < names.len()
        invariant
            i <= names@.len(),
            forall|j: int| 0 <= j < i ==> !eq_ignore_case(#[trigger] names@[j]@, wanted@),
        decreases names.len() - i,
    {
        if same_ignoring_case(names[i].as_str(), wanted) {
            return Some(i);
        }
        i = i + 1;
    }
    None
}

/// The ASCII-lowercase spelling of a name: the key it sorts by.
pub open spec fn lowered(s: Seq<char>) -> Seq<char> {
    s.map_values(|c: char| lower_char(c))
}

/// `a` comes no later than `b` in code-point (and so UTF-8 byte) order.
pub open spec fn text_le(a: Seq<char>, b: Seq<char>) -> bool
    decreases a.len(),
{
    if a.len() == 0 {
        true
    } else if b.len() == 0 {
        false
    } else if (a[0] as u32) < (b[0] as u32) {
        true
    } else if (a[0] as u32) > (b[0] as u32) {
        false
    } else {
        text_le(a.drop_first(), b.drop_first())
    }
}

proof fn lemma_text_le_total(a: Seq<char>, b: Seq<char>)
    ensures
        text_le(a, b) || text_le(b, a),
    decreases a.len(),
{
    if a.len() > 0 && b.len() > 0 && (a[0] as u32) == (b[0] as u32) {
        lemma_text_le_total(a.drop_first(), b.drop_first());
    }
}

proof fn lemma_text_le_transitive(a: Seq<char>, b: Seq<char>, c: Seq<char>)
    requires
        text_le(a, b),
        text_le(b, c),
    ensures
        text_le(a, c),
    decreases a.len(),
{
    if a.len() > 0 && b.len() > 0 && c.len() > 0 && (a[0] as u32) == (b[0] as u32) && (b[0] as u32)
        == (c[0] as u32) {
        lemma_text_le_transitive(a.drop_first(), b.drop_first(), c.drop_first());
    }
}

/// Are the names in case-insensitive order?
pub open spec fn sorted_case_insensitively(names: Seq<Seq<char>>) -> bool {
    forall|i: int, j: int|
        0 <= i < j < names.len() ==> text_le(lowered(#[trigger] names[i]), lowered(#[trigger] names[j]))
}

/// Does `a` sort no later than `b`, ignoring ASCII case?
fn lowered_le(a: &str, b: &str) -> (r: bool)
    ensures
        r == text_le(lowered(a@), lowered(b@)),
{
    let n = a.unicode_len();
    let m = b.unicode_len();
    let mut i: usize = 0;
    assert(lowered(a@).skip(0) =~= lowered(a@));
    assert(lowered(b@).skip(0) =~= lowered(b@));
    while i < n && i < m
        invariant
            n == a@.len(),
            m == b@.len(),
            i <= n,
            i <= m,
            text_le(lowered(a@), lowered(b@)) == text_le(lowered(a@).skip(i as int), lowered(b@).skip(i as int)),
        decreases n - i,
    {
        let x = crate::text::lower(a.get_char(i)) as u32;
        let y = crate::text::lower(b.get_char(i)) as u32;
        assert(lowered(a@).skip(i as int)[0] == lowered(a@)[i as int]);
        assert(lowered(b@).skip(i as int)[0] == lowered(b@)[i as int]);
        if x < y {
            return true;
        }
        if x > y {
            return false;
        }
        assert(lowered(a@).skip(i as int).drop_first() =~= lowered(a@).skip(i + 1));
        assert(lowered(b@).skip(i as int).drop_first() =~= lowered(b@).skip(i + 1));
        i = i + 1;
    }
    i == n
}

/// The same names, reordered by their ASCII-lowercase spelling; names that
/// spell the same keep their order.
fn sort_case_insensitively(names: &mut Vec<String>)
    ensures
        sorted_case_insensitively(views(final(names)@)),
        final(names)@.to_multiset() == old(names)@.to_multiset(),
{
    let mut out: Vec<String> = Vec::new();
    let mut i: usize = 0;
    assert(names@.take(0) =~= Seq::<String>::empty());
    assert(out@ =~= Seq::<String>::empty());
    while i < names.len()
        invariant
            i <= names@.len(),
            names@ == old(names)@,
            out@.to_multiset() == names@.take(i as int).to_multiset(),
            sorted_case_insensitively(views(out@)),
        decreases names.len() - i,
    {
        let x = names[i].clone();
        let mut j: usize = 0;
        while j < out.len() && lowered_le(out[j].as_str(), x.as_str())
            invariant
                j <= out@.len(),
                forall|k: int| 0 <= k < j ==> text_le(lowered(#[trigger] out@[k]@), lowered(x@)),
            decreases out.len() - j,
        {
            j = j + 1;
        }
        proof {
            let v = views(out@);
            let w = views(out@.insert(j as int, x));
            assert forall|a: int, b: int| 0 <= a < b < w.len() implies text_le(
                lowered(#[trigger] w[a]),
                lowered(#[trigger] w[b]),
            ) by {
                if b < j {
                    assert(w[a] == v[a] && w[b] == v[b]);
                } else if b == j {
                    assert(w[a] == out@[a]@);
                    assert(w[b] == x@);
                } else if a == j {
                    assert(w[b] == v[b - 1]);
                    assert(j < out@.len());
                    assert(!text_le(lowered(out@[j as int]@), lowered(x@)));
                    lemma_text_le_total(lowered(out@[j as int]@), lowered(x@));
                    if b - 1 > j {
                        assert(text_le(lowered(v[j as int]), lowered(v[b - 1])));
                        lemma_text_le_transitive(lowered(x@), lowered(v[j as int]), lowered(v[b - 1]));
                    }
                } else if a < j {
                    assert(w[a] == v[a] && w[b] == v[b - 1]);
                } else {
                    assert(w[a] == v[a - 1] && w[b] == v[b - 1]);
                }
            }
            assert(names@.take(i + 1) =~= names@.take(i as int).push(names@[i as int]));
            vstd::seq_lib::to_multiset_insert(out@, j as int, x);
            vstd::seq_lib::to_multiset_build(names@.take(i as int), names@[i as int]);
        }
        out.insert(j, x);
        i = i + 1;
    }
    assert(names@.take(names@.len() as int) =~= names@);
    *names = out;
}

/// The preset's name as the FILE spells it, or the refusal listing what is
/// there. Case-insensitive on the way in, canonical on the way out.
pub fn resolve_preset(names: &Vec<String>, wanted: &str) -> (r: Result<String, SlotError>)
    ensures
        r is Ok <==> preset_match(names@, wanted@) is Some,
        r matches Ok(found) ==> found == names@[preset_match(names@, wanted@)->0],
        r matches Err(e) ==> e is UnknownPreset && e->UnknownPreset_preset@ == wanted@
            && sorted_case_insensitively(views(e->UnknownPreset_available@))
            && e->UnknownPreset_available@.to_multiset() == names@.to_multiset(),
{
    match first_match(names, wanted) {
        Some(i) => {
            proof {
                let c = preset_match(names@, wanted@)->0;
                assert(eq_ignore_case(names@[i as int]@, wanted@));
                if c < i {
                } else if c > i {
                }
            }
            Ok(names[i].clone())
        },
        None => {
            let mut available = copy_strings(names);
            sort_case_insensitively(&mut available);
            Err(SlotError::UnknownPreset { preset: wanted.to_owned(), available })
        },
    }
}

/// Are the entries in slot-number order?
pub open spec fn sorted_by_number(slots: Seq<SlotEntry>) -> bool {
    forall|i: int, j: int|
        0 <= i < j < slots.len() ==> #[trigger] slots[i].number <= #[trigger] slots[j].number
}

/// The same entries, in slot-number order; entries for one number keep
/// their order.
pub(crate) fn sort_by_number(slots: &mut Vec<SlotEntry>)
    ensures
        final(slots)@.to_multiset() == old(slots)@.to_multiset(),
        sorted_by_number(final(slots)@),
{
    let mut out: Vec<SlotEntry> = Vec::new();
    let mut i: usize = 0;
    assert(slots@.take(0) =~= Seq::<SlotEntry>::empty());
    assert(out@ =~= Seq::<SlotEntry>::empty());
    while i < slots.len()
        invariant
            i <= slots@.len(),
            slots@ == old(slots)@,
            out@.to_multiset() == slots@.take(i as int).to_multiset(),
            sorted_by_number(out@),
        decreases slots.len() - i,
    {
        let x = slots[i].duplicate();
        let mut j: usize = 0;
        while j < out.len() && out[j].number <= x.number
            invariant
                j <= out@.len(),
                forall|k: int| 0 <= k < j ==> (#[trigger] out@[k]).number <= x.number,
            decreases out.len() - j,
        {
            j = j + 1;
        }
        proof {
            let w = out@.insert(j as int, x);
            assert forall|a: int, b: int| 0 <= a < b < w.len() implies #[trigger] w[a].number
                <= #[trigger] w[b].number by {
                if b < j {
                    assert(w[a] == out@[a] && w[b] == out@[b]);
                } else if b == j {
                    assert(w[a] == out@[a]);
                } else if a == j {
                    assert(w[b] == out@[b - 1]);
                    assert(out@[j as int].number > x.number);
                    assert(out@[j as int].number <= out@[b - 1].number || b - 1 == j);
                } else if a < j {
                    assert(w[a] == out@[a] && w[b] == out@[b - 1]);
                } else {
                    assert(w[a] == out@[a - 1] && w[b] == out@[b - 1]);
                }
            }
            assert(slots@.take(i + 1) =~= slots@.take(i as int).push(slots@[i as int]));
            vstd::seq_lib::to_multiset_insert(out@, j as int, x);
            vstd::seq_lib::to_multiset_build(slots@.take(i as int), slots@[i as int]);
        }
        out.insert(j, x);
        i = i + 1;
    }
    assert(slots@.take(slots@.len() as int) =~= slots@);
    *slots = out;
}

/// The first entry for slot `number`, if the list has one.
pub open spec fn slot_index(slots: Seq<SlotEntry>, number: u8) -> Option<int> {
    if exists|i: int| 0 <= i < slots.len() && #[trigger] slots[i].number == number {
        Some(
            choose|i: int|
                0 <= i < slots.len() && #[trigger] slots[i].number == number && forall|j: int|
                    0 <= j < i ==> #[trigger] slots[j].number != number,
        )
    } else {
        None
    }
}

pub(crate) fn find_slot(slots: &Vec<SlotEntry>, number: u8) -> (r: Option<usize>)
    ensures
        match r {
            Some(i) => i < slots@.len() && slots@[i as int].number == number && forall|j: int|
                0 <= j < i ==> #[trigger] slots@[j].number != number,
            None => forall|j: int| 0 <= j < slots@.len() ==> #[trigger] slots@[j].number != number,
        },
{
    let mut i: usize = 0;
    while i < slots.len()
        invariant
            i <= slots@.len(),
            forall|j: int| 0 <= j < i ==> #[trigger] slots@[j].number != number,
        decreases slots.len() - i,
    {
        if slots[i].number == number {
            return Some(i);
        }
        i = i + 1;
    }
    None
}

/// What assigning did to one slot list, apart from the list itself.
#[derive(Clone, Debug, PartialEq, Eq)]
pub struct SlotChange {
    pub preset: String,
    pub previous: Option<String>,
    pub persona: Persona,
    pub previous_persona: Option<Persona>,
    pub created: bool,
    pub unchanged: bool,
}

/// The entry an existing slot becomes, and whether anything moved.
pub open spec fn repointed(
    e: SlotEntry,
    preset: Option<String>,
    persona: Option<Persona>,
    socd: Option<Socd>,
) -> SlotEntry {
    SlotEntry {
        preset: match preset {
            Some(p) => p,
            None => e.preset,
        },
        persona: match persona {
            Some(p) => p,
            None => e.persona,
        },
        socd: match socd {
            Some(s) => s,
            None => e.socd,
        },
        ..e
    }
}

/// Point slot `number` of one slot list at `preset` / `persona` / `socd`
/// (`None` = leave as it is), creating the slot when the list has none and a
/// preset was named. Returns the new list (sorted when a slot was added) and
/// what changed; refuses rather than returns a list that is worse off.
/// What assigning slot `number` of `slots` must come to: see [`assign_in_list`].
#[verifier::opaque]
pub open spec fn assigned(
    slots: Seq<SlotEntry>,
    number: u8,
    preset: Option<String>,
    persona: Option<Persona>,
    socd: Option<Socd>,
    destination: String,
    user_index: Option<u8>,
    r: Result<(Vec<SlotEntry>, SlotChange), SlotError>,
) -> bool {
        match slot_index(slots, number) {
            Some(i) => {
                let e = slots[i];
                let next = repointed(e, preset, persona, socd);
                let same = eq_ignore_case(e.preset@, next.preset@) && next.persona == e.persona
                    && next.socd == e.socd;
                if same {
                    r matches Ok((list, change)) && list@ == slots && change.unchanged
                        && change.preset == e.preset && change.previous == Some(e.preset)
                        && change.persona == e.persona && change.previous_persona is None
                        && !change.created
                } else {
                    let list = slots.update(i, next);
                    (r is Err <==> (xinput_count(list) > MAX_XINPUT_SLOTS && xinput_count(list)
                        > xinput_count(slots))) && (r is Err ==> r->Err_0
                        == SlotError::TooManyXinputSlots {
                        slot: number,
                        after: xinput_count(list) as usize,
                        destination,
                    }) && (r matches Ok((l, change)) ==> l@ == list && !change.unchanged
                        && !change.created && change.preset == next.preset && change.previous
                        == Some(e.preset) && change.persona == next.persona && change.previous_persona
                        == (if e.persona != next.persona {
                        Some(e.persona)
                    } else {
                        None
                    }))
                }
            },
            None => match preset {
                None => r == Err::<(Vec<SlotEntry>, SlotChange), SlotError>(
                    SlotError::NoPresetToKeep { slot: number, destination },
                ),
                Some(p) => {
                    let fresh = SlotEntry {
                        number,
                        user_index,
                        keyboard: None,
                        mouse: None,
                        preset: p,
                        persona: match persona {
                            Some(q) => q,
                            None => Persona::spec_default(),
                        },
                        socd: match socd {
                            Some(s) => s,
                            None => Socd::spec_default(),
                        },
                        macros: false,
                    };
                    let after = xinput_count(slots.push(fresh));
                    (r is Err <==> (after > MAX_XINPUT_SLOTS && after > xinput_count(slots))) && (
                    r is Err ==> r->Err_0 == SlotError::TooManyXinputSlots {
                        slot: number,
                        after: after as usize,
                        destination,
                    }) && (r matches Ok((l, change)) ==> l@.to_multiset() == slots.push(
                        fresh,
                    ).to_multiset() && sorted_by_number(l@) && change.created && !change.unchanged
                        && change.preset == p && change.previous is None && change.persona
                        == fresh.persona && change.previous_persona is None)
                },
            },
        }
}

/// A slot write keeps what it was not asked about, and never refuses a
/// repair: on an existing slot, a persona, SOCD or preset that was not named
/// stays as it was (and so do the slot's number and devices), and a write
/// that does not raise the XInput count is never refused, even on a list
/// already over the ceiling.
pub proof fn law_a_write_keeps_what_it_was_not_asked_about(
    slots: Seq<SlotEntry>,
    number: u8,
    preset: Option<String>,
    persona: Option<Persona>,
    socd: Option<Socd>,
    destination: String,
    user_index: Option<u8>,
    r: Result<(Vec<SlotEntry>, SlotChange), SlotError>,
)
    requires
        assigned(slots, number, preset, persona, socd, destination, user_index, r),
        slot_index(slots, number) is Some,
    ensures
        ({
            let i = slot_index(slots, number)->0;
            let list = slots.update(i, repointed(slots[i], preset, persona, socd));
            &&& xinput_count(list) <= xinput_count(slots) ==> r is Ok
            &&& r matches Ok((l, _)) ==> {
                &&& i < l@.len()
                &&& l@[i].number == slots[i].number
                &&& l@[i].keyboard == slots[i].keyboard
                &&& l@[i].mouse == slots[i].mouse
                &&& (persona is None ==> l@[i].persona == slots[i].persona)
                &&& (socd is None ==> l@[i].socd == slots[i].socd)
                &&& (preset is None ==> l@[i].preset == slots[i].preset)
            }
        }),
{
    reveal(assigned);
    crate::wiring::lemma_slot_index(slots, number);
}

pub fn assign_in_list(
    slots: &Vec<SlotEntry>,
    number: u8,
    preset: Option<String>,
    persona: Option<Persona>,
    socd: Option<Socd>,
    destination: String,
    user_index: Option<u8>,
) -> (r: Result<(Vec<SlotEntry>, SlotChange), SlotError>)
    ensures
        assigned(slots@, number, preset, persona, socd, destination, user_index, r),
{
    proof {
        reveal(assigned);
    }
    let before = count_xinput(slots);
    match find_slot(slots, number) {
        Some(i) => {
            let e = &slots[i];
            let wanted_preset = match preset {
                Some(p) => p,
                None => e.preset.clone(),
            };
            let wanted = match persona {
                Some(p) => p,
                None => e.persona,
            };
            let wanted_socd = match socd {
                Some(s) => s,
                None => e.socd,
            };
            proof {
                assert(slot_index(slots@, number) == Some(i as int));
            }
            if same_ignoring_case(e.preset.as_str(), wanted_preset.as_str()) && wanted == e.persona
                && wanted_socd == e.socd {
                return Ok(
                    (
                        copy_slots(slots),
                        SlotChange {
                            preset: e.preset.clone(),
                            previous: Some(e.preset.clone()),
                            persona: e.persona,
                            previous_persona: None,
                            created: false,
                            unchanged: true,
                        },
                    ),
                );
            }
            let previous = e.preset.clone();
            let was = e.persona;
            let mut next = e.duplicate();
            next.preset = wanted_preset.clone();
            next.persona = wanted;
            next.socd = wanted_socd;
            let mut list = copy_slots(slots);
            list.set(i, next);
            let after = count_xinput(&list);
            match check_xinput_ceiling(number, before, after, destination) {
                Ok(()) => {},
                Err(e) => {
                    return Err(e);
                },
            }
            Ok(
                (
                    list,
                    SlotChange {
                        preset: wanted_preset,
                        previous: Some(previous),
                        persona: wanted,
                        previous_persona: if was != wanted {
                            Some(was)
                        } else {
                            None
                        },
                        created: false,
                        unchanged: false,
                    },
                ),
            )
        },
        None => {
            proof {
                assert(slot_index(slots@, number) is None);
            }
            let p = match preset {
                Some(p) => p,
                None => {
                    return Err(SlotError::NoPresetToKeep { slot: number, destination });
                },
            };
            let wanted = match persona {
                Some(q) => q,
                None => Persona::default_persona(),
            };
            let fresh = SlotEntry {
                number,
                user_index,
                keyboard: None,
                mouse: None,
                preset: p.clone(),
                persona: wanted,
                socd: match socd {
                    Some(s) => s,
                    None => Socd::default_socd(),
                },
                macros: false,
            };
            let mut list = copy_slots(slots);
            list.push(fresh);
            let after = count_xinput(&list);
            match check_xinput_ceiling(number, before, after, destination) {
                Ok(()) => {},
                Err(e) => {
                    return Err(e);
                },
            }
            sort_by_number(&mut list);
            Ok(
                (
                    list,
                    SlotChange {
                        preset: p,
                        previous: None,
                        persona: wanted,
                        previous_persona: None,
                        created: true,
                        unchanged: false,
                    },
                ),
            )
        },
    }
}


/// The titles of every profile, in file order.
pub open spec fn titles(games: Seq<GameEntry>) -> Seq<String> {
    games.map_values(|g: GameEntry| g.title)
}

fn game_titles(games: &Vec<GameEntry>) -> (r: Vec<String>)
    ensures
        r@ == titles(games@),
{
    let mut r: Vec<String> = Vec::new();
    let mut i: usize = 0;
    while i < games.len()
        invariant
            i <= games@.len(),
            r@ == titles(games@.take(i as int)),
        decreases games.len() - i,
    {
        r.push(games[i].title.clone());
        assert(titles(games@.take(i + 1)) =~= titles(games@.take(i as int)).push(games@[i as int].title));
        i = i + 1;
    }
    assert(games@.take(games@.len() as int) =~= games@);
    r
}

/// The profile a title names (first match, ignoring ASCII case), or the
/// refusal listing the titles there are.
pub fn find_profile(games: &Vec<GameEntry>, profile: &str) -> (r: Result<usize, SlotError>)
    ensures
        r is Ok <==> preset_match(titles(games@), profile@) is Some,
        r matches Ok(i) ==> i as int == preset_match(titles(games@), profile@)->0 && i < games@.len(),
        r matches Err(e) ==> e == (SlotError::UnknownProfile {
            profile: e->UnknownProfile_profile,
            available: e->UnknownProfile_available,
        }) && e->UnknownProfile_profile@ == profile@ && e->UnknownProfile_available@ == titles(games@),
{
    let names = game_titles(games);
    match first_match(&names, profile) {
        Some(i) => {
            proof {
                let c = preset_match(names@, profile@)->0;
                assert(eq_ignore_case(names@[i as int]@, profile@));
                if c < i {
                } else if c > i {
                }
            }
            Ok(i)
        },
        None => Err(SlotError::UnknownProfile { profile: profile.to_owned(), available: names }),
    }
}

/// What a validated assignment will write, and what it did to the slot.
#[derive(Clone, Debug, PartialEq, Eq)]
pub struct Assignment {
    /// The destination's slot list after the write.
    pub slots: Vec<SlotEntry>,
    /// `None` for `config.toml`; else which profile, and its title as the file
    /// spells it.
    pub profile: Option<(usize, String)>,
    pub change: SlotChange,
}

/// `profile "T" (games.toml)`: how a refusal names a profile destination.
pub open spec fn profile_destination(title: Seq<char>) -> Seq<char> {
    "profile \""@ + title + "\" (games.toml)"@
}

/// Decide an assignment against what is on disk: the presets' names, the
/// `config.toml` slot list, and the `games.toml` profiles. Every refusal comes
/// before anything would be written, in this order: the slot number, the
/// persona, the preset, the profile, then the slot itself.
/// Wrap one list's outcome as an assignment to `profile`.
pub open spec fn as_assignment(
    out: Result<(Vec<SlotEntry>, SlotChange), SlotError>,
    profile: Option<(usize, String)>,
) -> Result<Assignment, SlotError> {
    match out {
        Ok((slots, change)) => Ok(Assignment { slots, profile, change }),
        Err(e) => Err(e),
    }
}

/// The preset as the files spell it, for a spec that named one.
pub open spec fn canonical_preset(wanted: Option<String>, presets: Seq<String>) -> Option<String> {
    match wanted {
        Some(w) => Some(presets[preset_match(presets, w@)->0]),
        None => None,
    }
}

/// What [`plan_assign`] must decide.
pub open spec fn planned(
    spec: SlotSpec,
    presets: Seq<String>,
    config_slots: Seq<SlotEntry>,
    games: Seq<GameEntry>,
    r: Result<Assignment, SlotError>,
) -> bool {
    if spec.slot == 0 || spec.slot > MAX_SLOTS {
        r == Err::<Assignment, SlotError>(SlotError::BadSlot { given: spec.slot })
    } else if spec.persona is Some && !spec.persona->0.spec_can_plug() {
        r is Err && r->Err_0 is PersonaNotImplemented
            && r->Err_0->PersonaNotImplemented_persona == spec.persona->0
            && r->Err_0->PersonaNotImplemented_instead == spec.persona->0.spec_nearest_pluggable()
            && r->Err_0->PersonaNotImplemented_reason@ == persona_gap_text()
            && r->Err_0->PersonaNotImplemented_backend@ == "HIDMaestro"@
    } else if spec.preset is Some && preset_match(presets, spec.preset->0@) is None {
        r is Err && r->Err_0 is UnknownPreset && r->Err_0->UnknownPreset_preset@ == spec.preset->0@
            && sorted_case_insensitively(views(r->Err_0->UnknownPreset_available@))
            && r->Err_0->UnknownPreset_available@.to_multiset() == presets.to_multiset()
    } else {
        let canonical = canonical_preset(spec.preset, presets);
        match spec.profile {
            None => exists|out: Result<(Vec<SlotEntry>, SlotChange), SlotError>, dest: String|
                #[trigger] assigned(config_slots, spec.slot, canonical, spec.persona, spec.socd, dest, None, out)
                    && dest@ == "config.toml"@ && r == as_assignment(out, None),
            Some(t) => match preset_match(titles(games), t@) {
                None => r is Err && r->Err_0 is UnknownProfile && r->Err_0->UnknownProfile_profile@ == t@
                    && r->Err_0->UnknownProfile_available@ == titles(games),
                Some(i) => exists|out: Result<(Vec<SlotEntry>, SlotChange), SlotError>, dest: String|
                    #[trigger] assigned(games[i].slots@, spec.slot, canonical, spec.persona, spec.socd, dest, Some(spec.slot), out)
                        && dest@ == profile_destination(games[i].title@)
                        && r == as_assignment(out, Some((i as usize, games[i].title))),
            },
        }
    }
}

#[verifier::rlimit(40)]
pub fn plan_assign(
    spec: &SlotSpec,
    presets: &Vec<String>,
    config_slots: &Vec<SlotEntry>,
    games: &Vec<GameEntry>,
) -> (r: Result<Assignment, SlotError>)
    ensures
        planned(*spec, presets@, config_slots@, games@, r),
{
    if spec.slot == 0 || spec.slot > MAX_SLOTS {
        return Err(SlotError::BadSlot { given: spec.slot });
    }
    match spec.persona {
        Some(persona) => match check_pluggable(persona) {
            Ok(()) => {},
            Err(e) => {
                return Err(e);
            },
        },
        None => {},
    }
    let preset = match &spec.preset {
        Some(wanted) => match resolve_preset(presets, wanted.as_str()) {
            Ok(found) => Some(found),
            Err(e) => {
                return Err(e);
            },
        },
        None => None,
    };
    match &spec.profile {
        None => {
            let dest = "config.toml".to_owned();
            let ghost d = dest;
            let out = assign_in_list(config_slots, spec.slot, preset, spec.persona, spec.socd, dest, None);
            assert(assigned(config_slots@, spec.slot, preset, spec.persona, spec.socd, d, None, out));
            let res = match out {
                Ok((slots, change)) => Ok(Assignment { slots, profile: None, change }),
                Err(e) => Err(e),
            };
            proof {
                assert(res == as_assignment(out, None));
                assert(d@ == "config.toml"@);
                let canonical = canonical_preset(spec.preset, presets@);
                assert(canonical == preset);
                assert(assigned(config_slots@, spec.slot, canonical, spec.persona, spec.socd, d, None, out));
                assert(!(spec.slot == 0 || spec.slot > MAX_SLOTS));
                assert(!(spec.persona is Some && !spec.persona->0.spec_can_plug()));
                assert(!(spec.preset is Some && preset_match(presets@, spec.preset->0@) is None));
                assert(planned(*spec, presets@, config_slots@, games@, res));
            }
            res
        },
        Some(profile) => {
            let i = match find_profile(games, profile.as_str()) {
                Ok(i) => i,
                Err(e) => {
                    return Err(e);
                },
            };
            let title = games[i].title.clone();
            let mut dest = "profile \"".to_owned();
            dest.append(title.as_str());
            dest.append("\" (games.toml)");
            let ghost d = dest;
            assert(d@ == profile_destination(games@[i as int].title@));
            let out = assign_in_list(
                &games[i].slots,
                spec.slot,
                preset,
                spec.persona,
                spec.socd,
                dest,
                Some(spec.slot),
            );
            assert(assigned(games@[i as int].slots@, spec.slot, preset, spec.persona, spec.socd, d, Some(spec.slot), out));
            let res = match out {
                Ok((slots, change)) => Ok(Assignment { slots, profile: Some((i, title)), change }),
                Err(e) => Err(e),
            };
            proof {
                assert(res == as_assignment(out, Some((i, games@[i as int].title))));
                let canonical = canonical_preset(spec.preset, presets@);
                assert(canonical == preset);
                assert(preset_match(titles(games@), profile@) == Some(i as int));
            }
            res
        },
    }
}

/// One slot as a picker shows it.
#[derive(Clone, Debug, PartialEq, Eq)]
pub struct SlotRow {
    pub slot: u8,
    pub preset: String,
    /// `None` = config.toml.
    pub profile: Option<String>,
    /// The keyboard alias or id, `"(any)"` when unassigned.
    pub keyboard: String,
    pub persona: Persona,
}

/// Every slot of one destination, in file order.
pub fn slot_rows(slots: &Vec<SlotEntry>, profile: &Option<String>) -> (rows: Vec<SlotRow>)
    ensures
        rows@.len() == slots@.len(),
        forall|i: int|
            0 <= i < slots@.len() ==> {
                let s = #[trigger] slots@[i];
                let row = rows@[i];
                &&& row.slot == s.number
                &&& row.preset == s.preset
                &&& row.profile == *profile
                &&& row.persona == s.persona
                &&& (s.keyboard matches Some(k) ==> row.keyboard == k)
                &&& (s.keyboard is None ==> row.keyboard@ == "(any)"@)
            },
{
    let mut rows: Vec<SlotRow> = Vec::new();
    let mut i: usize = 0;
    while i < slots.len()
        invariant
            i <= slots@.len(),
            rows@.len() == i,
            forall|j: int|
                0 <= j < i ==> {
                    let s = #[trigger] slots@[j];
                    let row = rows@[j];
                    &&& row.slot == s.number
                    &&& row.preset == s.preset
                    &&& row.profile == *profile
                    &&& row.persona == s.persona
                    &&& (s.keyboard matches Some(k) ==> row.keyboard == k)
                    &&& (s.keyboard is None ==> row.keyboard@ == "(any)"@)
                },
        decreases slots.len() - i,
    {
        let s = &slots[i];
        let keyboard = match &s.keyboard {
            Some(k) => k.clone(),
            None => "(any)".to_owned(),
        };
        rows.push(SlotRow {
            slot: s.number,
            preset: s.preset.clone(),
            profile: crate::text::copy_opt_string(profile),
            keyboard,
            persona: s.persona,
        });
        i = i + 1;
    }
    rows
}


/// Assigning slot `number` exactly what its entry already says (the
/// preset, ASCII case aside, the persona and the SOCD mode, each either
/// named the same or left as it is) changes nothing: the list comes back as
/// it was and the change says so, so nothing needs writing.
pub proof fn law_assigning_what_a_slot_already_has_changes_nothing(
    slots: Seq<SlotEntry>,
    number: u8,
    preset: Option<String>,
    persona: Option<Persona>,
    socd: Option<Socd>,
    destination: String,
    user_index: Option<u8>,
    r: Result<(Vec<SlotEntry>, SlotChange), SlotError>,
)
    requires
        assigned(slots, number, preset, persona, socd, destination, user_index, r),
        slot_index(slots, number) is Some,
        preset is Some ==> eq_ignore_case(slots[slot_index(slots, number)->0].preset@, preset->0@),
        persona is Some ==> persona->0 == slots[slot_index(slots, number)->0].persona,
        socd is Some ==> socd->0 == slots[slot_index(slots, number)->0].socd,
    ensures
        r matches Ok((list, change)) && list@ == slots && change.unchanged && !change.created
            && change.preset == slots[slot_index(slots, number)->0].preset
            && change.previous == Some(slots[slot_index(slots, number)->0].preset)
            && change.previous_persona is None,
{
    crate::wiring::lemma_slot_index(slots, number);
    let e = slots[slot_index(slots, number)->0];
    match preset {
        Some(p) => {
            assert(eq_ignore_case(e.preset@, p@));
        },
        None => {
            assert forall|k: int| 0 <= k < e.preset@.len() implies #[trigger] lower_char(e.preset@[k])
                == lower_char(e.preset@[k]) by {}
        },
    }
    reveal(assigned);
}

} // verus!
