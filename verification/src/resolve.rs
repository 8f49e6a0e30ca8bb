//! One resolution pass: `[[device]]` spellings → the concrete interfaces that
//! answer to them, right now.
//!
//! The matching of one selector against the connected interfaces is the
//! selector's own business; this module takes its answer for each entry and
//! decides, with three outcomes and no guessing:
//!
//! - exactly one interface answers — the plan's ids are rewritten to it;
//! - none answers — the slot that needed it is dropped with a `[WARN]`,
//!   everyone else plays, and the refusal comes only when no slot survives;
//! - several answer — refuse, listing every hit and the port-pinned selector
//!   that would separate each one.
//!
//! Two different spellings landing on one interface is a refusal, not a dedupe.

use vstd::prelude::*;

use crate::config::{Backend, Persona};
use crate::text::{decimal, eq_ignore_case, push_decimal, same_ignoring_case, str_eq};

verus! {

/// Simultaneous-keyboard blocking mode of a session.
#[derive(Clone, Copy, Debug, PartialEq, Eq, Structural)]
pub enum Blocking {
    /// Keystrokes still reach Windows.
    Off,
    /// Every key of a bound keyboard is taken.
    Whole,
    /// Only the keys a slot binds are taken.
    BoundKeys,
}

impl Blocking {
    pub open spec fn spec_captures(self) -> bool {
        !(self is Off)
    }

    /// Does this mode capture anything at all?
    pub fn captures(self) -> (b: bool)
        ensures
            b == self.spec_captures(),
    {
        match self {
            Blocking::Off => false,
            _ => true,
        }
    }

    /// Is the take decided per key?
    pub fn is_per_key(self) -> (b: bool)
        ensures
            b == (self is BoundKeys),
    {
        match self {
            Blocking::BoundKeys => true,
            _ => false,
        }
    }

    pub open spec fn spec_as_str(self) -> Seq<char> {
        match self {
            Blocking::Off => "off"@,
            Blocking::Whole => "whole"@,
            Blocking::BoundKeys => "bound-keys"@,
        }
    }

    /// The spelling the config uses.
    pub fn as_str(self) -> (s: &'static str)
        ensures
            s@ == self.spec_as_str(),
    {
        match self {
            Blocking::Off => "off",
            Blocking::Whole => "whole",
            Blocking::BoundKeys => "bound-keys",
        }
    }
}

/// One slot of a resolved plan: its number, what it presents itself as, the
/// devices that drive it (by concrete id) and its preset.
#[derive(Clone, Debug, PartialEq, Eq)]
pub struct PlanSlot {
    pub number: u8,
    pub persona: Persona,
    pub keyboard: Option<String>,
    pub mouse: Option<String>,
    pub preset: String,
}

/// What a session is about to do: its slots, the keyboards it may capture,
/// which of them are WinUSB-claimed, and its non-fatal notes.
#[derive(Clone, Debug, PartialEq, Eq)]
pub struct RunPlan {
    pub slots: Vec<PlanSlot>,
    pub block_keyboards: Blocking,
    pub captureable: Vec<String>,
    pub winusb: Vec<String>,
    pub notes: Vec<String>,
}

/// A plan as its contracts see it: device ids and notes by their characters.
pub struct PlanModel {
    pub slots: Seq<PlanSlot>,
    pub block_keyboards: Blocking,
    pub captureable: Seq<Seq<char>>,
    pub winusb: Seq<Seq<char>>,
    pub notes: Seq<Seq<char>>,
}

impl View for RunPlan {
    type V = PlanModel;

    open spec fn view(&self) -> PlanModel {
        PlanModel {
            slots: self.slots@,
            block_keyboards: self.block_keyboards,
            captureable: id_views(self.captureable@),
            winusb: id_views(self.winusb@),
            notes: id_views(self.notes@),
        }
    }
}

/// What the connected interfaces answered to one `[[device]]` selector.
#[derive(Clone, Debug, PartialEq, Eq)]
pub enum Answer {
    /// Nothing connected answers.
    Nothing,
    /// Exactly this interface answers.
    One(String),
    /// Several answer: each with the port-pinned selector that names it alone.
    Ambiguous(Vec<(String, String)>),
}

/// One `[[device]]` entry as the file spells it.
#[derive(Clone, Debug, PartialEq, Eq)]
pub struct DeviceSpelling {
    /// The `id` exactly as the file spells it.
    pub written: String,
    pub alias: String,
    pub backend: Backend,
    /// `false` for a hardware id, which is passed through verbatim and never
    /// matched against the USB tree.
    pub needs_matching: bool,
    /// Does the selector keep naming the board across a replug?
    pub survives_replug: bool,
}

/// One `[[device]]` entry with what its selector found among the connected
/// interfaces.
#[derive(Clone, Debug, PartialEq, Eq)]
pub struct DeviceResolution {
    pub spelling: DeviceSpelling,
    pub answer: Answer,
}

/// An entry whose selector named exactly one interface.
#[derive(Clone, Debug, PartialEq, Eq)]
pub struct Resolved {
    pub written: String,
    pub alias: String,
    pub id: String,
}

/// Why a session's devices could not be resolved.
#[derive(Clone, Debug, PartialEq, Eq)]
pub enum ResolveError {
    /// Nothing connected answers to a `[[device]]` entry a slot needs.
    Missing { alias: String, written: String, replug_proof: bool },
    /// Two or more connected interfaces answer.
    Ambiguous { alias: String, written: String, candidates: Vec<(String, String)> },
    /// Two different `[[device]]` spellings landed on one physical interface.
    Collision { first: String, second: String, id: String },
}

/// The same refusal: equal fields, the candidate list by its entries.
pub open spec fn same_error(a: ResolveError, b: ResolveError) -> bool {
    match (a, b) {
        (
            ResolveError::Missing { alias: a1, written: w1, replug_proof: p1 },
            ResolveError::Missing { alias: a2, written: w2, replug_proof: p2 },
        ) => a1 == a2 && w1 == w2 && p1 == p2,
        (
            ResolveError::Ambiguous { alias: a1, written: w1, candidates: c1 },
            ResolveError::Ambiguous { alias: a2, written: w2, candidates: c2 },
        ) => a1 == a2 && w1 == w2 && c1@ == c2@,
        (
            ResolveError::Collision { first: f1, second: s1, id: i1 },
            ResolveError::Collision { first: f2, second: s2, id: i2 },
        ) => f1 == f2 && s1 == s2 && i1 == i2,
        _ => false,
    }
}

/// The refusal for an entry several interfaces answer to.
pub open spec fn ambiguity(d: DeviceResolution) -> ResolveError {
    ResolveError::Ambiguous {
        alias: d.spelling.alias,
        written: d.spelling.written,
        candidates: d.answer->Ambiguous_0,
    }
}

/// The refusal when the first missing board leaves no slot.
pub open spec fn missing_error(d: DeviceSpelling) -> ResolveError {
    ResolveError::Missing { alias: d.alias, written: d.written, replug_proof: d.survives_replug }
}

fn copy_pairs(v: &Vec<(String, String)>) -> (r: Vec<(String, String)>)
    ensures
        r@ == v@,
{
    let mut r: Vec<(String, String)> = Vec::new();
    let mut i: usize = 0;
    while i < v.len()
        invariant
            i <= v@.len(),
            r@ == v@.take(i as int),
        decreases v.len() - i,
    {
        let pair = (v[i].0.clone(), v[i].1.clone());
        r.push(pair);
        assert(r@ =~= v@.take(i + 1));
        i = i + 1;
    }
    assert(v@.take(v@.len() as int) =~= v@);
    r
}

fn ambiguity_error(d: &DeviceResolution) -> (e: ResolveError)
    requires
        d.answer is Ambiguous,
    ensures
        same_error(e, ambiguity(*d)),
{
    match &d.answer {
        Answer::Ambiguous(hits) => ResolveError::Ambiguous {
            alias: d.spelling.alias.clone(),
            written: d.spelling.written.clone(),
            candidates: copy_pairs(hits),
        },
        _ => ResolveError::Missing {
            alias: d.spelling.alias.clone(),
            written: d.spelling.written.clone(),
            replug_proof: false,
        },
    }
}

/// Every device id the plan would touch: its captureable and WinUSB lists and
/// each slot's keyboard and mouse.
pub open spec fn uses(plan: PlanModel, id: Seq<char>) -> bool {
    ||| plan.captureable.contains(id)
    ||| plan.winusb.contains(id)
    ||| exists|i: int|
        0 <= i < plan.slots.len() && (#[trigger] plan.slots[i]).keyboard is Some
            && plan.slots[i].keyboard->0@ == id
    ||| exists|i: int|
        0 <= i < plan.slots.len() && (#[trigger] plan.slots[i]).mouse is Some
            && plan.slots[i].mouse->0@ == id
}

/// Is `id` one of the ids in `list`?
pub(crate) fn contains_view(list: &Vec<String>, id: &str) -> (b: bool)
    ensures
        b == id_views(list@).contains(id@),
{
    let mut i: usize = 0;
    while i < list.len()
        invariant
            i <= list@.len(),
            forall|j: int| 0 <= j < i ==> #[trigger] list@[j]@ != id@,
        decreases list.len() - i,
    {
        if str_eq(list[i].as_str(), id) {
            assert(id_views(list@)[i as int] == id@);
            return true;
        }
        i = i + 1;
    }
    proof {
        if id_views(list@).contains(id@) {
            let k = choose|k: int| 0 <= k < id_views(list@).len() && id_views(list@)[k] == id@;
            assert(list@[k]@ == id@);
        }
    }
    false
}

/// Does this plan touch the device spelled `id`?
pub fn plan_uses(plan: &RunPlan, id: &str) -> (b: bool)
    ensures
        b == uses(plan@, id@),
{
    if contains_view(&plan.captureable, id) || contains_view(&plan.winusb, id) {
        return true;
    }
    let mut i: usize = 0;
    while i < plan.slots.len()
        invariant
            i <= plan.slots@.len(),
            forall|j: int|
                0 <= j < i ==> !((#[trigger] plan.slots@[j]).keyboard is Some
                    && plan.slots@[j].keyboard->0@ == id@),
            forall|j: int|
                0 <= j < i ==> !((#[trigger] plan.slots@[j]).mouse is Some
                    && plan.slots@[j].mouse->0@ == id@),
        decreases plan.slots.len() - i,
    {
        let slot = &plan.slots[i];
        match &slot.keyboard {
            Some(k) => {
                if str_eq(k.as_str(), id) {
                    return true;
                }
            },
            None => {},
        }
        match &slot.mouse {
            Some(m) => {
                if str_eq(m.as_str(), id) {
                    return true;
                }
            },
            None => {},
        }
        i = i + 1;
    }
    false
}

/// Does an entry name a board this plan needs matched against hardware?
pub open spec fn considered(plan: PlanModel, d: DeviceSpelling) -> bool {
    uses(plan, d.written@) && d.needs_matching
}

/// The characters of each id.
pub open spec fn id_views(ids: Seq<String>) -> Seq<Seq<char>> {
    ids.map_values(|s: String| s@)
}

proof fn lemma_id_views_push(ids: Seq<String>, s: String)
    ensures
        id_views(ids.push(s)) == id_views(ids).push(s@),
{
    assert(id_views(ids.push(s)) =~= id_views(ids).push(s@));
}

/// `ids` with later repeats removed, first occurrences in order.
pub open spec fn deduped(ids: Seq<Seq<char>>) -> Seq<Seq<char>>
    decreases ids.len(),
{
    if ids.len() == 0 {
        seq![]
    } else {
        let prev = deduped(ids.drop_last());
        if prev.contains(ids.last()) {
            prev
        } else {
            prev.push(ids.last())
        }
    }
}

/// Deduplication removes exactly the repeats: no id twice, and the same ids.
pub proof fn law_dedupe_removes_exactly_the_repeats(ids: Seq<Seq<char>>)
    ensures
        deduped(ids).no_duplicates(),
        forall|x: Seq<char>| deduped(ids).contains(x) <==> ids.contains(x),
    decreases ids.len(),
{
    if ids.len() > 0 {
        law_dedupe_removes_exactly_the_repeats(ids.drop_last());
        let prev = deduped(ids.drop_last());
        let dl = ids.drop_last();
        assert forall|x: Seq<char>| deduped(ids).contains(x) <==> ids.contains(x) by {
            assert(prev.contains(x) <==> dl.contains(x));
            if dl.contains(x) {
                let k = choose|k: int| 0 <= k < dl.len() && dl[k] == x;
                assert(ids[k] == x);
            }
            if ids.contains(x) && x != ids.last() {
                let k = choose|k: int| 0 <= k < ids.len() && ids[k] == x;
                assert(k < ids.len() - 1);
                assert(dl[k] == x);
            }
            if x == ids.last() {
                assert(ids[ids.len() - 1] == x);
            }
            if !prev.contains(ids.last()) {
                let pushed = prev.push(ids.last());
                if x == ids.last() {
                    assert(pushed[prev.len() as int] == x);
                }
                if prev.contains(x) {
                    let k = choose|k: int| 0 <= k < prev.len() && prev[k] == x;
                    assert(pushed[k] == x);
                }
                if pushed.contains(x) && x != ids.last() {
                    let k = choose|k: int| 0 <= k < pushed.len() && pushed[k] == x;
                    assert(k < prev.len());
                    assert(prev[k] == x);
                }
            }
        }
    }
}

/// Keep the first occurrence of each id.
pub fn dedupe(ids: &mut Vec<String>)
    ensures
        id_views(final(ids)@) == deduped(id_views(old(ids)@)),
{
    let mut out: Vec<String> = Vec::new();
    let mut i: usize = 0;
    while i < ids.len()
        invariant
            i <= ids@.len(),
            ids@ == old(ids)@,
            id_views(out@) == deduped(id_views(ids@.take(i as int))),
        decreases ids.len() - i,
    {
        assert(id_views(ids@.take(i + 1)).drop_last() =~= id_views(ids@.take(i as int)));
        let seen = contains_view(&out, ids[i].as_str());
        proof {
            let v = id_views(ids@.take(i + 1));
            assert(v.last() == ids@[i as int]@);
        }
        if !seen {
            out.push(ids[i].clone());
            assert(id_views(out@) =~= deduped(id_views(ids@.take(i + 1))));
        }
        i = i + 1;
    }
    assert(ids@.take(ids@.len() as int) =~= ids@);
    *ids = out;
}


/// The ids of the boards that are gone.
pub open spec fn gone_ids(missing: Seq<DeviceSpelling>) -> Seq<Seq<char>> {
    missing.map_values(|d: DeviceSpelling| d.written@)
}

/// Does `id` name a board that is gone?
pub open spec fn is_gone(gone: Seq<Seq<char>>, id: Option<String>) -> bool {
    id is Some && gone.contains(id->0@)
}

/// A slot whose mouse is gone keeps playing on its keyboard.
pub open spec fn without_lost_mouse(s: PlanSlot, gone: Seq<Seq<char>>) -> PlanSlot {
    if is_gone(gone, s.mouse) {
        PlanSlot { mouse: None, ..s }
    } else {
        s
    }
}

/// The slots that still have a keyboard, each without a gone mouse.
pub open spec fn kept_slots(slots: Seq<PlanSlot>, gone: Seq<Seq<char>>) -> Seq<PlanSlot>
    decreases slots.len(),
{
    if slots.len() == 0 {
        seq![]
    } else {
        let prev = kept_slots(slots.drop_last(), gone);
        if is_gone(gone, slots.last().keyboard) {
            prev
        } else {
            prev.push(without_lost_mouse(slots.last(), gone))
        }
    }
}

/// Dropping gone boards keeps exactly the playable slots: no kept slot names
/// a gone keyboard or a gone mouse, every slot whose keyboard is still there
/// is kept (without its gone mouse, if any), and nothing is added.
pub proof fn law_a_gone_board_costs_only_its_own_slots(slots: Seq<PlanSlot>, gone: Seq<Seq<char>>)
    ensures
        kept_slots(slots, gone).len() <= slots.len(),
        forall|i: int|
            0 <= i < kept_slots(slots, gone).len() ==> {
                &&& !is_gone(gone, #[trigger] kept_slots(slots, gone)[i].keyboard)
                &&& !is_gone(gone, kept_slots(slots, gone)[i].mouse)
            },
        forall|j: int|
            0 <= j < slots.len() && !is_gone(gone, #[trigger] slots[j].keyboard) ==> kept_slots(
                slots,
                gone,
            ).contains(without_lost_mouse(slots[j], gone)),
    decreases slots.len(),
{
    if slots.len() > 0 {
        let init = slots.drop_last();
        law_a_gone_board_costs_only_its_own_slots(init, gone);
        let prev = kept_slots(init, gone);
        let kept = kept_slots(slots, gone);
        assert forall|j: int|
            0 <= j < slots.len() && !is_gone(gone, #[trigger] slots[j].keyboard) implies kept.contains(
            without_lost_mouse(slots[j], gone),
        ) by {
            if j < slots.len() - 1 {
                assert(init[j] == slots[j]);
                let w = without_lost_mouse(init[j], gone);
                assert(prev.contains(w));
                let k = choose|k: int| 0 <= k < prev.len() && prev[k] == w;
                assert(kept[k] == w);
            } else {
                assert(kept[kept.len() - 1] == without_lost_mouse(slots[j], gone));
            }
        }
        assert forall|i: int| 0 <= i < kept.len() implies {
            &&& !is_gone(gone, #[trigger] kept[i].keyboard)
            &&& !is_gone(gone, kept[i].mouse)
        } by {
            if i < prev.len() {
                assert(kept[i] == prev[i]);
            }
        }
    }
}

/// The numbers of the slots whose device in `pick` is gone.
pub open spec fn lost_numbers(slots: Seq<PlanSlot>, gone: Seq<Seq<char>>, mice: bool) -> Seq<u8>
    decreases slots.len(),
{
    if slots.len() == 0 {
        seq![]
    } else {
        let prev = lost_numbers(slots.drop_last(), gone, mice);
        let s = slots.last();
        if is_gone(gone, if mice { s.mouse } else { s.keyboard }) {
            prev.push(s.number)
        } else {
            prev
        }
    }
}

/// The ids that are not gone.
pub open spec fn kept_views(ids: Seq<Seq<char>>, gone: Seq<Seq<char>>) -> Seq<Seq<char>>
    decreases ids.len(),
{
    if ids.len() == 0 {
        seq![]
    } else {
        let prev = kept_views(ids.drop_last(), gone);
        if gone.contains(ids.last()) {
            prev
        } else {
            prev.push(ids.last())
        }
    }
}

/// `[1, 2]`: a list of slot numbers as Rust's `{:?}` prints it.
pub open spec fn numbers_text(v: Seq<u8>) -> Seq<char> {
    "["@ + numbers_join(v) + "]"@
}

pub open spec fn numbers_join(v: Seq<u8>) -> Seq<char>
    decreases v.len(),
{
    if v.len() == 0 {
        seq![]
    } else if v.len() == 1 {
        decimal(v[0] as nat)
    } else {
        numbers_join(v.drop_last()) + ", "@ + decimal(v.last() as nat)
    }
}

pub fn numbers_string(v: &Vec<u8>) -> (s: String)
    ensures
        s@ == numbers_text(v@),
{
    let mut s = "[".to_owned();
    let mut i: usize = 0;
    while i < v.len()
        invariant
            i <= v@.len(),
            s@ == "["@ + numbers_join(v@.take(i as int)),
        decreases v.len() - i,
    {
        assert(v@.take(i + 1).drop_last() =~= v@.take(i as int));
        if i > 0 {
            s.append(", ");
        }
        push_decimal(&mut s, v[i] as u64);
        proof {
            if i == 0 {
                assert(v@.take(1).len() == 1);
                assert(s@ =~= "["@ + numbers_join(v@.take(1)));
            } else {
                assert(s@ =~= "["@ + numbers_join(v@.take(i + 1)));
            }
        }
        i = i + 1;
    }
    s.append("]");
    assert(v@.take(v@.len() as int) =~= v@);
    s
}

pub open spec fn not_connected_tail() -> Seq<char> {
    " — either it is unplugged, or it moved and this id followed the socket: a full instance path is port-derived only for boards that report no USB serial (docs/DEVICE-IDENTITY.md §1). `ksx devices` prints the id it has now, and the `usb:` selector that names the board either way"@
}

/// The note for one board that is not connected.
pub open spec fn missing_note(d: DeviceSpelling) -> Seq<char> {
    "[WARN] device \""@ + d.alias@ + "\" (id = '"@ + d.written@ + "') is not connected"@ + (
    if d.survives_replug {
        seq![]
    } else {
        not_connected_tail()
    })
}

pub open spec fn missing_notes(missing: Seq<DeviceSpelling>) -> Seq<Seq<char>> {
    missing.map_values(|d: DeviceSpelling| missing_note(d))
}

pub open spec fn lost_slots_note(lost: Seq<u8>) -> Seq<char> {
    "[WARN] slot(s) "@ + numbers_text(lost)
        + " have no keyboard and will NOT play this session; the remaining slots start normally"@
}

pub open spec fn lost_mice_note(lost: Seq<u8>) -> Seq<char> {
    "[WARN] slot(s) "@ + numbers_text(lost)
        + " lost their mouse, which M4 never reads anyway; those slots play on their keyboard as usual"@
}

/// The notes a drop adds, in order: one per missing board, then the slots
/// that lost their keyboard, then those that lost their mouse.
pub open spec fn drop_notes(missing: Seq<DeviceSpelling>, slots: Seq<PlanSlot>) -> Seq<Seq<char>> {
    let gone = gone_ids(missing);
    let lost_slots = lost_numbers(slots, gone, false);
    let lost_mice = lost_numbers(slots, gone, true);
    missing_notes(missing) + (if lost_slots.len() > 0 {
        seq![lost_slots_note(lost_slots)]
    } else {
        seq![]
    }) + (if lost_mice.len() > 0 {
        seq![lost_mice_note(lost_mice)]
    } else {
        seq![]
    })
}

fn in_list(gone: &Vec<String>, id: &Option<String>) -> (b: bool)
    ensures
        b == is_gone(id_views(gone@), *id),
{
    match id {
        Some(v) => contains_view(gone, v.as_str()),
        None => false,
    }
}

fn keep_ids(ids: &Vec<String>, gone: &Vec<String>) -> (r: Vec<String>)
    ensures
        id_views(r@) == kept_views(id_views(ids@), id_views(gone@)),
{
    let mut r: Vec<String> = Vec::new();
    let mut i: usize = 0;
    while i < ids.len()
        invariant
            i <= ids@.len(),
            id_views(r@) == kept_views(id_views(ids@.take(i as int)), id_views(gone@)),
        decreases ids.len() - i,
    {
        proof {
            let v = id_views(ids@.take(i + 1));
            assert(v.drop_last() =~= id_views(ids@.take(i as int)));
            assert(v.last() == ids@[i as int]@);
        }
        let gone_here = contains_view(gone, ids[i].as_str());
        if !gone_here {
            let id = ids[i].clone();
            proof {
                lemma_id_views_push(r@, id);
            }
            r.push(id);
        }
        i = i + 1;
    }
    assert(ids@.take(ids@.len() as int) =~= ids@);
    r
}

/// The plan once the boards in `missing` are dropped.
pub open spec fn dropped(m: PlanModel, missing: Seq<DeviceSpelling>) -> PlanModel {
    let gone = gone_ids(missing);
    PlanModel {
        slots: kept_slots(m.slots, gone),
        block_keyboards: m.block_keyboards,
        captureable: kept_views(m.captureable, gone),
        winusb: kept_views(m.winusb, gone),
        notes: m.notes + drop_notes(missing, m.slots),
    }
}

/// The plan as the refusal for "every slot lost its keyboard" leaves it:
/// trimmed of what is missing, with no note added.
pub open spec fn trimmed(m: PlanModel, missing: Seq<DeviceSpelling>) -> PlanModel {
    PlanModel { notes: m.notes, ..dropped(m, missing) }
}

pub(crate) fn copy_slot(s: &PlanSlot) -> (r: PlanSlot)
    ensures
        r == *s,
{
    PlanSlot {
        number: s.number,
        persona: s.persona,
        keyboard: crate::text::copy_opt_string(&s.keyboard),
        mouse: crate::text::copy_opt_string(&s.mouse),
        preset: s.preset.clone(),
    }
}

/// A board a slot names is not connected: drop what cannot work, keep what
/// can. A slot that lost its keyboard goes; a slot that lost only its mouse
/// keeps playing. Refuses only when no slot is left.
pub fn drop_missing(plan: &mut RunPlan, missing: &Vec<DeviceSpelling>) -> (r: Result<(), ResolveError>)
    ensures
        missing@.len() == 0 ==> r is Ok && *final(plan) == *old(plan),
        missing@.len() > 0 ==> (r is Err <==> kept_slots(old(plan).slots@, gone_ids(missing@)).len()
            == 0),
        missing@.len() > 0 && r is Ok ==> final(plan)@ == dropped(old(plan)@, missing@),
        r is Err ==> r->Err_0 == missing_error(missing@[0]),
        r is Err ==> final(plan)@ == trimmed(old(plan)@, missing@),
{
    if missing.len() == 0 {
        return Ok(());
    }
    let mut gone: Vec<String> = Vec::new();
    let mut i: usize = 0;
    while i < missing.len()
        invariant
            i <= missing@.len(),
            gone@.len() == i,
            forall|k: int| 0 <= k < i ==> #[trigger] gone@[k]@ == missing@[k].written@,
        decreases missing.len() - i,
    {
        gone.push(missing[i].written.clone());
        i = i + 1;
    }
    let ghost g = gone_ids(missing@);
    assert(id_views(gone@) =~= g);

    let mut kept: Vec<PlanSlot> = Vec::new();
    let mut lost_slots: Vec<u8> = Vec::new();
    let mut lost_mice: Vec<u8> = Vec::new();
    let mut i: usize = 0;
    while i < plan.slots.len()
        invariant
            i <= plan.slots@.len(),
            *plan == *old(plan),
            id_views(gone@) == g,
            kept@ == kept_slots(plan.slots@.take(i as int), g),
            lost_slots@ == lost_numbers(plan.slots@.take(i as int), g, false),
            lost_mice@ == lost_numbers(plan.slots@.take(i as int), g, true),
        decreases plan.slots.len() - i,
    {
        assert(plan.slots@.take(i + 1).drop_last() =~= plan.slots@.take(i as int));
        let s = &plan.slots[i];
        let mouse_gone = in_list(&gone, &s.mouse);
        let keyboard_gone = in_list(&gone, &s.keyboard);
        if mouse_gone {
            lost_mice.push(s.number);
        }
        if keyboard_gone {
            lost_slots.push(s.number);
        } else {
            let mut kept_slot = copy_slot(s);
            if mouse_gone {
                kept_slot.mouse = None;
            }
            kept.push(kept_slot);
        }
        i = i + 1;
    }
    assert(plan.slots@.take(plan.slots@.len() as int) =~= plan.slots@);
    let captureable = keep_ids(&plan.captureable, &gone);
    let winusb = keep_ids(&plan.winusb, &gone);
    plan.slots = kept;
    plan.captureable = captureable;
    plan.winusb = winusb;
    assert(plan.captureable@ == captureable@);

    if plan.slots.len() == 0 {
        let first = &missing[0];
        assert(plan@ == trimmed(old(plan)@, missing@));
        return Err(ResolveError::Missing {
            alias: first.alias.clone(),
            written: first.written.clone(),
            replug_proof: first.survives_replug,
        });
    }

    let ghost notes0 = plan.notes@;
    let ghost n0 = notes0.len();
    let mut i: usize = 0;
    while i < missing.len()
        invariant
            i <= missing@.len(),
            plan.slots@ == kept_slots(old(plan).slots@, g),
            id_views(plan.captureable@) == kept_views(id_views(old(plan).captureable@), g),
            id_views(plan.winusb@) == kept_views(id_views(old(plan).winusb@), g),
            plan.block_keyboards == old(plan).block_keyboards,
            notes0 == old(plan).notes@,
            n0 == notes0.len(),
            plan.notes@.len() == n0 + i,
            forall|k: int| 0 <= k < n0 ==> #[trigger] plan.notes@[k] == notes0[k],
            forall|k: int| 0 <= k < i ==> #[trigger] plan.notes@[n0 + k]@ == missing_note(missing@[k]),
        decreases missing.len() - i,
    {
        let device = &missing[i];
        let mut note = "[WARN] device \"".to_owned();
        note.append(device.alias.as_str());
        note.append("\" (id = '");
        note.append(device.written.as_str());
        note.append("') is not connected");
        if !device.survives_replug {
            note.append(" — either it is unplugged, or it moved and this id followed the socket: a full instance path is port-derived only for boards that report no USB serial (docs/DEVICE-IDENTITY.md §1). `ksx devices` prints the id it has now, and the `usb:` selector that names the board either way");
        }
        proof {
            assert(note@ =~= missing_note(*device));
        }
        plan.notes.push(note);
        proof {
            assert(plan.notes@[n0 + i as int]@ == missing_note(missing@[i as int]));
        }
        i = i + 1;
    }
    proof {
        assert(id_views(plan.notes@) =~= id_views(notes0) + missing_notes(missing@)) by {
            assert forall|k: int| 0 <= k < plan.notes@.len() implies #[trigger] id_views(plan.notes@)[k]
                == (id_views(notes0) + missing_notes(missing@))[k] by {
                if k < n0 {
                    assert(plan.notes@[k] == notes0[k]);
                } else {
                    assert(plan.notes@[n0 + (k - n0)]@ == missing_note(missing@[k - n0]));
                }
            }
        }
    }
    let ghost after_missing = plan.notes@;
    if lost_slots.len() > 0 {
        let mut note = "[WARN] slot(s) ".to_owned();
        let list = numbers_string(&lost_slots);
        note.append(list.as_str());
        note.append(" have no keyboard and will NOT play this session; the remaining slots start normally");
        proof {
            assert(note@ =~= lost_slots_note(lost_slots@));
        }
        plan.notes.push(note);
        proof {
            lemma_id_views_push(after_missing, note);
        }
    }
    let ghost after_slots = plan.notes@;
    if lost_mice.len() > 0 {
        let mut note = "[WARN] slot(s) ".to_owned();
        let list = numbers_string(&lost_mice);
        note.append(list.as_str());
        note.append(" lost their mouse, which M4 never reads anyway; those slots play on their keyboard as usual");
        proof {
            assert(note@ =~= lost_mice_note(lost_mice@));
        }
        plan.notes.push(note);
        proof {
            lemma_id_views_push(after_slots, note);
        }
    }
    proof {
        assert(id_views(plan.notes@) =~= id_views(old(plan).notes@) + drop_notes(missing@, old(plan).slots@));
        assert(plan@.notes == dropped(old(plan)@, missing@).notes);
        assert(plan@.captureable == dropped(old(plan)@, missing@).captureable);
        assert(plan@.winusb == dropped(old(plan)@, missing@).winusb);
        assert(plan@.slots == dropped(old(plan)@, missing@).slots);
    }
    Ok(())
}

/// One pass over the entries the plan needs matched, in order: those one
/// interface answers to, those nothing answers to, or the first that several
/// answer to.
pub open spec fn gathered(m: PlanModel, devs: Seq<DeviceResolution>) -> Result<
    (Seq<Resolved>, Seq<DeviceSpelling>),
    DeviceResolution,
>
    decreases devs.len(),
{
    if devs.len() == 0 {
        Ok((seq![], seq![]))
    } else {
        match gathered(m, devs.drop_last()) {
            Err(d) => Err(d),
            Ok(acc) => {
                let d = devs.last();
                if !considered(m, d.spelling) {
                    Ok(acc)
                } else {
                    match d.answer {
                        Answer::One(id) => Ok(
                            (
                                acc.0.push(
                                    Resolved {
                                        written: d.spelling.written,
                                        alias: d.spelling.alias,
                                        id,
                                    },
                                ),
                                acc.1,
                            ),
                        ),
                        Answer::Nothing => Ok((acc.0, acc.1.push(d.spelling))),
                        Answer::Ambiguous(_) => Err(d),
                    }
                }
            },
        }
    }
}

fn copy_spelling(d: &DeviceSpelling) -> (r: DeviceSpelling)
    ensures
        r == *d,
{
    DeviceSpelling {
        written: d.written.clone(),
        alias: d.alias.clone(),
        backend: d.backend,
        needs_matching: d.needs_matching,
        survives_replug: d.survives_replug,
    }
}

fn gather(plan: &RunPlan, devices: &Vec<DeviceResolution>) -> (r: Result<
    (Vec<Resolved>, Vec<DeviceSpelling>),
    ResolveError,
>)
    ensures
        match gathered(plan@, devices@) {
            Ok(acc) => r is Ok && r->Ok_0.0@ == acc.0 && r->Ok_0.1@ == acc.1,
            Err(d) => r is Err && same_error(r->Err_0, ambiguity(d)),
        },
{
    let mut resolved: Vec<Resolved> = Vec::new();
    let mut missing: Vec<DeviceSpelling> = Vec::new();
    let mut i: usize = 0;
    while i < devices.len()
        invariant
            i <= devices@.len(),
            gathered(plan@, devices@.take(i as int)) == Ok::<
                (Seq<Resolved>, Seq<DeviceSpelling>),
                DeviceResolution,
            >((resolved@, missing@)),
        decreases devices.len() - i,
    {
        assert(devices@.take(i + 1).drop_last() =~= devices@.take(i as int));
        let device = &devices[i];
        let wanted = device.spelling.needs_matching && plan_uses(plan, device.spelling.written.as_str());
        if wanted {
            match &device.answer {
                Answer::One(id) => {
                    resolved.push(
                        Resolved {
                            written: device.spelling.written.clone(),
                            alias: device.spelling.alias.clone(),
                            id: id.clone(),
                        },
                    );
                },
                Answer::Nothing => {
                    missing.push(copy_spelling(&device.spelling));
                },
                Answer::Ambiguous(_) => {
                    let e = ambiguity_error(device);
                    proof {
                        lemma_gathered_stops(plan@, devices@, i as int);
                    }
                    return Err(e);
                },
            }
        }
        i = i + 1;
    }
    assert(devices@.take(devices@.len() as int) =~= devices@);
    Ok((resolved, missing))
}

/// Once an ambiguous entry is met, the pass's answer is that entry.
proof fn lemma_gathered_stops(m: PlanModel, devs: Seq<DeviceResolution>, i: int)
    requires
        0 <= i < devs.len(),
        gathered(m, devs.take(i + 1)) is Err,
    ensures
        gathered(m, devs) == gathered(m, devs.take(i + 1)),
    decreases devs.len() - i,
{
    if i + 1 < devs.len() {
        assert(devs.drop_last().take(i + 1) =~= devs.take(i + 1));
        lemma_gathered_stops(m, devs.drop_last(), i);
    } else {
        assert(devs.take(i + 1) =~= devs);
    }
}

/// Entries `i` and `j` (in that order) spell the board differently but land
/// on one interface.
pub open spec fn collides(r: Seq<Resolved>, i: int, j: int) -> bool {
    &&& 0 <= i < j < r.len()
    &&& r[i].id@ == r[j].id@
    &&& !eq_ignore_case(r[i].written@, r[j].written@)
}

/// `(i, j)` is the first colliding pair, in reading order.
pub open spec fn first_collision(r: Seq<Resolved>, i: int, j: int) -> bool {
    &&& collides(r, i, j)
    &&& forall|a: int, b: int| #[trigger] collides(r, a, b) ==> i < a || (i == a && j <= b)
}

pub open spec fn has_collision(r: Seq<Resolved>) -> bool {
    exists|i: int, j: int| #[trigger] collides(r, i, j)
}

/// The refusal for the first colliding pair.
pub open spec fn collision(r: Seq<Resolved>) -> ResolveError {
    let (i, j) = choose|i: int, j: int| #[trigger] first_collision(r, i, j);
    ResolveError::Collision { first: r[i].alias, second: r[j].alias, id: r[i].id }
}

proof fn lemma_first_collision_unique(r: Seq<Resolved>, i: int, j: int, a: int, b: int)
    requires
        first_collision(r, i, j),
        first_collision(r, a, b),
    ensures
        i == a && j == b,
{
    assert(collides(r, a, b));
    assert(collides(r, i, j));
}

/// Two different spellings on one board is a refusal, not a dedupe; entries
/// that spell the id identically (ASCII case aside) are one board under two
/// names.
pub fn collision_check(resolved: &Vec<Resolved>) -> (r: Result<(), ResolveError>)
    ensures
        r is Ok <==> !has_collision(resolved@),
        r is Err ==> r->Err_0 == collision(resolved@),
{
    let n = resolved.len();
    let mut i: usize = 0;
    while i < n
        invariant
            n == resolved@.len(),
            i <= n,
            forall|a: int, b: int| 0 <= a < i ==> !#[trigger] collides(resolved@, a, b),
        decreases n - i,
    {
        let mut j: usize = i + 1;
        while j < n
            invariant
                n == resolved@.len(),
                i < n,
                i + 1 <= j <= n,
                forall|a: int, b: int| 0 <= a < i ==> !#[trigger] collides(resolved@, a, b),
                forall|b: int| b < j ==> !#[trigger] collides(resolved@, i as int, b),
            decreases n - j,
        {
            let a = &resolved[i];
            let b = &resolved[j];
            if str_eq(a.id.as_str(), b.id.as_str()) && !same_ignoring_case(
                a.written.as_str(),
                b.written.as_str(),
            ) {
                proof {
                    assert(collides(resolved@, i as int, j as int));
                    assert(first_collision(resolved@, i as int, j as int));
                    let (x, y) = choose|x: int, y: int| #[trigger] first_collision(resolved@, x, y);
                    lemma_first_collision_unique(resolved@, i as int, j as int, x, y);
                }
                return Err(
                    ResolveError::Collision {
                        first: a.alias.clone(),
                        second: b.alias.clone(),
                        id: a.id.clone(),
                    },
                );
            }
            j = j + 1;
        }
        i = i + 1;
    }
    Ok(())
}

/// The resolved entries whose interface id differs from their spelling, in order.
pub open spec fn rewrites(r: Seq<Resolved>) -> Seq<Resolved>
    decreases r.len(),
{
    if r.len() == 0 {
        seq![]
    } else {
        let prev = rewrites(r.drop_last());
        if r.last().written@ != r.last().id@ {
            prev.push(r.last())
        } else {
            prev
        }
    }
}

/// The id `id` becomes: the interface of the first rewrite at or after `i`
/// spelled `id`, or `id` itself.
pub open spec fn swap_from(rw: Seq<Resolved>, id: Seq<char>, i: int) -> Seq<char>
    decreases rw.len() - i,
{
    if i < 0 || i >= rw.len() {
        id
    } else if rw[i].written@ == id {
        rw[i].id@
    } else {
        swap_from(rw, id, i + 1)
    }
}

pub open spec fn swapped(rw: Seq<Resolved>, id: Seq<char>) -> Seq<char> {
    swap_from(rw, id, 0)
}

/// `swap_from`, on the strings themselves.
pub open spec fn swap_string_from(rw: Seq<Resolved>, id: String, i: int) -> String
    decreases rw.len() - i,
{
    if i < 0 || i >= rw.len() {
        id
    } else if rw[i].written@ == id@ {
        rw[i].id
    } else {
        swap_string_from(rw, id, i + 1)
    }
}

pub open spec fn swap_opt(rw: Seq<Resolved>, o: Option<String>) -> Option<String> {
    match o {
        Some(s) => Some(swap_string_from(rw, s, 0)),
        None => None,
    }
}

pub open spec fn swap_slot(rw: Seq<Resolved>, s: PlanSlot) -> PlanSlot {
    PlanSlot { keyboard: swap_opt(rw, s.keyboard), mouse: swap_opt(rw, s.mouse), ..s }
}

/// The note for one entry whose spelling resolved to another id.
pub open spec fn info_note(x: Resolved) -> Seq<char> {
    "[INFO] device \""@ + x.alias@ + "\" (id = '"@ + x.written@ + "') resolved to "@ + x.id@
}

/// The plan with every rewritten spelling replaced by its interface, the id
/// lists deduplicated after the swap, and one note per rewrite. With nothing
/// to rewrite the plan is untouched.
pub open spec fn rewritten(m: PlanModel, res: Seq<Resolved>) -> PlanModel {
    let rw = rewrites(res);
    if rw.len() == 0 {
        m
    } else {
        PlanModel {
            slots: m.slots.map_values(|s: PlanSlot| swap_slot(rw, s)),
            block_keyboards: m.block_keyboards,
            captureable: deduped(m.captureable.map_values(|x: Seq<char>| swapped(rw, x))),
            winusb: deduped(m.winusb.map_values(|x: Seq<char>| swapped(rw, x))),
            notes: m.notes + rw.map_values(|x: Resolved| info_note(x)),
        }
    }
}

proof fn lemma_swap_views(rw: Seq<Resolved>, id: String, i: int)
    ensures
        swap_string_from(rw, id, i)@ == swap_from(rw, id@, i),
    decreases rw.len() - i,
{
    if 0 <= i < rw.len() && rw[i].written@ != id@ {
        lemma_swap_views(rw, id, i + 1);
    }
}

fn swap_id(rw: &Vec<Resolved>, id: &String) -> (r: String)
    ensures
        r == swap_string_from(rw@, *id, 0),
        r@ == swapped(rw@, id@),
{
    proof {
        lemma_swap_views(rw@, *id, 0);
    }
    let mut i: usize = 0;
    while i < rw.len()
        invariant
            i <= rw@.len(),
            swap_string_from(rw@, *id, 0) == swap_string_from(rw@, *id, i as int),
            swap_string_from(rw@, *id, 0)@ == swapped(rw@, id@),
        decreases rw.len() - i,
    {
        if str_eq(rw[i].written.as_str(), id.as_str()) {
            return rw[i].id.clone();
        }
        i = i + 1;
    }
    id.clone()
}

fn swap_opt_id(rw: &Vec<Resolved>, id: &Option<String>) -> (r: Option<String>)
    ensures
        r == swap_opt(rw@, *id),
{
    match id {
        Some(s) => Some(swap_id(rw, s)),
        None => None,
    }
}

fn swap_all(rw: &Vec<Resolved>, ids: &Vec<String>) -> (r: Vec<String>)
    ensures
        id_views(r@) == id_views(ids@).map_values(|x: Seq<char>| swapped(rw@, x)),
{
    let mut r: Vec<String> = Vec::new();
    let mut i: usize = 0;
    while i < ids.len()
        invariant
            i <= ids@.len(),
            r@.len() == i,
            forall|k: int| 0 <= k < i ==> #[trigger] r@[k]@ == swapped(rw@, ids@[k]@),
        decreases ids.len() - i,
    {
        let v = swap_id(rw, &ids[i]);
        r.push(v);
        i = i + 1;
    }
    assert(id_views(r@) =~= id_views(ids@).map_values(|x: Seq<char>| swapped(rw@, x)));
    r
}

fn rewrite_resolved(plan: &mut RunPlan, resolved: &Vec<Resolved>)
    ensures
        final(plan)@ == rewritten(old(plan)@, resolved@),
{
    let mut rw: Vec<Resolved> = Vec::new();
    let mut i: usize = 0;
    while i < resolved.len()
        invariant
            i <= resolved@.len(),
            rw@ == rewrites(resolved@.take(i as int)),
        decreases resolved.len() - i,
    {
        assert(resolved@.take(i + 1).drop_last() =~= resolved@.take(i as int));
        let x = &resolved[i];
        if !str_eq(x.written.as_str(), x.id.as_str()) {
            rw.push(Resolved { written: x.written.clone(), alias: x.alias.clone(), id: x.id.clone() });
        }
        i = i + 1;
    }
    assert(resolved@.take(resolved@.len() as int) =~= resolved@);
    if rw.len() == 0 {
        return;
    }
    let ghost m0 = plan@;
    let mut slots: Vec<PlanSlot> = Vec::new();
    let mut k: usize = 0;
    while k < plan.slots.len()
        invariant
            k <= plan.slots@.len(),
            plan@ == m0,
            slots@.len() == k,
            forall|j: int| 0 <= j < k ==> #[trigger] slots@[j] == swap_slot(rw@, plan.slots@[j]),
        decreases plan.slots.len() - k,
    {
        let s = &plan.slots[k];
        let swapped_slot = PlanSlot {
            number: s.number,
            persona: s.persona,
            keyboard: swap_opt_id(&rw, &s.keyboard),
            mouse: swap_opt_id(&rw, &s.mouse),
            preset: s.preset.clone(),
        };
        slots.push(swapped_slot);
        k = k + 1;
    }
    assert(slots@ =~= m0.slots.map_values(|s: PlanSlot| swap_slot(rw@, s)));
    let mut captureable = swap_all(&rw, &plan.captureable);
    dedupe(&mut captureable);
    let mut winusb = swap_all(&rw, &plan.winusb);
    dedupe(&mut winusb);
    plan.slots = slots;
    plan.captureable = captureable;
    plan.winusb = winusb;

    let ghost notes0 = plan.notes@;
    let ghost n0 = notes0.len();
    let mut k: usize = 0;
    while k < rw.len()
        invariant
            k <= rw@.len(),
            n0 == notes0.len(),
            plan.notes@.len() == n0 + k,
            forall|j: int| 0 <= j < n0 ==> #[trigger] plan.notes@[j] == notes0[j],
            forall|j: int| 0 <= j < k ==> #[trigger] plan.notes@[n0 + j]@ == info_note(rw@[j]),
            plan.slots@ == m0.slots.map_values(|s: PlanSlot| swap_slot(rw@, s)),
            id_views(plan.captureable@) == deduped(
                m0.captureable.map_values(|x: Seq<char>| swapped(rw@, x)),
            ),
            id_views(plan.winusb@) == deduped(m0.winusb.map_values(|x: Seq<char>| swapped(rw@, x))),
            plan.block_keyboards == m0.block_keyboards,
            id_views(notes0) == m0.notes,
        decreases rw.len() - k,
    {
        let x = &rw[k];
        let mut note = "[INFO] device \"".to_owned();
        note.append(x.alias.as_str());
        note.append("\" (id = '");
        note.append(x.written.as_str());
        note.append("') resolved to ");
        note.append(x.id.as_str());
        assert(note@ =~= info_note(*x));
        plan.notes.push(note);
        assert(plan.notes@[n0 + k as int]@ == info_note(rw@[k as int]));
        k = k + 1;
    }
    proof {
        assert(id_views(plan.notes@) =~= m0.notes + rw@.map_values(|x: Resolved| info_note(x))) by {
            assert forall|j: int| 0 <= j < plan.notes@.len() implies #[trigger] id_views(plan.notes@)[j]
                == (m0.notes + rw@.map_values(|x: Resolved| info_note(x)))[j] by {
                if j < n0 {
                    assert(plan.notes@[j] == notes0[j]);
                } else {
                    assert(plan.notes@[n0 + (j - n0)]@ == info_note(rw@[j - n0]));
                }
            }
        }
    }
}

/// Does some listed interface of `hits` belong to `cap`?
pub open spec fn hits_captured(cap: Seq<Seq<char>>, hits: Seq<(String, String)>) -> bool {
    exists|k: int| 0 <= k < hits.len() && cap.contains(#[trigger] hits[k].0@)
}

/// The WinUSB list once every `[[device]]` declared on WinUSB has reached the
/// board it names, however a slot spells it: a captured interface one entry
/// names alone is added once; twins of an entry this session captures refuse.
pub open spec fn classified(
    cap: Seq<Seq<char>>,
    win: Seq<Seq<char>>,
    devs: Seq<DeviceResolution>,
) -> Result<Seq<Seq<char>>, DeviceResolution>
    decreases devs.len(),
{
    if devs.len() == 0 {
        Ok(win)
    } else {
        match classified(cap, win, devs.drop_last()) {
            Err(d) => Err(d),
            Ok(w) => {
                let d = devs.last();
                if !(d.spelling.backend is Winusb && d.spelling.needs_matching) {
                    Ok(w)
                } else {
                    match d.answer {
                        Answer::One(id) => if cap.contains(id@) && !w.contains(id@) {
                            Ok(w.push(id@))
                        } else {
                            Ok(w)
                        },
                        Answer::Nothing => Ok(w),
                        Answer::Ambiguous(hits) => if hits_captured(cap, hits@) {
                            Err(d)
                        } else {
                            Ok(w)
                        },
                    }
                }
            },
        }
    }
}

/// The WinUSB list the classification reached: all of it when it went
/// through, and what the entries before the ambiguous one made when it
/// stopped.
pub open spec fn classified_list(
    cap: Seq<Seq<char>>,
    win: Seq<Seq<char>>,
    devs: Seq<DeviceResolution>,
) -> Seq<Seq<char>>
    decreases devs.len(),
{
    if devs.len() == 0 {
        win
    } else {
        match classified(cap, win, devs.drop_last()) {
            Err(_) => classified_list(cap, win, devs.drop_last()),
            Ok(w) => match classified(cap, win, devs) {
                Ok(w2) => w2,
                Err(_) => w,
            },
        }
    }
}

proof fn lemma_classified_list_stops(
    cap: Seq<Seq<char>>,
    win: Seq<Seq<char>>,
    devs: Seq<DeviceResolution>,
    i: int,
)
    requires
        0 <= i < devs.len(),
        classified(cap, win, devs.take(i + 1)) is Err,
    ensures
        classified_list(cap, win, devs) == classified_list(cap, win, devs.take(i + 1)),
    decreases devs.len() - i,
{
    if i + 1 < devs.len() {
        assert(devs.drop_last().take(i + 1) =~= devs.take(i + 1));
        lemma_classified_stops(cap, win, devs.drop_last(), i);
        lemma_classified_list_stops(cap, win, devs.drop_last(), i);
    } else {
        assert(devs.take(i + 1) =~= devs);
    }
}

proof fn lemma_classified_stops(
    cap: Seq<Seq<char>>,
    win: Seq<Seq<char>>,
    devs: Seq<DeviceResolution>,
    i: int,
)
    requires
        0 <= i < devs.len(),
        classified(cap, win, devs.take(i + 1)) is Err,
    ensures
        classified(cap, win, devs) == classified(cap, win, devs.take(i + 1)),
    decreases devs.len() - i,
{
    if i + 1 < devs.len() {
        assert(devs.drop_last().take(i + 1) =~= devs.take(i + 1));
        lemma_classified_stops(cap, win, devs.drop_last(), i);
    } else {
        assert(devs.take(i + 1) =~= devs);
    }
}

fn any_captured(plan: &RunPlan, hits: &Vec<(String, String)>) -> (b: bool)
    ensures
        b == hits_captured(plan@.captureable, hits@),
{
    let mut k: usize = 0;
    while k < hits.len()
        invariant
            k <= hits@.len(),
            forall|j: int| 0 <= j < k ==> !plan@.captureable.contains(#[trigger] hits@[j].0@),
        decreases hits.len() - k,
    {
        if contains_view(&plan.captureable, hits[k].0.as_str()) {
            return true;
        }
        k = k + 1;
    }
    false
}

fn classify_backends(plan: &mut RunPlan, devices: &Vec<DeviceResolution>) -> (r: Result<(), ResolveError>)
    ensures
        match classified(old(plan)@.captureable, old(plan)@.winusb, devices@) {
            Ok(w) => r is Ok && final(plan)@ == (PlanModel { winusb: w, ..old(plan)@ }),
            Err(d) => r is Err && same_error(r->Err_0, ambiguity(d)),
        },
        final(plan)@ == (PlanModel {
            winusb: classified_list(old(plan)@.captureable, old(plan)@.winusb, devices@),
            ..old(plan)@
        }),
{
    let ghost m0 = plan@;
    let mut i: usize = 0;
    while i < devices.len()
        invariant
            i <= devices@.len(),
            plan.slots@ == m0.slots,
            plan.block_keyboards == m0.block_keyboards,
            plan@.captureable == m0.captureable,
            plan@.notes == m0.notes,
            m0 == old(plan)@,
            classified(m0.captureable, m0.winusb, devices@.take(i as int)) == Ok::<
                Seq<Seq<char>>,
                DeviceResolution,
            >(plan@.winusb),
        decreases devices.len() - i,
    {
        assert(devices@.take(i + 1).drop_last() =~= devices@.take(i as int));
        let device = &devices[i];
        let winusb_entry = match device.spelling.backend {
            Backend::Winusb => true,
            Backend::Interception => false,
        };
        if winusb_entry && device.spelling.needs_matching {
            match &device.answer {
                Answer::One(id) => {
                    if contains_view(&plan.captureable, id.as_str()) && !contains_view(
                        &plan.winusb,
                        id.as_str(),
                    ) {
                        let v = id.clone();
                        proof {
                            lemma_id_views_push(plan.winusb@, v);
                        }
                        plan.winusb.push(v);
                    }
                },
                Answer::Nothing => {},
                Answer::Ambiguous(hits) => {
                    if any_captured(plan, hits) {
                        let e = ambiguity_error(device);
                        proof {
                            assert(devices@.take(i + 1).last() == devices@[i as int]);
                            assert(classified(m0.captureable, m0.winusb, devices@.take(i + 1))
                                == Err::<Seq<Seq<char>>, DeviceResolution>(devices@[i as int]));
                            lemma_classified_stops(m0.captureable, m0.winusb, devices@, i as int);
                            lemma_classified_list_stops(m0.captureable, m0.winusb, devices@, i as int);
                            assert(devices@.take(i + 1).drop_last() =~= devices@.take(i as int));
                            assert(plan@ == (PlanModel {
                                winusb: classified_list(m0.captureable, m0.winusb, devices@),
                                ..m0
                            }));
                            assert(classified(m0.captureable, m0.winusb, devices@)
                                == Err::<Seq<Seq<char>>, DeviceResolution>(devices@[i as int]));
                        }
                        return Err(e);
                    }
                },
            }
        }
        i = i + 1;
    }
    assert(devices@.take(devices@.len() as int) =~= devices@);
    Ok(())
}

/// What one resolution pass makes of a plan: refuse on the first ambiguous
/// entry the plan needs, on two spellings landing on one interface, or when
/// the missing boards leave no slot; otherwise drop what is missing, rewrite
/// the rest to their interfaces, and classify the WinUSB boards.
pub open spec fn applied(m: PlanModel, devs: Seq<DeviceResolution>) -> Result<PlanModel, ResolveError> {
    match gathered(m, devs) {
        Err(d) => Err(ambiguity(d)),
        Ok(acc) => {
            if has_collision(acc.0) {
                Err(collision(acc.0))
            } else if acc.1.len() > 0 && kept_slots(m.slots, gone_ids(acc.1)).len() == 0 {
                Err(missing_error(acc.1[0]))
            } else {
                let m1 = if acc.1.len() > 0 {
                    dropped(m, acc.1)
                } else {
                    m
                };
                let m2 = rewritten(m1, acc.0);
                match classified(m2.captureable, m2.winusb, devs) {
                    Ok(w) => Ok(PlanModel { winusb: w, ..m2 }),
                    Err(d) => Err(ambiguity(d)),
                }
            }
        },
    }
}

/// The plan one resolution pass leaves, refused or not: untouched when an
/// entry is ambiguous or two spellings collide; trimmed, with no note, when
/// the missing boards leave no slot; otherwise dropped and rewritten, with as
/// much of the WinUSB classification as was reached.
pub open spec fn applied_plan(m: PlanModel, devs: Seq<DeviceResolution>) -> PlanModel {
    match gathered(m, devs) {
        Err(_) => m,
        Ok(acc) => {
            if has_collision(acc.0) {
                m
            } else if acc.1.len() > 0 && kept_slots(m.slots, gone_ids(acc.1)).len() == 0 {
                trimmed(m, acc.1)
            } else {
                let m1 = if acc.1.len() > 0 {
                    dropped(m, acc.1)
                } else {
                    m
                };
                let m2 = rewritten(m1, acc.0);
                PlanModel { winusb: classified_list(m2.captureable, m2.winusb, devs), ..m2 }
            }
        },
    }
}

/// An entry the plan does not use, and that declares no WinUSB board, is
/// never resolved and cannot change or refuse the run: the pass answers
/// exactly as it would without it.
pub proof fn law_an_unused_entry_cannot_refuse_the_run(m: PlanModel, devs: Seq<DeviceResolution>, d: DeviceResolution)
    requires
        !considered(m, d.spelling),
        !(d.spelling.backend is Winusb && d.spelling.needs_matching),
    ensures
        applied(m, devs.push(d)) == applied(m, devs),
{
    let more = devs.push(d);
    assert(more.drop_last() =~= devs);
    assert(more.last() == d);
    assert(gathered(m, more) == gathered(m, devs));
    assert forall|cap: Seq<Seq<char>>, win: Seq<Seq<char>>| #[trigger] classified(cap, win, more) == classified(
        cap,
        win,
        devs,
    ) by {
        assert(more.drop_last() =~= devs);
    }
}

/// Rewrite every configured spelling in `plan` to the concrete interface that
/// answers to it, given what each `[[device]]` selector matched.
pub fn apply(plan: &mut RunPlan, devices: &Vec<DeviceResolution>) -> (r: Result<(), ResolveError>)
    ensures
        match applied(old(plan)@, devices@) {
            Ok(m) => r is Ok && final(plan)@ == m,
            Err(e) => r is Err && same_error(r->Err_0, e),
        },
        final(plan)@ == applied_plan(old(plan)@, devices@),
{
    let gathered_now = gather(plan, devices);
    let (resolved, missing) = match gathered_now {
        Ok(acc) => acc,
        Err(e) => {
            return Err(e);
        },
    };
    match collision_check(&resolved) {
        Ok(()) => {},
        Err(e) => {
            return Err(e);
        },
    }
    match drop_missing(plan, &missing) {
        Ok(()) => {},
        Err(e) => {
            return Err(e);
        },
    }
    rewrite_resolved(plan, &resolved);
    classify_backends(plan, devices)
}

/// Does this plan name a `[[device]]` whose id has to be matched against
/// hardware at all?
pub open spec fn enumeration_needed(m: PlanModel, devs: Seq<DeviceSpelling>) -> bool {
    exists|k: int|
        0 <= k < devs.len() && (#[trigger] devs[k]).needs_matching && (uses(m, devs[k].written@)
            || devs[k].backend is Winusb)
}

/// Enumeration is needed exactly for selectors that must be matched: an
/// entry that needs matching and is named by the plan — by a slot's
/// keyboard or mouse, in the captured set or in the WinUSB list — makes it
/// needed whatever its backend, and so does a WinUSB entry that needs
/// matching; when no entry needs matching, nothing enumerates.
pub proof fn law_a_used_selector_is_always_resolved(m: PlanModel, devs: Seq<DeviceSpelling>, k: int)
    requires
        0 <= k < devs.len(),
    ensures
        devs[k].needs_matching && (m.captureable.contains(devs[k].written@) || m.winusb.contains(
            devs[k].written@,
        ) || (exists|i: int|
            0 <= i < m.slots.len() && (#[trigger] m.slots[i]).keyboard == Some(devs[k].written)) || (
        exists|i: int| 0 <= i < m.slots.len() && (#[trigger] m.slots[i]).mouse == Some(devs[k].written)))
            ==> enumeration_needed(m, devs),
        devs[k].needs_matching && devs[k].backend is Winusb ==> enumeration_needed(m, devs),
        (forall|j: int| 0 <= j < devs.len() ==> !(#[trigger] devs[j]).needs_matching) ==> !enumeration_needed(
            m,
            devs,
        ),
{
    if devs[k].needs_matching {
        if exists|i: int| 0 <= i < m.slots.len() && (#[trigger] m.slots[i]).keyboard == Some(devs[k].written) {
            let i = choose|i: int| 0 <= i < m.slots.len() && (#[trigger] m.slots[i]).keyboard == Some(devs[k].written);
            assert(m.slots[i].keyboard->0@ == devs[k].written@);
            assert(uses(m, devs[k].written@));
        }
        if exists|i: int| 0 <= i < m.slots.len() && (#[trigger] m.slots[i]).mouse == Some(devs[k].written) {
            let i = choose|i: int| 0 <= i < m.slots.len() && (#[trigger] m.slots[i]).mouse == Some(devs[k].written);
            assert(m.slots[i].mouse->0@ == devs[k].written@);
            assert(uses(m, devs[k].written@));
        }
    }
}

/// An Interception-only configuration answers `false`, and then nothing
/// enumerates.
pub fn needs_enumeration(plan: &RunPlan, devices: &Vec<DeviceSpelling>) -> (b: bool)
    ensures
        b == enumeration_needed(plan@, devices@),
{
    let mut k: usize = 0;
    while k < devices.len()
        invariant
            k <= devices@.len(),
            forall|j: int|
                0 <= j < k ==> !((#[trigger] devices@[j]).needs_matching && (uses(
                    plan@,
                    devices@[j].written@,
                ) || devices@[j].backend is Winusb)),
        decreases devices.len() - k,
    {
        let d = &devices[k];
        if d.needs_matching {
            let winusb_entry = match d.backend {
                Backend::Winusb => true,
                Backend::Interception => false,
            };
            if winusb_entry || plan_uses(plan, d.written.as_str()) {
                return true;
            }
        }
        k = k + 1;
    }
    false
}

/// One `  {id}` / `      id = '{pinned}'` pair of lines per candidate.
pub open spec fn candidate_lines(c: Seq<(String, String)>) -> Seq<char>
    decreases c.len(),
{
    if c.len() == 0 {
        seq![]
    } else {
        candidate_lines(c.drop_last()) + "  "@ + c.last().0@ + "\n      id = '"@ + c.last().1@ + "'\n"@
    }
}

/// The sentence a refusal is read as.
pub open spec fn refusal_text(e: ResolveError) -> Seq<char> {
    match e {
        ResolveError::Missing { alias, written, replug_proof } => "device \""@ + alias@ + "\" (id = '"@
            + written@ + "') is not connected: no USB interface answers to it"@ + if replug_proof {
            ". The board is unplugged, or its interface is not enumerable — `ksx devices` lists what is actually there"@
        } else {
            ". Either the board is unplugged, or it moved: a full instance path is port-derived only for boards that report no USB serial (boards that do keep the same path across sockets). `ksx devices` prints the id it has now, and the `usb:` selector that names the board either way (docs/DEVICE-IDENTITY.md §1)"@
        },
        ResolveError::Ambiguous { alias, written, candidates } => "device \""@ + alias@ + "\" (id = '"@
            + written@ + "') matches "@ + decimal(candidates@.len())
            + " connected interfaces, so ksx cannot tell which board you mean — and will not guess:\n"@
            + candidate_lines(candidates@)
            + "Put one of those ids in the [[device]] entry. A `port=` selector pins the board to that socket: it tells your two boards apart, and it stops working if you move one"@,
        ResolveError::Collision { first, second, id } => "devices \""@ + first@ + "\" and \""@ + second@
            + "\" both resolve to the same interface "@ + id@
            + ". One physical board cannot be two configured devices: whichever slots they feed, ksx would claim that one interface twice. Point one of them at the other board, or delete it"@,
    }
}

impl ResolveError {
    /// The refusal, as the command prints it.
    pub fn message(&self) -> (text: String)
        ensures
            text@ == refusal_text(*self),
    {
        match self {
            ResolveError::Missing { alias, written, replug_proof } => {
                let mut s = "device \"".to_owned();
                s.append(alias.as_str());
                s.append("\" (id = '");
                s.append(written.as_str());
                s.append("') is not connected: no USB interface answers to it");
                if *replug_proof {
                    s.append(". The board is unplugged, or its interface is not enumerable — `ksx devices` lists what is actually there");
                } else {
                    s.append(". Either the board is unplugged, or it moved: a full instance path is port-derived only for boards that report no USB serial (boards that do keep the same path across sockets). `ksx devices` prints the id it has now, and the `usb:` selector that names the board either way (docs/DEVICE-IDENTITY.md §1)");
                }
                s
            },
            ResolveError::Ambiguous { alias, written, candidates } => {
                let mut s = "device \"".to_owned();
                s.append(alias.as_str());
                s.append("\" (id = '");
                s.append(written.as_str());
                s.append("') matches ");
                push_decimal(&mut s, candidates.len() as u64);
                s.append(" connected interfaces, so ksx cannot tell which board you mean — and will not guess:\n");
                let ghost head = s@;
                let mut i: usize = 0;
                while i < candidates.len()
                    invariant
                        i <= candidates@.len(),
                        s@ == head + candidate_lines(candidates@.take(i as int)),
                    decreases candidates.len() - i,
                {
                    assert(candidates@.take(i + 1).drop_last() =~= candidates@.take(i as int));
                    s.append("  ");
                    s.append(candidates[i].0.as_str());
                    s.append("\n      id = '");
                    s.append(candidates[i].1.as_str());
                    s.append("'\n");
                    assert(s@ =~= head + candidate_lines(candidates@.take(i + 1)));
                    i = i + 1;
                }
                assert(candidates@.take(candidates@.len() as int) =~= candidates@);
                s.append("Put one of those ids in the [[device]] entry. A `port=` selector pins the board to that socket: it tells your two boards apart, and it stops working if you move one");
                assert(s@ =~= refusal_text(*self));
                s
            },
            ResolveError::Collision { first, second, id } => {
                let mut s = "devices \"".to_owned();
                s.append(first.as_str());
                s.append("\" and \"");
                s.append(second.as_str());
                s.append("\" both resolve to the same interface ");
                s.append(id.as_str());
                s.append(". One physical board cannot be two configured devices: whichever slots they feed, ksx would claim that one interface twice. Point one of them at the other board, or delete it");
                s
            },
        }
    }
}

} // verus!
