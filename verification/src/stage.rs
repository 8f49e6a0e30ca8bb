//! What saving a staged setup landed on disk, and the one line a surface
//! prints about it.

use vstd::prelude::*;

use crate::config::{DeviceEntry, SlotEntry};
use crate::resolve::Blocking;
use crate::slots::{find_slot, slot_index, sort_by_number, sorted_by_number};
use crate::paths::{display_path, displayed};
use crate::text::{decimal, eq_ignore_case, push_decimal, same_ignoring_case};
use crate::winusb::{Refusal, RefusalCode};

verus! {

/// What a save landed on disk.
#[derive(Debug, PartialEq, Eq)]
pub struct Committed {
    pub config: std::path::PathBuf,
    /// The timestamped copy taken before the config write; `None` when there
    /// was no config file yet.
    pub backup: Option<std::path::PathBuf>,
    /// The preset files written, in slot order (deduplicated).
    pub presets: Vec<std::path::PathBuf>,
    /// The timestamped copies taken of preset files that already existed.
    pub preset_backups: Vec<std::path::PathBuf>,
    /// The `[[device]]` alias every saved slot now names.
    pub alias: String,
    pub slots: Vec<u8>,
}

/// The line for `slots` controllers saved on `alias` to a config file that
/// displays as `config`, with `replaced` presets overwritten.
pub open spec fn committed_text(slots: nat, alias: Seq<char>, config: Seq<char>, replaced: nat) -> Seq<char> {
    "saved "@ + decimal(slots) + " controller(s) on \""@ + alias + "\" to "@ + config
        + " — nothing was claimed and no pad was plugged; Play starts them"@ + if replaced == 0 {
        seq![]
    } else {
        ". "@ + decimal(replaced)
            + " preset(s) of the same name were already there and have been REPLACED — a timestamped copy of each was kept, and the mapper's \"Restore backup\" puts one back"@
    }
}

impl Committed {
    /// The one line a surface prints. It never says "claimed" or "plugged",
    /// because saving does neither, and it says when an existing preset was
    /// replaced in the same sentence as the success.
    pub fn message(&self) -> (line: String)
        ensures
            line@ == committed_text(
                self.slots@.len(),
                self.alias@,
                displayed(self.config),
                self.preset_backups@.len(),
            ),
    {
        let shown = display_path(&self.config);
        let mut s = "saved ".to_owned();
        push_decimal(&mut s, self.slots.len() as u64);
        s.append(" controller(s) on \"");
        s.append(self.alias.as_str());
        s.append("\" to ");
        s.append(shown.as_str());
        s.append(" — nothing was claimed and no pad was plugged; Play starts them");
        let n = self.preset_backups.len();
        if n > 0 {
            s.append(". ");
            push_decimal(&mut s, n as u64);
            s.append(" preset(s) of the same name were already there and have been REPLACED — a timestamped copy of each was kept, and the mapper's \"Restore backup\" puts one back");
        }
        assert(committed_text(self.slots@.len(), self.alias@, shown@, self.preset_backups@.len()) =~= s@);
        s
    }
}

/// One slot of the setup being adopted: its number and the keyboard id it
/// names, if any.
#[derive(Clone, Debug, PartialEq, Eq)]
pub struct AdoptSlot {
    pub number: u8,
    pub keyboard: Option<String>,
}

/// The first `[[device]]` entry whose id spells `id` (ASCII case aside).
pub open spec fn entry_index(devices: Seq<DeviceEntry>, id: Seq<char>, k: int) -> Option<int>
    decreases devices.len() - k,
{
    if k < 0 || k >= devices.len() {
        None
    } else if eq_ignore_case(devices[k].id@, id) {
        Some(k)
    } else {
        entry_index(devices, id, k + 1)
    }
}

/// How the scan for the draft's one keyboard went.
#[derive(Clone, Copy, Debug, PartialEq, Eq, Structural)]
pub enum AdoptScan {
    /// Every slot that names a keyboard names this entry (or none names one).
    Chosen(Option<usize>),
    /// This slot names a keyboard no entry describes.
    UnknownKeyboard(u8),
    /// Two slots name these two different entries.
    TwoKeyboards(usize, usize),
}

/// The slots, in order, against the `[[device]]` table: the first slot whose
/// keyboard no entry describes, or the first that names a second entry,
/// stops the scan.
pub open spec fn adopt_scan(slots: Seq<AdoptSlot>, devices: Seq<DeviceEntry>) -> AdoptScan
    decreases slots.len(),
{
    if slots.len() == 0 {
        AdoptScan::Chosen(None)
    } else {
        match adopt_scan(slots.drop_last(), devices) {
            AdoptScan::Chosen(chosen) => {
                let s = slots.last();
                match s.keyboard {
                    None => AdoptScan::Chosen(chosen),
                    Some(k) => match entry_index(devices, k@, 0) {
                        None => AdoptScan::UnknownKeyboard(s.number),
                        Some(e) => match chosen {
                            None => AdoptScan::Chosen(Some(e as usize)),
                            Some(c) => if c == e {
                                AdoptScan::Chosen(chosen)
                            } else {
                                AdoptScan::TwoKeyboards(c, e as usize)
                            },
                        },
                    },
                }
            },
            stop => stop,
        }
    }
}

pub open spec fn refused(r: Refusal, message: Seq<char>, remedy: Seq<char>) -> bool {
    r.code == RefusalCode::Refused && r.message@ == message && r.remedy is Some && r.remedy->0@
        == remedy
}

/// The one `[[device]]` entry a draft adopted from `origin` holds, or the
/// refusal: a draft holds exactly one keyboard, and every slot must name it
/// through an entry (which is what carries its durable selector). A setup
/// whose slots name no keyboard adopts the config's only entry, if it has
/// exactly one.
pub fn adopt_device(origin: &str, slots: &Vec<AdoptSlot>, devices: &Vec<DeviceEntry>) -> (r: Result<
    usize,
    Refusal,
>)
    ensures
        slots@.len() == 0 ==> r is Err && refused(
            r->Err_0,
            origin@ + " has no slots to adopt — there is nothing saved to show yet"@,
            "set a keyboard and a controller up first; Save is what creates the slots"@,
        ),
        slots@.len() > 0 ==> match adopt_scan(slots@, devices@) {
            AdoptScan::UnknownKeyboard(n) => r is Err && refused(
                r->Err_0,
                "slot "@ + decimal(n as nat)
                    + " names a keyboard no [[device]] entry describes, so there is no durable identity to adopt"@,
                "re-pick the keyboard (Setup, or `ksx device pick`) so it gains an entry, then adopt again"@,
            ),
            AdoptScan::TwoKeyboards(a, b) => r is Err && refused(
                r->Err_0,
                origin@ + " uses more than one keyboard (\""@ + devices@[a as int].alias@ + "\" and \""@
                    + devices@[b as int].alias@ + "\"), and a draft holds exactly one"@,
                "edit that setup in Setup or with `ksx slot assign`; the draft screen adopts single-keyboard setups"@,
            ),
            AdoptScan::Chosen(Some(k)) => r == Ok::<usize, Refusal>(k),
            AdoptScan::Chosen(None) => if devices@.len() == 1 {
                r == Ok::<usize, Refusal>(0)
            } else if devices@.len() == 0 {
                r is Err && refused(
                    r->Err_0,
                    origin@ + " names no keyboard at all"@,
                    "pick one in Setup (or `ksx device pick`), then adopt again"@,
                )
            } else {
                r is Err && refused(
                    r->Err_0,
                    origin@
                        + "'s slots name no keyboard and config.toml describes several, so ksx cannot guess which one the draft should hold"@,
                    "assign the slots a keyboard (`ksx slot assign`), then adopt again"@,
                )
            },
        },
{
    if slots.len() == 0 {
        let mut message = origin.to_owned();
        message.append(" has no slots to adopt — there is nothing saved to show yet");
        return Err(
            Refusal {
                code: RefusalCode::Refused,
                message,
                remedy: Some("set a keyboard and a controller up first; Save is what creates the slots".to_owned()),
            },
        );
    }
    let mut chosen: Option<usize> = None;
    let mut i: usize = 0;
    while i < slots.len()
        invariant
            i <= slots@.len(),
            adopt_scan(slots@.take(i as int), devices@) == AdoptScan::Chosen(chosen),
            chosen matches Some(c) ==> c < devices@.len(),
        decreases slots.len() - i,
    {
        assert(slots@.take(i + 1).drop_last() =~= slots@.take(i as int));
        let slot = &slots[i];
        match &slot.keyboard {
            None => {},
            Some(keyboard) => {
                let mut e: usize = 0;
                while e < devices.len() && !same_ignoring_case(devices[e].id.as_str(), keyboard.as_str())
                    invariant
                        e <= devices@.len(),
                        entry_index(devices@, keyboard@, 0) == entry_index(devices@, keyboard@, e as int),
                    decreases devices.len() - e,
                {
                    e = e + 1;
                }
                if e == devices.len() {
                    proof {
                        lemma_adopt_scan_stops(slots@, devices@, i as int);
                    }
                    let mut message = "slot ".to_owned();
                    push_decimal(&mut message, slot.number as u64);
                    message.append(" names a keyboard no [[device]] entry describes, so there is no durable identity to adopt");
                    return Err(
                        Refusal {
                            code: RefusalCode::Refused,
                            message,
                            remedy: Some("re-pick the keyboard (Setup, or `ksx device pick`) so it gains an entry, then adopt again".to_owned()),
                        },
                    );
                }
                match chosen {
                    None => {
                        chosen = Some(e);
                    },
                    Some(c) => {
                        if c != e {
                            proof {
                                lemma_adopt_scan_stops(slots@, devices@, i as int);
                            }
                            let mut message = origin.to_owned();
                            message.append(" uses more than one keyboard (\"");
                            message.append(devices[c].alias.as_str());
                            message.append("\" and \"");
                            message.append(devices[e].alias.as_str());
                            message.append("\"), and a draft holds exactly one");
                            return Err(
                                Refusal {
                                    code: RefusalCode::Refused,
                                    message,
                                    remedy: Some("edit that setup in Setup or with `ksx slot assign`; the draft screen adopts single-keyboard setups".to_owned()),
                                },
                            );
                        }
                    },
                }
            },
        }
        i = i + 1;
    }
    assert(slots@.take(slots@.len() as int) =~= slots@);
    match chosen {
        Some(k) => Ok(k),
        None => {
            if devices.len() == 1 {
                Ok(0)
            } else if devices.len() == 0 {
                let mut message = origin.to_owned();
                message.append(" names no keyboard at all");
                Err(
                    Refusal {
                        code: RefusalCode::Refused,
                        message,
                        remedy: Some("pick one in Setup (or `ksx device pick`), then adopt again".to_owned()),
                    },
                )
            } else {
                let mut message = origin.to_owned();
                message.append("'s slots name no keyboard and config.toml describes several, so ksx cannot guess which one the draft should hold");
                Err(
                    Refusal {
                        code: RefusalCode::Refused,
                        message,
                        remedy: Some("assign the slots a keyboard (`ksx slot assign`), then adopt again".to_owned()),
                    },
                )
            }
        },
    }
}

/// Once the scan stops at a slot, that is the answer for the whole list.
proof fn lemma_adopt_scan_stops(slots: Seq<AdoptSlot>, devices: Seq<DeviceEntry>, i: int)
    requires
        0 <= i < slots.len(),
        !(adopt_scan(slots.take(i + 1), devices) is Chosen),
    ensures
        adopt_scan(slots, devices) == adopt_scan(slots.take(i + 1), devices),
    decreases slots.len() - i,
{
    if i + 1 < slots.len() {
        assert(slots.drop_last().take(i + 1) =~= slots.take(i + 1));
        lemma_adopt_scan_stops(slots.drop_last(), devices, i);
    } else {
        assert(slots.take(i + 1) =~= slots);
    }
}

/// The `[[device]]` table once the staged device is laid over it: the entry
/// with its alias (ASCII case aside) gets the staged id and backend; with no
/// such entry, the staged one is added at the end.
pub open spec fn devices_with(devices: Seq<DeviceEntry>, staged: DeviceEntry) -> Seq<DeviceEntry> {
    if exists|k: int| 0 <= k < devices.len() && eq_ignore_case(#[trigger] devices[k].alias@, staged.alias@) {
        let k = choose|k: int|
            0 <= k < devices.len() && eq_ignore_case(#[trigger] devices[k].alias@, staged.alias@)
                && forall|j: int| 0 <= j < k ==> !eq_ignore_case(#[trigger] devices[j].alias@, staged.alias@);
        devices.update(k, DeviceEntry { id: staged.id, backend: staged.backend, ..devices[k] })
    } else {
        devices.push(staged)
    }
}

/// The first entry whose id spells `id` is entry `k`, when `k` spells it and
/// no entry from `m` on before it does.
proof fn lemma_entry_index_is(devices: Seq<DeviceEntry>, id: Seq<char>, m: int, k: int)
    requires
        0 <= m <= k < devices.len(),
        eq_ignore_case(devices[k].id@, id),
        forall|j: int| m <= j < k ==> !eq_ignore_case(#[trigger] devices[j].id@, id),
    ensures
        entry_index(devices, id, m) == Some(k),
    decreases k - m,
{
    if m < k {
        lemma_entry_index_is(devices, id, m + 1, k);
    }
}

/// Slots that all name `id` scan to the entry `k` that `id` first spells.
proof fn lemma_scan_of_one_keyboard(slots: Seq<AdoptSlot>, devices: Seq<DeviceEntry>, id: Seq<char>, k: int)
    requires
        slots.len() > 0,
        forall|i: int| 0 <= i < slots.len() ==> (#[trigger] slots[i].keyboard) is Some && slots[i].keyboard->0@
            == id,
        entry_index(devices, id, 0) == Some(k),
        0 <= k <= usize::MAX,
    ensures
        adopt_scan(slots, devices) == AdoptScan::Chosen(Some(k as usize)),
    decreases slots.len(),
{
    if slots.len() > 1 {
        let init = slots.drop_last();
        assert forall|i: int| 0 <= i < init.len() implies (#[trigger] init[i].keyboard) is Some
            && init[i].keyboard->0@ == id by {
            assert(init[i] == slots[i]);
        }
        lemma_scan_of_one_keyboard(init, devices, id, k);
    } else {
        assert(adopt_scan(slots.drop_last(), devices) == AdoptScan::Chosen(None));
    }
    let last = slots[slots.len() - 1];
    assert(last.keyboard is Some && last.keyboard->0@ == id);
    assert(((k as usize) as int) == k);
}

/// Where the staged device lands in the table it is laid over: an entry with
/// the staged id, backend and alias (ASCII case aside), before which no entry
/// spells the staged id, when no entry spells it under another alias.
proof fn lemma_staged_entry(devices: Seq<DeviceEntry>, staged: DeviceEntry) -> (k: int)
    requires
        forall|j: int|
            0 <= j < devices.len() && eq_ignore_case(#[trigger] devices[j].id@, staged.id@) ==> eq_ignore_case(
                devices[j].alias@,
                staged.alias@,
            ),
    ensures
        0 <= k < devices_with(devices, staged).len(),
        k <= devices.len(),
        devices_with(devices, staged)[k].id == staged.id,
        devices_with(devices, staged)[k].backend == staged.backend,
        eq_ignore_case(devices_with(devices, staged)[k].alias@, staged.alias@),
        forall|j: int| 0 <= j < k ==> !eq_ignore_case(#[trigger] devices_with(devices, staged)[j].id@, staged.id@),
{
    let saved = devices_with(devices, staged);
    if exists|c: int| 0 <= c < devices.len() && eq_ignore_case(#[trigger] devices[c].alias@, staged.alias@) {
        lemma_first_alias(devices, staged.alias@);
        let k = choose|c: int|
            0 <= c < devices.len() && eq_ignore_case(#[trigger] devices[c].alias@, staged.alias@)
                && forall|j: int| 0 <= j < c ==> !eq_ignore_case(#[trigger] devices[j].alias@, staged.alias@);
        assert forall|j: int| 0 <= j < k implies !eq_ignore_case(#[trigger] saved[j].id@, staged.id@) by {
            assert(saved[j] == devices[j]);
            assert(!eq_ignore_case(devices[j].alias@, staged.alias@));
        }
        k
    } else {
        let k = devices.len() as int;
        assert forall|j: int| 0 <= j < k implies !eq_ignore_case(#[trigger] saved[j].id@, staged.id@) by {
            assert(saved[j] == devices[j]);
            assert(!eq_ignore_case(devices[j].alias@, staged.alias@));
        }
        k
    }
}

/// What is saved is what adopts back: once the staged device is laid over
/// the `[[device]]` table, slots that all name its id adopt exactly that
/// entry, with the staged id and backend, provided no other entry of the
/// table already spells the same board under another alias.
pub proof fn law_what_is_saved_adopts_back(devices: Seq<DeviceEntry>, staged: DeviceEntry, slots: Seq<AdoptSlot>)
    requires
        devices.len() < usize::MAX,
        slots.len() > 0,
        forall|i: int| 0 <= i < slots.len() ==> (#[trigger] slots[i].keyboard) is Some && slots[i].keyboard->0@
            == staged.id@,
        forall|j: int|
            0 <= j < devices.len() && eq_ignore_case(#[trigger] devices[j].id@, staged.id@) ==> eq_ignore_case(
                devices[j].alias@,
                staged.alias@,
            ),
    ensures
        ({
            let saved = devices_with(devices, staged);
            &&& adopt_scan(slots, saved) matches AdoptScan::Chosen(Some(k))
            &&& k < saved.len()
            &&& saved[k as int].id == staged.id
            &&& saved[k as int].backend == staged.backend
            &&& eq_ignore_case(saved[k as int].alias@, staged.alias@)
        }),
{
    let saved = devices_with(devices, staged);
    let k = lemma_staged_entry(devices, staged);
    lemma_entry_index_is(saved, staged.id@, 0, k);
    lemma_scan_of_one_keyboard(slots, saved, staged.id@, k);
    assert((k as usize) as int == k);
}

/// When some entry carries `alias`, a first such entry exists.
proof fn lemma_first_alias(devices: Seq<DeviceEntry>, alias: Seq<char>)
    requires
        exists|c: int| 0 <= c < devices.len() && eq_ignore_case(#[trigger] devices[c].alias@, alias),
    ensures
        exists|c: int|
            0 <= c < devices.len() && eq_ignore_case(#[trigger] devices[c].alias@, alias) && forall|j: int|
                0 <= j < c ==> !eq_ignore_case(#[trigger] devices[j].alias@, alias),
    decreases devices.len(),
{
    let last = devices.len() - 1;
    let init = devices.drop_last();
    if exists|c: int| 0 <= c < init.len() && eq_ignore_case(#[trigger] init[c].alias@, alias) {
        lemma_first_alias(init, alias);
        let c = choose|c: int|
            0 <= c < init.len() && eq_ignore_case(#[trigger] init[c].alias@, alias) && forall|j: int|
                0 <= j < c ==> !eq_ignore_case(#[trigger] init[j].alias@, alias);
        assert(devices[c] == init[c]);
        assert forall|j: int| 0 <= j < c implies !eq_ignore_case(#[trigger] devices[j].alias@, alias) by {
            assert(devices[j] == init[j]);
        }
    } else {
        let w = choose|c: int| 0 <= c < devices.len() && eq_ignore_case(#[trigger] devices[c].alias@, alias);
        assert forall|j: int| 0 <= j < w implies !eq_ignore_case(#[trigger] devices[j].alias@, alias) by {
            if j < last {
                assert(devices[j] == init[j]);
            }
        }
    }
}

/// The saved configuration a staged setup means, as far as its tables go.
#[derive(Clone, Debug, PartialEq, Eq)]
pub struct StagedConfig {
    pub devices: Vec<DeviceEntry>,
    pub slots: Vec<SlotEntry>,
    pub block_keyboards: Blocking,
}

fn copy_device(d: &DeviceEntry) -> (r: DeviceEntry)
    ensures
        r == *d,
{
    DeviceEntry { id: d.id.clone(), alias: d.alias.clone(), backend: d.backend }
}

fn copy_devices(devices: &Vec<DeviceEntry>) -> (d: Vec<DeviceEntry>)
    ensures
        d@ == devices@,
{
    let mut d: Vec<DeviceEntry> = Vec::new();
    let mut k: usize = 0;
    while k < devices.len()
        invariant
            k <= devices@.len(),
            d@ == devices@.take(k as int),
        decreases devices.len() - k,
    {
        d.push(copy_device(&devices[k]));
        assert(d@ =~= devices@.take(k + 1));
        k = k + 1;
    }
    assert(devices@.take(devices@.len() as int) =~= devices@);
    d
}

/// Lay the staged device over the `[[device]]` table, by alias.
pub fn upsert_staged_device(devices: &mut Vec<DeviceEntry>, staged: &DeviceEntry)
    ensures
        final(devices)@ == devices_with(old(devices)@, *staged),
{
    let mut k: usize = 0;
    while k < devices.len() && !same_ignoring_case(devices[k].alias.as_str(), staged.alias.as_str())
        invariant
            k <= devices@.len(),
            *devices == *old(devices),
            forall|j: int| 0 <= j < k ==> !eq_ignore_case(#[trigger] devices@[j].alias@, staged.alias@),
        decreases devices.len() - k,
    {
        k = k + 1;
    }
    if k < devices.len() {
        proof {
            let c = choose|c: int|
                0 <= c < devices@.len() && eq_ignore_case(#[trigger] devices@[c].alias@, staged.alias@)
                    && forall|j: int| 0 <= j < c ==> !eq_ignore_case(#[trigger] devices@[j].alias@, staged.alias@);
            assert(eq_ignore_case(devices@[k as int].alias@, staged.alias@));
            if c < k {
                assert(!eq_ignore_case(devices@[c].alias@, staged.alias@));
            }
            if c > k {
                assert(!eq_ignore_case(devices@[k as int].alias@, staged.alias@));
            }
        }
        let updated = DeviceEntry {
            id: staged.id.clone(),
            alias: devices[k].alias.clone(),
            backend: staged.backend,
        };
        devices.set(k, updated);
    } else {
        devices.push(copy_device(staged));
    }
}

/// The `[[slot]]` table with each staged slot laid over it in turn: a staged
/// slot replaces the first entry of its number, or joins the table.
pub open spec fn laid_over(slots: Seq<SlotEntry>, staged: Seq<SlotEntry>) -> Seq<SlotEntry>
    decreases staged.len(),
{
    if staged.len() == 0 {
        slots
    } else {
        let prev = laid_over(slots, staged.drop_last());
        let e = staged.last();
        match slot_index(prev, e.number) {
            Some(k) => prev.update(k, e),
            None => prev.push(e),
        }
    }
}

/// No staged slot has number `n`.
pub open spec fn unstaged(staged: Seq<SlotEntry>, n: u8) -> bool {
    forall|j: int| 0 <= j < staged.len() ==> (#[trigger] staged[j]).number != n
}

/// No later staged slot has the number of the `j`-th.
pub open spec fn last_of_its_number(staged: Seq<SlotEntry>, j: int) -> bool {
    forall|m: int| j < m < staged.len() ==> (#[trigger] staged[m]).number != staged[j].number
}

proof fn lemma_untouched_slot(slots: Seq<SlotEntry>, staged: Seq<SlotEntry>, i: int)
    requires
        0 <= i < slots.len(),
        unstaged(staged, slots[i].number),
    ensures
        laid_over(slots, staged).len() >= slots.len(),
        laid_over(slots, staged)[i] == slots[i],
    decreases staged.len(),
{
    if staged.len() > 0 {
        let init = staged.drop_last();
        let e = staged.last();
        assert forall|j: int| 0 <= j < init.len() implies (#[trigger] init[j]).number != slots[i].number by {
            assert(init[j] == staged[j]);
        }
        lemma_untouched_slot(slots, init, i);
        let prev = laid_over(slots, init);
        crate::wiring::lemma_slot_index(prev, e.number);
        assert(staged[staged.len() - 1].number != slots[i].number);
    }
}

proof fn lemma_staged_slot_kept(slots: Seq<SlotEntry>, staged: Seq<SlotEntry>, j: int)
    requires
        0 <= j < staged.len(),
        last_of_its_number(staged, j),
    ensures
        laid_over(slots, staged).contains(staged[j]),
    decreases staged.len(),
{
    let init = staged.drop_last();
    let e = staged.last();
    let prev = laid_over(slots, init);
    let now = laid_over(slots, staged);
    crate::wiring::lemma_slot_index(prev, e.number);
    if j == staged.len() - 1 {
        match slot_index(prev, e.number) {
            Some(k) => {
                assert(now[k] == e);
            },
            None => {
                assert(now[prev.len() as int] == e);
            },
        }
    } else {
        assert(init[j] == staged[j]);
        assert forall|m: int| j < m < init.len() implies (#[trigger] init[m]).number != init[j].number by {
            assert(init[m] == staged[m]);
        }
        lemma_staged_slot_kept(slots, init, j);
        let p = choose|p: int| 0 <= p < prev.len() && prev[p] == init[j];
        assert(staged[staged.len() - 1].number != staged[j].number);
        assert(now[p] == staged[j]);
    }
}

/// Saving replaces only the staged slots: a saved slot whose number the
/// stage never mentions keeps its place and its contents, and each staged
/// slot that is the last of its number in the stage is in the table.
pub proof fn law_saving_replaces_only_the_staged_slots(slots: Seq<SlotEntry>, staged: Seq<SlotEntry>)
    ensures
        forall|i: int|
            #![trigger slots[i]]
            0 <= i < slots.len() && unstaged(staged, slots[i].number) ==> (i < laid_over(slots, staged).len()
                && laid_over(slots, staged)[i] == slots[i]),
        forall|j: int|
            0 <= j < staged.len() && last_of_its_number(staged, j) ==> laid_over(slots, staged).contains(
                #[trigger] staged[j],
            ),
{
    assert forall|i: int|
        #![trigger slots[i]]
        0 <= i < slots.len() && unstaged(staged, slots[i].number) implies (i < laid_over(slots, staged).len()
            && laid_over(slots, staged)[i] == slots[i]) by {
        lemma_untouched_slot(slots, staged, i);
    }
    assert forall|j: int| 0 <= j < staged.len() && last_of_its_number(staged, j) implies laid_over(
        slots,
        staged,
    ).contains(#[trigger] staged[j]) by {
        lemma_staged_slot_kept(slots, staged, j);
    }
}

/// Lay the staged slots over the `[[slot]]` table; a slot the stage does not
/// mention is untouched, and the table ends in slot order.
pub fn replace_staged_slots(slots: &mut Vec<SlotEntry>, staged: &Vec<SlotEntry>)
    ensures
        final(slots)@.to_multiset() == laid_over(old(slots)@, staged@).to_multiset(),
        sorted_by_number(final(slots)@),
{
    let mut i: usize = 0;
    while i < staged.len()
        invariant
            i <= staged@.len(),
            slots@ == laid_over(old(slots)@, staged@.take(i as int)),
        decreases staged.len() - i,
    {
        assert(staged@.take(i + 1).drop_last() =~= staged@.take(i as int));
        let entry = staged[i].duplicate();
        match find_slot(slots, entry.number) {
            Some(k) => {
                proof {
                    assert(slot_index(slots@, entry.number) == Some(k as int));
                }
                slots.set(k, entry);
            },
            None => {
                proof {
                    assert(slot_index(slots@, entry.number) is None);
                }
                slots.push(entry);
            },
        }
        i = i + 1;
    }
    assert(staged@.take(staged@.len() as int) =~= staged@);
    sort_by_number(slots);
}

/// The tables a staged setup means, laid over what is saved: the staged
/// device upserted by alias, the staged slots laid over the saved ones, and
/// the staged blocking answer.
pub fn to_config(
    devices: &Vec<DeviceEntry>,
    slots: &Vec<SlotEntry>,
    staged_device: &DeviceEntry,
    staged_slots: &Vec<SlotEntry>,
    blocking: Blocking,
) -> (c: StagedConfig)
    ensures
        c.devices@ == devices_with(devices@, *staged_device),
        c.slots@.to_multiset() == laid_over(slots@, staged_slots@).to_multiset(),
        sorted_by_number(c.slots@),
        c.block_keyboards == blocking,
{
    let mut d = copy_devices(devices);
    upsert_staged_device(&mut d, staged_device);
    let mut s = crate::config::copy_slots(slots);
    replace_staged_slots(&mut s, staged_slots);
    StagedConfig { devices: d, slots: s, block_keyboards: blocking }
}


/// Which saved game `wanted` names: the first whose title spells it, ASCII
/// case aside, once surrounding whitespace is trimmed from it; otherwise the
/// refusal that says no saved game is called that, and where the exact
/// titles are shown.
pub fn find_saved_game(titles: &Vec<String>, wanted: &str) -> (r: Result<usize, Refusal>)
    ensures
        match crate::slots::preset_match(titles@, crate::studio_launch::trim(wanted@)) {
            Some(i) => r == Ok::<usize, Refusal>(i as usize),
            None => r is Err && r->Err_0.code == RefusalCode::Refused && r->Err_0.message@
                == "no saved game is called \""@ + crate::studio_launch::trim(wanted@) + "\""@
                && r->Err_0.remedy is Some && r->Err_0.remedy->0@
                == "the exact titles are the ones `ksx run --game` and the game list show"@,
        },
{
    let title = crate::studio_launch::trim_text(wanted);
    match crate::slots::first_match(titles, title.as_str()) {
        Some(i) => {
            proof {
                let t = crate::studio_launch::trim(wanted@);
                assert(exists|k: int| 0 <= k < titles@.len() && eq_ignore_case(#[trigger] titles@[k]@, t)) by {
                    assert(eq_ignore_case(titles@[i as int]@, t));
                }
                let c = crate::slots::preset_match(titles@, t)->0;
                if c < i {
                    assert(!eq_ignore_case(titles@[c]@, t));
                } else if c > i {
                }
            }
            Ok(i)
        },
        None => {
            let mut message = "no saved game is called \"".to_owned();
            message.append(title.as_str());
            message.append("\"");
            Err(
                Refusal {
                    code: RefusalCode::Refused,
                    message,
                    remedy: Some(
                        "the exact titles are the ones `ksx run --game` and the game list show".to_owned(),
                    ),
                },
            )
        },
    }
}

} // verus!
