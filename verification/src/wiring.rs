//! Where a finished setup run is wired: the preset name it gets, the panel's
//! alias, and the slot it writes into `config.toml` or a `games.toml`
//! profile — repointed in place when the slot exists, added in slot order
//! when it does not.

use vstd::prelude::*;

use crate::config::{Backend, DeviceEntry, Persona, SlotEntry, Socd};
use crate::slots::{find_slot, slot_index, sort_by_number, sorted_by_number};
use crate::text::{decimal, lemma_decimal_injective, lemma_decimal_len, push_decimal, str_eq};
use vstd::relations::injective_on;
use vstd::set_lib::{lemma_int_range, lemma_len_subset, lemma_map_size, set_int_range};

verus! {

/// The preset name a run gives `slot`: the name asked for on the first slot,
/// that name with ` P<slot>` on later ones, or `Player <slot>`.
pub open spec fn preset_name_text(asked: Option<Seq<char>>, first: u8, slot: u8) -> Seq<char> {
    match asked {
        Some(name) => if slot == first {
            name
        } else {
            name + " P"@ + decimal(slot as nat)
        },
        None => "Player "@ + decimal(slot as nat),
    }
}

pub fn preset_name_for(asked: Option<&str>, first: u8, slot: u8) -> (name: String)
    ensures
        name@ == preset_name_text(
            match asked {
                Some(a) => Some(a@),
                None => None,
            },
            first,
            slot,
        ),
{
    match asked {
        Some(a) => {
            if slot == first {
                a.to_owned()
            } else {
                let mut s = a.to_owned();
                s.append(" P");
                push_decimal(&mut s, slot as u64);
                s
            }
        },
        None => {
            let mut s = "Player ".to_owned();
            push_decimal(&mut s, slot as u64);
            s
        },
    }
}

/// The alias a run gives the panel it identified: `P<slot> panel`.
pub fn panel_alias(slot: u8) -> (alias: String)
    ensures
        alias@ == "P"@ + decimal(slot as nat) + " panel"@,
{
    let mut s = "P".to_owned();
    push_decimal(&mut s, slot as u64);
    s.append(" panel");
    s
}

/// The first `[[device]]` entry from `k` on written with exactly `id`.
pub open spec fn id_index(devices: Seq<DeviceEntry>, id: Seq<char>, k: int) -> Option<int>
    decreases devices.len() - k,
{
    if k < 0 || k >= devices.len() {
        None
    } else if devices[k].id@ == id {
        Some(k)
    } else {
        id_index(devices, id, k + 1)
    }
}

/// The aliases a new board may take, in the order they are tried: the
/// preferred alias, then `<preferred> (2)`, `<preferred> (3)`, ...
pub open spec fn numbered_alias(preferred: Seq<char>, n: nat) -> Seq<char> {
    if n <= 1 {
        preferred
    } else {
        preferred + " ("@ + decimal(n) + ")"@
    }
}

/// Does some entry already carry exactly this alias?
pub open spec fn alias_taken(devices: Seq<DeviceEntry>, alias: Seq<char>) -> bool {
    exists|k: int| 0 <= k < devices.len() && #[trigger] devices[k].alias@ == alias
}

/// `n` is the first number whose alias no entry carries.
pub open spec fn first_free(devices: Seq<DeviceEntry>, preferred: Seq<char>, n: nat) -> bool {
    &&& n >= 1
    &&& !alias_taken(devices, numbered_alias(preferred, n))
    &&& forall|m: nat| 1 <= m < n ==> alias_taken(devices, #[trigger] numbered_alias(preferred, m))
}

/// The id handed to [`upsert_device`] cannot name a device.
#[derive(Clone, Debug, PartialEq, Eq)]
pub struct NotADeviceId {
    pub id: String,
}

proof fn lemma_numbered_alias_injective(preferred: Seq<char>, a: nat, b: nat)
    requires
        a >= 1,
        b >= 1,
        numbered_alias(preferred, a) == numbered_alias(preferred, b),
    ensures
        a == b,
{
    lemma_decimal_len(a);
    lemma_decimal_len(b);
    reveal_strlit(" (");
    reveal_strlit(")");
    if a >= 2 && b >= 2 {
        let x = numbered_alias(preferred, a);
        let y = numbered_alias(preferred, b);
        let lo = preferred.len() as int + 2;
        assert(x.subrange(lo, x.len() - 1) =~= decimal(a));
        assert(y.subrange(lo, y.len() - 1) =~= decimal(b));
        lemma_decimal_injective(a, b);
    } else if a >= 2 || b >= 2 {
        assert(numbered_alias(preferred, a).len() != numbered_alias(preferred, b).len());
    }
}

/// `len + 1` distinct aliases cannot all be among `len` entries: one of
/// the first `len + 1` numbers is free.
proof fn lemma_some_alias_is_free(devices: Seq<DeviceEntry>, preferred: Seq<char>)
    ensures
        exists|m: nat| 1 <= m <= devices.len() + 1 && !alias_taken(devices, #[trigger] numbered_alias(preferred, m)),
{
    if forall|m: nat| 1 <= m <= devices.len() + 1 ==> alias_taken(devices, #[trigger] numbered_alias(preferred, m)) {
        let len = devices.len() as int;
        let x = set_int_range(1, len + 2);
        let f = |n: int| choose|k: int| 0 <= k < len && #[trigger] devices[k].alias@ == numbered_alias(preferred, n as nat);
        assert forall|n: int| #[trigger] x.contains(n) implies 0 <= f(n) < len && devices[f(n)].alias@ == numbered_alias(
            preferred,
            n as nat,
        ) by {
            assert(alias_taken(devices, numbered_alias(preferred, n as nat)));
        }
        assert(injective_on(f, x)) by {
            assert forall|a: int, b: int| x.contains(a) && x.contains(b) && #[trigger] f(a) == #[trigger] f(b) implies a == b by {
                lemma_numbered_alias_injective(preferred, a as nat, b as nat);
            }
        }
        lemma_int_range(1, len + 2);
        lemma_int_range(0, len);
        let y = x.map(f);
        lemma_map_size(x, y, f);
        assert(y.subset_of(set_int_range(0, len))) by {
            assert forall|k: int| #[trigger] y.contains(k) implies set_int_range(0, len).contains(k) by {
                let n = choose|n: int| x.contains(n) && f(n) == k;
            }
        }
        lemma_len_subset(y, set_int_range(0, len));
    }
}

fn alias_in_use(devices: &Vec<DeviceEntry>, alias: &str) -> (b: bool)
    ensures
        b == alias_taken(devices@, alias@),
{
    let mut k: usize = 0;
    while k < devices.len()
        invariant
            k <= devices@.len(),
            forall|j: int| 0 <= j < k ==> #[trigger] devices@[j].alias@ != alias@,
        decreases devices.len() - k,
    {
        if str_eq(devices[k].alias.as_str(), alias) {
            return true;
        }
        k = k + 1;
    }
    false
}

/// The alias the board `id` goes by, adding it when it is new: a board
/// already written with exactly this id keeps its alias; a new one takes the
/// first of `preferred`, `preferred (2)`, `preferred (3)`, ... that no entry
/// carries, on the Interception backend. `names_a_device` is whether `id`
/// parses as a device id at all; one that does not is refused and nothing is
/// added.
pub fn upsert_device(devices: &mut Vec<DeviceEntry>, id: &str, preferred: &str, names_a_device: bool) -> (r: Result<
    String,
    NotADeviceId,
>)
    requires
        old(devices)@.len() < usize::MAX,
    ensures
        match id_index(old(devices)@, id@, 0) {
            Some(k) => r matches Ok(a) && a@ == old(devices)@[k].alias@ && final(devices)@ == old(devices)@,
            None => if names_a_device {
                &&& r matches Ok(a)
                &&& exists|n: nat| first_free(old(devices)@, preferred@, n) && a@ == numbered_alias(preferred@, n)
                &&& final(devices)@.len() == old(devices)@.len() + 1
                &&& final(devices)@.drop_last() == old(devices)@
                &&& final(devices)@.last().id@ == id@
                &&& final(devices)@.last().alias == a
                &&& final(devices)@.last().backend == Backend::Interception
            } else {
                &&& r matches Err(e)
                &&& e.id@ == id@
                &&& final(devices)@ == old(devices)@
            },
        },
{
    let mut k: usize = 0;
    while k < devices.len()
        invariant
            k <= devices@.len(),
            id_index(devices@, id@, 0) == id_index(devices@, id@, k as int),
        decreases devices.len() - k,
    {
        if str_eq(devices[k].id.as_str(), id) {
            return Ok(devices[k].alias.clone());
        }
        k = k + 1;
    }
    let mut n: usize = 1;
    let mut alias = preferred.to_owned();
    while alias_in_use(devices, alias.as_str())
        invariant
            1 <= n <= devices@.len() + 1,
            devices@.len() < usize::MAX,
            alias@ == numbered_alias(preferred@, n as nat),
            forall|m: nat| 1 <= m < n ==> alias_taken(devices@, #[trigger] numbered_alias(preferred@, m)),
        decreases devices@.len() + 1 - n,
    {
        if n == devices.len() + 1 {
            proof {
                lemma_some_alias_is_free(devices@, preferred@);
                let m = choose|m: nat|
                    1 <= m <= devices@.len() + 1 && !alias_taken(devices@, #[trigger] numbered_alias(preferred@, m));
                if m < n {
                    assert(alias_taken(devices@, numbered_alias(preferred@, m)));
                } else {
                    assert(alias_taken(devices@, alias@));
                }
            }
        }
        n = n + 1;
        let mut next = preferred.to_owned();
        next.append(" (");
        push_decimal(&mut next, n as u64);
        next.append(")");
        proof {
            assert(next@ =~= numbered_alias(preferred@, n as nat));
        }
        alias = next;
    }
    if !names_a_device {
        return Err(NotADeviceId { id: id.to_owned() });
    }
    proof {
        assert(first_free(devices@, preferred@, n as nat));
    }
    devices.push(DeviceEntry { id: id.to_owned(), alias: alias.clone(), backend: Backend::Interception });
    proof {
        assert(devices@.drop_last() =~= old(devices)@);
    }
    Ok(alias)
}

proof fn lemma_pushed_id_is_found(devices: Seq<DeviceEntry>, added: DeviceEntry, k: int)
    requires
        0 <= k <= devices.len(),
        id_index(devices, added.id@, k) is None,
    ensures
        id_index(devices.push(added), added.id@, k) == Some(devices.len() as int),
    decreases devices.len() - k,
{
    let grown = devices.push(added);
    if k < devices.len() {
        assert(grown[k] == devices[k]);
        lemma_pushed_id_is_found(devices, added, k + 1);
    }
}

/// A board keeps the alias it was added under: once an id the table did not
/// know is added, the table's first entry for that id is the added one, so
/// asking again answers with its alias and adds nothing.
pub proof fn law_a_known_board_keeps_its_alias(devices: Seq<DeviceEntry>, added: DeviceEntry)
    requires
        id_index(devices, added.id@, 0) is None,
    ensures
        id_index(devices.push(added), added.id@, 0) == Some(devices.len() as int),
        devices.push(added)[devices.len() as int].alias == added.alias,
{
    lemma_pushed_id_is_found(devices, added, 0);
}

/// The list once slot `number` points at `preset` on `keyboard`: the slot's
/// first entry is repointed in place, or a fresh entry joins the list and the
/// list is put back in slot order.
pub open spec fn upserted(
    slots: Seq<SlotEntry>,
    number: u8,
    preset: String,
    keyboard: String,
    user_index: Option<u8>,
    result: Seq<SlotEntry>,
) -> bool {
    match slot_index(slots, number) {
        Some(i) => result == slots.update(
            i,
            SlotEntry { keyboard: Some(keyboard), preset, ..slots[i] },
        ),
        None => {
            &&& result.to_multiset() == slots.push(
                SlotEntry {
                    number,
                    user_index,
                    keyboard: Some(keyboard),
                    mouse: None,
                    preset,
                    persona: Persona::spec_default(),
                    socd: Socd::spec_default(),
                    macros: false,
                },
            ).to_multiset()
            &&& sorted_by_number(result)
        },
    }
}

fn upsert(slots: &mut Vec<SlotEntry>, number: u8, preset: String, keyboard: String, user_index: Option<u8>)
    ensures
        upserted(old(slots)@, number, preset, keyboard, user_index, final(slots)@),
{
    match find_slot(slots, number) {
        Some(i) => {
            proof {
                assert(slot_index(slots@, number) == Some(i as int));
            }
            let mut entry = slots[i].duplicate();
            entry.keyboard = Some(keyboard);
            entry.preset = preset;
            slots.set(i, entry);
        },
        None => {
            slots.push(
                SlotEntry {
                    number,
                    user_index,
                    keyboard: Some(keyboard),
                    mouse: None,
                    preset,
                    persona: Persona::default_persona(),
                    socd: Socd::default_socd(),
                    macros: false,
                },
            );
            sort_by_number(slots);
        },
    }
}

/// Point `config.toml`'s `[[slot]]` `slot` at the run's preset and panel
/// alias, creating the slot (in slot order) when there is none.
pub fn upsert_slot(slots: &mut Vec<SlotEntry>, slot: u8, preset_name: String, alias: String)
    ensures
        upserted(old(slots)@, slot, preset_name, alias, None, final(slots)@),
{
    upsert(slots, slot, preset_name, alias, None);
}

/// Point a `games.toml` profile's slot at the run's preset and the panel's
/// device id (profiles persist ids directly), creating it with the slot as
/// its XInput user index when there is none.
pub fn upsert_game_slot(slots: &mut Vec<SlotEntry>, slot: u8, preset_name: String, device_id: String)
    ensures
        upserted(old(slots)@, slot, preset_name, device_id, Some(slot), final(slots)@),
{
    upsert(slots, slot, preset_name, device_id, Some(slot));
}

pub open spec fn fresh_slot(number: u8, preset: String, keyboard: String, user_index: Option<u8>) -> SlotEntry {
    SlotEntry {
        number,
        user_index,
        keyboard: Some(keyboard),
        mouse: None,
        preset,
        persona: Persona::spec_default(),
        socd: Socd::spec_default(),
        macros: false,
    }
}

/// Writing the same slot twice writes nothing new the second time: a run
/// repeated with the same answers leaves the file as the first run left it.
pub proof fn law_upsert_twice_is_upsert_once(
    slots: Seq<SlotEntry>,
    number: u8,
    preset: String,
    keyboard: String,
    user_index: Option<u8>,
    once: Seq<SlotEntry>,
    twice: Seq<SlotEntry>,
)
    requires
        upserted(slots, number, preset, keyboard, user_index, once),
        upserted(once, number, preset, keyboard, user_index, twice),
    ensures
        twice == once,
{
    let c = match slot_index(slots, number) {
        Some(i) => {
            lemma_repointed_slot_is_first(slots, number, preset, keyboard, i, once);
            i
        },
        None => {
            assert(slots.push(fresh_slot(number, preset, keyboard, user_index)) == slots.push(
                SlotEntry {
                    number,
                    user_index,
                    keyboard: Some(keyboard),
                    mouse: None,
                    preset,
                    persona: Persona::spec_default(),
                    socd: Socd::spec_default(),
                    macros: false,
                },
            ));
            lemma_fresh_slot_is_first(slots, fresh_slot(number, preset, keyboard, user_index), once)
        },
    };
    assert(once[c].keyboard == Some(keyboard) && once[c].preset == preset);
    assert(twice =~= once);
}

proof fn lemma_first_exists(slots: Seq<SlotEntry>, number: u8, k: int)
    requires
        0 <= k < slots.len(),
        slots[k].number == number,
    ensures
        exists|c: int|
            0 <= c < slots.len() && #[trigger] slots[c].number == number && forall|j: int|
                0 <= j < c ==> #[trigger] slots[j].number != number,
    decreases k,
{
    if exists|j: int| 0 <= j < k && #[trigger] slots[j].number == number {
        let j = choose|j: int| 0 <= j < k && #[trigger] slots[j].number == number;
        lemma_first_exists(slots, number, j);
    } else {
        assert(forall|j: int| 0 <= j < k ==> #[trigger] slots[j].number != number);
    }
}

pub(crate) proof fn lemma_slot_index(slots: Seq<SlotEntry>, number: u8)
    ensures
        match slot_index(slots, number) {
            Some(i) => 0 <= i < slots.len() && slots[i].number == number && forall|j: int|
                0 <= j < i ==> #[trigger] slots[j].number != number,
            None => forall|j: int| 0 <= j < slots.len() ==> #[trigger] slots[j].number != number,
        },
{
    if exists|k: int| 0 <= k < slots.len() && #[trigger] slots[k].number == number {
        let k = choose|k: int| 0 <= k < slots.len() && #[trigger] slots[k].number == number;
        lemma_first_exists(slots, number, k);
    }
}

proof fn lemma_repointed_slot_is_first(
    slots: Seq<SlotEntry>,
    number: u8,
    preset: String,
    keyboard: String,
    i: int,
    once: Seq<SlotEntry>,
)
    requires
        slot_index(slots, number) == Some(i),
        once == slots.update(i, SlotEntry { keyboard: Some(keyboard), preset, ..slots[i] }),
    ensures
        slot_index(once, number) == Some(i),
        0 <= i < once.len(),
        once[i].keyboard == Some(keyboard),
        once[i].preset == preset,
{
    lemma_slot_index(slots, number);
    assert forall|j: int| 0 <= j < i implies #[trigger] once[j].number != number by {
        assert(once[j] == slots[j]);
    }
    lemma_first_slot_is(once, number, i);
}

proof fn lemma_fresh_slot_is_first(slots: Seq<SlotEntry>, fresh: SlotEntry, once: Seq<SlotEntry>) -> (c: int)
    requires
        slot_index(slots, fresh.number) is None,
        once.to_multiset() == slots.push(fresh).to_multiset(),
    ensures
        slot_index(once, fresh.number) == Some(c),
        0 <= c < once.len(),
        once[c] == fresh,
{
    let number = fresh.number;
    lemma_slot_index(slots, number);
    vstd::seq_lib::to_multiset_contains(slots.push(fresh), fresh);
    assert(slots.push(fresh)[slots.len() as int] == fresh);
    vstd::seq_lib::to_multiset_contains(once, fresh);
    let k = choose|k: int| 0 <= k < once.len() && once[k] == fresh;
    assert(once[k].number == number);
    lemma_slot_index(once, number);
    let c = slot_index(once, number)->0;
    vstd::seq_lib::to_multiset_contains(once, once[c]);
    vstd::seq_lib::to_multiset_contains(slots.push(fresh), once[c]);
    let m = choose|m: int| 0 <= m < slots.push(fresh).len() && slots.push(fresh)[m] == once[c];
    if m < slots.len() {
        assert(slots.push(fresh)[m] == slots[m]);
        assert(slots[m].number == number);
    }
    c
}

proof fn lemma_first_slot_is(slots: Seq<SlotEntry>, number: u8, i: int)
    requires
        0 <= i < slots.len(),
        slots[i].number == number,
        forall|j: int| 0 <= j < i ==> #[trigger] slots[j].number != number,
    ensures
        slot_index(slots, number) == Some(i),
{
    let c = choose|c: int|
        0 <= c < slots.len() && #[trigger] slots[c].number == number && forall|j: int|
            0 <= j < c ==> #[trigger] slots[j].number != number;
    assert(0 <= c < slots.len() && slots[c].number == number && forall|j: int|
        0 <= j < c ==> #[trigger] slots[j].number != number);
    if c < i {
        assert(slots[c].number != number);
    }
    if c > i {
        assert(slots[i].number != number);
    }
}

} // verus!
