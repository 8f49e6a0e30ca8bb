//! What ksx left behind on this computer, composed for a person: the helper's
//! receipts that disagree with Windows, each named the way the device list
//! names its board, worded from what ksx recorded and what Windows now says,
//! and one summary line that separates paperwork from a keyboard that still
//! does not type.

use vstd::prelude::*;

use crate::text::{decimal, eq_ignore_case, push_decimal, same_ignoring_case};
use crate::winusb::TransactionPhase;

verus! {

/// How a receipt compares with what Windows says now.
#[derive(Clone, Copy, Debug, PartialEq, Eq, Structural)]
pub enum Drift {
    /// Windows agrees.
    Consistent,
    /// A claim is recorded, but Windows has the ordinary keyboard driver.
    StaleClaim,
    /// The release finished; only the record was never closed.
    ReleaseFinished,
    /// Windows still has the board on ksx's driver.
    ReleaseIncomplete,
}

impl Drift {
    /// Only ksx's own paperwork disagrees: every keyboard is fine.
    pub open spec fn spec_is_bookkeeping(self) -> bool {
        self is StaleClaim || self is ReleaseFinished
    }

    pub fn is_bookkeeping(self) -> (b: bool)
        ensures
            b == self.spec_is_bookkeeping(),
    {
        match self {
            Drift::StaleClaim => true,
            Drift::ReleaseFinished => true,
            _ => false,
        }
    }
}

/// One helper receipt, reconciled against the machine.
#[derive(Clone, Debug, PartialEq, Eq)]
pub struct Finding {
    pub instance_id: String,
    pub transaction_id: String,
    pub phase: TransactionPhase,
    pub drift: Drift,
}

/// A board as the device list names it, with its interfaces' instance ids.
#[derive(Clone, Debug, PartialEq, Eq)]
pub struct Board {
    pub name: String,
    pub interfaces: Vec<String>,
}

/// One receipt that disagrees with Windows.
#[derive(Clone, Debug, PartialEq, Eq)]
pub struct ResidueRow {
    pub board: String,
    pub says: String,
    pub machine: String,
    pub bookkeeping: bool,
    pub reference: String,
}

/// Everything ksx left behind, composed.
#[derive(Clone, Debug, PartialEq, Eq)]
pub struct ResidueView {
    pub receipts: usize,
    pub drifted: usize,
    pub bookkeeping_only: bool,
    pub line: String,
    pub detail: String,
    pub rows: Vec<ResidueRow>,
}

/// What ksx recorded, from the transaction's phase.
pub open spec fn says_text(phase: TransactionPhase) -> Seq<char> {
    match phase {
        TransactionPhase::Preparing | TransactionPhase::Prepared | TransactionPhase::Installed =>
            "ksx recorded that it was in the middle of preparing this keyboard"@,
        TransactionPhase::Active => "ksx recorded that it was holding this keyboard"@,
        TransactionPhase::Releasing => "ksx recorded that it was part-way through giving this keyboard back"@,
        TransactionPhase::RecoveryRequired => "ksx recorded that something went wrong here and it needed checking"@,
        TransactionPhase::RolledBack | TransactionPhase::Released => "ksx recorded that it had finished with this keyboard"@,
    }
}

/// What Windows says, from the drift.
pub open spec fn machine_text(drift: Drift) -> Seq<char> {
    match drift {
        Drift::StaleClaim | Drift::ReleaseFinished => "Windows says it is an ordinary keyboard again"@,
        Drift::ReleaseIncomplete => "Windows says ksx is still holding it"@,
        Drift::Consistent => "Windows agrees"@,
    }
}

pub open spec fn absent_board_text() -> Seq<char> {
    "a keyboard that is not plugged in now"@
}

/// Does `board` have an interface with this instance id (ASCII case aside)?
pub open spec fn has_interface(board: Board, instance: Seq<char>) -> bool {
    exists|k: int|
        0 <= k < board.interfaces@.len() && eq_ignore_case(#[trigger] board.interfaces@[k]@, instance)
}

/// The index of the first board, from `i` on, with this interface; the
/// list's length when there is none.
pub open spec fn first_board_from(list: Seq<Board>, instance: Seq<char>, i: int) -> int
    decreases list.len() - i,
{
    if i < 0 || i >= list.len() {
        list.len() as int
    } else if has_interface(list[i], instance) {
        i
    } else {
        first_board_from(list, instance, i + 1)
    }
}

/// The name the device list gives the first board with this interface, or
/// the sentence for a board that is not there.
pub open spec fn board_name(boards: Option<Seq<Board>>, instance: Seq<char>) -> Seq<char> {
    match boards {
        None => absent_board_text(),
        Some(list) => {
            let b = first_board_from(list, instance, 0);
            if b < list.len() {
                list[b].name@
            } else {
                absent_board_text()
            }
        },
    }
}

/// The first `n` characters, or all of them when there are fewer.
pub open spec fn prefix(s: Seq<char>, n: nat) -> Seq<char> {
    if n <= s.len() {
        s.take(n as int)
    } else {
        s
    }
}

pub open spec fn boards_view(boards: Option<Vec<Board>>) -> Option<Seq<Board>> {
    match boards {
        Some(b) => Some(b@),
        None => None,
    }
}

/// The row a disagreeing receipt becomes.
pub open spec fn row_matches(row: ResidueRow, f: Finding, boards: Option<Seq<Board>>) -> bool {
    &&& row.board@ == board_name(boards, f.instance_id@)
    &&& row.says@ == says_text(f.phase)
    &&& row.machine@ == machine_text(f.drift)
    &&& row.bookkeeping == f.drift.spec_is_bookkeeping()
    &&& row.reference@ == prefix(f.transaction_id@, 8)
}

/// The receipts that disagree with Windows, in order.
pub open spec fn drifted(findings: Seq<Finding>) -> Seq<Finding>
    decreases findings.len(),
{
    if findings.len() == 0 {
        seq![]
    } else {
        let prev = drifted(findings.drop_last());
        if findings.last().drift is Consistent {
            prev
        } else {
            prev.push(findings.last())
        }
    }
}

pub open spec fn summary_line(n: nat, bookkeeping_only: bool) -> Seq<char> {
    if n == 0 {
        "Everything ksx has ever prepared on this computer is accounted for."@
    } else if bookkeeping_only {
        if n == 1 {
            "There is one finished job ksx never tidied up."@
        } else {
            "There are "@ + decimal(n) + " finished jobs ksx never tidied up."@
        }
    } else if n == 1 {
        "One keyboard was never fully given back."@
    } else {
        decimal(n) + " records disagree with Windows, and at least one keyboard was never fully given back."@
    }
}

pub open spec fn detail_text(n: nat, bookkeeping_only: bool) -> Seq<char> {
    if n == 0 {
        "Nothing to do."@
    } else if bookkeeping_only {
        "Your keyboards are fine - Windows and ksx agree about every one of them. What is left is ksx's own paperwork from earlier setups. Tidying it up changes no keyboard and no driver."@
    } else {
        "At least one keyboard is still held by a driver ksx published, which means it will not type until it is given back. This needs a driver change and a Windows permission prompt, not just tidying."@
    }
}

fn board_has(board: &Board, instance: &str) -> (b: bool)
    ensures
        b == has_interface(*board, instance@),
{
    let mut k: usize = 0;
    while k < board.interfaces.len()
        invariant
            k <= board.interfaces@.len(),
            forall|j: int| 0 <= j < k ==> !eq_ignore_case(#[trigger] board.interfaces@[j]@, instance@),
        decreases board.interfaces.len() - k,
    {
        if same_ignoring_case(board.interfaces[k].as_str(), instance) {
            return true;
        }
        k = k + 1;
    }
    false
}

fn name_of(boards: &Option<Vec<Board>>, instance: &str) -> (name: String)
    ensures
        name@ == board_name(boards_view(*boards), instance@),
{
    match boards {
        None => "a keyboard that is not plugged in now".to_owned(),
        Some(list) => {
            let mut b: usize = 0;
            while b < list.len()
                invariant
                    b <= list@.len(),
                    boards_view(*boards) == Some(list@),
                    first_board_from(list@, instance@, 0) == first_board_from(list@, instance@, b as int),
                decreases list.len() - b,
            {
                if board_has(&list[b], instance) {
                    assert(first_board_from(list@, instance@, b as int) == b);
                    return list[b].name.clone();
                }
                b = b + 1;
            }
            "a keyboard that is not plugged in now".to_owned()
        },
    }
}

fn first_chars(s: &str, n: usize) -> (r: String)
    ensures
        r@ == prefix(s@, n as nat),
{
    let len = s.unicode_len();
    let stop = if n <= len {
        n
    } else {
        len
    };
    let mut r = String::new();
    let mut i: usize = 0;
    while i < stop
        invariant
            stop <= s@.len(),
            len == s@.len(),
            i <= stop,
            r@ == s@.take(i as int),
        decreases stop - i,
    {
        crate::text::push_char(&mut r, s.get_char(i));
        assert(r@ =~= s@.take(i + 1));
        i = i + 1;
    }
    assert(s@.take(len as int) =~= s@);
    r
}

fn says(phase: TransactionPhase) -> (s: &'static str)
    ensures
        s@ == says_text(phase),
{
    match phase {
        TransactionPhase::Preparing => "ksx recorded that it was in the middle of preparing this keyboard",
        TransactionPhase::Prepared => "ksx recorded that it was in the middle of preparing this keyboard",
        TransactionPhase::Installed => "ksx recorded that it was in the middle of preparing this keyboard",
        TransactionPhase::Active => "ksx recorded that it was holding this keyboard",
        TransactionPhase::Releasing => "ksx recorded that it was part-way through giving this keyboard back",
        TransactionPhase::RecoveryRequired => "ksx recorded that something went wrong here and it needed checking",
        TransactionPhase::RolledBack => "ksx recorded that it had finished with this keyboard",
        TransactionPhase::Released => "ksx recorded that it had finished with this keyboard",
    }
}

fn machine_says(drift: Drift) -> (s: &'static str)
    ensures
        s@ == machine_text(drift),
{
    match drift {
        Drift::StaleClaim => "Windows says it is an ordinary keyboard again",
        Drift::ReleaseFinished => "Windows says it is an ordinary keyboard again",
        Drift::ReleaseIncomplete => "Windows says ksx is still holding it",
        Drift::Consistent => "Windows agrees",
    }
}

/// Compose the residue report from the reconciled receipts and, when the
/// device scan could be read, the boards it found. Worded from the phase
/// (what ksx recorded) and the drift (what Windows says), never from the
/// instance path, which is support detail.
pub fn residue_view(findings: &Vec<Finding>, boards: &Option<Vec<Board>>) -> (v: ResidueView)
    ensures
        v.receipts == findings@.len(),
        v.drifted == drifted(findings@).len(),
        v.bookkeeping_only == forall|k: int|
            0 <= k < drifted(findings@).len() ==> (#[trigger] drifted(findings@)[k]).drift.spec_is_bookkeeping(),
        v.rows@.len() == drifted(findings@).len(),
        forall|k: int|
            0 <= k < v.rows@.len() ==> row_matches(
                #[trigger] v.rows@[k],
                drifted(findings@)[k],
                boards_view(*boards),
            ),
        v.line@ == summary_line(v.drifted as nat, v.bookkeeping_only),
        v.detail@ == detail_text(v.drifted as nat, v.bookkeeping_only),
{
    let ghost bview: Option<Seq<Board>> = boards_view(*boards);
    let mut rows: Vec<ResidueRow> = Vec::new();
    let mut bookkeeping_only = true;
    let mut i: usize = 0;
    while i < findings.len()
        invariant
            i <= findings@.len(),
            bview == boards_view(*boards),
            rows@.len() == drifted(findings@.take(i as int)).len(),
            forall|k: int|
                0 <= k < rows@.len() ==> row_matches(
                    #[trigger] rows@[k],
                    drifted(findings@.take(i as int))[k],
                    bview,
                ),
            bookkeeping_only == forall|k: int|
                0 <= k < drifted(findings@.take(i as int)).len() ==> (#[trigger] drifted(
                    findings@.take(i as int),
                )[k]).drift.spec_is_bookkeeping(),
        decreases findings.len() - i,
    {
        assert(findings@.take(i + 1).drop_last() =~= findings@.take(i as int));
        let f = &findings[i];
        let ghost before = drifted(findings@.take(i as int));
        match f.drift {
            Drift::Consistent => {},
            _ => {
                let row = ResidueRow {
                    board: name_of(boards, f.instance_id.as_str()),
                    says: says(f.phase).to_owned(),
                    machine: machine_says(f.drift).to_owned(),
                    bookkeeping: f.drift.is_bookkeeping(),
                    reference: first_chars(f.transaction_id.as_str(), 8),
                };
                bookkeeping_only = bookkeeping_only && f.drift.is_bookkeeping();
                rows.push(row);
                proof {
                    let after = drifted(findings@.take(i + 1));
                    assert(after == before.push(findings@[i as int]));
                    assert forall|k: int| 0 <= k < rows@.len() implies row_matches(
                        #[trigger] rows@[k],
                        after[k],
                        bview,
                    ) by {
                        if k < before.len() {
                            assert(after[k] == before[k]);
                        }
                    }
                    assert(bookkeeping_only == forall|k: int|
                        0 <= k < after.len() ==> (#[trigger] after[k]).drift.spec_is_bookkeeping()) by {
                        if bookkeeping_only {
                            assert forall|k: int| 0 <= k < after.len() implies (
                            #[trigger] after[k]).drift.spec_is_bookkeeping() by {
                                if k < before.len() {
                                    assert(after[k] == before[k]);
                                }
                            }
                        } else {
                            if !f.drift.spec_is_bookkeeping() {
                                assert(!after[before.len() as int].drift.spec_is_bookkeeping());
                            } else {
                                let k = choose|k: int|
                                    0 <= k < before.len() && !(#[trigger] before[k]).drift.spec_is_bookkeeping();
                                assert(after[k] == before[k]);
                            }
                        }
                    }
                }
            },
        }
        i = i + 1;
    }
    assert(findings@.take(findings@.len() as int) =~= findings@);
    let n = rows.len();
    let line = if n == 0 {
        "Everything ksx has ever prepared on this computer is accounted for.".to_owned()
    } else if bookkeeping_only {
        if n == 1 {
            "There is one finished job ksx never tidied up.".to_owned()
        } else {
            let mut s = "There are ".to_owned();
            push_decimal(&mut s, n as u64);
            s.append(" finished jobs ksx never tidied up.");
            s
        }
    } else if n == 1 {
        "One keyboard was never fully given back.".to_owned()
    } else {
        let mut s = String::new();
        push_decimal(&mut s, n as u64);
        s.append(" records disagree with Windows, and at least one keyboard was never fully given back.");
        assert(s@ =~= decimal(n as nat) + " records disagree with Windows, and at least one keyboard was never fully given back."@);
        s
    };
    let detail = if n == 0 {
        "Nothing to do.".to_owned()
    } else if bookkeeping_only {
        "Your keyboards are fine - Windows and ksx agree about every one of them. What is left is ksx's own paperwork from earlier setups. Tidying it up changes no keyboard and no driver.".to_owned()
    } else {
        "At least one keyboard is still held by a driver ksx published, which means it will not type until it is given back. This needs a driver change and a Windows permission prompt, not just tidying.".to_owned()
    };
    ResidueView { receipts: findings.len(), drifted: n, bookkeeping_only, line, detail, rows }
}

} // verus!
