use ksx_backend::residue::{residue_view, Board, Drift, Finding};
use ksx_backend::winusb::TransactionPhase;

fn finding(instance: &str, phase: TransactionPhase, drift: Drift) -> Finding {
    Finding {
        instance_id: instance.into(),
        transaction_id: "0123456789abcdef".into(),
        phase,
        drift,
    }
}

#[test]
fn a_clean_machine_has_nothing_to_do() {
    let view = residue_view(
        &vec![finding("A", TransactionPhase::Released, Drift::Consistent)],
        &None,
    );
    assert_eq!(view.receipts, 1);
    assert_eq!(view.drifted, 0);
    assert!(view.rows.is_empty());
    assert_eq!(
        view.line,
        "Everything ksx has ever prepared on this computer is accounted for."
    );
    assert_eq!(view.detail, "Nothing to do.");
}

#[test]
fn paperwork_is_told_apart_from_a_keyboard_that_does_not_type() {
    let boards = Some(vec![Board {
        name: "I-PAC 4".into(),
        interfaces: vec![r"USB\VID_D209&PID_0430&MI_00\7&1".into()],
    }]);
    let one = residue_view(
        &vec![finding(
            r"usb\vid_d209&pid_0430&mi_00\7&1",
            TransactionPhase::RecoveryRequired,
            Drift::ReleaseFinished,
        )],
        &boards,
    );
    assert!(one.bookkeeping_only);
    assert_eq!(one.line, "There is one finished job ksx never tidied up.");
    assert_eq!(one.rows[0].board, "I-PAC 4");
    assert_eq!(
        one.rows[0].says,
        "ksx recorded that something went wrong here and it needed checking"
    );
    assert_eq!(one.rows[0].machine, "Windows says it is an ordinary keyboard again");
    assert_eq!(one.rows[0].reference, "01234567");
    assert!(one.rows[0].bookkeeping);

    let two = residue_view(
        &vec![
            finding("X", TransactionPhase::Active, Drift::ReleaseIncomplete),
            finding("Y", TransactionPhase::Released, Drift::Consistent),
            finding("Z", TransactionPhase::Preparing, Drift::StaleClaim),
        ],
        &boards,
    );
    assert_eq!(two.receipts, 3);
    assert_eq!(two.drifted, 2);
    assert!(!two.bookkeeping_only);
    assert_eq!(
        two.line,
        "2 records disagree with Windows, and at least one keyboard was never fully given back."
    );
    assert_eq!(two.rows[0].board, "a keyboard that is not plugged in now");
    assert_eq!(two.rows[0].machine, "Windows says ksx is still holding it");
    assert!(two.detail.starts_with("At least one keyboard is still held"));
}

#[test]
fn several_finished_jobs_are_counted() {
    let view = residue_view(
        &vec![
            finding("A", TransactionPhase::Released, Drift::ReleaseFinished),
            finding("B", TransactionPhase::RolledBack, Drift::StaleClaim),
            finding("C", TransactionPhase::Releasing, Drift::ReleaseFinished),
        ],
        &None,
    );
    assert_eq!(view.line, "There are 3 finished jobs ksx never tidied up.");
    assert!(view.detail.starts_with("Your keyboards are fine"));
    assert_eq!(
        view.rows[2].says,
        "ksx recorded that it was part-way through giving this keyboard back"
    );
}

#[test]
fn a_short_transaction_id_is_kept_whole() {
    let mut f = finding("A", TransactionPhase::Active, Drift::ReleaseIncomplete);
    f.transaction_id = "abc".into();
    let view = residue_view(&vec![f], &None);
    assert_eq!(view.rows[0].reference, "abc");
    assert_eq!(view.line, "One keyboard was never fully given back.");
}
