use crossbeam_channel::bounded;
use ksx_backend::supervisor::{DeltaTx, OutMsg, OutputGone, PadState};

fn msg(slot: u8, lt: u8) -> OutMsg {
    OutMsg {
        slot,
        state: PadState {
            lt,
            ..PadState::default()
        },
        t_capture: 0,
    }
}

#[test]
fn delta_tx_coalesces_per_slot_instead_of_blocking() {
    let (tx, rx) = bounded::<OutMsg>(1);
    let mut deltas = DeltaTx::new(tx);
    // The channel takes the first state; the second waits.
    assert!(deltas.send(msg(1, 10)).is_ok());
    assert!(!deltas.has_pending());
    assert!(deltas.send(msg(1, 20)).is_ok());
    assert!(deltas.has_pending());
    // A newer state for the same slot replaces the pending one.
    assert!(deltas.send(msg(1, 30)).is_ok());
    assert_eq!(deltas.coalesced(), 1);
    // Another slot queues behind it.
    assert!(deltas.send(msg(2, 40)).is_ok());
    assert_eq!(deltas.coalesced(), 1);

    assert_eq!(rx.try_recv().unwrap(), msg(1, 10));
    assert!(deltas.flush().is_ok());
    assert_eq!(rx.try_recv().unwrap(), msg(1, 30), "the newest state wins");
    assert!(deltas.flush().is_ok());
    assert_eq!(rx.try_recv().unwrap(), msg(2, 40));
    assert!(!deltas.has_pending());
    assert_eq!(deltas.dropped(), 0);
}

#[test]
fn delta_tx_reports_a_dead_output_thread_and_counts_the_loss() {
    let (tx, rx) = bounded::<OutMsg>(1);
    let mut deltas = DeltaTx::new(tx);
    assert!(deltas.send(msg(1, 1)).is_ok());
    assert!(deltas.send(msg(2, 2)).is_ok());
    assert!(deltas.send(msg(3, 3)).is_ok());
    drop(rx);
    assert_eq!(deltas.send(msg(4, 4)), Err(OutputGone));
    assert_eq!(deltas.dropped(), 3);
    assert!(!deltas.has_pending());
}

fn is_subsequence(have: &[PadState], want: &[PadState]) -> bool {
    let mut it = want.iter();
    have.iter().all(|h| it.any(|w| w == h))
}

#[test]
fn coalescing_preserves_the_final_pad_state_of_a_busy_session() {
    // A busy synthetic session: four slots, many transitions each.
    let truth: Vec<OutMsg> = (0..400u32)
        .map(|i| OutMsg {
            slot: (i % 4 + 1) as u8,
            state: PadState { lt: (i * 7 % 251) as u8, buttons: i as u16, ..PadState::default() },
            t_capture: u64::from(i),
        })
        .collect();
    for capacity in [1usize, 2, 7, 64] {
        for stride in [Some(1usize), Some(3), Some(29), None] {
            let (tx, rx) = bounded::<OutMsg>(capacity);
            let mut deltas = DeltaTx::new(tx);
            let mut got: Vec<OutMsg> = Vec::new();
            for (i, m) in truth.iter().enumerate() {
                deltas.send(*m).expect("the consumer is alive");
                if stride.is_some_and(|s| i % s == 0) {
                    while let Ok(m) = rx.try_recv() {
                        got.push(m);
                    }
                    deltas.flush().expect("the consumer is alive");
                }
            }
            while deltas.has_pending() {
                while let Ok(m) = rx.try_recv() {
                    got.push(m);
                }
                deltas.flush().expect("the consumer is alive");
            }
            while let Ok(m) = rx.try_recv() {
                got.push(m);
            }
            let label = format!("capacity={capacity} stride={stride:?}");
            if stride == Some(1) && capacity >= 1 {
                assert_eq!(deltas.coalesced(), 0, "{label}: a consumer that keeps up never coalesces");
                assert_eq!(got, truth, "{label}");
            }
            for slot in 1..=4u8 {
                let want: Vec<PadState> = truth.iter().filter(|m| m.slot == slot).map(|m| m.state).collect();
                let have: Vec<PadState> = got.iter().filter(|m| m.slot == slot).map(|m| m.state).collect();
                assert!(is_subsequence(&have, &want), "{label}: slot {slot} out of order or invented");
                assert_eq!(have.last(), want.last(), "{label}: slot {slot} lost its last state");
            }
        }
    }
}

#[test]
fn the_engine_outcome_counts_what_never_reached_a_pad() {
    let (tx, rx) = bounded::<OutMsg>(1);
    let mut deltas = DeltaTx::new(tx);
    deltas.send(msg(1, 1)).unwrap();
    deltas.send(msg(2, 2)).unwrap();
    deltas.send(msg(2, 3)).unwrap();
    let o = deltas.outcome(3);
    assert_eq!(o.events, 3);
    assert_eq!(o.coalesced, 1);
    assert_eq!(o.dropped, 1, "the one still queued never reached a pad");
    drop(rx);
}
