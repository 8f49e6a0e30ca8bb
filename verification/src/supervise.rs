//! The order a `ksx run` session goes through, as a state machine: the
//! caller performs each action (plug the pads, start capture, hand capture
//! an order, release the keyboards, stop the engine, unplug) and hands back
//! what it observed. Two orders are kept on every path:
//!
//! - start-up: pads are plugged before capture starts; capture starts in
//!   passthrough; only then is blocking applied, and only ever to keyboards
//!   bound to a slot;
//! - teardown: once capture has been given an order, the keyboards are
//!   released before any pad is unplugged, and nothing re-arms capture after
//!   that.

use vstd::prelude::*;

use crate::resolve::{contains_view, id_views};
use crate::supervisor::{capture_order, CaptureOrder, StopReason};
use crate::text::copy_strings;

verus! {

/// Where a session is.
#[derive(Clone, Copy, Debug, PartialEq, Eq, Structural)]
pub enum SessionPhase {
    /// Waiting for the capture backend's list of keyboards.
    Checking,
    /// The pads are being plugged.
    Plugging,
    /// Capture is being started, in passthrough.
    StartingCapture,
    /// Capture is being given its first order.
    Blocking,
    /// The session hook is starting.
    Hooking,
    /// The session runs.
    Running,
    /// The session hook is being told the session is over, the hot-swap
    /// handle withdrawn and the live feed closed.
    FinishingHook,
    /// The keyboards are being released.
    Releasing,
    /// The engine is being stopped.
    StoppingEngine,
    /// Over.
    Finished,
}

/// One session's state between steps.
#[derive(Debug)]
pub struct Session {
    pub phase: SessionPhase,
    /// The keyboards bound to a slot: the only ones capture may ever take.
    pub captureable: Vec<String>,
    /// The plan's bound-keys mode.
    pub per_key: bool,
    /// The blocking latch.
    pub blocking: bool,
    /// The bound keyboards the capture backend can see now.
    pub present: Vec<String>,
    /// Each slot with the keyboard bound to it.
    pub bindings: Vec<(u8, String)>,
    /// Slots a vanished keyboard has invalidated, in the order it happened.
    pub invalidated: Vec<u8>,
    /// Why the session ended, once it has.
    pub stop: Option<StopReason>,
}

/// What the caller observed since the last step.
#[derive(Debug)]
pub enum SessionEvent {
    /// The capture backend's keyboards: the hardware id of each, repeats kept.
    Enumerated(Vec<String>),
    /// Every pad is plugged.
    PadsPlugged,
    /// The pads could not be plugged.
    PlugFailed(StopReason),
    /// The capture thread is running.
    CaptureStarted,
    /// The capture thread could not be started, and why.
    CaptureFailed(String),
    /// The session hook started, or why it could not.
    HookStarted(Result<(), String>),
    /// The escape mirror's blocking latch now.
    Escaped(bool),
    /// The bound keyboards the capture backend republished as present.
    Presence(Vec<String>),
    /// The loop decided the session ends.
    Stopped(StopReason),
    /// A poll with nothing to act on.
    Quiet,
    /// The action asked for last has been carried out.
    StepDone,
}

/// What the caller does next.
#[derive(Debug)]
pub enum SessionAction {
    /// Refuse the run before anything is plugged or captured.
    Refuse(StopReason),
    PlugPads,
    /// Start the capture thread, in passthrough.
    StartCapture,
    /// Hand capture this order.
    Capture(CaptureOrder),
    /// Blocking went off: cancel any macro in flight (releasing what it
    /// held), then hand capture this order.
    Unblocked(CaptureOrder),
    /// Start the session hook (`--game` launches here): the pads exist,
    /// capture is live and blocking is applied.
    StartHook,
    /// Tell the session hook the session is over, withdraw the hot-swap
    /// handle and close the live feed.
    FinishHook,
    /// Keyboards came or went: let the engine release whatever the vanished
    /// ones held, then hand capture this order.
    Rebind { released: Vec<String>, order: CaptureOrder },
    /// Poll again.
    Poll,
    /// Give every keyboard back to Windows and shut the capture thread down.
    ReleaseKeyboards,
    StopEngine,
    /// Stop the output thread, which unplugs the pads.
    UnplugPads,
    /// Nothing to do.
    Idle,
}

/// A session about to start: nothing plugged, nothing captured.
pub open spec fn is_initial(s: Session) -> bool {
    s.phase == SessionPhase::Checking && s.stop is None && s.present@.len() == 0 && s.invalidated@.len() == 0
}

/// The slots bound to keyboard `d`, in slot order.
pub open spec fn slots_using(bindings: Seq<(u8, String)>, d: Seq<char>) -> Seq<u8>
    decreases bindings.len(),
{
    if bindings.len() == 0 {
        seq![]
    } else {
        let rest = slots_using(bindings.drop_last(), d);
        if bindings.last().1@ == d {
            rest.push(bindings.last().0)
        } else {
            rest
        }
    }
}

/// `list` without any of `gone`, order kept.
pub open spec fn without(list: Seq<u8>, gone: Seq<u8>) -> Seq<u8>
    decreases list.len(),
{
    if list.len() == 0 {
        seq![]
    } else {
        let rest = without(list.drop_last(), gone);
        if gone.contains(list.last()) {
            rest
        } else {
            rest.push(list.last())
        }
    }
}

/// The invalidated slots after a presence change, keyboard by keyboard in
/// binding order: one that vanished invalidates its slots; one that came
/// back clears them.
pub open spec fn reinvalidated(
    cap: Seq<String>,
    before: Seq<Seq<char>>,
    now: Seq<Seq<char>>,
    bindings: Seq<(u8, String)>,
    inv: Seq<u8>,
) -> Seq<u8>
    decreases cap.len(),
{
    if cap.len() == 0 {
        inv
    } else {
        let prior = reinvalidated(cap.drop_last(), before, now, bindings, inv);
        let d = cap.last()@;
        if before.contains(d) == now.contains(d) {
            prior
        } else if now.contains(d) {
            without(prior, slots_using(bindings, d))
        } else {
            prior + slots_using(bindings, d)
        }
    }
}

/// The bound keyboards that vanished, in binding order.
pub open spec fn vanished(cap: Seq<String>, before: Seq<Seq<char>>, now: Seq<Seq<char>>) -> Seq<Seq<char>>
    decreases cap.len(),
{
    if cap.len() == 0 {
        seq![]
    } else {
        let rest = vanished(cap.drop_last(), before, now);
        if before.contains(cap.last()@) && !now.contains(cap.last()@) {
            rest.push(cap.last()@)
        } else {
            rest
        }
    }
}

/// Does `id` occur at two places in `devices`?
pub open spec fn twice(devices: Seq<Seq<char>>, id: Seq<char>) -> bool {
    exists|i: int, j: int| 0 <= i < j < devices.len() && devices[i] == id && devices[j] == id
}

/// The bound keyboards that share their hardware id with another enumerated
/// keyboard, in binding order.
pub open spec fn ambiguous_of(devices: Seq<Seq<char>>, captureable: Seq<Seq<char>>) -> Seq<Seq<char>>
    decreases captureable.len(),
{
    if captureable.len() == 0 {
        seq![]
    } else {
        let rest = ambiguous_of(devices, captureable.drop_last());
        if twice(devices, captureable.last()) {
            rest.push(captureable.last())
        } else {
            rest
        }
    }
}

/// The bound keyboards among those seen, in binding order.
pub open spec fn present_of(captureable: Seq<String>, seen: Seq<Seq<char>>) -> Seq<String>
    decreases captureable.len(),
{
    if captureable.len() == 0 {
        seq![]
    } else {
        let rest = present_of(captureable.drop_last(), seen);
        if seen.contains(captureable.last()@) {
            rest.push(captureable.last())
        } else {
            rest
        }
    }
}

fn twice_in(devices: &Vec<String>, id: &str) -> (b: bool)
    ensures
        b == twice(id_views(devices@), id@),
{
    let mut first: Option<usize> = None;
    let mut k: usize = 0;
    while k < devices.len()
        invariant
            k <= devices@.len(),
            match first {
                None => forall|i: int| 0 <= i < k ==> devices@[i]@ != id@,
                Some(f) => f < k && devices@[f as int]@ == id@ && (forall|j: int|
                    0 <= j < k && j != f ==> devices@[j]@ != id@),
            },
        decreases devices.len() - k,
    {
        if crate::text::str_eq(devices[k].as_str(), id) {
            match first {
                None => {
                    first = Some(k);
                },
                Some(f) => {
                    proof {
                        assert(id_views(devices@)[f as int] == id@);
                        assert(id_views(devices@)[k as int] == id@);
                    }
                    return true;
                },
            }
        }
        k = k + 1;
    }
    proof {
        if twice(id_views(devices@), id@) {
            let (i, j) = choose|i: int, j: int|
                0 <= i < j < id_views(devices@).len() && id_views(devices@)[i] == id@ && id_views(
                    devices@,
                )[j] == id@;
            assert(devices@[i]@ == id@ && devices@[j]@ == id@);
        }
    }
    false
}

/// The bound keyboards (`captureable`) that two enumerated keyboards
/// (`devices`, one hardware id each) answer to: capturing one would capture
/// both, so a session bound to any of them is refused.
pub fn ambiguous_captured(devices: &Vec<String>, captureable: &Vec<String>) -> (ids: Vec<String>)
    ensures
        id_views(ids@) == ambiguous_of(id_views(devices@), id_views(captureable@)),
{
    let mut ids: Vec<String> = Vec::new();
    let mut i: usize = 0;
    while i < captureable.len()
        invariant
            i <= captureable@.len(),
            id_views(ids@) == ambiguous_of(id_views(devices@), id_views(captureable@.take(i as int))),
        decreases captureable.len() - i,
    {
        proof {
            assert(id_views(captureable@.take(i + 1)).drop_last() =~= id_views(captureable@.take(i as int)));
            assert(id_views(captureable@.take(i + 1)).last() == captureable@[i as int]@);
        }
        if twice_in(devices, captureable[i].as_str()) {
            let id = captureable[i].clone();
            proof {
                assert(id_views(ids@.push(id)) =~= id_views(ids@).push(id@));
            }
            ids.push(id);
        }
        i = i + 1;
    }
    proof {
        assert(captureable@.take(captureable@.len() as int) =~= captureable@);
    }
    ids
}

fn present_among(captureable: &Vec<String>, seen: &Vec<String>) -> (p: Vec<String>)
    ensures
        p@ == present_of(captureable@, id_views(seen@)),
{
    let mut p: Vec<String> = Vec::new();
    let mut i: usize = 0;
    while i < captureable.len()
        invariant
            i <= captureable@.len(),
            p@ == present_of(captureable@.take(i as int), id_views(seen@)),
        decreases captureable.len() - i,
    {
        proof {
            assert(captureable@.take(i + 1).drop_last() =~= captureable@.take(i as int));
        }
        if contains_view(seen, captureable[i].as_str()) {
            let id = captureable[i].clone();
            p.push(id);
        }
        i = i + 1;
    }
    proof {
        assert(captureable@.take(captureable@.len() as int) =~= captureable@);
    }
    p
}

/// The order capture gets for a blocking latch and the keyboards present:
/// passthrough when blocking is off or none is present; otherwise exactly
/// those keyboards, whole or by their bound keys.
pub open spec fn order_for(blocking: bool, present: Seq<String>, per_key: bool, o: CaptureOrder) -> bool {
    if !blocking || present.len() == 0 {
        o is Passthrough
    } else if per_key {
        o matches CaptureOrder::PerKey(ids) && ids@ == present
    } else {
        o matches CaptureOrder::Whole(ids) && ids@ == present
    }
}

/// `t` is `s` in `phase`, everything else kept.
pub open spec fn moved(s: Session, t: Session, phase: SessionPhase) -> bool {
    &&& t.phase == phase
    &&& t.captureable@ == s.captureable@
    &&& t.per_key == s.per_key
    &&& t.blocking == s.blocking
    &&& t.present@ == s.present@
    &&& t.bindings@ == s.bindings@
    &&& t.invalidated@ == s.invalidated@
    &&& t.stop == s.stop
}

/// `t` is `s` in `phase`, ended for `why`.
pub open spec fn ended(s: Session, t: Session, phase: SessionPhase, why: Option<StopReason>) -> bool {
    &&& t.phase == phase
    &&& t.captureable@ == s.captureable@
    &&& t.per_key == s.per_key
    &&& t.blocking == s.blocking
    &&& t.present@ == s.present@
    &&& t.bindings@ == s.bindings@
    &&& t.invalidated@ == s.invalidated@
    &&& t.stop == why
}

/// One step of a session, exactly.
pub open spec fn stepped(s: Session, e: SessionEvent, t: Session, a: SessionAction) -> bool {
    match s.phase {
        SessionPhase::Checking => match e {
            SessionEvent::Enumerated(devices) => {
                let amb = ambiguous_of(id_views(devices@), id_views(s.captureable@));
                if amb.len() > 0 {
                    &&& a matches SessionAction::Refuse(StopReason::AmbiguousDevices { ids }) && id_views(ids@)
                        == amb
                    &&& t.stop matches Some(StopReason::AmbiguousDevices { ids }) && id_views(ids@) == amb
                    &&& t.phase == SessionPhase::Finished
                    &&& t.captureable@ == s.captureable@ && t.per_key == s.per_key
                    &&& t.blocking == s.blocking && t.present@ == s.present@
                    &&& t.bindings@ == s.bindings@ && t.invalidated@ == s.invalidated@
                } else {
                    &&& a is PlugPads
                    &&& t.phase == SessionPhase::Plugging
                    &&& t.captureable@ == s.captureable@ && t.per_key == s.per_key
                    &&& t.blocking == s.blocking && t.stop == s.stop
                    &&& t.bindings@ == s.bindings@ && t.invalidated@ == s.invalidated@
                    &&& t.present@ == present_of(s.captureable@, id_views(devices@))
                }
            },
            _ => a is Idle && moved(s, t, s.phase),
        },
        SessionPhase::Plugging => match e {
            SessionEvent::PadsPlugged => a is StartCapture && moved(s, t, SessionPhase::StartingCapture),
            SessionEvent::PlugFailed(why) => a is UnplugPads && ended(s, t, SessionPhase::Finished, Some(why)),
            _ => a is Idle && moved(s, t, s.phase),
        },
        SessionPhase::StartingCapture => match e {
            SessionEvent::CaptureStarted => (a matches SessionAction::Capture(o) && order_for(
                s.blocking,
                s.present@,
                s.per_key,
                o,
            )) && moved(s, t, SessionPhase::Blocking),
            SessionEvent::CaptureFailed(err) => a is UnplugPads && ended(
                s,
                t,
                SessionPhase::Finished,
                Some(StopReason::CaptureStartFailed(err)),
            ),
            _ => a is Idle && moved(s, t, s.phase),
        },
        SessionPhase::Blocking => match e {
            SessionEvent::StepDone => a is StartHook && moved(s, t, SessionPhase::Hooking),
            _ => a is Idle && moved(s, t, s.phase),
        },
        SessionPhase::Hooking => match e {
            SessionEvent::HookStarted(Ok(())) => a is Poll && moved(s, t, SessionPhase::Running),
            SessionEvent::HookStarted(Err(m)) => a is FinishHook && ended(
                s,
                t,
                SessionPhase::FinishingHook,
                Some(StopReason::GameLaunchFailed(m)),
            ),
            _ => a is Idle && moved(s, t, s.phase),
        },
        SessionPhase::Running => match e {
            SessionEvent::Stopped(why) => a is FinishHook && ended(
                s,
                t,
                SessionPhase::FinishingHook,
                Some(why),
            ),
            SessionEvent::Escaped(b) => if b != s.blocking {
                &&& if b {
                    a matches SessionAction::Capture(o) && order_for(b, s.present@, s.per_key, o)
                } else {
                    a matches SessionAction::Unblocked(o) && order_for(b, s.present@, s.per_key, o)
                }
                &&& t.phase == s.phase && t.captureable@ == s.captureable@ && t.per_key == s.per_key
                &&& t.blocking == b && t.present@ == s.present@ && t.stop == s.stop
                &&& t.bindings@ == s.bindings@ && t.invalidated@ == s.invalidated@
            } else {
                a is Poll && moved(s, t, s.phase)
            },
            SessionEvent::Presence(seen) => {
                let p = present_of(s.captureable@, id_views(seen@));
                if id_views(p) != id_views(s.present@) {
                    &&& a matches SessionAction::Rebind { released, order } && order_for(
                        s.blocking,
                        p,
                        s.per_key,
                        order,
                    ) && id_views(released@) == vanished(
                        s.captureable@,
                        id_views(s.present@),
                        id_views(p),
                    )
                    &&& t.phase == s.phase && t.captureable@ == s.captureable@ && t.per_key == s.per_key
                    &&& t.blocking == s.blocking && t.present@ == p && t.stop == s.stop
                    &&& t.bindings@ == s.bindings@
                    &&& t.invalidated@ == reinvalidated(
                        s.captureable@,
                        id_views(s.present@),
                        id_views(p),
                        s.bindings@,
                        s.invalidated@,
                    )
                } else {
                    a is Poll && moved(s, t, s.phase)
                }
            },
            _ => a is Poll && moved(s, t, s.phase),
        },
        SessionPhase::FinishingHook => match e {
            SessionEvent::StepDone => a is ReleaseKeyboards && moved(s, t, SessionPhase::Releasing),
            _ => a is Idle && moved(s, t, s.phase),
        },
        SessionPhase::Releasing => match e {
            SessionEvent::StepDone => a is StopEngine && moved(s, t, SessionPhase::StoppingEngine),
            _ => a is Idle && moved(s, t, s.phase),
        },
        SessionPhase::StoppingEngine => match e {
            SessionEvent::StepDone => a is UnplugPads && moved(s, t, SessionPhase::Finished),
            _ => a is Idle && moved(s, t, s.phase),
        },
        SessionPhase::Finished => a is Idle && moved(s, t, s.phase),
    }
}

/// A session about to start, for a plan that binds `captureable`.
pub fn new_session(captureable: Vec<String>, bindings: Vec<(u8, String)>, per_key: bool, blocking: bool) -> (s: Session)
    ensures
        is_initial(s),
        s.captureable@ == captureable@,
        s.bindings@ == bindings@,
        s.per_key == per_key,
        s.blocking == blocking,
{
    Session {
        phase: SessionPhase::Checking,
        captureable,
        per_key,
        blocking,
        present: Vec::new(),
        bindings,
        invalidated: Vec::new(),
        stop: None,
    }
}

fn keep(s: Session, phase: SessionPhase) -> (t: Session)
    ensures
        moved(s, t, phase),
{
    Session { phase, ..s }
}

fn slots_bound_to(bindings: &Vec<(u8, String)>, d: &str) -> (r: Vec<u8>)
    ensures
        r@ == slots_using(bindings@, d@),
{
    let mut r: Vec<u8> = Vec::new();
    let mut i: usize = 0;
    while i < bindings.len()
        invariant
            i <= bindings@.len(),
            r@ == slots_using(bindings@.take(i as int), d@),
        decreases bindings.len() - i,
    {
        proof {
            assert(bindings@.take(i + 1).drop_last() =~= bindings@.take(i as int));
        }
        if crate::text::str_eq(bindings[i].1.as_str(), d) {
            r.push(bindings[i].0);
        }
        i = i + 1;
    }
    proof {
        assert(bindings@.take(bindings@.len() as int) =~= bindings@);
    }
    r
}

fn holds(list: &Vec<u8>, n: u8) -> (b: bool)
    ensures
        b == list@.contains(n),
{
    let mut i: usize = 0;
    while i < list.len()
        invariant
            i <= list@.len(),
            forall|k: int| 0 <= k < i ==> list@[k] != n,
        decreases list.len() - i,
    {
        if list[i] == n {
            return true;
        }
        i = i + 1;
    }
    false
}

fn without_any(list: &Vec<u8>, gone: &Vec<u8>) -> (r: Vec<u8>)
    ensures
        r@ == without(list@, gone@),
{
    let mut r: Vec<u8> = Vec::new();
    let mut i: usize = 0;
    while i < list.len()
        invariant
            i <= list@.len(),
            r@ == without(list@.take(i as int), gone@),
        decreases list.len() - i,
    {
        proof {
            assert(list@.take(i + 1).drop_last() =~= list@.take(i as int));
        }
        if !holds(gone, list[i]) {
            r.push(list[i]);
        }
        i = i + 1;
    }
    proof {
        assert(list@.take(list@.len() as int) =~= list@);
    }
    r
}

fn vanished_from(cap: &Vec<String>, before: &Vec<String>, now: &Vec<String>) -> (r: Vec<String>)
    ensures
        id_views(r@) == vanished(cap@, id_views(before@), id_views(now@)),
{
    let mut r: Vec<String> = Vec::new();
    let mut i: usize = 0;
    while i < cap.len()
        invariant
            i <= cap@.len(),
            id_views(r@) == vanished(cap@.take(i as int), id_views(before@), id_views(now@)),
        decreases cap.len() - i,
    {
        proof {
            assert(cap@.take(i + 1).drop_last() =~= cap@.take(i as int));
        }
        let d = cap[i].as_str();
        if contains_view(before, d) && !contains_view(now, d) {
            let v = cap[i].clone();
            proof {
                assert(id_views(r@.push(v)) =~= id_views(r@).push(v@));
            }
            r.push(v);
        }
        i = i + 1;
    }
    proof {
        assert(cap@.take(cap@.len() as int) =~= cap@);
    }
    r
}

fn rebook(
    cap: &Vec<String>,
    before: &Vec<String>,
    now: &Vec<String>,
    bindings: &Vec<(u8, String)>,
    inv: &Vec<u8>,
) -> (r: Vec<u8>)
    ensures
        r@ == reinvalidated(cap@, id_views(before@), id_views(now@), bindings@, inv@),
{
    let mut r: Vec<u8> = crate::supervise::copy_numbers(inv);
    let mut i: usize = 0;
    while i < cap.len()
        invariant
            i <= cap@.len(),
            r@ == reinvalidated(cap@.take(i as int), id_views(before@), id_views(now@), bindings@, inv@),
        decreases cap.len() - i,
    {
        proof {
            assert(cap@.take(i + 1).drop_last() =~= cap@.take(i as int));
        }
        let d = cap[i].as_str();
        let was = contains_view(before, d);
        let is = contains_view(now, d);
        if was != is {
            let slots = slots_bound_to(bindings, d);
            if is {
                r = without_any(&r, &slots);
            } else {
                let mut k: usize = 0;
                let ghost r0 = r@;
                while k < slots.len()
                    invariant
                        k <= slots@.len(),
                        r@ == r0 + slots@.take(k as int),
                    decreases slots.len() - k,
                {
                    r.push(slots[k]);
                    proof {
                        assert(r0 + slots@.take(k + 1) =~= (r0 + slots@.take(k as int)).push(slots@[k as int]));
                    }
                    k = k + 1;
                }
                proof {
                    assert(slots@.take(slots@.len() as int) =~= slots@);
                }
            }
        }
        i = i + 1;
    }
    proof {
        assert(cap@.take(cap@.len() as int) =~= cap@);
    }
    r
}

fn copy_numbers(v: &Vec<u8>) -> (r: Vec<u8>)
    ensures
        r@ == v@,
{
    let mut r: Vec<u8> = Vec::new();
    let mut i: usize = 0;
    while i < v.len()
        invariant
            i <= v@.len(),
            r@ == v@.take(i as int),
        decreases v.len() - i,
    {
        r.push(v[i]);
        proof {
            assert(v@.take(i + 1) =~= v@.take(i as int).push(v@[i as int]));
        }
        i = i + 1;
    }
    proof {
        assert(v@.take(v@.len() as int) =~= v@);
    }
    r
}

/// One step: the session and what was observed give the next session and
/// what to do.
pub fn supervise_next(s: Session, e: SessionEvent) -> (n: (Session, SessionAction))
    ensures
        stepped(s, e, n.0, n.1),
{
    match s.phase {
        SessionPhase::Checking => match e {
            SessionEvent::Enumerated(devices) => {
                let amb = ambiguous_captured(&devices, &s.captureable);
                if amb.len() > 0 {
                    let again = copy_strings(&amb);
                    let t = Session {
                        phase: SessionPhase::Finished,
                        stop: Some(StopReason::AmbiguousDevices { ids: again }),
                        ..s
                    };
                    (t, SessionAction::Refuse(StopReason::AmbiguousDevices { ids: amb }))
                } else {
                    let present = present_among(&s.captureable, &devices);
                    (Session { phase: SessionPhase::Plugging, present, ..s }, SessionAction::PlugPads)
                }
            },
            _ => (keep(s, SessionPhase::Checking), SessionAction::Idle),
        },
        SessionPhase::Plugging => match e {
            SessionEvent::PadsPlugged => (keep(s, SessionPhase::StartingCapture), SessionAction::StartCapture),
            SessionEvent::PlugFailed(why) => (
                Session { phase: SessionPhase::Finished, stop: Some(why), ..s },
                SessionAction::UnplugPads,
            ),
            _ => (keep(s, SessionPhase::Plugging), SessionAction::Idle),
        },
        SessionPhase::StartingCapture => match e {
            SessionEvent::CaptureStarted => {
                let o = capture_order(s.blocking, &s.present, s.per_key);
                (keep(s, SessionPhase::Blocking), SessionAction::Capture(o))
            },
            SessionEvent::CaptureFailed(err) => (
                Session { phase: SessionPhase::Finished, stop: Some(StopReason::CaptureStartFailed(err)), ..s },
                SessionAction::UnplugPads,
            ),
            _ => (keep(s, SessionPhase::StartingCapture), SessionAction::Idle),
        },
        SessionPhase::Blocking => match e {
            SessionEvent::StepDone => (keep(s, SessionPhase::Hooking), SessionAction::StartHook),
            _ => (keep(s, SessionPhase::Blocking), SessionAction::Idle),
        },
        SessionPhase::Hooking => match e {
            SessionEvent::HookStarted(Ok(())) => (keep(s, SessionPhase::Running), SessionAction::Poll),
            SessionEvent::HookStarted(Err(m)) => (
                Session {
                    phase: SessionPhase::FinishingHook,
                    stop: Some(StopReason::GameLaunchFailed(m)),
                    ..s
                },
                SessionAction::FinishHook,
            ),
            _ => (keep(s, SessionPhase::Hooking), SessionAction::Idle),
        },
        SessionPhase::Running => match e {
            SessionEvent::Stopped(why) => (
                Session { phase: SessionPhase::FinishingHook, stop: Some(why), ..s },
                SessionAction::FinishHook,
            ),
            SessionEvent::Escaped(b) => {
                if b != s.blocking {
                    let o = capture_order(b, &s.present, s.per_key);
                    let a = if b {
                        SessionAction::Capture(o)
                    } else {
                        SessionAction::Unblocked(o)
                    };
                    (Session { blocking: b, ..s }, a)
                } else {
                    (keep(s, SessionPhase::Running), SessionAction::Poll)
                }
            },
            SessionEvent::Presence(seen) => {
                let p = present_among(&s.captureable, &seen);
                if !same_list(&p, &s.present) {
                    let o = capture_order(s.blocking, &p, s.per_key);
                    let released = vanished_from(&s.captureable, &s.present, &p);
                    let invalidated = rebook(&s.captureable, &s.present, &p, &s.bindings, &s.invalidated);
                    (Session { present: p, invalidated, ..s }, SessionAction::Rebind { released, order: o })
                } else {
                    (keep(s, SessionPhase::Running), SessionAction::Poll)
                }
            },
            _ => (keep(s, SessionPhase::Running), SessionAction::Poll),
        },
        SessionPhase::FinishingHook => match e {
            SessionEvent::StepDone => (keep(s, SessionPhase::Releasing), SessionAction::ReleaseKeyboards),
            _ => (keep(s, SessionPhase::FinishingHook), SessionAction::Idle),
        },
        SessionPhase::Releasing => match e {
            SessionEvent::StepDone => (keep(s, SessionPhase::StoppingEngine), SessionAction::StopEngine),
            _ => (keep(s, SessionPhase::Releasing), SessionAction::Idle),
        },
        SessionPhase::StoppingEngine => match e {
            SessionEvent::StepDone => (keep(s, SessionPhase::Finished), SessionAction::UnplugPads),
            _ => (keep(s, SessionPhase::StoppingEngine), SessionAction::Idle),
        },
        SessionPhase::Finished => (keep(s, SessionPhase::Finished), SessionAction::Idle),
    }
}

fn same_list(a: &Vec<String>, b: &Vec<String>) -> (r: bool)
    ensures
        r == (id_views(a@) == id_views(b@)),
{
    if a.len() != b.len() {
        proof {
            assert(id_views(a@).len() != id_views(b@).len());
        }
        return false;
    }
    let mut i: usize = 0;
    while i < a.len()
        invariant
            a@.len() == b@.len(),
            i <= a@.len(),
            forall|k: int| 0 <= k < i ==> a@[k]@ == b@[k]@,
        decreases a.len() - i,
    {
        if !crate::text::str_eq(a[i].as_str(), b[i].as_str()) {
            proof {
                assert(id_views(a@)[i as int] != id_views(b@)[i as int]);
            }
            return false;
        }
        i = i + 1;
    }
    proof {
        assert(id_views(a@) =~= id_views(b@));
    }
    true
}


/// `states` and `actions` are what the session went through on `events`:
/// each state and event give the next state and that step's action.
pub open spec fn is_run(events: Seq<SessionEvent>, states: Seq<Session>, actions: Seq<SessionAction>) -> bool {
    &&& states.len() == events.len() + 1
    &&& actions.len() == events.len()
    &&& forall|i: int|
        #![trigger events[i]]
        0 <= i < events.len() ==> stepped(states[i], events[i], states[i + 1], actions[i])
}

pub open spec fn plugged_before(actions: Seq<SessionAction>, n: int) -> bool {
    exists|i: int| 0 <= i < n && #[trigger] actions[i] is PlugPads
}

pub open spec fn started_before(actions: Seq<SessionAction>, n: int) -> bool {
    exists|i: int| 0 <= i < n && #[trigger] actions[i] is StartCapture
}

/// Does the action hand capture an order?
pub open spec fn orders(a: SessionAction) -> bool {
    a is Capture || a is Unblocked || a is Rebind
}

/// The order an action hands capture.
pub open spec fn order_of(a: SessionAction) -> CaptureOrder {
    match a {
        SessionAction::Capture(o) => o,
        SessionAction::Unblocked(o) => o,
        SessionAction::Rebind { order, .. } => order,
        _ => CaptureOrder::Passthrough,
    }
}

pub open spec fn ordered_before(actions: Seq<SessionAction>, n: int) -> bool {
    exists|i: int| 0 <= i < n && orders(#[trigger] actions[i])
}

pub open spec fn released_before(actions: Seq<SessionAction>, n: int) -> bool {
    exists|i: int| 0 <= i < n && #[trigger] actions[i] is ReleaseKeyboards
}

pub open spec fn hooked_before(actions: Seq<SessionAction>, n: int) -> bool {
    exists|i: int| 0 <= i < n && #[trigger] actions[i] is StartHook
}

pub open spec fn finished_hook_before(actions: Seq<SessionAction>, n: int) -> bool {
    exists|i: int| 0 <= i < n && #[trigger] actions[i] is FinishHook
}

/// The keyboards an order takes: none for passthrough.
pub open spec fn taken(o: CaptureOrder) -> Seq<String> {
    match o {
        CaptureOrder::Passthrough => seq![],
        CaptureOrder::Whole(ids) => ids@,
        CaptureOrder::PerKey(ids) => ids@,
    }
}

/// Every keyboard in `ids` is one of `bound`.
pub open spec fn all_bound(ids: Seq<String>, bound: Seq<String>) -> bool {
    forall|k: int| 0 <= k < ids.len() ==> bound.contains(#[trigger] ids[k])
}

proof fn lemma_present_is_bound(captureable: Seq<String>, seen: Seq<Seq<char>>)
    ensures
        all_bound(present_of(captureable, seen), captureable),
    decreases captureable.len(),
{
    if captureable.len() > 0 {
        lemma_present_is_bound(captureable.drop_last(), seen);
        let rest = present_of(captureable.drop_last(), seen);
        assert forall|k: int| 0 <= k < present_of(captureable, seen).len() implies captureable.contains(
            #[trigger] present_of(captureable, seen)[k],
        ) by {
            if k < rest.len() {
                let x = rest[k];
                assert(captureable.drop_last().contains(x));
                let w = choose|w: int| 0 <= w < captureable.drop_last().len() && captureable.drop_last()[w] == x;
                assert(captureable[w] == x);
            } else {
                assert(captureable[captureable.len() - 1] == captureable.last());
            }
        }
    }
}

/// What a run has done by step `n`, phase by phase.
pub open spec fn run_so_far(states: Seq<Session>, actions: Seq<SessionAction>, n: int) -> bool {
    let s = states[n];
    let p = plugged_before(actions, n);
    let st = started_before(actions, n);
    let o = ordered_before(actions, n);
    let r = released_before(actions, n);
    let h = hooked_before(actions, n);
    let f = finished_hook_before(actions, n);
    &&& s.captureable@ == states[0].captureable@
    &&& s.per_key == states[0].per_key
    &&& all_bound(s.present@, states[0].captureable@)
    &&& match s.phase {
        SessionPhase::Checking => !p && !st && !o && !r && !h && !f,
        SessionPhase::Plugging => p && !st && !o && !r && !h && !f,
        SessionPhase::StartingCapture => p && st && !o && !r && !h && !f,
        SessionPhase::Blocking => p && st && !r && !h && !f,
        SessionPhase::Hooking | SessionPhase::Running => p && st && !r && h && !f,
        SessionPhase::FinishingHook => h && f && !r,
        SessionPhase::Releasing | SessionPhase::StoppingEngine => r && f,
        SessionPhase::Finished => true,
    }
    &&& (s.phase == SessionPhase::FinishingHook || s.phase == SessionPhase::Releasing || s.phase
        == SessionPhase::StoppingEngine || s.phase == SessionPhase::Finished) ==> s.stop is Some
    &&& forall|j: int| 0 <= j < n ==> (#[trigger] actions[j] is StartCapture ==> plugged_before(actions, j))
    &&& forall|j: int| 0 <= j < n ==> (orders(#[trigger] actions[j]) ==> started_before(actions, j) && all_bound(taken(order_of(actions[j])), states[0].captureable@))
    &&& forall|j: int| 0 <= j < n ==> (orders(#[trigger] actions[j]) ==> (order_of(actions[j]) is PerKey ==> states[0].per_key) && (order_of(actions[j]) is Whole ==> !states[0].per_key))
    &&& forall|j: int| 0 <= j < n ==> (#[trigger] actions[j] is UnplugPads && ordered_before(actions, j) ==> released_before(actions, j))
    &&& forall|k: int, j: int| 0 <= k < j < n ==> (#[trigger] actions[k] is ReleaseKeyboards ==> !orders(#[trigger] actions[j]))
    &&& forall|j: int| 0 <= j < n ==> (#[trigger] actions[j] is FinishHook ==> hooked_before(actions, j))
    &&& forall|j: int| 0 <= j < n ==> (#[trigger] actions[j] is ReleaseKeyboards ==> finished_hook_before(actions, j))
    &&& forall|i: int, j: int| 0 <= i < j < n ==> (#[trigger] actions[i] is FinishHook ==> !(#[trigger] actions[j] is FinishHook))
    &&& forall|i: int, j: int| 0 <= i < j < n ==> (#[trigger] actions[i] is StartHook ==> !(#[trigger] actions[j] is StartHook))
}

proof fn lemma_order_bound(blocking: bool, present: Seq<String>, per_key: bool, o: CaptureOrder, bound: Seq<String>)
    requires
        order_for(blocking, present, per_key, o),
        all_bound(present, bound),
    ensures
        all_bound(taken(o), bound),
        o is PerKey ==> per_key,
        o is Whole ==> !per_key,
{
}

proof fn lemma_run_so_far(events: Seq<SessionEvent>, states: Seq<Session>, actions: Seq<SessionAction>, n: int)
    requires
        is_initial(states[0]),
        is_run(events, states, actions),
        0 <= n <= events.len(),
    ensures
        run_so_far(states, actions, n),
    decreases n,
{
    if n > 0 {
        let m = n - 1;
        lemma_run_so_far(events, states, actions, m);
        let s = states[m];
        let t = states[n];
        let e = events[m];
        let a = actions[m];
        assert(stepped(s, e, t, a));
        let bound = states[0].captureable@;
        match s.phase {
            SessionPhase::Checking => {
                match e {
                    SessionEvent::Enumerated(devices) => {
                        lemma_present_is_bound(s.captureable@, id_views(devices@));
                    },
                    _ => {},
                }
            },
            SessionPhase::StartingCapture => {
                match e {
                    SessionEvent::CaptureStarted => {
                        lemma_order_bound(s.blocking, s.present@, s.per_key, a->Capture_0, bound);
                    },
                    _ => {},
                }
            },
            SessionPhase::Running => {
                match e {
                    SessionEvent::Escaped(b) => {
                        if b != s.blocking {
                            lemma_order_bound(b, s.present@, s.per_key, order_of(a), bound);
                        }
                    },
                    SessionEvent::Presence(seen) => {
                        lemma_present_is_bound(s.captureable@, id_views(seen@));
                        let p = present_of(s.captureable@, id_views(seen@));
                        if id_views(p) != id_views(s.present@) {
                            lemma_order_bound(s.blocking, p, s.per_key, order_of(a), bound);
                        }
                    },
                    _ => {},
                }
            },
            _ => {},
        }
        assert(plugged_before(actions, m) ==> plugged_before(actions, n));
        assert(started_before(actions, m) ==> started_before(actions, n));
        assert(ordered_before(actions, m) ==> ordered_before(actions, n));
        assert(released_before(actions, m) ==> released_before(actions, n));
        assert(a is PlugPads ==> plugged_before(actions, n));
        assert(a is StartCapture ==> started_before(actions, n));
        assert(orders(a) ==> ordered_before(actions, n));
        assert(a is ReleaseKeyboards ==> released_before(actions, n));
        assert(a is StartHook ==> hooked_before(actions, n));
        assert(a is FinishHook ==> finished_hook_before(actions, n));
        assert(!(a is StartHook) ==> (hooked_before(actions, n) ==> hooked_before(actions, m)));
        assert(!(a is FinishHook) ==> (finished_hook_before(actions, n) ==> finished_hook_before(actions, m)));
        assert(!(a is PlugPads) ==> (plugged_before(actions, n) ==> plugged_before(actions, m)));
        assert(!(a is StartCapture) ==> (started_before(actions, n) ==> started_before(actions, m)));
        assert(!orders(a) ==> (ordered_before(actions, n) ==> ordered_before(actions, m)));
        assert(!(a is ReleaseKeyboards) ==> (released_before(actions, n) ==> released_before(actions, m)));
    }
}

/// Start-up, in every run of a session: pads are plugged before capture is
/// started, capture gets its first order only once it has been started, and
/// no order ever takes a keyboard that is not bound to a slot.
pub proof fn law_pads_before_capture_and_only_bound_keyboards(
    events: Seq<SessionEvent>,
    states: Seq<Session>,
    actions: Seq<SessionAction>,
)
    requires
        is_initial(states[0]),
        is_run(events, states, actions),
    ensures
        forall|j: int|
            0 <= j < actions.len() && #[trigger] actions[j] is StartCapture ==> exists|i: int|
                0 <= i < j && #[trigger] actions[i] is PlugPads,
        forall|j: int|
            0 <= j < actions.len() && orders(#[trigger] actions[j]) ==> (exists|i: int|
                0 <= i < j && #[trigger] actions[i] is StartCapture) && all_bound(
                taken(order_of(actions[j])),
                states[0].captureable@,
            ),
{
    lemma_run_so_far(events, states, actions, events.len() as int);
}

/// Teardown, in every run of a session: once capture has been given an
/// order, no pad is unplugged before the keyboards are released, and after
/// the keyboards are released capture is never given an order again.
pub proof fn law_keyboards_released_before_pads_unplug(
    events: Seq<SessionEvent>,
    states: Seq<Session>,
    actions: Seq<SessionAction>,
)
    requires
        is_initial(states[0]),
        is_run(events, states, actions),
    ensures
        forall|i: int, j: int|
            0 <= i < j < actions.len() && orders(#[trigger] actions[i]) && #[trigger] actions[j] is UnplugPads
                ==> exists|k: int| 0 <= k < j && #[trigger] actions[k] is ReleaseKeyboards,
        forall|k: int, j: int|
            0 <= k < j < actions.len() && #[trigger] actions[k] is ReleaseKeyboards ==> !orders(#[trigger] actions[j]),
{
    lemma_run_so_far(events, states, actions, events.len() as int);
    let a = actions;
    assert forall|i: int, j: int|
        0 <= i < j < a.len() && orders(#[trigger] a[i]) && #[trigger] a[j] is UnplugPads implies exists|k: int|
            0 <= k < j && #[trigger] a[k] is ReleaseKeyboards by {
        assert(ordered_before(a, j));
        assert(released_before(a, j));
    }
}


/// Every run of a session that is over says why: a session reaches its end
/// only with a stop reason, whether it was refused, failed to plug or to
/// start capture, or ran and was stopped. No end is an error with nothing to
/// report.
pub proof fn law_a_finished_session_has_a_stop_reason(
    events: Seq<SessionEvent>,
    states: Seq<Session>,
    actions: Seq<SessionAction>,
)
    requires
        is_initial(states[0]),
        is_run(events, states, actions),
    ensures
        forall|n: int| 0 <= n < states.len() && (#[trigger] states[n]).phase == SessionPhase::Finished ==> states[n].stop is Some,
{
    assert forall|n: int| 0 <= n < states.len() && (#[trigger] states[n]).phase == SessionPhase::Finished implies states[n].stop is Some by {
        lemma_run_so_far(events, states, actions, n);
    }
}

/// The session hook, in every run: it is told the session is over at most
/// once, only after it was started, and before any keyboard is released.
pub proof fn law_the_hook_is_finished_once_after_it_started(
    events: Seq<SessionEvent>,
    states: Seq<Session>,
    actions: Seq<SessionAction>,
)
    requires
        is_initial(states[0]),
        is_run(events, states, actions),
    ensures
        forall|j: int|
            0 <= j < actions.len() && #[trigger] actions[j] is FinishHook ==> exists|i: int|
                0 <= i < j && #[trigger] actions[i] is StartHook,
        forall|i: int, j: int|
            0 <= i < j < actions.len() && #[trigger] actions[i] is FinishHook ==> !(#[trigger] actions[j] is FinishHook),
        forall|j: int|
            0 <= j < actions.len() && #[trigger] actions[j] is ReleaseKeyboards ==> exists|i: int|
                0 <= i < j && #[trigger] actions[i] is FinishHook,
{
    lemma_run_so_far(events, states, actions, events.len() as int);
}


/// A session keeps its capture mode: in every run, an order that takes
/// keyboards takes only the bound keys (`PerKey`) exactly when the session
/// is in bound-keys mode, and whole keyboards otherwise — at start-up, on an
/// escape, and when a keyboard comes back after being unplugged.
pub proof fn law_capture_orders_keep_the_session_mode(
    events: Seq<SessionEvent>,
    states: Seq<Session>,
    actions: Seq<SessionAction>,
)
    requires
        is_initial(states[0]),
        is_run(events, states, actions),
    ensures
        forall|j: int|
            0 <= j < actions.len() && orders(#[trigger] actions[j]) && !(order_of(actions[j]) is Passthrough)
                ==> (order_of(actions[j]) is PerKey <==> states[0].per_key),
        forall|n: int| 0 <= n < states.len() ==> (#[trigger] states[n]).per_key == states[0].per_key,
{
    lemma_run_so_far(events, states, actions, events.len() as int);
    assert forall|n: int| 0 <= n < states.len() implies (#[trigger] states[n]).per_key == states[0].per_key by {
        lemma_run_so_far(events, states, actions, n);
    }
}

} // verus!
