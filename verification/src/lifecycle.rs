//! The decisions that keep the Bedrock server running only while it is
//! used: whether the server process still runs, when an empty server is put
//! to sleep, which message of the day the proxy shows, and when the banner is
//! shown again.
//!
//! The caller performs each outside step (looking at the child process,
//! pinging the server, reading the number of players, sleeping) and hands
//! the outcome to these functions, which say what to do next.
use vstd::prelude::*;

verus! {

// ---------------------------------------------------------------------------
// The server process
// ---------------------------------------------------------------------------

/// What is known of the server's child process, from `Child::try_wait`.
#[derive(Debug, Clone, Copy, PartialEq, Eq, Structural)]
pub enum ChildStatus {
    /// No child process is held.
    NoChild,
    /// The child has not exited (`Ok(None)`).
    Running,
    /// The child has exited (`Ok(Some(status))`).
    Exited,
    /// Its state could not be read (`Err(..)`).
    Unknown,
}

/// The server counts as alive unless there is no child or it has been seen
/// to exit.
pub fn child_alive(status: ChildStatus) -> (alive: bool)
    ensures
        alive == (status == ChildStatus::Running || status == ChildStatus::Unknown),
{
    match status {
        ChildStatus::Running | ChildStatus::Unknown => true,
        ChildStatus::NoChild | ChildStatus::Exited => false,
    }
}

/// The child is known to be running.
pub fn child_running(status: ChildStatus) -> (running: bool)
    ensures
        running == (status == ChildStatus::Running),
{
    match status {
        ChildStatus::Running => true,
        _ => false,
    }
}

/// A player's first packet wakes the server: it is started unless it is
/// alive.
pub fn start_for_player(status: ChildStatus) -> (start: bool)
    ensures
        start == !(status == ChildStatus::Running || status == ChildStatus::Unknown),
{
    !child_alive(status)
}

/// The server that is held can serve a new player: it answers pings and its
/// process runs. Otherwise a new server is started.
pub fn keep_main_child(server_online: bool, status: ChildStatus) -> (keep: bool)
    ensures
        keep == (server_online && status == ChildStatus::Running),
{
    server_online && child_running(status)
}

/// What the watcher of the server process does after looking at it.
#[derive(Debug, Clone, Copy, PartialEq, Eq, Structural)]
pub enum WatchStep {
    /// Go on watching.
    Continue,
    /// Stop watching; `unexpected_exit` where the process ended without
    /// having been stopped on purpose.
    Finish { unexpected_exit: bool },
    /// Stop watching: the state of the process could not be read.
    StatusError,
}

/// The watcher of the shared server slot: it ends when the slot is empty, or
/// when the process has exited (reporting it unless the server was stopped on
/// purpose); a process whose state cannot be read is taken to run.
pub fn watch_shared_child(status: ChildStatus, stopped_manually: bool) -> (step: WatchStep)
    ensures
        status == ChildStatus::NoChild ==> step == (WatchStep::Finish { unexpected_exit: false }),
        status == ChildStatus::Exited ==> step == (WatchStep::Finish {
            unexpected_exit: !stopped_manually,
        }),
        status == ChildStatus::Running || status == ChildStatus::Unknown ==> step
            == WatchStep::Continue,
{
    match status {
        ChildStatus::NoChild => WatchStep::Finish { unexpected_exit: false },
        ChildStatus::Exited => WatchStep::Finish { unexpected_exit: !stopped_manually },
        ChildStatus::Running | ChildStatus::Unknown => WatchStep::Continue,
    }
}

/// The watcher of a managed server process: it ends when the process has
/// exited (an exit that was not asked for is reported, and the server is
/// then stopped), or when the state of the process cannot be read.
pub fn watch_managed_child(status: ChildStatus, manually_killed: bool) -> (step: WatchStep)
    ensures
        status == ChildStatus::Exited ==> step == (WatchStep::Finish {
            unexpected_exit: !manually_killed,
        }),
        status == ChildStatus::Running ==> step == WatchStep::Continue,
        status == ChildStatus::Unknown ==> step == WatchStep::StatusError,
        status == ChildStatus::NoChild ==> step == (WatchStep::Finish { unexpected_exit: false }),
{
    match status {
        ChildStatus::Exited => WatchStep::Finish { unexpected_exit: !manually_killed },
        ChildStatus::Running => WatchStep::Continue,
        ChildStatus::Unknown => WatchStep::StatusError,
        ChildStatus::NoChild => WatchStep::Finish { unexpected_exit: false },
    }
}

// ---------------------------------------------------------------------------
// Putting an empty server to sleep
// ---------------------------------------------------------------------------

/// What the idle timer says after one second has been observed.
#[derive(Debug, Clone, Copy, PartialEq, Eq, Structural)]
pub enum IdleVerdict {
    /// Keep the server running.
    Wait,
    /// The server has been empty for the whole allowed time: read the number
    /// of players once more and stop the server if it is still zero.
    ConfirmIdle,
}

/// One observed second: the idle count `idle` becomes the first component,
/// and the second says what to do. A counted second with nobody online adds
/// one to the count, unless that reaches `limit`, in which case the count is
/// left and confirmation is asked for; a counted second with players resets
/// the count; a second that does not count leaves it.
pub open spec fn idle_step(idle: nat, limit: nat, counts: bool, players: nat) -> (nat, IdleVerdict) {
    if !counts {
        (idle, IdleVerdict::Wait)
    } else if players > 0 {
        (0, IdleVerdict::Wait)
    } else if idle + 1 >= limit {
        (idle, IdleVerdict::ConfirmIdle)
    } else {
        ((idle + 1) as nat, IdleVerdict::Wait)
    }
}

/// The idle count after the seconds `probes`, starting from a fresh timer, or
/// `None` where one of them asked for confirmation.
pub open spec fn idle_run(limit: nat, probes: Seq<(bool, nat)>) -> Option<nat>
    decreases probes.len(),
{
    if probes.len() == 0 {
        Some(0)
    } else {
        match idle_run(limit, probes.drop_last()) {
            None => None,
            Some(idle) => {
                let step = idle_step(idle, limit, probes.last().0, probes.last().1);
                if step.1 == IdleVerdict::Wait {
                    Some(step.0)
                } else {
                    None
                }
            },
        }
    }
}

/// How many of the last counted seconds of `probes` in a row had nobody
/// online (seconds that do not count are passed over).
pub open spec fn quiet_streak(probes: Seq<(bool, nat)>) -> nat
    decreases probes.len(),
{
    if probes.len() == 0 {
        0
    } else if !probes.last().0 {
        quiet_streak(probes.drop_last())
    } else if probes.last().1 > 0 {
        0
    } else {
        quiet_streak(probes.drop_last()) + 1
    }
}

/// Counts the seconds that the server runs with nobody online.
pub struct IdleTimer {
    idle_seconds: u32,
    limit: u32,
    /// The seconds observed that waited, and the rechecks that found players.
    history: Ghost<Seq<(bool, nat)>>,
}

impl IdleTimer {
    /// The count is the quiet streak of the timer's history, and never
    /// reaches the limit between seconds (or is zero), so it cannot overflow.
    #[verifier::type_invariant]
    closed spec fn inv(self) -> bool {
        &&& self.idle_seconds < self.limit || self.idle_seconds == 0
        &&& self.idle_seconds == quiet_streak(self.history@)
    }

    /// The number of empty counted seconds in a row so far.
    pub closed spec fn idle(self) -> nat {
        self.idle_seconds as nat
    }

    /// The number of empty seconds after which the server is stopped.
    pub closed spec fn limit(self) -> nat {
        self.limit as nat
    }

    /// What the timer has observed: each second that waited, as
    /// `(counts, players)`, and each recheck that found players, as
    /// `(true, players)`.
    pub closed spec fn history(self) -> Seq<(bool, nat)> {
        self.history@
    }

    /// A timer that stops the server after `limit` empty seconds.
    pub fn new(limit: u32) -> (t: IdleTimer)
        ensures
            t.idle() == 0,
            t.limit() == limit,
            t.history() == Seq::<(bool, nat)>::empty(),
    {
        IdleTimer { idle_seconds: 0, limit, history: Ghost(Seq::empty()) }
    }

    /// The number of empty counted seconds in a row so far.
    pub fn idle_seconds(&self) -> (n: u32)
        ensures
            n == self.idle(),
            n == quiet_streak(self.history()),
    {
        proof {
            use_type_invariant(self);
        }
        self.idle_seconds
    }

    /// Observes one second: `counts` where the second counts, `players` the
    /// number of players connected. It asks for confirmation exactly when,
    /// with this second, the timer has seen `limit` counted seconds in a row
    /// with nobody online; otherwise the second joins its history.
    pub fn tick(&mut self, counts: bool, players: u32) -> (v: IdleVerdict)
        ensures
            (final(self).idle(), v) == idle_step(old(self).idle(), old(self).limit(), counts, players as nat),
            final(self).limit() == old(self).limit(),
            v == IdleVerdict::ConfirmIdle <==> (counts && players == 0 && quiet_streak(
                old(self).history().push((counts, players as nat)),
            ) >= old(self).limit()),
            v == IdleVerdict::Wait ==> final(self).history() == old(self).history().push(
                (counts, players as nat),
            ),
            v == IdleVerdict::ConfirmIdle ==> final(self).history() == old(self).history(),
            final(self).idle() == quiet_streak(final(self).history()),
    {
        proof {
            use_type_invariant(&*self);
        }
        let limit = self.limit;
        let ghost h = self.history@.push((counts, players as nat));
        assert(h.drop_last() =~= self.history@);
        if !counts {
            *self = IdleTimer { idle_seconds: self.idle_seconds, limit, history: Ghost(h) };
            IdleVerdict::Wait
        } else if players > 0 {
            *self = IdleTimer { idle_seconds: 0, limit, history: Ghost(h) };
            IdleVerdict::Wait
        } else if self.idle_seconds + 1 >= limit {
            IdleVerdict::ConfirmIdle
        } else {
            *self = IdleTimer { idle_seconds: self.idle_seconds + 1, limit, history: Ghost(h) };
            IdleVerdict::Wait
        }
    }

    /// After `ConfirmIdle`: `players_again` is the number of players read once
    /// more. The server is to be stopped where it is still zero; otherwise the
    /// recheck joins the history and the count starts again.
    pub fn confirm(&mut self, players_again: u32) -> (stop: bool)
        ensures
            stop == (players_again == 0),
            stop ==> final(self).idle() == old(self).idle(),
            stop ==> final(self).history() == old(self).history(),
            !stop ==> final(self).idle() == 0,
            !stop ==> final(self).history() == old(self).history().push((true, players_again as nat)),
            final(self).limit() == old(self).limit(),
            final(self).idle() == quiet_streak(final(self).history()),
    {
        proof {
            use_type_invariant(&*self);
        }
        if players_again == 0 {
            true
        } else {
            let limit = self.limit;
            let ghost h = self.history@.push((true, players_again as nat));
            assert(h.drop_last() =~= self.history@);
            *self = IdleTimer { idle_seconds: 0, limit, history: Ghost(h) };
            false
        }
    }
}

/// A fresh timer that sees nobody online at every counted second asks for
/// confirmation at the `k`-th such second (counting from one) exactly when `k`
/// reaches the limit: the history it has then is `k` empty counted seconds.
pub proof fn law_fresh_timer_asks_at_limit(limit: nat, k: nat)
    ensures
        quiet_streak(Seq::new(k, |i: int| (true, 0nat))) >= limit <==> k >= limit,
{
    law_quiet_seconds_add_up(Seq::empty(), k);
    assert(Seq::<(bool, nat)>::empty() + Seq::new(k, |i: int| (true, 0nat)) =~= Seq::new(
        k,
        |i: int| (true, 0nat),
    ));
}

/// How the quiet streak moves from one observed second to the next: an empty
/// counted second adds one, a counted second with players starts it again at
/// zero, and a second that does not count leaves it.
pub proof fn law_quiet_streak_steps(h: Seq<(bool, nat)>, players: nat)
    ensures
        quiet_streak(h.push((true, 0))) == quiet_streak(h) + 1,
        players > 0 ==> quiet_streak(h.push((true, players))) == 0,
        quiet_streak(h.push((false, players))) == quiet_streak(h),
{
    assert(h.push((true, 0)).drop_last() =~= h);
    assert(h.push((false, players)).drop_last() =~= h);
}

/// A run of `n` empty counted seconds adds `n` to the quiet streak: a timer
/// that keeps seeing nobody online asks for confirmation at the second that
/// brings the streak to its limit, and not before.
pub proof fn law_quiet_seconds_add_up(h: Seq<(bool, nat)>, n: nat)
    ensures
        quiet_streak(h + Seq::new(n, |i: int| (true, 0nat))) == quiet_streak(h) + n,
    decreases n,
{
    let q = Seq::new(n, |i: int| (true, 0nat));
    if n == 0 {
        assert(h + q =~= h);
    } else {
        let q1 = Seq::new((n - 1) as nat, |i: int| (true, 0nat));
        law_quiet_seconds_add_up(h, (n - 1) as nat);
        assert((h + q).drop_last() =~= h + q1);
        assert((h + q).last() == (true, 0nat));
    }
}

/// A fresh timer that has only waited holds the number of empty counted
/// seconds in a row: the idle count is the quiet streak of the seconds
/// observed.
pub proof fn law_idle_count_is_quiet_streak(limit: nat, probes: Seq<(bool, nat)>)
    requires
        idle_run(limit, probes) is Some,
    ensures
        idle_run(limit, probes) == Some(quiet_streak(probes)),
    decreases probes.len(),
{
    if probes.len() > 0 {
        law_idle_count_is_quiet_streak(limit, probes.drop_last());
    }
}

/// The server is put up for stopping exactly when it has been empty for
/// `limit` counted seconds in a row: after seconds that all waited, the next
/// second asks for confirmation if and only if it counts, nobody is online,
/// and the quiet streak including it reaches `limit`.
pub proof fn law_confirm_when_quiet_for_limit(limit: nat, probes: Seq<(bool, nat)>, counts: bool, players: nat)
    requires
        idle_run(limit, probes) is Some,
    ensures
        idle_step(idle_run(limit, probes)->0, limit, counts, players).1 == IdleVerdict::ConfirmIdle
            <==> (counts && players == 0 && quiet_streak(probes.push((counts, players))) >= limit),
{
    law_idle_count_is_quiet_streak(limit, probes);
    let all = probes.push((counts, players));
    assert(all.drop_last() =~= probes);
}

/// A second with players connected always resets the count, whatever came
/// before.
pub proof fn law_players_reset_idle(idle: nat, limit: nat, players: nat)
    requires
        players > 0,
    ensures
        idle_step(idle, limit, true, players) == (0nat, IdleVerdict::Wait),
{
}

// ---------------------------------------------------------------------------
// Pings and the message of the day
// ---------------------------------------------------------------------------

/// The outcome of pinging the server with a time limit.
pub enum PingReply {
    /// No answer within the time limit.
    TimedOut,
    /// The ping failed.
    Failed,
    /// The server answered after `latency` milliseconds with `motd`.
    Answered { latency: i64, motd: String },
}

/// The server is online: it answered, with a latency that is not negative.
pub fn ping_succeeded(reply: &PingReply) -> (ok: bool)
    ensures
        ok == (reply matches PingReply::Answered { latency, .. } && latency >= 0),
{
    match reply {
        PingReply::Answered { latency, .. } => *latency >= 0,
        _ => false,
    }
}

/// The message of the day of an answer to a ping: there where the server
/// answered with a latency that is not negative and a message that is not
/// empty.
pub fn motd_of_reply(reply: PingReply) -> (m: Option<String>)
    ensures
        match reply {
            PingReply::Answered { latency, motd } => if latency >= 0 && motd@.len() > 0 {
                m matches Some(s) && s@ == motd@
            } else {
                m is None
            },
            _ => m is None,
        },
{
    match reply {
        PingReply::Answered { latency, motd } => {
            if latency >= 0 && !motd.as_str().is_empty() {
                Some(motd)
            } else {
                None
            }
        },
        _ => None,
    }
}

/// How many times the proxy pings the server before it takes it as offline,
/// or as having no message of the day.
pub const PING_ATTEMPTS: u32 = 5;

/// How many times the proxy checks, once a second, whether a server started
/// to learn its versions is online.
pub const STARTUP_CHECKS: u32 = 20;

/// A bounded series of attempts at something that may fail, with whether to
/// pause after a failed one.
pub struct Attempts {
    made: u32,
    max: u32,
    pause: bool,
}

impl Attempts {
    /// The number of attempts begun so far.
    pub closed spec fn made(self) -> nat {
        self.made as nat
    }

    /// The most attempts there may be.
    pub closed spec fn max(self) -> nat {
        self.max as nat
    }

    /// Whether a failed attempt is followed by a pause.
    pub closed spec fn pauses(self) -> bool {
        self.pause
    }

    /// At most `max` attempts, each failed one followed by a pause.
    pub fn new(max: u32) -> (a: Attempts)
        ensures
            a.made() == 0,
            a.max() == max,
            a.pauses(),
    {
        Attempts { made: 0, max, pause: true }
    }

    /// At most `max` attempts, a failed one followed by a pause only where
    /// there may be more than one attempt.
    pub fn pausing_if_several(max: u32) -> (a: Attempts)
        ensures
            a.made() == 0,
            a.max() == max,
            a.pauses() == (max > 1),
    {
        Attempts { made: 0, max, pause: max > 1 }
    }

    /// Whether another attempt may begin; where it may, it is counted. So a
    /// fresh series lets exactly `max` attempts begin.
    pub fn begin(&mut self) -> (go: bool)
        ensures
            go == (old(self).made() < old(self).max()),
            go ==> final(self).made() == old(self).made() + 1,
            !go ==> final(self).made() == old(self).made(),
            final(self).max() == old(self).max(),
            final(self).pauses() == old(self).pauses(),
    {
        if self.made < self.max {
            self.made = self.made + 1;
            true
        } else {
            false
        }
    }

    /// Whether to pause after a failed attempt.
    pub fn pause_after_failure(&self) -> (p: bool)
        ensures
            p == self.pauses(),
    {
        self.pause
    }
}

/// The message of the day the proxy shows: the running server's, where it
/// answered with one, else the hibernation message.
pub fn motd_to_advertise(server_motd: Option<String>, hibernating_motd: &String) -> (m: String)
    ensures
        match server_motd {
            Some(s) => m@ == s@,
            None => m@ == hibernating_motd@,
        },
{
    match server_motd {
        Some(s) => s,
        None => hibernating_motd.clone(),
    }
}

// ---------------------------------------------------------------------------
// Showing the banner again
// ---------------------------------------------------------------------------

/// At the `k`-th look at the server (counting from zero), with `alive` the
/// answers so far, the banner is due: the server was alive at the previous
/// look and is not now.
pub open spec fn banner_due(alive: Seq<bool>, k: int) -> bool {
    1 <= k < alive.len() && alive[k - 1] && !alive[k]
}

/// Remembers whether the server was alive at the previous look, to show the
/// banner again when it goes to sleep.
pub struct OfflineNotifier {
    was_active: bool,
    /// The answers seen so far, one per look.
    seen: Ghost<Seq<bool>>,
    /// Whether the banner was shown, one per look.
    shown: Ghost<Seq<bool>>,
}

impl OfflineNotifier {
    /// The banner has been shown at exactly the looks where it was due.
    #[verifier::type_invariant]
    closed spec fn inv(self) -> bool {
        &&& self.was_active == (self.seen@.len() > 0 && self.seen@.last())
        &&& self.shown@.len() == self.seen@.len()
        &&& forall|k: int| 0 <= k < self.seen@.len() ==> #[trigger] self.shown@[k] == banner_due(self.seen@, k)
    }

    /// Whether the server was alive at each look so far.
    pub closed spec fn seen(self) -> Seq<bool> {
        self.seen@
    }

    /// Whether the banner was shown at each look so far.
    pub closed spec fn shown(self) -> Seq<bool> {
        self.shown@
    }

    /// A notifier that has not looked yet.
    pub fn new() -> (n: OfflineNotifier)
        ensures
            n.seen() == Seq::<bool>::empty(),
            n.shown() == Seq::<bool>::empty(),
    {
        OfflineNotifier { was_active: false, seen: Ghost(Seq::empty()), shown: Ghost(Seq::empty()) }
    }

    /// Looks at the server once: the banner is shown again exactly when the
    /// server was alive at the previous look and is not now, never at the
    /// first look. Over the whole run, the banner has been shown at exactly
    /// the looks where it was due.
    pub fn observe(&mut self, active: bool) -> (show_banner: bool)
        ensures
            final(self).seen() == old(self).seen().push(active),
            final(self).shown() == old(self).shown().push(show_banner),
            show_banner == banner_due(final(self).seen(), old(self).seen().len() as int),
            show_banner == (old(self).seen().len() > 0 && old(self).seen().last() && !active),
            final(self).shown().len() == final(self).seen().len(),
            forall|k: int|
                0 <= k < final(self).seen().len() ==> #[trigger] final(self).shown()[k]
                    == banner_due(final(self).seen(), k),
    {
        proof {
            use_type_invariant(&*self);
        }
        let show = !active && self.was_active;
        let ghost seen = self.seen@.push(active);
        let ghost shown = self.shown@.push(show);
        assert forall|k: int| 0 <= k < seen.len() implies #[trigger] shown[k] == banner_due(seen, k) by {
            if k < self.seen@.len() {
                assert(shown[k] == self.shown@[k]);
                assert(self.shown@[k] == banner_due(self.seen@, k));
                if k >= 1 {
                    assert(seen[k - 1] == self.seen@[k - 1]);
                }
                assert(seen[k] == self.seen@[k]);
            }
        }
        *self = OfflineNotifier { was_active: active, seen: Ghost(seen), shown: Ghost(shown) };
        show
    }
}

} // verus!
