use minecraft_bedrock_hibernation::lifecycle::{Attempts, PING_ATTEMPTS, STARTUP_CHECKS};
use minecraft_bedrock_hibernation::lifecycle::{
    child_alive, child_running, keep_main_child, motd_of_reply, motd_to_advertise, ping_succeeded,
    watch_managed_child, watch_shared_child, ChildStatus, IdleTimer, IdleVerdict, OfflineNotifier,
    PingReply, WatchStep, start_for_player,
};

#[test]
fn child_status_decisions() {
    assert!(!child_alive(ChildStatus::NoChild));
    assert!(child_alive(ChildStatus::Running));
    assert!(!child_alive(ChildStatus::Exited));
    assert!(child_alive(ChildStatus::Unknown));
    assert!(child_running(ChildStatus::Running));
    assert!(!child_running(ChildStatus::Unknown));
    assert!(keep_main_child(true, ChildStatus::Running));
    assert!(!keep_main_child(false, ChildStatus::Running));
    assert!(!keep_main_child(true, ChildStatus::Unknown));
    assert!(start_for_player(ChildStatus::NoChild));
    assert!(start_for_player(ChildStatus::Exited));
    assert!(!start_for_player(ChildStatus::Running));
    assert!(!start_for_player(ChildStatus::Unknown));
}

#[test]
fn shared_child_watch_steps() {
    assert_eq!(watch_shared_child(ChildStatus::NoChild, false), WatchStep::Finish { unexpected_exit: false });
    assert_eq!(watch_shared_child(ChildStatus::Exited, false), WatchStep::Finish { unexpected_exit: true });
    assert_eq!(watch_shared_child(ChildStatus::Exited, true), WatchStep::Finish { unexpected_exit: false });
    assert_eq!(watch_shared_child(ChildStatus::Running, false), WatchStep::Continue);
    assert_eq!(watch_shared_child(ChildStatus::Unknown, true), WatchStep::Continue);
}

#[test]
fn managed_child_watch_steps() {
    assert_eq!(watch_managed_child(ChildStatus::Exited, false), WatchStep::Finish { unexpected_exit: true });
    assert_eq!(watch_managed_child(ChildStatus::Exited, true), WatchStep::Finish { unexpected_exit: false });
    assert_eq!(watch_managed_child(ChildStatus::Running, false), WatchStep::Continue);
    assert_eq!(watch_managed_child(ChildStatus::Unknown, false), WatchStep::StatusError);
}

#[test]
fn idle_timer_asks_after_limit_empty_seconds() {
    let mut t = IdleTimer::new(3);
    assert_eq!(t.tick(true, 0), IdleVerdict::Wait);
    assert_eq!(t.idle_seconds(), 1);
    assert_eq!(t.tick(true, 0), IdleVerdict::Wait);
    assert_eq!(t.idle_seconds(), 2);
    assert_eq!(t.tick(true, 0), IdleVerdict::ConfirmIdle);
    assert!(t.confirm(0));
}

#[test]
fn idle_timer_resets_on_players() {
    let mut t = IdleTimer::new(3);
    t.tick(true, 0);
    t.tick(true, 0);
    assert_eq!(t.tick(true, 2), IdleVerdict::Wait);
    assert_eq!(t.idle_seconds(), 0);
    assert_eq!(t.tick(true, 0), IdleVerdict::Wait);
    assert_eq!(t.tick(true, 0), IdleVerdict::Wait);
    assert_eq!(t.tick(true, 0), IdleVerdict::ConfirmIdle);
    assert!(!t.confirm(1));
    assert_eq!(t.idle_seconds(), 0);
}

#[test]
fn idle_timer_skips_uncounted_seconds() {
    let mut t = IdleTimer::new(2);
    assert_eq!(t.tick(true, 0), IdleVerdict::Wait);
    assert_eq!(t.tick(false, 0), IdleVerdict::Wait);
    assert_eq!(t.tick(false, 5), IdleVerdict::Wait);
    assert_eq!(t.idle_seconds(), 1);
    assert_eq!(t.tick(true, 0), IdleVerdict::ConfirmIdle);
}

#[test]
fn idle_timer_with_zero_limit_asks_at_once() {
    let mut t = IdleTimer::new(0);
    assert_eq!(t.tick(true, 0), IdleVerdict::ConfirmIdle);
    assert_eq!(t.tick(true, 1), IdleVerdict::Wait);
    let mut u = IdleTimer::new(1);
    assert_eq!(u.tick(true, 0), IdleVerdict::ConfirmIdle);
}

#[test]
fn idle_timer_at_largest_limit_does_not_overflow() {
    let mut t = IdleTimer::new(u32::MAX);
    for _ in 0..1000 {
        assert_eq!(t.tick(true, 0), IdleVerdict::Wait);
    }
    assert_eq!(t.idle_seconds(), 1000);
}

#[test]
fn ping_replies() {
    assert!(ping_succeeded(&PingReply::Answered { latency: 0, motd: String::new() }));
    assert!(!ping_succeeded(&PingReply::Answered { latency: -1, motd: "x".to_string() }));
    assert!(!ping_succeeded(&PingReply::TimedOut));
    assert!(!ping_succeeded(&PingReply::Failed));
    assert_eq!(motd_of_reply(PingReply::Answered { latency: 3, motd: "MCPE;a".to_string() }), Some("MCPE;a".to_string()));
    assert_eq!(motd_of_reply(PingReply::Answered { latency: 3, motd: String::new() }), None);
    assert_eq!(motd_of_reply(PingReply::Answered { latency: -3, motd: "m".to_string() }), None);
    assert_eq!(motd_of_reply(PingReply::TimedOut), None);
    assert_eq!(motd_of_reply(PingReply::Failed), None);
}

#[test]
fn advertised_motd_prefers_the_server() {
    let sleeping = "Server is Hibernating".to_string();
    assert_eq!(motd_to_advertise(Some("MCPE;live".to_string()), &sleeping), "MCPE;live");
    assert_eq!(motd_to_advertise(None, &sleeping), "Server is Hibernating");
}

#[test]
fn banner_is_shown_when_server_goes_to_sleep() {
    let mut n = OfflineNotifier::new();
    assert!(!n.observe(false));
    assert!(!n.observe(true));
    assert!(!n.observe(true));
    assert!(n.observe(false));
    assert!(!n.observe(false));
    assert!(!n.observe(true));
    assert!(n.observe(false));
}

#[test]
fn law_stop_only_after_limit_quiet_checks() {
    for limit in 1u32..6 {
        let mut t = IdleTimer::new(limit);
        for _ in 1..limit {
            assert_eq!(t.tick(true, 0), IdleVerdict::Wait);
        }
        assert_eq!(t.tick(true, 0), IdleVerdict::ConfirmIdle);
        assert!(!t.confirm(1));
        assert_eq!(t.idle_seconds(), 0);
        for _ in 1..limit {
            assert_eq!(t.tick(true, 0), IdleVerdict::Wait);
        }
        assert_eq!(t.tick(true, 0), IdleVerdict::ConfirmIdle);
        assert!(t.confirm(0));
    }
}

#[test]
fn law_banner_only_on_running_to_stopped() {
    let alive = [false, true, false, false, true, true, false, true];
    let mut n = OfflineNotifier::new();
    for k in 0..alive.len() {
        let shown = n.observe(alive[k]);
        assert_eq!(shown, k >= 1 && alive[k - 1] && !alive[k]);
    }
}

#[test]
fn attempts_are_bounded() {
    assert_eq!(PING_ATTEMPTS, 5);
    assert_eq!(STARTUP_CHECKS, 20);
    let mut a = Attempts::new(3);
    assert!(a.pause_after_failure());
    assert!(a.begin());
    assert!(a.begin());
    assert!(a.begin());
    assert!(!a.begin());
    assert!(!a.begin());
    let mut none = Attempts::new(0);
    assert!(!none.begin());
    assert!(!Attempts::pausing_if_several(1).pause_after_failure());
    assert!(Attempts::pausing_if_several(2).pause_after_failure());
}
