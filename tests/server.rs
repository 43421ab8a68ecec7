use bucket_sync::manifest::Manifest;
use bucket_sync::publish::{first_phase, is_finished, next_phase, Outcome, Phase};
use bucket_sync::reload::{
    after_reload, on_reload_event, reload_loop_enabled, ReloadAction, ReloadEvent,
    RELOAD_INTERVAL_SECS,
};
use bucket_sync::shutdown::{Coordinator, ServerAction, ServerEvent, ServerPhase, DRAIN_DEADLINE_SECS};

#[test]
fn publish_runs_manifest_then_uploads_then_deletes() {
    let mut p = first_phase();
    assert_eq!(p, Phase::PublishManifest);
    let mut seen = vec![p];
    while !is_finished(p) {
        p = next_phase(p, Outcome::Succeeded);
        seen.push(p);
    }
    assert_eq!(seen, vec![Phase::PublishManifest, Phase::Upload, Phase::Delete, Phase::Done]);
}

#[test]
fn failed_upload_skips_deletes() {
    let p = next_phase(first_phase(), Outcome::Succeeded);
    let p = next_phase(p, Outcome::Failed);
    assert_eq!(p, Phase::Failed);
    assert!(is_finished(p));
    assert_eq!(next_phase(p, Outcome::Succeeded), Phase::Failed);
    assert_eq!(next_phase(Phase::PublishManifest, Outcome::Failed), Phase::Failed);
    assert_eq!(next_phase(Phase::Done, Outcome::Failed), Phase::Done);
}

#[test]
fn reload_loop_decisions() {
    assert_eq!(RELOAD_INTERVAL_SECS, 60);
    assert!(reload_loop_enabled(false));
    assert!(!reload_loop_enabled(true));
    assert_eq!(on_reload_event(ReloadEvent::Tick), ReloadAction::Reload);
    assert_eq!(on_reload_event(ReloadEvent::Stop), ReloadAction::Exit);
}

#[test]
fn failed_reload_keeps_served_manifest() {
    let mut served = Manifest::new();
    served.insert("a".to_string(), "1".to_string());
    let kept = after_reload(served, None);
    assert_eq!(kept.get(&"a".to_string()).unwrap(), "1");
    let mut fresh = Manifest::new();
    fresh.insert("b".to_string(), "2".to_string());
    let replaced = after_reload(kept, Some(fresh));
    assert!(replaced.get(&"a".to_string()).is_none());
    assert_eq!(replaced.get(&"b".to_string()).unwrap(), "2");
}

#[test]
fn interrupt_mid_request_drains_then_exits() {
    let mut c = Coordinator::new(true);
    assert_eq!(c.on_event(ServerEvent::Accepted), ServerAction::Serve);
    assert_eq!(c.on_event(ServerEvent::Signal), ServerAction::StopReloader);
    assert_eq!(c.phase, ServerPhase::StoppingReloader);
    assert_eq!(c.on_event(ServerEvent::Accepted), ServerAction::Refuse);
    assert_eq!(c.on_event(ServerEvent::Signal), ServerAction::Nothing);
    assert_eq!(c.on_event(ServerEvent::ReloaderStopped), ServerAction::StartDrain);
    assert_eq!(c.phase, ServerPhase::Draining);
    assert_eq!(c.in_flight, 1);
    assert!(!c.is_stopped());
    assert_eq!(c.on_event(ServerEvent::Closed), ServerAction::Exit);
    assert!(c.is_stopped());
    assert_eq!(c.in_flight, 0);
}

#[test]
fn drain_deadline_abandons_open_connections() {
    assert_eq!(DRAIN_DEADLINE_SECS, 10);
    let mut c = Coordinator::new(false);
    assert_eq!(c.on_event(ServerEvent::DeadlineElapsed), ServerAction::Nothing);
    assert_eq!(c.on_event(ServerEvent::Accepted), ServerAction::Serve);
    assert_eq!(c.on_event(ServerEvent::Accepted), ServerAction::Serve);
    assert_eq!(c.on_event(ServerEvent::Signal), ServerAction::StartDrain);
    assert_eq!(c.on_event(ServerEvent::Closed), ServerAction::Nothing);
    assert_eq!(c.in_flight, 1);
    assert_eq!(c.on_event(ServerEvent::DeadlineElapsed), ServerAction::Exit);
    assert!(c.is_stopped());
    assert_eq!(c.on_event(ServerEvent::Accepted), ServerAction::Refuse);
}

#[test]
fn idle_server_stops_at_once() {
    let mut c = Coordinator::new(false);
    assert_eq!(c.on_event(ServerEvent::Signal), ServerAction::Exit);
    assert!(c.is_stopped());
    let mut c = Coordinator::new(true);
    assert_eq!(c.on_event(ServerEvent::Signal), ServerAction::StopReloader);
    assert_eq!(c.on_event(ServerEvent::ReloaderStopped), ServerAction::Exit);
}

#[test]
fn errors_on_one_connection_do_not_stop_serving() {
    let mut c = Coordinator::new(false);
    assert_eq!(c.on_event(ServerEvent::Accepted), ServerAction::Serve);
    assert_eq!(c.on_event(ServerEvent::Closed), ServerAction::Nothing);
    assert_eq!(c.phase, ServerPhase::Running);
    assert_eq!(c.on_event(ServerEvent::Accepted), ServerAction::Serve);
}
