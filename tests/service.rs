use tt_riingd::event::{ConfigChangeType, Event};
use tt_riingd::service::{
    aggregate_outcomes, decide, first_critical_failure, on_start_result, order_by_priority, Lifecycle, LifecycleError,
    LoopAction, ServiceInfo, StartDecision, TaskOutcome, TaskRegistry,
};

fn svc(name: &str, priority: i32, critical: bool) -> ServiceInfo {
    ServiceInfo { name: name.to_string(), priority, critical }
}

#[test]
fn services_start_by_descending_priority() {
    let ordered = order_by_priority(vec![
        svc("BroadcastService", 3, false),
        svc("MonitoringService", 10, true),
        svc("FanColorService", 4, false),
        svc("ConfigWatcherService", 6, false),
        svc("DBusService", 8, true),
    ]);
    let names: Vec<&str> = ordered.iter().map(|s| s.name.as_str()).collect();
    assert_eq!(names, vec!["MonitoringService", "DBusService", "ConfigWatcherService", "FanColorService", "BroadcastService"]);
}

#[test]
fn start_failures() {
    assert_eq!(on_start_result(true, false), StartDecision::Abort);
    assert_eq!(on_start_result(false, false), StartDecision::Continue);
    assert_eq!(on_start_result(true, true), StartDecision::Continue);
    assert_eq!(first_critical_failure(&vec![true, false, true], &vec![true, false, false]), Some(2));
    assert_eq!(first_critical_failure(&vec![true, false], &vec![true, false]), None);
}

#[test]
fn lifecycle_transitions() {
    let mut s = Lifecycle::Uninitialized;
    assert_eq!(s.start(), Err(LifecycleError::NotInitialized));
    assert_eq!(s.initialize(), Ok(()));
    assert_eq!(s.initialize(), Err(LifecycleError::AlreadyInitialized));
    assert_eq!(s.start(), Ok(()));
    assert_eq!(s, Lifecycle::Running);
    s.shutdown();
    assert_eq!(s, Lifecycle::Shutdown);
}

#[test]
fn shutdown_reports_first_failure() {
    assert_eq!(aggregate_outcomes(vec![TaskOutcome::Completed, TaskOutcome::Completed]), Ok(()));
    assert_eq!(aggregate_outcomes(vec![]), Ok(()));
    assert_eq!(
        aggregate_outcomes(vec![
            TaskOutcome::Completed,
            TaskOutcome::ShutdownTimeout,
            TaskOutcome::Failed("x".to_string()),
        ]),
        Err(TaskOutcome::ShutdownTimeout)
    );
}

#[test]
fn no_task_active_after_drain() {
    let mut reg = TaskRegistry::new();
    reg.register("MonitoringService".to_string());
    reg.register("BroadcastService".to_string());
    assert_eq!(reg.active(), 2);
    let taken = reg.drain();
    assert_eq!(taken, vec!["MonitoringService".to_string(), "BroadcastService".to_string()]);
    assert_eq!(reg.active(), 0);
}

#[test]
fn main_loop_decisions() {
    assert_eq!(decide(Event::ConfigChangeDetected(ConfigChangeType::HotReload)), LoopAction::HotReload);
    assert_eq!(
        decide(Event::ConfigChangeDetected(ConfigChangeType::ColdRestart { changed_sections: vec!["sensors".to_string()] })),
        LoopAction::AdviseRestart(vec!["sensors".to_string()])
    );
    assert_eq!(decide(Event::SystemShutdown), LoopAction::Shutdown);
    assert_eq!(decide(Event::ColorChanged), LoopAction::Ignore);
    assert_eq!(decide(Event::TemperatureChanged(vec![("cpu".to_string(), 1)])), LoopAction::Ignore);
}

#[test]
fn cli_options() {
    let c = tt_riingd::cli::Cli::new(Some("/etc/tt_riingd/config.yml".to_string()), true);
    assert_eq!(c.config.as_deref(), Some("/etc/tt_riingd/config.yml"));
    assert!(c.daemonize);
}
