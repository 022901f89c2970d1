use mqtt_system_monitor::configuration::ConfigError;
use mqtt_system_monitor::lifecycle::{Action, Event, Phase, ReportingLoop};

#[test]
fn periods_that_are_refused() {
    assert_eq!(ReportingLoop::start(0), Err(ConfigError::ZeroPeriod));
    assert_eq!(ReportingLoop::start(31), Err(ConfigError::PeriodTooLong));
    assert_eq!(ReportingLoop::start(60), Err(ConfigError::PeriodTooLong));
    assert_eq!(ReportingLoop::start(3600), Err(ConfigError::PeriodTooLong));
    assert!(ReportingLoop::start(1).is_ok());
    assert!(ReportingLoop::start(30).is_ok());
}

#[test]
fn cycles_between_registrations() {
    assert_eq!(ReportingLoop::start(10).unwrap().expire_cycles, 5);
    assert_eq!(ReportingLoop::start(1).unwrap().expire_cycles, 59);
    assert_eq!(ReportingLoop::start(30).unwrap().expire_cycles, 1);
    assert_eq!(ReportingLoop::start(7).unwrap().expire_cycles, 7);
}

#[test]
fn startup_then_cycles() {
    let mut state = ReportingLoop::start(10).unwrap();
    assert_eq!(state.phase, Phase::Starting);
    assert_eq!(state.pending, Action::PublishRegistration);
    assert_eq!(state.wait_seconds(), None);

    assert_eq!(state.advance(Event::Completed), Action::Settle);
    assert_eq!(state.wait_seconds(), Some(1));
    assert_eq!(state.phase, Phase::Starting);

    // Four cycles with the status alone, then one that starts with the registration
    for cycle in 1..=4u64 {
        assert_eq!(state.advance(Event::Completed), Action::PublishStatus);
        assert_eq!(state.phase, Phase::Running);
        assert_eq!(state.cycles_counter, cycle);
        assert_eq!(state.advance(Event::Completed), Action::Sleep);
        assert_eq!(state.wait_seconds(), Some(10));
    }
    assert_eq!(state.advance(Event::Completed), Action::PublishRegistration);
    assert_eq!(state.cycles_counter, 0);
    assert_eq!(state.phase, Phase::Running);
    assert_eq!(state.advance(Event::Completed), Action::PublishStatus);
    assert_eq!(state.advance(Event::Completed), Action::Sleep);
    assert_eq!(state.advance(Event::Completed), Action::PublishStatus);
    assert_eq!(state.cycles_counter, 1);
    assert!(!state.is_stopped());
}

#[test]
fn longest_period_registers_at_every_cycle() {
    let mut state = ReportingLoop::start(30).unwrap();
    assert_eq!(state.advance(Event::Completed), Action::Settle);
    for _ in 0..3 {
        assert_eq!(state.advance(Event::Completed), Action::PublishRegistration);
        assert_eq!(state.advance(Event::Completed), Action::PublishStatus);
        assert_eq!(state.advance(Event::Completed), Action::Sleep);
        assert_eq!(state.wait_seconds(), Some(30));
    }
}

#[test]
fn shutdown_while_running() {
    let mut state = ReportingLoop::start(10).unwrap();
    state.advance(Event::Completed);
    state.advance(Event::Completed);
    assert_eq!(state.advance(Event::Completed), Action::Sleep);

    assert_eq!(state.advance(Event::Cancelled), Action::PublishOff);
    assert_eq!(state.phase, Phase::Stopping);
    assert_eq!(state.advance(Event::Completed), Action::Grace);
    assert_eq!(state.wait_seconds(), Some(1));
    assert_eq!(state.advance(Event::Completed), Action::Exit);
    assert_eq!(state.phase, Phase::Stopped);
    assert!(state.is_stopped());
    assert!(!state.failed);

    // Nothing happens after the end
    let end = state;
    assert_eq!(state.advance(Event::Completed), Action::Exit);
    assert_eq!(state.advance(Event::Cancelled), Action::Exit);
    assert_eq!(state, end);
}

#[test]
fn last_message_is_best_effort() {
    let mut state = ReportingLoop::start(10).unwrap();
    state.advance(Event::Completed);
    state.advance(Event::Completed);
    state.advance(Event::Completed);
    assert_eq!(state.advance(Event::Cancelled), Action::PublishOff);
    assert_eq!(state.advance(Event::Failed), Action::Grace);
    assert_eq!(state.advance(Event::Completed), Action::Exit);
    assert!(!state.failed);
}

#[test]
fn publish_failure_ends_the_run() {
    // while starting
    let mut state = ReportingLoop::start(10).unwrap();
    assert_eq!(state.advance(Event::Failed), Action::Exit);
    assert_eq!(state.phase, Phase::Stopped);
    assert!(state.failed);

    // while running, on the status
    let mut state = ReportingLoop::start(10).unwrap();
    state.advance(Event::Completed);
    assert_eq!(state.advance(Event::Completed), Action::PublishStatus);
    assert_eq!(state.advance(Event::Failed), Action::Exit);
    assert!(state.is_stopped());
    assert!(state.failed);

    // while running, on the registration
    let mut state = ReportingLoop::start(30).unwrap();
    state.advance(Event::Completed);
    assert_eq!(state.advance(Event::Completed), Action::PublishRegistration);
    assert_eq!(state.advance(Event::Failed), Action::Exit);
    assert!(state.failed);
}

#[test]
fn loop_of_a_daemon() {
    let mut conf = mqtt_system_monitor::Configuration::with_defaults("host".to_string());
    conf.mqtt.update_period = 20;
    let daemon = mqtt_system_monitor::Daemon::new(conf, &Vec::new()).unwrap();
    let state = daemon.reporting_loop();
    assert_eq!(state, ReportingLoop::start(20).unwrap());
    assert_eq!(state.period, 20);
    assert_eq!(state.expire_cycles, 2);
    assert_eq!(state.cycles_counter, 0);
    assert_eq!(state.phase, Phase::Starting);
    assert_eq!(state.pending, Action::PublishRegistration);
    assert!(!state.failed);
}
