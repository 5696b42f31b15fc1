use bnvr::daemon::ipc::{invalid_request_message, route, IpcError, IpcMethod, TunContext};
use bnvr::daemon::lifecycle::{
    check_start, check_stop, daemon_status, parse_pid, stop_step, stopped_message, DaemonReport, LifecycleError,
    PidParseError, StopStep,
};
use bnvr::daemon::supervisor::{
    after_restart_attempt, kernel_args, require_binary, require_pid, restarts_on_reload, start_plan, KernelError,
    KernelManagerStatus, KernelState, MonitorStep,
    RestartNext, RestartOutcome,
};
use bnvr::daemon::traffic_monitor::{traffic_rates, TrafficMonitor, TrafficSample, MAX_SAMPLES};
use bnvr::daemon::tun_state::TunState;
use bnvr::utilities::mihomo_api::TrafficInfo;

#[test]
fn test_new_state_disabled() {
    let state: TunState<u8> = TunState::new();
    assert!(!state.is_enabled());
    assert!(state.device_name().is_none());
}

#[test]
fn test_clear_disabled_is_idempotent() {
    let mut state: TunState<u8> = TunState::new();
    assert!(state.clear().is_none());
    assert!(!state.is_enabled());
}

#[test]
fn tun_setup_then_clear() {
    let mut state: TunState<u8> = TunState::new();
    assert!(state.check_setup().is_ok());
    state.install(7, "tun-bnvr0".to_string());
    assert!(state.is_enabled());
    assert_eq!(state.device_name(), Some("tun-bnvr0"));
    assert_eq!(state.check_setup().unwrap_err().message(), "TUN is already enabled");
    assert_eq!(state.clear(), Some(7));
    assert!(state.device_name().is_none());
    assert!(state.clear().is_none());
}

#[test]
fn pid_file_parsing() {
    assert_eq!(parse_pid("1234\n"), Ok(1234));
    assert_eq!(parse_pid(" +7 "), Ok(7));
    assert_eq!(parse_pid("  "), Err(PidParseError::Empty));
    assert_eq!(parse_pid("12a"), Err(PidParseError::InvalidDigit));
    assert_eq!(parse_pid("+"), Err(PidParseError::InvalidDigit));
    assert_eq!(parse_pid("4294967296"), Err(PidParseError::TooLarge));
    assert_eq!(PidParseError::InvalidDigit.message(), "invalid digit found in string");
}

#[test]
fn status_reports() {
    assert_eq!(daemon_status(None, false).message(), "daemon is not running");
    assert_eq!(daemon_status(Some(42), true), DaemonReport::Running(42));
    assert_eq!(daemon_status(Some(42), true).message(), "daemon is running (pid 42)");
    assert_eq!(daemon_status(Some(42), false).message(), "daemon is not running (stale PID file, pid 42)");
}

#[test]
fn start_and_stop_checks() {
    assert_eq!(check_start(None, false).unwrap(), false);
    assert_eq!(check_start(Some(9), false).unwrap(), true);
    assert_eq!(check_start(Some(9), true).unwrap_err().message(), "daemon already running (pid 9)");
    assert!(matches!(check_stop(None, false), Err(LifecycleError::NoPidFile)));
    assert_eq!(check_stop(None, false).unwrap_err().message(), "daemon is not running (no PID file)");
    assert_eq!(check_stop(Some(9), false).unwrap_err().message(), "daemon is not running (stale PID file, pid 9)");
    assert_eq!(check_stop(Some(9), true).unwrap(), 9);
    assert_eq!(stop_step(1, false), StopStep::Stopped);
    assert_eq!(stop_step(1, true), StopStep::Wait);
    assert_eq!(stop_step(30, true), StopStep::GaveUp);
    assert_eq!(LifecycleError::DidNotExit(9).message(), "daemon (pid 9) did not exit within 3 seconds");
    assert_eq!(stopped_message(9), "daemon stopped (pid 9)");
}

#[test]
fn test_ipc_unknown_method() {
    let err = route("bogus", true).unwrap_err();
    assert_eq!(err.message(), "unknown method: bogus");
    assert!(matches!(route("kernel.start", false), Err(IpcError::NoDaemonState)));
    assert_eq!(route("kernel.start", false).unwrap_err().message(), "daemon state not available");
    assert_eq!(route("status", false).unwrap(), IpcMethod::Status);
    assert_eq!(route("switch_node", false).unwrap(), IpcMethod::SwitchNode);
    assert_eq!(invalid_request_message("EOF while parsing"), "invalid request: EOF while parsing");
}

#[test]
fn ipc_method_names_route_back() {
    for m in [
        IpcMethod::Status,
        IpcMethod::Shutdown,
        IpcMethod::KernelStart,
        IpcMethod::KernelStop,
        IpcMethod::KernelStatus,
        IpcMethod::TunSetup,
        IpcMethod::TunClear,
        IpcMethod::TunContext,
        IpcMethod::AddBypass,
        IpcMethod::SwitchNode,
    ] {
        assert_eq!(route(m.name(), true).unwrap(), m);
    }
    let ctx = TunContext { device: "tun-bnvr0".into(), bypass_routes: vec!["10.0.0.1/32".into()] };
    assert_eq!(ctx.bypass_routes.len(), 1);
}

#[test]
fn traffic_rates_saturate() {
    let prev = TrafficInfo { up: 100, down: 500 };
    assert_eq!(traffic_rates(None, prev), (0, 0));
    assert_eq!(traffic_rates(Some(prev), TrafficInfo { up: 150, down: 400 }), (50, 0));
}

#[test]
fn traffic_window_keeps_last_minute() {
    let mut m = TrafficMonitor::new();
    for i in 0..(MAX_SAMPLES as u64 + 5) {
        m.record(TrafficSample { timestamp: i, upload_bps: i, download_bps: 0 });
    }
    let all = m.get_samples(1000);
    assert_eq!(all.len(), MAX_SAMPLES);
    assert_eq!(all[0].timestamp, 5);
    assert_eq!(all[MAX_SAMPLES - 1].timestamp, MAX_SAMPLES as u64 + 4);
    let last3 = m.get_samples(3);
    assert_eq!(last3.iter().map(|s| s.timestamp).collect::<Vec<_>>(), vec![62, 63, 64]);
    assert!(m.get_samples(0).is_empty());
}

#[test]
fn test_kernel_manager_new_not_running() {
    let state: KernelState<u32> = KernelState::new();
    let s = state.status(None);
    assert!(!s.running);
    assert!(s.pid.is_none());
}

#[test]
fn test_kernel_manager_stop_when_not_running() {
    let mut state: KernelState<u32> = KernelState::new();
    let err = state.stop().unwrap_err();
    assert_eq!(err, KernelError::NotRunning);
    assert_eq!(err.message(), "kernel not running");
}

#[test]
fn test_monitor_stop_does_not_deadlock_or_restart() {
    let mut state: KernelState<u32> = KernelState::new();
    assert!(state.check_start(None).is_ok());
    state.record_started(5, "v1".to_string());
    assert_eq!(state.status(Some(77)).pid, Some(77));
    assert_eq!(state.stop().unwrap(), 5);
    assert!(!state.restart_still_wanted());
    assert!(state.restart_version().is_none());
}

#[test]
fn window_after_many_readings_keeps_last_minute() {
    let mut monitor = TrafficMonitor::new();
    let mut last = None;
    for i in 0..70u64 {
        let current = TrafficInfo { up: i * 10, down: i * 20 };
        monitor.record_reading(last, current, 1000 + i);
        last = Some(current);
    }
    let all = monitor.get_samples(100);
    assert_eq!(all.len(), MAX_SAMPLES);
    assert_eq!(all[0].timestamp, 1010);
    assert_eq!(all[59].timestamp, 1069);
    assert!(all.iter().all(|s| s.upload_bps == 10 && s.download_bps == 20));
    let last_three = monitor.get_samples(3);
    assert_eq!(last_three.iter().map(|s| s.timestamp).collect::<Vec<_>>(), vec![1067, 1068, 1069]);
}

#[test]
fn first_reading_has_no_rate() {
    let mut monitor = TrafficMonitor::new();
    monitor.record_reading(None, TrafficInfo { up: 500, down: 700 }, 5);
    monitor.record_reading(Some(TrafficInfo { up: 500, down: 700 }), TrafficInfo { up: 400, down: 900 }, 6);
    let samples = monitor.get_samples(10);
    assert_eq!(samples[0], TrafficSample { timestamp: 5, upload_bps: 0, download_bps: 0 });
    assert_eq!(samples[1], TrafficSample { timestamp: 6, upload_bps: 0, download_bps: 200 });
}

#[test]
fn offered_restart_keeps_running_process() {
    let mut state: KernelState<u32> = KernelState::new();
    state.record_started(7, "v1".to_string());
    assert_eq!(state.offer_restarted(9), Some(9));
    assert_eq!(state.child(), Some(&7));
    assert_eq!(state.take_child(), Some(7));
    assert_eq!(state.offer_restarted(9), None);
    assert_eq!(state.child(), Some(&9));
    assert_eq!(state.stop().unwrap(), 9);
    assert_eq!(state.offer_restarted(11), Some(11));
    assert_eq!(state.child(), None);
}

#[test]
fn monitor_steps() {
    let mut state: KernelState<u32> = KernelState::new();
    assert!(matches!(state.after_poll(false), MonitorStep::Wait(1)));
    assert!(matches!(state.after_poll(true), MonitorStep::PollAgain));
    state.record_started(7, "v1".to_string());
    state.take_child();
    match state.after_poll(true) {
        MonitorStep::Restart { delay_secs, version } => {
            assert_eq!(delay_secs, 3);
            assert_eq!(version, "v1");
        }
        other => panic!("unexpected step {other:?}"),
    }
    assert_eq!(after_restart_attempt(RestartOutcome::SpawnFailed), RestartNext::RetryAfter(5));
    assert_eq!(after_restart_attempt(RestartOutcome::Spawned), RestartNext::Finish);
    assert_eq!(after_restart_attempt(RestartOutcome::BinaryMissing), RestartNext::Finish);
    assert_eq!(after_restart_attempt(RestartOutcome::NotWanted), RestartNext::Finish);
}

#[test]
fn start_refusals_in_order() {
    assert_eq!(start_plan(None, "/h", false).unwrap_err(), KernelError::NoActiveVersion);
    let (version, binary) = start_plan(Some("v1.2".to_string()), "/h", false).unwrap();
    assert_eq!(version, "v1.2");
    assert_eq!(binary, "/h/kernels/v1.2/mihomo");
    assert_eq!(
        require_binary(binary.clone(), false).unwrap_err().message(),
        "binary not found: /h/kernels/v1.2/mihomo"
    );
    assert_eq!(require_binary(binary.clone(), true).unwrap(), binary);
    assert_eq!(require_pid(None).unwrap_err().message(), "failed to get child PID");
    assert_eq!(require_pid(Some(42)).unwrap(), 42);
    assert_eq!(kernel_args("/h"), vec!["-d".to_string(), "/h".to_string()]);
}

#[test]
fn reload_restarts_only_a_running_kernel() {
    let running = KernelManagerStatus { running: true, pid: Some(3), version: Some("v1".to_string()) };
    let stopped = KernelManagerStatus { running: false, pid: None, version: Some("v1".to_string()) };
    assert!(restarts_on_reload(&running));
    assert!(!restarts_on_reload(&stopped));
}
