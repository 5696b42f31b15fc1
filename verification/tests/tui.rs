use bnvr::tui::app::{AppState, DaemonStatus, FocusedArea, KernelStatus, NodeInfo, NodesSnapshot, TrafficSample};
use bnvr::tui::event::{handle_key, AsyncAction, Key, KeyCode};
use bnvr::tui::log_reader::{resume_position, strip_line_end, tail_lines};
use bnvr::tui::view::{
    daemon_row, kernel_row, log_lines_shown, log_window, max_rate, node_row, status_bar_text, summary_row,
    connections_row_unavailable, traffic_title, truncate_line,
};

fn node(name: &str, delay: Option<u32>) -> NodeInfo {
    NodeInfo { name: name.to_string(), proxy_type: "ss".to_string(), delay }
}

fn key(c: KeyCode) -> Key {
    Key { code: c, control: false }
}

#[test]
fn truncation() {
    assert_eq!(truncate_line("hello world", 0), "");
    assert_eq!(truncate_line("hello", 5), "hello");
    assert_eq!(truncate_line("hello world", 8), "hello...");
    assert_eq!(truncate_line("hello world", 2), "...");
    assert_eq!(truncate_line("héllo wörld", 7), "héll...");
}

#[test]
fn log_window_positions() {
    let w = log_window(100, 12, true, 0);
    assert_eq!((w.start, w.end, w.more), (90, 100, false));
    let w = log_window(100, 12, false, 5);
    assert_eq!((w.start, w.end, w.more), (5, 15, true));
    let w = log_window(100, 12, false, 95);
    assert_eq!((w.start, w.end), (90, 100));
    let w = log_window(3, 1, false, 0);
    assert_eq!((w.start, w.end, w.more), (0, 1, true));
    let w = log_window(0, 10, true, 0);
    assert_eq!((w.start, w.end, w.more), (0, 0, false));
}

#[test]
fn log_pane_text() {
    let mut state = AppState::new();
    let (lines, more) = log_lines_shown(&state, 10, 20);
    assert_eq!(lines, vec!["No log file found".to_string()]);
    assert!(!more);
    state.append_log_lines(vec!["a very long log line indeed".into(), "b".into(), "c".into()]);
    let (lines, _) = log_lines_shown(&state, 4, 12);
    assert_eq!(lines, vec!["b".to_string(), "c".to_string()]);
}

#[test]
fn status_rows() {
    assert_eq!(daemon_row(&Some(DaemonStatus { pid: 7, uptime_secs: 30 }), true), "Daemon: running (pid 7, uptime 30s)");
    assert_eq!(daemon_row(&None, true), "Daemon: running");
    assert_eq!(daemon_row(&None, false), "Daemon: not running");
    assert_eq!(summary_row("Profile", Some("work"), 3), "Profile: work (3 total)");
    assert_eq!(summary_row("Plugin", None, 0), "Plugin: -- (0 total)");
    let k = KernelStatus { running: true, pid: Some(9), version: None };
    assert_eq!(kernel_row(&Some(k)), "Kernel: unknown (running pid 9)");
    let k = KernelStatus { running: false, pid: None, version: Some("v1".into()) };
    assert_eq!(kernel_row(&Some(k)), "Kernel: stopped");
    assert_eq!(kernel_row(&None), "Kernel: --");
}

#[test]
fn node_rows_and_hints() {
    assert_eq!(node_row(&node("jp-1", Some(42)), Some("jp-1")), "[*] jp-1 [ss] (42ms)");
    assert_eq!(node_row(&node("us-1", None), Some("jp-1")), "[ ] us-1 [ss] (---)");
    assert_eq!(
        status_bar_text(FocusedArea::LogView),
        " q: quit | Tab: focus | focus: logs | nodes: j/k Enter n | logs: j/k u/d Space G "
    );
}

#[test]
fn chart_scale() {
    assert_eq!(max_rate(&Vec::new()), 1);
    let samples = vec![
        TrafficSample { timestamp: 1, upload_bps: 5, download_bps: 90 },
        TrafficSample { timestamp: 2, upload_bps: 70, download_bps: 3 },
    ];
    assert_eq!(max_rate(&samples), 90);
    assert_eq!(traffic_title(&samples), "Network Traffic (60s)");
    assert_eq!(traffic_title(&Vec::new()), "Network Traffic (unavailable)");
}

#[test]
fn keys_drive_the_dashboard() {
    let mut state = AppState::new();
    state.apply_nodes(NodesSnapshot { nodes: vec![node("a", None), node("b", None)], current: None });
    assert!(state.is_well_formed());
    assert_eq!(handle_key(key(KeyCode::Down), &mut state), None);
    assert_eq!(state.selected_node_name().as_deref(), Some("b"));
    assert_eq!(handle_key(key(KeyCode::Enter), &mut state), Some(AsyncAction::SwitchNode("b".into())));
    assert_eq!(handle_key(key(KeyCode::Char('n')), &mut state), Some(AsyncAction::TestNode("b".into())));
    handle_key(key(KeyCode::Tab), &mut state);
    assert_eq!(state.focused, FocusedArea::LogView);
    assert_eq!(handle_key(Key { code: KeyCode::Char('c'), control: true }, &mut state), None);
    assert!(state.should_quit);
}

#[test]
fn log_reading_helpers() {
    assert_eq!(resume_position(10, 20), 0);
    assert_eq!(resume_position(30, 20), 20);
    assert_eq!(strip_line_end("line\r\n"), "line");
    assert_eq!(strip_line_end("line"), "line");
    assert_eq!(tail_lines("a\nb\r\nc\n", 2), vec!["b".to_string(), "c".to_string()]);
    assert_eq!(tail_lines("a\nb", 10), vec!["a".to_string(), "b".to_string()]);
    assert!(tail_lines("", 3).is_empty());
}

#[test]
fn fresh_state_status_rows() {
    let state = AppState::new();
    let rows = bnvr::tui::view::status_rows(&state, None);
    assert_eq!(
        rows,
        vec![
            "Daemon: not running".to_string(),
            "Profile: -- (0 total)".to_string(),
            "Kernel: --".to_string(),
            "Plugin: -- (0 total)".to_string(),
            "Connections: -- (data unavailable)".to_string(),
        ]
    );
    assert_eq!(connections_row_unavailable(), "Connections: -- (data unavailable)");
}

#[test]
fn status_rows_keep_given_connections_row() {
    let state = AppState::new();
    let rows = bnvr::tui::view::status_rows(&state, Some("Connections: 4 (up 1.0 KB down 2.0 KB)".to_string()));
    assert_eq!(rows[4], "Connections: 4 (up 1.0 KB down 2.0 KB)");
}
