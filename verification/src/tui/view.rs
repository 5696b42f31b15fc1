//! What the dashboard draws, as text: the status rows, the node rows, the
//! window of log lines and the key hints. Drawing itself is the terminal
//! library's work.

use vstd::prelude::*;

use crate::text::{chars_of, decimal, decimal_string, string_of};
use crate::tui::app::{AppState, DaemonStatus, FocusedArea, KernelStatus, NodeInfo, PluginInfo, ProfileInfo, TrafficSample};

verus! {

/// A line cut to `width` characters: one that fits is kept; a longer one
/// keeps `width - 3` characters (none where `width < 3`) and ends in `...`.
/// No width gives nothing.
pub open spec fn truncated(line: Seq<char>, width: nat) -> Seq<char> {
    if width == 0 {
        Seq::empty()
    } else if line.len() <= width {
        line
    } else {
        line.take(if width >= 3 { width - 3 } else { 0 }) + "..."@
    }
}

/// A cut line fits its width, where the width leaves room for the `...`
/// (three characters or more) or the line fits as it is.
pub proof fn lemma_truncated_fits(line: Seq<char>, width: nat)
    requires
        width >= 3 || width == 0 || line.len() <= width,
    ensures
        truncated(line, width).len() <= width,
{
    reveal_strlit("...");
}

/// See `truncated`.
pub fn truncate_line(line: &str, width: usize) -> (r: String)
    ensures
        r@ == truncated(line@, width as nat),
{
    if width == 0 {
        return String::new();
    }
    let cs = chars_of(line);
    if cs.len() <= width {
        return line.to_owned();
    }
    let keep = width.saturating_sub(3);
    let mut out: Vec<char> = Vec::new();
    let mut i: usize = 0;
    while i < keep
        invariant
            keep < cs@.len(),
            i <= keep,
            out@ == cs@.take(i as int),
        decreases keep - i,
    {
        out.push(cs[i]);
        assert(out@ =~= cs@.take(i + 1));
        i = i + 1;
    }
    let mut t = string_of(out.as_slice());
    t.append("...");
    t
}

/// The part of the log the dashboard shows.
#[derive(Debug, Clone, Copy, PartialEq, Eq, Structural)]
pub struct LogWindow {
    /// The first line shown.
    pub start: usize,
    /// One past the last line shown.
    pub end: usize,
    /// Whether lines follow the window.
    pub more: bool,
}

/// The lines that fit a pane of `area_height` rows (two go to its border;
/// at least one line is shown). Following the log shows its end; else the
/// window starts at the scroll position, but never past the last full
/// window.
pub open spec fn log_window_spec(count: nat, area_height: nat, auto_scroll: bool, offset: nat) -> LogWindow {
    let height: nat = if area_height >= 3 { (area_height - 2) as nat } else { 1 };
    let max_start: nat = if count >= height { (count - height) as nat } else { 0 };
    let start: nat = if auto_scroll { max_start } else if offset <= max_start { offset } else { max_start };
    let end: nat = if start + height <= count { start + height } else { count };
    LogWindow { start: start as usize, end: end as usize, more: end < count }
}

/// See `log_window_spec`.
pub fn log_window(count: usize, area_height: u16, auto_scroll: bool, offset: usize) -> (r: LogWindow)
    ensures
        r == log_window_spec(count as nat, area_height as nat, auto_scroll, offset as nat),
        r.start <= r.end <= count,
{
    let h = area_height.saturating_sub(2);
    let height: usize = if h >= 1 { h as usize } else { 1 };
    let max_start = count.saturating_sub(height);
    let start = if auto_scroll {
        max_start
    } else if offset <= max_start {
        offset
    } else {
        max_start
    };
    let end = if count >= height && start <= count - height {
        start + height
    } else {
        count
    };
    LogWindow { start, end, more: end < count }
}

/// The log lines drawn in a pane `area_width` columns wide and
/// `area_height` rows high, each cut to the inner width, with whether more
/// lines follow. An empty window shows `No log file found`.
pub fn log_lines_shown(state: &AppState, area_height: u16, area_width: u16) -> (r: (Vec<String>, bool))
    ensures
        ({
            let w = log_window_spec(state.log_lines@.len(), area_height as nat, state.log_auto_scroll, state.log_scroll_offset as nat);
            let width: nat = if area_width >= 2 { (area_width - 2) as nat } else { 0 };
            &&& r.1 == w.more
            &&& if w.start == w.end {
                r.0@.len() == 1 && r.0@[0]@ == "No log file found"@
            } else {
                &&& r.0@.len() == w.end - w.start
                &&& forall|i: int| 0 <= i < r.0@.len() ==> #[trigger] r.0@[i]@ == truncated(state.log_lines@[w.start + i]@, width)
            }
        }),
{
    let w = log_window(state.log_lines.len(), area_height, state.log_auto_scroll, state.log_scroll_offset);
    let width: usize = area_width.saturating_sub(2) as usize;
    let mut out: Vec<String> = Vec::new();
    let mut i: usize = w.start;
    while i < w.end
        invariant
            w.start <= i <= w.end <= state.log_lines@.len(),
            out@.len() == i - w.start,
            forall|k: int| 0 <= k < out@.len() ==> #[trigger] out@[k]@ == truncated(state.log_lines@[w.start + k]@, width as nat),
        decreases w.end - i,
    {
        out.push(truncate_line(state.log_lines[i].as_str(), width));
        i = i + 1;
    }
    if out.len() == 0 {
        out.push("No log file found".to_owned());
    }
    (out, w.more)
}

/// The text of the status panel's daemon row.
pub open spec fn daemon_row_text(status: Option<DaemonStatus>, connected: bool) -> Seq<char> {
    match status {
        Some(d) => "Daemon: running (pid "@ + decimal(d.pid as nat) + ", uptime "@ + decimal(d.uptime_secs as nat) + "s)"@,
        None => if connected {
            "Daemon: running"@
        } else {
            "Daemon: not running"@
        },
    }
}

/// The status panel's daemon row.
pub fn daemon_row(status: &Option<DaemonStatus>, connected: bool) -> (r: String)
    ensures
        r@ == daemon_row_text(*status, connected),
{
    match status {
        Some(d) => {
            let mut r = "Daemon: running (pid ".to_owned();
            let p = decimal_string(d.pid as u64);
            r.append(p.as_str());
            r.append(", uptime ");
            let u = decimal_string(d.uptime_secs);
            r.append(u.as_str());
            r.append("s)");
            r
        }
        None => if connected {
            "Daemon: running".to_owned()
        } else {
            "Daemon: not running".to_owned()
        },
    }
}

/// The text of a `{label}: {active} ({count} total)` row: `--` where
/// nothing is active or nothing is known.
pub open spec fn summary_row_text(label: Seq<char>, active: Option<Seq<char>>, count: nat) -> Seq<char> {
    label + ": "@ + (match active {
        Some(a) => a,
        None => "--"@,
    }) + " ("@ + decimal(count) + " total)"@
}

/// A `{label}: {active} ({count} total)` row (see `summary_row_text`).
pub fn summary_row(label: &str, active: Option<&str>, count: usize) -> (r: String)
    ensures
        r@ == summary_row_text(label@, (match active {
            Some(a) => Some(a@),
            None => None,
        }), count as nat),
{
    let mut r = label.to_owned();
    r.append(": ");
    match active {
        Some(a) => r.append(a),
        None => r.append("--"),
    }
    r.append(" (");
    let c = decimal_string(count as u64);
    r.append(c.as_str());
    r.append(" total)");
    r
}

/// The text of the status panel's kernel row.
pub open spec fn kernel_row_text(status: Option<KernelStatus>) -> Seq<char> {
    match status {
        Some(k) => if k.running {
            "Kernel: "@ + (match k.version {
                Some(v) => v@,
                None => "unknown"@,
            }) + " (running pid "@ + (match k.pid {
                Some(p) => decimal(p as nat),
                None => "--"@,
            }) + ")"@
        } else {
            "Kernel: stopped"@
        },
        None => "Kernel: --"@,
    }
}

/// The status panel's kernel row.
pub fn kernel_row(status: &Option<KernelStatus>) -> (r: String)
    ensures
        r@ == kernel_row_text(*status),
{
    match status {
        Some(k) => {
            if k.running {
                let mut r = "Kernel: ".to_owned();
                match &k.version {
                    Some(v) => r.append(v.as_str()),
                    None => r.append("unknown"),
                }
                r.append(" (running pid ");
                match k.pid {
                    Some(p) => {
                        let d = decimal_string(p as u64);
                        r.append(d.as_str());
                    }
                    None => r.append("--"),
                }
                r.append(")");
                r
            } else {
                "Kernel: stopped".to_owned()
            }
        }
        None => "Kernel: --".to_owned(),
    }
}

/// The connections row where no connection data is known.
pub open spec fn connections_unavailable_text() -> Seq<char> {
    "Connections: -- (data unavailable)"@
}

/// The connections row where no connection data is known.
pub fn connections_row_unavailable() -> (r: String)
    ensures
        r@ == connections_unavailable_text(),
{
    "Connections: -- (data unavailable)".to_owned()
}

/// The active name of a profile summary, where one is known.
pub open spec fn active_profile(info: Option<ProfileInfo>) -> Option<Seq<char>> {
    match info {
        Some(p) => match p.active {
            Some(a) => Some(a@),
            None => None,
        },
        None => None,
    }
}

/// The number of profiles known, 0 where none are.
pub open spec fn profile_count(info: Option<ProfileInfo>) -> nat {
    match info {
        Some(p) => p.list@.len(),
        None => 0,
    }
}

/// The active name of a plugin summary, where one is known.
pub open spec fn active_plugin(info: Option<PluginInfo>) -> Option<Seq<char>> {
    match info {
        Some(p) => match p.active {
            Some(a) => Some(a@),
            None => None,
        },
        None => None,
    }
}

/// The number of plugins known, 0 where none are.
pub open spec fn plugin_count(info: Option<PluginInfo>) -> nat {
    match info {
        Some(p) => p.list@.len(),
        None => 0,
    }
}

/// The five rows of the status panel, in order: daemon, profile, kernel,
/// plugin, connections.
pub open spec fn status_rows_text(state: AppState, connections: Option<Seq<char>>) -> Seq<Seq<char>> {
    seq![
        daemon_row_text(state.daemon_status, state.daemon_connected),
        summary_row_text("Profile"@, active_profile(state.profile_info), profile_count(state.profile_info)),
        kernel_row_text(state.kernel_status),
        summary_row_text("Plugin"@, active_plugin(state.plugin_info), plugin_count(state.plugin_info)),
        match connections {
            Some(c) => c,
            None => connections_unavailable_text(),
        },
    ]
}

/// The rows of the status panel (see `status_rows_text`). `connections` is
/// the connections row where connection data is known; without it the row
/// says the data is unavailable.
pub fn status_rows(state: &AppState, connections: Option<String>) -> (r: Vec<String>)
    ensures
        r@.len() == 5,
        forall|i: int| 0 <= i < 5 ==> #[trigger] r@[i]@ == status_rows_text(*state, opt_view(connections))[i],
{
    let profile_active: Option<&str> = match &state.profile_info {
        Some(p) => match &p.active {
            Some(a) => Some(a.as_str()),
            None => None,
        },
        None => None,
    };
    let profile_n: usize = match &state.profile_info {
        Some(p) => p.list.len(),
        None => 0,
    };
    let plugin_active: Option<&str> = match &state.plugin_info {
        Some(p) => match &p.active {
            Some(a) => Some(a.as_str()),
            None => None,
        },
        None => None,
    };
    let plugin_n: usize = match &state.plugin_info {
        Some(p) => p.list.len(),
        None => 0,
    };
    let mut rows: Vec<String> = Vec::new();
    rows.push(daemon_row(&state.daemon_status, state.daemon_connected));
    rows.push(summary_row("Profile", profile_active, profile_n));
    rows.push(kernel_row(&state.kernel_status));
    rows.push(summary_row("Plugin", plugin_active, plugin_n));
    match connections {
        Some(c) => rows.push(c),
        None => rows.push(connections_row_unavailable()),
    }
    rows
}

/// The view of an optional string.
pub open spec fn opt_view(o: Option<String>) -> Option<Seq<char>> {
    match o {
        Some(s) => Some(s@),
        None => None,
    }
}

/// A node's row: `[*]` marks the current node, then its name, protocol and
/// last delay (`---` where none is known).
pub fn node_row(node: &NodeInfo, current: Option<&str>) -> (r: String)
    ensures
        r@ == (if current matches Some(c) && c@ == node.name@ {
            "[*]"@
        } else {
            "[ ]"@
        }) + " "@ + node.name@ + " ["@ + node.proxy_type@ + "] ("@ + (match node.delay {
            Some(d) => decimal(d as nat) + "ms"@,
            None => "---"@,
        }) + ")"@,
{
    let is_current = match current {
        Some(c) => crate::text::same_text(c, node.name.as_str()),
        None => false,
    };
    let mut r = if is_current {
        "[*]".to_owned()
    } else {
        "[ ]".to_owned()
    };
    r.append(" ");
    r.append(node.name.as_str());
    r.append(" [");
    r.append(node.proxy_type.as_str());
    r.append("] (");
    match node.delay {
        Some(d) => {
            let s = decimal_string(d as u64);
            r.append(s.as_str());
            r.append("ms");
        }
        None => r.append("---"),
    }
    r.append(")");
    r
}

/// The key hints at the bottom, naming the focused area.
pub fn status_bar_text(focused: FocusedArea) -> (r: String)
    ensures
        r@ == " q: quit | Tab: focus | focus: "@ + (match focused {
            FocusedArea::NodeList => "nodes"@,
            FocusedArea::LogView => "logs"@,
        }) + " | nodes: j/k Enter n | logs: j/k u/d Space G "@,
{
    let mut r = " q: quit | Tab: focus | focus: ".to_owned();
    match focused {
        FocusedArea::NodeList => r.append("nodes"),
        FocusedArea::LogView => r.append("logs"),
    }
    r.append(" | nodes: j/k Enter n | logs: j/k u/d Space G ");
    r
}

/// The largest rate among the samples, and at least 1: the chart's height.
pub open spec fn max_rate_of(samples: Seq<TrafficSample>) -> u64
    decreases samples.len(),
{
    if samples.len() == 0 {
        1
    } else {
        let rest = max_rate_of(samples.drop_last());
        let s = samples.last();
        let m = if s.upload_bps >= s.download_bps { s.upload_bps } else { s.download_bps };
        if m >= rest { m } else { rest }
    }
}

/// See `max_rate_of`.
pub fn max_rate(samples: &Vec<TrafficSample>) -> (r: u64)
    ensures
        r == max_rate_of(samples@),
        r >= 1,
{
    let mut best: u64 = 1;
    let mut i: usize = 0;
    while i < samples.len()
        invariant
            i <= samples@.len(),
            best == max_rate_of(samples@.take(i as int)),
            best >= 1,
        decreases samples@.len() - i,
    {
        proof {
            assert(samples@.take(i + 1).drop_last() =~= samples@.take(i as int));
            assert(samples@.take(i + 1).last() == samples@[i as int]);
        }
        let s = samples[i];
        let m = if s.upload_bps >= s.download_bps { s.upload_bps } else { s.download_bps };
        if m >= best {
            best = m;
        }
        i = i + 1;
    }
    assert(samples@.take(samples@.len() as int) =~= samples@);
    best
}

/// The chart's title: it says when no samples are there.
pub fn traffic_title(samples: &Vec<TrafficSample>) -> (r: &'static str)
    ensures
        r@ == (if samples@.len() == 0 {
            "Network Traffic (unavailable)"@
        } else {
            "Network Traffic (60s)"@
        }),
{
    if samples.len() == 0 {
        "Network Traffic (unavailable)"
    } else {
        "Network Traffic (60s)"
    }
}

} // verus!
