//! The dashboard's state: what it shows and how the keys move through it.

use vstd::prelude::*;

verus! {

/// Most log lines the dashboard keeps.
pub const MAX_LOG_LINES: usize = 1000;

#[derive(Debug, Clone, Copy, PartialEq, Eq, Structural)]
pub enum FocusedArea {
    NodeList,
    LogView,
}

impl FocusedArea {
    /// The other area.
    pub fn next(self) -> (r: Self)
        ensures
            r == (match self {
                FocusedArea::NodeList => FocusedArea::LogView,
                FocusedArea::LogView => FocusedArea::NodeList,
            }),
    {
        match self {
            FocusedArea::NodeList => FocusedArea::LogView,
            FocusedArea::LogView => FocusedArea::NodeList,
        }
    }
}

/// Moving the focus twice brings it back.
pub proof fn lemma_next_twice(a: FocusedArea)
    ensures
        (match (match a {
            FocusedArea::NodeList => FocusedArea::LogView,
            FocusedArea::LogView => FocusedArea::NodeList,
        }) {
            FocusedArea::NodeList => FocusedArea::LogView,
            FocusedArea::LogView => FocusedArea::NodeList,
        }) == a,
        (match a {
            FocusedArea::NodeList => FocusedArea::LogView,
            FocusedArea::LogView => FocusedArea::NodeList,
        }) != a,
{
}

#[derive(Debug)]
pub struct DaemonStatus {
    pub pid: u32,
    pub uptime_secs: u64,
}

#[derive(Debug)]
pub struct ProfileInfo {
    pub active: Option<String>,
    pub list: Vec<String>,
}

#[derive(Debug)]
pub struct KernelStatus {
    pub running: bool,
    pub pid: Option<u32>,
    pub version: Option<String>,
}

#[derive(Debug)]
pub struct PluginInfo {
    pub active: Option<String>,
    pub list: Vec<String>,
}

#[derive(Debug)]
pub struct ConnectionStats {
    pub total: usize,
    pub upload_bytes: u64,
    pub download_bytes: u64,
}

/// The daemon's answer to a status request.
#[derive(Debug)]
pub struct StatusSnapshot {
    pub daemon: DaemonStatus,
    pub profile: ProfileInfo,
    pub kernel: KernelStatus,
    pub plugin: PluginInfo,
    pub connections: ConnectionStats,
}

#[derive(Debug)]
pub struct NodeInfo {
    pub name: String,
    pub proxy_type: String,
    pub delay: Option<u32>,
}

/// The daemon's answer to a node request.
#[derive(Debug)]
pub struct NodesSnapshot {
    pub nodes: Vec<NodeInfo>,
    pub current: Option<String>,
}

#[derive(Debug, Clone, Copy, PartialEq, Eq, Structural)]
pub struct TrafficSample {
    pub timestamp: u64,
    pub upload_bps: u64,
    pub download_bps: u64,
}

/// The daemon's answer to a traffic request.
#[derive(Debug)]
pub struct TrafficSnapshot {
    pub samples: Vec<TrafficSample>,
}

/// What the dashboard shows.
#[derive(Debug)]
pub struct AppState {
    pub focused: FocusedArea,
    pub should_quit: bool,
    pub daemon_connected: bool,
    pub daemon_status: Option<DaemonStatus>,
    pub profile_info: Option<ProfileInfo>,
    pub kernel_status: Option<KernelStatus>,
    pub plugin_info: Option<PluginInfo>,
    pub connection_stats: Option<ConnectionStats>,
    pub nodes: Vec<NodeInfo>,
    pub current_node: Option<String>,
    pub selected_node_index: usize,
    pub node_scroll_offset: usize,
    pub traffic_samples: Vec<TrafficSample>,
    pub log_lines: Vec<String>,
    pub log_scroll_offset: usize,
    pub log_auto_scroll: bool,
}

/// `n - 1`, held at 0.
pub open spec fn last_index(n: nat) -> nat {
    if n == 0 { 0 } else { (n - 1) as nat }
}

/// The state the dashboard keeps at all times: the selected node is a node
/// (or 0 where there is none), the log position is a line (or 0), and no
/// more than `MAX_LOG_LINES` lines are held.
pub open spec fn app_wf(s: AppState) -> bool {
    &&& s.selected_node_index <= last_index(s.nodes@.len())
    &&& s.log_scroll_offset <= last_index(s.log_lines@.len())
    &&& s.log_lines@.len() <= MAX_LOG_LINES
}

pub open spec fn min(a: int, b: int) -> int {
    if a <= b { a } else { b }
}

/// The state after moving the node selection down by one.
pub open spec fn after_select_next(s: AppState) -> AppState {
    if s.nodes@.len() > 0 {
        AppState { selected_node_index: min(s.selected_node_index + 1, s.nodes@.len() - 1) as usize, ..s }
    } else {
        s
    }
}

/// The state after moving the node selection up by one.
pub open spec fn after_select_prev(s: AppState) -> AppState {
    AppState { selected_node_index: (if s.selected_node_index > 0 { s.selected_node_index - 1 } else { 0 }) as usize, ..s }
}

/// The state after scrolling the log up by `amount` lines: automatic
/// scrolling stops.
pub open spec fn after_scroll_up(s: AppState, amount: usize) -> AppState {
    AppState {
        log_auto_scroll: false,
        log_scroll_offset: (if s.log_scroll_offset >= amount { s.log_scroll_offset - amount } else { 0 }) as usize,
        ..s
    }
}

/// The state after scrolling the log down by `amount` lines, at most to the
/// last line.
pub open spec fn after_scroll_down(s: AppState, amount: usize) -> AppState {
    AppState {
        log_scroll_offset: min(s.log_scroll_offset + amount, last_index(s.log_lines@.len()) as int) as usize,
        ..s
    }
}

/// The state after jumping to the newest log line: automatic scrolling
/// resumes.
pub open spec fn after_jump_to_latest(s: AppState) -> AppState {
    AppState { log_auto_scroll: true, log_scroll_offset: last_index(s.log_lines@.len()) as usize, ..s }
}

/// The state after switching automatic scrolling.
pub open spec fn after_toggle_auto_scroll(s: AppState) -> AppState {
    if s.log_auto_scroll {
        AppState { log_auto_scroll: false, ..s }
    } else {
        after_jump_to_latest(s)
    }
}

impl AppState {
    /// Nothing known yet; nodes in focus; automatic log scrolling on.
    pub fn new() -> (s: Self)
        ensures
            app_wf(s),
            s.focused == FocusedArea::NodeList,
            !s.should_quit,
            !s.daemon_connected,
            s.daemon_status is None && s.profile_info is None && s.kernel_status is None,
            s.plugin_info is None && s.connection_stats is None && s.current_node is None,
            s.nodes@.len() == 0 && s.traffic_samples@.len() == 0 && s.log_lines@.len() == 0,
            s.selected_node_index == 0 && s.node_scroll_offset == 0 && s.log_scroll_offset == 0,
            s.log_auto_scroll,
    {
        AppState {
            focused: FocusedArea::NodeList,
            should_quit: false,
            daemon_connected: false,
            daemon_status: None,
            profile_info: None,
            kernel_status: None,
            plugin_info: None,
            connection_stats: None,
            nodes: Vec::new(),
            current_node: None,
            selected_node_index: 0,
            node_scroll_offset: 0,
            traffic_samples: Vec::new(),
            log_lines: Vec::new(),
            log_scroll_offset: 0,
            log_auto_scroll: true,
        }
    }

    /// Whether the state is well formed (see `app_wf`).
    pub fn is_well_formed(&self) -> (r: bool)
        ensures
            r == app_wf(*self),
    {
        let nodes_last = if self.nodes.len() > 0 { self.nodes.len() - 1 } else { 0 };
        let logs_last = if self.log_lines.len() > 0 { self.log_lines.len() - 1 } else { 0 };
        self.selected_node_index <= nodes_last && self.log_scroll_offset <= logs_last
            && self.log_lines.len() <= MAX_LOG_LINES
    }

    pub fn quit(&mut self)
        ensures
            *final(self) == (AppState { should_quit: true, ..*old(self) }),
    {
        self.should_quit = true;
    }

    pub fn toggle_focus(&mut self)
        ensures
            *final(self) == (AppState { focused: old(self).focused.next_spec(), ..*old(self) }),
    {
        self.focused = self.focused.next();
    }

    /// Moves the node selection down, stopping at the last node.
    pub fn select_next_node(&mut self)
        requires
            old(self).nodes@.len() == 0 || old(self).selected_node_index < usize::MAX,
        ensures
            *final(self) == after_select_next(*old(self)),
            app_wf(*old(self)) ==> app_wf(*final(self)),
    {
        if self.nodes.len() > 0 {
            let next = self.selected_node_index + 1;
            let last = self.nodes.len() - 1;
            self.selected_node_index = if next <= last { next } else { last };
        }
    }

    /// Moves the node selection up, stopping at the first node.
    pub fn select_prev_node(&mut self)
        ensures
            *final(self) == after_select_prev(*old(self)),
            app_wf(*old(self)) ==> app_wf(*final(self)),
    {
        self.selected_node_index = if self.selected_node_index > 0 { self.selected_node_index - 1 } else { 0 };
    }

    /// The selected node's name.
    pub fn selected_node_name(&self) -> (r: Option<String>)
        ensures
            match r {
                Some(n) => self.selected_node_index < self.nodes@.len() && n@ == self.nodes@[self.selected_node_index as int].name@,
                None => self.selected_node_index >= self.nodes@.len(),
            },
    {
        if self.selected_node_index < self.nodes.len() {
            Some(self.nodes[self.selected_node_index].name.clone())
        } else {
            None
        }
    }

    /// Records a measured delay on the first node called `name`.
    pub fn set_node_delay(&mut self, name: &str, delay: u32)
        ensures
            final(self).nodes@.len() == old(self).nodes@.len(),
            *final(self) == (AppState { nodes: final(self).nodes, ..*old(self) }),
            match first_node_named(old(self).nodes@, name@) {
                Some(k) => forall|t: int| 0 <= t < old(self).nodes@.len() ==> #[trigger] final(self).nodes@[t] == if t == k {
                    NodeInfo { delay: Some(delay), ..old(self).nodes@[t] }
                } else {
                    old(self).nodes@[t]
                },
                None => final(self).nodes@ == old(self).nodes@,
            },
            app_wf(*old(self)) ==> app_wf(*final(self)),
    {
        let target = name.to_owned();
        let mut i: usize = 0;
        while i < self.nodes.len()
            invariant
                i <= self.nodes@.len(),
                self.nodes@ == old(self).nodes@,
                *self == *old(self),
                target@ == name@,
                forall|t: int| 0 <= t < i ==> self.nodes@[t].name@ != name@,
            decreases self.nodes@.len() - i,
        {
            if self.nodes[i].name == target {
                proof {
                    lemma_first_node_named(old(self).nodes@, name@, i as int);
                }
                let mut node = NodeInfo { name: String::new(), proxy_type: String::new(), delay: None };
                self.nodes.set_and_swap(i, &mut node);
                node.delay = Some(delay);
                self.nodes.set(i, node);
                return;
            }
            i = i + 1;
        }
        proof {
            lemma_first_node_named(old(self).nodes@, name@, -1);
        }
    }

    /// Scrolls the log up; automatic scrolling stops.
    pub fn scroll_logs_up(&mut self, amount: usize)
        ensures
            *final(self) == after_scroll_up(*old(self), amount),
            app_wf(*old(self)) ==> app_wf(*final(self)),
    {
        self.log_auto_scroll = false;
        self.log_scroll_offset = if self.log_scroll_offset >= amount { self.log_scroll_offset - amount } else { 0 };
    }

    /// Scrolls the log down, at most to the last line.
    pub fn scroll_logs_down(&mut self, amount: usize)
        requires
            old(self).log_scroll_offset + amount <= usize::MAX,
        ensures
            *final(self) == after_scroll_down(*old(self), amount),
            app_wf(*old(self)) ==> app_wf(*final(self)),
    {
        let target = self.log_scroll_offset + amount;
        let last = if self.log_lines.len() > 0 { self.log_lines.len() - 1 } else { 0 };
        self.log_scroll_offset = if target <= last { target } else { last };
    }

    /// Jumps to the newest log line; automatic scrolling resumes.
    pub fn jump_to_latest_log(&mut self)
        ensures
            *final(self) == after_jump_to_latest(*old(self)),
            app_wf(*old(self)) ==> app_wf(*final(self)),
    {
        self.log_auto_scroll = true;
        self.log_scroll_offset = if self.log_lines.len() > 0 { self.log_lines.len() - 1 } else { 0 };
    }

    /// Switches automatic log scrolling; switching it on jumps to the
    /// newest line.
    pub fn toggle_log_auto_scroll(&mut self)
        ensures
            *final(self) == after_toggle_auto_scroll(*old(self)),
            app_wf(*old(self)) ==> app_wf(*final(self)),
    {
        self.log_auto_scroll = !self.log_auto_scroll;
        if self.log_auto_scroll {
            self.jump_to_latest_log();
        }
    }
}

/// Index of the first node called `name`.
pub open spec fn first_node_named(nodes: Seq<NodeInfo>, name: Seq<char>) -> Option<int> {
    if exists|k: int| 0 <= k < nodes.len() && #[trigger] nodes[k].name@ == name {
        let k = choose|k: int| 0 <= k < nodes.len() && #[trigger] nodes[k].name@ == name
            && forall|t: int| 0 <= t < k ==> nodes[t].name@ != name;
        Some(k)
    } else {
        None
    }
}

proof fn lemma_first_node_named(nodes: Seq<NodeInfo>, name: Seq<char>, k: int)
    requires
        k == -1 || (0 <= k < nodes.len() && nodes[k].name@ == name),
        forall|t: int| 0 <= t < nodes.len() && (t < k || k == -1) ==> nodes[t].name@ != name,
    ensures
        first_node_named(nodes, name) == (if k == -1 { None } else { Some(k) }),
{
    if k >= 0 {
        let j = choose|j: int| 0 <= j < nodes.len() && #[trigger] nodes[j].name@ == name
            && forall|t: int| 0 <= t < j ==> nodes[t].name@ != name;
        assert(k == j) by {
            if j < k {
                assert(nodes[j].name@ != name);
            } else if k < j {
            }
        }
    }
}

impl AppState {
    /// Takes in a status answer: the daemon is reachable.
    pub fn apply_status(&mut self, status: StatusSnapshot)
        ensures
            final(self).daemon_connected,
            final(self).daemon_status == Some(status.daemon),
            final(self).profile_info == Some(status.profile),
            final(self).kernel_status == Some(status.kernel),
            final(self).plugin_info == Some(status.plugin),
            final(self).connection_stats == Some(status.connections),
            *final(self) == (AppState {
                daemon_connected: true,
                daemon_status: Some(status.daemon),
                profile_info: Some(status.profile),
                kernel_status: Some(status.kernel),
                plugin_info: Some(status.plugin),
                connection_stats: Some(status.connections),
                ..*old(self)
            }),
            app_wf(*old(self)) ==> app_wf(*final(self)),
    {
        self.daemon_connected = true;
        self.daemon_status = Some(status.daemon);
        self.profile_info = Some(status.profile);
        self.kernel_status = Some(status.kernel);
        self.plugin_info = Some(status.plugin);
        self.connection_stats = Some(status.connections);
    }

    /// Takes in a node answer: the selection moves to the last node where
    /// it is past the end.
    pub fn apply_nodes(&mut self, snapshot: NodesSnapshot)
        ensures
            *final(self) == (AppState {
                daemon_connected: true,
                nodes: snapshot.nodes,
                current_node: snapshot.current,
                selected_node_index: if old(self).selected_node_index >= snapshot.nodes@.len() {
                    last_index(snapshot.nodes@.len()) as usize
                } else {
                    old(self).selected_node_index
                },
                ..*old(self)
            }),
            app_wf(*old(self)) ==> app_wf(*final(self)),
    {
        self.daemon_connected = true;
        self.nodes = snapshot.nodes;
        self.current_node = snapshot.current;
        if self.selected_node_index >= self.nodes.len() {
            self.selected_node_index = if self.nodes.len() > 0 { self.nodes.len() - 1 } else { 0 };
        }
    }

    /// Takes in a traffic answer.
    pub fn apply_traffic(&mut self, snapshot: TrafficSnapshot)
        ensures
            *final(self) == (AppState { daemon_connected: true, traffic_samples: snapshot.samples, ..*old(self) }),
            app_wf(*old(self)) ==> app_wf(*final(self)),
    {
        self.daemon_connected = true;
        self.traffic_samples = snapshot.samples;
    }

    /// Appends newly read log lines. Only the last `MAX_LOG_LINES` are
    /// kept, the log position moves up by as many as were let go (held at
    /// 0), and with automatic scrolling it goes to the last line.
    pub fn append_log_lines(&mut self, lines: Vec<String>)
        ensures
            ({
                let all = old(self).log_lines@ + lines@;
                let removed: int = if all.len() > MAX_LOG_LINES { all.len() - MAX_LOG_LINES } else { 0 };
                let kept = all.skip(removed);
                &&& final(self).log_lines@ == kept
                &&& final(self).log_scroll_offset == (if old(self).log_auto_scroll {
                    last_index(kept.len()) as int
                } else if old(self).log_scroll_offset >= removed {
                    old(self).log_scroll_offset - removed
                } else {
                    0
                })
                &&& *final(self) == (AppState {
                    log_lines: final(self).log_lines,
                    log_scroll_offset: final(self).log_scroll_offset,
                    ..*old(self)
                })
            }),
            app_wf(*old(self)) ==> app_wf(*final(self)),
    {
        let ghost all = self.log_lines@ + lines@;
        let mut lines = lines;
        self.log_lines.append(&mut lines);
        assert(self.log_lines@ == all);
        let len = self.log_lines.len();
        let mut removed: usize = 0;
        if len > MAX_LOG_LINES {
            removed = len - MAX_LOG_LINES;
            let mut kept: Vec<String> = Vec::new();
            let mut i: usize = removed;
            while i < len
                invariant
                    removed <= i <= len,
                    len == self.log_lines@.len(),
                    kept@ == self.log_lines@.subrange(removed as int, i as int),
                decreases len - i,
            {
                kept.push(self.log_lines[i].clone());
                i = i + 1;
                assert(kept@ =~= self.log_lines@.subrange(removed as int, i as int));
            }
            self.log_lines = kept;
            self.log_scroll_offset = if self.log_scroll_offset >= removed { self.log_scroll_offset - removed } else { 0 };
        }
        assert(self.log_lines@ =~= all.skip(removed as int));
        if self.log_auto_scroll {
            self.log_scroll_offset = if self.log_lines.len() > 0 { self.log_lines.len() - 1 } else { 0 };
        }
    }
}

impl FocusedArea {
    pub open spec fn next_spec(self) -> FocusedArea {
        match self {
            FocusedArea::NodeList => FocusedArea::LogView,
            FocusedArea::LogView => FocusedArea::NodeList,
        }
    }
}

} // verus!
