//! What a key press does to the dashboard.

use vstd::prelude::*;

use crate::tui::app::{
    after_jump_to_latest, after_scroll_down, after_scroll_up, after_select_next, after_select_prev,
    after_toggle_auto_scroll, app_wf, AppState, FocusedArea,
};

verus! {

/// A key, as the dashboard tells keys apart.
#[derive(Debug, Clone, Copy, PartialEq, Eq, Structural)]
pub enum KeyCode {
    Char(char),
    Esc,
    Tab,
    BackTab,
    Up,
    Down,
    PageUp,
    PageDown,
    Enter,
    Other,
}

/// A key press: the key and whether Control was held.
#[derive(Debug, Clone, Copy, PartialEq, Eq, Structural)]
pub struct Key {
    pub code: KeyCode,
    pub control: bool,
}

/// Work a key press asks for beyond the dashboard's own state.
#[derive(Debug, PartialEq, Eq)]
pub enum AsyncAction {
    /// Make the named node the current one.
    SwitchNode(String),
    /// Measure the named node's delay.
    TestNode(String),
}

/// Whether the key quits: Control-C, `q` or Escape.
pub open spec fn quits(key: Key) -> bool {
    (key.control && key.code == KeyCode::Char('c')) || key.code == KeyCode::Char('q') || key.code == KeyCode::Esc
}

/// What a key does to the state.
pub open spec fn key_effect(key: Key, s: AppState) -> AppState {
    if quits(key) {
        AppState { should_quit: true, ..s }
    } else if key.code == KeyCode::Tab || key.code == KeyCode::BackTab {
        AppState { focused: s.focused.next_spec(), ..s }
    } else {
        match s.focused {
            FocusedArea::NodeList => {
                if key.code == KeyCode::Char('j') || key.code == KeyCode::Down {
                    after_select_next(s)
                } else if key.code == KeyCode::Char('k') || key.code == KeyCode::Up {
                    after_select_prev(s)
                } else {
                    s
                }
            }
            FocusedArea::LogView => {
                if key.code == KeyCode::Char('j') || key.code == KeyCode::Down {
                    after_scroll_down(s, 1)
                } else if key.code == KeyCode::Char('k') || key.code == KeyCode::Up {
                    after_scroll_up(s, 1)
                } else if key.code == KeyCode::Char('d') || key.code == KeyCode::PageDown {
                    after_scroll_down(s, 10)
                } else if key.code == KeyCode::Char('u') || key.code == KeyCode::PageUp {
                    after_scroll_up(s, 10)
                } else if key.code == KeyCode::Char(' ') {
                    after_toggle_auto_scroll(s)
                } else if key.code == KeyCode::Char('G') {
                    after_jump_to_latest(s)
                } else {
                    s
                }
            }
        }
    }
}

/// Whether the key asks for the selected node: with the node list in
/// focus, Enter switches to it and `n` measures it.
pub open spec fn key_asks_node(key: Key, s: AppState) -> Option<bool> {
    if quits(key) || key.code == KeyCode::Tab || key.code == KeyCode::BackTab {
        None
    } else if s.focused == FocusedArea::NodeList && key.code == KeyCode::Enter {
        Some(true)
    } else if s.focused == FocusedArea::NodeList && key.code == KeyCode::Char('n') {
        Some(false)
    } else {
        None
    }
}

/// Applies a key press to the dashboard and says what work it asks for:
/// switching to or measuring the selected node, where there is one.
pub fn handle_key(key: Key, state: &mut AppState) -> (r: Option<AsyncAction>)
    requires
        app_wf(*old(state)),
    ensures
        *final(state) == key_effect(key, *old(state)),
        app_wf(*final(state)),
        match key_asks_node(key, *old(state)) {
            Some(switch) => {
                let s = *old(state);
                if s.selected_node_index < s.nodes@.len() {
                    let name = s.nodes@[s.selected_node_index as int].name@;
                    r matches Some(a) && (if switch {
                        a matches AsyncAction::SwitchNode(n) && n@ == name
                    } else {
                        a matches AsyncAction::TestNode(n) && n@ == name
                    })
                } else {
                    r is None
                }
            }
            None => r is None,
        },
{
    if key.control && key.code == KeyCode::Char('c') {
        state.quit();
        return None;
    }
    match key.code {
        KeyCode::Char('q') | KeyCode::Esc => {
            state.quit();
            return None;
        }
        KeyCode::Tab | KeyCode::BackTab => {
            state.toggle_focus();
            return None;
        }
        _ => {}
    }
    match state.focused {
        FocusedArea::NodeList => handle_node_list_keys(key, state),
        FocusedArea::LogView => handle_log_view_keys(key, state),
    }
}

fn handle_node_list_keys(key: Key, state: &mut AppState) -> (r: Option<AsyncAction>)
    requires
        app_wf(*old(state)),
        !quits(key),
        key.code != KeyCode::Tab && key.code != KeyCode::BackTab,
        old(state).focused == FocusedArea::NodeList,
    ensures
        *final(state) == key_effect(key, *old(state)),
        app_wf(*final(state)),
        match key_asks_node(key, *old(state)) {
            Some(switch) => {
                let s = *old(state);
                if s.selected_node_index < s.nodes@.len() {
                    let name = s.nodes@[s.selected_node_index as int].name@;
                    r matches Some(a) && (if switch {
                        a matches AsyncAction::SwitchNode(n) && n@ == name
                    } else {
                        a matches AsyncAction::TestNode(n) && n@ == name
                    })
                } else {
                    r is None
                }
            }
            None => r is None,
        },
{
    match key.code {
        KeyCode::Char('j') | KeyCode::Down => {
            let n = state.nodes.len();
            assert(n == state.nodes@.len());
            state.select_next_node();
        }
        KeyCode::Char('k') | KeyCode::Up => state.select_prev_node(),
        KeyCode::Enter => {
            return match state.selected_node_name() {
                Some(n) => Some(AsyncAction::SwitchNode(n)),
                None => None,
            };
        }
        KeyCode::Char('n') => {
            return match state.selected_node_name() {
                Some(n) => Some(AsyncAction::TestNode(n)),
                None => None,
            };
        }
        _ => {}
    }
    None
}

fn handle_log_view_keys(key: Key, state: &mut AppState) -> (r: Option<AsyncAction>)
    requires
        app_wf(*old(state)),
        !quits(key),
        key.code != KeyCode::Tab && key.code != KeyCode::BackTab,
        old(state).focused == FocusedArea::LogView,
    ensures
        *final(state) == key_effect(key, *old(state)),
        app_wf(*final(state)),
        r is None,
{
    match key.code {
        KeyCode::Char('j') | KeyCode::Down => state.scroll_logs_down(1),
        KeyCode::Char('k') | KeyCode::Up => state.scroll_logs_up(1),
        KeyCode::Char('d') | KeyCode::PageDown => state.scroll_logs_down(10),
        KeyCode::Char('u') | KeyCode::PageUp => state.scroll_logs_up(10),
        KeyCode::Char(' ') => state.toggle_log_auto_scroll(),
        KeyCode::Char('G') => state.jump_to_latest_log(),
        _ => {}
    }
    None
}

/// With the node list in focus, Up and `k` move the selection one node up
/// (staying at the first node), and Down and `j` one node down (staying at
/// the last node); nothing else in the state changes. So Up never moves
/// the selection down, nor Down up.
pub proof fn lemma_node_list_moves(key: Key, s: AppState)
    requires
        s.focused == FocusedArea::NodeList,
        s.nodes@.len() <= usize::MAX,
    ensures
        (key.code == KeyCode::Up || key.code == KeyCode::Char('k')) ==> key_effect(key, s) == (AppState {
            selected_node_index: (if s.selected_node_index > 0 { s.selected_node_index - 1 } else { 0 }) as usize,
            ..s
        }),
        (key.code == KeyCode::Up || key.code == KeyCode::Char('k')) ==> key_effect(key, s).selected_node_index <= s.selected_node_index,
        (key.code == KeyCode::Down || key.code == KeyCode::Char('j')) && s.nodes@.len() > 0 ==> key_effect(key, s) == (AppState {
            selected_node_index: (if s.selected_node_index + 1 < s.nodes@.len() { s.selected_node_index + 1 } else { s.nodes@.len() - 1 }) as usize,
            ..s
        }),
        (key.code == KeyCode::Down || key.code == KeyCode::Char('j')) && s.nodes@.len() > 0 && s.selected_node_index < s.nodes@.len()
            ==> key_effect(key, s).selected_node_index >= s.selected_node_index,
{
}

} // verus!
