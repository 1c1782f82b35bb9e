use geswm::daemon::window::next_layout_index;
use geswm::daemon::CommandEffect;
use geswm::geometry::{Point, Size, SurfaceGeometry};
use geswm::server::ServerState;
use geswm::surface::Window;
use geswm::cmd::{Cmd, LayoutCmd};

fn state_with(surfaces: &[u64]) -> ServerState {
    let mut state = ServerState::new();
    for s in surfaces {
        state.add_window(Window::new(*s));
    }
    state
}

fn surfaces(state: &ServerState) -> Vec<u64> {
    state.windows.iter().map(|w| w.surface).collect()
}

#[test]
fn new_state_is_empty_and_dirty() {
    let state = ServerState::new();
    assert!(state.windows.is_empty());
    assert_eq!(state.focused_window, None);
    assert!(state.layout_dirty);
}

#[test]
fn added_window_is_on_top_and_focused() {
    let mut state = state_with(&[1, 2]);
    state.layout_dirty = false;
    state.add_window(Window::new(3));
    assert_eq!(surfaces(&state), vec![1, 2, 3]);
    assert_eq!(state.focused_window, Some(3));
    assert!(state.layout_dirty);
}

#[test]
fn removing_focused_window_focuses_the_one_that_took_its_place() {
    let mut state = state_with(&[1, 2, 3]);
    state.set_focused_surface(Some(2));
    let focus = state.remove_window_by_surface(2);
    assert_eq!(focus, Some(3));
    assert_eq!(state.focused_window, Some(3));
    assert_eq!(surfaces(&state), vec![1, 3]);
}

#[test]
fn removing_focused_top_window_focuses_new_top() {
    let mut state = state_with(&[1, 2, 3]);
    let focus = state.remove_window_by_surface(3);
    assert_eq!(focus, Some(2));
    assert_eq!(surfaces(&state), vec![1, 2]);
}

#[test]
fn removing_last_window_leaves_no_focus() {
    let mut state = state_with(&[7]);
    assert_eq!(state.remove_window_by_surface(7), None);
    assert!(state.windows.is_empty());
    assert_eq!(state.focused_window, None);
}

#[test]
fn removing_unfocused_window_keeps_focus() {
    let mut state = state_with(&[1, 2, 3]);
    assert_eq!(state.remove_window_by_surface(1), Some(3));
    assert_eq!(state.focused_window, Some(3));
}

#[test]
fn removing_unknown_surface_changes_nothing() {
    let mut state = state_with(&[1, 2]);
    state.layout_dirty = false;
    assert_eq!(state.remove_window_by_surface(9), None);
    assert_eq!(surfaces(&state), vec![1, 2]);
    assert_eq!(state.focused_window, Some(2));
    assert!(!state.layout_dirty);
}

#[test]
fn remove_undoes_add() {
    let mut state = state_with(&[1, 2]);
    let before = surfaces(&state);
    state.add_window(Window::new(5));
    state.remove_window_by_surface(5);
    assert_eq!(surfaces(&state), before);
}

#[test]
fn focus_window_raises_it() {
    let mut state = state_with(&[1, 2, 3]);
    state.focus_window(1);
    assert_eq!(surfaces(&state), vec![2, 3, 1]);
    assert_eq!(state.focused_window, Some(1));
    assert!(state.is_focused(1));
    assert!(!state.is_focused(3));
}

#[test]
fn focus_unknown_window_changes_nothing() {
    let mut state = state_with(&[1, 2]);
    state.focus_window(4);
    assert_eq!(surfaces(&state), vec![1, 2]);
    assert_eq!(state.focused_window, Some(2));
}

#[test]
fn geometry_lookup_and_default() {
    let mut state = state_with(&[1, 2]);
    let g = SurfaceGeometry { position: Point { x: 3, y: 4 }, size: Size { w: 5, h: 6 } };
    state.set_geometry_for_surface(2, g);
    assert_eq!(state.geometry_for_surface(2), Some(g));
    assert_eq!(state.geometry_for_surface(8), None);
    assert_eq!(state.geometry_for_surface_or_default(8), SurfaceGeometry::default());
    assert_eq!(state.window_for_surface(2).map(|w| w.geometry), Some(g));
    state.set_geometry_for_surface(8, g);
    assert_eq!(state.windows.len(), 2);
}

#[test]
fn window_for_surface_mut_changes_that_window() {
    let mut state = state_with(&[1, 2]);
    if let Some(w) = state.window_for_surface_mut(1) {
        w.floating = true;
    }
    assert!(state.windows[0].floating);
    assert!(!state.windows[1].floating);
    assert!(state.window_for_surface_mut(3).is_none());
}

#[test]
fn windows_in_both_orders() {
    let state = state_with(&[1, 2, 3]);
    let up: Vec<u64> = state.iter_windows_bottom_to_top().iter().map(|w| w.surface).collect();
    let down: Vec<u64> = state.iter_windows_top_to_bottom().iter().map(|w| w.surface).collect();
    assert_eq!(up, vec![1, 2, 3]);
    assert_eq!(down, vec![3, 2, 1]);
}

#[test]
fn prune_removes_dead_windows() {
    let mut state = state_with(&[1, 2, 3, 4]);
    state.layout_dirty = false;
    let removed = state.prune(&vec![true, false, true, false]);
    assert_eq!(removed, vec![2, 4]);
    assert_eq!(surfaces(&state), vec![1, 3]);
    assert!(state.layout_dirty);
    assert_eq!(state.focused_window, Some(4));
}

#[test]
fn prune_of_live_windows_keeps_layout_clean() {
    let mut state = state_with(&[1, 2]);
    state.layout_dirty = false;
    assert!(state.prune(&vec![true, true]).is_empty());
    assert!(!state.layout_dirty);
}

#[test]
fn prune_dead_windows_drops_focus_on_dead_window() {
    let mut state = state_with(&[1, 2, 3]);
    assert!(state.prune_dead_windows(&vec![true, true, false]));
    assert_eq!(state.focused_window, None);
    assert_eq!(surfaces(&state), vec![1, 2]);
    let mut other = state_with(&[1, 2, 3]);
    assert!(!other.prune_dead_windows(&vec![false, true, true]));
    assert_eq!(other.focused_window, Some(3));
}

#[test]
fn focus_next_wraps_to_bottom() {
    let mut state = state_with(&[1, 2, 3]);
    state.focus_next();
    assert_eq!(state.focused_window, Some(1));
    state.focus_next();
    assert_eq!(state.focused_window, Some(2));
    assert_eq!(surfaces(&state), vec![1, 2, 3]);
}

#[test]
fn focus_prev_wraps_to_top() {
    let mut state = state_with(&[1, 2, 3]);
    state.set_focused_surface(Some(1));
    state.focus_prev();
    assert_eq!(state.focused_window, Some(3));
    state.focus_prev();
    assert_eq!(state.focused_window, Some(2));
}

#[test]
fn focus_prev_undoes_focus_next() {
    let mut state = state_with(&[4, 5, 6, 7]);
    state.set_focused_surface(Some(6));
    state.focus_next();
    state.focus_prev();
    assert_eq!(state.focused_window, Some(6));
}

#[test]
fn focus_next_cycles_through_all() {
    let mut state = state_with(&[4, 5, 6, 7]);
    state.set_focused_surface(Some(5));
    for _ in 0..4 {
        state.focus_next();
    }
    assert_eq!(state.focused_window, Some(5));
}

#[test]
fn focus_moves_need_a_focus() {
    let mut state = state_with(&[1, 2]);
    state.set_focused_surface(None);
    state.focus_next();
    state.focus_prev();
    assert_eq!(state.focused_window, None);
    state.set_focused_surface(Some(9));
    state.focus_next();
    assert_eq!(state.focused_window, Some(9));
}

#[test]
fn ensure_focus_clears_without_clients() {
    let mut state = state_with(&[1]);
    state.ensure_focus(false, &vec![true]);
    assert_eq!(state.focused_window, None);
}

#[test]
fn ensure_focus_moves_off_dead_window() {
    let mut state = state_with(&[1, 2]);
    state.ensure_focus(true, &vec![true, false]);
    assert_eq!(state.focused_window, Some(1));
    state.ensure_focus(true, &vec![true, true]);
    assert_eq!(state.focused_window, Some(1));
}

#[test]
fn close_focused_names_the_focused_window() {
    let mut state = state_with(&[1, 2]);
    assert_eq!(state.close_focused_window(), Some(2));
    state.set_focused_surface(Some(5));
    assert_eq!(state.close_focused_window(), None);
    state.set_focused_surface(None);
    assert_eq!(state.close_focused_window(), None);
}

#[test]
fn layer_destroyed_drops_its_focus() {
    let mut state = state_with(&[1]);
    state.set_focused_surface(Some(40));
    state.layout_dirty = false;
    state.layer_destroyed(40);
    assert_eq!(state.focused_window, None);
    assert!(state.layout_dirty);
    state.set_focused_surface(Some(1));
    state.layer_destroyed(40);
    assert_eq!(state.focused_window, Some(1));
}

#[test]
fn commands_move_focus_and_hand_back_effects() {
    let mut state = state_with(&[1, 2, 3]);
    let next = Cmd::Layout(LayoutCmd::FocusNext);
    assert!(matches!(state.execute_command(&next), CommandEffect::Nothing));
    assert_eq!(state.focused_window, Some(1));
    let prev = Cmd::Layout(LayoutCmd::FocusPrev);
    state.execute_command(&prev);
    assert_eq!(state.focused_window, Some(3));
    match state.execute_command(&Cmd::CloseFocused) {
        CommandEffect::Close(s) => assert_eq!(s, 3),
        _ => panic!("expected a window to close"),
    }
    let spawn = Cmd::Spawn(vec!["foot".to_string()]);
    match state.execute_command(&spawn) {
        CommandEffect::Spawn(args) => assert_eq!(args, &vec!["foot".to_string()]),
        _ => panic!("expected a spawn"),
    }
    let confirmed = Cmd::ConfirmCommand("sure?".to_string(), Box::new(Cmd::Layout(LayoutCmd::FocusNext)));
    state.execute_command(&confirmed);
    assert_eq!(state.focused_window, Some(1));
    assert!(matches!(state.execute_command(&Cmd::Exit(0)), CommandEffect::Nothing));
}

#[test]
fn layout_cycles_back_to_first() {
    assert_eq!(next_layout_index(0, 3), 1);
    assert_eq!(next_layout_index(2, 3), 0);
    assert_eq!(next_layout_index(0, 1), 0);
}
