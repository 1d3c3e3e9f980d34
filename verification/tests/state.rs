use nixtop::app::Action;
use nixtop::app::App;
use nixtop::app::AppEvent;
use nixtop::app::Direction;
use nixtop::app::Event;
use nixtop::app::FetchError;
use nixtop::app::InputEvent;
use nixtop::app::KeyCode;
use nixtop::app::KeyEvent;
use nixtop::ps::Build;

fn key(code: KeyCode) -> KeyEvent {
    KeyEvent { code, ctrl: false }
}

fn build(derivation: &str, nix_pid: usize) -> Build {
    Build {
        derivation: derivation.to_string(),
        main_pid: nix_pid + 1000,
        nix_pid,
        processes: Vec::new(),
        start_time: 0,
    }
}

#[test]
fn decrease_never_under_floor() {
    let mut app = App::new();
    assert_eq!(app.refresh_interval, 2000);
    for _ in 0..100 {
        app.handle_key_events(key(KeyCode::Char('-')));
        assert!(app.refresh_interval >= 100);
    }
    assert_eq!(app.refresh_interval, 100);
    app.handle_key_events(key(KeyCode::Char('-')));
    assert_eq!(app.refresh_interval, 100);
}

#[test]
fn decrease_steps_by_hundred() {
    let mut app = App::new();
    app.handle_key_events(key(KeyCode::Char('-')));
    assert_eq!(app.refresh_interval, 1900);
}

#[test]
fn increase_has_no_ceiling_within_reason() {
    let mut app = App::new();
    for step in 1..=1000u64 {
        app.handle_key_events(key(KeyCode::Char('+')));
        assert_eq!(app.refresh_interval, 2000 + 100 * step);
    }
    let mut app = App::new();
    app.handle_key_events(key(KeyCode::Char('=')));
    assert_eq!(app.refresh_interval, 2100);
}

#[test]
fn selection_follows_identity_across_reorder() {
    let mut app = App::new();
    app.refresh(Ok(vec![
        build("aaa", 11),
        build("bbb", 22),
        build("ccc", 33),
    ]));
    app.selection = Some(2);
    // The selected build (pid 33) moves from index 2 to index 0.
    app.refresh(Ok(vec![build("ccc", 33), build("ddd", 44)]));
    assert_eq!(app.selection, Some(0));
    assert_eq!(app.active_builds[0].nix_pid, 33);
}

#[test]
fn selection_clears_when_identity_gone() {
    let mut app = App::new();
    app.refresh(Ok(vec![build("aaa", 11), build("bbb", 22)]));
    app.selection = Some(1);
    app.refresh(Ok(vec![build("aaa", 11), build("ccc", 33)]));
    assert_eq!(app.selection, None);
}

#[test]
fn no_selection_survives_empty_snapshot() {
    let mut app = App::new();
    app.refresh(Ok(vec![build("aaa", 11)]));
    app.selection = Some(0);
    app.refresh(Ok(Vec::new()));
    assert_eq!(app.selection, None);
}

#[test]
fn failed_refresh_retains_snapshot_and_selection() {
    let mut app = App::new();
    app.refresh(Ok(vec![build("aaa", 11), build("bbb", 22)]));
    app.selection = Some(1);
    let action = app.step(Event::App(AppEvent::Refresh(Err(FetchError))));
    assert_eq!(action, Action::ScheduleRefresh);
    assert_eq!(app.active_builds.len(), 2);
    assert_eq!(app.selection, Some(1));
    assert_eq!(app.active_builds[1].nix_pid, 22);
}

#[test]
fn quit_event_stops_loop_at_once() {
    let mut app = App::new();
    assert!(app.running);
    let action = app.step(Event::App(AppEvent::Quit));
    assert!(!app.running);
    assert_eq!(action, Action::Continue);
}

#[test]
fn quit_key_and_ctrl_c_emit_quit() {
    let mut app = App::new();
    let action = app.step(Event::Terminal(InputEvent::KeyPress(key(KeyCode::Char('q')))));
    assert_eq!(action, Action::EmitQuit);
    assert!(app.running);

    let ctrl_c = KeyEvent { code: KeyCode::Char('c'), ctrl: true };
    let action = app.step(Event::Terminal(InputEvent::KeyPress(ctrl_c)));
    assert_eq!(action, Action::EmitQuit);

    // A bare 'c' does nothing.
    let action = app.step(Event::Terminal(InputEvent::KeyPress(key(KeyCode::Char('c')))));
    assert_eq!(action, Action::Continue);
}

#[test]
fn snapshot_equals_last_payload_after_many_refreshes() {
    let mut app = App::new();
    for n in 0..50usize {
        let payload = vec![build("zzz", n)];
        let action = app.step(Event::App(AppEvent::Refresh(Ok(payload))));
        assert_eq!(action, Action::ScheduleRefresh);
        assert_eq!(app.active_builds.len(), 1);
        assert_eq!(app.active_builds[0].nix_pid, n);
    }
    assert_eq!(app.active_builds[0].nix_pid, 49);
}

#[test]
fn refresh_event_replaces_snapshot_wholesale() {
    let mut app = App::new();
    app.refresh(Ok(vec![build("aaa", 1), build("bbb", 2)]));
    app.refresh(Ok(vec![build("ccc", 3)]));
    assert_eq!(app.active_builds.len(), 1);
    assert_eq!(app.active_builds[0].derivation, "ccc");
}

#[test]
fn navigation_moves_and_clamps() {
    let mut app = App::new();
    // Empty list: nothing to select.
    app.handle_key_events(key(KeyCode::Down));
    assert_eq!(app.selection, None);

    app.refresh(Ok(vec![build("aaa", 1), build("bbb", 2), build("ccc", 3)]));
    // From none, down selects the first row.
    app.handle_key_events(key(KeyCode::Down));
    assert_eq!(app.selection, Some(0));
    app.handle_key_events(key(KeyCode::Char('j')));
    assert_eq!(app.selection, Some(1));
    app.handle_key_events(key(KeyCode::Down));
    assert_eq!(app.selection, Some(2));
    // No wrap past the last row.
    app.handle_key_events(key(KeyCode::Down));
    assert_eq!(app.selection, Some(2));

    app.handle_key_events(key(KeyCode::Up));
    assert_eq!(app.selection, Some(1));
    app.handle_key_events(key(KeyCode::Char('k')));
    assert_eq!(app.selection, Some(0));
    // No wrap past the first row.
    app.handle_key_events(key(KeyCode::Up));
    assert_eq!(app.selection, Some(0));

    // Escape clears; up from none selects the last row.
    app.handle_key_events(key(KeyCode::Esc));
    assert_eq!(app.selection, None);
    app.handle_key_events(key(KeyCode::Up));
    assert_eq!(app.selection, Some(2));
}

#[test]
fn layout_toggle_flips() {
    let mut app = App::new();
    assert_eq!(app.direction, Direction::Vertical);
    app.handle_key_events(key(KeyCode::Char('/')));
    assert_eq!(app.direction, Direction::Horizontal);
    app.handle_key_events(key(KeyCode::Char('/')));
    assert_eq!(app.direction, Direction::Vertical);
}

#[test]
fn selected_build_reads_current_row() {
    let mut app = App::new();
    assert!(app.selected_build().is_none());
    app.refresh(Ok(vec![build("aaa", 1), build("bbb", 2)]));
    app.selection = Some(1);
    assert_eq!(app.selected_build().unwrap().derivation, "bbb");
}
