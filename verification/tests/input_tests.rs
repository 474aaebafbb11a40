use tomato_timer::app::{App, AppState};
use tomato_timer::config::Config;
use tomato_timer::input::{InputManager, Key};

fn manager() -> InputManager {
    InputManager::new(&Config::new())
}

fn fresh_app() -> App {
    App::new(&Config::new())
}

#[test]
fn quit_keys_stop_the_app() {
    let m = manager();
    let mut app = fresh_app();
    assert_eq!(m.handle_input(Key::Char('q'), &mut app), (false, None));
    assert_eq!(m.handle_input(Key::Esc, &mut app), (false, None));
    assert_eq!(app.get_state(), AppState::Work);
    assert_eq!(app.pomodoros(), 0);
}

#[test]
fn p_toggles_pause() {
    let m = manager();
    let mut app = fresh_app();
    assert_eq!(m.handle_input(Key::Char('p'), &mut app), (true, None));
    assert!(app.is_paused());
    assert_eq!(m.handle_input(Key::Char('p'), &mut app), (true, None));
    assert!(!app.is_paused());
}

#[test]
fn right_skips_forward_and_announces_the_new_phase() {
    let m = manager();
    let mut app = fresh_app();
    let r = m.handle_input(Key::Right, &mut app);
    assert_eq!(r, (true, Some(AppState::ShortBreak)));
    assert_eq!(app.get_state(), AppState::ShortBreak);
    assert_eq!(app.pomodoros(), 1);
    assert_eq!(app.timer.acc_ms, 0);
}

#[test]
fn left_in_the_first_two_seconds_navigates_backward() {
    let m = manager();
    let mut app = fresh_app();
    m.handle_input(Key::Right, &mut app);
    let r = m.handle_input(Key::Left, &mut app);
    assert_eq!(r, (true, Some(AppState::Work)));
    assert_eq!(app.get_state(), AppState::Work);
    assert_eq!(app.pomodoros(), 0);
}

#[test]
fn left_later_resets_the_current_phase() {
    let m = manager();
    let mut app = fresh_app();
    // 5 seconds into the phase, reflected in the display cache.
    app.transition_to_state_at(AppState::Work, 5_000, 0);
    app.update_at(0);
    assert_eq!(app.time_elapsed(), (0, 5));
    let r = m.handle_input(Key::Left, &mut app);
    assert_eq!(r, (true, None));
    assert_eq!(app.get_state(), AppState::Work);
    assert_eq!(app.timer.acc_ms, 0);
    assert!(!app.is_paused());
}

#[test]
fn l_elongates_only_a_short_break() {
    let m = manager();
    let mut app = fresh_app();
    assert_eq!(m.handle_input(Key::Char('l'), &mut app), (true, None));
    assert_eq!(app.get_state(), AppState::Work);

    app.transition_to_state(AppState::ShortBreak, 0);
    assert_eq!(m.handle_input(Key::Char('l'), &mut app), (true, None));
    assert_eq!(app.get_state(), AppState::LongBreak(true));
    assert_eq!(app.get_state_name(), "Long Break (elongated)");
    assert_eq!(app.pomodoros(), 0);
}

#[test]
fn nudge_keys_adjust_the_timer_by_their_deltas() {
    let m = manager();
    let mut app = fresh_app();
    app.toggle_pause();
    m.handle_input(Key::Char('='), &mut app);
    assert_eq!(app.timer.acc_ms, 1_000);
    m.handle_input(Key::Char(']'), &mut app);
    assert_eq!(app.timer.acc_ms, 6_000);
    m.handle_input(Key::Char('.'), &mut app);
    assert_eq!(app.timer.acc_ms, 66_000);
    m.handle_input(Key::Char(','), &mut app);
    assert_eq!(app.timer.acc_ms, 6_000);
    m.handle_input(Key::Char('['), &mut app);
    assert_eq!(app.timer.acc_ms, 1_000);
    m.handle_input(Key::Char('-'), &mut app);
    assert_eq!(app.timer.acc_ms, 0);
}

#[test]
fn unmapped_keys_do_nothing() {
    let m = manager();
    let mut app = fresh_app();
    assert_eq!(m.handle_input(Key::Char('z'), &mut app), (true, None));
    assert_eq!(m.handle_input(Key::Other, &mut app), (true, None));
    assert_eq!(app.get_state(), AppState::Work);
    assert_eq!(app.pomodoros(), 0);
    assert!(!app.is_paused());
}

#[test]
fn hook_scripts_come_from_the_config() {
    let cfg = Config::new_from_config_string(
        "on_work_start=echo work\non_break_start=echo break",
    );
    let m = InputManager::new(&cfg);
    assert_eq!(m.on_work_start, Some("echo work".to_string()));
    assert_eq!(m.on_break_start, Some("echo break".to_string()));

    let none = manager();
    assert_eq!(none.on_work_start, None);
    assert_eq!(none.on_break_start, None);
}

#[test]
fn hook_for_picks_script_and_break_type() {
    let cfg = Config::new_from_config_string(
        "on_work_start=echo work\non_break_start=echo break",
    );
    let m = InputManager::new(&cfg);
    assert_eq!(
        m.hook_for(AppState::Work),
        Some(("echo work".to_string(), None))
    );
    assert_eq!(
        m.hook_for(AppState::ShortBreak),
        Some(("echo break".to_string(), Some("short")))
    );
    assert_eq!(
        m.hook_for(AppState::LongBreak(false)),
        Some(("echo break".to_string(), Some("long")))
    );
    assert_eq!(
        m.hook_for(AppState::LongBreak(true)),
        Some(("echo break".to_string(), Some("long")))
    );
}

#[test]
fn hook_for_without_scripts_is_none() {
    let m = manager();
    assert_eq!(m.hook_for(AppState::Work), None);
    assert_eq!(m.hook_for(AppState::ShortBreak), None);
    assert_eq!(m.hook_for(AppState::LongBreak(false)), None);
}
