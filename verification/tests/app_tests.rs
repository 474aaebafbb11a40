use tomato_timer::app::{App, AppState};
use tomato_timer::config::Config;
use tomato_timer::event::Event;
use tomato_timer::timer::State;

fn short_phase_app() -> App {
    let cfg = Config::new_from_config_string(
        "work_time=1\nshort_break_time=1\nlong_break_time=1\npomodoros_before_long_break=4",
    );
    App::new(&cfg)
}

#[test]
fn defaults_apply_on_empty_config() {
    let app = App::new(&Config::new());
    assert_eq!(app.settings.work_time, 1500);
    assert_eq!(app.settings.short_break_time, 300);
    assert_eq!(app.settings.long_break_time, 1200);
    assert_eq!(app.settings.pomodoros_before_long_break, 4);
    assert_eq!(app.get_state(), AppState::Work);
    assert_eq!(app.pomodoros(), 0);
    assert!(!app.is_paused());
    assert_eq!(app.get_state_name(), "Work");
}

#[test]
fn configured_durations_are_read() {
    let cfg = Config::new_from_config_string(
        "work_time=10\nshort_break_time=5\nlong_break_time=20\npomodoros_before_long_break=2",
    );
    let app = App::new(&cfg);
    assert_eq!(app.settings.work_time, 10);
    assert_eq!(app.settings.short_break_time, 5);
    assert_eq!(app.settings.long_break_time, 20);
    assert_eq!(app.settings.pomodoros_before_long_break, 2);
    assert_eq!(app.timer.target_ms, 10_000);
}

#[test]
fn invalid_config_values_fall_back_to_defaults() {
    let cfg = Config::new_from_config_string(
        "work_time=-3\npomodoros_before_long_break=0",
    );
    let app = App::new(&cfg);
    assert_eq!(app.settings.work_time, 1500);
    assert_eq!(app.settings.pomodoros_before_long_break, 4);
}

#[test]
fn cycle_with_cadence_four_schedules_long_break_fourth() {
    // Breaks after pomodoros 1-3 are short; the break after the fourth
    // completed pomodoro is the long one.
    let mut app = App::new(&Config::new());
    let mut seen: Vec<AppState> = Vec::new();
    for _ in 0..8 {
        app.transition_to_next_state(0);
        seen.push(app.get_state());
    }
    assert_eq!(
        seen,
        vec![
            AppState::ShortBreak,
            AppState::Work,
            AppState::ShortBreak,
            AppState::Work,
            AppState::ShortBreak,
            AppState::Work,
            AppState::LongBreak(false),
            AppState::Work,
        ]
    );
    assert_eq!(app.pomodoros(), 4);
}

#[test]
fn backward_from_fresh_long_break_restores_count() {
    let mut app = App::new(&Config::new());
    for _ in 0..7 {
        app.transition_to_next_state(0);
    }
    assert_eq!(app.get_state(), AppState::LongBreak(false));
    assert_eq!(app.pomodoros(), 4);
    app.transition_to_prev_state(0);
    assert_eq!(app.get_state(), AppState::Work);
    assert_eq!(app.pomodoros(), 3);
}

#[test]
fn backward_with_zero_pomodoros_always_lands_on_work() {
    let mut app = App::new(&Config::new());
    app.transition_to_prev_state(0);
    assert_eq!(app.get_state(), AppState::Work);
    assert_eq!(app.pomodoros(), 0);

    let mut app2 = App::new(&Config::new());
    app2.transition_to_state(AppState::ShortBreak, 0);
    app2.transition_to_prev_state(0);
    assert_eq!(app2.get_state(), AppState::Work);
    assert_eq!(app2.pomodoros(), 0);

    let mut app3 = App::new(&Config::new());
    app3.transition_to_state(AppState::LongBreak(false), 0);
    app3.transition_to_prev_state(0);
    assert_eq!(app3.get_state(), AppState::Work);
    assert_eq!(app3.pomodoros(), 0);
}

#[test]
fn one_tick_catches_up_across_several_phases() {
    // Work is finished with an excess of 2.5 phase lengths: the single tick
    // traverses ShortBreak and Work whole and stops inside the next
    // ShortBreak, reporting each phase entered and ending unfinished.
    let mut app = short_phase_app();
    app.transition_to_state_at(AppState::Work, 3_500, 100);
    let visited = app.update_at(100);
    assert_eq!(
        visited,
        vec![AppState::ShortBreak, AppState::Work, AppState::ShortBreak]
    );
    assert_eq!(app.get_state(), AppState::ShortBreak);
    assert_eq!(app.pomodoros(), 2);
    assert_eq!(app.timer.get_state_at(100), State::Running);
    assert_eq!(app.progress(), (500, 1_000));
}

#[test]
fn tick_on_running_timer_only_refreshes_caches() {
    let cfg = Config::new_from_config_string("work_time=600");
    let mut app = App::new(&cfg);
    app.transition_to_state_at(AppState::Work, 130_000, 0);
    let visited = app.update_at(0);
    assert!(visited.is_empty());
    assert_eq!(app.get_state(), AppState::Work);
    assert_eq!(app.time_elapsed(), (2, 10));
    assert_eq!(app.time_left(), (7, 50));
    assert_eq!(app.progress(), (130_000, 600_000));
}

#[test]
fn tick_on_paused_timer_reports_no_transition() {
    let mut app = App::new(&Config::new());
    app.toggle_pause();
    let visited = app.update();
    assert!(visited.is_empty());
    assert!(app.is_paused());
    assert_eq!(app.get_state(), AppState::Work);
}

#[test]
fn total_work_time_counts_full_pomodoros() {
    // Four completed 25-minute pomodoros, not currently working: 100
    // minutes, reported as 1 hour 40.
    let mut app = App::new(&Config::new());
    for _ in 0..7 {
        app.transition_to_next_state(0);
    }
    assert_eq!(app.get_state(), AppState::LongBreak(false));
    assert_eq!(app.total_work_time(), (1, 40));
}

#[test]
fn total_work_time_rolls_over_at_sixty_minutes() {
    let cfg = Config::new_from_config_string("work_time=3600\npomodoros_before_long_break=4");
    let mut app = App::new(&cfg);
    app.transition_to_next_state(0);
    assert_eq!(app.get_state(), AppState::ShortBreak);
    assert_eq!(app.pomodoros(), 1);
    assert_eq!(app.total_work_time(), (1, 0));
}

#[test]
fn total_work_time_zero_initially() {
    let app = App::new(&Config::new());
    assert_eq!(app.total_work_time(), (0, 0));
}

#[test]
fn total_work_time_adds_running_work_minutes() {
    let cfg = Config::new_from_config_string("work_time=600");
    let mut app = App::new(&cfg);
    app.transition_to_state_at(AppState::Work, 130_000, 0);
    app.update_at(0);
    // No completed pomodoro, 2m10s into a Work phase.
    assert_eq!(app.total_work_time(), (0, 2));
}

#[test]
fn state_names_match_phase() {
    let mut app = App::new(&Config::new());
    assert_eq!(app.get_state_name(), "Work");
    app.transition_to_state(AppState::ShortBreak, 0);
    assert_eq!(app.get_state_name(), "Short Break");
    app.transition_to_state(AppState::LongBreak(false), 0);
    assert_eq!(app.get_state_name(), "Long Break");
    app.transition_to_state(AppState::LongBreak(true), 0);
    assert_eq!(app.get_state_name(), "Long Break (elongated)");
}

#[test]
fn toggle_pause_round_trip_keeps_elapsed() {
    let mut app = App::new(&Config::new());
    app.toggle_pause();
    assert!(app.is_paused());
    app.forward_timer(30);
    let elapsed_paused = app.timer.acc_ms;
    assert_eq!(elapsed_paused, 30_000);
    app.toggle_pause();
    assert!(!app.is_paused());
    assert_eq!(app.timer.acc_ms, 30_000);
}

#[test]
fn forward_and_rewind_adjust_elapsed_without_transition() {
    let mut app = App::new(&Config::new());
    app.toggle_pause();
    app.forward_timer(90);
    assert_eq!(app.timer.acc_ms, 90_000);
    app.rewind_timer(60);
    assert_eq!(app.timer.acc_ms, 30_000);
    app.rewind_timer(60);
    assert_eq!(app.timer.acc_ms, 0);
    assert_eq!(app.get_state(), AppState::Work);
    assert_eq!(app.pomodoros(), 0);
}

#[test]
fn reset_timer_keeps_phase_and_count() {
    let mut app = App::new(&Config::new());
    app.transition_to_next_state(0);
    app.forward_timer(10);
    app.reset_timer(false);
    assert_eq!(app.timer.acc_ms, 0);
    assert!(!app.is_paused());
    assert_eq!(app.get_state(), AppState::ShortBreak);
    assert_eq!(app.pomodoros(), 1);
}

#[test]
fn manual_jump_keeps_pomodoro_count() {
    let mut app = App::new(&Config::new());
    app.transition_to_state(AppState::LongBreak(true), 0);
    assert_eq!(app.get_state(), AppState::LongBreak(true));
    assert_eq!(app.pomodoros(), 0);
    assert_eq!(app.timer.target_ms, 1_200_000);
}

#[test]
fn event_alphabet_carries_keys_and_ticks() {
    let tick: Event<u8> = Event::Tick;
    let input: Event<u8> = Event::Input(7);
    assert_eq!(tick, Event::Tick);
    assert!(matches!(input, Event::Input(7)));
}

#[test]
fn rewind_of_a_running_timer_subtracts_for_real() {
    // The timer keeps running; the rewind folds the tiny in-flight segment
    // in and subtracts the full delta, so skipping the rewind while running
    // would be caught here.
    let mut app = App::new(&Config::new());
    assert!(!app.is_paused());
    app.forward_timer(100);
    assert_eq!(app.timer.acc_ms, 100_000);
    app.rewind_timer(40);
    assert!(!app.is_paused());
    assert!(app.timer.acc_ms >= 60_000);
    assert!(app.timer.acc_ms < 61_000);
}
