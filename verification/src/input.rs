//! Key dispatch: maps a logical key to the controller mutation it stands
//! for, and reports which hook, if any, the caller should fire. The keys are
//! logical, independent of any terminal library; spawning hook scripts is
//! the caller's business.

use vstd::prelude::*;
use crate::app::{
    App, AppState, spec_next, spec_prev, spec_advance_next, spec_advance_prev, spec_jump,
    secs_to_ms,
};
use crate::config::{Config, spec_lookup};
use crate::timer::{sat_sub_u64, spec_forward, spec_rewind};

verus! {

/// A logical key press.
#[derive(Clone, Copy, Debug, PartialEq, Eq, Structural)]
pub enum Key {
    Char(char),
    Left,
    Right,
    Esc,
    Other,
}

/// Holds the configured hook scripts and dispatches key presses to the
/// controller.
pub struct InputManager {
    /// Shell command to run when a Work phase starts, if configured.
    pub on_work_start: Option<String>,
    /// Shell command to run when a break starts, if configured.
    pub on_break_start: Option<String>,
}

/// Keys that do something; every other key leaves the controller alone.
pub open spec fn is_handled_key(k: Key) -> bool {
    ||| k == Key::Char('q')
    ||| k == Key::Esc
    ||| k == Key::Char('p')
    ||| k == Key::Right
    ||| k == Key::Left
    ||| k == Key::Char('l')
    ||| k == Key::Char('-')
    ||| k == Key::Char('=')
    ||| k == Key::Char('[')
    ||| k == Key::Char(']')
    ||| k == Key::Char(',')
    ||| k == Key::Char('.')
}

/// Only the timer moved forward by `secs`, everything else untouched.
pub open spec fn only_timer_forwarded(pre: App, post: App, secs: u64) -> bool {
    post == (App { timer: spec_forward(pre.timer, secs_to_ms(secs)), ..pre })
}

/// Only the timer rewound by `secs`: whatever the clock sample, the timer
/// ends exactly rewound — its paused flag and target keep, a paused timer's
/// elapsed time drops by exactly the delta floored at zero, a running one is
/// folded in first — and everything else is untouched.
pub open spec fn only_timer_rewound(pre: App, post: App, secs: u64) -> bool {
    &&& post.timer.paused == pre.timer.paused
    &&& post.timer.target_ms == pre.timer.target_ms
    &&& (pre.timer.paused ==> post.timer.acc_ms == sat_sub_u64(
        pre.timer.acc_ms,
        secs_to_ms(secs),
    ))
    &&& exists|now_ms: u64| post.timer == spec_rewind(pre.timer, secs_to_ms(secs), now_ms)
    &&& post.state == pre.state
    &&& post.pomodoros == pre.pomodoros
    &&& post.settings == pre.settings
    &&& post.progress == pre.progress
    &&& post.time_left == pre.time_left
    &&& post.time_elapsed == pre.time_elapsed
}

/// Only the paused flag toggled: a paused timer keeps its elapsed time on
/// restart, a running one folds its segment in on pause.
pub open spec fn only_pause_toggled(pre: App, post: App) -> bool {
    &&& post.timer.paused == !pre.timer.paused
    &&& post.timer.target_ms == pre.timer.target_ms
    &&& (pre.timer.paused ==> post.timer.acc_ms == pre.timer.acc_ms)
    &&& (!pre.timer.paused ==> post.timer.acc_ms >= pre.timer.acc_ms)
    &&& post.state == pre.state
    &&& post.pomodoros == pre.pomodoros
    &&& post.settings == pre.settings
    &&& post.progress == pre.progress
    &&& post.time_left == pre.time_left
    &&& post.time_elapsed == pre.time_elapsed
}

/// Only the current phase's timer rearmed from zero, running.
pub open spec fn only_timer_reset(pre: App, post: App) -> bool {
    &&& post.timer.acc_ms == 0
    &&& !post.timer.paused
    &&& post.timer.target_ms == pre.timer.target_ms
    &&& post.state == pre.state
    &&& post.pomodoros == pre.pomodoros
    &&& post.settings == pre.settings
    &&& post.progress == pre.progress
    &&& post.time_left == pre.time_left
    &&& post.time_elapsed == pre.time_elapsed
}

impl InputManager {
    /// Reads the two hook scripts from the configuration.
    pub fn new(config: &Config) -> (m: InputManager)
        ensures
            m.on_work_start is Some <==> spec_lookup(config@.strings, "on_work_start"@) is Some,
            m.on_work_start matches Some(v) ==> v@ == spec_lookup(
                config@.strings,
                "on_work_start"@,
            )->Some_0,
            m.on_break_start is Some <==> spec_lookup(config@.strings, "on_break_start"@) is Some,
            m.on_break_start matches Some(v) ==> v@ == spec_lookup(
                config@.strings,
                "on_break_start"@,
            )->Some_0,
    {
        let on_work_start = config.get_string("on_work_start");
        let on_break_start = config.get_string("on_break_start");
        InputManager { on_work_start, on_break_start }
    }

    /// The hook that entering `next_state` fires: the configured script, if
    /// any, and the value the `BREAK_TYPE` environment variable carries — a
    /// break names its kind, a work start carries none. Only the spawn
    /// itself is left to the caller.
    pub fn hook_for(&self, next_state: AppState) -> (r: Option<(String, Option<&'static str>)>)
        ensures
            next_state is Work ==> {
                &&& (r is Some <==> self.on_work_start is Some)
                &&& (r matches Some(p) ==> p.0 == self.on_work_start->Some_0 && p.1 is None)
            },
            !(next_state is Work) ==> {
                &&& (r is Some <==> self.on_break_start is Some)
                &&& (r matches Some(p) ==> {
                    &&& p.0 == self.on_break_start->Some_0
                    &&& (next_state is LongBreak ==> (p.1 matches Some(bt) && bt@ == "long"@))
                    &&& (next_state is ShortBreak ==> (p.1 matches Some(bt) && bt@
                        == "short"@))
                })
            },
    {
        match next_state {
            AppState::LongBreak(_) => match &self.on_break_start {
                Some(script) => Some((script.clone(), Some("long"))),
                None => None,
            },
            AppState::ShortBreak => match &self.on_break_start {
                Some(script) => Some((script.clone(), Some("short"))),
                None => None,
            },
            AppState::Work => match &self.on_work_start {
                Some(script) => Some((script.clone(), None)),
                None => None,
            },
        }
    }

    /// Applies one key press to the controller. Returns whether the
    /// application should keep running, and the new phase to announce to the
    /// hook scripts when the key navigated to one. Backward navigation only
    /// happens within the first two displayed seconds of a phase; later, the
    /// same key rearms the current phase instead. Manual navigation carries
    /// no excess time over.
    pub fn handle_input(&self, input: Key, app: &mut App) -> (r: (bool, Option<AppState>))
        requires
            old(app).wf(),
        ensures
            final(app).wf(),
            final(app).settings == old(app).settings,
            r.0 == !(input == Key::Char('q') || input == Key::Esc),
            (input == Key::Char('q') || input == Key::Esc) ==> *final(app) == *old(app) && r.1
                is None,
            input == Key::Char('p') ==> only_pause_toggled(*old(app), *final(app)) && r.1 is None,
            input == Key::Right ==> (exists|now_ms: u64|
                *final(app) == spec_advance_next(*old(app), 0, now_ms)) && r.1 == Some(
                spec_next(
                    old(app).state,
                    old(app).pomodoros,
                    old(app).settings.pomodoros_before_long_break,
                ).0,
            ),
            input == Key::Left && (old(app).time_elapsed.0 == 0 && old(app).time_elapsed.1 < 2)
                ==> (exists|now_ms: u64| *final(app) == spec_advance_prev(*old(app), 0, now_ms))
                && r.1 == Some(
                spec_prev(
                    old(app).state,
                    old(app).pomodoros,
                    old(app).settings.pomodoros_before_long_break,
                ).0,
            ),
            input == Key::Left && !(old(app).time_elapsed.0 == 0 && old(app).time_elapsed.1 < 2)
                ==> only_timer_reset(*old(app), *final(app)) && r.1 is None,
            input == Key::Char('l') && old(app).state == AppState::ShortBreak ==> (exists|
                now_ms: u64,
            |
                *final(app) == spec_jump(*old(app), AppState::LongBreak(true), 0, now_ms)) && r.1
                is None,
            input == Key::Char('l') && old(app).state != AppState::ShortBreak ==> *final(app)
                == *old(app) && r.1 is None,
            input == Key::Char('-') ==> only_timer_rewound(*old(app), *final(app), 1) && r.1
                is None,
            input == Key::Char('=') ==> only_timer_forwarded(*old(app), *final(app), 1) && r.1
                is None,
            input == Key::Char('[') ==> only_timer_rewound(*old(app), *final(app), 5) && r.1
                is None,
            input == Key::Char(']') ==> only_timer_forwarded(*old(app), *final(app), 5) && r.1
                is None,
            input == Key::Char(',') ==> only_timer_rewound(*old(app), *final(app), 60) && r.1
                is None,
            input == Key::Char('.') ==> only_timer_forwarded(*old(app), *final(app), 60) && r.1
                is None,
            !is_handled_key(input) ==> *final(app) == *old(app) && r.1 is None,
    {
        match input {
            Key::Char('q') | Key::Esc => (false, None),
            Key::Char('p') => {
                app.toggle_pause();
                (true, None)
            },
            Key::Right => {
                app.transition_to_next_state(0);
                (true, Some(app.get_state()))
            },
            Key::Left => {
                let (minutes, seconds) = app.time_elapsed();
                if minutes == 0 && seconds < 2 {
                    app.transition_to_prev_state(0);
                    (true, Some(app.get_state()))
                } else {
                    app.reset_timer(false);
                    (true, None)
                }
            },
            Key::Char('l') => {
                if app.get_state() == AppState::ShortBreak {
                    app.transition_to_state(AppState::LongBreak(true), 0);
                }
                (true, None)
            },
            Key::Char('-') => {
                app.rewind_timer(1);
                (true, None)
            },
            Key::Char('=') => {
                app.forward_timer(1);
                (true, None)
            },
            Key::Char('[') => {
                app.rewind_timer(5);
                (true, None)
            },
            Key::Char(']') => {
                app.forward_timer(5);
                (true, None)
            },
            Key::Char(',') => {
                app.rewind_timer(60);
                (true, None)
            },
            Key::Char('.') => {
                app.forward_timer(60);
                (true, None)
            },
            _ => (true, None),
        }
    }
}

} // verus!
