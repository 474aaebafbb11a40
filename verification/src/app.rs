//! The phase controller: owns one [`Timer`] and the current phase, counts
//! completed pomodoros, and drives phase transitions. Like the timer, every
//! clock-dependent operation has an exact `*_at` form taking an explicit
//! wall-clock sample and a plain form that samples the clock once.

use vstd::prelude::*;
use crate::timer::{
    Timer, State, elapsed_ms_at, status_at, sat_add_u64, sat_sub_u64, spec_new, spec_forward,
    spec_rewind, spec_pause, spec_start,
};
use crate::config::{Config, ConfigModel, spec_lookup};

verus! {

/// Default work phase length in seconds (25 minutes).
pub const DEFAULT_WORK_TIME: u64 = 60 * 25;

/// Default short break length in seconds (5 minutes).
pub const DEFAULT_SHORT_BREAK_TIME: u64 = 60 * 5;

/// Default long break length in seconds (20 minutes).
pub const DEFAULT_LONG_BREAK_TIME: u64 = 60 * 20;

/// Default number of pomodoros between long breaks.
pub const DEFAULT_POMODOROS_BEFORE_LONG_BREAK: u64 = 4;

/// Upper bound on phases traversed by a single catch-up update, so a
/// pathologically large excess (or a zero-length phase) cannot hang a tick.
pub const CATCHUP_CAP: u64 = 1000000;

/// The current phase. The long break's flag records that it was entered
/// manually from a short break; it carries no timing difference and callers
/// branch on the variant only, never on the flag except for display.
#[derive(Clone, Copy, Debug, PartialEq, Eq, Structural)]
pub enum AppState {
    ShortBreak,
    LongBreak(bool),
    Work,
}

/// Immutable durations (seconds) and the long-break cadence, fixed at
/// construction.
#[derive(Clone, Copy, Debug, PartialEq, Eq, Structural)]
pub struct AppSettings {
    pub work_time: u64,
    pub short_break_time: u64,
    pub long_break_time: u64,
    pub pomodoros_before_long_break: u64,
}

/// A settings value the controller can run on: the cadence must be positive,
/// since phase scheduling reduces the pomodoro count modulo the cadence.
pub open spec fn wf_settings(s: AppSettings) -> bool {
    s.pomodoros_before_long_break >= 1
}

/// The phase controller.
pub struct App {
    pub state: AppState,
    pub timer: Timer,
    /// Cached display progress: (elapsed ms, target ms) as of the last tick.
    pub progress: (u64, u64),
    /// Cached display time left as (minutes, seconds).
    pub time_left: (u64, u64),
    /// Cached display time elapsed as (minutes, seconds).
    pub time_elapsed: (u64, u64),
    pub pomodoros: u64,
    pub settings: AppSettings,
}

/// The configured length of a phase, in seconds.
pub open spec fn phase_secs(s: AppSettings, state: AppState) -> u64 {
    match state {
        AppState::LongBreak(_) => s.long_break_time,
        AppState::ShortBreak => s.short_break_time,
        AppState::Work => s.work_time,
    }
}

/// Seconds to milliseconds, capped at `u64::MAX`.
pub open spec fn secs_to_ms(secs: u64) -> u64 {
    if secs * 1000 <= u64::MAX {
        (secs * 1000) as u64
    } else {
        u64::MAX
    }
}

/// The configured length of a phase, in milliseconds.
pub open spec fn phase_ms(s: AppSettings, state: AppState) -> u64 {
    secs_to_ms(phase_secs(s, state))
}

/// The forward transition table, returning the next phase and the new
/// pomodoro count: breaks return to Work; Work completes a pomodoro and goes
/// to a short break, or to the scheduled long break when the new count is a
/// multiple of the cadence.
pub open spec fn spec_next(state: AppState, pomodoros: u64, cadence: u64) -> (AppState, u64)
    recommends
        cadence >= 1,
{
    match state {
        AppState::LongBreak(_) | AppState::ShortBreak => (AppState::Work, pomodoros),
        AppState::Work => {
            let p = sat_add_u64(pomodoros, 1);
            if p % cadence == 0 {
                (AppState::LongBreak(false), p)
            } else {
                (AppState::ShortBreak, p)
            }
        },
    }
}

/// The backward transition table: with no completed pomodoros everything
/// lands on Work and the count stays at zero; otherwise a break un-completes
/// one pomodoro and returns to Work, and Work returns to whichever break the
/// current count schedules, count unchanged.
pub open spec fn spec_prev(state: AppState, pomodoros: u64, cadence: u64) -> (AppState, u64)
    recommends
        cadence >= 1,
{
    if pomodoros == 0 {
        (AppState::Work, 0u64)
    } else {
        match state {
            AppState::LongBreak(_) | AppState::ShortBreak => (
                AppState::Work,
                (pomodoros - 1) as u64,
            ),
            AppState::Work => (
                if pomodoros % cadence == 0 {
                    AppState::LongBreak(false)
                } else {
                    AppState::ShortBreak
                },
                pomodoros,
            ),
        }
    }
}

/// The catch-up chain as pure duration arithmetic: a finished phase hands its
/// excess to the next phase, which is itself already finished when the excess
/// covers its whole target, and so on. Returns the final phase, the final
/// pomodoro count, the excess left inside the final phase, and every phase
/// entered, in order. `fuel` bounds the chain; when it runs out the excess is
/// left in the last phase entered.
pub open spec fn spec_catchup(
    state: AppState,
    pomodoros: u64,
    excess_ms: u64,
    settings: AppSettings,
    fuel: nat,
) -> (AppState, u64, u64, Seq<AppState>)
    recommends
        wf_settings(settings),
        fuel >= 1,
    decreases fuel,
{
    let next = spec_next(state, pomodoros, settings.pomodoros_before_long_break);
    let target = phase_ms(settings, next.0);
    if excess_ms < target || fuel <= 1 {
        (next.0, next.1, excess_ms, seq![next.0])
    } else {
        let rest = spec_catchup(
            next.0,
            next.1,
            (excess_ms - target) as u64,
            settings,
            (fuel - 1) as nat,
        );
        (rest.0, rest.1, rest.2, seq![next.0] + rest.3)
    }
}

/// The controller after an explicit jump to `next_state` at clock sample
/// `now_ms`: a fresh unpaused timer for that phase, seeded with `carry_ms`,
/// pomodoro count and display caches untouched.
pub open spec fn spec_jump(app: App, next_state: AppState, carry_ms: u64, now_ms: u64) -> App {
    App {
        state: next_state,
        timer: spec_new(phase_ms(app.settings, next_state), false, carry_ms, now_ms),
        ..app
    }
}

/// The controller after one forward transition at clock sample `now_ms`.
pub open spec fn spec_advance_next(app: App, carry_ms: u64, now_ms: u64) -> App {
    let nx = spec_next(app.state, app.pomodoros, app.settings.pomodoros_before_long_break);
    App { pomodoros: nx.1, ..spec_jump(app, nx.0, carry_ms, now_ms) }
}

/// The controller after one backward transition at clock sample `now_ms`.
pub open spec fn spec_advance_prev(app: App, carry_ms: u64, now_ms: u64) -> App {
    let pv = spec_prev(app.state, app.pomodoros, app.settings.pomodoros_before_long_break);
    App { pomodoros: pv.1, ..spec_jump(app, pv.0, carry_ms, now_ms) }
}

/// Milliseconds rendered as display (minutes, seconds).
pub open spec fn mmss(ms: u64) -> (u64, u64) {
    ((ms / 1000 / 60) as u64, (ms / 1000 % 60) as u64)
}

/// The controller with its cached display fields recomputed from its timer
/// at clock sample `now_ms`.
pub open spec fn spec_refresh(app: App, now_ms: u64) -> App {
    App {
        progress: (elapsed_ms_at(app.timer, now_ms), app.timer.target_ms),
        time_elapsed: mmss(elapsed_ms_at(app.timer, now_ms)),
        time_left: mmss(sat_sub_u64(app.timer.target_ms, elapsed_ms_at(app.timer, now_ms))),
        ..app
    }
}

/// What one tick update does, for the clock sample it took: a paused or
/// running timer only refreshes the display caches; a finished one runs the
/// catch-up chain on its excess, rebuilds the timer for the final phase with
/// the leftover excess, and refreshes the caches, reporting every phase
/// entered.
pub open spec fn spec_update_rel(pre: App, post: App, visited: Seq<AppState>, now_ms: u64) -> bool {
    let st = status_at(pre.timer, now_ms);
    &&& ((st is Paused || st is Running) ==> visited == Seq::<AppState>::empty() && post
        == spec_refresh(pre, now_ms))
    &&& (st matches State::Finished(excess) ==> {
        let c = spec_catchup(
            pre.state,
            pre.pomodoros,
            excess,
            pre.settings,
            CATCHUP_CAP as nat,
        );
        &&& visited == c.3
        &&& post == spec_refresh(
            App {
                state: c.0,
                pomodoros: c.1,
                timer: spec_new(phase_ms(pre.settings, c.0), false, c.2, now_ms),
                ..pre
            },
            now_ms,
        )
    })
}

fn secs_to_ms_exec(secs: u64) -> (r: u64)
    ensures
        r == secs_to_ms(secs),
{
    if secs <= u64::MAX / 1000 {
        secs * 1000
    } else {
        u64::MAX
    }
}

impl App {
    /// The controller is well-formed when its settings are.
    pub open spec fn wf(self) -> bool {
        wf_settings(self.settings)
    }

    /// Fresh controller at clock sample `now_ms`: Work phase, no completed
    /// pomodoros, an unpaused timer targeting the work time, display caches
    /// zeroed until the first tick.
    pub fn with_settings_at(settings: AppSettings, now_ms: u64) -> (app: App)
        requires
            wf_settings(settings),
        ensures
            app == (App {
                state: AppState::Work,
                timer: spec_new(phase_ms(settings, AppState::Work), false, 0, now_ms),
                progress: (0u64, phase_ms(settings, AppState::Work)),
                time_left: (0u64, 0u64),
                time_elapsed: (0u64, 0u64),
                pomodoros: 0u64,
                settings,
            }),
    {
        let target = secs_to_ms_exec(settings.work_time);
        App {
            state: AppState::Work,
            timer: Timer::new_at(target, false, now_ms),
            progress: (0, target),
            time_left: (0, 0),
            time_elapsed: (0, 0),
            pomodoros: 0,
            settings,
        }
    }

    /// Fresh controller with the clock sampled immediately.
    pub fn with_settings(settings: AppSettings) -> (app: App)
        requires
            wf_settings(settings),
        ensures
            app.wf(),
            app.state == AppState::Work,
            app.pomodoros == 0,
            app.settings == settings,
            app.timer.acc_ms == 0,
            !app.timer.paused,
            app.timer.target_ms == phase_ms(settings, AppState::Work),
            app.progress == (0u64, phase_ms(settings, AppState::Work)),
            app.time_left == (0u64, 0u64),
            app.time_elapsed == (0u64, 0u64),
    {
        let now = crate::clock::now_millis();
        App::with_settings_at(settings, now)
    }

    /// Fresh controller configured from `config`: each duration and the
    /// cadence come from their keys when present and usable — non-negative
    /// for durations, positive for the cadence — and fall back to the
    /// defaults otherwise.
    pub fn new(config: &Config) -> (app: App)
        ensures
            app.wf(),
            app.settings == spec_settings_of(config@),
            app.state == AppState::Work,
            app.pomodoros == 0,
            app.timer.acc_ms == 0,
            !app.timer.paused,
            app.timer.target_ms == phase_ms(spec_settings_of(config@), AppState::Work),
            app.progress == (0u64, app.timer.target_ms),
            app.time_left == (0u64, 0u64),
            app.time_elapsed == (0u64, 0u64),
    {
        let settings = AppSettings {
            work_time: setting_u64(config, "work_time", DEFAULT_WORK_TIME),
            short_break_time: setting_u64(config, "short_break_time", DEFAULT_SHORT_BREAK_TIME),
            long_break_time: setting_u64(config, "long_break_time", DEFAULT_LONG_BREAK_TIME),
            pomodoros_before_long_break: setting_cadence(config),
        };
        App::with_settings(settings)
    }

    /// Cached progress as (elapsed ms, target ms); the display fraction is
    /// the quotient of the two.
    pub fn progress(&self) -> (r: (u64, u64))
        ensures
            r == self.progress,
    {
        self.progress
    }

    pub fn is_paused(&self) -> (r: bool)
        ensures
            r == self.timer.paused,
    {
        self.timer.is_paused()
    }

    /// Cached remaining time as (minutes, seconds).
    pub fn time_left(&self) -> (r: (u64, u64))
        ensures
            r == self.time_left,
    {
        self.time_left
    }

    /// Cached elapsed time as (minutes, seconds).
    pub fn time_elapsed(&self) -> (r: (u64, u64))
        ensures
            r == self.time_elapsed,
    {
        self.time_elapsed
    }

    pub fn pomodoros(&self) -> (r: u64)
        ensures
            r == self.pomodoros,
    {
        self.pomodoros
    }

    pub fn get_state(&self) -> (r: AppState)
        ensures
            r == self.state,
    {
        self.state
    }

    /// Total work time as (hours, minutes): every completed pomodoro counts
    /// its full configured work time — a skipped-through Work phase still
    /// counts whole and a skipped break costs nothing, which is the intended
    /// bookkeeping — plus the cached running time when currently working.
    pub fn total_work_time(&self) -> (r: (u64, u64))
        ensures
            ({
                let total = self.spec_total_work_minutes();
                &&& r.1 == total % 60
                &&& (total / 60 <= u64::MAX ==> r.0 == total / 60)
                &&& (total / 60 > u64::MAX ==> r.0 == u64::MAX)
            }),
    {
        proof {
            let p = self.pomodoros as int;
            let w = self.settings.work_time as int;
            assert(p * w <= u64::MAX * u64::MAX) by (nonlinear_arith)
                requires
                    0 <= p <= u64::MAX,
                    0 <= w <= u64::MAX,
            ;
        }
        let historic: u128 = (self.pomodoros as u128) * (self.settings.work_time as u128) / 60;
        let running: (u64, u64) = if self.state == AppState::Work {
            self.time_elapsed
        } else {
            (0, 0)
        };
        let total: u128 = historic + (running.0 as u128) + ((running.1 / 60) as u128);
        let hours_wide: u128 = total / 60;
        let minutes: u64 = (total % 60) as u64;
        let hours: u64 = if hours_wide <= u64::MAX as u128 {
            hours_wide as u64
        } else {
            u64::MAX
        };
        proof {
            assert(historic == self.pomodoros * self.settings.work_time / 60);
        }
        (hours, minutes)
    }

    /// Total credited work minutes: completed pomodoros at full work time,
    /// plus the cached running minutes while in a Work phase.
    pub open spec fn spec_total_work_minutes(self) -> int {
        self.pomodoros * self.settings.work_time / 60 + if self.state == AppState::Work {
            self.time_elapsed.0 + self.time_elapsed.1 / 60
        } else {
            0
        }
    }

    /// The user-visible phase name.
    pub fn get_state_name(&self) -> (r: &'static str)
        ensures
            r@ == spec_state_name(self.state),
    {
        match self.state {
            AppState::LongBreak(elongated) => if elongated {
                "Long Break (elongated)"
            } else {
                "Long Break"
            },
            AppState::ShortBreak => "Short Break",
            AppState::Work => "Work",
        }
    }

    /// Explicit jump: rebuilds the timer for `next_state`'s duration, seeded
    /// with `carry_ms` already elapsed, leaving the pomodoro count and the
    /// display caches alone.
    pub fn transition_to_state_at(&mut self, next_state: AppState, carry_ms: u64, now_ms: u64)
        ensures
            *final(self) == spec_jump(*old(self), next_state, carry_ms, now_ms),
    {
        let secs = match next_state {
            AppState::LongBreak(_) => self.settings.long_break_time,
            AppState::ShortBreak => self.settings.short_break_time,
            AppState::Work => self.settings.work_time,
        };
        let target = secs_to_ms_exec(secs);
        self.timer = Timer::new_with_acc_at(target, false, carry_ms, now_ms);
        self.state = next_state;
    }

    /// Explicit jump with the clock sampled immediately: used for the manual
    /// elongate-break action.
    pub fn transition_to_state(&mut self, next_state: AppState, carry_ms: u64)
        ensures
            final(self).state == next_state,
            final(self).pomodoros == old(self).pomodoros,
            final(self).settings == old(self).settings,
            final(self).timer.target_ms == phase_ms(old(self).settings, next_state),
            final(self).timer.acc_ms == carry_ms,
            !final(self).timer.paused,
            exists|now_ms: u64| *final(self) == spec_jump(*old(self), next_state, carry_ms, now_ms),
    {
        let now = crate::clock::now_millis();
        self.transition_to_state_at(next_state, carry_ms, now);
        proof {
            assert(*self == spec_jump(*old(self), next_state, carry_ms, now));
        }
    }

    /// Forward transition per [`spec_next`], carrying `carry_ms` of excess
    /// into the fresh timer.
    pub fn transition_to_next_state_at(&mut self, carry_ms: u64, now_ms: u64)
        requires
            old(self).wf(),
        ensures
            *final(self) == spec_advance_next(*old(self), carry_ms, now_ms),
    {
        let next_state = match self.state {
            AppState::LongBreak(_) | AppState::ShortBreak => AppState::Work,
            AppState::Work => {
                self.pomodoros = if self.pomodoros < u64::MAX {
                    self.pomodoros + 1
                } else {
                    u64::MAX
                };
                if self.pomodoros % self.settings.pomodoros_before_long_break == 0 {
                    AppState::LongBreak(false)
                } else {
                    AppState::ShortBreak
                }
            },
        };
        self.transition_to_state_at(next_state, carry_ms, now_ms);
    }

    /// Forward transition with the clock sampled immediately. `carry_ms` is
    /// the excess past the finished phase's target, or zero for a manual
    /// skip.
    pub fn transition_to_next_state(&mut self, carry_ms: u64)
        requires
            old(self).wf(),
        ensures
            ({
                let nx = spec_next(
                    old(self).state,
                    old(self).pomodoros,
                    old(self).settings.pomodoros_before_long_break,
                );
                &&& final(self).state == nx.0
                &&& final(self).pomodoros == nx.1
                &&& final(self).settings == old(self).settings
                &&& final(self).timer.target_ms == phase_ms(old(self).settings, nx.0)
                &&& final(self).timer.acc_ms == carry_ms
                &&& !final(self).timer.paused
                &&& exists|now_ms: u64|
                    *final(self) == spec_advance_next(*old(self), carry_ms, now_ms)
            }),
    {
        let now = crate::clock::now_millis();
        self.transition_to_next_state_at(carry_ms, now);
        proof {
            assert(*self == spec_advance_next(*old(self), carry_ms, now));
        }
    }

    /// Backward transition per [`spec_prev`]: never drives the pomodoro
    /// count negative, landing on Work instead.
    pub fn transition_to_prev_state_at(&mut self, carry_ms: u64, now_ms: u64)
        requires
            old(self).wf(),
        ensures
            *final(self) == spec_advance_prev(*old(self), carry_ms, now_ms),
    {
        let next_state = if self.pomodoros == 0 {
            AppState::Work
        } else {
            match self.state {
                AppState::LongBreak(_) | AppState::ShortBreak => {
                    self.pomodoros = self.pomodoros - 1;
                    AppState::Work
                },
                AppState::Work => {
                    if self.pomodoros % self.settings.pomodoros_before_long_break == 0 {
                        AppState::LongBreak(false)
                    } else {
                        AppState::ShortBreak
                    }
                },
            }
        };
        self.transition_to_state_at(next_state, carry_ms, now_ms);
    }

    /// Backward transition with the clock sampled immediately. With zero
    /// completed pomodoros it always lands on Work, whatever the phase.
    pub fn transition_to_prev_state(&mut self, carry_ms: u64)
        requires
            old(self).wf(),
        ensures
            ({
                let pv = spec_prev(
                    old(self).state,
                    old(self).pomodoros,
                    old(self).settings.pomodoros_before_long_break,
                );
                &&& final(self).state == pv.0
                &&& final(self).pomodoros == pv.1
                &&& final(self).settings == old(self).settings
                &&& final(self).timer.target_ms == phase_ms(old(self).settings, pv.0)
                &&& final(self).timer.acc_ms == carry_ms
                &&& !final(self).timer.paused
                &&& exists|now_ms: u64|
                    *final(self) == spec_advance_prev(*old(self), carry_ms, now_ms)
            }),
    {
        let now = crate::clock::now_millis();
        self.transition_to_prev_state_at(carry_ms, now);
        proof {
            assert(*self == spec_advance_prev(*old(self), carry_ms, now));
        }
    }

    /// Rearms the current phase's timer from zero without changing the phase
    /// or the pomodoro count.
    pub fn reset_timer(&mut self, paused: bool)
        ensures
            final(self).timer.acc_ms == 0,
            final(self).timer.paused == paused,
            final(self).timer.target_ms == old(self).timer.target_ms,
            final(self).state == old(self).state,
            final(self).pomodoros == old(self).pomodoros,
            final(self).settings == old(self).settings,
            final(self).progress == old(self).progress,
            final(self).time_left == old(self).time_left,
            final(self).time_elapsed == old(self).time_elapsed,
    {
        self.timer.reset(paused);
    }

    /// Adds `delta_secs` to the timer's elapsed time; never triggers a phase
    /// transition by itself — only the tick update path does that.
    pub fn forward_timer(&mut self, delta_secs: u64)
        ensures
            *final(self) == (App {
                timer: spec_forward(old(self).timer, secs_to_ms(delta_secs)),
                ..*old(self)
            }),
    {
        let ms = secs_to_ms_exec(delta_secs);
        self.timer.forward_timer(ms);
    }

    /// Subtracts `delta_secs` from the timer's elapsed time, floored at
    /// zero; never triggers a phase transition by itself. Whatever the clock
    /// sample, the timer ends exactly rewound: paused or running, skipping
    /// the subtraction would not meet this.
    pub fn rewind_timer(&mut self, delta_secs: u64)
        ensures
            final(self).timer.paused == old(self).timer.paused,
            final(self).timer.target_ms == old(self).timer.target_ms,
            old(self).timer.paused ==> final(self).timer.acc_ms == sat_sub_u64(
                old(self).timer.acc_ms,
                secs_to_ms(delta_secs),
            ),
            exists|now_ms: u64|
                final(self).timer == spec_rewind(
                    old(self).timer,
                    secs_to_ms(delta_secs),
                    now_ms,
                ),
            final(self).state == old(self).state,
            final(self).pomodoros == old(self).pomodoros,
            final(self).settings == old(self).settings,
            final(self).progress == old(self).progress,
            final(self).time_left == old(self).time_left,
            final(self).time_elapsed == old(self).time_elapsed,
    {
        let now = crate::clock::now_millis();
        let ms = secs_to_ms_exec(delta_secs);
        self.timer.rewind_timer_at(ms, now);
        proof {
            assert(self.timer == spec_rewind(old(self).timer, secs_to_ms(delta_secs), now));
        }
    }

    /// Pauses a running timer and starts a paused one. Always consults the
    /// paused flag first, so the timer's pause/start preconditions are met by
    /// construction.
    pub fn toggle_pause(&mut self)
        ensures
            final(self).timer.paused == !old(self).timer.paused,
            final(self).timer.target_ms == old(self).timer.target_ms,
            old(self).timer.paused ==> final(self).timer.acc_ms == old(self).timer.acc_ms,
            !old(self).timer.paused ==> final(self).timer.acc_ms >= old(self).timer.acc_ms,
            exists|now_ms: u64|
                final(self).timer == (if old(self).timer.paused {
                    spec_start(old(self).timer, now_ms)
                } else {
                    spec_pause(old(self).timer, now_ms)
                }),
            final(self).state == old(self).state,
            final(self).pomodoros == old(self).pomodoros,
            final(self).settings == old(self).settings,
            final(self).progress == old(self).progress,
            final(self).time_left == old(self).time_left,
            final(self).time_elapsed == old(self).time_elapsed,
    {
        let now = crate::clock::now_millis();
        if self.timer.is_paused() {
            self.timer.start_at(now);
            proof {
                assert(self.timer == spec_start(old(self).timer, now));
            }
        } else {
            self.timer.pause_at(now);
            proof {
                assert(self.timer == spec_pause(old(self).timer, now));
            }
        }
    }

    /// Recomputes the cached display fields from the timer at `now_ms`.
    fn update_progress_data_at(&mut self, now_ms: u64)
        ensures
            *final(self) == spec_refresh(*old(self), now_ms),
    {
        let (elapsed, remaining, target) = self.timer.get_progress_data_at(now_ms);
        self.progress = (elapsed, target);
        let seconds_elapsed = elapsed / 1000;
        self.time_elapsed = (seconds_elapsed / 60, seconds_elapsed % 60);
        let seconds_left = remaining / 1000;
        self.time_left = (seconds_left / 60, seconds_left % 60);
    }

    /// The tick update against an explicit clock sample: polls the timer;
    /// while paused or running only the display caches are refreshed; when
    /// finished, runs the catch-up chain of [`spec_catchup`], so no phase
    /// transition is lost even if polling stalled across several phase
    /// lengths. Returns every phase entered, in order, for the caller to
    /// notify its observers one by one.
    pub fn update_at(&mut self, now_ms: u64) -> (visited: Vec<AppState>)
        requires
            old(self).wf(),
        ensures
            final(self).wf(),
            final(self).settings == old(self).settings,
            visited@.len() <= CATCHUP_CAP,
            spec_update_rel(*old(self), *final(self), visited@, now_ms),
    {
        let ghost pre: App = *self;
        let st = self.timer.get_state_at(now_ms);
        match st {
            State::Paused | State::Running => {
                self.update_progress_data_at(now_ms);
                Vec::new()
            },
            State::Finished(excess0) => {
                let mut visited: Vec<AppState> = Vec::new();
                let mut excess: u64 = excess0;
                let mut fuel: u64 = CATCHUP_CAP;
                proof {
                    let full = spec_catchup(
                        pre.state,
                        pre.pomodoros,
                        excess0,
                        pre.settings,
                        CATCHUP_CAP as nat,
                    );
                    assert(Seq::<AppState>::empty() + full.3 =~= full.3);
                }
                loop
                    invariant_except_break
                        visited@.len() == CATCHUP_CAP - fuel,
                        ({
                            let full = spec_catchup(
                                pre.state,
                                pre.pomodoros,
                                excess0,
                                pre.settings,
                                CATCHUP_CAP as nat,
                            );
                            let rest = spec_catchup(
                                self.state,
                                self.pomodoros,
                                excess,
                                self.settings,
                                fuel as nat,
                            );
                            &&& full.0 == rest.0
                            &&& full.1 == rest.1
                            &&& full.2 == rest.2
                            &&& full.3 == visited@ + rest.3
                        }),
                    invariant
                        self.wf(),
                        1 <= fuel <= CATCHUP_CAP,
                        self.settings == pre.settings,
                        self.progress == pre.progress,
                        self.time_left == pre.time_left,
                        self.time_elapsed == pre.time_elapsed,
                    ensures
                        ({
                            let full = spec_catchup(
                                pre.state,
                                pre.pomodoros,
                                excess0,
                                pre.settings,
                                CATCHUP_CAP as nat,
                            );
                            &&& full.0 == self.state
                            &&& full.1 == self.pomodoros
                            &&& full.3 == visited@
                            &&& self.timer == spec_new(
                                phase_ms(pre.settings, full.0),
                                false,
                                full.2,
                                now_ms,
                            )
                            &&& visited@.len() <= CATCHUP_CAP
                        }),
                    decreases fuel,
                {
                    let ghost loop_pre: App = *self;
                    let ghost loop_excess: u64 = excess;
                    let ghost loop_fuel: u64 = fuel;
                    let ghost visited_pre: Seq<AppState> = visited@;
                    self.transition_to_next_state_at(excess, now_ms);
                    visited.push(self.get_state());
                    proof {
                        assert(elapsed_ms_at(self.timer, now_ms) == excess);
                        assert(visited@ =~= visited_pre + seq![self.state]);
                    }
                    let st2 = self.timer.get_state_at(now_ms);
                    match st2 {
                        State::Finished(e2) => {
                            if fuel <= 1 {
                                proof {
                                    let full = spec_catchup(
                                        pre.state,
                                        pre.pomodoros,
                                        excess0,
                                        pre.settings,
                                        CATCHUP_CAP as nat,
                                    );
                                    let rest = spec_catchup(
                                        loop_pre.state,
                                        loop_pre.pomodoros,
                                        loop_excess,
                                        pre.settings,
                                        loop_fuel as nat,
                                    );
                                    assert(rest.3 =~= seq![self.state]);
                                    assert(full.3 =~= visited@);
                                }
                                break ;
                            }
                            excess = e2;
                            fuel = fuel - 1;
                            proof {
                                let full = spec_catchup(
                                    pre.state,
                                    pre.pomodoros,
                                    excess0,
                                    pre.settings,
                                    CATCHUP_CAP as nat,
                                );
                                let old_rest = spec_catchup(
                                    loop_pre.state,
                                    loop_pre.pomodoros,
                                    loop_excess,
                                    pre.settings,
                                    loop_fuel as nat,
                                );
                                let new_rest = spec_catchup(
                                    self.state,
                                    self.pomodoros,
                                    excess,
                                    self.settings,
                                    fuel as nat,
                                );
                                assert(old_rest.3 == seq![self.state] + new_rest.3);
                                assert(full.3 =~= visited@ + new_rest.3);
                            }
                        },
                        _ => {
                            proof {
                                let full = spec_catchup(
                                    pre.state,
                                    pre.pomodoros,
                                    excess0,
                                    pre.settings,
                                    CATCHUP_CAP as nat,
                                );
                                let rest = spec_catchup(
                                    loop_pre.state,
                                    loop_pre.pomodoros,
                                    loop_excess,
                                    pre.settings,
                                    loop_fuel as nat,
                                );
                                assert(rest.3 =~= seq![self.state]);
                                assert(full.3 =~= visited@);
                            }
                            break ;
                        },
                    }
                }
                self.update_progress_data_at(now_ms);
                visited
            },
        }
    }

    /// The tick update with the clock sampled once at entry; what it did for
    /// that sample is pinned by [`spec_update_rel`].
    pub fn update(&mut self) -> (visited: Vec<AppState>)
        requires
            old(self).wf(),
        ensures
            final(self).wf(),
            final(self).settings == old(self).settings,
            visited@.len() <= CATCHUP_CAP,
            exists|now_ms: u64| spec_update_rel(*old(self), *final(self), visited@, now_ms),
    {
        let now = crate::clock::now_millis();
        let visited = self.update_at(now);
        proof {
            assert(spec_update_rel(*old(self), *self, visited@, now));
        }
        visited
    }
}

/// A configured duration: the integer entry under `key` when it is
/// non-negative, the default otherwise.
pub open spec fn spec_setting(c: ConfigModel, key: Seq<char>, default: u64) -> u64 {
    match spec_lookup(c.ints, key) {
        Some(v) => if 0 <= v <= u64::MAX {
            v as u64
        } else {
            default
        },
        None => default,
    }
}

/// The configured cadence: the entry when it is positive, the default
/// otherwise, so the controller is always well-formed.
pub open spec fn spec_cadence(c: ConfigModel) -> u64 {
    match spec_lookup(c.ints, "pomodoros_before_long_break"@) {
        Some(v) => if 1 <= v <= u64::MAX {
            v as u64
        } else {
            DEFAULT_POMODOROS_BEFORE_LONG_BREAK
        },
        None => DEFAULT_POMODOROS_BEFORE_LONG_BREAK,
    }
}

/// The settings a configuration yields.
pub open spec fn spec_settings_of(c: ConfigModel) -> AppSettings {
    AppSettings {
        work_time: spec_setting(c, "work_time"@, DEFAULT_WORK_TIME),
        short_break_time: spec_setting(c, "short_break_time"@, DEFAULT_SHORT_BREAK_TIME),
        long_break_time: spec_setting(c, "long_break_time"@, DEFAULT_LONG_BREAK_TIME),
        pomodoros_before_long_break: spec_cadence(c),
    }
}

fn setting_u64(config: &Config, key: &str, default: u64) -> (r: u64)
    ensures
        r == spec_setting(config@, key@, default),
{
    match config.get_int(key) {
        Some(v) => if v >= 0 {
            v as u64
        } else {
            default
        },
        None => default,
    }
}

fn setting_cadence(config: &Config) -> (r: u64)
    ensures
        r == spec_cadence(config@),
        r >= 1,
{
    match config.get_int("pomodoros_before_long_break") {
        Some(v) => if v >= 1 {
            v as u64
        } else {
            DEFAULT_POMODOROS_BEFORE_LONG_BREAK
        },
        None => DEFAULT_POMODOROS_BEFORE_LONG_BREAK,
    }
}

/// The user-visible name of each phase.
pub open spec fn spec_state_name(state: AppState) -> Seq<char> {
    match state {
        AppState::LongBreak(true) => "Long Break (elongated)"@,
        AppState::LongBreak(false) => "Long Break"@,
        AppState::ShortBreak => "Short Break"@,
        AppState::Work => "Work"@,
    }
}

/// Law: with a cadence of four and no completed pomodoros, the forward
/// transitions from Work visit ShortBreak, Work, ShortBreak, Work,
/// ShortBreak, Work, and then LongBreak(false): the break after the fourth
/// completed pomodoro is the scheduled long break, the three before it are
/// short.
pub proof fn lemma_cycle_cadence_four()
    ensures
        spec_next(AppState::Work, 0, 4) == (AppState::ShortBreak, 1u64),
        spec_next(AppState::ShortBreak, 1, 4) == (AppState::Work, 1u64),
        spec_next(AppState::Work, 1, 4) == (AppState::ShortBreak, 2u64),
        spec_next(AppState::ShortBreak, 2, 4) == (AppState::Work, 2u64),
        spec_next(AppState::Work, 2, 4) == (AppState::ShortBreak, 3u64),
        spec_next(AppState::ShortBreak, 3, 4) == (AppState::Work, 3u64),
        spec_next(AppState::Work, 3, 4) == (AppState::LongBreak(false), 4u64),
{
}

/// Law: the break scheduled after completing a pomodoro is the long break
/// exactly when the new count is a multiple of the cadence, and the count
/// always rises by one.
pub proof fn lemma_work_break_schedule(pomodoros: u64, cadence: u64)
    requires
        cadence >= 1,
        pomodoros < u64::MAX,
    ensures
        spec_next(AppState::Work, pomodoros, cadence).1 == pomodoros + 1,
        (pomodoros + 1) % (cadence as int) == 0 ==> spec_next(AppState::Work, pomodoros, cadence).0
            == AppState::LongBreak(false),
        (pomodoros + 1) % (cadence as int) != 0 ==> spec_next(AppState::Work, pomodoros, cadence).0
            == AppState::ShortBreak,
{
}

/// Law: navigating backward out of a break immediately after reaching it
/// forward from Work returns to Work with the pomodoro count restored to its
/// value before that transition. In particular, backing out of a freshly
/// scheduled long break undoes its pomodoro.
pub proof fn lemma_prev_undoes_completed_break(pomodoros: u64, cadence: u64)
    requires
        cadence >= 1,
        pomodoros < u64::MAX,
    ensures
        ({
            let nx = spec_next(AppState::Work, pomodoros, cadence);
            spec_prev(nx.0, nx.1, cadence) == (AppState::Work, pomodoros)
        }),
{
}

/// Law: navigating backward with no completed pomodoros lands on Work with
/// the count still zero, whatever the current phase.
pub proof fn lemma_prev_at_zero(state: AppState, cadence: u64)
    requires
        cadence >= 1,
    ensures
        spec_prev(state, 0, cadence) == (AppState::Work, 0u64),
{
}

/// Law: a tick that found the timer finished always enters at least one new
/// phase and — when every phase lasts at least a millisecond and the excess
/// is below the traversal cap — leaves the controller's rebuilt timer
/// Running at the very clock sample the tick used: the update is never
/// re-entrantly finished.
pub proof fn lemma_update_leaves_running(pre: App, post: App, visited: Seq<AppState>, now_ms: u64)
    requires
        pre.wf(),
        phase_ms(pre.settings, AppState::Work) >= 1,
        phase_ms(pre.settings, AppState::ShortBreak) >= 1,
        phase_ms(pre.settings, AppState::LongBreak(false)) >= 1,
        spec_update_rel(pre, post, visited, now_ms),
        status_at(pre.timer, now_ms) is Finished,
        status_at(pre.timer, now_ms)->Finished_0 < CATCHUP_CAP,
    ensures
        visited.len() >= 1,
        status_at(post.timer, now_ms) == State::Running,
{
    let excess = status_at(pre.timer, now_ms)->Finished_0;
    lemma_catchup_terminates(pre.state, pre.pomodoros, excess, pre.settings, CATCHUP_CAP as nat);
}

/// Law: the catch-up chain always visits at least one phase, never more than
/// one beyond what the excess can cover at a millisecond per phase, and —
/// when every phase lasts at least a millisecond and the fuel exceeds the
/// excess — leaves a remaining excess strictly below the final phase's
/// target, so the timer it rebuilds polls Running (or Paused), never
/// re-entrantly Finished.
pub proof fn lemma_catchup_terminates(
    state: AppState,
    pomodoros: u64,
    excess_ms: u64,
    settings: AppSettings,
    fuel: nat,
)
    requires
        wf_settings(settings),
        phase_ms(settings, AppState::Work) >= 1,
        phase_ms(settings, AppState::ShortBreak) >= 1,
        phase_ms(settings, AppState::LongBreak(false)) >= 1,
        fuel > excess_ms,
    ensures
        ({
            let c = spec_catchup(state, pomodoros, excess_ms, settings, fuel);
            &&& c.3.len() >= 1
            &&& c.3.len() <= excess_ms + 1
            &&& c.2 < phase_ms(settings, c.0)
            &&& forall|now_ms: u64|
                status_at(spec_new(phase_ms(settings, c.0), false, c.2, now_ms), now_ms)
                    == State::Running
        }),
    decreases fuel,
{
    let next = spec_next(state, pomodoros, settings.pomodoros_before_long_break);
    let target = phase_ms(settings, next.0);
    if excess_ms < target || fuel <= 1 {
    } else {
        lemma_catchup_terminates(
            next.0,
            next.1,
            (excess_ms - target) as u64,
            settings,
            (fuel - 1) as nat,
        );
    }
}

/// Law: the catch-up chain traverses at most `1 + excess / dmin` phases when
/// every phase lasts at least `dmin` milliseconds: each transition past the
/// first consumes the just-finished phase's full target from the carried
/// excess.
pub proof fn lemma_catchup_step_bound(
    state: AppState,
    pomodoros: u64,
    excess_ms: u64,
    settings: AppSettings,
    fuel: nat,
    dmin: u64,
)
    requires
        wf_settings(settings),
        dmin >= 1,
        phase_ms(settings, AppState::Work) >= dmin,
        phase_ms(settings, AppState::ShortBreak) >= dmin,
        phase_ms(settings, AppState::LongBreak(false)) >= dmin,
        fuel > excess_ms,
    ensures
        spec_catchup(state, pomodoros, excess_ms, settings, fuel).3.len() <= 1 + excess_ms as int
            / dmin as int,
    decreases fuel,
{
    let next = spec_next(state, pomodoros, settings.pomodoros_before_long_break);
    let target = phase_ms(settings, next.0);
    if excess_ms < target || fuel <= 1 {
        vstd::arithmetic::div_mod::lemma_div_is_ordered(0, excess_ms as int, dmin as int);
    } else {
        let shrunk = (excess_ms - target) as u64;
        lemma_catchup_step_bound(next.0, next.1, shrunk, settings, (fuel - 1) as nat, dmin);
        vstd::arithmetic::div_mod::lemma_div_plus_one(shrunk as int, dmin as int);
        vstd::arithmetic::div_mod::lemma_div_is_ordered(
            dmin as int + shrunk as int,
            excess_ms as int,
            dmin as int,
        );
    }
}

} // verus!
