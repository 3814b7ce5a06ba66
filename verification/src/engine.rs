//! The trail engine: an immutable configuration, the drive scheduler and the
//! trail buffer, driven by discrete user events and a per-frame step.

use vstd::prelude::*;
use crate::geom::Pt;
use crate::geom::in_limit;
use crate::sched::Scheduler;
use crate::trail::TrailState;
use crate::trail::advance_m;
use crate::trail::trim_m;
use crate::trail::reset_m;
use crate::trail::select_color_m;

verus! {

/// Curve samples generated per drive cycle.
pub const SUBDIVISIONS: u32 = 20;

/// The startup configuration, fixed for the engine's lifetime. The damping
/// factor is the exact rational `damp_num / damp_den`.
pub struct Config {
    /// Momentum decay per cycle, numerator.
    pub damp_num: u32,
    /// Momentum decay per cycle, denominator.
    pub damp_den: u32,
    /// Timer period for timer-driven mode, in milliseconds.
    pub dt_millis: u64,
    /// Stroke-thickness multiplier.
    pub weight_scale: u64,
    /// Minimum segment length used in the thickness formula; bounds the
    /// maximum thickness and keeps the denominator positive.
    pub weight_floor: u64,
    /// Rolling-window retention when true, discard-history when false.
    pub rolling: bool,
    /// Timer-driven when true, click-driven when false.
    pub auto: bool,
}

impl Config {
    /// The constraints the engine relies on: a positive denominator, a decay
    /// factor of at most one, and a positive floor.
    pub open spec fn wf(self) -> bool {
        1 <= self.damp_den && self.damp_num <= self.damp_den && 1 <= self.weight_floor
    }

    /// Builds a configuration, rejecting one whose damping is not a decay
    /// factor or whose floor is zero.
    pub fn validated(
        damp_num: u32,
        damp_den: u32,
        dt_millis: u64,
        weight_scale: u64,
        weight_floor: u64,
        rolling: bool,
        auto: bool,
    ) -> (r: Option<Config>)
        ensures
            r is Some <==> 1 <= damp_den && damp_num <= damp_den && 1 <= weight_floor,
            r matches Some(c) ==> c == (Config {
                damp_num,
                damp_den,
                dt_millis,
                weight_scale,
                weight_floor,
                rolling,
                auto,
            }) && c.wf(),
    {
        if damp_den >= 1 && damp_num <= damp_den && weight_floor >= 1 {
            Some(Config { damp_num, damp_den, dt_millis, weight_scale, weight_floor, rolling, auto })
        } else {
            None
        }
    }
}

/// A discrete user event, as the engine sees it; the host layer maps raw
/// input to these.
pub enum TrailEvent {
    /// Begin drawing: start a new trail at the pointer and unpause the timer.
    StartDraw,
    /// Stop drawing: pause the timer.
    StopDraw,
    /// Switch the active color, which always starts a new trail.
    PickColor(u32),
    /// Request exactly one arc (click-driven mode).
    RequestArc,
}

/// The engine: configuration, drive scheduler and trail, driven once per frame.
pub struct Engine {
    /// The startup configuration.
    pub config: Config,
    /// The drive scheduler.
    pub sched: Scheduler,
    /// The trail buffer.
    pub trail: TrailState,
}

impl Engine {
    /// A fresh engine, seeded with the pointer's initial position and a
    /// starting color.
    pub fn new(config: Config, pos: Pt, color: u32) -> (e: Engine)
        ensures
            e.config == config,
            e.sched.auto == config.auto,
            e.sched.dt == config.dt_millis,
            e.sched.next_update == config.dt_millis,
            e.sched.paused,
            !e.sched.draw_req,
            e.trail@ == select_color_m(e.trail@, color as int, pos@),
            e.trail@.wf(),
    {
        Engine {
            sched: Scheduler::new(config.auto, config.dt_millis),
            trail: TrailState::new(pos, color),
            config,
        }
    }

    /// Applies one discrete user event at pointer position `pos`.
    pub fn handle_event(&mut self, event: TrailEvent, pos: Pt)
        ensures
            final(self).config == old(self).config,
            event is StartDraw ==> final(self).trail@ == reset_m(old(self).trail@, pos@)
                && final(self).sched == (Scheduler { paused: false, ..old(self).sched }),
            event is StopDraw ==> final(self).trail@ == old(self).trail@ && final(self).sched == (
            Scheduler { paused: true, ..old(self).sched }),
            (event matches TrailEvent::PickColor(c) ==> final(self).trail@ == select_color_m(
                old(self).trail@,
                c as int,
                pos@,
            ) && final(self).sched == old(self).sched),
            event is RequestArc ==> final(self).trail@ == old(self).trail@ && final(self).sched
                == (Scheduler { draw_req: true, ..old(self).sched }),
            final(self).trail@.wf() || old(self).trail@ == final(self).trail@,
    {
        match event {
            TrailEvent::StartDraw => {
                self.trail.reset(pos);
                self.sched.begin_draw();
            },
            TrailEvent::StopDraw => {
                self.sched.end_draw();
            },
            TrailEvent::PickColor(c) => {
                self.trail.select_color(c, pos);
            },
            TrailEvent::RequestArc => {
                self.sched.request_arc();
            },
        }
    }

    /// Whether `step` may be called at this state and pointer position: the
    /// buffer invariant, the configuration constraints, the timer headroom,
    /// and the coordinate ranges.
    pub open spec fn step_ok(self, pos: Pt) -> bool {
        &&& self.trail@.wf()
        &&& self.config.wf()
        &&& self.sched.next_update + self.sched.dt <= u64::MAX
        &&& in_limit(self.trail@.points.last())
        &&& in_limit(self.trail@.v_half)
        &&& in_limit(pos@)
    }

    /// Checks `step_ok` at run time, for callers outside verified code.
    pub fn can_step(&self, pos: Pt) -> (r: bool)
        requires
            self.trail@.wf(),
        ensures
            r == self.step_ok(pos),
    {
        let tip = self.trail.tip();
        let v = self.trail.v_half();
        self.config.damp_den >= 1 && self.config.damp_num <= self.config.damp_den
            && self.config.weight_floor >= 1 && self.sched.next_update <= u64::MAX - self.sched.dt
            && tip.x >= -1_000_000_000_000_000_000 && tip.x <= 1_000_000_000_000_000_000
            && tip.y >= -1_000_000_000_000_000_000 && tip.y <= 1_000_000_000_000_000_000
            && v.x >= -1_000_000_000_000_000_000 && v.x <= 1_000_000_000_000_000_000
            && v.y >= -1_000_000_000_000_000_000 && v.y <= 1_000_000_000_000_000_000
            && pos.x >= -1_000_000_000_000_000_000 && pos.x <= 1_000_000_000_000_000_000
            && pos.y >= -1_000_000_000_000_000_000 && pos.y <= 1_000_000_000_000_000_000
    }

    /// One frame: queries the drive scheduler at elapsed time
    /// `since_start_millis`, and if a cycle is due, runs the retention step
    /// and extends the trail by one arc ending at `pos`.
    pub fn step(&mut self, since_start_millis: u64, pos: Pt) -> (fired: bool)
        requires
            old(self).step_ok(pos),
        ensures
            fired == old(self).sched.fires(since_start_millis as int),
            final(self).config == old(self).config,
            fired ==> final(self).trail@ == advance_m(
                trim_m(old(self).trail@, old(self).config.rolling),
                pos@,
                SUBDIVISIONS as int,
                old(self).config.weight_scale as int,
                old(self).config.weight_floor as int,
                old(self).config.damp_num as int,
                old(self).config.damp_den as int,
            ) && final(self).trail@.points.last() == pos@,
            !fired ==> final(self).trail@ == old(self).trail@,
            final(self).trail@.wf(),
    {
        let fire = self.sched.should_fire(since_start_millis);
        if fire {
            self.trail.cycle(
                self.config.rolling,
                pos,
                SUBDIVISIONS,
                self.config.weight_scale,
                self.config.weight_floor,
                self.config.damp_num,
                self.config.damp_den,
            );
        }
        fire
    }
}

} // verus!
