use intwerp::engine::Config;
use intwerp::engine::Engine;
use intwerp::engine::TrailEvent;
use intwerp::geom::Pt;
use intwerp::sched::Scheduler;

fn default_config(rolling: bool, auto: bool) -> Config {
    Config::validated(9, 10, 100, 10, 2, rolling, auto).unwrap()
}

#[test]
fn config_validation() {
    assert!(Config::validated(9, 10, 100, 10, 2, false, true).is_some());
    assert!(Config::validated(10, 10, 100, 10, 2, false, true).is_some());
    // A damping numerator above the denominator is not a decay factor.
    assert!(Config::validated(11, 10, 100, 10, 2, false, true).is_none());
    // A zero denominator or a zero floor is rejected.
    assert!(Config::validated(0, 0, 100, 10, 2, false, true).is_none());
    assert!(Config::validated(9, 10, 100, 10, 0, false, true).is_none());
}

#[test]
fn timer_mode_skips_and_consumes_intervals() {
    let mut s = Scheduler::new(true, 100);
    // Paused at start: nothing fires, and before the interval nothing is
    // consumed.
    assert!(!s.should_fire(50));
    assert_eq!(s.next_update, 100);
    s.begin_draw();
    assert!(!s.should_fire(99));
    assert!(s.should_fire(150));
    assert_eq!(s.next_update, 200);
    // While paused the interval is still consumed, preventing a burst when
    // drawing resumes.
    s.end_draw();
    assert!(!s.should_fire(250));
    assert_eq!(s.next_update, 300);
    s.begin_draw();
    assert!(!s.should_fire(250));
}

#[test]
fn click_mode_fires_once_per_request() {
    let mut s = Scheduler::new(false, 100);
    assert!(!s.should_fire(0));
    s.request_arc();
    assert!(s.should_fire(0));
    assert!(!s.should_fire(0));
}

#[test]
fn engine_step_extends_trail_when_due() {
    let mut e = Engine::new(default_config(false, true), Pt { x: 0, y: 0 }, 1);
    e.handle_event(TrailEvent::StartDraw, Pt { x: 0, y: 0 });
    assert!(e.can_step(Pt { x: 10, y: 0 }));
    // Before the first interval nothing fires and the trail is untouched.
    assert!(!e.step(10, Pt { x: 10, y: 0 }));
    assert_eq!(e.trail.points_len(), 1);
    // At the interval one cycle fires: twenty new samples ending at the
    // pointer.
    assert!(e.step(100, Pt { x: 10, y: 0 }));
    assert_eq!(e.trail.points_len(), 21);
    assert_eq!(e.trail.weights_len(), 20);
    assert_eq!(e.trail.tip(), Pt { x: 10, y: 0 });
}

#[test]
fn engine_pause_skips_cycles() {
    let mut e = Engine::new(default_config(false, true), Pt { x: 0, y: 0 }, 1);
    e.handle_event(TrailEvent::StartDraw, Pt { x: 0, y: 0 });
    e.handle_event(TrailEvent::StopDraw, Pt { x: 0, y: 0 });
    assert!(!e.step(100, Pt { x: 10, y: 0 }));
    assert_eq!(e.trail.points_len(), 1);
}

#[test]
fn engine_click_mode_fires_on_request() {
    let mut e = Engine::new(default_config(false, false), Pt { x: 0, y: 0 }, 1);
    assert!(!e.step(0, Pt { x: 5, y: 5 }));
    e.handle_event(TrailEvent::RequestArc, Pt { x: 5, y: 5 });
    assert!(e.step(0, Pt { x: 5, y: 5 }));
    assert_eq!(e.trail.points_len(), 21);
    assert!(!e.step(0, Pt { x: 5, y: 5 }));
}

#[test]
fn engine_color_switch_restarts() {
    let mut e = Engine::new(default_config(false, true), Pt { x: 0, y: 0 }, 1);
    e.handle_event(TrailEvent::StartDraw, Pt { x: 0, y: 0 });
    e.step(100, Pt { x: 10, y: 0 });
    e.handle_event(TrailEvent::PickColor(3), Pt { x: 10, y: 0 });
    assert_eq!(e.trail.color(), 3);
    assert_eq!(e.trail.points_len(), 1);
    assert_eq!(e.trail.weights_len(), 0);
}

#[test]
fn engine_rolling_window_bounds_memory() {
    let mut e = Engine::new(default_config(true, true), Pt { x: 0, y: 0 }, 1);
    e.handle_event(TrailEvent::StartDraw, Pt { x: 0, y: 0 });
    let mut now = 100;
    for k in 0..10 {
        assert!(e.can_step(Pt { x: k, y: k }));
        assert!(e.step(now, Pt { x: k, y: k }));
        now += 100;
        assert!(e.trail.points_len() <= 101);
        assert_eq!(e.trail.points_len(), e.trail.weights_len() + 1);
    }
}
