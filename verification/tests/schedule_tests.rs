use tetroid::schedule::{
    rate_of, RenderTick, Scheduler, Trigger, NANOS_PER_SECOND, STATUS_PERIOD, UPDATE_PERIOD,
};

#[test]
fn periods_are_a_sixtieth_and_a_half_second() {
    assert_eq!(NANOS_PER_SECOND, 1_000_000_000);
    assert_eq!(UPDATE_PERIOD, 16_666_666);
    assert_eq!(STATUS_PERIOD, 500_000_000);
}

#[test]
fn trigger_fires_after_more_than_its_period() {
    let mut trigger = Trigger::new(100, 1_000);
    assert!(!trigger.is_due(1_000));
    assert!(!trigger.is_due(1_100));
    assert!(trigger.is_due(1_101));
    assert_eq!(trigger.poll(1_100), None);
    assert_eq!(trigger, Trigger { period: 100, last: 1_000 });
    assert_eq!(trigger.poll(1_250), Some(250));
    assert_eq!(trigger, Trigger { period: 100, last: 1_250 });
    assert_eq!(trigger.poll(1_350), None);
    assert_eq!(trigger.poll(1_351), Some(101));
    assert_eq!(trigger.last, 1_351);
}

#[test]
fn trigger_with_period_zero_fires_at_every_poll() {
    let mut trigger = Trigger::new(0, 7);
    assert_eq!(trigger.poll(7), Some(0));
    assert_eq!(trigger.poll(7), Some(0));
    assert_eq!(trigger.poll(9), Some(2));
    assert_eq!(trigger.last, 9);
}

#[test]
fn trigger_ignores_a_time_before_its_reference() {
    let mut trigger = Trigger::new(10, 500);
    assert!(!trigger.is_due(100));
    assert_eq!(trigger.poll(100), None);
    assert_eq!(trigger.last, 500);
    let mut eager = Trigger::new(0, 500);
    assert_eq!(eager.poll(100), Some(0));
    assert_eq!(eager.last, 500);
}

#[test]
fn rates_are_in_hundredths_of_a_hertz() {
    assert_eq!(rate_of(1, 1_000_000_000), 100);
    assert_eq!(rate_of(1, 20_000_000), 5_000);
    assert_eq!(rate_of(1, 16_666_667), 6_000);
    assert_eq!(rate_of(30, 500_000_001), 6_000);
    assert_eq!(rate_of(0, 12_345), 0);
    assert_eq!(rate_of(1, 3_000_000_000), 33);
    assert_eq!(rate_of(2, 3_000_000_000), 67);
    // A half rounds up: 1 / 8 s = 0.125 Hz.
    assert_eq!(rate_of(1, 8_000_000_000), 13);
    assert_eq!(rate_of(u64::MAX, 1), 1_844_674_407_370_955_161_500_000_000_000);
    assert_eq!(rate_of(7, u64::MAX), 0);
}

#[test]
fn scheduler_measures_the_update_rate() {
    let mut clock = Scheduler::new(0, 1_000);
    assert_eq!(clock.ups(), 0);
    assert!(!clock.update_due(1_000 + UPDATE_PERIOD));
    assert!(!clock.poll_update(1_000 + UPDATE_PERIOD));
    assert_eq!(clock.ups(), 0);
    assert!(clock.update_due(1_000 + 20_000_000));
    assert!(clock.poll_update(1_000 + 20_000_000));
    assert_eq!(clock.ups(), 5_000);
    assert!(!clock.poll_update(1_000 + 30_000_000));
    assert_eq!(clock.ups(), 5_000);
    assert!(clock.poll_update(1_000 + 45_000_000));
    assert_eq!(clock.ups(), 4_000);
}

#[test]
fn scheduler_counts_frames_between_refreshes() {
    let mut clock = Scheduler::new(100_000_000, 0);
    assert_eq!(clock.poll_render(100_000_000), RenderTick::Wait);
    assert!(clock.render_due(100_000_001));
    assert_eq!(clock.poll_render(150_000_000), RenderTick::Draw);
    assert_eq!(clock.poll_render(200_000_000), RenderTick::Wait);
    assert_eq!(clock.poll_render(300_000_000), RenderTick::Draw);
    assert_eq!(clock.poll_render(450_000_001), RenderTick::Draw);
    // The fourth frame comes after more than half a second: three frames
    // were counted in 0.6 s, and the count starts again.
    assert_eq!(clock.poll_render(600_000_000), RenderTick::DrawAndRefresh { fps: 500 });
    assert_eq!(clock.poll_render(750_000_001), RenderTick::Draw);
    assert_eq!(
        clock.poll_render(1_200_000_000),
        RenderTick::DrawAndRefresh { fps: 167 }
    );
}

#[test]
fn render_rate_does_not_change_the_update_cadence() {
    let mut slow = Scheduler::new(2_000_000_000, 0);
    let mut fast = Scheduler::new(0, 0);
    let mut slow_updates = 0;
    let mut fast_updates = 0;
    let mut slow_frames = 0;
    let mut fast_frames = 0;
    let mut now = 0;
    while now <= 1_000_000_000 {
        if slow.poll_update(now) {
            slow_updates += 1;
        }
        if slow.poll_render(now) != RenderTick::Wait {
            slow_frames += 1;
        }
        if fast.poll_update(now) {
            fast_updates += 1;
        }
        if fast.poll_render(now) != RenderTick::Wait {
            fast_frames += 1;
        }
        now += 1_000_000;
    }
    assert_eq!(slow_updates, 58);
    assert_eq!(fast_updates, 58);
    assert_eq!(slow_frames, 0);
    assert_eq!(fast_frames, 1001);
}
