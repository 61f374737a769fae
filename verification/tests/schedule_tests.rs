use grems::schedule::{sort_schedule, tick_actions, Driver, Scheduled, TickAction};

fn at(step: u32, id: u32) -> Scheduled {
    Scheduled { step, id }
}

#[test]
fn schedule_is_ordered_by_step_and_stable() {
    let sorted = sort_schedule(vec![at(30, 0), at(10, 1), at(30, 2), at(20, 3), at(10, 4)]);
    assert_eq!(sorted, vec![at(10, 1), at(10, 4), at(20, 3), at(30, 0), at(30, 2)]);
    assert_eq!(sort_schedule(vec![]), vec![]);
    assert_eq!(sort_schedule(vec![at(5, 9)]), vec![at(5, 9)]);
    assert_eq!(sort_schedule(vec![at(3, 0), at(2, 1), at(1, 2)]), vec![at(1, 2), at(2, 1), at(3, 0)]);
}

#[test]
fn tick_follows_the_leapfrog_order() {
    assert_eq!(
        tick_actions(2, 3),
        vec![
            TickAction::UpdateMagnetic,
            TickAction::ExciteMagnetic(0),
            TickAction::ExciteMagnetic(1),
            TickAction::UpdateElectric,
            TickAction::ExciteElectric(0),
            TickAction::ExciteElectric(1),
            TickAction::ExciteElectric(2),
        ]
    );
    assert_eq!(tick_actions(0, 0), vec![TickAction::UpdateMagnetic, TickAction::UpdateElectric]);
}

#[test]
fn driver_starts_at_step_zero_and_runs() {
    let d = Driver::new(vec![at(7, 0), at(3, 1)], vec![at(2, 0), at(1, 1)], 1000);
    assert_eq!(d.step, 0);
    assert!(!d.paused);
    assert_eq!(d.pause_at, vec![at(3, 1), at(7, 0)]);
    assert_eq!(d.exports, vec![at(1, 1), at(2, 0)]);
    assert!(!d.is_drained());
    assert!(Driver::new(vec![], vec![], 0).is_drained());
    assert_eq!((d.elapsed, d.period), (0, 1000));
}

#[test]
fn pauses_at_each_scheduled_step_and_no_other() {
    // A pause at step 50 and one at time 1.0, which a time step of 0.01 puts at step 100.
    let resolved = (1.0f32 / 0.01f32).round() as u32;
    assert_eq!(resolved, 100);
    let mut d = Driver::new(vec![at(50, 0), at(resolved, 1)], vec![], 0);
    let mut paused_at = vec![];
    for _ in 0..300 {
        d.advance();
        if d.paused {
            paused_at.push(d.step);
            d.resume();
        }
    }
    assert_eq!(paused_at, vec![50, 100]);
    assert_eq!(d.step, 300);
    assert!(d.is_drained());
}

#[test]
fn exports_leave_in_ascending_order_without_gaps() {
    let mut d = Driver::new(vec![], vec![at(4, 0), at(2, 1), at(4, 2), at(9, 3), at(2, 4)], 0);
    let mut seen = vec![];
    for _ in 0..10 {
        let before = d.exports.clone();
        let due = d.advance();
        assert!(due.iter().all(|e| e.step == d.step));
        let mut joined = due.clone();
        joined.extend(d.exports.iter().cloned());
        assert_eq!(joined, before);
        seen.extend(due);
    }
    assert_eq!(seen, vec![at(2, 1), at(2, 4), at(4, 0), at(4, 2), at(9, 3)]);
    assert!(d.exports.is_empty());
}

#[test]
fn single_export_at_step_one_is_due_after_the_first_tick() {
    let mut d = Driver::new(vec![], vec![at(1, 0)], 0);
    assert_eq!(d.advance(), vec![at(1, 0)]);
    assert_eq!(d.step, 1);
    assert_eq!(d.advance(), vec![]);
    assert!(d.is_drained());
}

#[test]
fn paused_driver_does_not_tick() {
    let mut d = Driver::new(vec![at(1, 0), at(2, 1)], vec![at(2, 7)], 0);
    assert_eq!(d.advance(), vec![]);
    assert!(d.paused);
    assert_eq!(d.step, 1);
    let frozen = d.clone();
    assert_eq!(d.advance(), vec![]);
    assert_eq!(d, frozen);
    d.toggle_pause();
    assert!(!d.paused);
    assert_eq!(d.advance(), vec![at(2, 7)]);
    assert!(d.paused);
    assert_eq!(d.step, 2);
    assert!(d.is_drained());
    d.toggle_pause();
    d.toggle_pause();
    assert!(d.paused);
    d.resume();
    assert!(!d.paused);
}

#[test]
fn entry_that_is_not_ahead_holds_back_the_queue() {
    let mut d = Driver::new(vec![at(0, 0), at(2, 1)], vec![], 0);
    for _ in 0..5 {
        d.advance();
        assert!(!d.paused);
    }
    assert_eq!(d.pause_at, vec![at(0, 0), at(2, 1)]);
}

#[test]
fn ticks_are_paced_by_the_period() {
    let mut d = Driver::new(vec![at(5, 0)], vec![], 1000);
    assert!(!d.poll(400));
    assert_eq!(d.elapsed, 400);
    assert!(!d.poll(599));
    assert_eq!(d.elapsed, 999);
    assert!(d.poll(1));
    assert_eq!(d.elapsed, 0);
    assert!(d.poll(3700));
    assert_eq!(d.elapsed, 700);
    assert!(d.poll(u64::MAX));
    assert_eq!(d.elapsed, ((700u128 + u64::MAX as u128) % 1000) as u64);
    assert_eq!(d.step, 0);
    assert_eq!(d.period, 1000);
}

#[test]
fn paused_driver_gathers_time_but_does_not_run() {
    let mut d = Driver::new(vec![at(1, 0)], vec![at(3, 0)], 1000);
    assert!(d.poll(1500));
    d.advance();
    assert!(d.paused);
    assert_eq!(d.elapsed, 500);
    assert!(!d.poll(700));
    assert_eq!(d.elapsed, 200);
    assert!(!d.poll(100));
    assert_eq!(d.elapsed, 300);
    d.resume();
    assert_eq!(d.elapsed, 0);
    assert!(!d.poll(999));
    assert!(d.poll(1));
    d.advance();
    assert!(d.poll(1250));
    assert_eq!(d.elapsed, 250);
    assert_eq!(d.advance(), vec![at(3, 0)]);
    assert_eq!(d.elapsed, 0);
    d.toggle_pause();
    assert!(d.poll(5000) == false);
    d.toggle_pause();
    assert_eq!(d.elapsed, 0);
}

#[test]
fn driver_without_a_period_runs_on_every_poll() {
    let mut d = Driver::new(vec![], vec![], 0);
    assert!(d.poll(0));
    assert!(d.poll(17));
    assert_eq!(d.elapsed, 0);
}
