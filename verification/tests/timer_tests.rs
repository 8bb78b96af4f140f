use commlib::wheel_timer::{TimerSlot, WheelTimer};

fn fib_time(i: usize) -> u64 {
    let (mut a, mut b) = (0u64, 1u64);
    for _ in 0..i {
        let c = a + b;
        a = b;
        b = c;
    }
    a
}

#[test]
fn simple_simulation() {
    let num = 10usize;
    let mut barriers: Vec<bool> = vec![false; num];
    let mut ids: Vec<u128> = Vec::with_capacity(num);
    let mut timer = WheelTimer::for_uuid_closures();
    for i in 0..num {
        let id = uuid::Uuid::new_v4().as_u128();
        ids.push(id);
        let timeout = fib_time(i);
        if !timer.schedule_once(id, timeout) {
            println!("Running action {}", i);
            barriers[i] = true;
        }
    }
    let running = true;
    let mut count = 0;
    while running && count < 1000 {
        for slot in timer.update(1) {
            let i = ids.iter().position(|x| *x == slot.id).unwrap();
            println!("Running action {}", i);
            barriers[i] = true;
        }
        count += 1;
    }
    println!("Simulation run done!");
    for b in barriers {
        assert!(b);
    }
}

#[test]
fn rescheduling_simulation() {
    let num = 10usize;
    let mut barriers: Vec<bool> = vec![false; num];
    let mut counters: Vec<usize> = vec![5; num];
    let mut ids: Vec<u128> = vec![0; num];
    let mut timer = WheelTimer::for_uuid_closures();
    for i in 1..num {
        let id = uuid::Uuid::new_v4().as_u128();
        ids[i] = id;
        let timeout = fib_time(i);
        assert!(timer.schedule_periodic(id, timeout, timeout));
    }
    barriers[0] = true;
    let running = true;
    let mut count = 0;
    while running && count < 1000 {
        let mut again: Vec<TimerSlot> = Vec::new();
        for slot in timer.update(1) {
            let i = ids.iter().position(|x| *x == slot.id).unwrap();
            println!("Running action {}", i);
            if counters[i] > 0 {
                counters[i] -= 1;
                again.push(slot);
            } else {
                barriers[i] = true;
            }
        }
        timer.reschedule(again);
        count += 1;
    }
    println!("Simulation run done!");
    for b in barriers {
        assert!(b);
    }
}

#[test]
fn entries_fire_at_their_deadline_in_order() {
    let mut timer = WheelTimer::at(1000);
    assert_eq!(timer.current_time(), 1000);
    assert!(timer.schedule_once(1, 30));
    assert!(timer.schedule_once(2, 10));
    assert!(timer.schedule_once(3, 20));
    let fired = timer.update(9);
    assert!(fired.is_empty());
    assert_eq!(timer.current_time(), 1009);
    let fired = timer.update(11);
    assert_eq!(fired.iter().map(|s| s.id).collect::<Vec<_>>(), vec![2, 3]);
    assert_eq!(fired[0].deadline, 1010);
    assert_eq!(timer.current_time(), 1020);
    // time advances by the whole step, past the last deadline
    let fired = timer.update(100);
    assert_eq!(fired.iter().map(|s| s.id).collect::<Vec<_>>(), vec![1]);
    assert_eq!(timer.current_time(), 1120);
    // an empty timer advances too
    assert!(timer.update(50).is_empty());
    assert_eq!(timer.current_time(), 1170);
    assert!(timer.is_empty());
}

#[test]
fn zero_delay_expires_at_once_and_cancel_removes() {
    let mut timer = WheelTimer::new();
    assert!(!timer.schedule_once(9, 0));
    assert!(!timer.schedule_periodic(9, 0, 5));
    assert!(timer.is_empty());
    assert!(timer.schedule_periodic(4, 5, 5));
    assert!(timer.schedule_once(5, 7));
    assert!(timer.cancel(4));
    assert!(!timer.cancel(4));
    let fired = timer.update(10);
    assert_eq!(fired.len(), 1);
    assert_eq!(fired[0].id, 5);
    assert_eq!(fired[0].period, None);
}

#[test]
fn periodic_entries_come_back_one_period_later() {
    let mut timer = WheelTimer::new();
    assert!(timer.schedule_periodic(1, 3, 4));
    let fired = timer.update(3);
    assert_eq!(fired.len(), 1);
    assert_eq!(fired[0].period, Some(4));
    timer.reschedule(fired);
    assert!(timer.update(3).is_empty());
    let fired = timer.update(1);
    assert_eq!(fired.len(), 1);
    assert_eq!(fired[0].deadline, 7);
}

#[test]
fn step_is_taken_modulo_two_to_the_32() {
    let mut timer = WheelTimer::new();
    assert!(timer.schedule_once(1, 5));
    // 2^32 + 2 ms is taken as 2 ms
    assert!(timer.update(4294967298).is_empty());
    assert_eq!(timer.current_time(), 2);
}
