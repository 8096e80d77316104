use chip8::emulator::timers::Timers;

#[test]
fn new_timers_are_zero() {
    let timers = Timers::new();
    assert_eq!(timers.get_delay(), 0);
    assert_eq!(timers.get_sound(), 0);
}

#[test]
fn tick_counts_both_down() {
    let mut timers = Timers::new();
    timers.set_delay(5);
    timers.set_sound(2);
    timers.tick();
    assert_eq!(timers.get_delay(), 4);
    assert_eq!(timers.get_sound(), 1);
}

#[test]
fn tick_at_zero_stays_at_zero() {
    let mut timers = Timers::new();
    timers.tick();
    assert_eq!(timers, Timers { delay: 0, sound: 0 });
    timers.set_delay(1);
    timers.tick();
    timers.tick();
    assert_eq!(timers.get_delay(), 0);
}

#[test]
fn n_ticks_leave_d_minus_n_or_zero() {
    for d in [0u8, 1, 7, 60, 255] {
        for n in [0usize, 1, 6, 7, 8, 255, 300] {
            let mut timers = Timers::new();
            timers.set_delay(d);
            timers.set_sound(d);
            for _ in 0..n {
                timers.tick();
            }
            let expected = (d as usize).saturating_sub(n) as u8;
            assert_eq!(timers.get_delay(), expected);
            assert_eq!(timers.get_sound(), expected);
        }
    }
}

#[test]
fn setters_leave_the_other_timer() {
    let mut timers = Timers::new();
    timers.set_delay(200);
    assert_eq!(timers.get_sound(), 0);
    timers.set_sound(100);
    assert_eq!(timers.get_delay(), 200);
    assert_eq!(timers.get_sound(), 100);
}
