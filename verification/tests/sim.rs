use fernsprechapparat::gpio::InputPin;
use fernsprechapparat::gpio::InputPinGroup;
use fernsprechapparat::gpio::OutputPin;
use fernsprechapparat::sim::SimEnvironment;
use fernsprechapparat::sim::SimInputPin;
use fernsprechapparat::state::StateMachine;

#[test]
fn write_input_read_back_single_pin() {
    let mut env = SimEnvironment::new();
    let pin = env.create_input_pin(7, false);
    assert!(!pin.read(&env));
    env.write_input(7, true);
    assert!(pin.read(&env));
    env.write_input(7, false);
    assert!(!pin.read(&env));
}

#[test]
fn write_input_read_back_group() {
    let mut env = SimEnvironment::new();
    let a = env.create_input_pin(5, false);
    let b = env.create_input_pin(9, false);
    let group = SimInputPin::create_group(vec![a, b]);
    assert_eq!(group.len(), 2);
    assert_eq!(group.read(&env), 0b00);
    env.write_input(9, true);
    assert_eq!(group.read(&env), 0b10);
    env.write_input(5, true);
    assert_eq!(group.read(&env), 0b11);
    env.write_input(9, false);
    assert_eq!(group.read(&env), 0b01);
}

#[test]
fn wait_timeout_reports_and_consumes_changes() {
    let mut env = SimEnvironment::new();
    let a = env.create_input_pin(2, false);
    let b = env.create_input_pin(4, false);
    let group = SimInputPin::create_group(vec![a, b]);

    // Nothing was driven: the bounded wait expires.
    assert_eq!(group.wait_timeout(&mut env, 1000), None);

    env.write_input(4, true);
    // Bit 1 of the result: the second member pin changed.
    assert_eq!(group.wait_timeout(&mut env, 1000), Some(0b10));
    // The change was consumed.
    assert_eq!(group.wait_timeout(&mut env, 1000), None);

    env.write_input(2, true);
    env.write_input(4, false);
    assert_eq!(group.wait_timeout(&mut env, 1000), Some(0b11));
    assert_eq!(group.wait_timeout(&mut env, 1000), None);
}

#[test]
fn pin_wait_consumes_only_its_own_bit() {
    let mut env = SimEnvironment::new();
    let a = env.create_input_pin(1, false);
    let b = env.create_input_pin(3, false);
    env.write_input(1, true);
    env.write_input(3, true);
    a.wait(&mut env);
    // Pin 1's change is consumed, pin 3's is still pending.
    assert!(!a.wait_timeout(&mut env, 1000));
    assert!(b.wait_timeout(&mut env, 1000));
    assert!(!b.wait_timeout(&mut env, 1000));
}

#[test]
fn split_returns_pins_in_group_order() {
    let mut env = SimEnvironment::new();
    let a = env.create_input_pin(6, false);
    let b = env.create_input_pin(0, false);
    let c = env.create_input_pin(11, false);
    let group = SimInputPin::create_group(vec![a, b, c]);
    assert_eq!(group.len(), 3);
    let pins = group.split();
    assert_eq!(pins.len(), 3);
    env.write_input(0, true);
    assert!(!pins[0].read(&env));
    assert!(pins[1].read(&env));
    assert!(!pins[2].read(&env));
}

#[test]
fn group_of_largest_size_reads_all_members() {
    let mut env = SimEnvironment::new();
    let mut pins = Vec::new();
    for i in 0..64 {
        pins.push(env.create_input_pin(i, false));
    }
    let group = SimInputPin::create_group(pins);
    assert_eq!(group.len(), 64);
    env.write_input(0, true);
    env.write_input(63, true);
    let levels = group.read(&env);
    assert_eq!(levels, (1u64 << 63) | 1);
}

#[test]
fn output_pin_drives_read_output() {
    let mut env = SimEnvironment::new();
    let out = env.create_output_pin(12, false);
    assert!(!env.read_output(12));
    out.write(&mut env, true);
    assert!(env.read_output(12));
    out.write(&mut env, false);
    assert!(!env.read_output(12));
}

#[test]
fn direction_conversion_keeps_identity() {
    let mut env = SimEnvironment::new();
    let pin = env.create_input_pin(8, true);
    let out = pin.into_output(&mut env);
    out.write(&mut env, true);
    assert!(env.read_output(8));
    let back = out.into_input(&mut env);
    env.write_input(8, true);
    assert!(back.read(&env));
}

#[test]
fn reregistering_an_index_resets_its_state() {
    let mut env = SimEnvironment::new();
    let first = env.create_input_pin(3, false);
    env.write_input(3, true);
    assert!(first.read(&env));
    // Re-registering overwrites the prior role and resets the levels
    // and the pending bit.
    let second = env.create_input_pin(3, false);
    assert!(!second.read(&env));
    assert!(!second.wait_timeout(&mut env, 1000));
}

#[test]
fn state_machine_starts_ready() {
    let _m = StateMachine::new();
}
