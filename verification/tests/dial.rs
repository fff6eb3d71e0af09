use fernsprechapparat::dial::contacts_from_levels;
use fernsprechapparat::dial::dial_poll;
use fernsprechapparat::dial::DialState;
use fernsprechapparat::dial::NSA;
use fernsprechapparat::dial::NSI;
use fernsprechapparat::gpio::InputPin;
use fernsprechapparat::sim::SimEnvironment;
use fernsprechapparat::sim::SimInputPin;
use fernsprechapparat::sim::SimInputPinGroup;
use fernsprechapparat::Directive;
use fernsprechapparat::Event;

/// One worker iteration: a bounded wait on the pin group, then the
/// decoder's decision on what was (or was not) observed.
fn pump(
    env: &mut SimEnvironment,
    group: &SimInputPinGroup,
    st: &mut DialState,
    events: &mut Vec<Event>,
) {
    match dial_poll(env, group, st, false, 1000) {
        Directive::Terminate => panic!("no shutdown was requested"),
        Directive::Emit(e) => events.push(e),
        Directive::Idle => {}
    }
}

fn create_test_dial() -> (SimEnvironment, SimInputPinGroup, DialState) {
    let mut env = SimEnvironment::new();

    // The NSA switch is initially open, the NSI switch is closed.
    let nsa = env.create_input_pin(NSA, false);
    env.write_input(NSA, true);
    let nsi = env.create_input_pin(NSI, false);
    env.write_input(NSI, false);

    let group = SimInputPin::create_group(vec![nsa, nsi]);
    (env, group, DialState::new())
}

fn send_impulses(
    env: &mut SimEnvironment,
    group: &SimInputPinGroup,
    st: &mut DialState,
    events: &mut Vec<Event>,
    count: u32,
) {
    for _ in 0..count {
        env.write_input(NSI, true);
        pump(env, group, st, events);
        env.write_input(NSI, false);
        pump(env, group, st, events);
    }
}

#[test]
fn test_dial() {
    let (mut env, group, mut st) = create_test_dial();
    let mut events: Vec<Event> = Vec::new();

    // Consume the pending changes of the initial levels.
    pump(&mut env, &group, &mut st, &mut events);

    // Add some bogus impulses which shall be ignored.
    send_impulses(&mut env, &group, &mut st, &mut events, 3);
    assert!(events.is_empty());

    // Dial some numbers.
    for i in 0..13u32 {
        // Begin dialing.
        env.write_input(NSA, false);
        pump(&mut env, &group, &mut st, &mut events);
        send_impulses(&mut env, &group, &mut st, &mut events, i);
        env.write_input(NSA, true);
        pump(&mut env, &group, &mut st, &mut events);
        if i == 0 || i > 10 {
            // 0 impulses or more than 10 impulses are invalid.
            assert!(events.is_empty());
        } else if i == 10 {
            // 10 impulses are '0'.
            assert_eq!(events, vec![Event::Dialed(0)]);
        } else {
            assert_eq!(events, vec![Event::Dialed(i)]);
        }
        events.clear();
    }
}

#[test]
fn dial_five_pulses_emits_five() {
    let (mut env, group, mut st) = create_test_dial();
    let mut events: Vec<Event> = Vec::new();
    pump(&mut env, &group, &mut st, &mut events);

    env.write_input(NSA, false);
    pump(&mut env, &group, &mut st, &mut events);
    send_impulses(&mut env, &group, &mut st, &mut events, 5);
    assert!(events.is_empty());
    env.write_input(NSA, true);
    pump(&mut env, &group, &mut st, &mut events);
    assert_eq!(events, vec![Event::Dialed(5)]);
}

#[test]
fn dial_idle_wait_changes_nothing() {
    let (mut env, group, mut st) = create_test_dial();
    let mut events: Vec<Event> = Vec::new();
    pump(&mut env, &group, &mut st, &mut events);

    // No input was driven, so the bounded wait expires and the decoder
    // stays idle.
    pump(&mut env, &group, &mut st, &mut events);
    pump(&mut env, &group, &mut st, &mut events);
    assert!(events.is_empty());
}

#[test]
fn dial_stop_terminates_without_event() {
    let mut st = DialState::new();
    // Even with a sample showing activity, a shutdown request wins.
    let d = st.wake(true, Some((true, false)));
    assert_eq!(d, Directive::Terminate);
    // The state did not move: a following engagement decodes normally.
    let mut events: Vec<Event> = Vec::new();
    for &(engaged, pulse) in &[
        (true, true),
        (true, false),
        (true, true),
        (true, false),
        (true, true),
        (false, true),
    ] {
        if let Some(e) = st.step(engaged, pulse) {
            events.push(e);
        }
    }
    assert_eq!(events, vec![Event::Dialed(2)]);
}

#[test]
fn dial_mid_impulse_is_not_double_counted() {
    let mut st = DialState::new();
    assert_eq!(st.step(true, true), None);
    // The pulse contact stays open across several samples: one count.
    assert_eq!(st.step(true, false), None);
    assert_eq!(st.step(true, false), None);
    assert_eq!(st.step(true, false), None);
    assert_eq!(st.step(true, true), None);
    assert_eq!(st.step(false, true), Some(Event::Dialed(1)));
}

#[test]
fn dial_contacts_decode_active_low() {
    // Both levels low: both contacts closed.
    assert_eq!(contacts_from_levels(0b00), (true, true));
    // NSA level high: the dial-engaged contact is open.
    assert_eq!(contacts_from_levels(0b01), (false, true));
    // NSI level high: the pulse contact is open.
    assert_eq!(contacts_from_levels(0b10), (true, false));
    assert_eq!(contacts_from_levels(0b11), (false, false));
    assert_eq!(NSA, 0);
    assert_eq!(NSI, 1);
}
