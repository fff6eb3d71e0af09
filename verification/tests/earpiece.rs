use fernsprechapparat::earpiece::hook_poll;
use fernsprechapparat::earpiece::HookState;
use fernsprechapparat::gpio::InputPin;
use fernsprechapparat::sim::SimEnvironment;
use fernsprechapparat::sim::SimInputPin;
use fernsprechapparat::Directive;
use fernsprechapparat::Event;

const HOOK_PIN: usize = 0;

/// One worker iteration: a bounded wait on the hook pin, then the
/// decoder's decision on what was (or was not) observed.
fn pump(
    env: &mut SimEnvironment,
    hook: &SimInputPin,
    st: &mut HookState,
    events: &mut Vec<Event>,
) {
    match hook_poll(env, hook, st, false, 1000) {
        Directive::Terminate => panic!("no shutdown was requested"),
        Directive::Emit(e) => events.push(e),
        Directive::Idle => {}
    }
}

#[test]
fn test_earpiece() {
    let mut env = SimEnvironment::new();
    let hook = env.create_input_pin(HOOK_PIN, false);
    env.write_input(HOOK_PIN, false);

    // The baseline is the level sampled at worker start.
    let mut st = HookState::new(hook.read(&env));
    let mut events: Vec<Event> = Vec::new();

    // The initial sampled level emits nothing.
    pump(&mut env, &hook, &mut st, &mut events);
    assert!(events.is_empty());

    env.write_input(HOOK_PIN, true);
    pump(&mut env, &hook, &mut st, &mut events);
    assert_eq!(events, vec![Event::EarpiecePickedUp]);
    events.clear();

    env.write_input(HOOK_PIN, false);
    pump(&mut env, &hook, &mut st, &mut events);
    assert_eq!(events, vec![Event::EarpiecePutDown]);
}

#[test]
fn earpiece_initial_high_level_emits_nothing() {
    let mut env = SimEnvironment::new();
    let hook = env.create_input_pin(HOOK_PIN, false);
    env.write_input(HOOK_PIN, true);

    let mut st = HookState::new(hook.read(&env));
    let mut events: Vec<Event> = Vec::new();
    pump(&mut env, &hook, &mut st, &mut events);
    assert!(events.is_empty());

    // The first real transition is a put-down.
    env.write_input(HOOK_PIN, false);
    pump(&mut env, &hook, &mut st, &mut events);
    assert_eq!(events, vec![Event::EarpiecePutDown]);
}

#[test]
fn earpiece_steady_level_stays_silent() {
    let mut st = HookState::new(false);
    for _ in 0..5 {
        assert_eq!(st.step(false), None);
    }
    assert_eq!(st.step(true), Some(Event::EarpiecePickedUp));
    for _ in 0..5 {
        assert_eq!(st.step(true), None);
    }
}

#[test]
fn earpiece_stop_terminates_without_event() {
    let mut st = HookState::new(false);
    let d = st.wake(true, Some(true));
    assert_eq!(d, Directive::Terminate);
    // The baseline did not move.
    assert_eq!(st.step(true), Some(Event::EarpiecePickedUp));
}

#[test]
fn earpiece_idle_wait_changes_nothing() {
    let mut st = HookState::new(true);
    assert_eq!(st.wake(false, None), Directive::Idle);
    assert_eq!(st.step(true), None);
}
