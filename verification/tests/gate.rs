use mod_backend::gate::ReadinessGate;

#[test]
fn no_emission_before_any_signal() {
    let mut g = ReadinessGate::new();
    assert!(!g.try_emit_wake_up());
    assert!(!g.try_emit_wake_up());
}

#[test]
fn no_emission_after_one_signal() {
    let mut g = ReadinessGate::new();
    g.signal_backend_ready();
    assert!(!g.try_emit_wake_up());
    let mut h = ReadinessGate::new();
    h.signal_frontend_ready();
    assert!(!h.try_emit_wake_up());
}

#[test]
fn emits_once_backend_first() {
    let mut g = ReadinessGate::new();
    g.signal_backend_ready();
    assert!(!g.try_emit_wake_up());
    g.signal_frontend_ready();
    assert!(g.try_emit_wake_up());
    assert!(!g.try_emit_wake_up());
}

#[test]
fn emits_once_frontend_first() {
    let mut g = ReadinessGate::new();
    g.signal_frontend_ready();
    assert!(!g.try_emit_wake_up());
    g.signal_backend_ready();
    assert!(g.try_emit_wake_up());
    assert!(!g.try_emit_wake_up());
}

#[test]
fn repeated_signals_do_not_refire() {
    let mut g = ReadinessGate::new();
    g.signal_backend_ready();
    g.signal_frontend_ready();
    assert!(g.try_emit_wake_up());
    g.signal_backend_ready();
    g.signal_frontend_ready();
    assert!(!g.try_emit_wake_up());
}

#[test]
fn gate_state_is_observable() {
    let mut g = ReadinessGate::new();
    assert!(!g.backend_ready && !g.frontend_ready && !g.wake_up_sent);
    g.signal_backend_ready();
    assert!(g.backend_ready && !g.frontend_ready);
    g.signal_frontend_ready();
    assert!(g.frontend_ready && !g.wake_up_sent);
    assert!(g.try_emit_wake_up());
    assert!(g.wake_up_sent);
}
