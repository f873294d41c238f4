//! The startup readiness gate.
//!
//! A two-party barrier between the backend process and the frontend
//! window: each side signals once when it is ready, and a single one-shot
//! "wake-up" notification is emitted the first time an emission attempt
//! finds both signals in.  Emission itself is I/O and belongs to the
//! shell: [`ReadinessGate::try_emit_wake_up`] only decides, and the shell
//! emits exactly when it returns true.
//!
//! The barrier latches the emission, so the wake-up fires at most once in any
//! run whatever the order of the calls, repeated signals included; a bare
//! threshold comparison would instead re-fire on later attempts.

use vstd::prelude::*;

verus! {

/// The two-signal barrier that gates the one-shot wake-up notification.
#[derive(Debug, Clone, Copy, PartialEq, Eq)]
pub struct ReadinessGate {
    /// The backend finished its setup.
    pub backend_ready: bool,
    /// The frontend window reported its first paint.
    pub frontend_ready: bool,
    /// The one-shot wake-up notification has been emitted.
    pub wake_up_sent: bool,
}

/// One operation on a readiness gate.
pub enum GateOp {
    /// The backend finished its setup.
    SignalBackend,
    /// The frontend window reported its first paint.
    SignalFrontend,
    /// An attempt to emit the wake-up notification.
    TryEmit,
}

/// One step of the barrier: the state after the operation, and whether the
/// operation emits the wake-up notification.
pub open spec fn gate_step(g: ReadinessGate, op: GateOp) -> (ReadinessGate, bool) {
    match op {
        GateOp::SignalBackend => (
            ReadinessGate {
                backend_ready: true,
                frontend_ready: g.frontend_ready,
                wake_up_sent: g.wake_up_sent,
            },
            false,
        ),
        GateOp::SignalFrontend => (
            ReadinessGate {
                backend_ready: g.backend_ready,
                frontend_ready: true,
                wake_up_sent: g.wake_up_sent,
            },
            false,
        ),
        GateOp::TryEmit => if g.backend_ready && g.frontend_ready && !g.wake_up_sent {
            (
                ReadinessGate {
                    backend_ready: g.backend_ready,
                    frontend_ready: g.frontend_ready,
                    wake_up_sent: true,
                },
                true,
            )
        } else {
            (g, false)
        },
    }
}

/// How many wake-up emissions a run of `ops` from state `g` produces.
pub open spec fn gate_emits(g: ReadinessGate, ops: Seq<GateOp>) -> nat
    decreases ops.len(),
{
    if ops.len() == 0 {
        0
    } else {
        (if gate_step(g, ops[0]).1 {
            1nat
        } else {
            0nat
        }) + gate_emits(gate_step(g, ops[0]).0, ops.skip(1))
    }
}

impl ReadinessGate {
    /// How many of the two readiness signals are in: the counter the
    /// emission threshold of two is compared against.
    pub open spec fn signals_in(self) -> int {
        (if self.backend_ready {
            1int
        } else {
            0int
        }) + (if self.frontend_ready {
            1int
        } else {
            0int
        })
    }

    /// Whether the backend has signaled readiness.
    pub open spec fn backend_signaled(self) -> bool {
        self.backend_ready
    }

    /// Whether the frontend has signaled readiness.
    pub open spec fn frontend_signaled(self) -> bool {
        self.frontend_ready
    }

    /// Whether the wake-up notification has been emitted.
    pub open spec fn emitted(self) -> bool {
        self.wake_up_sent
    }

    /// A fresh gate: no signal in, nothing emitted.
    pub fn new() -> (r: ReadinessGate)
        ensures
            !r.backend_signaled(),
            !r.frontend_signaled(),
            !r.emitted(),
    {
        ReadinessGate { backend_ready: false, frontend_ready: false, wake_up_sent: false }
    }

    /// Records that the backend finished its setup.
    pub fn signal_backend_ready(&mut self)
        ensures
            *final(self) == gate_step(*old(self), GateOp::SignalBackend).0,
            final(self).backend_signaled(),
            final(self).frontend_signaled() == old(self).frontend_signaled(),
            final(self).emitted() == old(self).emitted(),
    {
        self.backend_ready = true;
    }

    /// Records that the frontend window reported readiness.
    pub fn signal_frontend_ready(&mut self)
        ensures
            *final(self) == gate_step(*old(self), GateOp::SignalFrontend).0,
            final(self).frontend_signaled(),
            final(self).backend_signaled() == old(self).backend_signaled(),
            final(self).emitted() == old(self).emitted(),
    {
        self.frontend_ready = true;
    }

    /// Decides whether to emit the wake-up notification now: true exactly
    /// when both signals are in and nothing has been emitted yet.  The
    /// emission is latched, so true comes back at most once per gate.
    pub fn try_emit_wake_up(&mut self) -> (emit: bool)
        ensures
            *final(self) == gate_step(*old(self), GateOp::TryEmit).0,
            emit == gate_step(*old(self), GateOp::TryEmit).1,
            emit == (old(self).backend_signaled() && old(self).frontend_signaled() && !old(self).emitted()),
            emit == (old(self).signals_in() == 2 && !old(self).emitted()),
            final(self).backend_signaled() == old(self).backend_signaled(),
            final(self).frontend_signaled() == old(self).frontend_signaled(),
            final(self).emitted() == (old(self).emitted() || emit),
    {
        if self.backend_ready && self.frontend_ready && !self.wake_up_sent {
            self.wake_up_sent = true;
            true
        } else {
            false
        }
    }
}

/// Once the wake-up has been emitted, no run emits it again.
pub proof fn lemma_no_emission_after_sent(g: ReadinessGate, ops: Seq<GateOp>)
    requires
        g.emitted(),
    ensures
        gate_emits(g, ops) == 0,
    decreases ops.len(),
{
    if ops.len() > 0 {
        lemma_no_emission_after_sent(gate_step(g, ops[0]).0, ops.skip(1));
    }
}

/// The wake-up notification is emitted at most once in any run, whatever
/// the operations and their order.
pub proof fn lemma_wake_up_at_most_once(g: ReadinessGate, ops: Seq<GateOp>)
    requires
        !g.emitted(),
    ensures
        gate_emits(g, ops) <= 1,
    decreases ops.len(),
{
    if ops.len() > 0 {
        let next = gate_step(g, ops[0]).0;
        if gate_step(g, ops[0]).1 {
            lemma_no_emission_after_sent(next, ops.skip(1));
        } else {
            lemma_wake_up_at_most_once(next, ops.skip(1));
        }
    }
}

/// Without the backend signal nothing is emitted: the wake-up never fires
/// before both readiness signals have occurred.
pub proof fn lemma_no_emission_without_backend(g: ReadinessGate, ops: Seq<GateOp>)
    requires
        !g.backend_signaled(),
        !ops.contains(GateOp::SignalBackend),
    ensures
        gate_emits(g, ops) == 0,
    decreases ops.len(),
{
    if ops.len() > 0 {
        assert(ops[0] != GateOp::SignalBackend);
        assert forall|i: int| 0 <= i < ops.skip(1).len() implies ops.skip(1)[i]
            != GateOp::SignalBackend by {
            assert(ops.skip(1)[i] == ops[i + 1]);
        }
        assert(!ops.skip(1).contains(GateOp::SignalBackend));
        lemma_no_emission_without_backend(gate_step(g, ops[0]).0, ops.skip(1));
    }
}

/// Without the frontend signal nothing is emitted.
pub proof fn lemma_no_emission_without_frontend(g: ReadinessGate, ops: Seq<GateOp>)
    requires
        !g.frontend_signaled(),
        !ops.contains(GateOp::SignalFrontend),
    ensures
        gate_emits(g, ops) == 0,
    decreases ops.len(),
{
    if ops.len() > 0 {
        assert(ops[0] != GateOp::SignalFrontend);
        assert forall|i: int| 0 <= i < ops.skip(1).len() implies ops.skip(1)[i]
            != GateOp::SignalFrontend by {
            assert(ops.skip(1)[i] == ops[i + 1]);
        }
        assert(!ops.skip(1).contains(GateOp::SignalFrontend));
        lemma_no_emission_without_frontend(gate_step(g, ops[0]).0, ops.skip(1));
    }
}

/// An emission attempt that both signals precede emits: the run produces
/// at least one wake-up.
proof fn lemma_emission_reached(g: ReadinessGate, ops: Seq<GateOp>, k: int)
    requires
        !g.emitted(),
        0 <= k < ops.len(),
        ops[k] == GateOp::TryEmit,
        g.backend_signaled() || exists|i: int| 0 <= i < k && ops[i] == GateOp::SignalBackend,
        g.frontend_signaled() || exists|j: int| 0 <= j < k && ops[j] == GateOp::SignalFrontend,
    ensures
        gate_emits(g, ops) >= 1,
    decreases ops.len(),
{
    let next = gate_step(g, ops[0]).0;
    if gate_step(g, ops[0]).1 {
        // The very first operation already emits.
    } else {
        assert(k > 0) by {
            if k == 0 {
                assert(g.backend_signaled() && g.frontend_signaled());
            }
        }
        assert(!next.emitted());
        if !next.backend_signaled() {
            assert(g.backend_signaled() == next.backend_signaled() || ops[0]
                == GateOp::SignalBackend);
            let i = choose|i: int| 0 <= i < k && ops[i] == GateOp::SignalBackend;
            assert(i != 0);
            assert(ops.skip(1)[i - 1] == GateOp::SignalBackend);
        }
        if !next.frontend_signaled() {
            let j = choose|j: int| 0 <= j < k && ops[j] == GateOp::SignalFrontend;
            assert(j != 0);
            assert(ops.skip(1)[j - 1] == GateOp::SignalFrontend);
        }
        assert(next.backend_signaled() || exists|i: int|
            0 <= i < k - 1 && ops.skip(1)[i] == GateOp::SignalBackend);
        assert(next.frontend_signaled() || exists|j: int|
            0 <= j < k - 1 && ops.skip(1)[j] == GateOp::SignalFrontend);
        assert(ops.skip(1)[k - 1] == GateOp::TryEmit);
        lemma_emission_reached(next, ops.skip(1), k - 1);
    }
}

/// The wake-up notification fires exactly once in any run that signals
/// both sides, in either order, and attempts an emission after both: not
/// before both signals are in, and never a second time.
pub proof fn lemma_wake_up_exactly_once(g: ReadinessGate, ops: Seq<GateOp>, i: int, j: int, k: int)
    requires
        !g.emitted(),
        !g.backend_signaled(),
        !g.frontend_signaled(),
        0 <= i < k,
        0 <= j < k,
        k < ops.len(),
        ops[i] == GateOp::SignalBackend,
        ops[j] == GateOp::SignalFrontend,
        ops[k] == GateOp::TryEmit,
    ensures
        gate_emits(g, ops) == 1,
{
    lemma_emission_reached(g, ops, k);
    lemma_wake_up_at_most_once(g, ops);
}

} // verus!
