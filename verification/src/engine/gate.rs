//! The shutdown gate that operations pass and that shutting down closes.

use vstd::prelude::*;

use crate::error::EngineError;

verus! {

/// Mathematical value of a [`ShutdownGate`].
pub struct GateView {
    /// New starts are refused.
    pub shutting_down: bool,
    /// Operations under way.
    pub active: nat,
}

/// Counts the operations under way and refuses new starts once it is closed.
#[derive(Debug)]
pub struct ShutdownGate {
    shutting_down: bool,
    active_operations: usize,
}

impl View for ShutdownGate {
    type V = GateView;

    closed spec fn view(&self) -> GateView {
        GateView { shutting_down: self.shutting_down, active: self.active_operations as nat }
    }
}

/// Something that happens at a gate.
pub enum GateStep {
    /// A start asks to pass.
    Start,
    /// An operation on existing work asks to pass.
    Operation,
    /// An operation ends.
    Finish,
    /// The shutdown gate is closed.
    Close,
}

/// The shutdown gate after a step. Only starts are refused, and only by a closed gate.
pub open spec fn gate_after(gate: GateView, step: GateStep) -> GateView {
    match step {
        GateStep::Start => if gate.shutting_down {
            gate
        } else {
            GateView { active: gate.active + 1, ..gate }
        },
        GateStep::Operation => GateView { active: gate.active + 1, ..gate },
        GateStep::Finish => GateView {
            active: if gate.active > 0 {
                (gate.active - 1) as nat
            } else {
                0
            },
            ..gate
        },
        GateStep::Close => GateView { shutting_down: true, ..gate },
    }
}

/// The shutdown gate after several steps.
pub open spec fn gate_run(gate: GateView, steps: Seq<GateStep>) -> GateView
    decreases steps.len(),
{
    if steps.len() == 0 {
        gate
    } else {
        gate_after(gate_run(gate, steps.drop_last()), steps.last())
    }
}

impl ShutdownGate {
    /// An open gate with nothing under way.
    pub fn new() -> (gate: Self)
        ensures
            gate@ == (GateView { shutting_down: false, active: 0 }),
    {
        ShutdownGate { shutting_down: false, active_operations: 0 }
    }

    /// Lets a start pass, unless the shutdown gate is closed.
    pub fn begin_start(&mut self) -> (passed: Result<(), EngineError>)
        requires
            old(self)@.active < usize::MAX,
        ensures
            final(self)@ == gate_after(old(self)@, GateStep::Start),
            passed == (if old(self)@.shutting_down {
                Err::<(), EngineError>(EngineError::ShuttingDown)
            } else {
                Ok::<(), EngineError>(())
            }),
    {
        if self.shutting_down {
            return Err(EngineError::ShuttingDown);
        }
        self.active_operations = self.active_operations + 1;
        Ok(())
    }

    /// Lets an operation on existing work pass.
    pub fn begin_operation(&mut self)
        requires
            old(self)@.active < usize::MAX,
        ensures
            final(self)@ == gate_after(old(self)@, GateStep::Operation),
    {
        self.active_operations = self.active_operations + 1;
    }

    /// Ends an operation; returns whether none is under way any more.
    pub fn finish_operation(&mut self) -> (idle: bool)
        ensures
            final(self)@ == gate_after(old(self)@, GateStep::Finish),
            idle == (final(self)@.active == 0),
    {
        if self.active_operations > 0 {
            self.active_operations = self.active_operations - 1;
        }
        self.active_operations == 0
    }

    /// Closes the shutdown gate; returns whether nothing has to be waited for.
    pub fn close(&mut self) -> (idle: bool)
        ensures
            final(self)@ == gate_after(old(self)@, GateStep::Close),
            idle == (final(self)@.active == 0),
    {
        self.shutting_down = true;
        self.active_operations == 0
    }
}

/// A closed gate never opens again, whatever happens at it: every later start is refused.
pub proof fn closed_gate_stays_closed(gate: GateView, steps: Seq<GateStep>)
    requires
        gate.shutting_down,
    ensures
        gate_run(gate, steps).shutting_down,
        gate_after(gate_run(gate, steps), GateStep::Start) == gate_run(gate, steps),
    decreases steps.len(),
{
    if steps.len() > 0 {
        closed_gate_stays_closed(gate, steps.drop_last());
    }
}

/// Closing a gate a second time changes nothing.
pub proof fn closing_is_idempotent(gate: GateView)
    ensures
        gate_after(gate_after(gate, GateStep::Close), GateStep::Close) == gate_after(
            gate,
            GateStep::Close,
        ),
{
}

/// An operation that passed and ended leaves the shutdown gate as it was.
pub proof fn finished_operation_leaves_no_trace(gate: GateView)
    ensures
        gate_after(gate_after(gate, GateStep::Operation), GateStep::Finish) == gate,
        !gate.shutting_down ==> gate_after(gate_after(gate, GateStep::Start), GateStep::Finish)
            == gate,
{
}

/// The shutdown gate counts what is under way: a start that passes and an operation add one, the end of
/// an operation takes one away as far as there is one, and closing leaves the count. Only closing
/// closes.
pub proof fn gates_count_what_is_under_way(gate: GateView, step: GateStep)
    ensures
        ({
            let after = gate_after(gate, step);
            &&& after.shutting_down <==> gate.shutting_down || step is Close
            &&& step is Operation ==> after.active == gate.active + 1
            &&& step is Start && !gate.shutting_down ==> after.active == gate.active + 1
            &&& step is Start && gate.shutting_down ==> after.active == gate.active
            &&& step is Finish && gate.active > 0 ==> after.active == gate.active - 1
            &&& step is Finish && gate.active == 0 ==> after.active == 0
            &&& step is Close ==> after.active == gate.active
        }),
{
}

} // verus!
