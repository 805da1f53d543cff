//! The constraint-system collaborator interface: the sink a circuit pours
//! its constraints into, and the capability a circuit description offers.
//!
//! Proving-system backends bring their own sinks; this crate only fixes the
//! contracts it consumes: what allocating a variable returns, and how the
//! observable counts evolve. A plain recording sink is provided.

use vstd::prelude::*;
use crate::field::Field;
use crate::index::{Index, Variable};
use crate::lc::ConstraintVar;

verus! {

/// An error raised while building constraints from a circuit description.
#[derive(Copy, Clone, PartialEq, Eq, Structural, Debug)]
pub enum SynthesisError {
    /// A value needed for a witness assignment was not supplied.
    AssignmentMissing,
    /// The constraints cannot be satisfied as shaped.
    Unsatisfiable,
}

/// A sink that accumulates an R1CS instance: it allocates public-input and
/// auxiliary variables, and enforces constraints of the shape `a · b = c`.
pub trait ConstraintSystem<F: Field>: Sized {
    /// The public-input assignments made so far, in allocation order.
    spec fn spec_inputs(&self) -> Seq<F>;

    /// The auxiliary (witness) assignments made so far, in allocation order.
    spec fn spec_aux(&self) -> Seq<F>;

    /// The number of constraints enforced so far.
    spec fn spec_constraints(&self) -> nat;

    /// Allocates the next public-input variable and assigns it `value`.
    fn alloc_input(&mut self, value: F) -> (r: Variable)
        ensures
            final(self).spec_inputs() == old(self).spec_inputs().push(value),
            final(self).spec_aux() == old(self).spec_aux(),
            final(self).spec_constraints() == old(self).spec_constraints(),
            r.0 == Index::Input(old(self).spec_inputs().len() as usize),
            old(self).spec_inputs().len() <= usize::MAX,
    ;

    /// Allocates the next auxiliary variable and assigns it `value`.
    fn alloc_aux(&mut self, value: F) -> (r: Variable)
        ensures
            final(self).spec_aux() == old(self).spec_aux().push(value),
            final(self).spec_inputs() == old(self).spec_inputs(),
            final(self).spec_constraints() == old(self).spec_constraints(),
            r.0 == Index::Aux(old(self).spec_aux().len() as usize),
            old(self).spec_aux().len() <= usize::MAX,
    ;

    /// Enforces the constraint `a · b = c` over the field.
    fn enforce(&mut self, a: ConstraintVar<F>, b: ConstraintVar<F>, c: ConstraintVar<F>)
        requires
            a.wf(),
            b.wf(),
            c.wf(),
        ensures
            final(self).spec_constraints() == old(self).spec_constraints() + 1,
            final(self).spec_inputs() == old(self).spec_inputs(),
            final(self).spec_aux() == old(self).spec_aux(),
    ;

    /// Opens a named scope for diagnostics; no semantic effect.
    fn enter_scope(&mut self, name: &str)
        ensures
            final(self).spec_inputs() == old(self).spec_inputs(),
            final(self).spec_aux() == old(self).spec_aux(),
            final(self).spec_constraints() == old(self).spec_constraints(),
    ;

    /// Closes the innermost scope; no semantic effect.
    fn exit_scope(&mut self)
        ensures
            final(self).spec_inputs() == old(self).spec_inputs(),
            final(self).spec_aux() == old(self).spec_aux(),
            final(self).spec_constraints() == old(self).spec_constraints(),
    ;

    /// The number of constraints enforced so far.
    fn num_constraints(&self) -> (r: usize)
        ensures
            r == self.spec_constraints(),
    ;

    /// The number of public-input variables allocated so far.
    fn num_inputs(&self) -> (r: usize)
        ensures
            r == self.spec_inputs().len(),
    ;

    /// The number of auxiliary variables allocated so far.
    fn num_aux(&self) -> (r: usize)
        ensures
            r == self.spec_aux().len(),
    ;
}

/// A circuit description: given a constraint-system sink, populates it with
/// constraints and witness assignments, or fails with a synthesis error.
pub trait ConstraintSynthesizer<F: Field> {
    /// Whether synthesis succeeds.
    spec fn spec_ok(&self) -> bool;

    /// The public-input assignment the circuit makes, in order.
    spec fn spec_inputs(&self) -> Seq<F>;

    /// The number of constraints the circuit enforces.
    spec fn spec_constraints(&self) -> nat;

    /// Pours the circuit into `cs`. On success the sink has gained exactly
    /// the circuit's public inputs and constraints; on failure the sink may
    /// have been partially populated.
    fn generate_constraints<CS: ConstraintSystem<F>>(self, cs: &mut CS) -> (r: Result<
        (),
        SynthesisError,
    >)
        ensures
            r is Ok <==> self.spec_ok(),
            r is Ok ==> final(cs).spec_inputs() == old(cs).spec_inputs() + self.spec_inputs(),
            r is Ok ==> final(cs).spec_constraints() == old(cs).spec_constraints()
                + self.spec_constraints(),
    ;
}

/// A plain in-memory sink: records every assignment and every enforced
/// constraint triple.
pub struct ConstraintRecorder<F: Field> {
    /// The public-input assignments, in allocation order.
    pub inputs: Vec<F>,
    /// The auxiliary assignments, in allocation order.
    pub aux: Vec<F>,
    /// The enforced constraints, as `(a, b, c)` with meaning `a · b = c`.
    pub constraints: Vec<(ConstraintVar<F>, ConstraintVar<F>, ConstraintVar<F>)>,
}

impl<F: Field> ConstraintRecorder<F> {
    /// An empty recorder.
    pub fn new() -> (r: Self)
        ensures
            r.spec_inputs() == Seq::<F>::empty(),
            r.spec_aux() == Seq::<F>::empty(),
            r.spec_constraints() == 0,
    {
        ConstraintRecorder { inputs: Vec::new(), aux: Vec::new(), constraints: Vec::new() }
    }
}

impl<F: Field> ConstraintSystem<F> for ConstraintRecorder<F> {
    open spec fn spec_inputs(&self) -> Seq<F> {
        self.inputs@
    }

    open spec fn spec_aux(&self) -> Seq<F> {
        self.aux@
    }

    open spec fn spec_constraints(&self) -> nat {
        self.constraints@.len()
    }

    fn alloc_input(&mut self, value: F) -> (r: Variable) {
        let idx = self.inputs.len();
        self.inputs.push(value);
        Variable(Index::Input(idx))
    }

    fn alloc_aux(&mut self, value: F) -> (r: Variable) {
        let idx = self.aux.len();
        self.aux.push(value);
        Variable(Index::Aux(idx))
    }

    fn enforce(&mut self, a: ConstraintVar<F>, b: ConstraintVar<F>, c: ConstraintVar<F>) {
        self.constraints.push((a, b, c));
    }

    fn enter_scope(&mut self, name: &str) {
    }

    fn exit_scope(&mut self) {
    }

    fn num_constraints(&self) -> (r: usize) {
        self.constraints.len()
    }

    fn num_inputs(&self) -> (r: usize) {
        self.inputs.len()
    }

    fn num_aux(&self) -> (r: usize) {
        self.aux.len()
    }
}

} // verus!
