//! A batched rank-1 constraint system: one set of variables and
//! constraints, and one assignment of values for each instance.

use crate::error::Error;
use crate::field::modulus;
use crate::field::FieldElement;
use vstd::prelude::*;

verus! {

/// What a statement keeps of the values that are bound to its variables.
#[derive(Clone, Copy, Debug, PartialEq, Eq, Structural)]
pub enum Capability {
    /// The prover's side: every variable is bound to a value.
    WithWitness,
    /// The verifier's side: variables are counted, values are dropped.
    StructureOnly,
}

/// A handle to a variable of one instance.
#[derive(Clone, Copy, Debug, PartialEq, Eq, Structural)]
pub enum Variable {
    /// The public variable with the given position.
    Input(usize),
    /// The witness variable with the given position.
    Aux(usize),
}

/// A variable scaled by a field element.
#[derive(Clone, Copy, Debug)]
pub struct Term {
    pub coeff: FieldElement,
    pub var: Variable,
}

/// A term as the contracts see it.
pub struct TermView {
    pub coeff: nat,
    pub var: Variable,
}

impl View for Term {
    type V = TermView;

    open spec fn view(&self) -> TermView {
        TermView { coeff: self.coeff@, var: self.var }
    }
}

/// A sum of terms.
#[derive(Debug)]
pub struct LinearCombination {
    pub terms: Vec<Term>,
}

impl View for LinearCombination {
    type V = Seq<TermView>;

    open spec fn view(&self) -> Seq<TermView> {
        self.terms@.map_values(|t: Term| t@)
    }
}

/// The demand that the product of `a` and `b` equals `c`.
#[derive(Debug)]
pub struct Constraint {
    pub a: LinearCombination,
    pub b: LinearCombination,
    pub c: LinearCombination,
}

/// A constraint as the contracts see it.
pub struct ConstraintView {
    pub a: Seq<TermView>,
    pub b: Seq<TermView>,
    pub c: Seq<TermView>,
}

impl View for Constraint {
    type V = ConstraintView;

    open spec fn view(&self) -> ConstraintView {
        ConstraintView { a: self.a@, b: self.b@, c: self.c@ }
    }
}

/// What a slot of an assignment holds, as a number.
pub open spec fn slot_view(slot: Option<FieldElement>) -> Option<nat> {
    match slot {
        Some(e) => Some(e@),
        None => None,
    }
}

/// The slots of an assignment as numbers.
pub open spec fn slots_view(slots: Seq<Option<FieldElement>>) -> Seq<Option<nat>> {
    slots.map_values(|s: Option<FieldElement>| slot_view(s))
}

/// The values of one instance, in the order of allocation. A slot is
/// `None` where the variable was left unassigned.
#[derive(Debug)]
pub struct Instance {
    pub public: Vec<Option<FieldElement>>,
    pub witness: Vec<Option<FieldElement>>,
}

/// An instance as the contracts see it.
pub struct InstanceView {
    pub public: Seq<Option<nat>>,
    pub witness: Seq<Option<nat>>,
}

impl View for Instance {
    type V = InstanceView;

    open spec fn view(&self) -> InstanceView {
        InstanceView { public: slots_view(self.public@), witness: slots_view(self.witness@) }
    }
}

/// The instance without variables.
pub open spec fn empty_instance() -> InstanceView {
    InstanceView { public: Seq::empty(), witness: Seq::empty() }
}

/// All instances of one image: the unit that is proved or verified.
#[derive(Debug)]
pub struct BatchedStatement {
    pub capability: Capability,
    pub constraints: Vec<Constraint>,
    pub instances: Vec<Instance>,
}

/// A statement as the contracts see it.
pub struct StatementView {
    pub capability: Capability,
    pub constraints: Seq<ConstraintView>,
    pub instances: Seq<InstanceView>,
}

impl View for BatchedStatement {
    type V = StatementView;

    open spec fn view(&self) -> StatementView {
        StatementView {
            capability: self.capability,
            constraints: self.constraints@.map_values(|c: Constraint| c@),
            instances: self.instances@.map_values(|i: Instance| i@),
        }
    }
}

impl StatementView {
    /// Whether an allocation of `value` for instance `index` is taken: the
    /// instance exists or is the next one, and where values are kept there
    /// is one.
    pub open spec fn admits(self, value: Option<nat>, index: int) -> bool {
        0 <= index <= self.instances.len() && (self.capability == Capability::WithWitness
            ==> value is Some)
    }

    /// What is stored for an allocated value.
    pub open spec fn kept(self, value: Option<nat>) -> Option<nat> {
        if self.capability == Capability::WithWitness {
            value
        } else {
            None
        }
    }

    /// What is stored for each of some allocated values.
    pub open spec fn kept_all(self, values: Seq<Option<nat>>) -> Seq<Option<nat>> {
        values.map_values(|v: Option<nat>| self.kept(v))
    }

    /// The statement once instance `index` exists: where `index` is the next
    /// instance, it is added without variables.
    pub open spec fn opened(self, index: int) -> StatementView {
        if index == self.instances.len() {
            StatementView { instances: self.instances.push(empty_instance()), ..self }
        } else {
            self
        }
    }

    /// The number of public variables of instance `index`.
    pub open spec fn public_count(self, index: int) -> nat {
        if 0 <= index < self.instances.len() {
            self.instances[index].public.len()
        } else {
            0
        }
    }

    /// The number of witness variables of instance `index`.
    pub open spec fn witness_count(self, index: int) -> nat {
        if 0 <= index < self.instances.len() {
            self.instances[index].witness.len()
        } else {
            0
        }
    }

    /// The statement after public values were allocated for instance
    /// `index`.
    pub open spec fn with_public(self, index: int, values: Seq<Option<nat>>) -> StatementView {
        let s = self.opened(index);
        let inst = s.instances[index];
        StatementView {
            instances: s.instances.update(
                index,
                InstanceView { public: inst.public + values, ..inst },
            ),
            ..s
        }
    }

    /// The statement after witness values were allocated for instance
    /// `index`.
    pub open spec fn with_witness(self, index: int, values: Seq<Option<nat>>) -> StatementView {
        let s = self.opened(index);
        let inst = s.instances[index];
        StatementView {
            instances: s.instances.update(
                index,
                InstanceView { witness: inst.witness + values, ..inst },
            ),
            ..s
        }
    }

    /// The statement after one more constraint was registered.
    pub open spec fn with_constraint(self, c: ConstraintView) -> StatementView {
        StatementView { constraints: self.constraints.push(c), ..self }
    }
}

/// Whether a variable lies among the given values.
pub open spec fn variable_bound(v: Variable, public: Seq<nat>, witness: Seq<nat>) -> bool {
    match v {
        Variable::Input(i) => i < public.len(),
        Variable::Aux(i) => i < witness.len(),
    }
}

/// The value of a variable.
pub open spec fn variable_value(v: Variable, public: Seq<nat>, witness: Seq<nat>) -> nat {
    match v {
        Variable::Input(i) => public[i as int],
        Variable::Aux(i) => witness[i as int],
    }
}

/// Whether every variable of a linear combination lies among the given
/// values.
pub open spec fn lc_bound(lc: Seq<TermView>, public: Seq<nat>, witness: Seq<nat>) -> bool {
    forall|t: int| 0 <= t < lc.len() ==> variable_bound((#[trigger] lc[t]).var, public, witness)
}

/// The value of a linear combination, as a number: the sum of its terms,
/// not yet reduced.
pub open spec fn lc_value(lc: Seq<TermView>, public: Seq<nat>, witness: Seq<nat>) -> nat
    decreases lc.len(),
{
    if lc.len() == 0 {
        0
    } else {
        lc_value(lc.drop_last(), public, witness) + lc.last().coeff * variable_value(
            lc.last().var,
            public,
            witness,
        )
    }
}

/// Whether the values meet a constraint: in the field, the product of `a`
/// and `b` is `c`.
pub open spec fn constraint_holds(c: ConstraintView, public: Seq<nat>, witness: Seq<nat>) -> bool {
    &&& lc_bound(c.a, public, witness)
    &&& lc_bound(c.b, public, witness)
    &&& lc_bound(c.c, public, witness)
    &&& (lc_value(c.a, public, witness) * lc_value(c.b, public, witness)) % modulus()
        == lc_value(c.c, public, witness) % modulus()
}

/// Whether every slot holds a value.
pub open spec fn all_bound(slots: Seq<Option<nat>>) -> bool {
    forall|k: int| 0 <= k < slots.len() ==> (#[trigger] slots[k]) is Some
}

/// The values of slots that all hold one.
pub open spec fn values(slots: Seq<Option<nat>>) -> Seq<nat> {
    Seq::new(slots.len(), |k: int| slots[k]->Some_0)
}

/// The public values of instance `i`: entry `i` of every group.
pub open spec fn column(io: Seq<Seq<nat>>, i: int) -> Seq<nat> {
    Seq::new(io.len(), |g: int| io[g][i])
}

/// What a proof made from `prover` shows to a verifier that holds the
/// structure `verifier` and the public inputs `io`, given a backend that
/// accepts what is true and nothing else: the public inputs have the
/// verifier's shape, one entry for each of the prover's instances, and in
/// every instance they meet, together with the prover's witness, every
/// constraint of the verifier.
pub open spec fn accepted(prover: StatementView, verifier: StatementView, io: Seq<Seq<nat>>) -> bool {
    &&& verifier.instances.len() == 1
    &&& io.len() == verifier.instances[0].public.len()
    &&& forall|g: int| 0 <= g < io.len() ==> (#[trigger] io[g]).len() == prover.instances.len()
    &&& forall|i: int|
        0 <= i < prover.instances.len() ==> {
            &&& all_bound((#[trigger] prover.instances[i]).witness)
            &&& prover.instances[i].witness.len() == verifier.instances[0].witness.len()
            &&& forall|c: int|
                0 <= c < verifier.constraints.len() ==> constraint_holds(
                    #[trigger] verifier.constraints[c],
                    column(io, i),
                    values(prover.instances[i].witness),
                )
        }
}

/// The public values that a prover's statement holds, one group for each
/// public variable of its first instance, each with one entry for each
/// instance.
pub open spec fn public_groups(prover: StatementView) -> Seq<Seq<nat>> {
    Seq::new(
        prover.public_count(0),
        |g: int| Seq::new(prover.instances.len(), |i: int| prover.instances[i].public[g]->Some_0),
    )
}

impl Instance {
    /// An instance without variables.
    pub fn new() -> (r: Instance)
        ensures
            r@ == empty_instance(),
    {
        let r = Instance { public: Vec::new(), witness: Vec::new() };
        assert(r@.public =~= Seq::empty());
        assert(r@.witness =~= Seq::empty());
        r
    }
}

impl BatchedStatement {
    /// A statement without variables, constraints or instances.
    pub fn new(capability: Capability) -> (r: BatchedStatement)
        ensures
            r@ == (StatementView {
                capability,
                constraints: Seq::empty(),
                instances: Seq::empty(),
            }),
    {
        let r = BatchedStatement { capability, constraints: Vec::new(), instances: Vec::new() };
        assert(r@.constraints =~= Seq::empty());
        assert(r@.instances =~= Seq::empty());
        r
    }

    /// The variable that stands for the constant one: the first public
    /// variable of every instance.
    pub fn one() -> (v: Variable)
        ensures
            v == Variable::Input(0),
    {
        Variable::Input(0)
    }

    /// Allocates the next public variable of instance `index` and binds
    /// `value` to it. The instance must exist or be the next one, and the
    /// prover's side needs a value; otherwise nothing changes and the
    /// assignment is reported as missing.
    pub fn alloc_input(&mut self, value: Option<FieldElement>, index: usize) -> (r: Result<
        Variable,
        Error,
    >)
        ensures
            r is Ok <==> old(self)@.admits(slot_view(value), index as int),
            r is Err ==> r == Err::<Variable, Error>(Error::AssignmentMissing) && final(self)@
                == old(self)@,
            r is Ok ==> r->Ok_0 == Variable::Input(old(self)@.public_count(index as int) as usize)
                && final(self)@ == old(self)@.with_public(
                index as int,
                seq![old(self)@.kept(slot_view(value))],
            ),
    {
        if index > self.instances.len() {
            return Err(Error::AssignmentMissing);
        }
        let slot: Option<FieldElement> = match self.capability {
            Capability::WithWitness => {
                if value.is_none() {
                    return Err(Error::AssignmentMissing);
                }
                value
            },
            Capability::StructureOnly => None,
        };
        if index == self.instances.len() {
            self.instances.push(Instance::new());
        }
        let k: usize = self.instances[index].public.len();
        self.instances[index].public.push(slot);
        proof {
            let target = old(self)@.with_public(
                index as int,
                seq![old(self)@.kept(slot_view(value))],
            );
            assert(self@.instances[index as int].public =~= target.instances[index as int].public);
            assert(self@.instances[index as int].witness =~= target.instances[index as int].witness);
            assert(self@.instances =~= target.instances);
            assert(self@.constraints =~= target.constraints);
        }
        Ok(Variable::Input(k))
    }

    /// Allocates the next witness variable of instance `index` and binds
    /// `value` to it, under the conditions of [`Self::alloc_input`].
    pub fn alloc_witness(&mut self, value: Option<FieldElement>, index: usize) -> (r: Result<
        Variable,
        Error,
    >)
        ensures
            r is Ok <==> old(self)@.admits(slot_view(value), index as int),
            r is Err ==> r == Err::<Variable, Error>(Error::AssignmentMissing) && final(self)@
                == old(self)@,
            r is Ok ==> r->Ok_0 == Variable::Aux(old(self)@.witness_count(index as int) as usize)
                && final(self)@ == old(self)@.with_witness(
                index as int,
                seq![old(self)@.kept(slot_view(value))],
            ),
    {
        if index > self.instances.len() {
            return Err(Error::AssignmentMissing);
        }
        let slot: Option<FieldElement> = match self.capability {
            Capability::WithWitness => {
                if value.is_none() {
                    return Err(Error::AssignmentMissing);
                }
                value
            },
            Capability::StructureOnly => None,
        };
        if index == self.instances.len() {
            self.instances.push(Instance::new());
        }
        let k: usize = self.instances[index].witness.len();
        self.instances[index].witness.push(slot);
        proof {
            let target = old(self)@.with_witness(
                index as int,
                seq![old(self)@.kept(slot_view(value))],
            );
            assert(self@.instances[index as int].public =~= target.instances[index as int].public);
            assert(self@.instances[index as int].witness =~= target.instances[index as int].witness);
            assert(self@.instances =~= target.instances);
            assert(self@.constraints =~= target.constraints);
        }
        Ok(Variable::Aux(k))
    }

    /// Registers the constraint that the product of `a` and `b` equals `c`.
    /// It binds every instance.
    pub fn enforce(&mut self, a: LinearCombination, b: LinearCombination, c: LinearCombination)
        ensures
            final(self)@ == old(self)@.with_constraint(ConstraintView { a: a@, b: b@, c: c@ }),
    {
        self.constraints.push(Constraint { a, b, c });
        proof {
            let target = old(self)@.with_constraint(ConstraintView { a: a@, b: b@, c: c@ });
            assert(self@.constraints =~= target.constraints);
            assert(self@.instances =~= target.instances);
        }
    }
}

impl LinearCombination {
    /// The empty sum.
    pub fn zero() -> (r: LinearCombination)
        ensures
            r@ == Seq::<TermView>::empty(),
    {
        let r = LinearCombination { terms: Vec::new() };
        assert(r@ =~= Seq::<TermView>::empty());
        r
    }

    /// The sum with one more variable, taken once.
    pub fn plus(self, var: Variable) -> (r: LinearCombination)
        ensures
            r@ == self@.push(TermView { coeff: 1, var }),
    {
        let mut terms = self.terms;
        terms.push(Term { coeff: FieldElement::one(), var });
        let r = LinearCombination { terms };
        assert(r@ =~= self@.push(TermView { coeff: 1, var }));
        r
    }
}

} // verus!
