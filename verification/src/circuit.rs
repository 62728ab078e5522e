//! The circuit of one block: the pixel at the selected position equals the
//! pixel of the thumbnail.

use crate::error::Error;
use crate::field::FieldElement;
use crate::r1cs::slot_view;
use crate::r1cs::slots_view;
use crate::r1cs::BatchedStatement;
use crate::r1cs::Capability;
use crate::r1cs::ConstraintView;
use crate::r1cs::LinearCombination;
use crate::r1cs::StatementView;
use crate::r1cs::TermView;
use crate::r1cs::Variable;
use vstd::prelude::*;

verus! {

/// One block of the source image with the pixel that the thumbnail shows
/// for it. A value is `None` where it is not known, as on the verifier's
/// side.
#[derive(Debug)]
pub struct Thumbnail {
    /// The pixels of the block, flattened.
    pub inps: Vec<Option<FieldElement>>,
    /// The pixel of the thumbnail.
    pub out: Option<FieldElement>,
    /// The position in `inps` whose pixel the thumbnail shows.
    pub p: u32,
}

/// A block as the contracts see it.
pub struct ThumbnailView {
    pub inps: Seq<Option<nat>>,
    pub out: Option<nat>,
    pub p: nat,
}

impl View for Thumbnail {
    type V = ThumbnailView;

    open spec fn view(&self) -> ThumbnailView {
        ThumbnailView { inps: slots_view(self.inps@), out: slot_view(self.out), p: self.p as nat }
    }
}

impl ThumbnailView {
    /// The selected position lies in the block.
    pub open spec fn wf(self) -> bool {
        self.p < self.inps.len()
    }

    /// Every value of the block is known.
    pub open spec fn assigned(self) -> bool {
        self.out is Some && forall|i: int| 0 <= i < self.inps.len() ==> (#[trigger] self.inps[i])
            is Some
    }

}

/// The one constraint of the circuit, for a block whose variables were
/// allocated after `public` public and `witness` witness variables: the
/// input at position `p` times the constant one equals the output.
pub open spec fn selection_constraint(p: nat, public: nat, witness: nat) -> ConstraintView {
    ConstraintView {
        a: seq![TermView { coeff: 1, var: Variable::Aux((witness + p) as usize) }],
        b: seq![TermView { coeff: 1, var: Variable::Input(0) }],
        c: seq![TermView { coeff: 1, var: Variable::Input((public + 1) as usize) }],
    }
}

/// The statement after the circuit of `block` was laid down for instance
/// `index`: the constant one and the output as public variables, the
/// inputs as witness variables, and, for the first instance only, the
/// constraint.
pub open spec fn synthesized(s: StatementView, block: ThumbnailView, index: int) -> StatementView {
    let allocated = s.with_public(index, seq![s.kept(Some(1nat)), s.kept(block.out)]).with_witness(
        index,
        s.kept_all(block.inps),
    );
    if index == 0 {
        allocated.with_constraint(
            selection_constraint(block.p, s.public_count(index), s.witness_count(index)),
        )
    } else {
        allocated
    }
}

impl Thumbnail {
    /// Whether every value of the block is known.
    pub fn is_assigned(&self) -> (r: bool)
        ensures
            r == self@.assigned(),
    {
        if self.out.is_none() {
            return false;
        }
        let mut i: usize = 0;
        while i < self.inps.len()
            invariant
                i <= self.inps.len(),
                forall|j: int| 0 <= j < i ==> (#[trigger] self@.inps[j]) is Some,
            decreases self.inps.len() - i,
        {
            if self.inps[i].is_none() {
                assert(self@.inps[i as int] is None);
                return false;
            }
            i = i + 1;
        }
        true
    }

    /// Lays the circuit of the block down in `cs` as instance `index`.
    ///
    /// The instance must exist or be the next one, and a statement that
    /// keeps values needs every value of the block; otherwise `cs` is left
    /// as it was and the assignment is reported as missing.
    pub fn generate_constraints(self, cs: &mut BatchedStatement, index: usize) -> (r: Result<
        (),
        Error,
    >)
        requires
            self@.wf(),
        ensures
            r is Ok <==> index <= old(cs)@.instances.len() && (old(cs)@.capability
                == Capability::WithWitness ==> self@.assigned()),
            r is Err ==> r == Err::<(), Error>(Error::AssignmentMissing) && final(cs)@ == old(
                cs,
            )@,
            r is Ok ==> final(cs)@ == synthesized(old(cs)@, self@, index as int),
    {
        if index > cs.instances.len() {
            return Err(Error::AssignmentMissing);
        }
        match cs.capability {
            Capability::WithWitness => {
                if !self.is_assigned() {
                    return Err(Error::AssignmentMissing);
                }
            },
            Capability::StructureOnly => {},
        }
        let ghost start = cs@;
        let ghost public = start.public_count(index as int);
        let ghost witness = start.witness_count(index as int);

        if cs.alloc_input(Some(FieldElement::one()), index).is_err() {
            assert(false);
            return Err(Error::AssignmentMissing);
        }
        let ghost after_one = cs@;
        let first: usize = cs.instances[index].witness.len();
        let mut var_inps: Vec<Variable> = Vec::new();
        let mut i: usize = 0;
        proof {
            assert(start.kept_all(self@.inps.take(0)) =~= Seq::empty());
            assert(after_one.instances[index as int].witness + Seq::<Option<nat>>::empty()
                =~= after_one.instances[index as int].witness);
            assert(after_one.with_witness(index as int, Seq::empty()).instances
                =~= after_one.instances);
        }
        while i < self.inps.len()
            invariant
                i <= self.inps.len(),
                index < after_one.instances.len(),
                after_one.capability == start.capability,
                start.capability == Capability::WithWitness ==> self@.assigned(),
                after_one.witness_count(index as int) == witness,
                cs@ == after_one.with_witness(
                    index as int,
                    start.kept_all(self@.inps.take(i as int)),
                ),
                var_inps@.len() == i,
                forall|j: int| 0 <= j < i ==> var_inps@[j] == Variable::Aux((witness + j) as usize),
                first == witness,
                first + i <= usize::MAX,
            decreases self.inps.len() - i,
        {
            assert(self@.inps[i as int] == slot_view(self.inps@[i as int]));
            let v = cs.alloc_witness(self.inps[i], index);
            match v {
                Ok(var) => {
                    var_inps.push(var);
                },
                Err(_) => {
                    assert(false);
                    return Err(Error::AssignmentMissing);
                },
            }
            proof {
                let done = start.kept_all(self@.inps.take(i as int));
                let next = start.kept_all(self@.inps.take(i + 1));
                assert(self@.inps.take(i + 1) =~= self@.inps.take(i as int).push(self@.inps[i as int]));
                assert(next =~= done.push(start.kept(self@.inps[i as int])));
                let target = after_one.with_witness(index as int, next);
                assert(cs@.instances[index as int].witness =~= target.instances[index as int].witness);
                assert(cs@.instances =~= target.instances);
            }
            let filled: usize = cs.instances[index].witness.len();
            assert(filled == first + i + 1);
            i = i + 1;
        }
        let out = cs.alloc_input(self.out, index);
        let var_o = match out {
            Ok(var) => var,
            Err(_) => {
                assert(false);
                return Err(Error::AssignmentMissing);
            },
        };
        proof {
            assert(self@.inps.take(self@.inps.len() as int) =~= self@.inps);
            let allocated = start.with_public(
                index as int,
                seq![start.kept(Some(1nat)), start.kept(self@.out)],
            ).with_witness(index as int, start.kept_all(self@.inps));
            assert(cs@.instances[index as int].public =~= allocated.instances[index as int].public);
            assert(cs@.instances[index as int].witness
                =~= allocated.instances[index as int].witness);
            assert(cs@.instances =~= allocated.instances);
            assert(cs@ == allocated);
        }
        if index == 0 {
            let a = LinearCombination::zero().plus(var_inps[self.p as usize]);
            let b = LinearCombination::zero().plus(BatchedStatement::one());
            let c = LinearCombination::zero().plus(var_o);
            proof {
                let wanted = selection_constraint(self@.p, public, witness);
                assert(a@ =~= wanted.a);
                assert(b@ =~= wanted.b);
                assert(c@ =~= wanted.c);
            }
            cs.enforce(a, b, c);
        }
        Ok(())
    }
}

} // verus!
