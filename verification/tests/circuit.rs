use thumbnail_proof::circuit::Thumbnail;
use thumbnail_proof::error::Error;
use thumbnail_proof::field::encode;
use thumbnail_proof::field::FieldElement;
use thumbnail_proof::r1cs::BatchedStatement;
use thumbnail_proof::r1cs::Capability;
use thumbnail_proof::r1cs::LinearCombination;
use thumbnail_proof::r1cs::Variable;

fn fe(v: u8) -> FieldElement {
    encode(&[v]).unwrap()
}

fn block(values: &[u8], p: u32) -> Thumbnail {
    Thumbnail {
        inps: values.iter().map(|v| Some(fe(*v))).collect(),
        out: Some(fe(values[p as usize])),
        p,
    }
}

#[test]
fn new_statement_is_empty() {
    let cs = BatchedStatement::new(Capability::WithWitness);
    assert_eq!(cs.capability, Capability::WithWitness);
    assert!(cs.constraints.is_empty());
    assert!(cs.instances.is_empty());
    let cs = BatchedStatement::new(Capability::StructureOnly);
    assert_eq!(cs.capability, Capability::StructureOnly);
    assert!(cs.constraints.is_empty());
    assert!(cs.instances.is_empty());
}

#[test]
fn one_is_the_first_public_variable() {
    assert_eq!(BatchedStatement::one(), Variable::Input(0));
}

#[test]
fn alloc_input_numbers_the_public_variables_of_an_instance() {
    let mut cs = BatchedStatement::new(Capability::WithWitness);
    assert_eq!(cs.alloc_input(Some(fe(3)), 0), Ok(Variable::Input(0)));
    assert_eq!(cs.alloc_input(Some(fe(4)), 0), Ok(Variable::Input(1)));
    assert_eq!(cs.alloc_input(Some(fe(5)), 1), Ok(Variable::Input(0)));
    assert_eq!(cs.instances.len(), 2);
    assert_eq!(cs.instances[0].public, vec![Some(fe(3)), Some(fe(4))]);
    assert_eq!(cs.instances[1].public, vec![Some(fe(5))]);
    assert!(cs.instances[0].witness.is_empty());
    assert!(cs.constraints.is_empty());
}

#[test]
fn alloc_witness_numbers_the_witness_variables_of_an_instance() {
    let mut cs = BatchedStatement::new(Capability::WithWitness);
    assert_eq!(cs.alloc_witness(Some(fe(3)), 0), Ok(Variable::Aux(0)));
    assert_eq!(cs.alloc_input(Some(fe(9)), 0), Ok(Variable::Input(0)));
    assert_eq!(cs.alloc_witness(Some(fe(4)), 0), Ok(Variable::Aux(1)));
    assert_eq!(cs.alloc_witness(Some(fe(5)), 1), Ok(Variable::Aux(0)));
    assert_eq!(cs.alloc_witness(Some(fe(6)), 0), Ok(Variable::Aux(2)));
    assert_eq!(cs.instances[0].witness, vec![Some(fe(3)), Some(fe(4)), Some(fe(6))]);
    assert_eq!(cs.instances[0].public, vec![Some(fe(9))]);
    assert_eq!(cs.instances[1].witness, vec![Some(fe(5))]);
}

#[test]
fn prover_allocation_without_a_value_is_missing() {
    let mut cs = BatchedStatement::new(Capability::WithWitness);
    assert_eq!(cs.alloc_input(None, 0), Err(Error::AssignmentMissing));
    assert_eq!(cs.alloc_witness(None, 0), Err(Error::AssignmentMissing));
    assert!(cs.instances.is_empty());
}

#[test]
fn allocation_that_skips_an_instance_is_missing() {
    let mut cs = BatchedStatement::new(Capability::WithWitness);
    assert_eq!(cs.alloc_input(Some(fe(1)), 1), Err(Error::AssignmentMissing));
    assert_eq!(cs.alloc_witness(Some(fe(1)), 2), Err(Error::AssignmentMissing));
    assert!(cs.instances.is_empty());
    let mut cs = BatchedStatement::new(Capability::StructureOnly);
    assert_eq!(cs.alloc_input(None, 1), Err(Error::AssignmentMissing));
    assert!(cs.instances.is_empty());
}

#[test]
fn verifier_allocation_keeps_no_value() {
    let mut cs = BatchedStatement::new(Capability::StructureOnly);
    assert_eq!(cs.alloc_input(Some(fe(3)), 0), Ok(Variable::Input(0)));
    assert_eq!(cs.alloc_input(None, 0), Ok(Variable::Input(1)));
    assert_eq!(cs.alloc_witness(Some(fe(4)), 0), Ok(Variable::Aux(0)));
    assert_eq!(cs.alloc_witness(None, 0), Ok(Variable::Aux(1)));
    assert_eq!(cs.instances[0].public, vec![None, None]);
    assert_eq!(cs.instances[0].witness, vec![None, None]);
}

#[test]
fn linear_combination_takes_each_variable_once() {
    let lc = LinearCombination::zero();
    assert!(lc.terms.is_empty());
    let lc = lc.plus(Variable::Aux(3)).plus(Variable::Input(1));
    assert_eq!(lc.terms.len(), 2);
    assert_eq!(lc.terms[0].coeff, FieldElement::one());
    assert_eq!(lc.terms[0].var, Variable::Aux(3));
    assert_eq!(lc.terms[1].coeff, FieldElement::one());
    assert_eq!(lc.terms[1].var, Variable::Input(1));
}

#[test]
fn enforce_registers_the_constraint() {
    let mut cs = BatchedStatement::new(Capability::WithWitness);
    cs.enforce(
        LinearCombination::zero().plus(Variable::Aux(0)),
        LinearCombination::zero().plus(Variable::Input(0)),
        LinearCombination::zero().plus(Variable::Input(1)),
    );
    assert_eq!(cs.constraints.len(), 1);
    assert_eq!(cs.constraints[0].a.terms[0].var, Variable::Aux(0));
    assert_eq!(cs.constraints[0].b.terms[0].var, Variable::Input(0));
    assert_eq!(cs.constraints[0].c.terms[0].var, Variable::Input(1));
    assert!(cs.instances.is_empty());
}

#[test]
fn is_assigned_wants_every_value() {
    assert!(block(&[1, 2, 3, 4], 2).is_assigned());
    let mut b = block(&[1, 2, 3, 4], 2);
    b.out = None;
    assert!(!b.is_assigned());
    let mut b = block(&[1, 2, 3, 4], 2);
    b.inps[3] = None;
    assert!(!b.is_assigned());
}

#[test]
fn circuit_of_the_first_instance() {
    let mut cs = BatchedStatement::new(Capability::WithWitness);
    assert_eq!(block(&[10, 20, 30, 40], 2).generate_constraints(&mut cs, 0), Ok(()));
    assert_eq!(cs.instances.len(), 1);
    assert_eq!(cs.instances[0].public, vec![Some(FieldElement::one()), Some(fe(30))]);
    assert_eq!(
        cs.instances[0].witness,
        vec![Some(fe(10)), Some(fe(20)), Some(fe(30)), Some(fe(40))]
    );
    assert_eq!(cs.constraints.len(), 1);
    let c = &cs.constraints[0];
    assert_eq!(c.a.terms.len(), 1);
    assert_eq!(c.b.terms.len(), 1);
    assert_eq!(c.c.terms.len(), 1);
    assert_eq!((c.a.terms[0].coeff, c.a.terms[0].var), (FieldElement::one(), Variable::Aux(2)));
    assert_eq!((c.b.terms[0].coeff, c.b.terms[0].var), (FieldElement::one(), Variable::Input(0)));
    assert_eq!((c.c.terms[0].coeff, c.c.terms[0].var), (FieldElement::one(), Variable::Input(1)));
}

#[test]
fn circuit_emits_its_constraint_once() {
    let mut cs = BatchedStatement::new(Capability::WithWitness);
    assert_eq!(block(&[10, 20, 30, 40], 2).generate_constraints(&mut cs, 0), Ok(()));
    assert_eq!(block(&[11, 21, 31, 41], 2).generate_constraints(&mut cs, 1), Ok(()));
    assert_eq!(block(&[12, 22, 32, 42], 2).generate_constraints(&mut cs, 2), Ok(()));
    assert_eq!(cs.constraints.len(), 1);
    assert_eq!(cs.instances.len(), 3);
    assert_eq!(cs.instances[1].public, vec![Some(FieldElement::one()), Some(fe(31))]);
    assert_eq!(cs.instances[2].public, vec![Some(FieldElement::one()), Some(fe(32))]);
    assert_eq!(
        cs.instances[2].witness,
        vec![Some(fe(12)), Some(fe(22)), Some(fe(32)), Some(fe(42))]
    );
}

#[test]
fn circuit_without_values_is_structure_for_the_verifier() {
    let mut cs = BatchedStatement::new(Capability::StructureOnly);
    let b = Thumbnail { inps: vec![None; 4], out: None, p: 3 };
    assert_eq!(b.generate_constraints(&mut cs, 0), Ok(()));
    assert_eq!(cs.instances.len(), 1);
    assert_eq!(cs.instances[0].public, vec![None, None]);
    assert_eq!(cs.instances[0].witness, vec![None; 4]);
    assert_eq!(cs.constraints.len(), 1);
    assert_eq!(cs.constraints[0].a.terms[0].var, Variable::Aux(3));
}

#[test]
fn verifier_drops_values_that_it_is_given() {
    let mut cs = BatchedStatement::new(Capability::StructureOnly);
    assert_eq!(block(&[10, 20, 30, 40], 1).generate_constraints(&mut cs, 0), Ok(()));
    assert_eq!(cs.instances[0].public, vec![None, None]);
    assert_eq!(cs.instances[0].witness, vec![None; 4]);
}

#[test]
fn circuit_without_values_is_missing_for_the_prover() {
    let mut cs = BatchedStatement::new(Capability::WithWitness);
    let b = Thumbnail { inps: vec![None; 4], out: None, p: 3 };
    assert_eq!(b.generate_constraints(&mut cs, 0), Err(Error::AssignmentMissing));
    assert!(cs.instances.is_empty());
    assert!(cs.constraints.is_empty());
    let mut b = block(&[10, 20, 30, 40], 1);
    b.inps[3] = None;
    assert_eq!(b.generate_constraints(&mut cs, 0), Err(Error::AssignmentMissing));
    assert!(cs.instances.is_empty());
    let mut b = block(&[10, 20, 30, 40], 1);
    b.out = None;
    assert_eq!(b.generate_constraints(&mut cs, 0), Err(Error::AssignmentMissing));
    assert!(cs.instances.is_empty());
    assert!(cs.constraints.is_empty());
}

#[test]
fn circuit_at_a_skipped_instance_is_missing() {
    let mut cs = BatchedStatement::new(Capability::WithWitness);
    assert_eq!(
        block(&[10, 20, 30, 40], 1).generate_constraints(&mut cs, 1),
        Err(Error::AssignmentMissing)
    );
    assert!(cs.instances.is_empty());
    assert!(cs.constraints.is_empty());
}

/// Whether the values of the first instance meet the last constraint, read
/// as one variable times one variable equals one variable.
fn first_instance_meets_last_constraint(cs: &BatchedStatement) -> bool {
    let value = |v: Variable| match v {
        Variable::Input(i) => cs.instances[0].public[i].unwrap(),
        Variable::Aux(i) => cs.instances[0].witness[i].unwrap(),
    };
    let c = cs.constraints.last().unwrap();
    assert_eq!((c.a.terms.len(), c.b.terms.len(), c.c.terms.len()), (1, 1, 1));
    assert_eq!(value(c.b.terms[0].var), FieldElement::one());
    value(c.a.terms[0].var) == value(c.c.terms[0].var)
}

#[test]
fn circuit_after_other_variables_of_the_first_instance() {
    let mut cs = BatchedStatement::new(Capability::WithWitness);
    assert_eq!(cs.alloc_input(Some(FieldElement::one()), 0), Ok(Variable::Input(0)));
    assert_eq!(cs.alloc_input(Some(fe(7)), 0), Ok(Variable::Input(1)));
    assert_eq!(cs.alloc_witness(Some(fe(3)), 0), Ok(Variable::Aux(0)));
    assert_eq!(block(&[10, 20, 30, 40], 2).generate_constraints(&mut cs, 0), Ok(()));
    assert_eq!(cs.instances.len(), 1);
    assert_eq!(
        cs.instances[0].public,
        vec![Some(FieldElement::one()), Some(fe(7)), Some(FieldElement::one()), Some(fe(30))]
    );
    assert_eq!(
        cs.instances[0].witness,
        vec![Some(fe(3)), Some(fe(10)), Some(fe(20)), Some(fe(30)), Some(fe(40))]
    );
    assert_eq!(cs.constraints.len(), 1);
    let c = &cs.constraints[0];
    assert_eq!(c.a.terms[0].var, Variable::Aux(3));
    assert_eq!(c.b.terms[0].var, Variable::Input(0));
    assert_eq!(c.c.terms[0].var, Variable::Input(3));
    assert!(first_instance_meets_last_constraint(&cs));
}

#[test]
fn circuit_is_met_where_the_selected_input_is_the_output() {
    for p in 0..4u32 {
        for shown in 0..4usize {
            let values = [10u8, 20, 30, 40];
            let b = Thumbnail {
                inps: values.iter().map(|v| Some(fe(*v))).collect(),
                out: Some(fe(values[shown])),
                p,
            };
            let mut cs = BatchedStatement::new(Capability::WithWitness);
            assert_eq!(b.generate_constraints(&mut cs, 0), Ok(()));
            assert_eq!(cs.constraints[0].a.terms[0].var, Variable::Aux(p as usize));
            assert_eq!(first_instance_meets_last_constraint(&cs), p as usize == shown);
        }
    }
}

#[test]
fn other_inputs_play_no_part_in_the_constraint() {
    for other in [0u8, 30, 99, 255] {
        let b = Thumbnail {
            inps: vec![Some(fe(other)), Some(fe(other)), Some(fe(30)), Some(fe(other))],
            out: Some(fe(30)),
            p: 2,
        };
        let mut cs = BatchedStatement::new(Capability::WithWitness);
        assert_eq!(b.generate_constraints(&mut cs, 0), Ok(()));
        assert!(first_instance_meets_last_constraint(&cs));
        let b = Thumbnail {
            inps: vec![Some(fe(other)), Some(fe(other)), Some(fe(30)), Some(fe(other))],
            out: Some(fe(31)),
            p: 2,
        };
        let mut cs = BatchedStatement::new(Capability::WithWitness);
        assert_eq!(b.generate_constraints(&mut cs, 0), Ok(()));
        assert!(!first_instance_meets_last_constraint(&cs));
    }
}

#[test]
fn circuit_of_one_pixel_has_one_witness() {
    for (held, shown) in [(5u8, 5u8), (5, 6), (0, 0), (255, 0)] {
        let b = Thumbnail { inps: vec![Some(fe(held))], out: Some(fe(shown)), p: 0 };
        let mut cs = BatchedStatement::new(Capability::WithWitness);
        assert_eq!(b.generate_constraints(&mut cs, 0), Ok(()));
        assert_eq!(cs.instances[0].witness, vec![Some(fe(held))]);
        assert_eq!(cs.instances[0].public, vec![Some(FieldElement::one()), Some(fe(shown))]);
        assert_eq!(first_instance_meets_last_constraint(&cs), held == shown);
    }
}
