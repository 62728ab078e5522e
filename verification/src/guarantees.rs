//! What holds of the circuit of one block, whatever the block, and of the
//! statements that the assembler builds, whatever the image: the honest
//! thumbnail is accepted, an altered one is not.

use crate::assembler::block_instance;
use crate::assembler::block_pixel;
use crate::assembler::blocks_x;
use crate::assembler::blocks_y;
use crate::assembler::lemma_unflatten;
use crate::assembler::proving_statement;
use crate::assembler::public_input_vector;
use crate::assembler::sampled;
use crate::assembler::verifying_statement;
use crate::circuit::selection_constraint;
use crate::circuit::synthesized;
use crate::circuit::ThumbnailView;
use crate::config::Config;
use crate::encoder::encoded;
use crate::encoder::lemma_encoded_value;
use crate::encoder::lemma_encoding_injective;
use crate::field::modulus;
use crate::pixels::GridView;
use crate::pixels::Pixel;
use crate::r1cs::accepted;
use crate::r1cs::column;
use crate::r1cs::constraint_holds;
use crate::r1cs::lc_value;
use crate::r1cs::public_groups;
use crate::r1cs::Capability;
use crate::r1cs::StatementView;
use crate::r1cs::values;
use vstd::arithmetic::div_mod::lemma_fundamental_div_mod;
use vstd::prelude::*;

verus! {

/// The constraint of a circuit whose variables were allocated after
/// `first_public` public and `first_witness` witness variables holds
/// exactly where, in the field, the selected witness value times the first
/// public value is the public value of the output.
pub proof fn lemma_selection_holds(
    p: nat,
    first_public: nat,
    first_witness: nat,
    public: Seq<nat>,
    witness: Seq<nat>,
)
    requires
        first_public + 2 <= public.len(),
        first_witness + p < witness.len(),
        first_public + 1 <= usize::MAX,
        first_witness + p <= usize::MAX,
    ensures
        constraint_holds(selection_constraint(p, first_public, first_witness), public, witness)
            <==> (witness[(first_witness + p) as int] * public[0]) % modulus() == public[(
            first_public + 1) as int] % modulus(),
{
    let c = selection_constraint(p, first_public, first_witness);
    reveal_with_fuel(lc_value, 2);
    assert(c.a.drop_last() =~= Seq::empty());
    assert(c.b.drop_last() =~= Seq::empty());
    assert(c.c.drop_last() =~= Seq::empty());
    let input = witness[(first_witness + p) as int];
    let output = public[(first_public + 1) as int];
    assert(lc_value(c.a, public, witness) == input) by (nonlinear_arith)
        requires
            lc_value(c.a, public, witness) == 0 + 1 * input,
    ;
    assert(lc_value(c.b, public, witness) == public[0]) by (nonlinear_arith)
        requires
            lc_value(c.b, public, witness) == 0 + 1 * public[0],
    ;
    assert(lc_value(c.c, public, witness) == output) by (nonlinear_arith)
        requires
            lc_value(c.c, public, witness) == 0 + 1 * output,
    ;
}

/// Whether the circuit of `block` can be laid down in the prover's
/// statement `s` as its first instance and mean what it says: the first
/// public variable of that instance, where it is there already, holds the
/// constant one, and the handles of the new variables fit in `usize`.
pub open spec fn takes_first_instance(s: StatementView, block: ThumbnailView) -> bool {
    &&& s.capability == Capability::WithWitness
    &&& s.public_count(0) > 0 ==> s.instances[0].public[0] == Some(1nat)
    &&& s.public_count(0) + 1 <= usize::MAX
    &&& s.witness_count(0) + block.p <= usize::MAX
}

/// Whether, once the circuit of `block` is laid down in `s` as its first
/// instance, the values of that instance meet the constraint that the
/// circuit registered.
pub open spec fn circuit_met(s: StatementView, block: ThumbnailView) -> bool {
    let t = synthesized(s, block, 0);
    constraint_holds(
        t.constraints.last(),
        values(t.instances[0].public),
        values(t.instances[0].witness),
    )
}

/// The circuit of a block adds one constraint and one witness variable for
/// each input, and its values meet the constraint exactly where the
/// selected input is the output. What the other inputs hold plays no part.
pub proof fn lemma_circuit_selects(s: StatementView, block: ThumbnailView)
    requires
        takes_first_instance(s, block),
        block.wf(),
        block.assigned(),
        block.inps[block.p as int]->Some_0 < modulus(),
        block.out->Some_0 < modulus(),
    ensures
        synthesized(s, block, 0).constraints.len() == s.constraints.len() + 1,
        synthesized(s, block, 0).witness_count(0) == s.witness_count(0) + block.inps.len(),
        synthesized(s, block, 0).public_count(0) == s.public_count(0) + 2,
        circuit_met(s, block) <==> block.inps[block.p as int] == block.out,
{
    let t = synthesized(s, block, 0);
    let k = s.public_count(0);
    let w = s.witness_count(0);
    let at = (w + block.p) as int;
    let public = values(t.instances[0].public);
    let witness = values(t.instances[0].witness);
    let input = block.inps[block.p as int]->Some_0;
    assert(t.constraints.last() == selection_constraint(block.p, k, w));
    assert(s.kept_all(block.inps)[block.p as int] == block.inps[block.p as int]);
    assert(t.instances[0].witness[at] == block.inps[block.p as int]);
    assert(t.instances[0].public[(k + 1) as int] == block.out);
    assert(t.instances[0].public[0] == Some(1nat));
    lemma_selection_holds(block.p, k, w, public, witness);
    assert(witness[at] * public[0] == input) by (nonlinear_arith)
        requires
            witness[at] == input,
            public[0] == 1,
    ;
}

/// With the output taken at one position and the circuit laid down for
/// another whose input differs, the constraint is not met; laid down for the
/// position of the output, it is.
pub proof fn lemma_circuit_tells_positions(
    s: StatementView,
    inps: Seq<Option<nat>>,
    proved: nat,
    shown: nat,
)
    requires
        proved < inps.len(),
        shown < inps.len(),
        forall|k: int| 0 <= k < inps.len() ==> (#[trigger] inps[k]) is Some,
        inps[proved as int]->Some_0 < modulus(),
        inps[shown as int]->Some_0 < modulus(),
        inps[proved as int] != inps[shown as int],
        takes_first_instance(s, ThumbnailView { inps, out: inps[shown as int], p: proved }),
        takes_first_instance(s, ThumbnailView { inps, out: inps[shown as int], p: shown }),
    ensures
        !circuit_met(s, ThumbnailView { inps, out: inps[shown as int], p: proved }),
        circuit_met(s, ThumbnailView { inps, out: inps[shown as int], p: shown }),
{
    lemma_circuit_selects(s, ThumbnailView { inps, out: inps[shown as int], p: proved });
    lemma_circuit_selects(s, ThumbnailView { inps, out: inps[shown as int], p: shown });
}

/// The block of one pixel: its circuit has one witness variable, and the
/// constraint is met exactly where the pixel of the thumbnail is the pixel
/// of the image.
pub proof fn lemma_circuit_of_one_pixel(s: StatementView, held: Pixel, shown: Pixel)
    requires
        takes_first_instance(
            s,
            ThumbnailView { inps: seq![Some(encoded(held))], out: Some(encoded(shown)), p: 0 },
        ),
    ensures
        ({
            let block = ThumbnailView {
                inps: seq![Some(encoded(held))],
                out: Some(encoded(shown)),
                p: 0,
            };
            &&& synthesized(s, block, 0).witness_count(0) == s.witness_count(0) + 1
            &&& circuit_met(s, block) <==> held == shown
        }),
{
    let block = ThumbnailView { inps: seq![Some(encoded(held))], out: Some(encoded(shown)), p: 0 };
    lemma_circuit_selects(s, block);
    lemma_encoding_injective(held, shown);
}

/// The numbers of blocks are not negative.
proof fn lemma_blocks_counted(img: GridView, config: Config)
    requires
        config.n >= 1,
    ensures
        blocks_x(img, config) >= 0,
        blocks_y(img, config) >= 0,
        blocks_x(img, config) * blocks_y(img, config) >= 0,
{
    let n = config.n as int;
    let w = img.width as int;
    let h = img.height as int;
    assert(w / n >= 0 && h / n >= 0 && (w / n) * (h / n) >= 0) by (nonlinear_arith)
        requires
            w >= 0,
            h >= 0,
            n >= 1,
    ;
}

/// The pixel of the sampled thumbnail in column `bx` and row `by` is the
/// selected pixel of that block.
pub proof fn lemma_sampled_pixel(img: GridView, config: Config, bx: int, by: int)
    requires
        0 <= bx < blocks_x(img, config),
        0 <= by < blocks_y(img, config),
    ensures
        sampled(img, config).pixel(bx, by) == block_pixel(
            img,
            config.n as int,
            bx,
            by,
            config.p as int,
        ),
        0 <= by * blocks_x(img, config) + bx < blocks_x(img, config) * blocks_y(img, config),
{
    let new_x = blocks_x(img, config);
    let new_y = blocks_y(img, config);
    lemma_unflatten(by, bx, new_x);
    assert(0 <= by * new_x + bx < new_x * new_y) by (nonlinear_arith)
        requires
            0 <= bx < new_x,
            0 <= by < new_y,
    ;
}

/// Instance `i` stands for the block in column `i / new_y` and row
/// `i % new_y`, which lies in the block grid.
pub proof fn lemma_instance_block(img: GridView, config: Config, i: int)
    requires
        config.n >= 1,
        0 <= i < blocks_x(img, config) * blocks_y(img, config),
    ensures
        0 <= i / blocks_y(img, config) < blocks_x(img, config),
        0 <= i % blocks_y(img, config) < blocks_y(img, config),
{
    let new_x = blocks_x(img, config);
    let new_y = blocks_y(img, config);
    lemma_blocks_counted(img, config);
    assert(new_y > 0 && 0 <= i / new_y < new_x) by (nonlinear_arith)
        requires
            0 <= i < new_x * new_y,
            0 <= new_x,
            0 <= new_y,
    ;
}

/// In the prover's statement of an image, instance `i` meets the
/// constraint of the circuit under the public inputs of a thumbnail exactly
/// where the thumbnail shows, for the block of that instance, the pixel
/// that the image holds at the selected position.
pub proof fn lemma_instance_accepts(img: GridView, config: Config, thumb: GridView, i: int)
    requires
        config.wf(),
        thumb.width == blocks_x(img, config),
        thumb.height == blocks_y(img, config),
        0 <= i < blocks_x(img, config) * blocks_y(img, config),
    ensures
        ({
            let new_y = blocks_y(img, config);
            let prover = proving_statement(
                img,
                config,
                blocks_x(img, config) * blocks_y(img, config),
            );
            constraint_holds(
                selection_constraint(config.p as nat, 0, 0),
                column(public_input_vector(thumb), i),
                values(prover.instances[i].witness),
            ) <==> thumb.pixel(i / new_y, i % new_y) == block_pixel(
                img,
                config.n as int,
                i / new_y,
                i % new_y,
                config.p as int,
            )
        }),
{
    let new_x = blocks_x(img, config);
    let new_y = blocks_y(img, config);
    let prover = proving_statement(img, config, new_x * new_y);
    let io = public_input_vector(thumb);
    let public = column(io, i);
    let witness = values(prover.instances[i].witness);
    let shown = thumb.pixel(i / new_y, i % new_y);
    let held = block_pixel(img, config.n as int, i / new_y, i % new_y, config.p as int);
    lemma_instance_block(img, config, i);
    lemma_selection_holds(config.p as nat, 0, 0, public, witness);
    lemma_encoding_injective(shown, held);
    assert(witness[config.p as int] == encoded(held));
    assert(public[0] == 1);
    assert(public[1] == encoded(shown));
    assert(witness[config.p as int] * public[0] == encoded(held)) by (nonlinear_arith)
        requires
            witness[config.p as int] == encoded(held),
            public[0] == 1,
    ;
}

/// The thumbnail that the prover samples is accepted with the prover's
/// statement: its public inputs meet the constraint in every instance.
pub proof fn lemma_honest_thumbnail_accepted(img: GridView, config: Config)
    requires
        config.wf(),
    ensures
        accepted(
            proving_statement(img, config, blocks_x(img, config) * blocks_y(img, config)),
            verifying_statement(config),
            public_input_vector(sampled(img, config)),
        ),
{
    let new_x = blocks_x(img, config);
    let new_y = blocks_y(img, config);
    let prover = proving_statement(img, config, new_x * new_y);
    let verifier = verifying_statement(config);
    let thumb = sampled(img, config);
    let io = public_input_vector(thumb);
    assert forall|i: int| 0 <= i < prover.instances.len() implies constraint_holds(
        selection_constraint(config.p as nat, 0, 0),
        column(io, i),
        values((#[trigger] prover.instances[i]).witness),
    ) by {
        lemma_instance_block(img, config, i);
        lemma_sampled_pixel(img, config, i / new_y, i % new_y);
        lemma_instance_accepts(img, config, thumb, i);
    }
}

/// A thumbnail that differs from the sampled one in the pixel of column
/// `x` and row `y` is not accepted with the prover's statement.
pub proof fn lemma_altered_thumbnail_rejected(
    img: GridView,
    config: Config,
    altered: GridView,
    x: int,
    y: int,
)
    requires
        config.wf(),
        altered.width == blocks_x(img, config),
        altered.height == blocks_y(img, config),
        0 <= x < blocks_x(img, config),
        0 <= y < blocks_y(img, config),
        altered.pixel(x, y) != sampled(img, config).pixel(x, y),
    ensures
        !accepted(
            proving_statement(img, config, blocks_x(img, config) * blocks_y(img, config)),
            verifying_statement(config),
            public_input_vector(altered),
        ),
{
    let new_x = blocks_x(img, config);
    let new_y = blocks_y(img, config);
    let prover = proving_statement(img, config, new_x * new_y);
    let verifier = verifying_statement(config);
    let i = x * new_y + y;
    lemma_unflatten(x, y, new_y);
    assert(0 <= i < new_x * new_y) by (nonlinear_arith)
        requires
            i == x * new_y + y,
            0 <= x < new_x,
            0 <= y < new_y,
    ;
    lemma_sampled_pixel(img, config, x, y);
    lemma_instance_accepts(img, config, altered, i);
    assert(verifier.constraints[0] == selection_constraint(config.p as nat, 0, 0));
    assert(!constraint_holds(
        verifier.constraints[0],
        column(public_input_vector(altered), i),
        values(prover.instances[i].witness),
    ));
}

/// The public inputs of the sampled thumbnail with their two groups in the
/// other order are not accepted, where in some block the selected pixel
/// does not encode the constant one.
pub proof fn lemma_swapped_groups_rejected(img: GridView, config: Config, bx: int, by: int)
    requires
        config.wf(),
        0 <= bx < blocks_x(img, config),
        0 <= by < blocks_y(img, config),
        block_pixel(img, config.n as int, bx, by, config.p as int) != (Pixel {
            r: 1,
            g: 0,
            b: 0,
            a: 0,
        }),
    ensures
        ({
            let io = public_input_vector(sampled(img, config));
            !accepted(
                proving_statement(img, config, blocks_x(img, config) * blocks_y(img, config)),
                verifying_statement(config),
                seq![io[1], io[0]],
            )
        }),
{
    let new_x = blocks_x(img, config);
    let new_y = blocks_y(img, config);
    let prover = proving_statement(img, config, new_x * new_y);
    let verifier = verifying_statement(config);
    let io = public_input_vector(sampled(img, config));
    let swapped = seq![io[1], io[0]];
    let i = bx * new_y + by;
    lemma_unflatten(bx, by, new_y);
    lemma_sampled_pixel(img, config, bx, by);
    assert(0 <= i < new_x * new_y) by (nonlinear_arith)
        requires
            i == bx * new_y + by,
            0 <= bx < new_x,
            0 <= by < new_y,
    ;
    let selected = block_pixel(img, config.n as int, bx, by, config.p as int);
    let public = column(swapped, i);
    let witness = values(prover.instances[i].witness);
    let w = encoded(selected);
    lemma_encoded_value(selected);
    lemma_encoded_value(Pixel { r: 1, g: 0, b: 0, a: 0 });
    lemma_encoding_injective(selected, Pixel { r: 1, g: 0, b: 0, a: 0 });
    lemma_selection_holds(config.p as nat, 0, 0, public, witness);
    assert(witness[config.p as int] == w);
    assert(public[0] == w);
    assert(public[1] == 1);
    assert(w * w != 1 && w * w < 0x1_0000_0000_0000_0000) by (nonlinear_arith)
        requires
            0 <= w < 0x1_0000_0000,
            w != 1,
    ;
    assert(verifier.constraints[0] == selection_constraint(config.p as nat, 0, 0));
    assert(!constraint_holds(verifier.constraints[0], public, witness));
}

/// A thumbnail sampled at one position is not accepted with the statement
/// of another position, where in some block the pixels at the two
/// positions differ.
pub proof fn lemma_other_position_rejected(
    img: GridView,
    proved: Config,
    shown: Config,
    bx: int,
    by: int,
)
    requires
        proved.wf(),
        shown.wf(),
        proved.n == shown.n,
        0 <= bx < blocks_x(img, proved),
        0 <= by < blocks_y(img, proved),
        block_pixel(img, proved.n as int, bx, by, proved.p as int) != block_pixel(
            img,
            proved.n as int,
            bx,
            by,
            shown.p as int,
        ),
    ensures
        !accepted(
            proving_statement(img, proved, blocks_x(img, proved) * blocks_y(img, proved)),
            verifying_statement(proved),
            public_input_vector(sampled(img, shown)),
        ),
{
    lemma_sampled_pixel(img, proved, bx, by);
    lemma_sampled_pixel(img, shown, bx, by);
    lemma_altered_thumbnail_rejected(img, proved, sampled(img, shown), bx, by);
}

/// The public inputs that are derived from the sampled thumbnail are the
/// public values of the prover's statement, group by group and instance by
/// instance.
pub proof fn lemma_public_inputs_match(img: GridView, config: Config)
    requires
        config.wf(),
        blocks_x(img, config) * blocks_y(img, config) > 0,
    ensures
        public_groups(
            proving_statement(img, config, blocks_x(img, config) * blocks_y(img, config)),
        ) == public_input_vector(sampled(img, config)),
{
    let new_x = blocks_x(img, config);
    let new_y = blocks_y(img, config);
    let prover = proving_statement(img, config, new_x * new_y);
    let got = public_groups(prover);
    let wanted = public_input_vector(sampled(img, config));
    assert(got[0] =~= wanted[0]);
    assert forall|i: int| 0 <= i < new_x * new_y implies got[1][i] == wanted[1][i] by {
        lemma_instance_block(img, config, i);
        lemma_sampled_pixel(img, config, i / new_y, i % new_y);
    }
    assert(got[1] =~= wanted[1]);
    assert(got =~= wanted);
}

/// Where an image has a block, the prover's and the verifier's statement
/// have the same structure: the same constraints, and in the first
/// instance the same numbers of public and of witness variables.
pub proof fn lemma_same_structure(img: GridView, config: Config)
    requires
        config.wf(),
        blocks_x(img, config) * blocks_y(img, config) > 0,
    ensures
        ({
            let prover = proving_statement(
                img,
                config,
                blocks_x(img, config) * blocks_y(img, config),
            );
            let verifier = verifying_statement(config);
            &&& prover.constraints == verifier.constraints
            &&& prover.public_count(0) == verifier.public_count(0)
            &&& prover.witness_count(0) == verifier.witness_count(0)
        }),
{
}

/// With ratio one every pixel is a block of its own: the thumbnail is the
/// image, and every instance has one witness value, that of its output.
pub proof fn lemma_ratio_one(img: GridView, config: Config)
    requires
        img.wf(),
        config.wf(),
        config.n == 1,
    ensures
        sampled(img, config) == img,
        forall|bx: int, by: int|
            #![trigger block_instance(img, config, bx, by)]
            block_instance(img, config, bx, by).inps == seq![
                block_instance(img, config, bx, by).out,
            ],
{
    let thumb = sampled(img, config);
    let w = img.width as int;
    assert forall|i: int| 0 <= i < thumb.pixels.len() implies thumb.pixels[i] == img.pixels[i] by {
        assert(w > 0) by (nonlinear_arith)
            requires
                0 <= i < w * img.height,
                w >= 0,
        ;
        lemma_fundamental_div_mod(i, w);
        assert((i / w) * w == w * (i / w)) by (nonlinear_arith);
    }
    assert(thumb.pixels =~= img.pixels);
    assert forall|bx: int, by: int|
        #![trigger block_instance(img, config, bx, by)]
        block_instance(img, config, bx, by).inps == seq![
            block_instance(img, config, bx, by).out,
        ] by {
        assert(block_instance(img, config, bx, by).inps =~= seq![
            block_instance(img, config, bx, by).out,
        ]);
    }
}

/// The number of instances is the number of blocks.
pub proof fn lemma_instance_count(img: GridView, config: Config)
    requires
        config.wf(),
    ensures
        proving_statement(
            img,
            config,
            blocks_x(img, config) * blocks_y(img, config),
        ).instances.len() == blocks_x(img, config) * blocks_y(img, config),
{
    lemma_blocks_counted(img, config);
}

} // verus!
