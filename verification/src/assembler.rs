//! Builds the statements of a whole image: one instance of the block
//! circuit for every block, in a fixed order.
//!
//! Blocks are walked column by column: the block in column `bx` and row `by`
//! of the block grid is instance `bx * new_y + by`. Inside a block, position
//! `k` is the pixel `k / n` columns and `k % n` rows from the block's first
//! pixel.

use crate::circuit::selection_constraint;
use crate::circuit::synthesized;
use crate::circuit::Thumbnail;
use crate::circuit::ThumbnailView;
use crate::config::Config;
use crate::encoder::encode_pixel;
use crate::encoder::encoded;
use crate::error::Error;
use crate::field::FieldElement;
use crate::pixels::grid_dimensions;
use crate::pixels::grid_get_pixel;
use crate::pixels::grid_new;
use crate::pixels::grid_put_pixel;
use crate::pixels::GridView;
use crate::pixels::Pixel;
use crate::pixels::PixelGrid;
use crate::r1cs::slot_view;
use crate::r1cs::BatchedStatement;
use crate::r1cs::Capability;
use crate::r1cs::InstanceView;
use crate::r1cs::StatementView;
use vstd::arithmetic::div_mod::lemma_fundamental_div_mod;
use vstd::arithmetic::div_mod::lemma_fundamental_div_mod_converse;
use vstd::prelude::*;

verus! {

/// The pixel at position `k` of the block in column `bx` and row `by`.
pub open spec fn block_pixel(img: GridView, n: int, bx: int, by: int, k: int) -> Pixel {
    img.pixel(bx * n + k / n, by * n + k % n)
}

/// The block in column `bx` and row `by` together with the pixel that the
/// thumbnail shows for it: the one at the selected position.
pub open spec fn block_instance(img: GridView, config: Config, bx: int, by: int) -> ThumbnailView {
    let n = config.n as int;
    ThumbnailView {
        inps: Seq::new((n * n) as nat, |k: int| Some(encoded(block_pixel(img, n, bx, by, k)))),
        out: Some(encoded(block_pixel(img, n, bx, by, config.p as int))),
        p: config.p as nat,
    }
}

/// Division undoes the flattening of a pair.
pub proof fn lemma_unflatten(q: int, r: int, d: int)
    requires
        0 <= r < d,
    ensures
        (q * d + r) / d == q,
        (q * d + r) % d == r,
{
    lemma_fundamental_div_mod_converse(q * d + r, d, q, r);
}

/// Reads the block in column `m_x` and row `m_y` of the block grid and
/// encodes its pixels. The second part of the answer is the pixel at the
/// selected position, as it stands in the image.
pub fn gather_block(image: &PixelGrid, config: &Config, m_x: u32, m_y: u32) -> (r: Result<
    (Thumbnail, Pixel),
    Error,
>)
    requires
        config.wf(),
        (m_x + 1) * config.n <= image@.width,
        (m_y + 1) * config.n <= image@.height,
    ensures
        r is Ok,
        r->Ok_0.0@ == block_instance(image@, *config, m_x as int, m_y as int),
        r->Ok_0.1 == block_pixel(image@, config.n as int, m_x as int, m_y as int, config.p as int),
{
    let n: u32 = config.n;
    let (width, height) = grid_dimensions(image);
    assert(n * n <= 0xffff_ffff * 0xffff_ffff) by (nonlinear_arith)
        requires
            n <= 0xffff_ffff,
    ;
    let size: u64 = (n as u64) * (n as u64);
    assert(m_x * n + n == (m_x + 1) * n) by (nonlinear_arith);
    assert(m_y * n + n == (m_y + 1) * n) by (nonlinear_arith);
    let x0: u32 = m_x * n;
    let y0: u32 = m_y * n;
    let mut tmp_pixels: Vec<Option<FieldElement>> = Vec::new();
    let mut selected: Pixel = Pixel { r: 0, g: 0, b: 0, a: 0 };
    let mut k: u64 = 0;
    while k < size
        invariant
            k <= size == n * n,
            n == config.n,
            n >= 1,
            config.p < size,
            x0 == m_x * n,
            y0 == m_y * n,
            x0 + n <= width == image@.width,
            y0 + n <= height == image@.height,
            tmp_pixels@.len() == k,
            forall|t: int|
                0 <= t < k ==> slot_view(#[trigger] tmp_pixels@[t]) == Some(
                    encoded(block_pixel(image@, n as int, m_x as int, m_y as int, t)),
                ),
            k > config.p ==> selected == block_pixel(
                image@,
                n as int,
                m_x as int,
                m_y as int,
                config.p as int,
            ),
        decreases size - k,
    {
        let i: u64 = k / (n as u64);
        let j: u64 = k % (n as u64);
        assert(i < n) by (nonlinear_arith)
            requires
                i == k / (n as u64),
                k < n * n,
                n >= 1,
        ;
        let pixel: Pixel = grid_get_pixel(image, x0 + i as u32, y0 + j as u32);
        let fr = match encode_pixel(&pixel) {
            Ok(fr) => fr,
            Err(e) => {
                return Err(e);
            },
        };
        if k == config.p as u64 {
            selected = pixel;
        }
        tmp_pixels.push(Some(fr));
        k = k + 1;
    }
    let tmp_out: Option<FieldElement> = tmp_pixels[config.p as usize];
    let block = Thumbnail { inps: tmp_pixels, out: tmp_out, p: config.p };
    proof {
        let wanted = block_instance(image@, *config, m_x as int, m_y as int);
        assert forall|t: int| 0 <= t < wanted.inps.len() implies block@.inps[t]
            == wanted.inps[t] by {
            assert(slot_view(block.inps@[t]) == wanted.inps[t]);
        }
        assert(block@.inps =~= wanted.inps);
        assert(slot_view(block.inps@[config.p as int]) == wanted.out);
    }
    Ok((block, selected))
}

/// The values of the instance of a block: the constant one and the output
/// are public, the inputs are the witness.
pub open spec fn instance_of(block: ThumbnailView) -> InstanceView {
    InstanceView { public: seq![Some(1nat), block.out], witness: block.inps }
}

/// The number of blocks in a row of the block grid.
pub open spec fn blocks_x(img: GridView, config: Config) -> int {
    img.width as int / config.n as int
}

/// The number of blocks in a column of the block grid.
pub open spec fn blocks_y(img: GridView, config: Config) -> int {
    img.height as int / config.n as int
}

/// The prover's statement of the first `count` blocks of an image.
pub open spec fn proving_statement(img: GridView, config: Config, count: int) -> StatementView {
    let new_y = blocks_y(img, config);
    StatementView {
        capability: Capability::WithWitness,
        constraints: if count > 0 {
            seq![selection_constraint(config.p as nat, 0, 0)]
        } else {
            Seq::empty()
        },
        instances: Seq::new(
            count as nat,
            |k: int| instance_of(block_instance(img, config, k / new_y, k % new_y)),
        ),
    }
}

/// The thumbnail of an image: for every block the pixel at the selected
/// position, and nothing of the columns and rows that fill no block.
pub open spec fn sampled(img: GridView, config: Config) -> GridView {
    let new_x = blocks_x(img, config);
    let new_y = blocks_y(img, config);
    GridView {
        width: new_x as nat,
        height: new_y as nat,
        pixels: Seq::new(
            (new_x * new_y) as nat,
            |i: int| block_pixel(img, config.n as int, i % new_x, i / new_x, config.p as int),
        ),
    }
}

/// Laying down the circuit of block `k` turns the statement of the first
/// `k` blocks into that of the first `k + 1`.
proof fn lemma_next_instance(img: GridView, config: Config, k: int)
    requires
        0 <= k,
    ensures
        synthesized(
            proving_statement(img, config, k),
            block_instance(img, config, k / blocks_y(img, config), k % blocks_y(img, config)),
            k,
        ) == proving_statement(img, config, k + 1),
{
    let new_y = blocks_y(img, config);
    let s = proving_statement(img, config, k);
    let block = block_instance(img, config, k / new_y, k % new_y);
    let got = synthesized(s, block, k);
    let wanted = proving_statement(img, config, k + 1);
    assert(s.kept_all(block.inps) =~= block.inps);
    assert(got.instances[k].public =~= wanted.instances[k].public);
    assert(got.instances[k].witness =~= wanted.instances[k].witness);
    assert(got.instances =~= wanted.instances);
    assert(got.constraints =~= wanted.constraints);
}

/// The places of the thumbnail that the first `count` blocks fill hold the
/// sampled pixels.
spec fn filled(out: GridView, img: GridView, config: Config, count: int) -> bool {
    let new_x = blocks_x(img, config);
    let new_y = blocks_y(img, config);
    &&& out.width == new_x
    &&& out.height == new_y
    &&& out.pixels.len() == new_x * new_y
    &&& forall|i: int|
        0 <= i < new_x * new_y && (i % new_x) * new_y + i / new_x < count ==> #[trigger] out.pixels[i]
            == sampled(img, config).pixels[i]
}

/// Writing the pixel of block `(m_x, m_y)` fills one more place.
proof fn lemma_fill_next(
    before: GridView,
    after: GridView,
    img: GridView,
    config: Config,
    m_x: int,
    m_y: int,
    pixel: Pixel,
)
    requires
        config.n >= 1,
        0 <= m_x < blocks_x(img, config),
        0 <= m_y < blocks_y(img, config),
        filled(before, img, config, m_x * blocks_y(img, config) + m_y),
        pixel == block_pixel(img, config.n as int, m_x, m_y, config.p as int),
        after == (GridView {
            pixels: before.pixels.update(m_y * before.width + m_x, pixel),
            ..before
        }),
    ensures
        filled(after, img, config, m_x * blocks_y(img, config) + m_y + 1),
{
    let new_x = blocks_x(img, config);
    let new_y = blocks_y(img, config);
    let i0 = m_y * new_x + m_x;
    lemma_unflatten(m_y, m_x, new_x);
    assert(0 <= i0 < new_x * new_y) by (nonlinear_arith)
        requires
            i0 == m_y * new_x + m_x,
            0 <= m_x < new_x,
            0 <= m_y < new_y,
    ;
    assert forall|i: int|
        0 <= i < new_x * new_y && (i % new_x) * new_y + i / new_x < m_x * new_y + m_y
            + 1 implies #[trigger] after.pixels[i] == sampled(img, config).pixels[i] by {
        let order = (i % new_x) * new_y + i / new_x;
        if order == m_x * new_y + m_y {
            assert(i / new_x < new_y) by (nonlinear_arith)
                requires
                    0 <= i < new_x * new_y,
                    new_x > 0,
            ;
            lemma_unflatten(i % new_x, i / new_x, new_y);
            lemma_unflatten(m_x, m_y, new_y);
            lemma_fundamental_div_mod(i, new_x);
            assert(i == i0) by (nonlinear_arith)
                requires
                    i == new_x * (i / new_x) + i % new_x,
                    i / new_x == m_y,
                    i % new_x == m_x,
                    i0 == m_y * new_x + m_x,
            ;
        } else {
            assert(before.pixels[i] == sampled(img, config).pixels[i]);
        }
    }
}

/// Once every block is written, the thumbnail is the sampled image.
proof fn lemma_fill_done(out: GridView, img: GridView, config: Config)
    requires
        config.n >= 1,
        filled(out, img, config, blocks_x(img, config) * blocks_y(img, config)),
    ensures
        out == sampled(img, config),
{
    let new_x = blocks_x(img, config);
    let new_y = blocks_y(img, config);
    assert forall|i: int| 0 <= i < new_x * new_y implies out.pixels[i] == sampled(
        img,
        config,
    ).pixels[i] by {
        assert(new_x > 0 && i / new_x < new_y) by (nonlinear_arith)
            requires
                0 <= i < new_x * new_y,
                0 <= new_x,
                0 <= new_y,
        ;
        let bx = i % new_x;
        let by = i / new_x;
        assert(bx * new_y + by < new_x * new_y) by (nonlinear_arith)
            requires
                0 <= bx < new_x,
                0 <= by < new_y,
        ;
    }
    assert(out.pixels =~= sampled(img, config).pixels);
}

/// Builds the prover's statement of an image and, with it, the thumbnail:
/// every block is read, its circuit is laid down as the next instance, and
/// its selected pixel is written to the thumbnail.
pub fn build_prover_statement(image: &PixelGrid, config: &Config) -> (r: Result<
    (BatchedStatement, PixelGrid),
    Error,
>)
    requires
        config.wf(),
    ensures
        r is Ok,
        r->Ok_0.0@ == proving_statement(
            image@,
            *config,
            blocks_x(image@, *config) * blocks_y(image@, *config),
        ),
        r->Ok_0.1@ == sampled(image@, *config),
{
    let n: u32 = config.n;
    let (width, height) = grid_dimensions(image);
    let new_x: u32 = width / n;
    let new_y: u32 = height / n;
    proof {
        assert(new_x * new_y <= width * height) by (nonlinear_arith)
            requires
                0 <= new_x <= width,
                0 <= new_y <= height,
        ;
    }
    let mut out_file: PixelGrid = grid_new(new_x, new_y);
    let mut prover_pa = BatchedStatement::new(Capability::WithWitness);
    let mut index: usize = 0;
    let mut m_x: u32 = 0;
    proof {
        assert(prover_pa@.instances =~= proving_statement(image@, *config, 0).instances);
        assert(0 * new_y == 0) by (nonlinear_arith);
    }
    while m_x < new_x
        invariant
            config.wf(),
            n == config.n,
            width == image@.width,
            height == image@.height,
            new_x == blocks_x(image@, *config),
            new_y == blocks_y(image@, *config),
            4 * (new_x * new_y) <= isize::MAX,
            m_x <= new_x,
            index == m_x * new_y,
            prover_pa@ == proving_statement(image@, *config, index as int),
            filled(out_file@, image@, *config, index as int),
        decreases new_x - m_x,
    {
        let mut m_y: u32 = 0;
        while m_y < new_y
            invariant
                config.wf(),
                n == config.n,
                width == image@.width,
                height == image@.height,
                new_x == blocks_x(image@, *config),
                new_y == blocks_y(image@, *config),
                4 * (new_x * new_y) <= isize::MAX,
                m_x < new_x,
                m_y <= new_y,
                index == m_x * new_y + m_y,
                prover_pa@ == proving_statement(image@, *config, index as int),
                filled(out_file@, image@, *config, index as int),
            decreases new_y - m_y,
        {
            proof {
                assert((m_x + 1) * n <= width) by (nonlinear_arith)
                    requires
                        m_x < new_x,
                        new_x == width as int / n as int,
                        n >= 1,
                ;
                assert((m_y + 1) * n <= height) by (nonlinear_arith)
                    requires
                        m_y < new_y,
                        new_y == height as int / n as int,
                        n >= 1,
                ;
                assert(m_x * new_y + m_y < new_x * new_y) by (nonlinear_arith)
                    requires
                        0 <= m_x < new_x,
                        0 <= m_y < new_y,
                ;
                lemma_unflatten(m_x as int, m_y as int, new_y as int);
                lemma_next_instance(image@, *config, index as int);
            }
            let (c, pixel) = match gather_block(image, config, m_x, m_y) {
                Ok(pair) => pair,
                Err(e) => {
                    return Err(e);
                },
            };
            let ghost before = out_file@;
            grid_put_pixel(&mut out_file, m_x, m_y, pixel);
            proof {
                lemma_fill_next(before, out_file@, image@, *config, m_x as int, m_y as int, pixel);
            }
            match c.generate_constraints(&mut prover_pa, index) {
                Ok(()) => {},
                Err(e) => {
                    return Err(e);
                },
            }
            index = index + 1;
            m_y = m_y + 1;
        }
        proof {
            assert((m_x + 1) * new_y == m_x * new_y + new_y) by (nonlinear_arith);
        }
        m_x = m_x + 1;
    }
    proof {
        assert(index == new_x * new_y) by (nonlinear_arith)
            requires
                index == m_x * new_y,
                m_x == new_x,
        ;
        lemma_fill_done(out_file@, image@, *config);
    }
    Ok((prover_pa, out_file))
}

/// The verifier's statement: the structure of one block, registered as
/// instance 0, with no value in any place.
pub open spec fn verifying_statement(config: Config) -> StatementView {
    StatementView {
        capability: Capability::StructureOnly,
        constraints: seq![selection_constraint(config.p as nat, 0, 0)],
        instances: seq![
            InstanceView {
                public: seq![None, None],
                witness: Seq::new((config.n * config.n) as nat, |k: int| None),
            },
        ],
    }
}

/// Builds the verifier's statement: the circuit of one block without
/// values, laid down once.
pub fn build_verifier_statement(config: &Config) -> (r: Result<BatchedStatement, Error>)
    requires
        config.wf(),
    ensures
        r is Ok,
        r->Ok_0@ == verifying_statement(*config),
{
    let n: u32 = config.n;
    assert(n * n <= 0xffff_ffff * 0xffff_ffff) by (nonlinear_arith)
        requires
            n <= 0xffff_ffff,
    ;
    let size: u64 = (n as u64) * (n as u64);
    let mut inps: Vec<Option<FieldElement>> = Vec::new();
    let mut k: u64 = 0;
    while k < size
        invariant
            k <= size,
            inps@.len() == k,
            forall|t: int| 0 <= t < k ==> (#[trigger] inps@[t]) is None,
        decreases size - k,
    {
        inps.push(None);
        k = k + 1;
    }
    let verify_c = Thumbnail { inps, out: None, p: config.p };
    let mut verifier_pa = BatchedStatement::new(Capability::StructureOnly);
    let ghost start = verifier_pa@;
    let ghost block = verify_c@;
    match verify_c.generate_constraints(&mut verifier_pa, 0) {
        Ok(()) => {},
        Err(e) => {
            return Err(e);
        },
    }
    proof {
        let got = synthesized(start, block, 0);
        let wanted = verifying_statement(*config);
        assert(start.kept_all(block.inps) =~= wanted.instances[0].witness);
        assert(got.instances[0].public =~= wanted.instances[0].public);
        assert(got.instances[0].witness =~= wanted.instances[0].witness);
        assert(got.instances =~= wanted.instances);
        assert(got.constraints =~= wanted.constraints);
    }
    Ok(verifier_pa)
}

/// The public inputs that go with a thumbnail: one group for each public
/// variable, each with one entry for each block, in the order of the
/// instances. The first group repeats the constant one, the second holds
/// the encoded pixels.
pub open spec fn public_input_vector(thumb: GridView) -> Seq<Seq<nat>> {
    let count = thumb.width * thumb.height;
    seq![
        Seq::new(count, |k: int| 1nat),
        Seq::new(
            count,
            |k: int| encoded(thumb.pixel(k / thumb.height as int, k % thumb.height as int)),
        ),
    ]
}

/// The groups of a public input vector as numbers.
pub open spec fn groups_view(groups: Seq<Vec<FieldElement>>) -> Seq<Seq<nat>> {
    groups.map_values(|g: Vec<FieldElement>| g@.map_values(|e: FieldElement| e@))
}

/// Derives the public inputs from a thumbnail by encoding its pixels anew.
pub fn public_inputs(thumbnail: &PixelGrid) -> (r: Result<Vec<Vec<FieldElement>>, Error>)
    ensures
        r is Ok,
        groups_view(r->Ok_0@) == public_input_vector(thumbnail@),
{
    let (new_x, new_y) = grid_dimensions(thumbnail);
    let mut output_fr: Vec<FieldElement> = Vec::new();
    let mut one: Vec<FieldElement> = Vec::new();
    let ghost wanted = public_input_vector(thumbnail@);
    let mut m_x: u32 = 0;
    proof {
        assert(0 * new_y == 0) by (nonlinear_arith);
    }
    while m_x < new_x
        invariant
            new_x == thumbnail@.width,
            new_y == thumbnail@.height,
            wanted == public_input_vector(thumbnail@),
            m_x <= new_x,
            output_fr@.len() == m_x * new_y,
            one@.len() == m_x * new_y,
            forall|k: int| 0 <= k < one@.len() ==> (#[trigger] one@[k])@ == 1,
            forall|k: int| 0 <= k < output_fr@.len() ==> (#[trigger] output_fr@[k])@ == wanted[1][k],
        decreases new_x - m_x,
    {
        let mut m_y: u32 = 0;
        while m_y < new_y
            invariant
                new_x == thumbnail@.width,
                new_y == thumbnail@.height,
                wanted == public_input_vector(thumbnail@),
                m_x < new_x,
                m_y <= new_y,
                output_fr@.len() == m_x * new_y + m_y,
                one@.len() == m_x * new_y + m_y,
                forall|k: int| 0 <= k < one@.len() ==> (#[trigger] one@[k])@ == 1,
                forall|k: int|
                    0 <= k < output_fr@.len() ==> (#[trigger] output_fr@[k])@ == wanted[1][k],
            decreases new_y - m_y,
        {
            proof {
                lemma_unflatten(m_x as int, m_y as int, new_y as int);
                assert(m_x * new_y + m_y < new_x * new_y) by (nonlinear_arith)
                    requires
                        0 <= m_x < new_x,
                        0 <= m_y < new_y,
                ;
            }
            let pixel: Pixel = grid_get_pixel(thumbnail, m_x, m_y);
            let fr = match encode_pixel(&pixel) {
                Ok(fr) => fr,
                Err(e) => {
                    return Err(e);
                },
            };
            output_fr.push(fr);
            one.push(FieldElement::one());
            m_y = m_y + 1;
        }
        proof {
            assert((m_x + 1) * new_y == m_x * new_y + new_y) by (nonlinear_arith);
        }
        m_x = m_x + 1;
    }
    let mut io: Vec<Vec<FieldElement>> = Vec::new();
    io.push(one);
    io.push(output_fr);
    proof {
        assert(m_x * new_y == new_x * new_y) by (nonlinear_arith)
            requires
                m_x == new_x,
        ;
        let got = groups_view(io@);
        assert(got[0] =~= wanted[0]);
        assert(got[1] =~= wanted[1]);
        assert(got =~= wanted);
    }
    Ok(io)
}

} // verus!
