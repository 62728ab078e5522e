//! The downsampling ratio, the selected position, and the measures that
//! follow from them for an image.

use crate::error::Error;
use vstd::prelude::*;

verus! {

/// The choices of one run: every block is `n` pixels wide and high, and the
/// thumbnail shows the pixel at position `p` of the flattened block.
#[derive(Clone, Copy, Debug, PartialEq, Eq, Structural)]
pub struct Config {
    pub n: u32,
    pub p: u32,
}

impl Config {
    /// The ratio is at least one, the position lies in the block, and the
    /// pixels of one block can be counted.
    pub open spec fn wf(self) -> bool {
        &&& self.n >= 1
        &&& self.p < self.n * self.n
        &&& self.n * self.n <= usize::MAX
    }

    /// The configuration with ratio `n` and position `p`, where it is well
    /// formed.
    pub fn new(n: u32, p: u32) -> (r: Option<Config>)
        ensures
            r is Some <==> (Config { n, p }).wf(),
            r is Some ==> r->Some_0 == (Config { n, p }),
    {
        assert(n * n <= 0xffff_ffff * 0xffff_ffff) by (nonlinear_arith)
            requires
                n <= 0xffff_ffff,
        ;
        let square: u64 = (n as u64) * (n as u64);
        if n >= 1 && (p as u64) < square && square as u128 <= usize::MAX as u128 {
            Some(Config { n, p })
        } else {
            None
        }
    }
}

/// The degree that the setup is made for: the least power of two that is
/// not below the number `m` of instances.
pub open spec fn setup_degree_of(m: nat) -> nat
    decreases m,
{
    if m <= 1 {
        1
    } else {
        2 * setup_degree_of(((m + 1) / 2) as nat)
    }
}

/// Whether `d` is a power of two.
pub open spec fn is_power_of_two(d: nat) -> bool
    decreases d,
{
    d == 1 || (d >= 2 && d % 2 == 0 && is_power_of_two(d / 2))
}

/// The setup degree of `m` is a power of two, it is not below `m`, and
/// its half is.
pub proof fn lemma_setup_degree_is_least(m: nat)
    ensures
        is_power_of_two(setup_degree_of(m)),
        setup_degree_of(m) >= m,
        setup_degree_of(m) == 1 || setup_degree_of(m) / 2 < m,
    decreases m,
{
    if m > 1 {
        lemma_setup_degree_is_least(((m + 1) / 2) as nat);
    }
}

/// A power of two that is not below `m`, and whose half is, is the setup
/// degree of `m`.
proof fn lemma_setup_degree_found(d: nat, m: nat)
    requires
        is_power_of_two(d),
        d >= m,
        d == 1 || d / 2 < m,
    ensures
        d == setup_degree_of(m),
    decreases d,
{
    if m > 1 {
        lemma_setup_degree_found(d / 2, ((m + 1) / 2) as nat);
    }
}

/// The measures of a run.
#[derive(Clone, Copy, Debug, PartialEq, Eq, Structural)]
pub struct Geometry {
    /// The number of blocks in a row: the width of the thumbnail.
    pub new_x: u32,
    /// The number of blocks in a column: the height of the thumbnail.
    pub new_y: u32,
    /// The number of blocks, and so of instances.
    pub block_count: u64,
    /// The degree that the setup is made for.
    pub degree: usize,
}

/// The measures of an image of the given width and height under `config`,
/// where the setup degree fits in `usize`. Columns and rows that do not
/// fill a block are left out.
pub open spec fn geometry_of(width: nat, height: nat, config: Config) -> Option<Geometry> {
    let new_x = width / (config.n as nat);
    let new_y = height / (config.n as nat);
    if setup_degree_of(new_x * new_y) <= usize::MAX {
        Some(
            Geometry {
                new_x: new_x as u32,
                new_y: new_y as u32,
                block_count: (new_x * new_y) as u64,
                degree: setup_degree_of(new_x * new_y) as usize,
            },
        )
    } else {
        None
    }
}

impl Geometry {
    /// The measures of an image of the given width and height. The setup
    /// cannot be made where its degree does not fit in `usize`.
    pub fn new(width: u32, height: u32, config: &Config) -> (r: Result<Geometry, Error>)
        requires
            config.wf(),
        ensures
            r == match geometry_of(width as nat, height as nat, *config) {
                Some(g) => Ok::<Geometry, Error>(g),
                None => Err::<Geometry, Error>(Error::SetupError),
            },
            r is Ok ==> r->Ok_0.block_count == r->Ok_0.new_x * r->Ok_0.new_y,
    {
        let new_x: u32 = width / config.n;
        let new_y: u32 = height / config.n;
        assert(new_x * new_y <= 0xffff_ffff * 0xffff_ffff) by (nonlinear_arith)
            requires
                new_x <= 0xffff_ffff,
                new_y <= 0xffff_ffff,
        ;
        let block_count: u64 = (new_x as u64) * (new_y as u64);
        match setup_degree(block_count) {
            Some(degree) => Ok(Geometry { new_x, new_y, block_count, degree }),
            None => Err(Error::SetupError),
        }
    }
}

/// The setup degree of `m` instances, where it fits in `usize`.
pub fn setup_degree(m: u64) -> (r: Option<usize>)
    ensures
        r == if setup_degree_of(m as nat) <= usize::MAX {
            Some(setup_degree_of(m as nat) as usize)
        } else {
            None
        },
{
    let mut d: usize = 1;
    while (d as u64) < m
        invariant
            d >= 1,
            is_power_of_two(d as nat),
            d == 1 || d / 2 < m,
        decreases usize::MAX - d,
    {
        if d > usize::MAX / 2 {
            proof {
                let e = setup_degree_of(m as nat);
                lemma_setup_degree_is_least(m as nat);
                if e <= usize::MAX {
                    lemma_power_of_two_gap(d as nat, e);
                }
            }
            return None;
        }
        d = d * 2;
    }
    proof {
        lemma_setup_degree_found(d as nat, m as nat);
    }
    Some(d)
}

/// A power of two above another is at least its double.
proof fn lemma_power_of_two_gap(d: nat, e: nat)
    requires
        is_power_of_two(d),
        is_power_of_two(e),
        d < e,
    ensures
        2 * d <= e,
    decreases e,
{
    if d == 1 {
    } else {
        lemma_power_of_two_gap(d / 2, e / 2);
    }
}

} // verus!
