//! The lattice behind gradient noise: which random vector sits at which
//! lattice point.
//!
//! Space is cut into unit cells. Every corner of a cell carries one of 256
//! random unit vectors, picked through index tables from the corner's
//! integer coordinates. Blending the eight vectors of a cell into a noise
//! value is the caller's arithmetic.

use crate::vec3::Vec3;
use vstd::prelude::*;

verus! {

/// How many random vectors the lattice draws on, and how long each index
/// table is.
pub const POINT_COUNT: usize = 256;

/// The random vectors and the three index tables.
#[derive(Clone, Copy, Debug, PartialEq, Eq)]
pub struct Perlin {
    pub ranvec: [Vec3; 256],
    pub perm_x: [i32; 256],
    pub perm_y: [i32; 256],
    pub perm_z: [i32; 256],
}

/// Whether a table maps every index to itself.
pub open spec fn is_identity_table(table: Seq<i32>) -> bool {
    table.len() == 256 && forall|i: int| 0 <= i < 256 ==> #[trigger] table[i] == i
}

/// Whether every entry of a table is an index into a table.
pub open spec fn holds_indices(table: Seq<i32>) -> bool {
    table.len() == 256 && forall|i: int| 0 <= i < 256 ==> 0 <= #[trigger] table[i] < 256
}

/// The place in the tables of a lattice coordinate: the coordinate reduced
/// modulo the table length.
pub open spec fn cell(coordinate: int) -> int {
    coordinate % 256
}

/// The bitwise exclusive or of three table entries.
pub open spec fn mix(a: i32, b: i32, c: i32) -> usize {
    (a as usize) ^ (b as usize) ^ (c as usize)
}

/// `array_init::array_init` for a table of 256 integers: the table whose
/// entry at every index is what `initializer` returned for that index.
#[verifier::external_body]
fn array_init_table<F: Fn(usize) -> i32>(initializer: F) -> (r: [i32; 256])
    requires
        forall|i: usize| i < 256 ==> initializer.requires((i,)),
    ensures
        forall|i: usize| i < 256 ==> initializer.ensures((i,), #[trigger] r@[i as int]),
{
    array_init::array_init(initializer)
}

/// The table entry for one lattice coordinate.
fn lookup(table: &[i32; 256], coordinate: i32, step: i32) -> (r: i32)
    requires
        0 <= step <= 1,
    ensures
        r == table@[cell(coordinate + step)],
{
    let shifted: i64 = coordinate as i64 + step as i64 + 2147483648;
    let place: i64 = shifted % 256;
    assert(place == cell(coordinate + step)) by {
        assert(2147483648int == 256 * 8388608);
    }
    table[place as usize]
}

/// Whether every entry of a table is an index into a table.
fn table_holds_indices(table: &[i32; 256]) -> (r: bool)
    ensures
        r == holds_indices(table@),
{
    let mut i: usize = 0;
    while i < 256
        invariant
            i <= 256,
            forall|j: int| 0 <= j < i ==> 0 <= #[trigger] table@[j] < 256,
        decreases 256 - i,
    {
        if table[i] < 0 || table[i] >= 256 {
            return false;
        }
        i += 1;
    }
    true
}

impl Perlin {
    /// Whether every entry of the three tables is an index into the random
    /// vectors.
    pub fn is_well_formed(&self) -> (r: bool)
        ensures
            r == self.well_formed(),
    {
        table_holds_indices(&self.perm_x) && table_holds_indices(&self.perm_y) && table_holds_indices(
            &self.perm_z,
        )
    }

    /// Whether every entry of the three tables is an index into the random
    /// vectors.
    pub open spec fn well_formed(self) -> bool {
        holds_indices(self.perm_x@) && holds_indices(self.perm_y@) && holds_indices(self.perm_z@)
    }

    /// The index of the random vector at the lattice point `(i, j, k)`: the
    /// table entries for the three coordinates, mixed bit by bit. All three
    /// entries are read from the first table.
    pub open spec fn vector_index(self, i: int, j: int, k: int) -> usize {
        mix(self.perm_x@[cell(i)], self.perm_x@[cell(j)], self.perm_x@[cell(k)])
    }

    /// The random vector at the lattice point `(i, j, k)`.
    pub open spec fn vector_at(self, i: int, j: int, k: int) -> Vec3 {
        self.ranvec@[self.vector_index(i, j, k) as int]
    }

    /// The lattice over the given random vectors, with freshly made index
    /// tables.
    pub fn new(ranvec: [Vec3; 256]) -> (r: Perlin)
        ensures
            r.ranvec == ranvec,
            is_identity_table(r.perm_x@),
            is_identity_table(r.perm_y@),
            is_identity_table(r.perm_z@),
            r.well_formed(),
    {
        Perlin {
            ranvec,
            perm_x: Perlin::generate_perm(),
            perm_y: Perlin::generate_perm(),
            perm_z: Perlin::generate_perm(),
        }
    }

    /// The random vectors at the eight corners of the cell whose least
    /// corner is the lattice point `(i, j, k)`: entry `[di][dj][dk]` belongs
    /// to the corner `(i + di, j + dj, k + dk)`.
    pub fn corners(&self, i: i32, j: i32, k: i32) -> (c: [[[Vec3; 2]; 2]; 2])
        requires
            self.well_formed(),
        ensures
            forall|di: int, dj: int, dk: int|
                0 <= di < 2 && 0 <= dj < 2 && 0 <= dk < 2 ==> #[trigger] c@[di]@[dj]@[dk]
                    == self.vector_at(i + di, j + dj, k + dk),
    {
        [
            [
                [self.corner(i, j, k, 0, 0, 0), self.corner(i, j, k, 0, 0, 1)],
                [self.corner(i, j, k, 0, 1, 0), self.corner(i, j, k, 0, 1, 1)],
            ],
            [
                [self.corner(i, j, k, 1, 0, 0), self.corner(i, j, k, 1, 0, 1)],
                [self.corner(i, j, k, 1, 1, 0), self.corner(i, j, k, 1, 1, 1)],
            ],
        ]
    }

    /// The random vector at one corner of a cell.
    fn corner(&self, i: i32, j: i32, k: i32, di: i32, dj: i32, dk: i32) -> (r: Vec3)
        requires
            self.well_formed(),
            0 <= di <= 1,
            0 <= dj <= 1,
            0 <= dk <= 1,
        ensures
            r == self.vector_at(i + di, j + dj, k + dk),
    {
        let a: i32 = lookup(&self.perm_x, i, di);
        let b: i32 = lookup(&self.perm_x, j, dj);
        let c: i32 = lookup(&self.perm_x, k, dk);
        let ua: usize = a as usize;
        let ub: usize = b as usize;
        let uc: usize = c as usize;
        assert((ua ^ ub ^ uc) < 256) by (bit_vector)
            requires
                ua < 256,
                ub < 256,
                uc < 256,
        ;
        self.ranvec[ua ^ ub ^ uc]
    }

    /// An index table: every index mapped to itself.
    fn generate_perm() -> (perm: [i32; 256])
        ensures
            is_identity_table(perm@),
    {
        let own_index = |i: usize| -> (r: i32)
            requires
                i < 256,
            ensures
                r == i,
            { i as i32 };
        let perm = array_init_table(own_index);
        proof {
            assert forall|i: int| 0 <= i < 256 implies #[trigger] perm@[i] == i by {
                let at: usize = i as usize;
                assert(own_index.ensures((at,), perm@[at as int]));
            }
        }
        perm
    }
}

} // verus!
