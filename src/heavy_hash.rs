use vstd::prelude::*;

use crate::hasher::{heavy_digest, HeavyHasher};
use crate::uint256::{le_bytes_to_words, words_to_le_bytes, Uint256};
use crate::xoshiro::{xo_advance, xo_nth, xo_seed, XoShiRo256PlusPlus};

verus! {

/// The prime modulo which a candidate matrix must have full rank. Full rank
/// modulo a prime implies full rank over the rationals, and the test stays in
/// exact integer arithmetic.
pub const RANK_PRIME: u64 = 4294967291;

/// How many candidate matrices `Matrix::generate` draws before it gives up.
pub const MAX_MATRIX_DRAWS: u32 = 64;

/// Nibble `k` (from the least significant) of a word.
pub open spec fn nibble(w: u64, k: int) -> u16 {
    ((w >> (4 * k) as u64) & 0xfu64) as u16
}

/// The candidate matrix drawn from the stream at `g`: row `i` takes the nibbles of
/// words `4 i` to `4 i + 3`, low nibble first.
pub open spec fn drawn_matrix(g: XoShiRo256PlusPlus) -> Seq<Seq<u16>> {
    Seq::new(64, |i: int| Seq::new(64, |j: int| nibble(xo_nth(g, (4 * i + j / 16) as nat), j % 16)))
}

/// `a x - b y` modulo the rank prime, for residues.
pub open spec fn comb(a: u64, x: u64, b: u64, y: u64) -> u64 {
    (((a * x) % (RANK_PRIME as int) + RANK_PRIME - (b * y) % (RANK_PRIME as int)) % (
    RANK_PRIME as int)) as u64
}

/// The first row from `j` on that is not yet a pivot and is non-zero in column `col`;
/// 64 where there is none.
pub open spec fn find_pivot(m: Seq<Seq<u64>>, sel: Seq<bool>, col: int, j: int) -> int
    decreases 64 - j,
{
    if j >= 64 {
        64
    } else if !sel[j] && m[j][col] != 0 {
        j
    } else {
        find_pivot(m, sel, col, j + 1)
    }
}

/// Clears column `col` of every row but the pivot row, by subtracting a multiple of
/// the pivot row from a multiple of each row.
pub open spec fn eliminate(m: Seq<Seq<u64>>, piv: int, col: int) -> Seq<Seq<u64>> {
    Seq::new(
        64,
        |k: int|
            if k == piv || m[k][col] == 0 {
                m[k]
            } else {
                Seq::new(64, |c: int| comb(m[piv][col], m[k][c], m[k][col], m[piv][c]))
            },
    )
}

/// The number of pivots found from column `col` on.
pub open spec fn rank_from(m: Seq<Seq<u64>>, sel: Seq<bool>, col: int) -> nat
    decreases 64 - col,
{
    if col >= 64 {
        0
    } else {
        let piv = find_pivot(m, sel, col, 0);
        if piv < 64 {
            1 + rank_from(eliminate(m, piv, col), sel.update(piv, true), col + 1)
        } else {
            rank_from(m, sel, col + 1)
        }
    }
}

/// The cells of a matrix as residues.
pub open spec fn residues(m: Seq<Seq<u16>>) -> Seq<Seq<u64>> {
    Seq::new(64, |i: int| Seq::new(64, |j: int| m[i][j] as u64))
}

/// The rank of a 64 by 64 matrix over the integers modulo the rank prime.
pub open spec fn rank_mod_prime(m: Seq<Seq<u16>>) -> nat {
    rank_from(residues(m), Seq::new(64, |i: int| false), 0)
}

/// The matrix that generation settles on from the stream at `g` within `tries`
/// candidates: the first candidate of full rank, each drawn after the last.
pub open spec fn generated_from(g: XoShiRo256PlusPlus, tries: nat) -> Option<Seq<Seq<u16>>>
    decreases tries,
{
    if tries == 0 {
        None
    } else if rank_mod_prime(drawn_matrix(g)) == 64 {
        Some(drawn_matrix(g))
    } else {
        generated_from(xo_advance(g, 256), (tries - 1) as nat)
    }
}

/// The 64 four-bit digits of 32 bytes, high nibble of each byte first.
pub open spec fn digits(b: Seq<u8>) -> Seq<u8> {
    Seq::new(64, |j: int| if j % 2 == 0 { b[j / 2] / 16 } else { b[j / 2] % 16 })
}

/// The first `n` terms of the dot product of a row with the digits.
pub open spec fn row_dot(row: Seq<u16>, v: Seq<u8>, n: int) -> int
    decreases n,
{
    if n <= 0 {
        0
    } else {
        row_dot(row, v, n - 1) + row[n - 1] * v[n - 1]
    }
}

/// The bytes that the matrix makes of `b` before the heavy-mix sponge: byte `i`
/// packs the top four bits of the ten-bit-shifted dot products of rows `2 i` and
/// `2 i + 1`, XORed with `b[i]`.
pub open spec fn mixed_bytes(m: Seq<Seq<u16>>, b: Seq<u8>) -> Seq<u8> {
    Seq::new(
        32,
        |i: int|
            ((row_dot(m[2 * i], digits(b), 64) / 1024 * 16 + row_dot(m[2 * i + 1], digits(b), 64)
                / 1024) as u8) ^ b[i],
    )
}

/// The full matrix transform of a 256-bit value, as words.
pub open spec fn heavy_hash_words(m: Seq<Seq<u16>>, h: Seq<u64>) -> Seq<u64> {
    heavy_digest(le_bytes_to_words(mixed_bytes(m, words_to_le_bytes(h))))
}

proof fn lemma_nibble_small(w: u64, s: u64)
    ensures
        (w >> s) & 0xfu64 < 16,
{
    assert((w >> s) & 0xfu64 < 16) by (bit_vector);
}

/// The cells of a vector of rows.
pub open spec fn rows_view(rows: Seq<Vec<u16>>) -> Seq<Seq<u16>> {
    Seq::new(rows.len(), |i: int| rows[i]@)
}

/// The cells of a vector of rows of residues.
pub open spec fn residue_rows(rows: Seq<Vec<u64>>) -> Seq<Seq<u64>> {
    Seq::new(rows.len(), |i: int| rows[i]@)
}

/// 64 rows of 64 residues.
pub open spec fn residues_wf(m: Seq<Seq<u64>>) -> bool {
    &&& m.len() == 64
    &&& forall|i: int| 0 <= i < 64 ==> #[trigger] m[i].len() == 64
    &&& forall|i: int, j: int| 0 <= i < 64 && 0 <= j < 64 ==> #[trigger] m[i][j] < RANK_PRIME
}

fn comb_exec(a: u64, x: u64, b: u64, y: u64) -> (r: u64)
    requires
        a < RANK_PRIME,
        x < RANK_PRIME,
        b < RANK_PRIME,
        y < RANK_PRIME,
    ensures
        r == comb(a, x, b, y),
        r < RANK_PRIME,
{
    assert(a * x < 0x1_0000_0000_0000_0000) by (nonlinear_arith)
        requires
            a < RANK_PRIME,
            x < RANK_PRIME,
    ;
    assert(b * y < 0x1_0000_0000_0000_0000) by (nonlinear_arith)
        requires
            b < RANK_PRIME,
            y < RANK_PRIME,
    ;
    ((a * x) % RANK_PRIME + RANK_PRIME - (b * y) % RANK_PRIME) % RANK_PRIME
}

fn eliminate_column(mat: &mut Vec<Vec<u64>>, piv: usize, col: usize)
    requires
        residues_wf(residue_rows(old(mat)@)),
        piv < 64,
        col < 64,
    ensures
        residue_rows(final(mat)@) == eliminate(residue_rows(old(mat)@), piv as int, col as int),
        residues_wf(residue_rows(final(mat)@)),
{
    let ghost m0 = residue_rows(mat@);
    assert(m0[piv as int] == mat@[piv as int]@);
    let a: u64 = mat[piv][col];
    let mut k: usize = 0;
    while k < 64
        invariant
            0 <= k <= 64,
            mat@.len() == 64,
            m0 == residue_rows(old(mat)@),
            residues_wf(m0),
            residues_wf(residue_rows(mat@)),
            piv < 64,
            col < 64,
            a == m0[piv as int][col as int],
            forall|i: int| 0 <= i < k ==> #[trigger] mat@[i]@ == eliminate(m0, piv as int, col as int)[i],
            forall|i: int| k <= i < 64 ==> #[trigger] mat@[i]@ == m0[i],
        decreases 64 - k,
    {
        assert(mat@[k as int]@ == m0[k as int]);
        assert(mat@[piv as int]@ == m0[piv as int]);
        if k != piv && mat[k][col] != 0 {
            let b: u64 = mat[k][col];
            let mut row: Vec<u64> = Vec::new();
            let mut c: usize = 0;
            while c < 64
                invariant
                    0 <= c <= 64,
                    k < 64,
                    k != piv,
                    piv < 64,
                    col < 64,
                    mat@.len() == 64,
                    residues_wf(residue_rows(mat@)),
                    mat@[k as int]@ == m0[k as int],
                    mat@[piv as int]@ == m0[piv as int],
                    residues_wf(m0),
                    a == m0[piv as int][col as int],
                    b == m0[k as int][col as int],
                    row@.len() == c,
                    forall|d: int| 0 <= d < c ==> #[trigger] row@[d] == comb(a, m0[k as int][d], b, m0[piv as int][d]),
                    forall|d: int| 0 <= d < c ==> #[trigger] row@[d] < RANK_PRIME,
                decreases 64 - c,
            {
                assert(residue_rows(mat@)[k as int] == mat@[k as int]@);
                assert(residue_rows(mat@)[piv as int] == mat@[piv as int]@);
                let v: u64 = comb_exec(a, mat[k][c], b, mat[piv][c]);
                row.push(v);
                c = c + 1;
            }
            let ghost before = mat@;
            mat[k] = row;
            assert(mat@[k as int]@ =~= eliminate(m0, piv as int, col as int)[k as int]);
            assert forall|i: int| 0 <= i < 64 && i != k implies #[trigger] mat@[i] == before[i] by {}
        } else {
            assert(mat@[k as int]@ == eliminate(m0, piv as int, col as int)[k as int]);
        }
        k = k + 1;
    }
    assert(residue_rows(mat@) =~= eliminate(m0, piv as int, col as int));
}

/// A 64 by 64 matrix of four-bit cells, generated from a pre-image hash.
#[derive(Clone, Debug)]
pub struct Matrix {
    rows: Vec<Vec<u16>>,
}

impl View for Matrix {
    type V = Seq<Seq<u16>>;

    closed spec fn view(&self) -> Seq<Seq<u16>> {
        rows_view(self.rows@)
    }
}

impl Matrix {
    /// 64 rows of 64 cells, each under 16.
    pub open spec fn wf(&self) -> bool {
        &&& self@.len() == 64
        &&& forall|i: int| 0 <= i < 64 ==> #[trigger] self@[i].len() == 64
        &&& forall|i: int, j: int| 0 <= i < 64 && 0 <= j < 64 ==> #[trigger] self@[i][j] < 16
    }

    fn rand_matrix_no_rank_check(generator: &mut XoShiRo256PlusPlus) -> (r: Self)
        ensures
            r@ == drawn_matrix(*old(generator)),
            *final(generator) == xo_advance(*old(generator), 256),
            r.wf(),
    {
        let ghost g0 = *generator;
        let mut rows: Vec<Vec<u16>> = Vec::new();
        let mut i: usize = 0;
        while i < 64
            invariant
                0 <= i <= 64,
                rows_view(rows@).len() == i,
                *generator == xo_advance(g0, (4 * i) as nat),
                forall|k: int| 0 <= k < i ==> #[trigger] rows_view(rows@)[k] == drawn_matrix(g0)[k],
            decreases 64 - i,
        {
            let mut row: Vec<u16> = Vec::new();
            let mut val: u64 = 0;
            let mut j: usize = 0;
            while j < 64
                invariant
                    0 <= i < 64,
                    0 <= j <= 64,
                    row@.len() == j,
                    *generator == xo_advance(g0, (4 * i + (j + 15) / 16) as nat),
                    j % 16 != 0 ==> val == xo_nth(g0, (4 * i + j / 16) as nat),
                    forall|c: int| 0 <= c < j ==> #[trigger] row@[c] == drawn_matrix(g0)[i as int][c],
                decreases 64 - j,
            {
                let shift: usize = j % 16;
                if shift == 0 {
                    val = generator.u64();
                }
                proof {
                    lemma_nibble_small(val, (4 * shift) as u64);
                }
                row.push(((val >> (4 * shift) as u64) & 0xfu64) as u16);
                j = j + 1;
            }
            assert(row@ =~= drawn_matrix(g0)[i as int]);
            let ghost before = rows@;
            rows.push(row);
            assert forall|k: int| 0 <= k < i + 1 implies #[trigger] rows_view(rows@)[k]
                == drawn_matrix(g0)[k] by {
                if k < i {
                    assert(rows@[k] == before[k]);
                    assert(rows_view(before)[k] == drawn_matrix(g0)[k]);
                }
            }
            i = i + 1;
        }
        let r = Matrix { rows };
        assert(r@ =~= drawn_matrix(g0));
        assert forall|a: int, b: int| 0 <= a < 64 && 0 <= b < 64 implies #[trigger] r@[a][b] < 16 by {
            lemma_nibble_small(xo_nth(g0, (4 * a + b / 16) as nat), (4 * (b % 16)) as u64);
        }
        r
    }

    /// The cell in row `i`, column `j`.
    pub fn cell(&self, i: usize, j: usize) -> (r: u16)
        requires
            self.wf(),
            i < 64,
            j < 64,
        ensures
            r == self@[i as int][j as int],
    {
        assert(self.rows@[i as int]@ == self@[i as int]);
        self.rows[i][j]
    }

    /// The rank of the matrix over the integers modulo the rank prime.
    pub fn compute_rank(&self) -> (r: usize)
        requires
            self.wf(),
        ensures
            r == rank_mod_prime(self@),
    {
        let mut mat: Vec<Vec<u64>> = Vec::new();
        let mut i: usize = 0;
        while i < 64
            invariant
                0 <= i <= 64,
                self.wf(),
                mat@.len() == i,
                forall|k: int| 0 <= k < i ==> #[trigger] mat@[k]@ == residues(self@)[k],
            decreases 64 - i,
        {
            assert(self.rows@[i as int]@ == self@[i as int]);
            let mut row: Vec<u64> = Vec::new();
            let mut j: usize = 0;
            while j < 64
                invariant
                    0 <= j <= 64,
                    0 <= i < 64,
                    self.wf(),
                    self.rows@[i as int]@ == self@[i as int],
                    row@.len() == j,
                    forall|c: int| 0 <= c < j ==> #[trigger] row@[c] == self@[i as int][c] as u64,
                decreases 64 - j,
            {
                row.push(self.rows[i][j] as u64);
                j = j + 1;
            }
            assert(row@ =~= residues(self@)[i as int]);
            mat.push(row);
            i = i + 1;
        }
        assert(residue_rows(mat@) =~= residues(self@));
        assert forall|a: int, b: int| 0 <= a < 64 && 0 <= b < 64 implies #[trigger] residue_rows(
            mat@,
        )[a][b] < RANK_PRIME by {
            assert(self@[a][b] < 16);
        }
        let mut sel: Vec<bool> = Vec::new();
        while sel.len() < 64
            invariant
                sel@.len() <= 64,
                forall|k: int| 0 <= k < sel@.len() ==> #[trigger] sel@[k] == false,
            decreases 64 - sel@.len(),
        {
            sel.push(false);
        }
        assert(sel@ =~= Seq::new(64, |k: int| false));
        let mut rank: usize = 0;
        let mut col: usize = 0;
        while col < 64
            invariant
                0 <= col <= 64,
                rank <= col,
                sel@.len() == 64,
                residues_wf(residue_rows(mat@)),
                rank + rank_from(residue_rows(mat@), sel@, col as int) == rank_mod_prime(self@),
            decreases 64 - col,
        {
            let ghost m = residue_rows(mat@);
            let mut j: usize = 0;
            while j < 64 && (sel[j] || mat[j][col] == 0)
                invariant
                    0 <= j <= 64,
                    col < 64,
                    sel@.len() == 64,
                    m == residue_rows(mat@),
                    residues_wf(m),
                    find_pivot(m, sel@, col as int, 0) == find_pivot(m, sel@, col as int, j as int),
                decreases 64 - j,
            {
                assert(m[j as int] == mat@[j as int]@);
                j = j + 1;
            }
            if j < 64 {
                assert(m[j as int] == mat@[j as int]@);
                rank = rank + 1;
                sel.set(j, true);
                eliminate_column(&mut mat, j, col);
            }
            col = col + 1;
        }
        rank
    }

    /// The matrix for a pre-image hash: candidates are drawn one after another from
    /// xoshiro256++ seeded with the hash's words, and the first of full rank is
    /// kept. `None` where none of the first `MAX_MATRIX_DRAWS` candidates is.
    pub fn generate(hash: Uint256) -> (r: Option<Self>)
        ensures
            match r {
                Some(m) => generated_from(xo_seed(hash.0@), MAX_MATRIX_DRAWS as nat) == Some(m@)
                    && m.wf(),
                None => generated_from(xo_seed(hash.0@), MAX_MATRIX_DRAWS as nat) is None,
            },
    {
        let mut generator = XoShiRo256PlusPlus::new(hash);
        let mut left: u32 = MAX_MATRIX_DRAWS;
        while left > 0
            invariant
                generated_from(xo_seed(hash.0@), MAX_MATRIX_DRAWS as nat) == generated_from(
                    generator,
                    left as nat,
                ),
            decreases left,
        {
            let mat = Self::rand_matrix_no_rank_check(&mut generator);
            if mat.compute_rank() == 64 {
                return Some(mat);
            }
            left = left - 1;
        }
        None
    }

    /// The matrix transform of a 256-bit value, ending in the heavy-mix sponge.
    pub fn heavy_hash(&self, hash: Uint256) -> (r: Uint256)
        requires
            self.wf(),
        ensures
            r.0@ == heavy_hash_words(self@, hash.0@),
    {
        let bytes: [u8; 32] = hash.to_le_bytes();
        let mut vec: [u8; 64] = [0u8; 64];
        let mut j: usize = 0;
        while j < 64
            invariant
                0 <= j <= 64,
                forall|d: int| 0 <= d < j ==> #[trigger] vec@[d] == digits(bytes@)[d],
                forall|d: int| 0 <= d < j ==> #[trigger] vec@[d] < 16,
            decreases 64 - j,
        {
            if j % 2 == 0 {
                vec[j] = bytes[j / 2] / 16;
            } else {
                vec[j] = bytes[j / 2] % 16;
            }
            j = j + 1;
        }
        assert(vec@ =~= digits(bytes@));
        let mut product: [u8; 32] = [0u8; 32];
        let mut i: usize = 0;
        while i < 32
            invariant
                0 <= i <= 32,
                self.wf(),
                vec@ == digits(bytes@),
                forall|d: int| 0 <= d < 64 ==> #[trigger] vec@[d] < 16,
                forall|d: int| 0 <= d < i ==> #[trigger] product@[d] == mixed_bytes(self@, bytes@)[d],
            decreases 32 - i,
        {
            let r1: &Vec<u16> = &self.rows[2 * i];
            let r2: &Vec<u16> = &self.rows[2 * i + 1];
            assert(r1@ == self@[2 * i as int]);
            assert(r2@ == self@[2 * i + 1]);
            let mut sum1: u16 = 0;
            let mut sum2: u16 = 0;
            let mut j: usize = 0;
            while j < 64
                invariant
                    0 <= j <= 64,
                    0 <= i < 32,
                    self.wf(),
                    r1@ == self@[2 * i as int],
                    r2@ == self@[2 * i + 1],
                    forall|d: int| 0 <= d < 64 ==> #[trigger] vec@[d] < 16,
                    sum1 == row_dot(r1@, vec@, j as int),
                    sum2 == row_dot(r2@, vec@, j as int),
                    sum1 <= 225 * j,
                    sum2 <= 225 * j,
                decreases 64 - j,
            {
                let a: u16 = r1[j];
                let b: u16 = r2[j];
                let v: u16 = vec[j] as u16;
                assert(a < 16 && b < 16);
                assert(a * v <= 225 && b * v <= 225) by (nonlinear_arith)
                    requires
                        a < 16,
                        b < 16,
                        v < 16,
                ;
                sum1 = sum1 + a * v;
                sum2 = sum2 + b * v;
                j = j + 1;
            }
            product[i] = ((sum1 / 1024 * 16 + sum2 / 1024) as u8) ^ bytes[i];
            i = i + 1;
        }
        assert(product@ =~= mixed_bytes(self@, bytes@));
        HeavyHasher::hash(Uint256::from_le_bytes(product))
    }
}

/// Matrix generation is a function of the hash's words alone: equal words give
/// the same outcome, the same matrix or none.
pub proof fn lemma_generate_reproducible(h1: Uint256, h2: Uint256)
    requires
        h1.0@ == h2.0@,
    ensures
        generated_from(xo_seed(h1.0@), MAX_MATRIX_DRAWS as nat) == generated_from(
            xo_seed(h2.0@),
            MAX_MATRIX_DRAWS as nat,
        ),
{
}

} // verus!
