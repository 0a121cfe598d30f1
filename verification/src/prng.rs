//! The pseudo-random numbers that key the position hash.

use vstd::prelude::*;

verus! {

pub const BEST_SEED: u64 = 117;

/// How often a number that the table already holds is drawn again before
/// it is taken as it is.
pub const REDRAW_LIMIT: u8 = 64;

/// A xorshift generator of 64-bit numbers.
pub struct XorshiftPrng {
    state: u64,
}

/// The number that follows `x`.
pub open spec fn spec_xorshift(x: u64) -> u64 {
    let a = x ^ (x << 15);
    let b = a ^ (a >> 7);
    b ^ (b << 19)
}

/// The rows of a table as sequences.
pub open spec fn rows_of(table: Seq<Vec<u64>>) -> Seq<Seq<u64>> {
    table.map_values(|row: Vec<u64>| row@)
}

/// Whether `x` stands in one of the rows, in a column before `j`.
pub open spec fn spec_is_dup(rows: Seq<Seq<u64>>, j: nat, x: u64) -> bool {
    exists|a: int, b: int|
        0 <= a < rows.len() && 0 <= b < j && b < rows[a].len() && (#[trigger] rows[a][b]) == x
}

/// The number drawn for column `j` of a new row: the first of the numbers
/// that follow `state` which stands in none of the rows before column `j`,
/// or the one after `fuel` such numbers.
pub open spec fn spec_draw(rows: Seq<Seq<u64>>, j: nat, state: u64, fuel: nat) -> u64
    decreases fuel,
{
    let x = spec_xorshift(state);
    if fuel == 0 || !spec_is_dup(rows, j, x) {
        x
    } else {
        spec_draw(rows, j, x, (fuel - 1) as nat)
    }
}

/// The first `n` numbers of a new row under the rows `rows`, drawn one
/// after the other from `state` on, and the state after them: the last
/// number drawn.
pub open spec fn spec_row(rows: Seq<Seq<u64>>, state: u64, n: nat) -> (Seq<u64>, u64)
    decreases n,
{
    if n == 0 {
        (Seq::empty(), state)
    } else {
        let before = spec_row(rows, state, (n - 1) as nat);
        let x = spec_draw(rows, (n - 1) as nat, before.1, REDRAW_LIMIT as nat);
        (before.0.push(x), x)
    }
}

/// A table of `rows` rows of `cols` numbers, filled row by row from `state`
/// on, and the state after it.
pub open spec fn spec_table(state: u64, rows: nat, cols: nat) -> (Seq<Seq<u64>>, u64)
    decreases rows,
{
    if rows == 0 {
        (Seq::empty(), state)
    } else {
        let before = spec_table(state, (rows - 1) as nat, cols);
        let row = spec_row(before.0, before.1, cols);
        (before.0.push(row.0), row.1)
    }
}

/// Whether `x` stands in one of the rows, in a column before `j`.
fn is_dup(table: &Vec<Vec<u64>>, j: usize, x: u64) -> (r: bool)
    ensures
        r == spec_is_dup(rows_of(table@), j as nat, x),
{
    let n: usize = table.len();
    let mut a: usize = 0;
    while a < n
        invariant
            a <= n,
            n == table@.len(),
            forall|p: int, q: int|
                0 <= p < a && 0 <= q < j && q < rows_of(table@)[p].len() ==> (
                #[trigger] rows_of(table@)[p][q]) != x,
        decreases n - a,
    {
        let row = &table[a];
        assert(rows_of(table@)[a as int] == row@);
        let m: usize = if row.len() < j {
            row.len()
        } else {
            j
        };
        let mut b: usize = 0;
        while b < m
            invariant
                b <= m,
                m <= row@.len(),
                m <= j,
                m == row@.len() || m == j,
                a < n,
                n == table@.len(),
                rows_of(table@)[a as int] == row@,
                forall|q: int| 0 <= q < b ==> row@[q] != x,
            decreases m - b,
        {
            if row[b] == x {
                assert(rows_of(table@)[a as int][b as int] == x);
                return true;
            }
            b += 1;
        }
        a += 1;
    }
    false
}

impl XorshiftPrng {
    /// The number that the next one follows.
    pub closed spec fn state(&self) -> u64 {
        self.state
    }

    /// A generator at its seed.
    pub fn new() -> (r: XorshiftPrng)
        ensures
            r.state() == BEST_SEED,
    {
        XorshiftPrng { state: BEST_SEED }
    }

    /// The next number.
    pub fn gen_rand(&mut self) -> (r: u64)
        ensures
            r == spec_xorshift(old(self).state()),
            final(self).state() == r,
    {
        let mut x: u64 = self.state;
        x = x ^ (x << 15);
        x = x ^ (x >> 7);
        x = x ^ (x << 19);
        self.state = x;
        x
    }

    /// The next number that stands in none of the rows before column `j`.
    fn draw(&mut self, table: &Vec<Vec<u64>>, j: usize) -> (r: u64)
        ensures
            r == spec_draw(rows_of(table@), j as nat, old(self).state(), REDRAW_LIMIT as nat),
            final(self).state() == r,
    {
        let mut prn: u64 = self.gen_rand();
        let mut fuel: u8 = REDRAW_LIMIT;
        while fuel > 0 && is_dup(table, j, prn)
            invariant
                self.state() == prn,
                spec_draw(rows_of(table@), j as nat, old(self).state(), REDRAW_LIMIT as nat) == (
                if fuel == 0 || !spec_is_dup(rows_of(table@), j as nat, prn) {
                    prn
                } else {
                    spec_draw(rows_of(table@), j as nat, prn, (fuel - 1) as nat)
                }),
            decreases fuel,
        {
            prn = self.gen_rand();
            fuel -= 1;
        }
        prn
    }

    /// A table of `fst_dim` rows of `snd_dim` numbers each, filled row by
    /// row with the numbers that the generator gives next. A number that
    /// stands in an earlier row, in a column before the one that is being
    /// filled, is passed over for the next.
    pub fn create_prn_table(&mut self, fst_dim: usize, snd_dim: usize) -> (table: Vec<Vec<u64>>)
        ensures
            rows_of(table@) == spec_table(old(self).state(), fst_dim as nat, snd_dim as nat).0,
            final(self).state() == spec_table(
                old(self).state(),
                fst_dim as nat,
                snd_dim as nat,
            ).1,
            table@.len() == fst_dim,
            forall|i: int| 0 <= i < fst_dim ==> (#[trigger] table@[i])@.len() == snd_dim,
    {
        let mut table: Vec<Vec<u64>> = Vec::new();
        let mut i: usize = 0;
        assert(rows_of(table@) =~= Seq::<Seq<u64>>::empty());
        while i < fst_dim
            invariant
                i <= fst_dim,
                table@.len() == i,
                forall|k: int| 0 <= k < i ==> (#[trigger] table@[k])@.len() == snd_dim,
                rows_of(table@) == spec_table(old(self).state(), i as nat, snd_dim as nat).0,
                self.state() == spec_table(old(self).state(), i as nat, snd_dim as nat).1,
            decreases fst_dim - i,
        {
            let ghost start = self.state();
            let mut row: Vec<u64> = Vec::new();
            let mut j: usize = 0;
            assert(row@ =~= Seq::<u64>::empty());
            while j < snd_dim
                invariant
                    j <= snd_dim,
                    row@.len() == j,
                    (row@, self.state()) == spec_row(rows_of(table@), start, j as nat),
                decreases snd_dim - j,
            {
                let prn: u64 = self.draw(&table, j);
                row.push(prn);
                j += 1;
            }
            let ghost before = table@;
            table.push(row);
            assert(rows_of(table@) =~= rows_of(before).push(row@));
            i += 1;
        }
        table
    }
}

} // verus!
