//! Move encoding, square notation and bit scanning.

use vstd::prelude::*;
use vstd::std_specs::bits::*;
use vstd::string::{StringExecFns, StringSliceAdditionalSpecFns};
use crate::def;

verus! {

/// Origin square of an encoded move.
pub open spec fn mov_from(mov: u32) -> usize {
    (mov % 64) as usize
}

/// Destination square of an encoded move.
pub open spec fn mov_to(mov: u32) -> usize {
    ((mov / 64) % 64) as usize
}

/// Kind tag of an encoded move.
pub open spec fn mov_kind(mov: u32) -> u8 {
    ((mov / 4096) % 8) as u8
}

/// Promotion piece of an encoded move, 0 where there is none.
pub open spec fn mov_promo(mov: u32) -> u8 {
    ((mov / 32768) % 256) as u8
}

/// The integer that the four fields of a move pack into.
pub open spec fn spec_encode(from: usize, to: usize, tp: u8, promo: u8) -> u32 {
    (from + to * 64 + tp * 4096 + promo * 32768) as u32
}

/// Packs a move into one integer. A move with a kind tag is never 0, so 0
/// can stand for "no move".
pub fn encode_u32_mov(from: usize, to: usize, tp: u8, promo: u8) -> (mov: u32)
    requires
        from < def::BOARD_SIZE,
        to < def::BOARD_SIZE,
        tp < 8,
    ensures
        mov == spec_encode(from, to, tp, promo),
        mov_from(mov) == from,
        mov_to(mov) == to,
        mov_kind(mov) == tp,
        mov_promo(mov) == promo,
        tp != 0 ==> mov != 0,
{
    let f: u32 = from as u32;
    let t: u32 = to as u32;
    let k: u32 = tp as u32;
    let p: u32 = promo as u32;
    proof {
        lemma_mov_fields(f, t, k, p);
    }
    f + t * 64 + k * 4096 + p * 32768
}

/// The four fields of a packed move do not overlap.
proof fn lemma_mov_fields(f: u32, t: u32, k: u32, p: u32)
    by (bit_vector)
    requires
        f < 64,
        t < 64,
        k < 8,
        p < 256,
    ensures
        f + t * 64 + k * 4096 + p * 32768 < 0x1000000,
        (f + t * 64 + k * 4096 + p * 32768) % 64 == f,
        ((f + t * 64 + k * 4096 + p * 32768) / 64) % 64 == t,
        ((f + t * 64 + k * 4096 + p * 32768) / 4096) % 8 == k,
        ((f + t * 64 + k * 4096 + p * 32768) / 32768) % 256 == p,
{
}

/// Unpacks a move into origin, destination, kind tag and promotion piece.
/// Every integer unpacks to squares on the board.
pub fn decode_u32_mov(mov: u32) -> (r: (usize, usize, u8, u8))
    ensures
        r.0 == mov_from(mov),
        r.1 == mov_to(mov),
        r.2 == mov_kind(mov),
        r.3 == mov_promo(mov),
        r.0 < def::BOARD_SIZE,
        r.1 < def::BOARD_SIZE,
        r.2 < 8,
{
    let from: usize = (mov % 64) as usize;
    let to: usize = ((mov / 64) % 64) as usize;
    let tp: u8 = ((mov / 4096) % 8) as u8;
    let promo: u8 = ((mov / 32768) % 256) as u8;
    (from, to, tp, promo)
}

/// Index of the lowest set bit.
pub fn get_lowest_index(mask: u64) -> (r: usize)
    requires
        mask != 0,
    ensures
        r == u64_trailing_zeros(mask),
        r < def::BOARD_SIZE,
{
    broadcast use axiom_u64_trailing_zeros;

    mask.trailing_zeros() as usize
}

/// Index of the highest set bit.
pub fn get_highest_index(mask: u64) -> (r: usize)
    requires
        mask != 0,
    ensures
        r == 63 - u64_leading_zeros(mask),
        r < def::BOARD_SIZE,
{
    broadcast use axiom_u64_leading_zeros;

    63 - mask.leading_zeros() as usize
}

/// Whether two bytes spell a square: a file letter `a`..`h`, then a rank
/// digit `1`..`8`.
pub open spec fn is_sqr_notation(file: u8, rank: u8) -> bool {
    97 <= file <= 104 && 49 <= rank <= 56
}

/// The square that a file letter and a rank digit name; a1 is 0, h8 is 63.
pub open spec fn sqr_of_notation(file: u8, rank: u8) -> usize {
    ((rank - 49) * 8 + (file - 97)) as usize
}

/// Square index for a file letter and a rank digit.
pub fn sqr_index(file: u8, rank: u8) -> (r: usize)
    requires
        is_sqr_notation(file, rank),
    ensures
        r == sqr_of_notation(file, rank),
        r < def::BOARD_SIZE,
{
    ((rank - 49) as usize) * 8 + ((file - 97) as usize)
}

/// Whether the text is exactly one square in algebraic notation.
pub open spec fn is_sqr_str(bytes: Seq<u8>) -> bool {
    bytes.len() == 2 && is_sqr_notation(bytes[0], bytes[1])
}

/// Square index of a square written in algebraic notation, such as `e4`.
pub fn map_sqr_notation_to_index(sqr: &str) -> (r: usize)
    requires
        is_sqr_str(sqr.spec_bytes()),
    ensures
        r == sqr_of_notation(sqr.spec_bytes()[0], sqr.spec_bytes()[1]),
        r < def::BOARD_SIZE,
{
    let bytes = sqr.as_bytes();
    sqr_index(bytes[0], bytes[1])
}

/// The letter of a file, `a` for file 0.
pub open spec fn spec_file_text(file: usize) -> Seq<char> {
    if file == 0 {
        "a"@
    } else if file == 1 {
        "b"@
    } else if file == 2 {
        "c"@
    } else if file == 3 {
        "d"@
    } else if file == 4 {
        "e"@
    } else if file == 5 {
        "f"@
    } else if file == 6 {
        "g"@
    } else {
        "h"@
    }
}

/// The digit of a rank, `1` for rank 0.
pub open spec fn spec_rank_text(rank: usize) -> Seq<char> {
    if rank == 0 {
        "1"@
    } else if rank == 1 {
        "2"@
    } else if rank == 2 {
        "3"@
    } else if rank == 3 {
        "4"@
    } else if rank == 4 {
        "5"@
    } else if rank == 5 {
        "6"@
    } else if rank == 6 {
        "7"@
    } else {
        "8"@
    }
}

/// The letter that the protocol writes for a promotion piece; nothing for
/// what is no promotion piece.
pub open spec fn spec_promo_text(promo: u8) -> Seq<char> {
    if promo == def::WQ || promo == def::BQ {
        "q"@
    } else if promo == def::WR || promo == def::BR {
        "r"@
    } else if promo == def::WB || promo == def::BB {
        "b"@
    } else if promo == def::WN || promo == def::BN {
        "n"@
    } else {
        ""@
    }
}

/// A move as the protocol writes it: the two squares and the promotion
/// piece.
pub open spec fn spec_mov_text(mov: u32) -> Seq<char> {
    spec_file_text(mov_from(mov) % 8) + spec_rank_text(mov_from(mov) / 8) + spec_file_text(
        mov_to(mov) % 8,
    ) + spec_rank_text(mov_to(mov) / 8) + spec_promo_text(mov_promo(mov))
}

fn file_text(file: usize) -> (r: &'static str)
    ensures
        r@ == spec_file_text(file),
{
    if file == 0 {
        "a"
    } else if file == 1 {
        "b"
    } else if file == 2 {
        "c"
    } else if file == 3 {
        "d"
    } else if file == 4 {
        "e"
    } else if file == 5 {
        "f"
    } else if file == 6 {
        "g"
    } else {
        "h"
    }
}

fn rank_text(rank: usize) -> (r: &'static str)
    ensures
        r@ == spec_rank_text(rank),
{
    if rank == 0 {
        "1"
    } else if rank == 1 {
        "2"
    } else if rank == 2 {
        "3"
    } else if rank == 3 {
        "4"
    } else if rank == 4 {
        "5"
    } else if rank == 5 {
        "6"
    } else if rank == 6 {
        "7"
    } else {
        "8"
    }
}

fn promo_text(promo: u8) -> (r: &'static str)
    ensures
        r@ == spec_promo_text(promo),
{
    if promo == def::WQ || promo == def::BQ {
        "q"
    } else if promo == def::WR || promo == def::BR {
        "r"
    } else if promo == def::WB || promo == def::BB {
        "b"
    } else if promo == def::WN || promo == def::BN {
        "n"
    } else {
        ""
    }
}

/// Writes a move as the protocol writes it.
pub fn format_mov(mov: u32) -> (r: String)
    ensures
        r@ == spec_mov_text(mov),
{
    let (from, to, _tp, promo) = decode_u32_mov(mov);
    let mut text = String::from_str(file_text(from % 8));
    text.append(rank_text(from / 8));
    text.append(file_text(to % 8));
    text.append(rank_text(to / 8));
    text.append(promo_text(promo));
    text
}

/// The moves of a line, each followed by a space.
pub open spec fn spec_pv_text(pv: Seq<u32>) -> Seq<char>
    decreases pv.len(),
{
    if pv.len() == 0 {
        Seq::empty()
    } else {
        spec_pv_text(pv.drop_last()) + spec_mov_text(pv.last()) + " "@
    }
}

/// Writes a line of moves with a space between one move and the next.
pub fn format_pv(pv: &Vec<u32>) -> (r: String)
    ensures
        pv@.len() == 0 ==> r@ == Seq::<char>::empty(),
        pv@.len() > 0 ==> r@ == spec_pv_text(pv@.drop_last()) + spec_mov_text(pv@.last()),
{
    let mut text = String::new();
    let n: usize = pv.len();
    let mut k: usize = 0;
    while k < n
        invariant
            k <= n,
            n == pv@.len(),
            k == 0 ==> text@ == Seq::<char>::empty(),
            k > 0 ==> text@ == spec_pv_text(pv@.take(k - 1)) + spec_mov_text(pv@[k - 1]),
        decreases n - k,
    {
        if k > 0 {
            text.append(" ");
            assert(pv@.take(k as int).drop_last() =~= pv@.take(k - 1));
            assert(text@ =~= spec_pv_text(pv@.take(k as int)));
        } else {
            assert(pv@.take(0) =~= Seq::<u32>::empty());
            assert(text@ =~= spec_pv_text(pv@.take(0)));
        }
        let mov = format_mov(pv[k]);
        text.append(mov.as_str());
        k += 1;
    }
    proof {
        if n > 0 {
            assert(pv@.take(n - 1) =~= pv@.drop_last());
        }
    }
    text
}

} // verus!
