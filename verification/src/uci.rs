//! The text protocol: what each command line asks the engine to do.
//!
//! A command line is split at every single space. Nothing is printed here:
//! the result says what is to be done and what is to be answered.

use vstd::prelude::*;
use vstd::string::{StrSliceExecFns, StringSliceAdditionalSpecFns};
use crate::def;
use crate::state::{Position, FEN_START_POS};
use crate::util;

verus! {

pub const DEFAULT_MOVS_TO_GO: u128 = 20;

/// Time kept back from every move for the way to the engine and back.
pub const OVERHEAD_TIME: u128 = 100;

/// A move as the protocol writes it: the two squares, the letter of the
/// promotion piece or nothing, and the text itself.
pub struct Rawmov {
    pub from: usize,
    pub to: usize,
    pub promo: String,
    pub origin_mov_str: String,
}

/// The time for the next move, for either player to move.
#[derive(PartialEq, Eq, Structural, Debug, Clone, Copy)]
pub struct TimeInfo {
    pub white_millis: u128,
    pub black_millis: u128,
}

/// What a command line asks for.
pub enum UciProcessResult {
    /// Nothing is to be done: the command needs no action, or it is
    /// unknown or malformed.
    Noop,
    /// `uci`: the engine names itself and its options.
    Ready,
    /// `isready`: the engine answers that it is ready.
    ReadyOk,
    /// `ucinewgame`: the transposition tables are emptied.
    Reset,
    /// `setoption name Hash`: the tables get this many slots.
    SetHashSize(usize),
    /// `setoption name Hash` with a size that is not supported, in
    /// megabytes.
    UnsupportedHashSize(usize),
    /// `position startpos`: the position in Forsyth-Edwards notation and the
    /// moves to play from it.
    Position(&'static str, Vec<Rawmov>),
    /// `go movetime`: search for this many milliseconds.
    StartSearchWithTime(u128),
    /// `go wtime`: search within the time worked out from the clocks.
    StartSearchWithComplextTimeControl(TimeInfo),
    /// `go depth`: search this many plies deep.
    StartSearchToDepth(u8),
    /// `go infinite`: search until told to stop.
    StartSearchInfinite,
    /// `go perft`: count the leaf positions this many plies on.
    Perft(u8),
    Stop,
    Quit,
}

/// Length of the word at the start of the text: the bytes before the first
/// space.
pub open spec fn spec_word_len(bytes: Seq<u8>) -> nat
    decreases bytes.len(),
{
    if bytes.len() == 0 || bytes[0] == 32 {
        0
    } else {
        1 + spec_word_len(bytes.skip(1))
    }
}

/// The words of a command line: the text between one space and the next,
/// so that two spaces in a row have an empty word between them.
pub open spec fn spec_split(bytes: Seq<u8>) -> Seq<Seq<u8>>
    decreases bytes.len(),
{
    let k = spec_word_len(bytes);
    if k >= bytes.len() {
        seq![bytes]
    } else {
        seq![bytes.take(k as int)] + spec_split(bytes.skip(k as int + 1))
    }
}

/// The words as sequences of bytes.
pub open spec fn words_of(tokens: Seq<Vec<u8>>) -> Seq<Seq<u8>> {
    tokens.map_values(|t: Vec<u8>| t@)
}

proof fn lemma_word_len_bound(bytes: Seq<u8>)
    ensures
        spec_word_len(bytes) <= bytes.len(),
    decreases bytes.len(),
{
    if bytes.len() != 0 && bytes[0] != 32 {
        lemma_word_len_bound(bytes.skip(1));
    }
}

/// A stretch without a space that ends at a space or at the end of the
/// text is the first word.
proof fn lemma_word_len(bytes: Seq<u8>, k: nat)
    requires
        k <= bytes.len(),
        forall|j: int| 0 <= j < k ==> bytes[j] != 32,
        k < bytes.len() ==> bytes[k as int] == 32,
    ensures
        spec_word_len(bytes) == k,
    decreases k,
{
    if k > 0 {
        let rest = bytes.skip(1);
        assert forall|j: int| 0 <= j < k - 1 implies rest[j] != 32 by {
            assert(rest[j] == bytes[j + 1]);
        }
        lemma_word_len(rest, (k - 1) as nat);
    }
}

/// Splits a command line into its words, and says where each word starts.
pub fn split_words(bytes: &[u8]) -> (r: (Vec<Vec<u8>>, Vec<usize>))
    ensures
        words_of(r.0@) == spec_split(bytes@),
        r.0@.len() >= 1,
        r.1@.len() == r.0@.len(),
        forall|k: int|
            0 <= k < r.0@.len() ==> (#[trigger] r.1@[k]) + r.0@[k]@.len() <= bytes@.len()
                && r.0@[k]@ == bytes@.subrange(r.1@[k] as int, r.1@[k] + r.0@[k]@.len()),
{
    let mut tokens: Vec<Vec<u8>> = Vec::new();
    let mut starts: Vec<usize> = Vec::new();
    let mut word: Vec<u8> = Vec::new();
    let n: usize = bytes.len();
    let mut start: usize = 0;
    let mut i: usize = 0;
    assert(bytes@.skip(0) =~= bytes@);
    assert(words_of(tokens@) + spec_split(bytes@) =~= spec_split(bytes@));
    while i < n
        invariant
            start <= i <= n,
            n == bytes@.len(),
            word@ == bytes@.subrange(start as int, i as int),
            forall|j: int| start <= j < i ==> bytes@[j] != 32,
            words_of(tokens@) + spec_split(bytes@.skip(start as int)) == spec_split(bytes@),
            starts@.len() == tokens@.len(),
            forall|k: int|
                0 <= k < tokens@.len() ==> (#[trigger] starts@[k]) + tokens@[k]@.len()
                    <= bytes@.len() && tokens@[k]@ == bytes@.subrange(
                    starts@[k] as int,
                    starts@[k] + tokens@[k]@.len(),
                ),
        decreases n - i,
    {
        let c: u8 = bytes[i];
        if c == 32 {
            proof {
                let rest = bytes@.skip(start as int);
                assert forall|j: int| 0 <= j < i - start implies rest[j] != 32 by {
                    assert(rest[j] == bytes@[start + j]);
                }
                assert(rest[i - start] == bytes@[i as int]);
                lemma_word_len(rest, (i - start) as nat);
                assert(rest.take(i - start) =~= word@);
                assert(rest.skip(i - start + 1) =~= bytes@.skip(i + 1));
                assert(words_of(tokens@.push(word)) =~= words_of(tokens@) + seq![word@]);
                assert(words_of(tokens@) + seq![word@] + spec_split(bytes@.skip(i + 1)) =~= words_of(
                    tokens@,
                ) + spec_split(rest));
            }
            tokens.push(word);
            starts.push(start);
            word = Vec::new();
            start = i + 1;
            assert(word@ =~= bytes@.subrange(start as int, start as int));
        } else {
            let ghost before = word@;
            word.push(c);
            assert(word@ =~= bytes@.subrange(start as int, i + 1));
        }
        i += 1;
    }
    proof {
        let rest = bytes@.skip(start as int);
        assert forall|j: int| 0 <= j < n - start implies rest[j] != 32 by {
            assert(rest[j] == bytes@[start + j]);
        }
        lemma_word_len(rest, (n - start) as nat);
        assert(rest =~= word@);
        assert(words_of(tokens@.push(word)) =~= words_of(tokens@) + seq![word@]);
    }
    tokens.push(word);
    starts.push(start);
    (tokens, starts)
}

/// Whether a word is the given keyword.
pub fn is_word(token: &Vec<u8>, word: &str) -> (r: bool)
    ensures
        r == (token@ == word.spec_bytes()),
{
    let bytes = word.as_bytes();
    if token.len() != bytes.len() {
        return false;
    }
    let n: usize = token.len();
    let mut i: usize = 0;
    while i < n
        invariant
            i <= n,
            n == token@.len(),
            n == bytes@.len(),
            bytes@ == word.spec_bytes(),
            forall|j: int| 0 <= j < i ==> token@[j] == bytes@[j],
        decreases n - i,
    {
        if token[i] != bytes[i] {
            assert(token@[i as int] != word.spec_bytes()[i as int]);
            return false;
        }
        i += 1;
    }
    assert(token@ =~= bytes@);
    true
}

/// Whether every byte is a decimal digit and there is at least one.
pub open spec fn spec_is_digits(token: Seq<u8>) -> bool {
    token.len() > 0 && forall|i: int| 0 <= i < token.len() ==> 48 <= #[trigger] token[i] <= 57
}

/// The number that decimal digits write.
pub open spec fn spec_digits_value(token: Seq<u8>) -> nat
    decreases token.len(),
{
    if token.len() == 0 {
        0
    } else {
        spec_digits_value(token.drop_last()) * 10 + (token.last() - 48) as nat
    }
}

/// The number that a word writes in decimal digits, if it is one and fits.
pub open spec fn spec_parse_u128(token: Seq<u8>) -> Option<u128> {
    if spec_is_digits(token) && spec_digits_value(token) <= u128::MAX {
        Some(spec_digits_value(token) as u128)
    } else {
        None
    }
}

/// More digits never write a smaller number.
proof fn lemma_digits_value_grows(token: Seq<u8>, k: nat)
    requires
        k <= token.len(),
        forall|i: int| 0 <= i < token.len() ==> 48 <= #[trigger] token[i] <= 57,
    ensures
        spec_digits_value(token.take(k as int)) <= spec_digits_value(token),
    decreases token.len() - k,
{
    if k < token.len() {
        let longer = token.take(k as int + 1);
        assert(longer.drop_last() =~= token.take(k as int));
        lemma_digits_value_grows(token, k + 1);
    } else {
        assert(token.take(k as int) =~= token);
    }
}

/// Reads a number in decimal digits.
pub fn parse_u128(token: &Vec<u8>) -> (r: Option<u128>)
    ensures
        r == spec_parse_u128(token@),
{
    let n: usize = token.len();
    if n == 0 {
        return None;
    }
    let mut value: u128 = 0;
    let mut i: usize = 0;
    while i < n
        invariant
            i <= n,
            n == token@.len(),
            forall|j: int| 0 <= j < i ==> 48 <= #[trigger] token@[j] <= 57,
            value == spec_digits_value(token@.take(i as int)),
        decreases n - i,
    {
        let c: u8 = token[i];
        if c < 48 || c > 57 {
            return None;
        }
        let digit: u128 = (c - 48) as u128;
        proof {
            assert(token@.take(i + 1).drop_last() =~= token@.take(i as int));
        }
        if value > (u128::MAX - digit) / 10 {
            proof {
                if spec_is_digits(token@) {
                    lemma_digits_value_grows(token@, (i + 1) as nat);
                }
            }
            return None;
        }
        value = value * 10 + digit;
        i += 1;
    }
    assert(token@.take(n as int) =~= token@);
    Some(value)
}

/// Whether the text is a move as the protocol writes it: two squares, and
/// after them at most one more byte, which names the promotion piece.
pub open spec fn is_mov_str(bytes: Seq<u8>) -> bool {
    (bytes.len() == 4 || bytes.len() == 5) && util::is_sqr_notation(bytes[0], bytes[1])
        && util::is_sqr_notation(bytes[2], bytes[3])
}

/// Whether the text is a move as the protocol writes it.
pub fn check_mov_str(bytes: &[u8]) -> (r: bool)
    ensures
        r == is_mov_str(bytes@),
{
    let n: usize = bytes.len();
    (n == 4 || n == 5) && 97 <= bytes[0] && bytes[0] <= 104 && 49 <= bytes[1] && bytes[1] <= 56
        && 97 <= bytes[2] && bytes[2] <= 104 && 49 <= bytes[3] && bytes[3] <= 56
}

/// Reads a move: the square it starts from, the square it goes to, and the
/// promotion piece where a fifth byte names one.
pub fn parse_mov_str(mov_str: &str) -> (r: Rawmov)
    requires
        mov_str.is_ascii(),
        is_mov_str(mov_str.spec_bytes()),
    ensures
        r.from == util::sqr_of_notation(mov_str.spec_bytes()[0], mov_str.spec_bytes()[1]),
        r.to == util::sqr_of_notation(mov_str.spec_bytes()[2], mov_str.spec_bytes()[3]),
        r.from < def::BOARD_SIZE,
        r.to < def::BOARD_SIZE,
        r.promo@ == mov_str@.skip(4),
        r.origin_mov_str@ == mov_str@,
{
    broadcast use vstd::string::is_ascii_spec_bytes;

    let bytes = mov_str.as_bytes();
    let n: usize = bytes.len();
    let from: usize = util::sqr_index(bytes[0], bytes[1]);
    let to: usize = util::sqr_index(bytes[2], bytes[3]);
    let promo = mov_str.substring_ascii(4, n);
    assert(promo@ =~= mov_str@.skip(4));
    Rawmov { from, to, promo: promo.to_owned(), origin_mov_str: mov_str.to_owned() }
}

/// What a command line asks for, with the moves of a position command as
/// the words that write them.
pub enum Command {
    Noop,
    Ready,
    ReadyOk,
    Reset,
    SetHashSize(usize),
    UnsupportedHashSize(usize),
    Position(Seq<Seq<u8>>),
    StartSearchWithTime(u128),
    StartSearchWithComplextTimeControl(TimeInfo),
    StartSearchToDepth(u8),
    StartSearchInfinite,
    Perft(u8),
    Stop,
    Quit,
}

/// The time for one move when `time` is on the clock, `inc` is added after
/// every move and `movs_to_go` moves are to be made with it: an even share
/// of the clock and the increments, but no more than the clock shows, less
/// the overhead where that leaves anything.
pub open spec fn spec_time_share(time: u128, inc: u128, movs_to_go: u128) -> u128 {
    let share = (time + movs_to_go * inc) / (movs_to_go as int);
    let capped = if share < time {
        share
    } else {
        time as int
    };
    if capped > OVERHEAD_TIME {
        (capped - OVERHEAD_TIME) as u128
    } else {
        capped as u128
    }
}

/// The time for one move by the clock.
pub fn time_share(time: u128, inc: u128, movs_to_go: u128) -> (r: u128)
    requires
        movs_to_go > 0,
    ensures
        r == spec_time_share(time, inc, movs_to_go),
{
    let even: u128 = time / movs_to_go;
    proof {
        vstd::arithmetic::div_mod::lemma_hoist_over_denominator(
            time as int,
            inc as int,
            movs_to_go as nat,
        );
        assert(movs_to_go * inc == inc * movs_to_go) by (nonlinear_arith);
    }
    let capped: u128 = if inc >= time - even {
        time
    } else {
        even + inc
    };
    if capped > OVERHEAD_TIME {
        capped - OVERHEAD_TIME
    } else {
        capped
    }
}

/// The number that the word at `k + 1` writes where the word at `k` is
/// `name`, and 0 where there is another word or none at `k`; nothing where
/// the number is missing or malformed.
pub open spec fn spec_named_number(words: Seq<Seq<u8>>, k: int, name: Seq<u8>) -> Option<u128> {
    if 0 <= k < words.len() && words[k] == name {
        if k + 1 < words.len() {
            spec_parse_u128(words[k + 1])
        } else {
            None
        }
    } else {
        Some(0u128)
    }
}

/// What `go wtime ..` asks for: after `wtime` and `btime` with their
/// numbers, either `movestogo` with its number, or `winc` and `binc` with
/// theirs and then perhaps `movestogo`. A line that is cut short, a number
/// that is none, or no moves to go, asks for nothing.
pub open spec fn spec_time_control(words: Seq<Seq<u8>>) -> Option<TimeInfo> {
    let n = words.len();
    if n < 5 || words[1] != "wtime".spec_bytes() || words[3] != "btime".spec_bytes() {
        None
    } else {
        let wtime = spec_parse_u128(words[2]);
        let btime = spec_parse_u128(words[4]);
        let incs = n > 5 && words[5] != "movestogo".spec_bytes();
        let winc = if incs {
            spec_named_number(words, 5, "winc".spec_bytes())
        } else {
            Some(0u128)
        };
        let binc = if incs {
            spec_named_number(words, 7, "binc".spec_bytes())
        } else {
            Some(0u128)
        };
        let movs_to_go = if n > 5 && words[5] == "movestogo".spec_bytes() {
            if n > 6 {
                spec_parse_u128(words[6])
            } else {
                None
            }
        } else if n > 9 && words[9] == "movestogo".spec_bytes() {
            if n > 10 {
                spec_parse_u128(words[10])
            } else {
                None
            }
        } else {
            Some(DEFAULT_MOVS_TO_GO)
        };
        if wtime.is_none() || btime.is_none() || winc.is_none() || binc.is_none()
            || movs_to_go.is_none() || movs_to_go == Some(0u128) || (incs && n < 8) {
            None
        } else {
            Some(
                TimeInfo {
                    white_millis: spec_time_share(wtime.unwrap(), winc.unwrap(), movs_to_go.unwrap()),
                    black_millis: spec_time_share(btime.unwrap(), binc.unwrap(), movs_to_go.unwrap()),
                },
            )
        }
    }
}

/// Reads the number behind the word `name` at `k`.
fn named_number(tokens: &Vec<Vec<u8>>, k: usize, name: &str) -> (r: Option<u128>)
    ensures
        r == spec_named_number(words_of(tokens@), k as int, name.spec_bytes()),
{
    if k < tokens.len() && is_word(&tokens[k], name) {
        if k + 1 < tokens.len() {
            parse_u128(&tokens[k + 1])
        } else {
            None
        }
    } else {
        Some(0)
    }
}

/// Works out the time for the next move from a `go wtime ..` command.
pub fn process_time_control(tokens: &Vec<Vec<u8>>) -> (r: UciProcessResult)
    ensures
        match r {
            UciProcessResult::StartSearchWithComplextTimeControl(t) => spec_time_control(
                words_of(tokens@),
            ) == Some(t),
            UciProcessResult::Noop => spec_time_control(words_of(tokens@)).is_none(),
            _ => false,
        },
{
    let n: usize = tokens.len();
    if n < 5 || !is_word(&tokens[1], "wtime") || !is_word(&tokens[3], "btime") {
        return UciProcessResult::Noop;
    }
    let wtime = parse_u128(&tokens[2]);
    let btime = parse_u128(&tokens[4]);
    let incs: bool = n > 5 && !is_word(&tokens[5], "movestogo");
    let winc = if incs {
        named_number(tokens, 5, "winc")
    } else {
        Some(0)
    };
    let binc = if incs {
        named_number(tokens, 7, "binc")
    } else {
        Some(0)
    };
    let movs_to_go = if n > 5 && is_word(&tokens[5], "movestogo") {
        if n > 6 {
            parse_u128(&tokens[6])
        } else {
            None
        }
    } else if n > 9 && is_word(&tokens[9], "movestogo") {
        if n > 10 {
            parse_u128(&tokens[10])
        } else {
            None
        }
    } else {
        Some(DEFAULT_MOVS_TO_GO)
    };
    if incs && n < 8 {
        return UciProcessResult::Noop;
    }
    match (wtime, btime, winc, binc, movs_to_go) {
        (Some(w), Some(b), Some(wi), Some(bi), Some(m)) => {
            if m == 0 {
                UciProcessResult::Noop
            } else {
                UciProcessResult::StartSearchWithComplextTimeControl(
                    TimeInfo {
                        white_millis: time_share(w, wi, m),
                        black_millis: time_share(b, bi, m),
                    },
                )
            }
        },
        _ => UciProcessResult::Noop,
    }
}

/// The number that a word writes where it fits a depth, which is at most
/// 255.
pub open spec fn spec_parse_depth(token: Seq<u8>) -> Option<u8> {
    match spec_parse_u128(token) {
        Some(n) => if n <= 255 {
            Some(n as u8)
        } else {
            None
        },
        None => None,
    }
}

fn parse_depth(token: &Vec<u8>) -> (r: Option<u8>)
    ensures
        r == spec_parse_depth(token@),
{
    match parse_u128(token) {
        Some(n) => if n <= 255 {
            Some(n as u8)
        } else {
            None
        },
        None => None,
    }
}

/// What a `go` command asks for. A sub-command that is unknown or lacks its
/// number asks for nothing.
pub open spec fn spec_go(words: Seq<Seq<u8>>) -> Command {
    if words.len() < 2 {
        Command::Noop
    } else if words[1] == "movetime".spec_bytes() {
        if words.len() > 2 && spec_parse_u128(words[2]).is_some() {
            Command::StartSearchWithTime(spec_parse_u128(words[2]).unwrap())
        } else {
            Command::Noop
        }
    } else if words[1] == "wtime".spec_bytes() {
        match spec_time_control(words) {
            Some(t) => Command::StartSearchWithComplextTimeControl(t),
            None => Command::Noop,
        }
    } else if words[1] == "depth".spec_bytes() {
        if words.len() > 2 && spec_parse_depth(words[2]).is_some() {
            Command::StartSearchToDepth(spec_parse_depth(words[2]).unwrap())
        } else {
            Command::Noop
        }
    } else if words[1] == "infinite".spec_bytes() {
        Command::StartSearchInfinite
    } else if words[1] == "perft".spec_bytes() {
        if words.len() > 2 && spec_parse_depth(words[2]).is_some() {
            Command::Perft(spec_parse_depth(words[2]).unwrap())
        } else {
            Command::Noop
        }
    } else {
        Command::Noop
    }
}

/// What `setoption` asks for: a table size for the option `Hash`, where the
/// megabytes given are an even multiple, twice at least, of the smallest
/// size and no more than the largest.
pub open spec fn spec_set_option(words: Seq<Seq<u8>>) -> Command {
    if words.len() < 5 || words[2] != "Hash".spec_bytes() {
        Command::Noop
    } else {
        match spec_parse_u128(words[4]) {
            None => Command::Noop,
            Some(mb) => {
                let ratio = mb as int / def::MIN_HASH_SIZE_MB as int;
                if mb > def::MAX_HASH_SIZE_MB {
                    Command::UnsupportedHashSize(usize::MAX)
                } else if mb < def::MIN_HASH_SIZE_MB || ratio < 2 || ratio % 2 != 0 {
                    Command::UnsupportedHashSize(mb as usize)
                } else {
                    Command::SetHashSize((ratio * def::MIN_HASH_SIZE_UNIT) as usize)
                }
            },
        }
    }
}

/// What a `position` command asks for: the start position and the moves
/// after the word `moves`. Any position but `startpos`, and any word among
/// the moves that is no move, asks for nothing.
pub open spec fn spec_position(words: Seq<Seq<u8>>) -> Command {
    if words.len() < 2 || words[1] != "startpos".spec_bytes() {
        Command::Noop
    } else if words.len() > 3 {
        if forall|k: int| 3 <= k < words.len() ==> is_mov_str(#[trigger] words[k]) {
            Command::Position(words.skip(3))
        } else {
            Command::Noop
        }
    } else {
        Command::Position(Seq::empty())
    }
}

/// What a command line of bytes below 128 asks for.
pub open spec fn spec_process(bytes: Seq<u8>) -> Command {
    let words = spec_split(bytes);
    let first = words[0];
    if first == "uci".spec_bytes() {
        Command::Ready
    } else if first == "isready".spec_bytes() {
        Command::ReadyOk
    } else if first == "setoption".spec_bytes() {
        spec_set_option(words)
    } else if first == "ucinewgame".spec_bytes() {
        Command::Reset
    } else if first == "position".spec_bytes() {
        spec_position(words)
    } else if first == "go".spec_bytes() {
        spec_go(words)
    } else if first == "stop".spec_bytes() {
        Command::Stop
    } else if first == "quit".spec_bytes() {
        Command::Quit
    } else {
        Command::Noop
    }
}

/// The bytes of a text whose characters are all below 128.
pub open spec fn bytes_of_text(text: Seq<char>) -> Seq<u8> {
    Seq::new(text.len(), |i: int| text[i] as u8)
}

/// Whether a move that was read is what its word writes.
pub open spec fn mov_matches(mov: Rawmov, word: Seq<u8>) -> bool {
    &&& mov.from == util::sqr_of_notation(word[0], word[1])
    &&& mov.to == util::sqr_of_notation(word[2], word[3])
    &&& mov.from < def::BOARD_SIZE
    &&& mov.to < def::BOARD_SIZE
    &&& bytes_of_text(mov.promo@) == word.skip(4)
    &&& bytes_of_text(mov.origin_mov_str@) == word
}

/// Whether a result is what the command asks for.
pub open spec fn result_is(r: UciProcessResult, c: Command) -> bool {
    match (r, c) {
        (UciProcessResult::Noop, Command::Noop) => true,
        (UciProcessResult::Ready, Command::Ready) => true,
        (UciProcessResult::ReadyOk, Command::ReadyOk) => true,
        (UciProcessResult::Reset, Command::Reset) => true,
        (UciProcessResult::SetHashSize(a), Command::SetHashSize(b)) => a == b,
        (UciProcessResult::UnsupportedHashSize(a), Command::UnsupportedHashSize(b)) => a == b,
        (UciProcessResult::Position(fen, movs), Command::Position(words)) => fen@
            == FEN_START_POS@ && movs@.len() == words.len() && forall|k: int|
            0 <= k < words.len() ==> mov_matches(#[trigger] movs@[k], words[k]),
        (UciProcessResult::StartSearchWithTime(a), Command::StartSearchWithTime(b)) => a == b,
        (
            UciProcessResult::StartSearchWithComplextTimeControl(a),
            Command::StartSearchWithComplextTimeControl(b),
        ) => a == b,
        (UciProcessResult::StartSearchToDepth(a), Command::StartSearchToDepth(b)) => a == b,
        (UciProcessResult::StartSearchInfinite, Command::StartSearchInfinite) => true,
        (UciProcessResult::Perft(a), Command::Perft(b)) => a == b,
        (UciProcessResult::Stop, Command::Stop) => true,
        (UciProcessResult::Quit, Command::Quit) => true,
        _ => false,
    }
}

/// Reads a `go` command.
pub fn process_go_cmd(tokens: &Vec<Vec<u8>>) -> (r: UciProcessResult)
    ensures
        result_is(r, spec_go(words_of(tokens@))),
{
    if tokens.len() < 2 {
        return UciProcessResult::Noop;
    }
    if is_word(&tokens[1], "movetime") {
        if tokens.len() > 2 {
            match parse_u128(&tokens[2]) {
                Some(millis) => UciProcessResult::StartSearchWithTime(millis),
                None => UciProcessResult::Noop,
            }
        } else {
            UciProcessResult::Noop
        }
    } else if is_word(&tokens[1], "wtime") {
        process_time_control(tokens)
    } else if is_word(&tokens[1], "depth") {
        if tokens.len() > 2 {
            match parse_depth(&tokens[2]) {
                Some(depth) => UciProcessResult::StartSearchToDepth(depth),
                None => UciProcessResult::Noop,
            }
        } else {
            UciProcessResult::Noop
        }
    } else if is_word(&tokens[1], "infinite") {
        UciProcessResult::StartSearchInfinite
    } else if is_word(&tokens[1], "perft") {
        if tokens.len() > 2 {
            match parse_depth(&tokens[2]) {
                Some(depth) => UciProcessResult::Perft(depth),
                None => UciProcessResult::Noop,
            }
        } else {
            UciProcessResult::Noop
        }
    } else {
        UciProcessResult::Noop
    }
}

/// Reads a `setoption` command.
pub fn process_set_option(tokens: &Vec<Vec<u8>>) -> (r: UciProcessResult)
    ensures
        result_is(r, spec_set_option(words_of(tokens@))),
{
    if tokens.len() < 5 || !is_word(&tokens[2], "Hash") {
        return UciProcessResult::Noop;
    }
    match parse_u128(&tokens[4]) {
        None => UciProcessResult::Noop,
        Some(mb) => {
            if mb > def::MAX_HASH_SIZE_MB as u128 {
                return UciProcessResult::UnsupportedHashSize(usize::MAX);
            }
            let hash_size_mb: usize = mb as usize;
            let hash_ratio: usize = hash_size_mb / def::MIN_HASH_SIZE_MB;
            if hash_size_mb < def::MIN_HASH_SIZE_MB || hash_ratio < 2 || hash_ratio % 2 != 0 {
                UciProcessResult::UnsupportedHashSize(hash_size_mb)
            } else {
                UciProcessResult::SetHashSize(hash_ratio * def::MIN_HASH_SIZE_UNIT)
            }
        },
    }
}

/// The start position with no move played.
pub fn process_position_startpos() -> (r: UciProcessResult)
    ensures
        result_is(r, Command::Position(Seq::empty())),
{
    UciProcessResult::Position(FEN_START_POS, Vec::new())
}

/// The start position with the moves that the words from the fourth on
/// write; nothing where one of them is no move.
pub fn process_position_startpos_with_mov_list(
    uci_cmd: &str,
    tokens: &Vec<Vec<u8>>,
    starts: &Vec<usize>,
) -> (r: UciProcessResult)
    requires
        uci_cmd.is_ascii(),
        tokens@.len() > 3,
        starts@.len() == tokens@.len(),
        forall|k: int|
            0 <= k < tokens@.len() ==> (#[trigger] starts@[k]) + tokens@[k]@.len()
                <= uci_cmd.spec_bytes().len() && tokens@[k]@ == uci_cmd.spec_bytes().subrange(
                starts@[k] as int,
                starts@[k] + tokens@[k]@.len(),
            ),
    ensures
        result_is(
            r,
            if forall|k: int|
                3 <= k < tokens@.len() ==> is_mov_str(#[trigger] words_of(tokens@)[k]) {
                Command::Position(words_of(tokens@).skip(3))
            } else {
                Command::Noop
            },
        ),
{
    broadcast use vstd::string::is_ascii_spec_bytes;

    let mut mov_list: Vec<Rawmov> = Vec::new();
    let n: usize = tokens.len();
    let total: usize = uci_cmd.as_bytes().len();
    let mut k: usize = 3;
    while k < n
        invariant
            3 <= k <= n,
            n == tokens@.len(),
            total == uci_cmd.spec_bytes().len(),
            uci_cmd.is_ascii(),
            starts@.len() == tokens@.len(),
            forall|j: int|
                0 <= j < tokens@.len() ==> (#[trigger] starts@[j]) + tokens@[j]@.len()
                    <= uci_cmd.spec_bytes().len() && tokens@[j]@
                    == uci_cmd.spec_bytes().subrange(
                    starts@[j] as int,
                    starts@[j] + tokens@[j]@.len(),
                ),
            mov_list@.len() == k - 3,
            forall|j: int| 3 <= j < k ==> is_mov_str(#[trigger] words_of(tokens@)[j]),
            forall|j: int|
                0 <= j < k - 3 ==> mov_matches(#[trigger] mov_list@[j], tokens@[j + 3]@),
        decreases n - k,
    {
        let token = &tokens[k];
        if !check_mov_str(token.as_slice()) {
            assert(!is_mov_str(words_of(tokens@)[k as int]));
            return UciProcessResult::Noop;
        }
        let start: usize = starts[k];
        let text = uci_cmd.substring_ascii(start, start + token.len());
        assert(text.spec_bytes() =~= token@);
        let mov = parse_mov_str(text);
        assert(bytes_of_text(mov.origin_mov_str@) =~= token@);
        assert(bytes_of_text(mov.promo@) =~= token@.skip(4));
        mov_list.push(mov);
        k += 1;
    }
    proof {
        let words = words_of(tokens@).skip(3);
        assert forall|j: int| 0 <= j < words.len() implies mov_matches(
            #[trigger] mov_list@[j],
            words[j],
        ) by {
            assert(words[j] == tokens@[j + 3]@);
        }
    }
    UciProcessResult::Position(FEN_START_POS, mov_list)
}

/// Reads a command line and says what it asks for. A line with a byte
/// beyond 127 asks for nothing.
pub fn process_uci_cmd(uci_cmd: &str) -> (r: UciProcessResult)
    ensures
        uci_cmd.is_ascii() ==> result_is(r, spec_process(uci_cmd.spec_bytes())),
        !uci_cmd.is_ascii() ==> result_is(r, Command::Noop),
{
    if !uci_cmd.is_ascii() {
        return UciProcessResult::Noop;
    }
    let (tokens, starts) = split_words(uci_cmd.as_bytes());
    let first = &tokens[0];
    assert(words_of(tokens@)[0] == first@);
    if is_word(first, "uci") {
        UciProcessResult::Ready
    } else if is_word(first, "isready") {
        UciProcessResult::ReadyOk
    } else if is_word(first, "setoption") {
        process_set_option(&tokens)
    } else if is_word(first, "ucinewgame") {
        UciProcessResult::Reset
    } else if is_word(first, "position") {
        if tokens.len() < 2 || !is_word(&tokens[1], "startpos") {
            UciProcessResult::Noop
        } else if tokens.len() > 3 {
            process_position_startpos_with_mov_list(uci_cmd, &tokens, &starts)
        } else {
            process_position_startpos()
        }
    } else if is_word(first, "go") {
        process_go_cmd(&tokens)
    } else if is_word(first, "stop") {
        UciProcessResult::Stop
    } else if is_word(first, "quit") {
        UciProcessResult::Quit
    } else {
        UciProcessResult::Noop
    }
}

/// Whether two texts are the same bytes.
pub fn same_text(a: &str, b: &str) -> (r: bool)
    ensures
        r == (a.spec_bytes() == b.spec_bytes()),
{
    let x = a.as_bytes();
    let y = b.as_bytes();
    if x.len() != y.len() {
        return false;
    }
    let n: usize = x.len();
    let mut i: usize = 0;
    while i < n
        invariant
            i <= n,
            n == x@.len(),
            n == y@.len(),
            x@ == a.spec_bytes(),
            y@ == b.spec_bytes(),
            forall|j: int| 0 <= j < i ==> x@[j] == y@[j],
        decreases n - i,
    {
        if x[i] != y[i] {
            assert(a.spec_bytes()[i as int] != b.spec_bytes()[i as int]);
            return false;
        }
        i += 1;
    }
    assert(x@ =~= y@);
    true
}

/// The piece that a promotion letter names for `player`: queen, rook,
/// bishop or knight for `q`, `r`, `b`, `n`; 0 for any other text.
pub open spec fn spec_promo_of_letter(player: u8, promo: Seq<u8>) -> u8 {
    let white = player == def::PLAYER_W;
    if promo == "q".spec_bytes() {
        if white { def::WQ } else { def::BQ }
    } else if promo == "r".spec_bytes() {
        if white { def::WR } else { def::BR }
    } else if promo == "b".spec_bytes() {
        if white { def::WB } else { def::BB }
    } else if promo == "n".spec_bytes() {
        if white { def::WN } else { def::BN }
    } else {
        0
    }
}

/// Whether the text is one of the four king moves that castle.
pub open spec fn spec_is_castling_text(origin: Seq<u8>) -> bool {
    origin == "e1g1".spec_bytes() || origin == "e1c1".spec_bytes() || origin
        == "e8g8".spec_bytes() || origin == "e8c8".spec_bytes()
}

/// The kind tag and the promotion piece with which a move of the protocol
/// is made on a position. A move with a promotion letter is a promotion to
/// the piece that the letter names for the player to move, and nothing
/// where it names none. Else a king's move that is written as castling is
/// castling; a pawn's move to the en-passant square is a capture en
/// passant, and one over two ranks a double push; any other move is a plain
/// move.
pub open spec fn spec_classify_mov(
    pos: Position,
    from: usize,
    to: usize,
    promo: Seq<u8>,
    origin: Seq<u8>,
) -> Option<(u8, u8)> {
    let moving = pos.squares[from as int];
    if promo.len() != 0 {
        if spec_promo_of_letter(pos.player, promo) == 0 {
            None
        } else {
            Some((def::MOV_PROMO, spec_promo_of_letter(pos.player, promo)))
        }
    } else if (moving == def::WK || moving == def::BK) && spec_is_castling_text(origin) {
        Some((def::MOV_CAS, 0u8))
    } else if (moving == def::WP || moving == def::BP) && to == pos.enp_square {
        Some((def::MOV_ENP, 0u8))
    } else if (moving == def::WP || moving == def::BP) && (from == to + 16 || to == from + 16) {
        Some((def::MOV_CR_ENP, 0u8))
    } else {
        Some((def::MOV_REG, 0u8))
    }
}

/// The piece that a promotion letter names for `player`.
pub fn promo_of_letter(player: u8, promo: &str) -> (r: u8)
    ensures
        r == spec_promo_of_letter(player, promo.spec_bytes()),
{
    let white: bool = player == def::PLAYER_W;
    if same_text(promo, "q") {
        if white { def::WQ } else { def::BQ }
    } else if same_text(promo, "r") {
        if white { def::WR } else { def::BR }
    } else if same_text(promo, "b") {
        if white { def::WB } else { def::BB }
    } else if same_text(promo, "n") {
        if white { def::WN } else { def::BN }
    } else {
        0
    }
}

/// The kind tag and the promotion piece with which a move of the protocol
/// is made on a position; nothing where the promotion letter names no
/// piece.
pub fn classify_mov(pos: &Position, from: usize, to: usize, promo: &str, origin: &str) -> (r:
    Option<(u8, u8)>)
    requires
        from < 64,
        to < 64,
    ensures
        r == spec_classify_mov(*pos, from, to, promo.spec_bytes(), origin.spec_bytes()),
{
    let moving: u8 = pos.squares[from];
    if promo.as_bytes().len() != 0 {
        let piece: u8 = promo_of_letter(pos.player, promo);
        if piece == 0 {
            None
        } else {
            Some((def::MOV_PROMO, piece))
        }
    } else if def::is_k(moving) && (same_text(origin, "e1g1") || same_text(origin, "e1c1")
        || same_text(origin, "e8g8") || same_text(origin, "e8c8")) {
        Some((def::MOV_CAS, 0))
    } else if def::is_p(moving) && to == pos.enp_square {
        Some((def::MOV_ENP, 0))
    } else if def::is_p(moving) && (from == to + 16 || to == from + 16) {
        Some((def::MOV_CR_ENP, 0))
    } else {
        Some((def::MOV_REG, 0))
    }
}

} // verus!
