//! Difficulty and the predicate that a winning digest has to meet.
//!
//! A difficulty has a whole part and a fractional part. The whole part is the
//! number of leading characters of the digest that must repeat the tail of the
//! previous block's hash. A fractional part narrows the hexadecimal digits
//! admitted at the position right behind them: the larger the fraction, the
//! fewer digits pass.
//!
//! A host that holds a difficulty `d` as a number passes three whole numbers:
//! the whole part of `d`; `10 * d` cut to a whole number; and, where `d` has a
//! fractional part `f`, the count `16 * (1 - f)` rounded up, which lies
//! between 1 and 16.

use vstd::prelude::*;
use vstd::std_specs::iter::IteratorSpec;
use vstd::string::StrSliceExecFns;
use crate::encoding::{hex_alphabet, lemma_hex_alphabet};

verus! {

/// What a [`Difficulty`] stands for.
pub struct DifficultyView {
    /// The whole part: how many characters the required prefix has, and the
    /// position of the character behind it.
    pub prefix_len: nat,
    /// Ten times the difficulty, cut to a whole number: the form in which a
    /// block carries its difficulty.
    pub scaled: u16,
    /// With a fractional part, how many of the lowest hexadecimal digits are
    /// admitted behind the prefix; `None` without one.
    pub boundary: Option<nat>,
}

/// A difficulty, held as the whole numbers that the block layout and the
/// predicate read.
#[derive(Clone, Copy, Debug, PartialEq, Eq)]
pub struct Difficulty {
    prefix_len: usize,
    scaled: u16,
    boundary: Option<u8>,
}

impl View for Difficulty {
    type V = DifficultyView;

    closed spec fn view(&self) -> DifficultyView {
        DifficultyView {
            prefix_len: self.prefix_len as nat,
            scaled: self.scaled,
            boundary: match self.boundary {
                Some(count) => Some(count as nat),
                None => None,
            },
        }
    }
}

impl Difficulty {
    /// A boundary admits at least one digit and at most all sixteen.
    #[verifier::type_invariant]
    spec fn well_formed(self) -> bool {
        self.boundary matches Some(count) ==> 1 <= count <= 16
    }

    /// A difficulty from its parts. A boundary, where there is one, admits
    /// between 1 and 16 digits; other counts are refused.
    pub fn new(prefix_len: usize, scaled: u16, boundary: Option<u8>) -> (r: Option<Difficulty>)
        ensures
            r is Some <==> (boundary matches Some(count) ==> 1 <= count <= 16),
            r matches Some(d) ==> d@ == (DifficultyView {
                prefix_len: prefix_len as nat,
                scaled,
                boundary: match boundary {
                    Some(count) => Some(count as nat),
                    None => None,
                },
            }),
    {
        match boundary {
            Some(count) if count < 1 || count > 16 => None,
            _ => Some(Difficulty { prefix_len, scaled, boundary }),
        }
    }

    /// The length of the required prefix.
    pub fn prefix_len(&self) -> (r: usize)
        ensures
            r == self@.prefix_len,
    {
        self.prefix_len
    }

    /// Ten times the difficulty, as a block carries it.
    pub fn scaled(&self) -> (r: u16)
        ensures
            r == self@.scaled,
    {
        self.scaled
    }

    /// How many hexadecimal digits are admitted behind the prefix, if the
    /// difficulty has a fractional part.
    pub fn boundary(&self) -> (r: Option<u8>)
        ensures
            r is Some <==> self@.boundary is Some,
            r matches Some(count) ==> self@.boundary == Some(count as nat) && 1 <= count <= 16,
    {
        proof {
            use_type_invariant(self);
        }
        self.boundary
    }
}

/// Whether `c` is one of the first `count` lowercase hexadecimal digits.
pub open spec fn admitted_digit(c: char, count: nat) -> bool {
    exists|k: int| 0 <= k < count && k < 16 && #[trigger] hex_alphabet()[k] == c
}

/// The difficulty predicate. The hash has to begin with `chunk`. Where the
/// difficulty has a fractional part, the hash must also have a character at
/// the position that the whole part names, and that character must be among
/// the admitted digits.
pub open spec fn satisfies(hash: Seq<char>, chunk: Seq<char>, difficulty: DifficultyView) -> bool {
    &&& chunk.is_prefix_of(hash)
    &&& match difficulty.boundary {
        None => true,
        Some(count) => difficulty.prefix_len < hash.len() && admitted_digit(
            hash[difficulty.prefix_len as int],
            count,
        ),
    }
}

/// The digits admitted for a count are the lowercase hexadecimal digits whose
/// value is below that count.
pub proof fn lemma_admitted_digit_value(c: char, count: nat)
    ensures
        admitted_digit(c, count) <==> ({
            ||| '0' <= c && c <= '9' && (c as int) - ('0' as int) < count as int
            ||| 'a' <= c && c <= 'f' && (c as int) - ('a' as int) + 10 < count as int
        }),
{
    lemma_hex_alphabet();
    if '0' <= c && c <= '9' && (c as int) - ('0' as int) < count as int {
        assert(hex_alphabet()[c as int - '0' as int] == c);
    }
    if 'a' <= c && c <= 'f' && (c as int) - ('a' as int) + 10 < count as int {
        assert(hex_alphabet()[c as int - 'a' as int + 10] == c);
    }
}

/// A higher count admits every digit that a lower count admits: the larger the
/// fractional part of a difficulty, the smaller its count and the fewer the
/// digits that pass.
pub proof fn lemma_admitted_digits_grow(c: char, lower: nat, higher: nat)
    requires
        lower <= higher,
        admitted_digit(c, lower),
    ensures
        admitted_digit(c, higher),
{
    lemma_admitted_digit_value(c, lower);
    lemma_admitted_digit_value(c, higher);
}

/// A difficulty without a fractional part asks for the prefix and nothing
/// else: whatever follows the prefix, the hash passes.
pub proof fn lemma_whole_difficulty(hash: Seq<char>, chunk: Seq<char>, difficulty: DifficultyView)
    requires
        difficulty.boundary is None,
    ensures
        satisfies(hash, chunk, difficulty) == chunk.is_prefix_of(hash),
{
}

/// A difficulty with a fractional part asks for the prefix and, at the
/// position that its whole part names, for a lowercase hexadecimal digit whose
/// value is below the count of admitted digits.
pub proof fn lemma_fractional_difficulty(
    hash: Seq<char>,
    chunk: Seq<char>,
    difficulty: DifficultyView,
)
    requires
        difficulty.boundary is Some,
    ensures
        satisfies(hash, chunk, difficulty) <==> ({
            let c = hash[difficulty.prefix_len as int];
            let count = difficulty.boundary.unwrap();
            &&& chunk.is_prefix_of(hash)
            &&& difficulty.prefix_len < hash.len()
            &&& ({
                ||| '0' <= c && c <= '9' && (c as int) - ('0' as int) < count as int
                ||| 'a' <= c && c <= 'f' && (c as int) - ('a' as int) + 10 < count as int
            })
        }),
{
    lemma_admitted_digit_value(
        hash[difficulty.prefix_len as int],
        difficulty.boundary.unwrap(),
    );
}

/// The prefix that a winning digest must begin with: the last `prefix_len`
/// characters of the previous block's hash, or all of it if it has fewer.
pub open spec fn required_chunk(previous_hash: Seq<char>, prefix_len: nat) -> Seq<char> {
    if prefix_len < previous_hash.len() {
        previous_hash.skip(previous_hash.len() - prefix_len)
    } else {
        previous_hash
    }
}

/// The prefix that a winning digest must begin with.
pub fn difficulty_chunk<'a>(previous_hash: &'a str, difficulty: Difficulty) -> (chunk: &'a str)
    ensures
        chunk@ == required_chunk(previous_hash@, difficulty@.prefix_len),
{
    let len: usize = previous_hash.unicode_len();
    let from: usize = if difficulty.prefix_len < len {
        len - difficulty.prefix_len
    } else {
        0
    };
    previous_hash.substring_char(from, len)
}

/// Whether the text `hash` begins with the text `chunk`.
pub fn starts_with(hash: &str, chunk: &str) -> (r: bool)
    ensures
        r == chunk@.is_prefix_of(hash@),
{
    broadcast use vstd::string::group_string_axioms;

    let mut rest_hash = hash.chars();
    let mut rest_chunk = chunk.chars();
    let ghost mut seen: int = 0;
    loop
        invariant
            rest_hash.obeys_prophetic_iter_laws(),
            rest_chunk.obeys_prophetic_iter_laws(),
            0 <= seen <= hash@.len(),
            seen <= chunk@.len(),
            rest_hash.remaining() == hash@.skip(seen),
            rest_chunk.remaining() == chunk@.skip(seen),
            hash@.take(seen) == chunk@.take(seen),
        decreases chunk@.len() - seen,
    {
        match rest_chunk.next() {
            None => {
                return true;
            },
            Some(wanted) => {
                match rest_hash.next() {
                    None => {
                        return false;
                    },
                    Some(found) => {
                        if found != wanted {
                            return false;
                        }
                        proof {
                            seen = seen + 1;
                        }
                    },
                }
            },
        }
    }
}

/// The character of `text` at position `index`, if it has one there.
pub fn char_at(text: &str, index: usize) -> (r: Option<char>)
    ensures
        r == if index < text@.len() {
            Some(text@[index as int])
        } else {
            None
        },
{
    broadcast use vstd::string::group_string_axioms;

    let mut rest = text.chars();
    let mut passed: usize = 0;
    loop
        invariant
            rest.obeys_prophetic_iter_laws(),
            passed <= index,
            passed <= text@.len(),
            rest.remaining() == text@.skip(passed as int),
        decreases text@.len() - passed,
    {
        match rest.next() {
            None => {
                return None;
            },
            Some(c) => {
                if passed == index {
                    return Some(c);
                }
                passed = passed + 1;
            },
        }
    }
}

/// Whether `c` is one of the first `count` lowercase hexadecimal digits.
pub fn is_admitted_digit(c: char, count: u8) -> (r: bool)
    ensures
        r == admitted_digit(c, count as nat),
{
    let code: u32 = c as u32;
    let rank: u32 = if 48 <= code && code <= 57 {
        code - 48
    } else if 97 <= code && code <= 102 {
        code - 87
    } else {
        16
    };
    proof {
        lemma_hex_alphabet();
        if rank < 16 {
            assert(hex_alphabet()[rank as int] == c);
        }
    }
    rank < 16 && rank < count as u32
}

/// Whether the digest `hash_hex` meets `difficulty` for the required prefix
/// `chunk`.
pub fn check_difficulty(hash_hex: &str, chunk: &str, difficulty: Difficulty) -> (ok: bool)
    ensures
        ok == satisfies(hash_hex@, chunk@, difficulty@),
{
    if !starts_with(hash_hex, chunk) {
        return false;
    }
    match difficulty.boundary() {
        None => true,
        Some(count) => match char_at(hash_hex, difficulty.prefix_len()) {
            Some(c) => is_admitted_digit(c, count),
            None => false,
        },
    }
}

} // verus!
