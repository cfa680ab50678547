//! The search for a nonce.
//!
//! A search walks the nonces from `nonce_start` upwards. It stops at the first
//! nonce whose digest meets the difficulty, or when it reaches `nonce_end`, or
//! when it has computed `max_hashes` digests. Either way it reports the lowest
//! digest it saw and the first nonce that gave it.

use vstd::prelude::*;
use crate::block::{
    block_content_text,
    encode_template,
    le_bytes_u32,
    lemma_template_content,
    template_content,
    template_error,
    template_prefix,
    with_nonce,
};
use crate::difficulty::{
    check_difficulty,
    difficulty_chunk,
    required_chunk,
    satisfies,
    Difficulty,
    DifficultyView,
};
use crate::digest::{digest_hex, sha256};
use crate::encoding::{hex_encode, hex_encoded, lemma_hex_alphabet};
use crate::error::MinerError;
use crate::order::{
    bytes_less,
    digest_less,
    lemma_hex_keeps_order,
    lemma_text_less_irreflexive,
    lemma_text_less_total,
    lemma_text_less_transitive,
    text_less,
};

verus! {

/// What a [`MinerResult`] stands for.
pub struct SearchOutcome {
    /// Whether a nonce was found whose digest meets the difficulty.
    pub found: bool,
    /// The winning nonce if one was found, the best nonce otherwise.
    pub nonce: u32,
    /// The digest of the block with `nonce`.
    pub hash: Seq<char>,
    /// How many digests the search computed.
    pub hashes_computed: u32,
    /// The first nonce that gave the lowest digest.
    pub best_nonce: u32,
    /// The lowest digest that the search saw.
    pub best_hash: Seq<char>,
}

/// The result of a search.
#[derive(Debug, PartialEq, Eq)]
pub struct MinerResult {
    found: bool,
    nonce: u32,
    hash: String,
    hashes_computed: u32,
    best_nonce: u32,
    best_hash: String,
}

impl View for MinerResult {
    type V = SearchOutcome;

    closed spec fn view(&self) -> SearchOutcome {
        SearchOutcome {
            found: self.found,
            nonce: self.nonce,
            hash: self.hash@,
            hashes_computed: self.hashes_computed,
            best_nonce: self.best_nonce,
            best_hash: self.best_hash@,
        }
    }
}

/// The lowest digest that a search has seen so far, and the first nonce that
/// gave it.
#[derive(Debug, PartialEq, Eq)]
pub struct Best {
    pub nonce: u32,
    pub digest: Vec<u8>,
}

/// The text that no digest comes after: 64 times `f`.
pub open spec fn max_hash() -> Seq<char> {
    Seq::new(64, |i: int| 'f')
}

/// The digest, as text, of the block that `prefix` and `nonce` make.
pub open spec fn candidate_hash(prefix: Seq<u8>, nonce: u32) -> Seq<char> {
    digest_hex(prefix + le_bytes_u32(nonce))
}

/// Whether the block that `prefix` and `nonce` make meets the difficulty.
pub open spec fn wins(
    prefix: Seq<u8>,
    chunk: Seq<char>,
    difficulty: DifficultyView,
    nonce: u32,
) -> bool {
    satisfies(candidate_hash(prefix, nonce), chunk, difficulty)
}

/// One past the last nonce that a search may examine: `nonce_end`, or the
/// nonce at which the budget of `max_hashes` digests runs out, whichever comes
/// first.
pub open spec fn search_end(nonce_start: u32, nonce_end: u32, max_hashes: u32) -> int {
    if nonce_end <= nonce_start + max_hashes {
        nonce_end as int
    } else {
        nonce_start + max_hashes
    }
}

/// Whether `best_hash` and `best_nonce` are what a search reports as its best
/// after it has examined the nonces from `start` up to, but not including,
/// `stop`. With no nonce examined that is the highest text and `start`. Else
/// it is the lowest digest among them, and the first nonce that gave it.
pub open spec fn is_best(
    best_hash: Seq<char>,
    best_nonce: u32,
    prefix: Seq<u8>,
    start: u32,
    stop: int,
) -> bool {
    if start < stop {
        &&& start <= best_nonce < stop
        &&& best_hash == candidate_hash(prefix, best_nonce)
        &&& forall|n: u32|
            start <= n < stop ==> !text_less(#[trigger] candidate_hash(prefix, n), best_hash)
        &&& forall|n: u32|
            start <= n < best_nonce ==> #[trigger] candidate_hash(prefix, n) != best_hash
    } else {
        best_hash == max_hash() && best_nonce == start
    }
}

/// Whether `outcome` is what a search over the nonces from `start` up to, but
/// not including, `end` reports.
///
/// If some nonce in the range wins, the search stops at the first such nonce:
/// it reports that nonce and its digest, has computed one digest for each
/// nonce up to it, and its best is the best among those. If none wins, the
/// search has computed one digest for each nonce in the range, its best is the
/// best among all of them, and it reports the best in place of a winner.
pub open spec fn is_search_outcome(
    outcome: SearchOutcome,
    prefix: Seq<u8>,
    chunk: Seq<char>,
    difficulty: DifficultyView,
    start: u32,
    end: int,
) -> bool {
    if outcome.found {
        &&& start <= outcome.nonce < end
        &&& wins(prefix, chunk, difficulty, outcome.nonce)
        &&& forall|n: u32|
            start <= n < outcome.nonce ==> !#[trigger] wins(prefix, chunk, difficulty, n)
        &&& outcome.hash == candidate_hash(prefix, outcome.nonce)
        &&& outcome.hashes_computed == outcome.nonce - start + 1
        &&& is_best(outcome.best_hash, outcome.best_nonce, prefix, start, outcome.nonce + 1)
    } else {
        &&& forall|n: u32| start <= n < end ==> !#[trigger] wins(prefix, chunk, difficulty, n)
        &&& outcome.hashes_computed == if start < end {
            end - start
        } else {
            0
        }
        &&& is_best(outcome.best_hash, outcome.best_nonce, prefix, start, end)
        &&& outcome.nonce == outcome.best_nonce
        &&& outcome.hash == outcome.best_hash
    }
}

/// Whether a search that started at `start` and has computed
/// `hashes_computed` digests has examined the nonce `n`. A search computes one
/// digest for each nonce, in ascending order.
pub open spec fn examined(start: u32, hashes_computed: u32, n: u32) -> bool {
    start <= n < start + hashes_computed
}

/// The end of a search does not wrap around: where `nonce_start + max_hashes`
/// is more than a nonce can hold, the budget ends at the highest nonce.
pub proof fn lemma_search_end_saturates(nonce_start: u32, nonce_end: u32, max_hashes: u32)
    ensures
        search_end(nonce_start, nonce_end, max_hashes) <= u32::MAX,
        search_end(nonce_start, nonce_end, max_hashes) == if nonce_start + max_hashes <= u32::MAX {
            vstd::math::min(nonce_end as int, nonce_start + max_hashes)
        } else {
            nonce_end as int
        },
{
}

/// A search computes at most `max_hashes` digests and examines no nonce from
/// `nonce_end` on. A winner is a nonce that it examined.
pub proof fn lemma_search_stays_in_bounds(
    outcome: SearchOutcome,
    prefix: Seq<u8>,
    chunk: Seq<char>,
    difficulty: DifficultyView,
    nonce_start: u32,
    nonce_end: u32,
    max_hashes: u32,
)
    requires
        is_search_outcome(
            outcome,
            prefix,
            chunk,
            difficulty,
            nonce_start,
            search_end(nonce_start, nonce_end, max_hashes),
        ),
    ensures
        outcome.hashes_computed <= max_hashes,
        forall|n: u32|
            #[trigger] examined(nonce_start, outcome.hashes_computed, n) ==> n < nonce_end,
        outcome.found ==> examined(nonce_start, outcome.hashes_computed, outcome.nonce),
{
}

/// Where a search reports a winner, the winner's block meets the difficulty,
/// and the reported hash is the digest of that block.
pub proof fn lemma_winner_meets_difficulty(
    outcome: SearchOutcome,
    prefix: Seq<u8>,
    chunk: Seq<char>,
    difficulty: DifficultyView,
    start: u32,
    end: int,
)
    requires
        is_search_outcome(outcome, prefix, chunk, difficulty, start, end),
        outcome.found,
    ensures
        satisfies(outcome.hash, chunk, difficulty),
        outcome.hash == digest_hex(prefix + le_bytes_u32(outcome.nonce)),
{
}

/// Whether a winner was found or not, no digest of a nonce that the search
/// examined comes before its best hash. Where it examined a nonce, the best
/// hash is the digest of one that it examined; where it examined none, the
/// best hash is the highest text.
pub proof fn lemma_best_is_lowest(
    outcome: SearchOutcome,
    prefix: Seq<u8>,
    chunk: Seq<char>,
    difficulty: DifficultyView,
    start: u32,
    end: int,
)
    requires
        is_search_outcome(outcome, prefix, chunk, difficulty, start, end),
    ensures
        forall|n: u32|
            examined(start, outcome.hashes_computed, n) ==> !text_less(
                #[trigger] candidate_hash(prefix, n),
                outcome.best_hash,
            ),
        outcome.hashes_computed > 0 ==> examined(
            start,
            outcome.hashes_computed,
            outcome.best_nonce,
        ) && outcome.best_hash == candidate_hash(prefix, outcome.best_nonce),
        outcome.hashes_computed == 0 ==> outcome.best_hash == max_hash(),
{
}

/// The winner that a search over a template reports is a nonce for which the
/// template has a block: the reported hash is the digest of the content that
/// `build_block_content` lays out for the template and that nonce, and it
/// meets the difficulty.
pub proof fn lemma_winner_is_block_digest(
    outcome: SearchOutcome,
    previous_hash: Seq<char>,
    pool_address: Seq<char>,
    merkle_root: Seq<char>,
    timestamp: u32,
    difficulty: DifficultyView,
    start: u32,
    end: int,
)
    requires
        template_error(previous_hash, pool_address, merkle_root) is None,
        is_search_outcome(
            outcome,
            template_prefix(previous_hash, pool_address, merkle_root, timestamp, difficulty.scaled),
            required_chunk(previous_hash, difficulty.prefix_len),
            difficulty,
            start,
            end,
        ),
        outcome.found,
    ensures
        satisfies(outcome.hash, required_chunk(previous_hash, difficulty.prefix_len), difficulty),
        ({
            let content = template_content(
                previous_hash,
                pool_address,
                merkle_root,
                timestamp,
                difficulty.scaled,
                outcome.nonce,
            );
            &&& outcome.hash == digest_hex(content)
            &&& block_content_text(
                previous_hash,
                pool_address,
                merkle_root,
                timestamp,
                difficulty.scaled,
                outcome.nonce,
            ) == Ok::<Seq<char>, MinerError>(hex_encoded(content))
        }),
{
    lemma_template_content(
        previous_hash,
        pool_address,
        merkle_root,
        timestamp,
        difficulty.scaled,
        outcome.nonce,
    );
}

/// A search has one outcome: two outcomes of a search over the same range,
/// with the same block prefix, chunk and difficulty, are equal.
pub proof fn lemma_search_outcome_unique(
    first: SearchOutcome,
    second: SearchOutcome,
    prefix: Seq<u8>,
    chunk: Seq<char>,
    difficulty: DifficultyView,
    start: u32,
    end: int,
)
    requires
        is_search_outcome(first, prefix, chunk, difficulty, start, end),
        is_search_outcome(second, prefix, chunk, difficulty, start, end),
    ensures
        first == second,
{
    let stop: int = if first.found {
        first.nonce + 1
    } else {
        end
    };
    if start < stop {
        lemma_text_less_total(first.best_hash, second.best_hash);
    }
}

/// The digest that no digest comes after: 32 bytes `0xff`.
pub open spec fn max_digest() -> Seq<u8> {
    Seq::new(32, |i: int| 0xffu8)
}

/// The highest digest is written as the highest text.
proof fn lemma_max_digest_text()
    ensures
        hex_encoded(max_digest()) == max_hash(),
{
    lemma_hex_alphabet();
}

/// Bytes that do not come before a row of `0xff` of their own length are that
/// row.
proof fn lemma_not_below_top(digest: Seq<u8>, top: Seq<u8>)
    requires
        digest.len() == top.len(),
        forall|i: int| 0 <= i < top.len() ==> top[i] == 0xff,
        !bytes_less(digest, top),
    ensures
        digest == top,
    decreases digest.len(),
{
    if digest.len() > 0 {
        lemma_not_below_top(digest.drop_first(), top.drop_first());
        assert(digest =~= seq![digest[0]] + digest.drop_first());
        assert(top =~= seq![top[0]] + top.drop_first());
    }
}

impl Best {
    /// The best of a search that has seen no digest yet: the highest digest
    /// there is, under the nonce that the search starts at.
    pub fn start(nonce_start: u32) -> (r: Best)
        ensures
            r.nonce == nonce_start,
            r.digest@ == max_digest(),
    {
        let digest: Vec<u8> = vec![0xffu8; 32];
        Best { nonce: nonce_start, digest }
    }

    /// Holds the digest of `nonce` against the best so far. A digest that
    /// comes before the best takes its place; any other leaves it as it is,
    /// so that of equal digests the first one stays.
    pub fn offer(&mut self, nonce: u32, digest: Vec<u8>)
        ensures
            final(self).nonce == if bytes_less(digest@, old(self).digest@) {
                nonce
            } else {
                old(self).nonce
            },
            final(self).digest@ == if bytes_less(digest@, old(self).digest@) {
                digest@
            } else {
                old(self).digest@
            },
    {
        if digest_less(digest.as_slice(), self.digest.as_slice()) {
            self.nonce = nonce;
            self.digest = digest;
        }
    }

    /// The best digest as lowercase hexadecimal text.
    pub fn hash(&self) -> (r: String)
        ensures
            r@ == hex_encoded(self.digest@),
    {
        hex_encode(self.digest.as_slice())
    }
}

impl MinerResult {
    /// A result from its parts.
    pub fn new(
        found: bool,
        nonce: u32,
        hash: String,
        hashes_computed: u32,
        best_nonce: u32,
        best_hash: String,
    ) -> (r: MinerResult)
        ensures
            r@ == (SearchOutcome {
                found,
                nonce,
                hash: hash@,
                hashes_computed,
                best_nonce,
                best_hash: best_hash@,
            }),
    {
        MinerResult { found, nonce, hash, hashes_computed, best_nonce, best_hash }
    }

    /// Whether a nonce was found whose digest meets the difficulty.
    pub fn found(&self) -> (r: bool)
        ensures
            r == self@.found,
    {
        self.found
    }

    /// The winning nonce if one was found, the best nonce otherwise.
    pub fn nonce(&self) -> (r: u32)
        ensures
            r == self@.nonce,
    {
        self.nonce
    }

    /// The digest of the block with [`MinerResult::nonce`].
    pub fn hash(&self) -> (r: String)
        ensures
            r@ == self@.hash,
    {
        self.hash.clone()
    }

    /// How many digests the search computed.
    pub fn hashes_computed(&self) -> (r: u32)
        ensures
            r == self@.hashes_computed,
    {
        self.hashes_computed
    }

    /// The first nonce that gave the lowest digest.
    pub fn best_nonce(&self) -> (r: u32)
        ensures
            r == self@.best_nonce,
    {
        self.best_nonce
    }

    /// The lowest digest that the search saw.
    pub fn best_hash(&self) -> (r: String)
        ensures
            r@ == self@.best_hash,
    {
        self.best_hash.clone()
    }

    /// The content of the winning block. A search does not keep it: this is
    /// always the empty text, and the host builds the content where it needs
    /// it.
    pub fn block_content_hex(&self) -> (r: String)
        ensures
            r@ == Seq::<char>::empty(),
    {
        String::new()
    }
}

/// Searches the nonces from `nonce_start` for one whose block meets the
/// difficulty. `prefix` is the content of the block without its nonce, `chunk`
/// the prefix that a winning digest must begin with. The search ends before
/// `nonce_end` and after at most `max_hashes` digests.
pub fn search_range(
    prefix: &[u8],
    chunk: &str,
    difficulty: Difficulty,
    nonce_start: u32,
    nonce_end: u32,
    max_hashes: u32,
) -> (res: MinerResult)
    ensures
        is_search_outcome(
            res@,
            prefix@,
            chunk@,
            difficulty@,
            nonce_start,
            search_end(nonce_start, nonce_end, max_hashes),
        ),
{
    let budget_end: u32 = nonce_start.saturating_add(max_hashes);
    let end: u32 = if nonce_end < budget_end {
        nonce_end
    } else {
        budget_end
    };

    let mut best = Best::start(nonce_start);
    let mut hashes_computed: u32 = 0;
    let mut nonce: u32 = nonce_start;
    proof {
        lemma_max_digest_text();
    }
    while nonce < end
        invariant
            end == search_end(nonce_start, nonce_end, max_hashes),
            nonce_start <= nonce,
            nonce_start < end ==> nonce <= end,
            nonce_start >= end ==> nonce == nonce_start,
            hashes_computed == nonce - nonce_start,
            best.digest@.len() == 32,
            nonce == nonce_start ==> best.digest@ == max_digest() && best.nonce == nonce_start,
            is_best(hex_encoded(best.digest@), best.nonce, prefix@, nonce_start, nonce as int),
            forall|n: u32|
                nonce_start <= n < nonce ==> !#[trigger] wins(prefix@, chunk@, difficulty@, n),
        decreases end - nonce,
    {
        let content = with_nonce(prefix, nonce);
        let digest = sha256(content.as_slice());
        let hash_hex = hex_encode(digest.as_slice());
        hashes_computed = hashes_computed + 1;

        proof {
            let hash = candidate_hash(prefix@, nonce);
            let old_best = hex_encoded(best.digest@);
            lemma_hex_keeps_order(digest@, best.digest@);
            lemma_text_less_irreflexive(hash);
            if text_less(hash, old_best) {
                assert forall|n: u32| nonce_start <= n < nonce implies !text_less(
                    #[trigger] candidate_hash(prefix@, n),
                    hash,
                ) && candidate_hash(prefix@, n) != hash by {
                    if text_less(candidate_hash(prefix@, n), hash) {
                        lemma_text_less_transitive(candidate_hash(prefix@, n), hash, old_best);
                    }
                }
            } else if nonce == nonce_start {
                lemma_not_below_top(digest@, max_digest());
            }
        }
        best.offer(nonce, digest);

        if check_difficulty(hash_hex.as_str(), chunk, difficulty) {
            let best_hash = best.hash();
            return MinerResult {
                found: true,
                nonce,
                hash: hash_hex,
                hashes_computed,
                best_nonce: best.nonce,
                best_hash,
            };
        }
        nonce = nonce + 1;
    }
    let best_hash = best.hash();
    MinerResult {
        found: false,
        nonce: best.nonce,
        hash: best_hash.clone(),
        hashes_computed,
        best_nonce: best.nonce,
        best_hash,
    }
}

/// Searches a range of nonces for one that, with the given template, makes a
/// block whose digest meets the difficulty.
///
/// The template is checked before the search starts. The search examines the
/// nonces from `nonce_start` upwards, ends before `nonce_end` and computes at
/// most `max_hashes` digests.
pub fn mine_range(
    previous_hash: &str,
    pool_address: &str,
    merkle_root: &str,
    timestamp: u32,
    difficulty: Difficulty,
    nonce_start: u32,
    nonce_end: u32,
    max_hashes: u32,
) -> (r: Result<MinerResult, MinerError>)
    ensures
        match r {
            Ok(res) => {
                &&& template_error(previous_hash@, pool_address@, merkle_root@) is None
                &&& is_search_outcome(
                    res@,
                    template_prefix(
                        previous_hash@,
                        pool_address@,
                        merkle_root@,
                        timestamp,
                        difficulty@.scaled,
                    ),
                    required_chunk(previous_hash@, difficulty@.prefix_len),
                    difficulty@,
                    nonce_start,
                    search_end(nonce_start, nonce_end, max_hashes),
                )
            },
            Err(e) => template_error(previous_hash@, pool_address@, merkle_root@) == Some(e),
        },
{
    let prefix = match encode_template(
        previous_hash,
        pool_address,
        merkle_root,
        timestamp,
        difficulty,
    ) {
        Ok(prefix) => prefix,
        Err(e) => {
            return Err(e);
        },
    };
    let chunk = difficulty_chunk(previous_hash, difficulty);
    Ok(search_range(prefix.as_slice(), chunk, difficulty, nonce_start, nonce_end, max_hashes))
}

} // verus!
