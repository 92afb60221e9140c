//! The ledger data model: blocks, chains, hashing, and validation.

use sha2::{Digest, Sha256};
use vstd::prelude::*;
use vstd::string::StringExecFns;

verus! {

/// The decimal digit `d` as a character, for `d < 10`.
pub open spec fn dec_digit(d: nat) -> char {
    if d == 0 {
        '0'
    } else if d == 1 {
        '1'
    } else if d == 2 {
        '2'
    } else if d == 3 {
        '3'
    } else if d == 4 {
        '4'
    } else if d == 5 {
        '5'
    } else if d == 6 {
        '6'
    } else if d == 7 {
        '7'
    } else if d == 8 {
        '8'
    } else {
        '9'
    }
}

/// The canonical decimal rendering of `n`: no sign, no leading zeroes
/// (except for `n == 0`, rendered as "0").
pub open spec fn dec_str(n: nat) -> Seq<char>
    decreases n,
{
    if n < 10 {
        seq![dec_digit(n)]
    } else {
        dec_str(n / 10).push(dec_digit(n % 10))
    }
}

/// The single decimal digit `d` as a string slice.
fn digit_str(d: u64) -> (s: &'static str)
    requires
        d < 10,
    ensures
        s@ == seq![dec_digit(d as nat)],
{
    let s: &'static str = match d {
        0 => "0",
        1 => "1",
        2 => "2",
        3 => "3",
        4 => "4",
        5 => "5",
        6 => "6",
        7 => "7",
        8 => "8",
        _ => "9",
    };
    proof {
        reveal_strlit("0");
        reveal_strlit("1");
        reveal_strlit("2");
        reveal_strlit("3");
        reveal_strlit("4");
        reveal_strlit("5");
        reveal_strlit("6");
        reveal_strlit("7");
        reveal_strlit("8");
        reveal_strlit("9");
        assert(s@ =~= seq![dec_digit(d as nat)]);
    }
    s
}

/// Renders `n` in decimal, matching `dec_str`.
fn u64_dec_string(n: u64) -> (s: String)
    ensures
        s@ == dec_str(n as nat),
    decreases n,
{
    if n < 10 {
        String::from_str(digit_str(n))
    } else {
        let rest = u64_dec_string(n / 10);
        let s = rest.concat(digit_str(n % 10));
        proof {
            assert(s@ =~= dec_str(n as nat));
        }
        s
    }
}

/// The hexadecimal digit `d` as a lowercase character, for `d < 16`.
pub open spec fn hex_digit(d: nat) -> char {
    if d == 0 {
        '0'
    } else if d == 1 {
        '1'
    } else if d == 2 {
        '2'
    } else if d == 3 {
        '3'
    } else if d == 4 {
        '4'
    } else if d == 5 {
        '5'
    } else if d == 6 {
        '6'
    } else if d == 7 {
        '7'
    } else if d == 8 {
        '8'
    } else if d == 9 {
        '9'
    } else if d == 10 {
        'a'
    } else if d == 11 {
        'b'
    } else if d == 12 {
        'c'
    } else if d == 13 {
        'd'
    } else if d == 14 {
        'e'
    } else {
        'f'
    }
}

/// The lowercase hexadecimal rendering of a byte string, two digits per byte.
pub open spec fn hex_str(bytes: Seq<u8>) -> Seq<char>
    decreases bytes.len(),
{
    if bytes.len() == 0 {
        seq![]
    } else {
        seq![
            hex_digit((bytes.first() >> 4u8) as nat),
            hex_digit((bytes.first() & 0x0fu8) as nat),
        ] + hex_str(bytes.drop_first())
    }
}

/// The single hexadecimal digit `d` as a string slice.
fn hex_digit_str(d: u8) -> (s: &'static str)
    requires
        d < 16,
    ensures
        s@ == seq![hex_digit(d as nat)],
{
    let s: &'static str = match d {
        0 => "0",
        1 => "1",
        2 => "2",
        3 => "3",
        4 => "4",
        5 => "5",
        6 => "6",
        7 => "7",
        8 => "8",
        9 => "9",
        10 => "a",
        11 => "b",
        12 => "c",
        13 => "d",
        14 => "e",
        _ => "f",
    };
    proof {
        reveal_strlit("0");
        reveal_strlit("1");
        reveal_strlit("2");
        reveal_strlit("3");
        reveal_strlit("4");
        reveal_strlit("5");
        reveal_strlit("6");
        reveal_strlit("7");
        reveal_strlit("8");
        reveal_strlit("9");
        reveal_strlit("a");
        reveal_strlit("b");
        reveal_strlit("c");
        reveal_strlit("d");
        reveal_strlit("e");
        reveal_strlit("f");
        assert(s@ =~= seq![hex_digit(d as nat)]);
    }
    s
}

/// Renders a byte string in lowercase hexadecimal, matching `hex_str`.
fn to_hex_lower(bytes: &Vec<u8>) -> (s: String)
    ensures
        s@ == hex_str(bytes@),
{
    let mut s = String::new();
    let n = bytes.len();
    proof {
        assert(bytes@.skip(0) =~= bytes@);
    }
    for i in 0..n
        invariant
            n == bytes@.len(),
            hex_str(bytes@) =~= s@ + hex_str(bytes@.skip(i as int)),
    {
        let b = bytes[i];
        assert(b >> 4u8 < 16 && b & 0x0fu8 < 16) by (bit_vector);
        let hi = hex_digit_str(b >> 4u8);
        let lo = hex_digit_str(b & 0x0fu8);
        s.append(hi);
        s.append(lo);
        proof {
            assert(bytes@.skip(i as int).drop_first() =~= bytes@.skip(i + 1));
            assert(bytes@.skip(i as int).first() == bytes@[i as int]);
        }
    }
    proof {
        assert(s@ =~= hex_str(bytes@));
    }
    s
}

/// The SHA-256 digest of the byte encoding of a character string,
/// a fixed function of that string alone.
pub uninterp spec fn sha256_of(s: Seq<char>) -> Seq<u8>;

/// Relies on `sha2::Sha256` (through `digest::Digest::digest`): the SHA-256
/// digest of the input bytes, a function of those bytes alone.
#[verifier::external_body]
fn sha256_digest(s: &str) -> (r: Vec<u8>)
    ensures
        r@ == sha256_of(s@),
{
    Sha256::digest(s.as_bytes()).to_vec()
}

/// The canonical hash input of a block: the four fields rendered as text and
/// concatenated in order.
///
/// Adjacent fields are neither delimited nor length-prefixed, so crafted
/// values can yield the same input under different field splits (a digit
/// moved between `index` and `previous_hash`, say). This rendering, with
/// that known limitation, is the fixed encoding contract every node must
/// reproduce bit for bit.
pub open spec fn hash_input(
    index: nat,
    previous_hash: Seq<char>,
    timestamp: nat,
    data: Seq<char>,
) -> Seq<char> {
    dec_str(index) + previous_hash + dec_str(timestamp) + data
}

/// The hash of a block's fields: SHA-256 of the canonical hash input,
/// rendered as lowercase hexadecimal.
pub open spec fn spec_hash(
    index: nat,
    previous_hash: Seq<char>,
    timestamp: nat,
    data: Seq<char>,
) -> Seq<char> {
    hex_str(sha256_of(hash_input(index, previous_hash, timestamp, data)))
}

/// Computes the hash of a block's fields; bit-for-bit reproducible across
/// nodes.
pub fn calculate_hash(index: usize, previous_hash: &str, timestamp: u64, data: &str) -> (r: String)
    ensures
        r@ == spec_hash(index as nat, previous_hash@, timestamp as nat, data@),
{
    let mut input = u64_dec_string(index as u64);
    input.append(previous_hash);
    let ts = u64_dec_string(timestamp);
    input.append(ts.as_str());
    input.append(data);
    proof {
        assert(input@ =~= hash_input(index as nat, previous_hash@, timestamp as nat, data@));
    }
    let digest = sha256_digest(input.as_str());
    to_hex_lower(&digest)
}

/// One hash-linked unit of the ledger.
///
/// `hash` is computed from the other four fields at construction time
/// (`Block::new`), or supplied and later re-validated when the block was
/// reconstructed from the wire (`Block::_new_with_hash`).
#[derive(Debug)]
pub struct Block {
    pub index: usize,
    pub previous_hash: String,
    pub timestamp: u64,
    pub data: String,
    pub hash: String,
}

/// Two blocks are equal when all five fields hold the same values.
pub open spec fn block_eq(a: Block, b: Block) -> bool {
    &&& a.index == b.index
    &&& a.previous_hash@ == b.previous_hash@
    &&& a.timestamp == b.timestamp
    &&& a.data@ == b.data@
    &&& a.hash@ == b.hash@
}

impl Clone for Block {
    fn clone(&self) -> (r: Block)
        ensures
            r == *self,
    {
        Block {
            index: self.index,
            previous_hash: self.previous_hash.clone(),
            timestamp: self.timestamp,
            data: self.data.clone(),
            hash: self.hash.clone(),
        }
    }
}

impl PartialEq for Block {
    fn eq(&self, other: &Block) -> (r: bool) {
        self.index == other.index && self.previous_hash == other.previous_hash
            && self.timestamp == other.timestamp && self.data == other.data
            && self.hash == other.hash
    }
}

impl vstd::std_specs::cmp::PartialEqSpecImpl for Block {
    open spec fn obeys_eq_spec() -> bool {
        true
    }

    open spec fn eq_spec(&self, other: &Block) -> bool {
        block_eq(*self, *other)
    }
}

impl Eq for Block {}

/// The stored hash matches the hash recomputed from the block's own fields.
pub open spec fn block_hash_ok(b: Block) -> bool {
    b.hash@ == spec_hash(b.index as nat, b.previous_hash@, b.timestamp as nat, b.data@)
}

/// The fixed genesis block: the network-wide trust anchor at index 0.
pub open spec fn is_genesis(b: Block) -> bool {
    &&& b.index == 0
    &&& b.previous_hash@ == "0"@
    &&& b.timestamp == 1723020013
    &&& b.data@ == "genesis"@
    &&& block_hash_ok(b)
}

/// `b` extends a chain ending in `prev`: the index increments by exactly one,
/// `b.previous_hash` is `prev`'s hash, and `b`'s stored hash recomputes.
pub open spec fn valid_successor(b: Block, prev: Block) -> bool {
    &&& b.index == prev.index + 1
    &&& b.previous_hash@ == prev.hash@
    &&& block_hash_ok(b)
}

/// A whole chain is valid: it starts with the genesis block and every
/// adjacent pair is a valid succession. A single-element chain (genesis
/// only) is valid; an empty one is not.
pub open spec fn valid_chain(c: Seq<Block>) -> bool {
    &&& c.len() >= 1
    &&& is_genesis(c[0])
    &&& forall|i: int| 1 <= i < c.len() ==> valid_successor(#[trigger] c[i], c[i - 1])
}

impl Block {
    /// Constructs a block with a freshly computed hash; the way locally
    /// authored blocks come to be.
    pub fn new(index: usize, previous_hash: &str, timestamp: u64, data: &str) -> (b: Block)
        ensures
            b.index == index,
            b.previous_hash@ == previous_hash@,
            b.timestamp == timestamp,
            b.data@ == data@,
            block_hash_ok(b),
    {
        let hash = calculate_hash(index, previous_hash, timestamp, data);
        Block {
            index,
            previous_hash: previous_hash.to_owned(),
            timestamp,
            data: data.to_owned(),
            hash,
        }
    }

    /// Reconstructs a block received over the wire, taking the sender's hash
    /// on trust; validation happens later, against the recomputed hash.
    pub fn _new_with_hash(
        index: usize,
        previous_hash: &str,
        timestamp: u64,
        data: &str,
        hash: &str,
    ) -> (b: Block)
        ensures
            b.index == index,
            b.previous_hash@ == previous_hash@,
            b.timestamp == timestamp,
            b.data@ == data@,
            b.hash@ == hash@,
    {
        Block {
            index,
            previous_hash: previous_hash.to_owned(),
            timestamp,
            data: data.to_owned(),
            hash: hash.to_owned(),
        }
    }
}

/// Recomputes the hash of `block` from its own four content fields.
pub fn calculate_hash_from_block(block: &Block) -> (r: String)
    ensures
        r@ == spec_hash(
            block.index as nat,
            block.previous_hash@,
            block.timestamp as nat,
            block.data@,
        ),
{
    calculate_hash(block.index, block.previous_hash.as_str(), block.timestamp, block.data.as_str())
}

/// Copies a vector of blocks element for element.
pub fn clone_blocks(v: &Vec<Block>) -> (r: Vec<Block>)
    ensures
        r@ == v@,
{
    let mut r: Vec<Block> = Vec::new();
    let n = v.len();
    for i in 0..n
        invariant
            n == v@.len(),
            r@ =~= v@.subrange(0, i as int),
    {
        r.push(v[i].clone());
    }
    proof {
        assert(r@ =~= v@);
    }
    r
}

/// The node's local ledger: an ordered run of blocks from genesis to tip.
///
/// `next_index` tracks the index the next block will be given; it always
/// equals the number of blocks held (`wf`).
#[derive(Debug)]
pub struct Chain {
    pub next_index: usize,
    pub chains: Vec<Block>,
}

impl Chain {
    /// The chain is well formed: its blocks form a valid chain and
    /// `next_index` equals their number.
    pub open spec fn wf(self) -> bool {
        &&& valid_chain(self.chains@)
        &&& self.next_index == self.chains@.len()
    }

    /// A fresh chain holding one block, meant to be the genesis block.
    pub fn new(genesis_block: Block) -> (c: Chain)
        ensures
            c.chains@ == seq![genesis_block],
            c.next_index == 1,
            is_genesis(genesis_block) ==> c.wf(),
    {
        let chains: Vec<Block> = vec![genesis_block];
        let next_index: usize = 1;
        Chain { next_index, chains }
    }

    /// The fixed genesis block every node agrees on.
    pub fn get_genesis_block() -> (b: Block)
        ensures
            is_genesis(b),
    {
        Block::new(0, "0", 1723020013, "genesis")
    }

    /// Decides whether `chain` is a valid chain: anchored at the genesis
    /// block, every adjacent pair a valid succession.
    pub fn is_valid_chain(chain: &Vec<Block>) -> (r: bool)
        ensures
            r == valid_chain(chain@),
    {
        if chain.len() == 0 {
            return false;
        }
        let genesis = Self::get_genesis_block();
        if !(chain[0] == genesis) {
            proof {
                assert(!is_genesis(chain@[0]));
            }
            return false;
        }
        let n = chain.len();
        for i in 1..n
            invariant
                n == chain@.len(),
                n >= 1,
                is_genesis(chain@[0]),
                forall|j: int| 1 <= j < i ==> valid_successor(#[trigger] chain@[j], chain@[j - 1]),
        {
            if !Self::is_valid_new_block(&chain[i], &chain[i - 1]) {
                return false;
            }
        }
        true
    }

    /// Decides whether `new_block` validly extends a chain ending in
    /// `previous_block`.
    pub fn is_valid_new_block(new_block: &Block, previous_block: &Block) -> (r: bool)
        ensures
            r == valid_successor(*new_block, *previous_block),
    {
        if new_block.index == 0 || new_block.index - 1 != previous_block.index {
            return false;
        }
        if !(previous_block.hash == new_block.previous_hash) {
            return false;
        }
        let recomputed = calculate_hash_from_block(new_block);
        recomputed == new_block.hash
    }

    /// The tip: the last (highest-index) block, if any.
    pub fn get_latest_block(&self) -> (r: Option<&Block>)
        ensures
            self.chains@.len() == 0 ==> r is None,
            self.chains@.len() > 0 ==> (r matches Some(b) && *b == self.chains@.last()),
    {
        if self.chains.len() == 0 {
            None
        } else {
            Some(&self.chains[self.chains.len() - 1])
        }
    }

    /// Appends `block` if it validly extends the current tip; an invalid
    /// block is dropped and the chain is left as it was.
    pub fn add_block(&mut self, block: Block)
        requires
            old(self).chains@.len() >= 1,
            old(self).next_index < usize::MAX,
        ensures
            valid_successor(block, old(self).chains@.last()) ==> {
                &&& final(self).chains@ == old(self).chains@.push(block)
                &&& final(self).next_index == old(self).next_index + 1
            },
            !valid_successor(block, old(self).chains@.last()) ==> *final(self) == *old(self),
            old(self).wf() ==> final(self).wf(),
    {
        let append = match self.get_latest_block() {
            Some(tip) => Chain::is_valid_new_block(&block, tip),
            None => false,
        };
        if append {
            proof {
                if old(self).wf() {
                    lemma_valid_chain_push(self.chains@, block);
                }
            }
            self.chains.push(block);
            self.next_index += 1;
        }
    }

    /// Replaces the whole chain with `new_blocks` when that chain is valid
    /// and strictly longer; reports whether it did. Equal length never
    /// replaces.
    pub fn replace_block_chain(&mut self, new_blocks: Vec<Block>) -> (replaced: bool)
        ensures
            replaced == (valid_chain(new_blocks@) && old(self).chains@.len() < new_blocks@.len()),
            replaced ==> {
                &&& final(self).chains@ == new_blocks@
                &&& final(self).next_index == new_blocks@.len()
                &&& final(self).wf()
            },
            !replaced ==> *final(self) == *old(self),
    {
        if Self::is_valid_chain(&new_blocks) && self.chains.len() < new_blocks.len() {
            self.next_index = new_blocks.len();
            self.chains = new_blocks;
            true
        } else {
            false
        }
    }

    /// A point-in-time copy of the chain, for read-only listing.
    pub fn snapshot(&self) -> (c: Chain)
        ensures
            c.chains@ == self.chains@,
            c.next_index == self.next_index,
    {
        Chain { next_index: self.next_index, chains: clone_blocks(&self.chains) }
    }
}

/// Pushing a valid successor of the tip onto a valid chain keeps it valid.
pub proof fn lemma_valid_chain_push(c: Seq<Block>, b: Block)
    requires
        valid_chain(c),
        valid_successor(b, c.last()),
    ensures
        valid_chain(c.push(b)),
{
    let d = c.push(b);
    assert(d[0] == c[0]);
    assert forall|i: int| 1 <= i < d.len() implies valid_successor(#[trigger] d[i], d[i - 1]) by {
        if i < c.len() {
            assert(valid_successor(c[i], c[i - 1]));
        } else {
            assert(d[i] == b);
            assert(d[i - 1] == c.last());
        }
    }
}

proof fn lemma_index_at(c: Seq<Block>, i: int)
    requires
        0 <= i < c.len(),
        c[0].index == 0,
        forall|j: int| 1 <= j < c.len() ==> #[trigger] c[j].index == c[j - 1].index + 1,
    ensures
        c[i].index == i,
    decreases i,
{
    if i > 0 {
        lemma_index_at(c, i - 1);
    }
}

/// In a valid chain every block's index equals its position, so the tip's
/// index is the chain's length minus one.
pub proof fn lemma_chain_indices(c: Seq<Block>)
    requires
        valid_chain(c),
    ensures
        forall|i: int| 0 <= i < c.len() ==> #[trigger] c[i].index == i,
{
    assert forall|i: int| 0 <= i < c.len() implies #[trigger] c[i].index == i by {
        lemma_index_at(c, i);
    }
}

/// Genesis anchoring: a valid chain stripped of its genesis element is no
/// longer a valid chain.
pub proof fn lemma_genesis_anchoring(c: Seq<Block>)
    requires
        valid_chain(c),
    ensures
        !valid_chain(c.drop_first()),
{
    let d = c.drop_first();
    if d.len() >= 1 {
        assert(valid_successor(c[1], c[0]));
        assert(d[0].index == 1);
    }
}

/// Relies on `std::time::SystemTime::now` and `duration_since`: seconds since
/// the Unix epoch (0 on a clock set before the epoch). The result depends on
/// the wall clock; nothing is promised of it.
#[verifier::external_body]
pub fn get_timestamp() -> u64 {
    match std::time::SystemTime::now().duration_since(std::time::SystemTime::UNIX_EPOCH) {
        Ok(epoch) => epoch.as_secs(),
        Err(_) => 0,
    }
}

} // verus!
