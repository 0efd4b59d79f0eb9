use crate::backend::clock::{now_nanos, spec_timestamp_from, timestamp_from};
use crate::backend::digest::{
    hex_bytes, hex_chars, hex_encode, hex_string, sha256, sha256_accepts, sha256_digest,
};
use crate::backend::functions::{
    check_difficulty, genesis_address, get_genesis_hasher, hash_array, le_bytes, meets_difficulty,
    u128_bytes, u64_bytes,
};
use crate::backend::traits::hashable::Hashable;
use crate::backend::transaction::transaction::{transaction_bytes, Transaction, TransactionView};
use crate::backend::transaction::transactions::{
    each_hashable, transaction_digests, transaction_views, Transactions,
};
use vstd::prelude::*;

verus! {

/// The proof-of-work target that every mined block is held to.
pub const DIFFICULTY: u128 = 0x0000_ffff_ffff_ffff_ffff_ffff_ffff_ffff;

/// The amount that the first block mints.
pub const INITIAL_BALANCE: u64 = 5000;

/// One link of the chain: a header, a batch of transfers, and the digest that seals both.
#[derive(Debug)]
pub struct Block {
    index: u64,
    timestamp: u64,
    prev: Option<[u8; 32]>,
    nonce: u64,
    difficulty: u128,
    transactions: Transactions,
    hash: [u8; 32],
    broadcaster_addr: String,
}

/// What a block states, as plain values.
pub struct BlockView {
    pub index: u64,
    pub timestamp: u64,
    pub prev: Option<Seq<u8>>,
    pub nonce: u64,
    pub difficulty: u128,
    pub transactions: Seq<TransactionView>,
    pub digest: Seq<u8>,
    pub broadcaster: Seq<char>,
}

impl View for Block {
    type V = BlockView;

    closed spec fn view(&self) -> BlockView {
        BlockView {
            index: self.index,
            timestamp: self.timestamp,
            prev: match self.prev {
                Some(digest) => Some(digest@),
                None => None,
            },
            nonce: self.nonce,
            difficulty: self.difficulty,
            transactions: self.transactions@,
            digest: self.hash@,
            broadcaster: self.broadcaster_addr@,
        }
    }
}

/// What a predecessor digest contributes to a block's encoding: its lowercase hexadecimal
/// text, or nothing where the block names no predecessor.
pub open spec fn prev_bytes(prev: Option<Seq<u8>>) -> Seq<u8> {
    match prev {
        Some(digest) => hex_bytes(digest),
        None => Seq::empty(),
    }
}

/// A header laid out around the digests of its transfers: index and timestamp as eight
/// little-endian bytes each, the predecessor's text, the nonce as eight little-endian
/// bytes, the transfers' digests, and the target as sixteen little-endian bytes.
pub open spec fn assemble(
    index: u64,
    timestamp: u64,
    prev: Option<Seq<u8>>,
    nonce: u64,
    digests: Seq<u8>,
    difficulty: u128,
) -> Seq<u8> {
    le_bytes(index as nat, 8) + le_bytes(timestamp as nat, 8) + prev_bytes(prev) + le_bytes(
        nonce as nat,
        8,
    ) + digests + le_bytes(difficulty as nat, 16)
}

/// The bytes that a block's digest is taken over: everything it states but the digest
/// itself and the broadcaster.
pub open spec fn block_bytes(b: BlockView) -> Seq<u8> {
    assemble(
        b.index,
        b.timestamp,
        b.prev,
        b.nonce,
        transaction_digests(b.transactions),
        b.difficulty,
    )
}

/// A block's stored digest is the digest of what the block states.
pub open spec fn digest_is_current(b: BlockView) -> bool {
    b.digest == sha256_digest(block_bytes(b))
}

/// The freshly sealed block for the given header fields and nonce: no predecessor, the
/// standard target, and the digest of exactly these fields.
pub open spec fn candidate(
    index: u64,
    timestamp: u64,
    nonce: u64,
    transactions: Seq<TransactionView>,
    broadcaster: Seq<char>,
) -> BlockView {
    BlockView {
        index,
        timestamp,
        prev: None,
        nonce,
        difficulty: DIFFICULTY,
        transactions,
        digest: sha256_digest(
            assemble(index, timestamp, None, nonce, transaction_digests(transactions), DIFFICULTY),
        ),
        broadcaster,
    }
}

/// Whether sealing the given header fields with `nonce` meets the standard target.
pub open spec fn nonce_passes(
    index: u64,
    timestamp: u64,
    nonce: u64,
    transactions: Seq<TransactionView>,
    broadcaster: Seq<char>,
) -> bool {
    meets_difficulty(
        candidate(index, timestamp, nonce, transactions, broadcaster).digest,
        DIFFICULTY,
    )
}

/// `b` is what mining the given header fields produces: the candidate for the least
/// nonce that meets the target.
pub open spec fn mined(
    b: BlockView,
    index: u64,
    timestamp: u64,
    transactions: Seq<TransactionView>,
    broadcaster: Seq<char>,
) -> bool {
    &&& b == candidate(index, timestamp, b.nonce, transactions, broadcaster)
    &&& b.nonce < u64::MAX
    &&& nonce_passes(index, timestamp, b.nonce, transactions, broadcaster)
    &&& forall|n: u64|
        n < b.nonce ==> !#[trigger] nonce_passes(index, timestamp, n, transactions, broadcaster)
}

/// No nonce of the search space seals the given header fields below the target.
pub open spec fn unminable(
    index: u64,
    timestamp: u64,
    transactions: Seq<TransactionView>,
    broadcaster: Seq<char>,
) -> bool {
    forall|n: u64|
        n < u64::MAX ==> !#[trigger] nonce_passes(index, timestamp, n, transactions, broadcaster)
}

/// A batch of `count` transfers leaves the header short enough for SHA-256.
pub open spec fn header_accepts(count: nat) -> bool {
    sha256_accepts(104 + 32 * count)
}

/// The transfer that the first block carries: it mints the initial balance to the
/// genesis address.
pub open spec fn genesis_mint() -> TransactionView {
    TransactionView { from: Seq::empty(), to: genesis_address(), value: INITIAL_BALANCE }
}

/// The digests of the transfers of a batch, one after another.
fn digests_of(transactions: &Transactions) -> (out: Vec<u8>)
    requires
        each_hashable(transactions@),
    ensures
        out@ == transaction_digests(transactions@),
        out@.len() == 32 * transactions@.len(),
{
    let values = transactions.values();
    let mut out: Vec<u8> = Vec::new();
    let mut i: usize = 0;
    while i < values.len()
        invariant
            i <= values@.len(),
            transaction_views(values@) == transactions@,
            each_hashable(transactions@),
            out@ == transaction_digests(transactions@.take(i as int)),
            out@.len() == 32 * i,
        decreases values@.len() - i,
    {
        proof {
            assert(transactions@[i as int] == values@[i as int]@);
            assert(sha256_accepts(transaction_bytes(transactions@[i as int]).len()));
            assert(transactions@.take(i + 1).drop_last() =~= transactions@.take(i as int));
        }
        let digest = values[i].hash();
        out.extend_from_slice(digest.as_slice());
        i += 1;
    }
    assert(transactions@.take(i as int) =~= transactions@);
    out
}

/// Lays a header out around the digests of its transfers.
fn header(
    index: u64,
    timestamp: u64,
    prev: &Option<[u8; 32]>,
    nonce: u64,
    digests: &Vec<u8>,
    difficulty: u128,
) -> (out: Vec<u8>)
    ensures
        out@ == assemble(
            index,
            timestamp,
            match *prev {
                Some(digest) => Some(digest@),
                None => None,
            },
            nonce,
            digests@,
            difficulty,
        ),
        out@.len() == 40 + digests@.len() + (if prev.is_some() {
            64int
        } else {
            0int
        }),
{
    let mut out: Vec<u8> = Vec::new();
    out.extend_from_slice(u64_bytes(&index).as_slice());
    out.extend_from_slice(u64_bytes(&timestamp).as_slice());
    match prev {
        Some(digest) => {
            let text = hex_encode(digest.as_slice());
            out.extend_from_slice(text.as_slice());
        },
        None => {},
    }
    out.extend_from_slice(u64_bytes(&nonce).as_slice());
    out.extend_from_slice(digests.as_slice());
    out.extend_from_slice(u128_bytes(&difficulty).as_slice());
    out
}

impl Block {
    /// The first block: it mints the initial balance to the genesis address and names
    /// that address as its broadcaster. `None` where the clock cannot be read or no
    /// nonce meets the target.
    pub fn gen_genesis() -> (block: Option<Block>)
        ensures
            match block {
                Some(b) => mined(b@, 0, b@.timestamp, seq![genesis_mint()], genesis_address()),
                None => true,
            },
    {
        let address = get_genesis_hasher();
        let mut initial_tx = Transactions::empty();
        let initial_output = Transaction::new(String::new(), address.clone(), INITIAL_BALANCE);
        proof {
            lemma_hex_address_bytes(address@);
            vstd::utf8::is_ascii_chars_encode_utf8(Seq::<char>::empty());
        }
        initial_tx.values_mut().push(initial_output);
        assert(initial_tx@ =~= seq![genesis_mint()]);
        Block::mine(0, initial_tx, address)
    }

    /// Mines a block stamped with the current time. `None` where the clock cannot be
    /// read or no nonce meets the target.
    pub fn mine(block_idx: u64, transactions: Transactions, broadcaster_addr: String) -> (block:
        Option<Block>)
        requires
            each_hashable(transactions@),
            header_accepts(transactions@.len()),
        ensures
            match block {
                Some(b) => mined(b@, block_idx, b@.timestamp, transactions@, broadcaster_addr@),
                None => true,
            },
    {
        Block::mine_with(now_nanos(), block_idx, transactions, broadcaster_addr)
    }

    /// Mines a block stamped with the timestamp that the clock reading `reading` stands
    /// for. `None` where the reading stands for none, or no nonce meets the target.
    pub fn mine_with(
        reading: Option<i64>,
        block_idx: u64,
        transactions: Transactions,
        broadcaster_addr: String,
    ) -> (block: Option<Block>)
        requires
            each_hashable(transactions@),
            header_accepts(transactions@.len()),
        ensures
            mining_outcome(
                option_view(block),
                reading,
                block_idx,
                transactions@,
                broadcaster_addr@,
            ),
    {
        match timestamp_from(reading) {
            Some(timestamp) => Block::mine_at(block_idx, timestamp, transactions, broadcaster_addr),
            None => None,
        }
    }

    /// Searches the nonces upward from zero for the first whose sealed header meets the
    /// target, and returns the block sealed with it; `None` where the whole search space
    /// holds none.
    pub fn mine_at(
        block_idx: u64,
        timestamp: u64,
        transactions: Transactions,
        broadcaster_addr: String,
    ) -> (block: Option<Block>)
        requires
            each_hashable(transactions@),
            header_accepts(transactions@.len()),
        ensures
            match block {
                Some(b) => mined(b@, block_idx, timestamp, transactions@, broadcaster_addr@),
                None => unminable(block_idx, timestamp, transactions@, broadcaster_addr@),
            },
    {
        let digests = digests_of(&transactions);
        let mut nonce: u64 = 0;
        while nonce < u64::MAX
            invariant
                digests@ == transaction_digests(transactions@),
                digests@.len() == 32 * transactions@.len(),
                header_accepts(transactions@.len()),
                forall|n: u64|
                    n < nonce ==> !#[trigger] nonce_passes(
                        block_idx,
                        timestamp,
                        n,
                        transactions@,
                        broadcaster_addr@,
                    ),
            decreases u64::MAX - nonce,
        {
            let data = header(block_idx, timestamp, &None, nonce, &digests, DIFFICULTY);
            let digest = sha256(data.as_slice());
            if check_difficulty(digest.as_slice(), &DIFFICULTY) {
                let block = Block {
                    index: block_idx,
                    timestamp,
                    prev: None,
                    nonce,
                    difficulty: DIFFICULTY,
                    transactions,
                    hash: digest,
                    broadcaster_addr,
                };
                return Some(block);
            }
            nonce += 1;
        }
        None
    }

    /// Seals the given header fields with `nonce`, whether or not the digest meets the
    /// target.
    pub fn with_nonce(
        block_idx: u64,
        timestamp: u64,
        nonce: u64,
        transactions: Transactions,
        broadcaster_addr: String,
    ) -> (block: Block)
        requires
            each_hashable(transactions@),
            header_accepts(transactions@.len()),
        ensures
            block@ == candidate(block_idx, timestamp, nonce, transactions@, broadcaster_addr@),
    {
        let mut block = Block::new(block_idx, timestamp, None, transactions, broadcaster_addr);
        block.nonce = nonce;
        block.hash = block.hash();
        block
    }

    fn new(
        index: u64,
        timestamp: u64,
        prev_block: Option<[u8; 32]>,
        transaction: Transactions,
        broadcaster_addr: String,
    ) -> (block: Block)
        ensures
            block.index == index,
            block.timestamp == timestamp,
            block.prev == prev_block,
            block.nonce == 0,
            block.difficulty == DIFFICULTY,
            block.transactions == transaction,
            block.broadcaster_addr == broadcaster_addr,
    {
        Block {
            index,
            timestamp,
            prev: prev_block,
            nonce: 0,
            difficulty: DIFFICULTY,
            transactions: transaction,
            hash: hash_array(),
            broadcaster_addr,
        }
    }

    pub fn index(&self) -> (index: u64)
        ensures
            index == self@.index,
    {
        self.index
    }

    pub fn timestamp(&self) -> (timestamp: u64)
        ensures
            timestamp == self@.timestamp,
    {
        self.timestamp
    }

    pub fn nonce(&self) -> (nonce: u64)
        ensures
            nonce == self@.nonce,
    {
        self.nonce
    }

    pub fn difficulty(&self) -> (difficulty: u128)
        ensures
            difficulty == self@.difficulty,
    {
        self.difficulty
    }

    pub fn current_hash(&self) -> (digest: &[u8; 32])
        ensures
            digest@ == self@.digest,
    {
        &self.hash
    }

    pub fn transactions(&self) -> (transactions: &Transactions)
        ensures
            transactions@ == self@.transactions,
    {
        &self.transactions
    }

    pub fn broadcaster(&self) -> (broadcaster: &String)
        ensures
            broadcaster@ == self@.broadcaster,
    {
        &self.broadcaster_addr
    }

    /// The stored digest as lowercase hexadecimal text.
    pub fn current_hash_str(&self) -> (text: String)
        ensures
            text@ == hex_chars(self@.digest),
    {
        hex_string(self.hash.as_slice())
    }

    /// Records `hash` as the digest of the block that precedes this one.
    pub fn set_prev_block(&mut self, hash: [u8; 32])
        ensures
            final(self)@ == (BlockView { prev: Some(hash@), ..old(self)@ }),
    {
        self.prev = Some(hash);
    }

    pub fn current_hash_bytes(&self) -> (digest: [u8; 32])
        ensures
            digest@ == self@.digest,
    {
        self.hash
    }

    /// The predecessor's digest as lowercase hexadecimal text; empty where the block
    /// names no predecessor.
    pub fn prev_hash_str(&self) -> (text: String)
        ensures
            text@ == match self@.prev {
                Some(digest) => hex_chars(digest),
                None => Seq::empty(),
            },
    {
        match &self.prev {
            Some(prev_unwrapped) => hex_string(prev_unwrapped.as_slice()),
            None => String::new(),
        }
    }

    /// The predecessor's digest; all zero where the block names no predecessor.
    pub fn prev_hash_bytes(&self) -> (digest: [u8; 32])
        ensures
            digest@ == match self@.prev {
                Some(prev) => prev,
                None => Seq::new(32, |i: int| 0u8),
            },
    {
        match &self.prev {
            Some(prev_unwrapped) => *prev_unwrapped,
            None => hash_array(),
        }
    }

    /// Whether the block names a predecessor.
    pub fn has_prev(&self) -> (has: bool)
        ensures
            has == self@.prev.is_some(),
    {
        self.prev.is_some()
    }
}

/// What an optional block states.
pub open spec fn option_view(block: Option<Block>) -> Option<BlockView> {
    match block {
        Some(b) => Some(b@),
        None => None,
    }
}

/// What mining the given header fields yields for a clock reading. A reading that stands
/// for no timestamp yields nothing. One that stands for a timestamp yields the block
/// mined at that timestamp, or nothing where no nonce of the search space meets the
/// target.
pub open spec fn mining_outcome(
    block: Option<BlockView>,
    reading: Option<i64>,
    index: u64,
    transactions: Seq<TransactionView>,
    broadcaster: Seq<char>,
) -> bool {
    match spec_timestamp_from(reading) {
        None => block is None,
        Some(timestamp) => match block {
            Some(b) => mined(b, index, timestamp, transactions, broadcaster),
            None => unminable(index, timestamp, transactions, broadcaster),
        },
    }
}

/// An address that is the hexadecimal text of 32 bytes takes 64 bytes to encode.
pub proof fn lemma_hex_address_bytes(address: Seq<char>)
    requires
        address.len() == 64,
        exists|digest: Seq<u8>| address == hex_chars(digest),
    ensures
        vstd::utf8::encode_utf8(address).len() == 64,
{
    let digest = choose|digest: Seq<u8>| address == hex_chars(digest);
    assert forall|i: int| 0 <= i < address.len() implies '\0' <= #[trigger] address[i]
        <= '\u{7f}' by {
        let b = hex_bytes(digest)[i];
        assert(address[i] == b as char);
        assert(48 <= b <= 102);
    }
    vstd::utf8::is_ascii_chars_encode_utf8(address);
}

impl Hashable for Block {
    open spec fn spec_bytes(&self) -> Seq<u8> {
        block_bytes(self@)
    }

    open spec fn hashable(&self) -> bool {
        &&& each_hashable(self@.transactions)
        &&& header_accepts(self@.transactions.len())
    }

    fn bytes(&self) -> (out: Vec<u8>) {
        let digests = digests_of(&self.transactions);
        header(self.index, self.timestamp, &self.prev, self.nonce, &digests, self.difficulty)
    }
}

} // verus!
