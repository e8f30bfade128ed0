use vstd::prelude::*;
use crate::codec::{be_bytes, push_uint};
use crate::swap_call::{
    addr_at, addr_ok, read_address, read_word, uint_word, word_at,
    decode_spec, decode_swap_call, encode_spec, encode_swap_call, has_swap_selector, Decoded, SwapCall,
    SwapCallView, SwapKind,
};
use crate::types::{Address, ErrorKind, TxHash, U256};

verus! {

/// A pending transaction as the mempool subscription delivers it.
#[derive(Clone, Debug)]
pub struct RawTx {
    pub hash: TxHash,
    pub from: Address,
    /// `None` for a contract creation.
    pub to: Option<Address>,
    pub input: Vec<u8>,
}

/// A swap that a pending transaction asks the router to make.
#[derive(Clone, Debug)]
pub struct SwapIntent {
    pub kind: SwapKind,
    pub sender: Address,
    pub recipient: Address,
    pub path: Vec<Address>,
    pub amount_in: U256,
    pub amount_out_min: U256,
    pub deadline: U256,
    pub source: TxHash,
}

pub ghost struct SwapIntentView {
    pub kind: SwapKind,
    pub sender: Address,
    pub recipient: Address,
    pub path: Seq<Address>,
    pub amount_in: U256,
    pub amount_out_min: U256,
    pub deadline: U256,
    pub source: TxHash,
}

impl View for SwapIntent {
    type V = SwapIntentView;

    open spec fn view(&self) -> SwapIntentView {
        SwapIntentView {
            kind: self.kind,
            sender: self.sender,
            recipient: self.recipient,
            path: self.path@,
            amount_in: self.amount_in,
            amount_out_min: self.amount_out_min,
            deadline: self.deadline,
            source: self.source,
        }
    }
}

/// The intent that a decoded call of the transaction `hash` from `from`
/// expresses.
pub open spec fn intent_of(hash: TxHash, from: Address, c: SwapCallView) -> SwapIntentView {
    SwapIntentView {
        kind: c.kind,
        sender: from,
        recipient: c.to,
        path: c.path,
        amount_in: c.amount_in,
        amount_out_min: c.amount_out_min,
        deadline: c.deadline,
        source: hash,
    }
}

/// What a transaction sent to `to` with call data `input` is to a router at
/// `router`: only calls of the router itself can be swaps.
pub open spec fn swap_decoded(router: Address, to: Option<Address>, input: Seq<u8>) -> Decoded {
    if to == Some(router) {
        decode_spec(input)
    } else {
        Decoded::NoMatch
    }
}

/// A trading pair with a snapshot of its reserves, tagged with the block at
/// which they were read.
#[derive(Clone, Copy, Debug, PartialEq, Eq, Structural)]
pub struct Pair {
    pub address: Address,
    pub token0: Address,
    pub token1: Address,
    pub reserve0: u128,
    pub reserve1: u128,
    pub block: u64,
}

/// The pair trades `a` against `b`, in either order.
pub open spec fn joins(p: Pair, a: Address, b: Address) -> bool {
    (p.token0 == a && p.token1 == b) || (p.token0 == b && p.token1 == a)
}

/// The first pair of `pairs` that trades `a` against `b`.
pub open spec fn first_joining(pairs: Seq<Pair>, a: Address, b: Address) -> Option<int> {
    if exists|i: int| 0 <= i < pairs.len() && joins(pairs[i], a, b) {
        Some(
            choose|i: int|
                0 <= i < pairs.len() && joins(pairs[i], a, b) && forall|j: int|
                    0 <= j < i ==> !joins(#[trigger] pairs[j], a, b),
        )
    } else {
        None
    }
}

/// The pairs that the hops of `path` trade on, hop by hop, skipping hops
/// that no known pair serves.
pub open spec fn hop_targets(pairs: Seq<Pair>, path: Seq<Address>) -> Seq<Address>
    decreases path.len(),
{
    if path.len() < 2 {
        Seq::empty()
    } else {
        let prev = hop_targets(pairs, path.drop_last());
        match first_joining(pairs, path[path.len() - 2], path.last()) {
            Some(i) => prev.push(pairs[i].address),
            None => prev,
        }
    }
}

impl Pair {
    /// The reserves were read at an earlier block than `current` and must be
    /// read again before they price anything.
    pub fn needs_refresh(&self, current: u64) -> (r: bool)
        ensures
            r == (self.block < current),
    {
        self.block < current
    }

    /// The pair with the reserves `reserve0`, `reserve1` read together at `block`.
    pub fn with_reserves(&self, reserve0: u128, reserve1: u128, block: u64) -> (r: Pair)
        ensures
            r == (Pair { reserve0, reserve1, block, ..*self }),
    {
        Pair { reserve0, reserve1, block, ..*self }
    }
}

/// The factory and router contracts that the agent watches and trades on.
#[derive(Clone, Copy, Debug, PartialEq, Eq, Structural)]
pub struct Dex {
    pub factory: Address,
    pub router: Address,
}

impl Dex {
    pub fn new(factory: Address, router: Address) -> (r: Dex)
        ensures
            r.factory == factory,
            r.router == router,
    {
        Dex { factory, router }
    }

    /// Reads a pending transaction as a swap on the router. Anything that is
    /// not a call of a recognised router function gives `Ok(None)`; a
    /// recognised call whose arguments do not decode gives a `DecodeError`.
    pub fn decode_swap(&self, tx: &RawTx) -> (r: Result<Option<SwapIntent>, ErrorKind>)
        ensures
            match swap_decoded(self.router, tx.to, tx.input@) {
                Decoded::NoMatch => r == Ok::<Option<SwapIntent>, ErrorKind>(None),
                Decoded::Malformed => r == Err::<Option<SwapIntent>, ErrorKind>(
                    ErrorKind::DecodeError,
                ),
                Decoded::Call(c) => r is Ok && r->Ok_0 is Some && r->Ok_0->Some_0@ == intent_of(
                    tx.hash,
                    tx.from,
                    c,
                ),
            },
    {
        match tx.to {
            Some(to) => {
                if to != self.router {
                    return Ok(None);
                }
            },
            None => {
                return Ok(None);
            },
        }
        match decode_swap_call(&tx.input) {
            Ok(Some(c)) => Ok(
                Some(
                    SwapIntent {
                        kind: c.kind,
                        sender: tx.from,
                        recipient: c.to,
                        path: c.path,
                        amount_in: c.amount_in,
                        amount_out_min: c.amount_out_min,
                        deadline: c.deadline,
                        source: tx.hash,
                    },
                ),
            ),
            Ok(None) => Ok(None),
            Err(e) => Err(e),
        }
    }

    /// Call data for a swap on the router, with the explicit `deadline` after
    /// which the router reverts it.
    pub fn build_swap(
        &self,
        path: Vec<Address>,
        amount_in: U256,
        amount_out_min: U256,
        recipient: Address,
        deadline: U256,
    ) -> (r: Vec<u8>)
        ensures
            r@ == encode_spec(
                SwapCallView {
                    kind: SwapKind::ExactTokensForTokens,
                    amount_in,
                    amount_out_min,
                    path: path@,
                    to: recipient,
                    deadline,
                },
            ),
    {
        let c = SwapCall {
            kind: SwapKind::ExactTokensForTokens,
            amount_in,
            amount_out_min,
            path,
            to: recipient,
            deadline,
        };
        encode_swap_call(&c)
    }

    /// Finds the first pair of `pairs` that trades `a` against `b`.
    pub fn find_pair(pairs: &Vec<Pair>, a: Address, b: Address) -> (r: Option<usize>)
        ensures
            r matches Some(i) ==> i < pairs@.len() && first_joining(pairs@, a, b) == Some(i as int),
            r is None ==> first_joining(pairs@, a, b) is None,
    {
        let mut i: usize = 0;
        while i < pairs.len()
            invariant
                i <= pairs@.len(),
                forall|j: int| 0 <= j < i ==> !joins(#[trigger] pairs@[j], a, b),
            decreases pairs@.len() - i,
        {
            let p = pairs[i];
            if (p.token0 == a && p.token1 == b) || (p.token0 == b && p.token1 == a) {
                proof {
                    let w = choose|k: int|
                        0 <= k < pairs@.len() && joins(pairs@[k], a, b) && forall|j: int|
                            0 <= j < k ==> !joins(#[trigger] pairs@[j], a, b);
                    assert(joins(pairs@[i as int], a, b));
                    if w < i {
                    } else if w > i {
                        assert(!joins(pairs@[i as int], a, b));
                    }
                }
                return Some(i);
            }
            i = i + 1;
        }
        None
    }
}

/// The pairs of `pairs` that the hops of `path` trade on, in hop order.
pub fn hop_pairs(pairs: &Vec<Pair>, path: &Vec<Address>) -> (r: Vec<Address>)
    ensures
        r@ == hop_targets(pairs@, path@),
{
    let mut out: Vec<Address> = Vec::new();
    if path.len() < 2 {
        return out;
    }
    let mut k: usize = 1;
    proof {
        assert(hop_targets(pairs@, path@.subrange(0, 1)) == Seq::<Address>::empty());
    }
    while k < path.len()
        invariant
            1 <= k <= path@.len(),
            out@ == hop_targets(pairs@, path@.subrange(0, k as int)),
        decreases path@.len() - k,
    {
        let ghost sub = path@.subrange(0, k + 1);
        let ghost prev = out@;
        proof {
            assert(sub.drop_last() =~= path@.subrange(0, k as int));
            assert(sub[sub.len() - 2] == path@[k - 1]);
            assert(sub.last() == path@[k as int]);
        }
        let found = Dex::find_pair(pairs, path[k - 1], path[k]);
        match found {
            Some(i) => {
                out.push(pairs[i].address);
                assert(out@ == prev.push(pairs@[i as int].address));
            },
            None => {},
        }
        assert(out@ == hop_targets(pairs@, sub));
        k = k + 1;
    }
    assert(path@.subrange(0, path@.len() as int) =~= path@);
    out
}

/// The on-chain deadline of a response to an opportunity that expires at
/// `expiry_block`: the time now plus the blocks left until expiry, at
/// `block_secs` seconds each. An expired opportunity gets the time now.
pub fn deadline_for(now_secs: u64, current_block: u64, expiry_block: u64, block_secs: u64) -> (r: U256)
    ensures
        r.hi == 0,
        r.value() == now_secs + if expiry_block > current_block {
            (expiry_block - current_block) * block_secs
        } else {
            0
        },
{
    let left: u64 = if expiry_block > current_block {
        expiry_block - current_block
    } else {
        0
    };
    assert((left as u128) * (block_secs as u128) <= 0xffff_ffff_ffff_ffff * 0xffff_ffff_ffff_ffffu128)
        by (nonlinear_arith);
    let d: u128 = now_secs as u128 + (left as u128) * (block_secs as u128);
    U256::from_u128(d)
}

/// `allPairsLength()` of the factory.
pub const SELECTOR_ALL_PAIRS_LENGTH: u32 = 0x574f2ba3;

/// `allPairs(uint256)` of the factory.
pub const SELECTOR_ALL_PAIRS: u32 = 0x1e3dd18b;

/// `token0()` of a pair.
pub const SELECTOR_TOKEN0: u32 = 0x0dfe1681;

/// `token1()` of a pair.
pub const SELECTOR_TOKEN1: u32 = 0xd21220a7;

/// `getReserves()` of a pair.
pub const SELECTOR_GET_RESERVES: u32 = 0x0902f1ac;

/// Call data for a contract function that takes no arguments.
pub fn call_without_args(selector: u32) -> (r: Vec<u8>)
    ensures
        r@ == be_bytes(selector as nat, 4),
{
    let mut out: Vec<u8> = Vec::new();
    push_uint(&mut out, selector as u128, 4);
    assert(out@ =~= be_bytes(selector as nat, 4));
    out
}

/// Call data for `allPairs(index)` of the factory.
pub fn call_all_pairs(index: u64) -> (r: Vec<u8>)
    ensures
        r@ == be_bytes(SELECTOR_ALL_PAIRS as nat, 4) + uint_word(index as nat),
{
    let mut out = call_without_args(SELECTOR_ALL_PAIRS);
    push_uint(&mut out, 0, 16);
    push_uint(&mut out, index as u128, 16);
    assert(out@ =~= be_bytes(SELECTOR_ALL_PAIRS as nat, 4) + uint_word(index as nat));
    out
}

/// The address that a call returned in its first word.
pub fn decode_address_result(b: &Vec<u8>) -> (r: Option<Address>)
    ensures
        r == (if b@.len() >= 32 && addr_ok(b@, 0) {
            Some(addr_at(b@, 0))
        } else {
            None
        }),
{
    if b.len() < 32 {
        return None;
    }
    read_address(b, 0)
}

/// The integer that a call returned in its first word, where it fits in
/// 128 bits.
pub fn decode_uint_result(b: &Vec<u8>) -> (r: Option<u128>)
    ensures
        r == (if b@.len() >= 32 && word_at(b@, 0).hi == 0 {
            Some(word_at(b@, 0).lo)
        } else {
            None
        }),
{
    if b.len() < 32 {
        return None;
    }
    let w = read_word(b, 0);
    if w.hi != 0 {
        return None;
    }
    Some(w.lo)
}

/// The two reserves that `getReserves()` returned in its first two words.
pub fn decode_reserves(b: &Vec<u8>) -> (r: Option<(u128, u128)>)
    ensures
        r == (if b@.len() >= 64 && word_at(b@, 0).hi == 0 && word_at(b@, 32).hi == 0 {
            Some((word_at(b@, 0).lo, word_at(b@, 32).lo))
        } else {
            None
        }),
{
    if b.len() < 64 {
        return None;
    }
    let r0 = read_word(b, 0);
    let r1 = read_word(b, 32);
    if r0.hi != 0 || r1.hi != 0 {
        return None;
    }
    Some((r0.lo, r1.lo))
}

/// A transaction that is not a call of the router, or whose call data does
/// not start with a recognised swap selector, is no swap: decoding it gives
/// nothing and raises no error.
pub proof fn lemma_non_swap_is_none(router: Address, to: Option<Address>, input: Seq<u8>)
    requires
        to != Some(router) || !has_swap_selector(input),
    ensures
        swap_decoded(router, to, input) == Decoded::NoMatch,
{
}

} // verus!
