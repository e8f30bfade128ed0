use vstd::prelude::*;
use crate::codec::{
    be_bytes, be_value, lemma_be_round_trip, lemma_be_value_bound, lemma_pow256_16, pow256, push_uint,
    read_uint,
};
use crate::types::{Address, ErrorKind, U256};

verus! {

/// The router functions whose calls are recognised. Both take
/// `(uint256 amountIn, uint256 amountOutMin, address[] path, address to, uint256 deadline)`.
#[derive(Clone, Copy, Debug, PartialEq, Eq, Structural)]
pub enum SwapKind {
    /// `swapExactTokensForTokens`
    ExactTokensForTokens,
    /// `swapExactTokensForTokensSupportingFeeOnTransferTokens`
    ExactTokensForTokensFeeOnTransfer,
}

pub const SELECTOR_EXACT_TOKENS: u32 = 0x38ed1739;

pub const SELECTOR_EXACT_TOKENS_FEE_ON_TRANSFER: u32 = 0x5c11d795;

/// Length of the fixed part of the arguments: five words.
pub const HEAD_LEN: usize = 160;

/// The decoded arguments of a recognised router call.
#[derive(Clone, Debug)]
pub struct SwapCall {
    pub kind: SwapKind,
    pub amount_in: U256,
    pub amount_out_min: U256,
    pub path: Vec<Address>,
    pub to: Address,
    pub deadline: U256,
}

pub ghost struct SwapCallView {
    pub kind: SwapKind,
    pub amount_in: U256,
    pub amount_out_min: U256,
    pub path: Seq<Address>,
    pub to: Address,
    pub deadline: U256,
}

impl View for SwapCall {
    type V = SwapCallView;

    open spec fn view(&self) -> SwapCallView {
        SwapCallView {
            kind: self.kind,
            amount_in: self.amount_in,
            amount_out_min: self.amount_out_min,
            path: self.path@,
            to: self.to,
            deadline: self.deadline,
        }
    }
}

/// What a payload is, read as a router call.
pub ghost enum Decoded {
    /// Not a call of a recognised function.
    NoMatch,
    /// A recognised selector followed by arguments that do not decode.
    Malformed,
    Call(SwapCallView),
}

pub open spec fn selector_of(kind: SwapKind) -> nat {
    match kind {
        SwapKind::ExactTokensForTokens => SELECTOR_EXACT_TOKENS as nat,
        SwapKind::ExactTokensForTokensFeeOnTransfer => SELECTOR_EXACT_TOKENS_FEE_ON_TRANSFER as nat,
    }
}

pub open spec fn kind_of_selector(v: nat) -> Option<SwapKind> {
    if v == SELECTOR_EXACT_TOKENS as nat {
        Some(SwapKind::ExactTokensForTokens)
    } else if v == SELECTOR_EXACT_TOKENS_FEE_ON_TRANSFER as nat {
        Some(SwapKind::ExactTokensForTokensFeeOnTransfer)
    } else {
        None
    }
}

/// The payload starts with the selector of a recognised function.
pub open spec fn has_swap_selector(d: Seq<u8>) -> bool {
    d.len() >= 4 && kind_of_selector(be_value(d.subrange(0, 4))) is Some
}

pub open spec fn part(d: Seq<u8>, p: int, n: int) -> nat {
    be_value(d.subrange(p, p + n))
}

/// The 256-bit word at `p`.
pub open spec fn word_at(d: Seq<u8>, p: int) -> U256 {
    U256 { hi: part(d, p, 16) as u128, lo: part(d, p + 16, 16) as u128 }
}

/// The word at `p` holds an address: its first twelve bytes are zero.
pub open spec fn addr_ok(d: Seq<u8>, p: int) -> bool {
    part(d, p, 12) == 0
}

pub open spec fn addr_at(d: Seq<u8>, p: int) -> Address {
    Address { hi: part(d, p + 12, 4) as u32, lo: part(d, p + 16, 16) as u128 }
}

/// Where the path's length word stands.
pub open spec fn path_base(d: Seq<u8>) -> int {
    4 + part(d, 84, 16) as int
}

pub open spec fn path_len(d: Seq<u8>) -> int {
    part(d, path_base(d) + 16, 16) as int
}

pub open spec fn path_elem_pos(d: Seq<u8>, i: int) -> int {
    path_base(d) + 32 + 32 * i
}

/// The arguments of a call with a recognised selector decode.
pub open spec fn args_ok(d: Seq<u8>) -> bool {
    &&& d.len() >= 4 + HEAD_LEN
    &&& part(d, 68, 16) == 0
    &&& addr_ok(d, 100)
    &&& path_base(d) + 32 <= d.len()
    &&& part(d, path_base(d), 16) == 0
    &&& path_len(d) >= 2
    &&& path_base(d) + 32 + 32 * path_len(d) <= d.len()
    &&& forall|i: int| 0 <= i < path_len(d) ==> #[trigger] addr_ok(d, path_elem_pos(d, i))
}

pub open spec fn path_of(d: Seq<u8>) -> Seq<Address> {
    Seq::new(path_len(d) as nat, |i: int| addr_at(d, path_elem_pos(d, i)))
}

pub open spec fn decode_spec(d: Seq<u8>) -> Decoded {
    if !has_swap_selector(d) {
        Decoded::NoMatch
    } else if !args_ok(d) {
        Decoded::Malformed
    } else {
        Decoded::Call(
            SwapCallView {
                kind: kind_of_selector(part(d, 0, 4))->Some_0,
                amount_in: word_at(d, 4),
                amount_out_min: word_at(d, 36),
                path: path_of(d),
                to: addr_at(d, 100),
                deadline: word_at(d, 132),
            },
        )
    }
}

pub open spec fn u256_word(x: U256) -> Seq<u8> {
    be_bytes(x.hi as nat, 16) + be_bytes(x.lo as nat, 16)
}

pub open spec fn uint_word(v: nat) -> Seq<u8> {
    be_bytes(0, 16) + be_bytes(v, 16)
}

pub open spec fn addr_word(a: Address) -> Seq<u8> {
    be_bytes(0, 12) + be_bytes(a.hi as nat, 4) + be_bytes(a.lo as nat, 16)
}

pub open spec fn path_words(p: Seq<Address>) -> Seq<u8>
    decreases p.len(),
{
    if p.len() == 0 {
        Seq::empty()
    } else {
        path_words(p.drop_last()) + addr_word(p.last())
    }
}

/// The canonical encoding of a call: selector, the five head words with the
/// path placed right after them, then the path's length and its entries.
pub open spec fn encode_spec(c: SwapCallView) -> Seq<u8> {
    be_bytes(selector_of(c.kind), 4) + u256_word(c.amount_in) + u256_word(c.amount_out_min)
        + uint_word(HEAD_LEN as nat) + addr_word(c.to) + u256_word(c.deadline) + uint_word(
        c.path.len(),
    ) + path_words(c.path)
}

proof fn lemma_pow256_4()
    ensures
        pow256(4) == 0x1_0000_0000,
{
    reveal_with_fuel(pow256, 5);
}

/// Reading back `n` bytes that spell out `v`.
proof fn lemma_part_is(e: Seq<u8>, p: int, n: nat, v: nat)
    requires
        0 <= p,
        p + n <= e.len(),
        v < pow256(n),
        e.subrange(p, p + n) == be_bytes(v, n),
    ensures
        part(e, p, n as int) == v,
{
    lemma_be_round_trip(v, n);
}

proof fn lemma_u256_word_at(e: Seq<u8>, p: int, x: U256)
    requires
        0 <= p,
        p + 32 <= e.len(),
        e.subrange(p, p + 32) == u256_word(x),
    ensures
        word_at(e, p) == x,
{
    lemma_pow256_16();
    lemma_be_round_trip(x.hi as nat, 16);
    lemma_be_round_trip(x.lo as nat, 16);
    assert(e.subrange(p, p + 16) =~= e.subrange(p, p + 32).subrange(0, 16));
    assert(e.subrange(p + 16, p + 32) =~= e.subrange(p, p + 32).subrange(16, 32));
    assert(u256_word(x).subrange(0, 16) =~= be_bytes(x.hi as nat, 16));
    assert(u256_word(x).subrange(16, 32) =~= be_bytes(x.lo as nat, 16));
    lemma_part_is(e, p, 16, x.hi as nat);
    lemma_part_is(e, p + 16, 16, x.lo as nat);
}

proof fn lemma_uint_word_at(e: Seq<u8>, p: int, v: nat)
    requires
        0 <= p,
        p + 32 <= e.len(),
        v < pow256(16),
        e.subrange(p, p + 32) == uint_word(v),
    ensures
        part(e, p, 16) == 0,
        part(e, p + 16, 16) == v,
{
    lemma_pow256_16();
    lemma_be_round_trip(0, 16);
    lemma_be_round_trip(v, 16);
    assert(e.subrange(p, p + 16) =~= e.subrange(p, p + 32).subrange(0, 16));
    assert(e.subrange(p + 16, p + 32) =~= e.subrange(p, p + 32).subrange(16, 32));
    assert(uint_word(v).subrange(0, 16) =~= be_bytes(0, 16));
    assert(uint_word(v).subrange(16, 32) =~= be_bytes(v, 16));
    lemma_part_is(e, p, 16, 0);
    lemma_part_is(e, p + 16, 16, v);
}

proof fn lemma_addr_word_at(e: Seq<u8>, p: int, a: Address)
    requires
        0 <= p,
        p + 32 <= e.len(),
        e.subrange(p, p + 32) == addr_word(a),
    ensures
        addr_ok(e, p),
        addr_at(e, p) == a,
{
    lemma_pow256_16();
    lemma_pow256_4();
    crate::codec::lemma_pow256_monotonic(0, 12);
    reveal_with_fuel(pow256, 1);
    lemma_be_round_trip(0, 12);
    lemma_be_round_trip(a.hi as nat, 4);
    lemma_be_round_trip(a.lo as nat, 16);
    let w = e.subrange(p, p + 32);
    assert(e.subrange(p, p + 12) =~= w.subrange(0, 12));
    assert(e.subrange(p + 12, p + 16) =~= w.subrange(12, 16));
    assert(e.subrange(p + 16, p + 32) =~= w.subrange(16, 32));
    assert(addr_word(a).subrange(0, 12) =~= be_bytes(0, 12));
    assert(addr_word(a).subrange(12, 16) =~= be_bytes(a.hi as nat, 4));
    assert(addr_word(a).subrange(16, 32) =~= be_bytes(a.lo as nat, 16));
    lemma_part_is(e, p, 12, 0);
    lemma_part_is(e, p + 12, 4, a.hi as nat);
    lemma_part_is(e, p + 16, 16, a.lo as nat);
}

proof fn lemma_path_words(p: Seq<Address>)
    ensures
        path_words(p).len() == 32 * p.len(),
        forall|i: int|
            0 <= i < p.len() ==> #[trigger] path_words(p).subrange(32 * i, 32 * i + 32) == addr_word(
                p[i],
            ),
    decreases p.len(),
{
    if p.len() > 0 {
        let q = p.drop_last();
        lemma_path_words(q);
        crate::codec::lemma_be_bytes_len(0, 12);
        crate::codec::lemma_be_bytes_len(p.last().hi as nat, 4);
        crate::codec::lemma_be_bytes_len(p.last().lo as nat, 16);
        assert forall|i: int| 0 <= i < p.len() implies #[trigger] path_words(p).subrange(
            32 * i,
            32 * i + 32,
        ) == addr_word(p[i]) by {
            if i < q.len() {
                assert(path_words(p).subrange(32 * i, 32 * i + 32) =~= path_words(q).subrange(
                    32 * i,
                    32 * i + 32,
                ));
            } else {
                assert(path_words(p).subrange(32 * i, 32 * i + 32) =~= addr_word(p.last()));
            }
        }
    }
}

proof fn lemma_word_lens(c: SwapCallView)
    ensures
        be_bytes(selector_of(c.kind), 4).len() == 4,
        u256_word(c.amount_in).len() == 32,
        u256_word(c.amount_out_min).len() == 32,
        uint_word(HEAD_LEN as nat).len() == 32,
        addr_word(c.to).len() == 32,
        u256_word(c.deadline).len() == 32,
        uint_word(c.path.len()).len() == 32,
{
    crate::codec::lemma_be_bytes_len(selector_of(c.kind), 4);
    crate::codec::lemma_be_bytes_len(c.amount_in.hi as nat, 16);
    crate::codec::lemma_be_bytes_len(c.amount_in.lo as nat, 16);
    crate::codec::lemma_be_bytes_len(c.amount_out_min.hi as nat, 16);
    crate::codec::lemma_be_bytes_len(c.amount_out_min.lo as nat, 16);
    crate::codec::lemma_be_bytes_len(c.deadline.hi as nat, 16);
    crate::codec::lemma_be_bytes_len(c.deadline.lo as nat, 16);
    crate::codec::lemma_be_bytes_len(0, 16);
    crate::codec::lemma_be_bytes_len(HEAD_LEN as nat, 16);
    crate::codec::lemma_be_bytes_len(c.path.len(), 16);
    crate::codec::lemma_be_bytes_len(0, 12);
    crate::codec::lemma_be_bytes_len(c.to.hi as nat, 4);
    crate::codec::lemma_be_bytes_len(c.to.lo as nat, 16);
}

/// Encoding a call whose path has at least two entries and decoding the
/// bytes gives the call back.
pub proof fn lemma_encode_decode(c: SwapCallView)
    requires
        c.path.len() >= 2,
        c.path.len() < pow256(16),
    ensures
        decode_spec(encode_spec(c)) == Decoded::Call(c),
{
    let e = encode_spec(c);
    let n = c.path.len();
    let a = be_bytes(selector_of(c.kind), 4);
    let head = a + u256_word(c.amount_in) + u256_word(c.amount_out_min) + uint_word(HEAD_LEN as nat)
        + addr_word(c.to) + u256_word(c.deadline) + uint_word(n);
    lemma_word_lens(c);
    lemma_path_words(c.path);
    assert(e == head + path_words(c.path));
    assert(head.len() == 196);
    assert(e.len() == 196 + 32 * n);
    lemma_pow256_4();
    lemma_pow256_16();
    assert(e.subrange(0, 4) =~= a);
    lemma_part_is(e, 0, 4, selector_of(c.kind));
    assert(e.subrange(4, 36) =~= u256_word(c.amount_in));
    lemma_u256_word_at(e, 4, c.amount_in);
    assert(e.subrange(36, 68) =~= u256_word(c.amount_out_min));
    lemma_u256_word_at(e, 36, c.amount_out_min);
    assert(e.subrange(68, 100) =~= uint_word(HEAD_LEN as nat));
    lemma_uint_word_at(e, 68, HEAD_LEN as nat);
    assert(e.subrange(100, 132) =~= addr_word(c.to));
    lemma_addr_word_at(e, 100, c.to);
    assert(e.subrange(132, 164) =~= u256_word(c.deadline));
    lemma_u256_word_at(e, 132, c.deadline);
    assert(e.subrange(164, 196) =~= uint_word(n));
    lemma_uint_word_at(e, 164, n);
    assert(path_base(e) == 164);
    assert(path_len(e) == n);
    assert forall|i: int| 0 <= i < n implies addr_ok(e, #[trigger] path_elem_pos(e, i)) && addr_at(
        e,
        path_elem_pos(e, i),
    ) == c.path[i] by {
        assert(e.subrange(196 + 32 * i, 196 + 32 * i + 32) =~= path_words(c.path).subrange(
            32 * i,
            32 * i + 32,
        ));
        lemma_addr_word_at(e, 196 + 32 * i, c.path[i]);
    }
    assert(has_swap_selector(e));
    assert(args_ok(e));
    assert(path_of(e) =~= c.path);
}

/// A payload that decodes to a call re-encodes to bytes that decode to the
/// same call: kind, amounts, path, recipient and deadline come back exactly.
pub proof fn lemma_decode_encode(d: Seq<u8>)
    requires
        decode_spec(d) is Call,
    ensures
        decode_spec(encode_spec(decode_spec(d)->Call_0)) == decode_spec(d),
{
    lemma_be_value_bound(d.subrange(path_base(d) + 16, path_base(d) + 32));
    lemma_encode_decode(decode_spec(d)->Call_0);
}

/// Reads the 256-bit word at `p`.
pub(crate) fn read_word(data: &Vec<u8>, p: usize) -> (r: U256)
    requires
        p + 32 <= data@.len(),
    ensures
        r == word_at(data@, p as int),
{
    let _len = data.len();
    let hi = read_uint(data, p, 16);
    let lo = read_uint(data, p + 16, 16);
    U256 { hi, lo }
}

/// Reads the address word at `p`, if its first twelve bytes are zero.
pub(crate) fn read_address(data: &Vec<u8>, p: usize) -> (r: Option<Address>)
    requires
        p + 32 <= data@.len(),
    ensures
        r == (if addr_ok(data@, p as int) {
            Some(addr_at(data@, p as int))
        } else {
            None
        }),
{
    let _len = data.len();
    let pad = read_uint(data, p, 12);
    if pad != 0 {
        return None;
    }
    let hi = read_uint(data, p + 12, 4);
    proof {
        lemma_pow256_4();
        lemma_be_value_bound(data@.subrange(p + 12, p + 16));
    }
    let lo = read_uint(data, p + 16, 16);
    Some(Address { hi: hi as u32, lo })
}

/// Decodes the call data of a pending transaction. A payload that does not
/// start with a recognised selector is no swap (`Ok(None)`); one that does,
/// but whose arguments do not decode, is a `DecodeError`.
pub fn decode_swap_call(data: &Vec<u8>) -> (r: Result<Option<SwapCall>, ErrorKind>)
    ensures
        match decode_spec(data@) {
            Decoded::NoMatch => r == Ok::<Option<SwapCall>, ErrorKind>(None),
            Decoded::Malformed => r == Err::<Option<SwapCall>, ErrorKind>(ErrorKind::DecodeError),
            Decoded::Call(v) => r is Ok && r->Ok_0 is Some && r->Ok_0->Some_0@ == v,
        },
{
    let d = Ghost(data@);
    let len = data.len();
    if len < 4 {
        return Ok(None);
    }
    let sel = read_uint(data, 0, 4);
    let kind = if sel == SELECTOR_EXACT_TOKENS as u128 {
        SwapKind::ExactTokensForTokens
    } else if sel == SELECTOR_EXACT_TOKENS_FEE_ON_TRANSFER as u128 {
        SwapKind::ExactTokensForTokensFeeOnTransfer
    } else {
        return Ok(None);
    };
    if len < 4 + HEAD_LEN {
        return Err(ErrorKind::DecodeError);
    }
    let amount_in = read_word(data, 4);
    let amount_out_min = read_word(data, 36);
    let off_hi = read_uint(data, 68, 16);
    if off_hi != 0 {
        return Err(ErrorKind::DecodeError);
    }
    let off = read_uint(data, 84, 16);
    let to = match read_address(data, 100) {
        Some(a) => a,
        None => {
            return Err(ErrorKind::DecodeError);
        },
    };
    let deadline = read_word(data, 132);
    if off > (len - 36) as u128 {
        return Err(ErrorKind::DecodeError);
    }
    let base: usize = 4 + off as usize;
    assert(base as int == path_base(d@));
    if read_uint(data, base, 16) != 0 {
        return Err(ErrorKind::DecodeError);
    }
    let n_word = read_uint(data, base + 16, 16);
    if n_word < 2 {
        return Err(ErrorKind::DecodeError);
    }
    let room: usize = (len - base - 32) / 32;
    if n_word > room as u128 {
        return Err(ErrorKind::DecodeError);
    }
    let n: usize = n_word as usize;
    assert(32 * n <= len - base - 32) by (nonlinear_arith)
        requires
            n <= room,
            room == (len - base - 32) / 32,
            len - base - 32 >= 0,
    ;
    let mut path: Vec<Address> = Vec::new();
    let mut i: usize = 0;
    while i < n
        invariant
            d@ == data@,
            has_swap_selector(d@),
            kind_of_selector(part(d@, 0, 4)) == Some(kind),
            len == data@.len(),
            base as int == path_base(d@),
            n as int == path_len(d@),
            base + 32 + 32 * n <= len,
            i <= n,
            path@ == Seq::new(i as nat, |j: int| addr_at(d@, path_elem_pos(d@, j))),
            forall|j: int| 0 <= j < i ==> #[trigger] addr_ok(d@, path_elem_pos(d@, j)),
        decreases n - i,
    {
        assert(32 * i + 32 <= 32 * n) by (nonlinear_arith)
            requires
                i < n,
        ;
        let p: usize = base + 32 + 32 * i;
        assert(p as int == path_elem_pos(d@, i as int));
        match read_address(data, p) {
            Some(a) => {
                path.push(a);
            },
            None => {
                assert(!addr_ok(d@, path_elem_pos(d@, i as int)));
                assert(!args_ok(d@));
                return Err(ErrorKind::DecodeError);
            },
        }
        i = i + 1;
        proof {
            assert(path@ =~= Seq::new(i as nat, |j: int| addr_at(d@, path_elem_pos(d@, j))));
        }
    }
    assert(args_ok(d@));
    let call = SwapCall { kind, amount_in, amount_out_min, path, to, deadline };
    assert(call@.path =~= path_of(d@));
    Ok(Some(call))
}

pub(crate) fn push_word(out: &mut Vec<u8>, x: U256)
    ensures
        final(out)@ == old(out)@ + u256_word(x),
{
    push_uint(out, x.hi, 16);
    push_uint(out, x.lo, 16);
    assert(out@ =~= old(out)@ + u256_word(x));
}

fn push_address(out: &mut Vec<u8>, a: Address)
    ensures
        final(out)@ == old(out)@ + addr_word(a),
{
    push_uint(out, 0, 12);
    push_uint(out, a.hi as u128, 4);
    push_uint(out, a.lo, 16);
    assert(out@ =~= old(out)@ + addr_word(a));
}

/// Encodes a call in the canonical layout: the path follows the five head
/// words.
pub fn encode_swap_call(c: &SwapCall) -> (r: Vec<u8>)
    ensures
        r@ == encode_spec(c@),
{
    let mut out: Vec<u8> = Vec::new();
    let sel: u32 = match c.kind {
        SwapKind::ExactTokensForTokens => SELECTOR_EXACT_TOKENS,
        SwapKind::ExactTokensForTokensFeeOnTransfer => SELECTOR_EXACT_TOKENS_FEE_ON_TRANSFER,
    };
    push_uint(&mut out, sel as u128, 4);
    push_word(&mut out, c.amount_in);
    push_word(&mut out, c.amount_out_min);
    push_uint(&mut out, 0, 16);
    push_uint(&mut out, HEAD_LEN as u128, 16);
    push_address(&mut out, c.to);
    push_word(&mut out, c.deadline);
    push_uint(&mut out, 0, 16);
    push_uint(&mut out, c.path.len() as u128, 16);
    let ghost head = out@;
    assert(head =~= be_bytes(selector_of(c.kind), 4) + u256_word(c.amount_in) + u256_word(
        c.amount_out_min,
    ) + uint_word(HEAD_LEN as nat) + addr_word(c.to) + u256_word(c.deadline) + uint_word(
        c.path@.len(),
    ));
    let mut i: usize = 0;
    while i < c.path.len()
        invariant
            i <= c.path@.len(),
            out@ == head + path_words(c.path@.subrange(0, i as int)),
        decreases c.path@.len() - i,
    {
        push_address(&mut out, c.path[i]);
        proof {
            let q = c.path@.subrange(0, i + 1);
            assert(q.drop_last() =~= c.path@.subrange(0, i as int));
            assert(out@ =~= head + path_words(q));
        }
        i = i + 1;
    }
    assert(c.path@.subrange(0, c.path@.len() as int) =~= c.path@);
    out
}

} // verus!
