//! The binary layout of a cross-chain message, shared with the pool's peers:
//! a length-prefixed action tag followed by fixed-width little-endian fields,
//! in declaration order.
use vstd::prelude::*;
use vstd::arithmetic::div_mod::{lemma_fundamental_div_mod, lemma_fundamental_div_mod_converse};

use crate::error::ErrorCode;
use crate::state::Key;

verus! {

/// What a cross-chain message asks the receiving pool to do.
#[derive(Clone, Copy, Debug, PartialEq, Eq, Structural)]
pub enum MessageAction {
    Borrow,
    Repay,
    Liquidate,
}

/// A message exchanged between pools on different chains.
#[derive(Clone, Copy, Debug)]
pub struct CrossChainMessage {
    pub action: MessageAction,
    pub user: Key,
    pub amount: u64,
    pub asset: Key,
    pub timestamp: i64,
    pub source_chain: u32,
    pub dest_chain: u32,
    pub receiver: Key,
    pub nonce: u64,
}

/// UTF-8 bytes of the action's name.
pub open spec fn action_tag(a: MessageAction) -> Seq<u8> {
    match a {
        MessageAction::Borrow => seq![98u8, 111u8, 114u8, 114u8, 111u8, 119u8],
        MessageAction::Repay => seq![114u8, 101u8, 112u8, 97u8, 121u8],
        MessageAction::Liquidate => seq![108u8, 105u8, 113u8, 117u8, 105u8, 100u8, 97u8, 116u8, 101u8],
    }
}

pub open spec fn pow256(n: nat) -> nat
    decreases n,
{
    if n == 0 {
        1
    } else {
        256 * pow256((n - 1) as nat)
    }
}

/// The `n` low bytes of `v`, least significant first.
pub open spec fn le_bytes(v: nat, n: nat) -> Seq<u8>
    decreases n,
{
    if n == 0 {
        Seq::empty()
    } else {
        seq![(v % 256) as u8] + le_bytes(v / 256, (n - 1) as nat)
    }
}

/// The number whose little-endian bytes are `s`.
pub open spec fn le_value(s: Seq<u8>) -> nat
    decreases s.len(),
{
    if s.len() == 0 {
        0
    } else {
        s[0] as nat + 256 * le_value(s.drop_first())
    }
}

/// Two's-complement reading of a signed 64-bit value as unsigned.
pub open spec fn twos(t: i64) -> nat {
    if t >= 0 {
        t as nat
    } else {
        (t + 0x1_0000_0000_0000_0000) as nat
    }
}

/// The encoding of `m`.
pub open spec fn message_bytes(m: CrossChainMessage) -> Seq<u8> {
    le_bytes(action_tag(m.action).len(), 4) + action_tag(m.action) + m.user@ + le_bytes(
        m.amount as nat,
        8,
    ) + m.asset@ + le_bytes(twos(m.timestamp), 8) + le_bytes(m.source_chain as nat, 4)
        + le_bytes(m.dest_chain as nat, 4) + m.receiver@ + le_bytes(m.nonce as nat, 8)
}

pub proof fn lemma_pow256_facts()
    ensures
        pow256(4) == 0x1_0000_0000,
        pow256(8) == 0x1_0000_0000_0000_0000,
{
    reveal_with_fuel(pow256, 9);
}

pub proof fn lemma_le_bytes_len(v: nat, n: nat)
    ensures
        le_bytes(v, n).len() == n,
    decreases n,
{
    if n > 0 {
        lemma_le_bytes_len(v / 256, (n - 1) as nat);
    }
}

/// Reading back the `n` low bytes of `v` gives `v`, when `v` has no more.
pub proof fn lemma_le_value_of_bytes(v: nat, n: nat)
    requires
        v < pow256(n),
    ensures
        le_value(le_bytes(v, n)) == v,
    decreases n,
{
    lemma_le_bytes_len(v, n);
    if n > 0 {
        let rest = le_bytes(v / 256, (n - 1) as nat);
        assert(le_bytes(v, n).drop_first() =~= rest);
        lemma_fundamental_div_mod(v as int, 256);
        assert(v / 256 < pow256((n - 1) as nat)) by (nonlinear_arith)
            requires
                v < 256 * pow256((n - 1) as nat),
                v == 256 * (v / 256) + v % 256,
                0 <= v % 256 < 256,
        ;
        lemma_le_value_of_bytes(v / 256, (n - 1) as nat);
    }
}

/// Bytes are the little-endian encoding of their value.
pub proof fn lemma_bytes_of_le_value(s: Seq<u8>)
    ensures
        le_bytes(le_value(s), s.len()) == s,
        le_value(s) < pow256(s.len()),
    decreases s.len(),
{
    if s.len() > 0 {
        let tail = s.drop_first();
        lemma_bytes_of_le_value(tail);
        let r = le_value(tail);
        lemma_fundamental_div_mod_converse(le_value(s) as int, 256, r as int, s[0] as int);
        assert(le_bytes(le_value(s), s.len()) =~= s);
        assert(le_value(s) < pow256(s.len())) by (nonlinear_arith)
            requires
                le_value(s) == s[0] as nat + 256 * r,
                r < pow256(tail.len()),
                s[0] < 256,
                pow256(s.len()) == 256 * pow256(tail.len()),
        ;
    }
}

/// Appends the `n` low bytes of `v`, least significant first.
pub(crate) fn push_le(out: &mut Vec<u8>, v: u64, n: usize)
    ensures
        final(out)@ == old(out)@ + le_bytes(v as nat, n as nat),
{
    let mut x: u64 = v;
    let mut i: usize = 0;
    while i < n
        invariant
            i <= n,
            out@ + le_bytes(x as nat, (n - i) as nat) == old(out)@ + le_bytes(v as nat, n as nat),
        decreases n - i,
    {
        let ghost before = out@;
        let ghost tail = le_bytes((x / 256) as nat, (n - i - 1) as nat);
        assert(le_bytes(x as nat, (n - i) as nat) == seq![(x % 256) as u8] + tail);
        out.push((x % 256) as u8);
        assert(out@ + tail =~= before + (seq![(x % 256) as u8] + tail));
        x = x / 256;
        i = i + 1;
    }
    assert(out@ + le_bytes(x as nat, 0) =~= out@);
}

/// Appends every byte of `s`.
pub(crate) fn push_bytes(out: &mut Vec<u8>, s: &[u8])
    ensures
        final(out)@ == old(out)@ + s@,
{
    let mut i: usize = 0;
    while i < s.len()
        invariant
            i <= s@.len(),
            out@ == old(out)@ + s@.subrange(0, i as int),
        decreases s@.len() - i,
    {
        assert(s@.subrange(0, i + 1) =~= s@.subrange(0, i as int).push(s@[i as int]));
        out.push(s[i]);
        i = i + 1;
    }
    assert(s@.subrange(0, s@.len() as int) =~= s@);
}

/// The value of the `n` bytes of `bytes` that start at `start`, read as a
/// little-endian number.
fn read_le(bytes: &Vec<u8>, start: usize, n: usize) -> (r: u64)
    requires
        n <= 8,
        start + n <= bytes@.len(),
    ensures
        r == le_value(bytes@.subrange(start as int, start + n)),
{
    let mut acc: u64 = 0;
    let mut i: usize = n;
    proof {
        lemma_pow256_facts();
    }
    assert(bytes@.subrange(start + n, start + n) =~= Seq::<u8>::empty());
    let len = bytes.len();
    while i > 0
        invariant
            len == bytes@.len(),
            i <= n <= 8,
            start + n <= bytes@.len(),
            acc == le_value(bytes@.subrange(start + i, start + n)),
            pow256(8) == 0x1_0000_0000_0000_0000,
        decreases i,
    {
        let ghost cur = bytes@.subrange(start + i - 1, start + n);
        assert(cur.drop_first() =~= bytes@.subrange(start + i, start + n));
        proof {
            lemma_bytes_of_le_value(cur);
            lemma_pow256_monotone(cur.len(), 8);
            assert(le_value(cur) == cur[0] as nat + 256 * le_value(cur.drop_first()));
            assert(cur[0] == bytes@[start + i - 1]);
        }
        acc = acc * 256 + bytes[start + i - 1] as u64;
        i = i - 1;
    }
    acc
}

pub proof fn lemma_pow256_monotone(a: nat, b: nat)
    requires
        a <= b,
    ensures
        pow256(a) <= pow256(b),
    decreases b,
{
    if a < b {
        lemma_pow256_monotone(a, (b - 1) as nat);
    }
}

/// The 32 bytes of `bytes` that start at `start`.
pub(crate) fn read_key(bytes: &Vec<u8>, start: usize) -> (r: Key)
    requires
        start + 32 <= bytes@.len(),
    ensures
        r@ == bytes@.subrange(start as int, start + 32),
{
    let mut k: Key = [0u8; 32];
    let mut i: usize = 0;
    let len = bytes.len();
    while i < 32
        invariant
            i <= 32,
            len == bytes@.len(),
            start + 32 <= bytes@.len(),
            k@.len() == 32,
            forall|j: int| 0 <= j < i ==> k@[j] == bytes@[start + j],
        decreases 32 - i,
    {
        k[i] = bytes[start + i];
        i = i + 1;
    }
    assert(k@ =~= bytes@.subrange(start as int, start + 32));
    k
}

/// The name of an action as it stands in the encoding.
fn action_tag_bytes(a: MessageAction) -> (r: Vec<u8>)
    ensures
        r@ == action_tag(a),
{
    let r: Vec<u8> = match a {
        MessageAction::Borrow => vec![98u8, 111u8, 114u8, 114u8, 111u8, 119u8],
        MessageAction::Repay => vec![114u8, 101u8, 112u8, 97u8, 121u8],
        MessageAction::Liquidate => vec![108u8, 105u8, 113u8, 117u8, 105u8, 100u8, 97u8, 116u8, 101u8],
    };
    assert(r@ =~= action_tag(a));
    r
}

/// Encodes `m` in the shared layout.
pub fn encode_message(m: &CrossChainMessage) -> (r: Vec<u8>)
    ensures
        r@ == message_bytes(*m),
{
    let tag = action_tag_bytes(m.action);
    let mut out: Vec<u8> = Vec::new();
    push_le(&mut out, tag.len() as u64, 4);
    push_bytes(&mut out, tag.as_slice());
    push_bytes(&mut out, m.user.as_slice());
    push_le(&mut out, m.amount, 8);
    push_bytes(&mut out, m.asset.as_slice());
    let stamp: u64 = if m.timestamp >= 0 {
        m.timestamp as u64
    } else {
        u64::MAX - ((-(m.timestamp + 1)) as u64)
    };
    push_le(&mut out, stamp, 8);
    push_le(&mut out, m.source_chain as u64, 4);
    push_le(&mut out, m.dest_chain as u64, 4);
    push_bytes(&mut out, m.receiver.as_slice());
    push_le(&mut out, m.nonce, 8);
    assert(out@ =~= message_bytes(*m));
    out
}

/// Where each field of an encoded message stands, `l` being the length of
/// its action tag.
pub proof fn lemma_message_layout(m: CrossChainMessage)
    ensures
        ({
            let s = message_bytes(m);
            let l = action_tag(m.action).len() as int;
            &&& s.len() == l + 132
            &&& s.subrange(0, 4) == le_bytes(l as nat, 4)
            &&& s.subrange(4, 4 + l) == action_tag(m.action)
            &&& s.subrange(4 + l, 36 + l) == m.user@
            &&& s.subrange(36 + l, 44 + l) == le_bytes(m.amount as nat, 8)
            &&& s.subrange(44 + l, 76 + l) == m.asset@
            &&& s.subrange(76 + l, 84 + l) == le_bytes(twos(m.timestamp), 8)
            &&& s.subrange(84 + l, 88 + l) == le_bytes(m.source_chain as nat, 4)
            &&& s.subrange(88 + l, 92 + l) == le_bytes(m.dest_chain as nat, 4)
            &&& s.subrange(92 + l, 124 + l) == m.receiver@
            &&& s.subrange(124 + l, 132 + l) == le_bytes(m.nonce as nat, 8)
        }),
{
    let s = message_bytes(m);
    let tag = action_tag(m.action);
    let l = tag.len() as int;
    lemma_le_bytes_len(l as nat, 4);
    lemma_le_bytes_len(m.amount as nat, 8);
    lemma_le_bytes_len(twos(m.timestamp), 8);
    lemma_le_bytes_len(m.source_chain as nat, 4);
    lemma_le_bytes_len(m.dest_chain as nat, 4);
    lemma_le_bytes_len(m.nonce as nat, 8);
    assert(s.subrange(0, 4) =~= le_bytes(l as nat, 4));
    assert(s.subrange(4, 4 + l) =~= tag);
    assert(s.subrange(4 + l, 36 + l) =~= m.user@);
    assert(s.subrange(36 + l, 44 + l) =~= le_bytes(m.amount as nat, 8));
    assert(s.subrange(44 + l, 76 + l) =~= m.asset@);
    assert(s.subrange(76 + l, 84 + l) =~= le_bytes(twos(m.timestamp), 8));
    assert(s.subrange(84 + l, 88 + l) =~= le_bytes(m.source_chain as nat, 4));
    assert(s.subrange(88 + l, 92 + l) =~= le_bytes(m.dest_chain as nat, 4));
    assert(s.subrange(92 + l, 124 + l) =~= m.receiver@);
    assert(s.subrange(124 + l, 132 + l) =~= le_bytes(m.nonce as nat, 8));
}

/// A message whose fields are read from the places that the layout gives
/// them in `s` encodes to `s`.
proof fn lemma_fields_encode(s: Seq<u8>, m: CrossChainMessage)
    requires
        ({
            let l = action_tag(m.action).len() as int;
            &&& s.len() == l + 132
            &&& le_value(s.subrange(0, 4)) == l
            &&& s.subrange(4, 4 + l) == action_tag(m.action)
            &&& s.subrange(4 + l, 36 + l) == m.user@
            &&& le_value(s.subrange(36 + l, 44 + l)) == m.amount
            &&& s.subrange(44 + l, 76 + l) == m.asset@
            &&& le_value(s.subrange(76 + l, 84 + l)) == twos(m.timestamp)
            &&& le_value(s.subrange(84 + l, 88 + l)) == m.source_chain
            &&& le_value(s.subrange(88 + l, 92 + l)) == m.dest_chain
            &&& s.subrange(92 + l, 124 + l) == m.receiver@
            &&& le_value(s.subrange(124 + l, 132 + l)) == m.nonce
        }),
    ensures
        message_bytes(m) == s,
{
    let l = action_tag(m.action).len() as int;
    lemma_bytes_of_le_value(s.subrange(0, 4));
    lemma_bytes_of_le_value(s.subrange(36 + l, 44 + l));
    lemma_bytes_of_le_value(s.subrange(76 + l, 84 + l));
    lemma_bytes_of_le_value(s.subrange(84 + l, 88 + l));
    lemma_bytes_of_le_value(s.subrange(88 + l, 92 + l));
    lemma_bytes_of_le_value(s.subrange(124 + l, 132 + l));
    lemma_message_layout(m);
    let e = message_bytes(m);
    assert(e.len() == s.len());
    assert forall|i: int| 0 <= i < s.len() implies e[i] == s[i] by {
        if i < 4 {
            assert(e.subrange(0, 4)[i] == s.subrange(0, 4)[i]);
        } else if i < 4 + l {
            assert(e.subrange(4, 4 + l)[i - 4] == s.subrange(4, 4 + l)[i - 4]);
        } else if i < 36 + l {
            assert(e.subrange(4 + l, 36 + l)[i - 4 - l] == s.subrange(4 + l, 36 + l)[i - 4 - l]);
        } else if i < 44 + l {
            assert(e.subrange(36 + l, 44 + l)[i - 36 - l] == s.subrange(36 + l, 44 + l)[i - 36 - l]);
        } else if i < 76 + l {
            assert(e.subrange(44 + l, 76 + l)[i - 44 - l] == s.subrange(44 + l, 76 + l)[i - 44 - l]);
        } else if i < 84 + l {
            assert(e.subrange(76 + l, 84 + l)[i - 76 - l] == s.subrange(76 + l, 84 + l)[i - 76 - l]);
        } else if i < 88 + l {
            assert(e.subrange(84 + l, 88 + l)[i - 84 - l] == s.subrange(84 + l, 88 + l)[i - 84 - l]);
        } else if i < 92 + l {
            assert(e.subrange(88 + l, 92 + l)[i - 88 - l] == s.subrange(88 + l, 92 + l)[i - 88 - l]);
        } else if i < 124 + l {
            assert(e.subrange(92 + l, 124 + l)[i - 92 - l] == s.subrange(92 + l, 124 + l)[i - 92 - l]);
        } else {
            assert(e.subrange(124 + l, 132 + l)[i - 124 - l] == s.subrange(124 + l, 132 + l)[i - 124 - l]);
        }
    }
    assert(e =~= s);
}

/// Distinct messages have distinct encodings.
pub proof fn lemma_message_bytes_injective(a: CrossChainMessage, b: CrossChainMessage)
    requires
        message_bytes(a) == message_bytes(b),
    ensures
        a == b,
{
    broadcast use vstd::array::group_array_axioms;

    lemma_pow256_facts();
    lemma_message_layout(a);
    lemma_message_layout(b);
    let la = action_tag(a.action).len();
    let lb = action_tag(b.action).len();
    lemma_le_value_of_bytes(la, 4);
    lemma_le_value_of_bytes(lb, 4);
    assert(la == lb);
    assert(a.action == b.action);
    lemma_le_value_of_bytes(a.amount as nat, 8);
    lemma_le_value_of_bytes(b.amount as nat, 8);
    lemma_le_value_of_bytes(twos(a.timestamp), 8);
    lemma_le_value_of_bytes(twos(b.timestamp), 8);
    lemma_le_value_of_bytes(a.source_chain as nat, 4);
    lemma_le_value_of_bytes(b.source_chain as nat, 4);
    lemma_le_value_of_bytes(a.dest_chain as nat, 4);
    lemma_le_value_of_bytes(b.dest_chain as nat, 4);
    lemma_le_value_of_bytes(a.nonce as nat, 8);
    lemma_le_value_of_bytes(b.nonce as nat, 8);
    assert(a.user == b.user);
    assert(a.asset == b.asset);
    assert(a.receiver == b.receiver);
}

/// Whether the `expected.len()` bytes of `bytes` from `start` are `expected`.
fn bytes_match(bytes: &Vec<u8>, start: usize, expected: &Vec<u8>) -> (r: bool)
    requires
        start + expected@.len() <= bytes@.len(),
    ensures
        r == (bytes@.subrange(start as int, start + expected@.len()) == expected@),
{
    let len = bytes.len();
    let mut i: usize = 0;
    while i < expected.len()
        invariant
            len == bytes@.len(),
            start + expected@.len() <= bytes@.len(),
            i <= expected@.len(),
            forall|j: int| 0 <= j < i ==> bytes@[start + j] == expected@[j],
        decreases expected@.len() - i,
    {
        if bytes[start + i] != expected[i] {
            assert(bytes@.subrange(start as int, start + expected@.len())[i as int] != expected@[i as int]);
            return false;
        }
        i = i + 1;
    }
    assert(bytes@.subrange(start as int, start + expected@.len()) =~= expected@);
    true
}

/// Decodes a message. Succeeds exactly on the encodings of messages, and
/// then returns the message encoded; anything else fails with
/// `CrossChainFailed`.
pub fn decode_message(payload: &Vec<u8>) -> (r: Result<CrossChainMessage, ErrorCode>)
    ensures
        r is Ok ==> message_bytes(r->Ok_0) == payload@,
        forall|m: CrossChainMessage| #[trigger]
            message_bytes(m) == payload@ ==> r == Ok::<CrossChainMessage, ErrorCode>(m),
        r is Err ==> r->Err_0 == ErrorCode::CrossChainFailed,
{
    broadcast use vstd::array::group_array_axioms;

    let ghost s = payload@;
    proof {
        lemma_pow256_facts();
        assert forall|m: CrossChainMessage| #[trigger] message_bytes(m) == s implies action_tag(
            m.action,
        ).len() == le_value(s.subrange(0, 4)) by {
            lemma_message_layout(m);
            lemma_le_value_of_bytes(action_tag(m.action).len(), 4);
        }
    }
    let len = payload.len();
    if len < 4 {
        proof {
            assert forall|m: CrossChainMessage| message_bytes(m) != s by {
                lemma_message_layout(m);
            }
        }
        return Err(ErrorCode::CrossChainFailed);
    }
    let tag_len = read_le(payload, 0, 4);
    let action = if tag_len == 6 {
        MessageAction::Borrow
    } else if tag_len == 5 {
        MessageAction::Repay
    } else if tag_len == 9 {
        MessageAction::Liquidate
    } else {
        return Err(ErrorCode::CrossChainFailed);
    };
    let tag = action_tag_bytes(action);
    if len != 132 + tag.len() {
        proof {
            assert forall|m: CrossChainMessage| message_bytes(m) != s by {
                lemma_message_layout(m);
            }
        }
        return Err(ErrorCode::CrossChainFailed);
    }
    if !bytes_match(payload, 4, &tag) {
        proof {
            assert forall|m: CrossChainMessage| message_bytes(m) != s by {
                lemma_message_layout(m);
                if message_bytes(m) == s {
                    assert(m.action == action);
                }
            }
        }
        return Err(ErrorCode::CrossChainFailed);
    }
    let ghost l = tag@.len() as int;
    let p = 4 + tag.len();
    let user = read_key(payload, p);
    let amount = read_le(payload, p + 32, 8);
    let asset = read_key(payload, p + 40);
    let stamp = read_le(payload, p + 72, 8);
    let source = read_le(payload, p + 80, 4);
    let dest = read_le(payload, p + 84, 4);
    let receiver = read_key(payload, p + 88);
    let nonce = read_le(payload, p + 120, 8);
    proof {
        lemma_bytes_of_le_value(s.subrange(0, 4));
        lemma_bytes_of_le_value(s.subrange(36 + l, 44 + l));
        lemma_bytes_of_le_value(s.subrange(76 + l, 84 + l));
        lemma_bytes_of_le_value(s.subrange(84 + l, 88 + l));
        lemma_bytes_of_le_value(s.subrange(88 + l, 92 + l));
        lemma_bytes_of_le_value(s.subrange(124 + l, 132 + l));
    }
    let timestamp: i64 = if stamp <= i64::MAX as u64 {
        stamp as i64
    } else {
        -((u64::MAX - stamp) as i64) - 1
    };
    let m = CrossChainMessage {
        action,
        user,
        amount,
        asset,
        timestamp,
        source_chain: source as u32,
        dest_chain: dest as u32,
        receiver,
        nonce,
    };
    proof {
        assert(twos(timestamp) == stamp);
        lemma_fields_encode(s, m);
        assert forall|m2: CrossChainMessage| #[trigger] message_bytes(m2) == s implies m2 == m by {
            lemma_message_bytes_injective(m2, m);
        }
    }
    Ok(m)
}

} // verus!
