//! The 128-bit identity that the server mints for each agent.
use vstd::prelude::*;

verus! {

/// Number of bytes in the wire form of an agent identity.
pub const AGENT_ID_LEN: usize = 16;

/// An agent identity: a 128-bit value, written on the wire as 16 big-endian bytes
/// and in public host names as a UUID.
#[derive(Clone, Copy, Debug, PartialEq, Eq, Hash, Structural)]
pub struct AgentId {
    pub value: u128,
}

/// `n` bytes holding `v mod 256^n`, most significant byte first.
pub open spec fn be_bytes(v: nat, n: nat) -> Seq<u8>
    decreases n,
{
    if n == 0 {
        Seq::empty()
    } else {
        be_bytes(v / 256, (n - 1) as nat).push((v % 256) as u8)
    }
}

/// The number that a big-endian byte string denotes.
pub open spec fn be_value(s: Seq<u8>) -> nat
    decreases s.len(),
{
    if s.len() == 0 {
        0
    } else {
        be_value(s.drop_last()) * 256 + s.last() as nat
    }
}

pub open spec fn pow256(n: nat) -> nat
    decreases n,
{
    if n == 0 {
        1
    } else {
        256 * pow256((n - 1) as nat)
    }
}

/// Reading back `n` big-endian bytes of `v` gives `v` modulo `256^n`.
pub proof fn lemma_be_round_trip(v: nat, n: nat)
    ensures
        be_bytes(v, n).len() == n,
        be_value(be_bytes(v, n)) == v % pow256(n),
    decreases n,
{
    if n > 0 {
        let m = (n - 1) as nat;
        lemma_be_round_trip(v / 256, m);
        let s = be_bytes(v, n);
        assert(s.drop_last() =~= be_bytes(v / 256, m));
        assert(pow256(m) > 0) by {
            lemma_pow256_positive(m);
        }
        let q = v / 256;
        let r = v % 256;
        let p = pow256(m);
        assert(be_value(s) == (q % p) * 256 + r);
        assert((q % p) * 256 + r == v % (256 * p)) by (nonlinear_arith)
            requires
                q == v / 256,
                r == v % 256,
                p > 0,
        {
            assert(v == q * 256 + r);
            assert(q == (q / p) * p + q % p);
            assert(v == (q / p) * (256 * p) + ((q % p) * 256 + r));
            assert(0 <= (q % p) * 256 + r < 256 * p);
        }
    }
}

pub proof fn lemma_pow256_positive(n: nat)
    ensures
        pow256(n) > 0,
    decreases n,
{
    if n > 0 {
        lemma_pow256_positive((n - 1) as nat);
    }
}

/// The wire form of an identity: its 16 bytes, most significant first.
pub open spec fn id_bytes(id: AgentId) -> Seq<u8> {
    be_bytes(id.value as nat, 16)
}

/// Decoding the 16 bytes that the server sends back to an agent gives the same
/// identity again.
pub proof fn lemma_id_bytes_round_trip(id: AgentId)
    ensures
        id_bytes(id).len() == AGENT_ID_LEN,
        be_value(id_bytes(id)) == id.value,
{
    lemma_be_round_trip(id.value as nat, 16);
    reveal_with_fuel(pow256, 17);
    assert(pow256(16) == 0x1_0000_0000_0000_0000_0000_0000_0000_0000nat);
}

fn push_be_bytes(v: u128, n: usize, out: &mut Vec<u8>)
    requires
        n <= AGENT_ID_LEN,
    ensures
        final(out)@ == old(out)@ + be_bytes(v as nat, n as nat),
    decreases n,
{
    if n > 0 {
        push_be_bytes(v / 256, n - 1, out);
        out.push((v % 256) as u8);
        assert(final(out)@ =~= old(out)@ + be_bytes(v as nat, n as nat));
    } else {
        assert(old(out)@ + be_bytes(v as nat, 0) =~= old(out)@);
    }
}

impl AgentId {
    pub fn from_u128(value: u128) -> (r: AgentId)
        ensures
            r.value == value,
    {
        AgentId { value }
    }

    pub fn as_u128(&self) -> (r: u128)
        ensures
            r == self.value,
    {
        self.value
    }

    /// The 16 bytes that identify this agent on the wire, most significant first.
    pub fn to_bytes(&self) -> (r: Vec<u8>)
        ensures
            r@ == id_bytes(*self),
            r@.len() == AGENT_ID_LEN,
    {
        let mut out: Vec<u8> = Vec::new();
        push_be_bytes(self.value, AGENT_ID_LEN, &mut out);
        assert(out@ =~= id_bytes(*self));
        proof {
            lemma_id_bytes_round_trip(*self);
        }
        out
    }

    /// Reads an identity back from its wire form; `None` unless there are
    /// exactly 16 bytes.
    pub fn from_bytes(bytes: &[u8]) -> (r: Option<AgentId>)
        ensures
            bytes@.len() == AGENT_ID_LEN <==> r.is_some(),
            r.is_some() ==> r.unwrap().value == be_value(bytes@),
    {
        if bytes.len() != AGENT_ID_LEN {
            return None;
        }
        let mut acc: u128 = 0;
        let mut i: usize = 0;
        while i < AGENT_ID_LEN
            invariant
                bytes@.len() == AGENT_ID_LEN,
                i <= AGENT_ID_LEN,
                acc as nat == be_value(bytes@.subrange(0, i as int)),
                (acc as nat) < pow256(i as nat),
            decreases AGENT_ID_LEN - i,
        {
            let ghost prefix = bytes@.subrange(0, i as int + 1);
            assert(prefix.drop_last() =~= bytes@.subrange(0, i as int));
            assert(pow256(i as nat) <= pow256(15)) by {
                lemma_pow256_mono(i as nat, 15);
            }
            assert(pow256(15) == 0x100_0000_0000_0000_0000_0000_0000_0000nat) by {
                reveal_with_fuel(pow256, 16);
            }
            let b = bytes[i];
            assert(acc * 256 + b < pow256(i as nat + 1)) by (nonlinear_arith)
                requires
                    acc < pow256(i as nat),
                    b < 256,
                    pow256(i as nat + 1) == 256 * pow256(i as nat),
            ;
            acc = acc * 256 + b as u128;
            i = i + 1;
        }
        assert(bytes@.subrange(0, 16) =~= bytes@);
        Some(AgentId { value: acc })
    }
}

pub proof fn lemma_pow256_mono(a: nat, b: nat)
    requires
        a <= b,
    ensures
        pow256(a) <= pow256(b),
    decreases b,
{
    if a < b {
        lemma_pow256_mono(a, (b - 1) as nat);
        lemma_pow256_positive((b - 1) as nat);
    }
}

} // verus!
