//! Stable identities for dynamic slots and component instances.
//!
//! An identity is a pair: the position context that the lowering step hands
//! over, and a 64-bit FNV-1a digest of the source text. Both parts are pure
//! functions of their inputs, so an identity is the same in every process and
//! on every machine, and two positions never share one.
use vstd::prelude::*;
use vstd::string::*;

verus! {

/// FNV-1a offset basis (64-bit).
pub const FNV_OFFSET_BASIS: u64 = 0xcbf2_9ce4_8422_2325;

/// FNV-1a prime (64-bit).
pub const FNV_PRIME: u64 = 0x0000_0100_0000_01b3;

/// One FNV-1a round on the scalar value of a character.
pub open spec fn fnv_step(h: u64, c: char) -> u64 {
    (h ^ (c as u32 as u64)).wrapping_mul(FNV_PRIME)
}

/// The 64-bit FNV-1a digest of a character sequence, one round per character.
pub open spec fn fnv1a(s: Seq<char>) -> u64
    decreases s.len(),
{
    if s.len() == 0 {
        FNV_OFFSET_BASIS
    } else {
        fnv_step(fnv1a(s.drop_last()), s.last())
    }
}

/// Computes the 64-bit FNV-1a digest of `s`.
pub fn source_digest(s: &str) -> (r: u64)
    ensures
        r == fnv1a(s@),
{
    let n = s.unicode_len();
    let mut h: u64 = FNV_OFFSET_BASIS;
    let mut i: usize = 0;
    while i < n
        invariant
            n == s@.len(),
            i <= n,
            h == fnv1a(s@.subrange(0, i as int)),
        decreases n - i,
    {
        let c = s.get_char(i);
        proof {
            assert(s@.subrange(0, i + 1).drop_last() =~= s@.subrange(0, i as int));
        }
        h = (h ^ (c as u32 as u64)).wrapping_mul(FNV_PRIME);
        i = i + 1;
    }
    proof {
        assert(s@.subrange(0, n as int) =~= s@);
    }
    h
}

/// The identity of an expression slot: the position context and the digest
/// of the expression's source text.
#[derive(Clone, Copy, Debug, PartialEq, Eq, Structural, Hash)]
pub struct ExpressionId {
    pub context: u64,
    pub digest: u64,
}

/// The identity of a component instance: the digest of its kind and the
/// position context that tells instances of one kind apart.
#[derive(Clone, Copy, Debug, PartialEq, Eq, Structural, Hash)]
pub struct ComponentId {
    pub kind: u64,
    pub context: u64,
}

pub open spec fn expression_id(context: u64, source: Seq<char>) -> ExpressionId {
    ExpressionId { context, digest: fnv1a(source) }
}

pub open spec fn component_id(kind: Seq<char>, context: u64) -> ComponentId {
    ComponentId { kind: fnv1a(kind), context }
}

impl ExpressionId {
    /// Derives the identity of the expression with source text `source` at
    /// the position `context`.
    pub fn derive(context: u64, source: &str) -> (r: ExpressionId)
        ensures
            r == expression_id(context, source@),
    {
        ExpressionId { context, digest: source_digest(source) }
    }
}

impl ComponentId {
    /// Derives the identity of the instance of component kind `kind` at the
    /// position `context`.
    pub fn derive(kind: &str, context: u64) -> (r: ComponentId)
        ensures
            r == component_id(kind@, context),
    {
        ComponentId { kind: source_digest(kind), context }
    }
}

/// Identities depend on nothing but their inputs: the same source text at
/// the same position always yields the same identity.
pub proof fn lemma_identity_deterministic(c1: u64, s1: Seq<char>, c2: u64, s2: Seq<char>)
    requires
        c1 == c2,
        s1 == s2,
    ensures
        expression_id(c1, s1) == expression_id(c2, s2),
        component_id(s1, c1) == component_id(s2, c2),
{
}

/// Different positions yield different identities, whatever the source text
/// (textually identical expressions included).
pub proof fn lemma_identity_distinct_positions(c1: u64, s1: Seq<char>, c2: u64, s2: Seq<char>)
    requires
        c1 != c2,
    ensures
        expression_id(c1, s1) != expression_id(c2, s2),
        component_id(s1, c1) != component_id(s2, c2),
{
}

} // verus!
