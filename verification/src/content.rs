//! Deterministic content hashing of tracking identities.
//!
//! An identity is written as bytes that spell every one of its components
//! (a prefix-free text encoding of the session, then the generation and the
//! serial as eight little-endian bytes each), and the 64-bit FNV-1a hash of
//! those bytes is its content hash. The encoding determines the identity:
//! two identities with the same bytes are equal.

use vstd::prelude::*;
use vstd::string::*;

use crate::text::lemma_char_u32_injective;
use crate::tracking::model::{IdView, TrackingId};

verus! {

/// The FNV-1a 64-bit offset basis.
pub const FNV_OFFSET_BASIS: u64 = 0xcbf2_9ce4_8422_2325;

/// The FNV-1a 64-bit prime.
pub const FNV_PRIME: u64 = 0x0000_0100_0000_01b3;

/// `256` to the power `n`.
pub open spec fn pow256(n: nat) -> nat
    decreases n,
{
    if n == 0 {
        1
    } else {
        256 * pow256((n - 1) as nat)
    }
}

/// The `n` low bytes of `v`, least significant first.
pub open spec fn le_bytes(v: nat, n: nat) -> Seq<u8>
    decreases n,
{
    if n == 0 {
        seq![]
    } else {
        seq![(v % 256) as u8] + le_bytes(v / 256, (n - 1) as nat)
    }
}

/// The value that little-endian bytes spell.
pub open spec fn le_value(s: Seq<u8>) -> nat
    decreases s.len(),
{
    if s.len() == 0 {
        0
    } else {
        s[0] as nat + 256 * le_value(s.drop_first())
    }
}

/// Each character as the four little-endian bytes of its code point.
pub open spec fn chars_bytes(s: Seq<char>) -> Seq<u8>
    decreases s.len(),
{
    if s.len() == 0 {
        seq![]
    } else {
        le_bytes(s[0] as u32 as nat, 4) + chars_bytes(s.drop_first())
    }
}

/// The mark that ends a text: no character's bytes begin with it, since
/// the highest byte of a code point is at most `0x10`.
pub open spec fn end_of_text() -> Seq<u8> {
    seq![0xffu8, 0xffu8, 0xffu8, 0xffu8]
}

/// The bytes of a text: its characters, then the end mark.
pub open spec fn text_bytes(s: Seq<char>) -> Seq<u8> {
    chars_bytes(s) + end_of_text()
}

/// The content bytes of an identity: session text, generation, serial.
pub open spec fn id_bytes(t: IdView) -> Seq<u8> {
    text_bytes(t.session) + le_bytes(t.generation as nat, 8) + le_bytes(t.serial as nat, 8)
}

/// FNV-1a over `bytes`, starting from the state `h`.
pub open spec fn fnv1a_from(h: u64, bytes: Seq<u8>) -> u64
    decreases bytes.len(),
{
    if bytes.len() == 0 {
        h
    } else {
        fnv1a_from((h ^ (bytes[0] as u64)).wrapping_mul(FNV_PRIME), bytes.drop_first())
    }
}

/// The 64-bit FNV-1a hash of `bytes`.
pub open spec fn fnv1a(bytes: Seq<u8>) -> u64 {
    fnv1a_from(FNV_OFFSET_BASIS, bytes)
}

/// Little-endian bytes read back as the value they were written from.
pub proof fn lemma_le_round_trip(v: nat, n: nat)
    requires
        v < pow256(n),
    ensures
        le_bytes(v, n).len() == n,
        le_value(le_bytes(v, n)) == v,
    decreases n,
{
    if n > 0 {
        let m = (n - 1) as nat;
        let p = pow256(m);
        assert(v / 256 < p) by (nonlinear_arith)
            requires
                v < 256 * p,
        ;
        lemma_le_round_trip(v / 256, m);
        assert(le_bytes(v, n).drop_first() =~= le_bytes(v / 256, m));
    }
}

/// Appending a character appends its four bytes.
pub proof fn lemma_chars_bytes_push(s: Seq<char>, c: char)
    ensures
        chars_bytes(s.push(c)) == chars_bytes(s) + le_bytes(c as u32 as nat, 4),
    decreases s.len(),
{
    if s.len() == 0 {
        assert(s.push(c).drop_first() =~= s);
        assert(chars_bytes(s.push(c)) =~= le_bytes(c as u32 as nat, 4) + chars_bytes(s));
    } else {
        lemma_chars_bytes_push(s.drop_first(), c);
        assert(s.push(c).drop_first() =~= s.drop_first().push(c));
        assert(chars_bytes(s.push(c)) =~= chars_bytes(s) + le_bytes(c as u32 as nat, 4));
    }
}

/// The highest of the four bytes of a character is below the end mark.
proof fn lemma_char_high_byte(c: char)
    ensures
        (c as u32) <= 0x10ffff,
        le_bytes(c as u32 as nat, 4).len() == 4,
        le_bytes(c as u32 as nat, 4)[3] != 0xffu8,
{
    let v = c as u32 as nat;
    assert(v <= 0x10ffff);
    reveal_with_fuel(le_bytes, 5);
    assert(((v / 256) / 256) / 256 <= 0x10);
}

/// Text bytes are prefix-free: when a text's bytes followed by `ra` equal
/// another text's bytes followed by `rb`, the texts and the remainders are
/// equal.
pub proof fn lemma_text_bytes_prefix_free(a: Seq<char>, b: Seq<char>, ra: Seq<u8>, rb: Seq<u8>)
    requires
        text_bytes(a) + ra == text_bytes(b) + rb,
    ensures
        a == b,
        ra == rb,
    decreases a.len(),
{
    let ea = text_bytes(a) + ra;
    let eb = text_bytes(b) + rb;
    if a.len() == 0 && b.len() == 0 {
        assert(ra =~= ea.subrange(4, ea.len() as int));
        assert(rb =~= eb.subrange(4, eb.len() as int));
        assert(a =~= b);
    } else if a.len() > 0 && b.len() > 0 {
        let ta = text_bytes(a.drop_first()) + ra;
        let tb = text_bytes(b.drop_first()) + rb;
        lemma_char_high_byte(a[0]);
        lemma_char_high_byte(b[0]);
        assert(ea =~= le_bytes(a[0] as u32 as nat, 4) + ta);
        assert(eb =~= le_bytes(b[0] as u32 as nat, 4) + tb);
        assert(le_bytes(a[0] as u32 as nat, 4) =~= ea.subrange(0, 4));
        assert(le_bytes(b[0] as u32 as nat, 4) =~= eb.subrange(0, 4));
        assert(pow256(4) == 0x1_0000_0000) by {
            reveal_with_fuel(pow256, 5);
        }
        lemma_le_round_trip(a[0] as u32 as nat, 4);
        lemma_le_round_trip(b[0] as u32 as nat, 4);
        assert((a[0] as u32) == (b[0] as u32));
        lemma_char_u32_injective(a[0], b[0]);
        assert(ta =~= ea.subrange(4, ea.len() as int));
        assert(tb =~= eb.subrange(4, eb.len() as int));
        lemma_text_bytes_prefix_free(a.drop_first(), b.drop_first(), ra, rb);
        assert forall|i: int| 0 < i < a.len() implies a[i] == b[i] by {
            assert(a[i] == a.drop_first()[i - 1]);
            assert(b[i] == b.drop_first()[i - 1]);
        }
        assert(a =~= b);
    } else if a.len() == 0 {
        lemma_char_high_byte(b[0]);
        assert(eb =~= le_bytes(b[0] as u32 as nat, 4) + (text_bytes(b.drop_first()) + rb));
        assert(ea[3] == 0xffu8);
        assert(eb[3] == le_bytes(b[0] as u32 as nat, 4)[3]);
    } else {
        lemma_char_high_byte(a[0]);
        assert(ea =~= le_bytes(a[0] as u32 as nat, 4) + (text_bytes(a.drop_first()) + ra));
        assert(eb[3] == 0xffu8);
        assert(ea[3] == le_bytes(a[0] as u32 as nat, 4)[3]);
    }
}

/// The content bytes of an identity determine it: identities with equal
/// content bytes are equal, so the bytes cover every identity component.
pub proof fn law_content_bytes_determine_identity(a: IdView, b: IdView)
    requires
        id_bytes(a) == id_bytes(b),
    ensures
        a == b,
{
    let ra = le_bytes(a.generation as nat, 8) + le_bytes(a.serial as nat, 8);
    let rb = le_bytes(b.generation as nat, 8) + le_bytes(b.serial as nat, 8);
    assert(id_bytes(a) =~= text_bytes(a.session) + ra);
    assert(id_bytes(b) =~= text_bytes(b.session) + rb);
    lemma_text_bytes_prefix_free(a.session, b.session, ra, rb);
    assert(pow256(8) == 0x1_0000_0000_0000_0000) by {
        reveal_with_fuel(pow256, 9);
    }
    lemma_le_round_trip(a.generation as nat, 8);
    lemma_le_round_trip(b.generation as nat, 8);
    lemma_le_round_trip(a.serial as nat, 8);
    lemma_le_round_trip(b.serial as nat, 8);
    assert(le_bytes(a.generation as nat, 8) =~= ra.subrange(0, 8));
    assert(le_bytes(b.generation as nat, 8) =~= rb.subrange(0, 8));
    assert(le_bytes(a.serial as nat, 8) =~= ra.subrange(8, 16));
    assert(le_bytes(b.serial as nat, 8) =~= rb.subrange(8, 16));
}

/// Appends the `n` low bytes of `v`, least significant first.
pub fn push_le_bytes(out: &mut Vec<u8>, v: u64, n: usize)
    ensures
        final(out)@ == old(out)@ + le_bytes(v as nat, n as nat),
    decreases n,
{
    if n > 0 {
        let low: u8 = (v % 256) as u8;
        out.push(low);
        push_le_bytes(out, v / 256, n - 1);
        assert(final(out)@ =~= old(out)@ + le_bytes(v as nat, n as nat));
    }
}

/// Appends the bytes of the text `s`: its characters, then the end mark.
pub fn push_text_bytes(out: &mut Vec<u8>, s: &str)
    ensures
        final(out)@ == old(out)@ + text_bytes(s@),
{
    let n = s.unicode_len();
    let mut i: usize = 0;
    while i < n
        invariant
            n == s@.len(),
            i <= n,
            out@ == old(out)@ + chars_bytes(s@.subrange(0, i as int)),
        decreases n - i,
    {
        let c = s.get_char(i);
        let code: u32 = c as u32;
        push_le_bytes(out, code as u64, 4);
        proof {
            lemma_chars_bytes_push(s@.subrange(0, i as int), c);
            assert(s@.subrange(0, i as int).push(c) =~= s@.subrange(0, i + 1));
        }
        i = i + 1;
    }
    out.push(0xff);
    out.push(0xff);
    out.push(0xff);
    out.push(0xff);
    proof {
        assert(s@.subrange(0, n as int) =~= s@);
    }
    assert(out@ =~= old(out)@ + text_bytes(s@));
}

/// The 64-bit FNV-1a hash of `bytes`.
pub fn fnv1a_64(bytes: &[u8]) -> (r: u64)
    ensures
        r == fnv1a(bytes@),
{
    let mut h: u64 = FNV_OFFSET_BASIS;
    let mut i: usize = 0;
    proof {
        assert(bytes@.subrange(0, bytes@.len() as int) =~= bytes@);
    }
    while i < bytes.len()
        invariant
            i <= bytes.len(),
            fnv1a_from(h, bytes@.subrange(i as int, bytes@.len() as int)) == fnv1a(bytes@),
        decreases bytes.len() - i,
    {
        let b: u64 = bytes[i] as u64;
        proof {
            assert(bytes@.subrange(i as int, bytes@.len() as int).drop_first() =~= bytes@.subrange(
                i + 1,
                bytes@.len() as int,
            ));
        }
        h = (h ^ b).wrapping_mul(FNV_PRIME);
        i = i + 1;
    }
    proof {
        assert(bytes@.subrange(i as int, bytes@.len() as int) =~= Seq::<u8>::empty());
    }
    h
}

impl TrackingId {
    /// The content bytes of this identity: the session text, then the
    /// generation and the serial as eight little-endian bytes each.
    pub fn content_bytes(&self) -> (r: Vec<u8>)
        ensures
            r@ == id_bytes(self@),
    {
        let mut out: Vec<u8> = Vec::new();
        push_text_bytes(&mut out, self.session().as_str());
        push_le_bytes(&mut out, self.generation().raw(), 8);
        push_le_bytes(&mut out, self.serial(), 8);
        assert(out@ =~= id_bytes(self@));
        out
    }

    /// The deterministic 64-bit content hash: FNV-1a of the content bytes.
    pub fn content_hash64(&self) -> (r: u64)
        ensures
            r == fnv1a(id_bytes(self@)),
    {
        let bytes = self.content_bytes();
        fnv1a_64(bytes.as_slice())
    }
}

} // verus!
