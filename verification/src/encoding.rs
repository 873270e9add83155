//! The byte encoding that program inputs are written in: bincode's default
//! encoding (fixed-width little-endian integers, lengths as `u64`), for the
//! two value shapes that the host encodes itself.

use vstd::prelude::*;

verus! {

/// The `n` low bytes of `x`, least significant first.
pub open spec fn le_bytes(x: nat, n: nat) -> Seq<u8>
    decreases n,
{
    if n == 0 {
        seq![]
    } else {
        seq![(x % 256) as u8] + le_bytes(x / 256, (n - 1) as nat)
    }
}

/// A length or `u64` as bincode writes it: eight little-endian bytes.
pub open spec fn u64_le(x: nat) -> Seq<u8> {
    le_bytes(x, 8)
}

/// A byte vector as bincode writes it: its length, then its bytes.
pub open spec fn encode_bytes(b: Seq<u8>) -> Seq<u8> {
    u64_le(b.len()) + b
}

/// The byte vectors of a list, each encoded, one after the other.
pub open spec fn encode_items(f: Seq<Seq<u8>>) -> Seq<u8>
    decreases f.len(),
{
    if f.len() == 0 {
        seq![]
    } else {
        encode_bytes(f[0]) + encode_items(f.drop_first())
    }
}

/// A `Vec<Vec<u8>>` as bincode writes it: the number of vectors, then each
/// vector with its own length.
pub open spec fn encode_frame_list(f: Seq<Seq<u8>>) -> Seq<u8> {
    u64_le(f.len()) + encode_items(f)
}

/// A `[u32; N]` as bincode writes it: each word as four little-endian bytes,
/// with no length.
pub open spec fn encode_words(w: Seq<u32>) -> Seq<u8>
    decreases w.len(),
{
    if w.len() == 0 {
        seq![]
    } else {
        le_bytes(w[0] as nat, 4) + encode_words(w.drop_first())
    }
}

/// `256` to the power `n`.
pub open spec fn pow256(n: nat) -> nat
    decreases n,
{
    if n == 0 {
        1
    } else {
        256 * pow256((n - 1) as nat)
    }
}

/// The number that little-endian bytes denote.
spec fn le_value(s: Seq<u8>) -> nat
    decreases s.len(),
{
    if s.len() == 0 {
        0
    } else {
        s[0] as nat + 256 * le_value(s.drop_first())
    }
}

/// Whether every byte vector of a list has a length that bincode can write.
pub open spec fn lengths_fit(f: Seq<Seq<u8>>) -> bool {
    &&& f.len() <= u64::MAX
    &&& forall|i: int| 0 <= i < f.len() ==> #[trigger] f[i].len() <= u64::MAX
}

/// Reads `n` length-prefixed byte vectors from the front of `b`.
spec fn decode_items(b: Seq<u8>, n: nat) -> Option<Seq<Seq<u8>>>
    decreases n,
{
    if n == 0 {
        Some(seq![])
    } else if b.len() < 8 {
        None
    } else {
        let len = le_value(b.take(8));
        let rest = b.skip(8);
        if rest.len() < len {
            None
        } else {
            match decode_items(rest.skip(len as int), (n - 1) as nat) {
                Some(items) => Some(seq![rest.take(len as int)] + items),
                None => None,
            }
        }
    }
}

proof fn lemma_le_roundtrip(x: nat, n: nat)
    requires
        x < pow256(n),
    ensures
        le_bytes(x, n).len() == n,
        le_value(le_bytes(x, n)) == x,
    decreases n,
{
    if n > 0 {
        let p = pow256((n - 1) as nat);
        assert(x / 256 < p) by (nonlinear_arith)
            requires
                x < 256 * p,
        ;
        lemma_le_roundtrip(x / 256, (n - 1) as nat);
        let s = le_bytes(x, n);
        assert(s.drop_first() =~= le_bytes(x / 256, (n - 1) as nat));
        assert(x == x % 256 + 256 * (x / 256));
    }
}

proof fn lemma_u64_le_roundtrip(x: nat)
    requires
        x <= u64::MAX,
    ensures
        u64_le(x).len() == 8,
        le_value(u64_le(x)) == x,
{
    reveal_with_fuel(pow256, 9);
    lemma_le_roundtrip(x, 8);
}

proof fn lemma_decode_items(f: Seq<Seq<u8>>, tail: Seq<u8>)
    requires
        lengths_fit(f),
    ensures
        decode_items(encode_items(f) + tail, f.len()) == Some(f),
    decreases f.len(),
{
    if f.len() > 0 {
        let rest_f = f.drop_first();
        assert(lengths_fit(rest_f)) by {
            assert forall|i: int| 0 <= i < rest_f.len() implies #[trigger] rest_f[i].len()
                <= u64::MAX by {
                assert(rest_f[i] == f[i + 1]);
            }
        }
        lemma_decode_items(rest_f, tail);
        let len = f[0].len();
        assert(len <= u64::MAX);
        lemma_u64_le_roundtrip(len);
        let e = encode_items(f) + tail;
        let after = encode_items(rest_f) + tail;
        assert(e =~= u64_le(len) + (f[0] + after));
        assert(e.take(8) =~= u64_le(len));
        assert(e.skip(8) =~= f[0] + after);
        assert(e.skip(8).take(len as int) =~= f[0]);
        assert(e.skip(8).skip(len as int) =~= after);
        assert(seq![f[0]] + rest_f =~= f);
    }
}

/// Different lists of byte vectors never encode to the same bytes, so a
/// reader of the encoding recovers exactly the list that was written.
pub proof fn lemma_encode_frame_list_injective(f: Seq<Seq<u8>>, g: Seq<Seq<u8>>)
    requires
        lengths_fit(f),
        lengths_fit(g),
        encode_frame_list(f) == encode_frame_list(g),
    ensures
        f == g,
{
    let e = encode_frame_list(f);
    lemma_u64_le_roundtrip(f.len());
    lemma_u64_le_roundtrip(g.len());
    assert(e.take(8) =~= u64_le(f.len()));
    assert(encode_frame_list(g).take(8) =~= u64_le(g.len()));
    assert(f.len() == g.len());
    lemma_decode_items(f, seq![]);
    lemma_decode_items(g, seq![]);
    assert(encode_items(f) + seq![] =~= e.skip(8));
    assert(encode_items(g) + seq![] =~= e.skip(8));
}

proof fn lemma_encode_words_len(w: Seq<u32>)
    ensures
        encode_words(w).len() == 4 * w.len(),
    decreases w.len(),
{
    if w.len() > 0 {
        reveal_with_fuel(pow256, 5);
        lemma_le_roundtrip(w[0] as nat, 4);
        lemma_encode_words_len(w.drop_first());
    }
}

/// Different word sequences never encode to the same bytes, so a reader of
/// the encoding recovers exactly the words that were written.
pub proof fn lemma_encode_words_injective(w: Seq<u32>, v: Seq<u32>)
    requires
        encode_words(w) == encode_words(v),
    ensures
        w == v,
    decreases w.len(),
{
    lemma_encode_words_len(w);
    lemma_encode_words_len(v);
    if w.len() > 0 {
        reveal_with_fuel(pow256, 5);
        lemma_le_roundtrip(w[0] as nat, 4);
        lemma_le_roundtrip(v[0] as nat, 4);
        let e = encode_words(w);
        assert(e.take(4) =~= le_bytes(w[0] as nat, 4));
        assert(encode_words(v).take(4) =~= le_bytes(v[0] as nat, 4));
        assert(w[0] == v[0]);
        assert(e.skip(4) =~= encode_words(w.drop_first()));
        assert(encode_words(v).skip(4) =~= encode_words(v.drop_first()));
        lemma_encode_words_injective(w.drop_first(), v.drop_first());
        assert(w.len() == v.len());
        assert forall|i: int| 0 <= i < w.len() implies w[i] == v[i] by {
            if i > 0 {
                assert(w[i] == w.drop_first()[i - 1]);
                assert(v[i] == v.drop_first()[i - 1]);
            }
        }
        assert(w =~= v);
    } else {
        assert(w =~= v);
    }
}

/// Calls `bincode::serialize` on a `Vec<Vec<u8>>`. bincode 1.3's default
/// encoding (fixint, little endian, no size limit) writes a sequence through
/// `serialize_seq`, which emits the length as a `u64` and then each element;
/// a `u8` is one byte. The output goes to a `Vec<u8>`, which cannot fail, and
/// a `Vec` always reports its length, so the call returns `Ok`. The contract
/// states that result byte for byte.
#[verifier::external_body]
pub(crate) fn bincode_frame_list(frames: &Vec<Vec<u8>>) -> (r: Option<Vec<u8>>)
    ensures
        r is Some,
        r.unwrap()@ == encode_frame_list(frames.deep_view()),
{
    bincode::serialize(frames).ok()
}

/// Calls `bincode::serialize` on a `[u32; 8]`. bincode 1.3's default encoding
/// writes an array through `serialize_tuple`, which emits no length, and each
/// `u32` as four little-endian bytes; writing to a `Vec<u8>` cannot fail. The
/// contract states that result byte for byte.
#[verifier::external_body]
pub(crate) fn bincode_words(words: &[u32; 8]) -> (r: Option<Vec<u8>>)
    ensures
        r is Some,
        r.unwrap()@ == encode_words(words@),
{
    bincode::serialize(words).ok()
}

/// Encodes a list of byte vectors as bincode encodes a `Vec<Vec<u8>>`.
pub fn encode_frames(frames: &Vec<Vec<u8>>) -> (b: Vec<u8>)
    ensures
        b@ == encode_frame_list(frames.deep_view()),
{
    match bincode_frame_list(frames) {
        Some(b) => b,
        None => {
            assert(false);
            Vec::new()
        },
    }
}

/// Encodes eight words as bincode encodes a `[u32; 8]`.
pub fn encode_digest(words: &[u32; 8]) -> (b: Vec<u8>)
    ensures
        b@ == encode_words(words@),
{
    match bincode_words(words) {
        Some(b) => b,
        None => {
            assert(false);
            Vec::new()
        },
    }
}

} // verus!
