//! The order by which attribute keys are sorted.
//!
//! Keys are ordered lexicographically by their characters, a character being
//! the smaller if its code point is, and a proper prefix coming before every
//! key it begins. This is the order Rust gives strings. It is decided on the
//! bytes of the keys: [`lemma_encoding_keeps_order`] shows that UTF-8 keeps
//! the order.

use vstd::prelude::*;
use vstd::utf8::char_is_scalar;
use vstd::utf8::char_u32_cast;
use vstd::utf8::encode_scalar;
use vstd::utf8::encode_utf8;
use vstd::utf8::has_width_1_encoding;
use vstd::utf8::has_width_2_encoding;
use vstd::utf8::has_width_3_encoding;
use vstd::utf8::is_scalar;
use vstd::utf8::last_continuation_byte;
use vstd::utf8::leading_byte_width_1;
use vstd::utf8::leading_byte_width_2;
use vstd::utf8::leading_byte_width_3;
use vstd::utf8::leading_byte_width_4;
use vstd::utf8::second_last_continuation_byte;
use vstd::utf8::third_last_continuation_byte;

verus! {

/// Whether the key `a` comes strictly before the key `b`.
pub open spec fn key_before(a: Seq<char>, b: Seq<char>) -> bool
    decreases a.len(),
{
    if b.len() == 0 {
        false
    } else if a.len() == 0 {
        true
    } else if a[0] != b[0] {
        (a[0] as u32) < (b[0] as u32)
    } else {
        key_before(a.drop_first(), b.drop_first())
    }
}

/// No key comes before itself.
pub proof fn lemma_key_before_irreflexive(a: Seq<char>)
    ensures
        !key_before(a, a),
    decreases a.len(),
{
    if a.len() > 0 {
        lemma_key_before_irreflexive(a.drop_first());
    }
}

/// The order on keys is transitive.
pub proof fn lemma_key_before_transitive(a: Seq<char>, b: Seq<char>, c: Seq<char>)
    requires
        key_before(a, b),
        key_before(b, c),
    ensures
        key_before(a, c),
    decreases a.len(),
{
    if a.len() > 0 && a[0] == b[0] && b[0] == c[0] {
        lemma_key_before_transitive(a.drop_first(), b.drop_first(), c.drop_first());
    }
}

/// Of two different keys one comes before the other.
pub proof fn lemma_key_before_total(a: Seq<char>, b: Seq<char>)
    requires
        a != b,
    ensures
        key_before(a, b) || key_before(b, a),
    decreases a.len(),
{
    if a.len() > 0 && b.len() > 0 {
        if a[0] == b[0] {
            if a.drop_first() == b.drop_first() {
                assert(a =~= seq![a[0]] + a.drop_first());
                assert(b =~= seq![b[0]] + b.drop_first());
            }
            lemma_key_before_total(a.drop_first(), b.drop_first());
        } else {
            char_u32_cast(a[0], a[0] as u32);
            char_u32_cast(b[0], b[0] as u32);
        }
    } else if a.len() == 0 && b.len() == 0 {
        assert(a =~= b);
    }
}

/// Whether the byte string `a` comes strictly before `b` in lexicographic
/// order.
pub open spec fn bytes_before(a: Seq<u8>, b: Seq<u8>) -> bool
    decreases a.len(),
{
    if b.len() == 0 {
        false
    } else if a.len() == 0 {
        true
    } else if a[0] != b[0] {
        a[0] < b[0]
    } else {
        bytes_before(a.drop_first(), b.drop_first())
    }
}

/// The byte strings agree before position `i`, which both have, and `s` has
/// the smaller byte there.
pub open spec fn smaller_at(s: Seq<u8>, t: Seq<u8>, i: int) -> bool {
    &&& 0 <= i < s.len()
    &&& i < t.len()
    &&& forall|k: int| 0 <= k < i ==> s[k] == t[k]
    &&& s[i] < t[i]
}

/// The first byte of an encoding tells its width: the ranges of the first
/// bytes of the four widths lie one above the other.
proof fn lemma_leading_byte_ranges(v: u32)
    by (bit_vector)
    ensures
        leading_byte_width_1(v) <= 0x7F,
        0xC0 <= leading_byte_width_2(v) <= 0xDF,
        0xE0 <= leading_byte_width_3(v) <= 0xEF,
        0xF0 <= leading_byte_width_4(v) <= 0xF7,
{
}

/// Of two values encoded in one byte the smaller has the smaller byte.
proof fn lemma_one_byte_order(u: u32, v: u32)
    by (bit_vector)
    requires
        u < v <= 0x7F,
    ensures
        leading_byte_width_1(u) < leading_byte_width_1(v),
{
}

/// Of two values encoded in two bytes the smaller has the smaller byte where
/// the encodings first differ.
proof fn lemma_two_byte_order(u: u32, v: u32)
    by (bit_vector)
    requires
        0x80 <= u < v <= 0x7FF,
    ensures
        leading_byte_width_2(u) < leading_byte_width_2(v) || (leading_byte_width_2(u)
            == leading_byte_width_2(v) && last_continuation_byte(u) < last_continuation_byte(v)),
{
}

/// Of two values encoded in three bytes the smaller has the smaller byte
/// where the encodings first differ.
proof fn lemma_three_byte_order(u: u32, v: u32)
    by (bit_vector)
    requires
        0x800 <= u < v <= 0xFFFF,
    ensures
        leading_byte_width_3(u) < leading_byte_width_3(v) || (leading_byte_width_3(u)
            == leading_byte_width_3(v) && (second_last_continuation_byte(u)
            < second_last_continuation_byte(v) || (second_last_continuation_byte(u)
            == second_last_continuation_byte(v) && last_continuation_byte(u)
            < last_continuation_byte(v)))),
{
}

/// Of two values encoded in four bytes the smaller has the smaller byte
/// where the encodings first differ.
proof fn lemma_four_byte_order(u: u32, v: u32)
    by (bit_vector)
    requires
        0x10000 <= u < v <= 0x10FFFF,
    ensures
        leading_byte_width_4(u) < leading_byte_width_4(v) || (leading_byte_width_4(u)
            == leading_byte_width_4(v) && (third_last_continuation_byte(u)
            < third_last_continuation_byte(v) || (third_last_continuation_byte(u)
            == third_last_continuation_byte(v) && (second_last_continuation_byte(u)
            < second_last_continuation_byte(v) || (second_last_continuation_byte(u)
            == second_last_continuation_byte(v) && last_continuation_byte(u)
            < last_continuation_byte(v)))))),
{
}

/// Of two scalar values the smaller has the smaller encoding: at the first
/// position at which the encodings differ, which both have, it has the
/// smaller byte.
pub proof fn lemma_encode_scalar_order(u: u32, v: u32)
    requires
        is_scalar(u),
        is_scalar(v),
        u < v,
    ensures
        exists|i: int| smaller_at(encode_scalar(u), encode_scalar(v), i),
{
    let s = encode_scalar(u);
    let t = encode_scalar(v);
    lemma_leading_byte_ranges(u);
    lemma_leading_byte_ranges(v);
    let i: int = if has_width_1_encoding(v) {
        lemma_one_byte_order(u, v);
        0
    } else if has_width_1_encoding(u) {
        0
    } else if has_width_2_encoding(v) {
        lemma_two_byte_order(u, v);
        if s[0] < t[0] {
            0
        } else {
            1
        }
    } else if has_width_2_encoding(u) {
        0
    } else if has_width_3_encoding(v) {
        lemma_three_byte_order(u, v);
        if s[0] < t[0] {
            0
        } else if s[1] < t[1] {
            1
        } else {
            2
        }
    } else if has_width_3_encoding(u) {
        0
    } else {
        lemma_four_byte_order(u, v);
        if s[0] < t[0] {
            0
        } else if s[1] < t[1] {
            1
        } else if s[2] < t[2] {
            2
        } else {
            3
        }
    };
    assert(smaller_at(s, t, i));
}

/// Byte strings that differ first at a position where one has the smaller
/// byte are in that order, whatever follows them.
pub proof fn lemma_smaller_at_is_before(s: Seq<u8>, t: Seq<u8>, i: int, x: Seq<u8>, y: Seq<u8>)
    requires
        smaller_at(s, t, i),
    ensures
        bytes_before(s + x, t + y),
        !bytes_before(t + y, s + x),
    decreases i,
{
    if i > 0 {
        assert((s + x).drop_first() =~= s.drop_first() + x);
        assert((t + y).drop_first() =~= t.drop_first() + y);
        assert(smaller_at(s.drop_first(), t.drop_first(), i - 1));
        lemma_smaller_at_is_before(s.drop_first(), t.drop_first(), i - 1, x, y);
    }
}

/// A common beginning does not change the order of two byte strings.
pub proof fn lemma_common_beginning(p: Seq<u8>, x: Seq<u8>, y: Seq<u8>)
    ensures
        bytes_before(p + x, p + y) == bytes_before(x, y),
    decreases p.len(),
{
    if p.len() > 0 {
        assert((p + x).drop_first() =~= p.drop_first() + x);
        assert((p + y).drop_first() =~= p.drop_first() + y);
        lemma_common_beginning(p.drop_first(), x, y);
    }
}

/// UTF-8 keeps the order of texts: a text comes before another by its
/// characters exactly if its encoding comes before the other's by its bytes.
pub proof fn lemma_encoding_keeps_order(a: Seq<char>, b: Seq<char>)
    ensures
        bytes_before(encode_utf8(a), encode_utf8(b)) == key_before(a, b),
    decreases a.len(),
{
    if b.len() > 0 {
        char_is_scalar(b[0]);
    }
    if a.len() > 0 && b.len() > 0 {
        let u = a[0] as u32;
        let v = b[0] as u32;
        char_is_scalar(a[0]);
        let x = encode_utf8(a.drop_first());
        let y = encode_utf8(b.drop_first());
        if a[0] == b[0] {
            lemma_common_beginning(encode_scalar(u), x, y);
            lemma_encoding_keeps_order(a.drop_first(), b.drop_first());
        } else if u < v {
            lemma_encode_scalar_order(u, v);
            let i = choose|i: int| smaller_at(encode_scalar(u), encode_scalar(v), i);
            lemma_smaller_at_is_before(encode_scalar(u), encode_scalar(v), i, x, y);
        } else {
            assert(v < u) by {
                if u == v {
                    char_u32_cast(a[0], u);
                    char_u32_cast(b[0], v);
                }
            }
            lemma_encode_scalar_order(v, u);
            let i = choose|i: int| smaller_at(encode_scalar(v), encode_scalar(u), i);
            lemma_smaller_at_is_before(encode_scalar(v), encode_scalar(u), i, y, x);
        }
    }
}

/// Decides whether the key `a` comes strictly before the key `b`.
///
/// The keys are compared byte by byte: their encoding keeps their order.
pub fn key_precedes(a: &str, b: &str) -> (r: bool)
    ensures
        r == key_before(a@, b@),
{
    let x = a.as_bytes();
    let y = b.as_bytes();
    let mut i: usize = 0;
    proof {
        lemma_encoding_keeps_order(a@, b@);
        assert(x@.skip(0) =~= x@);
        assert(y@.skip(0) =~= y@);
    }
    while i < x.len() && i < y.len()
        invariant
            i <= x@.len(),
            i <= y@.len(),
            key_before(a@, b@) == bytes_before(x@.skip(i as int), y@.skip(i as int)),
        decreases x@.len() - i,
    {
        if x[i] != y[i] {
            return x[i] < y[i];
        }
        assert(x@.skip(i as int).drop_first() =~= x@.skip(i + 1));
        assert(y@.skip(i as int).drop_first() =~= y@.skip(i + 1));
        i += 1;
    }
    i < y.len()
}

} // verus!
