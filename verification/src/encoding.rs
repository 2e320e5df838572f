//! Text as bytes: what is written is the UTF-8 encoding of the text.

use vstd::prelude::*;
use vstd::seq_lib::lemma_concat_associative;
use vstd::utf8::encode_scalar;
use vstd::utf8::encode_utf8;

verus! {

/// The UTF-8 encoding of a text in two parts is the encoding of the first
/// part followed by that of the second.
pub proof fn lemma_encode_utf8_concat(a: Seq<char>, b: Seq<char>)
    ensures
        encode_utf8(a + b) == encode_utf8(a) + encode_utf8(b),
    decreases a.len(),
{
    if a.len() > 0 {
        assert((a + b).drop_first() =~= a.drop_first() + b);
        lemma_encode_utf8_concat(a.drop_first(), b);
        lemma_concat_associative(
            encode_scalar(a[0] as u32),
            encode_utf8(a.drop_first()),
            encode_utf8(b),
        );
    }
}

/// Appends the UTF-8 encoding of `text` to `writer`.
pub fn write_text(writer: &mut Vec<u8>, text: &str)
    ensures
        final(writer)@ == old(writer)@ + encode_utf8(text@),
{
    writer.extend_from_slice(text.as_bytes());
}

} // verus!
