//! Error codes and route tags tell apart what they stand for.

use vstd::prelude::*;
use crate::error::error_code;
use crate::error::RouterError;
use crate::ident::is_symbol;
use crate::ident::is_symbol_char;
use crate::ident::Symbol;
use crate::rules::fee_texts;
use crate::rules::pair_texts;
use crate::rules::Text;
use crate::tag::symbol_xdr;
use crate::tag::tag_preimage;

verus! {

/// Different errors have different codes, the numbers from one to twenty.
pub proof fn law_codes_are_distinct(a: RouterError, b: RouterError)
    ensures
        error_code(a) == error_code(b) ==> a == b,
        1 <= error_code(a) <= 20,
{
}

/// A text is a symbol's exactly where it has at most 32 characters, all of them
/// letters of the Latin alphabet, digits or underscores.
pub proof fn law_symbol_texts(text: Text)
    ensures
        is_symbol(text) <==> text.len() <= 32 && forall|i: int|
            0 <= i < text.len() ==> ('a' <= (#[trigger] text[i]) && text[i] <= 'z') || ('A'
                <= text[i] && text[i] <= 'Z') || ('0' <= text[i] && text[i] <= '9') || text[i]
                == '_',
{
    if is_symbol(text) {
        assert forall|i: int| 0 <= i < text.len() implies is_symbol_char(#[trigger] text[i]) by {}
    }
}

/// A batch is read entry by entry, in order: source first, then destination.
pub proof fn law_batch_texts(
    pairs: Seq<(Symbol, Symbol)>,
    entries: Seq<(Symbol, Symbol, u32)>,
    i: int,
)
    ensures
        pair_texts(pairs).len() == pairs.len(),
        fee_texts(entries).len() == entries.len(),
        0 <= i < pairs.len() ==> pair_texts(pairs)[i] == (pairs[i].0@, pairs[i].1@),
        0 <= i < entries.len() ==> fee_texts(entries)[i] == (
            entries[i].0@,
            entries[i].1@,
            entries[i].2,
        ),
{
}

/// The encoding of a symbol: four bytes of type tag and four of length, the
/// characters, and zeros up to a multiple of four. A tag is taken of the source
/// and then the destination.
pub proof fn law_encoding(text: Text, next: Text, i: int)
    requires
        is_symbol(text),
    ensures
        symbol_xdr(text).len() % 4 == 0,
        8 + text.len() <= symbol_xdr(text).len() < 12 + text.len(),
        symbol_xdr(text).take(8) == seq![0u8, 0, 0, 15, 0, 0, 0, text.len() as u8],
        0 <= i < text.len() ==> symbol_xdr(text)[8 + i] == text[i] as u8,
        8 + text.len() <= i < symbol_xdr(text).len() ==> symbol_xdr(text)[i] == 0,
        tag_preimage(text, next).len() == symbol_xdr(text).len() + symbol_xdr(next).len(),
        tag_preimage(text, next).take(symbol_xdr(text).len() as int) == symbol_xdr(text),
        tag_preimage(text, next).skip(symbol_xdr(text).len() as int) == symbol_xdr(next),
{
}

/// A symbol's encoding fixes where it ends.
proof fn lemma_encoding_is_prefix_free(a: Text, b: Text, x: Seq<u8>, y: Seq<u8>)
    requires
        is_symbol(a),
        is_symbol(b),
        symbol_xdr(a) + x == symbol_xdr(b) + y,
    ensures
        a == b,
        x == y,
{
    let left = symbol_xdr(a) + x;
    let right = symbol_xdr(b) + y;
    assert(left[7] == a.len() as u8 && right[7] == b.len() as u8);
    assert forall|i: int| 0 <= i < a.len() implies a[i] == b[i] by {
        assert(left[8 + i] == a[i] as u8);
        assert(right[8 + i] == b[i] as u8);
        assert(is_symbol_char(a[i]) && is_symbol_char(b[i]));
    }
    assert(a =~= b);
    let n = symbol_xdr(a).len();
    assert(x =~= left.subrange(n as int, left.len() as int));
    assert(y =~= right.subrange(n as int, right.len() as int));
}

/// What a route tag is the digest of names the directed pair: two pairs share
/// it only if they have the same source and the same destination. The two
/// directions of a pair in particular do not share it.
pub proof fn law_tag_names_the_directed_pair(s1: Text, d1: Text, s2: Text, d2: Text)
    requires
        is_symbol(s1),
        is_symbol(d1),
        is_symbol(s2),
        is_symbol(d2),
    ensures
        tag_preimage(s1, d1) == tag_preimage(s2, d2) ==> s1 == s2 && d1 == d2,
        s1 != d1 ==> tag_preimage(s1, d1) != tag_preimage(d1, s1),
{
    if tag_preimage(s1, d1) == tag_preimage(s2, d2) {
        lemma_encoding_is_prefix_free(s1, s2, symbol_xdr(d1), symbol_xdr(d2));
        lemma_encoding_is_prefix_free(d1, d2, Seq::empty(), Seq::empty());
    }
    if tag_preimage(s1, d1) == tag_preimage(d1, s1) {
        lemma_encoding_is_prefix_free(s1, d1, symbol_xdr(d1), symbol_xdr(s1));
    }
}

} // verus!
