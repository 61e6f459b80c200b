//! The decoder of decimal numbers that a caller hands in.
//!
//! A decoder is any function from a piece of text to `Some` bit pattern of an
//! IEEE-754 `binary32` value, or to `None` where the text is no number. The
//! rules of the format never look inside a pattern, so they are stated for
//! every such function.
use vstd::prelude::*;

verus! {

/// Whether `decode`, called on the text `text`, may give `bits`.
pub open spec fn may_yield<F: Fn(&str) -> Option<u32>>(
    decode: F,
    text: Seq<char>,
    bits: Option<u32>,
) -> bool {
    exists|s: &str| s@ == text && #[trigger] decode.ensures((s,), bits)
}

/// Whether `decode` can be called on every text and gives one answer per text.
pub open spec fn is_decoder<F: Fn(&str) -> Option<u32>>(decode: F) -> bool {
    &&& forall|s: &str| #[trigger] decode.requires((s,))
    &&& forall|s1: &str, s2: &str, r1: Option<u32>, r2: Option<u32>|
        s1@ == s2@ && #[trigger] decode.ensures((s1,), r1) && #[trigger] decode.ensures((s2,), r2)
            ==> r1 == r2
}

/// What `decode` gives on the text `text`.
pub open spec fn decoded<F: Fn(&str) -> Option<u32>>(decode: F, text: Seq<char>) -> Option<u32> {
    choose|bits: Option<u32>| may_yield(decode, text, bits)
}

/// `decode` as a mathematical function on texts.
pub open spec fn numbers<F: Fn(&str) -> Option<u32>>(decode: F) -> spec_fn(Seq<char>) -> Option<
    u32,
> {
    |text: Seq<char>| decoded(decode, text)
}

/// What a decoder may give on a text is what it gives on it: the answer of
/// [`numbers`] is the one answer that the decoder can yield.
pub proof fn law_answer_is_the_one_yielded<F: Fn(&str) -> Option<u32>>(
    decode: F,
    text: Seq<char>,
    bits: Option<u32>,
)
    requires
        is_decoder(decode),
        may_yield(decode, text, bits),
    ensures
        numbers(decode)(text) == bits,
{
    let chosen = decoded(decode, text);
    let witness = choose|s: &str| s@ == text && #[trigger] decode.ensures((s,), chosen);
    let given = choose|s: &str| s@ == text && #[trigger] decode.ensures((s,), bits);
    assert(decode.ensures((witness,), chosen));
    assert(decode.ensures((given,), bits));
}

/// Calls `decode` on `text`. The answer is one that the decoder may give on
/// the text, and so the one that [`numbers`] names.
pub fn ask<F: Fn(&str) -> Option<u32>>(decode: &F, text: &str) -> (bits: Option<u32>)
    requires
        is_decoder(*decode),
    ensures
        bits == numbers(*decode)(text@),
        may_yield(*decode, text@, bits),
{
    let bits = decode(text);
    proof {
        assert(may_yield(*decode, text@, bits));
        law_answer_is_the_one_yielded(*decode, text@, bits);
    }
    bits
}

} // verus!
