//! The character stream that the lexer reads: `itertools::MultiPeek` over the
//! characters of a string slice.
//!
//! The adaptor is opaque to the verifier. Its state is modelled by two
//! values, the characters that `next` has not handed out yet and the place
//! of the peek cursor among them, and each method that the lexer calls is
//! described over them. These descriptions are believed, not proved.

use itertools::MultiPeek;
use std::str::Chars;
use vstd::prelude::*;
use vstd::std_specs::iter::IteratorSpec;

verus! {

/// `itertools::MultiPeek`, as a type that the verifier carries without
/// looking inside.
#[verifier::external_type_specification]
#[verifier::external_body]
#[verifier::reject_recursive_types(I)]
pub struct ExMultiPeek<I: Iterator>(MultiPeek<I>);

/// The characters that the stream has not handed out through `next`, in
/// order: those buffered by earlier peeks followed by those that the
/// underlying iterator still holds.
pub uninterp spec fn pending(stream: MultiPeek<Chars>) -> Seq<char>;

/// The peek cursor: how many characters ahead the next `peek` looks.
pub uninterp spec fn cursor(stream: MultiPeek<Chars>) -> nat;

/// `itertools::multipeek`: a stream over the characters that `chars` has
/// yet to give, none handed out, with the cursor at the front.
#[verifier::external_body]
pub(crate) fn open_stream<'a>(chars: Chars<'a>) -> (stream: MultiPeek<Chars<'a>>)
    ensures
        pending(stream) == chars.remaining(),
        cursor(stream) == 0,
{
    itertools::multipeek(chars)
}

/// `MultiPeek::peek`: hands out nothing. Where a character stands at the
/// cursor it is returned and the cursor moves one further; past the last
/// character the result is `None` and the cursor stays.
#[verifier::external_body]
pub(crate) fn peek_char<'a>(stream: &mut MultiPeek<Chars<'a>>) -> (c: Option<char>)
    ensures
        pending(*final(stream)) == pending(*old(stream)),
        cursor(*old(stream)) < pending(*old(stream)).len() ==> c == Some(
            pending(*old(stream))[cursor(*old(stream)) as int],
        ) && cursor(*final(stream)) == cursor(*old(stream)) + 1,
        cursor(*old(stream)) >= pending(*old(stream)).len() ==> c.is_none() && cursor(
            *final(stream),
        ) == cursor(*old(stream)),
{
    stream.peek().copied()
}

/// `MultiPeek::next`: hands out the first pending character, if there is
/// one, and puts the cursor back at the front.
#[verifier::external_body]
pub(crate) fn next_char<'a>(stream: &mut MultiPeek<Chars<'a>>) -> (c: Option<char>)
    ensures
        cursor(*final(stream)) == 0,
        pending(*old(stream)).len() > 0 ==> c == Some(pending(*old(stream))[0]) && pending(
            *final(stream),
        ) == pending(*old(stream)).drop_first(),
        pending(*old(stream)).len() == 0 ==> c.is_none() && pending(*final(stream)) == pending(
            *old(stream),
        ),
{
    stream.next()
}

/// `MultiPeek::reset_peek`: puts the cursor back at the front and hands out
/// nothing.
#[verifier::external_body]
pub(crate) fn reset_peek<'a>(stream: &mut MultiPeek<Chars<'a>>)
    ensures
        pending(*final(stream)) == pending(*old(stream)),
        cursor(*final(stream)) == 0,
{
    stream.reset_peek()
}

} // verus!
