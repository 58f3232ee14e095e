//! Random tokens.
use rand::RngExt;
use vstd::prelude::*;

use crate::text::push_char;

verus! {

/// How many characters a generated token has.
pub const TOKEN_LENGTH: usize = 48;

/// Whether `c` is an ASCII letter or digit.
pub open spec fn is_alphanumeric(c: char) -> bool {
    ||| 'a' <= c <= 'z'
    ||| 'A' <= c <= 'Z'
    ||| '0' <= c <= '9'
}

/// Whether `text` can have been generated as a token.
pub open spec fn is_token(text: Seq<char>) -> bool {
    text.len() == TOKEN_LENGTH && forall|i: int|
        0 <= i < text.len() ==> is_alphanumeric(#[trigger] text[i])
}

/// Trusted: a sample of `rand::distr::Alphanumeric` is an ASCII letter or digit. Which one is left
/// to chance.
#[verifier::external_body]
fn random_alphanumeric() -> (result: char)
    ensures
        is_alphanumeric(result),
{
    char::from(rand::rng().sample(rand::distr::Alphanumeric))
}

/// A new random token.
pub fn random_token() -> (result: String)
    ensures
        is_token(result@),
{
    let mut token: String = String::new();
    let mut i: usize = 0;
    while i < TOKEN_LENGTH
        invariant
            i <= TOKEN_LENGTH,
            token@.len() == i,
            forall|k: int| 0 <= k < token@.len() ==> is_alphanumeric(#[trigger] token@[k]),
        decreases TOKEN_LENGTH - i,
    {
        push_char(&mut token, random_alphanumeric());
        i += 1;
    }
    token
}

} // verus!
