//! Where session tokens come from.

use vstd::prelude::*;

verus! {

/// The number of characters of a session token.
pub const TOKEN_LENGTH: usize = 32;

/// Whether `c` is one of the 62 ASCII letters and digits.
pub open spec fn is_alphanumeric(c: char) -> bool {
    ('a' <= c && c <= 'z') || ('A' <= c && c <= 'Z') || ('0' <= c && c <= '9')
}

/// Whether `token` has the shape of a session token: `TOKEN_LENGTH`
/// characters, each an ASCII letter or digit.
pub open spec fn is_token(token: Seq<char>) -> bool {
    &&& token.len() == TOKEN_LENGTH
    &&& forall|i: int| 0 <= i < token.len() ==> is_alphanumeric(#[trigger] token[i])
}

/// How often a token is drawn anew where the one drawn is bound already.
pub const TOKEN_DRAWS: usize = 8;

/// Seeds a generator of the `rand` crate from the operating system
/// (`StdRng::try_from_rng` on `SysRng`) and draws `length` characters from
/// it through the crate's `Alphanumeric` distribution, which samples bytes
/// out of `A-Z`, `a-z` and `0-9`. Where the operating system gives no seed
/// the result is `None`; otherwise it has that many characters and none
/// from outside that alphabet. Which characters come is left to chance.
#[verifier::external_body]
pub(crate) fn random_alphanumeric(length: usize) -> (text: Option<String>)
    ensures
        match text {
            Some(t) => t@.len() == length && forall|i: int|
                0 <= i < t@.len() ==> is_alphanumeric(#[trigger] t@[i]),
            None => true,
        },
{
    let seeded: rand::rngs::StdRng = rand::SeedableRng::try_from_rng(&mut rand::rngs::SysRng).ok()?;
    Some(
        rand::RngExt::sample_iter(seeded, rand::distr::Alphanumeric)
            .take(length)
            .map(char::from)
            .collect(),
    )
}

} // verus!
