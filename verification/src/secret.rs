//! Secrets that are wiped when they are no longer needed.

use vstd::prelude::*;

verus! {

/// A text that `secrecy` holds: it does not print it and wipes it when it is dropped.
#[verifier::external_body]
pub struct SecretText {
    inner: secrecy::SecretString,
}

/// The text that a secret holds.
pub uninterp spec fn secret_text(secret: &SecretText) -> Seq<char>;

/// Calls `secrecy::SecretString::from`: a secret that holds `text`.
#[verifier::external_body]
pub(crate) fn hide_text(text: String) -> (secret: SecretText)
    ensures
        secret_text(&secret) == text@,
{
    SecretText { inner: secrecy::SecretString::from(text) }
}

/// Calls `secrecy::ExposeSecret::expose_secret`: the text that the secret holds.
#[verifier::external_body]
pub(crate) fn expose_text(secret: &SecretText) -> (text: &str)
    ensures
        text@ == secret_text(secret),
{
    secrecy::ExposeSecret::expose_secret(&secret.inner)
}

/// Calls `zeroize::Zeroize::zeroize` on a text: the bytes are overwritten and the text is empty.
#[verifier::external_body]
pub(crate) fn wipe_text(text: &mut String)
    ensures
        final(text)@ == Seq::<char>::empty(),
    opens_invariants none
    no_unwind
{
    zeroize::Zeroize::zeroize(text);
}

/// Calls `zeroize::Zeroize::zeroize` on bytes: they are overwritten and none are left.
#[verifier::external_body]
pub(crate) fn wipe_bytes(bytes: &mut Vec<u8>)
    ensures
        final(bytes)@ == Seq::<u8>::empty(),
{
    zeroize::Zeroize::zeroize(bytes);
}

} // verus!
