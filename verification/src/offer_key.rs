//! Canonical identity of an offer: a 64-bit digest of its lower-cased text.

use vstd::prelude::*;

verus! {

/// The lower-cased form of a text, as `str::to_lowercase` computes it.
pub uninterp spec fn lower_of(s: Seq<char>) -> Seq<char>;

/// The 64-bit digest that std's `DefaultHasher` assigns to a string.
pub uninterp spec fn digest64_of(s: Seq<char>) -> u64;

/// An offer's key: the digest of its case-normalized (lower-cased) text.
/// Two spellings that lower-case to the same text share a key. Distinct
/// normalized texts may still collide in the 64 bits; a collision silently
/// merges the two offers' subscriber sets, which the registry accepts.
pub open spec fn offer_key_of(s: Seq<char>) -> u64 {
    digest64_of(lower_of(s))
}

/// Relies on `str::to_lowercase`: the result depends on the characters alone.
#[verifier::external_body]
fn lowercase(s: &str) -> (lowered: String)
    ensures
        lowered@ == lower_of(s@),
{
    s.to_lowercase()
}

/// Relies on `std::collections::hash_map::DefaultHasher`, via `new`,
/// `Hash::hash` and `finish`: `DefaultHasher::new` always starts from the
/// same state, so the digest depends on the characters alone.
#[verifier::external_body]
fn digest64(s: &str) -> (digest: u64)
    ensures
        digest == digest64_of(s@),
{
    let mut hasher = std::collections::hash_map::DefaultHasher::new();
    std::hash::Hash::hash(s, &mut hasher);
    std::hash::Hasher::finish(&hasher)
}

/// An offer's executable key: digest of the lower-cased text.
pub(crate) fn hash_offer(offer: &str) -> (key: u64)
    ensures
        key == offer_key_of(offer@),
{
    let lowered = lowercase(offer);
    digest64(lowered.as_str())
}

/// Law: two spellings of an offer with the same lower-cased text have the
/// same key, so the registry cannot tell them apart anywhere.
pub proof fn lemma_offer_key_case_insensitive(a: Seq<char>, b: Seq<char>)
    requires
        lower_of(a) == lower_of(b),
    ensures
        offer_key_of(a) == offer_key_of(b),
{
}

} // verus!
