//! The `cl100k_base` byte-pair tokenizer of `tiktoken-rs`.

use vstd::prelude::*;

verus! {

/// `tiktoken_rs::CoreBPE`, carried opaquely.
#[verifier::external_type_specification]
#[verifier::external_body]
pub struct ExCoreBPE(tiktoken_rs::CoreBPE);

/// The tokens that `cl100k_base` gives a text, special tokens allowed
/// (`CoreBPE::encode` with every special token allowed), or `None` where the
/// crate's split pattern fails on the text (a regex engine error, which
/// depends on the text alone).
pub uninterp spec fn cl100k_encode(text: Seq<char>) -> Option<Seq<u32>>;

/// The text that `cl100k_base` decodes a token sequence to, or `None` where the
/// bytes of the tokens are not valid UTF-8 or a token is unknown (`CoreBPE::decode`).
pub uninterp spec fn cl100k_decode(tokens: Seq<u32>) -> Option<Seq<char>>;

/// The `cl100k_base` tokenizer; only `load` makes one.
pub struct Cl100kTokenizer {
    bpe: tiktoken_rs::CoreBPE,
}

/// Builds the `cl100k_base` tokenizer (`tiktoken_rs::cl100k_base`). It reads the
/// vocabulary compiled into `tiktoken-rs` and its fixed split pattern, so it does
/// not depend on anything outside the call and succeeds.
#[verifier::external_body]
fn load_cl100k() -> (r: Result<tiktoken_rs::CoreBPE, String>)
    ensures
        r is Ok,
{
    tiktoken_rs::cl100k_base().map_err(|e| e.to_string())
}

impl Cl100kTokenizer {
    /// The `cl100k_base` tokenizer; loading it succeeds.
    pub fn load() -> (r: Result<Self, String>)
        ensures
            r is Ok,
    {
        match load_cl100k() {
            Ok(bpe) => Ok(Cl100kTokenizer { bpe }),
            Err(e) => Err(e),
        }
    }

    /// The tokens of `text` (`CoreBPE::encode` on `cl100k_base` with every special
    /// token allowed, which is what `encode_with_special_tokens` does before it
    /// unwraps), or the crate's message where its split pattern fails on the text.
    /// `encode` returns that failure as an error; the one search it unwraps is
    /// the one for special tokens, whose pattern is an alternation of escaped
    /// literals that `fancy-regex` hands to its backtracking-free engine, which
    /// does not fail.
    #[verifier::external_body]
    pub(crate) fn encode(&self, text: &str) -> (r: Result<Vec<u32>, String>)
        ensures
            match r {
                Ok(v) => cl100k_encode(text@) == Some(v@),
                Err(_) => cl100k_encode(text@) is None,
            },
    {
        self.bpe.encode(text, &self.bpe.special_tokens()).map(|(v, _)| v).map_err(|e| e.to_string())
    }

    /// The text of `tokens` (`CoreBPE::decode` on `cl100k_base`); an error carries the
    /// crate's message, whose wording is not stated.
    #[verifier::external_body]
    pub(crate) fn decode(&self, tokens: &[u32]) -> (r: Result<String, String>)
        ensures
            r is Ok <==> cl100k_decode(tokens@) is Some,
            r matches Ok(s) ==> cl100k_decode(tokens@) == Some(s@),
    {
        self.bpe.decode(tokens).map_err(|e| e.to_string())
    }
}

} // verus!
