//! Candidate generation: a random seed, the ed25519 public key derived from
//! it, and that key's base58 text.

use vstd::prelude::*;

verus! {

/// The ed25519 public key (compressed point) that a 32-byte secret seed
/// yields.
pub uninterp spec fn public_id_of(seed: Seq<u8>) -> Seq<u8>;

/// The base58 text, bitcoin alphabet, of a byte string.
pub uninterp spec fn base58_of(bytes: Seq<u8>) -> Seq<char>;

/// Relies on ed25519_dalek's `SigningKey::from_bytes`, `verifying_key` and
/// `VerifyingKey::to_bytes`: the public key is a function of the seed alone.
#[verifier::external_body]
fn derive_public_id(seed: &[u8; 32]) -> (r: [u8; 32])
    ensures
        r@ == public_id_of(seed@),
{
    ed25519_dalek::SigningKey::from_bytes(seed).verifying_key().to_bytes()
}

/// Relies on bs58's `encode(..).into_string()`: the text is a function of the
/// bytes alone.
#[verifier::external_body]
fn encode(id: &[u8; 32]) -> (r: String)
    ensures
        r@ == base58_of(id@),
{
    bs58::encode(id).into_string()
}

/// Relies on `rand::random`, drawn from the thread-local generator, so that
/// each worker thread has a source of its own. Nothing is promised of the
/// bytes.
#[verifier::external_body]
fn random_seed() -> (r: [u8; 32]) {
    rand::random()
}

/// A seed, the public identifier derived from it, and the identifier's text.
pub struct SearchResult {
    pub seed: [u8; 32],
    pub identifier: [u8; 32],
    pub encoded: String,
}

impl SearchResult {
    /// The identifier and its text are the ones the seed yields.
    pub open spec fn is_derived(&self) -> bool {
        &&& self.identifier@ == public_id_of(self.seed@)
        &&& self.encoded@ == base58_of(self.identifier@)
    }

    /// The full keypair: the 32 seed bytes followed by the 32 public key bytes.
    pub fn keypair_bytes(&self) -> (r: Vec<u8>)
        ensures
            r@ == self.seed@ + self.identifier@,
    {
        let mut out: Vec<u8> = Vec::new();
        let mut i: usize = 0;
        while i < 32
            invariant
                i <= 32,
                out@ == self.seed@.subrange(0, i as int),
            decreases 32 - i,
        {
            out.push(self.seed[i]);
            i += 1;
        }
        assert(out@ == self.seed@);
        let mut j: usize = 0;
        while j < 32
            invariant
                j <= 32,
                out@ == self.seed@ + self.identifier@.subrange(0, j as int),
            decreases 32 - j,
        {
            out.push(self.identifier[j]);
            j += 1;
        }
        assert(self.identifier@.subrange(0, 32) == self.identifier@);
        out
    }

    /// A copy with the same seed, identifier and text.
    pub fn duplicate(&self) -> (r: SearchResult)
        ensures
            r == *self,
    {
        SearchResult { seed: self.seed, identifier: self.identifier, encoded: self.encoded.clone() }
    }
}

/// Derives the identifier of `seed` and encodes it.
pub fn candidate_from_seed(seed: [u8; 32]) -> (r: SearchResult)
    ensures
        r.seed == seed,
        r.is_derived(),
{
    let identifier = derive_public_id(&seed);
    let encoded = encode(&identifier);
    SearchResult { seed, identifier, encoded }
}

/// Draws a fresh random seed and derives its candidate.
pub fn generate_candidate() -> (r: SearchResult)
    ensures
        r.is_derived(),
{
    let seed = random_seed();
    candidate_from_seed(seed)
}

/// Derivation and encoding are deterministic: two candidates derived from the
/// same seed carry the same identifier and the same text.
pub proof fn lemma_derivation_deterministic(a: SearchResult, b: SearchResult)
    requires
        a.is_derived(),
        b.is_derived(),
        a.seed@ == b.seed@,
    ensures
        a.identifier@ == b.identifier@,
        a.encoded@ == b.encoded@,
{
}

} // verus!
