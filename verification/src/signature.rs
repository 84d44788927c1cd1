//! The signature of one row: one band hash per band, in band order.

use crate::error::SignatureError;
use crate::minhasher::{band_hash, combine, minima, MinHasher, SENTINEL};
use crate::shingle::{shingles_of, ShingleSet};
use crate::stream::{draw_params, HashParams, SeededHashStream};
use vstd::prelude::*;

verus! {

/// The functions of band number `band`: the stream of `seed` is consumed band
/// by band, and within a band function by function.
pub open spec fn band_params(seed: u64, band: nat, band_size: nat) -> Seq<HashParams> {
    Seq::new(band_size, |k: int| draw_params(seed, band * band_size + k as nat))
}

/// The signature of a shingle set: position `band` holds the hash of band
/// number `band`.
pub open spec fn set_signature(set: Set<u64>, band_count: nat, band_size: nat, seed: u64) -> Seq<
    u64,
> {
    Seq::new(band_count, |band: int| band_hash(band_params(seed, band as nat, band_size), set))
}

/// The signature of a text.
pub open spec fn signature_of(
    text: Seq<char>,
    ngram_width: nat,
    band_count: nat,
    band_size: nat,
    seed: u64,
) -> Seq<u64> {
    set_signature(shingles_of(text, ngram_width), band_count, band_size, seed)
}

/// Whether `result` is what `generate` owes for these arguments: the error
/// for a width of zero, and else the signature of the text.
pub open spec fn is_outcome(
    result: Result<Vec<u64>, SignatureError>,
    text: Seq<char>,
    ngram_width: u64,
    band_count: u64,
    band_size: u64,
    seed: u64,
) -> bool {
    match result {
        Ok(bands) => ngram_width >= 1 && bands@ == signature_of(
            text,
            ngram_width as nat,
            band_count as nat,
            band_size as nat,
            seed,
        ),
        Err(e) => ngram_width == 0 && e == SignatureError::InvalidParameter,
    }
}

/// Signs a shingle set: makes one stream from `seed`, and for each band in
/// turn draws its functions and hashes the set.
pub fn sign(set: &ShingleSet, band_count: u64, band_size: u64, seed: u64) -> (bands: Vec<u64>)
    ensures
        bands@ == set_signature(set@, band_count as nat, band_size as nat, seed),
{
    let mut stream = SeededHashStream::new(seed);
    let mut bands: Vec<u64> = Vec::new();
    let mut band: u64 = 0;
    let ghost mut drawn: nat = 0;
    while band < band_count
        invariant
            band <= band_count,
            bands@.len() == band,
            drawn == band * band_size,
            stream.at(seed, drawn),
            forall|b: int|
                0 <= b < band ==> #[trigger] bands@[b] == band_hash(
                    band_params(seed, b as nat, band_size as nat),
                    set@,
                ),
        decreases band_count - band,
    {
        let ghost before = stream;
        let hasher = MinHasher::build(band_size, &mut stream);
        proof {
            assert forall|k: int| 0 <= k < band_size implies #[trigger] hasher@[k] == draw_params(
                seed,
                drawn + k as nat,
            ) by {
                assert(hasher@[k] == before.upcoming(k as nat));
            }
            assert(hasher@ =~= band_params(seed, band as nat, band_size as nat));
            assert forall|k: nat| #[trigger] stream.upcoming(k) == draw_params(
                seed,
                drawn + band_size as nat + k,
            ) by {
                assert(stream.upcoming(k) == before.upcoming(band_size as nat + k));
            }
            assert((band + 1) * band_size == band * band_size + band_size) by (nonlinear_arith);
            drawn = drawn + band_size as nat;
        }
        let h = hasher.hash(set);
        bands.push(h);
        band = band + 1;
    }
    assert(bands@ =~= set_signature(set@, band_count as nat, band_size as nat, seed));
    bands
}

/// The signature of `text`: `band_count` band hashes over its shingles, each
/// band with `band_size` functions drawn in order from the stream of `seed`.
/// A width of zero is refused; an empty text is signed like any other.
pub fn generate(
    text: &str,
    ngram_width: u64,
    band_count: u64,
    band_size: u64,
    seed: u64,
) -> (result: Result<Vec<u64>, SignatureError>)
    ensures
        is_outcome(result, text@, ngram_width, band_count, band_size, seed),
{
    match ShingleSet::extract(text, ngram_width) {
        Ok(set) => Ok(sign(&set, band_count, band_size, seed)),
        Err(e) => Err(e),
    }
}

/// Equal arguments give equal signatures: whatever two calls of `generate`
/// return for the same text, sizes and seed agrees band by band, and they
/// fail together.
pub proof fn law_generate_deterministic(
    first: Result<Vec<u64>, SignatureError>,
    second: Result<Vec<u64>, SignatureError>,
    text: Seq<char>,
    ngram_width: u64,
    band_count: u64,
    band_size: u64,
    seed: u64,
)
    requires
        is_outcome(first, text, ngram_width, band_count, band_size, seed),
        is_outcome(second, text, ngram_width, band_count, band_size, seed),
    ensures
        first is Ok <==> second is Ok,
        first is Ok ==> first->Ok_0@ == second->Ok_0@,
        first is Err ==> first->Err_0 == second->Err_0,
{
}

/// A text without characters has no shingles, so every minimum is the
/// sentinel and every band folds the same `band_size` sentinels: all bands of
/// its signature hold one value, whatever the width, band size and seed.
pub proof fn law_empty_text_signature(
    ngram_width: nat,
    band_count: nat,
    band_size: nat,
    seed: u64,
)
    ensures
        signature_of(Seq::<char>::empty(), ngram_width, band_count, band_size, seed) == Seq::new(
            band_count,
            |band: int| combine(Seq::new(band_size, |k: int| SENTINEL)),
        ),
{
    let text = Seq::<char>::empty();
    let set = shingles_of(text, ngram_width);
    assert(set =~= Set::<u64>::empty());
    let flat = combine(Seq::new(band_size, |k: int| SENTINEL));
    assert forall|band: int| 0 <= band < band_count implies #[trigger] set_signature(
        set,
        band_count,
        band_size,
        seed,
    )[band] == flat by {
        let params = band_params(seed, band as nat, band_size);
        assert(minima(params, set) =~= Seq::new(band_size, |k: int| SENTINEL));
    }
    assert(signature_of(text, ngram_width, band_count, band_size, seed) =~= Seq::new(
        band_count,
        |band: int| combine(Seq::new(band_size, |k: int| SENTINEL)),
    ));
}

} // verus!
