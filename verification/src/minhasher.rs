//! One band of a signature: the minima of a few hash functions over a
//! shingle set, folded into one value.

use crate::shingle::ShingleSet;
use crate::stream::{HashParams, SeededHashStream, PRIME};
use vstd::prelude::*;

verus! {

/// The minimum reported for a set without shingles: the largest `u64`, which
/// no hash function reaches.
pub const SENTINEL: u64 = 0xffff_ffff_ffff_ffff;

/// The value from which the fold of a band starts.
pub const FOLD_BASIS: u64 = 0x243f_6a88_85a3_08d3;

/// The increment that keeps the fold away from the fixed point at zero.
pub const FOLD_INCREMENT: u64 = 0x9e37_79b9_7f4a_7c15;

/// Whether `m` is the least value that the hash function takes on `set`.
pub open spec fn is_min_of(params: HashParams, set: Set<u64>, m: u64) -> bool {
    &&& exists|s: u64| set.contains(s) && #[trigger] params.spec_apply(s) == m
    &&& forall|s: u64| set.contains(s) ==> m <= #[trigger] params.spec_apply(s)
}

/// The least value of the hash function over `set`, or `SENTINEL` where the
/// set is empty.
pub open spec fn min_over(params: HashParams, set: Set<u64>) -> u64 {
    if set.is_empty() {
        SENTINEL
    } else {
        choose|m: u64| is_min_of(params, set, m)
    }
}

/// The minima of the functions of one band, in draw order.
pub open spec fn minima(params: Seq<HashParams>, set: Set<u64>) -> Seq<u64> {
    Seq::new(params.len(), |k: int| min_over(params[k], set))
}

/// A bijective scrambling of 64 bits: two rounds of xor-shift and odd
/// multiplication, and a last xor-shift.
pub open spec fn scramble(z: u64) -> u64 {
    let once = (z ^ (z >> 30)).wrapping_mul(0xbf58_476d_1ce4_e5b9);
    let twice = (once ^ (once >> 27)).wrapping_mul(0x94d0_49bb_1331_11eb);
    twice ^ (twice >> 31)
}

/// One step of the fold: takes the minimum `m` into the accumulator.
pub open spec fn fold_step(acc: u64, m: u64) -> u64 {
    scramble((acc ^ m).wrapping_add(FOLD_INCREMENT))
}

/// The minima folded from first to last, starting from `FOLD_BASIS`. The
/// order counts: each step scrambles what the earlier ones left.
pub open spec fn combine(values: Seq<u64>) -> u64
    decreases values.len(),
{
    if values.len() == 0 {
        FOLD_BASIS
    } else {
        fold_step(combine(values.drop_last()), values.last())
    }
}

/// The hash of one band over a shingle set.
pub open spec fn band_hash(params: Seq<HashParams>, set: Set<u64>) -> u64 {
    combine(minima(params, set))
}

/// A set has at most one minimum.
pub proof fn lemma_min_unique(params: HashParams, set: Set<u64>, m: u64)
    requires
        is_min_of(params, set, m),
    ensures
        !set.is_empty(),
        min_over(params, set) == m,
{
    let s = choose|s: u64| set.contains(s) && #[trigger] params.spec_apply(s) == m;
    assert(set.contains(s));
    let other = choose|other: u64| is_min_of(params, set, other);
    assert(is_min_of(params, set, other));
    let t = choose|t: u64| set.contains(t) && #[trigger] params.spec_apply(t) == other;
    assert(other <= params.spec_apply(s));
    assert(m <= params.spec_apply(t));
}

/// Scrambling loses nothing: distinct words stay distinct. Each xor-shift
/// and each multiplication by an odd constant can be undone.
pub proof fn lemma_scramble_injective(x: u64, y: u64)
    requires
        scramble(x) == scramble(y),
    ensures
        x == y,
{
    let x0 = x ^ (x >> 30);
    let y0 = y ^ (y >> 30);
    let x1 = x0.wrapping_mul(0xbf58_476d_1ce4_e5b9);
    let y1 = y0.wrapping_mul(0xbf58_476d_1ce4_e5b9);
    let x2 = x1 ^ (x1 >> 27);
    let y2 = y1 ^ (y1 >> 27);
    let x3 = x2.wrapping_mul(0x94d0_49bb_1331_11eb);
    let y3 = y2.wrapping_mul(0x94d0_49bb_1331_11eb);
    assert((x3 ^ (x3 >> 31)) == (y3 ^ (y3 >> 31)) ==> x3 == y3) by (bit_vector);
    assert(((x2 as nat * 0x94d0_49bb_1331_11ebu64 as nat) % 0x1_0000_0000_0000_0000nat) as u64 == ((
    y2 as nat * 0x94d0_49bb_1331_11ebu64 as nat) % 0x1_0000_0000_0000_0000nat) as u64 ==> x2
        == y2) by (bit_vector);
    assert((x1 ^ (x1 >> 27)) == (y1 ^ (y1 >> 27)) ==> x1 == y1) by (bit_vector);
    assert(((x0 as nat * 0xbf58_476d_1ce4_e5b9u64 as nat) % 0x1_0000_0000_0000_0000nat) as u64 == ((
    y0 as nat * 0xbf58_476d_1ce4_e5b9u64 as nat) % 0x1_0000_0000_0000_0000nat) as u64 ==> x0
        == y0) by (bit_vector);
    assert((x ^ (x >> 30)) == (y ^ (y >> 30)) ==> x == y) by (bit_vector);
}

/// A step of the fold keeps apart what differs: two accumulators under one
/// minimum, and two minima under one accumulator.
pub proof fn lemma_fold_step_injective(acc: u64, m: u64, other_acc: u64, other_m: u64)
    requires
        fold_step(acc, m) == fold_step(other_acc, other_m),
        acc == other_acc || m == other_m,
    ensures
        acc == other_acc,
        m == other_m,
{
    lemma_scramble_injective(
        (acc ^ m).wrapping_add(FOLD_INCREMENT),
        (other_acc ^ other_m).wrapping_add(FOLD_INCREMENT),
    );
    assert((acc ^ m) == (other_acc ^ other_m));
    assert((acc ^ m) == (other_acc ^ other_m) && (acc == other_acc || m == other_m) ==> acc
        == other_acc && m == other_m) by (bit_vector);
}

/// A difference in one minimum never cancels: two bands whose minima agree
/// everywhere but at one place have different hashes.
pub proof fn law_one_minimum_changes_the_hash(first: Seq<u64>, second: Seq<u64>, place: int)
    requires
        first.len() == second.len(),
        0 <= place < first.len(),
        first[place] != second[place],
        forall|k: int| 0 <= k < first.len() && k != place ==> first[k] == second[k],
    ensures
        combine(first) != combine(second),
    decreases first.len(),
{
    let last = first.len() - 1;
    if place == last {
        assert(first.drop_last() =~= second.drop_last());
    } else {
        assert(first.last() == second.last());
        law_one_minimum_changes_the_hash(first.drop_last(), second.drop_last(), place);
    }
    if combine(first) == combine(second) {
        lemma_fold_step_injective(
            combine(first.drop_last()),
            first.last(),
            combine(second.drop_last()),
            second.last(),
        );
    }
}

/// With one function per band, two sets agree on the band exactly when the
/// function has the same minimum over both.
pub proof fn law_single_function_bands_agree(params: HashParams, first: Set<u64>, second: Set<u64>)
    ensures
        band_hash(seq![params], first) == band_hash(seq![params], second) <==> min_over(
            params,
            first,
        ) == min_over(params, second),
{
    let lows = minima(seq![params], first);
    let other = minima(seq![params], second);
    assert(lows =~= seq![min_over(params, first)]);
    assert(other =~= seq![min_over(params, second)]);
    if min_over(params, first) != min_over(params, second) {
        law_one_minimum_changes_the_hash(lows, other, 0);
    }
}

/// Scrambles one word.
pub fn scramble_word(z: u64) -> (r: u64)
    ensures
        r == scramble(z),
{
    let once = (z ^ (z >> 30)).wrapping_mul(0xbf58_476d_1ce4_e5b9);
    let twice = (once ^ (once >> 27)).wrapping_mul(0x94d0_49bb_1331_11eb);
    twice ^ (twice >> 31)
}

/// Folds the minima of a band into its hash.
pub fn combine_minima(values: &[u64]) -> (h: u64)
    ensures
        h == combine(values@),
{
    let mut acc: u64 = FOLD_BASIS;
    let mut i: usize = 0;
    while i < values.len()
        invariant
            i <= values@.len(),
            acc == combine(values@.take(i as int)),
        decreases values@.len() - i,
    {
        proof {
            let grown = values@.take(i + 1);
            assert(grown.drop_last() =~= values@.take(i as int));
            assert(grown.last() == values@[i as int]);
        }
        acc = scramble_word((acc ^ values[i]).wrapping_add(FOLD_INCREMENT));
        i = i + 1;
    }
    assert(values@.take(i as int) =~= values@);
    acc
}

/// The least hash of one function over the given shingles.
pub fn min_hash(params: &HashParams, hashes: &[u64]) -> (m: u64)
    ensures
        m == min_over(*params, hashes@.to_set()),
        hashes@.len() > 0 ==> m < PRIME,
{
    let mut m: u64 = SENTINEL;
    let mut i: usize = 0;
    while i < hashes.len()
        invariant
            i <= hashes@.len(),
            i == 0 ==> m == SENTINEL,
            i > 0 ==> m < PRIME,
            i > 0 ==> exists|j: int| 0 <= j < i && params.spec_apply(#[trigger] hashes@[j]) == m,
            forall|j: int| 0 <= j < i ==> m <= params.spec_apply(#[trigger] hashes@[j]),
        decreases hashes@.len() - i,
    {
        let h = params.apply(hashes[i]);
        if h < m {
            m = h;
        }
        assert(exists|j: int| 0 <= j < i + 1 && params.spec_apply(#[trigger] hashes@[j]) == m) by {
            if h == m {
                assert(params.spec_apply(hashes@[i as int]) == m);
            } else {
                let j = choose|j: int| 0 <= j < i && params.spec_apply(#[trigger] hashes@[j]) == m;
                assert(0 <= j < i + 1 && params.spec_apply(hashes@[j]) == m);
            }
        }
        i = i + 1;
    }
    proof {
        let set = hashes@.to_set();
        if i == 0 {
            assert(set =~= Set::<u64>::empty());
        } else {
            let j = choose|j: int| 0 <= j < i && params.spec_apply(#[trigger] hashes@[j]) == m;
            assert(set.contains(hashes@[j]));
            assert forall|s: u64| set.contains(s) implies m <= #[trigger] params.spec_apply(s) by {
                let k = choose|k: int| 0 <= k < hashes@.len() && hashes@[k] == s;
                assert(m <= params.spec_apply(hashes@[k]));
            }
            lemma_min_unique(*params, set, m);
        }
    }
    m
}

/// The hash functions of one band, in draw order.
pub struct MinHasher {
    params: Vec<HashParams>,
}

impl View for MinHasher {
    type V = Seq<HashParams>;

    closed spec fn view(&self) -> Seq<HashParams> {
        self.params@
    }
}

impl MinHasher {
    /// A band over the given functions.
    pub fn from_params(params: Vec<HashParams>) -> (hasher: MinHasher)
        ensures
            hasher@ == params@,
    {
        MinHasher { params }
    }

    /// Draws the `band_size` functions of one band from the stream, which
    /// moves on by exactly that many draws.
    pub fn build(band_size: u64, stream: &mut SeededHashStream) -> (hasher: MinHasher)
        ensures
            hasher@.len() == band_size,
            forall|k: int|
                0 <= k < band_size ==> #[trigger] hasher@[k] == old(stream).upcoming(k as nat),
            forall|k: nat|
                #[trigger] final(stream).upcoming(k) == old(stream).upcoming(band_size as nat + k),
    {
        let mut params: Vec<HashParams> = Vec::new();
        let mut i: u64 = 0;
        while i < band_size
            invariant
                i <= band_size,
                params@.len() == i,
                forall|k: int|
                    0 <= k < i ==> #[trigger] params@[k] == old(stream).upcoming(k as nat),
                forall|k: nat| #[trigger] stream.upcoming(k) == old(stream).upcoming(i as nat + k),
            decreases band_size - i,
        {
            let ghost before = *stream;
            let pair = stream.next();
            proof {
                assert(before.upcoming(0) == old(stream).upcoming(i as nat + 0));
                assert forall|k: nat| #[trigger]
                    stream.upcoming(k) == old(stream).upcoming((i + 1) as nat + k) by {
                    assert(stream.upcoming(k) == before.upcoming(k + 1));
                    assert(before.upcoming(k + 1) == old(stream).upcoming(i as nat + (k + 1)));
                }
            }
            params.push(pair);
            i = i + 1;
        }
        MinHasher { params }
    }

    /// The number of functions in the band.
    pub fn band_size(&self) -> (n: usize)
        ensures
            n == self@.len(),
    {
        self.params.len()
    }

    /// The band's hash of a shingle set: the minimum of each function over
    /// the set, folded in draw order.
    pub fn hash(&self, set: &ShingleSet) -> (h: u64)
        ensures
            h == band_hash(self@, set@),
    {
        let hashes = set.as_slice();
        let mut lows: Vec<u64> = Vec::new();
        let mut i: usize = 0;
        while i < self.params.len()
            invariant
                i <= self.params@.len(),
                hashes@.to_set() == set@,
                lows@.len() == i,
                forall|k: int|
                    0 <= k < i ==> #[trigger] lows@[k] == min_over(self.params@[k], set@),
            decreases self.params@.len() - i,
        {
            let m = min_hash(&self.params[i], hashes);
            lows.push(m);
            i = i + 1;
        }
        assert(lows@ =~= minima(self@, set@));
        combine_minima(lows.as_slice())
    }
}

} // verus!
