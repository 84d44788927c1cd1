use minhash::error::SignatureError;
use minhash::minhasher::{combine_minima, scramble_word, MinHasher, SENTINEL};
use minhash::shingle::ShingleSet;
use minhash::signature::{generate, sign};
use minhash::stream::SeededHashStream;

#[test]
fn empty_text_gives_the_sentinel_hash_in_every_band() {
    let bands = generate("", 3, 4, 2, 42).unwrap();
    let flat = combine_minima(&[SENTINEL, SENTINEL]);
    assert_eq!(flat, 15429915529667767870);
    assert_eq!(bands, vec![flat, flat, flat, flat]);
}

#[test]
fn empty_text_with_one_function_per_band() {
    let bands = generate("", 3, 4, 1, 42).unwrap();
    assert_eq!(bands, vec![5649827988209445395; 4]);
}

#[test]
fn empty_text_does_not_depend_on_the_seed() {
    assert_eq!(generate("", 3, 4, 2, 42), generate("", 5, 4, 2, 43));
}

#[test]
fn generate_exact_signature() {
    assert_eq!(
        generate("the quick brown fox", 3, 4, 2, 42),
        Ok(vec![
            15018741317071235199,
            18406392565272861384,
            1126011208915333043,
            9630651957097624975
        ])
    );
    assert_eq!(
        generate("hello world", 2, 3, 1, 7),
        Ok(vec![776280499307868734, 5887873349540562520, 14542916921794602740])
    );
}

#[test]
fn generate_is_deterministic() {
    for seed in [0u64, 1, 42, u64::MAX] {
        let first = generate("near-duplicate detection", 4, 16, 3, seed);
        let second = generate("near-duplicate detection", 4, 16, 3, seed);
        assert!(first.is_ok());
        assert_eq!(first, second);
    }
}

#[test]
fn generate_refuses_width_zero() {
    assert_eq!(generate("abc", 0, 4, 2, 42), Err(SignatureError::InvalidParameter));
    assert_eq!(generate("", 0, 0, 0, 0), Err(SignatureError::InvalidParameter));
}

#[test]
fn generate_has_one_hash_per_band() {
    assert_eq!(generate("abc", 2, 0, 3, 1), Ok(Vec::new()));
    assert_eq!(generate("abc", 2, 1, 3, 1).unwrap().len(), 1);
    assert_eq!(generate("abc", 2, 37, 3, 1).unwrap().len(), 37);
}

#[test]
fn generate_short_text_is_signed_as_one_shingle() {
    let set = ShingleSet::extract("ab", 3).unwrap();
    assert_eq!(generate("ab", 3, 2, 2, 1), Ok(sign(&set, 2, 2, 1)));
    assert_eq!(
        generate("ab", 3, 2, 2, 1),
        Ok(vec![15300032259625557847, 5345322958166317494])
    );
}

#[test]
fn sign_exact_signature() {
    let set = ShingleSet::from_hashes(&[1, 2, 3]);
    assert_eq!(sign(&set, 2, 2, 42), vec![7125310143853374422, 16537131842557325436]);
}

#[test]
fn bands_follow_the_draw_order() {
    let set = ShingleSet::extract("the quick brown fox", 3).unwrap();
    let bands = generate("the quick brown fox", 3, 5, 3, 11).unwrap();
    let mut stream = SeededHashStream::new(11);
    for band in bands {
        let hasher = MinHasher::build(3, &mut stream);
        assert_eq!(hasher.hash(&set), band);
    }
}

#[test]
fn a_longer_signature_extends_a_shorter_one() {
    let short = generate("shingles", 3, 4, 2, 9).unwrap();
    let long = generate("shingles", 3, 8, 2, 9).unwrap();
    assert_eq!(&long[..4], &short[..]);
}

#[test]
fn different_seeds_change_most_bands() {
    let text = "the quick brown fox jumps over the lazy dog";
    let mut total = 0usize;
    let mut differing = 0usize;
    for seed in 0..50u64 {
        let first = generate(text, 3, 16, 2, seed).unwrap();
        let second = generate(text, 3, 16, 2, seed + 1000).unwrap();
        for (a, b) in first.iter().zip(second.iter()) {
            total += 1;
            if a != b {
                differing += 1;
            }
        }
    }
    assert_eq!(total, 800);
    assert!(differing * 100 >= total * 95);
}

#[test]
fn matching_bands_estimate_the_jaccard_similarity() {
    let left: Vec<u64> = (0..150u64).map(scramble_word).collect();
    let right: Vec<u64> = (50..200u64).map(scramble_word).collect();
    let a = ShingleSet::from_hashes(&left);
    let b = ShingleSet::from_hashes(&right);
    let shared = left.iter().filter(|h| b.contains(**h)).count();
    assert_eq!(shared, 100);
    assert_eq!(a.len() + b.len() - shared, 200);
    for seed in [1u64, 42, 2024] {
        let sa = sign(&a, 200, 1, seed);
        let sb = sign(&b, 200, 1, seed);
        let matching = sa.iter().zip(sb.iter()).filter(|(x, y)| x == y).count();
        let fraction = matching as f64 / 200.0;
        assert!((fraction - 0.5).abs() <= 0.1);
    }
}

#[test]
fn equal_sets_match_in_every_band() {
    let a = ShingleSet::from_hashes(&[4, 8, 15, 16, 23, 42]);
    let b = ShingleSet::from_hashes(&[42, 23, 16, 15, 8, 4, 4]);
    assert_eq!(sign(&a, 64, 2, 3), sign(&b, 64, 2, 3));
}

#[test]
fn similar_texts_share_bands() {
    let left = generate("the quick brown fox jumps over the lazy dog", 3, 200, 1, 42).unwrap();
    let right = generate("the quick brown fox jumps over the lazy cat", 3, 200, 1, 42).unwrap();
    let matching = left.iter().zip(right.iter()).filter(|(x, y)| x == y).count();
    assert_eq!(matching, 165);
}
