use minhash::binding::{
    generate_batch, has_zero, resolve, validate_constant_param, BatchParameters, Binding, Bound,
    Column,
};
use minhash::error::{Field, SignatureError};
use minhash::signature::generate;

fn constant(values: &[u64]) -> Column {
    Column { mode: Binding::Constant, values: values.to_vec() }
}

fn per_row(values: &[u64]) -> Column {
    Column { mode: Binding::PerRow, values: values.to_vec() }
}

fn texts(rows: &[&str]) -> Vec<String> {
    rows.iter().map(|row| row.to_string()).collect()
}

#[test]
fn varying_width_in_constant_mode_fails_the_batch() {
    let rows = texts(&["first row", "second row", "third row"]);
    let params = BatchParameters {
        ngram_width: constant(&[3, 3, 4]),
        band_count: constant(&[4, 4, 4]),
        band_size: constant(&[2, 2, 2]),
        seed: constant(&[42, 42, 42]),
    };
    let result = generate_batch(&rows, &params);
    assert_eq!(result, Err(SignatureError::NonConstantParameter(Field::NgramWidth)));
    assert_eq!(
        result.unwrap_err().message(),
        "ngram_width must be a constant value, not vary per row"
    );
}

#[test]
fn each_constant_field_is_checked() {
    let rows = texts(&["a", "b"]);
    let good = |v: u64| constant(&[v, v]);
    let bad = || constant(&[1, 2]);
    let count = BatchParameters { ngram_width: good(3), band_count: bad(), band_size: good(2), seed: good(1) };
    assert_eq!(generate_batch(&rows, &count), Err(SignatureError::NonConstantParameter(Field::BandCount)));
    let size = BatchParameters { ngram_width: good(3), band_count: good(4), band_size: bad(), seed: good(1) };
    assert_eq!(generate_batch(&rows, &size), Err(SignatureError::NonConstantParameter(Field::BandSize)));
    let seed = BatchParameters { ngram_width: good(3), band_count: good(4), band_size: good(2), seed: bad() };
    assert_eq!(generate_batch(&rows, &seed), Err(SignatureError::NonConstantParameter(Field::Seed)));
}

#[test]
fn the_first_varying_field_is_reported() {
    let rows = texts(&["a", "b"]);
    let params = BatchParameters {
        ngram_width: constant(&[3, 3]),
        band_count: constant(&[4, 5]),
        band_size: constant(&[2, 3]),
        seed: constant(&[1, 2]),
    };
    assert_eq!(generate_batch(&rows, &params), Err(SignatureError::NonConstantParameter(Field::BandCount)));
}

#[test]
fn a_varying_constant_comes_before_a_zero_width() {
    let rows = texts(&["a", "b"]);
    let params = BatchParameters {
        ngram_width: constant(&[0, 0]),
        band_count: constant(&[4, 4]),
        band_size: constant(&[2, 2]),
        seed: constant(&[1, 2]),
    };
    assert_eq!(generate_batch(&rows, &params), Err(SignatureError::NonConstantParameter(Field::Seed)));
}

#[test]
fn a_zero_width_in_any_row_fails_the_batch() {
    let rows = texts(&["a", "b", "c"]);
    let params = BatchParameters {
        ngram_width: per_row(&[3, 2, 0]),
        band_count: constant(&[4, 4, 4]),
        band_size: constant(&[2, 2, 2]),
        seed: constant(&[1, 1, 1]),
    };
    assert_eq!(generate_batch(&rows, &params), Err(SignatureError::InvalidParameter));
    let all = BatchParameters {
        ngram_width: constant(&[0, 0, 0]),
        band_count: constant(&[4, 4, 4]),
        band_size: constant(&[2, 2, 2]),
        seed: constant(&[1, 1, 1]),
    };
    assert_eq!(generate_batch(&rows, &all), Err(SignatureError::InvalidParameter));
}

#[test]
fn constant_batch_signs_every_row_alone() {
    let rows = texts(&["the quick brown fox", "", "the quick brown fox", "ab"]);
    let params = BatchParameters {
        ngram_width: constant(&[3; 4]),
        band_count: constant(&[4; 4]),
        band_size: constant(&[2; 4]),
        seed: constant(&[42; 4]),
    };
    let signatures = generate_batch(&rows, &params).unwrap();
    assert_eq!(signatures.len(), 4);
    for (row, signature) in rows.iter().zip(signatures.iter()) {
        assert_eq!(Ok(signature.clone()), generate(row, 3, 4, 2, 42));
    }
    assert_eq!(signatures[0], signatures[2]);
    assert_eq!(
        signatures[0],
        vec![15018741317071235199, 18406392565272861384, 1126011208915333043, 9630651957097624975]
    );
    assert_eq!(signatures[1], vec![15429915529667767870; 4]);
}

#[test]
fn per_row_batch_uses_each_rows_values() {
    let rows = texts(&["hello world", "hello world", "the quick brown fox"]);
    let params = BatchParameters {
        ngram_width: per_row(&[2, 3, 3]),
        band_count: per_row(&[3, 1, 4]),
        band_size: per_row(&[1, 2, 2]),
        seed: per_row(&[7, 8, 42]),
    };
    let signatures = generate_batch(&rows, &params).unwrap();
    assert_eq!(signatures[0], generate("hello world", 2, 3, 1, 7).unwrap());
    assert_eq!(signatures[1], generate("hello world", 3, 1, 2, 8).unwrap());
    assert_eq!(signatures[2], generate("the quick brown fox", 3, 4, 2, 42).unwrap());
    assert_eq!(signatures[0].len(), 3);
    assert_eq!(signatures[1].len(), 1);
}

#[test]
fn mixed_bindings() {
    let rows = texts(&["abc", "abd"]);
    let params = BatchParameters {
        ngram_width: constant(&[2, 2]),
        band_count: constant(&[3, 3]),
        band_size: constant(&[2, 2]),
        seed: per_row(&[1, 2]),
    };
    let signatures = generate_batch(&rows, &params).unwrap();
    assert_eq!(signatures[0], generate("abc", 2, 3, 2, 1).unwrap());
    assert_eq!(signatures[1], generate("abd", 2, 3, 2, 2).unwrap());
}

#[test]
fn empty_batch_has_no_signatures() {
    let rows: Vec<String> = Vec::new();
    let params = BatchParameters {
        ngram_width: constant(&[]),
        band_count: constant(&[]),
        band_size: per_row(&[]),
        seed: constant(&[]),
    };
    assert_eq!(generate_batch(&rows, &params), Ok(Vec::new()));
}

#[test]
fn single_row_batch_is_always_constant() {
    let rows = texts(&["only"]);
    let params = BatchParameters {
        ngram_width: constant(&[2]),
        band_count: constant(&[2]),
        band_size: constant(&[2]),
        seed: constant(&[2]),
    };
    assert_eq!(generate_batch(&rows, &params), Ok(vec![generate("only", 2, 2, 2, 2).unwrap()]));
}

#[test]
fn validate_constant_param_returns_the_value() {
    assert_eq!(validate_constant_param(&[5, 5, 5], Field::BandSize), Ok(5));
    assert_eq!(validate_constant_param(&[9], Field::Seed), Ok(9));
}

#[test]
fn validate_constant_param_names_the_field() {
    assert_eq!(
        validate_constant_param(&[5, 6], Field::BandSize),
        Err(SignatureError::NonConstantParameter(Field::BandSize))
    );
    assert_eq!(
        validate_constant_param(&[3, 3, 4], Field::NgramWidth),
        Err(SignatureError::NonConstantParameter(Field::NgramWidth))
    );
    assert_eq!(
        validate_constant_param(&[1, 1, 1, 1, 0], Field::Seed),
        Err(SignatureError::NonConstantParameter(Field::Seed))
    );
}

#[test]
fn resolve_constant_column() {
    let column = constant(&[7, 7, 7]);
    match resolve(&column, Field::Seed) {
        Ok(Bound::Constant(value)) => assert_eq!(value, 7),
        _ => panic!("a constant column resolves to its value"),
    }
    let varying = constant(&[7, 8, 7]);
    assert!(matches!(
        resolve(&varying, Field::BandCount),
        Err(SignatureError::NonConstantParameter(Field::BandCount))
    ));
}

#[test]
fn resolve_per_row_column() {
    let column = per_row(&[7, 8, 9]);
    match resolve(&column, Field::Seed) {
        Ok(bound) => {
            assert!(matches!(bound, Bound::PerRow(_)));
            assert_eq!(bound.at(0), 7);
            assert_eq!(bound.at(1), 8);
            assert_eq!(bound.at(2), 9);
        }
        Err(_) => panic!("a per-row column is never refused"),
    }
}

#[test]
fn constant_bound_has_one_value_for_all_rows() {
    let bound = Bound::Constant(11);
    assert_eq!(bound.at(0), 11);
    assert_eq!(bound.at(1_000_000), 11);
}

#[test]
fn has_zero_finds_a_zero() {
    assert!(has_zero(&[3, 0, 2]));
    assert!(has_zero(&[0]));
    assert!(!has_zero(&[3, 1, 2]));
    assert!(!has_zero(&[]));
}
