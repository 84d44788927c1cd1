//! How the sizing parameters of a batch are bound: one value for the whole
//! batch, or one value per row.

use crate::error::{Field, SignatureError};
use crate::signature::{generate, signature_of};
use vstd::prelude::*;

verus! {

/// The way a parameter is bound for a batch.
#[derive(Clone, Copy, Debug, PartialEq, Eq, Structural)]
pub enum Binding {
    /// Every row must carry the same value.
    Constant,
    /// Each row carries its own value.
    PerRow,
}

/// One parameter as the host supplies it: a value for each row, and the way
/// it is bound.
pub struct Column {
    pub mode: Binding,
    pub values: Vec<u64>,
}

/// The four parameters of a batch.
pub struct BatchParameters {
    pub ngram_width: Column,
    pub band_count: Column,
    pub band_size: Column,
    pub seed: Column,
}

/// A parameter after its binding was settled for the batch.
pub enum Bound<'a> {
    Constant(u64),
    PerRow(&'a [u64]),
}

/// Whether every value equals the first.
pub open spec fn is_constant(values: Seq<u64>) -> bool {
    forall|i: int| 0 <= i < values.len() ==> #[trigger] values[i] == values[0]
}

impl Column {
    /// Whether the column breaks its binding: bound as constant, it varies.
    pub open spec fn varies(self) -> bool {
        self.mode == Binding::Constant && !is_constant(self.values@)
    }
}

impl<'a> Bound<'a> {
    /// Whether the parameter gives each row the value that the column holds
    /// for it.
    pub open spec fn stands_for(self, values: Seq<u64>) -> bool {
        match self {
            Bound::Constant(value) => forall|i: int|
                0 <= i < values.len() ==> #[trigger] values[i] == value,
            Bound::PerRow(own) => own@ == values,
        }
    }

    /// Whether the parameter has a value for row `row`.
    pub open spec fn covers(self, row: int) -> bool {
        match self {
            Bound::Constant(_) => true,
            Bound::PerRow(values) => 0 <= row < values@.len(),
        }
    }

    /// The value for row `row`.
    pub open spec fn spec_at(self, row: int) -> u64 {
        match self {
            Bound::Constant(value) => value,
            Bound::PerRow(values) => values@[row],
        }
    }

    pub fn at(&self, row: usize) -> (value: u64)
        requires
            self.covers(row as int),
        ensures
            value == self.spec_at(row as int),
    {
        match self {
            Bound::Constant(value) => *value,
            Bound::PerRow(values) => values[row],
        }
    }
}

/// Checks that a parameter bound as constant holds one value in every row,
/// and returns that value.
pub fn validate_constant_param(values: &[u64], field: Field) -> (result: Result<
    u64,
    SignatureError,
>)
    requires
        values@.len() > 0,
    ensures
        is_constant(values@) ==> result == Ok::<u64, SignatureError>(values@[0]),
        !is_constant(values@) ==> result == Err::<u64, SignatureError>(
            SignatureError::NonConstantParameter(field),
        ),
{
    let value = values[0];
    let mut i: usize = 1;
    while i < values.len()
        invariant
            1 <= i <= values@.len(),
            value == values@[0],
            forall|j: int| 0 <= j < i ==> values@[j] == value,
        decreases values@.len() - i,
    {
        if values[i] != value {
            return Err(SignatureError::NonConstantParameter(field));
        }
        i = i + 1;
    }
    Ok(value)
}

/// Settles the binding of one parameter for a batch with at least one row.
/// A constant parameter is checked over all rows, a per-row parameter is
/// taken as it is.
pub fn resolve<'a>(column: &'a Column, field: Field) -> (result: Result<Bound<'a>, SignatureError>)
    requires
        column.values@.len() > 0,
    ensures
        column.varies() <==> result is Err,
        result matches Err(e) ==> e == SignatureError::NonConstantParameter(field),
        result matches Ok(bound) ==> bound.stands_for(column.values@) && (bound is Constant
            <==> column.mode == Binding::Constant),
{
    match column.mode {
        Binding::Constant => match validate_constant_param(column.values.as_slice(), field) {
            Ok(value) => Ok(Bound::Constant(value)),
            Err(e) => Err(e),
        },
        Binding::PerRow => Ok(Bound::PerRow(column.values.as_slice())),
    }
}

impl BatchParameters {
    /// Whether each parameter has exactly one value per row.
    pub open spec fn covers(self, rows: nat) -> bool {
        &&& self.ngram_width.values@.len() == rows
        &&& self.band_count.values@.len() == rows
        &&& self.band_size.values@.len() == rows
        &&& self.seed.values@.len() == rows
    }

    /// The first parameter, in the order width, band count, band size, seed,
    /// that is bound as constant and varies.
    pub open spec fn first_varying(self) -> Option<Field> {
        if self.ngram_width.varies() {
            Some(Field::NgramWidth)
        } else if self.band_count.varies() {
            Some(Field::BandCount)
        } else if self.band_size.varies() {
            Some(Field::BandSize)
        } else if self.seed.varies() {
            Some(Field::Seed)
        } else {
            None
        }
    }

    /// Why a batch of `rows` rows is refused as a whole, if it is: a broken
    /// constant binding comes first, then a width of zero in any row. A batch
    /// without rows is never refused.
    pub open spec fn refusal(self, rows: nat) -> Option<SignatureError> {
        if rows == 0 {
            None
        } else if let Some(field) = self.first_varying() {
            Some(SignatureError::NonConstantParameter(field))
        } else if exists|row: int| 0 <= row < rows && self.ngram_width.values@[row] == 0 {
            Some(SignatureError::InvalidParameter)
        } else {
            None
        }
    }
}

/// Whether `result` is what `generate_batch` owes: the refusal of the batch,
/// or one signature per row, each made from that row's own text and values.
pub open spec fn is_batch_outcome(
    result: Result<Vec<Vec<u64>>, SignatureError>,
    texts: Seq<String>,
    params: BatchParameters,
) -> bool {
    match result {
        Err(e) => params.refusal(texts.len()) == Some(e),
        Ok(signatures) => {
            &&& params.refusal(texts.len()) is None
            &&& signatures@.len() == texts.len()
            &&& forall|row: int|
                0 <= row < texts.len() ==> (#[trigger] signatures@[row])@ == signature_of(
                    texts[row]@,
                    params.ngram_width.values@[row] as nat,
                    params.band_count.values@[row] as nat,
                    params.band_size.values@[row] as nat,
                    params.seed.values@[row],
                )
        },
    }
}

/// Whether some row asks for windows of zero characters.
pub fn has_zero(values: &[u64]) -> (found: bool)
    ensures
        found <==> exists|row: int| 0 <= row < values@.len() && values@[row] == 0,
{
    let mut i: usize = 0;
    while i < values.len()
        invariant
            i <= values@.len(),
            forall|row: int| 0 <= row < i ==> values@[row] != 0,
        decreases values@.len() - i,
    {
        if values[i] == 0 {
            return true;
        }
        i = i + 1;
    }
    false
}

/// Signs a batch of rows. The bindings are settled and every value is
/// checked before the first row is signed, so a refused batch yields no
/// signature at all. Each row is signed on its own, with a stream of its own.
pub fn generate_batch(texts: &[String], params: &BatchParameters) -> (result: Result<
    Vec<Vec<u64>>,
    SignatureError,
>)
    requires
        params.covers(texts@.len()),
    ensures
        is_batch_outcome(result, texts@, *params),
{
    let rows = texts.len();
    let mut signatures: Vec<Vec<u64>> = Vec::new();
    if rows == 0 {
        return Ok(signatures);
    }
    let width = match resolve(&params.ngram_width, Field::NgramWidth) {
        Ok(bound) => bound,
        Err(e) => { return Err(e); },
    };
    let band_count = match resolve(&params.band_count, Field::BandCount) {
        Ok(bound) => bound,
        Err(e) => { return Err(e); },
    };
    let band_size = match resolve(&params.band_size, Field::BandSize) {
        Ok(bound) => bound,
        Err(e) => { return Err(e); },
    };
    let seed = match resolve(&params.seed, Field::Seed) {
        Ok(bound) => bound,
        Err(e) => { return Err(e); },
    };
    if has_zero(params.ngram_width.values.as_slice()) {
        return Err(SignatureError::InvalidParameter);
    }
    let mut row: usize = 0;
    while row < rows
        invariant
            rows == texts@.len(),
            rows > 0,
            params.covers(rows as nat),
            params.refusal(rows as nat) is None,
            row <= rows,
            signatures@.len() == row,
            width.stands_for(params.ngram_width.values@),
            band_count.stands_for(params.band_count.values@),
            band_size.stands_for(params.band_size.values@),
            seed.stands_for(params.seed.values@),
            forall|r: int|
                0 <= r < row ==> (#[trigger] signatures@[r])@ == signature_of(
                    texts@[r]@,
                    params.ngram_width.values@[r] as nat,
                    params.band_count.values@[r] as nat,
                    params.band_size.values@[r] as nat,
                    params.seed.values@[r],
                ),
        decreases rows - row,
    {
        assert(width.spec_at(row as int) == params.ngram_width.values@[row as int]);
        assert(band_count.spec_at(row as int) == params.band_count.values@[row as int]);
        assert(band_size.spec_at(row as int) == params.band_size.values@[row as int]);
        assert(seed.spec_at(row as int) == params.seed.values@[row as int]);
        let signed = generate(
            texts[row].as_str(),
            width.at(row),
            band_count.at(row),
            band_size.at(row),
            seed.at(row),
        );
        match signed {
            Ok(bands) => {
                signatures.push(bands);
            },
            Err(e) => {
                return Err(e);
            },
        }
        row = row + 1;
    }
    Ok(signatures)
}

} // verus!
