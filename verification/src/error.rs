//! The ways in which a request for signatures can be refused.

use vstd::prelude::*;
use vstd::string::StringExecFns;

verus! {

/// One of the four sizing parameters of a batch.
#[derive(Clone, Copy, Debug, PartialEq, Eq, Structural)]
pub enum Field {
    NgramWidth,
    BandCount,
    BandSize,
    Seed,
}

impl Field {
    /// The name under which the host knows this parameter.
    pub open spec fn spec_name(self) -> Seq<char> {
        match self {
            Field::NgramWidth => "ngram_width"@,
            Field::BandCount => "band_count"@,
            Field::BandSize => "band_size"@,
            Field::Seed => "seed"@,
        }
    }

    pub fn name(self) -> (name: &'static str)
        ensures
            name@ == self.spec_name(),
    {
        match self {
            Field::NgramWidth => "ngram_width",
            Field::BandCount => "band_count",
            Field::BandSize => "band_size",
            Field::Seed => "seed",
        }
    }
}

/// Why no signature was produced.
#[derive(Clone, Copy, Debug, PartialEq, Eq, Structural)]
pub enum SignatureError {
    /// A width below one, or a negative repeat count.
    InvalidParameter,
    /// A parameter bound as one value for the whole batch differs between rows.
    NonConstantParameter(Field),
}

impl SignatureError {
    /// The text shown to the host for this error.
    pub open spec fn spec_message(self) -> Seq<char> {
        match self {
            SignatureError::InvalidParameter => "parameter out of range"@,
            SignatureError::NonConstantParameter(field) => field.spec_name()
                + " must be a constant value, not vary per row"@,
        }
    }

    pub fn message(&self) -> (text: String)
        ensures
            text@ == self.spec_message(),
    {
        match self {
            SignatureError::InvalidParameter => String::from_str("parameter out of range"),
            SignatureError::NonConstantParameter(field) => {
                let mut text = String::from_str(field.name());
                text.append(" must be a constant value, not vary per row");
                text
            },
        }
    }
}

} // verus!
