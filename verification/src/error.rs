//! Errors of class generation.
use crate::oomir::Text;
use crate::text::cat2;
use vstd::prelude::*;

verus! {

/// Why a class could not be generated.
#[derive(Debug, PartialEq, Eq)]
pub enum Error<S = String> {
    /// A function cannot be turned into valid methods.
    VerificationError { context: S, message: S },
    /// The constant pool has no room for another entry.
    ConstantPoolFull,
}

/// The model of an [`Error`].
pub type ErrorModel = Error<Text>;

impl DeepView for Error {
    type V = ErrorModel;

    open spec fn deep_view(&self) -> ErrorModel {
        match *self {
            Error::VerificationError { context, message } => Error::VerificationError {
                context: context@,
                message: message@,
            },
            Error::ConstantPoolFull => Error::ConstantPoolFull,
        }
    }
}

/// The error that a function cannot be turned into valid methods.
pub open spec fn verification_failure(context: Text, message: Text) -> ErrorModel {
    Error::VerificationError { context: "Function "@ + context, message }
}

/// The error that a function cannot be turned into valid methods.
pub fn verification_error(context: &str, message: String) -> (r: Error)
    ensures
        r.deep_view() == verification_failure(context@, message@),
{
    Error::VerificationError { context: cat2("Function ", context), message }
}

} // verus!
