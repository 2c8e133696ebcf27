//! Raw command arguments and the validation errors resolving them can raise.

use vstd::prelude::*;

verus! {

/// The argument a validation failure concerns.
#[derive(Clone, Copy, Debug, PartialEq, Eq, Structural)]
pub enum ArgField {
    Day,
    Year,
    Part,
    Rows,
    Offset,
}

/// Why resolving the command's arguments failed.
///
/// A validation error is always answered with a short user-facing reply and
/// never propagated as a fault.
#[derive(Clone, Copy, Debug, PartialEq, Eq, Structural)]
pub enum ValidationError {
    /// A required argument with no derivable default was absent.
    MissingArgument(ArgField),
    /// An argument was present but unparsable or out of range.
    InvalidArgument(ArgField),
}

/// The raw textual arguments of one command invocation. The surrounding
/// system has already split the message into named/positional tokens and
/// picked, for each field, the named value or its positional fallback.
pub struct RawArgs {
    pub day: Option<String>,
    pub year: Option<String>,
    pub p: Option<String>,
    pub rows: Option<String>,
    pub offset: Option<String>,
}

/// The argument name used in user-facing messages.
pub open spec fn field_name_spec(f: ArgField) -> Seq<char> {
    match f {
        ArgField::Day => "day"@,
        ArgField::Year => "year"@,
        ArgField::Part => "p"@,
        ArgField::Rows => "rows"@,
        ArgField::Offset => "offset"@,
    }
}

/// The user-facing sentence for a validation error.
pub open spec fn validation_message_spec(e: ValidationError) -> Seq<char> {
    match e {
        ValidationError::MissingArgument(f) => "Argument '"@ + field_name_spec(f)
            + "' is required"@,
        ValidationError::InvalidArgument(f) => "Failed to parse argument '"@ + field_name_spec(f)
            + "'"@,
    }
}

fn field_name(f: ArgField) -> (r: &'static str)
    ensures
        r@ == field_name_spec(f),
{
    match f {
        ArgField::Day => "day",
        ArgField::Year => "year",
        ArgField::Part => "p",
        ArgField::Rows => "rows",
        ArgField::Offset => "offset",
    }
}

/// Render the user-facing sentence for a validation error.
pub fn validation_message(e: &ValidationError) -> (r: String)
    ensures
        r@ == validation_message_spec(*e),
{
    match e {
        ValidationError::MissingArgument(f) => {
            let mut s = String::from_str("Argument '");
            s.append(field_name(*f));
            s.append("' is required");
            s
        },
        ValidationError::InvalidArgument(f) => {
            let mut s = String::from_str("Failed to parse argument '");
            s.append(field_name(*f));
            s.append("'");
            s
        },
    }
}

} // verus!
