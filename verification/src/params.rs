//! The parameter resolver: turns the raw arguments plus configured defaults
//! and calendar state into a validated, typed parameter set.

use vstd::prelude::*;

use crate::args::{ArgField, RawArgs, ValidationError};
use crate::text::parse_u32;
use crate::text::parse_u32_spec;

verus! {

/// Which subdivision of the day's challenge the leaderboard view concerns.
#[derive(Clone, Copy, Debug, PartialEq, Eq, Structural)]
pub enum Scope {
    FirstPart,
    SecondPart,
    Both,
}

/// Configured defaults the resolver falls back to.
pub struct Defaults {
    /// Row count used when the `rows` argument is absent.
    pub leaderboard_rows: u32,
}

/// Calendar state derived from the clock by the surrounding system.
pub struct Clock {
    /// The currently active event day, if an event is running.
    pub current_day: Option<u32>,
    /// The most recent event year.
    pub most_recent_year: u32,
}

pub open spec fn defaults_wf(d: Defaults) -> bool {
    d.leaderboard_rows <= 200
}

pub open spec fn clock_wf(c: Clock) -> bool {
    &&& match c.current_day {
        Some(d) => 1 <= d <= 25,
        None => true,
    }
    &&& 2015 <= c.most_recent_year <= 9999
}

/// A validated parameter set. All fields are checked before any outward
/// call is made.
#[derive(Clone, Copy, Debug, PartialEq, Eq, Structural)]
pub struct CommandParams {
    pub day: u32,
    pub year: u32,
    pub scope: Scope,
    pub rows: u32,
    pub offset: u32,
}

pub open spec fn params_wf(p: CommandParams) -> bool {
    &&& 1 <= p.day <= 25
    &&& 2015 <= p.year <= 9999
    &&& p.rows <= 200
    &&& p.offset <= 200
}

/// The view of an optional raw argument.
pub open spec fn opt_view(o: Option<String>) -> Option<Seq<char>> {
    match o {
        Some(s) => Some(s@),
        None => None,
    }
}

/// The value of a numeric argument accepted within `[lo, hi]`, or `None`
/// when it is unparsable or out of range.
pub open spec fn accepted(s: Seq<char>, lo: u32, hi: u32) -> Option<u32> {
    match parse_u32_spec(s) {
        Some(v) => if lo <= v && v <= hi {
            Some(v)
        } else {
            None
        },
        None => None,
    }
}

/// `day`: named/positional value in 1..=25; absent falls back to the
/// currently active event day; no fallback means the argument is required.
pub open spec fn resolve_day_spec(day_arg: Option<Seq<char>>, current_day: Option<u32>) -> Result<
    u32,
    ValidationError,
> {
    match day_arg {
        Some(s) => match accepted(s, 1, 25) {
            Some(d) => Ok(d),
            None => Err(ValidationError::InvalidArgument(ArgField::Day)),
        },
        None => match current_day {
            Some(d) => Ok(d),
            None => Err(ValidationError::MissingArgument(ArgField::Day)),
        },
    }
}

/// `year`: value in 2015..=most recent event year; absent defaults to the
/// most recent event year.
pub open spec fn resolve_year_spec(year_arg: Option<Seq<char>>, most_recent_year: u32) -> Result<
    u32,
    ValidationError,
> {
    match year_arg {
        Some(s) => match accepted(s, 2015, most_recent_year) {
            Some(y) => Ok(y),
            None => Err(ValidationError::InvalidArgument(ArgField::Year)),
        },
        None => Ok(most_recent_year),
    }
}

/// `p`: exactly `1`, `2` or `both`; absent means `both`.
pub open spec fn resolve_scope_spec(p_arg: Option<Seq<char>>) -> Result<Scope, ValidationError> {
    match p_arg {
        None => Ok(Scope::Both),
        Some(s) => if s == "1"@ {
            Ok(Scope::FirstPart)
        } else if s == "2"@ {
            Ok(Scope::SecondPart)
        } else if s == "both"@ {
            Ok(Scope::Both)
        } else {
            Err(ValidationError::InvalidArgument(ArgField::Part))
        },
    }
}

/// `rows` / `offset`: value in 0..=200; absent falls back to `fallback`.
pub open spec fn resolve_count_spec(arg: Option<Seq<char>>, fallback: u32, field: ArgField) -> Result<
    u32,
    ValidationError,
> {
    match arg {
        Some(s) => match accepted(s, 0, 200) {
            Some(v) => Ok(v),
            None => Err(ValidationError::InvalidArgument(field)),
        },
        None => Ok(fallback),
    }
}

/// The whole resolution, fields checked in the order `day`, `year`, `p`,
/// `rows`, `offset`; the first failure wins.
pub open spec fn resolve_spec(
    day_arg: Option<Seq<char>>,
    year_arg: Option<Seq<char>>,
    p_arg: Option<Seq<char>>,
    rows_arg: Option<Seq<char>>,
    offset_arg: Option<Seq<char>>,
    default_rows: u32,
    current_day: Option<u32>,
    most_recent_year: u32,
) -> Result<CommandParams, ValidationError> {
    match resolve_day_spec(day_arg, current_day) {
        Err(e) => Err(e),
        Ok(day) => match resolve_year_spec(year_arg, most_recent_year) {
            Err(e) => Err(e),
            Ok(year) => match resolve_scope_spec(p_arg) {
                Err(e) => Err(e),
                Ok(scope) => match resolve_count_spec(rows_arg, default_rows, ArgField::Rows) {
                    Err(e) => Err(e),
                    Ok(rows) => match resolve_count_spec(offset_arg, 0, ArgField::Offset) {
                        Err(e) => Err(e),
                        Ok(offset) => Ok(CommandParams { day, year, scope, rows, offset }),
                    },
                },
            },
        },
    }
}

fn resolve_num(arg: &Option<String>, lo: u32, hi: u32) -> (r: Option<Option<u32>>)
    ensures
        r == match opt_view(*arg) {
            Some(s) => Some(accepted(s, lo, hi)),
            None => None::<Option<u32>>,
        },
{
    match arg {
        Some(s) => match parse_u32(s.as_str()) {
            Some(v) => if lo <= v && v <= hi {
                Some(Some(v))
            } else {
                Some(None)
            },
            None => Some(None),
        },
        None => None,
    }
}

/// Resolve the raw arguments into a validated parameter set, or the first
/// validation error in field order. Pure in its inputs; it never panics and
/// never raises a fault.
pub fn resolve(args: &RawArgs, defaults: &Defaults, clock: &Clock) -> (r: Result<
    CommandParams,
    ValidationError,
>)
    requires
        defaults_wf(*defaults),
        clock_wf(*clock),
    ensures
        r == resolve_spec(
            opt_view(args.day),
            opt_view(args.year),
            opt_view(args.p),
            opt_view(args.rows),
            opt_view(args.offset),
            defaults.leaderboard_rows,
            clock.current_day,
            clock.most_recent_year,
        ),
        r matches Ok(p) ==> params_wf(p),
{
    let day = match resolve_num(&args.day, 1, 25) {
        Some(Some(d)) => d,
        Some(None) => {
            return Err(ValidationError::InvalidArgument(ArgField::Day));
        },
        None => match clock.current_day {
            Some(d) => d,
            None => {
                return Err(ValidationError::MissingArgument(ArgField::Day));
            },
        },
    };
    let year = match resolve_num(&args.year, 2015, clock.most_recent_year) {
        Some(Some(y)) => y,
        Some(None) => {
            return Err(ValidationError::InvalidArgument(ArgField::Year));
        },
        None => clock.most_recent_year,
    };
    let scope = match &args.p {
        None => Scope::Both,
        Some(s) => {
            let one = String::from_str("1");
            let two = String::from_str("2");
            let both = String::from_str("both");
            if *s == one {
                Scope::FirstPart
            } else if *s == two {
                Scope::SecondPart
            } else if *s == both {
                Scope::Both
            } else {
                return Err(ValidationError::InvalidArgument(ArgField::Part));
            }
        },
    };
    let rows = match resolve_num(&args.rows, 0, 200) {
        Some(Some(v)) => v,
        Some(None) => {
            return Err(ValidationError::InvalidArgument(ArgField::Rows));
        },
        None => defaults.leaderboard_rows,
    };
    let offset = match resolve_num(&args.offset, 0, 200) {
        Some(Some(v)) => v,
        Some(None) => {
            return Err(ValidationError::InvalidArgument(ArgField::Offset));
        },
        None => 0,
    };
    Ok(CommandParams { day, year, scope, rows, offset })
}

/// A missing required field with no derivable default is reported as a
/// missing argument naming that field. Only `day` can be in that position:
/// every other field has a default, so only a `day` argument that is absent
/// while no event day is active yields `MissingArgument`, and it names `day`.
pub proof fn lemma_missing_argument(
    year_arg: Option<Seq<char>>,
    p_arg: Option<Seq<char>>,
    rows_arg: Option<Seq<char>>,
    offset_arg: Option<Seq<char>>,
    default_rows: u32,
    most_recent_year: u32,
)
    ensures
        resolve_spec(
            None,
            year_arg,
            p_arg,
            rows_arg,
            offset_arg,
            default_rows,
            None,
            most_recent_year,
        ) == Err::<CommandParams, ValidationError>(
            ValidationError::MissingArgument(ArgField::Day),
        ),
        forall|day_arg: Option<Seq<char>>, current_day: Option<u32>, e: ValidationError|
            (resolve_spec(
                day_arg,
                year_arg,
                p_arg,
                rows_arg,
                offset_arg,
                default_rows,
                current_day,
                most_recent_year,
            ) == Err::<CommandParams, ValidationError>(e) && e is MissingArgument) ==> e
                == ValidationError::MissingArgument(ArgField::Day) && day_arg is None
                && current_day is None,
{
}

/// An out-of-range or unparsable value for `day`, `year`, `p`, `rows` or
/// `offset` is reported as an invalid argument naming that field (the first
/// offending field in resolution order), and never as a fault: resolution
/// is total and every failure is a `ValidationError`.
pub proof fn lemma_invalid_argument(
    day_arg: Option<Seq<char>>,
    year_arg: Option<Seq<char>>,
    p_arg: Option<Seq<char>>,
    rows_arg: Option<Seq<char>>,
    offset_arg: Option<Seq<char>>,
    default_rows: u32,
    current_day: Option<u32>,
    most_recent_year: u32,
)
    ensures
        (day_arg matches Some(s) && accepted(s, 1, 25) is None) ==> resolve_spec(
            day_arg,
            year_arg,
            p_arg,
            rows_arg,
            offset_arg,
            default_rows,
            current_day,
            most_recent_year,
        ) == Err::<CommandParams, ValidationError>(
            ValidationError::InvalidArgument(ArgField::Day),
        ),
        (year_arg matches Some(s) && resolve_day_spec(day_arg, current_day) is Ok && accepted(
            s,
            2015,
            most_recent_year,
        ) is None) ==> resolve_spec(
            day_arg,
            year_arg,
            p_arg,
            rows_arg,
            offset_arg,
            default_rows,
            current_day,
            most_recent_year,
        ) == Err::<CommandParams, ValidationError>(
            ValidationError::InvalidArgument(ArgField::Year),
        ),
        (resolve_day_spec(day_arg, current_day) is Ok && resolve_year_spec(
            year_arg,
            most_recent_year,
        ) is Ok && resolve_scope_spec(p_arg) is Err) ==> resolve_spec(
            day_arg,
            year_arg,
            p_arg,
            rows_arg,
            offset_arg,
            default_rows,
            current_day,
            most_recent_year,
        ) == Err::<CommandParams, ValidationError>(
            ValidationError::InvalidArgument(ArgField::Part),
        ),
        (rows_arg matches Some(s) && resolve_day_spec(day_arg, current_day) is Ok
            && resolve_year_spec(year_arg, most_recent_year) is Ok && resolve_scope_spec(p_arg)
            is Ok && accepted(s, 0, 200) is None) ==> resolve_spec(
            day_arg,
            year_arg,
            p_arg,
            rows_arg,
            offset_arg,
            default_rows,
            current_day,
            most_recent_year,
        ) == Err::<CommandParams, ValidationError>(
            ValidationError::InvalidArgument(ArgField::Rows),
        ),
        (offset_arg matches Some(s) && resolve_day_spec(day_arg, current_day) is Ok
            && resolve_year_spec(year_arg, most_recent_year) is Ok && resolve_scope_spec(p_arg)
            is Ok && resolve_count_spec(rows_arg, default_rows, ArgField::Rows) is Ok && accepted(
            s,
            0,
            200,
        ) is None) ==> resolve_spec(
            day_arg,
            year_arg,
            p_arg,
            rows_arg,
            offset_arg,
            default_rows,
            current_day,
            most_recent_year,
        ) == Err::<CommandParams, ValidationError>(
            ValidationError::InvalidArgument(ArgField::Offset),
        ),
{
}

} // verus!
