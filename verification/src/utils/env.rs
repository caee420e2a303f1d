//! Interpretation of environment variable values. Reading the process
//! environment is left to the caller; these functions decide what a value means.

use vstd::prelude::*;
use crate::utils::text::{trim, eq_ascii_lowercase, trim_spec, ascii_lower_seq};

verus! {

/// The words accepted as `true` (compared after trimming and ASCII lower-casing).
pub open spec fn is_true_word(w: Seq<char>) -> bool {
    w == "1"@ || w == "true"@ || w == "yes"@ || w == "on"@
}

/// The words accepted as `false` (compared after trimming and ASCII lower-casing).
pub open spec fn is_false_word(w: Seq<char>) -> bool {
    w == "0"@ || w == "false"@ || w == "no"@ || w == "off"@
}

/// Meaning of a boolean variable whose raw value is `raw` (`None` when unset).
pub open spec fn bool_flag_spec(raw: Option<Seq<char>>, default: bool) -> bool {
    match raw {
        Some(v) => {
            let t = trim_spec(v);
            if t.len() == 0 {
                default
            } else if is_true_word(ascii_lower_seq(t)) {
                true
            } else if is_false_word(ascii_lower_seq(t)) {
                false
            } else {
                default
            }
        },
        None => default,
    }
}

/// The trimmed value of a variable, or `None` when it is unset or blank.
pub open spec fn nonempty_spec(raw: Option<Seq<char>>) -> Option<Seq<char>> {
    match raw {
        Some(v) => if trim_spec(v).len() == 0 {
            None
        } else {
            Some(trim_spec(v))
        },
        None => None,
    }
}

pub open spec fn opt_str_view(raw: Option<&str>) -> Option<Seq<char>> {
    match raw {
        Some(v) => Some(v@),
        None => None,
    }
}

/// Boolean flag: `1/true/yes/on` give `true`, `0/false/no/off` give `false`
/// (case-insensitive, surrounding whitespace ignored); an unset, blank or
/// unrecognised value gives `default`.
pub fn parse_bool_flag(raw: Option<&str>, default: bool) -> (r: bool)
    ensures
        r == bool_flag_spec(opt_str_view(raw), default),
{
    match raw {
        Some(v) => {
            let t = trim(v);
            let ts = t.as_str();
            if ts.unicode_len() == 0 {
                default
            } else if eq_ascii_lowercase(ts, "1") || eq_ascii_lowercase(ts, "true")
                || eq_ascii_lowercase(ts, "yes") || eq_ascii_lowercase(ts, "on") {
                true
            } else if eq_ascii_lowercase(ts, "0") || eq_ascii_lowercase(ts, "false")
                || eq_ascii_lowercase(ts, "no") || eq_ascii_lowercase(ts, "off") {
                false
            } else {
                default
            }
        },
        None => default,
    }
}

/// The trimmed value when it is non-blank.
pub fn nonempty_value(raw: Option<&str>) -> (r: Option<String>)
    ensures
        r.deep_view() == nonempty_spec(opt_str_view(raw)),
{
    match raw {
        Some(v) => {
            let t = trim(v);
            if t.as_str().unicode_len() == 0 {
                None
            } else {
                Some(t)
            }
        },
        None => None,
    }
}

} // verus!
