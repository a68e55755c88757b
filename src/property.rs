use vstd::prelude::*;
use crate::report::{outcome, PropertyComparison, PropertyOutcome};
use crate::text::{same_tokens, EqualIgnoreWhitespace};

verus! {

/// How an absent value renders.
pub open spec fn none_text() -> Seq<char> {
    "<none>"@
}

pub open spec fn digit_char(d: nat) -> char {
    seq!['0', '1', '2', '3', '4', '5', '6', '7', '8', '9'][d as int]
}

/// The decimal digits of `n`, most significant first.
pub open spec fn digits(n: nat) -> Seq<char>
    decreases n,
{
    if n < 10 {
        seq![digit_char(n)]
    } else {
        digits(n / 10).push(digit_char(n % 10))
    }
}

/// The decimal rendering of `v`, with a leading minus sign when it is negative.
pub open spec fn decimal(v: int) -> Seq<char> {
    if v < 0 {
        seq!['-'] + digits((-v) as nat)
    } else {
        digits(v as nat)
    }
}

/// Relies on `ToString` for `i32`, through its `Display`: the decimal rendering.
#[verifier::external_body]
fn render_i32(v: i32) -> (r: String)
    ensures
        r@ == decimal(v as int),
{
    v.to_string()
}

pub open spec fn text_of(v: Option<String>) -> Option<Seq<char>> {
    match v {
        Some(s) => Some(s@),
        None => None,
    }
}

pub open spec fn int_text_of(v: Option<i32>) -> Option<Seq<char>> {
    match v {
        Some(n) => Some(decimal(n as int)),
        None => None,
    }
}

/// How an optional value renders: the value itself, or `<none>` where it is absent.
pub open spec fn rendered(v: Option<Seq<char>>) -> Seq<char> {
    match v {
        Some(s) => s,
        None => none_text(),
    }
}

/// Comparing a required text property: unchanged exactly when both values are equal.
pub open spec fn text_outcome(
    name: Seq<char>,
    left: Seq<char>,
    right: Seq<char>,
) -> PropertyOutcome {
    outcome(name, left == right, left, right)
}

/// Comparing a required integer property, rendered in decimal.
pub open spec fn int_outcome(name: Seq<char>, left: i32, right: i32) -> PropertyOutcome {
    outcome(name, left == right, decimal(left as int), decimal(right as int))
}

/// Comparing an optional text property: two absent values are unchanged at `<none>`, one
/// absent value is a change, two present values are compared by equality.
pub open spec fn option_outcome(
    name: Seq<char>,
    left: Option<String>,
    right: Option<String>,
) -> PropertyOutcome {
    outcome(
        name,
        text_of(left) == text_of(right),
        rendered(text_of(left)),
        rendered(text_of(right)),
    )
}

/// Comparing an optional integer property, as `option_outcome` does.
pub open spec fn option_int_outcome(
    name: Seq<char>,
    left: Option<i32>,
    right: Option<i32>,
) -> PropertyOutcome {
    outcome(name, left == right, rendered(int_text_of(left)), rendered(int_text_of(right)))
}

/// Comparing an optional free-form text as `option_outcome` does, except that two
/// present values are equal when they hold the same words.
pub open spec fn option_outcome_ignore_whitespace(
    name: Seq<char>,
    left: Option<String>,
    right: Option<String>,
) -> PropertyOutcome {
    let same = match (left, right) {
        (Some(l), Some(r)) => same_tokens(l@, r@),
        (None, None) => true,
        _ => false,
    };
    outcome(name, same, rendered(text_of(left)), rendered(text_of(right)))
}

fn none_string() -> (r: String)
    ensures
        r@ == none_text(),
{
    "<none>".to_owned()
}

/// Compares two values of a required text property.
pub fn compare_property(
    property_name: &str,
    left: &String,
    right: &String,
) -> (r: PropertyComparison)
    ensures
        r@ == text_outcome(property_name@, left@, right@),
{
    if *left == *right {
        PropertyComparison::PropertyUnchanged {
            property_name: property_name.to_owned(),
            value: left.clone(),
        }
    } else {
        PropertyComparison::PropertyChanged {
            property_name: property_name.to_owned(),
            left_value: left.clone(),
            right_value: right.clone(),
        }
    }
}

/// Compares two values of a required integer property.
pub fn compare_int_property(property_name: &str, left: i32, right: i32) -> (r: PropertyComparison)
    ensures
        r@ == int_outcome(property_name@, left, right),
{
    if left == right {
        PropertyComparison::PropertyUnchanged {
            property_name: property_name.to_owned(),
            value: render_i32(left),
        }
    } else {
        PropertyComparison::PropertyChanged {
            property_name: property_name.to_owned(),
            left_value: render_i32(left),
            right_value: render_i32(right),
        }
    }
}

/// Builds the comparison of an optional property from the rendered values: two absent
/// values are unchanged at `<none>`, one absent value is a change, and two present values
/// are unchanged exactly when `same`.
pub fn compare_option_property_impl(
    property_name: &str,
    left_value: Option<String>,
    right_value: Option<String>,
    same: bool,
) -> (r: PropertyComparison)
    ensures
        r@ == outcome(
            property_name@,
            (left_value is None && right_value is None) || (left_value is Some && right_value is Some
                && same),
            rendered(text_of(left_value)),
            rendered(text_of(right_value)),
        ),
{
    match (left_value, right_value) {
        (None, None) => PropertyComparison::PropertyUnchanged {
            property_name: property_name.to_owned(),
            value: none_string(),
        },
        (Some(l), Some(r)) => {
            if same {
                PropertyComparison::PropertyUnchanged {
                    property_name: property_name.to_owned(),
                    value: l,
                }
            } else {
                PropertyComparison::PropertyChanged {
                    property_name: property_name.to_owned(),
                    left_value: l,
                    right_value: r,
                }
            }
        },
        (l, r) => {
            let lv = match l {
                Some(s) => s,
                None => none_string(),
            };
            let rv = match r {
                Some(s) => s,
                None => none_string(),
            };
            PropertyComparison::PropertyChanged {
                property_name: property_name.to_owned(),
                left_value: lv,
                right_value: rv,
            }
        },
    }
}

fn clone_text(v: &Option<String>) -> (r: Option<String>)
    ensures
        text_of(r) == text_of(*v),
{
    match v {
        Some(s) => Some(s.clone()),
        None => None,
    }
}

fn render_option_i32(v: Option<i32>) -> (r: Option<String>)
    ensures
        text_of(r) == int_text_of(v),
{
    match v {
        Some(n) => Some(render_i32(n)),
        None => None,
    }
}

/// Compares two values of an optional text property.
pub fn compare_option_property(
    property_name: &str,
    left: &Option<String>,
    right: &Option<String>,
) -> (r: PropertyComparison)
    ensures
        r@ == option_outcome(property_name@, *left, *right),
{
    let same = match (left, right) {
        (Some(l), Some(r)) => *l == *r,
        _ => false,
    };
    compare_option_property_impl(property_name, clone_text(left), clone_text(right), same)
}

/// Compares two values of an optional integer property.
pub fn compare_option_int_property(
    property_name: &str,
    left: Option<i32>,
    right: Option<i32>,
) -> (r:
    PropertyComparison)
    ensures
        r@ == option_int_outcome(property_name@, left, right),
{
    let same = match (left, right) {
        (Some(l), Some(r)) => l == r,
        _ => false,
    };
    compare_option_property_impl(
        property_name,
        render_option_i32(left),
        render_option_i32(right),
        same,
    )
}

/// Compares two values of an optional free-form text property, ignoring whitespace
/// around and between their words.
pub fn compare_option_property_ignore_whitespace(
    property_name: &str,
    left: &Option<String>,
    right: &Option<String>,
) -> (r: PropertyComparison)
    ensures
        r@ == option_outcome_ignore_whitespace(property_name@, *left, *right),
{
    let same = match (left, right) {
        (Some(l), Some(r)) => l.as_str().eq_ignore_whitespace(r.as_str()),
        _ => false,
    };
    compare_option_property_impl(property_name, clone_text(left), clone_text(right), same)
}

} // verus!
