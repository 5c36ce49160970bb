//! The texts that present a fitted line.

use vstd::prelude::*;
use vstd::string::StringExecFns;

verus! {

/// The caption of a chart: the second axis against the first.
pub open spec fn chart_title_text(x_name: Seq<char>, y_name: Seq<char>) -> Seq<char> {
    y_name + " vs "@ + x_name
}

/// The line `y = a*x + b` as it is printed, from the texts of `a` and `b`.
pub open spec fn equation_text(a: Seq<char>, b: Seq<char>) -> Seq<char> {
    "y = "@ + a + "x, + "@ + b
}

/// Renders the caption of a chart of `y_name` against `x_name`.
pub fn chart_title(x_name: &str, y_name: &str) -> (text: String)
    ensures
        text@ == chart_title_text(x_name@, y_name@),
{
    let mut text = String::from_str(y_name);
    text.append(" vs ");
    text.append(x_name);
    text
}

/// Renders the fitted line from the texts of its slope and intercept.
pub fn equation(a: &str, b: &str) -> (text: String)
    ensures
        text@ == equation_text(a@, b@),
{
    let mut text = String::from_str("y = ");
    text.append(a);
    text.append("x, + ");
    text.append(b);
    text
}

} // verus!
