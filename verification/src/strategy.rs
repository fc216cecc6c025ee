//! The strategy selector and its parsing from a textual tag.

use vstd::prelude::*;

verus! {

/// Selects one of the three interchangeable distance algorithms.
#[derive(Debug, Clone, Copy, PartialEq, Eq, Structural)]
pub enum Strategy {
    Naive,
    Idiomatic,
    Matrix,
}

/// The one error of the library: a strategy tag that matches none of the
/// recognized spellings. It carries the rejected text verbatim.
#[derive(Debug)]
pub struct UnknownStrategyError {
    pub tag: String,
}

/// The strategy a tag selects: the exact, case-sensitive spellings
/// "naive", "idiomatic" (with the legacy alias "ideomatic") and "matrix",
/// and nothing else.
pub open spec fn strategy_for_tag(s: Seq<char>) -> Option<Strategy> {
    if s == "naive"@ {
        Some(Strategy::Naive)
    } else if s == "idiomatic"@ || s == "ideomatic"@ {
        Some(Strategy::Idiomatic)
    } else if s == "matrix"@ {
        Some(Strategy::Matrix)
    } else {
        None
    }
}

/// Character-by-character equality of two string slices.
fn str_eq(a: &str, b: &str) -> (r: bool)
    ensures
        r == (a@ == b@),
{
    let la = a.unicode_len();
    let lb = b.unicode_len();
    if la != lb {
        return false;
    }
    let mut i: usize = 0;
    while i < la
        invariant
            la == a@.len(),
            la == b@.len(),
            i <= la,
            forall|k: int| 0 <= k < i ==> a@[k] == b@[k],
        decreases la - i,
    {
        if a.get_char(i) != b.get_char(i) {
            return false;
        }
        i += 1;
    }
    proof {
        assert(a@ =~= b@);
    }
    true
}

/// Parses a strategy tag: returns the selected strategy for the recognized
/// spellings, and otherwise an error carrying the rejected text verbatim.
pub fn parse_strategy(s: &str) -> (r: Result<Strategy, UnknownStrategyError>)
    ensures
        match r {
            Ok(strategy) => strategy_for_tag(s@) == Some(strategy),
            Err(e) => strategy_for_tag(s@) is None && e.tag@ == s@,
        },
{
    if str_eq(s, "naive") {
        Ok(Strategy::Naive)
    } else if str_eq(s, "idiomatic") || str_eq(s, "ideomatic") {
        Ok(Strategy::Idiomatic)
    } else if str_eq(s, "matrix") {
        Ok(Strategy::Matrix)
    } else {
        Err(UnknownStrategyError { tag: s.to_owned() })
    }
}

impl UnknownStrategyError {
    /// The error rendered as text, for callers that report it.
    pub fn message(&self) -> (r: String)
        ensures
            r@ == "unknown strategy "@ + self.tag@,
    {
        let mut text = String::from_str("unknown strategy ");
        text.append(self.tag.as_str());
        text
    }
}

} // verus!
