//! Display of optional values in log lines.
use vstd::prelude::*;

verus! {

/// An optional value that reads as `-` when absent.
pub struct OptFmt<T>(pub Option<T>);

/// The text of an optional value: the value's own text, or `-`.
pub open spec fn opt_text(o: Option<Seq<char>>) -> Seq<char> {
    match o {
        Some(t) => t,
        None => "-"@,
    }
}

impl OptFmt<String> {
    /// The text of the value, or `-` when there is none.
    pub fn render(&self) -> (r: String)
        ensures
            r@ == opt_text(
                match self.0 {
                    Some(t) => Some(t@),
                    None => None,
                },
            ),
    {
        match &self.0 {
            Some(t) => t.clone(),
            None => "-".to_string(),
        }
    }
}

} // verus!
