//! The closed set of distance metrics and their textual names.

use vstd::prelude::*;
use vstd::string::*;

verus! {

/// A distance function by which a collection compares embeddings.
#[derive(Clone, Copy, Debug, PartialEq, Eq, Structural)]
pub enum DistanceMetric {
    Euclidean,
    Cosine,
    Dot,
}

/// The lower-case form of an ASCII capital; every other character is itself.
pub open spec fn fold_char(c: char) -> char {
    if 'A' <= c && c <= 'Z' {
        ((c as u8 + 32) as u8) as char
    } else {
        c
    }
}

/// A text with every ASCII capital replaced by its lower-case form.
pub open spec fn fold(s: Seq<char>) -> Seq<char> {
    Seq::new(s.len(), |i: int| fold_char(s[i]))
}

fn lower(c: char) -> (r: char)
    ensures
        r == fold_char(c),
{
    if 'A' <= c && c <= 'Z' {
        ((c as u8) + 32) as char
    } else {
        c
    }
}

/// Whether `s`, with its capitals folded, is `word`.
fn folds_to(s: &str, word: &str) -> (r: bool)
    ensures
        r == (fold(s@) == word@),
{
    let n: usize = s.unicode_len();
    if n != word.unicode_len() {
        return false;
    }
    let mut i: usize = 0;
    while i < n
        invariant
            i <= n,
            n == s@.len(),
            n == word@.len(),
            forall|j: int| 0 <= j < i ==> fold_char(s@[j]) == word@[j],
        decreases n - i,
    {
        if lower(s.get_char(i)) != word.get_char(i) {
            assert(fold(s@)[i as int] != word@[i as int]);
            return false;
        }
        i += 1;
    }
    assert(fold(s@) =~= word@);
    true
}

impl DistanceMetric {
    /// The canonical, lower-case name of the metric.
    pub open spec fn name_spec(self) -> Seq<char> {
        match self {
            DistanceMetric::Euclidean => "euclidean"@,
            DistanceMetric::Cosine => "cosine"@,
            DistanceMetric::Dot => "dot"@,
        }
    }

    /// The metric that a text names, capitals and small letters taken alike.
    pub open spec fn parse(s: Seq<char>) -> Option<DistanceMetric> {
        if fold(s) == "euclidean"@ {
            Some(DistanceMetric::Euclidean)
        } else if fold(s) == "cosine"@ {
            Some(DistanceMetric::Cosine)
        } else if fold(s) == "dot"@ {
            Some(DistanceMetric::Dot)
        } else {
            None
        }
    }

    /// Reads a metric from its name, ignoring the case of ASCII letters.
    /// Any text that is not one of the three names gives `None`.
    pub fn from_str(s: &str) -> (r: Option<Self>)
        ensures
            r == Self::parse(s@),
    {
        if folds_to(s, "euclidean") {
            Some(DistanceMetric::Euclidean)
        } else if folds_to(s, "cosine") {
            Some(DistanceMetric::Cosine)
        } else if folds_to(s, "dot") {
            Some(DistanceMetric::Dot)
        } else {
            None
        }
    }

    /// The canonical name of the metric, which `from_str` reads back.
    pub fn name(&self) -> (r: &'static str)
        ensures
            r@ == self.name_spec(),
    {
        match self {
            DistanceMetric::Euclidean => "euclidean",
            DistanceMetric::Cosine => "cosine",
            DistanceMetric::Dot => "dot",
        }
    }
}

/// Every metric is read back from its own name.
pub proof fn law_name_round_trip(m: DistanceMetric)
    ensures
        DistanceMetric::parse(m.name_spec()) == Some(m),
{
    reveal_strlit("euclidean");
    reveal_strlit("cosine");
    reveal_strlit("dot");
    assert(fold("euclidean"@) =~= "euclidean"@);
    assert(fold("cosine"@) =~= "cosine"@);
    assert(fold("dot"@) =~= "dot"@);
    assert("cosine"@.len() != "euclidean"@.len());
    assert("dot"@.len() != "euclidean"@.len());
    assert("dot"@.len() != "cosine"@.len());
}

/// Two texts that differ only in the case of ASCII letters name the same
/// metric, or both name none.
pub proof fn law_parse_ignores_case(s: Seq<char>, t: Seq<char>)
    requires
        fold(s) == fold(t),
    ensures
        DistanceMetric::parse(s) == DistanceMetric::parse(t),
{
}

} // verus!
