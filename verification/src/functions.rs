use vstd::prelude::*;

verus! {

/// The closed catalogue of benchmark objective functions. Each variant stands
/// for one pure map from a point to a fitness measurement; the numeric
/// evaluation itself is the caller's, the library owns selection by name and
/// everything downstream that depends only on the order of the measurements.
#[derive(Clone, Copy, Debug, PartialEq, Eq, Structural)]
pub enum Functions {
    Ackley,
    Schwefel,
    Brown,
    Rastrigin,
    Schwefel2,
    Solomon,
}

/// The variant that a name selects, or `None` for an unknown name.
pub open spec fn spec_name_lookup(s: Seq<char>) -> Option<Functions> {
    if s == "ackley"@ {
        Some(Functions::Ackley)
    } else if s == "schwefel"@ {
        Some(Functions::Schwefel)
    } else if s == "brown"@ {
        Some(Functions::Brown)
    } else if s == "rastrigin"@ {
        Some(Functions::Rastrigin)
    } else if s == "schwefel2"@ {
        Some(Functions::Schwefel2)
    } else if s == "solomon"@ {
        Some(Functions::Solomon)
    } else {
        None
    }
}

pub open spec fn is_function_name(s: Seq<char>) -> bool {
    spec_name_lookup(s) is Some
}

/// Exact character-for-character equality of two string slices.
pub fn str_eq(a: &str, b: &str) -> (r: bool)
    ensures
        r <==> a@ == b@,
{
    let a_len = a.unicode_len();
    let b_len = b.unicode_len();
    if a_len != b_len {
        return false;
    }
    let mut i: usize = 0;
    while i < a_len
        invariant
            i <= a_len,
            a_len == a@.len(),
            a_len == b@.len(),
            forall|k: int| 0 <= k < i ==> a@[k] == b@[k],
        decreases a_len - i,
    {
        if a.get_char(i) != b.get_char(i) {
            return false;
        }
        i = i + 1;
    }
    proof {
        assert(a@ =~= b@);
    }
    true
}

impl Functions {
    /// Select a benchmark function by its name. Unknown names are a fatal
    /// configuration error and are excluded up front; a caller that cannot
    /// vouch for its input goes through `try_from_name`.
    pub fn make_from_name(name: &str) -> (f: Functions)
        requires
            is_function_name(name@),
        ensures
            spec_name_lookup(name@) == Some(f),
    {
        if str_eq(name, "ackley") {
            Functions::Ackley
        } else if str_eq(name, "schwefel") {
            Functions::Schwefel
        } else if str_eq(name, "brown") {
            Functions::Brown
        } else if str_eq(name, "rastrigin") {
            Functions::Rastrigin
        } else if str_eq(name, "schwefel2") {
            Functions::Schwefel2
        } else {
            proof {
                assert(name@ == "solomon"@);
            }
            Functions::Solomon
        }
    }

    /// Total selection by name: `Some` exactly on the six known names,
    /// `None` on every other string.
    pub fn try_from_name(name: &str) -> (r: Option<Functions>)
        ensures
            r == spec_name_lookup(name@),
    {
        if str_eq(name, "ackley") {
            Some(Functions::Ackley)
        } else if str_eq(name, "schwefel") {
            Some(Functions::Schwefel)
        } else if str_eq(name, "brown") {
            Some(Functions::Brown)
        } else if str_eq(name, "rastrigin") {
            Some(Functions::Rastrigin)
        } else if str_eq(name, "schwefel2") {
            Some(Functions::Schwefel2)
        } else if str_eq(name, "solomon") {
            Some(Functions::Solomon)
        } else {
            None
        }
    }
}

} // verus!
