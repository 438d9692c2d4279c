//! Auto-naming of new shortcuts: scan the existing names for `Default<N>`,
//! take the largest `N` of the names that carry one, and produce
//! `Default<N+1>`; with no such name the result is `Default0`.

use vstd::prelude::*;
use crate::text::{
    format_dec, parse_u64, spec_dec, spec_parse_u64, spec_starts_with, starts_with,
};

verus! {

/// The number a name contributes: `Some(n)` exactly when the name is
/// `Default` followed by a digit string that parses as `n`.
pub open spec fn spec_default_suffix(name: Seq<char>) -> Option<u64> {
    if spec_starts_with(name, "Default"@) {
        spec_parse_u64(name.skip("Default"@.len() as int))
    } else {
        None
    }
}

/// The larger of two optional numbers.
pub open spec fn merge_max(a: Option<u64>, b: Option<u64>) -> Option<u64> {
    match (a, b) {
        (Some(x), Some(y)) => Some(if x >= y { x } else { y }),
        (Some(x), None) => Some(x),
        (None, y) => y,
    }
}

/// The largest `Default<N>` number among the names, if any carries one.
pub open spec fn spec_max_default(names: Seq<Seq<char>>) -> Option<u64>
    decreases names.len(),
{
    if names.len() == 0 {
        None
    } else {
        merge_max(spec_default_suffix(names[0]), spec_max_default(names.drop_first()))
    }
}

/// The number assigned to the next generated name.
pub open spec fn spec_next_default(names: Seq<Seq<char>>) -> nat {
    match spec_max_default(names) {
        Some(m) => m as nat + 1,
        None => 0,
    }
}

/// The next auto-generated shortcut name for this set of existing names.
pub open spec fn spec_generate_name(names: Seq<Seq<char>>) -> Seq<char> {
    "Default"@ + spec_dec(spec_next_default(names))
}

proof fn lemma_merge_max_assoc(a: Option<u64>, b: Option<u64>, c: Option<u64>)
    ensures
        merge_max(merge_max(a, b), c) == merge_max(a, merge_max(b, c)),
{
}

/// Generates a fresh name of the form `Default<N>`: one more than the
/// largest `N` among existing `Default<N>` names, or `Default0` when no
/// name carries a parseable number.
pub fn generate_name(current_names: Vec<String>) -> (r: String)
    ensures
        r@ == spec_generate_name(current_names.deep_view()),
{
    let ghost names = current_names.deep_view();
    let mut best: Option<u64> = None;
    let mut i: usize = 0;
    proof {
        assert(names.subrange(0, names.len() as int) =~= names);
    }
    while i < current_names.len()
        invariant
            0 <= i <= current_names.len(),
            names == current_names.deep_view(),
            names.len() == current_names.len(),
            spec_max_default(names) == merge_max(
                best,
                spec_max_default(names.subrange(i as int, names.len() as int)),
            ),
        decreases current_names.len() - i,
    {
        let ghost rest = names.subrange(i as int, names.len() as int);
        let ghost rest1 = names.subrange(i + 1, names.len() as int);
        proof {
            assert(rest.len() > 0);
            assert(rest[0] == names[i as int]);
            assert(rest.drop_first() =~= rest1);
        }
        let name = &current_names[i];
        let mut here: Option<u64> = None;
        if starts_with(name.as_str(), "Default") {
            proof {
                reveal_strlit("Default");
            }
            let len = name.as_str().unicode_len();
            let suffix = name.as_str().substring_char(7, len);
            proof {
                assert(suffix@ =~= name@.skip(7));
            }
            here = parse_u64(suffix);
        }
        proof {
            assert(here == spec_default_suffix(names[i as int])) by {
                reveal_strlit("Default");
            }
            lemma_merge_max_assoc(best, here, spec_max_default(rest1));
        }
        best = match (best, here) {
            (Some(x), Some(y)) => if x >= y {
                Some(x)
            } else {
                Some(y)
            },
            (Some(x), None) => Some(x),
            (None, y) => y,
        };
        i += 1;
    }
    proof {
        assert(names.subrange(names.len() as int, names.len() as int)
            =~= Seq::<Seq<char>>::empty());
    }
    let next: u128 = match best {
        Some(m) => m as u128 + 1,
        None => 0,
    };
    let mut out = String::from_str("Default");
    let digits = format_dec(next);
    out.append(digits.as_str());
    out
}

} // verus!
