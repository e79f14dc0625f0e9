//! Deriving the commented companion path from a user-supplied path.
//!
//! One document lives under two names: the canonical path (ending in
//! ".json") and the commented path (ending in ".jsonc"). The rule is
//! deterministic: a path whose final component ends with the canonical
//! suffix has that suffix replaced; any other path has the commented
//! suffix appended. Every caller in the system goes through this one
//! function, so the two directions of lookup can never disagree.

use vstd::prelude::*;
use vstd::string::*;

verus! {

/// The canonical suffix ".json", as a sequence of characters.
pub open spec fn json_suffix() -> Seq<char> {
    seq!['.', 'j', 's', 'o', 'n']
}

/// The commented suffix ".jsonc", as a sequence of characters.
pub open spec fn jsonc_suffix() -> Seq<char> {
    seq!['.', 'j', 's', 'o', 'n', 'c']
}

/// True when the path ends with the canonical suffix ".json".
pub open spec fn ends_with_json(s: Seq<char>) -> bool {
    &&& s.len() >= 5
    &&& s[s.len() - 5] == '.'
    &&& s[s.len() - 4] == 'j'
    &&& s[s.len() - 3] == 's'
    &&& s[s.len() - 2] == 'o'
    &&& s[s.len() - 1] == 'n'
}

/// The commented companion of `path`: ".json" at the end is replaced by
/// ".jsonc"; any other path gets ".jsonc" appended.
pub fn get_jsonc_path(path: &str) -> (r: String)
    ensures
        ends_with_json(path@) ==> r@ == path@.subrange(0, path@.len() - 5) + jsonc_suffix(),
        !ends_with_json(path@) ==> r@ == path@ + jsonc_suffix(),
{
    let n = path.unicode_len();
    let has_suffix = n >= 5 && path.get_char(n - 5) == '.' && path.get_char(n - 4) == 'j'
        && path.get_char(n - 3) == 's' && path.get_char(n - 2) == 'o' && path.get_char(
        n - 1,
    ) == 'n';
    proof {
        assert(has_suffix == ends_with_json(path@));
        reveal_strlit(".jsonc");
        assert(".jsonc"@ =~= jsonc_suffix());
    }
    if has_suffix {
        let stem = path.substring_char(0, n - 5);
        let mut r = String::from_str(stem);
        r.append(".jsonc");
        proof {
            assert(r@ =~= path@.subrange(0, path@.len() - 5) + jsonc_suffix());
        }
        r
    } else {
        let mut r = String::from_str(path);
        r.append(".jsonc");
        proof {
            assert(r@ =~= path@ + jsonc_suffix());
        }
        r
    }
}

/// True when the path ends with the commented suffix ".jsonc".
pub open spec fn ends_with_jsonc(s: Seq<char>) -> bool {
    &&& s.len() >= 6
    &&& s[s.len() - 6] == '.'
    &&& s[s.len() - 5] == 'j'
    &&& s[s.len() - 4] == 's'
    &&& s[s.len() - 3] == 'o'
    &&& s[s.len() - 2] == 'n'
    &&& s[s.len() - 1] == 'c'
}

/// A user may name either file; the commented form is mapped back to its
/// canonical counterpart before processing. A path ending in ".jsonc"
/// has that suffix replaced by ".json"; any other path stands as given.
pub fn to_canonical_path(path: &str) -> (r: String)
    ensures
        ends_with_jsonc(path@) ==> r@ == path@.subrange(0, path@.len() - 6) + json_suffix(),
        !ends_with_jsonc(path@) ==> r@ == path@,
{
    let n = path.unicode_len();
    let has_suffix = n >= 6 && path.get_char(n - 6) == '.' && path.get_char(n - 5) == 'j'
        && path.get_char(n - 4) == 's' && path.get_char(n - 3) == 'o' && path.get_char(n - 2)
        == 'n' && path.get_char(n - 1) == 'c';
    proof {
        assert(has_suffix == ends_with_jsonc(path@));
    }
    if has_suffix {
        let stem = path.substring_char(0, n - 6);
        let mut r = String::from_str(stem);
        r.append(".json");
        proof {
            reveal_strlit(".json");
            assert(".json"@ =~= json_suffix());
            assert(r@ =~= path@.subrange(0, path@.len() - 6) + json_suffix());
        }
        r
    } else {
        String::from_str(path)
    }
}

} // verus!
