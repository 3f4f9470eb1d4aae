//! Target-string handling: sanitization of a raw target and normalization of
//! a target list (lowercasing and collapsing of duplicates).

use crate::text::{
    chars_of, lower_of, lowercase, remove_all, remove_all_chars, str_views, string_of,
};
use vstd::prelude::*;

verus! {

broadcast use vstd::string::group_string_axioms;

/// The target with every copy of "www.", then "https://", then "http://",
/// then "/" removed.
pub open spec fn spec_sanitize(t: Seq<char>) -> Seq<char> {
    remove_all(
        remove_all(remove_all(remove_all(t, "www."@), "https://"@), "http://"@),
        "/"@,
    )
}

/// Strips scheme prefixes, "www." labels and slashes from a raw target.
pub fn sanitize_target_string(target: String) -> (r: String)
    ensures
        r@ == spec_sanitize(target@),
{
    proof {
        reveal_strlit("www.");
        reveal_strlit("https://");
        reveal_strlit("http://");
        reveal_strlit("/");
    }
    let v = chars_of(target.as_str());
    let p_www = chars_of("www.");
    let p_https = chars_of("https://");
    let p_http = chars_of("http://");
    let p_slash = chars_of("/");
    let v1 = remove_all_chars(&v, &p_www);
    let v2 = remove_all_chars(&v1, &p_https);
    let v3 = remove_all_chars(&v2, &p_http);
    let v4 = remove_all_chars(&v3, &p_slash);
    string_of(&v4)
}

/// The lowercase forms of a sequence of strings.
pub open spec fn lowered_views(v: Seq<String>) -> Seq<Seq<char>> {
    v.map_values(|s: String| lower_of(s@))
}

/// Whether some entry of `v` has the same characters as `s`.
pub fn contains_string(v: &Vec<String>, s: &String) -> (b: bool)
    ensures
        b == str_views(v@).contains(s@),
{
    let mut i: usize = 0;
    while i < v.len()
        invariant
            i <= v.len(),
            forall|k: int| 0 <= k < i ==> str_views(v@)[k] != s@,
        decreases v.len() - i,
    {
        if v[i].eq(s) {
            proof {
                assert(str_views(v@)[i as int] == s@);
                assert(str_views(v@).contains(s@));
            }
            return true;
        }
        i = i + 1;
    }
    proof {
        assert(forall|k: int| 0 <= k < str_views(v@).len() ==> str_views(v@)[k] != s@);
    }
    false
}

/// Lowercases every line and collapses duplicates: the result holds exactly
/// the lowercase forms of the input lines, each at most once.
pub fn normalize_targets(lines: &Vec<String>) -> (r: Vec<String>)
    ensures
        str_views(r@).no_duplicates(),
        forall|x: Seq<char>| #[trigger]
            str_views(r@).contains(x) ==> lowered_views(lines@).contains(x),
        forall|x: Seq<char>| #[trigger]
            lowered_views(lines@).contains(x) ==> str_views(r@).contains(x),
{
    let mut r: Vec<String> = Vec::new();
    let mut i: usize = 0;
    proof {
        assert(lines@.take(0) =~= Seq::<String>::empty());
    }
    while i < lines.len()
        invariant
            i <= lines.len(),
            str_views(r@).no_duplicates(),
            forall|x: Seq<char>| #[trigger]
                str_views(r@).contains(x) ==> lowered_views(lines@.take(i as int)).contains(x),
            forall|x: Seq<char>| #[trigger]
                lowered_views(lines@.take(i as int)).contains(x) ==> str_views(r@).contains(x),
        decreases lines.len() - i,
    {
        let ghost prev = r@;
        let ghost prev_low = lowered_views(lines@.take(i as int));
        let low = lowercase(lines[i].as_str());
        let is_dup = contains_string(&r, &low);
        if !is_dup {
            r.push(low);
        }
        proof {
            let cur_low = lowered_views(lines@.take(i + 1));
            assert(cur_low =~= prev_low.push(lower_of(lines@[i as int]@)));
            if !is_dup {
                assert(str_views(r@) =~= str_views(prev).push(low@));
                assert forall|x: Seq<char>| #[trigger] str_views(r@).contains(x) implies cur_low
                    .contains(x) by {
                    if x == low@ {
                        assert(cur_low[cur_low.len() - 1] == x);
                        assert(cur_low.contains(x));
                    } else {
                        let k = choose|k: int|
                            0 <= k < str_views(r@).len() && str_views(r@)[k] == x;
                        assert(k < str_views(prev).len());
                        assert(str_views(prev)[k] == x);
                        assert(str_views(prev).contains(x));
                        assert(prev_low.contains(x));
                        let j = choose|j: int| 0 <= j < prev_low.len() && prev_low[j] == x;
                        assert(cur_low[j] == x);
                        assert(cur_low.contains(x));
                    }
                }
                assert forall|x: Seq<char>| #[trigger] cur_low.contains(x) implies str_views(
                    r@,
                ).contains(x) by {
                    let k = choose|k: int| 0 <= k < cur_low.len() && cur_low[k] == x;
                    if k < cur_low.len() - 1 {
                        assert(prev_low[k] == x);
                        assert(prev_low.contains(x));
                        let m = choose|m: int|
                            0 <= m < str_views(prev).len() && str_views(prev)[m] == x;
                        assert(str_views(r@)[m] == x);
                    } else {
                        assert(str_views(r@)[str_views(r@).len() - 1] == low@);
                    }
                }
                assert(forall|k: int|
                    0 <= k < str_views(prev).len() ==> str_views(prev)[k] != low@);
            } else {
                assert forall|x: Seq<char>| #[trigger] cur_low.contains(x) implies str_views(
                    r@,
                ).contains(x) by {
                    let k = choose|k: int| 0 <= k < cur_low.len() && cur_low[k] == x;
                    if k < cur_low.len() - 1 {
                        assert(prev_low[k] == x);
                        assert(prev_low.contains(x));
                    } else {
                        assert(x == low@);
                    }
                }
                assert forall|x: Seq<char>| #[trigger] str_views(r@).contains(x) implies cur_low
                    .contains(x) by {
                    assert(prev_low.contains(x));
                    let k = choose|k: int| 0 <= k < prev_low.len() && prev_low[k] == x;
                    assert(cur_low[k] == x);
                }
            }
        }
        i = i + 1;
    }
    proof {
        assert(lines@.take(lines@.len() as int) =~= lines@);
    }
    r
}

} // verus!
