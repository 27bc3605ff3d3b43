//! Which session files a scan reads, in which order, and what their paths
//! say: the day directory they sit in and the key under which Codex's state
//! database names them.  A path is given as its components, in order, as
//! `Path::iter` yields them.

use vstd::prelude::*;
use vstd::relations::{sorted_by, total_ordering};
use crate::calendar::DateKey;
use crate::order::{
    compare_paths, components_view, is_comparison, lemma_insert_sorted, lemma_orders_are_total,
    path_compare, path_le, path_order, string_views,
};
use crate::text::{ascii_lower, ascii_lowercase, chars_equal, chars_of, slice_chars, string_from_chars};

verus! {

broadcast use vstd::string::group_string_axioms;

/// The position of the last `c` in `s`, if any.
pub open spec fn last_index_of(s: Seq<char>, c: char) -> Option<int>
    decreases s.len(),
{
    if s.len() == 0 {
        None
    } else if s.last() == c {
        Some(s.len() - 1)
    } else {
        last_index_of(s.drop_last(), c)
    }
}

proof fn lemma_last_index_of(s: Seq<char>, c: char, i: int)
    requires
        -1 <= i < s.len(),
        forall|j: int| i < j < s.len() ==> #[trigger] s[j] != c,
    ensures
        i >= 0 && s[i] == c ==> last_index_of(s, c) == Some(i),
        i == -1 ==> last_index_of(s, c) is None,
    decreases s.len() - i,
{
    if i < s.len() - 1 {
        assert forall|j: int| i < j < s.len() - 1 implies #[trigger] s.drop_last()[j] != c by {
            assert(s.drop_last()[j] == s[j]);
        }
        lemma_last_index_of(s.drop_last(), c, i);
        assert(s.last() == s[s.len() - 1]);
    } else if i == -1 {
        assert(s.len() == 0);
    }
}

/// A file name whose extension, as `Path::extension` reads it (the text
/// after the last dot, when that dot is not the first character), is
/// `jsonl` in any ASCII case.
pub open spec fn has_jsonl_extension(name: Seq<char>) -> bool {
    match last_index_of(name, '.') {
        Some(i) => i > 0 && ascii_lower(name.subrange(i + 1, name.len() as int)) == "jsonl"@,
        None => false,
    }
}

/// Whether the file name `name` has the extension `jsonl`, in any ASCII case.
pub fn is_jsonl_name(name: &Vec<char>) -> (r: bool)
    ensures
        r == has_jsonl_extension(name@),
{
    let mut i: usize = name.len();
    while i > 0
        invariant
            i <= name.len(),
            forall|j: int| i <= j < name.len() ==> #[trigger] name@[j] != '.',
        decreases i,
    {
        if name[i - 1] == '.' {
            proof {
                lemma_last_index_of(name@, '.', i - 1);
            }
            if i - 1 == 0 {
                return false;
            }
            let extension = ascii_lowercase(&slice_chars(name, i, name.len()));
            return chars_equal(&extension, &chars_of("jsonl"));
        }
        i = i - 1;
    }
    proof {
        lemma_last_index_of(name@, '.', -1);
    }
    false
}

/// The components of a path, as texts.
pub open spec fn path_view(path: Vec<String>) -> Seq<Seq<char>> {
    string_views(path@)
}

/// The components of some paths, as texts.
pub open spec fn paths_view(paths: Seq<Vec<String>>) -> Seq<Seq<Seq<char>>> {
    paths.map_values(|p: Vec<String>| path_view(p))
}

/// A path whose file name has the extension `jsonl`.
pub open spec fn jsonl_path() -> spec_fn(Seq<Seq<char>>) -> bool {
    |p: Seq<Seq<char>>| p.len() > 0 && has_jsonl_extension(p.last())
}

fn copy_path(path: &Vec<String>) -> (r: Vec<String>)
    ensures
        path_view(r) == path_view(*path),
{
    let mut out: Vec<String> = Vec::new();
    let mut i: usize = 0;
    while i < path.len()
        invariant
            i <= path.len(),
            string_views(out@) == string_views(path@.take(i as int)),
        decreases path.len() - i,
    {
        out.push(path[i].clone());
        assert(path@.take(i + 1) =~= path@.take(i as int).push(path@[i as int]));
        assert(string_views(out@) =~= string_views(path@.take(i as int)).push(path@[i as int]@));
        i = i + 1;
    }
    assert(path@.take(i as int) =~= path@);
    out
}

fn path_key_chars(path: &Vec<String>) -> (r: Vec<Vec<char>>)
    ensures
        components_view(r@) == path_view(*path),
{
    let mut out: Vec<Vec<char>> = Vec::new();
    let mut i: usize = 0;
    while i < path.len()
        invariant
            i <= path.len(),
            components_view(out@) == string_views(path@.take(i as int)),
        decreases path.len() - i,
    {
        out.push(chars_of(path[i].as_str()));
        assert(path@.take(i + 1) =~= path@.take(i as int).push(path@[i as int]));
        assert(components_view(out@) =~= string_views(path@.take(i as int)).push(path@[i as int]@));
        i = i + 1;
    }
    assert(path@.take(i as int) =~= path@);
    out
}

/// The session files among the files that a directory walk found: those
/// with the extension `jsonl` (in any ASCII case), in path order.
pub fn jsonl_files(entries: &Vec<Vec<String>>) -> (r: Vec<Vec<String>>)
    ensures
        paths_view(r@) == paths_view(entries@).filter(jsonl_path()).sort_by(path_order()),
{
    proof {
        lemma_orders_are_total();
    }
    let ghost keep = jsonl_path();
    let mut out: Vec<Vec<String>> = Vec::new();
    let mut keys: Vec<Vec<Vec<char>>> = Vec::new();
    let mut i: usize = 0;
    assert(paths_view(entries@.take(0)).filter(keep) =~= Seq::empty()) by {
        assert(paths_view(entries@.take(0)) =~= Seq::empty());
        Seq::<Seq<Seq<char>>>::empty().lemma_filter_len(keep);
    }
    assert(paths_view(out@) =~= Seq::empty());
    while i < entries.len()
        invariant
            i <= entries.len(),
            keep == jsonl_path(),
            keys.len() == out.len(),
            forall|j: int| 0 <= j < out.len() ==> components_view((#[trigger] keys@[j])@) == path_view(out@[j]),
            sorted_by(paths_view(out@), path_order()),
            paths_view(out@).to_multiset() == paths_view(entries@.take(i as int)).filter(keep).to_multiset(),
            total_ordering(path_order()),
            is_comparison(|a: Seq<Seq<char>>, b: Seq<Seq<char>>| path_compare(a, b)),
        decreases entries.len() - i,
    {
        let ghost before = paths_view(entries@.take(i as int));
        let ghost pv = path_view(entries@[i as int]);
        proof {
            assert(entries@.take(i + 1) =~= entries@.take(i as int).push(entries@[i as int]));
            assert(paths_view(entries@.take(i + 1)) =~= before.push(pv));
            before.lemma_filter_push(pv, keep);
        }
        let entry = &entries[i];
        let wanted = if entry.len() > 0 {
            is_jsonl_name(&chars_of(entry[entry.len() - 1].as_str()))
        } else {
            false
        };
        assert(pv.len() == entry@.len());
        if entry.len() > 0 {
            assert(pv.last() == entry@[entry@.len() - 1]@);
        }
        assert(wanted == keep(pv));
        if wanted {
            let path = copy_path(entry);
            let key = path_key_chars(entry);
            let ghost sv = paths_view(out@);
            let mut k: usize = 0;
            while k < out.len() && compare_paths(&keys[k], &key) <= 0
                invariant
                    k <= out.len(),
                    keys.len() == out.len(),
                    forall|j: int| 0 <= j < out.len() ==> components_view((#[trigger] keys@[j])@) == path_view(out@[j]),
                    sv == paths_view(out@),
                    components_view(key@) == pv,
                    forall|j: int| 0 <= j < k ==> #[trigger] path_le(sv[j], pv),
                decreases out.len() - k,
            {
                assert(sv[k as int] == components_view(keys@[k as int]@));
                k = k + 1;
            }
            proof {
                assert forall|j: int| 0 <= j < k implies #[trigger] (path_order())(sv[j], pv) by {
                    assert(path_le(sv[j], pv));
                }
                if k < out.len() {
                    assert(sv[k as int] == components_view(keys@[k as int]@));
                    assert(path_compare(sv[k as int], pv) > 0);
                    assert(path_compare(pv, sv[k as int]) == -path_compare(sv[k as int], pv)) by {
                        let c = |a: Seq<Seq<char>>, b: Seq<Seq<char>>| path_compare(a, b);
                        assert(c(pv, sv[k as int]) == -c(sv[k as int], pv));
                    }
                    assert((path_order())(pv, sv[k as int]));
                }
                lemma_insert_sorted(sv, k as int, pv, path_order());
                vstd::seq_lib::to_multiset_insert(sv, k as int, pv);
                vstd::seq_lib::to_multiset_build(before.filter(keep), pv);
            }
            out.insert(k, path);
            keys.insert(k, key);
            proof {
                assert(paths_view(out@) =~= sv.insert(k as int, pv));
                assert forall|j: int| 0 <= j < out.len() implies components_view((#[trigger] keys@[j])@) == path_view(out@[j]) by {
                    if j < k {
                    } else if j > k {
                    }
                }
            }
        }
        i = i + 1;
    }
    proof {
        assert(entries@.take(i as int) =~= entries@);
        let filtered = paths_view(entries@).filter(keep);
        filtered.lemma_sort_by_ensures(path_order());
        vstd::seq_lib::lemma_sorted_unique(paths_view(out@), filtered.sort_by(path_order()), path_order());
    }
    out
}

/// An ASCII decimal digit.
pub open spec fn is_digit_char(c: char) -> bool {
    '0' <= c <= '9'
}

/// Every character of `s` is an ASCII digit.
pub open spec fn all_digit_chars(s: Seq<char>) -> bool {
    forall|i: int| 0 <= i < s.len() ==> is_digit_char(#[trigger] s[i])
}

/// The decimal value of the digits of `s`, read left to right.
pub open spec fn char_digits_value(s: Seq<char>) -> nat
    decreases s.len(),
{
    if s.len() == 0 {
        0
    } else {
        char_digits_value(s.drop_last()) * 10 + ((s.last() as int - '0' as int) as nat)
    }
}

/// What `str::parse::<u16>` gives: an optional `+`, then at least one ASCII
/// digit and nothing else, for a value up to 65535.
pub open spec fn spec_parse_u16(s: Seq<char>) -> Option<u16> {
    let digits = if s.len() > 0 && s[0] == '+' {
        s.drop_first()
    } else {
        s
    };
    if digits.len() > 0 && all_digit_chars(digits) && char_digits_value(digits) <= u16::MAX {
        Some(char_digits_value(digits) as u16)
    } else {
        None
    }
}

/// Reads `s` as `str::parse::<u16>` does.
pub fn parse_u16(s: &Vec<char>) -> (r: Option<u16>)
    ensures
        r == spec_parse_u16(s@),
{
    let start: usize = if s.len() > 0 && s[0] == '+' {
        1
    } else {
        0
    };
    let ghost digits = if s@.len() > 0 && s@[0] == '+' {
        s@.drop_first()
    } else {
        s@
    };
    assert(digits =~= s@.subrange(start as int, s@.len() as int));
    if start >= s.len() {
        return None;
    }
    let mut value: u32 = 0;
    let mut i: usize = start;
    assert(s@.subrange(start as int, start as int) =~= Seq::<char>::empty());
    while i < s.len()
        invariant
            start <= i <= s.len(),
            digits =~= s@.subrange(start as int, s@.len() as int),
            digits == if s@.len() > 0 && s@[0] == '+' {
                s@.drop_first()
            } else {
                s@
            },
            forall|j: int| start <= j < i ==> is_digit_char(#[trigger] s@[j]),
            value == if char_digits_value(s@.subrange(start as int, i as int)) < 65536 {
                char_digits_value(s@.subrange(start as int, i as int))
            } else {
                65536
            },
        decreases s.len() - i,
    {
        let c = s[i];
        if !('0' <= c && c <= '9') {
            assert(digits[i - start] == c);
            assert(!is_digit_char(digits[i - start]));
            return None;
        }
        let d = (c as u32) - ('0' as u32);
        assert(s@.subrange(start as int, i + 1).drop_last() =~= s@.subrange(start as int, i as int));
        let next = value * 10 + d;
        value = if next < 65536 {
            next
        } else {
            65536
        };
        i = i + 1;
    }
    assert(s@.subrange(start as int, i as int) =~= digits);
    if value <= 65535 {
        Some(value as u16)
    } else {
        None
    }
}

/// The number in component `k` of `path`, when there is one there.
pub open spec fn component_number(path: Seq<Seq<char>>, k: int) -> Option<u16> {
    if 0 <= k < path.len() {
        spec_parse_u16(path[k])
    } else {
        None
    }
}

/// The day that the directories of a session file name:
/// `.../YYYY/MM/DD/file`, each directory read as a `u16`.
pub open spec fn spec_file_date(path: Seq<Seq<char>>) -> Option<DateKey> {
    let n = path.len() as int;
    match (component_number(path, n - 4), component_number(path, n - 3), component_number(path, n - 2)) {
        (Some(year), Some(month), Some(day)) => Some(DateKey { year, month, day }),
        _ => None,
    }
}

fn component_number_of(path: &Vec<String>, back: usize) -> (r: Option<u16>)
    requires
        1 <= back <= 4,
    ensures
        r == component_number(path_view(*path), path@.len() - back),
{
    if path.len() < back {
        return None;
    }
    parse_u16(&chars_of(path[path.len() - back].as_str()))
}

/// The day of a session file from the directories it sits in, when they
/// name one.
pub fn file_date(path: &Vec<String>) -> (r: Option<DateKey>)
    ensures
        r == spec_file_date(path_view(*path)),
{
    let day = component_number_of(path, 2);
    let month = component_number_of(path, 3);
    let year = component_number_of(path, 4);
    match (year, month, day) {
        (Some(year), Some(month), Some(day)) => Some(DateKey { year, month, day }),
        _ => None,
    }
}

/// A session created on `created` may hold events of the cycle that starts
/// on `cycle_start`: it was created in the cycle, or it was last written in
/// it, or when it was last written is not known.
pub fn session_may_overlap(created: DateKey, cycle_start: DateKey, modified: Option<DateKey>) -> (r: bool)
    ensures
        r == (cycle_start.not_after(created) || match modified {
            Some(date) => cycle_start.not_after(date),
            None => true,
        }),
{
    cycle_start.is_not_after(&created) || match modified {
        Some(date) => cycle_start.is_not_after(&date),
        None => true,
    }
}

/// The text of `s` in lowercase, as `str::to_lowercase` gives it (Unicode's
/// lowercase mapping).
pub uninterp spec fn unicode_lowercase(s: Seq<char>) -> Seq<char>;

/// `str::to_lowercase`.  The contract names the result: the Unicode
/// lowercase mapping of the text, which this crate does not spell out.
#[verifier::external_body]
fn to_lowercase(s: &str) -> (r: String)
    ensures
        r@ == unicode_lowercase(s@),
{
    s.to_lowercase()
}

/// `s` with each `/` turned into `\`.
pub open spec fn backslashed(s: Seq<char>) -> Seq<char> {
    s.map_values(|c: char| if c == '/' { '\\' } else { c })
}

/// The key of a path in the state database: the path with forward slashes
/// turned into backslashes, then lowercased.
pub fn path_key(path: &str) -> (r: String)
    ensures
        r@ == unicode_lowercase(backslashed(path@)),
{
    let chars = chars_of(path);
    let mut out: Vec<char> = Vec::new();
    let mut i: usize = 0;
    while i < chars.len()
        invariant
            i <= chars.len(),
            chars@ == path@,
            out@ == backslashed(chars@.take(i as int)),
        decreases chars.len() - i,
    {
        let c = chars[i];
        out.push(if c == '/' { '\\' } else { c });
        assert(backslashed(chars@.take(i + 1)) =~= backslashed(chars@.take(i as int)).push(
            if c == '/' { '\\' } else { c },
        ));
        i = i + 1;
    }
    assert(chars@.take(i as int) =~= chars@);
    let replaced = string_from_chars(out.as_slice());
    to_lowercase(replaced.as_str())
}

/// Listing the session files of a listing of session files changes
/// nothing: the result already holds only `jsonl` files, in path order.
pub proof fn lemma_jsonl_listing_is_stable(entries: Seq<Seq<Seq<char>>>)
    ensures
        entries.filter(jsonl_path()).sort_by(path_order()).filter(jsonl_path()).sort_by(path_order())
            == entries.filter(jsonl_path()).sort_by(path_order()),
{
    lemma_orders_are_total();
    let keep = jsonl_path();
    let filtered = entries.filter(keep);
    let sorted = filtered.sort_by(path_order());
    filtered.lemma_sort_by_ensures(path_order());
    assert forall|i: int| 0 <= i < sorted.len() implies keep(#[trigger] sorted[i]) by {
        broadcast use vstd::seq_lib::group_to_multiset_ensures;
        assert(sorted.contains(sorted[i]));
        assert(sorted.to_multiset().contains(sorted[i]));
        assert(filtered.to_multiset().contains(sorted[i]));
        assert(filtered.contains(sorted[i]));
        let k = choose|k: int| 0 <= k < filtered.len() && filtered[k] == sorted[i];
        entries.lemma_filter_pred(keep, k);
    }
    lemma_filter_keeps_all(sorted, keep);
    sorted.lemma_sort_by_ensures(path_order());
    vstd::seq_lib::lemma_sorted_unique(sorted.sort_by(path_order()), sorted, path_order());
}

proof fn lemma_filter_keeps_all(s: Seq<Seq<Seq<char>>>, keep: spec_fn(Seq<Seq<char>>) -> bool)
    requires
        forall|i: int| 0 <= i < s.len() ==> keep(#[trigger] s[i]),
    ensures
        s.filter(keep) == s,
    decreases s.len(),
{
    if s.len() > 0 {
        lemma_filter_keeps_all(s.drop_last(), keep);
        s.drop_last().lemma_filter_push(s.last(), keep);
        assert(s.drop_last().push(s.last()) =~= s);
    } else {
        s.lemma_filter_len(keep);
        assert(s.filter(keep) =~= s);
    }
}

} // verus!
