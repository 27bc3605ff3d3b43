//! The order of texts and of paths: texts by their characters' code points,
//! paths by their components, each comparison lexicographic.  For UTF-8
//! text, code point order is the byte order that `str` and `Path` compare by.

use vstd::prelude::*;
use vstd::relations::{sorted_by, total_ordering};
use crate::text::chars_of;

verus! {

/// A three-way comparison: -1, 0 or 1, zero exactly for equal values,
/// antisymmetric and transitive.
pub open spec fn is_comparison<A>(order: spec_fn(A, A) -> int) -> bool {
    &&& forall|x: A, y: A| #[trigger] order(x, y) == 0 <==> x == y
    &&& forall|x: A, y: A| #[trigger] order(x, y) == -order(y, x)
    &&& forall|x: A, y: A| -1 <= #[trigger] order(x, y) <= 1
    &&& forall|x: A, y: A, z: A| #[trigger] order(x, y) <= 0 && #[trigger] order(y, z) <= 0 ==> order(x, z) <= 0
}

/// The lexicographic comparison of two sequences under `order`: the first
/// differing element decides, and a proper prefix comes first.
pub open spec fn lex_compare<A>(a: Seq<A>, b: Seq<A>, order: spec_fn(A, A) -> int) -> int
    decreases a.len(),
{
    if a.len() == 0 {
        if b.len() == 0 {
            0
        } else {
            -1
        }
    } else if b.len() == 0 {
        1
    } else if order(a[0], b[0]) != 0 {
        order(a[0], b[0])
    } else {
        lex_compare(a.drop_first(), b.drop_first(), order)
    }
}

proof fn lemma_lex_equal<A>(a: Seq<A>, b: Seq<A>, order: spec_fn(A, A) -> int)
    requires
        is_comparison(order),
    ensures
        lex_compare(a, b, order) == 0 <==> a == b,
        -1 <= lex_compare(a, b, order) <= 1,
        lex_compare(a, b, order) == -lex_compare(b, a, order),
    decreases a.len(),
{
    if a.len() > 0 && b.len() > 0 {
        lemma_lex_equal(a.drop_first(), b.drop_first(), order);
        assert(order(a[0], b[0]) == -order(b[0], a[0]));
        if a[0] == b[0] && a.drop_first() == b.drop_first() {
            assert forall|i: int| 0 <= i < a.len() implies a[i] == b[i] by {
                if i > 0 {
                    assert(a[i] == a.drop_first()[i - 1]);
                    assert(b[i] == b.drop_first()[i - 1]);
                }
            }
            assert(a =~= b);
        }
        if a == b {
            assert(a.drop_first() == b.drop_first());
        }
    } else if a.len() == 0 && b.len() == 0 {
        assert(a =~= b);
    }
}

proof fn lemma_lex_transitive<A>(a: Seq<A>, b: Seq<A>, c: Seq<A>, order: spec_fn(A, A) -> int)
    requires
        is_comparison(order),
        lex_compare(a, b, order) <= 0,
        lex_compare(b, c, order) <= 0,
    ensures
        lex_compare(a, c, order) <= 0,
    decreases a.len(),
{
    if a.len() > 0 && b.len() > 0 && c.len() > 0 {
        let x = a[0];
        let y = b[0];
        let z = c[0];
        assert(order(x, y) <= 0);
        assert(order(y, z) <= 0);
        assert(order(x, z) <= 0);
        if order(x, y) == 0 && order(y, z) == 0 {
            lemma_lex_transitive(a.drop_first(), b.drop_first(), c.drop_first(), order);
        } else if order(x, z) == 0 {
            assert(x == z);
            assert(order(y, x) == -order(x, y));
        }
    }
}

/// The lexicographic order under `order` is a total order.
pub proof fn lemma_lex_total<A>(order: spec_fn(A, A) -> int)
    requires
        is_comparison(order),
    ensures
        is_comparison(|a: Seq<A>, b: Seq<A>| lex_compare(a, b, order)),
        total_ordering(|a: Seq<A>, b: Seq<A>| lex_compare(a, b, order) <= 0),
{
    let lex = |a: Seq<A>, b: Seq<A>| lex_compare(a, b, order);
    assert forall|a: Seq<A>, b: Seq<A>| #[trigger] lex(a, b) == 0 <==> a == b by {
        lemma_lex_equal(a, b, order);
    }
    assert forall|a: Seq<A>, b: Seq<A>| #[trigger] lex(a, b) == -lex(b, a) by {
        lemma_lex_equal(a, b, order);
    }
    assert forall|a: Seq<A>, b: Seq<A>| -1 <= #[trigger] lex(a, b) <= 1 by {
        lemma_lex_equal(a, b, order);
    }
    assert forall|a: Seq<A>, b: Seq<A>, c: Seq<A>| #[trigger] lex(a, b) <= 0 && #[trigger] lex(b, c)
        <= 0 implies lex(a, c) <= 0 by {
        lemma_lex_transitive(a, b, c, order);
    }
    let le = |a: Seq<A>, b: Seq<A>| lex_compare(a, b, order) <= 0;
    assert forall|a: Seq<A>| #[trigger] le(a, a) by {
        lemma_lex_equal(a, a, order);
    }
    assert forall|a: Seq<A>, b: Seq<A>| #[trigger] le(a, b) && #[trigger] le(b, a) implies a == b by {
        lemma_lex_equal(a, b, order);
    }
    assert forall|a: Seq<A>, b: Seq<A>, c: Seq<A>| #[trigger] le(a, b) && #[trigger] le(b, c) implies le(
        a,
        c,
    ) by {
        lemma_lex_transitive(a, b, c, order);
    }
    assert forall|a: Seq<A>, b: Seq<A>| #[trigger] le(a, b) || #[trigger] le(b, a) by {
        lemma_lex_equal(a, b, order);
    }
}

/// Characters by code point.
pub open spec fn char_compare(a: char, b: char) -> int {
    if (a as int) < (b as int) {
        -1
    } else if (a as int) == (b as int) {
        0
    } else {
        1
    }
}

/// Texts, character by character.
pub open spec fn text_compare(a: Seq<char>, b: Seq<char>) -> int {
    lex_compare(a, b, |x: char, y: char| char_compare(x, y))
}

/// Paths, component by component.
pub open spec fn path_compare(a: Seq<Seq<char>>, b: Seq<Seq<char>>) -> int {
    lex_compare(a, b, |x: Seq<char>, y: Seq<char>| text_compare(x, y))
}

/// `a` comes no later than `b` among texts.
pub open spec fn text_le(a: Seq<char>, b: Seq<char>) -> bool {
    text_compare(a, b) <= 0
}

/// `a` comes no later than `b` among paths.
pub open spec fn path_le(a: Seq<Seq<char>>, b: Seq<Seq<char>>) -> bool {
    path_compare(a, b) <= 0
}

/// The order of texts, as a relation.
pub open spec fn text_order() -> spec_fn(Seq<char>, Seq<char>) -> bool {
    |a: Seq<char>, b: Seq<char>| text_le(a, b)
}

/// The order of paths, as a relation.
pub open spec fn path_order() -> spec_fn(Seq<Seq<char>>, Seq<Seq<char>>) -> bool {
    |a: Seq<Seq<char>>, b: Seq<Seq<char>>| path_le(a, b)
}

/// The order of texts and the order of paths are total orders.
pub proof fn lemma_orders_are_total()
    ensures
        is_comparison(|a: Seq<char>, b: Seq<char>| text_compare(a, b)),
        is_comparison(|a: Seq<Seq<char>>, b: Seq<Seq<char>>| path_compare(a, b)),
        total_ordering(text_order()),
        total_ordering(path_order()),
{
    let cc = |x: char, y: char| char_compare(x, y);
    assert forall|x: char, y: char| #[trigger] cc(x, y) == 0 <==> x == y by {
        if (x as int) == (y as int) {
            assert(x == y);
        }
    }
    assert(is_comparison(cc));
    lemma_lex_total(cc);
    let tc = |a: Seq<char>, b: Seq<char>| text_compare(a, b);
    assert(tc =~= (|a: Seq<char>, b: Seq<char>| lex_compare(a, b, cc)));
    assert(is_comparison(tc));
    assert((|a: Seq<char>, b: Seq<char>| text_le(a, b)) =~= (|a: Seq<char>, b: Seq<char>| lex_compare(
        a,
        b,
        cc,
    ) <= 0));
    lemma_lex_total(tc);
    assert(path_order() =~= (|a: Seq<Seq<char>>, b: Seq<Seq<char>>| lex_compare(a, b, tc) <= 0));
    assert((|a: Seq<Seq<char>>, b: Seq<Seq<char>>| path_compare(a, b)) =~= (|
        a: Seq<Seq<char>>,
        b: Seq<Seq<char>>,
    | lex_compare(a, b, tc)));
    assert(text_order() =~= (|a: Seq<char>, b: Seq<char>| text_le(a, b)));
}

proof fn lemma_lex_step<A>(a: Seq<A>, b: Seq<A>, order: spec_fn(A, A) -> int, i: int)
    requires
        0 <= i < a.len(),
        i < b.len(),
        order(a[i], b[i]) == 0,
    ensures
        lex_compare(a.skip(i), b.skip(i), order) == lex_compare(a.skip(i + 1), b.skip(i + 1), order),
{
    assert(a.skip(i).drop_first() =~= a.skip(i + 1));
    assert(b.skip(i).drop_first() =~= b.skip(i + 1));
}

/// Compares two texts given as characters: -1, 0 or 1.
pub fn compare_texts(a: &Vec<char>, b: &Vec<char>) -> (r: i8)
    ensures
        r == text_compare(a@, b@),
{
    let mut i: usize = 0;
    assert(a@.skip(0) =~= a@ && b@.skip(0) =~= b@);
    while i < a.len() && i < b.len()
        invariant
            i <= a.len(),
            i <= b.len(),
            text_compare(a@, b@) == lex_compare(a@.skip(i as int), b@.skip(i as int), |x: char, y: char| char_compare(x, y)),
        decreases a.len() - i,
    {
        let x = a[i];
        let y = b[i];
        assert(a@.skip(i as int)[0] == x && b@.skip(i as int)[0] == y);
        if x < y {
            assert((x as int) < (y as int));
            return -1;
        }
        if x > y {
            assert((x as int) > (y as int));
            return 1;
        }
        proof {
            lemma_lex_step(a@, b@, |x: char, y: char| char_compare(x, y), i as int);
        }
        i = i + 1;
    }
    if a.len() == b.len() {
        0
    } else if a.len() < b.len() {
        -1
    } else {
        1
    }
}

/// The characters of each component.
pub open spec fn components_view(p: Seq<Vec<char>>) -> Seq<Seq<char>> {
    p.map_values(|c: Vec<char>| c@)
}

/// Compares two paths given as the characters of their components.
pub fn compare_paths(a: &Vec<Vec<char>>, b: &Vec<Vec<char>>) -> (r: i8)
    ensures
        r == path_compare(components_view(a@), components_view(b@)),
{
    let ghost av = components_view(a@);
    let ghost bv = components_view(b@);
    let mut i: usize = 0;
    assert(av.skip(0) =~= av && bv.skip(0) =~= bv);
    while i < a.len() && i < b.len()
        invariant
            i <= a.len(),
            i <= b.len(),
            av == components_view(a@),
            bv == components_view(b@),
            path_compare(av, bv) == lex_compare(av.skip(i as int), bv.skip(i as int), |x: Seq<char>, y: Seq<char>| text_compare(x, y)),
        decreases a.len() - i,
    {
        let c = compare_texts(&a[i], &b[i]);
        if c != 0 {
            assert(av.skip(i as int)[0] == a@[i as int]@);
            assert(bv.skip(i as int)[0] == b@[i as int]@);
            return c;
        }
        proof {
            lemma_lex_step(av, bv, |x: Seq<char>, y: Seq<char>| text_compare(x, y), i as int);
        }
        i = i + 1;
    }
    if a.len() == b.len() {
        0
    } else if a.len() < b.len() {
        -1
    } else {
        1
    }
}

/// Inserting `v` at `k` keeps a sorted sequence sorted when everything
/// before `k` comes no later than `v` and `v` comes no later than what is
/// at `k`.
pub proof fn lemma_insert_sorted<A>(s: Seq<A>, k: int, v: A, le: spec_fn(A, A) -> bool)
    requires
        total_ordering(le),
        sorted_by(s, le),
        0 <= k <= s.len(),
        forall|j: int| 0 <= j < k ==> #[trigger] le(s[j], v),
        k < s.len() ==> le(v, s[k]),
    ensures
        sorted_by(s.insert(k, v), le),
{
    let t = s.insert(k, v);
    assert forall|p: int, q: int| 0 <= p < q < t.len() implies #[trigger] le(t[p], t[q]) by {
        if q < k {
            assert(t[p] == s[p] && t[q] == s[q]);
        } else if q == k {
            assert(t[p] == s[p] && t[q] == v);
        } else if p < k {
            assert(t[p] == s[p] && t[q] == s[q - 1]);
        } else if p == k {
            assert(t[p] == v && t[q] == s[q - 1]);
            if q - 1 > k {
                assert(le(s[k], s[q - 1]));
            }
        } else {
            assert(t[p] == s[p - 1] && t[q] == s[q - 1]);
        }
    }
}

/// The texts of some strings.
pub open spec fn string_views(v: Seq<String>) -> Seq<Seq<char>> {
    v.map_values(|s: String| s@)
}

/// The strings in text order (equal texts keep their order).
pub fn sort_texts(names: &Vec<String>) -> (r: Vec<String>)
    ensures
        string_views(r@) == string_views(names@).sort_by(text_order()),
{
    proof {
        lemma_orders_are_total();
    }
    let mut out: Vec<String> = Vec::new();
    let mut keys: Vec<Vec<char>> = Vec::new();
    let mut i: usize = 0;
    assert(string_views(out@) =~= string_views(names@.take(0)));
    while i < names.len()
        invariant
            i <= names.len(),
            keys.len() == out.len(),
            forall|j: int| 0 <= j < out.len() ==> (#[trigger] keys@[j])@ == out@[j]@,
            sorted_by(string_views(out@), text_order()),
            string_views(out@).to_multiset() == string_views(names@.take(i as int)).to_multiset(),
            total_ordering(text_order()),
            is_comparison(|a: Seq<char>, b: Seq<char>| text_compare(a, b)),
        decreases names.len() - i,
    {
        let name = names[i].clone();
        let key = chars_of(name.as_str());
        let ghost sv = string_views(out@);
        let mut k: usize = 0;
        while k < out.len() && compare_texts(&keys[k], &key) <= 0
            invariant
                k <= out.len(),
                keys.len() == out.len(),
                forall|j: int| 0 <= j < out.len() ==> (#[trigger] keys@[j])@ == out@[j]@,
                sv == string_views(out@),
                key@ == name@,
                forall|j: int| 0 <= j < k ==> #[trigger] text_le(sv[j], key@),
            decreases out.len() - k,
        {
            assert(sv[k as int] == keys@[k as int]@);
            k = k + 1;
        }
        proof {
            assert forall|j: int| 0 <= j < k implies #[trigger] (text_order())(sv[j], name@) by {
                assert(text_le(sv[j], key@));
            }
            if k < out.len() {
                assert(sv[k as int] == keys@[k as int]@);
                assert(text_compare(sv[k as int], name@) > 0);
                assert(text_compare(name@, sv[k as int]) == -text_compare(sv[k as int], name@)) by {
                    let c = |a: Seq<char>, b: Seq<char>| text_compare(a, b);
                    assert(c(name@, sv[k as int]) == -c(sv[k as int], name@));
                }
                assert((text_order())(name@, sv[k as int]));
            }
            lemma_insert_sorted(sv, k as int, name@, text_order());
            vstd::seq_lib::to_multiset_insert(sv, k as int, name@);
            assert(names@.take(i + 1) =~= names@.take(i as int).push(names@[i as int]));
            assert(string_views(names@.take(i + 1)) =~= string_views(names@.take(i as int)).push(name@));
            vstd::seq_lib::to_multiset_build(string_views(names@.take(i as int)), name@);
        }
        out.insert(k, name);
        keys.insert(k, key);
        proof {
            assert(string_views(out@) =~= sv.insert(k as int, name@));
            assert forall|j: int| 0 <= j < out.len() implies (#[trigger] keys@[j])@ == out@[j]@ by {
                if j < k {
                } else if j > k {
                }
            }
        }
        i = i + 1;
    }
    proof {
        assert(names@.take(i as int) =~= names@);
        string_views(names@).lemma_sort_by_ensures(text_order());
        vstd::seq_lib::lemma_sorted_unique(
            string_views(out@),
            string_views(names@).sort_by(text_order()),
            text_order(),
        );
    }
    out
}

} // verus!
