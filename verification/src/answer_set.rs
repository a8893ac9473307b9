//! Answer sets: the record values a resolver returned, kept in ascending
//! order without repeats so that two answers can be compared directly.

use vstd::prelude::*;
use crate::text::{compare_text, lemma_lex_transitive, lemma_lex_trichotomy, lex_lt, TextOrder};

verus! {

/// Every element is strictly smaller than every later one.
pub open spec fn strictly_ascending(s: Seq<Seq<char>>) -> bool {
    forall|i: int, j: int| 0 <= i < j < s.len() ==> lex_lt(#[trigger] s[i], #[trigger] s[j])
}

/// The character sequences held by a vector of strings.
pub open spec fn texts(v: Seq<String>) -> Seq<Seq<char>> {
    v.map_values(|s: String| s@)
}

/// The ascending, repeat-free arrangement of the distinct elements of
/// `items` (the result of sorting them and dropping repeats).
pub open spec fn ascending_set(items: Seq<Seq<char>>) -> Seq<Seq<char>> {
    choose|v: Seq<Seq<char>>| strictly_ascending(v) && v.to_set() == items.to_set()
}

/// The first element of an ascending sequence is below all the others.
proof fn lemma_ascending_head(s: Seq<Seq<char>>, x: Seq<char>)
    requires
        strictly_ascending(s),
        s.len() > 0,
        s.drop_first().contains(x),
    ensures
        lex_lt(s[0], x),
{
    let k = choose|k: int| 0 <= k < s.drop_first().len() && s.drop_first()[k] == x;
    assert(s[k + 1] == x);
}

/// Two ascending sequences with the same members are equal.
pub proof fn lemma_ascending_unique(s: Seq<Seq<char>>, t: Seq<Seq<char>>)
    requires
        strictly_ascending(s),
        strictly_ascending(t),
        s.to_set() == t.to_set(),
    ensures
        s == t,
    decreases s.len(),
{
    if s.len() == 0 {
        if t.len() > 0 {
            assert(t.to_set().contains(t[0]));
            assert(s.to_set().contains(t[0]));
        }
        assert(s =~= t);
    } else {
        assert(s.to_set().contains(s[0]));
        assert(t.to_set().contains(s[0]));
        assert(t.len() > 0);
        assert(s.to_set().contains(t[0]));
        // s[0] == t[0]: each is the least element of the common set.
        if s[0] != t[0] {
            let j = choose|j: int| 0 <= j < t.len() && t[j] == s[0];
            let k = choose|k: int| 0 <= k < s.len() && s[k] == t[0];
            assert(j > 0);
            assert(k > 0);
            assert(lex_lt(t[0], t[j]));
            assert(lex_lt(s[0], s[k]));
            lemma_lex_trichotomy(s[0], t[0]);
        }
        let s1 = s.drop_first();
        let t1 = t.drop_first();
        assert forall|x: Seq<char>| s1.to_set().contains(x) <==> t1.to_set().contains(x) by {
            if s1.contains(x) {
                lemma_ascending_head(s, x);
                lemma_lex_trichotomy(s[0], x);
                let k = choose|k: int| 0 <= k < s1.len() && s1[k] == x;
                assert(s.contains(x)) by { assert(s[k + 1] == x); }
                assert(t.to_set().contains(x));
                let j = choose|j: int| 0 <= j < t.len() && t[j] == x;
                assert(j != 0);
                assert(t1[j - 1] == x);
            }
            if t1.contains(x) {
                lemma_ascending_head(t, x);
                lemma_lex_trichotomy(t[0], x);
                let k = choose|k: int| 0 <= k < t1.len() && t1[k] == x;
                assert(t.contains(x)) by { assert(t[k + 1] == x); }
                assert(s.to_set().contains(x));
                let j = choose|j: int| 0 <= j < s.len() && s[j] == x;
                assert(j != 0);
                assert(s1[j - 1] == x);
            }
        }
        assert(s1.to_set() =~= t1.to_set());
        assert(strictly_ascending(s1)) by {
            assert forall|i: int, j: int| 0 <= i < j < s1.len() implies lex_lt(#[trigger] s1[i], #[trigger] s1[j]) by {
                assert(s1[i] == s[i + 1] && s1[j] == s[j + 1]);
            }
        }
        assert(strictly_ascending(t1)) by {
            assert forall|i: int, j: int| 0 <= i < j < t1.len() implies lex_lt(#[trigger] t1[i], #[trigger] t1[j]) by {
                assert(t1[i] == t[i + 1] && t1[j] == t[j + 1]);
            }
        }
        lemma_ascending_unique(s1, t1);
        assert(s =~= seq![s[0]] + s1);
        assert(t =~= seq![t[0]] + t1);
    }
}

/// An ascending sequence is the ascending arrangement of its own members,
/// and of any sequence with the same members.
pub proof fn lemma_is_ascending_set(v: Seq<Seq<char>>, items: Seq<Seq<char>>)
    requires
        strictly_ascending(v),
        v.to_set() == items.to_set(),
    ensures
        ascending_set(items) == v,
{
    let w = ascending_set(items);
    assert(strictly_ascending(w) && w.to_set() == items.to_set());
    lemma_ascending_unique(v, w);
}

/// Appending an element adds it to the members.
pub proof fn lemma_push_members(s: Seq<Seq<char>>, x: Seq<char>)
    ensures
        s.push(x).to_set() == s.to_set().insert(x),
{
    assert forall|y: Seq<char>| s.push(x).contains(y) <==> s.to_set().insert(x).contains(y) by {
        if s.push(x).contains(y) {
            let j = choose|j: int| 0 <= j < s.push(x).len() && s.push(x)[j] == y;
            if j < s.len() {
                assert(s[j] == y);
            }
        }
        if s.contains(y) {
            let j = choose|j: int| 0 <= j < s.len() && s[j] == y;
            assert(s.push(x)[j] == y);
        }
        if y == x {
            assert(s.push(x)[s.len() as int] == y);
        }
    }
    assert(s.push(x).to_set() =~= s.to_set().insert(x));
}

/// Adds `item` to an ascending answer set, keeping it ascending and
/// free of repeats.
pub fn insert_ascending(values: &mut Vec<String>, item: String)
    requires
        strictly_ascending(texts(old(values)@)),
    ensures
        strictly_ascending(texts(final(values)@)),
        texts(final(values)@).to_set() == texts(old(values)@).to_set().insert(item@),
{
    let ghost old_t = texts(values@);
    let n = values.len();
    let mut k: usize = 0;
    while k < n
        invariant
            n == values.len(),
            values@ == old(values)@,
            old_t == texts(values@),
            k <= n,
            strictly_ascending(old_t),
            forall|i: int| 0 <= i < k ==> lex_lt(#[trigger] old_t[i], item@),
        ensures
            k <= n,
            values@ == old(values)@,
            forall|i: int| 0 <= i < k ==> lex_lt(#[trigger] old_t[i], item@),
            k < n ==> lex_lt(item@, old_t[k as int]),
        decreases n - k,
    {
        match compare_text(values[k].as_str(), item.as_str()) {
            TextOrder::Less => {
                k = k + 1;
            },
            TextOrder::Same => {
                assert(old_t[k as int] == item@);
                assert(old_t.to_set().insert(item@) =~= old_t.to_set());
                return;
            },
            TextOrder::Greater => {
                break;
            },
        }
    }
    // Everything from position k on is above `item`.
    assert(forall|i: int| k <= i < n ==> lex_lt(item@, #[trigger] old_t[i])) by {
        if k < n {
            assert(lex_lt(item@, old_t[k as int]));
            assert forall|i: int| k <= i < n implies lex_lt(item@, #[trigger] old_t[i]) by {
                if i > k {
                    lemma_lex_transitive(item@, old_t[k as int], old_t[i]);
                }
            }
        }
    }
    values.insert(k, item);
    let ghost new_t = texts(values@);
    assert(new_t =~= old_t.insert(k as int, item@));
    assert forall|i: int, j: int| 0 <= i < j < new_t.len() implies lex_lt(#[trigger] new_t[i], #[trigger] new_t[j]) by {
        if j < k {
        } else if j == k {
        } else if i < k {
            assert(new_t[j] == old_t[j - 1]);
            if j - 1 > i {
            } else {
            }
            lemma_lex_transitive(new_t[i], item@, new_t[j]);
        } else if i == k {
        } else {
            assert(new_t[i] == old_t[i - 1] && new_t[j] == old_t[j - 1]);
        }
    }
    assert forall|x: Seq<char>| new_t.to_set().contains(x) <==> old_t.to_set().insert(item@).contains(x) by {
        if new_t.contains(x) {
            let j = choose|j: int| 0 <= j < new_t.len() && new_t[j] == x;
            if j < k {
                assert(old_t[j] == x);
            } else if j > k {
                assert(old_t[j - 1] == x);
            }
        }
        if old_t.contains(x) {
            let j = choose|j: int| 0 <= j < old_t.len() && old_t[j] == x;
            if j < k {
                assert(new_t[j] == x);
            } else {
                assert(new_t[j + 1] == x);
            }
        }
        if x == item@ {
            assert(new_t[k as int] == x);
        }
    }
    assert(new_t.to_set() =~= old_t.to_set().insert(item@));
}

} // verus!

verus! {

/// `x` placed into the ascending sequence `v` at its position (nothing
/// changes when `v` already holds it).
spec fn placed(v: Seq<Seq<char>>, x: Seq<char>) -> Seq<Seq<char>>
    decreases v.len(),
{
    if v.len() == 0 {
        seq![x]
    } else if lex_lt(x, v[0]) {
        seq![x] + v
    } else if x == v[0] {
        v
    } else {
        seq![v[0]] + placed(v.drop_first(), x)
    }
}

proof fn lemma_cons_ascending(h: Seq<char>, t: Seq<Seq<char>>)
    requires
        strictly_ascending(t),
        forall|i: int| 0 <= i < t.len() ==> lex_lt(h, #[trigger] t[i]),
    ensures
        strictly_ascending(seq![h] + t),
{
    let s = seq![h] + t;
    assert forall|i: int, j: int| 0 <= i < j < s.len() implies lex_lt(#[trigger] s[i], #[trigger] s[j]) by {
        if i == 0 {
            assert(s[j] == t[j - 1]);
        } else {
            assert(s[i] == t[i - 1] && s[j] == t[j - 1]);
        }
    }
}

proof fn lemma_placed(v: Seq<Seq<char>>, x: Seq<char>)
    requires
        strictly_ascending(v),
    ensures
        strictly_ascending(placed(v, x)),
        placed(v, x).to_set() == v.to_set().insert(x),
    decreases v.len(),
{
    let p = placed(v, x);
    if v.len() == 0 {
        assert(p.to_set() =~= v.to_set().insert(x)) by {
            assert(p[0] == x);
        }
    } else if lex_lt(x, v[0]) {
        assert forall|i: int| 0 <= i < v.len() implies lex_lt(x, #[trigger] v[i]) by {
            if i > 0 {
                lemma_lex_transitive(x, v[0], v[i]);
            }
        }
        lemma_cons_ascending(x, v);
        assert forall|y: Seq<char>| p.contains(y) <==> v.to_set().insert(x).contains(y) by {
            if p.contains(y) {
                let j = choose|j: int| 0 <= j < p.len() && p[j] == y;
                if j > 0 {
                    assert(v[j - 1] == y);
                }
            }
            if v.contains(y) {
                let j = choose|j: int| 0 <= j < v.len() && v[j] == y;
                assert(p[j + 1] == y);
            }
            if y == x {
                assert(p[0] == y);
            }
        }
        assert(p.to_set() =~= v.to_set().insert(x));
    } else if x == v[0] {
        assert(v.to_set().contains(x));
        assert(p.to_set() =~= v.to_set().insert(x));
    } else {
        let rest = v.drop_first();
        assert(strictly_ascending(rest)) by {
            assert forall|i: int, j: int| 0 <= i < j < rest.len() implies lex_lt(#[trigger] rest[i], #[trigger] rest[j]) by {
                assert(rest[i] == v[i + 1] && rest[j] == v[j + 1]);
            }
        }
        lemma_placed(rest, x);
        lemma_lex_trichotomy(x, v[0]);
        let q = placed(rest, x);
        assert forall|i: int| 0 <= i < q.len() implies lex_lt(v[0], #[trigger] q[i]) by {
            assert(q.to_set().contains(q[i]));
            assert(rest.to_set().insert(x).contains(q[i]));
            if q[i] != x {
                let j = choose|j: int| 0 <= j < rest.len() && rest[j] == q[i];
                assert(v[j + 1] == q[i]);
            }
        }
        lemma_cons_ascending(v[0], q);
        assert forall|y: Seq<char>| p.contains(y) <==> v.to_set().insert(x).contains(y) by {
            if p.contains(y) {
                let j = choose|j: int| 0 <= j < p.len() && p[j] == y;
                if j > 0 {
                    assert(q[j - 1] == y);
                    assert(q.to_set().contains(y));
                    if y != x {
                        let k = choose|k: int| 0 <= k < rest.len() && rest[k] == y;
                        assert(v[k + 1] == y);
                    }
                } else {
                    assert(v[0] == y);
                }
            }
            if v.contains(y) {
                let j = choose|j: int| 0 <= j < v.len() && v[j] == y;
                if j == 0 {
                    assert(p[0] == y);
                } else {
                    assert(rest[j - 1] == y);
                    assert(q.to_set().contains(y));
                    let k = choose|k: int| 0 <= k < q.len() && q[k] == y;
                    assert(p[k + 1] == y);
                }
            }
            if y == x {
                assert(q.to_set().contains(y));
                let k = choose|k: int| 0 <= k < q.len() && q[k] == y;
                assert(p[k + 1] == y);
            }
        }
        assert(p.to_set() =~= v.to_set().insert(x));
    }
}

/// The members of `items`, placed one by one into an ascending sequence.
spec fn placed_all(items: Seq<Seq<char>>) -> Seq<Seq<char>>
    decreases items.len(),
{
    if items.len() == 0 {
        Seq::empty()
    } else {
        placed(placed_all(items.drop_last()), items.last())
    }
}

proof fn lemma_placed_all(items: Seq<Seq<char>>)
    ensures
        strictly_ascending(placed_all(items)),
        placed_all(items).to_set() == items.to_set(),
    decreases items.len(),
{
    if items.len() == 0 {
        assert(placed_all(items).to_set() =~= items.to_set());
    } else {
        lemma_placed_all(items.drop_last());
        lemma_placed(placed_all(items.drop_last()), items.last());
        lemma_push_members(items.drop_last(), items.last());
        assert(items.drop_last().push(items.last()) =~= items);
    }
}

/// Every sequence has an ascending arrangement of its members: it is
/// ascending, holds exactly the members of `items`, and is empty only when
/// `items` is.
pub proof fn lemma_ascending_set(items: Seq<Seq<char>>)
    ensures
        strictly_ascending(ascending_set(items)),
        ascending_set(items).to_set() == items.to_set(),
        ascending_set(items).len() == 0 <==> items.len() == 0,
{
    lemma_placed_all(items);
    lemma_is_ascending_set(placed_all(items), items);
    let v = ascending_set(items);
    if items.len() > 0 {
        assert(items.to_set().contains(items[0]));
        assert(v.to_set().contains(items[0]));
    }
    if v.len() > 0 {
        assert(v.to_set().contains(v[0]));
        assert(items.to_set().contains(v[0]));
    }
}

/// Sequences with the same members have the same ascending arrangement:
/// order and repetition do not matter.
pub proof fn lemma_ascending_set_of_members(a: Seq<Seq<char>>, b: Seq<Seq<char>>)
    requires
        a.to_set() == b.to_set(),
    ensures
        ascending_set(a) == ascending_set(b),
{
    lemma_ascending_set(a);
    lemma_is_ascending_set(ascending_set(a), b);
}

} // verus!
