//! Character-level string helpers with exact specifications.

use vstd::prelude::*;
use vstd::string::*;

verus! {

/// The ASCII character for a decimal digit.
pub open spec fn digit_char(d: int) -> char {
    seq!['0', '1', '2', '3', '4', '5', '6', '7', '8', '9'][d]
}

/// Decimal rendering of a natural number, without sign or leading zeros.
pub open spec fn decimal_text(n: nat) -> Seq<char>
    decreases n,
{
    if n < 10 {
        seq![digit_char(n as int)]
    } else {
        decimal_text(n / 10).push(digit_char((n % 10) as int))
    }
}

fn digit_str(d: u128) -> (s: &'static str)
    requires
        d < 10,
    ensures
        s@ == seq![digit_char(d as int)],
{
    proof {
        reveal_strlit("0");
        reveal_strlit("1");
        reveal_strlit("2");
        reveal_strlit("3");
        reveal_strlit("4");
        reveal_strlit("5");
        reveal_strlit("6");
        reveal_strlit("7");
        reveal_strlit("8");
        reveal_strlit("9");
    }
    match d {
        0 => "0",
        1 => "1",
        2 => "2",
        3 => "3",
        4 => "4",
        5 => "5",
        6 => "6",
        7 => "7",
        8 => "8",
        _ => "9",
    }
}

/// Renders `n` in decimal.
pub fn decimal(n: u128) -> (s: String)
    ensures
        s@ == decimal_text(n as nat),
    decreases n,
{
    if n < 10 {
        String::from_str(digit_str(n))
    } else {
        let mut s = decimal(n / 10);
        s.append(digit_str(n % 10));
        s
    }
}

} // verus!

verus! {

/// Strict lexicographic order on character sequences, comparing characters
/// by code point. For strings this is the order `Ord` gives `str` and
/// `String` (UTF-8 preserves code point order byte by byte).
pub open spec fn lex_lt(a: Seq<char>, b: Seq<char>) -> bool
    decreases a.len(),
{
    if a.len() == 0 {
        b.len() > 0
    } else if b.len() == 0 {
        false
    } else if a[0] != b[0] {
        a[0] < b[0]
    } else {
        lex_lt(a.drop_first(), b.drop_first())
    }
}

pub proof fn lemma_lex_irreflexive(a: Seq<char>)
    ensures
        !lex_lt(a, a),
    decreases a.len(),
{
    if a.len() > 0 {
        lemma_lex_irreflexive(a.drop_first());
    }
}

pub proof fn lemma_lex_trichotomy(a: Seq<char>, b: Seq<char>)
    ensures
        lex_lt(a, b) || a == b || lex_lt(b, a),
        !(lex_lt(a, b) && lex_lt(b, a)),
        !(lex_lt(a, b) && a == b),
    decreases a.len(),
{
    if a.len() > 0 && b.len() > 0 && a[0] == b[0] {
        lemma_lex_trichotomy(a.drop_first(), b.drop_first());
        if a.drop_first() == b.drop_first() {
            assert(a =~= seq![a[0]] + a.drop_first());
            assert(b =~= seq![b[0]] + b.drop_first());
        }
    }
    if a.len() == 0 && b.len() == 0 {
        assert(a =~= b);
    }
    if a == b {
        lemma_lex_irreflexive(a);
    }
}

pub proof fn lemma_lex_transitive(a: Seq<char>, b: Seq<char>, c: Seq<char>)
    requires
        lex_lt(a, b),
        lex_lt(b, c),
    ensures
        lex_lt(a, c),
    decreases a.len(),
{
    if a.len() > 0 && a[0] == b[0] && b[0] == c[0] {
        lemma_lex_transitive(a.drop_first(), b.drop_first(), c.drop_first());
    }
}

/// The outcome of comparing two strings.
#[derive(PartialEq, Eq, Structural, Clone, Copy, Debug)]
pub enum TextOrder {
    Less,
    Same,
    Greater,
}

/// Compares two strings lexicographically by code point.
pub fn compare_text(a: &str, b: &str) -> (r: TextOrder)
    ensures
        r == TextOrder::Less <==> lex_lt(a@, b@),
        r == TextOrder::Same <==> a@ == b@,
        r == TextOrder::Greater <==> lex_lt(b@, a@),
{
    proof {
        lemma_lex_trichotomy(a@, b@);
    }
    let la = a.unicode_len();
    let lb = b.unicode_len();
    let n = if la < lb { la } else { lb };
    let mut i: usize = 0;
    assert(a@.skip(0) =~= a@);
    assert(b@.skip(0) =~= b@);
    while i < n
        invariant
            la == a@.len(),
            lb == b@.len(),
            n <= la,
            n <= lb,
            i <= n,
            forall|j: int| 0 <= j < i ==> a@[j] == b@[j],
            lex_lt(a@, b@) == lex_lt(a@.skip(i as int), b@.skip(i as int)),
            lex_lt(b@, a@) == lex_lt(b@.skip(i as int), a@.skip(i as int)),
        decreases n - i,
    {
        let ca = a.get_char(i);
        let cb = b.get_char(i);
        assert(a@.skip(i as int)[0] == ca);
        assert(b@.skip(i as int)[0] == cb);
        if ca != cb {
            if ca < cb {
                return TextOrder::Less;
            } else {
                return TextOrder::Greater;
            }
        }
        assert(a@.skip(i as int).drop_first() =~= a@.skip(i + 1));
        assert(b@.skip(i as int).drop_first() =~= b@.skip(i + 1));
        i = i + 1;
    }
    assert(a@.skip(i as int).len() == la - i);
    assert(b@.skip(i as int).len() == lb - i);
    if la < lb {
        TextOrder::Less
    } else if lb < la {
        TextOrder::Greater
    } else {
        assert(a@ =~= b@);
        TextOrder::Same
    }
}

/// The code of a character with ASCII upper-case letters mapped to lower case.
pub open spec fn lower_code(c: char) -> u32 {
    if 65 <= (c as u32) && (c as u32) <= 90 {
        ((c as u32) + 32) as u32
    } else {
        c as u32
    }
}

/// The character codes of `s` after ASCII lower-casing (what
/// `to_ascii_lowercase` gives, read as codes).
pub open spec fn lower_codes(s: Seq<char>) -> Seq<u32> {
    s.map_values(|c: char| lower_code(c))
}

/// The character codes of `s`.
pub open spec fn codes(s: Seq<char>) -> Seq<u32> {
    s.map_values(|c: char| c as u32)
}

/// `hay` holds `needle` as a contiguous run.
pub open spec fn has_run(hay: Seq<u32>, needle: Seq<u32>) -> bool {
    exists|i: int| 0 <= i && i + needle.len() <= hay.len() && #[trigger] hay.subrange(i, i + needle.len()) == needle
}

/// Whether the ASCII-lower-cased `s` contains `pattern`.
pub fn contains_ignoring_ascii_case(s: &str, pattern: &str) -> (r: bool)
    ensures
        r == has_run(lower_codes(s@), codes(pattern@)),
{
    let ls = s.unicode_len();
    let lp = pattern.unicode_len();
    let ghost hay = lower_codes(s@);
    let ghost needle = codes(pattern@);
    if lp > ls {
        assert forall|i: int| 0 <= i && i + needle.len() <= hay.len() implies #[trigger] hay.subrange(i, i + needle.len()) != needle by {}
        return false;
    }
    if lp == 0 {
        assert(hay.subrange(0, 0int + needle.len()) =~= needle);
        return true;
    }
    let mut i: usize = 0;
    while i <= ls - lp
        invariant
            ls == s@.len(),
            lp == pattern@.len(),
            1 <= lp <= ls,
            i <= ls - lp + 1,
            hay == lower_codes(s@),
            needle == codes(pattern@),
            forall|k: int| 0 <= k < i ==> #[trigger] hay.subrange(k, k + needle.len()) != needle,
        decreases ls - lp + 1 - i,
    {
        let mut j: usize = 0;
        let mut matched = true;
        while j < lp
            invariant
                ls == s@.len(),
                lp == pattern@.len(),
                i + lp <= ls,
                j <= lp,
                hay == lower_codes(s@),
                needle == codes(pattern@),
                matched ==> forall|m: int| 0 <= m < j ==> hay[i + m] == needle[m],
                !matched ==> hay.subrange(i as int, i + needle.len()) != needle,
            decreases lp - j,
        {
            let c = s.get_char(i + j);
            let p = pattern.get_char(j);
            let code: u32 = c as u32;
            let lc: u32 = if 65 <= code && code <= 90 { code + 32 } else { code };
            if lc != p as u32 {
                assert(hay.subrange(i as int, i + needle.len())[j as int] != needle[j as int]);
                matched = false;
                j = lp;
            } else {
                j = j + 1;
            }
        }
        if matched {
            assert(hay.subrange(i as int, i + needle.len()) =~= needle);
            return true;
        }
        i = i + 1;
    }
    false
}

} // verus!

verus! {

/// The elements of `list` joined with `sep` between neighbours.
pub open spec fn joined(list: Seq<Seq<char>>, sep: Seq<char>) -> Seq<char>
    decreases list.len(),
{
    if list.len() == 0 {
        Seq::empty()
    } else if list.len() == 1 {
        list[0]
    } else {
        joined(list.drop_last(), sep) + sep + list.last()
    }
}

/// Joins strings with a separator.
pub fn join(list: &Vec<String>, sep: &str) -> (s: String)
    ensures
        s@ == joined(list@.map_values(|v: String| v@), sep@),
{
    let ghost items = list@.map_values(|v: String| v@);
    let mut s = String::new();
    let mut i: usize = 0;
    assert(items.take(0) =~= Seq::<Seq<char>>::empty());
    while i < list.len()
        invariant
            i <= list.len(),
            items == list@.map_values(|v: String| v@),
            s@ == joined(items.take(i as int), sep@),
        decreases list.len() - i,
    {
        assert(items.take(i + 1).drop_last() =~= items.take(i as int));
        if i > 0 {
            s.append(sep);
        }
        s.append(list[i].as_str());
        i = i + 1;
    }
    assert(items.take(list.len() as int) =~= items);
    s
}

} // verus!

verus! {

/// `part` occurs in `s` starting at position `o`.
pub open spec fn occurs_at(s: Seq<char>, part: Seq<char>, o: int) -> bool {
    0 <= o && o + part.len() <= s.len() && s.subrange(o, o + part.len()) == part
}

/// `part` occurs in `s` as a contiguous run.
pub open spec fn occurs_in(s: Seq<char>, part: Seq<char>) -> bool {
    exists|o: int| #[trigger] occurs_at(s, part, o)
}

/// Every element of a joined list occurs in the result as a contiguous
/// run, and the result starts with the first element and ends with the
/// last.
pub proof fn lemma_joined_holds_every_element(list: Seq<Seq<char>>, sep: Seq<char>)
    ensures
        forall|k: int| 0 <= k < list.len() ==> occurs_in(joined(list, sep), #[trigger] list[k]),
        list.len() > 0 ==> occurs_at(joined(list, sep), list[0], 0),
        list.len() > 0 ==> occurs_at(
            joined(list, sep),
            list.last(),
            joined(list, sep).len() - list.last().len(),
        ),
    decreases list.len(),
{
    let j = joined(list, sep);
    if list.len() == 1 {
        assert(j == list[0]);
        assert(j.subrange(0, list[0].len() as int) =~= list[0]);
        assert(occurs_at(j, list[0], 0));
        assert(j.subrange(j.len() - list.last().len(), j.len() as int) =~= list.last());
    } else if list.len() > 1 {
        let front = list.drop_last();
        lemma_joined_holds_every_element(front, sep);
        let jf = joined(front, sep);
        assert(j == jf + sep + list.last());
        assert(front[0] == list[0]);
        assert(occurs_at(jf, front[0], 0));
        assert(j.subrange(0, list[0].len() as int) =~= jf.subrange(0, list[0].len() as int));
        assert(j.subrange(j.len() - list.last().len(), j.len() as int) =~= list.last());
        assert forall|k: int| 0 <= k < list.len() implies occurs_in(j, #[trigger] list[k]) by {
            if k < front.len() {
                assert(front[k] == list[k]);
                assert(occurs_in(jf, front[k]));
                let o = choose|o: int| #[trigger] occurs_at(jf, front[k], o);
                assert(j.subrange(o, o + list[k].len()) =~= jf.subrange(o, o + front[k].len()));
                assert(occurs_at(j, list[k], o));
            } else {
                let o = j.len() - list.last().len();
                assert(j.subrange(o, o + list[k].len()) =~= list.last());
                assert(occurs_at(j, list[k], o));
            }
        }
    }
}

} // verus!
