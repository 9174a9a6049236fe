//! Small string-building helpers over single characters.

use vstd::prelude::*;

verus! {

/// Relies on `String::push`: appends exactly the one character at the end.
#[verifier::external_body]
pub fn push_char(s: &mut String, c: char)
    ensures
        final(s)@ == old(s)@.push(c),
{
    s.push(c)
}

/// ASCII whitespace, as far as trimming device-name strings needs it.
pub open spec fn is_space(c: char) -> bool {
    c == ' ' || c == '\t' || c == '\n' || c == '\r'
}

/// The string without its leading whitespace.
pub open spec fn trim_front(s: Seq<char>) -> Seq<char>
    decreases s.len(),
{
    if s.len() > 0 && is_space(s[0]) {
        trim_front(s.drop_first())
    } else {
        s
    }
}

/// The string without its trailing whitespace.
pub open spec fn trim_back(s: Seq<char>) -> Seq<char>
    decreases s.len(),
{
    if s.len() > 0 && is_space(s.last()) {
        trim_back(s.drop_last())
    } else {
        s
    }
}

/// The string without leading and trailing whitespace.
pub open spec fn trimmed(s: Seq<char>) -> Seq<char> {
    trim_back(trim_front(s))
}

fn is_space_char(c: char) -> (r: bool)
    ensures
        r == is_space(c),
{
    c == ' ' || c == '\t' || c == '\n' || c == '\r'
}

/// The string without leading and trailing ASCII whitespace.
pub fn trim_spaces(s: &str) -> (r: &str)
    ensures
        r@ == trimmed(s@),
{
    let m = s.unicode_len();
    let mut start: usize = 0;
    proof {
        assert(s@.skip(0) =~= s@);
    }
    while start < m && is_space_char(s.get_char(start))
        invariant
            m == s@.len(),
            start <= m,
            trim_front(s@) == trim_front(s@.skip(start as int)),
        decreases m - start,
    {
        proof {
            assert(s@.skip(start as int).drop_first() =~= s@.skip(start as int + 1));
            assert(s@.skip(start as int)[0] == s@[start as int]);
        }
        start = start + 1;
    }
    let mut end: usize = m;
    proof {
        assert(s@.skip(start as int).take(m - start as int) =~= s@.skip(start as int));
    }
    while end > start && is_space_char(s.get_char(end - 1))
        invariant
            m == s@.len(),
            start <= end <= m,
            trim_front(s@) == trim_front(s@.skip(start as int)),
            start < m ==> !is_space(s@[start as int]),
            start == m ==> end == start,
            trim_back(s@.skip(start as int)) == trim_back(
                s@.skip(start as int).take(end - start as int),
            ),
        decreases end,
    {
        proof {
            let cur = s@.skip(start as int).take(end - start as int);
            assert(cur.drop_last() =~= s@.skip(start as int).take(end - 1 - start as int));
            assert(cur.last() == s@[end - 1]);
        }
        end = end - 1;
    }
    proof {
        let fin = s@.skip(start as int).take(end - start as int);
        if start < m {
            assert(trim_front(s@.skip(start as int)) == s@.skip(start as int));
        } else {
            assert(s@.skip(start as int).len() == 0);
        }
        if end > start {
            assert(!is_space(fin.last()));
            assert(trim_back(fin) == fin);
        } else {
            assert(fin.len() == 0);
        }
        assert(fin =~= s@.subrange(start as int, end as int));
    }
    s.substring_char(start, end)
}

/// Lexicographic order on strings, by code point.
pub open spec fn lex_le(a: Seq<char>, b: Seq<char>) -> bool
    decreases a.len(),
{
    if a.len() == 0 {
        true
    } else if b.len() == 0 {
        false
    } else if a[0] != b[0] {
        a[0] < b[0]
    } else {
        lex_le(a.drop_first(), b.drop_first())
    }
}

pub proof fn lemma_lex_refl(a: Seq<char>)
    ensures
        lex_le(a, a),
    decreases a.len(),
{
    if a.len() > 0 {
        lemma_lex_refl(a.drop_first());
    }
}

pub proof fn lemma_lex_total(a: Seq<char>, b: Seq<char>)
    ensures
        lex_le(a, b) || lex_le(b, a),
    decreases a.len(),
{
    if a.len() > 0 && b.len() > 0 && a[0] == b[0] {
        lemma_lex_total(a.drop_first(), b.drop_first());
    }
}

pub proof fn lemma_lex_antisym(a: Seq<char>, b: Seq<char>)
    requires
        lex_le(a, b),
        lex_le(b, a),
    ensures
        a == b,
    decreases a.len(),
{
    if a.len() > 0 && b.len() > 0 && a[0] == b[0] {
        lemma_lex_antisym(a.drop_first(), b.drop_first());
        assert(a =~= seq![a[0]] + a.drop_first());
        assert(b =~= seq![b[0]] + b.drop_first());
    }
}

pub proof fn lemma_lex_trans(a: Seq<char>, b: Seq<char>, c: Seq<char>)
    requires
        lex_le(a, b),
        lex_le(b, c),
    ensures
        lex_le(a, c),
    decreases a.len(),
{
    if a.len() > 0 && b.len() > 0 && c.len() > 0 && a[0] == b[0] && b[0] == c[0] {
        lemma_lex_trans(a.drop_first(), b.drop_first(), c.drop_first());
    }
}

/// Whether `a` comes at or before `b` in lexicographic order.
pub fn str_le(a: &str, b: &str) -> (r: bool)
    ensures
        r == lex_le(a@, b@),
{
    let la = a.unicode_len();
    let lb = b.unicode_len();
    let mut i: usize = 0;
    proof {
        assert(a@.skip(0) =~= a@);
        assert(b@.skip(0) =~= b@);
    }
    while i < la && i < lb
        invariant
            la == a@.len(),
            lb == b@.len(),
            i <= la,
            i <= lb,
            lex_le(a@, b@) == lex_le(a@.skip(i as int), b@.skip(i as int)),
        decreases la - i,
    {
        let ca = a.get_char(i);
        let cb = b.get_char(i);
        proof {
            assert(a@.skip(i as int)[0] == a@[i as int]);
            assert(b@.skip(i as int)[0] == b@[i as int]);
            assert(a@.skip(i as int).drop_first() =~= a@.skip(i as int + 1));
            assert(b@.skip(i as int).drop_first() =~= b@.skip(i as int + 1));
        }
        if ca != cb {
            return ca < cb;
        }
        i = i + 1;
    }
    proof {
        if i >= la {
            assert(a@.skip(i as int).len() == 0);
        } else {
            assert(b@.skip(i as int).len() == 0);
            assert(a@.skip(i as int).len() > 0);
        }
    }
    i >= la
}

/// Whether some entry of the list spells the given characters.
pub open spec fn holds_view(v: Seq<String>, y: Seq<char>) -> bool {
    exists|i: int| 0 <= i < v.len() && (#[trigger] v[i])@ == y
}

/// Sorted in lexicographic order.
pub open spec fn sorted_strs(v: Seq<String>) -> bool {
    forall|i: int, j: int| 0 <= i < j < v.len() ==> lex_le((#[trigger] v[i])@, (#[trigger] v[j])@)
}

/// No two entries spell the same characters.
pub open spec fn distinct_strs(v: Seq<String>) -> bool {
    forall|i: int, j: int| 0 <= i < j < v.len() ==> (#[trigger] v[i])@ != (#[trigger] v[j])@
}

/// Whether some entry of the list spells the same characters as `x`.
pub fn holds_str(v: &Vec<String>, x: &str) -> (r: bool)
    ensures
        r == holds_view(v@, x@),
{
    let m = v.len();
    let mut i: usize = 0;
    while i < m
        invariant
            m == v@.len(),
            i <= m,
            forall|j: int| 0 <= j < i ==> (#[trigger] v@[j])@ != x@,
        decreases m - i,
    {
        let y = v[i].as_str();
        let xe = x.to_owned();
        let ye = y.to_owned();
        if xe.eq(&ye) {
            return true;
        }
        i = i + 1;
    }
    false
}

/// Insert a string that is not yet present into a sorted, duplicate-free
/// list, keeping it sorted and duplicate-free; the entries afterwards spell
/// exactly the old entries' characters plus the new one's.
pub fn insert_sorted(v: &mut Vec<String>, x: String)
    requires
        sorted_strs(old(v)@),
        distinct_strs(old(v)@),
        !holds_view(old(v)@, x@),
    ensures
        sorted_strs(final(v)@),
        distinct_strs(final(v)@),
        final(v)@.len() == old(v)@.len() + 1,
        forall|y: Seq<char>| holds_view(final(v)@, y) <==> (holds_view(old(v)@, y) || y == x@),
{
    let ghost olds = v@;
    let m = v.len();
    let mut pos: usize = 0;
    while pos < m && !str_le(x.as_str(), v[pos].as_str())
        invariant
            m == v@.len(),
            v@ == olds,
            pos <= m,
            forall|k: int| 0 <= k < pos ==> !lex_le(x@, (#[trigger] v@[k])@),
        decreases m - pos,
    {
        pos = pos + 1;
    }
    proof {
        assert forall|k: int| 0 <= k < pos implies lex_le((#[trigger] olds[k])@, x@) && olds[k]@
            != x@ by {
            lemma_lex_total(x@, olds[k]@);
            if olds[k]@ == x@ {
                lemma_lex_refl(x@);
            }
        }
        if pos < m {
            assert forall|k: int| pos <= k < m implies lex_le(x@, (#[trigger] olds[k])@) && x@
                != olds[k]@ by {
                if k > pos {
                    lemma_lex_trans(x@, olds[pos as int]@, olds[k]@);
                }
            }
        }
    }
    v.insert(pos, x);
    proof {
        let news = v@;
        assert forall|i: int, j: int| 0 <= i < j < news.len() implies lex_le(
            (#[trigger] news[i])@,
            (#[trigger] news[j])@,
        ) && news[i]@ != news[j]@ by {
            if i < pos && j < pos {
            } else if i < pos && j == pos {
            } else if i < pos && j > pos {
            } else if i == pos {
            } else {
            }
        }
        assert forall|y: Seq<char>| holds_view(news, y) <==> (holds_view(olds, y) || y
            == x@) by {
            if holds_view(news, y) {
                let i = choose|i: int| 0 <= i < news.len() && news[i]@ == y;
                if i < pos {
                    assert(olds[i]@ == y);
                } else if i == pos {
                } else {
                    assert(olds[i - 1]@ == y);
                }
            }
            if holds_view(olds, y) {
                let i = choose|i: int| 0 <= i < olds.len() && olds[i]@ == y;
                if i < pos {
                    assert(news[i]@ == y);
                } else {
                    assert(news[i + 1]@ == y);
                }
            }
            if y == x@ {
                assert(news[pos as int]@ == y);
            }
        }
    }
}

} // verus!
