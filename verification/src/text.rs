//! Character-level helpers on strings, with their contracts.

use vstd::prelude::*;

verus! {

/// Appends `c` to `s` (`String::push`).
#[verifier::external_body]
pub(crate) fn push_char(s: &mut String, c: char)
    ensures
        final(s)@ == old(s)@.push(c),
{
    s.push(c);
}

/// Removes the last character of `s` (`String::pop`): it returns `None` and
/// leaves `s` unchanged when `s` is empty.
#[verifier::external_body]
pub(crate) fn pop_char(s: &mut String) -> (r: Option<char>)
    ensures
        old(s)@.len() == 0 ==> r is None && final(s)@ == old(s)@,
        old(s)@.len() > 0 ==> r == Some(old(s)@.last()) && final(s)@ == old(s)@.drop_last(),
{
    s.pop()
}

/// Appends `t` to `s`.
pub fn push_str(s: &mut String, t: &str)
    ensures
        final(s)@ == old(s)@ + t@,
{
    s.append(t);
}

/// The characters of `s`, in order.
pub fn chars_of(s: &str) -> (r: Vec<char>)
    ensures
        r@ == s@,
{
    let mut r: Vec<char> = Vec::new();
    for c in it: s.chars()
        invariant
            r@ == it.seq().take(it.index() as int),
    {
        r.push(c);
    }
    r
}

} // verus!

verus! {

/// Whether `s` ends with `suffix`.
pub open spec fn has_suffix(s: Seq<char>, suffix: Seq<char>) -> bool {
    suffix.len() <= s.len() && s.subrange(s.len() - suffix.len(), s.len() as int) == suffix
}

/// The part of `s` after its last `/`: all of `s` when it holds none.
pub open spec fn last_segment(s: Seq<char>) -> Seq<char>
    decreases s.len(),
{
    if s.len() == 0 {
        s
    } else if s.last() == '/' {
        Seq::empty()
    } else {
        last_segment(s.drop_last()).push(s.last())
    }
}

/// The part after the last `/` is what follows the path's directory: `s` is
/// a prefix that is empty or ends with `/`, followed by `last_segment(s)`,
/// which holds no `/`; every other character of that part, a space
/// included, is kept.
pub proof fn lemma_last_segment_split(s: Seq<char>)
    ensures
        last_segment(s).len() <= s.len(),
        s == s.take(s.len() - last_segment(s).len()) + last_segment(s),
        !last_segment(s).contains('/'),
        s.len() == last_segment(s).len() || s[s.len() - last_segment(s).len() - 1] == '/',
    decreases s.len(),
{
    if s.len() == 0 {
        assert(s.take(0) + s =~= s);
    } else if s.last() == '/' {
        assert(s.take(s.len() as int) + Seq::<char>::empty() =~= s);
    } else {
        let d = s.drop_last();
        lemma_last_segment_split(d);
        let t = last_segment(s);
        let td = last_segment(d);
        let k = s.len() - t.len();
        assert(t == td.push(s.last()));
        assert(k == d.len() - td.len());
        assert(s.take(k) =~= d.take(k));
        assert(s =~= d.take(k) + t) by {
            assert(d =~= d.take(k) + td);
            assert(s =~= d.push(s.last()));
        }
        assert(!t.contains('/')) by {
            if t.contains('/') {
                let i = choose|i: int| 0 <= i < t.len() && t[i] == '/';
                if i < td.len() {
                    assert(td[i] == t[i]);
                }
            }
        }
        if k > 0 {
            assert(s[k - 1] == d[k - 1]);
        }
    }
}

/// Whether the characters `s` end with `suffix`.
pub fn ends_with(s: &Vec<char>, suffix: &str) -> (r: bool)
    ensures
        r == has_suffix(s@, suffix@),
{
    let t = chars_of(suffix);
    if t.len() > s.len() {
        return false;
    }
    let off = s.len() - t.len();
    let mut i: usize = 0;
    while i < t.len()
        invariant
            t@ == suffix@,
            t@.len() <= s@.len(),
            off == s@.len() - t@.len(),
            s@.len() == s.len(),
            i <= t@.len(),
            forall|j: int| 0 <= j < i ==> s@[off + j] == t@[j],
        decreases t@.len() - i,
    {
        if s[off + i] != t[i] {
            assert(s@.subrange(off as int, s@.len() as int)[i as int] != t@[i as int]);
            return false;
        }
        i = i + 1;
    }
    assert(s@.subrange(off as int, s@.len() as int) =~= t@);
    true
}

/// The text made of the characters `s[from..]`.
pub fn text_from(s: &Vec<char>, from: usize) -> (r: String)
    requires
        from <= s@.len(),
    ensures
        r@ == s@.subrange(from as int, s@.len() as int),
{
    let mut r = String::new();
    let mut i = from;
    while i < s.len()
        invariant
            from <= i <= s@.len(),
            r@ == s@.subrange(from as int, i as int),
        decreases s@.len() - i,
    {
        push_char(&mut r, s[i]);
        assert(s@.subrange(from as int, i + 1) =~= s@.subrange(from as int, i as int).push(s@[i as int]));
        i = i + 1;
    }
    r
}

/// The part of `s` after its last `/`, as `s.split('/').last()` gives it.
pub fn last_path_segment(s: &str) -> (r: String)
    ensures
        r@ == last_segment(s@),
        r@.len() <= s@.len(),
        s@ == s@.take(s@.len() - r@.len()) + r@,
        !r@.contains('/'),
        s@.len() == r@.len() || s@[s@.len() - r@.len() - 1] == '/',
{
    proof { lemma_last_segment_split(s@); }
    let v = chars_of(s);
    let mut i = v.len();
    assert(v@.take(i as int) =~= v@);
    assert(v@.subrange(i as int, v@.len() as int) =~= Seq::<char>::empty());
    while i > 0 && v[i - 1] != '/'
        invariant
            v@ == s@,
            i <= v@.len(),
            last_segment(v@) == last_segment(v@.take(i as int)) + v@.subrange(i as int, v@.len() as int),
        decreases i,
    {
        let ghost k = i as int;
        assert(v@.take(k).drop_last() =~= v@.take(k - 1));
        assert(v@.subrange(k - 1, v@.len() as int) =~= seq![v@[k - 1]] + v@.subrange(k, v@.len() as int));
        assert(last_segment(v@.take(k)) == last_segment(v@.take(k - 1)).push(v@[k - 1]));
        assert(last_segment(v@.take(k - 1)).push(v@[k - 1]) + v@.subrange(k, v@.len() as int)
            =~= last_segment(v@.take(k - 1)) + v@.subrange(k - 1, v@.len() as int));
        i = i - 1;
    }
    assert(last_segment(v@.take(i as int)) =~= Seq::<char>::empty());
    assert(last_segment(v@) =~= v@.subrange(i as int, v@.len() as int));
    text_from(&v, i)
}

} // verus!
