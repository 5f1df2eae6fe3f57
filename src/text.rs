//! Characters, whitespace, trimming and whitespace-separated words.

use vstd::prelude::*;

verus! {

/// The Unicode `White_Space` property, as `char::is_whitespace` reports it.
pub open spec fn is_space(c: char) -> bool {
    let n = c as u32;
    (0x9 <= n && n <= 0xd) || n == 0x20 || n == 0x85 || n == 0xa0 || n == 0x1680
        || (0x2000 <= n && n <= 0x200a) || n == 0x2028 || n == 0x2029 || n == 0x202f
        || n == 0x205f || n == 0x3000
}

/// Whether `c` is a whitespace character.
pub fn char_is_space(c: char) -> (r: bool)
    ensures
        r == is_space(c),
{
    let n = c as u32;
    (0x9 <= n && n <= 0xd) || n == 0x20 || n == 0x85 || n == 0xa0 || n == 0x1680
        || (0x2000 <= n && n <= 0x200a) || n == 0x2028 || n == 0x2029 || n == 0x202f
        || n == 0x205f || n == 0x3000
}

/// The characters of `s`, in order.
pub fn chars_of(s: &str) -> (r: Vec<char>)
    ensures
        r@ == s@,
{
    let mut out: Vec<char> = Vec::new();
    for c in iter: s.chars()
        invariant
            iter.seq() == s@,
            out@ == s@.take(iter.index() as int),
    {
        out.push(c);
    }
    assert(out@ == s@.take(s@.len() as int));
    out
}

/// `s` cut at every whitespace character, as `str::split(char::is_whitespace)`
/// cuts it: one piece more than there are whitespace characters.
pub open spec fn split_at_spaces(s: Seq<char>) -> Seq<Seq<char>>
    decreases s.len(),
{
    if s.len() == 0 {
        seq![Seq::empty()]
    } else {
        let r = split_at_spaces(s.drop_last());
        if is_space(s.last()) {
            r.push(Seq::empty())
        } else {
            r.update(r.len() - 1, r.last().push(s.last()))
        }
    }
}

/// The whitespace-separated words of `s`: the non-empty pieces between
/// whitespace characters, in order.
pub open spec fn words(s: Seq<char>) -> Seq<Seq<char>> {
    split_at_spaces(s).filter(|w: Seq<char>| w.len() > 0)
}

/// `s` without its leading whitespace.
pub open spec fn trim_start(s: Seq<char>) -> Seq<char>
    decreases s.len(),
{
    if s.len() > 0 && is_space(s[0]) {
        trim_start(s.drop_first())
    } else {
        s
    }
}

/// `s` without its trailing whitespace.
pub open spec fn trim_end(s: Seq<char>) -> Seq<char>
    decreases s.len(),
{
    if s.len() > 0 && is_space(s.last()) {
        trim_end(s.drop_last())
    } else {
        s
    }
}

/// `s` without leading and trailing whitespace.
pub open spec fn trim(s: Seq<char>) -> Seq<char> {
    trim_end(trim_start(s))
}

/// Whether `s` holds nothing but whitespace.
pub open spec fn is_blank(s: Seq<char>) -> bool {
    forall|i: int| 0 <= i < s.len() ==> is_space(#[trigger] s[i])
}

pub proof fn lemma_split_at_spaces_nonempty(s: Seq<char>)
    ensures
        split_at_spaces(s).len() >= 1,
    decreases s.len(),
{
    if s.len() > 0 {
        lemma_split_at_spaces_nonempty(s.drop_last());
    }
}

/// A whitespace character after a prefix starts an empty piece.
proof fn lemma_split_space_in_front(c: char, s: Seq<char>)
    requires
        is_space(c),
    ensures
        split_at_spaces(seq![c] + s) == seq![Seq::<char>::empty()] + split_at_spaces(s),
    decreases s.len(),
{
    if s.len() == 0 {
        assert(seq![c] + s == seq![c]);
        assert(seq![c].drop_last() == Seq::<char>::empty());
        assert(split_at_spaces(Seq::<char>::empty()) == seq![Seq::<char>::empty()]);
        assert(seq![c].last() == c);
        assert(split_at_spaces(seq![c]) == seq![Seq::<char>::empty()].push(Seq::<char>::empty()));
        assert(seq![Seq::<char>::empty()] + split_at_spaces(s) =~= seq![Seq::<char>::empty()].push(
            Seq::<char>::empty(),
        ));
    } else {
        let t = s.drop_last();
        let x = s.last();
        lemma_split_space_in_front(c, t);
        lemma_split_at_spaces_nonempty(t);
        assert((seq![c] + s).drop_last() == seq![c] + t);
        assert((seq![c] + s).last() == x);
        let r = split_at_spaces(t);
        if is_space(x) {
            assert(seq![Seq::<char>::empty()] + r.push(Seq::empty()) =~= (seq![Seq::<char>::empty()]
                + r).push(Seq::empty()));
        } else {
            assert(seq![Seq::<char>::empty()] + r.update(r.len() - 1, r.last().push(x)) =~= (seq![
                Seq::<char>::empty(),
            ] + r).update(r.len() as int, r.last().push(x)));
        }
    }
}

/// Leading whitespace does not change the words.
pub proof fn lemma_words_trim_start(s: Seq<char>)
    ensures
        words(trim_start(s)) == words(s),
    decreases s.len(),
{
    if s.len() > 0 && is_space(s[0]) {
        let t = s.drop_first();
        lemma_words_trim_start(t);
        assert(s == seq![s[0]] + t);
        lemma_split_space_in_front(s[0], t);
        split_at_spaces(t).lemma_filter_prepend(Seq::empty(), |w: Seq<char>| w.len() > 0);
        assert(words(s) == words(t));
    }
}

/// Trailing whitespace does not change the words.
pub proof fn lemma_words_trim_end(s: Seq<char>)
    ensures
        words(trim_end(s)) == words(s),
    decreases s.len(),
{
    if s.len() > 0 && is_space(s.last()) {
        let t = s.drop_last();
        lemma_words_trim_end(t);
        split_at_spaces(t).lemma_filter_push(Seq::empty(), |w: Seq<char>| w.len() > 0);
    }
}

/// Outer whitespace does not change the words.
pub proof fn lemma_words_trim(s: Seq<char>)
    ensures
        words(trim(s)) == words(s),
{
    lemma_words_trim_start(s);
    lemma_words_trim_end(trim_start(s));
}

/// `s` without leading and trailing whitespace, as `str::trim` gives it.
pub fn trimmed(s: &str) -> (r: String)
    ensures
        r@ == trim(s@),
{
    let cs = chars_of(s);
    let n = cs.len();
    let mut lo: usize = 0;
    assert(s@.subrange(0, n as int) == s@);
    while lo < n && char_is_space(cs[lo])
        invariant
            cs@ == s@,
            n == s@.len(),
            lo <= n,
            trim_start(s@) == trim_start(s@.subrange(lo as int, n as int)),
        decreases n - lo,
    {
        assert(s@.subrange(lo as int, n as int).drop_first() == s@.subrange(lo + 1, n as int));
        lo = lo + 1;
    }
    let mut hi: usize = n;
    while hi > lo && char_is_space(cs[hi - 1])
        invariant
            cs@ == s@,
            n == s@.len(),
            lo <= hi <= n,
            trim(s@) == trim_end(s@.subrange(lo as int, hi as int)),
        decreases hi - lo,
    {
        assert(s@.subrange(lo as int, hi as int).drop_last() == s@.subrange(lo as int, hi - 1));
        hi = hi - 1;
    }
    s.substring_char(lo, hi).to_owned()
}

/// Whether `a` and `b` hold the same characters.
pub fn same_text(a: &str, b: &str) -> (r: bool)
    ensures
        r == (a@ == b@),
{
    let ac = chars_of(a);
    let bc = chars_of(b);
    if ac.len() != bc.len() {
        return false;
    }
    let mut i: usize = 0;
    while i < ac.len()
        invariant
            ac@ == a@,
            bc@ == b@,
            ac.len() == bc.len(),
            i <= ac.len(),
            forall|j: int| 0 <= j < i ==> a@[j] == b@[j],
        decreases ac.len() - i,
    {
        if ac[i] != bc[i] {
            return false;
        }
        i = i + 1;
    }
    assert(a@ == b@);
    true
}

/// Whether `s` holds nothing but whitespace.
pub fn all_space(s: &str) -> (r: bool)
    ensures
        r == is_blank(s@),
{
    let cs = chars_of(s);
    let mut i: usize = 0;
    while i < cs.len()
        invariant
            cs@ == s@,
            i <= cs.len(),
            forall|j: int| 0 <= j < i ==> is_space(#[trigger] s@[j]),
        decreases cs.len() - i,
    {
        if !char_is_space(cs[i]) {
            return false;
        }
        i = i + 1;
    }
    true
}

/// The whitespace-separated words of `s`.
pub fn split_words(s: &str) -> (r: Vec<String>)
    ensures
        r.deep_view() == words(s@),
{
    let cs = chars_of(s);
    let n = cs.len();
    let mut out: Vec<String> = Vec::new();
    let mut start: usize = 0;
    let ghost mut done: Seq<Seq<char>> = Seq::empty();
    let mut i: usize = 0;
    assert(s@.take(0) == Seq::<char>::empty());
    assert(done.push(s@.subrange(0, 0)) == seq![Seq::<char>::empty()]);
    while i < n
        invariant
            cs@ == s@,
            n == s@.len(),
            start <= i <= n,
            split_at_spaces(s@.take(i as int)) == done.push(s@.subrange(start as int, i as int)),
            out.deep_view() == done.filter(|w: Seq<char>| w.len() > 0),
        decreases n - i,
    {
        let ghost prev = s@.take(i as int);
        assert(s@.take(i + 1).drop_last() == prev);
        let c = cs[i];
        if char_is_space(c) {
            let ghost piece = s@.subrange(start as int, i as int);
            proof {
                done.lemma_filter_push(piece, |w: Seq<char>| w.len() > 0);
            }
            if start < i {
                let w = s.substring_char(start, i).to_owned();
                out.push(w);
                assert(out.deep_view() == done.filter(|w: Seq<char>| w.len() > 0).push(piece));
            }
            proof {
                done = done.push(piece);
            }
            i = i + 1;
            start = i;
            assert(s@.subrange(start as int, i as int) == Seq::<char>::empty());
        } else {
            assert(s@.subrange(start as int, i as int).push(c) == s@.subrange(start as int, i + 1));
            i = i + 1;
        }
    }
    let ghost piece = s@.subrange(start as int, n as int);
    assert(s@.take(n as int) == s@);
    proof {
        done.lemma_filter_push(piece, |w: Seq<char>| w.len() > 0);
    }
    if start < n {
        let w = s.substring_char(start, n).to_owned();
        out.push(w);
        assert(out.deep_view() == done.filter(|w: Seq<char>| w.len() > 0).push(piece));
    }
    out
}

} // verus!
