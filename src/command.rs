//! Command segments and the pipeline a line splits into.

use vstd::prelude::*;
use crate::text::{
    split_words, trimmed, words, trim, trim_start, trim_end, is_space, is_blank,
    lemma_words_trim, lemma_words_trim_start, lemma_words_trim_end,
};

verus! {

/// One command of a pipeline: its keyword and arguments, and the text it was
/// read from.
#[derive(Debug)]
pub struct Cmd {
    pub line: String,
    pub keyword: String,
    pub args: Vec<String>,
}

/// What a command segment holds, as sequences of characters.
pub struct CmdView {
    pub line: Seq<char>,
    pub keyword: Seq<char>,
    pub args: Seq<Seq<char>>,
}

impl View for Cmd {
    type V = CmdView;

    open spec fn view(&self) -> CmdView {
        CmdView { line: self.line@, keyword: self.keyword@, args: self.args.deep_view() }
    }
}

/// The segment read from `text`: its first word is the keyword, the other
/// words are the arguments, in order.
pub open spec fn segment_of(text: Seq<char>) -> CmdView {
    CmdView { line: text, keyword: words(text)[0], args: words(text).drop_first() }
}

/// A line split into its pipeline of command segments.
#[derive(Debug)]
pub struct Cmds {
    pub line: String,
    pub splits: Vec<Cmd>,
}

/// What a pipeline holds: the line, and the view of each segment in order.
pub struct CmdsView {
    pub line: Seq<char>,
    pub splits: Seq<CmdView>,
}

impl View for Cmds {
    type V = CmdsView;

    open spec fn view(&self) -> CmdsView {
        CmdsView { line: self.line@, splits: self.splits@.map_values(|c: Cmd| c@) }
    }
}

/// The pipeline read from `line`: one segment per piece of the trimmed line
/// between `" | "` delimiters, left to right.
pub open spec fn pipeline_of(line: Seq<char>) -> CmdsView {
    CmdsView { line, splits: segment_texts(line).map_values(|t: Seq<char>| segment_of(t)) }
}

/// Whether the pipe delimiter `" | "` starts at position `k` of `s`.
pub open spec fn is_pipe_at(s: Seq<char>, k: int) -> bool {
    0 <= k && k + 3 <= s.len() && s[k] == ' ' && s[k + 1] == '|' && s[k + 2] == ' '
}

/// `r` with `p` put in front of its first piece.
pub open spec fn prepend_first(p: Seq<char>, r: Seq<Seq<char>>) -> Seq<Seq<char>> {
    r.update(0, p + r[0])
}

/// The pieces of `s` from position `k` on, cut at each `" | "` found by a
/// left-to-right search, as `str::split(" | ")` cuts them.
pub open spec fn pipe_pieces_from(s: Seq<char>, k: int) -> Seq<Seq<char>>
    decreases s.len() - k,
{
    if k < 0 || k >= s.len() {
        seq![Seq::empty()]
    } else if is_pipe_at(s, k) {
        seq![Seq::empty()] + pipe_pieces_from(s, k + 3)
    } else {
        prepend_first(seq![s[k]], pipe_pieces_from(s, k + 1))
    }
}

/// The pieces of `s` cut at each `" | "`.
pub open spec fn pipe_pieces(s: Seq<char>) -> Seq<Seq<char>> {
    pipe_pieces_from(s, 0)
}

/// The texts of the segments of `line`: the trimmed line cut at each `" | "`.
pub open spec fn segment_texts(line: Seq<char>) -> Seq<Seq<char>> {
    pipe_pieces(trim(line))
}

/// Whether every segment of `line` holds at least one word.
pub open spec fn segments_nonblank(line: Seq<char>) -> bool {
    forall|i: int|
        0 <= i < segment_texts(line).len() ==> #[trigger] words(segment_texts(line)[i]).len() > 0
}

pub proof fn lemma_pipe_pieces_nonempty(s: Seq<char>, k: int)
    ensures
        pipe_pieces_from(s, k).len() >= 1,
    decreases s.len() - k,
{
    if 0 <= k < s.len() {
        if is_pipe_at(s, k) {
            lemma_pipe_pieces_nonempty(s, k + 3);
        } else {
            lemma_pipe_pieces_nonempty(s, k + 1);
        }
    }
}

/// From `k` on, with no delimiter there, `s` is one piece.
pub proof fn lemma_pieces_without_delimiter(s: Seq<char>, k: int)
    requires
        0 <= k <= s.len(),
        forall|j: int| k <= j ==> !is_pipe_at(s, j),
    ensures
        pipe_pieces_from(s, k) == seq![s.subrange(k, s.len() as int)],
    decreases s.len() - k,
{
    if k < s.len() {
        lemma_pieces_without_delimiter(s, k + 1);
        assert(seq![s[k]] + s.subrange(k + 1, s.len() as int) == s.subrange(k, s.len() as int));
        assert(prepend_first(seq![s[k]], seq![s.subrange(k + 1, s.len() as int)]) =~= seq![
            s.subrange(k, s.len() as int),
        ]);
    } else {
        assert(s.subrange(k, s.len() as int) == Seq::<char>::empty());
    }
}

/// From `k` on, the first delimiter is at `m`: the first piece is what lies
/// between, and the rest is cut after the delimiter.
pub proof fn lemma_pieces_up_to_delimiter(s: Seq<char>, k: int, m: int)
    requires
        0 <= k <= m,
        is_pipe_at(s, m),
        forall|j: int| k <= j < m ==> !is_pipe_at(s, j),
    ensures
        pipe_pieces_from(s, k) == seq![s.subrange(k, m)] + pipe_pieces_from(s, m + 3),
    decreases m - k,
{
    lemma_pipe_pieces_nonempty(s, m + 3);
    if k < m {
        lemma_pieces_up_to_delimiter(s, k + 1, m);
        assert(seq![s[k]] + s.subrange(k + 1, m) == s.subrange(k, m));
        assert(prepend_first(seq![s[k]], seq![s.subrange(k + 1, m)] + pipe_pieces_from(s, m + 3))
            =~= seq![s.subrange(k, m)] + pipe_pieces_from(s, m + 3));
    } else {
        assert(s.subrange(k, m) == Seq::<char>::empty());
    }
}

/// A line with no `" | "` delimiter, once trimmed, is a single segment: its
/// keyword is the line's first word and its arguments are the other words,
/// in their order.
pub proof fn law_line_without_delimiter(line: Seq<char>)
    requires
        forall|k: int| !is_pipe_at(trim(line), k),
        words(line).len() > 0,
    ensures
        segments_nonblank(line),
        pipeline_of(line).splits.len() == 1,
        pipeline_of(line).splits[0].keyword == words(line)[0],
        pipeline_of(line).splits[0].args == words(line).drop_first(),
{
    let t = trim(line);
    lemma_pieces_without_delimiter(t, 0);
    assert(t.subrange(0, t.len() as int) == t);
    lemma_words_trim(line);
}

/// Whether `s` holds no `|`.
pub open spec fn has_no_bar(s: Seq<char>) -> bool {
    forall|i: int| 0 <= i < s.len() ==> s[i] != '|'
}

proof fn lemma_trim_start_keeps_no_bar(s: Seq<char>)
    requires
        has_no_bar(s),
    ensures
        has_no_bar(trim_start(s)),
    decreases s.len(),
{
    if s.len() > 0 && is_space(s[0]) {
        lemma_trim_start_keeps_no_bar(s.drop_first());
    }
}

proof fn lemma_trim_end_keeps_no_bar(s: Seq<char>)
    requires
        has_no_bar(s),
    ensures
        has_no_bar(trim_end(s)),
    decreases s.len(),
{
    if s.len() > 0 && is_space(s.last()) {
        lemma_trim_end_keeps_no_bar(s.drop_last());
    }
}

/// Leading whitespace is trimmed from the front part only, when that part is
/// not blank.
proof fn lemma_trim_start_append(x: Seq<char>, y: Seq<char>)
    requires
        !is_blank(x),
    ensures
        trim_start(x + y) == trim_start(x) + y,
    decreases x.len(),
{
    if is_space(x[0]) {
        let t = x.drop_first();
        assert(!is_blank(t)) by {
            let i = choose|i: int| 0 <= i < x.len() && !is_space(x[i]);
            assert(t[i - 1] == x[i]);
        }
        lemma_trim_start_append(t, y);
        assert((x + y).drop_first() == t + y);
    }
}

/// Trailing whitespace is trimmed from the back part only, when that part is
/// not blank.
proof fn lemma_trim_end_append(x: Seq<char>, y: Seq<char>)
    requires
        !is_blank(y),
    ensures
        trim_end(x + y) == x + trim_end(y),
    decreases y.len(),
{
    if is_space(y.last()) {
        let t = y.drop_last();
        assert(!is_blank(t)) by {
            let i = choose|i: int| 0 <= i < y.len() && !is_space(y[i]);
            assert(t[i] == y[i]);
        }
        lemma_trim_end_append(x, t);
        assert((x + y).drop_last() == x + t);
    }
}

/// A sequence with a word is not blank.
proof fn lemma_words_not_blank(s: Seq<char>)
    requires
        words(s).len() > 0,
    ensures
        !is_blank(s),
{
    if is_blank(s) {
        lemma_trim_start_blank(s);
        lemma_words_trim_start(s);
        assert(words(Seq::<char>::empty()).len() == 0) by {
            assert(crate::text::split_at_spaces(Seq::<char>::empty()) == seq![Seq::<char>::empty()]);
            seq![Seq::<char>::empty()].drop_last().lemma_filter_push(
                Seq::<char>::empty(),
                |w: Seq<char>| w.len() > 0,
            );
            assert(seq![Seq::<char>::empty()].drop_last().push(Seq::<char>::empty()) == seq![
                Seq::<char>::empty(),
            ]);
        }
    }
}

proof fn lemma_trim_start_blank(s: Seq<char>)
    requires
        is_blank(s),
    ensures
        trim_start(s) == Seq::<char>::empty(),
    decreases s.len(),
{
    if s.len() > 0 {
        assert(is_space(s[0]));
        let t = s.drop_first();
        assert(is_blank(t)) by {
            assert forall|i: int| 0 <= i < t.len() implies is_space(#[trigger] t[i]) by {
                assert(t[i] == s[i + 1]);
            }
        }
        lemma_trim_start_blank(t);
    }
}

/// A line `a | b | c`, where none of the three commands holds a `|` and
/// each holds a word, is three segments, in that order: the first read
/// from `a`, the second from `b`, the third from `c`.
pub proof fn law_three_segments(a: Seq<char>, b: Seq<char>, c: Seq<char>)
    requires
        has_no_bar(a),
        has_no_bar(b),
        has_no_bar(c),
        words(a).len() > 0,
        words(b).len() > 0,
        words(c).len() > 0,
    ensures
        ({
            let p = pipeline_of(a + seq![' ', '|', ' '] + b + seq![' ', '|', ' '] + c);
            &&& segments_nonblank(a + seq![' ', '|', ' '] + b + seq![' ', '|', ' '] + c)
            &&& p.splits.len() == 3
            &&& p.splits[0].keyword == words(a)[0]
            &&& p.splits[0].args == words(a).drop_first()
            &&& p.splits[1].keyword == words(b)[0]
            &&& p.splits[1].args == words(b).drop_first()
            &&& p.splits[2].keyword == words(c)[0]
            &&& p.splits[2].args == words(c).drop_first()
        }),
{
    let d = seq![' ', '|', ' '];
    let line = a + d + b + d + c;
    lemma_words_not_blank(a);
    lemma_words_not_blank(c);
    let a2 = trim_start(a);
    let c2 = trim_end(c);
    lemma_trim_start_append(a, d + b + d + c);
    assert(line == a + (d + b + d + c));
    lemma_trim_end_append(a2 + d + b + d, c);
    assert(a2 + (d + b + d + c) == (a2 + d + b + d) + c);
    let s = a2 + d + b + d + c2;
    assert(trim(line) == s);
    lemma_trim_start_keeps_no_bar(a);
    lemma_trim_end_keeps_no_bar(c);
    let m1 = a2.len() as int;
    let m2 = m1 + 3 + b.len();
    assert(s.subrange(0, m1) == a2);
    assert(s.subrange(m1 + 3, m2) == b);
    assert(s.subrange(m2 + 3, s.len() as int) == c2);
    assert(is_pipe_at(s, m1));
    assert(is_pipe_at(s, m2));
    assert forall|j: int| 0 <= j < m1 implies !is_pipe_at(s, j) by {
        if j + 1 < m1 {
            assert(s[j + 1] == a2[j + 1]);
        }
    }
    assert forall|j: int| m1 + 3 <= j < m2 implies !is_pipe_at(s, j) by {
        if j + 1 < m2 {
            assert(s[j + 1] == b[j + 1 - m1 - 3]);
        }
    }
    assert forall|j: int| m2 + 3 <= j implies !is_pipe_at(s, j) by {
        if j + 1 < s.len() {
            assert(s[j + 1] == c2[j + 1 - m2 - 3]);
        }
    }
    lemma_pieces_up_to_delimiter(s, 0, m1);
    lemma_pieces_up_to_delimiter(s, m1 + 3, m2);
    lemma_pieces_without_delimiter(s, m2 + 3);
    assert(segment_texts(line) == seq![a2, b, c2]);
    lemma_words_trim_start(a);
    lemma_words_trim_end(c);
}

impl Cmd {
    /// Reads a segment from `c`: its first word is the keyword, the rest are
    /// the arguments.
    pub fn new(c: &str) -> (r: Cmd)
        requires
            words(c@).len() > 0,
        ensures
            r@ == segment_of(c@),
    {
        let mut cmd_split = split_words(c);
        let keyword = cmd_split.remove(0);
        let r = Cmd { line: c.to_owned(), keyword, args: cmd_split };
        assert(r.args.deep_view() == words(c@).drop_first());
        r
    }
}

/// The pieces of `s` cut at each `" | "`.
pub fn split_pipes(s: &str) -> (r: Vec<String>)
    ensures
        r.deep_view() == pipe_pieces(s@),
{
    let cs = crate::text::chars_of(s);
    let n = cs.len();
    let mut out: Vec<String> = Vec::new();
    let mut start: usize = 0;
    let mut i: usize = 0;
    assert(s@.subrange(0, 0) == Seq::<char>::empty());
    proof {
        lemma_pipe_pieces_nonempty(s@, 0);
        assert(prepend_first(Seq::empty(), pipe_pieces(s@)) == pipe_pieces(s@));
    }
    while i < n
        invariant
            cs@ == s@,
            n == s@.len(),
            start <= i <= n,
            pipe_pieces(s@) == out.deep_view() + prepend_first(
                s@.subrange(start as int, i as int),
                pipe_pieces_from(s@, i as int),
            ),
        decreases n - i,
    {
        let ghost cur = s@.subrange(start as int, i as int);
        proof {
            lemma_pipe_pieces_nonempty(s@, i + 1);
            lemma_pipe_pieces_nonempty(s@, i + 3);
        }
        if n - i >= 3 && cs[i] == ' ' && cs[i + 1] == '|' && cs[i + 2] == ' ' {
            let piece = s.substring_char(start, i).to_owned();
            let ghost rest = pipe_pieces_from(s@, i + 3);
            assert(prepend_first(cur, seq![Seq::empty()] + rest) == seq![cur] + rest);
            out.push(piece);
            i = i + 3;
            start = i;
            assert(prepend_first(Seq::empty(), rest) == rest);
            assert(s@.subrange(start as int, i as int) == Seq::<char>::empty());
        } else {
            let ghost rest = pipe_pieces_from(s@, i + 1);
            assert(cur + seq![s@[i as int]] == s@.subrange(start as int, i + 1));
            assert(cur + (seq![s@[i as int]] + rest[0]) == (cur + seq![s@[i as int]]) + rest[0]);
            assert(prepend_first(cur, prepend_first(seq![s@[i as int]], rest)) =~= prepend_first(
                s@.subrange(start as int, i + 1),
                rest,
            ));
            i = i + 1;
        }
    }
    let piece = s.substring_char(start, n).to_owned();
    let ghost cur = s@.subrange(start as int, n as int);
    assert(prepend_first(cur, seq![Seq::empty()]) == seq![cur]);
    out.push(piece);
    out
}

/// Whether some segment of `line` holds no word, so that no command can be
/// read from it.
pub fn has_blank_segment(line: &str) -> (r: bool)
    ensures
        r == !segments_nonblank(line@),
{
    let t = trimmed(line);
    let pieces = split_pipes(t.as_str());
    let mut i: usize = 0;
    while i < pieces.len()
        invariant
            pieces.deep_view() == segment_texts(line@),
            i <= pieces.len(),
            forall|j: int| 0 <= j < i ==> #[trigger] words(segment_texts(line@)[j]).len() > 0,
        decreases pieces.len() - i,
    {
        let w = split_words(pieces[i].as_str());
        assert(pieces.deep_view()[i as int] == pieces[i as int]@);
        assert(w.deep_view().len() == w.len());
        if w.len() == 0 {
            assert(words(segment_texts(line@)[i as int]).len() == 0);
            return true;
        }
        i = i + 1;
    }
    false
}

/// Splits `c` into its pipeline: the line is trimmed, cut at each `" | "`,
/// and each piece is read as a segment.
pub fn tokenize_commands(c: &str) -> (r: Cmds)
    requires
        segments_nonblank(c@),
    ensures
        r@ == pipeline_of(c@),
{
    let t = trimmed(c);
    let pieces = split_pipes(t.as_str());
    let ghost texts = segment_texts(c@);
    let mut v: Vec<Cmd> = Vec::new();
    let mut i: usize = 0;
    while i < pieces.len()
        invariant
            pieces.deep_view() == texts,
            texts == segment_texts(c@),
            segments_nonblank(c@),
            i <= pieces.len(),
            v@.map_values(|x: Cmd| x@) == texts.take(i as int).map_values(
                |s: Seq<char>| segment_of(s),
            ),
        decreases pieces.len() - i,
    {
        assert(pieces.deep_view()[i as int] == pieces[i as int]@);
        assert(words(texts[i as int]).len() > 0);
        let cmd = Cmd::new(pieces[i].as_str());
        let ghost before = v@;
        let ghost cv = cmd@;
        v.push(cmd);
        assert(v@ == before.push(cmd));
        assert(v@.map_values(|x: Cmd| x@) =~= before.map_values(|x: Cmd| x@).push(cv));
        assert(texts.take(i + 1) == texts.take(i as int).push(texts[i as int]));
        assert(v@.map_values(|x: Cmd| x@) =~= texts.take(i + 1).map_values(
            |s: Seq<char>| segment_of(s),
        ));
        i = i + 1;
    }
    assert(texts.take(pieces.len() as int) == texts);
    Cmds { line: c.to_owned(), splits: v }
}

} // verus!
