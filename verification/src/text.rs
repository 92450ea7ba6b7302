//! Text handling: characters of a string, lines of a file, trimming, and
//! splitting a row into its delimited fields.
use vstd::prelude::*;

verus! {

/// Copies the characters of `s` into a vector, so that they can be indexed in
/// constant time.
pub fn to_chars(s: &str) -> (chars: Vec<char>)
    ensures
        chars@ == s@,
{
    let mut chars: Vec<char> = Vec::new();
    for c in it: s.chars()
        invariant
            it.seq() == s@,
            chars@ == s@.take(it.index() as int),
    {
        chars.push(c);
    }
    chars
}

/// Whether `c` counts as white space when a row is trimmed: the answer of
/// [`char::is_whitespace`].
pub uninterp spec fn is_white_space(c: char) -> bool;

/// `char::is_whitespace` of the standard library. Its answer depends on the
/// character alone; the contract gives that answer the name
/// [`is_white_space`] and claims nothing about which characters it accepts.
pub assume_specification[ char::is_whitespace ](c: char) -> (b: bool)
    ensures
        b == is_white_space(c),
;

/// `s` without its leading white space.
pub open spec fn trim_start(s: Seq<char>) -> Seq<char>
    decreases s.len(),
{
    if s.len() > 0 && is_white_space(s.first()) {
        trim_start(s.drop_first())
    } else {
        s
    }
}

/// `s` without its trailing white space.
pub open spec fn trim_end(s: Seq<char>) -> Seq<char>
    decreases s.len(),
{
    if s.len() > 0 && is_white_space(s.last()) {
        trim_end(s.drop_last())
    } else {
        s
    }
}

/// `s` without its leading and trailing white space.
pub open spec fn trim(s: Seq<char>) -> Seq<char> {
    trim_end(trim_start(s))
}

/// Where the leading white space of `s` ends: `trim_start(s)` is `s` from
/// the returned position on, everything before it is white space, and the
/// character at it, if there is one, is not.
pub proof fn lemma_trim_start_exact(s: Seq<char>) -> (a: int)
    ensures
        0 <= a <= s.len(),
        trim_start(s) == s.subrange(a, s.len() as int),
        forall|i: int| 0 <= i < a ==> is_white_space(#[trigger] s[i]),
        a < s.len() ==> !is_white_space(s[a]),
    decreases s.len(),
{
    if s.len() > 0 && is_white_space(s.first()) {
        let rest = s.drop_first();
        let a_rest = lemma_trim_start_exact(rest);
        assert forall|i: int| 0 <= i < a_rest + 1 implies is_white_space(#[trigger] s[i]) by {
            if i > 0 {
                assert(s[i] == rest[i - 1]);
            }
        }
        a_rest + 1
    } else {
        0
    }
}

/// Where the trailing white space of `s` begins: `trim_end(s)` is `s` up to
/// the returned position, everything from it on is white space, and the
/// character before it, if there is one, is not.
pub proof fn lemma_trim_end_exact(s: Seq<char>) -> (b: int)
    ensures
        0 <= b <= s.len(),
        trim_end(s) == s.subrange(0, b),
        forall|i: int| b <= i < s.len() ==> is_white_space(#[trigger] s[i]),
        b > 0 ==> !is_white_space(s[b - 1]),
    decreases s.len(),
{
    if s.len() > 0 && is_white_space(s.last()) {
        let rest = s.drop_last();
        let b_rest = lemma_trim_end_exact(rest);
        assert forall|i: int| b_rest <= i < s.len() implies is_white_space(#[trigger] s[i]) by {
            if i < s.len() - 1 {
                assert(s[i] == rest[i]);
            }
        }
        b_rest
    } else {
        s.len() as int
    }
}

/// Trimming cuts white space off both ends and nothing else: `trim(s)` is the
/// part of `s` between the two returned positions, all that lies outside them
/// is white space, and what is left neither begins nor ends with white space.
pub proof fn lemma_trim_exact(s: Seq<char>) -> (cut: (int, int))
    ensures
        0 <= cut.0 <= cut.1 <= s.len(),
        trim(s) == s.subrange(cut.0, cut.1),
        forall|i: int| 0 <= i < cut.0 || cut.1 <= i < s.len() ==> is_white_space(#[trigger] s[i]),
        trim(s).len() > 0 ==> !is_white_space(trim(s).first()) && !is_white_space(trim(s).last()),
{
    let a = lemma_trim_start_exact(s);
    let front = s.subrange(a, s.len() as int);
    let b = lemma_trim_end_exact(front);
    assert forall|i: int| 0 <= i < a || a + b <= i < s.len() implies is_white_space(
        #[trigger] s[i],
    ) by {
        if i >= a + b {
            assert(s[i] == front[i - a]);
        }
    }
    (a, a + b)
}

/// A half-open range `start..end` of positions in a character buffer.
#[derive(Clone, Copy, Debug, PartialEq, Eq)]
pub struct Span {
    pub start: usize,
    pub end: usize,
}

impl Span {
    /// Whether the span lies inside a buffer of `len` characters.
    pub open spec fn fits(&self, len: nat) -> bool {
        self.start <= self.end <= len
    }

    /// The characters of `buffer` that the span covers.
    pub open spec fn of(&self, buffer: Seq<char>) -> Seq<char> {
        buffer.subrange(self.start as int, self.end as int)
    }
}

/// Narrows `span` to the part of it that is left after trimming.
pub fn trim_span(buffer: &[char], span: Span) -> (trimmed: Span)
    requires
        span.fits(buffer@.len()),
    ensures
        trimmed.fits(buffer@.len()),
        span.start <= trimmed.start,
        trimmed.end <= span.end,
        trimmed.of(buffer@) == trim(span.of(buffer@)),
{
    let mut start: usize = span.start;
    while start < span.end && buffer[start].is_whitespace()
        invariant
            span.fits(buffer@.len()),
            span.start <= start <= span.end,
            trim_start(span.of(buffer@)) == trim_start(
                buffer@.subrange(start as int, span.end as int),
            ),
        decreases span.end - start,
    {
        assert(buffer@.subrange(start as int, span.end as int).drop_first()
            == buffer@.subrange(start + 1, span.end as int));
        start += 1;
    }
    let mut end: usize = span.end;
    while start < end && buffer[end - 1].is_whitespace()
        invariant
            span.fits(buffer@.len()),
            span.start <= start <= end <= span.end,
            trim(span.of(buffer@)) == trim_end(buffer@.subrange(start as int, end as int)),
        decreases end - start,
    {
        assert(buffer@.subrange(start as int, end as int).drop_last() == buffer@.subrange(
            start as int,
            end - 1,
        ));
        end -= 1;
    }
    Span { start, end }
}

/// The pieces of `s` between occurrences of `sep`, in order. A sequence with
/// `n` separators has `n + 1` pieces; pieces may be empty.
pub open spec fn split(s: Seq<char>, sep: char) -> Seq<Seq<char>>
    decreases s.len(),
{
    if s.len() == 0 {
        seq![Seq::empty()]
    } else {
        let before = split(s.drop_last(), sep);
        if s.last() == sep {
            before.push(Seq::empty())
        } else {
            before.drop_last().push(before.last().push(s.last()))
        }
    }
}

/// The pieces put together again, with one `sep` between neighbours.
pub open spec fn join(pieces: Seq<Seq<char>>, sep: char) -> Seq<char>
    decreases pieces.len(),
{
    if pieces.len() == 0 {
        Seq::empty()
    } else if pieces.len() == 1 {
        pieces[0]
    } else {
        join(pieces.drop_last(), sep).push(sep) + pieces.last()
    }
}

/// Splitting loses nothing and cuts at every separator: the pieces of `s`,
/// joined by `sep`, are `s` again, and no piece holds a `sep`.
pub proof fn lemma_split_exact(s: Seq<char>, sep: char)
    ensures
        split(s, sep).len() >= 1,
        join(split(s, sep), sep) == s,
        forall|i: int|
            0 <= i < split(s, sep).len() ==> !(#[trigger] split(s, sep)[i]).contains(sep),
    decreases s.len(),
{
    if s.len() > 0 {
        let front = s.drop_last();
        lemma_split_exact(front, sep);
        let before = split(front, sep);
        let pieces = split(s, sep);
        if s.last() == sep {
            assert(pieces.drop_last() == before);
        } else {
            let grown = before.last().push(s.last());
            if before.len() > 1 {
                assert(pieces.drop_last() == before.drop_last());
                assert(front.push(s.last()) == s);
            }
            assert forall|i: int| 0 <= i < pieces.len() implies !(#[trigger] pieces[i]).contains(
                sep,
            ) by {
                if i == pieces.len() - 1 && grown.contains(sep) {
                    let k = choose|k: int| 0 <= k < grown.len() && grown[k] == sep;
                    assert(before.last()[k] == sep);
                }
            }
        }
    }
}

/// Whether `spans` mark, piece by piece, the sequences in `pieces` inside
/// `buffer`.
pub open spec fn spans_mark(spans: Seq<Span>, buffer: Seq<char>, pieces: Seq<Seq<char>>) -> bool {
    &&& spans.len() == pieces.len()
    &&& forall|i: int|
        0 <= i < spans.len() ==> (#[trigger] spans[i]).fits(buffer.len()) && spans[i].of(buffer)
            == pieces[i]
}

/// Splits the part of `buffer` under `span` at every `sep`.
pub fn split_span(buffer: &[char], span: Span, sep: char) -> (pieces: Vec<Span>)
    requires
        span.fits(buffer@.len()),
    ensures
        spans_mark(pieces@, buffer@, split(span.of(buffer@), sep)),
{
    let mut pieces: Vec<Span> = Vec::new();
    let mut piece_start: usize = span.start;
    let mut i: usize = span.start;
    while i < span.end
        invariant
            span.fits(buffer@.len()),
            span.start <= piece_start <= i <= span.end,
            split(buffer@.subrange(span.start as int, i as int), sep).len() == pieces@.len() + 1,
            split(buffer@.subrange(span.start as int, i as int), sep).last() == buffer@.subrange(
                piece_start as int,
                i as int,
            ),
            spans_mark(
                pieces@,
                buffer@,
                split(buffer@.subrange(span.start as int, i as int), sep).drop_last(),
            ),
        decreases span.end - i,
    {
        let ghost seen = buffer@.subrange(span.start as int, i as int);
        let ghost next = buffer@.subrange(span.start as int, i + 1);
        assert(next.drop_last() == seen);
        if buffer[i] == sep {
            pieces.push(Span { start: piece_start, end: i });
            piece_start = i + 1;
        }
        i += 1;
    }
    pieces.push(Span { start: piece_start, end: span.end });
    pieces
}

/// `s` without one trailing carriage return, if it ends in one.
pub open spec fn strip_cr(s: Seq<char>) -> Seq<char> {
    if s.len() > 0 && s.last() == '\r' {
        s.drop_last()
    } else {
        s
    }
}

/// The lines of `content`. A line ends at a line feed; the line feed, and a
/// carriage return directly before it, are not part of the line. What follows
/// the last line feed is a line of its own unless it is empty, and is then
/// kept as it stands.
pub open spec fn lines_of(content: Seq<char>) -> Seq<Seq<char>> {
    let pieces = split(content, '\n');
    let ended = Seq::new((pieces.len() - 1) as nat, |i: int| strip_cr(pieces[i]));
    if pieces.last().len() == 0 {
        ended
    } else {
        ended.push(pieces.last())
    }
}

/// Marks the lines of `buffer`.
pub fn line_spans(buffer: &[char]) -> (lines: Vec<Span>)
    ensures
        spans_mark(lines@, buffer@, lines_of(buffer@)),
{
    let whole = Span { start: 0, end: buffer.len() };
    assert(whole.of(buffer@) == buffer@);
    let pieces = split_span(buffer, whole, '\n');
    proof {
        lemma_split_exact(buffer@, '\n');
    }
    let ghost parts = split(buffer@, '\n');
    let ended: usize = pieces.len() - 1;
    let mut lines: Vec<Span> = Vec::new();
    let mut i: usize = 0;
    while i < ended
        invariant
            i <= ended,
            ended + 1 == pieces@.len(),
            spans_mark(pieces@, buffer@, parts),
            spans_mark(lines@, buffer@, Seq::new(i as nat, |k: int| strip_cr(parts[k]))),
        decreases ended - i,
    {
        let piece = pieces[i];
        let line = if piece.start < piece.end && buffer[piece.end - 1] == '\r' {
            Span { start: piece.start, end: piece.end - 1 }
        } else {
            piece
        };
        assert(line.of(buffer@) == strip_cr(parts[i as int]));
        lines.push(line);
        i += 1;
    }
    let last = pieces[ended];
    if last.start < last.end {
        lines.push(last);
    }
    lines
}

/// `String::push` of the standard library: the character is appended and
/// nothing else changes.
pub assume_specification[ String::push ](s: &mut String, ch: char)
    ensures
        final(s)@ == old(s)@.push(ch),
;

/// The characters of `buffer` under `span`, as a string.
pub fn span_text(buffer: &[char], span: Span) -> (text: String)
    requires
        span.fits(buffer@.len()),
    ensures
        text@ == span.of(buffer@),
{
    let mut text = String::new();
    let mut i: usize = span.start;
    while i < span.end
        invariant
            span.fits(buffer@.len()),
            span.start <= i <= span.end,
            text@ == buffer@.subrange(span.start as int, i as int),
        decreases span.end - i,
    {
        text.push(buffer[i]);
        i += 1;
    }
    text
}

} // verus!
