//! Where the first line of a sequence ends, and what its line ending is.

use vstd::prelude::*;

verus! {

/// The line feed byte, which ends a line.
pub const LF: u8 = 0x0a;

/// The carriage return byte, which may precede the line feed.
pub const CR: u8 = 0x0d;

/// Number of items in the first line of `s`: everything up to and including
/// the first occurrence of `end`, or all of `s` where `end` does not occur.
pub open spec fn line_len<T>(s: Seq<T>, end: T) -> nat
    decreases s.len(),
{
    if s.len() == 0 {
        0
    } else if s[0] == end {
        1
    } else {
        1 + line_len(s.drop_first(), end)
    }
}

/// The first line of `s`, with its terminator `end` if it has one.
pub open spec fn first_line<T>(s: Seq<T>, end: T) -> Seq<T> {
    s.take(line_len(s, end) as int)
}

/// A line without its line ending: a final line feed is removed, and then a
/// carriage return that directly preceded it. A carriage return that is not
/// followed by a line feed stays.
pub open spec fn without_line_ending(line: Seq<char>) -> Seq<char> {
    if line.len() > 0 && line.last() == '\n' {
        let body = line.drop_last();
        if body.len() > 0 && body.last() == '\r' {
            body.drop_last()
        } else {
            body
        }
    } else {
        line
    }
}

/// The first line of `text`, without its line ending.
pub open spec fn stripped_line(text: Seq<char>) -> Seq<char> {
    without_line_ending(first_line(text, '\n'))
}

/// The first line is a prefix of the sequence.
pub proof fn lemma_line_len_bound<T>(s: Seq<T>, end: T)
    ensures
        line_len(s, end) <= s.len(),
        s.len() > 0 ==> line_len(s, end) > 0,
    decreases s.len(),
{
    if s.len() > 0 && s[0] != end {
        lemma_line_len_bound(s.drop_first(), end);
    }
}

/// A length `n` is that of the first line exactly when no item before the
/// last of the first `n` is the terminator, and the `n` items either end
/// with the terminator or are the whole sequence.
pub proof fn lemma_line_len_unique<T>(s: Seq<T>, end: T, n: int)
    requires
        0 <= n <= s.len(),
        forall|j: int| 0 <= j < n - 1 ==> s[j] != end,
        (n > 0 && s[n - 1] == end) || (n == s.len() && (n > 0 ==> s[n - 1] != end)),
    ensures
        line_len(s, end) == n,
    decreases s.len(),
{
    if s.len() == 0 {
    } else if s[0] == end {
        if n != 1 {
            assert(s[0] != end);
        }
    } else {
        let rest = s.drop_first();
        assert forall|j: int| 0 <= j < n - 2 implies rest[j] != end by {
            assert(rest[j] == s[j + 1]);
        }
        lemma_line_len_unique(rest, end, n - 1);
    }
}

/// A stretch without terminator in front of a sequence makes its first line
/// longer by the stretch.
pub proof fn lemma_line_len_skips<T>(head: Seq<T>, tail: Seq<T>, end: T)
    requires
        !head.contains(end),
    ensures
        line_len(head + tail, end) == head.len() + line_len(tail, end),
        first_line(head + tail, end) == head + first_line(tail, end),
    decreases head.len(),
{
    lemma_line_len_bound(tail, end);
    if head.len() == 0 {
        assert(head + tail =~= tail);
    } else {
        assert(head[0] != end);
        let rest = head.drop_first();
        assert forall|j: int| 0 <= j < rest.len() implies rest[j] != end by {
            assert(rest[j] == head[j + 1]);
        }
        assert((head + tail).drop_first() =~= rest + tail);
        lemma_line_len_skips(rest, tail, end);
    }
    assert(first_line(head + tail, end) =~= head + first_line(tail, end));
}

/// A sequence in which the terminator does not occur is its own first line:
/// the end of the source ends the line as well.
pub proof fn lemma_first_line_without_end<T>(s: Seq<T>, end: T)
    requires
        !s.contains(end),
    ensures
        first_line(s, end) == s,
{
    lemma_line_len_skips(s, Seq::<T>::empty(), end);
    assert(s + Seq::<T>::empty() =~= s);
}

/// The first line ends with the first terminator and includes it, whatever
/// follows.
pub proof fn lemma_first_line_keeps_end<T>(body: Seq<T>, rest: Seq<T>, end: T)
    requires
        !body.contains(end),
    ensures
        first_line(body + seq![end] + rest, end) == body + seq![end],
{
    let tail = seq![end] + rest;
    assert(tail[0] == end);
    assert(first_line(tail, end) =~= seq![end]);
    lemma_line_len_skips(body, tail, end);
    assert(body + seq![end] + rest =~= body + tail);
}

/// What follows a terminator has no part in the first line.
pub proof fn lemma_first_line_ignores_rest<T>(s: Seq<T>, rest: Seq<T>, end: T, at: int)
    requires
        0 <= at < s.len(),
        s[at] == end,
    ensures
        line_len(s + rest, end) == line_len(s, end),
        first_line(s + rest, end) == first_line(s, end),
    decreases s.len(),
{
    assert((s + rest)[0] == s[0]);
    if s[0] != end {
        let tail = s.drop_first();
        assert(at > 0);
        assert(tail[at - 1] == s[at]);
        assert((s + rest).drop_first() =~= tail + rest);
        lemma_first_line_ignores_rest(tail, rest, end, at - 1);
    }
    lemma_line_len_bound(s, end);
    assert(first_line(s + rest, end) =~= first_line(s, end));
}

/// A line written with a line feed after it is read back as it was written,
/// whatever follows the line feed. The line must hold no line feed itself
/// and must not end with a carriage return, which would count as part of the
/// line ending.
pub proof fn lemma_line_feed_round_trip(text: Seq<char>, rest: Seq<char>)
    requires
        !text.contains('\n'),
        text.len() > 0 ==> text.last() != '\r',
    ensures
        stripped_line(text + seq!['\n'] + rest) == text,
{
    lemma_first_line_keeps_end(text, rest, '\n');
    assert((text + seq!['\n']).drop_last() =~= text);
}

/// A line written with a carriage return and a line feed after it is read
/// back as it was written, whatever follows. The line must hold no line
/// feed itself.
pub proof fn lemma_crlf_round_trip(text: Seq<char>, rest: Seq<char>)
    requires
        !text.contains('\n'),
    ensures
        stripped_line(text + seq!['\r', '\n'] + rest) == text,
{
    let body = text + seq!['\r'];
    assert forall|i: int| 0 <= i < body.len() implies body[i] != '\n' by {
        if i < text.len() {
            assert(text.contains(text[i]));
        }
    }
    lemma_first_line_keeps_end(body, rest, '\n');
    assert(text + seq!['\r', '\n'] + rest =~= body + seq!['\n'] + rest);
    assert((body + seq!['\n']).drop_last() =~= body);
    assert(body.drop_last() =~= text);
}

/// Both line endings read the same: a line that ends with a carriage return
/// and a line feed and the same line that ends with a line feed alone both
/// give the line.
pub proof fn lemma_line_endings_agree(text: Seq<char>)
    requires
        !text.contains('\n'),
        text.len() > 0 ==> text.last() != '\r',
    ensures
        stripped_line(text + seq!['\r', '\n']) == text,
        stripped_line(text + seq!['\n']) == text,
{
    lemma_crlf_round_trip(text, Seq::<char>::empty());
    lemma_line_feed_round_trip(text, Seq::<char>::empty());
    assert(text + seq!['\r', '\n'] + Seq::<char>::empty() =~= text + seq!['\r', '\n']);
    assert(text + seq!['\n'] + Seq::<char>::empty() =~= text + seq!['\n']);
}

/// Either line ending after a text gives the same line, unless the text is
/// a single line that ends with a carriage return of its own.
pub proof fn lemma_line_endings_read_alike(text: Seq<char>)
    requires
        text.contains('\n') || text.len() == 0 || text.last() != '\r',
    ensures
        stripped_line(text + seq!['\r', '\n']) == stripped_line(text + seq!['\n']),
{
    if text.contains('\n') {
        let at = choose|i: int| 0 <= i < text.len() && text[i] == '\n';
        lemma_first_line_ignores_rest(text, seq!['\r', '\n'], '\n', at);
        lemma_first_line_ignores_rest(text, seq!['\n'], '\n', at);
    } else {
        lemma_line_endings_agree(text);
    }
}

/// Text that ends without a line feed is returned whole, a final carriage
/// return included; empty text gives an empty line.
pub proof fn lemma_unterminated_line(text: Seq<char>)
    requires
        !text.contains('\n'),
    ensures
        stripped_line(text) == text,
{
    lemma_first_line_without_end(text, '\n');
    if text.len() > 0 {
        assert(text.contains(text.last()));
    }
}

} // verus!
