//! Strings as sequences of characters, and texts as sequences of lines.

use vstd::prelude::*;

verus! {

/// The texts of a sequence of strings.
pub open spec fn texts(strings: Seq<String>) -> Seq<Seq<char>> {
    Seq::new(strings.len(), |i: int| strings[i]@)
}

/// The texts of an optional list of strings.
pub open spec fn optional_texts(strings: Option<Vec<String>>) -> Option<Seq<Seq<char>>> {
    match strings {
        Some(list) => Some(texts(list@)),
        None => None,
    }
}

/// Whether a string holds the given text.
pub fn holds_text(string: &String, text: &str) -> (holds: bool)
    ensures
        holds == (string@ == text@),
{
    let wanted = text.to_owned();
    *string == wanted
}

/// Whether the first line of `text` ends at `end`: no line feed comes before
/// `end`, and `end` is the place of a line feed or the end of the text.
pub open spec fn is_line_end(text: Seq<char>, end: int) -> bool {
    &&& 0 <= end <= text.len()
    &&& forall|j: int| 0 <= j < end ==> #[trigger] text[j] != '\n'
    &&& end < text.len() ==> text[end] == '\n'
}

/// Where the first line of `text` ends.
pub open spec fn line_end(text: Seq<char>) -> int {
    choose|end: int| is_line_end(text, end)
}

/// A line without the carriage return at its end, if it has one there.
pub open spec fn without_carriage_return(line: Seq<char>) -> Seq<char> {
    if line.len() > 0 && line.last() == '\r' {
        line.drop_last()
    } else {
        line
    }
}

/// The lines of a text.
///
/// A line ends at a line feed. The line feed is no part of the line, and
/// neither is a carriage return that stands directly before it. The last line
/// needs no line feed, and a text that ends in a line feed has no further,
/// empty line after it. A carriage return anywhere else is a character like
/// any other.
pub open spec fn split_lines(text: Seq<char>) -> Seq<Seq<char>>
    decreases text.len(),
{
    let end = line_end(text);
    if text.len() == 0 {
        Seq::empty()
    } else if 0 <= end < text.len() {
        seq![without_carriage_return(text.take(end))] + split_lines(text.skip(end + 1))
    } else {
        seq![text]
    }
}

/// The line under way while a text is split: what has been written of it,
/// and after that a carriage return where one is held back.
pub open spec fn line_under_way(written: Seq<char>, held: bool) -> Seq<char> {
    if held {
        written.push('\r')
    } else {
        written
    }
}

/// `String::push` appends the character to the string.
pub assume_specification[ std::string::String::push ](text: &mut std::string::String, ch: char)
    ensures
        final(text)@ == old(text)@.push(ch),
;

/// The first line of every text ends somewhere, and in one place only.
pub proof fn lemma_line_end(text: Seq<char>)
    ensures
        is_line_end(text, line_end(text)),
        forall|end: int| is_line_end(text, end) ==> end == line_end(text),
{
    lemma_line_ends_from(text, 0);
    let chosen = line_end(text);
    assert forall|end: int| is_line_end(text, end) implies end == chosen by {
        if chosen < end {
            assert(text[chosen] != '\n');
        } else if end < chosen {
            assert(text[end] != '\n');
        }
    }
}

/// A text without line feed before `start` has a first line that ends at
/// `start` or after it.
proof fn lemma_line_ends_from(text: Seq<char>, start: int)
    requires
        0 <= start <= text.len(),
        forall|j: int| 0 <= j < start ==> #[trigger] text[j] != '\n',
    ensures
        exists|end: int| is_line_end(text, end),
    decreases text.len() - start,
{
    if start == text.len() || text[start] == '\n' {
        assert(is_line_end(text, start));
    } else {
        lemma_line_ends_from(text, start + 1);
    }
}

/// A piece without line feed, then a line feed, then more text: the piece,
/// less a carriage return at its end, is the first line, and the lines of the
/// rest follow.
pub proof fn lemma_lines_after_line_feed(piece: Seq<char>, rest: Seq<char>)
    requires
        forall|j: int| 0 <= j < piece.len() ==> #[trigger] piece[j] != '\n',
    ensures
        split_lines(piece + seq!['\n'] + rest) == seq![without_carriage_return(piece)]
            + split_lines(rest),
{
    let text = piece + seq!['\n'] + rest;
    let end = piece.len() as int;
    assert(text[end] == '\n');
    assert forall|j: int| 0 <= j < end implies #[trigger] text[j] != '\n' by {
        assert(text[j] == piece[j]);
    }
    assert(is_line_end(text, end));
    lemma_line_end(text);
    assert(text.take(end) =~= piece);
    assert(text.skip(end + 1) =~= rest);
}

/// A text without line feed is one line, or none where it is empty.
pub proof fn lemma_lines_without_line_feed(piece: Seq<char>)
    requires
        forall|j: int| 0 <= j < piece.len() ==> #[trigger] piece[j] != '\n',
    ensures
        split_lines(piece) == if piece.len() == 0 {
            Seq::<Seq<char>>::empty()
        } else {
            seq![piece]
        },
{
    assert(is_line_end(piece, piece.len() as int));
    lemma_line_end(piece);
}

/// No line holds a line feed.
pub proof fn law_lines_hold_no_line_feed(text: Seq<char>)
    ensures
        forall|i: int, j: int|
            0 <= i < split_lines(text).len() && 0 <= j < split_lines(text)[i].len()
                ==> split_lines(text)[i][j] != '\n',
    decreases text.len(),
{
    lemma_line_end(text);
    let end = line_end(text);
    if text.len() > 0 && end < text.len() {
        let first = without_carriage_return(text.take(end));
        let rest = split_lines(text.skip(end + 1));
        law_lines_hold_no_line_feed(text.skip(end + 1));
        assert forall|i: int, j: int|
            0 <= i < split_lines(text).len() && 0 <= j < split_lines(text)[i].len() implies split_lines(
            text,
        )[i][j] != '\n' by {
            if i == 0 {
                assert(split_lines(text)[0] == first);
                assert(first[j] == text[j]);
            } else {
                assert(split_lines(text)[i] == rest[i - 1]);
            }
        }
    }
}

/// Splits a text into its lines.
pub fn lines_of(text: &str) -> (lines: Vec<String>)
    ensures
        texts(lines@) == split_lines(text@),
{
    let mut lines: Vec<String> = Vec::new();
    // A carriage return is held back until the next character shows whether
    // it stands before a line feed.
    let mut written = String::new();
    let mut held = false;
    assert(line_under_way(written@, held) + text@.skip(0) =~= text@);
    for ch in it: text.chars()
        invariant
            it.seq() == text@,
            forall|j: int| 0 <= j < written@.len() ==> #[trigger] written@[j] != '\n',
            !held ==> written@.len() == 0 || written@.last() != '\r',
            split_lines(text@) == texts(lines@) + split_lines(
                line_under_way(written@, held) + text@.skip(it.index()),
            ),
    {
        let ghost piece = line_under_way(written@, held);
        let ghost rest = text@.skip(it.index() + 1);
        assert(text@.skip(it.index()) =~= seq![ch] + rest);
        if ch == '\n' {
            proof {
                lemma_lines_after_line_feed(piece, rest);
                assert(piece + text@.skip(it.index()) =~= piece + seq!['\n'] + rest);
                assert(without_carriage_return(piece) =~= written@);
                assert(texts(lines@.push(written)) =~= texts(lines@) + seq![written@]);
                assert(line_under_way(Seq::<char>::empty(), false) + rest =~= rest);
            }
            lines.push(written);
            written = String::new();
            held = false;
        } else {
            if held {
                written.push('\r');
            }
            if ch == '\r' {
                held = true;
            } else {
                written.push(ch);
                held = false;
            }
            assert(line_under_way(written@, held) + rest =~= piece + text@.skip(it.index()));
        }
    }
    let ghost piece = line_under_way(written@, held);
    assert(piece + text@.skip(text@.len() as int) =~= piece);
    proof {
        lemma_lines_without_line_feed(piece);
    }
    if held {
        written.push('\r');
    }
    if !written.as_str().is_empty() {
        assert(texts(lines@.push(written)) =~= texts(lines@) + seq![written@]);
        lines.push(written);
    } else {
        assert(texts(lines@) + Seq::<Seq<char>>::empty() =~= texts(lines@));
    }
    lines
}

} // verus!
