//! The text in which a canvas is stored, read back into rows.
//!
//! A stored canvas is one line per row. A line ends at a line feed and
//! nowhere else: every other character, a carriage return too, belongs to
//! the row it stands in. The last line may go without its line feed.

use crate::drawing_app::canvas::{rows_of, text_of};
use vstd::prelude::*;

verus! {

/// The number of characters before the first line feed of `text`, or the
/// length of `text` where it holds none.
pub open spec fn line_length(text: Seq<char>) -> nat
    decreases text.len(),
{
    if text.len() == 0 || text[0] == '\n' {
        0
    } else {
        1 + line_length(text.drop_first())
    }
}

/// The lines of `text`, each without the line feed that ends it. A final
/// line that no line feed ends is a line as it stands, unless it is empty.
pub open spec fn lines(text: Seq<char>) -> Seq<Seq<char>>
    decreases text.len(),
{
    if text.len() == 0 {
        Seq::empty()
    } else {
        let length = line_length(text);
        if length >= text.len() {
            seq![text]
        } else {
            seq![text.subrange(0, length as int)] + lines(
                text.subrange(length as int + 1, text.len() as int),
            )
        }
    }
}

/// No row holds a line feed: the rows are the lines of their text.
pub open spec fn rows_are_lines(rows: Seq<Seq<char>>) -> bool {
    forall|y: int| 0 <= y < rows.len() ==> !(#[trigger] rows[y]).contains('\n')
}

/// `line_length` stops at the first line feed and nowhere before.
pub proof fn lemma_line_length(text: Seq<char>)
    ensures
        line_length(text) <= text.len(),
        forall|i: int| 0 <= i < line_length(text) ==> text[i] != '\n',
        line_length(text) < text.len() ==> text[line_length(text) as int] == '\n',
    decreases text.len(),
{
    if text.len() > 0 && text[0] != '\n' {
        let rest = text.drop_first();
        lemma_line_length(rest);
        assert forall|i: int| 0 <= i < line_length(text) implies text[i] != '\n' by {
            if i > 0 {
                assert(text[i] == rest[i - 1]);
            }
        }
    }
}

/// Where the first `length` characters hold no line feed and a line feed
/// or the end follows them, `length` is the line length.
pub proof fn lemma_line_length_is(text: Seq<char>, length: int)
    requires
        0 <= length <= text.len(),
        forall|i: int| 0 <= i < length ==> text[i] != '\n',
        length < text.len() ==> text[length] == '\n',
    ensures
        line_length(text) == length,
{
    lemma_line_length(text);
}

/// The text of some rows is empty or ends with a line feed.
pub proof fn lemma_text_ends_with_line_feed(rows: Seq<Seq<char>>)
    ensures
        rows.len() == 0 ==> text_of(rows).len() == 0,
        rows.len() > 0 ==> text_of(rows).len() > 0 && text_of(rows).last() == '\n',
    decreases rows.len(),
{
    if rows.len() > 0 {
        lemma_text_ends_with_line_feed(rows.drop_first());
    }
}

/// Splitting a text into lines and writing the lines out again gives the
/// text back, provided that the text is empty or ends with a line feed.
pub proof fn lemma_lines_written_out(text: Seq<char>)
    requires
        text.len() == 0 || text.last() == '\n',
    ensures
        text_of(lines(text)) == text,
    decreases text.len(),
{
    if text.len() > 0 {
        lemma_line_length(text);
        let length = line_length(text) as int;
        let line = text.subrange(0, length);
        let rest = text.subrange(length + 1, text.len() as int);
        lemma_lines_written_out(rest);
        assert((seq![line] + lines(rest)).drop_first() =~= lines(rest));
    }
}

/// Rows that hold no line feed are the lines of their own text.
pub proof fn lemma_lines_of_text(rows: Seq<Seq<char>>)
    requires
        rows_are_lines(rows),
    ensures
        lines(text_of(rows)) == rows,
    decreases rows.len(),
{
    if rows.len() > 0 {
        let first = rows[0];
        let later = rows.drop_first();
        let text = text_of(rows);
        lemma_lines_of_text(later);
        lemma_line_length_is(text, first.len() as int);
        assert(text.subrange(0, first.len() as int) =~= first);
        assert(text.subrange(first.len() as int + 1, text.len() as int) =~= text_of(later));
    }
}

/// Reads stored text back into rows of characters: the lines of the text,
/// each without its line feed.
pub fn parse_rows(contents: &str) -> (rows: Vec<Vec<char>>)
    ensures
        rows_of(rows@) == lines(contents@),
{
    let mut rows: Vec<Vec<char>> = Vec::new();
    let mut line: Vec<char> = Vec::new();
    let ghost text = contents@;
    let ghost mut line_start: int = 0;
    assert(text.subrange(0, text.len() as int) =~= text);
    for character in it: contents.chars()
        invariant
            it.seq() == text,
            text == contents@,
            0 <= line_start <= it.index(),
            line@ == text.subrange(line_start, it.index() as int),
            forall|i: int| line_start <= i < it.index() ==> text[i] != '\n',
            rows_of(rows@) + lines(text.subrange(line_start, text.len() as int)) == lines(text),
    {
        let ghost at = it.index() as int;
        if character == '\n' {
            proof {
                let rest = text.subrange(line_start, text.len() as int);
                lemma_line_length_is(rest, at - line_start);
                assert(rest.subrange(0, at - line_start) =~= line@);
                assert(rest.subrange(at - line_start + 1, rest.len() as int) =~= text.subrange(
                    at + 1,
                    text.len() as int,
                ));
            }
            rows.push(line);
            line = Vec::new();
            proof {
                line_start = at + 1;
            }
        } else {
            line.push(character);
        }
    }
    proof {
        let rest = text.subrange(line_start, text.len() as int);
        lemma_line_length_is(rest, rest.len() as int);
    }
    if line.len() > 0 {
        rows.push(line);
    }
    rows
}

} // verus!
