//! Reading the character fields of a request, and rendering a canvas.

use crate::drawing_app::canvas::{Canvas, Grid};
use crate::server::handlers::errors::StringTooLong;
use crate::server::handlers::request::NONE_CHARACTER;
use vstd::prelude::*;

verus! {

/// The lower-case form of an ASCII capital letter; any other character is
/// its own.
pub open spec fn ascii_lowercase(character: char) -> char {
    if 'A' <= character && character <= 'Z' {
        ((character as u8) + 32) as char
    } else {
        character
    }
}

/// The text with every ASCII capital letter in lower case.
pub open spec fn to_ascii_lowercase(text: Seq<char>) -> Seq<char> {
    Seq::new(text.len(), |i: int| ascii_lowercase(text[i]))
}

/// The field is the word "none", in whatever case its letters are.
pub open spec fn is_none(field: Seq<char>) -> bool {
    to_ascii_lowercase(field) == NONE_CHARACTER@
}

/// The lower-case form of a character, where it is an ASCII capital letter.
fn lowercase(character: char) -> (lower: char)
    ensures
        lower == ascii_lowercase(character),
{
    if 'A' <= character && character <= 'Z' {
        ((character as u8) + 32) as char
    } else {
        character
    }
}

/// Whether a character field asks for anything: it does unless it is the
/// word "none", in whatever case.
pub fn field_is_not_none(field: &str) -> (asked: bool)
    ensures
        asked == !is_none(field@),
{
    proof {
        reveal_strlit("none");
    }
    if field.unicode_len() != 4 {
        assert(to_ascii_lowercase(field@).len() != NONE_CHARACTER@.len());
        return true;
    }
    let first = lowercase(field.get_char(0));
    let second = lowercase(field.get_char(1));
    let third = lowercase(field.get_char(2));
    let fourth = lowercase(field.get_char(3));
    let none = first == 'n' && second == 'o' && third == 'n' && fourth == 'e';
    proof {
        let lower = to_ascii_lowercase(field@);
        assert(lower[0] == first && lower[1] == second && lower[2] == third && lower[3] == fourth);
        if none {
            assert(lower =~= NONE_CHARACTER@);
        }
    }
    !none
}

/// The single character that a field holds.
pub fn valid_character(field: &str) -> (outcome: Result<char, StringTooLong>)
    ensures
        match outcome {
            Ok(character) => field@.len() == 1 && field@[0] == character,
            Err(_) => field@.len() != 1,
        },
{
    if field.unicode_len() == 1 {
        Ok(field.get_char(0))
    } else {
        Err(StringTooLong)
    }
}

/// The markup that a page begins with.
pub const PAGE_START: &'static str =
    "\n        <!DOCTYPE html>\n        <html lang=\"en\">\n            <head>\n                <title>Rusty Canvas!</title>\n            </head>\n        <body>";

/// The markup that a page ends with.
pub const PAGE_END: &'static str = "</body></html>";

/// The markup of one row: a block that holds the row's characters as they
/// are, and a line feed after it.
pub open spec fn row_html(row: Seq<char>) -> Seq<char> {
    "<div>"@ + row + "</div>"@ + "\n"@
}

/// The markup of the rows, top row first.
pub open spec fn rows_html(rows: Seq<Seq<char>>) -> Seq<char>
    decreases rows.len(),
{
    if rows.len() == 0 {
        Seq::empty()
    } else {
        row_html(rows[0]) + rows_html(rows.drop_first())
    }
}

/// The markup of a canvas: a block of class `canvas` around the markup of
/// its rows.
pub open spec fn canvas_html(grid: Grid) -> Seq<char> {
    "<div class=\"canvas\">"@ + rows_html(grid.rows) + "</div>"@
}

/// The markup of a page that shows a canvas.
pub open spec fn page_html(grid: Grid) -> Seq<char> {
    PAGE_START@ + canvas_html(grid) + PAGE_END@
}

/// Renders a canvas as an HTML element. Characters are not escaped.
pub fn convert_canvas_to_html(canvas: &Canvas) -> (html: String)
    ensures
        html@ == canvas_html(canvas@),
{
    let ghost rows = canvas@.rows;
    let ghost opening = "<div class=\"canvas\">"@;
    let mut html = String::from_str("<div class=\"canvas\">");
    let mut y: usize = 0;
    assert(rows.subrange(0, rows.len() as int) =~= rows);
    let ghost mut done: Seq<char> = Seq::empty();
    while y < canvas.pixels.len()
        invariant
            rows == canvas@.rows,
            y <= canvas.pixels@.len(),
            html@ == opening + done,
            done + rows_html(rows.subrange(y as int, rows.len() as int)) == rows_html(rows),
        decreases canvas.pixels@.len() - y,
    {
        let row = &canvas.pixels[y];
        html.append("<div>");
        let ghost before = html@;
        let mut x: usize = 0;
        while x < row.len()
            invariant
                x <= row@.len(),
                html@ == before + row@.subrange(0, x as int),
            decreases row@.len() - x,
        {
            html.push(row[x]);
            x = x + 1;
        }
        html.append("</div>");
        html.append("\n");
        proof {
            assert(rows.subrange(y as int, rows.len() as int).drop_first() =~= rows.subrange(
                y + 1,
                rows.len() as int,
            ));
            done = done + row_html(row@);
        }
        y = y + 1;
    }
    html.append("</div>");
    html
}

/// Renders a page that shows the canvas.
pub fn construct_html_with_canvas(canvas: &Canvas) -> (html: String)
    ensures
        html@ == page_html(canvas@),
{
    let canvas_element = convert_canvas_to_html(canvas);
    let mut html = String::from_str(PAGE_START);
    html.append(canvas_element.as_str());
    html.append(PAGE_END);
    html
}

} // verus!
