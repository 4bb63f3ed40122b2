use rusty_canvas::drawing_app::application::{
    apply_draw_commands, ApplicationOptions, DrawingApplication, LoadError,
};
use rusty_canvas::drawing_app::canvas::{Canvas, Dimensions, Point};
use rusty_canvas::drawing_app::commands::{CommandName, DrawCommand};
use rusty_canvas::drawing_app::storage::parse_rows;

fn application(width: i32, height: i32, blank_character: char) -> DrawingApplication {
    DrawingApplication::new(ApplicationOptions {
        width,
        height,
        blank_character,
        canvas_path: String::from("canvas_data.txt"),
        canvas_temp_path: String::from("temp_canvas_data.txt"),
    })
}

fn rows(lines: &[&str]) -> Vec<Vec<char>> {
    lines.iter().map(|line| line.chars().collect()).collect()
}

fn fill(x: i32, y: i32, width: i32, height: i32, character: char) -> DrawCommand {
    DrawCommand {
        name: CommandName::FillRectangle,
        position: Point { x, y },
        dimensions: Some(Dimensions { width, height }),
        character,
    }
}

#[test]
fn test_parse_rows_splits_at_line_feeds() {
    assert_eq!(rows(&["ab", "cd"]), parse_rows("ab\ncd\n"));
}

#[test]
fn test_parse_rows_of_empty_text() {
    assert_eq!(Vec::<Vec<char>>::new(), parse_rows(""));
}

#[test]
fn test_parse_rows_keeps_empty_lines() {
    assert_eq!(rows(&["", "", ""]), parse_rows("\n\n\n"));
}

#[test]
fn test_parse_rows_takes_a_last_line_without_line_feed() {
    assert_eq!(rows(&["ab", "cd"]), parse_rows("ab\ncd"));
}

#[test]
fn test_parse_rows_keeps_carriage_returns() {
    assert_eq!(rows(&["ab\r", "cd\r"]), parse_rows("ab\r\ncd\r\n"));
    assert_eq!(rows(&["a\rb", "\r\r\r", "cd\r"]), parse_rows("a\rb\n\r\r\r\ncd\r"));
    assert_eq!(rows(&["\r"]), parse_rows("\r\n"));
    assert_eq!(rows(&["\r"]), parse_rows("\r"));
}

#[test]
fn test_parse_rows_splits_at_every_line_feed_and_nowhere_else() {
    let texts = [
        "", "\n", "a", "a\n", "a\nb", "foo\nbar\n\r\nbaz\r", "\r\n\r\n", "x\r\r\ny", "\n\n",
        "\u{2028}a\u{85}\n\u{b}\u{c}",
    ];
    for text in texts {
        let expected: Vec<Vec<char>> = text
            .split_inclusive('\n')
            .map(|line| line.strip_suffix('\n').unwrap_or(line).chars().collect())
            .collect();
        assert_eq!(expected, parse_rows(text));
    }
}

#[test]
fn test_parse_rows_agrees_with_lines_of_std_without_carriage_returns() {
    let texts = ["", "\n", "a", "a\n", "a\nb", "foo\nbar\n\nbaz", "\n\n", "x y\n z"];
    for text in texts {
        let expected: Vec<Vec<char>> = text.lines().map(|line| line.chars().collect()).collect();
        assert_eq!(expected, parse_rows(text));
    }
}

#[test]
fn test_parse_rows_reads_any_character() {
    let blank = '\u{2B1B}';
    assert_eq!(vec![vec![blank, 'x'], vec!['y', blank]], parse_rows("\u{2B1B}x\ny\u{2B1B}\n"));
}

#[test]
fn test_text_round_trip() {
    let canvas = apply_draw_commands(
        &Canvas::blank_canvas(6, 4, '.'),
        vec![fill(1, 1, 3, 2, '#')],
    );
    let text = canvas.to_string();
    assert_eq!("......\n.###..\n.###..\n......\n", text);
    let again = Canvas::from_chars(parse_rows(&text), 6, 4);
    assert_eq!(canvas.pixels, again.pixels);
    assert_eq!(text, again.to_string());
}

#[test]
fn test_text_round_trip_with_line_feed_in_a_cell() {
    let canvas = apply_draw_commands(
        &Canvas::blank_canvas(3, 2, '.'),
        vec![fill(1, 0, 1, 1, '\n')],
    );
    let text = canvas.to_string();
    assert_eq!(".\n.\n...\n", text);
    let again = Canvas::from_chars(parse_rows(&text), 3, 2);
    assert_eq!(text, again.to_string());
    assert_ne!(canvas.pixels, again.pixels);
}

#[test]
fn test_text_round_trip_with_carriage_return_at_the_end_of_a_row() {
    let canvas = apply_draw_commands(
        &Canvas::blank_canvas(3, 1, '.'),
        vec![fill(2, 0, 1, 1, '\r')],
    );
    let text = canvas.to_string();
    assert_eq!("..\r\n", text);
    let again = Canvas::from_chars(parse_rows(&text), 3, 1);
    assert_eq!(canvas.pixels, again.pixels);
    assert_eq!(text, again.to_string());
}

#[test]
fn test_text_round_trip_of_a_single_carriage_return() {
    let canvas = Canvas::from_chars(vec![vec!['\r']], 1, 1);
    let text = canvas.to_string();
    assert_eq!("\r\n", text);
    let again = Canvas::from_chars(parse_rows(&text), 1, 1);
    assert_eq!(vec![vec!['\r']], again.pixels);
    assert_eq!("\r\n", again.to_string());
}

#[test]
fn test_text_round_trip_of_any_other_character() {
    let characters = ['\r', '\t', '\0', ' ', '\u{b}', '\u{c}', '\u{85}', '\u{2028}', '\u{2029}', '\u{2B1B}', '\u{10FFFF}'];
    for character in characters {
        let canvas = Canvas::blank_canvas(2, 2, character);
        let text = canvas.to_string();
        let again = Canvas::from_chars(parse_rows(&text), 2, 2);
        assert_eq!(canvas.pixels, again.pixels);
        assert_eq!(text, again.to_string());
    }
}

#[test]
fn test_redraw_of_a_stored_carriage_return() {
    let app = application(1, 1, ' ');
    let read = app.redraw("\r\n", vec![]).unwrap();
    assert_eq!(vec![vec!['\r']], read.pixels);
    assert_eq!("\r\n", read.to_string());
    let drawn = app.redraw("\r\n", vec![fill(0, 0, 1, 1, 'x')]).unwrap();
    assert_eq!("x\n", drawn.to_string());
}

#[test]
fn test_sequential_draws_with_carriage_return_in_the_last_column() {
    let app = application(1, 1, ' ');
    let first = app.redraw("", vec![fill(0, 0, 1, 1, '\r')]).unwrap();
    let stored = first.to_string();
    assert_eq!("\r\n", stored);
    let read = app.redraw(&stored, vec![]).unwrap();
    assert_eq!(first.pixels, read.pixels);
    assert_eq!(stored, read.to_string());

    let app = application(3, 2, '.');
    let first = app.redraw("", vec![fill(2, 0, 1, 2, '\r')]).unwrap();
    let stored = first.to_string();
    assert_eq!("..\r\n..\r\n", stored);
    let second = app.redraw(&stored, vec![fill(0, 1, 1, 1, 'B')]).unwrap();
    let stored = second.to_string();
    assert_eq!("..\r\nB.\r\n", stored);
    let at_once = app
        .redraw("", vec![fill(2, 0, 1, 2, '\r'), fill(0, 1, 1, 1, 'B')])
        .unwrap();
    assert_eq!(second.pixels, at_once.pixels);
    assert_eq!(stored, at_once.to_string());
}

#[test]
fn test_load_takes_a_carriage_return_for_a_cell() {
    // a text with carriage returns before its line feeds has rows that are
    // one character longer
    assert_eq!(Some(LoadError::ShapeMismatch), application(2, 2, ' ').load("ab\r\ncd\r\n").err());
    let loaded = application(3, 2, ' ').load("ab\r\ncd\r\n").unwrap();
    assert_eq!(rows(&["ab\r", "cd\r"]), loaded.pixels);
}

#[test]
fn test_load_of_empty_text_is_blank() {
    let loaded = application(3, 2, '-').load("").unwrap();
    assert_eq!(3, loaded.dimensions.width);
    assert_eq!(2, loaded.dimensions.height);
    assert_eq!("---\n---\n", loaded.to_string());
}

#[test]
fn test_load_of_stored_text() {
    let loaded = application(3, 2, '-').load("ab-\n--c\n").unwrap();
    assert_eq!(rows(&["ab-", "--c"]), loaded.pixels);
    assert_eq!(3, loaded.dimensions.width);
    assert_eq!(2, loaded.dimensions.height);
}

#[test]
fn test_load_with_negative_extent() {
    assert_eq!(Some(LoadError::NegativeExtent), application(-1, 2, ' ').load("").err());
    assert_eq!(Some(LoadError::NegativeExtent), application(2, -1, ' ').load("").err());
}

#[test]
fn test_load_with_wrong_number_of_rows() {
    assert_eq!(Some(LoadError::ShapeMismatch), application(3, 3, ' ').load("abc\nabc\n").err());
}

#[test]
fn test_load_with_wrong_length_of_a_row() {
    assert_eq!(Some(LoadError::ShapeMismatch), application(3, 2, ' ').load("abc\nab\n").err());
    assert_eq!(Some(LoadError::ShapeMismatch), application(-3, 1, ' ').load("abc\n").err());
}

#[test]
fn test_load_of_empty_canvas() {
    let loaded = application(4, 0, ' ').load("").unwrap();
    assert_eq!("", loaded.to_string());
    assert_eq!(4, loaded.dimensions.width);
    let narrow = application(0, 2, ' ').load("\n\n").unwrap();
    assert_eq!("\n\n", narrow.to_string());
}

#[test]
fn test_redraw_without_commands_reads_the_canvas() {
    let app = application(3, 2, '-');
    assert_eq!("---\n---\n", app.redraw("", vec![]).unwrap().to_string());
    assert_eq!("ab-\n--c\n", app.redraw("ab-\n--c\n", vec![]).unwrap().to_string());
}

#[test]
fn test_redraw_gives_the_error_of_load() {
    let app = application(3, 2, '-');
    assert_eq!(
        Some(LoadError::ShapeMismatch),
        app.redraw("ab\n", vec![fill(0, 0, 1, 1, 'x')]).err()
    );
}

#[test]
fn test_sequential_draws_accumulate() {
    let app = application(8, 3, ' ');
    let first = app.redraw("", vec![fill(0, 0, 2, 2, 'A')]).unwrap();
    let stored = first.to_string();
    assert_eq!("AA      \nAA      \n        \n", stored);
    let second = app.redraw(&stored, vec![fill(1, 1, 3, 2, 'B')]).unwrap();
    let stored = second.to_string();
    assert_eq!("AA      \nABBB    \n BBB    \n", stored);
    let read = app.redraw(&stored, vec![]).unwrap();
    assert_eq!(stored, read.to_string());

    let at_once = app
        .redraw("", vec![fill(0, 0, 2, 2, 'A'), fill(1, 1, 3, 2, 'B')])
        .unwrap();
    assert_eq!(stored, at_once.to_string());
}

#[test]
fn test_paths_of_the_application() {
    let app = application(1, 1, ' ');
    assert_eq!("canvas_data.txt", app.canvas_path());
    assert_eq!("temp_canvas_data.txt", app.canvas_temp_path());
}
