use rusty_canvas::drawing_app::operations::draw_outline_rectangle::execute;
use rusty_canvas::drawing_app::{canvas, commands};

#[test]
fn test_simple_outline() {
    // simple outline rectangle draw operation
    let canvas = canvas::Canvas::blank_canvas(10, 8, ' ');
    let command: commands::DrawCommand = commands::DrawCommand {
        name: commands::CommandName::OutlineRectangle,
        position: canvas::Point {x: 4, y: 3},
        dimensions: Some(canvas::Dimensions {
            width: 3,
            height: 4
        }),
        character: 'X',
    };
    let actual = execute(&canvas, &command);
    let expected = "          \n          \n          \n    XXX   \n    X X   \n    X X   \n    XXX   \n          \n";

    assert_eq!(expected, &actual.to_string());
    assert_eq!(actual.pixels[3][3], ' ');
    assert_eq!(actual.pixels[3][4], 'X');
    // second row of shape should be empty in the middle and only include edges
    assert_eq!(actual.pixels[4][4], 'X');
    // the middle is left empty
    assert_eq!(actual.pixels[4][5], ' ');
}

#[test]
fn draw_outline_rectangle_test_width_out_of_bounds() {
    // the edge that lies beyond the canvas is not drawn
    let canvas = canvas::Canvas::blank_canvas(10, 8, ' ');
    let command: commands::DrawCommand = commands::DrawCommand {
        name: commands::CommandName::OutlineRectangle,
        position: canvas::Point {x: 4, y: 3},
        dimensions: Some(canvas::Dimensions {
            width: 8,
            height: 3
        }),
        character: 'X',
    };
    let actual = execute(&canvas, &command);
    let expected = "          \n          \n          \n    XXXXXX\n    X     \n    XXXXXX\n          \n          \n";

    assert_eq!(expected, &actual.to_string());
}

#[test]
fn draw_outline_rectangle_test_height_out_of_bounds() {
    // the edge that lies beyond the canvas is not drawn
    let canvas = canvas::Canvas::blank_canvas(10, 8, ' ');
    let command: commands::DrawCommand = commands::DrawCommand {
        name: commands::CommandName::OutlineRectangle,
        position: canvas::Point {x: 4, y: 3},
        dimensions: Some(canvas::Dimensions {
            width: 3,
            height: 6
        }),
        character: '!',
    };
    let actual = execute(&canvas, &command);
    let expected = "          \n          \n          \n    !!!   \n    ! !   \n    ! !   \n    ! !   \n    ! !   \n";

    assert_eq!(expected, &actual.to_string());
}

#[test]
fn draw_outline_rectangle_test_height_and_width_out_of_bounds() {
    // the rectangle is cut off at the edge of the canvas
    let canvas = canvas::Canvas::blank_canvas(10, 8, ' ');
    let command: commands::DrawCommand = commands::DrawCommand {
        name: commands::CommandName::OutlineRectangle,
        position: canvas::Point {x: 4, y: 3},
        dimensions: Some(canvas::Dimensions {
            width: 8,
            height: 6
        }),
        character: '4',
    };
    let actual = execute(&canvas, &command);
    let expected = "          \n          \n          \n    444444\n    4     \n    4     \n    4     \n    4     \n";

    assert_eq!(expected, &actual.to_string());
}

#[test]
fn draw_outline_rectangle_test_negative_height() {
    // a rectangle with negative height has no effect
    let canvas = canvas::Canvas::blank_canvas(10, 8, ' ');
    let command: commands::DrawCommand = commands::DrawCommand {
        name: commands::CommandName::OutlineRectangle,
        position: canvas::Point {x: 4, y: 3},
        dimensions: Some(canvas::Dimensions {
            width: 8,
            height: -5
        }),
        character: '!',
    };
    let actual = execute(&canvas, &command);
    let expected = "          \n          \n          \n          \n          \n          \n          \n          \n";

    assert_eq!(expected, &actual.to_string());
}

#[test]
fn draw_outline_rectangle_test_negative_width() {
    // a rectangle with negative width has no effect
    let canvas = canvas::Canvas::blank_canvas(10, 8, ' ');
    let command: commands::DrawCommand = commands::DrawCommand {
        name: commands::CommandName::OutlineRectangle,
        position: canvas::Point {x: 4, y: 3},
        dimensions: Some(canvas::Dimensions {
            width: -3,
            height: 5
        }),
        character: '-',
    };
    let actual = execute(&canvas, &command);
    let expected = "          \n          \n          \n          \n          \n          \n          \n          \n";

    assert_eq!(expected, &actual.to_string());
}

#[test]
fn draw_outline_rectangle_test_0_height() {
    // a rectangle with 0 height has no effect
    let canvas = canvas::Canvas::blank_canvas(10, 8, ' ');
    let command: commands::DrawCommand = commands::DrawCommand {
        name: commands::CommandName::OutlineRectangle,
        position: canvas::Point {x: 4, y: 3},
        dimensions: Some(canvas::Dimensions {
            width: 8,
            height: 0
        }),
        character: '!',
    };
    let actual = execute(&canvas, &command);
    let expected = "          \n          \n          \n          \n          \n          \n          \n          \n";

    assert_eq!(expected, &actual.to_string());
}

#[test]
fn draw_outline_rectangle_test_0_width() {
    // a rectangle with 0 width has no effect
    let canvas = canvas::Canvas::blank_canvas(10, 8, ' ');
    let command: commands::DrawCommand = commands::DrawCommand {
        name: commands::CommandName::OutlineRectangle,
        position: canvas::Point {x: 4, y: 3},
        dimensions: Some(canvas::Dimensions {
            width: 0,
            height: 5
        }),
        character: '-',
    };
    let actual = execute(&canvas, &command);
    let expected = "          \n          \n          \n          \n          \n          \n          \n          \n";

    assert_eq!(expected, &actual.to_string());
}

#[test]
fn draw_outline_rectangle_test_negative_x_start_position() {
    // a command with negative x start position draws if the edge is a valid position on canvas
    let canvas = canvas::Canvas::blank_canvas(10, 8, ' ');
    let command: commands::DrawCommand = commands::DrawCommand {
        name: commands::CommandName::OutlineRectangle,
        position: canvas::Point {x: -3, y: 3},
        dimensions: Some(canvas::Dimensions {
            width: 5,
            height: 5
        }),
        character: '-',
    };
    let actual = execute(&canvas, &command);
    let expected = "          \n          \n          \n--        \n -        \n -        \n -        \n--        \n";

    assert_eq!(expected, &actual.to_string());
}

#[test]
fn draw_outline_rectangle_test_negative_y_start_position() {
    // a command with negative y start position draws if the edge is a valid position on canvas
    let canvas = canvas::Canvas::blank_canvas(10, 8, ' ');
    let command: commands::DrawCommand = commands::DrawCommand {
        name: commands::CommandName::OutlineRectangle,
        position: canvas::Point {x: 3, y: -3},
        dimensions: Some(canvas::Dimensions {
            width: 5,
            height: 5
        }),
        character: '*',
    };
    let actual = execute(&canvas, &command);
    let expected = "   *   *  \n   *****  \n          \n          \n          \n          \n          \n          \n";

    assert_eq!(expected, &actual.to_string());
}

#[test]
fn draw_outline_rectangle_test_dimensions_empty() {
    // without dimensions there is no rectangle, and nothing is drawn
    let canvas = canvas::Canvas::blank_canvas(10, 8, ' ');
    let command: commands::DrawCommand = commands::DrawCommand {
        name: commands::CommandName::OutlineRectangle,
        position: canvas::Point {x: 4, y: 3},
        dimensions: None,
        character: 'X',
    };
    let actual = execute(&canvas, &command);
    let expected = "          \n          \n          \n          \n          \n          \n          \n          \n";

    assert_eq!(expected, &actual.to_string());
}

#[test]
fn draw_outline_rectangle_test_repeated_operation_idempotence() {
    // drawing the same rectangle a second time changes nothing more
    let canvas = canvas::Canvas::blank_canvas(10, 8, ' ');
    let command: commands::DrawCommand = commands::DrawCommand {
        name: commands::CommandName::OutlineRectangle,
        position: canvas::Point {x: 4, y: 3},
        dimensions: Some(canvas::Dimensions {
            width: 8,
            height: 6
        }),
        character: '!',
    };

    let first_canvas = execute(&canvas, &command);
    let actual = execute(&first_canvas, &command);

    let expected = "          \n          \n          \n    !!!!!!\n    !     \n    !     \n    !     \n    !     \n";

    assert_eq!(expected, &actual.to_string());
}
