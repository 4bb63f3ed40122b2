//! The application: its options, the loading of the stored canvas and the
//! engine that applies a batch of commands to it.
//!
//! Reading and writing the store is left to the caller. One drawing step is:
//! read the stored text, hand it to [`DrawingApplication::redraw`] with the
//! commands, write out the text of the canvas that comes back.

use crate::drawing_app::canvas::{
    blank_grid,
    has_shape,
    lemma_paint,
    lemma_paint_twice,
    rows_of,
    Canvas,
    Cell,
    Dimensions,
    Grid,
};
use crate::drawing_app::commands::{CommandName, DrawCommand};
use crate::drawing_app::operations::draw_fill_rectangle;
use crate::drawing_app::operations::draw_fill_rectangle::fill_rectangle_of;
use crate::drawing_app::operations::draw_flood_fill_rectangle;
use crate::drawing_app::operations::draw_flood_fill_rectangle::{
    connected,
    flood_fill_of,
    lemma_connected_to_itself,
    lemma_flood_without_effect,
    region,
};
use crate::drawing_app::operations::draw_outline_rectangle;
use crate::drawing_app::operations::draw_outline_rectangle::outline_rectangle_of;
use crate::drawing_app::operations::utils::{
    border,
    cell_of,
    has_area,
    in_rectangle,
    on_edge,
    rectangle,
};
use crate::drawing_app::storage::{
    lemma_lines_of_text,
    lemma_lines_written_out,
    lemma_text_ends_with_line_feed,
    lines,
    parse_rows,
    rows_are_lines,
};
use vstd::prelude::*;

verus! {

/// What an application is set up with: the extent of its canvas, the
/// character of an untouched cell, and where the canvas is stored.
pub struct ApplicationOptions {
    pub width: i32,
    pub height: i32,
    pub blank_character: char,
    pub canvas_path: String,
    pub canvas_temp_path: String,
}

/// Why stored text could not be taken for the canvas.
#[derive(Clone, Copy, Debug, PartialEq, Eq, Structural)]
pub enum LoadError {
    /// Nothing is stored yet and the configured extent is negative, so no
    /// blank canvas can be made.
    NegativeExtent,
    /// The stored text does not have the configured number of lines, or a
    /// line does not have the configured number of characters.
    ShapeMismatch,
}

/// The drawing application. Its options are fixed when it is made.
pub struct DrawingApplication {
    options: ApplicationOptions,
}

/// The grid after one command.
pub open spec fn apply(grid: Grid, command: DrawCommand) -> Grid {
    match command.name {
        CommandName::FillRectangle => fill_rectangle_of(
            grid,
            command.position,
            command.dimensions,
            command.character,
        ),
        CommandName::OutlineRectangle => outline_rectangle_of(
            grid,
            command.position,
            command.dimensions,
            command.character,
        ),
        CommandName::FloodFill => flood_fill_of(grid, command.position, command.character),
    }
}

/// The grid after the commands were applied one after the other, the first
/// command first: each command works on what the one before it left.
pub open spec fn apply_all(grid: Grid, commands: Seq<DrawCommand>) -> Grid
    decreases commands.len(),
{
    if commands.len() == 0 {
        grid
    } else {
        apply_all(apply(grid, commands[0]), commands.drop_first())
    }
}

/// The canvas that stored text stands for. Empty text stands for the blank
/// canvas of the configured extent; any other text is taken line by line
/// and must have that extent.
pub open spec fn stored_grid(
    contents: Seq<char>,
    width: int,
    height: int,
    blank_character: char,
) -> Result<Grid, LoadError> {
    if contents.len() == 0 {
        if 0 <= width && 0 <= height {
            Ok(blank_grid(width, height, blank_character))
        } else {
            Err(LoadError::NegativeExtent)
        }
    } else if has_shape(lines(contents), width, height) {
        Ok(Grid { width, height, rows: lines(contents) })
    } else {
        Err(LoadError::ShapeMismatch)
    }
}

/// The canvas after a drawing step: the stored canvas with the commands
/// applied in order.
pub open spec fn redrawn_grid(
    contents: Seq<char>,
    width: int,
    height: int,
    blank_character: char,
    commands: Seq<DrawCommand>,
) -> Result<Grid, LoadError> {
    match stored_grid(contents, width, height, blank_character) {
        Ok(grid) => Ok(apply_all(grid, commands)),
        Err(error) => Err(error),
    }
}

/// Whether there are `height` rows of `width` characters each.
fn rows_have_shape(rows: &Vec<Vec<char>>, width: i32, height: i32) -> (matches: bool)
    ensures
        matches == has_shape(rows_of(rows@), width as int, height as int),
{
    if height < 0 || rows.len() != height as usize {
        return false;
    }
    let mut y: usize = 0;
    while y < rows.len()
        invariant
            y <= rows@.len(),
            forall|j: int| 0 <= j < y ==> (#[trigger] rows_of(rows@)[j]).len() == width,
        decreases rows@.len() - y,
    {
        if width < 0 || rows[y].len() != width as usize {
            assert(rows_of(rows@)[y as int].len() != width);
            return false;
        }
        y = y + 1;
    }
    true
}

impl DrawingApplication {
    /// The options the application was made with.
    pub closed spec fn options(&self) -> ApplicationOptions {
        self.options
    }

    /// Sets up an application.
    pub fn new(options: ApplicationOptions) -> (application: DrawingApplication)
        ensures
            application.options() == options,
    {
        DrawingApplication { options }
    }

    /// Where the canvas is stored.
    pub fn canvas_path(&self) -> (path: &String)
        ensures
            *path == self.options().canvas_path,
    {
        &self.options.canvas_path
    }

    /// Where the new canvas is written before it takes the place of the
    /// stored one.
    pub fn canvas_temp_path(&self) -> (path: &String)
        ensures
            *path == self.options().canvas_temp_path,
    {
        &self.options.canvas_temp_path
    }

    /// The canvas that the stored text `contents` stands for.
    pub fn load(&self, contents: &str) -> (loaded: Result<Canvas, LoadError>)
        ensures
            match loaded {
                Ok(canvas) => canvas.well_formed() && Ok::<Grid, LoadError>(canvas@) == stored_grid(
                    contents@,
                    self.options().width as int,
                    self.options().height as int,
                    self.options().blank_character,
                ),
                Err(error) => Err::<Grid, LoadError>(error) == stored_grid(
                    contents@,
                    self.options().width as int,
                    self.options().height as int,
                    self.options().blank_character,
                ),
            },
    {
        if contents.is_empty() {
            if self.options.width < 0 || self.options.height < 0 {
                return Err(LoadError::NegativeExtent);
            }
            Ok(
                Canvas::blank_canvas(
                    self.options.width,
                    self.options.height,
                    self.options.blank_character,
                ),
            )
        } else {
            let rows = parse_rows(contents);
            if !rows_have_shape(&rows, self.options.width, self.options.height) {
                return Err(LoadError::ShapeMismatch);
            }
            Ok(Canvas::from_chars(rows, self.options.width, self.options.height))
        }
    }

    /// One drawing step without its reading and writing: loads the canvas
    /// that `contents` stands for and applies the commands to it in order.
    /// With no commands the loaded canvas comes back as it is.
    pub fn redraw(&self, contents: &str, commands: Vec<DrawCommand>) -> (redrawn: Result<
        Canvas,
        LoadError,
    >)
        ensures
            match redrawn {
                Ok(canvas) => canvas.well_formed() && Ok::<Grid, LoadError>(canvas@)
                    == redrawn_grid(
                    contents@,
                    self.options().width as int,
                    self.options().height as int,
                    self.options().blank_character,
                    commands@,
                ),
                Err(error) => Err::<Grid, LoadError>(error) == redrawn_grid(
                    contents@,
                    self.options().width as int,
                    self.options().height as int,
                    self.options().blank_character,
                    commands@,
                ),
            },
    {
        match self.load(contents) {
            Ok(canvas) => Ok(apply_draw_commands(&canvas, commands)),
            Err(error) => Err(error),
        }
    }
}

/// Applies the commands to a copy of the canvas, one after the other in the
/// order of the list.
pub fn apply_draw_commands(previous_state_canvas: &Canvas, commands: Vec<DrawCommand>) -> (canvas:
    Canvas)
    requires
        previous_state_canvas.well_formed(),
    ensures
        canvas.well_formed(),
        canvas@ == apply_all(previous_state_canvas@, commands@),
{
    let mut canvas = previous_state_canvas.clone();
    let mut index: usize = 0;
    assert(commands@.subrange(0, commands@.len() as int) =~= commands@);
    while index < commands.len()
        invariant
            index <= commands@.len(),
            canvas.well_formed(),
            apply_all(canvas@, commands@.subrange(index as int, commands@.len() as int))
                == apply_all(previous_state_canvas@, commands@),
        decreases commands@.len() - index,
    {
        let command = &commands[index];
        assert(commands@.subrange(index as int, commands@.len() as int).drop_first()
            =~= commands@.subrange(index + 1, commands@.len() as int));
        canvas =
        match command.name {
            CommandName::FillRectangle => draw_fill_rectangle::execute(&canvas, command),
            CommandName::OutlineRectangle => draw_outline_rectangle::execute(&canvas, command),
            CommandName::FloodFill => draw_flood_fill_rectangle::execute(&canvas, command),
        };
        index = index + 1;
    }
    canvas
}

/// A command keeps the extent of a well-formed grid: whatever part of a
/// shape lies beyond the grid is cut off.
pub proof fn lemma_apply_keeps_extent(grid: Grid, command: DrawCommand)
    requires
        grid.well_formed(),
    ensures
        apply(grid, command).well_formed(),
        apply(grid, command).width == grid.width,
        apply(grid, command).height == grid.height,
{
    match command.dimensions {
        Some(dimensions) => {
            lemma_paint(grid, rectangle(command.position, dimensions), command.character);
            lemma_paint(grid, border(command.position, dimensions), command.character);
        },
        None => {},
    }
    let start = cell_of(command.position);
    lemma_paint(grid, region(grid, start, grid.at(start)), command.character);
}

/// A fill-rectangle command with dimensions that have area sets exactly the
/// cells of the grid that lie inside the rectangle.
pub proof fn lemma_fill_rectangle_cells(grid: Grid, command: DrawCommand, dimensions: Dimensions)
    requires
        grid.well_formed(),
        command.name == CommandName::FillRectangle,
        command.dimensions == Some(dimensions),
        has_area(dimensions),
    ensures
        forall|cell: Cell| #[trigger]
            grid.contains(cell) ==> apply(grid, command).at(cell) == if in_rectangle(
                cell,
                command.position,
                dimensions,
            ) {
                command.character
            } else {
                grid.at(cell)
            },
{
    lemma_paint(grid, rectangle(command.position, dimensions), command.character);
}

/// An outline-rectangle command with dimensions that have area sets exactly
/// the cells of the grid that lie on the border of the rectangle.
pub proof fn lemma_outline_rectangle_cells(
    grid: Grid,
    command: DrawCommand,
    dimensions: Dimensions,
)
    requires
        grid.well_formed(),
        command.name == CommandName::OutlineRectangle,
        command.dimensions == Some(dimensions),
        has_area(dimensions),
    ensures
        forall|cell: Cell| #[trigger]
            grid.contains(cell) ==> apply(grid, command).at(cell) == if on_edge(
                cell,
                command.position,
                dimensions,
            ) {
                command.character
            } else {
                grid.at(cell)
            },
{
    lemma_paint(grid, border(command.position, dimensions), command.character);
}

/// A rectangle command whose width or height is not positive, or that has
/// no dimensions, leaves the grid unchanged.
pub proof fn lemma_rectangle_without_area(grid: Grid, command: DrawCommand)
    requires
        command.name != CommandName::FloodFill,
        match command.dimensions {
            Some(dimensions) => dimensions.width <= 0 || dimensions.height <= 0,
            None => true,
        },
    ensures
        apply(grid, command) == grid,
{
}

/// A flood-fill command that starts on the grid sets exactly the cells that
/// are connected to its start through cells holding the character found at
/// the start; one that starts off the grid, or that fills with the
/// character found at the start, leaves the grid unchanged.
pub proof fn lemma_flood_fill_cells(grid: Grid, command: DrawCommand)
    requires
        grid.well_formed(),
        command.name == CommandName::FloodFill,
    ensures
        !grid.contains(cell_of(command.position)) ==> apply(grid, command) == grid,
        grid.contains(cell_of(command.position)) && grid.at(cell_of(command.position))
            == command.character ==> apply(grid, command) == grid,
        grid.contains(cell_of(command.position)) ==> forall|cell: Cell| #[trigger]
            grid.contains(cell) ==> apply(grid, command).at(cell) == if connected(
                grid,
                grid.at(cell_of(command.position)),
                cell_of(command.position),
                cell,
            ) {
                command.character
            } else {
                grid.at(cell)
            },
{
    let start = cell_of(command.position);
    lemma_paint(grid, region(grid, start, grid.at(start)), command.character);
    if grid.contains(start) && grid.at(start) == command.character {
        lemma_flood_without_effect(grid, start, grid.at(start), command.character);
    }
}

/// Applying one command is the same as applying the list that holds just
/// that command.
pub proof fn lemma_apply_all_of_one(grid: Grid, command: DrawCommand)
    ensures
        apply_all(grid, seq![command]) == apply(grid, command),
{
    assert(apply_all(apply(grid, command), seq![command].drop_first()) == apply(grid, command));
}

/// Every command is idempotent: applied to its own result it changes
/// nothing.
pub proof fn lemma_command_is_idempotent(grid: Grid, command: DrawCommand)
    requires
        grid.well_formed(),
    ensures
        apply_all(apply_all(grid, seq![command]), seq![command]) == apply_all(
            grid,
            seq![command],
        ),
{
    let once = apply(grid, command);
    lemma_apply_all_of_one(grid, command);
    lemma_apply_all_of_one(once, command);
    lemma_apply_keeps_extent(grid, command);
    match command.name {
        CommandName::FillRectangle => {
            if let Some(dimensions) = command.dimensions {
                lemma_paint_twice(
                    grid,
                    rectangle(command.position, dimensions),
                    command.character,
                );
            }
        },
        CommandName::OutlineRectangle => {
            if let Some(dimensions) = command.dimensions {
                lemma_paint_twice(grid, border(command.position, dimensions), command.character);
            }
        },
        CommandName::FloodFill => {
            let start = cell_of(command.position);
            if grid.contains(start) {
                let current = grid.at(start);
                lemma_connected_to_itself(grid, current, start);
                lemma_paint(grid, region(grid, start, current), command.character);
                lemma_flood_without_effect(once, start, command.character, command.character);
            }
        },
    }
}

/// Applying two lists of commands one after the other is the same as
/// applying them as one list: what the first batch drew is there for the
/// second.
pub proof fn lemma_apply_all_in_two_steps(
    grid: Grid,
    first: Seq<DrawCommand>,
    second: Seq<DrawCommand>,
)
    ensures
        apply_all(grid, first + second) == apply_all(apply_all(grid, first), second),
    decreases first.len(),
{
    if first.len() > 0 {
        assert((first + second).drop_first() =~= first.drop_first() + second);
        lemma_apply_all_in_two_steps(apply(grid, first[0]), first.drop_first(), second);
    }
}

/// A list of commands keeps the extent of a well-formed grid.
pub proof fn lemma_apply_all_keeps_extent(grid: Grid, commands: Seq<DrawCommand>)
    requires
        grid.well_formed(),
    ensures
        apply_all(grid, commands).well_formed(),
        apply_all(grid, commands).width == grid.width,
        apply_all(grid, commands).height == grid.height,
    decreases commands.len(),
{
    if commands.len() > 0 {
        lemma_apply_keeps_extent(grid, commands[0]);
        lemma_apply_all_keeps_extent(apply(grid, commands[0]), commands.drop_first());
    }
}

/// The text of a well-formed grid stands for that grid again, under the
/// grid's own extent, provided that no cell holds a line feed. Every other
/// character is read back as it was written.
pub proof fn lemma_stored_text_loads_back(grid: Grid, blank_character: char)
    requires
        grid.well_formed(),
        0 <= grid.width,
        rows_are_lines(grid.rows),
    ensures
        stored_grid(grid.text(), grid.width, grid.height, blank_character) == Ok::<
            Grid,
            LoadError,
        >(grid),
{
    lemma_text_ends_with_line_feed(grid.rows);
    if grid.rows.len() == 0 {
        assert(blank_grid(grid.width, grid.height, blank_character).rows =~~= grid.rows);
    } else {
        lemma_lines_of_text(grid.rows);
    }
}

/// A drawing step on the text of a well-formed grid that holds no line
/// feed applies the commands to that very grid; with no commands it gives
/// the grid back. The blank character plays no part.
pub proof fn lemma_redraw_of_stored_text(
    grid: Grid,
    blank_character: char,
    commands: Seq<DrawCommand>,
)
    requires
        grid.well_formed(),
        0 <= grid.width,
        rows_are_lines(grid.rows),
    ensures
        redrawn_grid(grid.text(), grid.width, grid.height, blank_character, commands) == Ok::<
            Grid,
            LoadError,
        >(apply_all(grid, commands)),
        redrawn_grid(grid.text(), grid.width, grid.height, blank_character, Seq::empty()) == Ok::<
            Grid,
            LoadError,
        >(grid),
{
    lemma_stored_text_loads_back(grid, blank_character);
}

/// Two drawing steps, the second on the text that the first left behind,
/// come to the same as one step with both lists of commands, provided that
/// the canvas between the steps holds no line feed.
pub proof fn lemma_redraw_in_two_steps(
    contents: Seq<char>,
    width: int,
    height: int,
    blank_character: char,
    first: Seq<DrawCommand>,
    second: Seq<DrawCommand>,
)
    requires
        redrawn_grid(contents, width, height, blank_character, first) matches Ok(between)
            && rows_are_lines(between.rows),
    ensures
        redrawn_grid(contents, width, height, blank_character, first) matches Ok(between)
            && redrawn_grid(between.text(), width, height, blank_character, second)
            == redrawn_grid(contents, width, height, blank_character, first + second),
{
    let stored = stored_grid(contents, width, height, blank_character)->Ok_0;
    let between = apply_all(stored, first);
    lemma_apply_all_keeps_extent(stored, first);
    if between.rows.len() > 0 {
        assert(between.rows[0].len() == width);
    }
    lemma_stored_text_loads_back(between, blank_character);
    lemma_apply_all_in_two_steps(stored, first, second);
}

/// A canvas made of the lines of a grid's text has the same text as the
/// grid, whatever the grid holds and whatever extent the canvas is given.
pub proof fn lemma_text_round_trip(grid: Grid, width: int, height: int)
    ensures
        (Grid { width, height, rows: lines(grid.text()) }).text() == grid.text(),
{
    lemma_text_ends_with_line_feed(grid.rows);
    lemma_lines_written_out(grid.text());
}

} // verus!
