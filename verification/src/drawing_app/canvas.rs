//! The canvas: a rectangular grid of characters, and its textual form.

use vstd::prelude::*;

verus! {

/// A position on, or off, the canvas: `x` counts columns, `y` counts rows.
#[derive(Clone, Copy, Debug, PartialEq, Eq, Structural)]
pub struct Point {
    pub x: i32,
    pub y: i32,
}

/// The extent of a rectangle or of the canvas. Non-positive extents are
/// legal values; they describe a rectangle without area.
#[derive(Clone, Copy, Debug, PartialEq, Eq, Structural)]
pub struct Dimensions {
    pub width: i32,
    pub height: i32,
}

/// A grid cell as `(x, y)`: column, then row.
pub type Cell = (int, int);

/// The mathematical content of a [`Canvas`]: its declared extent and its
/// rows of characters, top row first.
pub struct Grid {
    pub width: int,
    pub height: int,
    pub rows: Seq<Seq<char>>,
}

impl Grid {
    /// There are `height` rows and every row holds `width` characters.
    pub open spec fn well_formed(self) -> bool {
        has_shape(self.rows, self.width, self.height)
    }

    /// The cell lies within the declared extent.
    pub open spec fn contains(self, cell: Cell) -> bool {
        0 <= cell.0 < self.width && 0 <= cell.1 < self.height
    }

    /// The character in a cell.
    pub open spec fn at(self, cell: Cell) -> char
        recommends
            self.well_formed(),
            self.contains(cell),
    {
        self.rows[cell.1][cell.0]
    }

    /// The grid with every cell of `region` set to `character` and every
    /// other cell as it was. Cells of `region` outside the grid play no part.
    pub open spec fn paint(self, region: Set<Cell>, character: char) -> Grid {
        Grid {
            width: self.width,
            height: self.height,
            rows: Seq::new(
                self.rows.len(),
                |y: int|
                    Seq::new(
                        self.rows[y].len(),
                        |x: int|
                            if region.contains((x, y)) {
                                character
                            } else {
                                self.rows[y][x]
                            },
                    ),
            ),
        }
    }

    /// The grid with one cell set to `character`.
    pub open spec fn with_cell(self, cell: Cell, character: char) -> Grid
        recommends
            self.well_formed(),
            self.contains(cell),
    {
        Grid {
            width: self.width,
            height: self.height,
            rows: self.rows.update(cell.1, self.rows[cell.1].update(cell.0, character)),
        }
    }

    /// The stored form of the grid: see [`text_of`].
    pub open spec fn text(self) -> Seq<char> {
        text_of(self.rows)
    }
}

/// `rows` has `height` entries of `width` characters each.
pub open spec fn has_shape(rows: Seq<Seq<char>>, width: int, height: int) -> bool {
    &&& rows.len() == height
    &&& forall|y: int| 0 <= y < rows.len() ==> (#[trigger] rows[y]).len() == width
}

/// Painting keeps the extent of a grid, sets the cells of the region that
/// lie on the grid and leaves every other cell as it was.
pub proof fn lemma_paint(grid: Grid, region: Set<Cell>, character: char)
    requires
        grid.well_formed(),
    ensures
        grid.paint(region, character).well_formed(),
        grid.paint(region, character).width == grid.width,
        grid.paint(region, character).height == grid.height,
        forall|cell: Cell| #[trigger]
            grid.contains(cell) ==> grid.paint(region, character).at(cell) == if region.contains(
                cell,
            ) {
                character
            } else {
                grid.at(cell)
            },
{
}

/// Painting a region a second time with the same character changes nothing.
pub proof fn lemma_paint_twice(grid: Grid, region: Set<Cell>, character: char)
    ensures
        grid.paint(region, character).paint(region, character) == grid.paint(region, character),
{
    assert(grid.paint(region, character).paint(region, character).rows =~~= grid.paint(
        region,
        character,
    ).rows);
}

/// The grid of the given extent whose every cell holds `character`.
pub open spec fn blank_grid(width: int, height: int, character: char) -> Grid {
    Grid {
        width,
        height,
        rows: Seq::new(height as nat, |y: int| Seq::new(width as nat, |x: int| character)),
    }
}

/// The rows held by a vector of vectors.
pub open spec fn rows_of(pixels: Seq<Vec<char>>) -> Seq<Seq<char>> {
    Seq::new(pixels.len(), |y: int| pixels[y]@)
}

/// The text of a sequence of rows: each row's characters followed by one
/// line feed, the last row included.
pub open spec fn text_of(rows: Seq<Seq<char>>) -> Seq<char>
    decreases rows.len(),
{
    if rows.len() == 0 {
        Seq::empty()
    } else {
        rows[0] + seq!['\n'] + text_of(rows.drop_first())
    }
}

/// `String::push` of the standard library: the string afterwards is the
/// string before with `character` appended.
pub assume_specification[ String::push ](text: &mut String, character: char)
    ensures
        final(text)@ == old(text)@.push(character),
;

/// The canvas. `pixels[y][x]` is the character in column `x` of row `y`.
#[derive(Debug)]
pub struct Canvas {
    pub dimensions: Dimensions,
    pub pixels: Vec<Vec<char>>,
}

impl Clone for Canvas {
    /// A canvas with the same extent and the same characters.
    fn clone(&self) -> (canvas: Canvas)
        ensures
            canvas@ == self@,
    {
        let mut pixels: Vec<Vec<char>> = Vec::new();
        let mut y: usize = 0;
        while y < self.pixels.len()
            invariant
                y <= self.pixels@.len(),
                pixels@.len() == y,
                forall|j: int| 0 <= j < y ==> (#[trigger] pixels@[j])@ == self.pixels@[j]@,
            decreases self.pixels@.len() - y,
        {
            let source = &self.pixels[y];
            let mut row: Vec<char> = Vec::new();
            let mut x: usize = 0;
            while x < source.len()
                invariant
                    x <= source@.len(),
                    row@ == source@.subrange(0, x as int),
                decreases source@.len() - x,
            {
                row.push(source[x]);
                x = x + 1;
            }
            pixels.push(row);
            y = y + 1;
        }
        let canvas = Canvas { dimensions: self.dimensions, pixels };
        assert(canvas@.rows =~~= self@.rows);
        canvas
    }
}

impl View for Canvas {
    type V = Grid;

    /// The declared extent and the rows as they are held, whether or not
    /// the two agree.
    open spec fn view(&self) -> Grid {
        Grid {
            width: self.dimensions.width as int,
            height: self.dimensions.height as int,
            rows: rows_of(self.pixels@),
        }
    }
}

impl Canvas {
    /// The invariant of a canvas: `pixels` has `dimensions.height` rows of
    /// `dimensions.width` characters.
    pub open spec fn well_formed(&self) -> bool {
        self@.well_formed()
    }

    /// Builds a canvas from rows of characters and the extent they are said
    /// to have. Nothing is checked: the canvas is well formed exactly when
    /// the rows have that extent.
    pub fn from_chars(ascii: Vec<Vec<char>>, width: i32, height: i32) -> (canvas: Canvas)
        ensures
            canvas.pixels == ascii,
            canvas.dimensions == (Dimensions { width, height }),
            canvas@ == (Grid { width: width as int, height: height as int, rows: rows_of(ascii@) }),
            canvas.well_formed() <==> has_shape(rows_of(ascii@), width as int, height as int),
    {
        Canvas { dimensions: Dimensions { width, height }, pixels: ascii }
    }

    /// A canvas of the given extent whose every cell holds `blank_character`.
    pub fn blank_canvas(width: i32, height: i32, blank_character: char) -> (canvas: Canvas)
        requires
            0 <= width,
            0 <= height,
        ensures
            canvas.well_formed(),
            canvas@ == blank_grid(width as int, height as int, blank_character),
    {
        let mut pixels: Vec<Vec<char>> = Vec::new();
        let mut y: i32 = 0;
        while y < height
            invariant
                0 <= y <= height,
                0 <= width,
                pixels@.len() == y,
                forall|j: int| 0 <= j < y ==> (#[trigger] pixels@[j])@ == Seq::new(
                    width as nat,
                    |x: int| blank_character,
                ),
            decreases height - y,
        {
            let mut row: Vec<char> = Vec::new();
            let mut x: i32 = 0;
            while x < width
                invariant
                    0 <= x <= width,
                    row@ == Seq::new(x as nat, |i: int| blank_character),
                decreases width - x,
            {
                row.push(blank_character);
                x = x + 1;
            }
            pixels.push(row);
            y = y + 1;
        }
        let canvas = Canvas { dimensions: Dimensions { width, height }, pixels };
        assert(canvas@.rows =~~= blank_grid(width as int, height as int, blank_character).rows);
        canvas
    }

    /// The stored form of the canvas: row after row, each followed by a line
    /// feed.
    pub fn to_string(&self) -> (text: String)
        ensures
            text@ == self@.text(),
    {
        let ghost rows = self@.rows;
        let mut text = String::new();
        let mut y: usize = 0;
        assert(rows.subrange(0, rows.len() as int) =~= rows);
        while y < self.pixels.len()
            invariant
                rows == self@.rows,
                y <= self.pixels@.len(),
                text@ + text_of(rows.subrange(y as int, rows.len() as int)) == text_of(rows),
            decreases self.pixels@.len() - y,
        {
            let row = &self.pixels[y];
            let ghost before = text@;
            let mut x: usize = 0;
            while x < row.len()
                invariant
                    x <= row@.len(),
                    text@ == before + row@.subrange(0, x as int),
                decreases row@.len() - x,
            {
                text.push(row[x]);
                x = x + 1;
            }
            text.push('\n');
            assert(rows.subrange(y as int, rows.len() as int).drop_first() =~= rows.subrange(
                y + 1,
                rows.len() as int,
            ));
            y = y + 1;
        }
        text
    }
}

} // verus!
