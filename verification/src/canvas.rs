//! A pixel canvas with a verified plain-text encoder.
//!
//! The canvas owns a fixed `width` by `height` grid of colors, row-major:
//! `y` picks the row, `x` the column. `to_ppm` renders it in the P3 text
//! format: three header lines, then each row's pixel triples, wrapped so
//! that no data line reaches 70 characters; every row ends with a newline.

use vstd::prelude::*;

use crate::color::Color;
use crate::color::color_text;
use crate::color::quantize;
use crate::text::dec_len;
use crate::text::dec_seq;
use crate::text::push_decimal;

verus! {

/// A grid of colors with fixed dimensions.
pub struct Canvas {
    width: usize,
    height: usize,
    grid: Vec<Vec<Color>>,
}

/// Whether a color is black, the initial value of every cell.
pub open spec fn is_black(c: Color) -> bool {
    c.red.units == 0 && c.green.units == 0 && c.blue.units == 0
}

/// One row of pixel text, starting at pixel `i` with `line` characters
/// already on the current output line: each triple joins the line after a
/// single space, unless that would make the line reach 70 characters, in
/// which case the line ends and the triple starts the next one. The row
/// always ends with a newline.
pub open spec fn row_text(row: Seq<Color>, i: int, line: int) -> Seq<char>
    decreases row.len() - i,
{
    if i < 0 || i >= row.len() {
        seq!['\n']
    } else {
        let t = color_text(row[i]);
        if line == 0 {
            t + row_text(row, i + 1, t.len() as int)
        } else if line + 1 + t.len() >= 70 {
            seq!['\n'] + t + row_text(row, i + 1, t.len() as int)
        } else {
            seq![' '] + t + row_text(row, i + 1, line + 1 + t.len())
        }
    }
}

/// The pixel rows from `y` on, each encoded on fresh lines.
pub open spec fn rows_text(grid: Seq<Seq<Color>>, y: int) -> Seq<char>
    decreases grid.len() - y,
{
    if y < 0 || y >= grid.len() {
        Seq::empty()
    } else {
        row_text(grid[y], 0, 0) + rows_text(grid, y + 1)
    }
}

/// The three header lines: the format name, the dimensions, and the fixed
/// maximum channel value.
pub open spec fn header_text(width: nat, height: nat) -> Seq<char> {
    seq!['P', '3', '\n'] + dec_seq(width) + seq![' '] + dec_seq(height) + seq![
        '\n',
        '2',
        '5',
        '5',
        '\n',
    ]
}

impl Canvas {
    /// The grid as a sequence of rows of colors.
    pub closed spec fn grid_view(self) -> Seq<Seq<Color>> {
        self.grid@.map(|i: int, row: Vec<Color>| row@)
    }

    /// The fixed number of columns.
    pub closed spec fn width_spec(self) -> nat {
        self.width as nat
    }

    /// The fixed number of rows.
    pub closed spec fn height_spec(self) -> nat {
        self.height as nat
    }

    /// The grid really is `height` rows of `width` cells each.
    pub open spec fn wf(self) -> bool {
        &&& self.grid_view().len() == self.height_spec()
        &&& forall|y: int|
            0 <= y < self.height_spec() ==> (#[trigger] self.grid_view()[y]).len()
                == self.width_spec()
    }

    /// The whole text image of the canvas.
    pub open spec fn ppm_text(self) -> Seq<char> {
        header_text(self.width_spec(), self.height_spec()) + rows_text(self.grid_view(), 0)
    }

    /// A canvas of the given dimensions with every cell black. Zero is a
    /// legal width or height: the canvas is then empty.
    pub fn new(width: usize, height: usize) -> (r: Canvas)
        ensures
            r.wf(),
            r.width_spec() == width,
            r.height_spec() == height,
            forall|y: int, x: int|
                0 <= y < height && 0 <= x < width ==> is_black(#[trigger] r.grid_view()[y][x]),
    {
        let mut grid: Vec<Vec<Color>> = Vec::new();
        let mut y: usize = 0;
        while y < height
            invariant
                y <= height,
                grid@.len() == y,
                forall|j: int| 0 <= j < y ==> (#[trigger] grid@[j])@.len() == width,
                forall|j: int, x: int|
                    0 <= j < y && 0 <= x < width ==> is_black(#[trigger] grid@[j]@[x]),
            decreases height - y,
        {
            let mut row: Vec<Color> = Vec::new();
            let mut x: usize = 0;
            while x < width
                invariant
                    x <= width,
                    row@.len() == x,
                    forall|i: int| 0 <= i < x ==> is_black(#[trigger] row@[i]),
                decreases width - x,
            {
                row.push(Color::black());
                x = x + 1;
            }
            grid.push(row);
            y = y + 1;
        }
        let r = Canvas { width, height, grid };
        proof {
            assert forall|j: int| 0 <= j < height implies (#[trigger] r.grid_view()[j])
                == r.grid@[j]@ by {}
        }
        r
    }

    /// Stores `color` at column `x`, row `y`. Only that cell changes.
    pub fn write_pixel(&mut self, x: usize, y: usize, color: &Color)
        requires
            old(self).wf(),
            x < old(self).width_spec(),
            y < old(self).height_spec(),
        ensures
            final(self).wf(),
            final(self).width_spec() == old(self).width_spec(),
            final(self).height_spec() == old(self).height_spec(),
            final(self).grid_view() == old(self).grid_view().update(
                y as int,
                old(self).grid_view()[y as int].update(x as int, *color),
            ),
    {
        proof {
            assert(self.grid@.len() == self.height_spec());
            assert(self.grid_view()[y as int] == self.grid@[y as int]@);
        }
        self.grid[y][x] = *color;
        proof {
            assert(self.grid_view() =~= old(self).grid_view().update(
                y as int,
                old(self).grid_view()[y as int].update(x as int, *color),
            ));
        }
    }

    /// Reads the color stored at column `x`, row `y`.
    pub fn get_pixel(&self, x: usize, y: usize) -> (r: &Color)
        requires
            self.wf(),
            x < self.width_spec(),
            y < self.height_spec(),
        ensures
            *r == self.grid_view()[y as int][x as int],
    {
        proof {
            assert(self.grid@.len() == self.height_spec());
            assert(self.grid_view()[y as int] == self.grid@[y as int]@);
        }
        &self.grid[y][x]
    }

    /// The number of columns.
    pub fn width(&self) -> (r: usize)
        ensures
            r == self.width_spec(),
    {
        self.width
    }

    /// The number of rows.
    pub fn height(&self) -> (r: usize)
        ensures
            r == self.height_spec(),
    {
        self.height
    }

    /// Renders the canvas as a P3 text image, exactly as `ppm_text` lays it
    /// out. Serialization always succeeds, a degenerate canvas included.
    pub fn to_ppm(&self) -> (r: String)
        requires
            self.wf(),
        ensures
            r@ == self.ppm_text(),
    {
        let mut s = String::new();
        s.append("P3\n");
        push_decimal(&mut s, self.width as u64);
        s.append(" ");
        push_decimal(&mut s, self.height as u64);
        s.append("\n255\n");
        proof {
            reveal_strlit("P3\n");
            reveal_strlit(" ");
            reveal_strlit("\n255\n");
            assert(s@ =~= header_text(self.width_spec(), self.height_spec()));
            assert(s@ + rows_text(self.grid_view(), 0) =~= self.ppm_text());
        }
        let mut y: usize = 0;
        while y < self.height
            invariant
                self.wf(),
                y <= self.height_spec(),
                s@ + rows_text(self.grid_view(), y as int) == self.ppm_text(),
            decreases self.height - y,
        {
            let ghost row_ghost = self.grid_view()[y as int];
            let ghost at_row_start = s@;
            let mut line_len: usize = 0;
            let mut x: usize = 0;
            while x < self.width
                invariant
                    self.wf(),
                    y < self.height_spec(),
                    x <= self.width_spec(),
                    row_ghost == self.grid_view()[y as int],
                    at_row_start + row_text(row_ghost, 0, 0) == s@ + row_text(
                        row_ghost,
                        x as int,
                        line_len as int,
                    ),
                    line_len < 70,
                    x == 0 ==> line_len == 0,
                    x > 0 ==> line_len >= 1,
                decreases self.width - x,
            {
                proof {
                    assert(self.grid@.len() == self.height_spec());
                    assert(self.grid_view()[y as int] == self.grid@[y as int]@);
                }
                let c: Color = self.grid[y][x];
                proof {
                    assert(c == row_ghost[x as int]);
                }
                let cr = quantize(c.red);
                let cg = quantize(c.green);
                let cb = quantize(c.blue);
                let tlen: usize = dec_len(cr) + dec_len(cg) + dec_len(cb) + 2;
                proof {
                    assert(tlen == color_text(c).len());
                }
                let ghost before = s@;
                let ghost prev_line = line_len as int;
                if line_len == 0 {
                    push_triple(&mut s, cr, cg, cb);
                    line_len = tlen;
                    proof {
                        assert(s@ =~= before + color_text(c));
                    }
                } else if line_len + 1 + tlen >= 70 {
                    s.append("\n");
                    push_triple(&mut s, cr, cg, cb);
                    line_len = tlen;
                    proof {
                        reveal_strlit("\n");
                        assert(s@ =~= before + (seq!['\n'] + color_text(c)));
                    }
                } else {
                    s.append(" ");
                    push_triple(&mut s, cr, cg, cb);
                    line_len = line_len + 1 + tlen;
                    proof {
                        reveal_strlit(" ");
                        assert(s@ =~= before + (seq![' '] + color_text(c)));
                    }
                }
                proof {
                    assert(before + row_text(row_ghost, x as int, prev_line) =~= s@ + row_text(
                        row_ghost,
                        x as int + 1,
                        line_len as int,
                    ));
                }
                x = x + 1;
            }
            s.append("\n");
            proof {
                reveal_strlit("\n");
                assert(row_text(row_ghost, self.width_spec() as int, line_len as int) =~= seq![
                    '\n',
                ]);
                assert(s@ =~= at_row_start + row_text(row_ghost, 0, 0));
                assert(s@ + rows_text(self.grid_view(), y as int + 1) =~= self.ppm_text());
            }
            y = y + 1;
        }
        proof {
            assert(s@ =~= self.ppm_text());
        }
        s
    }
}

/// Appends one pixel triple: three clamped channels separated by spaces.
fn push_triple(s: &mut String, cr: u64, cg: u64, cb: u64)
    requires
        cr <= 255,
        cg <= 255,
        cb <= 255,
    ensures
        final(s)@ == old(s)@ + (dec_seq(cr as nat) + seq![' '] + dec_seq(cg as nat) + seq![' ']
            + dec_seq(cb as nat)),
{
    push_decimal(s, cr);
    s.append(" ");
    push_decimal(s, cg);
    s.append(" ");
    push_decimal(s, cb);
    proof {
        reveal_strlit(" ");
        assert(s@ =~= old(s)@ + (dec_seq(cr as nat) + seq![' '] + dec_seq(cg as nat) + seq![' ']
            + dec_seq(cb as nat)));
    }
}

/// Writing a cell then reading the same coordinates gives back exactly the
/// color written, and every other cell keeps its previous color.
pub proof fn lemma_write_then_read(
    before: Seq<Seq<Color>>,
    after: Seq<Seq<Color>>,
    x: int,
    y: int,
    color: Color,
)
    requires
        0 <= y < before.len(),
        0 <= x < before[y].len(),
        after == before.update(y, before[y].update(x, color)),
    ensures
        after.len() == before.len(),
        after[y][x] == color,
        forall|j: int, i: int|
            0 <= j < before.len() && 0 <= i < before[j].len() && !(j == y && i == x)
                ==> after[j][i] == before[j][i],
{
}

/// Every maximal newline-free run of `s` stays under 70 characters, the
/// first run counted together with `lead` characters already on its line.
pub open spec fn lines_bounded(s: Seq<char>, lead: int) -> bool
    decreases s.len(),
{
    if s.len() == 0 {
        lead < 70
    } else if s[0] == '\n' {
        lead < 70 && lines_bounded(s.skip(1), 0)
    } else {
        lines_bounded(s.skip(1), lead + 1)
    }
}

/// A newline-free prefix only lengthens the current run.
proof fn lemma_run_prepend(t: Seq<char>, r: Seq<char>, lead: int)
    requires
        forall|k: int| 0 <= k < t.len() ==> #[trigger] t[k] != '\n',
    ensures
        lines_bounded(t + r, lead) == lines_bounded(r, lead + t.len()),
    decreases t.len(),
{
    if t.len() == 0 {
        assert(t + r =~= r);
    } else {
        assert((t + r)[0] == t[0]);
        assert((t + r).skip(1) =~= t.skip(1) + r);
        assert(forall|k: int| 0 <= k < t.skip(1).len() ==> #[trigger] t.skip(1)[k] != '\n');
        lemma_run_prepend(t.skip(1), r, lead + 1);
    }
}

/// A leading newline closes the current run and opens a fresh one.
proof fn lemma_newline_prepend(r: Seq<char>, lead: int)
    ensures
        lines_bounded(seq!['\n'] + r, lead) == (lead < 70 && lines_bounded(r, 0)),
{
    assert((seq!['\n'] + r).skip(1) =~= r);
}

/// Text whose last character is a newline can be followed by anything
/// whose own runs are bounded.
proof fn lemma_concat_bounded(a: Seq<char>, b: Seq<char>, lead: int)
    requires
        lines_bounded(a, lead),
        a.len() > 0,
        a[a.len() - 1] == '\n',
        lines_bounded(b, 0),
    ensures
        lines_bounded(a + b, lead),
    decreases a.len(),
{
    assert((a + b).skip(1) =~= a.skip(1) + b);
    if a.len() == 1 {
        assert(a[0] == '\n');
        assert(a.skip(1) + b =~= b);
    } else {
        assert(a.skip(1)[a.skip(1).len() - 1] == a[a.len() - 1]);
        if a[0] == '\n' {
            lemma_concat_bounded(a.skip(1), b, 0);
        } else {
            lemma_concat_bounded(a.skip(1), b, lead + 1);
        }
    }
}

/// A row's text never lets a line reach 70 characters, starting from any
/// line already `line` characters long.
proof fn lemma_row_text_bounded(row: Seq<Color>, i: int, line: int)
    requires
        0 <= line < 70,
    ensures
        lines_bounded(row_text(row, i, line), line),
    decreases row.len() - i,
{
    if i < 0 || i >= row.len() {
        lemma_newline_prepend(Seq::empty(), line);
        assert(seq!['\n'] + Seq::<char>::empty() =~= row_text(row, i, line));
    } else {
        let t = color_text(row[i]);
        crate::color::lemma_color_text_plain(row[i]);
        let rest = row_text(row, i + 1, t.len() as int);
        if line == 0 {
            lemma_row_text_bounded(row, i + 1, t.len() as int);
            lemma_run_prepend(t, rest, 0);
        } else if line + 1 + t.len() >= 70 {
            lemma_row_text_bounded(row, i + 1, t.len() as int);
            lemma_run_prepend(t, rest, 0);
            lemma_newline_prepend(t + rest, line);
            assert(seq!['\n'] + t + rest =~= seq!['\n'] + (t + rest));
        } else {
            let rest2 = row_text(row, i + 1, line + 1 + t.len());
            lemma_row_text_bounded(row, i + 1, line + 1 + t.len());
            assert(forall|k: int|
                0 <= k < (seq![' '] + t).len() ==> #[trigger] (seq![' '] + t)[k] != '\n');
            lemma_run_prepend(seq![' '] + t, rest2, line);
            assert(seq![' '] + t + rest2 =~= (seq![' '] + t) + rest2);
        }
    }
}

/// A row's text is never empty and always ends with a newline.
proof fn lemma_row_text_ends_newline(row: Seq<Color>, i: int, line: int)
    ensures
        row_text(row, i, line).len() > 0,
        row_text(row, i, line)[row_text(row, i, line).len() - 1] == '\n',
    decreases row.len() - i,
{
    if i < 0 || i >= row.len() {
    } else {
        let t = color_text(row[i]);
        lemma_row_text_ends_newline(row, i + 1, t.len() as int);
        lemma_row_text_ends_newline(row, i + 1, line + 1 + t.len());
    }
}

/// No data line of the image text reaches 70 characters: however the grid
/// is filled, every newline-free run of the pixel rows' text is shorter
/// than 70 characters.
pub proof fn lemma_rows_text_bounded(grid: Seq<Seq<Color>>, y: int)
    ensures
        lines_bounded(rows_text(grid, y), 0),
    decreases grid.len() - y,
{
    if y < 0 || y >= grid.len() {
    } else {
        lemma_row_text_bounded(grid[y], 0, 0);
        lemma_row_text_ends_newline(grid[y], 0, 0);
        lemma_rows_text_bounded(grid, y + 1);
        lemma_concat_bounded(row_text(grid[y], 0, 0), rows_text(grid, y + 1), 0);
    }
}

/// The rows' text, when there are rows, is never empty and ends with the
/// newline that closes the last row.
proof fn lemma_rows_text_ends_newline(grid: Seq<Seq<Color>>, y: int)
    requires
        0 <= y < grid.len(),
    ensures
        rows_text(grid, y).len() > 0,
        rows_text(grid, y)[rows_text(grid, y).len() - 1] == '\n',
    decreases grid.len() - y,
{
    lemma_row_text_ends_newline(grid[y], 0, 0);
    if y == grid.len() - 1 {
        assert(rows_text(grid, y + 1) =~= Seq::<char>::empty());
        assert(rows_text(grid, y) =~= row_text(grid[y], 0, 0));
    } else {
        lemma_rows_text_ends_newline(grid, y + 1);
    }
}

/// The whole image text ends with a single final newline, whatever the
/// canvas holds, a degenerate one included.
pub proof fn lemma_ppm_ends_newline(c: Canvas)
    ensures
        c.ppm_text().len() > 0,
        c.ppm_text()[c.ppm_text().len() - 1] == '\n',
{
    let header = header_text(c.width_spec(), c.height_spec());
    let rows = rows_text(c.grid_view(), 0);
    if c.grid_view().len() == 0 {
        assert(rows =~= Seq::<char>::empty());
        assert(c.ppm_text() =~= header);
        assert(header[header.len() - 1] == '\n');
    } else {
        lemma_rows_text_ends_newline(c.grid_view(), 0);
        assert(c.ppm_text()[c.ppm_text().len() - 1] == rows[rows.len() - 1]);
    }
}

} // verus!
