//! The frame that a render fills, and its division among workers.

use crate::color::Color;
use vstd::prelude::*;

verus! {

/// A range of columns of a frame, from `first` up to but not including `end`.
#[derive(Clone, Copy, Debug, PartialEq, Eq, Structural)]
pub struct Tile {
    pub first: usize,
    pub end: usize,
}

/// The column at which the tile of the given index starts, where `width`
/// columns are divided among `workers` tiles. The tile ends where the next
/// one starts.
pub open spec fn tile_edge(width: int, workers: int, index: int) -> int {
    index * width / workers
}

/// Whether a column lies in the tile of the given index.
pub open spec fn in_tile(width: int, workers: int, index: int, column: int) -> bool {
    tile_edge(width, workers, index) <= column < tile_edge(width, workers, index + 1)
}

/// The tiles leave no column out and share none: every column of the frame
/// lies in exactly one tile.
pub proof fn column_has_one_tile(width: int, workers: int, column: int)
    requires
        workers > 0,
        0 <= column < width,
    ensures
        exists|j: int| 0 <= j < workers && #[trigger] in_tile(width, workers, j, column),
        forall|j: int, k: int|
            0 <= j < workers && 0 <= k < workers && #[trigger] in_tile(width, workers, j, column)
                && #[trigger] in_tile(width, workers, k, column) ==> j == k,
{
    tile_edges_ends(width, workers);
    tile_found(width, workers, column, workers);
    assert forall|j: int, k: int|
        0 <= j < workers && 0 <= k < workers && #[trigger] in_tile(width, workers, j, column)
            && #[trigger] in_tile(width, workers, k, column) implies j == k by {
        if j < k {
            tile_edges_ordered(width, workers, j + 1, k);
        } else if k < j {
            tile_edges_ordered(width, workers, k + 1, j);
        }
    }
}

proof fn tile_edges_ends(width: int, workers: int)
    requires
        workers > 0,
        width >= 0,
    ensures
        tile_edge(width, workers, 0) == 0,
        tile_edge(width, workers, workers) == width,
{
    assert(0 * width == 0);
    assert(0int / workers == 0) by (nonlinear_arith)
        requires
            workers > 0,
    ;
    assert(workers * width / workers == width) by (nonlinear_arith)
        requires
            workers > 0,
    ;
}

proof fn tile_edges_ordered(width: int, workers: int, j: int, k: int)
    requires
        workers > 0,
        width >= 0,
        j <= k,
    ensures
        tile_edge(width, workers, j) <= tile_edge(width, workers, k),
{
    assert(j * width <= k * width) by (nonlinear_arith)
        requires
            width >= 0,
            j <= k,
    ;
    vstd::arithmetic::div_mod::lemma_div_is_ordered(j * width, k * width, workers);
}

proof fn tile_found(width: int, workers: int, column: int, upto: int)
    requires
        workers > 0,
        0 <= column < width,
        0 < upto <= workers,
        column < tile_edge(width, workers, upto),
    ensures
        exists|j: int| 0 <= j < upto && #[trigger] in_tile(width, workers, j, column),
    decreases upto,
{
    tile_edges_ends(width, workers);
    if tile_edge(width, workers, upto - 1) <= column {
        assert(in_tile(width, workers, upto - 1, column));
    } else {
        tile_found(width, workers, column, upto - 1);
    }
}

/// Divides the columns of a frame among workers: one tile for each worker, in
/// order from the left, each starting where the one before it ends.
pub fn tiles(width: usize, workers: usize) -> (tiles: Vec<Tile>)
    ensures
        tiles@.len() == workers,
        forall|j: int|
            0 <= j < workers ==> (#[trigger] tiles@[j]).first == tile_edge(
                width as int,
                workers as int,
                j,
            ) && tiles@[j].end == tile_edge(width as int, workers as int, j + 1),
        forall|j: int| 0 <= j < workers ==> (#[trigger] tiles@[j]).first <= tiles@[j].end <= width,
        workers > 0 ==> tiles@[0].first == 0 && tiles@[workers - 1].end == width,
{
    let mut tiles: Vec<Tile> = Vec::new();
    let mut j: usize = 0;
    while j < workers
        invariant
            j <= workers,
            tiles@.len() == j,
            forall|k: int|
                0 <= k < j ==> (#[trigger] tiles@[k]).first == tile_edge(
                    width as int,
                    workers as int,
                    k,
                ) && tiles@[k].end == tile_edge(width as int, workers as int, k + 1),
            forall|k: int| 0 <= k < j ==> (#[trigger] tiles@[k]).first <= tiles@[k].end <= width,
        decreases workers - j,
    {
        let first = edge(width, workers, j);
        let end = edge(width, workers, j + 1);
        proof {
            tile_edges_ordered(width as int, workers as int, j as int, j + 1);
        }
        tiles.push(Tile { first, end });
        j += 1;
    }
    proof {
        if workers > 0 {
            tile_edges_ends(width as int, workers as int);
        }
    }
    tiles
}

fn edge(width: usize, workers: usize, index: usize) -> (column: usize)
    requires
        workers > 0,
        index <= workers,
    ensures
        column == tile_edge(width as int, workers as int, index as int),
        column <= width,
{
    proof {
        tile_edges_ordered(width as int, workers as int, index as int, workers as int);
        tile_edges_ends(width as int, workers as int);
        assert(0 <= index * width <= usize::MAX * usize::MAX) by (nonlinear_arith)
            requires
                0 <= index <= usize::MAX,
                0 <= width <= usize::MAX,
        ;
        assert(index * width / (workers as int) >= 0) by (nonlinear_arith)
            requires
                index * width >= 0,
                workers > 0,
        ;
    }
    let wide: u128 = index as u128 * width as u128;
    (wide / workers as u128) as usize
}

/// A frame of pixels, three bytes for each: red, green and blue. The rows
/// follow one another from the top, each from the left.
pub struct Frame {
    width: usize,
    height: usize,
    data: Vec<u8>,
}

/// The place in the data of the first byte of the pixel in column `x` of row
/// `y`, in a frame `width` pixels wide.
pub open spec fn pixel_offset(width: int, x: int, y: int) -> int {
    3 * (y * width + x)
}

impl Frame {
    /// Whether the frame holds three bytes for each of its pixels. Every frame
    /// that `new` makes does, and `set_pixel` keeps it so.
    pub closed spec fn wf(&self) -> bool {
        self.data@.len() == 3 * (self.width * self.height)
    }

    /// The number of columns.
    pub closed spec fn spec_width(&self) -> int {
        self.width as int
    }

    /// The number of rows.
    pub closed spec fn spec_height(&self) -> int {
        self.height as int
    }

    /// The bytes of the frame.
    pub closed spec fn bytes(&self) -> Seq<u8> {
        self.data@
    }

    /// The colour of the pixel in column `x` of row `y`, fully opaque.
    pub open spec fn pixel(&self, x: int, y: int) -> Color {
        let at = pixel_offset(self.spec_width(), x, y);
        Color { r: self.bytes()[at], g: self.bytes()[at + 1], b: self.bytes()[at + 2], a: 255 }
    }

    /// A frame of the given size, black all over; nothing where its bytes
    /// would be too many to count.
    pub fn new(width: usize, height: usize) -> (made: Option<Frame>)
        ensures
            made is Some <==> 3 * (width * height) <= usize::MAX,
            made matches Some(frame) ==> {
                &&& frame.wf()
                &&& frame.spec_width() == width
                &&& frame.spec_height() == height
                &&& frame.bytes().len() == 3 * (width * height)
                &&& forall|i: int| 0 <= i < frame.bytes().len() ==> frame.bytes()[i] == 0
            },
    {
        assert(0 <= width * height <= usize::MAX * usize::MAX) by (nonlinear_arith)
            requires
                0 <= width <= usize::MAX,
                0 <= height <= usize::MAX,
        ;
        let pixels: u128 = width as u128 * height as u128;
        if pixels > (usize::MAX / 3) as u128 {
            return None;
        }
        let length: usize = 3 * (pixels as usize);
        let mut data: Vec<u8> = Vec::new();
        let mut i: usize = 0;
        while i < length
            invariant
                i <= length,
                data@.len() == i,
                forall|k: int| 0 <= k < i ==> data@[k] == 0,
            decreases length - i,
        {
            data.push(0);
            i += 1;
        }
        Some(Frame { width, height, data })
    }

    /// The number of columns.
    pub fn width(&self) -> (width: usize)
        ensures
            width == self.spec_width(),
    {
        self.width
    }

    /// The number of rows.
    pub fn height(&self) -> (height: usize)
        ensures
            height == self.spec_height(),
    {
        self.height
    }

    /// The bytes of the frame, row after row.
    pub fn data(&self) -> (data: &Vec<u8>)
        requires
            self.wf(),
        ensures
            data@ == self.bytes(),
            data@.len() == 3 * (self.spec_width() * self.spec_height()),
    {
        &self.data
    }

    /// Writes the red, green and blue of a colour to the pixel in column `x` of
    /// row `y`, and leaves every other pixel as it was. Outside the frame
    /// nothing is written; the answer says whether the pixel lies inside.
    pub fn set_pixel(&mut self, x: usize, y: usize, color: Color) -> (inside: bool)
        requires
            old(self).wf(),
        ensures
            final(self).wf(),
            inside == (x < old(self).spec_width() && y < old(self).spec_height()),
            final(self).spec_width() == old(self).spec_width(),
            final(self).spec_height() == old(self).spec_height(),
            final(self).bytes().len() == old(self).bytes().len(),
            !inside ==> final(self).bytes() == old(self).bytes(),
            inside ==> final(self).pixel(x as int, y as int) == (Color {
                r: color.r,
                g: color.g,
                b: color.b,
                a: 255,
            }),
            forall|u: int, v: int|
                0 <= u < old(self).spec_width() && 0 <= v < old(self).spec_height() && (u != x || v
                    != y) ==> #[trigger] final(self).pixel(u, v) == old(self).pixel(u, v),
    {
        if x >= self.width || y >= self.height {
            return false;
        }
        let ghost width = self.width as int;
        let ghost height = self.height as int;
        let length: usize = self.data.len();
        proof {
            pixel_offsets_apart(width, height, x as int, y as int, x as int, y as int);
            assert(0 <= y * width) by (nonlinear_arith)
                requires
                    0 <= y,
                    0 <= width,
            ;
        }
        let at: usize = 3 * (y * self.width + x);
        self.data.set(at, color.r);
        self.data.set(at + 1, color.g);
        self.data.set(at + 2, color.b);
        proof {
            assert forall|u: int, v: int|
                0 <= u < width && 0 <= v < height && (u != x || v != y) implies #[trigger] self
                    .pixel(u, v) == old(self).pixel(u, v) by {
                pixel_offsets_apart(width, height, x as int, y as int, u, v);
                pixel_offsets_apart(width, height, u, v, u, v);
            }
        }
        true
    }

    /// The colour of the pixel in column `x` of row `y`, fully opaque, or
    /// nothing outside the frame.
    pub fn get_pixel(&self, x: usize, y: usize) -> (color: Option<Color>)
        requires
            self.wf(),
        ensures
            color is Some <==> x < self.spec_width() && y < self.spec_height(),
            color matches Some(c) ==> c == self.pixel(x as int, y as int),
    {
        if x >= self.width || y >= self.height {
            return None;
        }
        let length: usize = self.data.len();
        proof {
            pixel_offsets_apart(
                self.width as int,
                self.height as int,
                x as int,
                y as int,
                x as int,
                y as int,
            );
            assert(0 <= y * self.width) by (nonlinear_arith)
                requires
                    0 <= y,
                    0 <= self.width,
            ;
        }
        let at: usize = 3 * (y * self.width + x);
        Some(Color { r: self.data[at], g: self.data[at + 1], b: self.data[at + 2], a: 255 })
    }
}

/// The bytes of a pixel lie within the frame, and apart from those of every
/// other pixel.
proof fn pixel_offsets_apart(width: int, height: int, x: int, y: int, u: int, v: int)
    requires
        0 <= x < width,
        0 <= y < height,
        0 <= u < width,
        0 <= v < height,
    ensures
        0 <= pixel_offset(width, x, y),
        pixel_offset(width, x, y) + 3 <= 3 * (width * height),
        0 <= y * width + x < width * height,
        (u != x || v != y) ==> pixel_offset(width, u, v) + 3 <= pixel_offset(width, x, y)
            || pixel_offset(width, x, y) + 3 <= pixel_offset(width, u, v),
{
    assert(0 <= y * width + x < width * height) by (nonlinear_arith)
        requires
            0 <= x < width,
            0 <= y < height,
    ;
    if v < y {
        assert(v * width + u < y * width + x) by (nonlinear_arith)
            requires
                0 <= u < width,
                0 <= x,
                0 <= v < y,
        ;
    } else if y < v {
        assert(y * width + x < v * width + u) by (nonlinear_arith)
            requires
                0 <= x < width,
                0 <= u,
                0 <= y < v,
        ;
    }
}

} // verus!
