use vstd::prelude::*;

use crate::direction::Direction;
use crate::text::{trim_end, trim_end_len};

verus! {

/// The kind of a map tile.
#[derive(Debug, Clone, Copy, PartialEq, Eq, Structural)]
pub enum Place {
    UpperFloor,
    LowerFloor,
    /// A slope between an upper and a lower tile; the direction points
    /// downhill.
    Ramp(Direction),
    Void,
    Wall,
    Exit,
}

/// What occupies a position besides the map itself.
#[derive(Debug, Clone, Copy, PartialEq, Eq, Structural)]
pub enum EntityKind {
    Robot,
    Box,
}

/// A cell of the grid, `(x, y)`. Coordinates wrap around at the ends of
/// `usize`, so every cell has a neighbour in each direction; cells outside
/// the map are void.
#[derive(Debug, Clone, Copy, PartialEq, Eq, Structural)]
pub struct GridPos(pub usize, pub usize);

/// The cell one step from `p` in direction `d`.
pub open spec fn pos_after(p: GridPos, d: Direction) -> GridPos {
    match d {
        Direction::Up => GridPos(p.0, if p.1 == 0 { usize::MAX } else { (p.1 - 1) as usize }),
        Direction::Down => GridPos(p.0, if p.1 == usize::MAX { 0 } else { (p.1 + 1) as usize }),
        Direction::Left => GridPos(if p.0 == 0 { usize::MAX } else { (p.0 - 1) as usize }, p.1),
        Direction::Right => GridPos(if p.0 == usize::MAX { 0 } else { (p.0 + 1) as usize }, p.1),
    }
}

impl GridPos {
    /// The cell one step away in direction `d`.
    pub fn step(self, d: Direction) -> (r: GridPos)
        ensures
            r == pos_after(self, d),
    {
        match d {
            Direction::Up => GridPos(self.0, if self.1 == 0 { usize::MAX } else { self.1 - 1 }),
            Direction::Down => GridPos(self.0, if self.1 == usize::MAX { 0 } else { self.1 + 1 }),
            Direction::Left => GridPos(if self.0 == 0 { usize::MAX } else { self.0 - 1 }, self.1),
            Direction::Right => GridPos(if self.0 == usize::MAX { 0 } else { self.0 + 1 }, self.1),
        }
    }
}

/// The direction that leads from `from` to the neighbouring cell `to`.
pub fn dir_to_adjacent_tile(from: GridPos, to: GridPos) -> (r: Direction)
    requires
        exists|d: Direction| pos_after(from, d) == to,
    ensures
        pos_after(from, r) == to,
{
    if from.step(Direction::Right) == to {
        return Direction::Right;
    }
    if from.step(Direction::Left) == to {
        return Direction::Left;
    }
    if from.step(Direction::Down) == to {
        return Direction::Down;
    }
    Direction::Up
}

/// A rectangular grid of tiles stored row by row.
#[derive(Debug, Clone)]
pub struct TileMap {
    pub width: usize,
    pub height: usize,
    pub layout: Vec<Place>,
}

impl TileMap {
    /// The layout holds exactly one tile per cell of the rectangle.
    pub open spec fn wf(&self) -> bool {
        self.layout@.len() == self.width * self.height
    }

    /// The tile at `p`: the stored one inside the rectangle, void outside.
    pub open spec fn tile_at(&self, p: GridPos) -> Place {
        if p.0 < self.width && p.1 < self.height {
            self.layout@[p.1 * self.width + p.0]
        } else {
            Place::Void
        }
    }

    pub fn tile(&self, p: GridPos) -> (r: Place)
        requires
            self.wf(),
        ensures
            r == self.tile_at(p),
    {
        let GridPos(x, y) = p;
        if x < self.width && y < self.height {
            proof {
                assert(self.layout@.len() <= usize::MAX) by {
                    let _cells = self.layout.len();
                }
                lemma_cell_index(x as int, y as int, self.width as int, self.height as int);
            }
            self.layout[y * self.width + x]
        } else {
            Place::Void
        }
    }
}

/// The tile that a character of a map text stands for.
pub open spec fn place_of_char(c: char) -> Option<Place> {
    if c == '-' {
        Some(Place::UpperFloor)
    } else if c == '.' {
        Some(Place::LowerFloor)
    } else if c == '^' {
        Some(Place::Ramp(Direction::Up))
    } else if c == 'v' {
        Some(Place::Ramp(Direction::Down))
    } else if c == '<' {
        Some(Place::Ramp(Direction::Left))
    } else if c == '>' {
        Some(Place::Ramp(Direction::Right))
    } else if c == ' ' {
        Some(Place::Void)
    } else if c == '#' {
        Some(Place::Wall)
    } else if c == 'o' {
        Some(Place::Exit)
    } else {
        None
    }
}

fn place_from_char(c: char) -> (r: Option<Place>)
    ensures
        r == place_of_char(c),
{
    match c {
        '-' => Some(Place::UpperFloor),
        '.' => Some(Place::LowerFloor),
        '^' => Some(Place::Ramp(Direction::Up)),
        'v' => Some(Place::Ramp(Direction::Down)),
        '<' => Some(Place::Ramp(Direction::Left)),
        '>' => Some(Place::Ramp(Direction::Right)),
        ' ' => Some(Place::Void),
        '#' => Some(Place::Wall),
        'o' => Some(Place::Exit),
        _ => None,
    }
}

/// The lines of `s` ended so far, and the line being read at its end.
pub open spec fn lines_acc(s: Seq<char>) -> (Seq<Seq<char>>, Seq<char>)
    decreases s.len(),
{
    if s.len() == 0 {
        (Seq::empty(), Seq::empty())
    } else {
        let (ls, cur) = lines_acc(s.drop_last());
        if s.last() == '\n' {
            (ls.push(cur), Seq::empty())
        } else {
            (ls, cur.push(s.last()))
        }
    }
}

/// The lines of `s`, split at line feeds; a line feed at the very end
/// starts no further line.
pub open spec fn lines(s: Seq<char>) -> Seq<Seq<char>> {
    let (ls, cur) = lines_acc(s);
    if cur.len() > 0 {
        ls.push(cur)
    } else {
        ls
    }
}

/// Row `y` of a map text: its line without trailing white space.
pub open spec fn row_text(s: Seq<char>, y: int) -> Seq<char> {
    trim_end(lines(s)[y])
}

/// Every character of every row stands for a tile.
pub open spec fn rows_ok(s: Seq<char>) -> bool {
    forall|y: int, k: int|
        0 <= y < lines(s).len() && 0 <= k < row_text(s, y).len() ==> (#[trigger] place_of_char(
            row_text(s, y)[k],
        )) is Some
}

/// The length of the longest of `rows`.
pub open spec fn max_len(rows: Seq<Seq<char>>) -> nat
    decreases rows.len(),
{
    if rows.len() == 0 {
        0
    } else {
        let m = max_len(rows.drop_last());
        if rows.last().len() > m {
            rows.last().len()
        } else {
            m
        }
    }
}

/// The rows of a map text.
pub open spec fn rows_of(s: Seq<char>) -> Seq<Seq<char>> {
    lines(s).map_values(|l: Seq<char>| trim_end(l))
}

/// The width of the map a text describes: that of its longest row.
pub open spec fn map_width(s: Seq<char>) -> nat {
    max_len(rows_of(s))
}

/// The tile at `(x, y)` of the map a text describes: rows shorter than the
/// map are filled up with void.
pub open spec fn place_in(s: Seq<char>, x: int, y: int) -> Place {
    let row = row_text(s, y);
    if x < row.len() {
        place_of_char(row[x]).unwrap()
    } else {
        Place::Void
    }
}

proof fn lemma_max_len(rows: Seq<Seq<char>>)
    ensures
        forall|y: int| 0 <= y < rows.len() ==> (#[trigger] rows[y]).len() <= max_len(rows),
        rows.len() > 0 ==> exists|y: int| 0 <= y < rows.len() && (#[trigger] rows[y]).len() == max_len(rows),
    decreases rows.len(),
{
    if rows.len() > 0 {
        lemma_max_len(rows.drop_last());
        assert forall|y: int| 0 <= y < rows.len() implies (#[trigger] rows[y]).len() <= max_len(rows) by {
            if y < rows.len() - 1 {
                assert(rows[y] == rows.drop_last()[y]);
            }
        }
        if rows.last().len() > max_len(rows.drop_last()) || rows.len() == 1 {
            assert(rows[rows.len() - 1].len() == max_len(rows));
        } else {
            let y = choose|y: int| 0 <= y < rows.drop_last().len() && (#[trigger] rows.drop_last()[y]).len() == max_len(rows.drop_last());
            assert(rows[y] == rows.drop_last()[y]);
        }
    }
}

/// Index `k` of a row-major layout of width `w` is cell `(k % w, k / w)`.
proof fn lemma_row_major(x: int, y: int, w: int)
    requires
        0 <= x < w,
        0 <= y,
    ensures
        (y * w + x) % w == x,
        (y * w + x) / w == y,
{
    vstd::arithmetic::div_mod::lemma_fundamental_div_mod_converse(y * w + x, w, y, x);
}

/// Whether `s` is the text of a map: it has a line, every character of its
/// rows stands for a tile, and the map fits in memory.
pub open spec fn map_text_ok(s: Seq<char>) -> bool {
    lines(s).len() > 0 && rows_ok(s) && map_width(s) * lines(s).len() <= usize::MAX
}

impl TileMap {
    /// Whether this is the map that the text `s` describes.
    pub open spec fn describes(&self, s: Seq<char>) -> bool {
        &&& self.wf()
        &&& self.width == map_width(s)
        &&& self.height == lines(s).len()
        &&& forall|p: GridPos|
            p.0 < self.width && p.1 < self.height ==> #[trigger] self.tile_at(p) == place_in(
                s,
                p.0 as int,
                p.1 as int,
            )
    }

    /// Reads a map from its text: one line per row, one character per
    /// tile (`-` upper floor, `.` lower floor, `^ v < >` ramps pointing
    /// downhill, space void, `#` wall, `o` exit). Trailing white space of a
    /// line is ignored and short rows are filled up with void. Gives `None`
    /// for a text with no line, with a character that stands for no tile, or
    /// whose map would not fit in memory.
    pub fn from_str(src: &str) -> (r: Option<TileMap>)
        ensures
            r is Some <==> map_text_ok(src@),
            r matches Some(m) ==> m.describes(src@),
    {
        let ghost s = src@;
        let n = src.unicode_len();
        // split into lines
        let mut raw: Vec<Vec<char>> = Vec::new();
        let mut cur: Vec<char> = Vec::new();
        let mut i: usize = 0;
        while i < n
            invariant
                i <= n,
                n == s.len(),
                s == src@,
                (raw@.map_values(|l: Vec<char>| l@), cur@) == lines_acc(s.subrange(0, i as int)),
            decreases n - i,
        {
            let ghost old_raw = raw@.map_values(|l: Vec<char>| l@);
            let c = src.get_char(i);
            assert(s.subrange(0, i + 1).drop_last() =~= s.subrange(0, i as int));
            if c == '\n' {
                let done = cur;
                cur = Vec::new();
                raw.push(done);
                assert(raw@.map_values(|l: Vec<char>| l@) =~= old_raw.push(done@));
            } else {
                cur.push(c);
            }
            i += 1;
        }
        assert(s.subrange(0, n as int) =~= s);
        if cur.len() > 0 {
            let ghost old_raw = raw@.map_values(|l: Vec<char>| l@);
            raw.push(cur);
            assert(raw@.map_values(|l: Vec<char>| l@) =~= old_raw.push(cur@));
        }
        let ghost ls = lines(s);
        assert(ls.len() == raw@.len());
        // read the rows
        let height = raw.len();
        let mut rows: Vec<Vec<Place>> = Vec::new();
        let mut width: usize = 0;
        let mut y: usize = 0;
        while y < height
            invariant
                y <= height,
                height == raw@.len(),
                s == src@,
                ls == lines(s),
                ls == raw@.map_values(|l: Vec<char>| l@),
                rows@.len() == y,
                forall|yy: int, x: int|
                    0 <= yy < y && 0 <= x < row_text(s, yy).len() ==> (#[trigger] rows@[yy]@[x]) == place_in(s, x, yy),
                forall|yy: int| 0 <= yy < y ==> (#[trigger] rows@[yy]@).len() == row_text(s, yy).len(),
                forall|yy: int, k: int|
                    0 <= yy < y && 0 <= k < row_text(s, yy).len() ==> (#[trigger] place_of_char(
                        row_text(s, yy)[k],
                    )) is Some,
                width == max_len(rows_of(s).take(y as int)),
            decreases height - y,
        {
            let line = &raw[y];
            assert(line@ == ls[y as int]);
            let len = trim_end_len(line);
            assert(row_text(s, y as int) =~= line@.subrange(0, len as int));
            let mut row: Vec<Place> = Vec::new();
            let mut k: usize = 0;
            while k < len
                invariant
                    k <= len,
                    len == row_text(s, y as int).len(),
                    len <= line@.len(),
                    row_text(s, y as int) == line@.subrange(0, len as int),
                    line@ == ls[y as int],
                    s == src@,
                    ls == lines(s),
                    y < height,
                    height == ls.len(),
                    row@.len() == k,
                    forall|x: int| 0 <= x < k ==> (#[trigger] row@[x]) == place_in(s, x, y as int),
                    forall|kk: int| 0 <= kk < k ==> (#[trigger] place_of_char(row_text(s, y as int)[kk])) is Some,
                decreases len - k,
            {
                assert(row_text(s, y as int)[k as int] == line@[k as int]);
                match place_from_char(line[k]) {
                    Some(p) => row.push(p),
                    None => {
                        assert(!rows_ok(s)) by {
                            assert(!(place_of_char(row_text(s, y as int)[k as int]) is Some));
                        }
                        return None;
                    },
                }
                k += 1;
            }
            proof {
                assert(rows_of(s).take(y + 1).drop_last() =~= rows_of(s).take(y as int));
                assert(rows_of(s).take(y + 1).last() == row_text(s, y as int));
            }
            if len > width {
                width = len;
            }
            rows.push(row);
            y += 1;
        }
        assert(rows_of(s).take(height as int) =~= rows_of(s));
        assert(rows_ok(s));
        if height == 0 {
            return None;
        }
        let cells = match width.checked_mul(height) {
            Some(c) => c,
            None => {
                return None;
            },
        };
        proof {
            lemma_max_len(rows_of(s));
        }
        // lay out the rows
        let mut layout: Vec<Place> = Vec::new();
        let mut y: usize = 0;
        while y < height
            invariant
                y <= height,
                height == rows@.len(),
                height == ls.len(),
                ls == lines(s),
                cells == width * height,
                width == map_width(s),
                forall|yy: int| 0 <= yy < height ==> (#[trigger] rows@[yy]@).len() == row_text(s, yy).len(),
                forall|yy: int| 0 <= yy < height ==> (#[trigger] rows_of(s)[yy]).len() <= width,
                forall|yy: int, x: int|
                    0 <= yy < height && 0 <= x < row_text(s, yy).len() ==> (#[trigger] rows@[yy]@[x]) == place_in(s, x, yy),
                layout@.len() == y * width,
                forall|k: int| 0 <= k < layout@.len() ==> (#[trigger] layout@[k]) == place_in(s, k % width as int, k / width as int),
            decreases height - y,
        {
            let row = &rows[y];
            assert(rows_of(s)[y as int] == row_text(s, y as int));
            let mut x: usize = 0;
            while x < width
                invariant
                    x <= width,
                    y < height,
                    cells == width * height,
                    row@.len() <= width,
                    row@ == rows@[y as int]@,
                    row@.len() == row_text(s, y as int).len(),
                    forall|xx: int| 0 <= xx < row@.len() ==> (#[trigger] row@[xx]) == place_in(s, xx, y as int),
                    layout@.len() == y * width + x,
                    forall|k: int| 0 <= k < layout@.len() ==> (#[trigger] layout@[k]) == place_in(s, k % width as int, k / width as int),
                decreases width - x,
            {
                proof {
                    lemma_row_major(x as int, y as int, width as int);
                    assert(y * width + x < cells) by (nonlinear_arith)
                        requires
                            x < width,
                            y < height,
                            cells == width * height,
                    ;
                }
                if x < row.len() {
                    layout.push(row[x]);
                } else {
                    layout.push(Place::Void);
                }
                x += 1;
            }
            proof {
                assert(y * width + width == (y + 1) * width) by (nonlinear_arith);
            }
            y += 1;
        }
        let m = TileMap { width, height, layout };
        proof {
            assert(height * width == width * height) by (nonlinear_arith);
            assert forall|p: GridPos| p.0 < m.width && p.1 < m.height implies #[trigger] m.tile_at(p)
                == place_in(s, p.0 as int, p.1 as int) by {
                lemma_row_major(p.0 as int, p.1 as int, width as int);
                lemma_cell_index(p.0 as int, p.1 as int, width as int, height as int);
                let k = p.1 * width + p.0;
                assert(m.layout@[k as int] == place_in(s, k % width as int, k / width as int));
            }
        }
        Some(m)
    }
}

/// A cell inside a `w` by `h` rectangle has a row-major index inside it.
proof fn lemma_cell_index(x: int, y: int, w: int, h: int)
    requires
        0 <= x < w,
        0 <= y < h,
    ensures
        0 <= y * w,
        y * w + x < w * h,
{
    assert(0 <= y * w) by (nonlinear_arith)
        requires
            0 <= y,
            0 <= w,
    ;
    assert(y * w + w <= w * h) by (nonlinear_arith)
        requires
            y + 1 <= h,
            0 <= w,
    ;
}

} // verus!
