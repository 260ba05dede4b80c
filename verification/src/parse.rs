//! Parsing a textual map into a room.
//!
//! The text splits into lines on `'\n'`; each line is trimmed of leading and
//! trailing blanks (spaces, tabs, carriage returns) and dropped when nothing
//! remains. The surviving lines become the grid's rows, top to bottom, one
//! character per cell: `x` is a wall, `d` a door, anything else empty floor.
//! Every row must be the same length; a ragged map, a map with no rows at
//! all, and a map wider or taller than `MAX_DIM` are rejected before any
//! placement is computed.

use vstd::arithmetic::div_mod::lemma_div_nonincreasing;
use vstd::arithmetic::div_mod::lemma_div_pos_is_pos;
use vstd::arithmetic::div_mod::lemma_fundamental_div_mod;
use vstd::arithmetic::div_mod::lemma_fundamental_div_mod_converse_div;
use vstd::arithmetic::div_mod::lemma_fundamental_div_mod_converse_mod;
use vstd::arithmetic::div_mod::lemma_mod_bound;
use vstd::prelude::*;

use crate::geometry::WorldVec;
use crate::room::lemma_row_major_index_bounds;
use crate::room::origin_in_range;
use crate::room::Location;
use crate::room::Room;
use crate::room::MAX_DIM;
use crate::tile::TileType;

verus! {

/// Why a map text was rejected.
#[derive(Clone, Copy, PartialEq, Eq, Structural, Debug)]
pub enum MapError {
    /// No row survives trimming: the text holds no tiles.
    EmptyMap,
    /// Two surviving rows have different lengths.
    RaggedRows,
    /// The grid is wider or taller than `MAX_DIM` cells.
    TooLarge,
}

/// Whether `c` is a blank trimmed from the ends of a line: a space, a tab, or
/// a carriage return.
pub open spec fn is_blank(c: char) -> bool {
    c == ' ' || c == '\t' || c == '\r'
}

/// The tile a map character stands for: `x` a wall, `d` a door, anything else
/// empty floor.
pub open spec fn tile_of_char(c: char) -> TileType {
    if c == 'x' {
        TileType::Wall
    } else if c == 'd' {
        TileType::Door
    } else {
        TileType::Empty
    }
}

/// The text split on `'\n'`, separators removed: always at least one line,
/// and one more line per newline character.
pub open spec fn raw_lines(s: Seq<char>) -> Seq<Seq<char>>
    decreases s.len(),
{
    if s.len() == 0 {
        seq![Seq::empty()]
    } else {
        let prev = raw_lines(s.drop_last());
        if s.last() == '\n' {
            prev.push(Seq::empty())
        } else {
            prev.update(prev.len() - 1, prev.last().push(s.last()))
        }
    }
}

/// `l` without its leading blanks.
pub open spec fn trim_front(l: Seq<char>) -> Seq<char>
    decreases l.len(),
{
    if l.len() > 0 && is_blank(l.first()) {
        trim_front(l.drop_first())
    } else {
        l
    }
}

/// `l` without its trailing blanks.
pub open spec fn trim_back(l: Seq<char>) -> Seq<char>
    decreases l.len(),
{
    if l.len() > 0 && is_blank(l.last()) {
        trim_back(l.drop_last())
    } else {
        l
    }
}

/// `l` without leading and trailing blanks.
pub open spec fn trim_line(l: Seq<char>) -> Seq<char> {
    trim_back(trim_front(l))
}

/// The lines of `rows`, each trimmed, with the lines that trim to nothing
/// dropped.
pub open spec fn cleaned(rows: Seq<Seq<char>>) -> Seq<Seq<char>>
    decreases rows.len(),
{
    if rows.len() == 0 {
        Seq::empty()
    } else {
        let rest = cleaned(rows.drop_last());
        let t = trim_line(rows.last());
        if t.len() > 0 {
            rest.push(t)
        } else {
            rest
        }
    }
}

/// The grid rows a map text describes: its lines, trimmed, blanks dropped.
pub open spec fn clean_rows(s: Seq<char>) -> Seq<Seq<char>> {
    cleaned(raw_lines(s))
}

/// Whether every row has the length of the first.
pub open spec fn rows_rectangular(rows: Seq<Seq<char>>) -> bool {
    forall|i: int| 0 <= i < rows.len() ==> #[trigger] rows[i].len() == rows[0].len()
}

/// The tiles of one row of characters.
pub open spec fn row_tiles(row: Seq<char>) -> Seq<Option<TileType>> {
    row.map_values(|c: char| Some(tile_of_char(c)))
}

/// The row-major tile array of a sequence of rows.
pub open spec fn grid_tiles(rows: Seq<Seq<char>>) -> Seq<Option<TileType>>
    decreases rows.len(),
{
    if rows.len() == 0 {
        Seq::empty()
    } else {
        grid_tiles(rows.drop_last()) + row_tiles(rows.last())
    }
}

/// The locations of the empty tiles among the first `k` cells of a row-major
/// tile array of width `w`, in scan order.
pub open spec fn empty_locs_upto(map: Seq<Option<TileType>>, w: int, k: int) -> Seq<Location>
    decreases k,
{
    if k <= 0 {
        Seq::empty()
    } else {
        let rest = empty_locs_upto(map, w, k - 1);
        if map[k - 1] == Some(TileType::Empty) {
            rest.push(Location { x: ((k - 1) % w) as usize, y: ((k - 1) / w) as usize })
        } else {
            rest
        }
    }
}

/// The empty-location list is exact: it holds a location precisely when that
/// location indexes one of the first `k` cells and that cell is empty floor.
pub proof fn lemma_empty_locs_exact(map: Seq<Option<TileType>>, w: int, k: int, l: Location)
    requires
        1 <= w <= MAX_DIM,
        0 <= k <= MAX_DIM * MAX_DIM,
    ensures
        empty_locs_upto(map, w, k).contains(l) <==> (l.x < w && l.y * w + l.x < k && map[l.y * w
            + l.x] == Some(TileType::Empty)),
    decreases k,
{
    broadcast use vstd::seq_lib::group_seq_properties;

    if k > 0 {
        lemma_empty_locs_exact(map, w, k - 1, l);
        let m = k - 1;
        lemma_fundamental_div_mod(m, w);
        lemma_mod_bound(m, w);
        lemma_div_pos_is_pos(m, w);
        lemma_div_nonincreasing(m, w);
        let here = Location { x: (m % w) as usize, y: (m / w) as usize };
        assert(here.x as int == m % w);
        assert(here.y as int == m / w);
        assert(here.y * w + here.x == m) by (nonlinear_arith)
            requires
                here.x as int == m % w,
                here.y as int == m / w,
                m == w * (m / w) + m % w,
        ;
        if l.x < w && l.y * w + l.x == m {
            lemma_fundamental_div_mod_converse_div(m, w, l.y as int, l.x as int);
            lemma_fundamental_div_mod_converse_mod(m, w, l.y as int, l.x as int);
            assert(l == here);
        }
        if map[m] == Some(TileType::Empty) {
            assert(empty_locs_upto(map, w, k) == empty_locs_upto(map, w, k - 1).push(here));
        }
    }
}

/// Splitting always yields at least one line.
pub proof fn lemma_raw_lines_nonempty(s: Seq<char>)
    ensures
        raw_lines(s).len() >= 1,
    decreases s.len(),
{
    if s.len() > 0 {
        lemma_raw_lines_nonempty(s.drop_last());
    }
}

/// Every cleaned row is nonempty.
pub proof fn lemma_cleaned_rows_nonempty(rows: Seq<Seq<char>>)
    ensures
        forall|i: int| 0 <= i < cleaned(rows).len() ==> #[trigger] cleaned(rows)[i].len() > 0,
    decreases rows.len(),
{
    if rows.len() > 0 {
        lemma_cleaned_rows_nonempty(rows.drop_last());
        let rest = cleaned(rows.drop_last());
        let t = trim_line(rows.last());
        if t.len() > 0 {
            assert forall|i: int| 0 <= i < cleaned(rows).len() implies #[trigger] cleaned(
                rows,
            )[i].len() > 0 by {
                if i < rest.len() {
                    assert(cleaned(rows)[i] == rest[i]);
                } else {
                    assert(cleaned(rows)[i] == t);
                }
            }
        }
    }
}

/// A rectangular stack of rows of width `w` flattens to a tile array of
/// length `rows.len() * w` in which cell `(x, y)` holds the tile of the
/// character at column `x` of row `y`.
pub proof fn lemma_grid_tiles_index(rows: Seq<Seq<char>>, w: int, x: int, y: int)
    requires
        forall|i: int| 0 <= i < rows.len() ==> #[trigger] rows[i].len() == w,
        0 <= x < w,
        0 <= y < rows.len(),
    ensures
        grid_tiles(rows).len() == rows.len() * w,
        grid_tiles(rows)[y * w + x] == Some(tile_of_char(rows[y][x])),
    decreases rows.len(),
{
    lemma_grid_tiles_len(rows, w);
    if y == rows.len() - 1 {
        lemma_grid_tiles_len(rows.drop_last(), w);
        assert(grid_tiles(rows.drop_last()).len() == (rows.len() - 1) * w);
        assert(y * w + x - (rows.len() - 1) * w == x) by (nonlinear_arith)
            requires
                y == rows.len() - 1,
        ;
        assert(grid_tiles(rows)[y * w + x] == row_tiles(rows.last())[x]);
    } else {
        lemma_grid_tiles_index(rows.drop_last(), w, x, y);
        lemma_grid_tiles_len(rows.drop_last(), w);
        assert(0 <= y * w + x < (rows.len() - 1) * w) by (nonlinear_arith)
            requires
                0 <= x < w,
                0 <= y < rows.len() - 1,
        ;
        assert(grid_tiles(rows)[y * w + x] == grid_tiles(rows.drop_last())[y * w + x]);
    }
}

/// A rectangular stack of rows of width `w` flattens to `rows.len() * w`
/// tiles.
pub proof fn lemma_grid_tiles_len(rows: Seq<Seq<char>>, w: int)
    requires
        forall|i: int| 0 <= i < rows.len() ==> #[trigger] rows[i].len() == w,
    ensures
        grid_tiles(rows).len() == rows.len() * w,
    decreases rows.len(),
{
    if rows.len() > 0 {
        lemma_grid_tiles_len(rows.drop_last(), w);
        assert((rows.len() - 1) * w + w == rows.len() * w) by (nonlinear_arith);
    }
}

/// Whether `c` is a blank trimmed from the ends of a line.
fn blank_char(c: char) -> (r: bool)
    ensures
        r == is_blank(c),
{
    c == ' ' || c == '\t' || c == '\r'
}

/// The tile a map character stands for.
fn char_tile(c: char) -> (t: TileType)
    ensures
        t == tile_of_char(c),
{
    if c == 'x' {
        TileType::Wall
    } else if c == 'd' {
        TileType::Door
    } else {
        TileType::Empty
    }
}

/// Trims leading and trailing blanks from a line of characters.
fn trim_chars(l: &Vec<char>) -> (r: Vec<char>)
    ensures
        r@ == trim_line(l@),
{
    let len = l.len();
    proof {
        assert(l@.subrange(0, len as int) =~= l@);
    }
    let mut start: usize = 0;
    while start < len && blank_char(l[start])
        invariant
            len == l@.len(),
            start <= len,
            trim_front(l@) == trim_front(l@.subrange(start as int, len as int)),
        decreases len - start,
    {
        proof {
            let sub = l@.subrange(start as int, len as int);
            assert(sub.drop_first() =~= l@.subrange(start as int + 1, len as int));
        }
        start += 1;
    }
    proof {
        let sub = l@.subrange(start as int, len as int);
        assert(trim_front(sub) == sub);
        assert(trim_front(l@) == l@.subrange(start as int, len as int));
    }
    let mut end: usize = len;
    while end > start && blank_char(l[end - 1])
        invariant
            len == l@.len(),
            start <= end <= len,
            trim_front(l@) == l@.subrange(start as int, len as int),
            trim_back(l@.subrange(start as int, len as int)) == trim_back(
                l@.subrange(start as int, end as int),
            ),
        decreases end,
    {
        proof {
            let sub = l@.subrange(start as int, end as int);
            assert(sub.drop_last() =~= l@.subrange(start as int, end as int - 1));
        }
        end -= 1;
    }
    proof {
        let sub = l@.subrange(start as int, end as int);
        assert(trim_back(sub) == sub);
        assert(trim_line(l@) == l@.subrange(start as int, end as int));
    }
    let mut r: Vec<char> = Vec::new();
    let mut i: usize = start;
    while i < end
        invariant
            start <= i <= end <= len,
            len == l@.len(),
            r@ == l@.subrange(start as int, i as int),
        decreases end - i,
    {
        r.push(l[i]);
        proof {
            assert(r@ =~= l@.subrange(start as int, i as int + 1));
        }
        i += 1;
    }
    proof {
        assert(r@ =~= l@.subrange(start as int, end as int));
    }
    r
}

/// Collects the characters of a string into a vector: byte by byte for ASCII
/// text, character by character otherwise.
fn collect_chars(input: &str) -> (chars: Vec<char>)
    ensures
        chars@ == input@,
{
    let len = input.unicode_len();
    let ascii = input.is_ascii();
    let mut chars: Vec<char> = Vec::new();
    let mut i: usize = 0;
    while i < len
        invariant
            len == input@.len(),
            ascii == vstd::string::is_ascii(input),
            i <= len,
            chars@ == input@.subrange(0, i as int),
        decreases len - i,
    {
        if ascii {
            let b = input.get_ascii(i);
            proof {
                assert('\0' <= input@[i as int] <= '\u{7f}');
            }
            chars.push(b as char);
        } else {
            chars.push(input.get_char(i));
        }
        proof {
            assert(chars@ =~= input@.subrange(0, i as int + 1));
        }
        i += 1;
    }
    proof {
        assert(chars@ =~= input@);
    }
    chars
}

/// Splits a character sequence into its raw lines.
fn split_lines(chars: &Vec<char>) -> (lines: Vec<Vec<char>>)
    ensures
        lines@.map_values(|v: Vec<char>| v@) == raw_lines(chars@),
{
    let mut lines: Vec<Vec<char>> = Vec::new();
    let mut cur: Vec<char> = Vec::new();
    let mut i: usize = 0;
    while i < chars.len()
        invariant
            i <= chars@.len(),
            lines@.map_values(|v: Vec<char>| v@).push(cur@) == raw_lines(
                chars@.subrange(0, i as int),
            ),
        decreases chars@.len() - i,
    {
        let ghost prefix = chars@.subrange(0, i as int);
        let ghost views = lines@.map_values(|v: Vec<char>| v@);
        let c = chars[i];
        proof {
            assert(chars@.subrange(0, i as int + 1).drop_last() =~= prefix);
            assert(chars@.subrange(0, i as int + 1).last() == c);
        }
        let ghost old_cur = cur@;
        if c == '\n' {
            lines.push(cur);
            cur = Vec::new();
            proof {
                assert(lines@.map_values(|v: Vec<char>| v@) =~= views.push(old_cur));
                assert(lines@.map_values(|v: Vec<char>| v@).push(cur@) =~= views.push(
                    old_cur,
                ).push(Seq::empty()));
            }
        } else {
            cur.push(c);
            proof {
                let old_views = views.push(old_cur);
                assert(old_views == raw_lines(prefix));
                assert(old_views.len() >= 1) by {
                    lemma_raw_lines_nonempty(prefix);
                }
                assert(lines@.map_values(|v: Vec<char>| v@).push(cur@) =~= old_views.update(
                    old_views.len() - 1,
                    old_views.last().push(c),
                ));
            }
        }
        i += 1;
    }
    proof {
        assert(chars@.subrange(0, chars@.len() as int) =~= chars@);
    }
    lines.push(cur);
    proof {
        assert(lines@.map_values(|v: Vec<char>| v@) =~= lines@.map_values(
            |v: Vec<char>| v@,
        ).drop_last().push(cur@));
    }
    lines
}

/// Trims every line and drops the lines that trim to nothing.
fn clean_lines(lines: Vec<Vec<char>>) -> (rows: Vec<Vec<char>>)
    ensures
        rows@.map_values(|v: Vec<char>| v@) == cleaned(lines@.map_values(|v: Vec<char>| v@)),
{
    let mut rows: Vec<Vec<char>> = Vec::new();
    let mut i: usize = 0;
    while i < lines.len()
        invariant
            i <= lines@.len(),
            rows@.map_values(|v: Vec<char>| v@) == cleaned(
                lines@.map_values(|v: Vec<char>| v@).subrange(0, i as int),
            ),
        decreases lines@.len() - i,
    {
        let ghost views = lines@.map_values(|v: Vec<char>| v@);
        let t = trim_chars(&lines[i]);
        proof {
            assert(views.subrange(0, i as int + 1).drop_last() =~= views.subrange(0, i as int));
            assert(views.subrange(0, i as int + 1).last() == lines@[i as int]@);
        }
        if t.len() > 0 {
            let ghost old_rows = rows@.map_values(|v: Vec<char>| v@);
            rows.push(t);
            proof {
                assert(rows@.map_values(|v: Vec<char>| v@) =~= old_rows.push(t@));
            }
        }
        i += 1;
    }
    proof {
        assert(lines@.map_values(|v: Vec<char>| v@).subrange(
            0,
            lines@.len() as int,
        ) =~= lines@.map_values(|v: Vec<char>| v@));
    }
    rows
}

impl Room {
    /// Parses a map text into a room with the given world-space origin.
    ///
    /// The text's cleaned rows (lines trimmed of blanks, empty lines dropped)
    /// become the grid, row-major, one tile per character. The parse fails
    /// fast — with `EmptyMap` when no row survives, with `RaggedRows` when
    /// two rows differ in length, and with `TooLarge` when a dimension
    /// exceeds `MAX_DIM` — and succeeds in exactly the remaining cases.
    pub fn from_str(input: &str, origin: WorldVec) -> (r: Result<Room, MapError>)
        requires
            origin_in_range(origin),
        ensures
            match r {
                Ok(room) => {
                    let rows = clean_rows(input@);
                    &&& rows.len() > 0
                    &&& rows_rectangular(rows)
                    &&& rows[0].len() <= MAX_DIM
                    &&& rows.len() <= MAX_DIM
                    &&& room.wf()
                    &&& room.spec_width() == rows[0].len()
                    &&& room.spec_height() == rows.len()
                    &&& room.origin == origin
                    &&& room.map@ == grid_tiles(rows)
                    &&& forall|x: int, y: int|
                        0 <= x < rows[0].len() && 0 <= y < rows.len() ==> room.tile_at(x, y)
                            == Some(tile_of_char(rows[y][x]))
                    &&& room.empty_locations@ == empty_locs_upto(
                        room.map@,
                        room.spec_width(),
                        room.spec_width() * room.spec_height(),
                    )
                },
                Err(MapError::EmptyMap) => clean_rows(input@).len() == 0,
                Err(MapError::RaggedRows) => clean_rows(input@).len() > 0 && !rows_rectangular(
                    clean_rows(input@),
                ),
                Err(MapError::TooLarge) => {
                    let rows = clean_rows(input@);
                    &&& rows.len() > 0
                    &&& rows_rectangular(rows)
                    &&& (rows[0].len() > MAX_DIM || rows.len() > MAX_DIM)
                },
            },
    {
        let chars = collect_chars(input);
        let lines = split_lines(&chars);
        let rows = clean_lines(lines);
        let ghost rows_spec = clean_rows(input@);
        proof {
            assert(rows@.map_values(|v: Vec<char>| v@) == rows_spec);
        }
        if rows.len() == 0 {
            return Err(MapError::EmptyMap);
        }
        let height = rows.len();
        let width = rows[0].len();
        let mut i: usize = 1;
        while i < height
            invariant
                rows_spec == clean_rows(input@),
                height == rows_spec.len(),
                width == rows_spec[0].len(),
                rows@.map_values(|v: Vec<char>| v@) == rows_spec,
                1 <= i <= height,
                forall|j: int| 0 <= j < i ==> #[trigger] rows_spec[j].len() == width,
            decreases height - i,
        {
            if rows[i].len() != width {
                proof {
                    assert(rows_spec[i as int].len() != rows_spec[0].len());
                    assert(!rows_rectangular(rows_spec));
                }
                return Err(MapError::RaggedRows);
            }
            i += 1;
        }
        proof {
            assert(rows_rectangular(rows_spec));
        }
        if width > MAX_DIM || height > MAX_DIM {
            return Err(MapError::TooLarge);
        }
        proof {
            lemma_cleaned_rows_nonempty(raw_lines(input@));
            assert(rows_spec[0].len() > 0);
        }
        // Flatten the rows into the row-major tile array.
        let mut map: Vec<Option<TileType>> = Vec::new();
        let mut y: usize = 0;
        while y < height
            invariant
                height == rows_spec.len(),
                width == rows_spec[0].len(),
                rows@.map_values(|v: Vec<char>| v@) == rows_spec,
                rows_rectangular(rows_spec),
                y <= height,
                map@ == grid_tiles(rows_spec.subrange(0, y as int)),
                map@.len() == y * width,
            decreases height - y,
        {
            let ghost row_prefix = rows_spec.subrange(0, y as int);
            proof {
                assert(rows_spec[y as int].len() == rows_spec[0].len());
            }
            let row_len = rows[y].len();
            let mut x: usize = 0;
            while x < row_len
                invariant
                    height == rows_spec.len(),
                    width == rows_spec[0].len(),
                    rows@.map_values(|v: Vec<char>| v@) == rows_spec,
                    rows_rectangular(rows_spec),
                    y < height,
                    row_len == width,
                    row_prefix == rows_spec.subrange(0, y as int),
                    x <= width,
                    map@ == grid_tiles(row_prefix) + row_tiles(rows_spec[y as int]).subrange(
                        0,
                        x as int,
                    ),
                decreases row_len - x,
            {
                let t = char_tile(rows[y][x]);
                map.push(Some(t));
                proof {
                    assert(map@ =~= grid_tiles(row_prefix) + row_tiles(
                        rows_spec[y as int],
                    ).subrange(0, x as int + 1));
                }
                x += 1;
            }
            proof {
                let next_prefix = rows_spec.subrange(0, y as int + 1);
                assert(next_prefix.drop_last() =~= row_prefix);
                assert(row_tiles(rows_spec[y as int]).subrange(0, width as int) =~= row_tiles(
                    rows_spec[y as int],
                ));
                assert(map@ =~= grid_tiles(next_prefix));
                lemma_grid_tiles_len(next_prefix, width as int);
            }
            y += 1;
        }
        proof {
            assert(rows_spec.subrange(0, height as int) =~= rows_spec);
            lemma_grid_tiles_len(rows_spec, width as int);
        }
        // Collect the locations of the empty tiles, in row-major scan order.
        let mut empty_locations: Vec<Location> = Vec::new();
        let mut y2: usize = 0;
        while y2 < height
            invariant
                height == rows_spec.len(),
                width == rows_spec[0].len(),
                1 <= width <= MAX_DIM,
                1 <= height <= MAX_DIM,
                map@.len() == height * width,
                y2 <= height,
                empty_locations@ == empty_locs_upto(map@, width as int, y2 as int * width),
            decreases height - y2,
        {
            let mut x2: usize = 0;
            while x2 < width
                invariant
                    height == rows_spec.len(),
                    1 <= width <= MAX_DIM,
                    1 <= height <= MAX_DIM,
                    map@.len() == height * width,
                    y2 < height,
                    x2 <= width,
                    empty_locations@ == empty_locs_upto(
                        map@,
                        width as int,
                        y2 as int * width + x2 as int,
                    ),
                decreases width - x2,
            {
                proof {
                    lemma_row_major_index_bounds(
                        width as int,
                        height as int,
                        x2 as int,
                        y2 as int,
                    );
                    lemma_fundamental_div_mod_converse_div(
                        y2 as int * width + x2 as int,
                        width as int,
                        y2 as int,
                        x2 as int,
                    );
                    lemma_fundamental_div_mod_converse_mod(
                        y2 as int * width + x2 as int,
                        width as int,
                        y2 as int,
                        x2 as int,
                    );
                }
                proof {
                    assert(width as int * height == height as int * width) by (nonlinear_arith);
                }
                let idx = y2 * width + x2;
                if let Some(TileType::Empty) = map[idx] {
                    empty_locations.push(Location { x: x2, y: y2 });
                }
                x2 += 1;
            }
            proof {
                assert(y2 as int * width + width as int == (y2 as int + 1) * width)
                    by (nonlinear_arith);
            }
            y2 += 1;
        }
        proof {
            assert(height as int * width == width as int * height) by (nonlinear_arith);
        }
        let room = Room::new(map, width, height, origin, empty_locations);
        proof {
            assert forall|x: int, y: int|
                0 <= x < rows_spec[0].len() && 0 <= y < rows_spec.len() implies room.tile_at(x, y)
                == Some(tile_of_char(rows_spec[y][x])) by {
                lemma_grid_tiles_index(rows_spec, width as int, x, y);
            }
        }
        Ok(room)
    }
}

} // verus!
