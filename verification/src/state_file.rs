//! The world map's persistence format: a version line, then one block per
//! vertical layer holding the bounding box corners as coordinate triples
//! and one text row per X-rank, one symbol per Z-cell. Serialization and
//! deserialization are exact inverses.

use vstd::prelude::*;
use crate::vec3::Vec3;
use crate::text::{int_chars, push_i32, chars_to_string, str_to_chars, spec_parse_i32, parse_i32, digit_val, dec_digits};
use vstd::slice::slice_subrange;
use crate::turtle_state::{Block, block_char, spec_block_of, block_at, WorldState};
use crate::cell_grid::CellGrid;
use crate::location_state::{coord_bounded, COORD_LIMIT};
use crate::error::TurtleError;

verus! {

/// Are `lo` and `hi` the componentwise extremes of the map's keys? An empty
/// map gets the reversed sentinels.
pub open spec fn dims_ok(m: Map<Vec3, Block>, lo: Vec3, hi: Vec3) -> bool {
    &&& (forall|k: Vec3| #[trigger] m.contains_key(k) ==> {
        &&& lo.0 <= k.0 <= hi.0
        &&& lo.1 <= k.1 <= hi.1
        &&& lo.2 <= k.2 <= hi.2
    })
    &&& (!(exists|k: Vec3| m.contains_key(k)) ==> lo == (Vec3(i32::MAX, i32::MAX, i32::MAX))
        && hi == (Vec3(i32::MIN, i32::MIN, i32::MIN)))
    &&& ((exists|k: Vec3| m.contains_key(k)) ==> {
        &&& exists|k: Vec3| #[trigger] m.contains_key(k) && k.0 == lo.0
        &&& exists|k: Vec3| #[trigger] m.contains_key(k) && k.1 == lo.1
        &&& exists|k: Vec3| #[trigger] m.contains_key(k) && k.2 == lo.2
        &&& exists|k: Vec3| #[trigger] m.contains_key(k) && k.0 == hi.0
        &&& exists|k: Vec3| #[trigger] m.contains_key(k) && k.1 == hi.1
        &&& exists|k: Vec3| #[trigger] m.contains_key(k) && k.2 == hi.2
    })
}

/// The componentwise extremes of the cells the grid records; the reversed
/// integer extremes when it records none.
pub fn dimensions(grid: &CellGrid) -> (r: (Vec3, Vec3))
    requires
        grid.wf(),
    ensures
        dims_ok(grid@, r.0, r.1),
{
    proof {
        grid.lemma_entries();
    }
    let n = grid.len();
    let mut x_min: i32 = i32::MAX;
    let mut x_max: i32 = i32::MIN;
    let mut y_min: i32 = i32::MAX;
    let mut y_max: i32 = i32::MIN;
    let mut z_min: i32 = i32::MAX;
    let mut z_max: i32 = i32::MIN;
    let mut i: usize = 0;
    while i < n
        invariant
            grid.wf(),
            n == grid.entries().len(),
            i <= n,
            forall|j: int| 0 <= j < i ==> {
                &&& x_min <= (#[trigger] grid.entries()[j]).0.0 <= x_max
                &&& y_min <= grid.entries()[j].0.1 <= y_max
                &&& z_min <= grid.entries()[j].0.2 <= z_max
            },
            i == 0 ==> x_min == i32::MAX && x_max == i32::MIN && y_min == i32::MAX
                && y_max == i32::MIN && z_min == i32::MAX && z_max == i32::MIN,
            i > 0 ==> {
                &&& exists|j: int| 0 <= j < i && (#[trigger] grid.entries()[j]).0.0 == x_min
                &&& exists|j: int| 0 <= j < i && (#[trigger] grid.entries()[j]).0.1 == y_min
                &&& exists|j: int| 0 <= j < i && (#[trigger] grid.entries()[j]).0.2 == z_min
                &&& exists|j: int| 0 <= j < i && (#[trigger] grid.entries()[j]).0.0 == x_max
                &&& exists|j: int| 0 <= j < i && (#[trigger] grid.entries()[j]).0.1 == y_max
                &&& exists|j: int| 0 <= j < i && (#[trigger] grid.entries()[j]).0.2 == z_max
            },
        decreases n - i,
    {
        let (k, _b) = grid.entry(i);
        if k.0 < x_min { x_min = k.0; }
        if k.0 > x_max { x_max = k.0; }
        if k.1 < y_min { y_min = k.1; }
        if k.1 > y_max { y_max = k.1; }
        if k.2 < z_min { z_min = k.2; }
        if k.2 > z_max { z_max = k.2; }
        i = i + 1;
    }
    proof {
        grid.lemma_entries();
        if exists|k: Vec3| grid@.contains_key(k) {
            let k = choose|k: Vec3| grid@.contains_key(k);
            assert(n > 0);
        }
    }
    (Vec3(x_min, y_min, z_min), Vec3(x_max, y_max, z_max))
}

/// A coordinate triple, rendered as the corner lines of a layer block.
pub open spec fn triple_chars(x: int, y: int, z: int) -> Seq<char> {
    seq!['['] + int_chars(x) + seq![','] + int_chars(y) + seq![','] + int_chars(z) + seq![']']
}

/// One text row: the symbols of the cells at height `y`, rank `x`, from
/// `z0` through `z1`.
pub open spec fn row_chars(m: Map<Vec3, Block>, y: int, x: int, z0: int, z1: int) -> Seq<char>
    decreases z1 - z0 + 1 when z0 > z1 || z1 - z0 + 1 >= 0
{
    if z0 > z1 {
        Seq::empty()
    } else {
        seq![block_char(block_at(m, Vec3(x as i32, y as i32, z0 as i32)))]
            + row_chars(m, y, x, z0 + 1, z1)
    }
}

/// The rows of one layer, from rank `x_hi` down to `x_lo`, each with its
/// line break.
pub open spec fn rows_chars(m: Map<Vec3, Block>, y: int, x_hi: int, x_lo: int, z0: int, z1: int) -> Seq<char>
    decreases x_hi - x_lo + 1 when x_hi < x_lo || x_hi - x_lo + 1 >= 0
{
    if x_hi < x_lo {
        Seq::empty()
    } else {
        row_chars(m, y, x_hi, z0, z1) + seq!['\n'] + rows_chars(m, y, x_hi - 1, x_lo, z0, z1)
    }
}

/// One layer block: the two corner lines, then the rows.
pub open spec fn layer_chars(m: Map<Vec3, Block>, y: int, lo: Vec3, hi: Vec3) -> Seq<char> {
    triple_chars(lo.0 as int, y, lo.2 as int) + seq!['\n']
        + triple_chars(hi.0 as int, y, hi.2 as int) + seq!['\n']
        + rows_chars(m, y, hi.0 as int, lo.0 as int, lo.2 as int, hi.2 as int)
}

/// The layer blocks from height `y0` up through `y1`.
pub open spec fn layers_chars(m: Map<Vec3, Block>, y0: int, y1: int, lo: Vec3, hi: Vec3) -> Seq<char>
    decreases y1 - y0 + 1 when y0 > y1 || y1 - y0 + 1 >= 0
{
    if y0 > y1 {
        Seq::empty()
    } else {
        layer_chars(m, y0, lo, hi) + layers_chars(m, y0 + 1, y1, lo, hi)
    }
}

/// The whole persisted text: the version line, then every layer within the
/// bounding box.
pub open spec fn grid_chars(m: Map<Vec3, Block>, lo: Vec3, hi: Vec3) -> Seq<char> {
    seq!['1', '\n'] + layers_chars(m, lo.1 as int, hi.1 as int, lo, hi)
}

/// Append a corner line (without the break).
fn push_triple(v: &mut Vec<char>, x: i32, y: i32, z: i32)
    ensures
        final(v)@ == old(v)@ + triple_chars(x as int, y as int, z as int),
{
    v.push('[');
    push_i32(v, x);
    v.push(',');
    push_i32(v, y);
    v.push(',');
    push_i32(v, z);
    v.push(']');
    proof {
        assert(v@ =~= old(v)@ + triple_chars(x as int, y as int, z as int));
    }
}

/// Append one row, by the same recursion as its spec.
fn push_row(v: &mut Vec<char>, ws: &WorldState, y: i32, x: i32, z0: i32, z1: i32)
    requires
        ws.wf(),
        z1 < i32::MAX,
    ensures
        final(v)@ == old(v)@ + row_chars(ws.state@, y as int, x as int, z0 as int, z1 as int),
    decreases z1 - z0 + 1,
{
    if z0 > z1 {
        proof {
            assert(v@ =~= old(v)@ + row_chars(ws.state@, y as int, x as int, z0 as int, z1 as int));
        }
        return;
    }
    let b = ws.get(&Vec3(x, y, z0));
    v.push(b.to_ascii());
    push_row(v, ws, y, x, z0 + 1, z1);
    proof {
        assert(v@ =~= old(v)@ + row_chars(ws.state@, y as int, x as int, z0 as int, z1 as int));
    }
}

/// Append the rows of one layer, by the same recursion as their spec.
fn push_rows(v: &mut Vec<char>, ws: &WorldState, y: i32, x_hi: i32, x_lo: i32, z0: i32, z1: i32)
    requires
        ws.wf(),
        z1 < i32::MAX,
        x_lo > i32::MIN,
    ensures
        final(v)@ == old(v)@ + rows_chars(ws.state@, y as int, x_hi as int, x_lo as int, z0 as int, z1 as int),
    decreases x_hi - x_lo + 1,
{
    if x_hi < x_lo {
        proof {
            assert(v@ =~= old(v)@
                + rows_chars(ws.state@, y as int, x_hi as int, x_lo as int, z0 as int, z1 as int));
        }
        return;
    }
    push_row(v, ws, y, x_hi, z0, z1);
    v.push('\n');
    push_rows(v, ws, y, x_hi - 1, x_lo, z0, z1);
    proof {
        assert(v@ =~= old(v)@
            + rows_chars(ws.state@, y as int, x_hi as int, x_lo as int, z0 as int, z1 as int));
    }
}

/// Append the layer blocks, by the same recursion as their spec.
fn push_layers(v: &mut Vec<char>, ws: &WorldState, y0: i32, y1: i32, lo: Vec3, hi: Vec3)
    requires
        ws.wf(),
        hi.2 < i32::MAX,
        lo.0 > i32::MIN,
        y1 < i32::MAX,
    ensures
        final(v)@ == old(v)@ + layers_chars(ws.state@, y0 as int, y1 as int, lo, hi),
    decreases y1 - y0 + 1,
{
    if y0 > y1 {
        proof {
            assert(v@ =~= old(v)@ + layers_chars(ws.state@, y0 as int, y1 as int, lo, hi));
        }
        return;
    }
    push_triple(v, lo.0, y0, lo.2);
    v.push('\n');
    push_triple(v, hi.0, y0, hi.2);
    v.push('\n');
    push_rows(v, ws, y0, hi.0, lo.0, lo.2, hi.2);
    push_layers(v, ws, y0 + 1, y1, lo, hi);
    proof {
        assert(v@ =~= old(v)@ + layers_chars(ws.state@, y0 as int, y1 as int, lo, hi));
    }
}

impl WorldState {
    /// One layer of the map as text rows, bounded by the map's current
    /// extent.
    pub fn to_ascii(&self, layer: i32) -> (r: String)
        requires
            self.wf(),
        ensures
            exists|lo: Vec3, hi: Vec3| dims_ok(self.state@, lo, hi)
                && r@ == rows_chars(self.state@, layer as int, hi.0 as int, lo.0 as int,
                    lo.2 as int, hi.2 as int),
    {
        let (lo, hi) = dimensions(&self.state);
        proof {
            bounds_from_dims(self.state@, lo, hi);
        }
        let mut v: Vec<char> = Vec::new();
        push_rows(&mut v, self, layer, hi.0, lo.0, lo.2, hi.2);
        chars_to_string(&v)
    }

    /// The whole map in the persistence format.
    pub fn serialize(&self) -> (r: String)
        requires
            self.wf(),
        ensures
            exists|lo: Vec3, hi: Vec3| dims_ok(self.state@, lo, hi)
                && r@ == grid_chars(self.state@, lo, hi),
    {
        let (lo, hi) = dimensions(&self.state);
        proof {
            bounds_from_dims(self.state@, lo, hi);
        }
        let mut v: Vec<char> = Vec::new();
        v.push('1');
        v.push('\n');
        push_layers(&mut v, self, lo.1, hi.1, lo, hi);
        let r = chars_to_string(&v);
        proof {
            assert(r@ =~= grid_chars(self.state@, lo, hi));
        }
        r
    }
}

/// A well-formed map's extremes stay inside the coordinate domain (or are
/// the empty-map sentinels, which the layer loops never enter).
proof fn bounds_from_dims(m: Map<Vec3, Block>, lo: Vec3, hi: Vec3)
    requires
        dims_ok(m, lo, hi),
        forall|k: Vec3| #[trigger] m.contains_key(k) ==> coord_bounded(k, 4),
    ensures
        hi.2 < i32::MAX,
        lo.0 > i32::MIN,
        hi.1 < i32::MAX,
        hi.2 == i32::MIN || coord_bounded(hi, 4),
        lo.0 == i32::MAX || coord_bounded(lo, 4),
{
    if exists|k: Vec3| m.contains_key(k) {
        let kx = choose|k: Vec3| #[trigger] m.contains_key(k) && k.0 == lo.0;
        let ky = choose|k: Vec3| #[trigger] m.contains_key(k) && k.1 == lo.1;
        let kz = choose|k: Vec3| #[trigger] m.contains_key(k) && k.2 == lo.2;
        let kx2 = choose|k: Vec3| #[trigger] m.contains_key(k) && k.0 == hi.0;
        let ky2 = choose|k: Vec3| #[trigger] m.contains_key(k) && k.1 == hi.1;
        let kz2 = choose|k: Vec3| #[trigger] m.contains_key(k) && k.2 == hi.2;
    }
}


/// The index of the first occurrence of `c` in `s`, or a negative value if
/// there is none.
pub open spec fn first_idx(s: Seq<char>, c: char) -> int
    decreases s.len(),
{
    if s.len() == 0 {
        -1
    } else if s[0] == c {
        0
    } else {
        let r = first_idx(s.skip(1), c);
        if r < 0 {
            -1
        } else {
            r + 1
        }
    }
}

/// What `first_idx` finds is the first occurrence, or nothing at all.
pub proof fn lemma_first_idx(s: Seq<char>, c: char)
    ensures
        first_idx(s, c) == -1 ==> forall|j: int| 0 <= j < s.len() ==> s[j] != c,
        first_idx(s, c) != -1 ==> 0 <= first_idx(s, c) < s.len() && s[first_idx(s, c)] == c
            && (forall|j: int| 0 <= j < first_idx(s, c) ==> s[j] != c),
    decreases s.len(),
{
    if s.len() > 0 && s[0] != c {
        let t = s.skip(1);
        lemma_first_idx(t, c);
        assert(t.len() == s.len() - 1);
        assert forall|j: int| 0 <= j < t.len() implies t[j] == s[j + 1] by {}
        let r = first_idx(t, c);
        if r < 0 {
            assert(first_idx(s, c) == -1);
            assert forall|j: int| 0 <= j < s.len() implies s[j] != c by {
                if j > 0 {
                    assert(t[j - 1] != c);
                }
            }
        } else {
            assert(first_idx(s, c) == r + 1);
            assert(s[r + 1] == t[r]);
            assert forall|j: int| 0 <= j < r + 1 implies s[j] != c by {
                if j > 0 {
                    assert(t[j - 1] != c);
                }
            }
        }
    }
}

/// Find the first occurrence of `c`.
fn find_char(s: &[char], c: char) -> (r: Option<usize>)
    ensures
        match r {
            Some(i) => i == first_idx(s@, c),
            None => first_idx(s@, c) == -1,
        },
{
    proof {
        lemma_first_idx(s@, c);
    }
    let n = s.len();
    let mut i: usize = 0;
    while i < n
        invariant
            n == s@.len(),
            i <= n,
            forall|j: int| 0 <= j < i ==> s@[j] != c,
        decreases n - i,
    {
        if s[i] == c {
            proof {
                lemma_first_idx(s@, c);
            }
            return Some(i);
        }
        i = i + 1;
    }
    proof {
        lemma_first_idx(s@, c);
    }
    None
}

/// The lines of a text: maximal runs between line breaks. A trailing break
/// yields a final empty line.
pub open spec fn spec_split_lines(s: Seq<char>) -> Seq<Seq<char>>
    decreases s.len() via spec_split_lines_dec
{
    let i = first_idx(s, '\n');
    if i < 0 {
        seq![s]
    } else {
        seq![s.subrange(0, i)] + spec_split_lines(s.skip(i + 1))
    }
}

#[via_fn]
proof fn spec_split_lines_dec(s: Seq<char>) {
    lemma_first_idx(s, '\n');
}

/// The views of a vector of line buffers.
pub open spec fn lines_view(ls: Seq<Vec<char>>) -> Seq<Seq<char>> {
    ls.map_values(|l: Vec<char>| l@)
}

/// Copy a slice of characters.
fn chars_of_slice(s: &[char]) -> (r: Vec<char>)
    ensures
        r@ == s@,
{
    let mut v: Vec<char> = Vec::new();
    let mut i: usize = 0;
    while i < s.len()
        invariant
            i <= s@.len(),
            v@ == s@.subrange(0, i as int),
        decreases s@.len() - i,
    {
        v.push(s[i]);
        proof {
            assert(v@ =~= s@.subrange(0, i + 1));
        }
        i = i + 1;
    }
    proof {
        assert(v@ =~= s@);
    }
    v
}

/// Split a text into its lines, by the same recursion as the spec.
fn split_lines(s: &[char]) -> (r: Vec<Vec<char>>)
    ensures
        lines_view(r@) == spec_split_lines(s@),
    decreases s@.len(),
{
    proof {
        lemma_first_idx(s@, '\n');
    }
    match find_char(s, '\n') {
        None => {
            let mut r: Vec<Vec<char>> = Vec::new();
            r.push(chars_of_slice(s));
            proof {
                assert(lines_view(r@) =~= spec_split_lines(s@));
            }
            r
        },
        Some(i) => {
            let n = s.len();
            proof {
                lemma_first_idx(s@, '\n');
                assert(i < n);
            }
            let head = chars_of_slice(slice_subrange(s, 0, i));
            let tail = slice_subrange(s, i + 1, n);
            proof {
                assert(tail@ =~= s@.skip(i + 1));
            }
            let mut rest = split_lines(tail);
            rest.insert(0, head);
            proof {
                assert(lines_view(rest@) =~= spec_split_lines(s@));
            }
            rest
        },
    }
}

/// The coordinate triple a corner line stands for, if it is well-formed:
/// a bracketed list of exactly three decimal integers.
pub open spec fn spec_parse_triple(l: Seq<char>) -> Option<Vec3> {
    if l.len() < 2 || l[0] != '[' || l.last() != ']' {
        None
    } else {
        let body = l.subrange(1, l.len() - 1);
        let i1 = first_idx(body, ',');
        if i1 < 0 {
            None
        } else {
            let rest = body.skip(i1 + 1);
            let i2 = first_idx(rest, ',');
            if i2 < 0 {
                None
            } else {
                match (
                    spec_parse_i32(body.subrange(0, i1)),
                    spec_parse_i32(rest.subrange(0, i2)),
                    spec_parse_i32(rest.skip(i2 + 1)),
                ) {
                    (Some(x), Some(y), Some(z)) => Some(Vec3(x, y, z)),
                    _ => None,
                }
            }
        }
    }
}

/// Exec mirror of `spec_parse_triple`.
fn parse_triple(l: &[char]) -> (r: Option<Vec3>)
    ensures
        r == spec_parse_triple(l@),
{
    let n = l.len();
    if n < 2 {
        return None;
    }
    if l[0] != '[' || l[n - 1] != ']' {
        return None;
    }
    let body = slice_subrange(l, 1, n - 1);
    let i1 = match find_char(body, ',') {
        Some(i) => i,
        None => {
            return None;
        },
    };
    let bn = body.len();
    proof {
        lemma_first_idx(body@, ',');
        assert(i1 < bn);
    }
    let rest = slice_subrange(body, i1 + 1, bn);
    proof {
        assert(rest@ =~= l@.subrange(1, l@.len() - 1).skip(i1 + 1));
    }
    let i2 = match find_char(rest, ',') {
        Some(i) => i,
        None => {
            return None;
        },
    };
    let rn = rest.len();
    proof {
        lemma_first_idx(rest@, ',');
        assert(i2 < rn);
    }
    let xs = slice_subrange(body, 0, i1);
    let ys = slice_subrange(rest, 0, i2);
    let zs = slice_subrange(rest, i2 + 1, rn);
    proof {
        assert(xs@ =~= l@.subrange(1, l@.len() - 1).subrange(0, i1 as int));
        assert(ys@ =~= l@.subrange(1, l@.len() - 1).skip(i1 + 1).subrange(0, i2 as int));
        assert(zs@ =~= l@.subrange(1, l@.len() - 1).skip(i1 + 1).skip(i2 + 1));
    }
    let x = match parse_i32(xs) {
        Some(v) => v,
        None => {
            return None;
        },
    };
    let y = match parse_i32(ys) {
        Some(v) => v,
        None => {
            return None;
        },
    };
    let z = match parse_i32(zs) {
        Some(v) => v,
        None => {
            return None;
        },
    };
    Some(Vec3(x, y, z))
}

/// Is this line nothing but spaces (or empty)? Such a line ends the layer
/// list.
pub open spec fn is_blank(l: Seq<char>) -> bool {
    forall|i: int| 0 <= i < l.len() ==> l[i] == ' '
}

/// Exec mirror of `is_blank`.
fn blank_line(l: &Vec<char>) -> (r: bool)
    ensures
        r == is_blank(l@),
{
    let mut i: usize = 0;
    while i < l.len()
        invariant
            i <= l@.len(),
            forall|j: int| 0 <= j < i ==> l@[j] == ' ',
        decreases l@.len() - i,
    {
        if l[i] != ' ' {
            return false;
        }
        i = i + 1;
    }
    true
}

/// Is this line a legal row for a Z-range: exactly one symbol per cell,
/// all from the four-symbol alphabet?
pub open spec fn row_legal(l: Seq<char>, z0: int, z1: int) -> bool {
    l.len() == z1 - z0 + 1 && forall|i: int| 0 <= i < l.len() ==> (#[trigger] spec_block_of(l[i])) is Some
}

/// The cells one row line records, inserted left to right.
pub open spec fn spec_row_map(l: Seq<char>, y: int, x: int, z0: int, i: int, acc: Map<Vec3, Block>)
    -> Map<Vec3, Block>
    decreases l.len() - i when 0 <= i
{
    if i >= l.len() {
        acc
    } else {
        spec_row_map(l, y, x, z0, i + 1, acc.insert(
            Vec3(x as i32, y as i32, (z0 + i) as i32),
            spec_block_of(l[i]).unwrap_or(Block::Unknown),
        ))
    }
}

/// How many row lines a layer block has.
pub open spec fn rows_count(x_hi: int, x_lo: int) -> int {
    if x_hi < x_lo {
        0
    } else {
        x_hi - x_lo + 1
    }
}

/// The cells of a layer's rows, from rank `x_hi` down to `x_lo`, starting
/// at line `li`; nothing if a row is missing or malformed.
pub open spec fn spec_parse_rows(
    lines: Seq<Seq<char>>, li: int, y: int, x_hi: int, x_lo: int, z0: int, z1: int,
    acc: Map<Vec3, Block>,
) -> Option<Map<Vec3, Block>>
    decreases rows_count(x_hi, x_lo),
{
    if x_hi < x_lo {
        Some(acc)
    } else if li >= lines.len() {
        None
    } else if !row_legal(lines[li], z0, z1) {
        None
    } else {
        spec_parse_rows(lines, li + 1, y, x_hi - 1, x_lo, z0, z1,
            spec_row_map(lines[li], y, x_hi, z0, 0, acc))
    }
}

/// A successful row parse consumed exactly its row lines.
proof fn lemma_rows_consume(
    lines: Seq<Seq<char>>, li: int, y: int, x_hi: int, x_lo: int, z0: int, z1: int,
    acc: Map<Vec3, Block>,
)
    requires
        li >= 0,
        spec_parse_rows(lines, li, y, x_hi, x_lo, z0, z1, acc) is Some,
    ensures
        x_hi >= x_lo ==> li + rows_count(x_hi, x_lo) <= lines.len(),
    decreases rows_count(x_hi, x_lo),
{
    if x_hi >= x_lo {
        lemma_rows_consume(lines, li + 1, y, x_hi - 1, x_lo, z0, z1,
            spec_row_map(lines[li], y, x_hi, z0, 0, acc));
    }
}

/// The map the layer blocks from line `li` onward record; nothing if any
/// block is malformed. Parsing ends at the end of input or at a blank
/// line.
pub open spec fn spec_parse_layers(lines: Seq<Seq<char>>, li: int, acc: Map<Vec3, Block>)
    -> Option<Map<Vec3, Block>>
    decreases lines.len() - li when 0 <= li <= lines.len() via spec_parse_layers_dec
{
    if li >= lines.len() {
        Some(acc)
    } else if is_blank(lines[li]) {
        Some(acc)
    } else {
        match spec_parse_triple(lines[li]) {
            None => None,
            Some(lo) => {
                if li + 1 >= lines.len() {
                    None
                } else {
                    match spec_parse_triple(lines[li + 1]) {
                        None => None,
                        Some(hi) => {
                            if !coord_bounded(lo, 4) || !coord_bounded(hi, 4) {
                                None
                            } else {
                                match spec_parse_rows(lines, li + 2, lo.1 as int, hi.0 as int,
                                    lo.0 as int, lo.2 as int, hi.2 as int, acc) {
                                    None => None,
                                    Some(m2) => spec_parse_layers(
                                        lines,
                                        li + 2 + rows_count(hi.0 as int, lo.0 as int),
                                        m2,
                                    ),
                                }
                            }
                        },
                    }
                }
            },
        }
    }
}

#[via_fn]
proof fn spec_parse_layers_dec(lines: Seq<Seq<char>>, li: int, acc: Map<Vec3, Block>) {
    if li < lines.len() && !is_blank(lines[li]) {
        match spec_parse_triple(lines[li]) {
            None => {},
            Some(lo) => {
                if li + 1 < lines.len() {
                    match spec_parse_triple(lines[li + 1]) {
                        None => {},
                        Some(hi) => {
                            if coord_bounded(lo, 4) && coord_bounded(hi, 4) {
                                match spec_parse_rows(lines, li + 2, lo.1 as int, hi.0 as int,
                                    lo.0 as int, lo.2 as int, hi.2 as int, acc) {
                                    None => {},
                                    Some(_) => {
                                        lemma_rows_consume(lines, li + 2, lo.1 as int,
                                            hi.0 as int, lo.0 as int, lo.2 as int, hi.2 as int, acc);
                                    },
                                }
                            }
                        },
                    }
                }
            },
        }
    }
}

/// The map a persisted text records: the version line must read `1`, and
/// every layer block must be well-formed.
pub open spec fn spec_parse_grid(s: Seq<char>) -> Option<Map<Vec3, Block>> {
    let lines = spec_split_lines(s);
    if lines.len() == 0 || lines[0] != seq!['1'] {
        None
    } else {
        spec_parse_layers(lines, 1, Map::empty())
    }
}


/// Record one row line's cells, by the same traversal as `spec_row_map`.
fn parse_row_into(grid: &mut CellGrid, l: &Vec<char>, y: i32, x: i32, z0: i32, z1: i32)
    -> (r: Result<(), TurtleError>)
    requires
        old(grid).wf(),
        z0 <= z1 || l@.len() == 0,
        -4 * (COORD_LIMIT as int) <= z0,
        z0 + l@.len() - 1 <= z1 <= 4 * (COORD_LIMIT as int),
        coord_bounded(Vec3(x, y, z0), 4),
    ensures
        final(grid).wf(),
        match r {
            Ok(()) => {
                &&& (forall|i: int| 0 <= i < l@.len() ==> (#[trigger] spec_block_of(l@[i])) is Some)
                &&& final(grid)@ == spec_row_map(l@, y as int, x as int, z0 as int, 0, old(grid)@)
                &&& forall|k: Vec3| #[trigger] final(grid)@.contains_key(k)
                    ==> old(grid)@.contains_key(k) || coord_bounded(k, 4)
            },
            Err(e) => {
                e == TurtleError::MalformedStateFile
                && exists|i: int| 0 <= i < l@.len() && (#[trigger] spec_block_of(l@[i])) is None
            },
        },
{
    let n = l.len();
    let mut i: usize = 0;
    while i < n
        invariant
            grid.wf(),
            n == l@.len(),
            i <= n,
            z0 <= z1 || l@.len() == 0,
            -4 * (COORD_LIMIT as int) <= z0,
            z0 + l@.len() - 1 <= z1 <= 4 * (COORD_LIMIT as int),
            coord_bounded(Vec3(x, y, z0), 4),
            forall|j: int| 0 <= j < i ==> (#[trigger] spec_block_of(l@[j])) is Some,
            spec_row_map(l@, y as int, x as int, z0 as int, 0, old(grid)@)
                == spec_row_map(l@, y as int, x as int, z0 as int, i as int, grid@),
            forall|k: Vec3| #[trigger] grid@.contains_key(k)
                ==> old(grid)@.contains_key(k) || coord_bounded(k, 4),
        decreases n - i,
    {
        let b = match Block::try_from_char(l[i]) {
            Some(b) => b,
            None => {
                return Err(TurtleError::MalformedStateFile);
            },
        };
        let z = z0 + (i as i32);
        grid.insert(Vec3(x, y, z), b);
        proof {
            assert(coord_bounded(Vec3(x, y, z), 4));
        }
        i = i + 1;
    }
    Ok(())
}

/// Record one layer's rows, by the same recursion as `spec_parse_rows`.
fn parse_rows_into(grid: &mut CellGrid, lines: &Vec<Vec<char>>, li: usize, y: i32,
    x_hi: i32, x_lo: i32, z0: i32, z1: i32)
    -> (r: Result<usize, TurtleError>)
    requires
        old(grid).wf(),
        x_hi >= x_lo ==> coord_bounded(Vec3(x_lo, y, z0), 4) && coord_bounded(Vec3(x_hi, y, z1), 4),
    ensures
        final(grid).wf(),
        match r {
            Ok(li2) => {
                &&& Some(final(grid)@) == spec_parse_rows(lines_view(lines@), li as int, y as int,
                    x_hi as int, x_lo as int, z0 as int, z1 as int, old(grid)@)
                &&& li2 == li + rows_count(x_hi as int, x_lo as int)
                &&& li2 <= lines@.len() || x_hi < x_lo
                &&& forall|k: Vec3| #[trigger] final(grid)@.contains_key(k)
                    ==> old(grid)@.contains_key(k) || coord_bounded(k, 4)
            },
            Err(e) => {
                e == TurtleError::MalformedStateFile
                && spec_parse_rows(lines_view(lines@), li as int, y as int,
                    x_hi as int, x_lo as int, z0 as int, z1 as int, old(grid)@) is None
            },
        },
    decreases x_hi - x_lo + 1,
{
    if x_hi < x_lo {
        return Ok(li);
    }
    if li >= lines.len() {
        return Err(TurtleError::MalformedStateFile);
    }
    let line = &lines[li];
    let len_ok: bool = if z1 < z0 {
        z1 == z0 - 1 && line.len() == 0
    } else {
        line.len() == ((z1 - z0) as usize) + 1
    };
    if !len_ok {
        proof {
            assert(lines_view(lines@)[li as int] == lines@[li as int]@);
            assert(!row_legal(lines_view(lines@)[li as int], z0 as int, z1 as int));
        }
        return Err(TurtleError::MalformedStateFile);
    }
    proof {
        assert(lines_view(lines@)[li as int] == lines@[li as int]@);
        assert(line@.len() == z1 - z0 + 1);
        assert(z0 <= z1 || line@.len() == 0);
    }
    match parse_row_into(grid, line, y, x_hi, z0, z1) {
        Ok(()) => {},
        Err(e) => {
            proof {
                assert(!row_legal(lines_view(lines@)[li as int], z0 as int, z1 as int));
            }
            return Err(e);
        },
    }
    proof {
        assert(row_legal(lines_view(lines@)[li as int], z0 as int, z1 as int));
    }
    let r = parse_rows_into(grid, lines, li + 1, y, x_hi - 1, x_lo, z0, z1);
    match r {
        Ok(li2) => Ok(li2),
        Err(e) => Err(e),
    }
}

/// Record every layer block, by the same recursion as `spec_parse_layers`.
fn parse_layers_into(grid: &mut CellGrid, lines: &Vec<Vec<char>>, li: usize)
    -> (r: Result<(), TurtleError>)
    requires
        old(grid).wf(),
        li <= lines@.len(),
    ensures
        final(grid).wf(),
        match r {
            Ok(()) => {
                &&& Some(final(grid)@) == spec_parse_layers(lines_view(lines@), li as int, old(grid)@)
                &&& forall|k: Vec3| #[trigger] final(grid)@.contains_key(k)
                    ==> old(grid)@.contains_key(k) || coord_bounded(k, 4)
            },
            Err(e) => {
                e == TurtleError::MalformedStateFile
                && spec_parse_layers(lines_view(lines@), li as int, old(grid)@) is None
            },
        },
    decreases lines@.len() - li,
{
    if li >= lines.len() {
        return Ok(());
    }
    if blank_line(&lines[li]) {
        proof {
            assert(lines_view(lines@)[li as int] == lines@[li as int]@);
        }
        return Ok(());
    }
    proof {
        assert(lines_view(lines@)[li as int] == lines@[li as int]@);
    }
    let lo = match parse_triple(lines[li].as_slice()) {
        Some(v) => v,
        None => {
            return Err(TurtleError::MalformedStateFile);
        },
    };
    if li + 1 >= lines.len() {
        return Err(TurtleError::MalformedStateFile);
    }
    proof {
        assert(lines_view(lines@)[li + 1] == lines@[li + 1]@);
    }
    let hi = match parse_triple(lines[li + 1].as_slice()) {
        Some(v) => v,
        None => {
            return Err(TurtleError::MalformedStateFile);
        },
    };
    if !bounded_corner(&lo) || !bounded_corner(&hi) {
        return Err(TurtleError::MalformedStateFile);
    }
    let li2 = match parse_rows_into(grid, lines, li + 2, lo.1, hi.0, lo.0, lo.2, hi.2) {
        Ok(v) => v,
        Err(e) => {
            return Err(e);
        },
    };
    proof {
        assert(li2 <= lines@.len());
    }
    parse_layers_into(grid, lines, li2)
}

/// Is a parsed corner within the coordinate domain?
fn bounded_corner(v: &Vec3) -> (r: bool)
    ensures
        r == coord_bounded(*v, 4),
{
    let lim: i32 = 4 * COORD_LIMIT;
    -lim <= v.0 && v.0 <= lim && -lim <= v.1 && v.1 <= lim && -lim <= v.2 && v.2 <= lim
}

/// Read a persisted world snapshot back into a cell store, per
/// `spec_parse_grid`: the exact inverse of `serialize`, rejecting an
/// unrecognized version tag or any malformed line.
pub fn deserialize_worldstate(contents: &str) -> (r: Result<CellGrid, TurtleError>)
    ensures
        match spec_parse_grid(contents@) {
            Some(m) => {
                &&& r is Ok
                &&& r.unwrap()@ == m
                &&& r.unwrap().wf()
                &&& forall|k: Vec3| #[trigger] m.contains_key(k) ==> coord_bounded(k, 4)
            },
            None => r == Err::<CellGrid, TurtleError>(TurtleError::MalformedStateFile),
        },
{
    let chars = str_to_chars(contents);
    let lines = split_lines(chars.as_slice());
    proof {
        assert(lines_view(lines@).len() > 0);
    }
    let first = &lines[0];
    proof {
        assert(lines_view(lines@)[0] == lines@[0]@);
    }
    if !(first.len() == 1 && first[0] == '1') {
        proof {
            assert(lines_view(lines@)[0] != seq!['1']);
        }
        return Err(TurtleError::MalformedStateFile);
    }
    proof {
        assert(lines@[0]@ =~= seq!['1']);
    }
    let mut grid = CellGrid::new();
    match parse_layers_into(&mut grid, &lines, 1) {
        Ok(()) => Ok(grid),
        Err(e) => Err(e),
    }
}


/// The decimal rendering of an integer holds only digits and the minus
/// sign; in particular no line break, bracket or comma.
proof fn lemma_int_chars_symbols(i: int)
    ensures
        forall|j: int| 0 <= j < int_chars(i).len()
            ==> (#[trigger] int_chars(i)[j]) == '-' || digit_val(int_chars(i)[j]) is Some,
{
    if i < 0 {
        crate::text::lemma_dec_digits_canonical((-i) as nat);
        assert forall|j: int| 0 <= j < int_chars(i).len()
            implies (#[trigger] int_chars(i)[j]) == '-' || digit_val(int_chars(i)[j]) is Some by {
            if j > 0 {
                assert(int_chars(i)[j] == dec_digits((-i) as nat)[j - 1]);
            }
        }
    } else {
        crate::text::lemma_dec_digits_canonical(i as nat);
        assert forall|j: int| 0 <= j < int_chars(i).len()
            implies (#[trigger] int_chars(i)[j]) == '-' || digit_val(int_chars(i)[j]) is Some by {
            assert(digit_val(dec_digits(i as nat)[j]) is Some);
        }
    }
}

/// If `c` stands at position `i` with no earlier occurrence, `i` is what
/// `first_idx` finds.
proof fn lemma_first_idx_is(s: Seq<char>, c: char, i: int)
    requires
        0 <= i < s.len(),
        s[i] == c,
        forall|j: int| 0 <= j < i ==> s[j] != c,
    ensures
        first_idx(s, c) == i,
{
    lemma_first_idx(s, c);
    let f = first_idx(s, c);
    if f == -1 {
        assert(s[i] != c);
    } else if f < i {
        assert(s[f] != c);
    } else if f > i {
        assert(s[i] != c);
    }
}

/// Splitting a text that starts with a break-free line takes exactly that
/// line off the front.
proof fn lemma_split_concat(a: Seq<char>, rest: Seq<char>)
    requires
        forall|j: int| 0 <= j < a.len() ==> (#[trigger] a[j]) != '\n',
    ensures
        spec_split_lines(a + seq!['\n'] + rest) == seq![a] + spec_split_lines(rest),
{
    let s = a + seq!['\n'] + rest;
    assert(s[a.len() as int] == '\n');
    assert forall|j: int| 0 <= j < a.len() implies s[j] != '\n' by {
        assert(s[j] == a[j]);
    }
    lemma_first_idx_is(s, '\n', a.len() as int);
    assert(s.subrange(0, a.len() as int) =~= a);
    assert(s.skip(a.len() as int + 1) =~= rest);
    assert(spec_split_lines(s) =~= seq![a] + spec_split_lines(rest));
}

/// The four cell symbols decode back to their classifications, and none of
/// them is a line break.
proof fn lemma_block_char(b: Block)
    ensures
        spec_block_of(block_char(b)) == Some(b),
        block_char(b) != '\n',
{
    match b {
        Block::Unknown => {},
        Block::Air => {},
        Block::AirOrGravityBlock => {},
        Block::Block => {},
    }
}

/// A rendered row has one symbol per cell, every symbol legal, no breaks.
proof fn lemma_row_chars(m: Map<Vec3, Block>, y: int, x: int, z0: int, z1: int)
    requires
        z0 <= z1 + 1,
    ensures
        row_chars(m, y, x, z0, z1).len() == z1 - z0 + 1,
        forall|j: int| 0 <= j < row_chars(m, y, x, z0, z1).len()
            ==> (#[trigger] spec_block_of(row_chars(m, y, x, z0, z1)[j])) is Some
                && row_chars(m, y, x, z0, z1)[j] != '\n',
    decreases z1 - z0 + 1,
{
    if z0 <= z1 {
        lemma_row_chars(m, y, x, z0 + 1, z1);
        lemma_block_char(block_at(m, Vec3(x as i32, y as i32, z0 as i32)));
        let r = row_chars(m, y, x, z0, z1);
        let r2 = row_chars(m, y, x, z0 + 1, z1);
        assert forall|j: int| 0 <= j < r.len()
            implies (#[trigger] spec_block_of(r[j])) is Some && r[j] != '\n' by {
            if j > 0 {
                assert(r[j] == r2[j - 1]);
            }
        }
    }
}


/// No character of a corner line is a line break, and its first is the
/// opening bracket.
proof fn lemma_triple_no_nl(x: int, y: int, z: int)
    ensures
        forall|j: int| 0 <= j < triple_chars(x, y, z).len()
            ==> (#[trigger] triple_chars(x, y, z)[j]) != '\n',
        triple_chars(x, y, z)[0] == '[',
        !is_blank(triple_chars(x, y, z)),
{
    lemma_int_chars_symbols(x);
    lemma_int_chars_symbols(y);
    lemma_int_chars_symbols(z);
    let t = triple_chars(x, y, z);
    let ix = int_chars(x);
    let iy = int_chars(y);
    let iz = int_chars(z);
    assert forall|j: int| 0 <= j < t.len() implies (#[trigger] t[j]) != '\n' by {
        if j == 0 {
        } else if j < 1 + ix.len() {
            assert(t[j] == ix[j - 1]);
        } else if j == 1 + ix.len() {
            assert(t[j] == ',');
        } else if j < 2 + ix.len() + iy.len() {
            assert(t[j] == iy[j - 2 - ix.len()]);
        } else if j == 2 + ix.len() + iy.len() {
            assert(t[j] == ',');
        } else if j < 3 + ix.len() + iy.len() + iz.len() {
            assert(t[j] == iz[j - 3 - ix.len() - iy.len()]);
        } else {
            assert(t[j] == ']');
        }
    }
    assert(t[0] == '[');
}

/// Rendering a corner and parsing the line back returns the corner.
proof fn lemma_parse_triple_rt(x: i32, y: i32, z: i32)
    ensures
        spec_parse_triple(triple_chars(x as int, y as int, z as int)) == Some(Vec3(x, y, z)),
{
    lemma_int_chars_symbols(x as int);
    lemma_int_chars_symbols(y as int);
    lemma_int_chars_symbols(z as int);
    let t = triple_chars(x as int, y as int, z as int);
    let ix = int_chars(x as int);
    let iy = int_chars(y as int);
    let iz = int_chars(z as int);
    assert(ix.len() >= 1 && iy.len() >= 1 && iz.len() >= 1);
    assert(t[0] == '[');
    assert(t.last() == ']');
    let body = t.subrange(1, t.len() - 1);
    assert(body =~= ix + seq![','] + iy + seq![','] + iz);
    assert(body[ix.len() as int] == ',');
    assert forall|j: int| 0 <= j < ix.len() implies body[j] != ',' by {
        assert(body[j] == ix[j]);
        assert(ix[j] == '-' || digit_val(ix[j]) is Some);
    }
    lemma_first_idx_is(body, ',', ix.len() as int);
    let rest = body.skip(ix.len() as int + 1);
    assert(rest =~= iy + seq![','] + iz);
    assert(rest[iy.len() as int] == ',');
    assert forall|j: int| 0 <= j < iy.len() implies rest[j] != ',' by {
        assert(rest[j] == iy[j]);
        assert(iy[j] == '-' || digit_val(iy[j]) is Some);
    }
    lemma_first_idx_is(rest, ',', iy.len() as int);
    assert(body.subrange(0, ix.len() as int) =~= ix);
    assert(rest.subrange(0, iy.len() as int) =~= iy);
    assert(rest.skip(iy.len() as int + 1) =~= iz);
    crate::text::lemma_i32_round_trip(x);
    crate::text::lemma_i32_round_trip(y);
    crate::text::lemma_i32_round_trip(z);
}

/// The row lines of one layer, topmost rank first.
pub open spec fn row_lines(m: Map<Vec3, Block>, y: int, x_hi: int, x_lo: int, z0: int, z1: int)
    -> Seq<Seq<char>>
    decreases rows_count(x_hi, x_lo),
{
    if x_hi < x_lo {
        Seq::empty()
    } else {
        seq![row_chars(m, y, x_hi, z0, z1)] + row_lines(m, y, x_hi - 1, x_lo, z0, z1)
    }
}

/// The lines of the layer blocks from height `y0` through `y1`.
pub open spec fn layers_lines(m: Map<Vec3, Block>, y0: int, y1: int, lo: Vec3, hi: Vec3)
    -> Seq<Seq<char>>
    decreases y1 - y0 + 1 when y0 > y1 || y1 - y0 + 1 >= 0
{
    if y0 > y1 {
        Seq::empty()
    } else {
        seq![triple_chars(lo.0 as int, y0, lo.2 as int), triple_chars(hi.0 as int, y0, hi.2 as int)]
            + row_lines(m, y0, hi.0 as int, lo.0 as int, lo.2 as int, hi.2 as int)
            + layers_lines(m, y0 + 1, y1, lo, hi)
    }
}

/// Splitting rendered rows followed by anything takes the row lines off the
/// front.
proof fn lemma_split_rows(m: Map<Vec3, Block>, y: int, x_hi: int, x_lo: int, z0: int, z1: int, rest: Seq<char>)
    requires
        z0 <= z1 + 1,
    ensures
        spec_split_lines(rows_chars(m, y, x_hi, x_lo, z0, z1) + rest)
            == row_lines(m, y, x_hi, x_lo, z0, z1) + spec_split_lines(rest),
    decreases rows_count(x_hi, x_lo),
{
    if x_hi < x_lo {
        assert(rows_chars(m, y, x_hi, x_lo, z0, z1) + rest =~= rest);
        assert(row_lines(m, y, x_hi, x_lo, z0, z1) + spec_split_lines(rest)
            =~= spec_split_lines(rest));
    } else {
        let row = row_chars(m, y, x_hi, z0, z1);
        let tail_chars = rows_chars(m, y, x_hi - 1, x_lo, z0, z1) + rest;
        lemma_row_chars(m, y, x_hi, z0, z1);
        assert forall|j: int| 0 <= j < row.len() implies (#[trigger] row[j]) != '\n' by {
            assert((#[trigger] spec_block_of(row_chars(m, y, x_hi, z0, z1)[j])) is Some);
        }
        assert(rows_chars(m, y, x_hi, x_lo, z0, z1) + rest =~= row + seq!['\n'] + tail_chars);
        lemma_split_concat(row, tail_chars);
        lemma_split_rows(m, y, x_hi - 1, x_lo, z0, z1, rest);
        assert(row_lines(m, y, x_hi, x_lo, z0, z1) + spec_split_lines(rest)
            =~= seq![row] + (row_lines(m, y, x_hi - 1, x_lo, z0, z1) + spec_split_lines(rest)));
    }
}

/// Splitting rendered layers followed by anything takes the layer lines off
/// the front.
proof fn lemma_split_layers(m: Map<Vec3, Block>, y0: int, y1: int, lo: Vec3, hi: Vec3, rest: Seq<char>)
    requires
        y0 > y1 || lo.2 <= hi.2 + 1,
    ensures
        spec_split_lines(layers_chars(m, y0, y1, lo, hi) + rest)
            == layers_lines(m, y0, y1, lo, hi) + spec_split_lines(rest),
    decreases y1 - y0 + 1,
{
    if y0 > y1 {
        assert(layers_chars(m, y0, y1, lo, hi) + rest =~= rest);
        assert(layers_lines(m, y0, y1, lo, hi) + spec_split_lines(rest) =~= spec_split_lines(rest));
    } else {
        let t1 = triple_chars(lo.0 as int, y0, lo.2 as int);
        let t2 = triple_chars(hi.0 as int, y0, hi.2 as int);
        let rows = rows_chars(m, y0, hi.0 as int, lo.0 as int, lo.2 as int, hi.2 as int);
        let tail1 = t2 + seq!['\n'] + (rows + (layers_chars(m, y0 + 1, y1, lo, hi) + rest));
        lemma_triple_no_nl(lo.0 as int, y0, lo.2 as int);
        lemma_triple_no_nl(hi.0 as int, y0, hi.2 as int);
        assert(layers_chars(m, y0, y1, lo, hi) + rest =~= t1 + seq!['\n'] + tail1);
        lemma_split_concat(t1, tail1);
        lemma_split_concat(t2, rows + (layers_chars(m, y0 + 1, y1, lo, hi) + rest));
        lemma_split_rows(m, y0, hi.0 as int, lo.0 as int, lo.2 as int, hi.2 as int,
            layers_chars(m, y0 + 1, y1, lo, hi) + rest);
        lemma_split_layers(m, y0 + 1, y1, lo, hi, rest);
        assert(spec_split_lines(layers_chars(m, y0, y1, lo, hi) + rest)
            =~= layers_lines(m, y0, y1, lo, hi) + spec_split_lines(rest));
    }
}


/// The domain bound the region lemmas work within.
spec fn within_lim(v: int) -> bool {
    -4 * (COORD_LIMIT as int) <= v <= 4 * (COORD_LIMIT as int)
}

/// The symbol at position `j` of a rendered row is the symbol of cell
/// `(x, y, z0 + j)`.
proof fn lemma_row_chars_index(m: Map<Vec3, Block>, y: int, x: int, z0: int, z1: int, j: int)
    requires
        z0 <= z1,
        0 <= j <= z1 - z0,
    ensures
        row_chars(m, y, x, z0, z1)[j] == block_char(block_at(m, Vec3(x as i32, y as i32, (z0 + j) as i32))),
    decreases j,
{
    lemma_row_chars(m, y, x, z0, z1);
    if j > 0 {
        lemma_row_chars(m, y, x, z0 + 1, z1);
        lemma_row_chars_index(m, y, x, z0 + 1, z1, j - 1);
        assert(row_chars(m, y, x, z0, z1)[j] == row_chars(m, y, x, z0 + 1, z1)[j - 1]);
    }
}

/// Reading a rendered row back writes exactly the row's cells, each with
/// the classification the map holds for it.
proof fn lemma_row_map_region(m: Map<Vec3, Block>, y: int, x: int, z0: int, z1: int, i: int, acc: Map<Vec3, Block>)
    requires
        z0 <= z1 + 1,
        0 <= i <= z1 - z0 + 1,
        within_lim(x),
        within_lim(y),
        within_lim(z0),
        within_lim(z1),
    ensures
        forall|c: Vec3| block_at(spec_row_map(row_chars(m, y, x, z0, z1), y, x, z0, i, acc), c)
            == if c.0 as int == x && c.1 as int == y && z0 + i <= c.2 as int <= z1 {
                block_at(m, c)
            } else {
                block_at(acc, c)
            },
    decreases z1 - z0 + 1 - i,
{
    let l = row_chars(m, y, x, z0, z1);
    lemma_row_chars(m, y, x, z0, z1);
    if i < z1 - z0 + 1 {
        lemma_row_chars_index(m, y, x, z0, z1, i);
        let cell = Vec3(x as i32, y as i32, (z0 + i) as i32);
        lemma_block_char(block_at(m, cell));
        assert(spec_block_of(l[i]).unwrap_or(Block::Unknown) == block_at(m, cell));
        let acc2 = acc.insert(cell, block_at(m, cell));
        lemma_row_map_region(m, y, x, z0, z1, i + 1, acc2);
        assert forall|c: Vec3| block_at(spec_row_map(l, y, x, z0, i, acc), c)
            == (if c.0 as int == x && c.1 as int == y && z0 + i <= c.2 as int <= z1 {
                block_at(m, c)
            } else {
                block_at(acc, c)
            }) by {
            if c.0 as int == x && c.1 as int == y && z0 + i <= c.2 as int <= z1 {
                if c.2 as int == z0 + i {
                    assert(c == cell);
                    assert(block_at(acc2, c) == block_at(m, c));
                }
            } else {
                assert(c != cell);
                assert(block_at(acc2, c) == block_at(acc, c));
            }
        }
    }
}

/// Reading a layer's rendered row lines back writes exactly the layer's
/// cells between the ranks, each with the map's classification.
proof fn lemma_parse_rows_rt(
    m: Map<Vec3, Block>, lines: Seq<Seq<char>>, li: int, y: int, x_hi: int, x_lo: int,
    z0: int, z1: int, acc: Map<Vec3, Block>, tail: Seq<Seq<char>>,
)
    requires
        z0 <= z1 + 1,
        x_hi < x_lo || (within_lim(x_lo) && within_lim(x_hi)),
        within_lim(y),
        within_lim(z0),
        within_lim(z1),
        0 <= li <= lines.len(),
        lines.skip(li) == row_lines(m, y, x_hi, x_lo, z0, z1) + tail,
    ensures
        spec_parse_rows(lines, li, y, x_hi, x_lo, z0, z1, acc) is Some,
        forall|c: Vec3| block_at(spec_parse_rows(lines, li, y, x_hi, x_lo, z0, z1, acc).unwrap(), c)
            == if x_lo <= c.0 as int <= x_hi && c.1 as int == y && z0 <= c.2 as int <= z1 {
                block_at(m, c)
            } else {
                block_at(acc, c)
            },
        li + rows_count(x_hi, x_lo) <= lines.len(),
        lines.skip(li + rows_count(x_hi, x_lo)) == tail,
    decreases rows_count(x_hi, x_lo),
{
    if x_hi < x_lo {
        assert(lines.skip(li) =~= tail);
    } else {
        let row = row_chars(m, y, x_hi, z0, z1);
        assert(lines.skip(li).len() == row_lines(m, y, x_hi, x_lo, z0, z1).len() + tail.len());
        assert(li < lines.len());
        assert(lines[li] == lines.skip(li)[0]);
        assert(row_lines(m, y, x_hi, x_lo, z0, z1)[0] == row);
        assert(lines[li] == row);
        lemma_row_chars(m, y, x_hi, z0, z1);
        assert(row_legal(lines[li], z0, z1));
        let acc2 = spec_row_map(row, y, x_hi, z0, 0, acc);
        lemma_row_map_region(m, y, x_hi, z0, z1, 0, acc);
        proof_skip_step(lines, li, row_lines(m, y, x_hi, x_lo, z0, z1), tail);
        assert(row_lines(m, y, x_hi, x_lo, z0, z1).skip(1)
            =~= row_lines(m, y, x_hi - 1, x_lo, z0, z1));
        assert(lines.skip(li + 1) =~= row_lines(m, y, x_hi - 1, x_lo, z0, z1) + tail);
        lemma_parse_rows_rt(m, lines, li + 1, y, x_hi - 1, x_lo, z0, z1, acc2, tail);
        let res = spec_parse_rows(lines, li, y, x_hi, x_lo, z0, z1, acc).unwrap();
        assert forall|c: Vec3| block_at(res, c)
            == (if x_lo <= c.0 as int <= x_hi && c.1 as int == y && z0 <= c.2 as int <= z1 {
                block_at(m, c)
            } else {
                block_at(acc, c)
            }) by {
            if x_lo <= c.0 as int <= x_hi - 1 && c.1 as int == y && z0 <= c.2 as int <= z1 {
            } else if c.0 as int == x_hi && c.1 as int == y && z0 <= c.2 as int <= z1 {
                assert(block_at(acc2, c) == block_at(m, c));
            } else {
                assert(block_at(acc2, c) == block_at(acc, c));
            }
        }
    }
}


/// Advancing one line past a known decomposition drops that line.
proof fn proof_skip_step(lines: Seq<Seq<char>>, li: int, head: Seq<Seq<char>>, tail: Seq<Seq<char>>)
    requires
        0 <= li <= lines.len(),
        head.len() >= 1,
        lines.skip(li) == head + tail,
    ensures
        li + 1 <= lines.len(),
        lines.skip(li + 1) == head.skip(1) + tail,
{
    assert(lines.skip(li).len() == lines.len() - li);
    assert forall|k: int| 0 <= k < lines.len() - li - 1
        implies lines.skip(li + 1)[k] == (head.skip(1) + tail)[k] by {
        assert(lines.skip(li + 1)[k] == lines[li + 1 + k]);
        assert(lines.skip(li)[k + 1] == lines[li + 1 + k]);
        assert((head + tail)[k + 1] == (head.skip(1) + tail)[k]);
    }
    assert(lines.skip(li + 1) =~= head.skip(1) + tail);
}


/// Reading rendered layer blocks back writes exactly the boxed cells of the
/// heights they cover, each with the map's classification; the blank
/// terminator line ends the list.
proof fn lemma_parse_layers_rt(
    m: Map<Vec3, Block>, lines: Seq<Seq<char>>, li: int, y0: int, y1: int,
    lo: Vec3, hi: Vec3, acc: Map<Vec3, Block>,
)
    requires
        y0 > y1 || (coord_bounded(lo, 4) && coord_bounded(hi, 4)
            && within_lim(y0) && within_lim(y1) && lo.2 <= hi.2 + 1),
        0 <= li <= lines.len(),
        lines.skip(li) == layers_lines(m, y0, y1, lo, hi) + seq![Seq::<char>::empty()],
    ensures
        spec_parse_layers(lines, li, acc) is Some,
        forall|c: Vec3| block_at(spec_parse_layers(lines, li, acc).unwrap(), c)
            == if lo.0 <= c.0 <= hi.0 && y0 <= c.1 as int <= y1 && lo.2 <= c.2 <= hi.2 {
                block_at(m, c)
            } else {
                block_at(acc, c)
            },
    decreases y1 - y0 + 1,
{
    if y0 > y1 {
        assert(lines.skip(li) =~= seq![Seq::<char>::empty()]);
        assert(li < lines.len());
        assert(lines[li] == lines.skip(li)[0]);
        assert(lines[li] =~= Seq::<char>::empty());
        assert(is_blank(lines[li]));
    } else {
        let t1 = triple_chars(lo.0 as int, y0, lo.2 as int);
        let t2 = triple_chars(hi.0 as int, y0, hi.2 as int);
        let rl = row_lines(m, y0, hi.0 as int, lo.0 as int, lo.2 as int, hi.2 as int);
        let ll = layers_lines(m, y0, y1, lo, hi);
        let ll2 = layers_lines(m, y0 + 1, y1, lo, hi);
        let terminator = seq![Seq::<char>::empty()];
        assert(ll == seq![t1, t2] + rl + ll2);
        assert(lines.skip(li).len() >= 2);
        assert(li + 1 < lines.len());
        assert(lines[li] == lines.skip(li)[0]);
        assert(lines[li + 1] == lines.skip(li)[1]);
        assert(lines[li] == t1);
        assert(lines[li + 1] == t2);
        lemma_triple_no_nl(lo.0 as int, y0, lo.2 as int);
        assert(!is_blank(lines[li]));
        lemma_parse_triple_rt(lo.0, y0 as i32, lo.2);
        lemma_parse_triple_rt(hi.0, y0 as i32, hi.2);
        assert((y0 as i32) as int == y0);
        let plo = Vec3(lo.0, y0 as i32, lo.2);
        let phi = Vec3(hi.0, y0 as i32, hi.2);
        assert(spec_parse_triple(lines[li]) == Some(plo));
        assert(spec_parse_triple(lines[li + 1]) == Some(phi));
        assert(coord_bounded(plo, 4));
        assert(coord_bounded(phi, 4));
        proof_skip_step(lines, li, ll + terminator, Seq::empty());
        proof_skip_step(lines, li + 1, (ll + terminator).skip(1), Seq::empty());
        assert(lines.skip(li + 2) =~= (ll + terminator).skip(2) + Seq::empty());
        assert(lines.skip(li + 2) =~= rl + (ll2 + terminator));
        lemma_parse_rows_rt(m, lines, li + 2, y0, hi.0 as int, lo.0 as int, lo.2 as int,
            hi.2 as int, acc, ll2 + terminator);
        let rc = rows_count(hi.0 as int, lo.0 as int);
        let acc2 = spec_parse_rows(lines, li + 2, y0, hi.0 as int, lo.0 as int,
            lo.2 as int, hi.2 as int, acc).unwrap();
        assert(lines.skip(li + 2 + rc) == ll2 + terminator);
        lemma_parse_layers_rt(m, lines, li + 2 + rc, y0 + 1, y1, lo, hi, acc2);
        let res = spec_parse_layers(lines, li, acc).unwrap();
        assert forall|c: Vec3| block_at(res, c)
            == (if lo.0 <= c.0 <= hi.0 && y0 <= c.1 as int <= y1 && lo.2 <= c.2 <= hi.2 {
                block_at(m, c)
            } else {
                block_at(acc, c)
            }) by {
            if lo.0 <= c.0 <= hi.0 && y0 + 1 <= c.1 as int <= y1 && lo.2 <= c.2 <= hi.2 {
            } else if lo.0 <= c.0 <= hi.0 && c.1 as int == y0 && lo.2 <= c.2 <= hi.2 {
                assert(block_at(acc2, c) == block_at(m, c));
            } else {
                assert(block_at(acc2, c) == block_at(acc, c));
            }
        }
    }
}

/// The serialization round-trip law: reading a persisted map back yields a
/// map that classifies every cell exactly as the original did - the cells
/// inside the bounding box from their row symbols, the cells outside it as
/// unknown, which is what the original held for them too.
pub proof fn lemma_serialization_round_trip(m: Map<Vec3, Block>, lo: Vec3, hi: Vec3)
    requires
        dims_ok(m, lo, hi),
        forall|k: Vec3| #[trigger] m.contains_key(k) ==> coord_bounded(k, 4),
    ensures
        spec_parse_grid(grid_chars(m, lo, hi)) is Some,
        forall|c: Vec3|
            block_at(#[trigger] spec_parse_grid(grid_chars(m, lo, hi)).unwrap(), c) == block_at(m, c),
{
    bounds_from_dims(m, lo, hi);
    let layers = layers_chars(m, lo.1 as int, hi.1 as int, lo, hi);
    let g = grid_chars(m, lo, hi);
    assert(g =~= seq!['1'] + seq!['\n'] + (layers + Seq::<char>::empty()));
    assert(layers + Seq::<char>::empty() =~= layers);
    assert forall|j: int| 0 <= j < seq!['1'].len() implies (#[trigger] seq!['1'][j]) != '\n' by {}
    lemma_split_concat(seq!['1'], layers);
    if exists|k: Vec3| m.contains_key(k) {
        let kx = choose|k: Vec3| #[trigger] m.contains_key(k) && k.0 == lo.0;
        let kz2 = choose|k: Vec3| #[trigger] m.contains_key(k) && k.2 == hi.2;
        assert(lo.2 <= kz2.2);
        assert(coord_bounded(lo, 4) && coord_bounded(hi, 4));
    }
    lemma_split_layers(m, lo.1 as int, hi.1 as int, lo, hi, Seq::empty());
    assert(first_idx(Seq::<char>::empty(), '\n') == -1);
    assert(spec_split_lines(Seq::<char>::empty()) =~= seq![Seq::<char>::empty()]);
    let lines = spec_split_lines(g);
    assert(lines =~= seq![seq!['1']] + layers_lines(m, lo.1 as int, hi.1 as int, lo, hi)
        + seq![Seq::<char>::empty()]);
    assert(lines[0] == seq!['1']);
    assert(lines.skip(1) =~= layers_lines(m, lo.1 as int, hi.1 as int, lo, hi)
        + seq![Seq::<char>::empty()]);
    lemma_parse_layers_rt(m, lines, 1, lo.1 as int, hi.1 as int, lo, hi, Map::empty());
    let res = spec_parse_layers(lines, 1, Map::empty()).unwrap();
    assert forall|c: Vec3| block_at(#[trigger] spec_parse_grid(g).unwrap(), c) == block_at(m, c) by {
        if lo.0 <= c.0 <= hi.0 && lo.1 <= c.1 <= hi.1 && lo.2 <= c.2 <= hi.2 {
        } else {
            assert(!m.contains_key(c));
            assert(block_at(m, c) == Block::Unknown);
            assert(block_at(res, c) == block_at(Map::<Vec3, Block>::empty(), c));
        }
    }
}

} // verus!







