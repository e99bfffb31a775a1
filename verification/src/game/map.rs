//! Axial hex coordinates and the world map built on them.

use vstd::prelude::*;
use crate::game::tile::{label, shaded, ColoredText, GameTile};
use crate::game::{GameError, GameFault};
use crate::resource::resource_data::{FieldTypeData, OriginFieldData};
use crate::resource::{contains_id, lists_id, place_of_id, Resource, ResourceManager};

verus! {

/// Absolute value of a mathematical integer.
pub open spec fn abs(x: int) -> int {
    if x < 0 {
        -x
    } else {
        x
    }
}

/// Number of hex steps between two axial coordinates, given as pairs `(q, r)`.
pub open spec fn hex_distance(a: (int, int), b: (int, int)) -> int {
    (abs(a.0 - b.0) + abs(a.1 - b.1) + abs(a.0 + a.1 - b.0 - b.1)) / 2
}

/// The coordinate reached from `p` by one step in `direction`. The six
/// directions are numbered 0 to 5; each is next to the one before it, and
/// direction 0 is the one of growing `q`.
pub open spec fn hex_neighbour(p: (int, int), direction: int) -> (int, int) {
    if direction == 0 {
        (p.0 + 1, p.1)
    } else if direction == 1 {
        (p.0 + 1, p.1 - 1)
    } else if direction == 2 {
        (p.0, p.1 - 1)
    } else if direction == 3 {
        (p.0 - 1, p.1)
    } else if direction == 4 {
        (p.0 - 1, p.1 + 1)
    } else {
        (p.0, p.1 + 1)
    }
}

/// The six coordinates next to `p`, in the order in which range queries visit them.
pub open spec fn hex_adjacent(p: (int, int)) -> Seq<(int, int)> {
    seq![
        (p.0, p.1 + 1),
        (p.0, p.1 - 1),
        (p.0 + 1, p.1),
        (p.0 - 1, p.1),
        (p.0 - 1, p.1 + 1),
        (p.0 + 1, p.1 - 1),
    ]
}

/// The `j`-th coordinate on edge `side` of the ring of radius `k` around `c`.
/// Edge 0 starts at the corner `(c.q - k, c.r + k)`; each edge runs in the
/// direction of its own number and ends where the next one starts.
pub open spec fn ring_side_pos(c: (int, int), k: int, side: int, j: int) -> (int, int) {
    if side == 0 {
        (c.0 - k + j, c.1 + k)
    } else if side == 1 {
        (c.0 + j, c.1 + k - j)
    } else if side == 2 {
        (c.0 + k, c.1 - j)
    } else if side == 3 {
        (c.0 + k - j, c.1 - k)
    } else if side == 4 {
        (c.0 - j, c.1 - k + j)
    } else {
        (c.0 - k, c.1 + j)
    }
}

/// One edge of a ring: `k` coordinates.
pub open spec fn ring_side(c: (int, int), k: nat, side: int) -> Seq<(int, int)> {
    Seq::new(k, |j: int| ring_side_pos(c, k as int, side, j))
}

/// The first `sides` edges of a ring, one after the other.
pub open spec fn ring_sides(c: (int, int), k: nat, sides: nat) -> Seq<(int, int)>
    decreases sides,
{
    if sides == 0 {
        Seq::empty()
    } else {
        ring_sides(c, k, (sides - 1) as nat) + ring_side(c, k, sides - 1)
    }
}

/// The ring of radius `k` around `c`: its six edges in order.
pub open spec fn ring(c: (int, int), k: nat) -> Seq<(int, int)> {
    ring_sides(c, k, 6)
}

/// Distance does not depend on the order of its arguments.
pub proof fn lemma_distance_symmetric(a: (int, int), b: (int, int))
    ensures
        hex_distance(a, b) == hex_distance(b, a),
{
}

/// Distance is never negative, and it is zero exactly between a coordinate and itself.
pub proof fn lemma_distance_zero_iff_equal(a: (int, int), b: (int, int))
    ensures
        hex_distance(a, b) >= 0,
        hex_distance(a, b) == 0 <==> a == b,
{
}

/// Going through a third coordinate is never shorter than going directly.
pub proof fn lemma_distance_triangle(a: (int, int), b: (int, int), c: (int, int))
    ensures
        hex_distance(a, c) <= hex_distance(a, b) + hex_distance(b, c),
{
}

/// A ring of radius `k` lists `6k` coordinates; the one at index `side * k + j`
/// is the `j`-th coordinate of edge `side`.
pub proof fn lemma_ring_layout(c: (int, int), k: nat)
    ensures
        ring(c, k).len() == 6 * k,
        forall|side: int, j: int|
            0 <= side < 6 && 0 <= j < k ==> #[trigger] ring(c, k)[side * k + j] == ring_side_pos(
                c,
                k as int,
                side,
                j,
            ),
{
    reveal_with_fuel(ring_sides, 7);
    assert forall|side: int, j: int| 0 <= side < 6 && 0 <= j < k implies #[trigger] ring(
        c,
        k,
    )[side * k + j] == ring_side_pos(c, k as int, side, j) by {
        if side == 0 {
            assert(side * k + j == j);
        } else if side == 1 {
            assert(side * k + j == k + j);
        } else if side == 2 {
            assert(side * k + j == 2 * k + j);
        } else if side == 3 {
            assert(side * k + j == 3 * k + j);
        } else if side == 4 {
            assert(side * k + j == 4 * k + j);
        } else {
            assert(side * k + j == 5 * k + j);
        }
    }
}

/// Every index of a ring falls on exactly one edge.
pub proof fn lemma_ring_index(k: nat, n: int) -> (at: (int, int))
    requires
        0 <= n < 6 * k,
    ensures
        0 <= at.0 < 6,
        0 <= at.1 < k,
        n == at.0 * k + at.1,
{
    if n < k {
        (0, n)
    } else if n < 2 * k {
        (1, n - k)
    } else if n < 3 * k {
        (2, n - 2 * k)
    } else if n < 4 * k {
        (3, n - 3 * k)
    } else if n < 5 * k {
        (4, n - 4 * k)
    } else {
        (5, n - 5 * k)
    }
}

/// Every coordinate of the ring of radius `k` lies exactly `k` steps from the centre.
pub proof fn lemma_ring_distance(c: (int, int), k: nat)
    ensures
        ring(c, k).len() == 6 * k,
        forall|n: int| 0 <= n < 6 * k ==> hex_distance(c, #[trigger] ring(c, k)[n]) == k,
{
    lemma_ring_layout(c, k);
    assert forall|n: int| 0 <= n < 6 * k implies hex_distance(c, #[trigger] ring(c, k)[n])
        == k by {
        let at = lemma_ring_index(k, n);
        assert(ring(c, k)[at.0 * k + at.1] == ring_side_pos(c, k as int, at.0, at.1));
    }
}

/// No coordinate occurs twice in a ring.
pub proof fn lemma_ring_distinct(c: (int, int), k: nat)
    ensures
        forall|m: int, n: int|
            0 <= m < n < 6 * k ==> #[trigger] ring(c, k)[m] != #[trigger] ring(c, k)[n],
{
    lemma_ring_layout(c, k);
    assert forall|m: int, n: int| 0 <= m < n < 6 * k implies #[trigger] ring(c, k)[m]
        != #[trigger] ring(c, k)[n] by {
        let a = lemma_ring_index(k, m);
        let b = lemma_ring_index(k, n);
        assert(ring(c, k)[a.0 * k + a.1] == ring_side_pos(c, k as int, a.0, a.1));
        assert(ring(c, k)[b.0 * k + b.1] == ring_side_pos(c, k as int, b.0, b.1));
    }
}

/// Every coordinate that lies `k >= 1` steps from the centre is listed in the
/// ring of radius `k`.
pub proof fn lemma_ring_complete(c: (int, int), k: nat, p: (int, int)) -> (n: int)
    requires
        k >= 1,
        hex_distance(c, p) == k,
    ensures
        0 <= n < 6 * k,
        ring(c, k)[n] == p,
{
    lemma_ring_layout(c, k);
    let dq = p.0 - c.0;
    let dr = p.1 - c.1;
    let at: (int, int) = if dr == k && dq < 0 {
        (0, dq + k)
    } else if dq >= 0 && dr > 0 {
        (1, dq)
    } else if dq == k && dr > -k {
        (2, -dr)
    } else if dr == -k && dq > 0 {
        (3, k - dq)
    } else if dq <= 0 && dr < 0 {
        (4, -dq)
    } else {
        (5, dr)
    };
    assert(0 <= at.0 < 6 && 0 <= at.1 < k);
    assert(ring(c, k)[at.0 * k + at.1] == ring_side_pos(c, k as int, at.0, at.1));
    assert(at.0 * k + at.1 < 6 * k) by (nonlinear_arith)
        requires
            0 <= at.0 < 6,
            0 <= at.1 < k,
    ;
    assert(at.0 * k + at.1 >= 0) by (nonlinear_arith)
        requires
            0 <= at.0 < 6,
            0 <= at.1 < k,
    ;
    at.0 * k + at.1
}

/// Axial hex coordinate.
#[derive(Clone, Copy, PartialEq, Eq, Hash, Debug, Structural)]
pub struct TilePos {
    pub q: i32,
    pub r: i32,
}

impl View for TilePos {
    type V = (int, int);

    open spec fn view(&self) -> (int, int) {
        (self.q as int, self.r as int)
    }
}

/// Whether both parts of a coordinate fit the machine type of `TilePos`.
pub open spec fn representable(p: (int, int)) -> bool {
    i32::MIN <= p.0 <= i32::MAX && i32::MIN <= p.1 <= i32::MAX
}

/// The views of a list of positions.
pub open spec fn views(s: Seq<TilePos>) -> Seq<(int, int)> {
    s.map_values(|p: TilePos| p@)
}

impl TilePos {
    /// The position one step away in `direction` (0 to 5).
    pub fn neightbour(&self, direction: u32) -> (res: TilePos)
        requires
            direction < 6,
            representable(hex_neighbour(self@, direction as int)),
        ensures
            res@ == hex_neighbour(self@, direction as int),
    {
        if direction == 0 {
            self.moved(1, 0)
        } else if direction == 1 {
            self.moved(1, -1)
        } else if direction == 2 {
            self.moved(0, -1)
        } else if direction == 3 {
            self.moved(-1, 0)
        } else if direction == 4 {
            self.moved(-1, 1)
        } else {
            self.moved(0, 1)
        }
    }

    /// Number of hex steps from `self` to `second`.
    pub fn distance(&self, second: &TilePos) -> (res: u32)
        requires
            hex_distance(self@, second@) <= u32::MAX,
        ensures
            res == hex_distance(self@, second@),
    {
        let dq: i64 = self.q as i64 - second.q as i64;
        let dr: i64 = self.r as i64 - second.r as i64;
        let ds: i64 = dq + dr;
        let aq: i64 = if dq < 0 { -dq } else { dq };
        let ar: i64 = if dr < 0 { -dr } else { dr };
        let az: i64 = if ds < 0 { -ds } else { ds };
        ((aq + ar + az) / 2) as u32
    }

    /// The position shifted by `q` columns and `r` rows.
    pub fn moved(&self, q: i32, r: i32) -> (res: TilePos)
        requires
            representable((self.q + q, self.r + r)),
        ensures
            res@ == (self.q + q, self.r + r),
    {
        TilePos { q: self.q + q, r: self.r + r }
    }

    /// The six positions next to this one.
    pub fn adjacent_positions(&self) -> (res: [TilePos; 6])
        requires
            i32::MIN < self.q < i32::MAX,
            i32::MIN < self.r < i32::MAX,
        ensures
            views(res@) == hex_adjacent(self@),
    {
        let res = [
            self.moved(0, 1),
            self.moved(0, -1),
            self.moved(1, 0),
            self.moved(-1, 0),
            self.moved(-1, 1),
            self.moved(1, -1),
        ];
        assert(views(res@) =~= hex_adjacent(self@));
        res
    }

    /// The ring of positions at exactly `distance` steps from this one.
    pub fn positions_in_distance(&self, distance: u32) -> (res: Vec<TilePos>)
        requires
            distance >= 1,
            representable((self.q - distance, self.r - distance)),
            representable((self.q + distance, self.r + distance)),
        ensures
            views(res@) == ring(self@, distance as nat),
    {
        let k: i32 = distance as i32;
        let mut hex = TilePos { q: self.q - k, r: self.r + k };
        let mut res: Vec<TilePos> = Vec::new();
        let mut i: u32 = 0;
        while i < 6
            invariant
                distance >= 1,
                k == distance,
                representable((self.q - distance, self.r - distance)),
                representable((self.q + distance, self.r + distance)),
                i <= 6,
                i < 6 ==> hex@ == ring_side_pos(self@, k as int, i as int, 0),
                views(res@) == ring_sides(self@, distance as nat, i as nat),
            decreases 6 - i,
        {
            let ghost before = views(res@);
            let mut j: u32 = 0;
            while j < distance
                invariant
                    distance >= 1,
                    k == distance,
                    representable((self.q - distance, self.r - distance)),
                    representable((self.q + distance, self.r + distance)),
                    i < 6,
                    j <= distance,
                    hex@ == ring_side_pos(self@, k as int, i as int, j as int),
                    views(res@) == before + ring_side(self@, distance as nat, i as int).take(
                        j as int,
                    ),
                decreases distance - j,
            {
                let ghost side = ring_side(self@, distance as nat, i as int);
                let ghost listed = res@;
                res.push(hex);
                assert(views(res@) =~= views(listed).push(hex@));
                assert(side.take(j + 1) =~= side.take(j as int).push(side[j as int]));
                hex = hex.neightbour(i);
                j += 1;
            }
            assert(ring_side(self@, distance as nat, i as int).take(distance as int)
                =~= ring_side(self@, distance as nat, i as int));
            i += 1;
        }
        res
    }
}

/// The largest size a map can have. Every ring that can reach a tile of such
/// a map has coordinates that fit `TilePos`.
pub const MAX_MAP_SIZE: u32 = 0x0400_0000;

/// The column of a coordinate within its row of the grid.
pub open spec fn grid_column(p: (int, int)) -> int {
    p.0 + p.1 / 2
}

/// Whether a coordinate belongs to the grid of the given size: rows `0..size`,
/// and in row `r` the columns `q` from `-(r / 2)` up to, not including,
/// `size - r / 2`.
pub open spec fn on_grid(size: int, p: (int, int)) -> bool {
    0 <= p.1 < size && 0 <= grid_column(p) < size
}

/// The coordinate in the given row and column of the grid.
pub open spec fn grid_position(row: int, column: int) -> (int, int) {
    (column - row / 2, row)
}

/// The coordinates of one row of the grid, by column.
pub open spec fn grid_row(size: nat, row: int) -> Seq<(int, int)> {
    Seq::new(size, |column: int| grid_position(row, column))
}

/// The coordinates of the first `rows` rows of the grid, row after row.
pub open spec fn grid_rows(size: nat, rows: nat) -> Seq<(int, int)>
    decreases rows,
{
    if rows == 0 {
        Seq::empty()
    } else {
        grid_rows(size, (rows - 1) as nat) + grid_row(size, rows - 1)
    }
}

/// The middle of the grid, where the first content stands.
pub open spec fn mid_position(size: int) -> (int, int) {
    (size / 4, size / 2)
}

/// Two coordinates of one grid are fewer than three grid sizes apart.
pub proof fn lemma_grid_diameter(size: int, a: (int, int), b: (int, int))
    requires
        on_grid(size, a),
        on_grid(size, b),
    ensures
        hex_distance(a, b) < 3 * size,
{
}

/// The middle of a grid that has tiles is one of its coordinates.
pub proof fn lemma_mid_on_grid(size: int)
    requires
        size >= 1,
    ensures
        on_grid(size, mid_position(size)),
{
}

/// Whether an origin terrain may be given to a tile at which the noise field
/// has height `h` and vegetation `v`: both samples lie above its thresholds,
/// and near the middle of the map its id is among the enabled ones.
pub open spec fn qualifies(
    origin: &Resource<OriginFieldData>,
    h: int,
    v: int,
    is_near: bool,
    enabled_near: Seq<String>,
) -> bool {
    &&& !is_near || lists_id(enabled_near, origin.id@)
    &&& h > origin.data.height
    &&& v > origin.data.vegetation
}

/// The sum of the two thresholds of an origin terrain.
pub open spec fn threshold_sum(origin: &Resource<OriginFieldData>) -> int {
    origin.data.height + origin.data.vegetation
}

/// Whether `i` is the place of the origin terrain that a tile takes: of those
/// that qualify, the one with the least threshold sum, and of several such the
/// first in the catalog; the first of the catalog if none qualifies.
pub open spec fn is_proper_origin(
    origins: Seq<Resource<OriginFieldData>>,
    h: int,
    v: int,
    is_near: bool,
    enabled_near: Seq<String>,
    i: int,
) -> bool {
    &&& 0 <= i < origins.len()
    &&& if exists|j: int|
        0 <= j < origins.len() && qualifies(#[trigger] &origins[j], h, v, is_near, enabled_near) {
        &&& qualifies(&origins[i], h, v, is_near, enabled_near)
        &&& forall|j: int|
            0 <= j < origins.len() && qualifies(#[trigger] &origins[j], h, v, is_near, enabled_near)
                ==> threshold_sum(&origins[i]) < threshold_sum(&origins[j]) || (threshold_sum(
                &origins[i],
            ) == threshold_sum(&origins[j]) && i <= j)
    } else {
        i == 0
    }
}

/// The place of the origin terrain that a tile takes.
pub open spec fn proper_origin(
    origins: Seq<Resource<OriginFieldData>>,
    h: int,
    v: int,
    is_near: bool,
    enabled_near: Seq<String>,
) -> int {
    choose|i: int| is_proper_origin(origins, h, v, is_near, enabled_near, i)
}

/// At most one place is that of the origin terrain a tile takes.
pub proof fn lemma_proper_origin_unique(
    origins: Seq<Resource<OriginFieldData>>,
    h: int,
    v: int,
    is_near: bool,
    enabled_near: Seq<String>,
    i: int,
)
    requires
        is_proper_origin(origins, h, v, is_near, enabled_near, i),
    ensures
        proper_origin(origins, h, v, is_near, enabled_near) == i,
{
    let k = proper_origin(origins, h, v, is_near, enabled_near);
    assert(is_proper_origin(origins, h, v, is_near, enabled_near, k));
    if exists|j: int|
        0 <= j < origins.len() && qualifies(#[trigger] &origins[j], h, v, is_near, enabled_near) {
        assert(qualifies(&origins[i], h, v, is_near, enabled_near));
        assert(qualifies(&origins[k], h, v, is_near, enabled_near));
    }
}

/// The world map: a square grid of tiles in axial coordinates.
#[derive(Debug)]
pub struct GameMap<'a> {
    pub size: u32,
    pub tiles: Vec<Vec<GameTile<'a>>>,
    pub resource_manager: &'a ResourceManager,
}

/// The noise field over a grid: for each row and column the height and the
/// vegetation sampled there.
pub open spec fn noise_fits(size: int, noise: Seq<Vec<(i64, i64)>>) -> bool {
    &&& noise.len() == size
    &&& forall|row: int| 0 <= row < size ==> (#[trigger] noise[row])@.len() == size
}

/// The contents that stand on the listed tiles, in the order of the tiles.
pub open spec fn contents_of<'a>(tiles: Seq<&GameTile<'a>>) -> Seq<&'a Resource<FieldTypeData>>
    decreases tiles.len(),
{
    if tiles.len() == 0 {
        Seq::empty()
    } else {
        let rest = contents_of(tiles.drop_last());
        match tiles.last().field_content {
            Some(content) => rest.push(content),
            None => rest,
        }
    }
}

/// A content stands among the contents of the listed tiles exactly if one of
/// the tiles carries it.
pub proof fn lemma_contents_members<'a>(
    tiles: Seq<&GameTile<'a>>,
    content: &'a Resource<FieldTypeData>,
)
    ensures
        contents_of(tiles).contains(content) <==> exists|j: int|
            0 <= j < tiles.len() && (#[trigger] tiles[j]).field_content == Some(content),
    decreases tiles.len(),
{
    if tiles.len() > 0 {
        let rest = tiles.drop_last();
        let earlier = contents_of(rest);
        lemma_contents_members(rest, content);
        if contents_of(tiles).contains(content) {
            let i = choose|i: int|
                0 <= i < contents_of(tiles).len() && contents_of(tiles)[i] == content;
            if i < earlier.len() {
                assert(earlier[i] == content);
                let j = choose|j: int|
                    0 <= j < rest.len() && (#[trigger] rest[j]).field_content == Some(content);
                assert(tiles[j].field_content == Some(content));
            } else {
                assert(tiles[tiles.len() - 1].field_content == Some(content));
            }
        }
        if exists|j: int|
            0 <= j < tiles.len() && (#[trigger] tiles[j]).field_content == Some(content) {
            let j = choose|j: int|
                0 <= j < tiles.len() && (#[trigger] tiles[j]).field_content == Some(content);
            if j < rest.len() {
                assert(rest[j].field_content == Some(content));
                let i = choose|i: int| 0 <= i < earlier.len() && earlier[i] == content;
                assert(contents_of(tiles)[i] == content);
            } else {
                assert(contents_of(tiles)[earlier.len() as int] == content);
            }
        }
    }
}

impl<'a> GameMap<'a> {
    /// Whether the tiles fill the grid of the map's size, each at its place.
    pub open spec fn wf(&self) -> bool {
        &&& self.size <= MAX_MAP_SIZE
        &&& self.tiles@.len() == self.size
        &&& forall|row: int|
            0 <= row < self.size ==> (#[trigger] self.tiles@[row])@.len() == self.size
        &&& forall|row: int, column: int|
            0 <= row < self.size && 0 <= column < self.size ==> (
            #[trigger] self.tiles@[row]@[column]).position@ == grid_position(row, column)
    }

    /// Whether the map has a tile at the coordinate.
    pub open spec fn contains(&self, p: (int, int)) -> bool {
        on_grid(self.size as int, p)
    }

    /// The tile at a coordinate of the map.
    pub open spec fn tile(&self, p: (int, int)) -> &GameTile<'a> {
        &self.tiles@[p.1]@[grid_column(p)]
    }

    /// The tiles of the map at the listed coordinates, in their order;
    /// coordinates off the map are passed over.
    pub open spec fn tiles_on(&self, positions: Seq<(int, int)>) -> Seq<&GameTile<'a>>
        decreases positions.len(),
    {
        if positions.len() == 0 {
            Seq::empty()
        } else {
            let rest = self.tiles_on(positions.drop_last());
            if self.contains(positions.last()) {
                rest.push(self.tile(positions.last()))
            } else {
                rest
            }
        }
    }

    /// The tiles exactly `b` steps from `center`: the centre tile for `b = 0`,
    /// else the tiles on the ring of radius `b`, in the order of the ring.
    pub open spec fn band(&self, center: (int, int), b: nat) -> Seq<&GameTile<'a>> {
        if b == 0 {
            seq![self.tile(center)]
        } else {
            self.tiles_on(ring(center, b))
        }
    }

    /// The first `bands` bands around `center`, one after the other.
    pub open spec fn bands_together(&self, center: (int, int), bands: nat) -> Seq<&GameTile<'a>>
        decreases bands,
    {
        if bands == 0 {
            Seq::empty()
        } else {
            self.bands_together(center, (bands - 1) as nat) + self.band(
                center,
                (bands - 1) as nat,
            )
        }
    }

    /// The tiles of the first `rows` rows, row after row.
    pub open spec fn rows_together(&self, rows: nat) -> Seq<&GameTile<'a>>
        decreases rows,
    {
        if rows == 0 {
            Seq::empty()
        } else {
            self.rows_together((rows - 1) as nat) + self.tiles@[rows - 1]@.map_values(
                |tile: GameTile<'a>| &tile,
            )
        }
    }

    /// All tiles of the map, row after row.
    pub open spec fn all_tiles(&self) -> Seq<&GameTile<'a>> {
        self.rows_together(self.tiles@.len())
    }

    /// Whether some tile carries a content that has the id.
    pub open spec fn has_content(&self, id: Seq<char>) -> bool {
        exists|row: int, column: int|
            0 <= row < self.size && 0 <= column < self.size && (
            #[trigger] self.tiles@[row]@[column]).holds_content(id)
    }

    /// Whether some tile carries a content of the build path.
    pub open spec fn has_path(&self, build_path: Seq<char>) -> bool {
        exists|row: int, column: int|
            0 <= row < self.size && 0 <= column < self.size && (
            #[trigger] self.tiles@[row]@[column]).holds_path(build_path)
    }

    /// The tile that generation puts in a row and column of the grid, given
    /// the catalog and the noise field. The origin terrain follows from the
    /// two samples; the middle tile carries the content the settings name;
    /// tiles within the visible radius of the middle are visible.
    pub open spec fn generated_tile(
        rm: &'a ResourceManager,
        size: int,
        noise: Seq<Vec<(i64, i64)>>,
        row: int,
        column: int,
    ) -> GameTile<'a> {
        let globals = &rm.globals@[0];
        let pos = grid_position(row, column);
        let mid = mid_position(size);
        let sample = noise[row]@[column];
        GameTile {
            position: TilePos { q: pos.0 as i32, r: pos.1 as i32 },
            base_field_type: &rm.origin_fields@[proper_origin(
                rm.origin_fields@,
                sample.0 as int,
                sample.1 as int,
                hex_distance(pos, mid) <= 1,
                globals.data.map_near_mid_enable@,
            )],
            field_content: if pos == mid {
                Some(&rm.field_types@[place_of_id(rm.field_types@, globals.data.map_middle@)->0])
            } else {
                None
            },
            visible: hex_distance(pos, mid) <= globals.data.map_visible_on_start,
            quest_completed_till_last_build: false,
            resource_manager: rm,
        }
    }

    /// Why no map of the size can be generated from the catalog and the noise
    /// field, if it cannot.
    pub open spec fn generation_fault(
        rm: &ResourceManager,
        size: int,
        noise: Seq<Vec<(i64, i64)>>,
    ) -> Option<GameFault> {
        if rm.globals@.len() == 0 {
            Some(GameFault::NoGlobals)
        } else if size == 0 || size > MAX_MAP_SIZE || !noise_fits(size, noise) {
            Some(GameFault::BadMapSize)
        } else if rm.origin_fields@.len() == 0 {
            Some(GameFault::NoOrigin)
        } else if place_of_id(rm.field_types@, rm.globals@[0].data.map_middle@) is None {
            Some(GameFault::MissingResource)
        } else {
            None
        }
    }

    /// Whether the map is the one that generation makes of the size and the
    /// noise field.
    pub open spec fn is_generated(&self, size: int, noise: Seq<Vec<(i64, i64)>>) -> bool {
        &&& self.wf()
        &&& self.size == size
        &&& forall|row: int, column: int|
            0 <= row < size && 0 <= column < size ==> #[trigger] self.tiles@[row]@[column]
                == Self::generated_tile(self.resource_manager, size, noise, row, column)
    }

    /// Generation is a function of the size, the noise field and the catalog:
    /// two maps generated from the same three have the same tile at every place.
    pub proof fn lemma_generation_deterministic(
        first: &GameMap<'a>,
        second: &GameMap<'a>,
        size: int,
        noise: Seq<Vec<(i64, i64)>>,
    )
        requires
            first.is_generated(size, noise),
            second.is_generated(size, noise),
            first.resource_manager == second.resource_manager,
        ensures
            first.size == second.size,
            forall|row: int, column: int|
                0 <= row < size && 0 <= column < size ==> #[trigger] first.tiles@[row]@[column]
                    == second.tiles@[row]@[column],
            forall|p: (int, int)| first.contains(p) ==> first.tile(p) == second.tile(p),
    {
        assert forall|p: (int, int)| first.contains(p) implies first.tile(p) == second.tile(
            p,
        ) by {
            assert(first.tiles@[p.1]@[grid_column(p)] == second.tiles@[p.1]@[grid_column(p)]);
        }
    }

    /// A tile is among the tiles on the listed coordinates exactly if it is
    /// the tile of the map at one of them.
    pub proof fn lemma_tiles_on_members(&self, positions: Seq<(int, int)>, tile: &GameTile<'a>)
        ensures
            self.tiles_on(positions).contains(tile) <==> exists|j: int|
                0 <= j < positions.len() && self.contains(#[trigger] positions[j]) && self.tile(
                    positions[j],
                ) == tile,
        decreases positions.len(),
    {
        if positions.len() > 0 {
            let rest = positions.drop_last();
            let earlier = self.tiles_on(rest);
            let all = self.tiles_on(positions);
            self.lemma_tiles_on_members(rest, tile);
            if all.contains(tile) {
                let i = choose|i: int| 0 <= i < all.len() && all[i] == tile;
                if i < earlier.len() {
                    assert(earlier[i] == tile);
                    let j = choose|j: int|
                        0 <= j < rest.len() && self.contains(#[trigger] rest[j]) && self.tile(
                            rest[j],
                        ) == tile;
                    assert(positions[j] == rest[j]);
                } else {
                    assert(self.contains(positions[positions.len() - 1]));
                }
            }
            if exists|j: int|
                0 <= j < positions.len() && self.contains(#[trigger] positions[j]) && self.tile(
                    positions[j],
                ) == tile {
                let j = choose|j: int|
                    0 <= j < positions.len() && self.contains(#[trigger] positions[j])
                        && self.tile(positions[j]) == tile;
                if j < rest.len() {
                    assert(rest[j] == positions[j]);
                    let i = choose|i: int| 0 <= i < earlier.len() && earlier[i] == tile;
                    assert(all[i] == tile);
                } else {
                    assert(all[earlier.len() as int] == tile);
                }
            }
        }
    }

    /// Whether every one of the listed tiles lies at a coordinate of the map.
    pub open spec fn all_on_map(&self, tiles: Seq<&GameTile<'a>>) -> bool {
        forall|i: int| 0 <= i < tiles.len() ==> self.contains((#[trigger] tiles[i]).position@)
    }

    /// The tiles on listed coordinates lie on the map.
    pub proof fn lemma_tiles_on_map(&self, positions: Seq<(int, int)>)
        requires
            self.wf(),
        ensures
            self.all_on_map(self.tiles_on(positions)),
        decreases positions.len(),
    {
        if positions.len() > 0 {
            self.lemma_tiles_on_map(positions.drop_last());
            let earlier = self.tiles_on(positions.drop_last());
            let all = self.tiles_on(positions);
            assert forall|i: int| 0 <= i < all.len() implies self.contains(
                (#[trigger] all[i]).position@,
            ) by {
                if i < earlier.len() {
                    assert(all[i] == earlier[i]);
                } else {
                    let p = positions.last();
                    assert(self.tiles@[p.1]@[grid_column(p)].position@ == grid_position(
                        p.1,
                        grid_column(p),
                    ));
                }
            }
        }
    }

    /// The tiles in the bands around a tile of the map lie on the map.
    pub proof fn lemma_bands_on_map(&self, center: (int, int), bands: nat)
        requires
            self.wf(),
            self.contains(center),
        ensures
            self.all_on_map(self.bands_together(center, bands)),
        decreases bands,
    {
        if bands > 0 {
            self.lemma_bands_on_map(center, (bands - 1) as nat);
            let earlier = self.bands_together(center, (bands - 1) as nat);
            let band = self.band(center, (bands - 1) as nat);
            let all = self.bands_together(center, bands);
            if bands - 1 > 0 {
                self.lemma_tiles_on_map(ring(center, (bands - 1) as nat));
            } else {
                assert(self.tiles@[center.1]@[grid_column(center)].position@ == grid_position(
                    center.1,
                    grid_column(center),
                ));
            }
            assert forall|i: int| 0 <= i < all.len() implies self.contains(
                (#[trigger] all[i]).position@,
            ) by {
                if i < earlier.len() {
                    assert(all[i] == earlier[i]);
                } else {
                    assert(all[i] == band[i - earlier.len()]);
                }
            }
        }
    }

    /// The first bands around a tile of the map hold exactly the tiles of the
    /// map that lie fewer steps from it than there are bands.
    pub proof fn lemma_bands_are_within(&self, center: (int, int), bands: nat, tile: &GameTile<'a>)
        requires
            self.wf(),
            self.contains(center),
        ensures
            self.bands_together(center, bands).contains(tile) <==> exists|p: (int, int)|
                self.contains(p) && hex_distance(center, p) < bands && #[trigger] self.tile(p)
                    == tile,
        decreases bands,
    {
        if bands > 0 {
            let b = (bands - 1) as nat;
            let earlier = self.bands_together(center, b);
            let band = self.band(center, b);
            let all = self.bands_together(center, bands);
            self.lemma_bands_are_within(center, b, tile);
            if b > 0 {
                self.lemma_tiles_on_members(ring(center, b), tile);
                lemma_ring_distance(center, b);
            }
            if all.contains(tile) {
                let i = choose|i: int| 0 <= i < all.len() && all[i] == tile;
                if i < earlier.len() {
                    assert(earlier[i] == tile);
                } else {
                    assert(band[i - earlier.len()] == tile);
                    if b > 0 {
                        let j = choose|j: int|
                            0 <= j < ring(center, b).len() && self.contains(
                                #[trigger] ring(center, b)[j],
                            ) && self.tile(ring(center, b)[j]) == tile;
                        assert(self.tile(ring(center, b)[j]) == tile);
                    } else {
                        assert(self.tile(center) == tile);
                    }
                }
            }
            if exists|p: (int, int)|
                self.contains(p) && hex_distance(center, p) < bands && #[trigger] self.tile(p)
                    == tile {
                let p = choose|p: (int, int)|
                    self.contains(p) && hex_distance(center, p) < bands && #[trigger] self.tile(
                        p,
                    ) == tile;
                if hex_distance(center, p) < b {
                    let i = choose|i: int| 0 <= i < earlier.len() && earlier[i] == tile;
                    assert(all[i] == tile);
                } else {
                    if b > 0 {
                        let n = lemma_ring_complete(center, b, p);
                        assert(self.contains(ring(center, b)[n]) && self.tile(ring(center, b)[n])
                            == tile);
                        let i = choose|i: int| 0 <= i < band.len() && band[i] == tile;
                        assert(all[earlier.len() + i] == tile);
                    } else {
                        assert(p == center);
                        assert(all[earlier.len() as int] == band[0]);
                    }
                }
            }
        }
    }

    /// No tile lies on coordinates that are all off the map.
    pub proof fn lemma_tiles_on_none(&self, positions: Seq<(int, int)>)
        requires
            forall|i: int| 0 <= i < positions.len() ==> !self.contains(#[trigger] positions[i]),
        ensures
            self.tiles_on(positions) == Seq::<&GameTile<'a>>::empty(),
        decreases positions.len(),
    {
        if positions.len() > 0 {
            self.lemma_tiles_on_none(positions.drop_last());
        }
    }

    /// A ring of radius three map sizes or more around a tile of the map
    /// holds no tile of the map.
    pub proof fn lemma_far_band_empty(&self, center: (int, int), b: nat)
        requires
            self.contains(center),
            b >= 3 * self.size,
        ensures
            self.tiles_on(ring(center, b)) == Seq::<&GameTile<'a>>::empty(),
    {
        lemma_ring_distance(center, b);
        assert forall|i: int| 0 <= i < ring(center, b).len() implies !self.contains(
            #[trigger] ring(center, b)[i],
        ) by {
            if self.contains(ring(center, b)[i]) {
                lemma_grid_diameter(self.size as int, center, ring(center, b)[i]);
            }
        }
        self.lemma_tiles_on_none(ring(center, b));
    }

    /// Bands at three map sizes or more from a tile of the map add no tile.
    pub proof fn lemma_bands_beyond(&self, center: (int, int), near: nat, far: nat)
        requires
            self.contains(center),
            near <= far,
            near >= 3 * self.size || near == far,
        ensures
            self.bands_together(center, far) == self.bands_together(center, near),
        decreases far,
    {
        if far > near {
            self.lemma_bands_beyond(center, near, (far - 1) as nat);
            self.lemma_far_band_empty(center, (far - 1) as nat);
            assert(self.band(center, (far - 1) as nat) =~= Seq::empty());
            assert(self.bands_together(center, far) =~= self.bands_together(
                center,
                (far - 1) as nat,
            ));
        }
    }

    /// A map without tiles.
    pub fn new(rm: &'a ResourceManager) -> (res: GameMap<'a>)
        ensures
            res.wf(),
            res.size == 0,
            res.resource_manager == rm,
    {
        GameMap { size: 0, tiles: Vec::new(), resource_manager: rm }
    }

    /// How many tiles the map has.
    pub fn len(&self) -> (res: u64)
        requires
            self.wf(),
        ensures
            res == self.size * self.size,
    {
        assert(self.size * self.size <= 0x0400_0000 * 0x0400_0000) by (nonlinear_arith)
            requires
                self.size <= 0x0400_0000,
        ;
        (self.size as u64) * (self.size as u64)
    }

    /// The row and column of a coordinate, if the map has a tile there.
    pub fn locate(&self, q: i64, r: i64) -> (res: Option<(usize, usize)>)
        requires
            self.wf(),
            -0x1_0000_0000 <= q <= 0x1_0000_0000,
            -0x1_0000_0000 <= r <= 0x1_0000_0000,
        ensures
            match res {
                Some((row, column)) => self.contains((q as int, r as int)) && row == r
                    && column == grid_column((q as int, r as int)),
                None => !self.contains((q as int, r as int)),
            },
    {
        if r < 0 || r >= self.size as i64 {
            return None;
        }
        let column: i64 = q + r / 2;
        if column < 0 || column >= self.size as i64 {
            return None;
        }
        Some((r as usize, column as usize))
    }

    /// The tile at a position, if the map has one there.
    pub fn get(&self, pos: &TilePos) -> (res: Option<&GameTile<'a>>)
        requires
            self.wf(),
        ensures
            match res {
                Some(tile) => self.contains(pos@) && tile == self.tile(pos@),
                None => !self.contains(pos@),
            },
    {
        match self.locate(pos.q as i64, pos.r as i64) {
            Some((row, column)) => Some(&self.tiles[row][column]),
            None => None,
        }
    }

    /// The tile at a position of the map.
    pub fn get_tile(&self, pos: &TilePos) -> (res: &GameTile<'a>)
        requires
            self.wf(),
            self.contains(pos@),
        ensures
            res == self.tile(pos@),
            res.position == *pos,
    {
        let row = pos.r as usize;
        let column = (pos.q as i64 + (pos.r as i64) / 2) as usize;
        &self.tiles[row][column]
    }

    /// The position of the middle of the map.
    pub fn get_mid_position(&self) -> (res: TilePos)
        ensures
            res@ == mid_position(self.size as int),
    {
        TilePos { q: (self.size / 4) as i32, r: (self.size / 2) as i32 }
    }

    /// The smallest and largest row and column that a map of the size spans:
    /// rows from the first value up to, not including, the second, and
    /// columns likewise from the third to the fourth.
    pub fn get_min_max_coords(size: u32) -> (res: (i32, i32, i32, i32))
        requires
            size <= i32::MAX,
        ensures
            res.0 == 0,
            res.1 == size,
            res.2 == (if size == 0 {
                0
            } else {
                -((size - 1) / 2)
            }),
            res.3 == size,
            size >= 1 ==> forall|p: (int, int)|
                on_grid(size as int, p) ==> res.0 <= p.1 < res.1 && res.2 <= p.0 < res.3,
    {
        if size == 0 {
            (0, 0, 0, 0)
        } else {
            (0, size as i32, -((size as i32 - 1) / 2), size as i32)
        }
    }

    /// How the place in row `r` and column `q` of the printed map shows: as
    /// the tile there, or as `##` in white where the map has no tile.
    pub open spec fn shows_at(&self, q: int, r: int, shown: &ColoredText) -> bool {
        if self.contains((q, r)) {
            &&& shown.text@ == label(self.tile((q, r)).shown_id())
            &&& shown.color == shaded(
                match self.tile((q, r)).field_content {
                    Some(content) => content.data.color,
                    None => self.tile((q, r)).base_field_type.data.color,
                },
                self.tile((q, r)).visible,
            )
        } else {
            shown.text@ == "##"@ && shown.color == (255u8, 255u8, 255u8)
        }
    }

    /// The printed map, line by line: one line for each row of the grid, and
    /// in each line one place for each column from the smallest column of any
    /// row to the largest.
    pub fn get_colored_lines(&self) -> (res: Vec<Vec<ColoredText>>)
        requires
            self.wf(),
        ensures
            res@.len() == self.size,
            forall|r: int|
                0 <= r < self.size ==> (#[trigger] res@[r])@.len() == self.size + (self.size - 1)
                    / 2,
            forall|r: int, i: int|
                0 <= r < self.size && 0 <= i < self.size + (self.size - 1) / 2 ==> self.shows_at(
                    i - (self.size - 1) / 2,
                    r,
                    #[trigger] &res@[r]@[i],
                ),
    {
        let cords = Self::get_min_max_coords(self.size);
        let mut res: Vec<Vec<ColoredText>> = Vec::new();
        let mut r: i32 = cords.0;
        while r < cords.1
            invariant
                self.wf(),
                cords.0 == 0,
                cords.1 == self.size,
                cords.3 == self.size,
                self.size >= 1 ==> cords.2 == -((self.size - 1) / 2),
                0 <= r <= self.size,
                res@.len() == r,
                forall|row: int|
                    0 <= row < r ==> (#[trigger] res@[row])@.len() == self.size + (self.size - 1)
                        / 2,
                forall|row: int, i: int|
                    0 <= row < r && 0 <= i < self.size + (self.size - 1) / 2 ==> self.shows_at(
                        i - (self.size - 1) / 2,
                        row,
                        #[trigger] &res@[row]@[i],
                    ),
            decreases self.size - r,
        {
            let mut line: Vec<ColoredText> = Vec::new();
            let mut q: i32 = cords.2;
            while q < cords.3
                invariant
                    self.wf(),
                    self.size >= 1,
                    cords.2 == -((self.size - 1) / 2),
                    cords.3 == self.size,
                    0 <= r < self.size,
                    cords.2 <= q <= cords.3,
                    line@.len() == q - cords.2,
                    forall|i: int|
                        0 <= i < line@.len() ==> self.shows_at(
                            i - (self.size - 1) / 2,
                            r as int,
                            #[trigger] &line@[i],
                        ),
                decreases cords.3 - q,
            {
                let shown = match self.get(&TilePos { q, r }) {
                    Some(tile) => tile.get_colored_string(),
                    None => ColoredText { text: "##".to_owned(), color: (255, 255, 255) },
                };
                line.push(shown);
                q += 1;
            }
            res.push(line);
            r += 1;
        }
        res
    }

    /// The positions of a map of the given size, row after row.
    pub fn get_tile_positions_for_grid(size: u32) -> (res: Vec<TilePos>)
        requires
            size <= i32::MAX,
        ensures
            views(res@) == grid_rows(size as nat, size as nat),
    {
        let mut res: Vec<TilePos> = Vec::new();
        let mut r: u32 = 0;
        while r < size
            invariant
                size <= i32::MAX,
                r <= size,
                views(res@) == grid_rows(size as nat, r as nat),
            decreases size - r,
        {
            let ghost before = views(res@);
            let ghost row = grid_row(size as nat, r as int);
            let mut c: u32 = 0;
            while c < size
                invariant
                    size <= i32::MAX,
                    r < size,
                    c <= size,
                    row == grid_row(size as nat, r as int),
                    views(res@) == before + row.take(c as int),
                decreases size - c,
            {
                let ghost listed = res@;
                let pos = TilePos { q: c as i32 - (r / 2) as i32, r: r as i32 };
                res.push(pos);
                assert(views(res@) =~= views(listed).push(pos@));
                assert(row.take(c + 1) =~= row.take(c as int).push(row[c as int]));
                c += 1;
            }
            assert(row.take(size as int) =~= row);
            r += 1;
        }
        res
    }

    /// Whether some tile carries the content that has the id.
    pub fn check_if_exists_tile_with_field_content(&self, id: &str) -> (res: bool)
        requires
            self.wf(),
        ensures
            res == self.has_content(id@),
    {
        let mut r: usize = 0;
        while r < self.tiles.len()
            invariant
                self.wf(),
                r <= self.size,
                forall|row: int, column: int|
                    0 <= row < r && 0 <= column < self.size ==> !(
                    #[trigger] self.tiles@[row]@[column]).holds_content(id@),
            decreases self.size - r,
        {
            let mut c: usize = 0;
            while c < self.tiles[r].len()
                invariant
                    self.wf(),
                    r < self.size,
                    c <= self.size,
                    forall|column: int|
                        0 <= column < c ==> !(
                        #[trigger] self.tiles@[r as int]@[column]).holds_content(id@),
                decreases self.size - c,
            {
                match self.tiles[r][c].field_content {
                    Some(content) => {
                        if *content.id.as_str() == *id {
                            return true;
                        }
                    },
                    None => {},
                }
                c += 1;
            }
            r += 1;
        }
        false
    }

    /// Whether some tile carries a content of the build path.
    pub fn check_if_exists_tile_with_field_path(&self, path: &str) -> (res: bool)
        requires
            self.wf(),
        ensures
            res == self.has_path(path@),
    {
        let mut r: usize = 0;
        while r < self.tiles.len()
            invariant
                self.wf(),
                r <= self.size,
                forall|row: int, column: int|
                    0 <= row < r && 0 <= column < self.size ==> !(
                    #[trigger] self.tiles@[row]@[column]).holds_path(path@),
            decreases self.size - r,
        {
            let mut c: usize = 0;
            while c < self.tiles[r].len()
                invariant
                    self.wf(),
                    r < self.size,
                    c <= self.size,
                    forall|column: int|
                        0 <= column < c ==> !(
                        #[trigger] self.tiles@[r as int]@[column]).holds_path(path@),
                decreases self.size - c,
            {
                match self.tiles[r][c].field_content {
                    Some(content) => {
                        if *content.data.build_path.as_str() == *path {
                            return true;
                        }
                    },
                    None => {},
                }
                c += 1;
            }
            r += 1;
        }
        false
    }

    /// The place in `btt` of the origin terrain for a tile at which the noise
    /// field has height `h` and vegetation `v`.
    pub fn find_proper_resource(
        btt: &Vec<Resource<OriginFieldData>>,
        h: i64,
        v: i64,
        is_near: bool,
        enabled_near: &Vec<String>,
    ) -> (res: usize)
        requires
            btt@.len() > 0,
        ensures
            is_proper_origin(btt@, h as int, v as int, is_near, enabled_near@, res as int),
            res == proper_origin(btt@, h as int, v as int, is_near, enabled_near@),
    {
        let mut best: Option<usize> = None;
        let mut i: usize = 0;
        while i < btt.len()
            invariant
                i <= btt@.len(),
                match best {
                    Some(k) => {
                        &&& k < i
                        &&& qualifies(&btt@[k as int], h as int, v as int, is_near, enabled_near@)
                        &&& forall|j: int|
                            0 <= j < i && qualifies(
                                #[trigger] &btt@[j],
                                h as int,
                                v as int,
                                is_near,
                                enabled_near@,
                            ) ==> threshold_sum(&btt@[k as int]) < threshold_sum(&btt@[j]) || (
                            threshold_sum(&btt@[k as int]) == threshold_sum(&btt@[j]) && k <= j)
                    },
                    None => forall|j: int|
                        0 <= j < i ==> !qualifies(
                            #[trigger] &btt@[j],
                            h as int,
                            v as int,
                            is_near,
                            enabled_near@,
                        ),
                },
            decreases btt@.len() - i,
        {
            let origin = &btt[i];
            let allowed = !is_near || contains_id(enabled_near, origin.id.as_str());
            if allowed && h > origin.data.height && v > origin.data.vegetation {
                match best {
                    Some(k) => {
                        let held: i128 = btt[k].data.height as i128 + btt[k].data.vegetation as i128;
                        let found: i128 = origin.data.height as i128 + origin.data.vegetation as i128;
                        if found < held {
                            best = Some(i);
                        }
                    },
                    None => {
                        best = Some(i);
                    },
                }
            }
            i += 1;
        }
        let res = match best {
            Some(k) => k,
            None => 0,
        };
        proof {
            lemma_proper_origin_unique(btt@, h as int, v as int, is_near, enabled_near@, res as int);
        }
        res
    }
    /// Every tile of the map occurs among all its tiles.
    pub proof fn lemma_all_tiles_complete(&self, rows: nat, row: int, column: int)
        requires
            self.wf(),
            rows <= self.size,
            0 <= row < rows,
            0 <= column < self.size,
        ensures
            exists|i: int|
                0 <= i < self.rows_together(rows).len() && #[trigger] self.rows_together(rows)[i]
                    == &self.tiles@[row]@[column],
        decreases rows,
    {
        let line = self.tiles@[rows - 1]@.map_values(|tile: GameTile<'a>| &tile);
        let earlier = self.rows_together((rows - 1) as nat);
        if row == rows - 1 {
            assert(self.rows_together(rows)[earlier.len() + column] == line[column]);
        } else {
            self.lemma_all_tiles_complete((rows - 1) as nat, row, column);
            let i = choose|i: int|
                0 <= i < earlier.len() && #[trigger] earlier[i] == &self.tiles@[row]@[column];
            assert(self.rows_together(rows)[i] == earlier[i]);
        }
    }

    /// Every one of all the tiles is a tile of the map, at its own position.
    pub proof fn lemma_all_tiles_sound(&self, rows: nat, i: int)
        requires
            self.wf(),
            rows <= self.size,
            0 <= i < self.rows_together(rows).len(),
        ensures
            self.contains(self.rows_together(rows)[i].position@),
            self.tile(self.rows_together(rows)[i].position@) == self.rows_together(rows)[i],
        decreases rows,
    {
        let line = self.tiles@[rows - 1]@.map_values(|tile: GameTile<'a>| &tile);
        let earlier = self.rows_together((rows - 1) as nat);
        if i < earlier.len() {
            self.lemma_all_tiles_sound((rows - 1) as nat, i);
        } else {
            let column = i - earlier.len();
            assert(self.rows_together(rows)[i] == line[column]);
            assert(self.tiles@[rows - 1]@[column].position@ == grid_position(rows - 1, column));
        }
    }

    /// All tiles of the map, row after row.
    pub fn tiles_in_order<'b>(&'b self) -> (res: Vec<&'b GameTile<'a>>)
        requires
            self.wf(),
        ensures
            res@ == self.all_tiles(),
    {
        let mut res: Vec<&'b GameTile<'a>> = Vec::new();
        let mut r: usize = 0;
        while r < self.tiles.len()
            invariant
                r <= self.tiles@.len(),
                res@ == self.rows_together(r as nat),
            decreases self.tiles@.len() - r,
        {
            let line = &self.tiles[r];
            let ghost before = res@;
            let ghost row = line@.map_values(|tile: GameTile<'a>| &tile);
            let mut c: usize = 0;
            while c < line.len()
                invariant
                    c <= line@.len(),
                    row == line@.map_values(|tile: GameTile<'a>| &tile),
                    res@ == before + row.take(c as int),
                decreases line@.len() - c,
            {
                res.push(&line[c]);
                assert(row.take(c + 1) =~= row.take(c as int).push(row[c as int]));
                c += 1;
            }
            assert(row.take(line@.len() as int) =~= row);
            r += 1;
        }
        res
    }

    /// The tiles of the map at the listed positions, in their order.
    pub fn tiles_listed<'b>(&'b self, positions: &Vec<TilePos>) -> (res: Vec<&'b GameTile<'a>>)
        requires
            self.wf(),
        ensures
            res@ == self.tiles_on(views(positions@)),
    {
        let mut res: Vec<&GameTile<'a>> = Vec::new();
        let mut i: usize = 0;
        while i < positions.len()
            invariant
                self.wf(),
                i <= positions@.len(),
                res@ == self.tiles_on(views(positions@).take(i as int)),
            decreases positions@.len() - i,
        {
            assert(views(positions@).take(i + 1).drop_last() =~= views(positions@).take(
                i as int,
            ));
            match self.get(&positions[i]) {
                Some(tile) => {
                    res.push(tile);
                },
                None => {},
            }
            i += 1;
        }
        assert(views(positions@).take(positions@.len() as int) =~= views(positions@));
        res
    }

    /// The tiles next to a position.
    pub fn get_adjacent_tiles<'b>(&'b self, pos: &TilePos) -> (res: Vec<&'b GameTile<'a>>)
        requires
            self.wf(),
        ensures
            res@ == self.tiles_on(hex_adjacent(pos@)),
    {
        if pos.q <= i32::MIN || pos.q >= i32::MAX || pos.r <= i32::MIN || pos.r >= i32::MAX {
            proof {
                self.lemma_tiles_on_none(hex_adjacent(pos@));
            }
            return Vec::new();
        }
        let around = pos.adjacent_positions();
        let positions = vec![around[0], around[1], around[2], around[3], around[4], around[5]];
        assert(views(positions@) =~= views(around@));
        self.tiles_listed(&positions)
    }

    /// The tiles within `length` steps of a position of the map, in bands by
    /// distance: first the tile itself, then the tiles one step away, and so
    /// on up to `length` steps.
    pub fn get_tiles_in_range<'b>(&'b self, pos: &TilePos, length: u32) -> (res: Vec<
        Vec<&'b GameTile<'a>>,
    >)
        requires
            self.wf(),
            self.contains(pos@),
            length < usize::MAX,
        ensures
            res@.len() == length + 1,
            forall|b: int| 0 <= b <= length ==> (#[trigger] res@[b])@ == self.band(pos@, b as nat),
    {
        let mut res: Vec<Vec<&GameTile<'a>>> = Vec::new();
        res.push(vec![self.get_tile(pos)]);
        let mut i: u32 = 0;
        while i < length
            invariant
                self.wf(),
                self.contains(pos@),
                i <= length,
                res@.len() == i + 1,
                forall|b: int| 0 <= b <= i ==> (#[trigger] res@[b])@ == self.band(pos@, b as nat),
            decreases length - i,
        {
            i += 1;
            if i as u64 >= 3 * (self.size as u64) {
                proof {
                    self.lemma_far_band_empty(pos@, i as nat);
                }
                res.push(Vec::new());
            } else {
                let around = pos.positions_in_distance(i);
                res.push(self.tiles_listed(&around));
            }
        }
        res
    }

    /// The tiles within `length` steps of a position of the map, nearest first.
    pub fn get_tiles_in_range_together<'b>(&'b self, pos: &TilePos, length: u32) -> (res: Vec<
        &'b GameTile<'a>,
    >)
        requires
            self.wf(),
            self.contains(pos@),
        ensures
            res@ == self.bands_together(pos@, (length + 1) as nat),
    {
        let farthest: u32 = 3 * self.size - 1;
        let reach = if length < farthest {
            length
        } else {
            farthest
        };
        proof {
            self.lemma_bands_beyond(pos@, (reach + 1) as nat, (length + 1) as nat);
        }
        let bands = self.get_tiles_in_range(pos, reach);
        let mut res: Vec<&GameTile<'a>> = Vec::new();
        let mut b: usize = 0;
        while b < bands.len()
            invariant
                bands@.len() == reach + 1,
                forall|k: int|
                    0 <= k <= reach ==> (#[trigger] bands@[k])@ == self.band(pos@, k as nat),
                b <= bands@.len(),
                res@ == self.bands_together(pos@, b as nat),
            decreases bands@.len() - b,
        {
            let band = &bands[b];
            let ghost before = res@;
            let mut j: usize = 0;
            while j < band.len()
                invariant
                    j <= band@.len(),
                    res@ == before + band@.take(j as int),
                decreases band@.len() - j,
            {
                res.push(band[j]);
                assert(band@.take(j + 1) =~= band@.take(j as int).push(band@[j as int]));
                j += 1;
            }
            assert(band@.take(band@.len() as int) =~= band@);
            b += 1;
        }
        res
    }

    /// Whether the noise field has one sample for every tile of a map of the size.
    pub fn check_noise(size: u32, noise: &Vec<Vec<(i64, i64)>>) -> (res: bool)
        ensures
            res == noise_fits(size as int, noise@),
    {
        if noise.len() != size as usize {
            return false;
        }
        let mut r: usize = 0;
        while r < noise.len()
            invariant
                noise@.len() == size,
                r <= noise@.len(),
                forall|row: int| 0 <= row < r ==> (#[trigger] noise@[row])@.len() == size,
            decreases noise@.len() - r,
        {
            if noise[r].len() != size as usize {
                return false;
            }
            r += 1;
        }
        true
    }

    /// Generates the map of the given size from a noise field: `noise[r][c]`
    /// holds the height and the vegetation sampled for the tile in row `r` and
    /// column `c` of the grid. A map that cannot be generated is left as it is.
    pub fn generate(&mut self, size: u32, noise: &Vec<Vec<(i64, i64)>>) -> (res: Result<
        (),
        GameError,
    >)
        ensures
            res matches Err(e) ==> e.says_why(),
            final(self).resource_manager == old(self).resource_manager,
            match res {
                Ok(()) => {
                    &&& Self::generation_fault(old(self).resource_manager, size as int, noise@)
                        is None
                    &&& final(self).is_generated(size as int, noise@)
                },
                Err(e) => {
                    &&& Self::generation_fault(old(self).resource_manager, size as int, noise@)
                        == Some(e.kind)
                    &&& *final(self) == *old(self)
                },
            },
    {
        let rm = self.resource_manager;
        let globals = match rm.get_globals() {
            Ok(globals) => globals,
            Err(e) => {
                return Err(e);
            },
        };
        if size == 0 || size > MAX_MAP_SIZE || !Self::check_noise(size, noise) {
            return Err(GameError::of(GameFault::BadMapSize));
        }
        if rm.origin_fields.len() == 0 {
            return Err(GameError::of(GameFault::NoOrigin));
        }
        let middle = match rm.get_field_type(globals.data.map_middle.as_str()) {
            Ok(middle) => middle,
            Err(e) => {
                return Err(e);
            },
        };
        let mid = TilePos { q: (size / 4) as i32, r: (size / 2) as i32 };
        let mut tiles: Vec<Vec<GameTile<'a>>> = Vec::new();
        let mut r: u32 = 0;
        while r < size
            invariant
                1 <= size <= MAX_MAP_SIZE,
                noise_fits(size as int, noise@),
                rm.globals@.len() > 0,
                *globals == rm.globals@[0],
                rm.origin_fields@.len() > 0,
                place_of_id(rm.field_types@, globals.data.map_middle@) matches Some(at)
                    && rm.field_types@[at] == *middle,
                mid@ == mid_position(size as int),
                r <= size,
                tiles@.len() == r,
                forall|row: int| 0 <= row < r ==> (#[trigger] tiles@[row])@.len() == size,
                forall|row: int, column: int|
                    0 <= row < r && 0 <= column < size ==> #[trigger] tiles@[row]@[column]
                        == Self::generated_tile(rm, size as int, noise@, row, column),
            decreases size - r,
        {
            let mut line: Vec<GameTile<'a>> = Vec::new();
            let mut c: u32 = 0;
            while c < size
                invariant
                    1 <= size <= MAX_MAP_SIZE,
                    noise_fits(size as int, noise@),
                    rm.globals@.len() > 0,
                    *globals == rm.globals@[0],
                    rm.origin_fields@.len() > 0,
                    place_of_id(rm.field_types@, globals.data.map_middle@) matches Some(at)
                        && rm.field_types@[at] == *middle,
                    mid@ == mid_position(size as int),
                    r < size,
                    c <= size,
                    line@.len() == c,
                    forall|column: int|
                        0 <= column < c ==> #[trigger] line@[column] == Self::generated_tile(
                            rm,
                            size as int,
                            noise@,
                            r as int,
                            column,
                        ),
                decreases size - c,
            {
                let pos = TilePos { q: c as i32 - (r / 2) as i32, r: r as i32 };
                proof {
                    lemma_mid_on_grid(size as int);
                    lemma_grid_diameter(size as int, pos@, mid@);
                }
                let away = pos.distance(&mid);
                let sample = noise[r as usize][c as usize];
                let origin = Self::find_proper_resource(
                    &rm.origin_fields,
                    sample.0,
                    sample.1,
                    away <= 1,
                    &globals.data.map_near_mid_enable,
                );
                let tile = GameTile {
                    position: pos,
                    base_field_type: &rm.origin_fields[origin],
                    field_content: if pos == mid {
                        Some(middle)
                    } else {
                        None
                    },
                    visible: away <= globals.data.map_visible_on_start,
                    quest_completed_till_last_build: false,
                    resource_manager: rm,
                };
                assert(tile == Self::generated_tile(rm, size as int, noise@, r as int, c as int));
                line.push(tile);
                c += 1;
            }
            tiles.push(line);
            r += 1;
        }
        self.size = size;
        self.tiles = tiles;
        Ok(())
    }

    /// Puts the content on the tile at a position of the map and clears the
    /// quest flag of the tile. Every other tile is as before.
    pub fn put_field_content(&mut self, pos: &TilePos, content: &'a Resource<FieldTypeData>)
        requires
            old(self).wf(),
            old(self).contains(pos@),
        ensures
            final(self).wf(),
            final(self).size == old(self).size,
            final(self).resource_manager == old(self).resource_manager,
            *final(self).tile(pos@) == (GameTile {
                field_content: Some(content),
                quest_completed_till_last_build: false,
                ..*old(self).tile(pos@)
            }),
            forall|p: (int, int)|
                old(self).contains(p) && p != pos@ ==> final(self).tile(p) == old(self).tile(p),
    {
        let row = pos.r as usize;
        let column = (pos.q as i64 + (pos.r as i64) / 2) as usize;
        self.tiles[row][column].field_content = Some(content);
        self.tiles[row][column].quest_completed_till_last_build = false;
        assert forall|p: (int, int)| old(self).contains(p) && p != pos@ implies self.tile(p)
            == old(self).tile(p) by {
            assert(p.1 != row || grid_column(p) != column);
        }
    }

    /// Replaces the content of the tile at a position of the map by the
    /// build-content that has the id, and clears the quest flag of the tile.
    /// The map is left as it is if the catalog has no such content.
    pub fn set_field_content(&mut self, pos: &TilePos, id: &str) -> (res: Result<(), GameError>)
        requires
            old(self).wf(),
            old(self).contains(pos@),
        ensures
            res matches Err(e) ==> e.says_why(),
            final(self).wf(),
            final(self).size == old(self).size,
            final(self).resource_manager == old(self).resource_manager,
            match res {
                Ok(()) => {
                    &&& place_of_id(
                        old(self).tile(pos@).resource_manager.field_types@,
                        id@,
                    ) matches Some(at)
                    &&& *final(self).tile(pos@) == (GameTile {
                        field_content: Some(
                            &old(self).tile(pos@).resource_manager.field_types@[at],
                        ),
                        quest_completed_till_last_build: false,
                        ..*old(self).tile(pos@)
                    })
                    &&& forall|p: (int, int)|
                        old(self).contains(p) && p != pos@ ==> final(self).tile(p) == old(
                            self,
                        ).tile(p)
                },
                Err(e) => {
                    &&& place_of_id(old(self).tile(pos@).resource_manager.field_types@, id@)
                        is None
                    &&& e.kind == GameFault::MissingResource
                    &&& *final(self) == *old(self)
                },
            },
    {
        let row = pos.r as usize;
        let column = (pos.q as i64 + (pos.r as i64) / 2) as usize;
        match self.tiles[row][column].resource_manager.get_field_type(id) {
            Ok(content) => {
                self.tiles[row][column].field_content = Some(content);
                self.tiles[row][column].quest_completed_till_last_build = false;
                assert forall|p: (int, int)| old(self).contains(p) && p != pos@ implies self.tile(
                    p,
                ) == old(self).tile(p) by {
                    assert(p.1 != row || grid_column(p) != column);
                }
                Ok(())
            },
            Err(e) => Err(e),
        }
    }
}

} // verus!
