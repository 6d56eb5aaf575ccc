//! Declarative tile alphabets and their derived compatibility matrix.
//!
//! A tile variant declares, for each of the four directions, a weighted
//! list of socket labels it accepts on that side. Two variants are
//! compatible in a direction exactly when the first's socket list for that
//! direction shares a label with the second's list for the opposite
//! direction. The matrix is built once, before any solve; a variant with an
//! empty socket list on every direction is a configuration error caught
//! here (weights are declared data the solver does not yet sample by; see
//! the solver module).

use vstd::prelude::*;

use crate::color::Rgba;

verus! {

/// One of the four cardinal neighbor directions of a grid cell.
#[derive(Clone, Copy, Debug, PartialEq, Eq, Structural)]
pub enum Direction {
    North,
    South,
    East,
    West,
}

pub open spec fn opposite_spec(d: Direction) -> Direction {
    match d {
        Direction::North => Direction::South,
        Direction::South => Direction::North,
        Direction::East => Direction::West,
        Direction::West => Direction::East,
    }
}

/// Fixed position of a direction in direction-indexed tables.
pub open spec fn dir_index_spec(d: Direction) -> int {
    match d {
        Direction::North => 0,
        Direction::South => 1,
        Direction::East => 2,
        Direction::West => 3,
    }
}

/// The direction stored at a table position.
pub open spec fn dir_of_index_spec(i: int) -> Direction {
    if i == 0 {
        Direction::North
    } else if i == 1 {
        Direction::South
    } else if i == 2 {
        Direction::East
    } else {
        Direction::West
    }
}

pub open spec fn dx_spec(d: Direction) -> int {
    match d {
        Direction::East => 1,
        Direction::West => -1,
        _ => 0,
    }
}

pub open spec fn dy_spec(d: Direction) -> int {
    match d {
        Direction::South => 1,
        Direction::North => -1,
        _ => 0,
    }
}

impl Direction {
    /// The direction pointing the other way.
    pub fn opposite(self) -> (r: Direction)
        ensures
            r == opposite_spec(self),
    {
        match self {
            Direction::North => Direction::South,
            Direction::South => Direction::North,
            Direction::East => Direction::West,
            Direction::West => Direction::East,
        }
    }

    /// Horizontal step of this direction.
    pub fn dx(self) -> (r: isize)
        ensures
            r == dx_spec(self),
    {
        match self {
            Direction::East => 1,
            Direction::West => -1,
            _ => 0,
        }
    }

    /// Vertical step of this direction.
    pub fn dy(self) -> (r: isize)
        ensures
            r == dy_spec(self),
    {
        match self {
            Direction::South => 1,
            Direction::North => -1,
            _ => 0,
        }
    }

    /// Position of this direction in direction-indexed tables.
    pub fn index(self) -> (r: usize)
        ensures
            r == dir_index_spec(self),
    {
        match self {
            Direction::North => 0,
            Direction::South => 1,
            Direction::East => 2,
            Direction::West => 3,
        }
    }
}

/// One member of a tile alphabet: per direction, the weighted socket
/// labels it accepts on that side.
#[derive(Debug)]
pub struct TileVariant {
    pub north: Vec<(u32, u32)>,
    pub south: Vec<(u32, u32)>,
    pub east: Vec<(u32, u32)>,
    pub west: Vec<(u32, u32)>,
}

/// The socket list a variant declares for a direction.
pub open spec fn socket_list_spec(v: TileVariant, d: Direction) -> Seq<(u32, u32)> {
    match d {
        Direction::North => v.north@,
        Direction::South => v.south@,
        Direction::East => v.east@,
        Direction::West => v.west@,
    }
}

impl TileVariant {
    /// The socket list this variant declares for a direction.
    pub fn sockets(&self, dir: Direction) -> (r: &Vec<(u32, u32)>)
        ensures
            r@ == socket_list_spec(*self, dir),
    {
        match dir {
            Direction::North => &self.north,
            Direction::South => &self.south,
            Direction::East => &self.east,
            Direction::West => &self.west,
        }
    }

    /// A variant whose socket list is empty on every direction can never
    /// sit next to anything; it is a configuration error.
    pub open spec fn malformed(self) -> bool {
        self.north@.len() == 0 && self.south@.len() == 0 && self.east@.len() == 0
            && self.west@.len() == 0
    }
}

/// A finite tile alphabet.
#[derive(Debug)]
pub struct TileSet {
    pub variants: Vec<TileVariant>,
}

/// Two socket lists share a label.
pub open spec fn lists_intersect_spec(a: Seq<(u32, u32)>, b: Seq<(u32, u32)>) -> bool {
    exists|i: int, j: int| #![trigger a[i], b[j]] 0 <= i < a.len() && 0 <= j < b.len() && a[i].0 == b[j].0
}

/// Whether two socket lists share a label, ignoring weights.
pub fn intersects(a: &Vec<(u32, u32)>, b: &Vec<(u32, u32)>) -> (r: bool)
    ensures
        r == lists_intersect_spec(a@, b@),
{
    let na = a.len();
    let nb = b.len();
    for i in 0..na
        invariant
            na == a@.len(),
            nb == b@.len(),
            forall|i0: int, j0: int|
                #![trigger a@[i0], b@[j0]]
                0 <= i0 < i && 0 <= j0 < nb ==> a@[i0].0 != b@[j0].0,
    {
        for j in 0..nb
            invariant
                na == a@.len(),
                nb == b@.len(),
                i < na,
                forall|i0: int, j0: int|
                    #![trigger a@[i0], b@[j0]]
                    0 <= i0 < i && 0 <= j0 < nb ==> a@[i0].0 != b@[j0].0,
                forall|j0: int| 0 <= j0 < j ==> a@[i as int].0 != (#[trigger] b@[j0]).0,
        {
            if a[i].0 == b[j].0 {
                return true;
            }
        }
    }
    false
}

/// Variants `i` and `j` of the alphabet may sit adjacent with `j` on the
/// `d` side of `i`.
pub open spec fn compat_spec(ts: TileSet, d: Direction, i: int, j: int) -> bool {
    lists_intersect_spec(
        socket_list_spec(ts.variants@[i], d),
        socket_list_spec(ts.variants@[j], opposite_spec(d)),
    )
}

/// A malformed tile alphabet, found while building the compatibility
/// matrix: the named variant declares no socket on any direction.
#[derive(Clone, Copy, Debug)]
pub struct TileSetError {
    pub variant: usize,
}

/// The per-direction adjacency tables derived from a tile alphabet:
/// `table(d)[i][j]` holds iff variant `i` accepts variant `j` on its `d`
/// side.
#[derive(Debug)]
pub struct CompatibilityMatrix {
    pub n: usize,
    pub tables: Vec<Vec<Vec<bool>>>,
}

impl CompatibilityMatrix {
    /// Four tables, each `n` by `n`.
    pub open spec fn wf(self) -> bool {
        &&& self.tables@.len() == 4
        &&& forall|d: int| 0 <= d < 4 ==> (#[trigger] self.tables@[d])@.len() == self.n
        &&& forall|d: int, i: int|
            0 <= d < 4 && 0 <= i < self.n ==> ((#[trigger] self.tables@[d]@[i])@.len() == self.n)
    }

    /// The stored compatibility bit.
    pub open spec fn compat(self, d: Direction, i: int, j: int) -> bool {
        self.tables@[dir_index_spec(d)]@[i]@[j]
    }

    /// The matrix mirrors the alphabet's socket declarations.
    pub open spec fn derived_from(self, ts: TileSet) -> bool {
        &&& self.n == ts.variants@.len()
        &&& forall|d: Direction, i: int, j: int|
            0 <= i < self.n && 0 <= j < self.n ==> #[trigger] self.compat(d, i, j) == compat_spec(
                ts,
                d,
                i,
                j,
            )
    }

    /// Build the matrix for an alphabet, failing fast on the first variant
    /// that declares no socket on any direction.
    pub fn build(ts: &TileSet) -> (r: Result<CompatibilityMatrix, TileSetError>)
        ensures
            r matches Ok(cm) ==> cm.wf() && cm.derived_from(*ts),
            r is Err <==> exists|k: int|
                0 <= k < ts.variants@.len() && (#[trigger] ts.variants@[k]).malformed(),
            r matches Err(e) ==> e.variant < ts.variants@.len() && ts.variants@[
                e.variant as int
            ].malformed() && forall|k: int|
                0 <= k < e.variant ==> !(#[trigger] ts.variants@[k]).malformed(),
    {
        let n = ts.variants.len();
        for k in 0..n
            invariant
                n == ts.variants@.len(),
                forall|k0: int| 0 <= k0 < k ==> !(#[trigger] ts.variants@[k0]).malformed(),
        {
            let v = &ts.variants[k];
            if v.north.len() == 0 && v.south.len() == 0 && v.east.len() == 0 && v.west.len() == 0 {
                return Err(TileSetError { variant: k });
            }
        }
        let mut tables: Vec<Vec<Vec<bool>>> = Vec::new();
        for d in 0..4usize
            invariant
                n == ts.variants@.len(),
                tables@.len() == d,
                forall|d0: int| 0 <= d0 < d ==> (#[trigger] tables@[d0])@.len() == n,
                forall|d0: int, i0: int|
                    0 <= d0 < d && 0 <= i0 < n ==> ((#[trigger] tables@[d0]@[i0])@.len() == n),
                forall|d0: int, i0: int, j0: int|
                    0 <= d0 < d && 0 <= i0 < n && 0 <= j0 < n ==> (#[trigger] tables@[d0]@[i0]@[j0])
                        == compat_spec(*ts, dir_of_index_spec(d0), i0, j0),
        {
            let dir = if d == 0 {
                Direction::North
            } else if d == 1 {
                Direction::South
            } else if d == 2 {
                Direction::East
            } else {
                Direction::West
            };
            let mut table: Vec<Vec<bool>> = Vec::new();
            for i in 0..n
                invariant
                    n == ts.variants@.len(),
                    dir == dir_of_index_spec(d as int),
                    table@.len() == i,
                    forall|i0: int| 0 <= i0 < i ==> (#[trigger] table@[i0])@.len() == n,
                    forall|i0: int, j0: int|
                        0 <= i0 < i && 0 <= j0 < n ==> (#[trigger] table@[i0]@[j0]) == compat_spec(
                            *ts,
                            dir_of_index_spec(d as int),
                            i0,
                            j0,
                        ),
            {
                let mut row: Vec<bool> = Vec::new();
                for j in 0..n
                    invariant
                        n == ts.variants@.len(),
                        dir == dir_of_index_spec(d as int),
                        i < n,
                        row@.len() == j,
                        forall|j0: int|
                            0 <= j0 < j ==> (#[trigger] row@[j0]) == compat_spec(
                                *ts,
                                dir_of_index_spec(d as int),
                                i as int,
                                j0,
                            ),
                {
                    let c = intersects(
                        ts.variants[i].sockets(dir),
                        ts.variants[j].sockets(dir.opposite()),
                    );
                    row.push(c);
                }
                table.push(row);
            }
            tables.push(table);
        }
        let cm = CompatibilityMatrix { n, tables };
        proof {
            assert forall|d: Direction, i: int, j: int|
                0 <= i < cm.n && 0 <= j < cm.n implies #[trigger] cm.compat(d, i, j) == compat_spec(
                *ts,
                d,
                i,
                j,
            ) by {
                assert(dir_of_index_spec(dir_index_spec(d)) == d);
            }
        }
        Ok(cm)
    }
}

/// Socket labels of the overworld decoration alphabet.
#[derive(Clone, Copy, Debug, PartialEq, Eq, Structural)]
pub enum SocketType {
    Grass,
    Rose,
    Dandelion,
    Tree,
}

pub open spec fn socket_type_label_spec(s: SocketType) -> u32 {
    match s {
        SocketType::Grass => 0u32,
        SocketType::Rose => 1u32,
        SocketType::Dandelion => 2u32,
        SocketType::Tree => 3u32,
    }
}

impl SocketType {
    /// The integer label this socket carries in a tile alphabet.
    pub fn label(self) -> (r: u32)
        ensures
            r == socket_type_label_spec(self),
    {
        match self {
            SocketType::Grass => 0,
            SocketType::Rose => 1,
            SocketType::Dandelion => 2,
            SocketType::Tree => 3,
        }
    }
}

/// The overworld decoration alphabet, in solver index order.
#[derive(Clone, Copy, Debug, PartialEq, Eq, Structural)]
pub enum Slate {
    Grass,
    Rose,
    Dandelion,
    Tree,
}

pub open spec fn slate_index_spec(s: Slate) -> int {
    match s {
        Slate::Grass => 0,
        Slate::Rose => 1,
        Slate::Dandelion => 2,
        Slate::Tree => 3,
    }
}

pub open spec fn slate_of_index_spec(i: int) -> Slate {
    if i == 0 {
        Slate::Grass
    } else if i == 1 {
        Slate::Rose
    } else if i == 2 {
        Slate::Dandelion
    } else {
        Slate::Tree
    }
}

/// The weighted socket list a slate declares on every one of its four
/// sides (the declarations are symmetric in direction).
pub open spec fn slate_socket_seq(i: int) -> Seq<(u32, u32)> {
    if i == 0 {
        seq![(0u32, 95u32), (1u32, 2u32), (2u32, 3u32)]
    } else if i == 1 {
        seq![(1u32, 2u32)]
    } else if i == 2 {
        seq![(2u32, 5u32)]
    } else {
        seq![(3u32, 5u32), (0u32, 2u32)]
    }
}

pub open spec fn slate_color_spec(s: Slate) -> Rgba {
    match s {
        Slate::Grass => Rgba([34, 139, 34, 255]),
        Slate::Rose => Rgba([220, 20, 60, 255]),
        Slate::Dandelion => Rgba([255, 215, 0, 255]),
        Slate::Tree => Rgba([0, 100, 0, 255]),
    }
}

impl Slate {
    /// Solver index of this slate.
    pub fn index(self) -> (r: u32)
        ensures
            r == slate_index_spec(self),
            r < 4,
    {
        match self {
            Slate::Grass => 0,
            Slate::Rose => 1,
            Slate::Dandelion => 2,
            Slate::Tree => 3,
        }
    }

    /// The slate at a solver index.
    pub fn from_index(i: u32) -> (r: Slate)
        requires
            i < 4,
        ensures
            r == slate_of_index_spec(i as int),
    {
        if i == 0 {
            Slate::Grass
        } else if i == 1 {
            Slate::Rose
        } else if i == 2 {
            Slate::Dandelion
        } else {
            Slate::Tree
        }
    }

    /// Render color of this slate.
    pub fn get_color(&self) -> (c: Rgba)
        ensures
            c == slate_color_spec(*self),
    {
        match self {
            Slate::Grass => Rgba([34, 139, 34, 255]),
            Slate::Rose => Rgba([220, 20, 60, 255]),
            Slate::Dandelion => Rgba([255, 215, 0, 255]),
            Slate::Tree => Rgba([0, 100, 0, 255]),
        }
    }
}

fn slate_socket_list(i: u32) -> (v: Vec<(u32, u32)>)
    requires
        i < 4,
    ensures
        v@ == slate_socket_seq(i as int),
{
    let mut v: Vec<(u32, u32)> = Vec::new();
    if i == 0 {
        v.push((0, 95));
        v.push((1, 2));
        v.push((2, 3));
    } else if i == 1 {
        v.push((1, 2));
    } else if i == 2 {
        v.push((2, 5));
    } else {
        v.push((3, 5));
        v.push((0, 2));
    }
    proof {
        assert(v@ =~= slate_socket_seq(i as int));
    }
    v
}

/// The declared tile alphabet of the overworld decoration layer: each
/// slate accepts the same weighted socket list on all four sides.
pub fn slate_tile_set() -> (ts: TileSet)
    ensures
        ts.variants@.len() == 4,
        forall|i: int, d: Direction|
            0 <= i < 4 ==> #[trigger] socket_list_spec(ts.variants@[i], d) == slate_socket_seq(i),
{
    let mut variants: Vec<TileVariant> = Vec::new();
    for i in 0..4u32
        invariant
            variants@.len() == i,
            forall|i0: int, d: Direction|
                0 <= i0 < i ==> #[trigger] socket_list_spec(variants@[i0], d) == slate_socket_seq(
                    i0,
                ),
    {
        let variant = TileVariant {
            north: slate_socket_list(i),
            south: slate_socket_list(i),
            east: slate_socket_list(i),
            west: slate_socket_list(i),
        };
        variants.push(variant);
    }
    TileSet { variants }
}

} // verus!
