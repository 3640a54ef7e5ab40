use vstd::prelude::*;

use crate::text::{parse_u64, u64_numeral};

verus! {

/// The radius of the hexagonal tile world around the origin.
pub const WORLD_HALF_RADIUS: u32 = 3;

/// Axial coordinate of a hexagon in the tile world.
#[derive(Debug, Clone, Copy, PartialEq, Eq, Hash, Structural)]
pub struct TileCoord {
    pub q: i32,
    pub r: i32,
}

impl TileCoord {
    /// The origin of the tile world.
    pub fn zero() -> (coord: TileCoord)
        ensures
            coord == (TileCoord { q: 0, r: 0 }),
    {
        TileCoord { q: 0, r: 0 }
    }

    pub fn new(q: i32, r: i32) -> (coord: TileCoord)
        ensures
            coord == (TileCoord { q, r }),
    {
        TileCoord { q, r }
    }

    pub fn q(self) -> (q: i32)
        ensures
            q == self.q,
    {
        self.q
    }

    pub fn r(self) -> (r: i32)
        ensures
            r == self.r,
    {
        self.r
    }
}

pub open spec fn origin() -> TileCoord {
    TileCoord { q: 0, r: 0 }
}

pub open spec fn abs(x: int) -> int {
    if x < 0 {
        -x
    } else {
        x
    }
}

pub open spec fn max3(a: int, b: int, c: int) -> int {
    if a >= b && a >= c {
        a
    } else if b >= c {
        b
    } else {
        c
    }
}

/// The number of steps between two hexagons: the largest of the three cube-coordinate
/// differences.
pub open spec fn hex_distance(a: TileCoord, b: TileCoord) -> int {
    let dq = a.q - b.q;
    let dr = a.r - b.r;
    max3(abs(dq), abs(dr), abs(dq + dr))
}

/// The distance computation of `hexx` on these two coordinates stays inside `i32`.
pub open spec fn distance_fits(a: TileCoord, b: TileCoord) -> bool {
    let dq = a.q - b.q;
    let dr = a.r - b.r;
    &&& i32::MIN < dq <= i32::MAX
    &&& i32::MIN < dr <= i32::MAX
    &&& i32::MIN <= -dq - dr <= i32::MAX
}

/// The six neighbours of a hexagon, in the order in which `hexx` walks its ring of radius one.
pub open spec fn neighbors_spec(c: TileCoord) -> Seq<TileCoord> {
    seq![
        TileCoord { q: (c.q + 1) as i32, r: c.r },
        TileCoord { q: c.q, r: (c.r + 1) as i32 },
        TileCoord { q: (c.q - 1) as i32, r: (c.r + 1) as i32 },
        TileCoord { q: (c.q - 1) as i32, r: c.r },
        TileCoord { q: c.q, r: (c.r - 1) as i32 },
        TileCoord { q: (c.q + 1) as i32, r: (c.r - 1) as i32 },
    ]
}

/// Whether a coordinate lies in the playable world.
pub open spec fn in_world(c: TileCoord) -> bool {
    hex_distance(origin(), c) <= WORLD_HALF_RADIUS
}

/// Whether `coord` lies within `radius` steps of `center`.
///
/// Trusted: calls `hexx::HexBounds::is_in_bounds` on `HexBounds::new(center, radius)`; hexx
/// computes `center.unsigned_distance_to(coord) <= radius`, where the distance is the largest
/// absolute cube-coordinate difference. The `requires` keeps its subtractions inside `i32`.
#[verifier::external_body]
fn hex_in_bounds(center: TileCoord, radius: u32, coord: TileCoord) -> (inside: bool)
    requires
        distance_fits(center, coord),
    ensures
        inside == (hex_distance(center, coord) <= radius),
{
    hexx::HexBounds::new(hexx::Hex::new(center.q, center.r), radius).is_in_bounds(
        hexx::Hex::new(coord.q, coord.r),
    )
}

/// The ring of radius one around `center`.
///
/// Trusted: calls `hexx::Hex::ring(1)`, which starts at `center + (1, 0)` and walks the six
/// neighbour offsets `(1,0) (0,1) (-1,1) (-1,0) (0,-1) (1,-1)` in that order; each item is
/// converted field by field. The `requires` keeps the additions inside `i32`.
#[verifier::external_body]
pub(crate) fn hex_ring_one(center: TileCoord) -> (ring: Vec<TileCoord>)
    requires
        i32::MIN < center.q < i32::MAX,
        i32::MIN < center.r < i32::MAX,
    ensures
        ring@ == neighbors_spec(center),
{
    hexx::Hex::new(center.q, center.r).ring(1).map(|h| TileCoord { q: h.x, r: h.y }).collect()
}

/// Whether `coord` lies in the playable world (within three steps of the origin).
pub fn tile_is_in_world(coord: TileCoord) -> (inside: bool)
    ensures
        inside == in_world(coord),
{
    if coord.q < -4 || coord.q > 4 || coord.r < -4 || coord.r > 4 {
        false
    } else {
        hex_in_bounds(TileCoord::zero(), WORLD_HALF_RADIUS, coord)
    }
}

/// What a tile holds.
#[derive(Debug, Clone, Copy, PartialEq, Eq, Hash, Structural)]
pub enum TileKind {
    Empty,
    Tree,
    Stone,
    Wheat,
}

/// The kind that a random draw selects: the draw modulo four picks one of the four kinds.
pub open spec fn kind_of_roll(roll: u32) -> TileKind {
    if roll % 4 == 0 {
        TileKind::Empty
    } else if roll % 4 == 1 {
        TileKind::Tree
    } else if roll % 4 == 2 {
        TileKind::Stone
    } else {
        TileKind::Wheat
    }
}

/// The lower-case name under which the probe reports a kind.
pub open spec fn kind_name(kind: TileKind) -> Seq<char> {
    match kind {
        TileKind::Empty => "empty"@,
        TileKind::Tree => "tree"@,
        TileKind::Stone => "stone"@,
        TileKind::Wheat => "wheat"@,
    }
}

/// Declares `bevy_rand`'s WyRand generator to the verifier as an opaque type, so that it can be
/// carried through the functions that draw from it.
#[verifier::external_type_specification]
#[verifier::external_body]
pub struct ExWyRand(bevy_rand::prelude::WyRand);

/// The next 32-bit draw of the random number generator.
///
/// Trusted: calls `rand_core::Rng::next_u32` on the WyRand generator, which advances its state.
/// Nothing is stated of the value: it depends on the generator's hidden state.
#[verifier::external_body]
pub(crate) fn next_roll(rng: &mut bevy_rand::prelude::WyRand) -> (roll: u32) {
    rand_core::Rng::next_u32(rng)
}

impl TileKind {
    /// The kind that a draw of the random number generator selects.
    pub fn from_roll(roll: u32) -> (kind: TileKind)
        ensures
            kind == kind_of_roll(roll),
    {
        match roll % 4 {
            0 => TileKind::Empty,
            1 => TileKind::Tree,
            2 => TileKind::Stone,
            _ => TileKind::Wheat,
        }
    }

    /// Draws a kind from the random number generator.
    pub fn random(rng: &mut bevy_rand::prelude::WyRand) -> (kind: TileKind)
        ensures
            exists|roll: u32| kind == kind_of_roll(roll),
    {
        let roll = next_roll(rng);
        TileKind::from_roll(roll)
    }

    /// The lower-case name of the kind.
    pub fn name(self) -> (name: &'static str)
        ensures
            name@ == kind_name(self),
    {
        match self {
            TileKind::Empty => "empty",
            TileKind::Tree => "tree",
            TileKind::Stone => "stone",
            TileKind::Wheat => "wheat",
        }
    }
}

/// The seed of the world's random number generator, from the value of its environment
/// variable: none when the variable is unset, otherwise the number it holds. A value that is not
/// a `u64` numeral is a configuration error that the caller reports before asking.
pub fn seed_from_env(raw: Option<&str>) -> (seed: Option<u64>)
    requires
        raw matches Some(r) ==> u64_numeral(r@) is Some,
    ensures
        seed == (match raw {
            Some(r) => u64_numeral(r@),
            None => None,
        }),
{
    match raw {
        Some(r) => parse_u64(r),
        None => None,
    }
}

/// Each kind is recorded under the lower-case name of its variant, and distinct kinds under
/// distinct names, so a record tells the kinds apart.
pub proof fn lemma_kind_names(a: TileKind, b: TileKind)
    ensures
        kind_name(a) == kind_name(b) ==> a == b,
        kind_name(TileKind::Empty) == "empty"@,
        kind_name(TileKind::Tree) == "tree"@,
        kind_name(TileKind::Stone) == "stone"@,
        kind_name(TileKind::Wheat) == "wheat"@,
{
    reveal_strlit("empty");
    reveal_strlit("tree");
    reveal_strlit("stone");
    reveal_strlit("wheat");
    if kind_name(a) == kind_name(b) && a != b {
        let x = kind_name(a);
        let y = kind_name(b);
        assert(x.len() == y.len());
        assert(x[0] == y[0]);
        assert(x[1] == y[1]);
    }
}

} // verus!
