use vstd::prelude::*;

use crate::tile::{abs, max3};

verus! {

broadcast use vstd::seq_lib::group_seq_properties;

/// A hexagon in cube coordinates.
#[derive(Debug, Clone, Copy, PartialEq, Eq, Structural)]
pub struct Cube {
    pub x: i32,
    pub y: i32,
    pub z: i32,
}

/// A hexagon in axial coordinates.
#[derive(Debug, Clone, Copy, PartialEq, Eq, Structural)]
pub struct Axial {
    pub x: i32,
    pub y: i32,
}

/// The six directions between neighbouring hexagons, in the order in which a ring walks them.
#[derive(Debug, Clone, Copy, PartialEq, Eq, Structural)]
pub enum Direction {
    SouthEast,
    NorthEast,
    North,
    NorthWest,
    SouthWest,
    South,
}

/// The direction with the given number.
pub open spec fn direction_of(value: int) -> Direction {
    if value == 0 {
        Direction::SouthEast
    } else if value == 1 {
        Direction::NorthEast
    } else if value == 2 {
        Direction::North
    } else if value == 3 {
        Direction::NorthWest
    } else if value == 4 {
        Direction::SouthWest
    } else {
        Direction::South
    }
}

/// The cube offset of a direction.
pub open spec fn offset_of(d: Direction) -> (int, int, int) {
    match d {
        Direction::North => (0, -1, 1),
        Direction::NorthEast => (1, -1, 0),
        Direction::SouthEast => (1, 0, -1),
        Direction::South => (0, 1, -1),
        Direction::SouthWest => (-1, 1, 0),
        Direction::NorthWest => (-1, 0, 1),
    }
}

impl Direction {
    /// The direction with the given number (0 to 5, in ring order).
    pub fn from(value: u8) -> (d: Direction)
        requires
            value < 6,
        ensures
            d == direction_of(value as int),
    {
        match value {
            0 => Direction::SouthEast,
            1 => Direction::NorthEast,
            2 => Direction::North,
            3 => Direction::NorthWest,
            4 => Direction::SouthWest,
            _ => Direction::South,
        }
    }
}

/// The hexagon `c` moved by `(dx, dy, dz)`.
pub open spec fn shift(c: Cube, dx: int, dy: int, dz: int) -> Cube {
    Cube { x: (c.x + dx) as i32, y: (c.y + dy) as i32, z: (c.z + dz) as i32 }
}

/// The hexagons within `r` steps of `c` fit in `i32` coordinates.
pub open spec fn fits(c: Cube, r: int) -> bool {
    &&& i32::MIN <= c.x - r && c.x + r <= i32::MAX
    &&& i32::MIN <= c.y - r && c.y + r <= i32::MAX
    &&& i32::MIN <= c.z - r && c.z + r <= i32::MAX
}

/// The `j`-th hexagon of side `s` of the ring of radius `r` around `c`: the side's corner
/// moved `j` steps in the side's direction.
pub open spec fn side_point(c: Cube, r: int, s: int, j: int) -> Cube {
    if s == 0 {
        shift(c, -r + j, r, -j)
    } else if s == 1 {
        shift(c, j, r - j, -r)
    } else if s == 2 {
        shift(c, r, -j, -r + j)
    } else if s == 3 {
        shift(c, r - j, -r, j)
    } else if s == 4 {
        shift(c, -j, -r + j, r)
    } else {
        shift(c, -r, j, r - j)
    }
}

/// The `r` hexagons of side `s`.
pub open spec fn side(c: Cube, r: int, s: int) -> Seq<Cube> {
    Seq::new(r as nat, |j: int| side_point(c, r, s, j))
}

/// The first `n` sides of the ring, in order.
pub open spec fn sides(c: Cube, r: int, n: int) -> Seq<Cube>
    decreases n,
{
    if n <= 0 {
        Seq::empty()
    } else {
        sides(c, r, n - 1) + side(c, r, n - 1)
    }
}

/// The ring of radius `r` around `c`: starting `r` steps south-west of `c`, it walks the six
/// sides in direction order, `r` hexagons each (empty for radius zero).
pub open spec fn ring_spec(c: Cube, r: int) -> Seq<Cube> {
    sides(c, r, 6)
}

/// The centre, then the rings of radius 1 to `r`.
pub open spec fn spiral_spec(c: Cube, r: int) -> Seq<Cube>
    decreases r,
{
    if r <= 0 {
        seq![c]
    } else {
        spiral_spec(c, r - 1) + ring_spec(c, r)
    }
}

pub open spec fn to_axial(c: Cube) -> Axial {
    Axial { x: c.x, y: c.y }
}

pub open spec fn to_cube(a: Axial) -> Cube {
    Cube { x: a.x, y: a.y, z: (-a.x - a.y) as i32 }
}

/// The number of steps between two hexagons.
pub open spec fn cube_distance(a: Cube, b: Cube) -> int {
    max3(abs(a.x - b.x), abs(a.y - b.y), abs(a.z - b.z))
}

/// The integer topology of a hexagonal map: coordinate conversions, neighbours, rings and
/// spirals.
#[derive(Debug, Clone, Copy, PartialEq, Eq, Structural)]
pub struct HexMap;

impl HexMap {
    /// Drops the third cube coordinate.
    pub fn cube_to_axial(&self, cube: Cube) -> (axial: Axial)
        ensures
            axial == to_axial(cube),
    {
        Axial { x: cube.x, y: cube.y }
    }

    /// Adds the third cube coordinate, `-x - y`.
    pub fn axial_to_cube(&self, axial: Axial) -> (cube: Cube)
        requires
            axial.x > i32::MIN,
            i32::MIN <= -axial.x - axial.y <= i32::MAX,
        ensures
            cube == to_cube(axial),
    {
        Cube { x: axial.x, y: axial.y, z: -axial.x - axial.y }
    }

    /// The cube offset of a direction.
    pub fn cube_direction(&self, direction: Direction) -> (offset: Cube)
        ensures
            (offset.x as int, offset.y as int, offset.z as int) == offset_of(direction),
    {
        match direction {
            Direction::North => Cube { x: 0, y: -1, z: 1 },
            Direction::NorthEast => Cube { x: 1, y: -1, z: 0 },
            Direction::SouthEast => Cube { x: 1, y: 0, z: -1 },
            Direction::South => Cube { x: 0, y: 1, z: -1 },
            Direction::SouthWest => Cube { x: -1, y: 1, z: 0 },
            Direction::NorthWest => Cube { x: -1, y: 0, z: 1 },
        }
    }

    /// The neighbour of `hex` in the given direction.
    pub fn cube_neighbor(&self, hex: Cube, direction: Direction) -> (neighbor: Cube)
        requires
            ({
                let o = offset_of(direction);
                &&& i32::MIN <= hex.x + o.0 <= i32::MAX
                &&& i32::MIN <= hex.y + o.1 <= i32::MAX
                &&& i32::MIN <= hex.z + o.2 <= i32::MAX
            }),
        ensures
            neighbor == ({
                let o = offset_of(direction);
                shift(hex, o.0, o.1, o.2)
            }),
    {
        let d = self.cube_direction(direction);
        Cube { x: hex.x + d.x, y: hex.y + d.y, z: hex.z + d.z }
    }

    /// The ring of hexagons exactly `radius` steps from `center`.
    pub fn cube_ring(&self, center: Cube, radius: u32) -> (ring: Vec<Cube>)
        requires
            fits(center, radius as int),
        ensures
            ring@ == ring_spec(center, radius as int),
    {
        let ghost r = radius as int;
        let mut results: Vec<Cube> = Vec::new();
        let sw = self.cube_direction(Direction::SouthWest);
        let rr = radius as i32;
        let mut hex = Cube { x: center.x + sw.x * rr, y: center.y + sw.y * rr, z: center.z + sw.z * rr };
        let mut d: u8 = 0;
        while d < 6
            invariant
                d <= 6,
                r == radius as int,
                fits(center, r),
                rr as int == r,
                results@ == sides(center, r, d as int),
                hex == side_point(center, r, d as int, 0) || (d == 6 && hex == side_point(
                    center,
                    r,
                    0,
                    0,
                )),
            decreases 6 - d,
        {
            let dir = Direction::from(d);
            let mut i: u32 = 0;
            while i < radius
                invariant
                    d < 6,
                    r == radius as int,
                    dir == direction_of(d as int),
                    i <= radius,
                    fits(center, r),
                    results@ == sides(center, r, d as int) + side(center, r, d as int).take(
                        i as int,
                    ),
                    hex == side_point(center, r, d as int, i as int),
                decreases radius - i,
            {
                results.push(hex);
                assert(results@ =~= sides(center, r, d as int) + side(center, r, d as int).take(
                    i + 1,
                ));
                hex = self.cube_neighbor(hex, dir);
                i = i + 1;
            }
            assert(side(center, r, d as int).take(i as int) =~= side(center, r, d as int));
            d = d + 1;
        }
        results
    }

    /// The ring of radius `radius` around `center`, in axial coordinates.
    pub fn axial_ring(&self, center: Axial, radius: u32) -> (ring: Vec<Axial>)
        requires
            center.x > i32::MIN,
            i32::MIN <= -center.x - center.y <= i32::MAX,
            fits(to_cube(center), radius as int),
        ensures
            ring@ == ring_spec(to_cube(center), radius as int).map_values(|c: Cube| to_axial(c)),
    {
        let center = self.axial_to_cube(center);
        let cubes = self.cube_ring(center, radius);
        self.to_axials(&cubes)
    }

    /// The centre followed by the rings of radius 1 to `radius`.
    pub fn cube_spiral(&self, center: Cube, radius: u32) -> (spiral: Vec<Cube>)
        requires
            fits(center, radius as int),
        ensures
            spiral@ == spiral_spec(center, radius as int),
    {
        let mut results: Vec<Cube> = Vec::new();
        results.push(center);
        let mut r: u32 = 1;
        while r <= radius
            invariant
                1 <= r,
                r <= radius + 1,
                fits(center, radius as int),
                results@ == spiral_spec(center, r - 1),
            decreases radius + 1 - r,
        {
            let ring = self.cube_ring(center, r);
            let mut k: usize = 0;
            let ghost before = results@;
            while k < ring.len()
                invariant
                    k <= ring@.len(),
                    results@ == before + ring@.take(k as int),
                decreases ring@.len() - k,
            {
                results.push(ring[k]);
                k = k + 1;
                assert(results@ =~= before + ring@.take(k as int));
            }
            assert(ring@.take(k as int) =~= ring@);
            if r == radius {
                return results;
            }
            r = r + 1;
        }
        results
    }

    /// The spiral of radius `radius` around `center`, in axial coordinates.
    pub fn axial_spiral(&self, center: Axial, radius: u32) -> (spiral: Vec<Axial>)
        requires
            center.x > i32::MIN,
            i32::MIN <= -center.x - center.y <= i32::MAX,
            fits(to_cube(center), radius as int),
        ensures
            spiral@ == spiral_spec(to_cube(center), radius as int).map_values(|c: Cube| to_axial(c)),
    {
        let center = self.axial_to_cube(center);
        let cubes = self.cube_spiral(center, radius);
        self.to_axials(&cubes)
    }

    fn to_axials(&self, cubes: &Vec<Cube>) -> (axials: Vec<Axial>)
        ensures
            axials@ == cubes@.map_values(|c: Cube| to_axial(c)),
    {
        let mut axials: Vec<Axial> = Vec::new();
        let mut k: usize = 0;
        while k < cubes.len()
            invariant
                k <= cubes@.len(),
                axials@ == cubes@.take(k as int).map_values(|c: Cube| to_axial(c)),
            decreases cubes@.len() - k,
        {
            axials.push(self.cube_to_axial(cubes[k]));
            k = k + 1;
            assert(axials@ =~= cubes@.take(k as int).map_values(|c: Cube| to_axial(c)));
        }
        assert(cubes@.take(k as int) =~= cubes@);
        axials
    }
}


proof fn lemma_sides_len(c: Cube, r: int, n: int)
    requires
        r >= 0,
        0 <= n <= 6,
    ensures
        sides(c, r, n).len() == n * r,
    decreases n,
{
    if n == 0 {
        assert(n * r == 0) by (nonlinear_arith)
            requires
                n == 0,
        ;
    } else {
        lemma_sides_len(c, r, n - 1);
        assert((n - 1) * r + r == n * r) by (nonlinear_arith);
    }
}

/// The side and step at which the `k`-th hexagon of the first `n` sides stands.
proof fn lemma_sides_index(c: Cube, r: int, n: int, k: int) -> (sj: (int, int))
    requires
        r >= 0,
        0 <= n <= 6,
        0 <= k < n * r,
    ensures
        0 <= sj.0 < n,
        0 <= sj.1 < r,
        sides(c, r, n)[k] == side_point(c, r, sj.0, sj.1),
    decreases n,
{
    assert(n > 0) by (nonlinear_arith)
        requires
            0 <= k < n * r,
            n >= 0,
            r >= 0,
    ;
    lemma_sides_len(c, r, n - 1);
    assert((n - 1) * r + r == n * r) by (nonlinear_arith);
    let prev = sides(c, r, n - 1);
    assert(sides(c, r, n) == prev + side(c, r, n - 1));
    if k < (n - 1) * r {
        let sj = lemma_sides_index(c, r, n - 1, k);
        assert(sides(c, r, n)[k] == prev[k]);
        sj
    } else {
        let j = k - (n - 1) * r;
        assert(sides(c, r, n)[k] == side(c, r, n - 1)[j]);
        (n - 1, j)
    }
}

/// Every hexagon of the ring of radius `r > 0` around `c` lies exactly `r` steps from `c`,
/// and the ring holds `6 r` hexagons.
pub proof fn lemma_ring_at_distance(c: Cube, r: int)
    requires
        r > 0,
        fits(c, r),
    ensures
        ring_spec(c, r).len() == 6 * r,
        forall|k: int|
            0 <= k < ring_spec(c, r).len() ==> cube_distance(#[trigger] ring_spec(c, r)[k], c)
                == r,
{
    lemma_sides_len(c, r, 6);
    assert forall|k: int| 0 <= k < ring_spec(c, r).len() implies cube_distance(
        #[trigger] ring_spec(c, r)[k],
        c,
    ) == r by {
        let (s, j) = lemma_sides_index(c, r, 6, k);
    }
}

/// A ring keeps the cube-coordinate sum of its centre: around a proper cube coordinate
/// (`x + y + z == 0`) every hexagon is a proper cube coordinate.
pub proof fn lemma_ring_on_plane(c: Cube, r: int)
    requires
        r >= 0,
        fits(c, r),
        c.x + c.y + c.z == 0,
    ensures
        forall|k: int|
            0 <= k < ring_spec(c, r).len() ==> #[trigger] ring_spec(c, r)[k].x + ring_spec(
                c,
                r,
            )[k].y + ring_spec(c, r)[k].z == 0,
{
    lemma_sides_len(c, r, 6);
    assert forall|k: int| 0 <= k < ring_spec(c, r).len() implies #[trigger] ring_spec(c, r)[k].x
        + ring_spec(c, r)[k].y + ring_spec(c, r)[k].z == 0 by {
        let (s, j) = lemma_sides_index(c, r, 6, k);
    }
}

/// A spiral of radius `r` holds `1 + 3 r (r + 1)` hexagons: the centre and six per step of
/// radius.
pub proof fn lemma_spiral_len(c: Cube, r: int)
    requires
        r >= 0,
    ensures
        spiral_spec(c, r).len() == 1 + 3 * r * (r + 1),
    decreases r,
{
    if r > 0 {
        lemma_spiral_len(c, r - 1);
        lemma_sides_len(c, r, 6);
        assert(spiral_spec(c, r) == spiral_spec(c, r - 1) + ring_spec(c, r));
        assert(ring_spec(c, r).len() == 6 * r);
        assert(1 + 3 * (r - 1) * ((r - 1) + 1) + 6 * r == 1 + 3 * r * (r + 1)) by (nonlinear_arith);
    } else {
        assert(3 * r * (r + 1) == 0) by (nonlinear_arith)
            requires
                r == 0,
        ;
    }
}

/// Converting axial to cube and back gives the same axial coordinate, and a proper cube
/// coordinate survives the way through axial coordinates.
pub proof fn lemma_axial_cube_roundtrip(a: Axial, c: Cube)
    requires
        i32::MIN <= -a.x - a.y <= i32::MAX,
    ensures
        to_axial(to_cube(a)) == a,
        c.x + c.y + c.z == 0 ==> to_cube(to_axial(c)) == c,
        to_cube(a).x + to_cube(a).y + to_cube(a).z == 0,
{
}

/// A neighbour lies one step away.
pub proof fn lemma_neighbor_distance(hex: Cube, d: Direction)
    requires
        fits(hex, 1),
    ensures
        ({
            let o = offset_of(d);
            cube_distance(shift(hex, o.0, o.1, o.2), hex) == 1
        }),
{
}
} // verus!
