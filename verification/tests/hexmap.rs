use clicker::hexmap::{Axial, Cube, Direction, HexMap};

fn cube(x: i32, y: i32, z: i32) -> Cube {
    Cube { x, y, z }
}

#[test]
fn directions_are_numbered_in_ring_order() {
    assert_eq!(Direction::from(0), Direction::SouthEast);
    assert_eq!(Direction::from(2), Direction::North);
    assert_eq!(Direction::from(5), Direction::South);
    let map = HexMap;
    assert_eq!(map.cube_direction(Direction::North), cube(0, -1, 1));
    assert_eq!(map.cube_direction(Direction::SouthWest), cube(-1, 1, 0));
    assert_eq!(map.cube_neighbor(cube(2, -1, -1), Direction::NorthWest), cube(1, -1, 0));
}

#[test]
fn axial_and_cube_coordinates_convert_both_ways() {
    let map = HexMap;
    assert_eq!(map.axial_to_cube(Axial { x: 2, y: -5 }), cube(2, -5, 3));
    assert_eq!(map.cube_to_axial(cube(2, -5, 3)), Axial { x: 2, y: -5 });
}

#[test]
fn the_first_ring_starts_south_west_and_walks_six_sides() {
    let map = HexMap;
    assert_eq!(
        map.cube_ring(cube(0, 0, 0), 1),
        vec![
            cube(-1, 1, 0),
            cube(0, 1, -1),
            cube(1, 0, -1),
            cube(1, -1, 0),
            cube(0, -1, 1),
            cube(-1, 0, 1),
        ]
    );
    assert!(map.cube_ring(cube(3, 3, -6), 0).is_empty());
    let ring = map.cube_ring(cube(1, 1, -2), 3);
    assert_eq!(ring.len(), 18);
    for hex in &ring {
        let d = ((hex.x - 1).abs() + (hex.y - 1).abs() + (hex.z + 2).abs()) / 2;
        assert_eq!(d, 3);
        assert_eq!(hex.x + hex.y + hex.z, 0);
    }
}

#[test]
fn spirals_hold_the_centre_then_each_ring() {
    let map = HexMap;
    let spiral = map.cube_spiral(cube(0, 0, 0), 2);
    assert_eq!(spiral.len(), 19);
    assert_eq!(spiral[0], cube(0, 0, 0));
    assert_eq!(spiral[1], cube(-1, 1, 0));
    assert_eq!(spiral[7], cube(-2, 2, 0));
    assert_eq!(map.cube_spiral(cube(0, 0, 0), 0), vec![cube(0, 0, 0)]);
    let axial = map.axial_spiral(Axial { x: 0, y: 0 }, 1);
    assert_eq!(axial[0], Axial { x: 0, y: 0 });
    assert_eq!(axial[1], Axial { x: -1, y: 1 });
    assert_eq!(map.axial_ring(Axial { x: 0, y: 0 }, 1).len(), 6);
}
