//! Tests for the grid addressing layer: index/position conversion,
//! neighbour lookup with and without wraparound, and per-node data storage.

use procedural_tilemaps::cartesian_grid::CartesianGrid;
use procedural_tilemaps::coordinates::{delta_of, CartesianPosition, GridDelta};
use procedural_tilemaps::direction::{Direction, DirectionTrait};
use procedural_tilemaps::coordinate_system::CoordinateSystem;
use procedural_tilemaps::coordinates::{Cartesian2D, Cartesian3D, CartesianCoordinates};
use procedural_tilemaps::grid::GridData;

#[test]
fn index_position_round_trip() {
    let grid = CartesianGrid::new_cartesian_3d(5, 4, 3, false, false, false);
    for x in 0..5u32 {
        for y in 0..4u32 {
            for z in 0..3u32 {
                let i = grid.index_from_coords(x, y, z);
                let pos = grid.pos_from_index(i);
                assert_eq!(pos, CartesianPosition::new(x, y, z));
                assert_eq!(grid.index_from_coords(pos.x, pos.y, pos.z), i);
            }
        }
    }
    for i in 0..60usize {
        let pos = grid.pos_from_index(i);
        assert_eq!(grid.index_from_coords(pos.x, pos.y, pos.z), i);
    }
}

#[test]
fn row_major_order() {
    let grid = CartesianGrid::new_cartesian_3d(5, 4, 3, false, false, false);
    assert_eq!(grid.index_from_coords(0, 0, 0), 0);
    assert_eq!(grid.index_from_coords(1, 0, 0), 1);
    assert_eq!(grid.index_from_coords(0, 1, 0), 5);
    assert_eq!(grid.index_from_coords(0, 0, 1), 20);
    assert_eq!(grid.index_from_coords(4, 3, 2), 59);
}

#[test]
fn sizes_and_indexes() {
    let grid = CartesianGrid::new_cartesian_3d(5, 4, 3, true, false, true);
    assert_eq!(grid.size(), (5, 4, 3));
    assert_eq!(grid.size_x(), 5);
    assert_eq!(grid.size_y(), 4);
    assert_eq!(grid.size_z(), 3);
    assert_eq!(grid.indexes(), 0..60);
    let g2 = CartesianGrid::new_cartesian_2d(25, 18, false, false);
    assert_eq!(g2.size(), (25, 18, 1));
    assert_eq!(g2.get_index_2d(3, 2), 3 + 2 * 25);
    assert_eq!(
        g2.get_index_from_pos_2d(&CartesianPosition::new_xy(3, 2)),
        3 + 2 * 25
    );
}

#[test]
fn wraparound_looping_axis() {
    // On a looping axis, one step backward from 0 wraps to the far edge.
    let grid = CartesianGrid::new_cartesian_2d(4, 3, true, false);
    let origin = CartesianPosition::new_xy(0, 0);
    let back = grid.get_next_pos(&origin, &GridDelta::new(-1, 0, 0));
    assert_eq!(back, Some(CartesianPosition::new(3, 0, 0)));
    // And one step forward from the far edge wraps back to 0.
    let edge = CartesianPosition::new_xy(3, 0);
    let fwd = grid.get_next_pos(&edge, &GridDelta::new(1, 0, 0));
    assert_eq!(fwd, Some(CartesianPosition::new(0, 0, 0)));
}

#[test]
fn no_neighbour_outside_bounded_axis() {
    let grid = CartesianGrid::new_cartesian_2d(4, 3, false, false);
    let origin = CartesianPosition::new_xy(0, 0);
    assert_eq!(grid.get_next_pos(&origin, &GridDelta::new(-1, 0, 0)), None);
    assert_eq!(grid.get_next_pos(&origin, &GridDelta::new(0, -1, 0)), None);
    let corner = CartesianPosition::new_xy(3, 2);
    assert_eq!(grid.get_next_pos(&corner, &GridDelta::new(1, 0, 0)), None);
    assert_eq!(
        grid.get_next_pos(&corner, &GridDelta::new(0, 1, 0)),
        None
    );
}

#[test]
fn next_index_in_direction() {
    let grid = CartesianGrid::new_cartesian_2d(4, 3, false, false);
    let p = CartesianPosition::new_xy(1, 1);
    assert_eq!(
        grid.get_next_index_in_direction(&p, Direction::XForward),
        Some(grid.get_index_2d(2, 1))
    );
    assert_eq!(
        grid.get_next_index_in_direction(&p, Direction::YBackward),
        Some(grid.get_index_2d(1, 0))
    );
    let edge = CartesianPosition::new_xy(0, 0);
    assert_eq!(
        grid.get_next_index_in_direction(&edge, Direction::XBackward),
        None
    );
    assert_eq!(
        grid.get_index_in_direction(&p, Direction::XForward, 2),
        Some(grid.get_index_2d(3, 1))
    );
    assert_eq!(grid.get_index_in_direction(&p, Direction::XForward, 3), None);
}

#[test]
fn direction_between_nodes() {
    let grid = CartesianGrid::new_cartesian_2d(4, 3, false, false);
    let a = grid.get_index_2d(1, 1);
    assert_eq!(grid.direction(a, grid.get_index_2d(2, 1)), Direction::XForward);
    assert_eq!(grid.direction(a, grid.get_index_2d(0, 1)), Direction::XBackward);
    assert_eq!(grid.direction(a, grid.get_index_2d(1, 2)), Direction::YForward);
    assert_eq!(grid.direction(a, grid.get_index_2d(1, 0)), Direction::YBackward);
}

#[test]
fn neighbours_in_all_directions() {
    let grid = CartesianGrid::new_cartesian_2d(4, 3, false, false);
    let mut buf: Vec<Option<usize>> = vec![None; 4];
    grid.get_neighbours_in_all_directions(grid.get_index_2d(0, 0), &mut buf);
    assert_eq!(buf[Direction::XForward.index()], Some(grid.get_index_2d(1, 0)));
    assert_eq!(buf[Direction::YForward.index()], Some(grid.get_index_2d(0, 1)));
    assert_eq!(buf[Direction::XBackward.index()], None);
    assert_eq!(buf[Direction::YBackward.index()], None);
}

#[test]
fn directions_and_deltas() {
    assert_eq!(Direction::XForward.opposite(), Direction::XBackward);
    assert_eq!(Direction::YBackward.opposite(), Direction::YForward);
    assert_eq!(Direction::ZForward.opposite(), Direction::ZBackward);
    assert_eq!(Direction::ZForward.opposite().opposite(), Direction::ZForward);
    assert_eq!(delta_of(Direction::XForward), GridDelta::new(1, 0, 0));
    assert_eq!(delta_of(Direction::YBackward), GridDelta::new(0, -1, 0));
    let basis = Direction::ZForward.rotation_basis();
    assert_eq!(
        basis,
        [
            Direction::XForward,
            Direction::YForward,
            Direction::XBackward,
            Direction::YBackward
        ]
    );
}

#[test]
fn coordinate_system_direction_sets() {
    assert_eq!(Cartesian2D.directions_count(), 4);
    assert_eq!(Cartesian3D.directions_count(), 6);
    let dirs2 = Cartesian2D.directions();
    assert_eq!(dirs2.len(), 4);
    for (j, d) in dirs2.iter().enumerate() {
        assert_eq!(d.index(), j);
    }
    let deltas3 = Cartesian3D.deltas();
    assert_eq!(deltas3.len(), 6);
    assert_eq!(deltas3[Direction::ZBackward.index()], GridDelta::new(0, 0, -1));
}

#[test]
fn z_neighbours_in_3d() {
    let grid = CartesianGrid::new_cartesian_3d(2, 2, 2, false, false, false);
    let p = CartesianPosition::new(0, 0, 0);
    assert_eq!(
        grid.get_next_index_in_direction(&p, Direction::ZForward),
        Some(grid.index_from_coords(0, 0, 1))
    );
    assert_eq!(grid.get_next_index_in_direction(&p, Direction::ZBackward), None);
}

#[test]
fn manhattan_distance() {
    let a = CartesianPosition::new(1, 2, 3);
    let b = CartesianPosition::new(4, 0, 5);
    assert_eq!(a.manhattan_distance(&b), 3 + 2 + 2);
    assert_eq!(b.manhattan_distance(&a), 7);
    assert_eq!(a.manhattan_distance(&a), 0);
}

#[test]
fn delta_scaling() {
    let d = GridDelta::new(1, -1, 0);
    assert_eq!(d.scaled(3), GridDelta::new(3, -3, 0));
    assert_eq!(d.scaled(-2), GridDelta::new(-2, 2, 0));
}

#[test]
fn grid_data_set_get_reset() {
    let grid = CartesianGrid::new_cartesian_2d(3, 2, false, false);
    let mut data: GridData<u32, _> = grid.new_grid_data(7u32);
    assert_eq!(data.iter().len(), 6);
    assert_eq!(*data.get(4), 7);
    data.set_raw(4, 42);
    assert_eq!(*data.get(4), 42);
    data.set(CartesianPosition::new_xy(2, 1), 9);
    assert_eq!(*data.get(grid.get_index_2d(2, 1)), 9);
    *data.get_mut(0) = 13;
    assert_eq!(*data.get(0), 13);
    data.reset(1);
    for i in data.indexes() {
        assert_eq!(*data.get(i), 1);
    }
    let defaults: GridData<u32, _> = grid.default_grid_data();
    assert_eq!(*defaults.get(0), 0);
    assert_eq!(defaults.grid().size(), (3, 2, 1));
}
