// Coordinate mapping and pathfinding, on positions given in milli-units
// (thousandths of a world unit).

use rat_sim::matrix::PathfindingMatrix;

fn corridor() -> PathfindingMatrix {
    // Three tiles in a row at y = 0: world cells 0, 1 and 2 on the x axis.
    PathfindingMatrix::from_coordinates(&vec![(0, 0), (1000, 0), (2000, 0)])
}

#[test]
fn test_pathfinding_coord_conversion() {
    let translation = (1500, 0, -2500);
    let coords: Vec<(i64, i64)> = vec![(500, -500), (500, -1500), (500, -2500), (1500, -2500)];
    let pathfinding = PathfindingMatrix::from_coordinates(&coords);
    let grid_coord = pathfinding.grid_coord(translation);
    assert_eq!(grid_coord, Some((2, 1)));
    if let Some(coord) = grid_coord {
        assert_eq!(pathfinding.translation(coord, 0), translation);
    }
}

#[test]
fn test_pathfinding_coord_rounding() {
    let translation = (900, 0, -2100);
    let coords: Vec<(i64, i64)> = vec![(0, 0), (0, -1000), (0, -2000), (1000, -2000)];
    let pathfinding = PathfindingMatrix::from_coordinates(&coords);
    let grid_coord = pathfinding.grid_coord(translation);
    assert_eq!(grid_coord, Some((2, 1)));
    // The off-center position lands in the same cell as the tile-centered
    // one, and the reverse mapping returns the snapped position.
    assert_eq!(pathfinding.grid_coord((1000, 0, -2000)), grid_coord);
    if let Some(coord) = grid_coord {
        assert_eq!(pathfinding.translation(coord, 0), (1000, 0, -2000));
    }
}

#[test]
fn test_round_trip_on_every_calibration_tile() {
    // Every position used to calibrate the mapper maps back to itself.
    let coords: Vec<(i64, i64)> = vec![(500, -500), (500, -1500), (500, -2500), (1500, -2500)];
    let pathfinding = PathfindingMatrix::from_coordinates(&coords);
    for &(x, z) in coords.iter() {
        let cell = pathfinding.grid_coord((x, 7000, z)).expect("tile inside its own grid");
        assert_eq!(pathfinding.translation(cell, 7000), (x, 7000, z));
    }
}

#[test]
fn test_empty_level_degrades() {
    let pathfinding = PathfindingMatrix::from_coordinates(&Vec::new());
    assert_eq!(pathfinding.cells_vec().len(), 0);
    // Everything maps somewhere, but nothing is walkable and no path exists.
    let c = pathfinding.grid_coord((0, 0, 0)).expect("origin maps to the border cell");
    assert_eq!(c, (1, 1));
    assert!(pathfinding.find_path((1, 1), (2, 2)).is_none());
    assert_eq!(pathfinding.neighbours((1, 1)).len(), 0);
}

#[test]
fn test_grid_construction_and_neighbours() {
    let m = corridor();
    let mut cells = m.cells_vec();
    cells.sort();
    assert_eq!(cells, vec![(1, 1), (2, 1), (3, 1)]);
    let mut ns = m.neighbours((2, 1));
    ns.sort();
    assert_eq!(ns, vec![(1, 1), (3, 1)]);
    // A cell that is not walkable has no neighbours.
    assert_eq!(m.neighbours((1, 2)).len(), 0);
}

#[test]
fn test_find_path_follows_the_corridor() {
    let m = corridor();
    let path = m.find_path((1, 1), (3, 1)).expect("the corridor connects its ends");
    assert_eq!(path, vec![(1, 1), (2, 1), (3, 1)]);
    // A one-cell search ends where it starts.
    assert_eq!(m.find_path((2, 1), (2, 1)), Some(vec![(2, 1)]));
}

#[test]
fn test_without_makes_goal_unreachable() {
    // Removing the cells between start and goal: no path may come back,
    // never a partial one.
    let m = corridor();
    let cut = m.without(&vec![(2, 1)]);
    assert!(cut.find_path((1, 1), (3, 1)).is_none());
    // The receiver is untouched.
    assert!(m.find_path((1, 1), (3, 1)).is_some());
    assert_eq!(cut.cells_vec().len(), 2);
}

#[test]
fn test_positions_off_the_grid_map_to_none() {
    let m = corridor();
    // Far on the negative side of the least observed tile.
    assert_eq!(m.grid_coord((-5000, 0, 0)), None);
    assert_eq!(m.grid_coord((0, 0, -5000)), None);
}
