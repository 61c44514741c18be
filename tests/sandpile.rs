use array2d::Array2D;
use sandpile::driver::{progress_interval, run, ConfigError, Simulation, DEFAULT_SEED};
use sandpile::render::{palette_color, pixel_colors};
use sandpile::rule::{is_rain_cell, update_grain, update_sandpile};

fn grid_from(rows: &[Vec<u32>]) -> Array2D<u32> {
    Array2D::from_rows(rows)
}

fn total(a: &Array2D<u32>) -> u64 {
    a.elements_row_major_iter().map(|v| *v as u64).sum()
}

fn step(prev: &Array2D<u32>, rain: &[(usize, usize)]) -> Array2D<u32> {
    let mut next = Array2D::filled_with(0, prev.num_rows(), prev.num_columns());
    update_sandpile(prev, &mut next, rain);
    next
}

#[test]
fn five_by_five_seed_sixteen_one_step() {
    let out = run(5, 5, 1, 16).unwrap();
    let expected = vec![
        vec![0, 0, 0, 0, 0],
        vec![0, 0, 5, 0, 0],
        vec![0, 4, 1, 4, 0],
        vec![0, 0, 5, 0, 0],
        vec![0, 0, 0, 0, 0],
    ];
    assert_eq!(out.as_rows(), expected);
}

#[test]
fn five_by_five_by_hand_matches_run() {
    let mut start = Array2D::filled_with(0u32, 5, 5);
    start[(2, 2)] = 16;
    let rain = vec![(1, 2), (2, 2), (3, 2)];
    let next = step(&start, &rain);
    assert_eq!(next, run(5, 5, 1, 16).unwrap());
    assert_eq!(next[(2, 2)], 16 % 4 + 1);
    assert_eq!(next[(2, 1)], 16 / 4);
    assert_eq!(next[(1, 2)], 16 / 4 + 1);
}

#[test]
fn two_runs_are_identical() {
    let a = run(16, 12, 200, DEFAULT_SEED).unwrap();
    let b = run(16, 12, 200, DEFAULT_SEED).unwrap();
    assert_eq!(a, b);
}

#[test]
fn three_below_threshold_stays() {
    let g = grid_from(&[vec![3]]);
    assert_eq!(step(&g, &[])[(0, 0)], 3);
    let g = grid_from(&[vec![0, 0, 0], vec![0, 3, 0], vec![0, 0, 1]]);
    assert_eq!(step(&g, &[])[(1, 1)], 3);
}

#[test]
fn rain_source_gains_one_per_step() {
    let mut g = Array2D::filled_with(0u32, 4, 4);
    let rain = vec![(1, 1)];
    for expected in 1..=3u32 {
        g = step(&g, &rain);
        assert_eq!(g[(1, 1)], expected);
        assert_eq!(total(&g), expected as u64);
    }
}

#[test]
fn single_cell_follows_remainder_and_rain() {
    let g = grid_from(&[vec![7]]);
    let g = step(&g, &[(0, 0)]);
    assert_eq!(g[(0, 0)], 3 + 1);
    let g = step(&g, &[(0, 0)]);
    assert_eq!(g[(0, 0)], 0 + 1);
    let dry = step(&grid_from(&[vec![9]]), &[]);
    assert_eq!(dry[(0, 0)], 1);
    assert_eq!(step(&dry, &[])[(0, 0)], 1);
}

#[test]
fn grains_lost_over_the_edge() {
    let g = Array2D::filled_with(4u32, 3, 3);
    let next = step(&g, &[]);
    // Twelve shares leave: three over each side.
    assert_eq!(total(&g), 36);
    assert_eq!(total(&next), 36 - 12);
    assert_eq!(next.as_rows(), vec![vec![2, 3, 2], vec![3, 4, 3], vec![2, 3, 2]]);
}

#[test]
fn interior_grains_conserved_with_rain() {
    let mut g = Array2D::filled_with(0u32, 7, 7);
    g[(3, 3)] = 12;
    let rain = vec![(3, 3), (0, 0)];
    let next = step(&g, &rain);
    assert_eq!(total(&next), 12 + 2);
    assert_eq!(next[(3, 3)], 0 + 1);
    assert_eq!(next[(2, 3)], 3);
    assert_eq!(next[(3, 4)], 3);
}

#[test]
fn update_grain_sums_neighbour_shares() {
    let g = grid_from(&[vec![5, 8, 1], vec![9, 6, 13], vec![0, 4, 2]]);
    // kept 6 % 4 = 2, north 8 / 4, south 4 / 4, west 9 / 4, east 13 / 4, rain 1
    assert_eq!(update_grain(&g, 1, 1, &[(1, 1)]), 2 + 2 + 1 + 2 + 3 + 1);
    // corner: kept 5 % 4 = 1, south 9 / 4, east 8 / 4
    assert_eq!(update_grain(&g, 0, 0, &[(1, 1)]), 1 + 2 + 2);
    assert_eq!(update_grain(&g, 2, 2, &[]), 2 + 3 + 1);
}

#[test]
fn rain_cell_membership() {
    let rain = vec![(2, 3), (4, 1)];
    assert!(is_rain_cell(&rain, 4, 1));
    assert!(!is_rain_cell(&rain, 1, 4));
    assert!(!is_rain_cell(&[], 0, 0));
}

#[test]
fn setup_errors() {
    assert_eq!(run(1, 5, 3, 16).unwrap_err(), ConfigError::GridTooSmall);
    assert_eq!(run(5, 0, 3, 16).unwrap_err(), ConfigError::GridTooSmall);
    assert_eq!(run(usize::MAX, 2, 3, 16).unwrap_err(), ConfigError::GridTooLarge);
    assert_eq!(run(5, 5, usize::MAX, DEFAULT_SEED).unwrap_err(), ConfigError::CountOverflow);
    assert_eq!(run(2, 2, 1, u32::MAX - 3).unwrap_err(), ConfigError::CountOverflow);
    assert!(run(2, 2, 1, u32::MAX - 4).is_ok());
}

#[test]
fn two_rows_is_enough() {
    // The source below the centre lies off the grid and is ignored.
    let out = run(2, 1, 1, 0).unwrap();
    assert_eq!(out.as_rows(), vec![vec![1], vec![1]]);
}

#[test]
fn simulation_steps_and_checkpoints() {
    let mut sim = Simulation::new(9, 9, 40, DEFAULT_SEED).unwrap();
    assert_eq!(sim.grid()[(4, 4)], DEFAULT_SEED);
    assert_eq!(sim.iterations(), 40);
    let mut checkpoints = Vec::new();
    while !sim.is_done() {
        if sim.at_checkpoint() {
            checkpoints.push(sim.steps_done());
        }
        sim.step();
    }
    assert_eq!(sim.steps_done(), 40);
    assert_eq!(checkpoints, (0..40).step_by(2).collect::<Vec<_>>());
    assert_eq!(sim.grid(), &run(9, 9, 40, DEFAULT_SEED).unwrap());
}

#[test]
fn progress_interval_never_zero() {
    assert_eq!(progress_interval(0), 1);
    assert_eq!(progress_interval(19), 1);
    assert_eq!(progress_interval(20), 1);
    assert_eq!(progress_interval(45), 2);
    assert_eq!(progress_interval(1000), 50);
}

#[test]
fn palette_shades() {
    assert_eq!(palette_color(0), (0, 0, 0));
    assert_eq!(palette_color(1), (200, 0, 0));
    assert_eq!(palette_color(2), (200, 64, 0));
    assert_eq!(palette_color(3), (200, 128, 0));
    assert_eq!(palette_color(4), (255, 192, 0));
    assert_eq!(palette_color(5), (255, 255, 0));
    assert_eq!(palette_color(6), (255, 255, 255));
    assert_eq!(palette_color(4000), (255, 255, 255));
}

#[test]
fn pixel_colors_follow_cells() {
    let g = grid_from(&[vec![0, 1, 7], vec![5, 2, 3]]);
    let px = pixel_colors(&g);
    assert_eq!(px.len(), 2);
    assert_eq!(px[0], vec![(0, 0, 0), (200, 0, 0), (255, 255, 255)]);
    assert_eq!(px[1], vec![(255, 255, 0), (200, 64, 0), (200, 128, 0)]);
}
