//! Grid-level scenarios: counting, seeding, stepping, telemetry.

use predator_prey::cell::{Cell, CellState, CellType};
use predator_prey::config::{Config, Ratio};
use predator_prey::game::{age_band, generate_ring_offsets, tally_live, GameOfLife, GameState};
use rand::SeedableRng;

fn small_config(w: usize, h: usize, radius: isize) -> Config {
    let mut cfg = Config::default();
    cfg.w = w;
    cfg.h = h;
    cfg.offsets = generate_ring_offsets(radius);
    cfg
}

fn live_cells(map: &Vec<Vec<Cell>>) -> Vec<Cell> {
    let mut live = Vec::new();
    for row in map.iter() {
        for cell in row.iter() {
            if let CellState::Alive(_) = cell.state {
                live.push(*cell);
            }
        }
    }
    live
}

#[test]
fn empty_map_is_all_dead_with_positions() {
    let cfg = small_config(4, 3, 1);
    let state = GameState::new(&cfg);
    assert_eq!(state.map.len(), 3);
    for (y, row) in state.map.iter().enumerate() {
        assert_eq!(row.len(), 4);
        for (x, cell) in row.iter().enumerate() {
            assert_eq!(cell.state, CellState::Dead);
            assert_eq!((cell.x, cell.y), (x, y));
        }
    }
}

#[test]
fn count_neighbours_in_corner_and_center() {
    let cfg = small_config(3, 3, 1);
    let mut state = GameState::new(&cfg);
    state.map[1][0] = Cell::prey(0, 1, CellState::Alive(2));
    state.map[2][2] = Cell::prededator(2, 2, CellState::Alive(4));
    let game = GameOfLife { config: cfg, state };
    // The center sees both.
    assert_eq!(game.count_neighbours(1, 1), (1, 1));
    // The corner only sees the prey; candidates off the grid are skipped.
    assert_eq!(game.count_neighbours(0, 0), (1, 0));
    // The prey itself is not its own neighbor.
    assert_eq!(game.count_neighbours(0, 1), (0, 0));
    // The far corner sees only the predator.
    assert_eq!(game.count_neighbours(2, 1), (0, 1));
}

#[test]
fn count_neighbours_bounded_by_neighborhood_size() {
    let mut cfg = small_config(3, 3, 1);
    cfg.cluster_density = Ratio { num: 1, den: 1 };
    cfg.cluster_size = 3;
    cfg.population = 2;
    let mut rng = rand::rngs::StdRng::seed_from_u64(11);
    let game = GameOfLife::new(cfg, &mut rng);
    for y in 0..3 {
        for x in 0..3 {
            let (prey, predators) = game.count_neighbours(x, y);
            assert!(prey + predators <= game.config.offsets.len());
        }
    }
}

#[test]
fn single_prey_dies_of_underpopulation() {
    // A 5 x 5 grid, radius 1, a single live prey at (2, 2): its prey count 0
    // is below the default underpopulation threshold 1, so it dies.
    let cfg = small_config(5, 5, 1);
    let mut state = GameState::new(&cfg);
    state.map[2][2] = Cell::prey(2, 2, CellState::Alive(1));
    let mut game = GameOfLife { config: cfg, state };
    let mut rng = rand::rngs::StdRng::seed_from_u64(1);
    game.simulate(&mut rng);
    assert_eq!(game.state.map[2][2].state, CellState::Dead);
    assert_eq!(game.state.generation, 1);
}

#[test]
fn all_dead_grid_stays_dead_without_mutation() {
    let mut cfg = small_config(6, 4, 1);
    cfg.mutation = Ratio { num: 0, den: 100 };
    let state = GameState::new(&cfg);
    let mut game = GameOfLife { config: cfg, state };
    let mut rng = rand::rngs::StdRng::seed_from_u64(99);
    for _ in 0..5 {
        game.simulate(&mut rng);
    }
    assert!(live_cells(&game.state.map).is_empty());
    assert_eq!(game.state.preys, 0);
    assert_eq!(game.state.predators, 0);
    assert_eq!(game.state.generation, 5);
}

#[test]
fn seeded_runs_are_reproducible() {
    // The same seed, grid and configuration give byte-identical histories.
    let mut maps = Vec::new();
    let mut tallies = Vec::new();
    for _ in 0..2 {
        let mut cfg = small_config(12, 9, 1);
        cfg.population = 3;
        cfg.cluster_size = 2;
        cfg.cluster_density = Ratio { num: 7, den: 10 };
        cfg.predetor_rate = Ratio { num: 1, den: 4 };
        let mut rng = rand::rngs::StdRng::seed_from_u64(424242);
        let mut game = GameOfLife::new(cfg, &mut rng);
        for _ in 0..4 {
            game.simulate(&mut rng);
        }
        maps.push(game.state.map.clone());
        tallies.push((game.state.preys, game.state.predators));
    }
    assert_eq!(maps[0], maps[1]);
    assert_eq!(tallies[0], tallies[1]);
}

#[test]
fn pinned_cluster_seeds_exactly_one_prey() {
    // One cluster of size 0 with full density and a zero predator rate:
    // exactly one live prey cell, age 1, at the randomly chosen center.
    let mut cfg = small_config(9, 7, 1);
    cfg.population = 1;
    cfg.cluster_size = 0;
    cfg.cluster_density = Ratio { num: 1, den: 1 };
    cfg.predetor_rate = Ratio { num: 0, den: 1 };
    let mut rng = rand::rngs::StdRng::seed_from_u64(5);
    let game = GameOfLife::new(cfg, &mut rng);
    let live = live_cells(&game.state.map);
    assert_eq!(live.len(), 1);
    assert_eq!(live[0].state, CellState::Alive(1));
    assert_eq!(live[0].kind, CellType::Prey);
    assert!(live[0].x < 9 && live[0].y < 7);
    assert_eq!(game.state.map[live[0].y][live[0].x], live[0]);
}

#[test]
fn cluster_changes_confined_to_square() {
    // One cluster of size 1 at full density: the live cells are exactly the
    // clipped 3 x 3 square around the drawn center — nothing outside it.
    let mut cfg = small_config(15, 11, 1);
    cfg.population = 1;
    cfg.cluster_size = 1;
    cfg.cluster_density = Ratio { num: 1, den: 1 };
    cfg.predetor_rate = Ratio { num: 0, den: 1 };
    let mut rng = rand::rngs::StdRng::seed_from_u64(77);
    let game = GameOfLife::new(cfg, &mut rng);
    let live = live_cells(&game.state.map);
    assert!((4..=9).contains(&live.len()));
    let min_x = live.iter().map(|c| c.x).min().unwrap();
    let max_x = live.iter().map(|c| c.x).max().unwrap();
    let min_y = live.iter().map(|c| c.y).min().unwrap();
    let max_y = live.iter().map(|c| c.y).max().unwrap();
    assert!(max_x - min_x <= 2);
    assert!(max_y - min_y <= 2);
    for cell in live {
        assert_eq!(cell.state, CellState::Alive(1));
    }
}

#[test]
fn zero_density_seeds_nothing() {
    let mut cfg = small_config(9, 7, 1);
    cfg.population = 10;
    cfg.cluster_size = 2;
    cfg.cluster_density = Ratio { num: 0, den: 1 };
    let mut rng = rand::rngs::StdRng::seed_from_u64(5);
    let game = GameOfLife::new(cfg, &mut rng);
    assert!(live_cells(&game.state.map).is_empty());
}

#[test]
fn full_rates_seed_a_predator_square() {
    // Full density and a full predator rate: the whole clipped square around
    // the one center is live predators.
    let mut cfg = small_config(5, 5, 1);
    cfg.population = 1;
    cfg.cluster_size = 5;
    cfg.cluster_density = Ratio { num: 1, den: 1 };
    cfg.predetor_rate = Ratio { num: 1, den: 1 };
    let mut rng = rand::rngs::StdRng::seed_from_u64(5);
    let game = GameOfLife::new(cfg, &mut rng);
    // Cluster size 5 covers the whole 5 x 5 grid wherever the center fell.
    let live = live_cells(&game.state.map);
    assert_eq!(live.len(), 25);
    for cell in live {
        assert_eq!(cell.kind, CellType::Predetor);
        assert_eq!(cell.state, CellState::Alive(1));
    }
}

#[test]
fn tally_counts_both_species() {
    let cfg = small_config(4, 4, 1);
    let mut state = GameState::new(&cfg);
    state.map[0][1] = Cell::prey(1, 0, CellState::Alive(3));
    state.map[2][2] = Cell::prey(2, 2, CellState::Alive(1));
    state.map[3][0] = Cell::prededator(0, 3, CellState::Alive(9));
    assert_eq!(tally_live(&state.map, 4, 4), (2, 1));
}

#[test]
fn simulate_updates_telemetry_from_next_grid() {
    let mut cfg = small_config(4, 4, 1);
    cfg.mutation = Ratio { num: 0, den: 100 };
    let mut state = GameState::new(&cfg);
    // A block of four prey: each sees 3 neighbors and the rule chain keeps
    // the block alive (or replaces members by newborns), so prey survive.
    state.map[1][1] = Cell::prey(1, 1, CellState::Alive(1));
    state.map[1][2] = Cell::prey(2, 1, CellState::Alive(1));
    state.map[2][1] = Cell::prey(1, 2, CellState::Alive(1));
    state.map[2][2] = Cell::prey(2, 2, CellState::Alive(1));
    let mut game = GameOfLife { config: cfg, state };
    let mut rng = rand::rngs::StdRng::seed_from_u64(3);
    game.simulate(&mut rng);
    let live = live_cells(&game.state.map);
    assert_eq!(game.state.preys, live.iter().filter(|c| c.kind == CellType::Prey).count());
    assert_eq!(
        game.state.predators,
        live.iter().filter(|c| c.kind == CellType::Predetor).count()
    );
    assert_eq!(game.state.preys, 4);
}

#[test]
fn age_band_quarter_thresholds() {
    assert_eq!(age_band(0, 100), 0);
    assert_eq!(age_band(24, 100), 0);
    assert_eq!(age_band(25, 100), 1);
    assert_eq!(age_band(49, 100), 1);
    assert_eq!(age_band(50, 100), 2);
    assert_eq!(age_band(74, 100), 2);
    assert_eq!(age_band(75, 100), 3);
    assert_eq!(age_band(100, 100), 3);
    assert_eq!(age_band(250, 100), 3);
}
