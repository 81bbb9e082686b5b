//! The rule engine on concrete cells: every branch of the decision chains.

use predator_prey::cell::{Cell, CellState, CellType};
use predator_prey::config::Config;
use predator_prey::rules::{next_cell, Draws};

fn no_draws() -> Draws {
    Draws { mutation: false, escape: false, prey_repro: false, starve: false, pred_repro: false }
}

#[test]
fn prey_underpopulation_dies() {
    // A live prey cell, age 1, no prey neighbors, default underpopulation 1.
    let cfg = Config::default();
    let c = Cell::prey(4, 2, CellState::Alive(1));
    let n = next_cell(&c, 0, 0, &cfg, no_draws());
    assert_eq!(n.state, CellState::Dead);
    assert_eq!((n.x, n.y), (4, 2));
}

#[test]
fn prey_old_age_dies() {
    let cfg = Config::default();
    let c = Cell::prey(0, 0, CellState::Alive(100));
    // Even a comfortable neighborhood does not save it.
    let n = next_cell(&c, 2, 0, &cfg, no_draws());
    assert_eq!(n.state, CellState::Dead);
}

#[test]
fn prey_eaten_when_resistance_met() {
    let cfg = Config::default();
    let c = Cell::prey(1, 1, CellState::Alive(3));
    // Two predators meet the default resistance 2; the escape roll failed.
    let n = next_cell(&c, 2, 2, &cfg, no_draws());
    assert_eq!(n.state, CellState::Dead);
}

#[test]
fn prey_escapes_predation() {
    let cfg = Config::default();
    let c = Cell::prey(1, 1, CellState::Alive(3));
    let mut d = no_draws();
    d.escape = true;
    // Escaped, and two prey neighbors are enough to survive: ages to 4.
    let n = next_cell(&c, 2, 2, &cfg, d);
    assert_eq!(n.state, CellState::Alive(4));
    assert_eq!(n.kind, CellType::Prey);
}

#[test]
fn prey_overpopulation_dies() {
    let cfg = Config::default();
    let c = Cell::prey(1, 1, CellState::Alive(2));
    let n = next_cell(&c, 5, 0, &cfg, no_draws());
    assert_eq!(n.state, CellState::Dead);
}

#[test]
fn prey_reproduction_replaces_with_newborn() {
    let cfg = Config::default();
    let c = Cell::prey(1, 1, CellState::Alive(9));
    let mut d = no_draws();
    d.prey_repro = true;
    let n = next_cell(&c, 3, 0, &cfg, d);
    assert_eq!(n.state, CellState::Alive(1));
    assert_eq!(n.kind, CellType::Prey);
}

#[test]
fn prey_survival_ages_by_one() {
    // Two prey neighbors: at survivability 2, below reproduction 3.
    let cfg = Config::default();
    let c = Cell::prey(1, 1, CellState::Alive(7));
    let n = next_cell(&c, 2, 0, &cfg, no_draws());
    assert_eq!(n.state, CellState::Alive(8));
    assert_eq!(n.kind, CellType::Prey);
}

#[test]
fn prey_stasis_keeps_age() {
    // One prey neighbor: above underpopulation 1, below survivability 2 —
    // the final unchanged branch.
    let cfg = Config::default();
    let c = Cell::prey(1, 1, CellState::Alive(7));
    let n = next_cell(&c, 1, 0, &cfg, no_draws());
    assert_eq!(n.state, CellState::Alive(7));
    assert_eq!(n.kind, CellType::Prey);
}

#[test]
fn predator_old_age_dies() {
    let cfg = Config::default();
    let c = Cell::prededator(0, 3, CellState::Alive(100));
    let n = next_cell(&c, 1, 1, &cfg, no_draws());
    assert_eq!(n.state, CellState::Dead);
}

#[test]
fn predator_underpopulation_dies() {
    let cfg = Config::default();
    let c = Cell::prededator(0, 3, CellState::Alive(2));
    let n = next_cell(&c, 1, 0, &cfg, no_draws());
    assert_eq!(n.state, CellState::Dead);
}

#[test]
fn predator_overpopulation_dies() {
    let cfg = Config::default();
    let c = Cell::prededator(0, 3, CellState::Alive(2));
    let n = next_cell(&c, 1, 5, &cfg, no_draws());
    assert_eq!(n.state, CellState::Dead);
}

#[test]
fn predator_starves_to_death() {
    let cfg = Config::default();
    let c = Cell::prededator(2, 2, CellState::Alive(2));
    let mut d = no_draws();
    d.starve = true;
    let n = next_cell(&c, 0, 1, &cfg, d);
    assert_eq!(n.state, CellState::Dead);
}

#[test]
fn predator_fed_ages_by_one() {
    let cfg = Config::default();
    let c = Cell::prededator(2, 2, CellState::Alive(5));
    let n = next_cell(&c, 2, 1, &cfg, no_draws());
    assert_eq!(n.state, CellState::Alive(6));
    assert_eq!(n.kind, CellType::Predetor);
}

#[test]
fn predator_starving_ages_faster() {
    // Default aging rate is 1; use a config with rate 5 to tell the branches
    // apart.
    let mut cfg = Config::default();
    cfg.aging_rate = 5;
    let c = Cell::prededator(2, 2, CellState::Alive(3));
    let n = next_cell(&c, 0, 1, &cfg, no_draws());
    assert_eq!(n.state, CellState::Alive(8));
    assert_eq!(n.kind, CellType::Predetor);
}

#[test]
fn dead_reproduction_spawns_prey() {
    // Exactly the reproduction threshold of prey neighbors, mutation pinned
    // false: always a newborn prey.
    let cfg = Config::default();
    let c = Cell::new(3, 3, CellState::Dead, CellType::Predetor);
    let n = next_cell(&c, 3, 0, &cfg, no_draws());
    assert_eq!(n.state, CellState::Alive(1));
    assert_eq!(n.kind, CellType::Prey);
}

#[test]
fn dead_predator_rebirth() {
    let cfg = Config::default();
    let c = Cell::new(3, 3, CellState::Dead, CellType::Prey);
    let n = next_cell(&c, 0, 2, &cfg, no_draws());
    assert_eq!(n.state, CellState::Alive(1));
    assert_eq!(n.kind, CellType::Predetor);
}

#[test]
fn dead_mutation_always_spawns_prey() {
    // The mutation draw is read by the prey branch first, so even amid
    // predators a mutation revives the cell as prey.
    let cfg = Config::default();
    let c = Cell::new(3, 3, CellState::Dead, CellType::Prey);
    let mut d = no_draws();
    d.mutation = true;
    let n = next_cell(&c, 0, 2, &cfg, d);
    assert_eq!(n.state, CellState::Alive(1));
    assert_eq!(n.kind, CellType::Prey);
}

#[test]
fn dead_stays_dead() {
    let cfg = Config::default();
    let c = Cell::new(3, 3, CellState::Dead, CellType::Prey);
    let n = next_cell(&c, 1, 0, &cfg, no_draws());
    assert_eq!(n.state, CellState::Dead);
    assert_eq!(n, c);
}
