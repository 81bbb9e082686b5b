//! The rule engine: a pure function from a cell, its neighbor counts and the
//! per-tick random draws to the cell of the next generation.
//!
//! Each chain of rules is ordered and the first matching condition wins; the
//! order is part of the contract, since later branches can be shadowed by
//! earlier ones on purpose.

use vstd::prelude::*;

use crate::cell::{Cell, CellState, CellType};
use crate::config::Config;
use crate::rng::draw_ratio;

verus! {

/// The random draws that one evaluation of the rule engine may consume.
#[derive(Debug, Clone, Copy, PartialEq, Eq, Structural)]
pub struct Draws {
    /// Fires with the configured mutation rate; drawn once per cell and used
    /// by both rebirth branches of a dead cell.
    pub mutation: bool,
    /// Fires with probability 1/100: the prey survives a predation attempt.
    pub escape: bool,
    /// Fires with probability 1/10: a surviving prey is replaced by a newborn.
    pub prey_repro: bool,
    /// Fires with probability 1/2: a starving predator dies.
    pub starve: bool,
    /// Fires with probability 1/10: predator reproduction. The branch that
    /// reads it is shadowed by the feeding branch, but its order is kept.
    pub pred_repro: bool,
}

/// What the trusted draw contracts guarantee of the draws made for one cell:
/// a mutation rate of zero never fires and a full mutation rate always does.
pub open spec fn draws_admissible(cfg: Config, d: Draws) -> bool {
    &&& cfg.mutation.num == 0 ==> !d.mutation
    &&& cfg.mutation.num == cfg.mutation.den ==> d.mutation
}

/// The same cell, dead.
pub open spec fn dead_cell(c: Cell) -> Cell {
    Cell { x: c.x, y: c.y, state: CellState::Dead, kind: c.kind }
}

/// The next-generation cell at the position of `c`, given the live prey and
/// predator neighbor counts of `c` and the draws of this tick.
pub open spec fn spec_next_cell(c: Cell, prey: int, predators: int, cfg: Config, d: Draws) -> Cell {
    match c.state {
        CellState::Alive(age) => match c.kind {
            CellType::Prey => {
                if age >= cfg.age {
                    // Dies of old age.
                    dead_cell(c)
                } else if predators >= cfg.resistence && !d.escape {
                    // Eaten: enough predators nearby and the escape roll failed.
                    dead_cell(c)
                } else if prey < cfg.underpopulation {
                    dead_cell(c)
                } else if prey > cfg.overpopulation {
                    dead_cell(c)
                } else if prey >= cfg.reproduction && prey <= cfg.overpopulation && d.prey_repro {
                    // A newborn prey replaces the survivor.
                    Cell { x: c.x, y: c.y, state: CellState::Alive(1usize), kind: CellType::Prey }
                } else if prey >= cfg.survivability && prey <= cfg.overpopulation {
                    Cell {
                        x: c.x,
                        y: c.y,
                        state: CellState::Alive((age + 1) as usize),
                        kind: CellType::Prey,
                    }
                } else {
                    c
                }
            },
            CellType::Predetor => {
                if age >= cfg.age {
                    dead_cell(c)
                } else if predators < cfg.underpopulation {
                    dead_cell(c)
                } else if predators > cfg.overpopulation {
                    dead_cell(c)
                } else if prey == 0 && d.starve {
                    // Starves to death.
                    dead_cell(c)
                } else if prey > 0 && predators <= cfg.overpopulation {
                    // Fed: hunger is reset, the predator ages by one.
                    Cell {
                        x: c.x,
                        y: c.y,
                        state: CellState::Alive((age + 1) as usize),
                        kind: CellType::Predetor,
                    }
                } else if prey == 0 {
                    // Hungry: ages faster by the configured rate.
                    Cell {
                        x: c.x,
                        y: c.y,
                        state: CellState::Alive((age + cfg.aging_rate) as usize),
                        kind: CellType::Predetor,
                    }
                } else if prey > 0 && predators <= cfg.overpopulation && d.pred_repro {
                    // Shadowed by the feeding branch above; kept in order.
                    Cell { x: c.x, y: c.y, state: CellState::Alive(1usize), kind: CellType::Predetor }
                } else {
                    c
                }
            },
        },
        CellState::Dead => {
            if prey == cfg.reproduction || d.mutation {
                // Rebirth as prey; a successful mutation draw always lands
                // here first, whatever the neighborhood looks like.
                Cell { x: c.x, y: c.y, state: CellState::Alive(1usize), kind: CellType::Prey }
            } else if (predators > 0 && prey == 0) || d.mutation {
                Cell { x: c.x, y: c.y, state: CellState::Alive(1usize), kind: CellType::Predetor }
            } else {
                c
            }
        },
    }
}

/// The executable rule engine. A pure function of its arguments; the draws
/// are taken as a value so that a run can be replayed exactly.
pub fn next_cell(c: &Cell, prey: usize, predators: usize, cfg: &Config, d: Draws) -> (n: Cell)
    requires
        cfg.age + cfg.aging_rate <= usize::MAX,
    ensures
        n == spec_next_cell(*c, prey as int, predators as int, *cfg, d),
{
    match c.state {
        CellState::Alive(age) => match c.kind {
            CellType::Prey => {
                if age >= cfg.age {
                    Cell::new(c.x, c.y, CellState::Dead, c.kind)
                } else if predators >= cfg.resistence && !d.escape {
                    Cell::new(c.x, c.y, CellState::Dead, c.kind)
                } else if prey < cfg.underpopulation {
                    Cell::new(c.x, c.y, CellState::Dead, c.kind)
                } else if prey > cfg.overpopulation {
                    Cell::new(c.x, c.y, CellState::Dead, c.kind)
                } else if prey >= cfg.reproduction && prey <= cfg.overpopulation && d.prey_repro {
                    Cell::prey(c.x, c.y, CellState::Alive(1))
                } else if prey >= cfg.survivability && prey <= cfg.overpopulation {
                    Cell::prey(c.x, c.y, CellState::Alive(age + 1))
                } else {
                    Cell::new(c.x, c.y, c.state, c.kind)
                }
            },
            CellType::Predetor => {
                if age >= cfg.age {
                    Cell::new(c.x, c.y, CellState::Dead, c.kind)
                } else if predators < cfg.underpopulation {
                    Cell::new(c.x, c.y, CellState::Dead, c.kind)
                } else if predators > cfg.overpopulation {
                    Cell::new(c.x, c.y, CellState::Dead, c.kind)
                } else if prey == 0 && d.starve {
                    Cell::new(c.x, c.y, CellState::Dead, c.kind)
                } else if prey > 0 && predators <= cfg.overpopulation {
                    Cell::prededator(c.x, c.y, CellState::Alive(age + 1))
                } else if prey == 0 {
                    Cell::prededator(c.x, c.y, CellState::Alive(age + cfg.aging_rate))
                } else if prey > 0 && predators <= cfg.overpopulation && d.pred_repro {
                    Cell::prededator(c.x, c.y, CellState::Alive(1))
                } else {
                    Cell::new(c.x, c.y, c.state, c.kind)
                }
            },
        },
        CellState::Dead => {
            if prey == cfg.reproduction || d.mutation {
                Cell::prey(c.x, c.y, CellState::Alive(1))
            } else if (predators > 0 && prey == 0) || d.mutation {
                Cell::prededator(c.x, c.y, CellState::Alive(1))
            } else {
                Cell::new(c.x, c.y, c.state, c.kind)
            }
        },
    }
}

/// Draws everything one evaluation of the rule engine may need, eagerly and
/// in a fixed order, so that a seeded run is reproducible.
pub(crate) fn draw_cell_draws(cfg: &Config, rng: &mut rand::rngs::StdRng) -> (d: Draws)
    requires
        cfg.mutation.wf(),
    ensures
        draws_admissible(*cfg, d),
{
    let mutation = draw_ratio(rng, cfg.mutation.num, cfg.mutation.den);
    let escape = draw_ratio(rng, 1, 100);
    let prey_repro = draw_ratio(rng, 1, 10);
    let starve = draw_ratio(rng, 1, 2);
    let pred_repro = draw_ratio(rng, 1, 10);
    Draws { mutation, escape, prey_repro, starve, pred_repro }
}

// ---------------------------------------------------------------------------
// Laws of the rule engine
// ---------------------------------------------------------------------------

/// The rule engine never moves a cell: whatever the branch, the next cell
/// keeps the position of the current one.
pub proof fn lemma_next_cell_keeps_position(c: Cell, prey: int, predators: int, cfg: Config, d: Draws)
    ensures
        spec_next_cell(c, prey, predators, cfg, d).x == c.x,
        spec_next_cell(c, prey, predators, cfg, d).y == c.y,
{
}

/// Law: a prey cell that takes the "stay alive" branch ages by exactly one.
/// The requirements spell out that branch: not at maximum age, not eaten, a
/// neighbor count between the thresholds, no reproduction, and enough
/// neighbors to survive.
pub proof fn lemma_prey_survival_ages(c: Cell, age: usize, prey: int, predators: int, cfg: Config, d: Draws)
    requires
        c.state == CellState::Alive(age),
        c.kind is Prey,
        age < cfg.age,
        !(predators >= cfg.resistence && !d.escape),
        cfg.underpopulation <= prey <= cfg.overpopulation,
        !(prey >= cfg.reproduction && d.prey_repro),
        prey >= cfg.survivability,
    ensures
        age + 1 <= usize::MAX,
        spec_next_cell(c, prey, predators, cfg, d) == (Cell {
            x: c.x,
            y: c.y,
            state: CellState::Alive((age + 1) as usize),
            kind: CellType::Prey,
        }),
{
}

/// Law: a fed predator — live prey in reach, a predator count between the
/// thresholds, not at maximum age — ages by exactly one.
pub proof fn lemma_predator_fed_ages(c: Cell, age: usize, prey: int, predators: int, cfg: Config, d: Draws)
    requires
        c.state == CellState::Alive(age),
        c.kind is Predetor,
        age < cfg.age,
        cfg.underpopulation <= predators <= cfg.overpopulation,
        prey > 0,
    ensures
        age + 1 <= usize::MAX,
        spec_next_cell(c, prey, predators, cfg, d) == (Cell {
            x: c.x,
            y: c.y,
            state: CellState::Alive((age + 1) as usize),
            kind: CellType::Predetor,
        }),
{
}

/// Law: a starving predator that survives its starvation roll ages by exactly
/// the configured aging rate.
pub proof fn lemma_predator_starving_ages(c: Cell, age: usize, prey: int, predators: int, cfg: Config, d: Draws)
    requires
        cfg.age + cfg.aging_rate <= usize::MAX,
        c.state == CellState::Alive(age),
        c.kind is Predetor,
        age < cfg.age,
        cfg.underpopulation <= predators <= cfg.overpopulation,
        prey == 0,
        !d.starve,
    ensures
        age + cfg.aging_rate <= usize::MAX,
        spec_next_cell(c, prey, predators, cfg, d) == (Cell {
            x: c.x,
            y: c.y,
            state: CellState::Alive((age + cfg.aging_rate) as usize),
            kind: CellType::Predetor,
        }),
{
}

/// Law: a dead cell with exactly `reproduction` live prey neighbors and a
/// mutation draw that did not fire always becomes a newborn prey cell.
pub proof fn lemma_dead_reproduction(c: Cell, prey: int, predators: int, cfg: Config, d: Draws)
    requires
        c.state is Dead,
        prey == cfg.reproduction,
        !d.mutation,
    ensures
        spec_next_cell(c, prey, predators, cfg, d) == (Cell {
            x: c.x,
            y: c.y,
            state: CellState::Alive(1usize),
            kind: CellType::Prey,
        }),
{
}

/// Law: a live prey cell with fewer prey neighbors than the underpopulation
/// threshold dies, whatever its age, the predator count and the draws.
pub proof fn lemma_prey_underpopulation(c: Cell, prey: int, predators: int, cfg: Config, d: Draws)
    requires
        c.state is Alive,
        c.kind is Prey,
        prey < cfg.underpopulation,
    ensures
        spec_next_cell(c, prey, predators, cfg, d).state is Dead,
{
}

} // verus!
