use vstd::prelude::*;
use crate::rand::{ComplementaryMultiplyWithCarryGen, GenState, draw_state, draw_value, seeded};
use crate::particles::{CellType, Particle, occupied, with};
use crate::rules::WorldView;
use crate::world::WorldState;
use crate::invariants::{lemma_initialized, same_rules, settled};

verus! {

/// Number of cells that the search for an empty cell tries before it gives
/// up.
pub const MAX_PLACEMENT_ATTEMPTS: u64 = 0xffff_ffff_ffff_ffff;

/// Why a world cannot be populated.
#[derive(Copy, Clone, Debug, PartialEq, Eq)]
pub enum ConfigError {
    /// The grid has fewer cells than the two target counts ask for.
    Saturated,
    /// Individuals are to be placed, but a spawn or starve period is zero.
    ZeroPeriod,
    /// The search for an empty cell used up all its attempts.
    Exhausted,
}

/// Whether `(row, col)` is free of both species.
pub open spec fn empty_cell(w: WorldView, row: u32, col: u32) -> bool {
    !occupied(w.fish_list, row, col) && !occupied(w.shark_list, row, col)
}

/// Row of the cell that the next attempt tries.
pub open spec fn tried_row(w: WorldView, g: GenState) -> u32 {
    (draw_value(g) % w.height) as u32
}

/// Column of the cell that the next attempt tries.
pub open spec fn tried_col(w: WorldView, g: GenState) -> u32 {
    (draw_value(draw_state(g)) % w.width) as u32
}

/// Rejection sampling: each attempt draws a row and a column, and the first
/// attempt that hits an empty cell ends the search. Gives the cell, if one
/// was found within `fuel` attempts, and the generator state afterwards.
pub open spec fn search(w: WorldView, g: GenState, fuel: nat) -> (Option<(u32, u32)>, GenState)
    decreases fuel,
{
    if fuel == 0 {
        (None, g)
    } else if empty_cell(w, tried_row(w, g), tried_col(w, g)) {
        (Some((tried_row(w, g), tried_col(w, g))), draw_state(draw_state(g)))
    } else {
        search(w, draw_state(draw_state(g)), (fuel - 1) as nat)
    }
}

/// A world, a generator state, and whether every placement so far found a
/// cell.
pub struct Placement {
    pub world: WorldView,
    pub gen: GenState,
    pub ok: bool,
}

/// One initial placement: search an empty cell, draw the three timers, and
/// put an individual of `kind` there. Without a cell nothing is placed.
pub open spec fn placed(w: WorldView, g: GenState, kind: Option<CellType>) -> Placement {
    let (found, g1) = search(w, g, MAX_PLACEMENT_ATTEMPTS as nat);
    match found {
        None => Placement { world: w, gen: g1, ok: false },
        Some(cell) => {
            let g2 = draw_state(g1);
            let g3 = draw_state(g2);
            let g4 = draw_state(g3);
            let fish_timer = (draw_value(g1) % w.fish_spawn) as u64;
            let shark_timer = (draw_value(g2) % w.shark_spawn) as u64;
            let starve_timer = (draw_value(g3) % w.shark_starve) as u64;
            let world = match kind {
                Some(CellType::Fish) => WorldView {
                    fish_list: with(
                        w.fish_list,
                        Particle { row: cell.0, col: cell.1, born: w.epoch, reproduced: fish_timer, ate: 0 },
                    ),
                    ..w
                },
                Some(CellType::Shark) => WorldView {
                    shark_list: with(
                        w.shark_list,
                        Particle {
                            row: cell.0,
                            col: cell.1,
                            born: w.epoch,
                            reproduced: shark_timer,
                            ate: starve_timer,
                        },
                    ),
                    ..w
                },
                None => w,
            };
            Placement { world, gen: g4, ok: true }
        },
    }
}

/// `n` placements of `kind` in a row, starting from `start`; after a
/// placement that found no cell nothing more is tried.
pub open spec fn populated(start: Placement, kind: Option<CellType>, n: nat) -> Placement
    decreases n,
{
    if n == 0 {
        start
    } else {
        let before = populated(start, kind, (n - 1) as nat);
        if before.ok {
            placed(before.world, before.gen, kind)
        } else {
            before
        }
    }
}

/// What is wrong with a configuration, if anything.
pub open spec fn config_error(w: WorldView) -> Option<ConfigError> {
    if w.fish + w.sharks > w.width * w.height {
        Some(ConfigError::Saturated)
    } else if w.fish + w.sharks > 0 && (w.fish_spawn == 0 || w.shark_spawn == 0 || w.shark_starve
        == 0) {
        Some(ConfigError::ZeroPeriod)
    } else {
        None
    }
}

/// The world after all fish and then all sharks were placed from `seed`.
pub open spec fn seeded_world(w: WorldView, seed: u32) -> Placement {
    let start = Placement { world: WorldView { seed, ..w }, gen: seeded(seed), ok: true };
    populated(populated(start, Some(CellType::Fish), w.fish as nat), Some(CellType::Shark), w.sharks as nat)
}

/// The world that initialisation with `seed` leaves: an initialised world
/// and one with a faulty configuration stay as they are.
pub open spec fn initialized_world(w: WorldView, seed: u32) -> WorldView {
    if w.initialized || config_error(w).is_some() {
        w
    } else if seeded_world(w, seed).ok {
        WorldView { initialized: true, ..seeded_world(w, seed).world }
    } else {
        seeded_world(w, seed).world
    }
}

/// What initialisation with `seed` answers.
pub open spec fn initialization_result(w: WorldView, seed: u32) -> Result<(), ConfigError> {
    if w.initialized {
        Ok(())
    } else if config_error(w).is_some() {
        Err(config_error(w).unwrap())
    } else if seeded_world(w, seed).ok {
        Ok(())
    } else {
        Err(ConfigError::Exhausted)
    }
}

impl WorldState {
    /// Draws cells until one is empty of both species, `attempts` times at
    /// most.
    pub fn find_empty_cell_within(
        &self,
        rng: &mut ComplementaryMultiplyWithCarryGen,
        attempts: u64,
    ) -> (cell: Option<(u32, u32)>)
        requires
            self.width > 0,
            self.height > 0,
        ensures
            (cell, final(rng)@) == search(self@, old(rng)@, attempts as nat),
            cell.is_some() ==> cell.unwrap().0 < self.height && cell.unwrap().1 < self.width
                && empty_cell(self@, cell.unwrap().0, cell.unwrap().1),
    {
        let mut tried: u64 = 0;
        while tried < attempts
            invariant
                self.width > 0,
                self.height > 0,
                tried <= attempts,
                search(self@, old(rng)@, attempts as nat) == search(
                    self@,
                    rng@,
                    (attempts - tried) as nat,
                ),
            decreases attempts - tried,
        {
            let r: u32 = rng.random() % self.height;
            let c: u32 = rng.random() % self.width;
            if self.fish_list.find(r, c).is_none() && self.shark_list.find(r, c).is_none() {
                return Some((r, c));
            }
            tried += 1;
        }
        None
    }

    /// Draws cells until one is empty of both species.
    pub fn find_random_empty_cell(&self, rng: &mut ComplementaryMultiplyWithCarryGen) -> (cell:
        Option<(u32, u32)>)
        requires
            self.width > 0,
            self.height > 0,
        ensures
            (cell, final(rng)@) == search(self@, old(rng)@, MAX_PLACEMENT_ATTEMPTS as nat),
            cell.is_some() ==> cell.unwrap().0 < self.height && cell.unwrap().1 < self.width
                && empty_cell(self@, cell.unwrap().0, cell.unwrap().1),
    {
        self.find_empty_cell_within(rng, MAX_PLACEMENT_ATTEMPTS)
    }

    /// Places one individual of `cell_type` on a random empty cell, with
    /// timers drawn from the generator. Says whether a cell was found.
    pub fn initial_placement(
        &mut self,
        cell_type: Option<CellType>,
        rng: &mut ComplementaryMultiplyWithCarryGen,
    ) -> (ok: bool)
        requires
            old(self).width > 0,
            old(self).height > 0,
            old(self).fish_spawn > 0,
            old(self).shark_spawn > 0,
            old(self).shark_starve > 0,
        ensures
            (Placement { world: final(self)@, gen: final(rng)@, ok }) == placed(
                old(self)@,
                old(rng)@,
                cell_type,
            ),
    {
        match self.find_random_empty_cell(rng) {
            None => false,
            Some((r, c)) => {
                let epoch = self.epoch;
                let fish_timer: u32 = rng.random() % self.fish_spawn;
                let shark_timer: u32 = rng.random() % self.shark_spawn;
                let starve_timer: u32 = rng.random() % self.shark_starve;
                match cell_type {
                    Some(CellType::Fish) => {
                        self.fish_list.add(
                            Particle {
                                row: r,
                                col: c,
                                born: epoch,
                                reproduced: fish_timer as u64,
                                ate: 0,
                            },
                        );
                    },
                    Some(CellType::Shark) => {
                        self.shark_list.add(
                            Particle {
                                row: r,
                                col: c,
                                born: epoch,
                                reproduced: shark_timer as u64,
                                ate: starve_timer as u64,
                            },
                        );
                    },
                    None => {},
                }
                true
            },
        }
    }

    /// Whether the targets fit the grid and the periods allow timers to be
    /// drawn.
    pub fn check_config(&self) -> (r: Result<(), ConfigError>)
        ensures
            r == match config_error(self@) {
                Some(e) => Err::<(), ConfigError>(e),
                None => Ok::<(), ConfigError>(()),
            },
    {
        let wanted: u64 = self.fish as u64 + self.sharks as u64;
        assert(self.width * self.height <= 0xffff_ffff * 0xffff_ffff) by (nonlinear_arith)
            requires
                self.width <= 0xffff_ffff,
                self.height <= 0xffff_ffff,
        ;
        let cells: u64 = (self.width as u64) * (self.height as u64);
        if wanted > cells {
            Err(ConfigError::Saturated)
        } else if wanted > 0 && (self.fish_spawn == 0 || self.shark_spawn == 0 || self.shark_starve
            == 0) {
            Err(ConfigError::ZeroPeriod)
        } else {
            Ok(())
        }
    }

    /// Populates the world from `seed`: first `fish` fish, then `sharks`
    /// sharks. A world that is initialised already is left alone.
    pub fn init(&mut self, seed: u32) -> (r: Result<(), ConfigError>)
        ensures
            final(self)@ == initialized_world(old(self)@, seed),
            r == initialization_result(old(self)@, seed),
            r.is_ok() ==> final(self).initialized,
            same_rules(
                final(self)@,
                (WorldView {
                    seed: final(self).seed,
                    initialized: final(self).initialized,
                    ..old(self)@
                }),
            ),
            settled(old(self)@) ==> settled(final(self)@),
            r.is_ok() && !old(self).initialized ==> final(self).fish_list@.len() == old(
                self,
            ).fish_list@.len() + old(self).fish && final(self).shark_list@.len() == old(
                self,
            ).shark_list@.len() + old(self).sharks,
    {
        proof {
            lemma_initialized(self@, seed);
        }
        if self.initialized {
            return Ok(());
        }
        match self.check_config() {
            Err(e) => {
                return Err(e);
            },
            Ok(_) => {},
        }
        assert(self.width * self.height > 0 ==> self.width > 0 && self.height > 0)
            by (nonlinear_arith);
        self.seed = seed;
        let mut rng = ComplementaryMultiplyWithCarryGen::new(seed);
        let ghost start = Placement { world: self@, gen: rng@, ok: true };
        let mut ok = true;
        let mut i: u32 = 0;
        while i < self.fish
            invariant
                i <= self.fish,
                self.fish == old(self).fish,
                self.sharks == old(self).sharks,
                self.fish + self.sharks > 0 ==> self.width > 0 && self.height > 0
                    && self.fish_spawn > 0 && self.shark_spawn > 0 && self.shark_starve > 0,
                (Placement { world: self@, gen: rng@, ok }) == populated(
                    start,
                    Some(CellType::Fish),
                    i as nat,
                ),
            decreases self.fish - i,
        {
            if ok {
                ok = self.initial_placement(Some(CellType::Fish), &mut rng);
            }
            i += 1;
        }
        let ghost middle = Placement { world: self@, gen: rng@, ok };
        let mut j: u32 = 0;
        while j < self.sharks
            invariant
                j <= self.sharks,
                self.sharks == old(self).sharks,
                self.fish == old(self).fish,
                self.fish + self.sharks > 0 ==> self.width > 0 && self.height > 0
                    && self.fish_spawn > 0 && self.shark_spawn > 0 && self.shark_starve > 0,
                (Placement { world: self@, gen: rng@, ok }) == populated(
                    middle,
                    Some(CellType::Shark),
                    j as nat,
                ),
            decreases self.sharks - j,
        {
            if ok {
                ok = self.initial_placement(Some(CellType::Shark), &mut rng);
            }
            j += 1;
        }
        if ok {
            self.initialized = true;
            Ok(())
        } else {
            Err(ConfigError::Exhausted)
        }
    }
}

} // verus!
