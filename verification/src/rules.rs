use vstd::prelude::*;
use crate::rand::{GenState, draw_value, draw_state, seeded};
use crate::particles::{Particle, occupied, with, without};

verus! {

/// Mathematical value of a world: its configuration, its counters and the
/// two populations as sequences.
pub struct WorldView {
    pub epoch: u64,
    pub time: u32,
    pub width: u32,
    pub height: u32,
    pub fish: u32,
    pub sharks: u32,
    pub fish_spawn: u32,
    pub shark_spawn: u32,
    pub shark_starve: u32,
    pub fish_list: Seq<Particle>,
    pub shark_list: Seq<Particle>,
    pub initialized: bool,
    pub seed: u32,
}

/// The coordinate one step up from `x` on a ring of `n` cells.
pub open spec fn ring_next(x: u32, n: u32) -> u32 {
    ((x as int + n as int + 1) % (n as int)) as u32
}

/// The coordinate one step down from `x` on a ring of `n` cells.
pub open spec fn ring_prev(x: u32, n: u32) -> u32 {
    ((x as int + n as int - 1) % (n as int)) as u32
}

/// The four neighbours of `(row, col)` on the torus, in the order in which
/// the rules look at them.
pub open spec fn neighbor_cells(width: u32, height: u32, row: u32, col: u32) -> Seq<(u32, u32)> {
    seq![
        (ring_next(row, height), col),
        (ring_prev(row, height), col),
        (row, ring_prev(col, width)),
        (row, ring_next(col, width)),
    ]
}

/// Those of the first `k` cells of `cells` that `ok` accepts, in order.
pub open spec fn select(cells: Seq<(u32, u32)>, ok: spec_fn((u32, u32)) -> bool, k: int) -> Seq<
    (u32, u32),
>
    decreases k,
{
    if k <= 0 || k > cells.len() {
        Seq::empty()
    } else if ok(cells[k - 1]) {
        select(cells, ok, k - 1).push(cells[k - 1])
    } else {
        select(cells, ok, k - 1)
    }
}

/// A cell a fish may swim to: nobody lives there now and no fish has
/// claimed it for the next population.
pub open spec fn fish_move_ok(w: WorldView, next_fish: Seq<Particle>) -> spec_fn(
    (u32, u32),
) -> bool {
    |c: (u32, u32)|
        !occupied(w.fish_list, c.0, c.1) && !occupied(w.shark_list, c.0, c.1) && !occupied(
            next_fish,
            c.0,
            c.1,
        )
}

/// A cell a shark may feed on: a fish of the next population is there and
/// no shark lives there now.
pub open spec fn feed_ok(w: WorldView, next_fish: Seq<Particle>) -> spec_fn((u32, u32)) -> bool {
    |c: (u32, u32)| occupied(next_fish, c.0, c.1) && !occupied(w.shark_list, c.0, c.1)
}

/// A cell a hungry shark may swim to: no shark lives there now and no shark
/// has claimed it for the next population.
pub open spec fn shark_move_ok(w: WorldView, next_sharks: Seq<Particle>) -> spec_fn(
    (u32, u32),
) -> bool {
    |c: (u32, u32)| !occupied(w.shark_list, c.0, c.1) && !occupied(next_sharks, c.0, c.1)
}

/// The cells that fish `f` may swim to.
pub open spec fn fish_targets(w: WorldView, next_fish: Seq<Particle>, f: Particle) -> Seq<
    (u32, u32),
> {
    select(neighbor_cells(w.width, w.height, f.row, f.col), fish_move_ok(w, next_fish), 4)
}

/// The cells on which shark `s` may feed.
pub open spec fn feed_targets(w: WorldView, next_fish: Seq<Particle>, s: Particle) -> Seq<
    (u32, u32),
> {
    select(neighbor_cells(w.width, w.height, s.row, s.col), feed_ok(w, next_fish), 4)
}

/// The cells that shark `s` may swim to when it finds nothing to eat.
pub open spec fn shark_targets(w: WorldView, next_sharks: Seq<Particle>, s: Particle) -> Seq<
    (u32, u32),
> {
    select(neighbor_cells(w.width, w.height, s.row, s.col), shark_move_ok(w, next_sharks), 4)
}

/// The cell that a draw of `x` picks among `targets`.
pub open spec fn pick(targets: Seq<(u32, u32)>, x: u32) -> (u32, u32) {
    targets[(x as int) % (targets.len() as int)]
}

/// A newborn on `(row, col)`.
pub open spec fn newborn(row: u32, col: u32, epoch: u64) -> Particle {
    Particle { row, col, born: epoch, ate: 0, reproduced: 0 }
}

/// `p` moved to `cell` with the given counters.
pub open spec fn moved(p: Particle, cell: (u32, u32), ate: int, reproduced: int) -> Particle {
    Particle { row: cell.0, col: cell.1, born: p.born, ate: ate as u64, reproduced: reproduced as u64 }
}

/// Whether an individual with counter `reproduced` gives birth when the
/// period is `spawn`.
pub open spec fn gives_birth(reproduced: u64, spawn: u32) -> bool {
    reproduced + 1 > spawn
}

/// Whether a shark with counter `ate` that found no food lives on when the
/// limit is `starve`.
pub open spec fn survives(ate: u64, starve: u32) -> bool {
    ate + 1 < starve
}

/// The next fish population and generator state after fish `f` had its
/// turn.
pub open spec fn fish_turn(w: WorldView, next_fish: Seq<Particle>, g: GenState, f: Particle) -> (
    Seq<Particle>,
    GenState,
) {
    let targets = fish_targets(w, next_fish, f);
    if targets.len() == 0 {
        (with(next_fish, moved(f, (f.row, f.col), 0, f.reproduced + 1)), g)
    } else {
        let cell = pick(targets, draw_value(g));
        if gives_birth(f.reproduced, w.fish_spawn) {
            (with(with(next_fish, newborn(f.row, f.col, w.epoch)), moved(f, cell, 0, 0)), draw_state(g))
        } else {
            (with(next_fish, moved(f, cell, 0, f.reproduced + 1)), draw_state(g))
        }
    }
}

/// Both next populations and the generator state between two turns of the
/// shark phase.
pub struct Progress {
    pub fish: Seq<Particle>,
    pub sharks: Seq<Particle>,
    pub gen: GenState,
}

/// The next shark population after a shark that found no food had its turn.
pub open spec fn hungry_turn(w: WorldView, next_sharks: Seq<Particle>, g: GenState, s: Particle) -> (
    Seq<Particle>,
    GenState,
) {
    let targets = shark_targets(w, next_sharks, s);
    if targets.len() == 0 {
        if survives(s.ate, w.shark_starve) {
            (with(next_sharks, moved(s, (s.row, s.col), s.ate + 1, s.reproduced + 1)), g)
        } else {
            (next_sharks, g)
        }
    } else {
        let cell = pick(targets, draw_value(g));
        let base = if gives_birth(s.reproduced, w.shark_spawn) {
            with(next_sharks, newborn(s.row, s.col, w.epoch))
        } else {
            next_sharks
        };
        let counter = if gives_birth(s.reproduced, w.shark_spawn) {
            0
        } else {
            s.reproduced + 1
        };
        if survives(s.ate, w.shark_starve) {
            (with(base, moved(s, cell, s.ate + 1, counter)), draw_state(g))
        } else {
            (base, draw_state(g))
        }
    }
}

/// Both next populations and the generator state after shark `s` had its
/// turn: it feeds where it can, and moves or stays otherwise.
pub open spec fn shark_turn(w: WorldView, p: Progress, s: Particle) -> Progress {
    let meals = feed_targets(w, p.fish, s);
    if meals.len() == 0 {
        let (sharks, gen) = hungry_turn(w, p.sharks, p.gen, s);
        Progress { fish: p.fish, sharks, gen }
    } else {
        let cell = pick(meals, draw_value(p.gen));
        let fish = without(p.fish, cell.0, cell.1);
        if gives_birth(s.reproduced, w.shark_spawn) {
            Progress {
                fish,
                sharks: with(with(p.sharks, newborn(s.row, s.col, w.epoch)), moved(s, cell, 0, 0)),
                gen: draw_state(p.gen),
            }
        } else {
            Progress {
                fish,
                sharks: with(p.sharks, moved(s, cell, 0, s.reproduced + 1)),
                gen: draw_state(p.gen),
            }
        }
    }
}

/// The next fish population and generator state after the first `k` fish
/// had their turns. The generator of a step is seeded with the world's
/// whole elapsed time.
pub open spec fn fish_phase(w: WorldView, k: int) -> (Seq<Particle>, GenState)
    decreases k,
{
    if k <= 0 || k > w.fish_list.len() {
        (Seq::empty(), seeded(w.time))
    } else {
        let (next_fish, g) = fish_phase(w, k - 1);
        fish_turn(w, next_fish, g, w.fish_list[k - 1])
    }
}

/// The state of the step after all fish and the first `k` sharks had their
/// turns.
pub open spec fn shark_phase(w: WorldView, k: int) -> Progress
    decreases k,
{
    if k <= 0 || k > w.shark_list.len() {
        let (fish, gen) = fish_phase(w, w.fish_list.len() as int);
        Progress { fish, sharks: Seq::empty(), gen }
    } else {
        shark_turn(w, shark_phase(w, k - 1), w.shark_list[k - 1])
    }
}

/// The world after one discrete step: both populations are replaced,
/// everything else stays.
pub open spec fn stepped(w: WorldView) -> WorldView {
    let done = shark_phase(w, w.shark_list.len() as int);
    WorldView { fish_list: done.fish, shark_list: done.sharks, ..w }
}

/// The world after the host reported `time` whole elapsed units: the epoch
/// advances by one and one step runs.
pub open spec fn updated(w: WorldView, time: u32) -> WorldView {
    stepped(WorldView { time, epoch: (w.epoch + 1) as u64, ..w })
}

/// Every counter of every member can be raised by one.
pub open spec fn can_age(s: Seq<Particle>) -> bool {
    forall|i: int|
        0 <= i < s.len() ==> (#[trigger] s[i]).ate < u64::MAX && s[i].reproduced < u64::MAX
}

} // verus!
