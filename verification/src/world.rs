use vstd::prelude::*;
use crate::rand::ComplementaryMultiplyWithCarryGen;
use crate::particles::{Particle, ParticleList};
use crate::rules::{
    can_age, feed_ok, feed_targets, fish_move_ok, fish_phase, fish_targets, fish_turn,
    hungry_turn, neighbor_cells, pick, select, shark_move_ok, shark_phase, shark_targets,
    shark_turn, stepped, updated, Progress, WorldView,
};
use crate::particles::unique;
use crate::invariants::{apart, lemma_update_settled, settled, LAST_EPOCH};
use crate::census::{lemma_step_census, meals, shark_deaths};
use crate::laws::{fish_births, lemma_step_conserves, lemma_step_unique, shark_births};

verus! {

/// A Wa-Tor world: a torus of `height` rows and `width` columns, the rules'
/// periods, and the two populations. `time` holds the whole units of elapsed
/// time that the host last reported; `epoch` counts steps in 64 bits.
pub struct WorldState {
    pub epoch: u64,
    pub time: u32,
    pub width: u32,
    pub height: u32,
    pub fish: u32,
    pub sharks: u32,
    pub fish_spawn: u32,
    pub shark_spawn: u32,
    pub shark_starve: u32,
    pub fish_list: ParticleList,
    pub shark_list: ParticleList,
    pub initialized: bool,
    pub seed: u32,
}

impl View for WorldState {
    type V = WorldView;

    open spec fn view(&self) -> WorldView {
        WorldView {
            epoch: self.epoch,
            time: self.time,
            width: self.width,
            height: self.height,
            fish: self.fish,
            sharks: self.sharks,
            fish_spawn: self.fish_spawn,
            shark_spawn: self.shark_spawn,
            shark_starve: self.shark_starve,
            fish_list: self.fish_list@,
            shark_list: self.shark_list@,
            initialized: self.initialized,
            seed: self.seed,
        }
    }
}

/// One step up on a ring of `n` cells.
fn ring_up(x: u32, n: u32) -> (y: u32)
    requires
        n > 0,
    ensures
        y == crate::rules::ring_next(x, n),
{
    ((x as u64 + n as u64 + 1) % (n as u64)) as u32
}

/// One step down on a ring of `n` cells.
fn ring_down(x: u32, n: u32) -> (y: u32)
    requires
        n > 0,
    ensures
        y == crate::rules::ring_prev(x, n),
{
    ((x as u64 + n as u64 - 1) % (n as u64)) as u32
}

/// Draws one value and picks a cell among `targets` with it.
fn pick_target(targets: &Vec<(u32, u32)>, rng: &mut ComplementaryMultiplyWithCarryGen) -> (cell: (
    u32,
    u32,
))
    requires
        targets@.len() > 0,
    ensures
        final(rng)@ == crate::rand::draw_state(old(rng)@),
        cell == pick(targets@, crate::rand::draw_value(old(rng)@)),
{
    let x: u32 = rng.random();
    let idx: usize = ((x as u64) % (targets.len() as u64)) as usize;
    targets[idx]
}

/// Whether every counter of every member of `list` is below its limit.
fn all_can_age(list: &ParticleList) -> (ok: bool)
    ensures
        ok == can_age(list@),
{
    let mut i: usize = 0;
    while i < list.items.len()
        invariant
            i <= list.items@.len(),
            forall|k: int|
                0 <= k < i ==> (#[trigger] list.items@[k]).ate < u64::MAX && list.items@[k].reproduced
                    < u64::MAX,
        decreases list.items@.len() - i,
    {
        let p = list.items[i];
        if p.ate == u64::MAX || p.reproduced == u64::MAX {
            return false;
        }
        i += 1;
    }
    true
}

/// Horizontal and vertical screen position of `p`: cells are 5 pixels wide
/// and high, below a band of 30 pixels.
pub fn pixel_position(p: Particle) -> (xy: (u64, u64))
    ensures
        xy.0 == p.col * 5,
        xy.1 == p.row * 5 + 30,
{
    ((p.col as u64) * 5, (p.row as u64) * 5 + 30)
}

/// The world that a host holds.
pub struct WorldData {
    pub world_state: WorldState,
}

/// A host's world with the given configuration, empty and uninitialised.
pub fn new_world_data(
    width: u32,
    height: u32,
    fish: u32,
    sharks: u32,
    fish_spawn: u32,
    shark_spawn: u32,
    shark_starve: u32,
) -> (d: WorldData)
    ensures
        d.world_state@ == (WorldView {
            epoch: 0,
            time: 0,
            width,
            height,
            fish,
            sharks,
            fish_spawn,
            shark_spawn,
            shark_starve,
            fish_list: Seq::empty(),
            shark_list: Seq::empty(),
            initialized: false,
            seed: 0,
        }),
{
    WorldData {
        world_state: WorldState::new(
            width,
            height,
            fish,
            sharks,
            fish_spawn,
            shark_spawn,
            shark_starve,
        ),
    }
}

impl WorldState {
    /// An empty, uninitialised world at epoch 0 and time 0.
    pub fn new(
        width: u32,
        height: u32,
        fish: u32,
        sharks: u32,
        fish_spawn: u32,
        shark_spawn: u32,
        shark_starve: u32,
    ) -> (w: WorldState)
        ensures
            w@ == (WorldView {
                epoch: 0,
                time: 0,
                width,
                height,
                fish,
                sharks,
                fish_spawn,
                shark_spawn,
                shark_starve,
                fish_list: Seq::empty(),
                shark_list: Seq::empty(),
                initialized: false,
                seed: 0,
            }),
            settled(w@),
    {
        WorldState {
            epoch: 0,
            time: 0,
            width,
            height,
            fish,
            sharks,
            fish_spawn,
            shark_spawn,
            shark_starve,
            fish_list: ParticleList::new(),
            shark_list: ParticleList::new(),
            initialized: false,
            seed: 0,
        }
    }

    /// The four toroidal neighbours of `(row, col)`.
    pub fn neighbors(&self, row: u32, col: u32) -> (n: Vec<(u32, u32)>)
        requires
            self.width > 0,
            self.height > 0,
        ensures
            n@ == neighbor_cells(self.width, self.height, row, col),
    {
        let mut n: Vec<(u32, u32)> = Vec::new();
        n.push((ring_up(row, self.height), col));
        n.push((ring_down(row, self.height), col));
        n.push((row, ring_down(col, self.width)));
        n.push((row, ring_up(col, self.width)));
        assert(n@ =~= neighbor_cells(self.width, self.height, row, col));
        n
    }

    /// The neighbours of `f` that are free for a fish to swim to.
    fn fish_move_targets(&self, next_fish: &ParticleList, f: Particle) -> (t: Vec<(u32, u32)>)
        requires
            self.width > 0,
            self.height > 0,
        ensures
            t@ == fish_targets(self@, next_fish@, f),
    {
        let n = self.neighbors(f.row, f.col);
        let mut t: Vec<(u32, u32)> = Vec::new();
        let mut i: usize = 0;
        while i < 4
            invariant
                i <= 4,
                n@.len() == 4,
                t@ == select(n@, fish_move_ok(self@, next_fish@), i as int),
            decreases 4 - i,
        {
            let (r, c) = n[i];
            if self.fish_list.find(r, c).is_none() && self.shark_list.find(r, c).is_none()
                && next_fish.find(r, c).is_none() {
                t.push((r, c));
            }
            i += 1;
        }
        t
    }

    /// The neighbours of `s` on which a shark can feed.
    fn shark_feed_targets(&self, next_fish: &ParticleList, s: Particle) -> (t: Vec<(u32, u32)>)
        requires
            self.width > 0,
            self.height > 0,
        ensures
            t@ == feed_targets(self@, next_fish@, s),
    {
        let n = self.neighbors(s.row, s.col);
        let mut t: Vec<(u32, u32)> = Vec::new();
        let mut i: usize = 0;
        while i < 4
            invariant
                i <= 4,
                n@.len() == 4,
                t@ == select(n@, feed_ok(self@, next_fish@), i as int),
            decreases 4 - i,
        {
            let (r, c) = n[i];
            if next_fish.find(r, c).is_some() && self.shark_list.find(r, c).is_none() {
                t.push((r, c));
            }
            i += 1;
        }
        t
    }

    /// The neighbours of `s` that are free for a shark to swim to.
    fn shark_move_targets(&self, next_sharks: &ParticleList, s: Particle) -> (t: Vec<(u32, u32)>)
        requires
            self.width > 0,
            self.height > 0,
        ensures
            t@ == shark_targets(self@, next_sharks@, s),
    {
        let n = self.neighbors(s.row, s.col);
        let mut t: Vec<(u32, u32)> = Vec::new();
        let mut i: usize = 0;
        while i < 4
            invariant
                i <= 4,
                n@.len() == 4,
                t@ == select(n@, shark_move_ok(self@, next_sharks@), i as int),
            decreases 4 - i,
        {
            let (r, c) = n[i];
            if self.shark_list.find(r, c).is_none() && next_sharks.find(r, c).is_none() {
                t.push((r, c));
            }
            i += 1;
        }
        t
    }

    /// The turn of fish `f`: it swims to a free neighbour, leaving a newborn
    /// behind when its period has passed, or ages where it is.
    pub fn move_fish(
        &self,
        next_fish: &mut ParticleList,
        rng: &mut ComplementaryMultiplyWithCarryGen,
        f: Particle,
    )
        requires
            self.width > 0,
            self.height > 0,
            f.reproduced < u64::MAX,
        ensures
            (final(next_fish)@, final(rng)@) == fish_turn(self@, old(next_fish)@, old(rng)@, f),
    {
        let targets = self.fish_move_targets(next_fish, f);
        if targets.len() == 0 {
            next_fish.add(
                Particle { row: f.row, col: f.col, ate: 0, born: f.born, reproduced: f.reproduced + 1 },
            );
        } else {
            let (r, c) = pick_target(&targets, rng);
            if f.reproduced + 1 > self.fish_spawn as u64 {
                next_fish.add(
                    Particle { row: f.row, col: f.col, born: self.epoch, ate: 0, reproduced: 0 },
                );
                next_fish.add(Particle { row: r, col: c, ate: 0, born: f.born, reproduced: 0 });
            } else {
                next_fish.add(
                    Particle { row: r, col: c, ate: 0, born: f.born, reproduced: f.reproduced + 1 },
                );
            }
        }
    }

    /// The turn of a shark that found nothing to eat: it swims to a free
    /// neighbour or stays, and lives on only below the starvation limit.
    fn move_hungry_shark(
        &self,
        next_sharks: &mut ParticleList,
        rng: &mut ComplementaryMultiplyWithCarryGen,
        s: Particle,
    )
        requires
            self.width > 0,
            self.height > 0,
            s.reproduced < u64::MAX,
            s.ate < u64::MAX,
        ensures
            (final(next_sharks)@, final(rng)@) == hungry_turn(
                self@,
                old(next_sharks)@,
                old(rng)@,
                s,
            ),
    {
        let targets = self.shark_move_targets(next_sharks, s);
        if targets.len() == 0 {
            if s.ate + 1 < self.shark_starve as u64 {
                next_sharks.add(
                    Particle {
                        row: s.row,
                        col: s.col,
                        ate: s.ate + 1,
                        born: s.born,
                        reproduced: s.reproduced + 1,
                    },
                );
            }
        } else {
            let (r, c) = pick_target(&targets, rng);
            if s.reproduced + 1 > self.shark_spawn as u64 {
                next_sharks.add(
                    Particle { row: s.row, col: s.col, born: self.epoch, ate: 0, reproduced: 0 },
                );
                if s.ate + 1 < self.shark_starve as u64 {
                    next_sharks.add(
                        Particle { row: r, col: c, ate: s.ate + 1, born: s.born, reproduced: 0 },
                    );
                }
            } else {
                if s.ate + 1 < self.shark_starve as u64 {
                    next_sharks.add(
                        Particle {
                            row: r,
                            col: c,
                            ate: s.ate + 1,
                            born: s.born,
                            reproduced: s.reproduced + 1,
                        },
                    );
                }
            }
        }
    }

    /// The turn of shark `s`: it eats a neighbouring fish of the next
    /// population if there is one, and otherwise moves on hungry.
    pub fn move_shark(
        &self,
        next_fish: &mut ParticleList,
        next_sharks: &mut ParticleList,
        rng: &mut ComplementaryMultiplyWithCarryGen,
        s: Particle,
    )
        requires
            self.width > 0,
            self.height > 0,
            s.reproduced < u64::MAX,
            s.ate < u64::MAX,
        ensures
            (Progress { fish: final(next_fish)@, sharks: final(next_sharks)@, gen: final(rng)@ })
                == shark_turn(
                self@,
                (Progress { fish: old(next_fish)@, sharks: old(next_sharks)@, gen: old(rng)@ }),
                s,
            ),
    {
        let meals = self.shark_feed_targets(next_fish, s);
        if meals.len() == 0 {
            self.move_hungry_shark(next_sharks, rng, s);
        } else {
            let (r, c) = pick_target(&meals, rng);
            next_fish.remove_at(r, c);
            if s.reproduced + 1 > self.shark_spawn as u64 {
                next_sharks.add(
                    Particle { row: s.row, col: s.col, born: self.epoch, ate: 0, reproduced: 0 },
                );
                next_sharks.add(Particle { row: r, col: c, ate: 0, born: s.born, reproduced: 0 });
            } else {
                next_sharks.add(
                    Particle { row: r, col: c, ate: 0, born: s.born, reproduced: s.reproduced + 1 },
                );
            }
        }
    }

    /// Runs one discrete step: every fish has its turn, then every shark,
    /// and the two populations are replaced by the next ones.
    pub fn advance(&mut self)
        requires
            old(self).width > 0,
            old(self).height > 0,
            can_age(old(self).fish_list@),
            can_age(old(self).shark_list@),
        ensures
            final(self)@ == stepped(old(self)@),
            unique(final(self).fish_list@),
            unique(final(self).shark_list@),
            final(self).fish_list@.len() <= old(self).fish_list@.len() + fish_births(
                old(self)@,
                old(self).fish_list@.len() as int,
            ),
            final(self).shark_list@.len() <= old(self).shark_list@.len() + shark_births(
                old(self)@,
                old(self).shark_list@.len() as int,
            ),
            unique(old(self).fish_list@) && unique(old(self).shark_list@) && apart(
                old(self).fish_list@,
                old(self).shark_list@,
            ) ==> {
                &&& final(self).fish_list@.len() == old(self).fish_list@.len() + fish_births(
                    old(self)@,
                    old(self).fish_list@.len() as int,
                ) - meals(old(self)@, old(self).shark_list@.len() as int)
                &&& final(self).shark_list@.len() == old(self).shark_list@.len() + shark_births(
                    old(self)@,
                    old(self).shark_list@.len() as int,
                ) - shark_deaths(old(self)@, old(self).shark_list@.len() as int)
            },
    {
        proof {
            lemma_step_unique(self@);
            lemma_step_conserves(self@);
            if unique(self.fish_list@) && unique(self.shark_list@) && apart(
                self.fish_list@,
                self.shark_list@,
            ) {
                lemma_step_census(self@);
            }
        }
        let mut next_fish = ParticleList::new();
        let mut next_sharks = ParticleList::new();
        let mut rng = ComplementaryMultiplyWithCarryGen::new(self.time);
        let mut i: usize = 0;
        while i < self.fish_list.items.len()
            invariant
                *self == *old(self),
                self.width > 0,
                self.height > 0,
                can_age(self.fish_list@),
                i <= self.fish_list@.len(),
                (next_fish@, rng@) == fish_phase(self@, i as int),
            decreases self.fish_list@.len() - i,
        {
            let f = self.fish_list.items[i];
            self.move_fish(&mut next_fish, &mut rng, f);
            i += 1;
        }
        let mut j: usize = 0;
        while j < self.shark_list.items.len()
            invariant
                *self == *old(self),
                self.width > 0,
                self.height > 0,
                can_age(self.shark_list@),
                j <= self.shark_list@.len(),
                (Progress { fish: next_fish@, sharks: next_sharks@, gen: rng@ }) == shark_phase(
                    self@,
                    j as int,
                ),
            decreases self.shark_list@.len() - j,
        {
            let s = self.shark_list.items[j];
            self.move_shark(&mut next_fish, &mut next_sharks, &mut rng, s);
            j += 1;
        }
        self.fish_list = next_fish;
        self.shark_list = next_sharks;
    }

    /// Whether a step can run: the grid has cells, and the epoch and every
    /// counter can be raised by one.
    pub fn step_ready(&self) -> (ready: bool)
        ensures
            ready == (self.width > 0 && self.height > 0 && self.epoch < u64::MAX && can_age(
                self.fish_list@,
            ) && can_age(self.shark_list@)),
    {
        self.width > 0 && self.height > 0 && self.epoch < u64::MAX && all_can_age(&self.fish_list)
            && all_can_age(&self.shark_list)
    }

    /// Records the whole units of elapsed time that the host reports, counts
    /// one more epoch and runs one step.
    pub fn update_time(&mut self, time: u32)
        requires
            old(self).width > 0,
            old(self).height > 0,
            old(self).epoch < u64::MAX,
            can_age(old(self).fish_list@),
            can_age(old(self).shark_list@),
        ensures
            final(self)@ == updated(old(self)@, time),
            final(self).epoch == old(self).epoch + 1,
            final(self).time == time,
            unique(final(self).fish_list@),
            unique(final(self).shark_list@),
            final(self).fish_list@.len() <= 2 * old(self).fish_list@.len(),
            final(self).shark_list@.len() <= 2 * old(self).shark_list@.len(),
            settled(old(self)@) && old(self).epoch <= LAST_EPOCH ==> settled(final(self)@),
    {
        proof {
            if settled(self@) && self.epoch <= LAST_EPOCH {
                lemma_update_settled(self@, time);
            }
            let w = WorldView { time, epoch: (self.epoch + 1) as u64, ..self@ };
            lemma_step_conserves(w);
        }
        self.time = time;
        self.epoch += 1;
        self.advance();
    }
}

} // verus!
