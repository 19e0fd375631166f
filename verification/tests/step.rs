use wator::particles::{Particle, ParticleList};
use wator::rand::ComplementaryMultiplyWithCarryGen;
use wator::world::WorldState;

fn distinct(list: &ParticleList) -> bool {
    for i in 0..list.items.len() {
        for j in (i + 1)..list.items.len() {
            if list.items[i].row == list.items[j].row && list.items[i].col == list.items[j].col {
                return false;
            }
        }
    }
    true
}

fn fish(row: u32, col: u32, reproduced: u64) -> Particle {
    Particle { row, col, born: 0, ate: 0, reproduced }
}

#[test]
fn two_runs_agree_at_every_step() {
    let mut a = WorldState::new(20, 10, 40, 10, 3, 4, 3);
    let mut b = WorldState::new(20, 10, 40, 10, 3, 4, 3);
    assert_eq!(a.init(42), Ok(()));
    assert_eq!(b.init(42), Ok(()));
    for step in 0..50u32 {
        assert!(a.step_ready());
        a.update_time(step / 2);
        b.update_time(step / 2);
        assert_eq!(a.epoch, b.epoch);
        assert_eq!(a.fish_list.items, b.fish_list.items);
        assert_eq!(a.shark_list.items, b.shark_list.items);
    }
}

#[test]
fn cells_stay_unique_and_counts_bounded() {
    let mut w = WorldState::new(12, 9, 30, 12, 2, 3, 4);
    assert_eq!(w.init(9), Ok(()));
    for step in 0..60u32 {
        let fish_before = w.fish_list._len();
        let sharks_before = w.shark_list._len();
        w.update_time(step);
        assert!(distinct(&w.fish_list));
        assert!(distinct(&w.shark_list));
        assert!(w.fish_list._len() <= 2 * fish_before);
        assert!(w.shark_list._len() <= 2 * sharks_before);
        for f in w.fish_list.items.iter() {
            assert!(w.shark_list.find(f.row, f.col).is_none());
            assert!(f.row < 9 && f.col < 12);
        }
    }
}

#[test]
fn update_time_counts_epochs_and_keeps_time() {
    let mut w = WorldState::new(5, 5, 0, 0, 1, 1, 1);
    w.update_time(17);
    assert_eq!(w.epoch, 1);
    assert_eq!(w.time, 17);
    w.update_time(17);
    assert_eq!(w.epoch, 2);
    assert_eq!(w.fish_list._len(), 0);
    assert_eq!(w.shark_list._len(), 0);
}

#[test]
fn equal_times_give_equal_draws() {
    let mut a = WorldState::new(9, 9, 0, 0, 10, 10, 10);
    a.fish_list.add(fish(4, 4, 0));
    let mut b = WorldState::new(9, 9, 0, 0, 10, 10, 10);
    b.fish_list.add(fish(4, 4, 5));
    a.update_time(3);
    b.update_time(3);
    assert_eq!(a.fish_list.items[0].row, b.fish_list.items[0].row);
    assert_eq!(a.fish_list.items[0].col, b.fish_list.items[0].col);
}

#[test]
fn lone_fish_moves_to_the_drawn_neighbor() {
    let mut w = WorldState::new(5, 5, 0, 0, 10, 10, 10);
    w.fish_list.add(Particle { row: 2, col: 2, born: 0, ate: 9, reproduced: 4 });
    w.update_time(42);
    let first = ComplementaryMultiplyWithCarryGen::new(42).random();
    assert_eq!(first, 4293816014);
    let cell = w.neighbors(2, 2)[(first % 4) as usize];
    assert_eq!(cell, (2, 1));
    assert_eq!(w.fish_list.items, vec![Particle { row: 2, col: 1, born: 0, ate: 0, reproduced: 5 }]);
}

#[test]
fn fish_at_the_period_does_not_reproduce() {
    let mut w = WorldState::new(5, 5, 0, 0, 3, 3, 3);
    w.fish_list.add(fish(2, 2, 2));
    w.update_time(1);
    assert_eq!(w.fish_list._len(), 1);
    assert_eq!(w.fish_list.items[0].reproduced, 3);
    assert!(w.fish_list.find(2, 2).is_none());
}

#[test]
fn fish_above_the_period_reproduces() {
    let mut w = WorldState::new(5, 5, 0, 0, 3, 3, 3);
    w.fish_list.add(Particle { row: 2, col: 2, born: 0, ate: 0, reproduced: 3 });
    w.update_time(1);
    assert_eq!(w.fish_list._len(), 2);
    assert_eq!(w.fish_list.items[0], Particle { row: 2, col: 2, born: 1, ate: 0, reproduced: 0 });
    let parent = w.fish_list.items[1];
    assert_eq!((parent.born, parent.ate, parent.reproduced), (0, 0, 0));
    assert!(w.neighbors(2, 2).contains(&(parent.row, parent.col)));
}

#[test]
fn zero_fish_period_reproduces_at_once() {
    let mut w = WorldState::new(5, 5, 0, 0, 0, 0, 0);
    w.fish_list.add(fish(1, 1, 0));
    w.update_time(0);
    assert_eq!(w.fish_list._len(), 2);
}

#[test]
fn boxed_in_fish_ages_in_place() {
    let mut w = WorldState::new(3, 3, 0, 0, 1, 1, 1);
    for i in 0..9u32 {
        w.fish_list.add(Particle { row: i / 3, col: i % 3, born: 0, ate: 4, reproduced: 7 });
    }
    w.update_time(5);
    assert_eq!(w.fish_list._len(), 9);
    for i in 0..9u32 {
        assert_eq!(
            w.fish_list.items[i as usize],
            Particle { row: i / 3, col: i % 3, born: 0, ate: 0, reproduced: 8 }
        );
    }
}

#[test]
fn shark_at_the_starvation_boundary_dies() {
    let mut w = WorldState::new(5, 5, 0, 0, 10, 10, 4);
    w.shark_list.add(Particle { row: 2, col: 2, born: 0, ate: 3, reproduced: 0 });
    w.update_time(1);
    assert_eq!(w.shark_list._len(), 0);
}

#[test]
fn shark_below_the_starvation_boundary_lives() {
    let mut w = WorldState::new(5, 5, 0, 0, 10, 10, 4);
    w.shark_list.add(Particle { row: 2, col: 2, born: 0, ate: 2, reproduced: 0 });
    w.update_time(1);
    assert_eq!(w.shark_list._len(), 1);
    let s = w.shark_list.items[0];
    assert_eq!((s.born, s.ate, s.reproduced), (0, 3, 1));
    assert!(w.neighbors(2, 2).contains(&(s.row, s.col)));
    w.update_time(2);
    assert_eq!(w.shark_list._len(), 0);
}

#[test]
fn starving_shark_still_leaves_its_newborn() {
    let mut w = WorldState::new(5, 5, 0, 0, 10, 2, 4);
    w.shark_list.add(Particle { row: 2, col: 2, born: 0, ate: 3, reproduced: 2 });
    w.update_time(1);
    assert_eq!(w.shark_list.items, vec![Particle { row: 2, col: 2, born: 1, ate: 0, reproduced: 0 }]);
}

#[test]
fn boxed_in_shark_ages_or_starves_in_place() {
    let mut w = WorldState::new(1, 1, 0, 0, 10, 10, 3);
    w.shark_list.add(Particle { row: 0, col: 0, born: 0, ate: 0, reproduced: 0 });
    w.update_time(1);
    assert_eq!(w.shark_list.items, vec![Particle { row: 0, col: 0, born: 0, ate: 1, reproduced: 1 }]);
    w.update_time(2);
    assert_eq!(w.shark_list.items, vec![Particle { row: 0, col: 0, born: 0, ate: 2, reproduced: 2 }]);
    w.update_time(3);
    assert_eq!(w.shark_list._len(), 0);
}

#[test]
fn shark_at_the_period_does_not_reproduce() {
    let mut w = WorldState::new(5, 5, 0, 0, 10, 3, 10);
    w.shark_list.add(Particle { row: 2, col: 2, born: 0, ate: 0, reproduced: 2 });
    w.update_time(1);
    assert_eq!(w.shark_list._len(), 1);
    assert_eq!(w.shark_list.items[0].reproduced, 3);
    w.update_time(2);
    assert_eq!(w.shark_list._len(), 2);
    assert_eq!(w.shark_list.items[0].born, 2);
    assert_eq!(w.shark_list.items[1].reproduced, 0);
    assert_eq!(w.shark_list.items[1].ate, 2);
}

#[test]
fn shark_eats_its_only_neighboring_fish() {
    let w = WorldState::new(5, 5, 0, 0, 10, 10, 10);
    let mut w = w;
    let shark = Particle { row: 2, col: 2, born: 0, ate: 5, reproduced: 1 };
    w.shark_list.add(shark);
    let mut next_fish = ParticleList::new();
    next_fish.add(Particle { row: 2, col: 3, born: 0, ate: 0, reproduced: 1 });
    next_fish.add(Particle { row: 0, col: 0, born: 0, ate: 0, reproduced: 1 });
    let mut next_sharks = ParticleList::new();
    let mut rng = ComplementaryMultiplyWithCarryGen::new(0);
    w.move_shark(&mut next_fish, &mut next_sharks, &mut rng, shark);
    assert_eq!(next_fish.items, vec![Particle { row: 0, col: 0, born: 0, ate: 0, reproduced: 1 }]);
    assert_eq!(next_sharks.items, vec![Particle { row: 2, col: 3, born: 0, ate: 0, reproduced: 2 }]);
    assert_eq!(rng.i, 0);
}

#[test]
fn feeding_shark_above_the_period_reproduces() {
    let mut w = WorldState::new(5, 5, 0, 0, 10, 1, 10);
    w.epoch = 6;
    let shark = Particle { row: 2, col: 2, born: 3, ate: 5, reproduced: 1 };
    w.shark_list.add(shark);
    let mut next_fish = ParticleList::new();
    next_fish.add(Particle { row: 1, col: 2, born: 0, ate: 0, reproduced: 1 });
    let mut next_sharks = ParticleList::new();
    let mut rng = ComplementaryMultiplyWithCarryGen::new(0);
    w.move_shark(&mut next_fish, &mut next_sharks, &mut rng, shark);
    assert_eq!(next_fish._len(), 0);
    assert_eq!(
        next_sharks.items,
        vec![
            Particle { row: 2, col: 2, born: 6, ate: 0, reproduced: 0 },
            Particle { row: 1, col: 2, born: 3, ate: 0, reproduced: 0 },
        ]
    );
}

#[test]
fn shark_does_not_feed_where_a_shark_lives() {
    let mut w = WorldState::new(5, 5, 0, 0, 10, 10, 10);
    let shark = Particle { row: 2, col: 2, born: 0, ate: 0, reproduced: 0 };
    w.shark_list.add(shark);
    w.shark_list.add(Particle { row: 2, col: 3, born: 0, ate: 0, reproduced: 0 });
    let mut next_fish = ParticleList::new();
    next_fish.add(Particle { row: 2, col: 3, born: 0, ate: 0, reproduced: 1 });
    let mut next_sharks = ParticleList::new();
    let mut rng = ComplementaryMultiplyWithCarryGen::new(0);
    w.move_shark(&mut next_fish, &mut next_sharks, &mut rng, shark);
    assert_eq!(next_fish._len(), 1);
    assert_eq!(next_sharks._len(), 1);
    assert_eq!(next_sharks.items[0].ate, 1);
    assert!((next_sharks.items[0].row, next_sharks.items[0].col) != (2, 3));
}

#[test]
fn fish_avoids_claimed_and_occupied_cells() {
    let mut w = WorldState::new(5, 5, 0, 0, 10, 10, 10);
    let f = Particle { row: 2, col: 2, born: 0, ate: 0, reproduced: 0 };
    w.fish_list.add(f);
    w.fish_list.add(Particle { row: 3, col: 2, born: 0, ate: 0, reproduced: 0 });
    w.shark_list.add(Particle { row: 1, col: 2, born: 0, ate: 0, reproduced: 0 });
    let mut next_fish = ParticleList::new();
    next_fish.add(Particle { row: 2, col: 1, born: 0, ate: 0, reproduced: 0 });
    let mut rng = ComplementaryMultiplyWithCarryGen::new(0);
    w.move_fish(&mut next_fish, &mut rng, f);
    assert_eq!(next_fish._len(), 2);
    assert_eq!(next_fish.items[1], Particle { row: 2, col: 3, born: 0, ate: 0, reproduced: 1 });
}

#[test]
fn step_ready_sees_a_counter_at_its_limit() {
    let mut w = WorldState::new(5, 5, 0, 0, 1, 1, 1);
    assert!(w.step_ready());
    w.fish_list.add(Particle { row: 0, col: 0, born: 0, ate: 0, reproduced: u64::MAX });
    assert!(!w.step_ready());
    let mut w = WorldState::new(5, 5, 0, 0, 1, 1, 1);
    w.epoch = u64::MAX;
    assert!(!w.step_ready());
    let w = WorldState::new(0, 5, 0, 0, 1, 1, 1);
    assert!(!w.step_ready());
}
