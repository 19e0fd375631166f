use wator::particles::{CellType, Particle, ParticleList};
use wator::placement::ConfigError;
use wator::rand::ComplementaryMultiplyWithCarryGen;
use wator::world::{new_world_data, pixel_position, WorldState};

fn cells_are_distinct(list: &ParticleList) -> bool {
    for i in 0..list.items.len() {
        for j in (i + 1)..list.items.len() {
            if list.items[i].row == list.items[j].row && list.items[i].col == list.items[j].col {
                return false;
            }
        }
    }
    true
}

#[test]
fn test_initial_placement() {
    let mut w: WorldState = WorldState::new(5, 5, 1, 1, 1, 1, 1);
    let mut rng = ComplementaryMultiplyWithCarryGen::new(42 as u32);

    w.initial_placement(Some(CellType::Fish), &mut rng);
    w.initial_placement(Some(CellType::Shark), &mut rng);

    assert!(w.fish_list._len() == 1);
    assert!(w.shark_list._len() == 1);
}

#[test]
fn test_neighbors() {
    let w: WorldState = WorldState::new(5, 5, 1, 1, 1, 1, 1);
    let mut corners = Vec::new();
    corners.push(w.neighbors(0, 0));
    corners.push(w.neighbors(0, w.width - 1));
    corners.push(w.neighbors(w.height - 1, 0));
    corners.push(w.neighbors(w.height - 1, w.width - 1));

    for v in corners.iter() {
        assert!(v.len() == 4);
    }

    let fix = vec![(4, 0), (1, 0), (0, 4), (0, 1)];
    for f in fix.iter() {
        assert!(corners[0].contains(f));
    }
    let fix = vec![(4, 4), (1, 4), (0, 3), (0, 0)];
    for f in fix.iter() {
        assert!(corners[1].contains(f));
    }
    let fix = vec![(3, 0), (0, 0), (4, 4), (4, 1)];
    for f in fix.iter() {
        assert!(corners[2].contains(f));
    }
    let fix = vec![(3, 4), (0, 4), (4, 3), (4, 0)];
    for f in fix.iter() {
        assert!(corners[3].contains(f));
    }
}

#[test]
fn test_init() {
    let mut w: WorldState = WorldState::new(5, 5, 1, 1, 1, 1, 1);
    assert!(!w.initialized);
    assert_eq!(w.init(42), Ok(()));
    assert!(w.initialized);

    assert!(w.fish_list._len() == 1);
    assert!(w.shark_list._len() == 1);
}

#[test]
fn find_random_empty_cell() {
    let w: WorldState = WorldState::new(5, 5, 1, 1, 1, 1, 1);
    let mut rng = ComplementaryMultiplyWithCarryGen::new(42 as u32);
    let (r, c) = w.find_random_empty_cell(&mut rng).unwrap();
    assert!(w.fish_list.find(r, c).is_none());
    assert!(w.shark_list.find(r, c).is_none());
    assert!(w.fish_list._len() == 0);
    assert!(w.shark_list._len() == 0);

    let mut w: WorldState = WorldState::new(5, 5, 1, 1, 1, 1, 1);
    for i in 0..24 {
        w.fish_list.add(Particle { row: i / 5, col: i % 5, born: 0, ate: 0, reproduced: 0 })
    }
    assert!(w.fish_list._len() == 24);
    assert!(w.fish_list.find(4, 4).is_none());
    let (r, c) = w.find_random_empty_cell(&mut rng).unwrap();
    assert!(r == 4);
    assert!(c == 4);
    assert!(w.shark_list.find(r, c).is_none());
}

#[test]
fn neighbors_come_in_fixed_order() {
    let w = WorldState::new(7, 5, 0, 0, 1, 1, 1);
    assert_eq!(w.neighbors(2, 3), vec![(3, 3), (1, 3), (2, 2), (2, 4)]);
    assert_eq!(w.neighbors(4, 6), vec![(0, 6), (3, 6), (4, 5), (4, 0)]);
    assert_eq!(w.neighbors(0, 0), vec![(1, 0), (4, 0), (0, 6), (0, 1)]);
}

#[test]
fn neighbors_on_the_largest_grid_do_not_overflow() {
    let w = WorldState::new(u32::MAX, u32::MAX, 0, 0, 1, 1, 1);
    let top = u32::MAX - 1;
    assert_eq!(w.neighbors(top, 0), vec![(0, 0), (top - 1, 0), (top, top), (top, 1)]);
}

#[test]
fn neighbors_on_a_single_cell_grid_are_the_cell() {
    let w = WorldState::new(1, 1, 0, 0, 1, 1, 1);
    assert_eq!(w.neighbors(0, 0), vec![(0, 0), (0, 0), (0, 0), (0, 0)]);
}

#[test]
fn new_world_is_empty_and_uninitialised() {
    let w = WorldState::new(100, 50, 100, 20, 5, 3, 5);
    assert_eq!(w.epoch, 0);
    assert_eq!(w.time, 0);
    assert_eq!((w.width, w.height, w.fish, w.sharks), (100, 50, 100, 20));
    assert_eq!((w.fish_spawn, w.shark_spawn, w.shark_starve), (5, 3, 5));
    assert_eq!(w.fish_list._len(), 0);
    assert_eq!(w.shark_list._len(), 0);
    assert!(!w.initialized);
    assert_eq!(w.seed, 0);
    let d = new_world_data(100, 50, 100, 20, 5, 3, 5);
    assert_eq!(d.world_state.width, 100);
    assert_eq!(d.world_state.shark_starve, 5);
    assert_eq!(d.world_state.fish_list._len(), 0);
}

#[test]
fn init_with_seed_42_places_at_fixed_cells() {
    let mut w = WorldState::new(5, 5, 1, 1, 1, 1, 1);
    assert_eq!(w.init(42), Ok(()));
    assert_eq!(w.seed, 42);
    assert_eq!(w.fish_list.items, vec![Particle { row: 4, col: 2, born: 0, ate: 0, reproduced: 0 }]);
    assert_eq!(w.shark_list.items, vec![Particle { row: 3, col: 1, born: 0, ate: 0, reproduced: 0 }]);
}

#[test]
fn init_draws_timers_below_the_periods() {
    let mut w = WorldState::new(100, 50, 100, 20, 5, 3, 5);
    assert_eq!(w.init(7), Ok(()));
    assert_eq!(w.fish_list._len(), 100);
    assert_eq!(w.shark_list._len(), 20);
    for f in w.fish_list.items.iter() {
        assert!(f.row < 50 && f.col < 100);
        assert!(f.reproduced < 5);
        assert_eq!(f.ate, 0);
        assert_eq!(f.born, 0);
        assert!(w.shark_list.find(f.row, f.col).is_none());
    }
    for s in w.shark_list.items.iter() {
        assert!(s.row < 50 && s.col < 100);
        assert!(s.reproduced < 3);
        assert!(s.ate < 5);
    }
    assert!(cells_are_distinct(&w.fish_list));
    assert!(cells_are_distinct(&w.shark_list));
}

#[test]
fn second_init_changes_nothing() {
    let mut w = WorldState::new(5, 5, 2, 2, 3, 3, 3);
    assert_eq!(w.init(42), Ok(()));
    let fish = w.fish_list.items.clone();
    let sharks = w.shark_list.items.clone();
    assert_eq!(w.init(43), Ok(()));
    assert!(w.initialized);
    assert_eq!(w.seed, 42);
    assert_eq!(w.fish_list.items, fish);
    assert_eq!(w.shark_list.items, sharks);
}

#[test]
fn init_rejects_a_saturated_grid() {
    let mut w = WorldState::new(2, 2, 3, 2, 1, 1, 1);
    assert_eq!(w.init(1), Err(ConfigError::Saturated));
    assert!(!w.initialized);
    assert_eq!(w.fish_list._len(), 0);
    let mut w = WorldState::new(0, 5, 1, 0, 1, 1, 1);
    assert_eq!(w.check_config(), Err(ConfigError::Saturated));
    assert_eq!(w.init(1), Err(ConfigError::Saturated));
}

#[test]
fn init_fills_a_grid_exactly() {
    let mut w = WorldState::new(2, 2, 3, 1, 1, 1, 1);
    assert_eq!(w.init(5), Ok(()));
    assert_eq!(w.fish_list._len(), 3);
    assert_eq!(w.shark_list._len(), 1);
}

#[test]
fn init_rejects_a_zero_period() {
    let mut w = WorldState::new(5, 5, 1, 1, 0, 1, 1);
    assert_eq!(w.init(1), Err(ConfigError::ZeroPeriod));
    let mut w = WorldState::new(5, 5, 1, 1, 1, 0, 1);
    assert_eq!(w.init(1), Err(ConfigError::ZeroPeriod));
    let mut w = WorldState::new(5, 5, 1, 1, 1, 1, 0);
    assert_eq!(w.init(1), Err(ConfigError::ZeroPeriod));
    assert!(!w.initialized);
}

#[test]
fn init_of_an_empty_population_needs_no_periods() {
    let mut w = WorldState::new(5, 5, 0, 0, 0, 0, 0);
    assert_eq!(w.init(1), Ok(()));
    assert!(w.initialized);
    assert_eq!(w.fish_list._len(), 0);
}

#[test]
fn placement_of_no_species_still_draws() {
    let mut w = WorldState::new(5, 5, 0, 0, 1, 1, 1);
    let mut rng = ComplementaryMultiplyWithCarryGen::new(42);
    assert!(w.initial_placement(None, &mut rng));
    assert_eq!(w.fish_list._len(), 0);
    assert_eq!(w.shark_list._len(), 0);
    assert_eq!(rng.i, 4);
}

#[test]
fn pixel_position_scales_and_offsets() {
    let p = Particle { row: 3, col: 7, born: 0, ate: 0, reproduced: 0 };
    assert_eq!(pixel_position(p), (35, 45));
    let p = Particle { row: u32::MAX, col: u32::MAX, born: 0, ate: 0, reproduced: 0 };
    assert_eq!(pixel_position(p), (21474836475, 21474836505));
}

#[test]
fn bounded_search_gives_up_on_a_full_grid() {
    let mut w = WorldState::new(1, 1, 0, 0, 1, 1, 1);
    w.shark_list.add(Particle { row: 0, col: 0, born: 0, ate: 0, reproduced: 0 });
    let mut rng = ComplementaryMultiplyWithCarryGen::new(42);
    assert_eq!(w.find_empty_cell_within(&mut rng, 5), None);
    assert_eq!(rng.i, 9);
    assert_eq!(w.find_empty_cell_within(&mut rng, 0), None);
    assert_eq!(rng.i, 9);
}

#[test]
fn bounded_search_finds_the_first_empty_cell_drawn() {
    let w = WorldState::new(5, 5, 0, 0, 1, 1, 1);
    let mut rng = ComplementaryMultiplyWithCarryGen::new(42);
    assert_eq!(w.find_empty_cell_within(&mut rng, 1), Some((4, 2)));
    assert_eq!(rng.i, 1);
    let mut w = WorldState::new(5, 5, 0, 0, 1, 1, 1);
    w.fish_list.add(Particle { row: 4, col: 2, born: 0, ate: 0, reproduced: 0 });
    let mut rng = ComplementaryMultiplyWithCarryGen::new(42);
    assert_eq!(w.find_empty_cell_within(&mut rng, 1), None);
    let mut rng = ComplementaryMultiplyWithCarryGen::new(42);
    assert_eq!(w.find_empty_cell_within(&mut rng, 2), Some((4, 1)));
}
