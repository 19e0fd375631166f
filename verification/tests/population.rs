use wator::particles::{Particle, ParticleList};

fn particle(row: u32, col: u32) -> Particle {
    Particle { row, col, ate: 0, reproduced: 0, born: 0 }
}

#[test]
fn test_particle_list_remove_at() {
    let mut p = ParticleList::new();
    p.add(Particle { row: 0, col: 0, ate: 0, reproduced: 0, born: 0 });
    p.add(Particle { row: 1, col: 0, ate: 0, reproduced: 0, born: 0 });
    p.add(Particle { row: 0, col: 1, ate: 0, reproduced: 0, born: 0 });
    p.add(Particle { row: 1, col: 1, ate: 0, reproduced: 0, born: 0 });
    assert!(p._len() == 4);
    p.remove_at(1, 1);
    assert!(p._len() == 3);
    assert!(p.find(1, 1).is_none());
}

#[test]
fn new_list_is_empty() {
    let p = ParticleList::new();
    assert_eq!(p._len(), 0);
    assert!(p.find(0, 0).is_none());
}

#[test]
fn add_replaces_the_occupant() {
    let mut p = ParticleList::new();
    p.add(Particle { row: 2, col: 3, ate: 1, reproduced: 2, born: 3 });
    p.add(particle(0, 0));
    p.add(Particle { row: 2, col: 3, ate: 7, reproduced: 8, born: 9 });
    assert_eq!(p._len(), 2);
    assert_eq!(p.find(2, 3), Some(Particle { row: 2, col: 3, ate: 7, reproduced: 8, born: 9 }));
    assert_eq!(p.items[0], particle(0, 0));
    assert_eq!(p.items[1], Particle { row: 2, col: 3, ate: 7, reproduced: 8, born: 9 });
}

#[test]
fn remove_of_absent_cell_changes_nothing() {
    let mut p = ParticleList::new();
    p.add(particle(0, 0));
    p.add(particle(0, 1));
    p.remove_at(1, 0);
    assert_eq!(p._len(), 2);
    assert_eq!(p.items, vec![particle(0, 0), particle(0, 1)]);
}

#[test]
fn remove_keeps_order_of_the_rest() {
    let mut p = ParticleList::new();
    p.add(particle(0, 0));
    p.add(particle(0, 1));
    p.add(particle(0, 2));
    p.remove_at(0, 1);
    assert_eq!(p.items, vec![particle(0, 0), particle(0, 2)]);
}

#[test]
fn find_returns_the_member_on_the_cell() {
    let mut p = ParticleList::new();
    p.add(Particle { row: 4, col: 1, ate: 5, reproduced: 6, born: 7 });
    p.add(particle(1, 4));
    assert_eq!(p.find(4, 1), Some(Particle { row: 4, col: 1, ate: 5, reproduced: 6, born: 7 }));
    assert_eq!(p.find(1, 4), Some(particle(1, 4)));
    assert_eq!(p.find(1, 1), None);
}

#[test]
fn find_returns_the_first_of_two_on_a_cell() {
    let mut p = ParticleList::new();
    p.items.push(Particle { row: 1, col: 1, ate: 1, reproduced: 0, born: 0 });
    p.items.push(Particle { row: 1, col: 1, ate: 2, reproduced: 0, born: 0 });
    assert_eq!(p.find(1, 1).unwrap().ate, 1);
    p.remove_at(1, 1);
    assert_eq!(p._len(), 0);
}
