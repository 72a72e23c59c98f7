use particle_life::atom::{seed, Atom};
use particle_life::relation::Relation;
use particle_life::simulation::{RequestError, RestartError, SetupError, Simulation};

fn numbered(n: usize) -> Relation<i32> {
    let mut r = Relation::new(n, 0);
    for i in 0..n {
        for j in 0..n {
            r.set((10 * i + j) as i32, i, j);
        }
    }
    r
}

fn positions(n: usize) -> Vec<(f32, f32)> {
    (0..n).map(|i| (i as f32, -(i as f32))).collect()
}

#[test]
fn relation_new_is_uniform() {
    let r = Relation::new(3, 0.0f32);
    assert_eq!(r.dim(), 3);
    for i in 0..3 {
        for j in 0..3 {
            assert_eq!(r.get(i, j), 0.0);
        }
    }
}

#[test]
fn relation_set_changes_one_cell() {
    let mut r = Relation::new(2, 0.0f32);
    r.set(0.1, 0, 1);
    assert_eq!(r.get(0, 1), 0.1);
    assert_eq!(r.get(1, 0), 0.0);
    assert_eq!(r.get(0, 0), 0.0);
    assert_eq!(r.get(1, 1), 0.0);
}

#[test]
fn resize_to_same_size_is_identity() {
    let r = numbered(3);
    let s = r.resize_preserving(3, -1);
    assert_eq!(s.table, r.table);
}

#[test]
fn resize_grow_keeps_block_and_fills_rest() {
    let r = numbered(2);
    let s = r.resize_preserving(4, -1);
    assert_eq!(s.dim(), 4);
    for i in 0..4 {
        for j in 0..4 {
            let want = if i < 2 && j < 2 { (10 * i + j) as i32 } else { -1 };
            assert_eq!(s.get(i, j), want);
        }
    }
}

#[test]
fn resize_shrink_keeps_block() {
    let r = numbered(4);
    let s = r.resize_preserving(2, -1);
    assert_eq!(s.table, vec![vec![0, 1], vec![10, 11]]);
}

#[test]
fn overlay_takes_new_cells_from_fresh() {
    let r = numbered(1);
    let fresh = Relation::new(2, 7);
    let s = r.overlaid_on(&fresh);
    assert_eq!(s.table, vec![vec![0, 7], vec![7, 7]]);
}

#[test]
fn seed_is_round_robin_at_rest() {
    let atoms = seed(&positions(7), (0.0, 0.0), 3);
    let species: Vec<usize> = atoms.iter().map(|a| a.t).collect();
    assert_eq!(species, vec![0, 1, 2, 0, 1, 2, 0]);
    for (i, a) in atoms.iter().enumerate() {
        assert_eq!(a.pos, (i as f32, -(i as f32)));
        assert_eq!(a.vel, (0.0, 0.0));
    }
}

#[test]
fn new_without_species_is_refused() {
    let r = Simulation::new(&positions(4), (0.0, 0.0), Relation::new(0, 0.0f32));
    assert_eq!(r.err(), Some(SetupError::NoSpecies));
}

#[test]
fn new_builds_consistent_state() {
    let s = Simulation::new(&positions(5), (0.0, 0.0), numbered(2)).unwrap();
    assert_eq!(s.num, 5);
    assert_eq!(s.pn, 5);
    assert_eq!(s.num_t, 2);
    assert_eq!(s.pnt, 2);
    assert!(!s.paused);
    assert!(!s.needs_restart());
    assert_eq!(s.atoms.iter().map(|a| a.t).collect::<Vec<_>>(), vec![0, 1, 0, 1, 0]);
}

#[test]
fn request_zero_species_is_refused() {
    let mut s = Simulation::new(&positions(5), (0.0, 0.0), numbered(2)).unwrap();
    assert_eq!(s.request(10, 0), Err(RequestError::NoSpecies));
    assert_eq!(s.pn, 5);
    assert_eq!(s.pnt, 2);
    assert_eq!(s.request(10, 3), Ok(()));
    assert_eq!(s.pn, 10);
    assert_eq!(s.pnt, 3);
    assert!(s.needs_restart());
}

#[test]
fn restart_without_request_does_nothing() {
    let mut s = Simulation::new(&positions(5), (0.0, 0.0), numbered(2)).unwrap();
    let r = s.maybe_restart(&positions(9), (0.0, 0.0), &Relation::new(4, 9));
    assert_eq!(r, Ok(false));
    assert_eq!(s.num, 5);
    assert_eq!(s.atoms.len(), 5);
    assert_eq!(s.rel.table, numbered(2).table);
}

#[test]
fn restart_with_wrong_position_count_is_refused() {
    let mut s = Simulation::new(&positions(5), (0.0, 0.0), numbered(2)).unwrap();
    s.request(8, 2).unwrap();
    let r = s.maybe_restart(&positions(7), (0.0, 0.0), &Relation::new(2, 9));
    assert_eq!(r, Err(RestartError::PositionCount));
    assert_eq!(s.num, 5);
    assert_eq!(s.atoms.len(), 5);
}

#[test]
fn restart_with_wrong_relation_size_is_refused() {
    let mut s = Simulation::new(&positions(5), (0.0, 0.0), numbered(2)).unwrap();
    s.request(8, 3).unwrap();
    let r = s.maybe_restart(&positions(8), (0.0, 0.0), &Relation::new(2, 9));
    assert_eq!(r, Err(RestartError::RelationSize));
    assert_eq!(s.num_t, 2);
    assert_eq!(s.rel.table, numbered(2).table);
}

#[test]
fn population_restart_keeps_relation() {
    let mut s = Simulation::new(&positions(5), (0.0, 0.0), numbered(3)).unwrap();
    s.request(11, 3).unwrap();
    let r = s.maybe_restart(&positions(11), (0.0, 0.0), &Relation::new(3, 9));
    assert_eq!(r, Ok(true));
    assert_eq!(s.rel.table, numbered(3).table);
    assert_eq!(s.num, 11);
    assert_eq!(s.atoms.len(), 11);
    assert!(!s.needs_restart());
}

#[test]
fn species_restart_preserves_shared_block() {
    let mut s = Simulation::new(&positions(5), (0.0, 0.0), numbered(2)).unwrap();
    s.request(6, 3).unwrap();
    let r = s.maybe_restart(&positions(6), (0.0, 0.0), &Relation::new(3, 9));
    assert_eq!(r, Ok(true));
    assert_eq!(s.rel.table, vec![vec![0, 1, 9], vec![10, 11, 9], vec![9, 9, 9]]);
    assert_eq!(s.num_t, 3);
    assert_eq!(s.atoms.iter().map(|a| a.t).collect::<Vec<_>>(), vec![0, 1, 2, 0, 1, 2]);
}

#[test]
fn restart_species_counts_are_fair() {
    let mut s = Simulation::new(&positions(5), (0.0, 0.0), numbered(2)).unwrap();
    s.request(23, 4).unwrap();
    assert_eq!(s.maybe_restart(&positions(23), (0.0, 0.0), &Relation::new(4, 0)), Ok(true));
    let mut counts = vec![0usize; 4];
    for a in &s.atoms {
        assert!(a.t < 4);
        counts[a.t] += 1;
    }
    assert_eq!(counts, vec![6, 6, 6, 5]);
}

#[test]
fn restart_keeps_pause_state() {
    let mut s = Simulation::new(&positions(2), (0.0, 0.0), numbered(1)).unwrap();
    s.paused = true;
    s.request(3, 1).unwrap();
    assert_eq!(s.maybe_restart(&positions(3), (0.0, 0.0), &Relation::new(1, 0)), Ok(true));
    assert!(s.paused);
    assert_eq!(s.atoms.len(), 3);
}

#[test]
fn paused_tick_changes_nothing() {
    let mut s = Simulation::new(&positions(4), (0.0, 0.0), numbered(2)).unwrap();
    s.paused = true;
    s.tick(|_, atoms: &Vec<Atom<(f32, f32)>>, i| ((100.0, 100.0), (atoms[i].pos.0, 1.0)));
    for (i, a) in s.atoms.iter().enumerate() {
        assert_eq!(a.pos, (i as f32, -(i as f32)));
        assert_eq!(a.vel, (0.0, 0.0));
    }
}

#[test]
fn tick_reads_only_the_old_state() {
    let mut s = Simulation::new(&positions(4), (0.0, 0.0), numbered(2)).unwrap();
    // Each particle moves to where its successor stood before the tick.
    s.tick(|_, atoms: &Vec<Atom<(f32, f32)>>, i| {
        let next = atoms[(i + 1) % atoms.len()].pos;
        (next, (next.0 - atoms[i].pos.0, next.1 - atoms[i].pos.1))
    });
    let xs: Vec<f32> = s.atoms.iter().map(|a| a.pos.0).collect();
    assert_eq!(xs, vec![1.0, 2.0, 3.0, 0.0]);
    assert_eq!(s.atoms[0].vel, (1.0, -1.0));
    assert_eq!(s.atoms.iter().map(|a| a.t).collect::<Vec<_>>(), vec![0, 1, 0, 1]);
}

#[test]
fn tick_passes_the_relation_to_the_step() {
    let mut s = Simulation::new(&positions(2), (0.0, 0.0), numbered(2)).unwrap();
    s.tick(|rel: &Relation<i32>, atoms: &Vec<Atom<(f32, f32)>>, i| {
        let g = rel.get(atoms[i].t, atoms[1 - i].t) as f32;
        ((g, g), (0.0, 0.0))
    });
    assert_eq!(s.atoms[0].pos, (1.0, 1.0));
    assert_eq!(s.atoms[1].pos, (10.0, 10.0));
}

#[test]
fn two_runs_with_the_same_step_agree() {
    let run = || {
        let mut s = Simulation::new(&positions(6), (0.0, 0.0), numbered(3)).unwrap();
        for _ in 0..3 {
            s.tick(|rel: &Relation<i32>, atoms: &Vec<Atom<(f32, f32)>>, i| {
                let mut f = 0.0f32;
                for (j, b) in atoms.iter().enumerate() {
                    if j != i {
                        f += rel.get(atoms[i].t, b.t) as f32 * (b.pos.0 - atoms[i].pos.0);
                    }
                }
                let vel = ((atoms[i].vel.0 + f) * 0.5, atoms[i].vel.1 * 0.5);
                ((atoms[i].pos.0 + vel.0, atoms[i].pos.1 + vel.1), vel)
            });
        }
        s.atoms.iter().map(|a| (a.pos, a.vel, a.t)).collect::<Vec<_>>()
    };
    assert_eq!(run(), run());
}
