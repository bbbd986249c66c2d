use toroidal_life::grid::{Dimensions, Generation, World};
use toroidal_life::state::{Color, State};

fn world_from(width: usize, height: usize, cells: Vec<State>) -> World {
    assert_eq!(cells.len(), width * height);
    World::from_cells(width, height, cells)
}

// All dead at age 1 except an alive cell in the center of a 3x3 torus.
fn center_alive_3x3() -> World {
    let mut cells = vec![State::Dead(1); 9];
    cells[4] = State::Alive;
    world_from(3, 3, cells)
}

// A reference sweep that snapshots every neighbor read before any write:
// counts are taken from the unmodified input, exactly as the documented
// current/next contract demands.
fn reference_next(width: usize, height: usize, cells: &[State]) -> Vec<State> {
    let w = width as i64;
    let h = height as i64;
    let mut out = Vec::new();
    for y in 0..h {
        for x in 0..w {
            let mut n = 0;
            for dy in [-1i64, 0, 1] {
                for dx in [-1i64, 0, 1] {
                    if dx == 0 && dy == 0 {
                        continue;
                    }
                    let cx = (x + dx).rem_euclid(w) as usize;
                    let cy = (y + dy).rem_euclid(h) as usize;
                    if cells[cy * width + cx] == State::Alive {
                        n += 1;
                    }
                }
            }
            let c = cells[(y as usize) * width + (x as usize)];
            out.push(match (c, n) {
                (State::Alive, 2) | (State::Alive, 3) => State::Alive,
                (State::Alive, _) => State::Dead(1),
                (State::Dead(_), 3) => State::Alive,
                (State::Dead(a), _) => State::Dead(if a >= 254 { 254 } else { a + 1 }),
            });
        }
    }
    out
}

#[test]
fn wrap_around_reads_are_periodic() {
    let cells = vec![
        State::Alive,
        State::Dead(2),
        State::Dead(3),
        State::Dead(4),
        State::Alive,
        State::Dead(6),
    ];
    let world = world_from(3, 2, cells);
    for y in 0..2i64 {
        for x in 0..3i64 {
            let base = world.read(Generation::Current, x, y);
            for k in [-4i64, -1, 0, 1, 2, 10] {
                for m in [-3i64, -1, 0, 1, 5] {
                    assert_eq!(world.read(Generation::Current, x + k * 3, y + m * 2), base);
                }
            }
        }
    }
    // A negative coordinate wraps to the opposite edge.
    assert_eq!(
        world.read(Generation::Current, -1, -1),
        world.read(Generation::Current, 2, 1)
    );
}

#[test]
fn write_addresses_with_wrap_around() {
    let mut world = world_from(3, 3, vec![State::Dead(9); 9]);
    world.write(Generation::Current, -1, -2, State::Alive);
    assert_eq!(world.read(Generation::Current, 2, 1), State::Alive);
    // The other generation is untouched.
    for y in 0..3 {
        for x in 0..3 {
            assert_eq!(world.read(Generation::Next, x, y), State::Dead(1));
        }
    }
}

#[test]
fn swap_exchanges_the_generations() {
    let mut world = world_from(2, 2, vec![State::Dead(5); 4]);
    world.write(Generation::Next, 0, 0, State::Alive);
    world.swap();
    assert_eq!(world.read(Generation::Current, 0, 0), State::Alive);
    assert_eq!(world.read(Generation::Current, 1, 1), State::Dead(1));
    for y in 0..2 {
        for x in 0..2 {
            assert_eq!(world.read(Generation::Next, x, y), State::Dead(5));
        }
    }
}

#[test]
fn center_alive_scenario() {
    // A 3x3 torus, all Dead(1) except the center: the center sees 0 alive
    // neighbors and dies at age 1; every other cell sees exactly 1 alive
    // neighbor and ages to 2.
    let mut world = center_alive_3x3();
    let tokens = world.step();
    for y in 0..3i64 {
        for x in 0..3i64 {
            let expected = if x == 1 && y == 1 { State::Dead(1) } else { State::Dead(2) };
            assert_eq!(world.read(Generation::Current, x, y), expected);
        }
    }
    // One token per cell in row-major order, derived from the old states.
    assert_eq!(tokens.len(), 9);
    for (i, t) in tokens.iter().enumerate() {
        let expected = if i == 4 { Color::Bright } else { Color::Rgb(25, 25, 254) };
        assert_eq!(*t, expected);
    }
    // The pre-step generation survives unmodified in the next buffer.
    assert_eq!(world.read(Generation::Next, 1, 1), State::Alive);
    assert_eq!(world.read(Generation::Next, 0, 0), State::Dead(1));
}

#[test]
fn isolated_cell_dies_on_larger_grid() {
    let mut cells = vec![State::Dead(7); 20];
    cells[2 * 5 + 2] = State::Alive;
    let mut world = world_from(5, 4, cells);
    world.step();
    for y in 0..4i64 {
        for x in 0..5i64 {
            let expected = if x == 2 && y == 2 { State::Dead(1) } else { State::Dead(8) };
            assert_eq!(world.read(Generation::Current, x, y), expected);
        }
    }
}

#[test]
fn full_grid_dies_of_overcrowding() {
    // On an all-alive 3x3 torus every cell has the maximum count of 8
    // neighbors, so every cell dies.
    let mut world = world_from(3, 3, vec![State::Alive; 9]);
    let tokens = world.step();
    for y in 0..3i64 {
        for x in 0..3i64 {
            assert_eq!(world.read(Generation::Current, x, y), State::Dead(1));
        }
    }
    assert_eq!(tokens, vec![Color::Bright; 9]);
}

#[test]
fn block_is_a_still_life() {
    let mut cells = vec![State::Dead(1); 16];
    for (x, y) in [(1usize, 1usize), (2, 1), (1, 2), (2, 2)] {
        cells[y * 4 + x] = State::Alive;
    }
    let mut world = world_from(4, 4, cells);
    world.step();
    for y in 0..4i64 {
        for x in 0..4i64 {
            let in_block = (1..=2).contains(&x) && (1..=2).contains(&y);
            let expected = if in_block { State::Alive } else { State::Dead(2) };
            assert_eq!(world.read(Generation::Current, x, y), expected);
        }
    }
}

#[test]
fn identical_current_generations_step_identically() {
    let mut cells = vec![State::Dead(3); 12];
    for i in [0usize, 5, 6, 7, 10] {
        cells[i] = State::Alive;
    }
    let mut a = world_from(4, 3, cells.clone());
    let mut b = world_from(4, 3, cells);
    // Perturb one world's next buffer: it must not influence the sweep.
    b.write(Generation::Next, 1, 1, State::Alive);
    b.write(Generation::Next, 3, 2, State::Dead(99));
    let tokens_a = a.step();
    let tokens_b = b.step();
    assert_eq!(tokens_a, tokens_b);
    for y in 0..3i64 {
        for x in 0..4i64 {
            assert_eq!(
                a.read(Generation::Current, x, y),
                b.read(Generation::Current, x, y)
            );
        }
    }
}

#[test]
fn step_matches_snapshot_reference() {
    let mut cells = vec![State::Dead(2); 15];
    for i in [1usize, 2, 3, 7, 11, 14] {
        cells[i] = State::Alive;
    }
    let expected = reference_next(5, 3, &cells);
    let mut world = world_from(5, 3, cells);
    world.step();
    for y in 0..3usize {
        for x in 0..5usize {
            assert_eq!(
                world.read(Generation::Current, x as i64, y as i64),
                expected[y * 5 + x]
            );
        }
    }
}

#[test]
fn repeated_steps_age_the_dead() {
    let mut world = world_from(2, 2, vec![State::Dead(1); 4]);
    for age in 2..=6i64 {
        world.step();
        assert_eq!(world.read(Generation::Current, 0, 0), State::Dead(age as u8));
    }
}

#[test]
fn degenerate_grids_step_as_a_no_op() {
    let mut empty = world_from(0, 0, Vec::new());
    assert_eq!(empty.step().len(), 0);
    let mut row = world_from(5, 0, Vec::new());
    assert_eq!(row.step().len(), 0);
    let mut column = world_from(0, 7, Vec::new());
    assert_eq!(column.step().len(), 0);
}

#[test]
fn from_dimensions_randomizes_only_the_current_generation() {
    let world = World::from_dimensions(Dimensions { width: 7, height: 5 });
    assert_eq!(world.width(), 7);
    assert_eq!(world.height(), 5);
    for y in 0..5i64 {
        for x in 0..7i64 {
            let c = world.read(Generation::Current, x, y);
            assert!(c == State::Alive || c == State::Dead(1));
            assert_eq!(world.read(Generation::Next, x, y), State::Dead(1));
        }
    }
}

#[test]
fn step_emits_one_token_per_cell() {
    let mut world = World::from_dimensions(Dimensions { width: 6, height: 4 });
    assert_eq!(world.step().len(), 24);
    assert_eq!(world.step().len(), 24);
}
