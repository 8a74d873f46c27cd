use snake_core::apple::{free_cells, place_apple};
use snake_core::chain::BodyChain;
use snake_core::direction::Direction;
use snake_core::grid::{Cell, GRID_AXIS};

#[test]
fn starting_chain_is_three_segments_behind_the_origin() {
    let chain = BodyChain::new();
    assert_eq!(chain.length(), 3);
    assert_eq!(chain.head_cell(), Cell { x: 0, y: 0 });
    assert_eq!(chain.tail_cell(), Cell { x: -2, y: 0 });
    assert_eq!(
        chain.cells_vec(),
        vec![Cell { x: -2, y: 0 }, Cell { x: -1, y: 0 }, Cell { x: 0, y: 0 }]
    );
}

#[test]
fn advance_grows_towards_the_head() {
    let mut chain = BodyChain::new();
    let c = chain.advance(Direction::Right);
    assert_eq!(c, Cell { x: 1, y: 0 });
    assert_eq!(chain.length(), 4);
    assert_eq!(chain.head_cell(), Cell { x: 1, y: 0 });
    assert_eq!(chain.tail_cell(), Cell { x: -2, y: 0 });
}

#[test]
fn shrink_moves_the_tail_up() {
    let mut chain = BodyChain::new();
    chain.advance(Direction::Right);
    chain.shrink_tail();
    assert_eq!(chain.length(), 3);
    assert_eq!(
        chain.cells_vec(),
        vec![Cell { x: -1, y: 0 }, Cell { x: 0, y: 0 }, Cell { x: 1, y: 0 }]
    );
}

#[test]
fn advance_wraps_at_the_seam() {
    let mut chain = BodyChain::new();
    for expected_x in 1..=6 {
        let c = chain.advance(Direction::Right);
        assert_eq!(c, Cell { x: expected_x, y: 0 });
        chain.shrink_tail();
    }
    let c = chain.advance(Direction::Right);
    chain.shrink_tail();
    assert_eq!(c, Cell { x: -6, y: 0 });
    assert_eq!(chain.head_cell(), Cell { x: -6, y: 0 });
    assert_eq!(chain.length(), 3);
}

#[test]
fn segments_never_share_a_cell_through_a_long_walk() {
    // a crooked walk over the whole torus; after every advance+shrink
    // the occupied cells must stay pairwise distinct
    let mut chain = BodyChain::new();
    let mut dir = Direction::Right;
    let mut last = Direction::Right;
    let mut seed = 0x2468_ace1u64;
    for _ in 0..500 {
        seed = seed.wrapping_mul(6364136223846793005).wrapping_add(1442695040888963407);
        let turn = (seed >> 33) % 4;
        let wanted = match turn {
            0 => Direction::Up,
            1 => Direction::Down,
            2 => Direction::Left,
            _ => Direction::Right,
        };
        // keep the walk legal the same way the resolver would
        let legal = match (last, wanted) {
            (Direction::Left, Direction::Right) | (Direction::Right, Direction::Left) => false,
            (Direction::Up, Direction::Down) | (Direction::Down, Direction::Up) => false,
            _ => true,
        };
        if legal {
            dir = wanted;
        }
        // advance only where the chain rules allow it, as the game does
        let head = chain.head_cell();
        let target = match dir {
            Direction::Up => snake_core::grid::wrap_cell(head.x, head.y + 1),
            Direction::Down => snake_core::grid::wrap_cell(head.x, head.y - 1),
            Direction::Left => snake_core::grid::wrap_cell(head.x - 1, head.y),
            Direction::Right => snake_core::grid::wrap_cell(head.x + 1, head.y),
        };
        let cells = chain.cells_vec();
        if cells[1..].contains(&target) {
            // blocked; try again next round with a fresh pseudo-random turn
            continue;
        }
        chain.shrink_tail();
        chain.advance(dir);
        last = dir;
        let after = chain.cells_vec();
        for i in 0..after.len() {
            for j in (i + 1)..after.len() {
                assert_ne!(after[i], after[j]);
            }
        }
        assert_eq!(after.len(), 3);
    }
}

#[test]
fn tail_orientation_follows_the_link() {
    let chain = BodyChain::new();
    // tail at (-2,0) linked to (-1,0): same row, ahead
    assert_eq!(chain.tail_orientation(), 0);

    let mut chain = BodyChain::new();
    chain.advance(Direction::Up);
    chain.shrink_tail();
    chain.advance(Direction::Up);
    chain.shrink_tail();
    // cells now (0,0) -> (0,1) -> (0,2): same column, upwards
    assert_eq!(chain.cells_vec()[0], Cell { x: 0, y: 0 });
    assert_eq!(chain.tail_orientation(), 90);

    let mut chain = BodyChain::new();
    chain.advance(Direction::Down);
    chain.shrink_tail();
    chain.advance(Direction::Down);
    chain.shrink_tail();
    // cells now (0,0) -> (0,-1) -> (0,-2): same column, downwards
    assert_eq!(chain.tail_orientation(), -90);

    let mut chain = BodyChain::new();
    chain.advance(Direction::Up);
    chain.shrink_tail();
    chain.advance(Direction::Left);
    chain.shrink_tail();
    chain.advance(Direction::Left);
    chain.shrink_tail();
    // cells now (0,1) -> (-1,1) -> (-2,1): same row, backwards
    assert_eq!(chain.tail_orientation(), 180);
}

#[test]
fn free_cells_complement_the_occupied_ones() {
    let occupied = vec![Cell { x: 0, y: 0 }, Cell { x: -6, y: 6 }];
    let free = free_cells(&occupied);
    assert_eq!(free.len(), (GRID_AXIS * GRID_AXIS) as usize - 2);
    assert!(!free.contains(&Cell { x: 0, y: 0 }));
    assert!(!free.contains(&Cell { x: -6, y: 6 }));
    assert!(free.contains(&Cell { x: 6, y: -6 }));
    // off-grid cells are never offered
    assert!(!free.contains(&Cell { x: 7, y: 0 }));
}

#[test]
fn apple_lands_on_the_only_free_cell() {
    // occupy every grid cell except one: the placer has no choice left,
    // so a placement that ignored its input would be caught here
    let hole = Cell { x: 3, y: -4 };
    let mut occupied = Vec::new();
    for x in -6..=6 {
        for y in -6..=6 {
            let c = Cell { x, y };
            if c != hole {
                occupied.push(c);
            }
        }
    }
    for _ in 0..5 {
        assert_eq!(place_apple(&occupied), hole);
    }
}

#[test]
fn apple_avoids_occupied_cells() {
    let occupied = vec![
        Cell { x: -2, y: 0 },
        Cell { x: -1, y: 0 },
        Cell { x: 0, y: 0 },
    ];
    for _ in 0..50 {
        let c = place_apple(&occupied);
        assert!((-6..=6).contains(&c.x));
        assert!((-6..=6).contains(&c.y));
        assert!(!occupied.contains(&c));
    }
}
