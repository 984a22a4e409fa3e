use grid_dig::block::Block;
use grid_dig::board::{random_draws, Board, BOARD_HEIGHT, BOARD_WIDTH};
use grid_dig::game::{advance_block, debris_sim, is_occupied, move_player, same_loc, simulation_step};
use grid_dig::glyphs::{
    cell_style, palette_glyph, palette_index, wear, BlockPhysics, BLANK_SQUARE, DUG_SQUARE, HORIZONTAL_WALL,
    PLAYER_SQUARE, RESOURCE_SQUARE, VERTICAL_WALL, CellStyle,
};
use grid_dig::location::{add_target_to_loc, BoardLoc, OutOfBounds};
use grid_dig::player::{Player, NO_TARGET};

fn empty_draws(width: usize, height: usize) -> Vec<Vec<(u8, u8)>> {
    vec![vec![(10, 0); width]; height]
}

fn empty_board(width: usize, height: usize) -> Board {
    Board::generate(width, height, &empty_draws(width, height)).0
}

/// A board with the given blocks drawn on it.
fn board_with(width: usize, height: usize, blocks: &[Block]) -> Board {
    let mut board = empty_board(width, height);
    for b in blocks {
        board.set_cell(b.get_loc(), b.get_symbol());
    }
    board
}

#[test]
fn offset_adds_and_subtracts() {
    assert_eq!(add_target_to_loc(5, -3), Some(2));
    assert_eq!(add_target_to_loc(5, 3), Some(8));
    assert_eq!(add_target_to_loc(0, 0), Some(0));
    assert_eq!(add_target_to_loc(1, -1), Some(0));
    assert_eq!(add_target_to_loc(200, -128), Some(72));
}

#[test]
fn offset_below_zero_is_out_of_bounds() {
    assert_eq!(add_target_to_loc(0, -1), None);
    assert_eq!(add_target_to_loc(usize::MAX, 1), None);
    assert_eq!(BoardLoc::location_from_target(&(0, 3), (-1, 0)), Err(OutOfBounds));
    assert_eq!(BoardLoc::location_from_target(&(3, 0), (0, -1)), Err(OutOfBounds));
    assert_eq!(BoardLoc::location_from_target(&(3, 4), (-1, 1)), Ok(BoardLoc { x: 2, y: 5 }));
}

#[test]
fn classifier_table() {
    assert_eq!(BlockPhysics::new('█'), BlockPhysics::Solid('█'));
    assert_eq!(BlockPhysics::new('▦'), BlockPhysics::Solid('▦'));
    assert_eq!(BlockPhysics::new(RESOURCE_SQUARE), BlockPhysics::Resource(RESOURCE_SQUARE));
    assert_eq!(BlockPhysics::new(VERTICAL_WALL), BlockPhysics::Wall);
    assert_eq!(BlockPhysics::new(HORIZONTAL_WALL), BlockPhysics::Wall);
    assert_eq!(BlockPhysics::new(BLANK_SQUARE), BlockPhysics::PassThrough(BLANK_SQUARE));
    assert_eq!(BlockPhysics::new(DUG_SQUARE), BlockPhysics::PassThrough(DUG_SQUARE));
    assert_eq!(BlockPhysics::new('x'), BlockPhysics::PassThrough('x'));
    assert_eq!(BlockPhysics::Wall.glyph(), HORIZONTAL_WALL);
}

#[test]
fn palette_order() {
    assert_eq!(palette_index('█'), Some(0));
    assert_eq!(palette_index('▦'), Some(3));
    assert_eq!(palette_index(DUG_SQUARE), None);
    assert_eq!(palette_glyph(1), '▓');
    assert_eq!(wear('█'), '▓');
    assert_eq!(wear('▓'), '▩');
    assert_eq!(wear('▩'), '▦');
    assert_eq!(wear('▦'), DUG_SQUARE);
}

#[test]
fn block_constructors() {
    let b = Block::digg((3, 4), '█');
    assert_eq!(b.get_loc(), (3, 4));
    assert_eq!(b.get_symbol(), '▓');
    assert_eq!(*b.get_type(), BlockPhysics::Solid('▓'));
    let b = Block::digg((3, 4), '▦');
    assert_eq!(b.get_symbol(), DUG_SQUARE);
    let c = Block::collect_resource((2, 2));
    assert_eq!(c.get_symbol(), DUG_SQUARE);
    assert_eq!(*c.get_type(), BlockPhysics::PassThrough(DUG_SQUARE));
    assert_eq!(Block::build((1, 1), 0).get_symbol(), '█');
    assert_eq!(Block::build((1, 1), 1).get_symbol(), '▓');
    assert_eq!(Block::build((1, 1), 2).get_symbol(), RESOURCE_SQUARE);
}

#[test]
fn generated_board_is_walled() {
    let draws = vec![vec![(0, 0), (9, 0), (3, 2)], vec![(10, 1), (1, 1), (4, 0)]];
    let (board, blocks) = Board::generate(3, 2, &draws);
    for x in 0..5 {
        assert_eq!(board.get_cell((x, 0)), HORIZONTAL_WALL);
        assert_eq!(board.get_cell((x, 3)), HORIZONTAL_WALL);
        assert_eq!(BlockPhysics::new(board.get_cell((x, 0))), BlockPhysics::Wall);
    }
    for y in 1..3 {
        assert_eq!(board.get_cell((0, y)), VERTICAL_WALL);
        assert_eq!(board.get_cell((4, y)), VERTICAL_WALL);
    }
    for y in 1..3 {
        for x in 1..4 {
            assert_ne!(BlockPhysics::new(board.get_cell((x, y))), BlockPhysics::Wall);
        }
    }
    assert_eq!(board.get_cell((1, 1)), '█');
    assert_eq!(board.get_cell((2, 1)), BLANK_SQUARE);
    assert_eq!(board.get_cell((3, 1)), RESOURCE_SQUARE);
    assert_eq!(board.get_cell((1, 2)), BLANK_SQUARE);
    assert_eq!(board.get_cell((2, 2)), '▓');
    assert_eq!(board.get_cell((3, 2)), BLANK_SQUARE);
    let locs: Vec<(usize, usize)> = blocks.iter().map(|b| b.get_loc()).collect();
    assert_eq!(locs, vec![(1, 1), (3, 1), (2, 2)]);
}

#[test]
fn standard_board_has_random_blocks_inside_the_wall() {
    let draws = random_draws(BOARD_WIDTH, BOARD_HEIGHT);
    assert_eq!(draws.len(), BOARD_HEIGHT);
    for row in &draws {
        assert_eq!(row.len(), BOARD_WIDTH);
        for d in row {
            assert!(d.0 <= 10 && d.1 <= 2);
        }
    }
    let (board, blocks) = Board::new();
    assert_eq!(board.get_cell((0, 0)), HORIZONTAL_WALL);
    assert_eq!(board.get_cell((BOARD_WIDTH + 1, BOARD_HEIGHT + 1)), HORIZONTAL_WALL);
    assert_eq!(board.get_cell((0, 1)), VERTICAL_WALL);
    for b in &blocks {
        let (x, y) = b.get_loc();
        assert!(1 <= x && x <= BOARD_WIDTH && 1 <= y && y <= BOARD_HEIGHT);
        assert_eq!(board.get_cell((x, y)), b.get_symbol());
    }
}

#[test]
fn new_player_starts_without_target() {
    let mut p = Player::new();
    assert_eq!(p.get_loc(), (12, 2));
    assert_eq!(p.get_symbol(), PLAYER_SQUARE);
    assert_eq!(p.get_digg_target(), NO_TARGET);
}

#[test]
fn move_into_blank_cell_moves_one_step() {
    let mut board = empty_board(4, 4);
    let mut player = Player::at((2, 2));
    let mut blocks: Vec<Block> = Vec::new();
    simulation_step(&mut player, &mut board, &mut blocks);
    assert_eq!(board.get_cell((2, 2)), PLAYER_SQUARE);
    move_player(&mut player, &mut board, (1, 0));
    assert_eq!(player.get_loc(), (3, 2));
    assert_eq!(board.get_cell((2, 2)), BLANK_SQUARE);
    simulation_step(&mut player, &mut board, &mut blocks);
    let mut count = 0;
    for y in 0..6 {
        for x in 0..6 {
            if board.get_cell((x, y)) == PLAYER_SQUARE {
                count += 1;
                assert_eq!((x, y), (3, 2));
            }
        }
    }
    assert_eq!(count, 1);
}

#[test]
fn move_into_wall_or_resource_is_refused() {
    let blocks = vec![Block::new(BoardLoc { x: 2, y: 1 }, RESOURCE_SQUARE)];
    let mut board = board_with(2, 1, &blocks);
    let mut player = Player::at((1, 1));
    move_player(&mut player, &mut board, (-1, 0));
    assert_eq!(player.get_loc(), (1, 1));
    move_player(&mut player, &mut board, (1, 0));
    assert_eq!(player.get_loc(), (1, 1));
    assert_eq!(player.get_digg_target(), NO_TARGET);
    assert_eq!(board.get_cell((2, 1)), RESOURCE_SQUARE);
}

#[test]
fn move_into_solid_sets_dig_target() {
    let blocks = vec![Block::new(BoardLoc { x: 2, y: 1 }, '█')];
    let mut board = board_with(2, 1, &blocks);
    let mut player = Player::at((1, 1));
    move_player(&mut player, &mut board, (1, 0));
    assert_eq!(player.get_loc(), (1, 1));
    assert_eq!(player.get_digg_target(), (2, 1));
    assert_eq!(player.get_digg_target(), NO_TARGET);
}

#[test]
fn digging_heaviest_material_takes_palette_length_ticks() {
    let mut blocks = vec![Block::new(BoardLoc { x: 2, y: 1 }, '█')];
    let mut board = board_with(2, 1, &blocks);
    let mut player = Player::at((1, 1));
    let expected = ['▓', '▩', '▦', DUG_SQUARE];
    for (tick, glyph) in expected.iter().enumerate() {
        assert_ne!(board.get_cell((2, 1)), DUG_SQUARE, "dug after {} ticks", tick);
        move_player(&mut player, &mut board, (1, 0));
        simulation_step(&mut player, &mut board, &mut blocks);
        assert_eq!(board.get_cell((2, 1)), *glyph);
        assert_eq!(blocks[0].get_symbol(), *glyph);
    }
}

#[test]
fn two_digs_wear_through_a_two_stage_block() {
    // The last two stages of the palette form the wear sequence here.
    let mut blocks = vec![Block::new(BoardLoc { x: 1, y: 1 }, '▩')];
    let mut board = board_with(2, 1, &blocks);
    let mut player = Player::at((2, 1));
    for _ in 0..2 {
        move_player(&mut player, &mut board, (-1, 0));
        assert_eq!(player.get_loc(), (2, 1));
        simulation_step(&mut player, &mut board, &mut blocks);
    }
    assert_eq!(board.get_cell((1, 1)), DUG_SQUARE);
    assert_eq!(blocks[0].get_symbol(), DUG_SQUARE);
}

#[test]
fn dig_target_is_used_once() {
    let mut blocks = vec![Block::new(BoardLoc { x: 2, y: 1 }, '█')];
    let mut board = board_with(2, 1, &blocks);
    let mut player = Player::at((1, 1));
    move_player(&mut player, &mut board, (1, 0));
    simulation_step(&mut player, &mut board, &mut blocks);
    simulation_step(&mut player, &mut board, &mut blocks);
    assert_eq!(board.get_cell((2, 1)), '▓');
}

#[test]
fn debris_settles_one_row_per_tick() {
    let mut blocks = vec![Block::new(BoardLoc { x: 1, y: 1 }, DUG_SQUARE)];
    let mut board = board_with(2, 3, &blocks);
    let mut player = Player::at((2, 3));
    simulation_step(&mut player, &mut board, &mut blocks);
    assert_eq!(blocks[0].get_loc(), (1, 2));
    assert_eq!(board.get_cell((1, 1)), BLANK_SQUARE);
    assert_eq!(board.get_cell((1, 2)), DUG_SQUARE);
    simulation_step(&mut player, &mut board, &mut blocks);
    assert_eq!(blocks[0].get_loc(), (1, 3));
    assert_eq!(board.get_cell((1, 2)), BLANK_SQUARE);
    assert_eq!(board.get_cell((1, 3)), DUG_SQUARE);
    for _ in 0..3 {
        simulation_step(&mut player, &mut board, &mut blocks);
        assert_eq!(blocks[0].get_loc(), (1, 3));
        assert_eq!(board.get_cell((1, 3)), DUG_SQUARE);
        assert_eq!(board.get_cell((1, 4)), HORIZONTAL_WALL);
    }
}

#[test]
fn debris_stops_on_a_block() {
    let mut blocks = vec![
        Block::new(BoardLoc { x: 1, y: 1 }, DUG_SQUARE),
        Block::new(BoardLoc { x: 1, y: 2 }, '█'),
    ];
    let mut board = board_with(2, 3, &blocks);
    let mut player = Player::at((2, 3));
    simulation_step(&mut player, &mut board, &mut blocks);
    simulation_step(&mut player, &mut board, &mut blocks);
    assert_eq!(blocks[0].get_loc(), (1, 1));
    assert_eq!(board.get_cell((1, 1)), DUG_SQUARE);
    assert_eq!(board.get_cell((1, 2)), '█');
}

#[test]
fn debris_sim_checks_board_and_registry() {
    let blocks = vec![Block::new(BoardLoc { x: 1, y: 1 }, DUG_SQUARE)];
    let board = board_with(2, 3, &blocks);
    let moved = debris_sim((1, 1), &board, &blocks);
    assert_eq!(moved.get_loc(), (1, 2));
    assert_eq!(moved.get_symbol(), DUG_SQUARE);
    let stuck = debris_sim((1, 3), &board, &blocks);
    assert_eq!(stuck.get_loc(), (1, 3));
    let occupied = vec![
        Block::new(BoardLoc { x: 1, y: 1 }, DUG_SQUARE),
        Block::new(BoardLoc { x: 1, y: 2 }, DUG_SQUARE),
    ];
    assert!(is_occupied(&occupied, (1, 2)));
    assert!(!is_occupied(&occupied, (2, 2)));
    // the board shows blank below, but the registry holds a block there
    assert_eq!(debris_sim((1, 1), &board, &occupied).get_loc(), (1, 1));
}

#[test]
fn resource_under_player_is_collected() {
    let mut blocks = vec![Block::new(BoardLoc { x: 1, y: 1 }, RESOURCE_SQUARE)];
    let mut board = board_with(2, 1, &blocks);
    let mut player = Player::at((1, 1));
    simulation_step(&mut player, &mut board, &mut blocks);
    assert_eq!(blocks[0].get_symbol(), DUG_SQUARE);
    assert_eq!(board.get_cell((1, 1)), PLAYER_SQUARE);
}

#[test]
fn resource_is_collected_whatever_the_dig_target() {
    let blocks = vec![
        Block::new(BoardLoc { x: 1, y: 1 }, RESOURCE_SQUARE),
        Block::new(BoardLoc { x: 2, y: 1 }, '█'),
    ];
    let board = board_with(2, 1, &blocks);
    let next = advance_block(&blocks[0], (1, 1), (1, 1), &board, &blocks);
    assert_eq!(next.get_symbol(), DUG_SQUARE);
    let next = advance_block(&blocks[0], (1, 1), (2, 1), &board, &blocks);
    assert_eq!(next.get_symbol(), DUG_SQUARE);
    let idle = advance_block(&blocks[1], (1, 1), NO_TARGET, &board, &blocks);
    assert_eq!(idle.get_symbol(), '█');
    assert_eq!(idle.get_loc(), (2, 1));
}

#[test]
fn locations_compare_by_both_coordinates() {
    assert!(same_loc((1, 2), (1, 2)));
    assert!(!same_loc((1, 2), (2, 1)));
    assert_eq!(BoardLoc { x: 4, y: 5 }.get_loc(), (4, 5));
}

#[test]
fn display_styles() {
    assert_eq!(cell_style(VERTICAL_WALL), CellStyle::Wall);
    assert_eq!(cell_style(HORIZONTAL_WALL), CellStyle::Wall);
    assert_eq!(cell_style(RESOURCE_SQUARE), CellStyle::Resource);
    assert_eq!(cell_style(DUG_SQUARE), CellStyle::Dug);
    assert_eq!(cell_style(PLAYER_SQUARE), CellStyle::Player);
    assert_eq!(cell_style('█'), CellStyle::Plain);
    assert_eq!(cell_style(BLANK_SQUARE), CellStyle::Plain);
}

#[test]
fn board_dimensions_include_walls() {
    let board = empty_board(3, 2);
    assert_eq!(board.width(), 5);
    assert_eq!(board.height(), 4);
}
