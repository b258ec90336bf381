use blocks::field::{Field, FieldBlock};
use blocks::gamestate::{GameCondition, GameState};
use blocks::keybindings::Trigger;
use blocks::position::{p, RotateDir, ShiftDir};
use blocks::random_bag::{RandomBag, NUM_PREVIEWS, NUM_SHAPES};
use blocks::render::{BlockRenderInstructions, DrawBlockType};
use blocks::shapes::Shape;
use blocks::tetromino::Tetromino;
use blocks::field::PlayingFieldRenderBlocksInstructions;
use blocks::time::GameTime;

const ALL_SHAPES: [Shape; 7] = [Shape::I, Shape::O, Shape::J, Shape::L, Shape::S, Shape::Z, Shape::T];

fn is_permutation(seen: &[Shape]) -> bool {
    seen.len() == NUM_SHAPES && ALL_SHAPES.iter().all(|s| seen.iter().filter(|t| *t == s).count() == 1)
}

#[test]
fn select_all_from_bag() {
    let mut r = RandomBag::new();
    let mut seen_shapes = vec![];
    for _ in 0..NUM_SHAPES {
        seen_shapes.push(r.take_next())
    }
    assert!(is_permutation(&seen_shapes));
}

#[test]
fn bag_keeps_six_previews() {
    let mut r = RandomBag::new();
    assert_eq!(r.previews().len(), NUM_PREVIEWS);
    let next = r.previews()[0];
    assert_eq!(r.take_next(), next);
    assert_eq!(r.previews().len(), NUM_PREVIEWS);
}

#[test]
fn chosen_bytes_pick_by_index() {
    let mut r = RandomBag::new();
    let mut dealt = vec![];
    // whatever the first six draws were, seven deals of a fresh bag are a permutation
    for b in [200u8, 3, 255, 0, 17, 99, 42] {
        dealt.push(r.take_next_with(b));
    }
    assert!(is_permutation(&dealt));
    let before = r.previews();
    assert_eq!(r.take_next_with(5), before[0]);
    let after = r.previews();
    assert_eq!(after.len(), NUM_PREVIEWS);
    assert_eq!(&after[..NUM_PREVIEWS - 1], &before[1..]);
}

fn count_cells(state: &GameState, kind: fn(DrawBlockType) -> bool) -> usize {
    let info = state.render_info();
    info.playing_field.blocks().iter().filter(|b| kind(b.block_type)).count()
}

fn is_piece(t: DrawBlockType) -> bool {
    matches!(t, DrawBlockType::Occupied(_))
}

#[test]
fn session_spawns_locks_and_respawns() {
    let mut state = GameState::new(GameTime::from_millis(0));
    assert_eq!(state.level(), 1);
    assert_eq!(state.update(&vec![], GameTime::from_millis(0)), GameCondition::Playing);
    assert_eq!(count_cells(&state, is_piece), 4);
    let info = state.render_info();
    assert_eq!(info.previews.len(), NUM_PREVIEWS);
    assert_eq!(info.cleared_lines, 0);
    assert_eq!(info.level, 1);
    assert_eq!(info.hold_piece, None);
    assert_eq!(info.playing_field.blocks().len(), 220);
    drop(info);

    assert_eq!(
        state.update(&vec![Trigger::HardDrop], GameTime::from_millis(10)),
        GameCondition::Playing
    );
    // locked: four blocks on the field and the next piece already in play
    assert_eq!(count_cells(&state, is_piece), 8);
    assert_eq!(state.update(&vec![], GameTime::from_millis(20)), GameCondition::Playing);
    assert_eq!(count_cells(&state, is_piece), 8);
}

#[test]
fn session_gravity_locks_after_delay() {
    let mut state = GameState::new(GameTime::from_millis(0));
    state.update(&vec![], GameTime::from_millis(0));
    let mut now = 0;
    // the first level drops once a second; every kind enters with its lowest
    // minos twenty rows up
    for _ in 0..20 {
        now += 1000;
        state.update(&vec![], GameTime::from_millis(now));
    }
    let ghosts = count_cells(&state, |t| matches!(t, DrawBlockType::GhostPiece(_)));
    assert_eq!(ghosts, 0);
    state.update(&vec![], GameTime::from_millis(now + 1000));
    assert_eq!(count_cells(&state, is_piece), 4);
    state.update(&vec![], GameTime::from_millis(now + 1500));
    assert_eq!(count_cells(&state, is_piece), 4);
    state.update(&vec![], GameTime::from_millis(now + 1501));
    assert_eq!(count_cells(&state, is_piece), 8);
}

#[test]
fn hold_swaps_pieces_once_per_piece() {
    let mut state = GameState::new(GameTime::from_millis(0));
    state.update(&vec![], GameTime::from_millis(0));
    state.update(&vec![Trigger::HoldPiece], GameTime::from_millis(1));
    let held = state.render_info().hold_piece;
    assert!(held.is_some());
    state.update(&vec![], GameTime::from_millis(2));
    assert_eq!(count_cells(&state, is_piece), 4);
    state.update(&vec![Trigger::HoldPiece], GameTime::from_millis(3));
    assert_eq!(state.render_info().hold_piece, held);
    assert_eq!(count_cells(&state, is_piece), 4);
}

#[test]
fn triggers_move_the_piece() {
    let mut state = GameState::new(GameTime::from_millis(0));
    state.update(&vec![], GameTime::from_millis(0));
    let triggers = vec![
        Trigger::Shift(ShiftDir::Left),
        Trigger::Rotate(RotateDir::CW),
        Trigger::SoftDown,
        Trigger::Shift(ShiftDir::Right),
    ];
    assert_eq!(state.update(&triggers, GameTime::from_millis(5)), GameCondition::Playing);
    assert_eq!(count_cells(&state, is_piece), 4);
}

#[test]
fn render_marks_out_of_play_rows_and_ghost() {
    let mut field = Field::new();
    field.occupy(p(0, 0), Shape::L);
    let t = Tetromino::new(p(3, 10), Shape::O);
    let instr = PlayingFieldRenderBlocksInstructions::new(&field, t);
    assert_eq!(instr.height_blocks(), 22);
    assert_eq!(instr.width_blocks(), 10);
    let blocks = instr.blocks();
    assert_eq!(blocks.len(), 220);
    let at = |x: i32, y: i32| blocks[(y * 10 + x) as usize];
    assert_eq!(at(0, 0).pos, p(0, 0));
    assert_eq!(at(0, 0).block_type, DrawBlockType::Occupied(Shape::L));
    assert_eq!(at(1, 0).block_type, DrawBlockType::Empty);
    assert_eq!(at(4, 12).block_type, DrawBlockType::Occupied(Shape::O));
    assert_eq!(at(4, 0).block_type, DrawBlockType::GhostPiece(Shape::O));
    assert_eq!(at(5, 1).block_type, DrawBlockType::GhostPiece(Shape::O));
    assert_eq!(at(9, 20).block_type, DrawBlockType::OutOfPlay);
    assert_eq!(at(9, 21).pos, p(9, 21));

    let clearing = PlayingFieldRenderBlocksInstructions::new_clearing(&field, vec![0]);
    let blocks = clearing.blocks();
    assert_eq!(blocks[3].block_type, DrawBlockType::ClearingLine);
    assert_eq!(blocks[13].block_type, DrawBlockType::Empty);
}

#[test]
fn preview_blocks_of_a_shape() {
    let blocks = Shape::T.blocks();
    let cells: Vec<_> = blocks.iter().map(|b| b.pos).collect();
    assert_eq!(cells, vec![p(0, 2), p(1, 2), p(1, 3), p(2, 2)]);
    assert!(blocks.iter().all(|b| b.block_type == DrawBlockType::Occupied(Shape::T)));
    assert_eq!(Shape::T.height_blocks(), 2);
    assert_eq!(Shape::T.width_blocks(), 4);
}

#[test]
fn field_block_kinds() {
    assert_ne!(FieldBlock::Empty, FieldBlock::Occupied(Shape::I));
}

#[test]
fn stacking_to_the_top_loses() {
    let mut state = GameState::new(GameTime::from_millis(0));
    let mut now = 0;
    let mut outcome = GameCondition::Playing;
    for _ in 0..200 {
        outcome = state.update(&vec![Trigger::HardDrop], GameTime::from_millis(now));
        now += 1;
        if outcome != GameCondition::Playing {
            break;
        }
    }
    assert_eq!(outcome, GameCondition::Lost);
    assert_eq!(state.render_info().cleared_lines, 0);
}

fn leftmost_spawned_column(state: &GameState) -> i32 {
    let info = state.render_info();
    info.playing_field
        .blocks()
        .iter()
        .filter(|b| b.pos.y >= 18 && is_piece(b.block_type))
        .map(|b| b.pos.x)
        .min()
        .unwrap()
}

#[test]
fn commands_after_a_lock_move_the_next_piece() {
    let mut state = GameState::new(GameTime::from_millis(0));
    state.update(&vec![], GameTime::from_millis(0));
    let next = state.render_info().previews[0];
    let triggers = vec![Trigger::HardDrop, Trigger::Shift(ShiftDir::Left)];
    assert_eq!(state.update(&triggers, GameTime::from_millis(5)), GameCondition::Playing);
    let spawned = if next == Shape::O { 4 } else { 3 };
    assert_eq!(leftmost_spawned_column(&state), spawned - 1);
    assert_eq!(state.render_info().previews.len(), NUM_PREVIEWS);
}

#[test]
fn update_with_uses_given_bytes() {
    let mut state = GameState::new(GameTime::from_millis(0));
    let first = state.render_info().previews[0];
    state.update_with(&vec![], GameTime::from_millis(0), &vec![0]);
    let info = state.render_info();
    let cells: Vec<_> = info
        .playing_field
        .blocks()
        .into_iter()
        .filter(|b| b.block_type == DrawBlockType::Occupied(first))
        .map(|b| b.pos)
        .collect();
    assert_eq!(cells.len(), 4);
}
