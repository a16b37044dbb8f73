use blockfall::action::Action;
use blockfall::bag::Bag;
use blockfall::game::Game;
use blockfall::matrix::Matrix;

fn cells(matrix: &Matrix) -> Vec<Vec<usize>> {
    (0..40)
        .map(|y| (0..10).map(|x| matrix.cell(x, y)).collect())
        .collect()
}

fn filled(matrix: &Matrix) -> usize {
    cells(matrix)
        .iter()
        .map(|row| row.iter().filter(|c| **c != 0).count())
        .sum()
}

#[test]
fn a_new_game_has_the_first_shape_in_play() {
    let seed = [21u8; 32];
    let game = Game::new(&seed);
    let mut bag = Bag::new(&seed);
    assert_eq!(game.piece().shape(), bag.pop());
    assert_eq!(game.queued(), bag.queued());
    assert_eq!(game.held(), None);
    assert!(!game.game_over());
    assert_eq!(filled(game.matrix()), 0);
    assert_eq!(game.piece().y, 18);
}

#[test]
fn the_moves_of_a_frame_are_made_in_their_order() {
    let mut game = Game::new(&[22u8; 32]);
    let start = game.piece();
    game.update(
        16,
        &[Action::MoveLeft, Action::MoveLeft, Action::MoveDown, Action::MoveRight],
        false,
    );
    assert_eq!(game.piece().x, start.x - 1);
    assert_eq!(game.piece().y, start.y + 1);
    game.update(16, &[Action::RotateClockwise], false);
    assert_eq!(game.piece().rotation, 1);
    game.update(16, &[Action::RotateCounterClockwise], false);
    assert_eq!(game.piece().rotation, 0);
}

#[test]
fn a_hard_drop_locks_at_once() {
    let seed = [23u8; 32];
    let mut game = Game::new(&seed);
    let mut bag = Bag::new(&seed);
    let first = bag.pop();
    let second = bag.pop();
    game.update(1, &[Action::HardDrop], false);
    assert_eq!(game.piece().shape(), second);
    assert_eq!(game.piece().y, 18);
    assert_eq!(filled(game.matrix()), 4);
    assert!(cells(game.matrix())[39].contains(&first.block()));
}

#[test]
fn a_soft_drop_does_not_lock() {
    let mut game = Game::new(&[24u8; 32]);
    let first = game.piece().shape();
    game.update(1, &[Action::SoftDrop], false);
    assert_eq!(game.piece().shape(), first);
    assert!(game.piece().touching_floor(game.matrix()));
    assert_eq!(filled(game.matrix()), 0);
}

#[test]
fn gravity_pulls_once_in_a_second_and_locks_what_rests() {
    let mut game = Game::new(&[25u8; 32]);
    let first = game.piece().shape();
    game.update(999, &[], false);
    assert_eq!(game.piece().y, 18);
    game.update(1, &[], false);
    assert_eq!(game.piece().y, 19);
    game.update(1, &[Action::SoftDrop], false);
    assert_eq!(game.piece().shape(), first);
    game.update(999, &[], false);
    assert_ne!(game.piece().shape(), first);
    assert_eq!(filled(game.matrix()), 4);
}

#[test]
fn a_game_allows_one_hold_for_each_piece() {
    let seed = [26u8; 32];
    let mut game = Game::new(&seed);
    let mut bag = Bag::new(&seed);
    let first = bag.pop();
    let second = bag.pop();
    let third = bag.pop();
    game.update(1, &[Action::HoldPiece, Action::HoldPiece], false);
    assert_eq!(game.held(), Some(first));
    assert_eq!(game.piece().shape(), second);
    game.update(1, &[Action::HardDrop, Action::HoldPiece], false);
    assert_eq!(game.held(), Some(third));
    assert_eq!(game.piece().shape(), first);
}

#[test]
fn a_paused_game_stands_still() {
    let mut game = Game::new(&[27u8; 32]);
    let start = game.piece();
    game.update(5000, &[Action::MoveLeft, Action::HardDrop], true);
    assert_eq!(game.piece().x, start.x);
    assert_eq!(game.piece().y, start.y);
    assert_eq!(filled(game.matrix()), 0);
}

#[test]
fn the_actions_of_a_session_are_no_moves() {
    let mut game = Game::new(&[28u8; 32]);
    let start = game.piece();
    game.update(
        1,
        &[Action::FallPiece, Action::LockPiece, Action::GameOver],
        false,
    );
    assert_eq!(game.piece().x, start.x);
    assert_eq!(game.piece().y, start.y);
    assert_eq!(game.piece().shape(), start.shape());
    assert!(!game.game_over());
}

#[test]
fn a_game_ends_when_the_stack_reaches_the_top() {
    let mut game = Game::new(&[29u8; 32]);
    let mut drops = 0;
    while !game.game_over() && drops < 100 {
        game.update(1, &[Action::HardDrop], false);
        drops += 1;
    }
    assert!(game.game_over());
    assert!(drops >= 8 && drops <= 22);
    let rows = cells(game.matrix());
    game.update(5000, &[Action::MoveLeft, Action::HardDrop], false);
    assert_eq!(cells(game.matrix()), rows);
}

#[test]
fn two_games_of_one_seed_are_the_same() {
    let seed = [30u8; 32];
    let mut a = Game::new(&seed);
    let mut b = Game::new(&seed);
    let script = [
        Action::MoveLeft,
        Action::RotateClockwise,
        Action::HardDrop,
        Action::MoveRight,
        Action::HoldPiece,
        Action::SoftDrop,
    ];
    for round in 0..60u64 {
        let moves = &script[(round % 3) as usize..];
        a.update(100 + round, moves, false);
        b.update(100 + round, moves, false);
    }
    assert_eq!(cells(a.matrix()), cells(b.matrix()));
    assert_eq!(a.game_over(), b.game_over());
    assert_eq!(a.held(), b.held());
    assert_eq!(a.queued(), b.queued());
}

#[test]
fn the_tower_of_a_game_is_built_on_its_field() {
    let mut game = Game::new(&[31u8; 32]);
    let piece = game.piece();
    game.debug_tower();
    assert_eq!(filled(game.matrix()), 108);
    assert_eq!(game.piece().shape(), piece.shape());
}

#[test]
fn the_lock_of_a_game_opens_the_hold_slot() {
    let mut game = Game::new(&[32u8; 32]);
    game.update(1, &[Action::HoldPiece, Action::SoftDrop], false);
    assert!(game.holder().locked());
    let held = game.held();
    game.lock_piece();
    assert!(!game.game_over());
    assert!(!game.holder().locked());
    assert_eq!(game.held(), held);
    assert_eq!(filled(game.matrix()), 4);
}

#[test]
fn a_lock_that_the_field_refuses_ends_the_game() {
    let mut game = Game::new(&[33u8; 32]);
    game.update(1, &[Action::HoldPiece], false);
    let piece = game.piece();
    let queued = game.queued();
    game.lock_piece();
    assert!(game.game_over());
    assert!(game.holder().locked());
    assert_eq!(game.piece(), piece);
    assert_eq!(game.queued(), queued);
    assert_eq!(filled(game.matrix()), 0);
}

#[test]
fn a_piece_that_cannot_enter_ends_the_game_and_keeps_the_slot_locked() {
    let mut game = Game::new(&[34u8; 32]);
    game.update(1, &[Action::HoldPiece, Action::MoveDown], false);
    let mut bag = Bag::new(&[34u8; 32]);
    bag.pop();
    bag.pop();
    let third = bag.pop();
    game.lock_piece();
    assert!(game.game_over());
    assert!(game.holder().locked());
    assert_eq!(filled(game.matrix()), 4);
    assert_eq!(game.piece().shape(), third);
    assert!(game.matrix().collision(&game.piece()));
}
