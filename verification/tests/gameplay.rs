use blockfall::action::Action;
use blockfall::bag::Bag;
use blockfall::event::{Explosion, Sound};
use blockfall::gameplay::{Gameplay, Rules};
use blockfall::matrix::Matrix;
use blockfall::piece::Piece;
use blockfall::shape::ShapeType;

const RULES: Rules = Rules {
    clear_delay: 500,
    lock_delay: 500,
};

fn seed(byte: u8) -> [u8; 32] {
    let mut seed = [0u8; 32];
    for (i, b) in seed.iter_mut().enumerate() {
        *b = byte.wrapping_mul(31).wrapping_add(i as u8);
    }
    seed
}

/// A session that has counted down. The update that ends the countdown is
/// one millisecond long, and play has run for as long.
fn playing(interactive: bool, seed: &[u8; 32]) -> Gameplay {
    let mut gameplay = Gameplay::new(interactive, seed);
    gameplay.update(0, &RULES, false, false);
    gameplay.update(1000, &RULES, false, false);
    gameplay.update(1000, &RULES, false, false);
    gameplay.update(999, &RULES, false, false);
    assert_eq!(gameplay.countdown(), Some(1));
    gameplay.update(1, &RULES, false, false);
    assert_eq!(gameplay.countdown(), None);
    assert!(!gameplay.paused());
    gameplay
}

fn cells(matrix: &Matrix) -> Vec<Vec<usize>> {
    (0..40)
        .map(|y| (0..10).map(|x| matrix.cell(x, y)).collect())
        .collect()
}

fn log(gameplay: &Gameplay) -> Vec<(Action, u64)> {
    let data = gameplay.replay_data();
    (0..data.len()).map(|i| data.get(i).unwrap()).collect()
}

/// The rows that a piece falls on an empty field from where it enters.
fn drop_of(shape: ShapeType) -> i32 {
    let grid = shape.grid(0);
    let matrix = Matrix::new(10, 20, 20).unwrap();
    let piece = Piece::new(shape, &matrix);
    40 - (piece.y + grid.offset_y + grid.height)
}

#[test]
fn a_new_session_waits_for_the_countdown() {
    let seed = seed(1);
    let mut gameplay = Gameplay::new(true, &seed);
    let mut bag = Bag::new(&seed);
    assert_eq!(gameplay.countdown(), Some(4));
    assert!(gameplay.paused());
    assert!(!gameplay.game_over());
    assert_eq!(gameplay.score(), 0);
    assert_eq!(gameplay.held(), None);
    assert_eq!(gameplay.piece().shape(), bag.pop());
    assert_eq!(gameplay.queued(), bag.queued());
    assert_eq!(gameplay.replay_data().seed(), seed);
    assert_eq!(gameplay.replay_data().len(), 0);
    assert_eq!(gameplay.replay_data().get(0), None);
    assert_eq!(gameplay.explosion(), None);
    assert!(gameplay.sounds().is_empty());
    assert_eq!(cells(gameplay.stack()), vec![vec![0; 10]; 40]);
    assert_eq!(gameplay.stack().width(), 10);
    assert_eq!(gameplay.stack().height(), 20);
    assert_eq!(gameplay.stack().vanish(), 20);
}

#[test]
fn the_countdown_ticks_once_a_second() {
    let mut gameplay = Gameplay::new(true, &seed(1));
    gameplay.update(0, &RULES, false, true);
    assert_eq!(gameplay.countdown(), Some(3));
    assert_eq!(gameplay.sounds(), vec![Sound::Countdown]);
    gameplay.update(999, &RULES, false, true);
    assert_eq!(gameplay.countdown(), Some(3));
    assert!(gameplay.sounds().is_empty());
    gameplay.update(1, &RULES, false, true);
    assert_eq!(gameplay.countdown(), Some(2));
    gameplay.update(5000, &RULES, false, true);
    assert_eq!(gameplay.countdown(), Some(1));
    assert!(gameplay.paused());
    assert_eq!(gameplay.sounds(), vec![Sound::Countdown, Sound::Countdown]);
    gameplay.update(1000, &RULES, false, true);
    assert_eq!(gameplay.countdown(), None);
    assert_eq!(gameplay.sounds(), vec![Sound::Go]);
    assert!(!gameplay.paused());
}

#[test]
fn nothing_is_handled_during_the_countdown() {
    let mut gameplay = Gameplay::new(true, &seed(1));
    let before = gameplay.piece();
    gameplay.action(Action::MoveLeft, false);
    gameplay.update(0, &RULES, false, true);
    gameplay.update(1000, &RULES, false, true);
    gameplay.update(1000, &RULES, false, true);
    assert_eq!(gameplay.replay_data().len(), 0);
    assert_eq!(gameplay.piece().x, before.x);
    // the last tick ends the countdown, and the same update handles the queue
    // and lets gravity count
    gameplay.update(1000, &RULES, false, true);
    assert_eq!(log(&gameplay), vec![(Action::MoveLeft, 1000)]);
    assert_eq!(gameplay.piece().x, before.x - 1);
    assert_eq!(gameplay.piece().y, before.y);
    gameplay.update(0, &RULES, false, true);
    assert_eq!(log(&gameplay)[1], (Action::FallPiece, 0));
    assert_eq!(gameplay.piece().y, before.y + 1);
}

#[test]
fn moves_are_handled_in_their_order_and_recorded() {
    let mut gameplay = playing(true, &seed(2));
    let start = gameplay.piece();
    gameplay.actions(&[Action::MoveLeft, Action::MoveLeft, Action::MoveDown]);
    gameplay.action(Action::MoveRight, false);
    gameplay.update(16, &RULES, false, true);
    assert_eq!(
        log(&gameplay),
        vec![
            (Action::MoveLeft, 17),
            (Action::MoveLeft, 0),
            (Action::MoveDown, 0),
            (Action::MoveRight, 0),
        ]
    );
    let piece = gameplay.piece();
    assert_eq!((piece.x, piece.y), (start.x - 1, start.y + 1));
    assert_eq!(gameplay.sounds(), vec![Sound::Move; 4]);
    gameplay.update(16, &RULES, false, true);
    gameplay.action(Action::RotateClockwise, false);
    gameplay.update(16, &RULES, false, true);
    assert_eq!(log(&gameplay)[4], (Action::RotateClockwise, 32));
    assert_eq!(gameplay.piece().rotation, 1);
    assert_eq!(gameplay.sounds(), vec![Sound::Rotate]);
}

#[test]
fn an_immediate_action_goes_first() {
    let mut gameplay = playing(false, &seed(2));
    gameplay.action(Action::MoveLeft, false);
    gameplay.action(Action::MoveRight, false);
    gameplay.action(Action::MoveDown, true);
    gameplay.update(1, &RULES, false, false);
    assert_eq!(
        log(&gameplay),
        vec![
            (Action::MoveDown, 2),
            (Action::MoveLeft, 0),
            (Action::MoveRight, 0),
        ]
    );
}

#[test]
fn a_move_into_the_wall_makes_no_sound() {
    let mut gameplay = playing(true, &seed(2));
    gameplay.actions(&[Action::MoveLeft; 8]);
    gameplay.update(1, &RULES, false, true);
    let sounds = gameplay.sounds();
    assert!(sounds.len() < 8);
    assert!(sounds.iter().all(|s| *s == Sound::Move));
    let piece = gameplay.piece();
    assert_eq!(piece.x + piece.get_grid().offset_x, 0);
    assert_eq!(gameplay.replay_data().len(), 8);
}

#[test]
fn a_hard_drop_locks_before_what_was_queued_after_it() {
    let seed = seed(3);
    let mut gameplay = playing(true, &seed);
    let mut bag = Bag::new(&seed);
    let first = bag.pop();
    let second = bag.pop();
    let third = bag.pop();
    gameplay.actions(&[Action::HardDrop, Action::HoldPiece]);
    gameplay.update(7, &RULES, false, true);
    assert_eq!(
        log(&gameplay),
        vec![
            (Action::HardDrop, 8),
            (Action::LockPiece, 0),
            (Action::HoldPiece, 0),
        ]
    );
    assert_eq!(gameplay.score(), 2 * drop_of(first));
    assert_eq!(
        gameplay.sounds(),
        vec![Sound::HardDrop, Sound::Lock, Sound::Hold]
    );
    // the second shape entered and was set aside for the third
    assert_eq!(gameplay.held(), Some(second));
    assert_eq!(gameplay.piece().shape(), third);
    let filled: usize = cells(gameplay.stack())
        .iter()
        .map(|row| row.iter().filter(|c| **c == first.block()).count())
        .sum();
    assert_eq!(filled, 4);
    assert_eq!(gameplay.explosion(), None);
}

#[test]
fn a_soft_drop_counts_one_point_a_row_and_does_not_lock() {
    let seed = seed(3);
    let mut gameplay = playing(true, &seed);
    let first = gameplay.piece().shape();
    gameplay.action(Action::SoftDrop, false);
    gameplay.update(1, &RULES, false, true);
    assert_eq!(gameplay.score(), drop_of(first));
    assert_eq!(gameplay.sounds(), vec![Sound::SoftDrop]);
    assert_eq!(log(&gameplay), vec![(Action::SoftDrop, 2)]);
    assert_eq!(gameplay.piece().shape(), first);
    assert!(gameplay.piece().touching_floor(gameplay.stack()));
    gameplay.action(Action::SoftDrop, false);
    gameplay.update(1, &RULES, false, true);
    assert_eq!(gameplay.score(), drop_of(first));
    assert!(gameplay.sounds().is_empty());
}

#[test]
fn hold_swaps_once_for_each_piece() {
    let seed = seed(4);
    let mut gameplay = playing(true, &seed);
    let mut bag = Bag::new(&seed);
    let first = bag.pop();
    let second = bag.pop();
    let third = bag.pop();
    gameplay.action(Action::HoldPiece, false);
    gameplay.update(1, &RULES, false, true);
    assert_eq!(gameplay.held(), Some(first));
    assert_eq!(gameplay.piece().shape(), second);
    assert_eq!(gameplay.sounds(), vec![Sound::Hold]);

    gameplay.action(Action::MoveDown, false);
    gameplay.action(Action::HoldPiece, false);
    gameplay.update(1, &RULES, false, true);
    assert_eq!(gameplay.held(), Some(first));
    assert_eq!(gameplay.piece().shape(), second);
    assert_eq!(gameplay.piece().y, 19);
    assert_eq!(gameplay.sounds(), vec![Sound::Move, Sound::HoldFail]);
    assert_eq!(gameplay.queued().len(), 5);

    // the lock opens the slot again
    gameplay.action(Action::HardDrop, false);
    gameplay.action(Action::HoldPiece, false);
    gameplay.update(1, &RULES, false, true);
    assert_eq!(gameplay.held(), Some(third));
    assert_eq!(gameplay.piece().shape(), first);
    assert_eq!(gameplay.piece().y, 18);
    assert_eq!(gameplay.queued().len(), 4);
}

#[test]
fn gravity_pulls_once_in_a_fall_interval() {
    let mut gameplay = playing(true, &seed(5));
    let start = gameplay.piece();
    gameplay.update(998, &RULES, false, true);
    gameplay.update(0, &RULES, false, true);
    assert_eq!(gameplay.piece().y, start.y);
    assert_eq!(gameplay.replay_data().len(), 0);
    // the interval has passed: the fall waits in the queue for the next update
    gameplay.update(1, &RULES, false, true);
    assert_eq!(gameplay.piece().y, start.y);
    gameplay.update(10, &RULES, false, true);
    assert_eq!(gameplay.piece().y, start.y + 1);
    assert_eq!(log(&gameplay), vec![(Action::FallPiece, 1010)]);
    assert!(gameplay.sounds().is_empty());
    gameplay.update(989, &RULES, false, true);
    assert_eq!(gameplay.piece().y, start.y + 1);
    gameplay.update(1, &RULES, false, true);
    gameplay.update(0, &RULES, false, true);
    assert_eq!(gameplay.piece().y, start.y + 2);
}

#[test]
fn a_resting_piece_locks_after_the_lock_delay() {
    let seed = seed(6);
    let mut gameplay = playing(true, &seed);
    let first = gameplay.piece().shape();
    gameplay.action(Action::SoftDrop, false);
    gameplay.update(0, &RULES, false, true);
    assert_eq!(gameplay.piece().locking(), 0);
    gameplay.update(300, &RULES, false, true);
    gameplay.update(200, &RULES, false, true);
    assert_eq!(gameplay.piece().locking(), 500);
    assert_eq!(gameplay.piece().shape(), first);
    assert_eq!(gameplay.replay_data().len(), 1);
    // longer than the delay: the lock waits in the queue for the next update
    gameplay.update(1, &RULES, false, true);
    assert_eq!(gameplay.piece().locking(), 501);
    assert_eq!(gameplay.replay_data().len(), 1);
    gameplay.update(1, &RULES, false, true);
    assert_eq!(log(&gameplay)[1], (Action::LockPiece, 502));
    assert_ne!(gameplay.piece().shape(), first);
    assert_eq!(gameplay.piece().locking(), 0);
    assert_eq!(gameplay.score(), drop_of(first));
}

#[test]
fn a_move_starts_the_lock_delay_anew() {
    let mut gameplay = playing(true, &seed(6));
    gameplay.action(Action::SoftDrop, false);
    gameplay.update(0, &RULES, false, true);
    gameplay.update(400, &RULES, false, true);
    assert_eq!(gameplay.piece().locking(), 400);
    gameplay.action(Action::MoveLeft, false);
    gameplay.update(50, &RULES, false, true);
    // the move set the rest to nothing, the update that made it counts
    assert_eq!(gameplay.piece().locking(), 50);
    gameplay.update(450, &RULES, false, true);
    assert_eq!(gameplay.piece().locking(), 500);
    assert_eq!(gameplay.replay_data().len(), 2);
}

#[test]
fn a_session_that_is_not_played_only_follows_its_actions() {
    let seed = seed(7);
    let mut gameplay = playing(false, &seed);
    let first = gameplay.piece().shape();
    let start = gameplay.piece();
    for _ in 0..10 {
        gameplay.update(1000, &RULES, false, true);
    }
    assert_eq!(gameplay.piece().y, start.y);
    assert_eq!(gameplay.replay_data().len(), 0);

    gameplay.action(Action::HardDrop, false);
    gameplay.update(1, &RULES, false, true);
    assert_eq!(log(&gameplay), vec![(Action::HardDrop, 10_002)]);
    assert_eq!(gameplay.piece().shape(), first);
    assert_eq!(gameplay.score(), 2 * drop_of(first));
    for _ in 0..10 {
        gameplay.update(1000, &RULES, false, true);
    }
    assert_eq!(gameplay.piece().shape(), first);

    gameplay.action(Action::FallPiece, false);
    gameplay.update(1, &RULES, false, true);
    assert_eq!(gameplay.piece().shape(), first);
    gameplay.action(Action::LockPiece, false);
    gameplay.update(1, &RULES, false, true);
    assert_ne!(gameplay.piece().shape(), first);
    assert_eq!(gameplay.replay_data().len(), 3);
}

#[test]
fn the_end_of_the_game_stops_the_queue() {
    let mut gameplay = playing(true, &seed(8));
    gameplay.action(Action::MoveLeft, false);
    gameplay.action(Action::GameOver, true);
    gameplay.update(3, &RULES, false, true);
    assert!(gameplay.game_over());
    assert!(gameplay.paused());
    assert!(gameplay.stack().frozen());
    assert_eq!(gameplay.explosion(), Some(Explosion::GameOver));
    assert_eq!(gameplay.explosion(), None);
    assert_eq!(gameplay.sounds(), vec![Sound::GameOver]);
    assert_eq!(log(&gameplay), vec![(Action::GameOver, 4)]);
    let piece = gameplay.piece();
    for _ in 0..5 {
        gameplay.update(1000, &RULES, false, true);
    }
    assert_eq!(gameplay.replay_data().len(), 1);
    assert_eq!(gameplay.piece().x, piece.x);
    assert_eq!(gameplay.piece().y, piece.y);
    assert!(gameplay.sounds().is_empty());
}

#[test]
fn a_stack_that_reaches_the_top_ends_the_game() {
    let mut gameplay = playing(true, &seed(9));
    let mut drops = 0;
    while !gameplay.game_over() && drops < 100 {
        gameplay.action(Action::HardDrop, false);
        gameplay.update(1, &RULES, false, false);
        drops += 1;
    }
    assert!(gameplay.game_over());
    assert!(drops >= 8 && drops <= 22);
    let entries = log(&gameplay);
    assert_eq!(entries.last().unwrap().0, Action::GameOver);
    assert_eq!(entries[entries.len() - 2].0, Action::LockPiece);
    assert_eq!(gameplay.explosion(), Some(Explosion::GameOver));
    assert!(gameplay.score() > 0);
}

#[test]
fn a_pause_from_outside_holds_the_queue() {
    let mut gameplay = playing(true, &seed(10));
    let start = gameplay.piece();
    gameplay.action(Action::MoveLeft, false);
    gameplay.update(5000, &RULES, true, true);
    assert_eq!(gameplay.piece().x, start.x);
    assert_eq!(gameplay.replay_data().len(), 0);
    assert!(!gameplay.paused());
    gameplay.update(5, &RULES, false, true);
    // the time of the pause does not count
    assert_eq!(log(&gameplay), vec![(Action::MoveLeft, 6)]);
    assert_eq!(gameplay.piece().y, start.y);
}

#[test]
fn no_sound_where_none_is_wanted() {
    let mut gameplay = Gameplay::new(true, &seed(11));
    gameplay.update(0, &RULES, false, false);
    gameplay.update(1000, &RULES, false, false);
    gameplay.update(1000, &RULES, false, false);
    gameplay.update(1000, &RULES, false, false);
    gameplay.actions(&[
        Action::MoveLeft,
        Action::RotateClockwise,
        Action::HoldPiece,
        Action::SoftDrop,
        Action::HardDrop,
        Action::GameOver,
    ]);
    gameplay.update(1, &RULES, false, false);
    assert!(gameplay.game_over());
    assert!(gameplay.sounds().is_empty());
}

#[test]
fn explode_sets_the_burst_that_waits() {
    let mut gameplay = Gameplay::new(true, &seed(11));
    gameplay.explode(Explosion::Tetris);
    gameplay.explode(Explosion::TSpin);
    assert_eq!(gameplay.explosion(), Some(Explosion::TSpin));
    assert_eq!(gameplay.explosion(), None);
}

/// A seed whose first three shapes are the I, the J and the L in some order.
fn seed_for_a_row() -> [u8; 32] {
    for byte in 0..=255u8 {
        let seed = seed(byte);
        let mut bag = Bag::new(&seed);
        let mut first = vec![bag.pop(), bag.pop(), bag.pop()];
        first.sort_by_key(|s| s.index());
        if first == vec![ShapeType::I, ShapeType::J, ShapeType::L] {
            return seed;
        }
    }
    panic!("no seed starts with the three shapes");
}

/// Drops the I into the columns 0 to 3, the J into 4 to 6 and the L into 7 to
/// 9, whichever of them is in play.
fn place_for_a_row(gameplay: &mut Gameplay) {
    let moves = match gameplay.piece().shape() {
        ShapeType::I => vec![Action::MoveLeft; 3],
        ShapeType::J => vec![Action::MoveRight; 1],
        ShapeType::L => vec![Action::MoveRight; 4],
        _ => unreachable!(),
    };
    gameplay.actions(&moves);
    gameplay.action(Action::HardDrop, false);
}

#[test]
fn a_cleared_row_scores_and_blocks_until_it_collapses() {
    let seed = seed_for_a_row();
    let mut gameplay = playing(true, &seed);
    place_for_a_row(&mut gameplay);
    gameplay.update(1, &RULES, false, true);
    place_for_a_row(&mut gameplay);
    gameplay.update(1, &RULES, false, true);
    assert_eq!(gameplay.score(), 2 * 20 * 2);
    assert!(!gameplay.stack().blocked());
    assert_eq!(gameplay.explosion(), None);
    gameplay.sounds();

    place_for_a_row(&mut gameplay);
    gameplay.action(Action::MoveLeft, false);
    gameplay.update(1, &RULES, false, true);
    assert_eq!(gameplay.score(), 3 * 20 * 2 + 100);
    assert!(gameplay.stack().blocked());
    assert!(gameplay.paused());
    assert_eq!(gameplay.stack().clearing(), Some((vec![39], 0)));
    assert_eq!(gameplay.explosion(), Some(Explosion::Lines));
    assert_eq!(gameplay.sounds().last(), Some(&Sound::Erase1));
    assert_eq!(cells(gameplay.stack())[39], vec![0; 10]);
    assert_eq!(cells(gameplay.stack())[38], vec![0, 0, 0, 0, 2, 0, 0, 0, 0, 3]);
    // the move that was queued after the drop waits
    let handled = gameplay.replay_data().len();
    assert_eq!(log(&gameplay).last().unwrap().0, Action::LockPiece);
    let piece = gameplay.piece();
    gameplay.update(500, &RULES, false, true);
    assert!(gameplay.stack().blocked());
    assert_eq!(gameplay.replay_data().len(), handled);

    gameplay.update(1, &RULES, false, true);
    assert!(!gameplay.stack().blocked());
    assert_eq!(cells(gameplay.stack())[39], vec![0, 0, 0, 0, 2, 0, 0, 0, 0, 3]);
    assert_eq!(cells(gameplay.stack())[38], vec![0; 10]);
    assert_eq!(log(&gameplay).last().unwrap(), &(Action::MoveLeft, 1));
    assert_eq!(gameplay.piece().x, piece.x - 1);
}

#[test]
fn the_clear_delay_of_the_rules_decides_the_wait() {
    let seed = seed_for_a_row();
    let rules = Rules {
        clear_delay: 50,
        lock_delay: 500,
    };
    let mut gameplay = playing(true, &seed);
    for _ in 0..3 {
        place_for_a_row(&mut gameplay);
        gameplay.update(1, &rules, false, false);
    }
    assert!(gameplay.stack().blocked());
    gameplay.update(50, &rules, false, false);
    assert!(gameplay.stack().blocked());
    gameplay.update(1, &rules, false, false);
    assert!(!gameplay.stack().blocked());
}

fn play(seed: &[u8; 32], sfx: bool) -> Gameplay {
    let mut gameplay = Gameplay::new(true, seed);
    let script = [
        Action::MoveLeft,
        Action::RotateClockwise,
        Action::HardDrop,
        Action::MoveRight,
        Action::MoveRight,
        Action::SoftDrop,
        Action::HoldPiece,
        Action::RotateCounterClockwise,
        Action::MoveDown,
        Action::HardDrop,
        Action::MoveLeft,
        Action::MoveLeft,
        Action::MoveLeft,
        Action::HardDrop,
    ];
    for round in 0..40 {
        for (i, action) in script.iter().enumerate() {
            if (i + round) % 3 != 0 {
                gameplay.action(*action, false);
            }
            gameplay.update(17 * (i as u64 % 5) + 200 * (round as u64 % 4), &RULES, false, sfx);
        }
    }
    gameplay
}

#[test]
fn the_same_seed_and_the_same_actions_give_the_same_game() {
    let seed = seed(12);
    let a = play(&seed, true);
    let b = play(&seed, true);
    assert!(a.replay_data().len() > 20);
    assert_eq!(cells(a.stack()), cells(b.stack()));
    assert_eq!(a.score(), b.score());
    assert_eq!(log(&a), log(&b));
    assert_eq!(a.held(), b.held());
    assert_eq!(a.queued(), b.queued());
    assert_eq!(a.game_over(), b.game_over());
    assert_eq!(a.piece().x, b.piece().x);
    assert_eq!(a.piece().y, b.piece().y);
}

#[test]
fn sounds_have_no_part_in_the_game() {
    let seed = seed(13);
    let mut loud = play(&seed, true);
    let mut quiet = play(&seed, false);
    assert_eq!(cells(loud.stack()), cells(quiet.stack()));
    assert_eq!(loud.score(), quiet.score());
    assert_eq!(log(&loud), log(&quiet));
    assert!(!loud.sounds().is_empty());
    assert!(quiet.sounds().is_empty());
}

#[test]
fn another_seed_gives_another_game() {
    let a = play(&seed(14), false);
    let b = play(&seed(15), false);
    assert!(cells(a.stack()) != cells(b.stack()) || a.score() != b.score());
}

#[test]
fn the_tower_of_a_session_is_built_on_its_field() {
    let mut gameplay = playing(true, &seed(16));
    let piece = gameplay.piece();
    gameplay.debug_tower();
    let rows = cells(gameplay.stack());
    let filled: usize = rows
        .iter()
        .map(|row| row.iter().filter(|c| **c != 0).count())
        .sum();
    assert_eq!(filled, 108);
    assert!(rows.iter().flatten().all(|c| *c <= 7));
    assert_eq!(rows[39][2], 0);
    assert_eq!(gameplay.piece().shape(), piece.shape());
    assert_eq!(gameplay.score(), 0);
}

/// A seed whose shape number `index` of the first cycle is `shape`.
fn seed_with(index: usize, shape: ShapeType) -> [u8; 32] {
    for byte in 0..=255u8 {
        let seed = seed(byte);
        let mut bag = Bag::new(&seed);
        let shapes: Vec<ShapeType> = (0..7).map(|_| bag.pop()).collect();
        if shapes[index] == shape {
            return seed;
        }
    }
    panic!("no seed has the shape there");
}

#[test]
fn a_lock_opens_the_hold_slot_and_starts_the_fall_interval_anew() {
    for interactive in [true, false] {
        let mut gameplay = playing(interactive, &seed(17));
        gameplay.update(400, &RULES, false, false);
        let falling = gameplay.falling();
        assert_eq!(falling, if interactive { 401 } else { 0 });
        gameplay.action(Action::HoldPiece, false);
        gameplay.update(0, &RULES, false, false);
        let held = gameplay.held();
        assert!(gameplay.holder().locked());
        assert_eq!(gameplay.falling(), falling);
        gameplay.action(Action::SoftDrop, false);
        gameplay.update(0, &RULES, false, false);
        gameplay.update(500, &RULES, false, false);
        let waited = gameplay.falling();
        assert_eq!(waited, if interactive { 500 } else { 0 });
        gameplay.action(Action::LockPiece, false);
        gameplay.update(0, &RULES, false, false);
        assert!(!gameplay.game_over());
        assert!(!gameplay.holder().locked());
        assert_eq!(gameplay.held(), held);
        assert_eq!(gameplay.falling(), 0);
    }
}

#[test]
fn a_piece_that_cannot_enter_leaves_the_hold_slot_locked() {
    let seed = seed_with(1, ShapeType::O);
    for interactive in [true, false] {
        let mut gameplay = playing(interactive, &seed);
        gameplay.update(400, &RULES, false, true);
        let falling = gameplay.falling();
        gameplay.sounds();
        // the square comes into play, falls by a row and locks just below the
        // place where the pieces enter
        gameplay.actions(&[Action::HoldPiece, Action::FallPiece, Action::LockPiece]);
        gameplay.action(Action::MoveLeft, false);
        gameplay.update(0, &RULES, false, true);
        assert!(gameplay.game_over());
        assert!(gameplay.holder().locked());
        assert_eq!(gameplay.falling(), falling);
        assert_eq!(gameplay.stack().cell(4, 19), 4);
        assert_eq!(gameplay.stack().cell(5, 20), 4);
        assert!(gameplay.stack().collision(&gameplay.piece()));
        let entries = log(&gameplay);
        assert_eq!(
            entries.iter().map(|entry| entry.0).collect::<Vec<Action>>(),
            vec![
                Action::HoldPiece,
                Action::FallPiece,
                Action::LockPiece,
                Action::GameOver,
            ]
        );
        assert_eq!(
            gameplay.sounds(),
            vec![Sound::Hold, Sound::Lock, Sound::GameOver]
        );
        assert_eq!(gameplay.explosion(), Some(Explosion::GameOver));
    }
}

#[test]
fn a_piece_that_the_field_refuses_changes_nothing() {
    let seed = seed(18);
    for interactive in [true, false] {
        let mut gameplay = playing(interactive, &seed);
        gameplay.update(400, &RULES, false, false);
        gameplay.action(Action::HoldPiece, false);
        gameplay.update(0, &RULES, false, false);
        let piece = gameplay.piece();
        let queued = gameplay.queued();
        let falling = gameplay.falling();
        // the piece lies above the visible rows still
        let go_on = gameplay.process_action(Action::LockPiece, false);
        assert!(go_on);
        assert!(gameplay.holder().locked());
        assert_eq!(gameplay.falling(), falling);
        assert_eq!(gameplay.piece(), piece);
        assert_eq!(gameplay.queued(), queued);
        assert_eq!(cells(gameplay.stack()), vec![vec![0; 10]; 40]);
        assert_eq!(gameplay.score(), 0);
        gameplay.update(0, &RULES, false, false);
        // only a played session ends by it
        assert_eq!(gameplay.game_over(), interactive);
    }
}

#[test]
fn a_turn_at_the_left_wall_in_a_session() {
    let seed = seed_with(0, ShapeType::T);
    let mut gameplay = playing(false, &seed);
    gameplay.process_movement_action(Action::RotateClockwise, true);
    for _ in 0..4 {
        gameplay.process_movement_action(Action::MoveLeft, true);
    }
    let before = gameplay.piece();
    assert_eq!((before.rotation, before.x, before.y), (1, -1, 18));
    let field = cells(gameplay.stack());
    gameplay.sounds();
    gameplay.process_movement_action(Action::RotateClockwise, true);
    let after = gameplay.piece();
    // the second candidate of the turn: one column to the right
    assert_eq!((after.rotation, after.x, after.y), (2, 0, 18));
    assert!(!gameplay.stack().collision(&after));
    assert_eq!(cells(gameplay.stack()), field);
    assert_eq!(gameplay.sounds(), vec![Sound::Rotate]);
    // a move that does not fit leaves the piece as it is
    gameplay.process_movement_action(Action::MoveLeft, true);
    assert_eq!(gameplay.piece(), after);
    assert!(gameplay.sounds().is_empty());
}

#[test]
fn seven_locks_from_the_start_of_a_cycle_let_every_shape_enter() {
    let mut gameplay = playing(false, &seed(19));
    // the first piece came from the first cycle: six locks use it up
    let mut moves = [Action::MoveLeft, Action::MoveRight].iter().cycle();
    for _ in 0..6 {
        let side = *moves.next().unwrap();
        gameplay.actions(&[side, side, side, Action::HardDrop, Action::LockPiece]);
        gameplay.update(1, &RULES, false, false);
    }
    assert!(gameplay.queued().is_empty());
    let mut entered = Vec::new();
    for _ in 0..7 {
        let side = *moves.next().unwrap();
        gameplay.actions(&[side, side, side, Action::HardDrop]);
        gameplay.update(1, &RULES, false, false);
        assert!(gameplay.process_action(Action::LockPiece, false));
        assert!(!gameplay.game_over());
        entered.push(gameplay.piece().shape());
    }
    entered.sort_by_key(|shape| shape.index());
    assert_eq!(
        entered,
        vec![
            ShapeType::I,
            ShapeType::J,
            ShapeType::L,
            ShapeType::O,
            ShapeType::S,
            ShapeType::T,
            ShapeType::Z,
        ]
    );
}
