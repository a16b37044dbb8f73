//! The plain game: a field, a piece, the bag and the hold slot, driven frame
//! by frame by the moves of the player and by gravity. It keeps no queue, no
//! record and no score.

use crate::action::Action;
use crate::bag::{Bag, BagView};
use crate::holder::{Hold, Holder};
use crate::matrix::{
    lemma_advanced_frame, lemma_locked_frame, time_sum, Field, Locked, Matrix, TOWER_BRICKS,
};
use crate::piece::{lemma_spawn_in_box, Piece};
use crate::shape::ShapeType;
use vstd::prelude::*;

verus! {

/// Columns of the field of a game.
pub const WIDTH: i32 = 10;

/// Visible rows of the field of a game.
pub const HEIGHT: i32 = 20;

/// Hidden rows above the visible ones.
pub const VANISH: i32 = 20;

/// Milliseconds between two steps of gravity.
pub const FALL_INTERVAL: u64 = 1000;

/// A game as a mathematical value.
pub struct Play {
    /// The field.
    pub field: Field,
    /// The bag of the shapes to come.
    pub bag: BagView,
    /// The piece in play.
    pub piece: Piece,
    /// The hold slot.
    pub hold: Hold,
    /// Whether the game is over.
    pub game_over: bool,
    /// Milliseconds since the last step of gravity.
    pub still: u64,
    /// Milliseconds between two steps of gravity.
    pub fall_interval: u64,
}

impl Play {
    /// The field has its dimensions and the piece stands inside it.
    pub open spec fn wf(self) -> bool {
        &&& self.field.wf()
        &&& self.field.width == WIDTH
        &&& self.field.height == HEIGHT
        &&& self.field.vanish == VANISH
        &&& self.piece.wf()
        &&& self.field.holds_box(self.piece.spec_grid(), self.piece.x as int, self.piece.y as int)
    }

    /// A new game seeded with `seed`: an empty field and the first shape of
    /// the bag in play.
    pub open spec fn start(seed: Seq<u8>) -> Play {
        let field = Field::empty(WIDTH as int, HEIGHT as int, VANISH as int);
        let bag = BagView::fresh(seed);
        Play {
            field,
            bag: bag.popped(),
            piece: Piece::spawned(bag.next(), field),
            hold: Hold::empty(),
            game_over: false,
            still: 0,
            fall_interval: FALL_INTERVAL,
        }
    }

    /// The game with the time since the last step of gravity cut by one fall
    /// interval, or set to nothing where it is no longer than that.
    pub open spec fn fall_reset(self) -> Play {
        if self.still > self.fall_interval {
            Play { still: (self.still - self.fall_interval) as u64, ..self }
        } else {
            Play { still: 0, ..self }
        }
    }

    /// The game with `piece` in play, and with a new fall interval where
    /// `moved` is set and the piece rests.
    pub open spec fn with_moved(self, piece: Piece, moved: bool) -> Play {
        let next = Play { piece, ..self };
        if moved && piece.resting(self.field) {
            next.fall_reset()
        } else {
            next
        }
    }

    /// After the lock of the piece. The game is over where the piece lies
    /// wholly in the vanish zone, or where the next piece cannot stand as it
    /// enters. Otherwise the next shape of the bag is in play, the fall
    /// interval starts anew and the hold slot opens.
    #[verifier::opaque]
    pub open spec fn locked(self) -> Play {
        let (field, locked) = self.field.locked(
            self.piece.spec_grid(),
            self.piece.x as int,
            self.piece.y as int,
        );
        match locked {
            Locked::Collision => Play { game_over: true, field, ..self },
            Locked::Success(_) => {
                let piece = Piece::spawned(self.bag.next(), field);
                let next = Play { field, bag: self.bag.popped(), piece, ..self };
                if field.collides(piece.spec_grid(), piece.x as int, piece.y as int) {
                    Play { game_over: true, ..next }
                } else {
                    Play { hold: self.hold.unlocked(), ..next.fall_reset() }
                }
            },
        }
    }

    /// After an attempt to hold.
    pub open spec fn held(self) -> Play {
        let next = Play {
            hold: self.hold.held(self.piece.shape.shape_type),
            bag: self.hold.drawn_from(self.bag),
            ..self
        };
        match self.hold.released(self.bag) {
            Some(shape) => Play { piece: Piece::spawned(shape, self.field), ..next },
            None => next,
        }
    }

    /// After a move of the player. The actions that a session gives itself
    /// are not moves: they change nothing.
    #[verifier::opaque]
    pub open spec fn acted(self, action: Action) -> Play {
        match action {
            Action::MoveRight => self.with_moved(
                self.piece.shifted(self.field, 1, 0),
                self.piece.fits(self.field, 1, 0),
            ),
            Action::MoveLeft => self.with_moved(
                self.piece.shifted(self.field, -1, 0),
                self.piece.fits(self.field, -1, 0),
            ),
            Action::MoveDown => if self.piece.fits(self.field, 0, 1) {
                Play { piece: self.piece.shifted(self.field, 0, 1), ..self }.fall_reset()
            } else {
                self
            },
            Action::RotateClockwise => self.with_moved(
                self.piece.rotated(self.field, true),
                self.piece.first_kick(self.field, true, 0) < 5,
            ),
            Action::RotateCounterClockwise => self.with_moved(
                self.piece.rotated(self.field, false),
                self.piece.first_kick(self.field, false, 0) < 5,
            ),
            Action::SoftDrop => {
                let next = Play { piece: self.piece.fallen(self.field), ..self };
                if self.piece.descent(self.field, 0) > 0 {
                    next.fall_reset()
                } else {
                    next
                }
            },
            Action::HardDrop => Play { piece: self.piece.fallen(self.field), ..self }.locked(),
            Action::HoldPiece => self.held(),
            _ => self,
        }
    }

    /// After the moves of `actions`, one after the other.
    pub open spec fn acted_all(self, actions: Seq<Action>) -> Play
        decreases actions.len(),
    {
        if actions.len() == 0 {
            self
        } else {
            self.acted(actions[0]).acted_all(actions.skip(1))
        }
    }

    /// After gravity ran for `delta` milliseconds: when a fall interval has
    /// passed the piece falls by a row, or locks where it cannot.
    #[verifier::opaque]
    pub open spec fn pulled(self, delta: u64) -> Play {
        let still = time_sum(self.still, delta);
        if still >= self.fall_interval {
            let next = Play { still: (still - self.fall_interval) as u64, ..self };
            if self.piece.fits(self.field, 0, 1) {
                Play { piece: self.piece.shifted(self.field, 0, 1), ..next }
            } else {
                next.locked()
            }
        } else {
            Play { still, ..self }
        }
    }

    /// After a frame of `delta` milliseconds with the moves of `actions`. The
    /// field always runs. A game that is over, blocked by cleared rows or
    /// paused does no more. Otherwise the moves are made in their order, and
    /// then gravity runs.
    pub open spec fn updated(self, delta: u64, actions: Seq<Action>, paused: bool) -> Play {
        let waited = Play { field: self.field.advanced(delta), ..self };
        if waited.game_over || waited.field.clearing.is_some() || paused {
            waited
        } else {
            waited.acted_all(actions).pulled(delta)
        }
    }
}

/// The three ends of a lock in the plain game. A piece that the field refuses
/// ends the game and leaves the piece, the bag and the hold slot as they are.
/// A piece that the field takes lets the next shape of the bag enter. Where
/// that one cannot stand, the game is over and the hold slot and the time
/// since the last step of gravity are as they were. Where it can, the game
/// goes on as it did, the hold slot opens and the fall interval starts anew.
pub proof fn lemma_plain_lock_cases(play: Play)
    requires
        play.field.wf(),
    ensures
        ({
            let (field, locked) = play.field.locked(
                play.piece.spec_grid(),
                play.piece.x as int,
                play.piece.y as int,
            );
            let after = play.locked();
            let entering = Piece::spawned(play.bag.next(), field);
            match locked {
                Locked::Collision => {
                    &&& after.game_over
                    &&& after.piece == play.piece
                    &&& after.bag == play.bag
                    &&& after.hold == play.hold
                    &&& after.field == play.field
                    &&& after.still == play.still
                },
                Locked::Success(_) => {
                    &&& after.field == field
                    &&& after.piece == entering
                    &&& after.bag == play.bag.popped()
                    &&& if field.collides(entering.spec_grid(), entering.x as int, entering.y as int) {
                        after.game_over && after.hold == play.hold && after.still == play.still
                    } else {
                        &&& after.game_over == play.game_over
                        &&& after.hold == play.hold.unlocked()
                        &&& after.hold.shape == play.hold.shape
                        &&& !after.hold.locked
                        &&& after.still == play.fall_reset().still
                    }
                },
            }
        }),
{
    reveal(Play::locked);
    lemma_locked_frame(
        play.field,
        play.piece.spec_grid(),
        play.piece.x as int,
        play.piece.y as int,
    );
}

/// The plain game.
pub struct Game {
    matrix: Matrix,
    bag: Bag,
    piece: Piece,
    holder: Holder,
    game_over: bool,
    still: u64,
    fall_interval: u64,
}

impl View for Game {
    type V = Play;

    closed spec fn view(&self) -> Play {
        Play {
            field: self.matrix@,
            bag: self.bag@,
            piece: self.piece,
            hold: self.holder@,
            game_over: self.game_over,
            still: self.still,
            fall_interval: self.fall_interval,
        }
    }
}

impl Game {
    /// The field and the bag are well formed.
    pub closed spec fn parts_wf(&self) -> bool {
        self.matrix.wf() && self.bag.wf()
    }

    /// The invariant of a game.
    pub open spec fn wf(&self) -> bool {
        self.parts_wf() && self@.wf()
    }

    /// A new game seeded with `seed`.
    pub fn new(seed: &[u8; 32]) -> (game: Game)
        ensures
            game.wf(),
            game@ == Play::start(seed@),
    {
        let matrix = match Matrix::new(WIDTH, HEIGHT, VANISH) {
            Some(matrix) => matrix,
            None => {
                assert(false);
                vstd::pervasive::unreached()
            },
        };
        let mut bag = Bag::new(seed);
        let piece = Piece::new(bag.pop(), &matrix);
        proof {
            lemma_spawn_in_box(BagView::fresh(seed@).next(), matrix@);
        }
        Game {
            matrix,
            bag,
            piece,
            holder: Holder::new(),
            game_over: false,
            still: 0,
            fall_interval: FALL_INTERVAL,
        }
    }

    /// Starts the fall interval anew.
    fn reset_fall(&mut self)
        requires
            old(self).wf(),
        ensures
            final(self).wf(),
            final(self)@ == old(self)@.fall_reset(),
    {
        if self.still > self.fall_interval {
            self.still -= self.fall_interval;
        } else {
            self.still = 0;
        }
    }

    /// Locks the piece and lets the next one enter.
    pub fn lock_piece(&mut self)
        requires
            old(self).wf(),
        ensures
            final(self).wf(),
            final(self)@ == old(self)@.locked(),
    {
        proof {
            reveal(Play::locked);
            lemma_locked_frame(
                self.matrix@,
                self.piece.spec_grid(),
                self.piece.x as int,
                self.piece.y as int,
            );
        }
        match self.matrix.lock(&self.piece) {
            Locked::Collision => {
                self.game_over = true;
            },
            Locked::Success(_) => {
                proof {
                    lemma_spawn_in_box(self.bag@.next(), self.matrix@);
                }
                self.piece = Piece::new(self.bag.pop(), &self.matrix);
                if self.matrix.collision(&self.piece) {
                    self.game_over = true;
                } else {
                    self.reset_fall();
                    self.holder.unlock();
                }
            },
        }
    }

    /// Handles an attempt to hold.
    fn hold_piece(&mut self)
        requires
            old(self).wf(),
        ensures
            final(self).wf(),
            final(self)@ == old(self)@.held(),
    {
        match self.holder.hold(self.piece.shape(), &mut self.bag) {
            Some(shape) => {
                proof {
                    lemma_spawn_in_box(shape, self.matrix@);
                }
                self.piece = Piece::new(shape, &self.matrix);
            },
            None => {},
        }
    }

    /// Gives the piece that moved a new fall interval where it rests.
    fn settle_move(&mut self, moved: bool)
        requires
            old(self).wf(),
        ensures
            final(self).wf(),
            final(self)@ == (Play { piece: old(self)@.piece, ..old(self)@ }).with_moved(
                old(self)@.piece,
                moved,
            ),
    {
        if moved && self.piece.touching_floor(&self.matrix) {
            self.reset_fall();
        }
    }

    /// Makes a move of the player.
    fn act(&mut self, action: Action)
        requires
            old(self).wf(),
        ensures
            final(self).wf(),
            final(self)@ == old(self)@.acted(action),
    {
        proof {
            reveal(Play::acted);
        }
        match action {
            Action::MoveRight => {
                let moved = self.piece.shift(1, 0, &self.matrix);
                self.settle_move(moved);
            },
            Action::MoveLeft => {
                let moved = self.piece.shift(-1, 0, &self.matrix);
                self.settle_move(moved);
            },
            Action::MoveDown => {
                if self.piece.shift(0, 1, &self.matrix) {
                    self.reset_fall();
                }
            },
            Action::RotateClockwise => {
                let turned = self.piece.rotate(true, &self.matrix);
                self.settle_move(turned);
            },
            Action::RotateCounterClockwise => {
                let turned = self.piece.rotate(false, &self.matrix);
                self.settle_move(turned);
            },
            Action::SoftDrop => {
                let rows = self.piece.fall(&self.matrix);
                if rows > 0 {
                    self.reset_fall();
                }
            },
            Action::HardDrop => {
                let _ = self.piece.fall(&self.matrix);
                self.lock_piece();
            },
            Action::HoldPiece => {
                self.hold_piece();
            },
            _ => {},
        }
    }

    /// Lets gravity run for `delta` milliseconds.
    fn pull(&mut self, delta: u64)
        requires
            old(self).wf(),
        ensures
            final(self).wf(),
            final(self)@ == old(self)@.pulled(delta),
    {
        proof {
            reveal(Play::pulled);
        }
        self.still = self.still.saturating_add(delta);
        if self.still >= self.fall_interval {
            self.still -= self.fall_interval;
            if !self.piece.shift(0, 1, &self.matrix) {
                self.lock_piece();
            }
        }
    }

    /// Runs a frame of `delta` milliseconds with the moves of `actions`. The
    /// field always runs. A game that is over, blocked by cleared rows or
    /// paused does no more. Otherwise the moves are made in their order, and
    /// then gravity runs.
    pub fn update(&mut self, delta: u64, actions: &[Action], paused: bool)
        requires
            old(self).wf(),
        ensures
            final(self).wf(),
            final(self)@ == old(self)@.updated(delta, actions@, paused),
    {
        proof {
            lemma_advanced_frame(self.matrix@, delta);
        }
        self.matrix.update(delta);
        if self.game_over || self.matrix.blocked() || paused {
            return ;
        }
        let ghost waited = self@;
        let mut i: usize = 0;
        assert(actions@.skip(0) =~= actions@);
        while i < actions.len()
            invariant
                self.wf(),
                0 <= i <= actions.len(),
                self@.acted_all(actions@.skip(i as int)) == waited.acted_all(actions@),
            decreases actions.len() - i,
        {
            assert(actions@.skip(i as int).skip(1) =~= actions@.skip(i + 1));
            self.act(actions[i]);
            i += 1;
        }
        self.pull(delta);
    }

    /// Whether the game is over.
    pub fn game_over(&self) -> (over: bool)
        ensures
            over == self@.game_over,
    {
        self.game_over
    }

    /// The field.
    pub fn matrix(&self) -> (matrix: &Matrix)
        ensures
            matrix@ == self@.field,
            self.wf() ==> matrix.wf(),
    {
        &self.matrix
    }

    /// The piece in play.
    pub fn piece(&self) -> (piece: Piece)
        ensures
            piece == self@.piece,
    {
        self.piece
    }

    /// The hold slot.
    pub fn holder(&self) -> (holder: &Holder)
        ensures
            holder@ == self@.hold,
    {
        &self.holder
    }

    /// The shape that is set aside, if any.
    pub fn held(&self) -> (shape: Option<ShapeType>)
        ensures
            shape == self@.hold.shape,
    {
        self.holder.shape()
    }

    /// The shapes of the current cycle of the bag that are still to come.
    pub fn queued(&self) -> (shapes: Vec<ShapeType>)
        requires
            self.wf(),
        ensures
            shapes@ == self@.bag.queue,
    {
        self.bag.queued()
    }

    /// Empties the field and builds the practice tower on it, each brick with
    /// a block value drawn by chance from 1 to 7. Nothing else changes.
    pub fn debug_tower(&mut self)
        requires
            old(self).wf(),
        ensures
            final(self).wf(),
            exists|blocks: Seq<usize>|
                {
                    &&& blocks.len() == TOWER_BRICKS
                    &&& forall|i: int| 0 <= i < blocks.len() ==> 1 <= #[trigger] blocks[i] < 8
                    &&& final(self)@ == (Play {
                        field: old(self)@.field.towered(blocks, TOWER_BRICKS as int),
                        ..old(self)@
                    })
                },
    {
        self.matrix.debug_tower();
    }
}

} // verus!
