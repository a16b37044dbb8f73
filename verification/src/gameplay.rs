//! A session: the field, the piece in play, the bag, the hold slot and the
//! score, driven by a queue of actions and by the passing of time.
//!
//! Nothing here draws or plays a sound. A session collects the sounds of what
//! happened and the burst to draw, and hands them out on request.

use crate::action::{lemma_load_of_front, queue_load, Action};
use crate::bag::{
    all_shapes, lemma_after_step, lemma_cycle_is_fair, lemma_drawn_index, lemma_drawn_length,
    permutes, Bag, BagView,
};
use crate::event::{burst_of_clear, clear_burst, lock_sound, sound_of_lock, Explosion, Sound};
use crate::holder::{Hold, Holder};
use crate::matrix::{
    lemma_advanced_frame, lemma_locked_frame, time_sum, Field, Locked, Matrix, TOWER_BRICKS,
};
use crate::piece::{lemma_rotation_is_all_or_nothing, lemma_spawn_in_box, Piece};
use crate::replay::{Record, ReplayData};
use crate::score::{Score, Tally};
use crate::shape::{turned, ShapeType};
use std::collections::VecDeque;
use vstd::prelude::*;

verus! {

/// Columns of the field of a session.
pub const FIELD_WIDTH: i32 = 10;

/// Visible rows of the field of a session.
pub const FIELD_HEIGHT: i32 = 20;

/// Hidden rows above the visible ones.
pub const FIELD_VANISH: i32 = 20;

/// Milliseconds between two steps of gravity.
pub const FALL_INTERVAL: u64 = 1000;

/// The count from which a session counts down before play starts.
pub const COUNTDOWN: i32 = 4;

/// Milliseconds between two ticks of the countdown.
pub const COUNTDOWN_TICK: u64 = 1000;

/// The timing that a session reads at every update.
#[derive(Clone, Copy, Debug)]
pub struct Rules {
    /// Milliseconds that cleared rows wait before the rows above collapse.
    pub clear_delay: u64,
    /// Milliseconds that a piece may rest before it locks by itself.
    pub lock_delay: u64,
}

impl Default for Rules {
    /// Half a second for each delay.
    fn default() -> (rules: Rules)
        ensures
            rules.clear_delay == 500,
            rules.lock_delay == 500,
    {
        Rules { clear_delay: 500, lock_delay: 500 }
    }
}

/// A session as a mathematical value.
pub struct Session {
    /// Whether the session is played. One that is not follows the actions
    /// that it is given: nothing falls or locks by itself, and a piece that
    /// cannot be locked does not end it.
    pub interactive: bool,
    /// Milliseconds since the last action was handled.
    pub action_duration: u64,
    /// The actions that wait, the next one first.
    pub actions: Seq<Action>,
    /// The actions that were handled.
    pub record: Record,
    /// The field.
    pub field: Field,
    /// The bag of the shapes to come.
    pub bag: BagView,
    /// The piece in play.
    pub piece: Piece,
    /// The hold slot.
    pub hold: Hold,
    /// The score.
    pub tally: Tally,
    /// Whether the game is over.
    pub game_over: bool,
    /// Milliseconds since the last step of gravity.
    pub falling: u64,
    /// Milliseconds between two steps of gravity.
    pub fall_interval: u64,
    /// The burst that waits to be drawn.
    pub explosion: Option<Explosion>,
    /// The count that is shown before play starts.
    pub countdown: Option<i32>,
    /// Milliseconds since the countdown last changed.
    pub countdown_switch: u64,
    /// The sounds that wait to be played.
    pub sounds: Seq<Sound>,
}

impl Session {
    /// The field has its dimensions, the piece in play stands inside the
    /// field, and the countdown is one of its counts.
    pub open spec fn wf(self) -> bool {
        &&& self.field.wf()
        &&& self.field.width == FIELD_WIDTH
        &&& self.field.height == FIELD_HEIGHT
        &&& self.field.vanish == FIELD_VANISH
        &&& self.piece.wf()
        &&& self.field.holds_box(self.piece.spec_grid(), self.piece.x as int, self.piece.y as int)
        &&& self.countdown matches Some(count) ==> 1 <= count <= COUNTDOWN
    }

    /// A new session seeded with `seed`: an empty field, the first shape of
    /// the bag in play, and the countdown about to start.
    pub open spec fn start(interactive: bool, seed: Seq<u8>) -> Session {
        let field = Field::empty(FIELD_WIDTH as int, FIELD_HEIGHT as int, FIELD_VANISH as int);
        let bag = BagView::fresh(seed);
        Session {
            interactive,
            action_duration: 0,
            actions: Seq::empty(),
            record: Record { seed, actions: Seq::empty() },
            field,
            bag: bag.popped(),
            piece: Piece::spawned(bag.next(), field),
            hold: Hold::empty(),
            tally: Tally::zero(),
            game_over: false,
            falling: 0,
            fall_interval: FALL_INTERVAL,
            explosion: None,
            countdown: Some(COUNTDOWN),
            countdown_switch: 0,
            sounds: Seq::empty(),
        }
    }

    /// Whether the session handles no action: the game is over, the countdown
    /// runs, or cleared rows wait to collapse.
    pub open spec fn paused(self) -> bool {
        self.game_over || self.countdown.is_some() || self.field.clearing.is_some()
    }

    /// The session with `sound` added to the sounds that wait, where sounds
    /// are wanted.
    pub open spec fn heard(self, sfx: bool, sound: Sound) -> Session {
        if sfx {
            Session { sounds: self.sounds.push(sound), ..self }
        } else {
            self
        }
    }

    /// The session with `action` in the queue: at its front where it is
    /// immediate, at its end where it is not.
    pub open spec fn queued(self, action: Action, immediate: bool) -> Session {
        if immediate {
            Session { actions: seq![action] + self.actions, ..self }
        } else {
            Session { actions: self.actions.push(action), ..self }
        }
    }

    /// The session with the time since the last step of gravity cut by one
    /// fall interval, or set to nothing where it is no longer than that.
    pub open spec fn fall_reset(self) -> Session {
        if self.falling > self.fall_interval {
            Session { falling: (self.falling - self.fall_interval) as u64, ..self }
        } else {
            Session { falling: 0, ..self }
        }
    }

    /// After an attempt to move the piece by `dx` columns. A piece that moved
    /// and rests there gets a new fall interval.
    pub open spec fn slid(self, dx: int, sfx: bool) -> Session {
        let moved = self.piece.fits(self.field, dx, 0);
        let piece = self.piece.shifted(self.field, dx, 0);
        let next = Session { piece, ..self };
        if moved {
            (if piece.resting(self.field) {
                next.fall_reset()
            } else {
                next
            }).heard(sfx, Sound::Move)
        } else {
            next
        }
    }

    /// After an attempt to move the piece down by a row.
    pub open spec fn stepped_down(self, sfx: bool) -> Session {
        if self.piece.fits(self.field, 0, 1) {
            Session { piece: self.piece.shifted(self.field, 0, 1), ..self }.fall_reset().heard(
                sfx,
                Sound::Move,
            )
        } else {
            self
        }
    }

    /// After an attempt to turn the piece. A piece that turned and rests gets
    /// a new fall interval.
    pub open spec fn spun(self, clockwise: bool, sfx: bool) -> Session {
        let turned = self.piece.first_kick(self.field, clockwise, 0) < 5;
        let piece = self.piece.rotated(self.field, clockwise);
        let next = Session { piece, ..self };
        if turned {
            (if piece.resting(self.field) {
                next.fall_reset()
            } else {
                next
            }).heard(sfx, Sound::Rotate)
        } else {
            next
        }
    }

    /// After a soft drop: the piece falls as far as it can, and each row
    /// counts one point.
    pub open spec fn soft_dropped(self, sfx: bool) -> Session {
        let rows = self.piece.descent(self.field, 0);
        let next = Session { piece: self.piece.fallen(self.field), ..self };
        if rows > 0 {
            Session { tally: self.tally.soft_dropped(rows as i32), ..next.fall_reset() }.heard(
                sfx,
                Sound::SoftDrop,
            )
        } else {
            next
        }
    }

    /// After a hard drop: the piece falls as far as it can, each row counts
    /// two points, and in a played session the lock follows at once.
    pub open spec fn hard_dropped(self, sfx: bool) -> Session {
        let rows = self.piece.descent(self.field, 0);
        let next = Session {
            piece: self.piece.fallen(self.field),
            tally: self.tally.hard_dropped(rows as i32),
            ..self
        };
        let heard = if rows > 0 {
            next.heard(sfx, Sound::HardDrop)
        } else {
            next
        };
        if self.interactive {
            heard.queued(Action::LockPiece, true)
        } else {
            heard
        }
    }

    /// After a move of the player.
    #[verifier::opaque]
    pub open spec fn moved(self, action: Action, sfx: bool) -> Session {
        match action {
            Action::MoveRight => self.slid(1, sfx),
            Action::MoveLeft => self.slid(-1, sfx),
            Action::MoveDown => self.stepped_down(sfx),
            Action::RotateClockwise => self.spun(true, sfx),
            Action::RotateCounterClockwise => self.spun(false, sfx),
            Action::SoftDrop => self.soft_dropped(sfx),
            Action::HardDrop => self.hard_dropped(sfx),
            _ => self,
        }
    }

    /// After an attempt to hold: the shape that the slot releases enters the
    /// field as a new piece.
    #[verifier::opaque]
    pub open spec fn held(self, sfx: bool) -> Session {
        let released = self.hold.released(self.bag);
        let next = Session {
            hold: self.hold.held(self.piece.shape.shape_type),
            bag: self.hold.drawn_from(self.bag),
            ..self
        };
        match released {
            Some(shape) => Session { piece: Piece::spawned(shape, self.field), ..next }.heard(
                sfx,
                Sound::Hold,
            ),
            None => next.heard(sfx, Sound::HoldFail),
        }
    }

    /// After a step of gravity: the piece falls by a row, or, in a played
    /// session, locks at once where it cannot.
    pub open spec fn fell(self) -> Session {
        let next = Session { piece: self.piece.shifted(self.field, 0, 1), ..self };
        if !self.piece.fits(self.field, 0, 1) && self.interactive {
            next.queued(Action::LockPiece, true)
        } else {
            next
        }
    }

    /// After the next piece entered. Where it cannot stand, the end of the
    /// game goes to the front of the queue, and the hold slot and the fall
    /// interval stay as they are. Where it can, the fall interval starts anew
    /// and the hold slot opens.
    pub open spec fn entered(self) -> Session {
        if self.field.collides(self.piece.spec_grid(), self.piece.x as int, self.piece.y as int) {
            self.queued(Action::GameOver, true)
        } else {
            Session { hold: self.hold.unlocked(), ..self.fall_reset() }
        }
    }

    /// After the piece became part of the field and cleared `rows` rows;
    /// `t_spin` says whether the piece was a T wedged in place before it
    /// locked. The score counts the clear, the sound and the burst of the lock
    /// wait, and the next shape of the bag enters.
    pub open spec fn settled(self, rows: i32, t_spin: bool, sfx: bool) -> Session {
        Session {
            tally: if rows > 0 {
                self.tally.locked(rows, t_spin)
            } else {
                self.tally.without_combo()
            },
            explosion: if rows > 0 {
                Some(clear_burst(rows, t_spin))
            } else {
                self.explosion
            },
            bag: self.bag.popped(),
            piece: Piece::spawned(self.bag.next(), self.field),
            ..self
        }.heard(sfx, lock_sound(rows, t_spin)).entered()
    }

    /// After the lock of the piece, and whether the queue is handled further.
    /// A piece that lies wholly in the vanish zone is not locked: nothing
    /// changes but that a played session ends. Handling stops where rows were
    /// cleared and wait to collapse.
    #[verifier::opaque]
    pub open spec fn locked(self, sfx: bool) -> (Session, bool) {
        let t_spin = self.piece.spun(self.field);
        let (field, locked) = self.field.locked(
            self.piece.spec_grid(),
            self.piece.x as int,
            self.piece.y as int,
        );
        match locked {
            Locked::Collision => (
                if self.interactive {
                    self.queued(Action::GameOver, true)
                } else {
                    self
                },
                true,
            ),
            Locked::Success(rows) => (
                Session { field, ..self }.settled(rows, t_spin, sfx),
                field.clearing.is_none(),
            ),
        }
    }

    /// After the end of the game.
    pub open spec fn ended(self, sfx: bool) -> Session {
        Session {
            game_over: true,
            field: Field { frozen: true, ..self.field },
            explosion: Some(Explosion::GameOver),
            ..self
        }.heard(sfx, Sound::GameOver)
    }

    /// After `action` was handled, and whether the queue is handled further.
    #[verifier::opaque]
    pub open spec fn applied(self, action: Action, sfx: bool) -> (Session, bool) {
        match action {
            Action::HoldPiece => (self.held(sfx), true),
            Action::FallPiece => (self.fell(), true),
            Action::LockPiece => self.locked(sfx),
            Action::GameOver => (self.ended(sfx), false),
            _ => (self.moved(action, sfx), true),
        }
    }

    /// The session with the first action of the queue taken from it and
    /// recorded with the time since the action before.
    pub open spec fn taken(self) -> Session {
        Session {
            actions: self.actions.skip(1),
            record: self.record.added(self.actions[0], self.action_duration),
            action_duration: 0,
            ..self
        }
    }

    /// After the queue was handled: one action after the other from the
    /// front, each recorded before it is handled, until the queue is empty or
    /// an action stops it.
    pub open spec fn drained(self, sfx: bool) -> Session
        decreases queue_load(self.actions),
        via Self::drained_decreases
    {
        if self.actions.len() == 0 {
            self
        } else {
            let (next, go_on) = self.taken().applied(self.actions[0], sfx);
            if go_on {
                next.drained(sfx)
            } else {
                next
            }
        }
    }

    #[via_fn]
    proof fn drained_decreases(self, sfx: bool) {
        if self.actions.len() != 0 {
            lemma_applied_load(self.taken(), self.actions[0], sfx);
        }
    }

    /// After a tick of `delta` milliseconds of the countdown. The first tick
    /// counts at once, each later one after a second; the count after 1 ends
    /// the countdown.
    #[verifier::opaque]
    pub open spec fn counted(self, delta: u64, sfx: bool) -> Session {
        match self.countdown {
            None => self,
            Some(count) => {
                let waited = time_sum(
                    if count == COUNTDOWN {
                        COUNTDOWN_TICK
                    } else {
                        self.countdown_switch
                    },
                    delta,
                );
                if waited >= COUNTDOWN_TICK {
                    Session {
                        countdown_switch: 0,
                        countdown: if count - 1 == 0 {
                            None
                        } else {
                            Some((count - 1) as i32)
                        },
                        ..self
                    }.heard(
                        sfx,
                        if count - 1 == 0 {
                            Sound::Go
                        } else {
                            Sound::Countdown
                        },
                    )
                } else {
                    Session { countdown_switch: waited, ..self }
                }
            },
        }
    }

    /// After the timers of a played session ran for `delta` milliseconds: a
    /// piece that has rested longer than the lock delay locks at once;
    /// otherwise gravity takes its step when a fall interval has passed.
    #[verifier::opaque]
    pub open spec fn timed(self, delta: u64, rules: Rules) -> Session {
        if !self.interactive {
            self
        } else if self.piece.locking > rules.lock_delay {
            self.queued(Action::LockPiece, true)
        } else if time_sum(self.falling, delta) >= self.fall_interval {
            Session {
                falling: (time_sum(self.falling, delta) - self.fall_interval) as u64,
                ..self
            }.queued(Action::FallPiece, true)
        } else {
            Session { falling: time_sum(self.falling, delta), ..self }
        }
    }

    /// After an update of `delta` milliseconds. The countdown and the field
    /// always run. A session that is paused, by itself or from outside, does
    /// no more. Otherwise the queue is handled, the piece rests for the time
    /// that passed, and the timers run.
    pub open spec fn updated(self, delta: u64, rules: Rules, paused: bool, sfx: bool) -> Session {
        let counted = self.counted(delta, sfx);
        let waited = Session {
            field: Field { clear_delay: rules.clear_delay, ..counted.field }.advanced(delta),
            ..counted
        };
        if waited.paused() || paused {
            waited
        } else {
            let drained = Session {
                action_duration: time_sum(waited.action_duration, delta),
                ..waited
            }.drained(sfx);
            Session { piece: drained.piece.aged(drained.field, delta), ..drained }.timed(
                delta,
                rules,
            )
        }
    }
    /// The session without the sounds that wait.
    pub open spec fn muted(self) -> Session {
        Session { sounds: Seq::empty(), ..self }
    }

    /// After one frame: the actions of the frame join the queue, then the
    /// session is updated.
    pub open spec fn fed(self, tick: Tick, sfx: bool) -> Session {
        Session { actions: self.actions + tick.actions, ..self }.updated(
            tick.delta,
            tick.rules,
            tick.paused,
            sfx,
        )
    }

    /// After the frames of `ticks`, one after the other.
    pub open spec fn ran(self, ticks: Seq<Tick>, sfx: bool) -> Session
        decreases ticks.len(),
    {
        if ticks.len() == 0 {
            self
        } else {
            self.fed(ticks[0], sfx).ran(ticks.skip(1), sfx)
        }
    }
}

/// What a session is given in one frame.
pub struct Tick {
    /// The actions of the player, in their order.
    pub actions: Seq<Action>,
    /// Milliseconds since the frame before.
    pub delta: u64,
    /// The timing in force.
    pub rules: Rules,
    /// Whether the session is paused from outside.
    pub paused: bool,
}

/// Handling an action brings less load to the queue than the action had.
pub proof fn lemma_applied_load(session: Session, action: Action, sfx: bool)
    ensures
        queue_load(session.applied(action, sfx).0.actions) < action.load() + queue_load(
            session.actions,
        ) || !session.applied(action, sfx).1,
{
    reveal(Session::applied);
    reveal(Session::moved);
    reveal(Session::held);
    reveal(Session::locked);
    lemma_load_of_front(Action::LockPiece, session.actions);
    lemma_load_of_front(Action::GameOver, session.actions);
}

/// A second attempt to hold before the piece in play has locked changes
/// nothing but the sounds: the slot, the bag, the piece and the field are as
/// the first attempt left them.
pub proof fn lemma_second_hold_changes_nothing(session: Session, sfx: bool)
    ensures
        session.held(sfx).hold.locked,
        session.held(sfx).held(sfx).muted() == session.held(sfx).muted(),
{
    reveal(Session::held);
}

/// What enters after a lock: the next shape of the bag, at the top of the
/// field, and the bag has handed out that shape and no other.
pub proof fn lemma_settle_spawns_next(session: Session, rows: i32, t_spin: bool, sfx: bool)
    ensures
        session.settled(rows, t_spin, sfx).piece == Piece::spawned(
            session.bag.next(),
            session.field,
        ),
        session.settled(rows, t_spin, sfx).bag == session.bag.popped(),
        session.settled(rows, t_spin, sfx).field == session.field,
{
}

/// Where nothing but locks draws from the bag, the bag at lock number `i` is
/// the bag at the first lock after `i` pops.
pub proof fn lemma_bags_follow(
    sessions: Seq<Session>,
    rows: Seq<i32>,
    spins: Seq<bool>,
    sfx: bool,
    i: int,
)
    requires
        0 <= i < sessions.len(),
        rows.len() == sessions.len(),
        spins.len() == sessions.len(),
        forall|j: int|
            0 <= j < sessions.len() - 1 ==> (#[trigger] sessions[j + 1]).bag
                == sessions[j].settled(rows[j], spins[j], sfx).bag,
    ensures
        sessions[i].bag == sessions[0].bag.after(i as nat),
    decreases i,
{
    if i > 0 {
        lemma_bags_follow(sessions, rows, spins, sfx, i - 1);
        assert(sessions[(i - 1) + 1].bag == sessions[i - 1].bag.popped());
        lemma_after_step(sessions[0].bag, (i - 1) as nat);
    }
}

/// The shapes that enter by the locks of `sessions`: `sessions[i]` is the
/// session at lock number `i`, after the piece became part of the field and
/// cleared `rows[i]` rows.
pub open spec fn entering_shapes(
    sessions: Seq<Session>,
    rows: Seq<i32>,
    spins: Seq<bool>,
    sfx: bool,
) -> Seq<ShapeType> {
    Seq::new(
        sessions.len(),
        |i: int| sessions[i].settled(rows[i], spins[i], sfx).piece.shape.shape_type,
    )
}

/// Seven locks in a row from the start of a cycle of the bag let every shape
/// enter exactly once, where nothing else draws from the bag between two of
/// the locks.
pub proof fn lemma_seven_locks_spawn_each_shape(
    sessions: Seq<Session>,
    rows: Seq<i32>,
    spins: Seq<bool>,
    sfx: bool,
)
    requires
        sessions.len() == 7,
        rows.len() == 7,
        spins.len() == 7,
        sessions[0].bag.queue.len() == 0,
        forall|j: int|
            0 <= j < 6 ==> (#[trigger] sessions[j + 1]).bag == sessions[j].settled(
                rows[j],
                spins[j],
                sfx,
            ).bag,
    ensures
        permutes(entering_shapes(sessions, rows, spins, sfx), all_shapes()),
        forall|shape: ShapeType| #[trigger]
            entering_shapes(sessions, rows, spins, sfx).to_multiset().count(shape) == 1,
{
    let bag = sessions[0].bag;
    let entered = entering_shapes(sessions, rows, spins, sfx);
    assert forall|i: int| 0 <= i < 7 implies entered[i] == bag.drawn(7)[i] by {
        lemma_bags_follow(sessions, rows, spins, sfx, i);
        lemma_drawn_index(bag, 7, i);
    }
    lemma_drawn_length(bag, 7);
    assert(entered =~= bag.drawn(7));
    lemma_cycle_is_fair(bag);
}

/// A lock opens the hold slot once. Where the piece became part of the field
/// and the next piece can stand as it enters, the slot allows a swap again and
/// the fall interval starts anew. Where the next piece cannot stand, the slot
/// and the fall interval stay as they are, and the end of the game goes to the
/// front of the queue, in a played session and in any other.
pub proof fn lemma_lock_opens_hold(session: Session, rows: i32, t_spin: bool, sfx: bool)
    ensures
        ({
            let entering = Piece::spawned(session.bag.next(), session.field);
            let after = session.settled(rows, t_spin, sfx);
            if session.field.collides(entering.spec_grid(), entering.x as int, entering.y as int) {
                &&& after.hold == session.hold
                &&& after.falling == session.falling
                &&& after.actions == seq![Action::GameOver] + session.actions
            } else {
                &&& after.hold == session.hold.unlocked()
                &&& after.hold.shape == session.hold.shape
                &&& !after.hold.locked
                &&& after.falling == session.fall_reset().falling
                &&& after.actions == session.actions
            }
        }),
{
}

/// The three ends of a lock. A piece that the field refuses leaves the hold
/// slot, the fall interval, the piece, the bag and the field as they are. A
/// piece that the field takes lets the next one enter: the slot opens exactly
/// when that one can stand.
pub proof fn lemma_lock_cases(session: Session, sfx: bool)
    requires
        session.field.wf(),
    ensures
        ({
            let (field, locked) = session.field.locked(
                session.piece.spec_grid(),
                session.piece.x as int,
                session.piece.y as int,
            );
            let after = session.locked(sfx).0;
            let entering = Piece::spawned(session.bag.next(), field);
            match locked {
                Locked::Collision => {
                    &&& after.hold == session.hold
                    &&& after.falling == session.falling
                    &&& after.piece == session.piece
                    &&& after.bag == session.bag
                    &&& after.field == session.field
                    &&& after.tally == session.tally
                },
                Locked::Success(rows) => {
                    &&& after.field == field
                    &&& after.piece == entering
                    &&& after.bag == session.bag.popped()
                    &&& if field.collides(entering.spec_grid(), entering.x as int, entering.y as int) {
                        after.hold == session.hold && after.falling == session.falling
                    } else {
                        after.hold == session.hold.unlocked() && after.falling
                            == session.fall_reset().falling
                    }
                },
            }
        }),
{
    reveal(Session::locked);
    lemma_locked_frame(
        session.field,
        session.piece.spec_grid(),
        session.piece.x as int,
        session.piece.y as int,
    );
}

/// A turn in a session is all or nothing. Either the piece has the next
/// rotation index, has moved by the first candidate offset of the turn that
/// lets it stand, and stands; or it is exactly as it was. The field, the bag,
/// the hold slot, the score and the queue are as they were.
pub proof fn lemma_spin_is_all_or_nothing(session: Session, clockwise: bool, sfx: bool)
    requires
        session.piece.wf(),
        session.field.wf(),
    ensures
        ({
            let piece = session.piece;
            let k = piece.first_kick(session.field, clockwise, 0);
            let kicks = piece.shape.shape_type.spec_kicks(piece.rotation as int, clockwise);
            let after = session.spun(clockwise, sfx);
            &&& after.field == session.field
            &&& after.bag == session.bag
            &&& after.hold == session.hold
            &&& after.tally == session.tally
            &&& after.actions == session.actions
            &&& 0 <= k <= 5
            &&& k == 5 ==> after.piece == piece && after.falling == session.falling
            &&& k < 5 ==> {
                &&& after.piece.shape == piece.shape
                &&& after.piece.rotation == turned(piece.rotation as int, clockwise)
                &&& after.piece.x == piece.x + kicks[k][0]
                &&& after.piece.y == piece.y + kicks[k][1]
                &&& after.piece.fits(session.field, 0, 0)
                &&& forall|j: int| 0 <= j < k ==> !piece.kick_fits(session.field, clockwise, j)
            }
        }),
{
    lemma_rotation_is_all_or_nothing(session.piece, session.field, clockwise);
}

/// A move of the player does the same to two sessions that differ in their
/// sounds alone, whether sounds are wanted or not.
pub proof fn lemma_moved_ignores_sounds(
    a: Session,
    b: Session,
    action: Action,
    sfx_a: bool,
    sfx_b: bool,
)
    requires
        a.muted() == b.muted(),
    ensures
        a.moved(action, sfx_a).muted() == b.moved(action, sfx_b).muted(),
{
    reveal(Session::moved);
    match action {
        Action::MoveRight => {
            assert(a.slid(1, sfx_a).muted() == b.slid(1, sfx_b).muted());
        },
        Action::MoveLeft => {
            assert(a.slid(-1, sfx_a).muted() == b.slid(-1, sfx_b).muted());
        },
        Action::MoveDown => {
            assert(a.stepped_down(sfx_a).muted() == b.stepped_down(sfx_b).muted());
        },
        Action::RotateClockwise => {
            assert(a.spun(true, sfx_a).muted() == b.spun(true, sfx_b).muted());
        },
        Action::RotateCounterClockwise => {
            assert(a.spun(false, sfx_a).muted() == b.spun(false, sfx_b).muted());
        },
        Action::SoftDrop => {
            assert(a.soft_dropped(sfx_a).muted() == b.soft_dropped(sfx_b).muted());
        },
        Action::HardDrop => {
            assert(a.hard_dropped(sfx_a).muted() == b.hard_dropped(sfx_b).muted());
        },
        _ => {},
    }
}

/// An attempt to hold does the same to two sessions that differ in their
/// sounds alone.
pub proof fn lemma_held_ignores_sounds(a: Session, b: Session, sfx_a: bool, sfx_b: bool)
    requires
        a.muted() == b.muted(),
    ensures
        a.held(sfx_a).muted() == b.held(sfx_b).muted(),
{
    reveal(Session::held);
}

/// A lock does the same to two sessions that differ in their sounds alone.
pub proof fn lemma_locked_ignores_sounds(a: Session, b: Session, sfx_a: bool, sfx_b: bool)
    requires
        a.muted() == b.muted(),
    ensures
        a.locked(sfx_a).0.muted() == b.locked(sfx_b).0.muted(),
        a.locked(sfx_a).1 == b.locked(sfx_b).1,
{
    reveal(Session::locked);
    let t_spin = a.piece.spun(a.field);
    let (field, locked) = a.field.locked(a.piece.spec_grid(), a.piece.x as int, a.piece.y as int);
    match locked {
        Locked::Collision => {},
        Locked::Success(rows) => {
            let placed_a = Session { field, ..a };
            let placed_b = Session { field, ..b };
            assert(placed_a.settled(rows, t_spin, sfx_a).muted() == placed_b.settled(
                rows,
                t_spin,
                sfx_b,
            ).muted());
        },
    }
}

/// Handling an action does the same to two sessions that differ in their
/// sounds alone, whether sounds are wanted or not.
pub proof fn lemma_applied_ignores_sounds(
    a: Session,
    b: Session,
    action: Action,
    sfx_a: bool,
    sfx_b: bool,
)
    requires
        a.muted() == b.muted(),
    ensures
        a.applied(action, sfx_a).0.muted() == b.applied(action, sfx_b).0.muted(),
        a.applied(action, sfx_a).1 == b.applied(action, sfx_b).1,
{
    reveal(Session::applied);
    lemma_moved_ignores_sounds(a, b, action, sfx_a, sfx_b);
    lemma_held_ignores_sounds(a, b, sfx_a, sfx_b);
    lemma_locked_ignores_sounds(a, b, sfx_a, sfx_b);
}

/// Handling the queue does the same to two sessions that differ in their
/// sounds alone.
pub proof fn lemma_drained_ignores_sounds(a: Session, b: Session, sfx_a: bool, sfx_b: bool)
    requires
        a.muted() == b.muted(),
    ensures
        a.drained(sfx_a).muted() == b.drained(sfx_b).muted(),
    decreases queue_load(a.actions),
{
    if a.actions.len() != 0 {
        let action = a.actions[0];
        lemma_applied_load(a.taken(), action, sfx_a);
        lemma_applied_ignores_sounds(a.taken(), b.taken(), action, sfx_a, sfx_b);
        let (next_a, go_on) = a.taken().applied(action, sfx_a);
        let (next_b, _) = b.taken().applied(action, sfx_b);
        if go_on {
            lemma_drained_ignores_sounds(next_a, next_b, sfx_a, sfx_b);
        }
    }
}

/// An update does the same to two sessions that differ in their sounds alone.
pub proof fn lemma_updated_ignores_sounds(
    a: Session,
    b: Session,
    delta: u64,
    rules: Rules,
    paused: bool,
    sfx_a: bool,
    sfx_b: bool,
)
    requires
        a.muted() == b.muted(),
    ensures
        a.updated(delta, rules, paused, sfx_a).muted() == b.updated(
            delta,
            rules,
            paused,
            sfx_b,
        ).muted(),
{
    reveal(Session::counted);
    reveal(Session::timed);
    let counted_a = a.counted(delta, sfx_a);
    let counted_b = b.counted(delta, sfx_b);
    let waited_a = Session {
        field: Field { clear_delay: rules.clear_delay, ..counted_a.field }.advanced(delta),
        ..counted_a
    };
    let waited_b = Session {
        field: Field { clear_delay: rules.clear_delay, ..counted_b.field }.advanced(delta),
        ..counted_b
    };
    if !(waited_a.paused() || paused) {
        let ready_a = Session {
            action_duration: time_sum(waited_a.action_duration, delta),
            ..waited_a
        };
        let ready_b = Session {
            action_duration: time_sum(waited_b.action_duration, delta),
            ..waited_b
        };
        lemma_drained_ignores_sounds(ready_a, ready_b, sfx_a, sfx_b);
    }
}

/// Running frames does the same to two sessions that differ in their sounds
/// alone.
pub proof fn lemma_ran_ignores_sounds(
    a: Session,
    b: Session,
    ticks: Seq<Tick>,
    sfx_a: bool,
    sfx_b: bool,
)
    requires
        a.muted() == b.muted(),
    ensures
        a.ran(ticks, sfx_a).muted() == b.ran(ticks, sfx_b).muted(),
    decreases ticks.len(),
{
    if ticks.len() != 0 {
        let tick = ticks[0];
        let joined_a = Session { actions: a.actions + tick.actions, ..a };
        let joined_b = Session { actions: b.actions + tick.actions, ..b };
        lemma_updated_ignores_sounds(
            joined_a,
            joined_b,
            tick.delta,
            tick.rules,
            tick.paused,
            sfx_a,
            sfx_b,
        );
        lemma_ran_ignores_sounds(
            a.fed(tick, sfx_a),
            b.fed(tick, sfx_b),
            ticks.skip(1),
            sfx_a,
            sfx_b,
        );
    }
}

/// A replay is exact: two sessions started from the same seed and given the
/// same frames, with the same actions and times in the same order, end with
/// the same field, score, piece, bag, hold slot, queue and record, whether
/// they play sounds or not.
pub proof fn lemma_replay_is_deterministic(
    interactive: bool,
    seed: Seq<u8>,
    ticks: Seq<Tick>,
    sfx_a: bool,
    sfx_b: bool,
)
    ensures
        Session::start(interactive, seed).ran(ticks, sfx_a).muted() == Session::start(
            interactive,
            seed,
        ).ran(ticks, sfx_b).muted(),
        Session::start(interactive, seed).ran(ticks, sfx_a).field == Session::start(
            interactive,
            seed,
        ).ran(ticks, sfx_b).field,
        Session::start(interactive, seed).ran(ticks, sfx_a).tally == Session::start(
            interactive,
            seed,
        ).ran(ticks, sfx_b).tally,
{
    lemma_ran_ignores_sounds(
        Session::start(interactive, seed),
        Session::start(interactive, seed),
        ticks,
        sfx_a,
        sfx_b,
    );
}

/// Handling an action leaves the actions that wait in their place and puts at
/// most one before them; it writes nothing to the record; and it lets at most
/// one sound arise, and none where sounds are not wanted.
pub proof fn lemma_applied_frame(session: Session, action: Action, sfx: bool)
    ensures
        ({
            let next = session.applied(action, sfx).0;
            &&& next.record == session.record
            &&& next.interactive == session.interactive
            &&& next.actions == session.actions || next.actions == seq![Action::LockPiece]
                + session.actions || next.actions == seq![Action::GameOver] + session.actions
            &&& next.sounds == session.sounds || exists|sound: Sound|
                next.sounds == session.sounds.push(sound)
            &&& !sfx ==> next.sounds == session.sounds
        }),
{
    reveal(Session::applied);
    reveal(Session::held);
    reveal(Session::locked);
    match action {
        Action::HoldPiece => {},
        Action::FallPiece => {},
        Action::LockPiece => {},
        Action::GameOver => {},
        _ => {
            lemma_moved_frame(session, action, sfx);
        },
    }
}

/// A move of the player leaves the queue as it is but for the lock that a hard
/// drop puts at its front, writes nothing to the record, and lets at most one
/// sound arise.
pub proof fn lemma_moved_frame(session: Session, action: Action, sfx: bool)
    ensures
        ({
            let next = session.moved(action, sfx);
            &&& next.record == session.record
            &&& next.interactive == session.interactive
            &&& next.actions == session.actions || next.actions == seq![Action::LockPiece]
                + session.actions
            &&& next.sounds == session.sounds || exists|sound: Sound|
                next.sounds == session.sounds.push(sound)
            &&& !sfx ==> next.sounds == session.sounds
        }),
{
    reveal(Session::moved);
}

/// The record only grows: handling the queue keeps every entry that the
/// record held, in its place, and the seed.
pub proof fn lemma_drained_record(session: Session, sfx: bool)
    ensures
        session.drained(sfx).record.seed == session.record.seed,
        session.record.actions.len() <= session.drained(sfx).record.actions.len(),
        session.drained(sfx).record.actions.take(session.record.actions.len() as int)
            == session.record.actions,
    decreases queue_load(session.actions),
{
    let old_entries = session.record.actions;
    if session.actions.len() == 0 {
        assert(old_entries.take(old_entries.len() as int) =~= old_entries);
    } else {
        let action = session.actions[0];
        let taken = session.taken();
        lemma_applied_load(taken, action, sfx);
        lemma_applied_frame(taken, action, sfx);
        let (next, go_on) = taken.applied(action, sfx);
        assert(next.record.actions.take(old_entries.len() as int) =~= old_entries);
        if go_on {
            lemma_drained_record(next, sfx);
            let end = next.drained(sfx).record.actions;
            assert(end.take(old_entries.len() as int) =~= end.take(
                next.record.actions.len() as int,
            ).take(old_entries.len() as int));
        }
    }
}

/// The record only grows: an update keeps every entry that the record held,
/// in its place, and the seed.
pub proof fn lemma_updated_record(
    session: Session,
    delta: u64,
    rules: Rules,
    paused: bool,
    sfx: bool,
)
    ensures
        session.updated(delta, rules, paused, sfx).record.seed == session.record.seed,
        session.record.actions.len() <= session.updated(
            delta,
            rules,
            paused,
            sfx,
        ).record.actions.len(),
        session.updated(delta, rules, paused, sfx).record.actions.take(
            session.record.actions.len() as int,
        ) == session.record.actions,
{
    reveal(Session::counted);
    reveal(Session::timed);
    let counted = session.counted(delta, sfx);
    let waited = Session {
        field: Field { clear_delay: rules.clear_delay, ..counted.field }.advanced(delta),
        ..counted
    };
    let entries = session.record.actions;
    assert(entries.take(entries.len() as int) =~= entries);
    if !(waited.paused() || paused) {
        let ready = Session { action_duration: time_sum(waited.action_duration, delta), ..waited };
        lemma_drained_record(ready, sfx);
    }
}

/// The end of the game is final. An update of a session whose game is over
/// leaves the game over and handles nothing: the queue, the record, the piece,
/// the bag, the hold slot and the score stay as they are. Only the countdown
/// and the wait of cleared rows run on.
pub proof fn lemma_game_over_is_final(
    session: Session,
    delta: u64,
    rules: Rules,
    paused: bool,
    sfx: bool,
)
    requires
        session.game_over,
    ensures
        session.updated(delta, rules, paused, sfx).game_over,
        session.updated(delta, rules, paused, sfx).actions == session.actions,
        session.updated(delta, rules, paused, sfx).record == session.record,
        session.updated(delta, rules, paused, sfx).piece == session.piece,
        session.updated(delta, rules, paused, sfx).bag == session.bag,
        session.updated(delta, rules, paused, sfx).hold == session.hold,
        session.updated(delta, rules, paused, sfx).tally == session.tally,
        session.updated(delta, rules, paused, sfx).falling == session.falling,
{
    reveal(Session::counted);
}

/// A session of the game.
pub struct Gameplay {
    interactive: bool,
    action_duration: u64,
    actions: VecDeque<Action>,
    replay: ReplayData,
    stack: Matrix,
    bag: Bag,
    piece: Piece,
    holder: Holder,
    score: Score,
    game_over: bool,
    falling: u64,
    fall_interval: u64,
    explosion: Option<Explosion>,
    countdown: Option<i32>,
    countdown_switch: u64,
    sounds: Vec<Sound>,
}

impl View for Gameplay {
    type V = Session;

    closed spec fn view(&self) -> Session {
        Session {
            interactive: self.interactive,
            action_duration: self.action_duration,
            actions: self.actions@,
            record: self.replay@,
            field: self.stack@,
            bag: self.bag@,
            piece: self.piece,
            hold: self.holder@,
            tally: self.score@,
            game_over: self.game_over,
            falling: self.falling,
            fall_interval: self.fall_interval,
            explosion: self.explosion,
            countdown: self.countdown,
            countdown_switch: self.countdown_switch,
            sounds: self.sounds@,
        }
    }
}

impl Gameplay {
    /// The field and the bag are well formed.
    pub closed spec fn parts_wf(&self) -> bool {
        self.stack.wf() && self.bag.wf()
    }

    /// The invariant of a session.
    pub open spec fn wf(&self) -> bool {
        self.parts_wf() && self@.wf()
    }

    /// A new session seeded with `seed`. An interactive session is played:
    /// gravity and lock delay act by themselves, and a piece that cannot be
    /// locked ends it. One that is not follows the actions that it is given.
    /// Either ends when the next piece cannot enter.
    pub fn new(interactive: bool, seed: &[u8; 32]) -> (gameplay: Gameplay)
        ensures
            gameplay.wf(),
            gameplay@ == Session::start(interactive, seed@),
    {
        let stack = match Matrix::new(FIELD_WIDTH, FIELD_HEIGHT, FIELD_VANISH) {
            Some(stack) => stack,
            None => {
                assert(false);
                vstd::pervasive::unreached()
            },
        };
        let mut bag = Bag::new(seed);
        let piece = Piece::new(bag.pop(), &stack);
        proof {
            lemma_spawn_in_box(BagView::fresh(seed@).next(), stack@);
        }
        Gameplay {
            interactive,
            action_duration: 0,
            actions: VecDeque::new(),
            replay: ReplayData::new(seed),
            stack,
            bag,
            piece,
            holder: Holder::default(),
            score: Score::default(),
            game_over: false,
            falling: 0,
            fall_interval: FALL_INTERVAL,
            explosion: None,
            countdown: Some(COUNTDOWN),
            countdown_switch: 0,
            sounds: Vec::new(),
        }
    }

    /// Starts the fall interval anew.
    fn reset_fall(&mut self)
        requires
            old(self).wf(),
        ensures
            final(self).wf(),
            final(self)@ == old(self)@.fall_reset(),
    {
        if self.falling > self.fall_interval {
            self.falling -= self.fall_interval;
        } else {
            self.falling = 0;
        }
    }

    /// Lets `sound` wait to be played, where sounds are wanted.
    fn hear(&mut self, sfx: bool, sound: Sound)
        requires
            old(self).wf(),
        ensures
            final(self).wf(),
            final(self)@ == old(self)@.heard(sfx, sound),
    {
        if sfx {
            self.sounds.push(sound);
        }
    }

    /// Lets `burst` wait to be drawn, in place of any that waits.
    pub fn explode(&mut self, burst: Explosion)
        requires
            old(self).wf(),
        ensures
            final(self).wf(),
            final(self)@ == (Session { explosion: Some(burst), ..old(self)@ }),
    {
        self.explosion = Some(burst);
    }

    /// Puts `action` in the queue: at its front where it is immediate, so that
    /// it is handled before what waits already, at its end where it is not.
    pub fn action(&mut self, action: Action, immediate: bool)
        requires
            old(self).wf(),
        ensures
            final(self).wf(),
            final(self)@ == old(self)@.queued(action, immediate),
    {
        if immediate {
            self.actions.push_front(action);
        } else {
            self.actions.push_back(action);
        }
    }

    /// Puts `actions` at the end of the queue, in their order.
    pub fn actions(&mut self, actions: &[Action])
        requires
            old(self).wf(),
        ensures
            final(self).wf(),
            final(self)@ == (Session { actions: old(self)@.actions + actions@, ..old(self)@ }),
    {
        let mut i: usize = 0;
        while i < actions.len()
            invariant
                self.wf(),
                0 <= i <= actions.len(),
                self@ == (Session {
                    actions: old(self)@.actions + actions@.take(i as int),
                    ..old(self)@
                }),
            decreases actions.len() - i,
        {
            self.action(actions[i], false);
            assert((old(self)@.actions + actions@.take(i as int)).push(actions@[i as int])
                =~= old(self)@.actions + actions@.take(i + 1));
            i += 1;
        }
        assert(actions@.take(actions.len() as int) =~= actions@);
    }

    /// The burst that waits to be drawn. It waits no longer afterwards.
    pub fn explosion(&mut self) -> (burst: Option<Explosion>)
        requires
            old(self).wf(),
        ensures
            final(self).wf(),
            burst == old(self)@.explosion,
            final(self)@ == (Session { explosion: None, ..old(self)@ }),
    {
        let burst = self.explosion;
        self.explosion = None;
        burst
    }

    /// The sounds that wait to be played, in the order in which they arose.
    /// They wait no longer afterwards.
    pub fn sounds(&mut self) -> (sounds: Vec<Sound>)
        requires
            old(self).wf(),
        ensures
            final(self).wf(),
            sounds@ == old(self)@.sounds,
            final(self)@ == (Session { sounds: Seq::empty(), ..old(self)@ }),
    {
        let mut sounds: Vec<Sound> = Vec::new();
        std::mem::swap(&mut self.sounds, &mut sounds);
        sounds
    }

    /// The record of the actions that were handled.
    pub fn replay_data(&self) -> (data: &ReplayData)
        ensures
            data@ == self@.record,
    {
        &self.replay
    }

    /// The points so far.
    pub fn score(&self) -> (points: i32)
        ensures
            points == self@.tally.score,
    {
        self.score.score()
    }

    /// Whether the game is over.
    pub fn game_over(&self) -> (over: bool)
        ensures
            over == self@.game_over,
    {
        self.game_over
    }

    /// Whether the session handles no action: the game is over, the countdown
    /// runs, or cleared rows wait to collapse.
    pub fn paused(&self) -> (paused: bool)
        ensures
            paused == self@.paused(),
    {
        self.game_over || self.countdown.is_some() || self.stack.blocked()
    }

    /// The field.
    pub fn stack(&self) -> (stack: &Matrix)
        ensures
            stack@ == self@.field,
            self.wf() ==> stack.wf(),
    {
        &self.stack
    }

    /// Empties the field and builds the practice tower on it, each brick with
    /// a block value drawn by chance from 1 to 7. Nothing else changes.
    pub fn debug_tower(&mut self)
        requires
            old(self).wf(),
        ensures
            final(self).wf(),
            exists|blocks: Seq<usize>|
                {
                    &&& blocks.len() == TOWER_BRICKS
                    &&& forall|i: int| 0 <= i < blocks.len() ==> 1 <= #[trigger] blocks[i] < 8
                    &&& final(self)@ == (Session {
                        field: old(self)@.field.towered(blocks, TOWER_BRICKS as int),
                        ..old(self)@
                    })
                },
    {
        self.stack.debug_tower();
    }

    /// The piece in play.
    pub fn piece(&self) -> (piece: Piece)
        ensures
            piece == self@.piece,
    {
        self.piece
    }

    /// The hold slot.
    pub fn holder(&self) -> (holder: &Holder)
        ensures
            holder@ == self@.hold,
    {
        &self.holder
    }

    /// The milliseconds since the last step of gravity.
    pub fn falling(&self) -> (falling: u64)
        ensures
            falling == self@.falling,
    {
        self.falling
    }

    /// The shape that is set aside, if any.
    pub fn held(&self) -> (shape: Option<ShapeType>)
        ensures
            shape == self@.hold.shape,
    {
        self.holder.shape()
    }

    /// The shapes of the current cycle of the bag that are still to come.
    pub fn queued(&self) -> (shapes: Vec<ShapeType>)
        requires
            self.wf(),
        ensures
            shapes@ == self@.bag.queue,
    {
        self.bag.queued()
    }

    /// The count that is shown before play starts, while it is shown.
    pub fn countdown(&self) -> (count: Option<i32>)
        ensures
            count == self@.countdown,
    {
        self.countdown
    }

    /// Handles an attempt to move the piece by `dx` columns.
    fn slide(&mut self, dx: i32, sfx: bool)
        requires
            old(self).wf(),
        ensures
            final(self).wf(),
            final(self)@ == old(self)@.slid(dx as int, sfx),
    {
        let moved = self.piece.shift(dx, 0, &self.stack);
        if moved {
            if self.piece.touching_floor(&self.stack) {
                self.reset_fall();
            }
            self.hear(sfx, Sound::Move);
        }
    }

    /// Handles an attempt to move the piece down by a row.
    fn step_down(&mut self, sfx: bool)
        requires
            old(self).wf(),
        ensures
            final(self).wf(),
            final(self)@ == old(self)@.stepped_down(sfx),
    {
        if self.piece.shift(0, 1, &self.stack) {
            self.reset_fall();
            self.hear(sfx, Sound::Move);
        }
    }

    /// Handles an attempt to turn the piece.
    fn spin(&mut self, clockwise: bool, sfx: bool)
        requires
            old(self).wf(),
        ensures
            final(self).wf(),
            final(self)@ == old(self)@.spun(clockwise, sfx),
    {
        let rotated = self.piece.rotate(clockwise, &self.stack);
        if rotated {
            if self.piece.touching_floor(&self.stack) {
                self.reset_fall();
            }
            self.hear(sfx, Sound::Rotate);
        }
    }

    /// Handles a soft drop.
    fn soft_drop(&mut self, sfx: bool)
        requires
            old(self).wf(),
        ensures
            final(self).wf(),
            final(self)@ == old(self)@.soft_dropped(sfx),
    {
        let rows = self.piece.fall(&self.stack);
        if rows > 0 {
            self.reset_fall();
            self.score.soft_drop(rows);
            self.hear(sfx, Sound::SoftDrop);
        }
    }

    /// Handles a hard drop.
    fn hard_drop(&mut self, sfx: bool)
        requires
            old(self).wf(),
        ensures
            final(self).wf(),
            final(self)@ == old(self)@.hard_dropped(sfx),
    {
        let rows = self.piece.fall(&self.stack);
        self.score.hard_drop(rows);
        if rows > 0 {
            self.hear(sfx, Sound::HardDrop);
        }
        if self.interactive {
            self.action(Action::LockPiece, true);
        }
    }

    /// Handles a move of the player.
    pub fn process_movement_action(&mut self, action: Action, sfx: bool)
        requires
            old(self).wf(),
        ensures
            final(self).wf(),
            final(self)@ == old(self)@.moved(action, sfx),
    {
        proof {
            reveal(Session::moved);
        }
        match action {
            Action::MoveRight => self.slide(1, sfx),
            Action::MoveLeft => self.slide(-1, sfx),
            Action::MoveDown => self.step_down(sfx),
            Action::RotateClockwise => self.spin(true, sfx),
            Action::RotateCounterClockwise => self.spin(false, sfx),
            Action::SoftDrop => self.soft_drop(sfx),
            Action::HardDrop => self.hard_drop(sfx),
            _ => {},
        }
    }

    /// Handles an attempt to hold.
    fn hold_piece(&mut self, sfx: bool)
        requires
            old(self).wf(),
        ensures
            final(self).wf(),
            final(self)@ == old(self)@.held(sfx),
    {
        proof {
            reveal(Session::held);
        }
        match self.holder.hold(self.piece.shape(), &mut self.bag) {
            Some(shape) => {
                proof {
                    lemma_spawn_in_box(shape, self.stack@);
                }
                self.piece = Piece::new(shape, &self.stack);
                self.hear(sfx, Sound::Hold);
            },
            None => {
                self.hear(sfx, Sound::HoldFail);
            },
        }
    }

    /// Lets the piece that entered start. Where it cannot stand, the end of
    /// the game goes to the front of the queue and nothing else changes.
    fn enter(&mut self)
        requires
            old(self).wf(),
        ensures
            final(self).wf(),
            final(self)@ == old(self)@.entered(),
    {
        if self.stack.collision(&self.piece) {
            self.action(Action::GameOver, true);
        } else {
            self.reset_fall();
            self.holder.unlock();
        }
    }

    /// Counts a lock that cleared `rows` rows and lets the next piece enter.
    fn settle(&mut self, rows: i32, t_spin: bool, sfx: bool)
        requires
            old(self).wf(),
        ensures
            final(self).wf(),
            final(self)@ == old(self)@.settled(rows, t_spin, sfx),
    {
        if rows > 0 {
            self.score.lock(rows, t_spin);
            self.explosion = Some(burst_of_clear(rows, t_spin));
        } else {
            self.score.reset_combo();
        }
        proof {
            lemma_spawn_in_box(self.bag@.next(), self.stack@);
        }
        self.piece = Piece::new(self.bag.pop(), &self.stack);
        self.hear(sfx, sound_of_lock(rows, t_spin));
        self.enter();
    }

    /// Handles the lock of the piece and says whether the queue is handled
    /// further.
    fn lock_piece(&mut self, sfx: bool) -> (go_on: bool)
        requires
            old(self).wf(),
        ensures
            final(self).wf(),
            (final(self)@, go_on) == old(self)@.locked(sfx),
    {
        proof {
            reveal(Session::locked);
            lemma_locked_frame(
                self.stack@,
                self.piece.spec_grid(),
                self.piece.x as int,
                self.piece.y as int,
            );
        }
        let t_spin = self.piece.t_spin(&self.stack);
        match self.stack.lock(&self.piece) {
            Locked::Collision => {
                if self.interactive {
                    self.action(Action::GameOver, true);
                }
                true
            },
            Locked::Success(rows) => {
                self.settle(rows, t_spin, sfx);
                !self.stack.blocked()
            },
        }
    }

    /// Handles `action` and says whether the queue is handled further.
    pub fn process_action(&mut self, action: Action, sfx: bool) -> (go_on: bool)
        requires
            old(self).wf(),
        ensures
            final(self).wf(),
            (final(self)@, go_on) == old(self)@.applied(action, sfx),
    {
        proof {
            reveal(Session::applied);
        }
        match action {
            Action::HoldPiece => {
                self.hold_piece(sfx);
                true
            },
            Action::FallPiece => {
                if !self.piece.shift(0, 1, &self.stack) && self.interactive {
                    self.action(Action::LockPiece, true);
                }
                true
            },
            Action::LockPiece => self.lock_piece(sfx),
            Action::GameOver => {
                self.game_over = true;
                self.stack.game_over();
                self.explosion = Some(Explosion::GameOver);
                self.hear(sfx, Sound::GameOver);
                false
            },
            _ => {
                self.process_movement_action(action, sfx);
                true
            },
        }
    }

    /// Handles the queue until it is empty or an action stops it.
    fn drain(&mut self, sfx: bool)
        requires
            old(self).wf(),
        ensures
            final(self).wf(),
            final(self)@ == old(self)@.drained(sfx),
    {
        loop
            invariant_except_break
                self@.drained(sfx) == old(self)@.drained(sfx),
            invariant
                self.wf(),
            ensures
                self@ == old(self)@.drained(sfx),
            decreases queue_load(self@.actions),
        {
            let ghost before = self@;
            match self.actions.pop_front() {
                None => {
                    break ;
                },
                Some(action) => {
                    self.replay.add(action, self.action_duration);
                    self.action_duration = 0;
                    proof {
                        lemma_applied_load(before.taken(), action, sfx);
                    }
                    if !self.process_action(action, sfx) {
                        break ;
                    }
                },
            }
        }
    }

    /// Lets the countdown run for `delta` milliseconds.
    fn count_down(&mut self, delta: u64, sfx: bool)
        requires
            old(self).wf(),
        ensures
            final(self).wf(),
            final(self)@ == old(self)@.counted(delta, sfx),
    {
        proof {
            reveal(Session::counted);
        }
        match self.countdown {
            None => {},
            Some(count) => {
                if count == COUNTDOWN {
                    self.countdown_switch = COUNTDOWN_TICK;
                }
                self.countdown_switch = self.countdown_switch.saturating_add(delta);
                if self.countdown_switch >= COUNTDOWN_TICK {
                    self.countdown_switch = 0;
                    let count: i32 = count - 1;
                    if count == 0 {
                        self.countdown = None;
                        self.hear(sfx, Sound::Go);
                    } else {
                        self.countdown = Some(count);
                        self.hear(sfx, Sound::Countdown);
                    }
                }
            },
        }
    }

    /// Lets the timers of a played session run for `delta` milliseconds.
    fn run_timers(&mut self, delta: u64, rules: &Rules)
        requires
            old(self).wf(),
        ensures
            final(self).wf(),
            final(self)@ == old(self)@.timed(delta, *rules),
    {
        proof {
            reveal(Session::timed);
        }
        if self.interactive {
            if self.piece.locking() > rules.lock_delay {
                self.action(Action::LockPiece, true);
            } else {
                self.falling = self.falling.saturating_add(delta);
                if self.falling >= self.fall_interval {
                    self.falling -= self.fall_interval;
                    self.action(Action::FallPiece, true);
                }
            }
        }
    }

    /// Lets `delta` milliseconds pass. The countdown and the field always
    /// run. Where the session is paused, by itself or by `paused`, nothing
    /// else happens. Otherwise the queue is handled from its front, each
    /// action recorded with the time since the one before; then the piece
    /// rests for the time that passed, and, in a played session, a piece that
    /// has rested longer than the lock delay locks, or else gravity takes its
    /// step when a fall interval has passed. Sounds arise only where `sfx` is
    /// set.
    pub fn update(&mut self, delta: u64, rules: &Rules, paused: bool, sfx: bool)
        requires
            old(self).wf(),
        ensures
            final(self).wf(),
            final(self)@ == old(self)@.updated(delta, *rules, paused, sfx),
    {
        self.count_down(delta, sfx);
        self.stack.set_clear_delay(rules.clear_delay);
        proof {
            lemma_advanced_frame(self.stack@, delta);
        }
        self.stack.update(delta);
        if self.paused() || paused {
            return ;
        }
        self.action_duration = self.action_duration.saturating_add(delta);
        self.drain(sfx);
        self.piece.update(delta, &self.stack);
        self.run_timers(delta, rules);
    }
}

} // verus!
