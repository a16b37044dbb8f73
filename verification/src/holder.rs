//! The hold slot: one shape set aside, at most one swap for each piece.

use crate::bag::{Bag, BagView};
use crate::shape::{Shape, ShapeType};
use vstd::prelude::*;

verus! {

/// The hold slot as a mathematical value.
pub struct Hold {
    /// The shape set aside, if any.
    pub shape: Option<ShapeType>,
    /// Whether the piece in play has been swapped already.
    pub locked: bool,
}

impl Hold {
    /// An empty slot that allows a swap.
    pub open spec fn empty() -> Hold {
        Hold { shape: None, locked: false }
    }

    /// The slot after an attempt to set `shape_type` aside. A locked slot
    /// stays as it is. An open one takes the shape and locks.
    pub open spec fn held(self, shape_type: ShapeType) -> Hold {
        if self.locked {
            self
        } else {
            Hold { shape: Some(shape_type), locked: true }
        }
    }

    /// The shape that comes into play by the attempt, if any: none from a
    /// locked slot, else the shape that was set aside, or the next of the bag
    /// where the slot was empty.
    pub open spec fn released(self, bag: BagView) -> Option<ShapeType> {
        if self.locked {
            None
        } else {
            match self.shape {
                Some(shape) => Some(shape),
                None => Some(bag.next()),
            }
        }
    }

    /// The bag after the attempt: a shape is drawn only for an open and empty
    /// slot.
    pub open spec fn drawn_from(self, bag: BagView) -> BagView {
        if !self.locked && self.shape.is_none() {
            bag.popped()
        } else {
            bag
        }
    }

    /// The slot after the piece in play locked: it allows a swap again.
    pub open spec fn unlocked(self) -> Hold {
        Hold { locked: false, ..self }
    }
}

/// A second attempt to hold before the slot is unlocked changes nothing:
/// it releases no shape, draws none from the bag, and the slot stays locked
/// with the shape it had.
pub proof fn lemma_second_hold_has_no_effect(
    hold: Hold,
    bag: BagView,
    first: ShapeType,
    second: ShapeType,
)
    ensures
        hold.held(first).locked,
        hold.held(first).held(second) == hold.held(first),
        hold.held(first).released(hold.drawn_from(bag)).is_none(),
        hold.held(first).drawn_from(hold.drawn_from(bag)) == hold.drawn_from(bag),
{
}

/// The hold slot.
#[derive(Clone, Copy, Debug)]
pub struct Holder {
    shape: Option<Shape>,
    locked: bool,
}

impl View for Holder {
    type V = Hold;

    closed spec fn view(&self) -> Hold {
        Hold {
            shape: match self.shape {
                Some(shape) => Some(shape.shape_type),
                None => None,
            },
            locked: self.locked,
        }
    }
}

impl Default for Holder {
    fn default() -> (holder: Holder)
        ensures
            holder@ == Hold::empty(),
    {
        Holder::new()
    }
}

impl Holder {
    /// An empty slot that allows a swap.
    pub fn new() -> (holder: Holder)
        ensures
            holder@ == Hold::empty(),
    {
        Holder { shape: None, locked: false }
    }

    /// Sets the shape of the piece in play aside and returns the shape that
    /// comes into play for it: the one that was set aside before, or the next
    /// of the bag where there was none. Only one swap is allowed until
    /// `unlock`: a locked slot returns nothing and changes nothing.
    pub fn hold(&mut self, shape_type: ShapeType, bag: &mut Bag) -> (released: Option<ShapeType>)
        requires
            old(bag).wf(),
        ensures
            final(bag).wf(),
            final(self)@ == old(self)@.held(shape_type),
            released == old(self)@.released(old(bag)@),
            final(bag)@ == old(self)@.drawn_from(old(bag)@),
    {
        if self.locked {
            return None;
        }
        self.locked = true;
        let mut swap: Option<Shape> = Some(Shape::new(shape_type));
        std::mem::swap(&mut self.shape, &mut swap);
        match swap {
            Some(shape) => Some(shape.shape_type),
            None => Some(bag.pop()),
        }
    }

    /// Allows a swap again.
    pub fn unlock(&mut self)
        ensures
            final(self)@ == old(self)@.unlocked(),
    {
        self.locked = false;
    }

    /// The shape set aside, if any.
    pub fn shape(&self) -> (shape: Option<ShapeType>)
        ensures
            shape == self@.shape,
    {
        match self.shape {
            Some(shape) => Some(shape.shape_type),
            None => None,
        }
    }

    /// Whether the piece in play has been swapped already.
    pub fn locked(&self) -> (locked: bool)
        ensures
            locked == self@.locked,
    {
        self.locked
    }
}

} // verus!
