//! The randomizer: hands out the seven shapes in shuffled cycles.
//!
//! Every cycle holds each shape once. The order of a cycle depends on the seed
//! and on the number of the cycle alone, so a seed reproduces a whole game.

use crate::shape::{ShapeType, SHAPES};
use rand::seq::SliceRandom;
use rand::SeedableRng;
use rand_chacha::ChaCha20Rng;
use vstd::prelude::*;

verus! {

/// The order in which `rand::seq::SliceRandom::shuffle` leaves `shapes` when it
/// draws from the ChaCha20 generator that `seed` gives, set to stream `stream`.
pub uninterp spec fn shuffled(seed: Seq<u8>, stream: u64, shapes: Seq<ShapeType>) -> Seq<
    ShapeType,
>;

/// Shuffles `shapes` in place with `rand::seq::SliceRandom::shuffle`. The
/// generator is a fresh `rand_chacha::ChaCha20Rng` made from `seed` by
/// `SeedableRng::from_seed` and moved to stream `stream` by `set_stream`.
///
/// Trusted: the outcome is a function of the three arguments, and the shuffle
/// only swaps elements, so the same shapes come out in some order.
#[verifier::external_body]
fn shuffle(seed: &[u8; 32], stream: u64, shapes: &mut Vec<ShapeType>)
    ensures
        final(shapes)@ == shuffled(seed@, stream, old(shapes)@),
        final(shapes)@.to_multiset() == old(shapes)@.to_multiset(),
{
    let mut rng = ChaCha20Rng::from_seed(*seed);
    rng.set_stream(stream);
    shapes.shuffle(&mut rng);
}

/// The seven shapes in the order of their indices.
pub open spec fn all_shapes() -> Seq<ShapeType> {
    SHAPES@
}

/// Whether `order` holds the same shapes as `shapes`, each as often.
pub open spec fn permutes(order: Seq<ShapeType>, shapes: Seq<ShapeType>) -> bool {
    order.to_multiset() == shapes.to_multiset()
}

/// The order of cycle number `cycle` of the bag seeded with `seed`: the seven
/// shapes as the shuffle leaves them. A shuffle permutes. That is known of
/// every shuffle that has run; the condition makes the order a permutation for
/// every seed and cycle, whether that shuffle has run or not.
pub open spec fn cycle_order(seed: Seq<u8>, cycle: u64) -> Seq<ShapeType> {
    let order = shuffled(seed, cycle, all_shapes());
    if permutes(order, all_shapes()) {
        order
    } else {
        all_shapes()
    }
}

/// The number of the cycle that follows `cycle`.
pub open spec fn next_cycle(cycle: u64) -> u64 {
    if cycle == u64::MAX {
        0
    } else {
        (cycle + 1) as u64
    }
}

/// What a bag is: its seed, the number of the cycle that the next refill
/// starts, and the shapes of the current cycle that are still to come.
pub struct BagView {
    /// The seed that every cycle is shuffled by.
    pub seed: Seq<u8>,
    /// The number of the cycle that the next refill starts.
    pub cycle: u64,
    /// The shapes of the current cycle that are still to come, next first.
    pub queue: Seq<ShapeType>,
}

impl BagView {
    /// The bag as it is first made from `seed`.
    pub open spec fn fresh(seed: Seq<u8>) -> BagView {
        BagView { seed, cycle: 0, queue: Seq::empty() }
    }

    /// The queue as `pop` reads it: refilled first where it is empty.
    pub open spec fn filled(self) -> BagView {
        if self.queue.len() == 0 {
            BagView {
                seed: self.seed,
                cycle: next_cycle(self.cycle),
                queue: cycle_order(self.seed, self.cycle),
            }
        } else {
            self
        }
    }

    /// The shape that the next `pop` returns.
    pub open spec fn next(self) -> ShapeType {
        self.filled().queue[0]
    }

    /// The bag after the next `pop`.
    pub open spec fn popped(self) -> BagView {
        BagView { queue: self.filled().queue.skip(1), ..self.filled() }
    }

    /// The shapes that the next `n` pops return, in order.
    pub open spec fn drawn(self, n: nat) -> Seq<ShapeType>
        decreases n,
    {
        if n == 0 {
            Seq::empty()
        } else {
            seq![self.next()] + self.popped().drawn((n - 1) as nat)
        }
    }

    /// The bag after `n` pops.
    pub open spec fn after(self, n: nat) -> BagView
        decreases n,
    {
        if n == 0 {
            self
        } else {
            self.popped().after((n - 1) as nat)
        }
    }
}

/// A cycle holds seven shapes.
pub proof fn lemma_cycle_length(seed: Seq<u8>, cycle: u64)
    ensures
        cycle_order(seed, cycle).len() == 7,
        permutes(cycle_order(seed, cycle), all_shapes()),
{
    let order = cycle_order(seed, cycle);
    order.to_multiset_ensures();
    all_shapes().to_multiset_ensures();
}

/// While the queue holds `n` shapes or more, the next `n` pops hand out its
/// first `n` shapes in order and leave the rest.
pub proof fn lemma_drawn_from_queue(bag: BagView, n: nat)
    requires
        n <= bag.queue.len(),
    ensures
        bag.drawn(n) == bag.queue.take(n as int),
        bag.after(n) == (BagView { queue: bag.queue.skip(n as int), ..bag }),
    decreases n,
{
    if n == 0 {
        assert(bag.queue.skip(0) =~= bag.queue);
    } else {
        let rest = bag.popped();
        lemma_drawn_from_queue(rest, (n - 1) as nat);
        assert(rest.queue.skip(n - 1) =~= bag.queue.skip(n as int));
    }
}

/// The next `n` pops return `n` shapes.
pub proof fn lemma_drawn_length(bag: BagView, n: nat)
    ensures
        bag.drawn(n).len() == n,
    decreases n,
{
    if n > 0 {
        lemma_drawn_length(bag.popped(), (n - 1) as nat);
    }
}

/// One pop more: the bag after `n + 1` pops is the bag after `n` pops, popped.
pub proof fn lemma_after_step(bag: BagView, n: nat)
    ensures
        bag.after(n + 1) == bag.after(n).popped(),
    decreases n,
{
    assert(bag.after(n + 1) == bag.popped().after(n));
    if n > 0 {
        lemma_after_step(bag.popped(), (n - 1) as nat);
        assert(bag.after(n) == bag.popped().after((n - 1) as nat));
    } else {
        assert(bag.popped().after(0) == bag.popped());
    }
}

/// Shape number `i` of the next `n` pops is the one that the bag returns next
/// after `i` pops.
pub proof fn lemma_drawn_index(bag: BagView, n: nat, i: int)
    requires
        0 <= i < n,
    ensures
        bag.drawn(n).len() == n,
        bag.drawn(n)[i] == bag.after(i as nat).next(),
    decreases n,
{
    lemma_drawn_length(bag, n);
    if i > 0 {
        lemma_drawn_length(bag.popped(), (n - 1) as nat);
        lemma_drawn_index(bag.popped(), (n - 1) as nat, i - 1);
    }
}

/// Fairness: from the start of a cycle, seven pops in a row return every shape
/// exactly once, whatever the seed, and leave the bag at the start of the next
/// cycle.
pub proof fn lemma_cycle_is_fair(bag: BagView)
    requires
        bag.queue.len() == 0,
    ensures
        bag.drawn(7) == cycle_order(bag.seed, bag.cycle),
        permutes(bag.drawn(7), all_shapes()),
        forall|shape: ShapeType| #[trigger] bag.drawn(7).to_multiset().count(shape) == 1,
        bag.after(7).queue.len() == 0,
        bag.after(7).cycle == next_cycle(bag.cycle),
        bag.after(7).seed == bag.seed,
{
    lemma_cycle_length(bag.seed, bag.cycle);
    let full = bag.filled();
    lemma_drawn_from_queue(full, 7);
    assert(full.queue.take(7) =~= full.queue);
    assert forall|shape: ShapeType| #[trigger] all_shapes().to_multiset().count(shape) == 1 by {
        lemma_each_shape_once(shape);
    }
}

/// Each shape stands once among the seven.
pub proof fn lemma_each_shape_once(shape: ShapeType)
    ensures
        all_shapes().to_multiset().count(shape) == 1,
{
    let s = all_shapes();
    assert(s =~= seq![
        ShapeType::I,
        ShapeType::J,
        ShapeType::L,
        ShapeType::O,
        ShapeType::S,
        ShapeType::T,
        ShapeType::Z,
    ]);
    broadcast use vstd::multiset::group_multiset_axioms;

    let e = Seq::<ShapeType>::empty();
    assert(s == e.push(ShapeType::I).push(ShapeType::J).push(ShapeType::L).push(ShapeType::O).push(
        ShapeType::S,
    ).push(ShapeType::T).push(ShapeType::Z));
    e.to_multiset_ensures();
    e.push(ShapeType::I).to_multiset_ensures();
    e.push(ShapeType::I).push(ShapeType::J).to_multiset_ensures();
    e.push(ShapeType::I).push(ShapeType::J).push(ShapeType::L).to_multiset_ensures();
    e.push(ShapeType::I).push(ShapeType::J).push(ShapeType::L).push(
        ShapeType::O,
    ).to_multiset_ensures();
    e.push(ShapeType::I).push(ShapeType::J).push(ShapeType::L).push(ShapeType::O).push(
        ShapeType::S,
    ).to_multiset_ensures();
    e.push(ShapeType::I).push(ShapeType::J).push(ShapeType::L).push(ShapeType::O).push(
        ShapeType::S,
    ).push(ShapeType::T).to_multiset_ensures();
}

/// The bag of upcoming shapes.
pub struct Bag {
    seed: [u8; 32],
    cycle: u64,
    queue: Vec<ShapeType>,
    cursor: usize,
}

impl View for Bag {
    type V = BagView;

    closed spec fn view(&self) -> BagView {
        BagView {
            seed: self.seed@,
            cycle: self.cycle,
            queue: self.queue@.skip(self.cursor as int),
        }
    }
}

impl Bag {
    /// The cursor stands inside the queue.
    pub closed spec fn wf(&self) -> bool {
        self.cursor <= self.queue.len()
    }

    /// A bag that shuffles by `seed`. Nothing is drawn before the first `pop`.
    pub fn new(seed: &[u8; 32]) -> (bag: Bag)
        ensures
            bag.wf(),
            bag@ == BagView::fresh(seed@),
    {
        let bag = Bag { seed: *seed, cycle: 0, queue: Vec::new(), cursor: 0 };
        assert(bag.queue@.skip(0) =~= Seq::empty());
        bag
    }

    /// Starts the next cycle: the seven shapes, shuffled.
    fn refill(&mut self)
        requires
            old(self).wf(),
            old(self)@.queue.len() == 0,
        ensures
            final(self).wf(),
            final(self)@ == old(self)@.filled(),
            final(self)@.queue.len() == 7,
    {
        let mut shapes: Vec<ShapeType> = Vec::new();
        let mut i: usize = 0;
        while i < 7
            invariant
                i <= 7,
                shapes@ == all_shapes().take(i as int),
            decreases 7 - i,
        {
            shapes.push(SHAPES[i]);
            assert(all_shapes().take(i as int).push(SHAPES[i as int]) =~= all_shapes().take(
                i + 1,
            ));
            i += 1;
        }
        assert(all_shapes().take(7) =~= all_shapes());
        shuffle(&self.seed, self.cycle, &mut shapes);
        proof {
            lemma_cycle_length(self.seed@, self.cycle);
        }
        self.queue = shapes;
        self.cursor = 0;
        self.cycle = if self.cycle == u64::MAX {
            0
        } else {
            self.cycle + 1
        };
        assert(self.queue@.skip(0) =~= self.queue@);
    }

    /// Removes and returns the next shape, starting a new cycle first where
    /// the current one is used up.
    pub fn pop(&mut self) -> (shape: ShapeType)
        requires
            old(self).wf(),
        ensures
            final(self).wf(),
            shape == old(self)@.next(),
            final(self)@ == old(self)@.popped(),
    {
        if self.cursor >= self.queue.len() {
            self.refill();
        }
        let shape = self.queue[self.cursor];
        assert(self.queue@.skip(self.cursor as int).skip(1) =~= self.queue@.skip(
            self.cursor + 1,
        ));
        self.cursor += 1;
        shape
    }

    /// The shapes of the current cycle that are still to come, next first.
    pub fn queued(&self) -> (shapes: Vec<ShapeType>)
        requires
            self.wf(),
        ensures
            shapes@ == self@.queue,
    {
        let mut shapes: Vec<ShapeType> = Vec::new();
        let mut i: usize = self.cursor;
        while i < self.queue.len()
            invariant
                self.cursor <= i <= self.queue.len(),
                shapes@ == self.queue@.subrange(self.cursor as int, i as int),
            decreases self.queue.len() - i,
        {
            shapes.push(self.queue[i]);
            assert(self.queue@.subrange(self.cursor as int, i as int).push(self.queue@[i as int])
                =~= self.queue@.subrange(self.cursor as int, i + 1));
            i += 1;
        }
        assert(self.queue@.subrange(self.cursor as int, self.queue.len() as int)
            =~= self.queue@.skip(self.cursor as int));
        shapes
    }

    /// The seed that the bag was made from.
    pub fn seed(&self) -> (seed: [u8; 32])
        ensures
            seed@ == self@.seed,
    {
        self.seed
    }
}

} // verus!
