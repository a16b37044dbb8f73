use blockfall::bag::Bag;
use blockfall::shape::{ShapeType, SHAPES};

fn seed(byte: u8) -> [u8; 32] {
    let mut seed = [0u8; 32];
    for (i, b) in seed.iter_mut().enumerate() {
        *b = byte.wrapping_add(i as u8);
    }
    seed
}

fn cycle(bag: &mut Bag) -> Vec<ShapeType> {
    (0..7).map(|_| bag.pop()).collect()
}

#[test]
fn seven_pops_hold_every_shape_once() {
    for byte in [0u8, 1, 7, 42, 200, 255] {
        let mut bag = Bag::new(&seed(byte));
        for _ in 0..20 {
            let shapes = cycle(&mut bag);
            for shape in SHAPES.iter() {
                assert_eq!(shapes.iter().filter(|s| *s == shape).count(), 1);
            }
        }
    }
}

#[test]
fn the_zero_seed_is_fair_too() {
    let mut bag = Bag::new(&[0u8; 32]);
    let mut shapes = cycle(&mut bag);
    shapes.sort_by_key(|s| s.index());
    assert_eq!(shapes, SHAPES.to_vec());
}

#[test]
fn the_same_seed_gives_the_same_shapes() {
    let mut a = Bag::new(&seed(9));
    let mut b = Bag::new(&seed(9));
    for _ in 0..70 {
        assert_eq!(a.pop(), b.pop());
    }
}

#[test]
fn the_seed_decides_the_order() {
    let mut orders = Vec::new();
    for byte in 0..8u8 {
        let mut bag = Bag::new(&seed(byte));
        orders.push(cycle(&mut bag));
    }
    assert!(orders.iter().any(|order| *order != orders[0]));
}

#[test]
fn cycles_are_shuffled() {
    let mut bag = Bag::new(&seed(3));
    let cycles: Vec<Vec<ShapeType>> = (0..4).map(|_| cycle(&mut bag)).collect();
    assert!(cycles.iter().any(|order| *order != SHAPES.to_vec()));
}

#[test]
fn each_cycle_is_shuffled_anew() {
    let mut bag = Bag::new(&seed(5));
    let cycles: Vec<Vec<ShapeType>> = (0..6).map(|_| cycle(&mut bag)).collect();
    assert!(cycles.iter().any(|order| *order != cycles[0]));
}

#[test]
fn a_new_bag_has_drawn_nothing() {
    let bag = Bag::new(&seed(1));
    assert!(bag.queued().is_empty());
    assert_eq!(bag.seed(), seed(1));
}

#[test]
fn queued_shows_the_rest_of_the_cycle() {
    let mut bag = Bag::new(&seed(11));
    let first = bag.pop();
    let rest = bag.queued();
    assert_eq!(rest.len(), 6);
    assert!(!rest.contains(&first));
    for expected in rest {
        assert_eq!(bag.pop(), expected);
    }
    assert!(bag.queued().is_empty());
    bag.pop();
    assert_eq!(bag.queued().len(), 6);
}
