use blockfall::score::Score;

#[test]
fn a_new_score_is_zero() {
    let score = Score::default();
    assert_eq!(score.score(), 0);
    assert_eq!(score.combo(), None);
    assert!(!score.btb());
    assert_eq!(score.garbage(), 0);
}

#[test]
fn soft_drop_counts_one_point_a_row() {
    let mut score = Score::default();
    score.soft_drop(7);
    assert_eq!(score.score(), 7);
    score.soft_drop(0);
    assert_eq!(score.score(), 7);
}

#[test]
fn hard_drop_counts_two_points_a_row() {
    let mut score = Score::default();
    score.hard_drop(20);
    assert_eq!(score.score(), 40);
}

#[test]
fn single_clear_scores_one_hundred() {
    let mut score = Score::default();
    score.lock(1, false);
    assert_eq!(score.score(), 100);
    assert_eq!(score.combo(), Some(0));
}

#[test]
fn four_rows_score_eight_hundred() {
    let mut score = Score::default();
    score.lock(4, false);
    assert_eq!(score.score(), 800);
    assert!(score.btb());
}

#[test]
fn the_table_of_clears() {
    let table = [
        (1, false, 100, 0),
        (1, true, 800, 2),
        (2, false, 300, 1),
        (2, true, 1200, 4),
        (3, false, 500, 3),
        (3, true, 1600, 6),
        (4, false, 800, 4),
        (4, true, 0, 0),
        (0, false, 0, 0),
        (0, true, 0, 0),
        (5, false, 0, 0),
        (-1, false, 0, 0),
    ];
    for (rows, t_spin, points, garbage) in table {
        let mut score = Score::default();
        score.lock(rows, t_spin);
        assert_eq!(score.score(), points);
        assert_eq!(score.garbage(), garbage);
    }
}

#[test]
fn the_second_clear_in_a_row_adds_fifty() {
    let mut score = Score::default();
    score.lock(1, false);
    score.lock(1, false);
    assert_eq!(score.score(), 100 + 150);
    assert_eq!(score.combo(), Some(1));
}

#[test]
fn the_combo_grows_with_every_clear() {
    let mut score = Score::default();
    score.lock(1, false);
    score.lock(1, false);
    score.lock(1, false);
    score.lock(1, false);
    assert_eq!(score.combo(), Some(3));
    assert_eq!(score.score(), 100 + 150 + 200 + 250);
}

#[test]
fn a_clearless_lock_ends_the_combo() {
    let mut score = Score::default();
    score.lock(1, false);
    score.lock(1, false);
    score.reset_combo();
    assert_eq!(score.combo(), None);
    score.lock(1, false);
    assert_eq!(score.combo(), Some(0));
    assert_eq!(score.score(), 100 + 150 + 100);
}

#[test]
fn a_hard_clear_after_a_hard_clear_earns_half_as_much_again() {
    let mut score = Score::default();
    score.lock(4, false);
    score.reset_combo();
    score.lock(4, false);
    assert_eq!(score.score(), 800 + 1200);
    assert_eq!(score.garbage(), 5);
}

#[test]
fn back_to_back_and_combo_add_up() {
    let mut score = Score::default();
    score.lock(4, false);
    score.lock(2, true);
    // 1200 and half of it, and 50 for the first link of the combo
    assert_eq!(score.score(), 800 + 1800 + 50);
}

#[test]
fn an_easy_clear_after_a_hard_one_earns_no_bonus_and_ends_the_run() {
    let mut score = Score::default();
    score.lock(4, false);
    score.reset_combo();
    score.lock(1, false);
    assert_eq!(score.score(), 900);
    assert_eq!(score.garbage(), 1);
    assert!(!score.btb());
    score.reset_combo();
    score.lock(4, false);
    assert_eq!(score.score(), 1700);
}

#[test]
fn the_score_stops_at_the_largest_value() {
    let mut score = Score::default();
    score.soft_drop(i32::MAX);
    score.soft_drop(5);
    assert_eq!(score.score(), i32::MAX);
    score.hard_drop(i32::MAX);
    assert_eq!(score.score(), i32::MAX);
    score.lock(4, false);
    assert_eq!(score.score(), i32::MAX);
}

#[test]
fn the_score_stops_at_the_smallest_value() {
    let mut score = Score::default();
    score.hard_drop(i32::MIN);
    assert_eq!(score.score(), i32::MIN);
    score.soft_drop(-1);
    assert_eq!(score.score(), i32::MIN);
}
