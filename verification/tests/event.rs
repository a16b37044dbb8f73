use blockfall::event::{burst_of_clear, sound_of_lock, Explosion, Sound};

#[test]
fn the_sound_of_a_lock() {
    assert_eq!(sound_of_lock(0, false), Sound::Lock);
    assert_eq!(sound_of_lock(1, false), Sound::Erase1);
    assert_eq!(sound_of_lock(2, false), Sound::Erase2);
    assert_eq!(sound_of_lock(3, false), Sound::Erase3);
    assert_eq!(sound_of_lock(4, false), Sound::Erase4);
    assert_eq!(sound_of_lock(0, true), Sound::TSpin0);
    assert_eq!(sound_of_lock(1, true), Sound::TSpin1);
    assert_eq!(sound_of_lock(2, true), Sound::TSpin2);
    assert_eq!(sound_of_lock(3, true), Sound::TSpin3);
    assert_eq!(sound_of_lock(4, true), Sound::Lock);
    assert_eq!(sound_of_lock(5, false), Sound::Lock);
    assert_eq!(sound_of_lock(-1, true), Sound::Lock);
}

#[test]
fn the_burst_of_a_clear() {
    assert_eq!(burst_of_clear(4, false), Explosion::Tetris);
    assert_eq!(burst_of_clear(4, true), Explosion::Tetris);
    assert_eq!(burst_of_clear(2, true), Explosion::TSpin);
    assert_eq!(burst_of_clear(1, false), Explosion::Lines);
    assert_eq!(burst_of_clear(3, false), Explosion::Lines);
}
