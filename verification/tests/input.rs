use breakout_core::audio::{resolve, Repeat, SoundAction, SoundOp};
use breakout_core::key::{KeyCode, KeyScan, KeySet};
use breakout_core::reg::Reg;

#[test]
fn held_key_counts_once() {
    let mut scan = KeyScan::new();
    assert!(scan.just_pressed(KeyCode::Up));
    assert!(!scan.just_pressed(KeyCode::Up));
    assert!(!scan.just_pressed(KeyCode::Up));
}

#[test]
fn released_key_counts_again() {
    let mut scan = KeyScan::new();
    assert!(scan.just_pressed(KeyCode::Return));
    assert!(!scan.just_pressed(KeyCode::Return));
    scan.just_released(KeyCode::Return);
    assert!(scan.just_pressed(KeyCode::Return));
    assert!(!scan.just_pressed(KeyCode::Return));
}

#[test]
fn keys_latch_apart() {
    let mut scan = KeyScan::new();
    assert!(scan.just_pressed(KeyCode::Up));
    assert!(scan.just_pressed(KeyCode::Down));
    scan.just_released(KeyCode::Up);
    assert!(!scan.just_pressed(KeyCode::Down));
    assert!(scan.just_pressed(KeyCode::Up));
}

#[test]
fn release_of_unpressed_key_is_harmless() {
    let mut scan = KeyScan::new();
    scan.just_released(KeyCode::Q);
    assert!(scan.just_pressed(KeyCode::Q));
}

#[test]
fn every_key_has_its_own_slot() {
    let all = [
        KeyCode::Left,
        KeyCode::Right,
        KeyCode::Up,
        KeyCode::Down,
        KeyCode::Return,
        KeyCode::P,
        KeyCode::Q,
        KeyCode::X,
        KeyCode::Key1,
        KeyCode::Key2,
        KeyCode::Key3,
        KeyCode::Key4,
        KeyCode::Key5,
        KeyCode::Key6,
        KeyCode::Key7,
        KeyCode::Key8,
    ];
    for (i, k) in all.iter().enumerate() {
        assert_eq!(k.index(), i);
        let mut set = KeySet::new();
        set.insert(*k);
        for other in all.iter() {
            assert_eq!(set.contains(*other), other == k);
        }
        set.remove(*k);
        assert!(!set.contains(*k));
    }
}

#[test]
fn registry_latch_matches_scan() {
    let mut reg = Reg::new();
    assert!(reg.just_pressed(KeyCode::Down));
    assert!(!reg.just_pressed(KeyCode::Down));
    reg.just_released(KeyCode::Down);
    assert!(reg.just_pressed(KeyCode::Down));
}

#[test]
fn sound_actions_by_command() {
    assert_eq!(
        resolve(SoundOp::Play, false),
        SoundAction { repeat: Repeat::Keep, start: true, stop: false }
    );
    assert_eq!(
        resolve(SoundOp::Play, true),
        SoundAction { repeat: Repeat::Keep, start: false, stop: false }
    );
    assert_eq!(
        resolve(SoundOp::PlayOnce, false),
        SoundAction { repeat: Repeat::Off, start: true, stop: false }
    );
    assert_eq!(
        resolve(SoundOp::PlayOnce, true),
        SoundAction { repeat: Repeat::Keep, start: false, stop: false }
    );
    assert_eq!(
        resolve(SoundOp::PlayBgm, false),
        SoundAction { repeat: Repeat::On, start: true, stop: false }
    );
    assert_eq!(
        resolve(SoundOp::PlayBgm, true),
        SoundAction { repeat: Repeat::On, start: false, stop: false }
    );
    assert_eq!(
        resolve(SoundOp::Stop, true),
        SoundAction { repeat: Repeat::Keep, start: false, stop: true }
    );
    assert_eq!(
        resolve(SoundOp::Stop, false),
        SoundAction { repeat: Repeat::Keep, start: false, stop: false }
    );
}
