use blau::colors::Color;
use std::convert::TryFrom;

#[test]
fn checks_movable() {
    assert!(Color::Blue.is_movable());
    assert!(!Color::Start.is_movable());
    assert!(!Color::Blank.is_movable());
}

#[test]
fn every_tile_color_is_movable() {
    for c in [Color::Blue, Color::Orange, Color::Green, Color::Red, Color::Purple] {
        assert!(c.is_movable());
    }
}

#[test]
fn index_and_from_index_agree() {
    let all = [Color::Blue, Color::Orange, Color::Green, Color::Red, Color::Purple];
    for (i, c) in all.iter().enumerate() {
        assert_eq!(c.index(), i);
        assert_eq!(Color::from_index(i), Some(*c));
        assert_eq!(Color::try_from(i), Ok(*c));
    }
    assert_eq!(Color::Start.index(), 5);
    assert_eq!(Color::Blank.index(), 6);
    assert_eq!(Color::from_index(5), None);
    assert_eq!(Color::from_index(6), None);
    assert_eq!(Color::try_from(5usize), Err(()));
    assert_eq!(Color::try_from(usize::MAX), Err(()));
}

#[test]
fn names_match_debug_output() {
    for c in [
        Color::Blue,
        Color::Orange,
        Color::Green,
        Color::Red,
        Color::Purple,
        Color::Start,
        Color::Blank,
    ] {
        assert_eq!(c.name(), format!("{:?}", c));
    }
}
