use blau::colors::Color;
use blau::player_move::Move;
use blau::text::decimal;

#[test]
fn catches_invalid_color() {
    assert_eq!(
        Move {
            factory_idx: 0,
            color: Color::Start,
            working_row: 1
        }
        .check_validity(),
        Some("Start tiles are not movable.".to_string())
    );
}

#[test]
fn catches_invalid_destination() {
    assert_eq!(
        Move {
            factory_idx: 0,
            color: Color::Blue,
            working_row: 6
        }
        .check_validity(),
        Some("Cannot move to row 6.".to_string())
    );
}

#[test]
fn catches_blank_color() {
    assert_eq!(
        Move {
            factory_idx: 3,
            color: Color::Blank,
            working_row: 9
        }
        .check_validity(),
        Some("Blank tiles are not movable.".to_string())
    );
}

#[test]
fn accepts_every_destination_up_to_the_trash() {
    for row in 0..=5 {
        let m = Move {
            factory_idx: 2,
            color: Color::Purple,
            working_row: row,
        };
        assert_eq!(m.check_validity(), None);
        assert!(!m.is_from_center());
    }
    assert!(Move {
        factory_idx: 0,
        color: Color::Red,
        working_row: 0
    }
    .is_from_center());
}

#[test]
fn reports_a_large_row_in_full() {
    assert_eq!(
        Move {
            factory_idx: 0,
            color: Color::Blue,
            working_row: 1234567
        }
        .check_validity(),
        Some("Cannot move to row 1234567.".to_string())
    );
}

#[test]
fn decimal_writes_numbers_as_std_does() {
    for n in [0usize, 1, 9, 10, 11, 99, 100, 101, 4096, 65535, 1000000, usize::MAX] {
        assert_eq!(decimal(n), n.to_string());
    }
}
