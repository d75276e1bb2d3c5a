use brainfuck::full_tape::Tape;
use brainfuck::half_tape::HalfTape;

#[test]
fn half_tape_starts_at_zero() {
    let mut h = HalfTape::new();
    assert_eq!(h.get_pointer(), 0);
    assert_eq!(h.get_value(), 0);
}

#[test]
fn half_tape_moves_grow_with_zeros() {
    let mut h = HalfTape::new();
    h.set_value(9);
    h.move_pointer_to(5);
    assert_eq!(h.get_pointer(), 5);
    assert_eq!(h.get_value(), 0);
    h.set_value(4);
    h.move_pointer_by(-5);
    assert_eq!(h.get_pointer(), 0);
    assert_eq!(h.get_value(), 9);
    h.move_pointer_by(5);
    assert_eq!(h.get_value(), 4);
    h.move_pointer_by(3);
    assert_eq!(h.get_pointer(), 8);
    assert_eq!(h.get_value(), 0);
}

#[test]
fn half_tape_arithmetic_wraps() {
    let mut h = HalfTape::new();
    h.decrement_value(1);
    assert_eq!(h.get_value(), 255);
    h.increment_value(3);
    assert_eq!(h.get_value(), 2);
    h.increment_value(200);
    assert_eq!(h.get_value(), 202);
    h.decrement_value(203);
    assert_eq!(h.get_value(), 255);
}

#[test]
fn set_then_get_round_trips_every_byte() {
    let mut t = Tape::new();
    for v in 0..=255u8 {
        t.set_value(v);
        assert_eq!(t.get_value(), v);
    }
    t.move_pointer_by(-3);
    for v in 0..=255u8 {
        t.set_value(v);
        assert_eq!(t.get_value(), v);
    }
}

#[test]
fn increment_256_times_wraps_around() {
    let mut t = Tape::new();
    t.set_value(17);
    for _ in 0..256 {
        t.increment_value(1);
    }
    assert_eq!(t.get_value(), 17);
    for _ in 0..256 {
        t.decrement_value(1);
    }
    assert_eq!(t.get_value(), 17);
    t.move_pointer_by(-2);
    for _ in 0..256 {
        t.decrement_value(1);
    }
    assert_eq!(t.get_value(), 0);
}

#[test]
fn increment_and_decrement_by_more_than_one() {
    let mut t = Tape::new();
    t.increment_value(250);
    t.increment_value(10);
    assert_eq!(t.get_value(), 4);
    t.decrement_value(5);
    assert_eq!(t.get_value(), 255);
}

#[test]
fn crossing_the_origin_and_back_keeps_cell_zero() {
    let mut t = Tape::new();
    t.set_value(42);
    t.move_pointer_by(-1);
    assert_eq!(t.get_value(), 0);
    t.set_value(7);
    t.move_pointer_by(1);
    assert_eq!(t.get_value(), 42);
    t.move_pointer_by(-1);
    assert_eq!(t.get_value(), 7);
    t.move_pointer_by(-1);
    assert_eq!(t.get_value(), 0);
    t.move_pointer_by(2);
    assert_eq!(t.get_value(), 42);
}

#[test]
fn long_moves_across_the_origin() {
    let mut t = Tape::new();
    t.move_pointer_by(3);
    t.set_value(3);
    t.move_pointer_by(-8);
    t.set_value(251);
    t.move_pointer_by(5);
    assert_eq!(t.get_value(), 0);
    t.move_pointer_by(3);
    assert_eq!(t.get_value(), 3);
    t.move_pointer_by(-8);
    assert_eq!(t.get_value(), 251);
    t.move_pointer_by(0);
    assert_eq!(t.get_value(), 251);
}

#[test]
fn unvisited_cells_read_zero() {
    let mut t = Tape::new();
    t.set_value(1);
    t.move_pointer_by(1000);
    assert_eq!(t.get_value(), 0);
    t.set_value(2);
    t.move_pointer_by(-2000);
    assert_eq!(t.get_value(), 0);
    t.move_pointer_by(999);
    assert_eq!(t.get_value(), 0);
}

#[test]
fn cells_depend_on_address_not_path() {
    let mut t = Tape::new();
    t.move_pointer_by(4);
    t.set_value(99);
    t.move_pointer_by(-4);
    for by in [-7i128, 2, 9, -1, 5, -4] {
        t.move_pointer_by(by);
    }
    assert_eq!(t.get_value(), 99);
    t.move_pointer_by(-10);
    t.move_pointer_by(10);
    assert_eq!(t.get_value(), 99);
}

#[test]
fn can_move_by_reports_the_addressable_range() {
    let t = Tape::new();
    let max = usize::MAX as i128;
    assert!(t.can_move_by(1));
    assert!(t.can_move_by(-1));
    assert!(t.can_move_by(max - 1));
    assert!(!t.can_move_by(max));
    assert!(t.can_move_by(-max));
    assert!(!t.can_move_by(-max - 1));
    assert!(!t.can_move_by(i128::MIN));
    assert!(!t.can_move_by(i128::MAX));
    let mut u = Tape::new();
    u.move_pointer_by(-5);
    assert!(u.can_move_by(5 - max));
    assert!(!u.can_move_by(4 - max));
    assert!(u.can_move_by(max + 4));
    assert!(!u.can_move_by(max + 5));
}
