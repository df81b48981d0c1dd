use chesscore::bitboard::Bitboard;
use chesscore::square::Square;

#[test]
fn bitboard_from_square_and_back() {
    let e4 = Square::from_name("e4").unwrap();
    let bb = Bitboard::from_square(e4);
    assert_eq!(bb.to_uint(), 1u64 << 28);
    assert_eq!(bb.to_square(), e4);
    assert_eq!(bb.popcnt(), 1);
}

#[test]
fn bitboard_ops() {
    let a = Bitboard::from_uint(0b1010);
    let b = Bitboard::from_uint(0b0110);
    assert_eq!(a.or(&b).to_uint(), 0b1110);
    assert_eq!(a.and(&b).to_uint(), 0b0010);
    assert_eq!(a.xor(&b).to_uint(), 0b1100);
    assert_eq!(a.invert().to_uint(), !0b1010u64);
    assert_eq!(a.shift_left(4).to_uint(), 0b1010_0000);
    assert_eq!(a.shift_right(1).to_uint(), 0b101);
}

#[test]
fn bitboard_popcnt() {
    assert_eq!(Bitboard::from_uint(0).popcnt(), 0);
    assert_eq!(Bitboard::from_uint(u64::MAX).popcnt(), 64);
    assert_eq!(Bitboard::from_uint(0xFF00).popcnt(), 8);
}

#[test]
fn bitboard_iteration_pops_lowest_first() {
    let mut bb = Bitboard::from_uint((1u64 << 3) | (1u64 << 17) | (1u64 << 60));
    assert_eq!(bb.next().unwrap().get_index(), 3);
    assert_eq!(bb.next().unwrap().get_index(), 17);
    assert_eq!(bb.next().unwrap().get_index(), 60);
    assert!(bb.next().is_none());
    assert_eq!(bb.to_uint(), 0);
}

#[test]
fn bitboard_to_square_lowest() {
    let bb = Bitboard::from_uint((1u64 << 9) | (1u64 << 40));
    assert_eq!(bb.to_square().get_index(), 9);
}

#[test]
fn bitboard_flip_vertical() {
    // the white pawns' rank flips onto the black pawns' rank
    let rank2 = Bitboard::from_uint(0xFF00);
    assert_eq!(rank2.flip_vertical().to_uint(), 0x00FF_0000_0000_0000);
    // a1 flips to a8
    let a1 = Bitboard::from_uint(1);
    assert_eq!(a1.flip_vertical().to_uint(), 1u64 << 56);
    // flipping twice is the identity
    let mixed = Bitboard::from_uint(0x0123_4567_89AB_CDEF);
    assert_eq!(mixed.flip_vertical().flip_vertical().to_uint(), mixed.to_uint());
}

#[test]
fn bitboard_grid_string() {
    let a1 = Bitboard::from_uint(1);
    let s = a1.get_string();
    let lines: Vec<&str> = s.lines().collect();
    assert_eq!(lines.len(), 8);
    assert_eq!(lines[0], "X . . . . . . . ");
    assert_eq!(lines[7], ". . . . . . . . ");
}

#[test]
fn square_to_bitboard() {
    let c3 = Square::from_name("c3").unwrap();
    assert_eq!(c3.to_bitboard().to_uint(), 1u64 << 18);
}
