use islemulti::character::Character;
use islemulti::player::Player;
use islemulti::position::Position;
use islemulti::scalar::Scalar;
use islemulti::vector::Vector;

#[test]
fn scalar_keeps_bits_and_text() {
    let s = Scalar::new(1.5f32.to_bits(), "1.5");
    assert_eq!(s.bits, 0x3fc0_0000);
    assert_eq!(s.text, "1.5");
    assert_eq!(f32::from_bits(s.bits), 1.5);
}

#[test]
fn scalar_zero_is_positive_zero() {
    let zero = Scalar::zero();
    assert_eq!(zero.bits, 0);
    assert_eq!(zero.bits, 0.0f32.to_bits());
    assert_eq!(zero.text, "0");
    assert_eq!(zero.text, 0.0f32.to_string());
}

#[test]
fn position_new_keeps_the_order() {
    let p = Position::new(Scalar::new(1, "a"), Scalar::new(2, "b"), Scalar::new(3, "c"));
    assert_eq!(p.x, Scalar::new(1, "a"));
    assert_eq!(p.y, Scalar::new(2, "b"));
    assert_eq!(p.z, Scalar::new(3, "c"));
}

#[test]
fn vector_new_keeps_the_order() {
    let v = Vector::new(Scalar::new(1, "a"), Scalar::new(2, "b"), Scalar::new(3, "c"));
    assert_eq!(v.x, Scalar::new(1, "a"));
    assert_eq!(v.y, Scalar::new(2, "b"));
    assert_eq!(v.z, Scalar::new(3, "c"));
}

#[test]
fn origin_and_zero_vector_are_all_zero() {
    let p = Position::origin();
    assert_eq!(p, Position::new(Scalar::zero(), Scalar::zero(), Scalar::zero()));
    let v = Vector::zero();
    assert_eq!(v, Vector::new(Scalar::zero(), Scalar::zero(), Scalar::zero()));
}

#[test]
fn default_character_is_pepper_roni() {
    assert_eq!(Character::default(), Character::PepperRoni);
}

#[test]
fn player_new_takes_the_name_as_given() {
    let position = Position::new(Scalar::new(1, "a"), Scalar::new(2, "b"), Scalar::new(3, "c"));
    let direction = Vector::new(Scalar::new(4, "d"), Scalar::new(5, "e"), Scalar::new(6, "f"));
    let player = Player::new(" Al ice\n", position.clone(), direction.clone());
    assert_eq!(player.username, " Al ice\n");
    assert_eq!(player.position, position);
    assert_eq!(player.direction, direction);
    assert_eq!(player.character, Character::PepperRoni);
}

#[test]
fn player_new_accepts_an_empty_name() {
    let player = Player::new("", Position::origin(), Vector::zero());
    assert_eq!(player.username, "");
    assert_eq!(player.position, Position::origin());
    assert_eq!(player.direction, Vector::zero());
}
