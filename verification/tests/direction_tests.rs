use raymaze::direction::{Direction, LeftRight, UpDown};

#[test]
fn rotation_test() {
    let order = [
        Direction(LeftRight::Left, UpDown::Up),
        Direction(LeftRight::Middle, UpDown::Up),
        Direction(LeftRight::Right, UpDown::Up),
        Direction(LeftRight::Right, UpDown::Middle),
        Direction(LeftRight::Right, UpDown::Down),
        Direction(LeftRight::Middle, UpDown::Down),
        Direction(LeftRight::Left, UpDown::Down),
        Direction(LeftRight::Left, UpDown::Middle),
        Direction(LeftRight::Left, UpDown::Up),
    ];

    let mut it = order.iter().peekable();
    while let Some(f) = it.next() {
        if let Some(&n) = it.peek() {
            assert_eq!(f.rot_cw(), *n);
            assert_eq!(*f, n.rot_ctr_cw());
        }
    }
}

#[test]
fn from_int_signs() {
    assert_eq!(LeftRight::from_int(-15), LeftRight::Left);
    assert_eq!(LeftRight::from_int(0), LeftRight::Middle);
    assert_eq!(LeftRight::from_int(120), LeftRight::Right);
    assert_eq!(UpDown::from_int(0), UpDown::Middle);
    assert_eq!(UpDown::from_int(-15), UpDown::Down);
    assert_eq!(UpDown::from_int(120), UpDown::Up);
}

#[test]
fn as_int_round_trip() {
    assert_eq!(LeftRight::Left.as_int(), -1);
    assert_eq!(LeftRight::Middle.as_int(), 0);
    assert_eq!(LeftRight::Right.as_int(), 1);
    assert_eq!(UpDown::Down.as_int(), -1);
    assert_eq!(UpDown::Up.as_int(), 1);
}
