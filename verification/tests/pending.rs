use fgtw_fleet::pending::{forget_authed, remember_authed, take_authed, Pending};

#[test]
fn a_handshake_is_taken_once() {
    let mut p = Pending::new();
    remember_authed(&mut p, 7, [1; 32]);
    remember_authed(&mut p, 8, [2; 32]);
    assert_eq!(take_authed(&mut p, 7), Some([1; 32]));
    assert_eq!(take_authed(&mut p, 7), None);
    assert_eq!(take_authed(&mut p, 8), Some([2; 32]));
}

#[test]
fn a_closed_connection_is_forgotten() {
    let mut p = Pending::new();
    remember_authed(&mut p, -1, [1; 32]);
    remember_authed(&mut p, -1, [3; 32]);
    forget_authed(&mut p, 5);
    assert_eq!(take_authed(&mut p, -1), Some([3; 32]));
    remember_authed(&mut p, -1, [1; 32]);
    forget_authed(&mut p, -1);
    assert_eq!(take_authed(&mut p, -1), None);
}
