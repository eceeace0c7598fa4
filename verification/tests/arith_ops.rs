use guessing_game::arith::{add, multiply};

#[test]
fn add_sums_its_arguments() {
    assert_eq!(add(6, 9), 15);
    assert_eq!(add(-3, 3), 0);
}

#[test]
fn multiply_scales_its_arguments() {
    assert_eq!(multiply(15, 2), 30);
    assert_eq!(multiply(-4, 5), -20);
}

#[test]
fn add_then_multiply_matches_by_hand() {
    let x = add(6, 9);
    let x = multiply(x, 2);
    assert_eq!(x, 30);
}
