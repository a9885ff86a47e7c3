use notate::Fraction;

#[test]
fn simplify_reduces_to_lowest_terms() {
    let f = Fraction::new(6, 8).simplify();
    assert_eq!(f, Fraction::new(3, 4));
}

#[test]
fn simplify_of_zero() {
    let f = Fraction::new(0, 5).simplify();
    assert_eq!(f, Fraction::new(0, 1));
}

#[test]
fn simplify_keeps_lowest_terms() {
    let f = Fraction::new(3, 8).simplify();
    assert_eq!(f, Fraction::new(3, 8));
}

#[test]
fn add_is_exact_and_unreduced() {
    let sum = Fraction::new(1, 2).add(Fraction::new(1, 3));
    assert_eq!(sum, Fraction::new(5, 6));
    let sum = Fraction::new(1, 4).add(Fraction::new(1, 4));
    assert_eq!(sum, Fraction::new(8, 16));
    assert_eq!(sum.simplify(), Fraction::new(1, 2));
}

#[test]
fn multiply_is_exact_and_unreduced() {
    let product = Fraction::new(2, 3).multiply(Fraction::new(3, 4));
    assert_eq!(product, Fraction::new(6, 12));
    assert_eq!(product.simplify(), Fraction::new(1, 2));
}

#[test]
fn comparisons() {
    assert!(Fraction::new(1, 3).less_than(Fraction::new(1, 2)));
    assert!(!Fraction::new(1, 2).less_than(Fraction::new(1, 2)));
    assert!(Fraction::new(2, 4).equals(Fraction::new(1, 2)));
    assert!(!Fraction::new(2, 4).equals(Fraction::new(1, 3)));
}

#[test]
fn addition_chain_stays_reduced() {
    // Eight eighth notes, simplified after every step, add up to one
    // whole note in lowest terms.
    let eighth = Fraction::new(1, 8);
    let mut total = Fraction::new(0, 1);
    for _ in 0..8 {
        total = total.add(eighth).simplify();
    }
    assert_eq!(total, Fraction::new(1, 1));
}

#[test]
fn scale_rounds_toward_zero() {
    assert_eq!(Fraction::new(3, 8).scale(3200), 1200);
    assert_eq!(Fraction::new(1, 3).scale(100), 33);
    assert_eq!(Fraction::new(0, 1).scale(3200), 0);
}
