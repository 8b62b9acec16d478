use fractal_calculator::polynomial::Polynomial;
use fractal_calculator::FractalError;

#[test]
fn test_poly_coeffs_evaluation() {
    let poly = Polynomial::new(vec![3i64, 2, 1, 0]).unwrap(); // that's 0 + x + 2x^2 + 3x^3
    assert!(poly.degree() == 3);
    for (i, &res) in [0i64, 1, 2, 3].iter().enumerate() {
        assert!(*poly.coeff_at_deg(i) == res);
    }
    for x in [-5i64, -4, -3, -2, -1, 0, 1, 2, 3, 4, 5] {
        assert!(poly.evaluate(x) == (0 + x + 2 * x * x + 3 * x * x * x));
    }
}

#[test]
fn test_poly_add_sub() {
    let poly1 = Polynomial::new(vec![3i64, 2, 1]).unwrap(); //  1 + 2x + 3x^2
    let poly2 = Polynomial::new(vec![-2i64, 4, 6, 8]).unwrap(); //  8 + 6x + 4x^2  -2x^3
    let tot1 = poly1.add(&poly2);
    let tot2 = poly2.add(&poly1);
    for t in [&tot1, &tot2] {
        assert!(*t.coeffs() == vec![-2i64, 7, 8, 9]);
    }
    assert!(tot1 == tot2);
}

#[test]
fn test_poly_mul() {
    let poly1 = Polynomial::new(vec![3i64, 2, 1]).unwrap(); //  1 + 2x + 3x^2
    let poly2 = Polynomial::new(vec![-2i64, 4, 6, 8]).unwrap(); //  8 + 6x + 4x^2  -2x^3
    let res1 = poly1.mul(&poly2);
    let res2 = poly2.mul(&poly1); // 8 + 22x + 40x^2 + 24x^3 + 8x^4 - 6 x^5
    for t in [&res1, &res2] {
        assert!(*t.coeffs() == vec![-6i64, 8, 24, 40, 22, 8]);
    }
    assert!(res1 == res2);
}

#[test]
fn test_poly_fromroots() {
    let poly = Polynomial::from_roots(&[1i64, 2, 3]);
    // (x-1)(x-2)(x-3) = x^3 - 6x^2 + 11x - 6
    assert!(*poly.coeffs() == vec![1i64, -6, 11, -6]);
}

#[test]
fn test_poly_derivative() {
    let poly = Polynomial::new(vec![3i64, 2, 1]).unwrap(); // 3x^2 + 2x + 1
    let der = poly.derivative(); // 6x + 2
    assert!(*der.coeffs() == vec![6i64, 2]);
}

#[test]
fn test_from_roots_evaluates_to_zero_at_roots() {
    // With exact coefficients the monic polynomial vanishes at each root.
    let roots = [2i64, -3, 7, 0];
    let poly = Polynomial::from_roots(&roots);
    for &r in roots.iter() {
        assert!(poly.evaluate(r) == 0);
    }
}

#[test]
fn test_empty_coeffs_rejected() {
    let poly = Polynomial::<i64>::new(vec![]);
    assert!(poly == Err(FractalError::InvalidArgument));
}

#[test]
fn test_evaluate_at_zero_is_constant_coeff() {
    let poly = Polynomial::new(vec![7i64, -3, 42]).unwrap();
    assert!(poly.evaluate(0) == 42);
    assert!(*poly.coeff_at_deg(0) == 42);
    let single = Polynomial::new(vec![-9i64]).unwrap();
    assert!(single.evaluate(0) == -9);
}

#[test]
fn test_derivative_of_constant_is_zero_poly() {
    let constant = Polynomial::new(vec![5i64]).unwrap();
    let der = constant.derivative();
    assert!(*der.coeffs() == vec![0i64]);
    assert!(der.degree() == 0);
}

#[test]
fn test_poly_sub_and_scale() {
    let poly1 = Polynomial::new(vec![3i64, 2, 1]).unwrap();
    let poly2 = Polynomial::new(vec![1i64, 1, 1]).unwrap();
    let diff = poly1.sub(&poly2);
    assert!(*diff.coeffs() == vec![2i64, 1, 0]);
    let scaled = poly1.scale(-2);
    assert!(*scaled.coeffs() == vec![-6i64, -4, -2]);
}

#[test]
fn test_map_coeffs_keeps_order() {
    let poly = Polynomial::new(vec![3i64, -2, 1]).unwrap();
    let doubled = poly.map_coeffs(|c: i64| c.wrapping_mul(2));
    assert!(*doubled.coeffs() == vec![6i64, -4, 2]);
}

#[test]
fn test_poly_eq_is_structural() {
    let padded = Polynomial::new(vec![0i64, 1, 2]).unwrap();
    let bare = Polynomial::new(vec![1i64, 2]).unwrap();
    assert!(padded != bare);
    assert!(padded == Polynomial::new(vec![0i64, 1, 2]).unwrap());
}
