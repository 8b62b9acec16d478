use fractal_calculator::complex::IntComplex;
use fractal_calculator::ffi::FFIVec;
use fractal_calculator::mandelbrot::{
    calculate_mandelbrot, calculate_mandelbrot_chunked, calculate_mandelbrot_colored,
    mandelbrot_point,
};
use fractal_calculator::newton::{calculate_newton, newton_point, root_color};
use fractal_calculator::polynomial::Polynomial;
use fractal_calculator::structs::{ColorSettings, Rgb8, Viewport};
use fractal_calculator::utils::join;
use fractal_calculator::FractalError;

fn c(re: i64, im: i64) -> IntComplex {
    IntComplex { re, im }
}

#[test]
fn test_origin_is_interior() {
    // c = 0 never escapes, whatever the iteration bound.
    for max_iters in [1u32, 2, 10, 100] {
        let (converged, iter) = mandelbrot_point::<i64, IntComplex>(0, 0, max_iters, 4);
        assert!(converged);
        assert!(iter == max_iters);
    }
}

#[test]
fn test_far_point_escapes_at_zero() {
    // c = 100 escapes at iteration 0 whenever the horizon is at most 99.
    let (converged, iter) = mandelbrot_point::<i64, IntComplex>(100, 0, 10, 99 * 99);
    assert!(!converged);
    assert!(iter == 0);
}

#[test]
fn test_escape_iteration_count() {
    // c = 2: iterates 2, 6, 38; squared magnitudes 4, 36, 1444 against
    // a squared horizon of 100, so the test first fires at step 2.
    let (converged, iter) = mandelbrot_point::<i64, IntComplex>(2, 0, 10, 100);
    assert!(!converged);
    assert!(iter == 2);
}

#[test]
fn test_gray_render_shape_and_shade() {
    // A single pixel at c = 2 escapes at step 2; with 5 bands the byte is
    // (2 % 5) * (255 / 5) = 102.
    let grid = calculate_mandelbrot::<i64, IntComplex>(2, 3, 0, 1, 1, 1, 10, 10, 5).unwrap();
    assert!(grid == vec![102u8]);
    // An interior pixel stays black.
    let grid0 = calculate_mandelbrot::<i64, IntComplex>(0, 1, 0, 1, 1, 1, 10, 10, 5).unwrap();
    assert!(grid0 == vec![0u8]);
}

#[test]
fn test_render_grid_sizes() {
    let gray = calculate_mandelbrot::<i64, IntComplex>(-2, 2, -2, 2, 4, 3, 5, 2, 7).unwrap();
    assert!(gray.len() == 3 * 4);
    let colored =
        calculate_mandelbrot_colored::<i64, IntComplex>(-2, 2, -2, 2, 4, 3, 5, 2, 0, 1, 1).unwrap();
    assert!(colored.len() == 3 * 4 * 3);
    let vp = Viewport::new(-2, 2, -2, 2, 4, 3);
    let cs = ColorSettings::new(0, 300, 1);
    let newton = calculate_newton::<i64, IntComplex>(vp, cs, &[c(1, 0), c(-1, 0)], 5, 1).unwrap();
    assert!(newton.len() == 3 * 4 * 3);
}

#[test]
fn test_colored_render_exact_bytes() {
    // The single pixel at c = 2 escapes at step 2 of 10; the integer
    // scalar truncates 2/10 to 0, so the swept hue is 0: pure red.
    let grid =
        calculate_mandelbrot_colored::<i64, IntComplex>(2, 3, 0, 1, 1, 1, 10, 10, 0, 300, 1)
            .unwrap();
    assert!(grid == vec![255u8, 0, 0]);
}

#[test]
fn test_newton_render_exact_bytes() {
    // A single pixel placed exactly on the only root converges to index
    // 0; its colour value is (0+1)/1 = 1, hue 300: magenta.
    let vp = Viewport::new(1i64, 2, 0, 1, 1, 1);
    let cs = ColorSettings::new(0i64, 300, 1);
    let grid = calculate_newton::<i64, IntComplex>(vp, cs, &[c(1, 0)], 5, 1).unwrap();
    assert!(grid == vec![255u8, 0, 255]);
}

#[test]
fn test_render_validation_errors() {
    // A zero band count, an out-of-range saturation, empty dimensions and
    // an empty root set are all rejected before any per-pixel work.
    assert!(
        calculate_mandelbrot::<i64, IntComplex>(-2, 2, -2, 2, 4, 3, 5, 2, 0)
            == Err(FractalError::InvalidArgument)
    );
    assert!(
        calculate_mandelbrot::<i64, IntComplex>(-2, 2, -2, 2, 0, 3, 5, 2, 7)
            == Err(FractalError::InvalidArgument)
    );
    assert!(
        calculate_mandelbrot_colored::<i64, IntComplex>(-2, 2, -2, 2, 4, 3, 5, 2, 0, 300, 2)
            == Err(FractalError::InvalidArgument)
    );
    assert!(
        calculate_mandelbrot_colored::<i64, IntComplex>(-2, 2, -2, 2, 4, 0, 5, 2, 0, 300, 1)
            == Err(FractalError::InvalidArgument)
    );
    let vp = Viewport::new(-2, 2, -2, 2, 4, 3);
    let cs = ColorSettings::new(0, 300, 1);
    let no_roots: &[IntComplex] = &[];
    assert!(calculate_newton::<i64, IntComplex>(vp, cs, no_roots, 5, 1) == Err(FractalError::InvalidArgument));
    let bad_sat = ColorSettings::new(0, 300, -1);
    assert!(
        calculate_newton::<i64, IntComplex>(vp, bad_sat, &[c(1, 0)], 5, 1)
            == Err(FractalError::InvalidArgument)
    );
}

#[test]
fn test_partitioning_does_not_change_output() {
    // The same render, partitioned into row chunks of every size, is
    // byte-identical.
    let full = calculate_mandelbrot::<i64, IntComplex>(-2, 2, -2, 2, 6, 5, 8, 2, 7).unwrap();
    for chunk in [1u32, 2, 3, 4, 5, 100] {
        let chunked =
            calculate_mandelbrot_chunked::<i64, IntComplex>(-2, 2, -2, 2, 6, 5, 8, 2, 7, chunk)
                .unwrap();
        assert!(chunked == full);
    }
    let again = calculate_mandelbrot::<i64, IntComplex>(-2, 2, -2, 2, 6, 5, 8, 2, 7).unwrap();
    assert!(again == full);
}

#[test]
fn test_newton_start_at_root() {
    // Started exactly at a root, the method converges at iteration 0 to
    // that root's index, whichever root it is.
    let roots = [c(1, 0), c(-1, 0), c(0, 3)];
    let poly = Polynomial::from_roots(&roots);
    let derivative = poly.derivative();
    for (i, &z) in roots.iter().enumerate() {
        let got = newton_point::<i64, IntComplex>(&poly, &derivative, &roots, z, 5, 1);
        assert!(got == Some(i));
    }
}

#[test]
fn test_newton_tie_prefers_earliest_root() {
    // A start equidistant from two roots is classified by the earlier one.
    let roots = [c(2, 0), c(-2, 0)];
    let poly = Polynomial::from_roots(&roots);
    let derivative = poly.derivative();
    // From the midpoint both squared distances are 4; with a generous
    // horizon the first root wins immediately.
    let got = newton_point::<i64, IntComplex>(&poly, &derivative, &roots, c(0, 0), 5, 100);
    assert!(got == Some(0));
}

#[test]
fn test_newton_zero_iterations_is_nonconvergent() {
    let roots = [c(1, 0)];
    let poly = Polynomial::from_roots(&roots);
    let derivative = poly.derivative();
    let got = newton_point::<i64, IntComplex>(&poly, &derivative, &roots, c(1, 0), 0, 1);
    assert!(got == None);
}

#[test]
fn test_color_from_zero_is_red() {
    // Hue 0 at full saturation and value is pure red.
    let cs = ColorSettings::new(0i64, 300, 1);
    let rgb = cs.color_from(0);
    assert!(rgb == Rgb8 { red: 255, green: 0, blue: 0 });
}

#[test]
fn test_hue_wraps_into_range() {
    // The hue modulo wraps negative angles into [0, 360).
    let cs = ColorSettings::new(-90i64, 0, 1);
    assert!(cs.hue_in_degs(0) == 270);
    assert!(cs.hue_in_degs(1) == 0);
    let sweep = ColorSettings::new(0i64, 720, 1);
    assert!(sweep.hue_in_degs(1) == 0);
}

#[test]
fn test_root_color_spreads_hues() {
    // With an integer scalar the fractions (i+1)/n truncate, so only the
    // last root reaches the full sweep; it must be pure red at hue 0.
    let roots = [c(1, 0), c(-1, 0)];
    let cs = ColorSettings::new(0i64, 360, 1);
    let last = root_color::<i64, IntComplex>(&roots, 1, cs);
    assert!(last == Rgb8 { red: 255, green: 0, blue: 0 });
}

#[test]
fn test_viewport_transform() {
    let vp = Viewport::new(-4i64, 4, -2, 2, 4, 4);
    // Cell width 2, cell height 1.
    assert!(vp.transform(0, 0) == (-4, -2));
    assert!(vp.transform(3, 3) == (2, 1));
}

#[test]
fn test_ffi_vec_records_length() {
    let buffer = FFIVec::new(vec![1u8, 2, 3]);
    assert!(buffer.len == 3);
    assert!(buffer.cap >= 3);
    assert!(buffer.data == vec![1u8, 2, 3]);
}

#[test]
fn test_join_strings() {
    let items = vec![String::from("1x^2"), String::from("2x"), String::from("3")];
    assert!(join(&items, " + ") == Some(String::from("1x^2 + 2x + 3")));
    let one = vec![String::from("7")];
    assert!(join(&one, " + ") == Some(String::from("7")));
    let none: Vec<String> = vec![];
    assert!(join(&none, " + ") == None);
}
