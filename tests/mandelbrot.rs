use mandelbrot_explorer::coord::Coord;
use mandelbrot_explorer::mandelbrot::find_center::{
    check_resolution, choose_quadrant, coarse_resolution, next_action, quadrant_complexities,
    retraction, select_quadrant, ZoomAction,
};
use mandelbrot_explorer::mandelbrot::solve::{kernel, solve_grid};
use mandelbrot_explorer::mandelbrot::{Point, SearchError, MAX_ITER};
use mandelbrot_explorer::output::{encode_image, iteration_range};

fn escape_time(c: Coord<f64>) -> Point {
    kernel(Coord { x: 0.0f64, y: 0.0f64 }, move |z: Coord<f64>| {
        let x: f64 = c.x + z.x * z.x - z.y * z.y;
        let y: f64 = c.y + 2. * z.x * z.y;
        (Coord { x, y }, 4. < x.powi(2) + y.powi(2))
    })
}

fn solve_at(resols: &Coord<usize>, center: Coord<f64>, delta: f64) -> Vec<Point> {
    let corner: Coord<f64> = Coord {
        x: center.x - 0.5 * resols.x as f64 * delta,
        y: center.y - 0.5 * resols.y as f64 * delta,
    };
    solve_grid(resols, move |i: usize, j: usize| {
        escape_time(Coord { x: corner.x + i as f64 * delta, y: corner.y + j as f64 * delta })
    })
}

fn grid(w: usize, h: usize, diverged: &[(usize, usize)]) -> Vec<Point> {
    let mut points: Vec<Point> = Vec::new();
    for j in 0..h {
        for i in 0..w {
            let d: bool = diverged.contains(&(i, j));
            points.push(Point { is_diverged: d, iter: if d { 1 } else { MAX_ITER } });
        }
    }
    points
}

#[test]
fn solve_test0() {
    let point: Point = escape_time(Coord { x: 2., y: 0. });
    assert_eq!(true, point.is_diverged);
    assert_eq!(2, point.iter);
}

#[test]
fn solve_test1() {
    let point: Point = escape_time(Coord { x: 0., y: 0. });
    assert_eq!(false, point.is_diverged);
    assert_eq!(MAX_ITER, point.iter);
}

#[test]
fn solve_test2() {
    let point: Point = escape_time(Coord { x: -2., y: 0. });
    assert_eq!(false, point.is_diverged);
    assert_eq!(MAX_ITER, point.iter);
}

#[test]
fn beyond_the_cusp_diverges() {
    for x in [0.3f64, 0.5, 1.0, 3.0] {
        let point: Point = escape_time(Coord { x, y: 0. });
        assert!(point.is_diverged);
        assert!(1 <= point.iter && point.iter <= MAX_ITER);
    }
    assert_eq!(1, escape_time(Coord { x: 3., y: 0. }).iter);
}

#[test]
fn solving_twice_gives_identical_results() {
    let resols: Coord<usize> = Coord { x: 40, y: 25 };
    let center: Coord<f64> = Coord { x: -0.5, y: 0.1 };
    let a: Vec<Point> = solve_at(&resols, center, 0.05);
    let b: Vec<Point> = solve_at(&resols, center, 0.05);
    assert_eq!(a, b);
}

#[test]
fn grid_is_row_major() {
    let resols: Coord<usize> = Coord { x: 3, y: 2 };
    let points: Vec<Point> =
        solve_grid(&resols, |i: usize, j: usize| Point { is_diverged: true, iter: (10 * j + i) as u64 });
    let iters: Vec<u64> = points.iter().map(|p| p.iter).collect();
    assert_eq!(vec![0, 1, 2, 10, 11, 12], iters);
}

#[test]
fn full_resolution_solve_stays_in_range() {
    let resols: Coord<usize> = Coord { x: 320, y: 200 };
    let points: Vec<Point> = solve_at(&resols, Coord { x: -0.7436, y: 0.1318 }, 5.0e-7);
    assert_eq!(64000, points.len());
    for p in points.iter() {
        assert!(1 <= p.iter && p.iter <= MAX_ITER);
        if !p.is_diverged {
            assert_eq!(MAX_ITER, p.iter);
        }
    }
}

#[test]
fn tie_goes_to_lower_quadrant() {
    let resols: Coord<usize> = Coord { x: 8, y: 8 };
    let points: Vec<Point> = grid(8, 8, &[(5, 2), (5, 5)]);
    assert_eq!([0, 8, 0, 8], quadrant_complexities(&resols, &points));
    assert_eq!(Ok((1, 8)), choose_quadrant(&resols, &points));
}

#[test]
fn single_point_scores_its_neighbourhood() {
    let resols: Coord<usize> = Coord { x: 8, y: 8 };
    let points: Vec<Point> = grid(8, 8, &[(2, 2)]);
    assert_eq!([8, 0, 0, 0], quadrant_complexities(&resols, &points));
    // a neighbour on the far side of the midpoint counts for its own quadrant
    let points: Vec<Point> = grid(8, 8, &[(3, 2)]);
    assert_eq!([7, 1, 0, 0], quadrant_complexities(&resols, &points));
}

#[test]
fn edge_pixels_are_not_scored() {
    let resols: Coord<usize> = Coord { x: 8, y: 8 };
    let corner: Vec<Point> = grid(8, 8, &[(0, 0)]);
    assert_eq!([0, 0, 0, 0], quadrant_complexities(&resols, &corner));
    assert_eq!(Err(SearchError::NoStructureFound), choose_quadrant(&resols, &corner));
    let side: Vec<Point> = grid(8, 8, &[(0, 3)]);
    assert_eq!([1, 0, 0, 0], quadrant_complexities(&resols, &side));
    let narrow: Vec<Point> = grid(2, 5, &[(0, 1), (1, 3)]);
    assert_eq!([0, 0, 0, 0], quadrant_complexities(&Coord { x: 2, y: 5 }, &narrow));
}

#[test]
fn uniform_grid_has_no_structure() {
    let resols: Coord<usize> = Coord { x: 6, y: 4 };
    let inside: Vec<Point> = grid(6, 4, &[]);
    assert_eq!(Err(SearchError::NoStructureFound), choose_quadrant(&resols, &inside));
    let empty: Vec<Point> = Vec::new();
    assert_eq!(Err(SearchError::NoStructureFound), choose_quadrant(&Coord { x: 0, y: 0 }, &empty));
}

#[test]
fn selection_rule() {
    assert_eq!(None, select_quadrant(&[0, 0, 0, 0]));
    assert_eq!(Some(1), select_quadrant(&[3, 5, 5, 1]));
    assert_eq!(Some(3), select_quadrant(&[0, 0, 0, 2]));
    assert_eq!(Some(0), select_quadrant(&[9, 9, 9, 9]));
    assert_eq!(Some(2), select_quadrant(&[1, 2, 7, 6]));
}

#[test]
fn retraction_pulls_the_far_bounds() {
    let r0 = retraction(0);
    assert_eq!((Coord { x: false, y: false }, Coord { x: true, y: true }), (r0.lower, r0.upper));
    let r1 = retraction(1);
    assert_eq!((Coord { x: true, y: false }, Coord { x: false, y: true }), (r1.lower, r1.upper));
    let r2 = retraction(2);
    assert_eq!((Coord { x: false, y: true }, Coord { x: true, y: false }), (r2.lower, r2.upper));
    let r3 = retraction(3);
    assert_eq!((Coord { x: true, y: true }, Coord { x: false, y: false }), (r3.lower, r3.upper));
}

#[test]
fn zoom_decisions() {
    let resols: Coord<usize> = Coord { x: 8, y: 8 };
    let flat: Vec<Point> = grid(8, 8, &[]);
    assert_eq!(Ok(ZoomAction::Finish), next_action(&resols, &flat, true));
    assert_eq!(Err(SearchError::NoStructureFound), next_action(&resols, &flat, false));
    let points: Vec<Point> = grid(8, 8, &[(5, 5)]);
    assert_eq!(Ok(ZoomAction::Zoom { quadrant: 3, complexity: 8 }), next_action(&resols, &points, false));
}

#[test]
fn coarse_grid_and_configuration() {
    let coarse: Coord<usize> = coarse_resolution(&Coord { x: 320, y: 200 });
    assert_eq!(Coord { x: 80, y: 50 }, coarse);
    assert_eq!(Coord { x: 0, y: 1 }, coarse_resolution(&Coord { x: 3, y: 7 }));
    assert_eq!(Ok(()), check_resolution(&Coord { x: 1280, y: 800 }));
    assert_eq!(Err(SearchError::InvalidConfiguration), check_resolution(&Coord { x: 0, y: 800 }));
    assert_eq!(Err(SearchError::InvalidConfiguration), check_resolution(&Coord { x: 4, y: 0 }));
}

#[test]
fn iteration_extrema() {
    let points: Vec<Point> = vec![
        Point { is_diverged: true, iter: 7 },
        Point { is_diverged: false, iter: MAX_ITER },
        Point { is_diverged: true, iter: 2 },
    ];
    assert_eq!(Some((2, MAX_ITER)), iteration_range(&points));
    assert_eq!(None, iteration_range(&Vec::new()));
}

#[test]
fn image_header_and_samples() {
    let pixels: Vec<u8> = vec![1, 2, 3, 4, 5, 6];
    let bytes: Vec<u8> = encode_image(&Coord { x: 2, y: 1 }, &pixels);
    let mut expected: Vec<u8> = b"P6\n2 1\n255\n".to_vec();
    expected.extend_from_slice(&pixels);
    assert_eq!(expected, bytes);
    let big: Vec<u8> = encode_image(&Coord { x: 320, y: 200 }, &Vec::new());
    assert_eq!(b"P6\n320 200\n255\n".to_vec(), big);
    let zero: Vec<u8> = encode_image(&Coord { x: 0, y: 10 }, &Vec::new());
    assert_eq!(b"P6\n0 10\n255\n".to_vec(), zero);
}
