use num_traits::float::FloatCore;
use rtriangulate::{sort_points, Point, Triangle, TriangulateError, TriangulationPoint};

/// Whether `point` lies inside, or on the edge of, the circumcircle of the
/// triangle `t0`, `t1`, `t2`.
fn in_circumcircle<T: FloatCore>(
    point: TriangulationPoint<T>,
    t0: TriangulationPoint<T>,
    t1: TriangulationPoint<T>,
    t2: TriangulationPoint<T>,
) -> bool {
    if (t0.y - t1.y).abs() < T::epsilon() && (t1.y - t2.y).abs() < T::epsilon() {
        return false;
    }
    let half = T::from(0.5).unwrap();
    let (circ_x, circ_y) = if (t1.y - t0.y).abs() < T::epsilon() {
        let mid = T::zero() - (t2.x - t1.x) / (t2.y - t1.y);
        let mid_x = (t1.x + t2.x) * half;
        let mid_y = (t1.y + t2.y) * half;
        let x = (t1.x + t0.x) * half;
        (x, mid * (x - mid_x) + mid_y)
    } else if (t2.y - t1.y).abs() < T::epsilon() {
        let mid = T::zero() - (t1.x - t0.x) / (t1.y - t0.y);
        let mid_x = (t0.x + t1.x) * half;
        let mid_y = (t0.y + t1.y) * half;
        let x = (t2.x + t1.x) * half;
        (x, mid * (x - mid_x) + mid_y)
    } else {
        let mid1 = T::zero() - (t1.x - t0.x) / (t1.y - t0.y);
        let mid2 = T::zero() - (t2.x - t1.x) / (t2.y - t1.y);
        let mid1_x = (t0.x + t1.x) * half;
        let mid1_y = (t0.y + t1.y) * half;
        let mid2_x = (t1.x + t2.x) * half;
        let mid2_y = (t1.y + t2.y) * half;
        let x = (mid1 * mid1_x - mid2 * mid2_x + mid2_y - mid1_y) / (mid1 - mid2);
        (x, mid1 * (x - mid1_x) + mid1_y)
    };
    let radius_sq = (t1.x - circ_x).powi(2) + (t1.y - circ_y).powi(2);
    let distance_sq = (point.x - circ_x).powi(2) + (point.y - circ_y).powi(2);
    distance_sq <= radius_sq
}

/// Three points around the bounding box of `points`.
fn supertriangle<T: FloatCore, P: Point<T>>(points: &[P]) -> [TriangulationPoint<T>; 3] {
    let two = T::from(2.0).unwrap();
    let half = T::from(0.5).unwrap();
    let mut min = TriangulationPoint::new(T::infinity(), T::infinity());
    let mut max = TriangulationPoint::new(T::neg_infinity(), T::neg_infinity());
    for p in points {
        min = TriangulationPoint::new(min.x.min(p.x()), min.y.min(p.y()));
        max = TriangulationPoint::new(max.x.max(p.x()), max.y.max(p.y()));
    }
    let delta_max = (max.x - min.x).max(max.y - min.y);
    let mid = TriangulationPoint::new((max.x + min.x) * half, (max.y + min.y) * half);
    [
        TriangulationPoint::new(mid.x - two * delta_max, mid.y - delta_max),
        TriangulationPoint::new(mid.x, mid.y + two * delta_max),
        TriangulationPoint::new(mid.x + two * delta_max, mid.y - delta_max),
    ]
}

fn triangulate<T: FloatCore, P: Point<T>>(points: &[P]) -> Result<Vec<Triangle>, TriangulateError> {
    let around = supertriangle(points);
    rtriangulate::triangulate(points, &around, in_circumcircle::<T>)
}

fn complex_points() -> [TriangulationPoint<f64>; 25] {
    [
        TriangulationPoint::new(11.0, 264.0),
        TriangulationPoint::new(65.0, 216.0),
        TriangulationPoint::new(104.0, 522.0),
        TriangulationPoint::new(168.0, 90.0),
        TriangulationPoint::new(181.0, 479.0),
        TriangulationPoint::new(245.0, 119.0),
        TriangulationPoint::new(267.0, 152.0),
        TriangulationPoint::new(282.0, 17.0),
        TriangulationPoint::new(285.0, 561.0),
        TriangulationPoint::new(329.0, 432.0),
        TriangulationPoint::new(331.0, 244.0),
        TriangulationPoint::new(348.0, 504.0),
        TriangulationPoint::new(448.0, 36.0),
        TriangulationPoint::new(450.0, 514.0),
        TriangulationPoint::new(601.0, 535.0),
        TriangulationPoint::new(623.0, 335.0),
        TriangulationPoint::new(627.0, 461.0),
        TriangulationPoint::new(667.0, 462.0),
        TriangulationPoint::new(688.0, 605.0),
        TriangulationPoint::new(742.0, 363.0),
        TriangulationPoint::new(829.0, 512.0),
        TriangulationPoint::new(836.0, 20.0),
        TriangulationPoint::new(839.0, 178.0),
        TriangulationPoint::new(876.0, 110.0),
        TriangulationPoint::new(895.0, 666.0),
    ]
}

#[test]
fn test_simple() {
    let points = [
        TriangulationPoint::new(10.0, 10.0),
        TriangulationPoint::new(15.0, 25.0),
        TriangulationPoint::new(25.0, 15.0),
    ];
    let tris: Vec<Triangle> = triangulate(&points).unwrap();

    assert_eq!(tris.len(), 1);
    assert_eq!(tris[..], [Triangle(0, 1, 2)][..]);
}

#[test]
fn test_four_triangles() {
    let points = [
        TriangulationPoint::new(10.0, 10.0),
        TriangulationPoint::new(15.0, 25.0),
        TriangulationPoint::new(25.0, 15.0),
        TriangulationPoint::new(30.0, 25.0),
        TriangulationPoint::new(40.0, 15.0),
    ];

    let tris: Vec<Triangle> = triangulate(&points).unwrap();
    assert_eq!(tris.len(), 4);

    let expected_tris = [
        Triangle(0, 1, 2),
        Triangle(2, 1, 3),
        Triangle(0, 2, 4),
        Triangle(2, 3, 4),
    ];
    assert_eq!(tris[..], expected_tris[..]);
}

#[test]
fn test_overlapping() {
    let points = vec![
        TriangulationPoint::new(10.0, 10.0),
        TriangulationPoint::new(25.0, 15.0),
        TriangulationPoint::new(25.0, 15.0),
    ];

    let tris: Vec<Triangle> = triangulate(&points).unwrap();

    assert_eq!(tris.len(), 1);
    assert_eq!(tris[..], [Triangle(0, 1, 2)][..]);
}

#[test]
fn test_complex() {
    let points = complex_points();

    let tris: Vec<Triangle> = triangulate(&points).unwrap();

    let expected_tris = [
        Triangle(0, 1, 3),
        Triangle(1, 0, 4),
        Triangle(0, 2, 4),
        Triangle(3, 1, 6),
        Triangle(5, 3, 6),
        Triangle(3, 5, 7),
        Triangle(5, 6, 7),
        Triangle(4, 2, 8),
        Triangle(4, 8, 9),
        Triangle(1, 4, 10),
        Triangle(6, 1, 10),
        Triangle(4, 9, 10),
        Triangle(9, 8, 11),
        Triangle(7, 6, 12),
        Triangle(6, 10, 12),
        Triangle(11, 8, 13),
        Triangle(9, 11, 13),
        Triangle(10, 9, 15),
        Triangle(9, 13, 15),
        Triangle(12, 10, 15),
        Triangle(13, 14, 16),
        Triangle(15, 13, 16),
        Triangle(16, 14, 17),
        Triangle(15, 16, 17),
        Triangle(13, 8, 18),
        Triangle(14, 13, 18),
        Triangle(17, 14, 18),
        Triangle(15, 17, 19),
        Triangle(17, 18, 20),
        Triangle(19, 17, 20),
        Triangle(7, 12, 21),
        Triangle(12, 15, 22),
        Triangle(21, 12, 22),
        Triangle(15, 19, 22),
        Triangle(19, 20, 22),
        Triangle(22, 20, 23),
        Triangle(21, 22, 23),
        Triangle(20, 18, 24),
        Triangle(23, 20, 24),
    ];

    assert_eq!(tris.len(), 39);
    assert_eq!(tris[..], expected_tris[..]);
}

#[test]
fn test_coincident_points() {
    let points = [
        TriangulationPoint::new(10.0, 10.0),
        TriangulationPoint::new(10.0, 10.0),
        TriangulationPoint::new(11.0, 10.0),
        TriangulationPoint::new(11.0, 10.0),
    ];

    let tris: Vec<Triangle> = triangulate(&points).unwrap();
    assert_eq!(tris.len(), 0);
}

#[test]
#[should_panic]
fn test_less_than_three_points() {
    let points = [TriangulationPoint::new(10.0, 10.0)];
    triangulate(&points).unwrap();
}

#[test]
fn not_enough_points_is_an_error_not_a_panic() {
    let none: [TriangulationPoint<f64>; 0] = [];
    assert!(matches!(triangulate(&none), Err(TriangulateError::NotEnoughPoints)));
    let one = [TriangulationPoint::new(10.0, 10.0)];
    assert!(matches!(triangulate(&one), Err(TriangulateError::NotEnoughPoints)));
    let two = [TriangulationPoint::new(10.0, 10.0), TriangulationPoint::new(15.0, 25.0)];
    assert!(matches!(triangulate(&two), Err(TriangulateError::NotEnoughPoints)));
}

#[test]
fn too_few_points_ask_no_question() {
    let around = [
        TriangulationPoint::new(0.0, 0.0),
        TriangulationPoint::new(0.0, 0.0),
        TriangulationPoint::new(0.0, 0.0),
    ];
    let two = [TriangulationPoint::new(10.0, 10.0), TriangulationPoint::new(15.0, 25.0)];
    let asked = std::cell::Cell::new(0usize);
    let result = rtriangulate::triangulate(&two, &around, |_, _, _, _| {
        asked.set(asked.get() + 1);
        true
    });
    assert!(matches!(result, Err(TriangulateError::NotEnoughPoints)));
    assert_eq!(asked.get(), 0);
}

#[test]
fn single_precision_gives_the_same_triangles() {
    let points: [TriangulationPoint<f32>; 5] = [
        TriangulationPoint::new(10.0, 10.0),
        TriangulationPoint::new(15.0, 25.0),
        TriangulationPoint::new(25.0, 15.0),
        TriangulationPoint::new(30.0, 25.0),
        TriangulationPoint::new(40.0, 15.0),
    ];
    let tris = triangulate(&points).unwrap();
    let expected_tris = [
        Triangle(0, 1, 2),
        Triangle(2, 1, 3),
        Triangle(0, 2, 4),
        Triangle(2, 3, 4),
    ];
    assert_eq!(tris[..], expected_tris[..]);
}

#[test]
fn corners_are_distinct_input_points() {
    let points = complex_points();
    let tris = triangulate(&points).unwrap();
    assert!(!tris.is_empty());
    for t in &tris {
        assert!(t.0 < points.len() && t.1 < points.len() && t.2 < points.len());
        assert!(t.0 != t.1 && t.1 != t.2 && t.2 != t.0);
    }
}

#[test]
fn corners_are_distinct_whatever_the_answers() {
    let points = complex_points();
    let around = supertriangle(&points);
    let calls = std::cell::Cell::new(0u32);
    let tris = rtriangulate::triangulate(&points, &around, |_, _, _, _| {
        calls.set(calls.get().wrapping_mul(1103515245).wrapping_add(12345));
        (calls.get() >> 16) % 3 == 0
    })
    .unwrap();
    for t in &tris {
        assert!(t.0 < points.len() && t.1 < points.len() && t.2 < points.len());
        assert!(t.0 != t.1 && t.1 != t.2 && t.2 != t.0);
    }
}

#[test]
fn triangulating_twice_gives_the_same_triangles() {
    let points = complex_points();
    let first = triangulate(&points).unwrap();
    let second = triangulate(&points).unwrap();
    assert_eq!(first, second);
}

#[test]
fn no_later_point_lies_within_a_circumcircle() {
    let points = complex_points();
    let tris = triangulate(&points).unwrap();
    for t in &tris {
        for p in (t.2 + 1)..points.len() {
            assert!(!in_circumcircle(points[p], points[t.0], points[t.1], points[t.2]));
        }
    }
}

#[test]
fn no_point_lies_strictly_within_a_circumcircle() {
    let points = [
        TriangulationPoint::new(10.0, 10.0),
        TriangulationPoint::new(15.0, 25.0),
        TriangulationPoint::new(25.0, 15.0),
        TriangulationPoint::new(30.0, 25.0),
        TriangulationPoint::new(40.0, 15.0),
    ];
    let tris = triangulate(&points).unwrap();
    for t in &tris {
        for p in 0..points.len() {
            if p != t.0 && p != t.1 && p != t.2 {
                assert!(!in_circumcircle(points[p], points[t.0], points[t.1], points[t.2]));
            }
        }
    }
}

#[test]
fn triangle_areas_add_up_to_the_hull() {
    // The hull of these five points has the corners 0, 1, 3, 4.
    let points = [
        TriangulationPoint::new(10.0, 10.0),
        TriangulationPoint::new(15.0, 25.0),
        TriangulationPoint::new(25.0, 15.0),
        TriangulationPoint::new(30.0, 25.0),
        TriangulationPoint::new(40.0, 15.0),
    ];
    let area = |a: TriangulationPoint<f64>, b: TriangulationPoint<f64>, c: TriangulationPoint<f64>| {
        ((b.x - a.x) * (c.y - a.y) - (c.x - a.x) * (b.y - a.y)).abs() * 0.5
    };
    let tris = triangulate(&points).unwrap();
    let total: f64 = tris.iter().map(|t| area(points[t.0], points[t.1], points[t.2])).sum();
    let hull = area(points[0], points[1], points[3]) + area(points[0], points[3], points[4]);
    assert!((total - hull).abs() < 1e-9);
    assert!((total - 287.5).abs() < 1e-9);
}

#[test]
fn a_predicate_that_never_holds_leaves_nothing() {
    let points = complex_points();
    let around = supertriangle(&points);
    let tris = rtriangulate::triangulate(&points, &around, |_, _, _, _| false).unwrap();
    assert_eq!(tris.len(), 0);
}

#[test]
fn a_predicate_that_always_holds_leaves_nothing() {
    // Each point replaces the whole mesh by a fan over its boundary, which is
    // the supertriangle: every triangle keeps two of its corners.
    let points = [
        TriangulationPoint::new(10.0, 10.0),
        TriangulationPoint::new(15.0, 25.0),
        TriangulationPoint::new(25.0, 15.0),
    ];
    let around = supertriangle(&points);
    let tris = rtriangulate::triangulate(&points, &around, |_, _, _, _| true).unwrap();
    assert_eq!(tris.len(), 0);
}

#[test]
fn the_predicate_is_asked_about_the_points_handed_in() {
    let points = [
        TriangulationPoint::new(10.0, 10.0),
        TriangulationPoint::new(15.0, 25.0),
        TriangulationPoint::new(25.0, 15.0),
    ];
    let around = [
        TriangulationPoint::new(-100.0, -100.0),
        TriangulationPoint::new(17.5, 200.0),
        TriangulationPoint::new(100.0, -100.0),
    ];
    let asked = std::cell::RefCell::new(Vec::new());
    let tris = rtriangulate::triangulate(&points, &around, |p, t0, t1, t2| {
        asked.borrow_mut().push((p, t0, t1, t2));
        in_circumcircle(p, t0, t1, t2)
    })
    .unwrap();
    assert_eq!(tris, [Triangle(0, 1, 2)]);
    let asked = asked.into_inner();
    // One triangle when the first point comes, three when the second, five when the third.
    assert_eq!(asked.len(), 9);
    assert_eq!(asked[0], (points[0], around[0], around[1], around[2]));
    assert_eq!(asked[1], (points[1], around[0], around[1], points[0]));
    assert_eq!(asked[2], (points[1], around[1], around[2], points[0]));
    assert_eq!(asked[3], (points[1], around[2], around[0], points[0]));
}

#[test]
fn sorted_input_comes_from_the_ordering_helper() {
    let mut points = [
        TriangulationPoint::new(25.0, 15.0),
        TriangulationPoint::new(40.0, 15.0),
        TriangulationPoint::new(10.0, 10.0),
        TriangulationPoint::new(30.0, 25.0),
        TriangulationPoint::new(15.0, 25.0),
    ];
    points.sort_by(sort_points);
    let tris = triangulate(&points).unwrap();
    let expected_tris = [
        Triangle(0, 1, 2),
        Triangle(2, 1, 3),
        Triangle(0, 2, 4),
        Triangle(2, 3, 4),
    ];
    assert_eq!(tris[..], expected_tris[..]);
}
