//! Polygon containment and projection on concrete shapes.

use microtraffic::polygon::Polygon;
use microtraffic::v2::vec2;

#[test]
fn contains_inside_square() {
    let sq = Polygon::rect(10_000, 10_000);
    assert!(sq.contains(vec2(5000, 5000)));
    assert!(sq.contains(vec2(100, 100)));
    assert!(sq.contains(vec2(9900, 9900)));
}

#[test]
fn contains_outside_square() {
    let sq = Polygon::rect(10_000, 10_000);
    assert!(!sq.contains(vec2(15_000, 5000)));
    assert!(!sq.contains(vec2(-1000, 5000)));
    assert!(!sq.contains(vec2(5000, 20_000)));
    assert!(!sq.contains(vec2(5000, -20_000)));
}

#[test]
fn contains_convex_polygon_shrunk_points() {
    // A convex pentagon; points nudged toward the centroid from each
    // vertex stay inside, points far beyond the bounding circle stay out.
    let pts = vec![
        vec2(0, 0),
        vec2(8000, -2000),
        vec2(12_000, 4000),
        vec2(6000, 9000),
        vec2(-2000, 5000),
    ];
    let poly = Polygon(pts.clone());
    let c = poly.barycenter();
    for p in &pts {
        // Nine tenths of the way out from the centroid: strictly inside.
        let inner = vec2(c.x + (p.x - c.x) * 9 / 10, c.y + (p.y - c.y) * 9 / 10);
        assert!(poly.contains(inner), "inner {inner:?}");
        // Twice the radius out: strictly outside.
        let outer = vec2(c.x + (p.x - c.x) * 3, c.y + (p.y - c.y) * 3);
        assert!(!poly.contains(outer), "outer {outer:?}");
    }
    assert!(!poly.contains(vec2(100_000, 100_000)));
}

#[test]
fn project_onto_square() {
    let sq = Polygon::rect(10_000, 10_000);
    // Below the bottom edge: projects straight up onto it, entry 1.
    let (p, i) = sq.project_segment(vec2(5000, -3000));
    assert_eq!(p, vec2(5000, 0));
    assert_eq!(i, 1);
    assert_eq!(sq.project(vec2(5000, -3000)), vec2(5000, 0));
    // Right of the right edge.
    let (p, i) = sq.project_segment(vec2(14_000, 5000));
    assert_eq!(p, vec2(10_000, 5000));
    assert_eq!(i, 2);
    // Interior points project to the nearest edge.
    let (p, _) = sq.project_segment(vec2(5000, 400));
    assert_eq!(p, vec2(5000, 0));
}

#[test]
fn project_degenerate_polygons() {
    let single = Polygon(vec![vec2(3000, 4000)]);
    assert_eq!(single.project_segment(vec2(0, 0)), (vec2(3000, 4000), 0));
    let pair = Polygon(vec![vec2(0, 0), vec2(10_000, 0)]);
    let (p, i) = pair.project_segment(vec2(4000, 2000));
    assert_eq!(p, vec2(4000, 0));
    assert_eq!(i, 1);
    // Beyond the ends, the projection clamps to the endpoint.
    let (p, _) = pair.project_segment(vec2(-5000, 2000));
    assert_eq!(p, vec2(0, 0));
}

#[test]
fn project_tie_takes_lowest_entry() {
    // Equidistant from the bottom and top edges of a thin box: the
    // earliest boundary entry wins.
    let sq = Polygon::rect(10_000, 2000);
    let (_, i) = sq.project_segment(vec2(5000, 1000));
    assert_eq!(i, 1);
}

#[test]
fn translate_moves_vertices() {
    let mut sq = Polygon::rect(10_000, 10_000);
    sq.translate(vec2(1000, -2000));
    assert_eq!(sq.get(0), vec2(1000, -2000));
    assert_eq!(sq.get(2), vec2(11_000, 8000));
    assert!(sq.contains(vec2(2000, -1000)));
    assert!(!sq.contains(vec2(500, 500)));
}

#[test]
fn barycenter_and_rects() {
    let sq = Polygon::rect(10_000, 6000);
    assert_eq!(sq.barycenter(), vec2(5000, 3000));
    let c = Polygon::centered_rect(vec2(4000, 4000), 2000, 2000);
    assert_eq!(c.get(0), vec2(3000, 3000));
    assert_eq!(c.get(2), vec2(5000, 5000));
    assert!(c.contains(vec2(4000, 4000)));
    assert_eq!(c.len(), 4);
    assert!(!c.is_empty());
    assert_eq!(c.first(), vec2(3000, 3000));
    assert_eq!(c.last(), vec2(3000, 5000));
}

#[test]
fn rotate_quarter_turn() {
    let mut sq = Polygon::rect(10_000, 4000);
    sq.rotate(vec2(0, 1000));
    assert_eq!(sq.get(0), vec2(0, 0));
    assert_eq!(sq.get(1), vec2(0, 10_000));
    assert_eq!(sq.get(2), vec2(-4000, 10_000));
}

#[test]
fn segment_and_neighbours_wrap() {
    let sq = Polygon::rect(10_000, 4000);
    assert_eq!(sq.segment(0), (vec2(0, 0), vec2(10_000, 0)));
    assert_eq!(sq.segment(3), (vec2(0, 4000), vec2(0, 0)));
    assert_eq!(sq.get_prev(0), vec2(0, 4000));
    assert_eq!(sq.get_next(3), vec2(0, 0));
    assert_eq!(sq.get_prev(2), vec2(10_000, 0));
}

#[test]
fn simplify_drops_collinear_midpoint() {
    let mut poly = Polygon(vec![
        vec2(0, 0),
        vec2(5000, 0),
        vec2(10_000, 0),
        vec2(10_000, 8000),
        vec2(0, 8000),
    ]);
    poly.simplify();
    assert_eq!(poly.len(), 4);
    assert_eq!(poly.get(0), vec2(0, 0));
    assert_eq!(poly.get(1), vec2(10_000, 0));
    assert_eq!(poly.get(2), vec2(10_000, 8000));
    assert_eq!(poly.get(3), vec2(0, 8000));
}

#[test]
fn simplify_drops_duplicate_vertex() {
    // All judgments are made against the original ring in one pass, so
    // the duplicate goes but its predecessor stays this round.
    let mut poly = Polygon(vec![
        vec2(0, 0),
        vec2(5000, 0),
        vec2(5000, 0),
        vec2(10_000, 0),
        vec2(10_000, 8000),
        vec2(0, 8000),
    ]);
    poly.simplify();
    assert_eq!(poly.len(), 5);
    assert_eq!(poly.get(0), vec2(0, 0));
    assert_eq!(poly.get(1), vec2(5000, 0));
    assert_eq!(poly.get(2), vec2(10_000, 0));
}

#[test]
fn bcircle_covers_all_vertices() {
    let pts = vec![
        vec2(0, 0),
        vec2(8000, -2000),
        vec2(12_000, 4000),
        vec2(6000, 9000),
        vec2(-2000, 5000),
    ];
    let poly = Polygon(pts.clone());
    let c = poly.bcircle();
    assert_eq!(c.center, poly.barycenter());
    for p in &pts {
        // Every vertex is within the radius plus the rounding slack.
        assert!(c.center.distance(*p) <= c.radius + 1);
    }
    // A point far outside the bounding circle is never contained.
    let far = vec2(c.center.x + 4 * c.radius, c.center.y);
    assert!(!poly.contains(far));
    let far = vec2(c.center.x, c.center.y - 4 * c.radius);
    assert!(!poly.contains(far));
}
