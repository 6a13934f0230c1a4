use dualslint::geometry::{BorderRadius, Point, Rect, Size, Vector};
use dualslint::scalar::Scalar;
use dualslint::scene::{color_to_u8_array, Color, ControlCoord};
use i_slint_core::graphics::euclid;

fn sc(v: f32) -> Scalar {
    Scalar { bits: v.to_bits() }
}

fn pt(x: f32, y: f32) -> Point {
    Point { x: sc(x), y: sc(y) }
}

fn rect(x: f32, y: f32, w: f32, h: f32) -> Rect {
    Rect { origin: pt(x, y), size: Size { width: sc(w), height: sc(h) } }
}

#[test]
fn left_and_top_edges_belong_to_a_rectangle() {
    let r = rect(10.0, 20.0, 30.0, 40.0);
    assert!(r.contains(pt(10.0, 20.0)));
    assert!(r.contains(pt(39.5, 59.5)));
    assert!(!r.contains(pt(40.0, 30.0)));
    assert!(!r.contains(pt(20.0, 60.0)));
    assert!(!r.contains(pt(9.9, 30.0)));
    assert!(!r.contains(pt(f32::NAN, 30.0)));
}

#[test]
fn intersection_is_what_both_cover() {
    let a = rect(0.0, 0.0, 100.0, 50.0);
    assert_eq!(a.intersection(rect(60.0, 10.0, 100.0, 10.0)), Some(rect(60.0, 10.0, 40.0, 10.0)));
    assert_eq!(a.intersection(rect(100.0, 0.0, 10.0, 10.0)), None);
    assert!(a.intersects(rect(99.0, 49.0, 10.0, 10.0)));
    assert!(!a.intersects(rect(100.0, 0.0, 10.0, 10.0)));
}

#[test]
fn nothing_has_nothing_in_common() {
    let nothing = Rect::nothing();
    assert_eq!(nothing.intersection(rect(-5.0, -5.0, 10.0, 10.0)), None);
    assert_eq!(nothing.intersection(nothing), None);
}

#[test]
fn moved_scaled_and_measured() {
    let r = rect(1.0, 2.0, 3.0, 4.0);
    assert_eq!(r.translated(Vector { x: sc(-1.0), y: sc(0.5) }), rect(0.0, 2.5, 3.0, 4.0));
    assert_eq!(r.scaled(sc(2.0)), rect(2.0, 4.0, 6.0, 8.0));
    assert_eq!(r.center(), pt(2.5, 4.0));
    assert_eq!(r.area(), sc(12.0));
    assert_eq!(r.corner_outside(), pt(4.0, 6.0));
    assert!(!r.contains(r.corner_outside()));
    assert_eq!(rect(0.0, 0.0, 1.0e6, 1.0e6).area(), sc(1.0e12));
    assert_eq!(rect(0.0, 0.0, 0.5, 0.25).area(), sc(0.125));
    assert!(Size { width: sc(0.0), height: sc(1.0) }.is_empty());
    assert!(Size { width: sc(f32::NAN), height: sc(1.0) }.is_empty());
    assert!(!Size { width: sc(0.5), height: sc(1.0) }.is_empty());
}

fn radius(a: f32, b: f32, c: f32, d: f32) -> BorderRadius {
    BorderRadius { top_left: sc(a), top_right: sc(b), bottom_right: sc(c), bottom_left: sc(d) }
}

#[test]
fn radii_are_uniform_within_the_tolerance() {
    assert_eq!(radius(4.0, 4.0, 4.0, 4.0).as_uniform(), Some(sc(4.0)));
    assert_eq!(radius(4.0, 4.0, 4.5, 4.0).as_uniform(), None);
    assert!(radius(0.0, 0.0, 0.0, 0.0).is_zero());
    assert!(radius(f32::EPSILON, 0.0, 0.0, 0.0).is_zero());
    assert!(!radius(f32::EPSILON * 1.5, 0.0, 0.0, 0.0).is_zero());
}

#[test]
fn coordinate_entries_contain_points() {
    let c = ControlCoord {
        x: sc(5.0),
        y: sc(6.0),
        width: sc(10.0),
        height: sc(2.0),
        hovered: false,
        pressed: false,
    };
    assert!(c.contains(sc(5.0), sc(6.0)));
    assert!(c.contains(sc(14.9), sc(7.9)));
    assert!(!c.contains(sc(15.0), sc(7.0)));
    assert!(!c.contains(sc(10.0), sc(8.0)));
    let d = ControlCoord::default();
    assert!(!d.contains(sc(0.0), sc(0.0)));
    assert!(!d.hovered && !d.pressed);
}

#[test]
fn channels_keep_their_order() {
    let c = Color { red: 1, green: 2, blue: 3, alpha: 4 };
    assert_eq!(color_to_u8_array(c), [1, 2, 3, 4]);
}

struct Random(u64);

impl Random {
    fn coordinate(&mut self) -> f32 {
        self.0 ^= self.0 << 13;
        self.0 ^= self.0 >> 7;
        self.0 ^= self.0 << 17;
        match self.0 % 23 {
            0 => f32::NAN,
            1 => f32::INFINITY,
            2 => -0.0,
            _ => ((self.0 >> 40) as i16 as f32) / 64.0,
        }
    }
}

type Outside = euclid::default::Rect<f32>;

fn outside(r: Rect) -> Outside {
    let f = |s: Scalar| f32::from_bits(s.bits);
    Outside::new(
        euclid::point2(f(r.origin.x), f(r.origin.y)),
        euclid::size2(f(r.size.width), f(r.size.height)),
    )
}

fn alike(a: f32, b: Scalar) -> bool {
    let b = f32::from_bits(b.bits);
    (a.is_nan() && b.is_nan()) || a.to_bits() == b.to_bits()
}

fn alike_rect(a: Outside, b: Rect) -> bool {
    alike(a.origin.x, b.origin.x)
        && alike(a.origin.y, b.origin.y)
        && alike(a.size.width, b.size.width)
        && alike(a.size.height, b.size.height)
}

#[test]
fn rectangles_agree_with_euclid() {
    let mut random = Random(12345);
    for _ in 0..50_000 {
        let mut c = || random.coordinate();
        let a = rect(c(), c(), c(), c());
        let b = rect(c(), c(), c(), c());
        let (x, y) = (c(), c());
        assert_eq!(a.contains(pt(x, y)), outside(a).contains(euclid::point2(x, y)));
        assert_eq!(a.intersects(b), outside(a).intersects(&outside(b)));
        match (a.intersection(b), outside(a).intersection(&outside(b))) {
            (Some(r), Some(o)) => assert!(alike_rect(o, r)),
            (None, None) => {}
            (r, o) => panic!("{r:?} {o:?}"),
        }
        let moved = outside(a).translate(euclid::vec2(x, y));
        assert!(alike_rect(moved, a.translated(Vector { x: sc(x), y: sc(y) })));
        let scaled = outside(a) * x;
        assert!(alike_rect(scaled, a.scaled(sc(x))));
        assert_eq!(a.size.is_empty(), outside(a).size.is_empty());
        assert!(alike(outside(a).max_x(), a.max_x()));
        assert!(alike(outside(a).max_y(), a.max_y()));
    }
}

#[test]
fn corner_radii_agree_with_the_item_tree() {
    let mut random = Random(99);
    for _ in 0..20_000 {
        let base = random.coordinate();
        let mut near = || {
            let step = random.coordinate();
            if step > 100.0 {
                base + step
            } else {
                base + step * 1.0e-10
            }
        };
        let (a, b, c, d) = (near(), near(), near(), near());
        let outside = i_slint_core::lengths::PhysicalBorderRadius::new(a, b, c, d);
        let ours = radius(a, b, c, d);
        match (ours.as_uniform(), outside.as_uniform()) {
            (Some(r), Some(o)) => assert!(alike(o, r)),
            (None, None) => {}
            (r, o) => panic!("{r:?} {o:?}"),
        }
        assert_eq!(ours.is_zero(), outside.is_zero());
    }
}
