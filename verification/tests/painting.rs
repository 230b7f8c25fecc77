use mars_raw_utils::color::{Eye, Rgb};
use mars_raw_utils::drawable::{Drawable, Raster};
use mars_raw_utils::geometry::{Point, Triangle};

const BLACK: Rgb = Rgb { r: 0, g: 0, b: 0 };
const RED: Rgb = Rgb { r: 255, g: 0, b: 0 };

fn at(x: i64, y: i64, c: Rgb) -> Point {
    Point::create(x * 1024, y * 1024, c.r, c.g, c.b)
}

fn snapshot(map: &Raster) -> Vec<Rgb> {
    let mut all = Vec::new();
    for y in 0..map.get_height() {
        for x in 0..map.get_width() {
            all.push(map.get(x, y));
        }
    }
    all
}

fn filled(width: usize, height: usize, c: Rgb) -> Raster {
    let mut map = Raster::create(width, height);
    for y in 0..height {
        for x in 0..width {
            map.put(x, y, c);
        }
    }
    map
}

#[test]
fn a_new_raster_is_black_and_has_its_extent() {
    let map = Raster::create(7, 3);
    assert_eq!(map.get_width(), 7);
    assert_eq!(map.get_height(), 3);
    assert!(snapshot(&map).iter().all(|c| *c == BLACK));
    assert_eq!(snapshot(&map).len(), 21);
    let none = Raster::create(0, 0);
    assert_eq!((none.get_width(), none.get_height()), (0, 0));
    let flat = Raster::create(5, 0);
    assert_eq!((flat.get_width(), flat.get_height()), (5, 0));
}

#[test]
fn put_changes_one_pixel() {
    let mut map = Raster::create(4, 4);
    map.put(2, 1, Rgb { r: 9, g: 8, b: 7 });
    for y in 0..4 {
        for x in 0..4 {
            let want = if (x, y) == (2, 1) { Rgb { r: 9, g: 8, b: 7 } } else { BLACK };
            assert_eq!(map.get(x, y), want);
        }
    }
}

#[test]
fn a_red_quad_paints_its_square_and_nothing_else() {
    let mut map = Raster::create(20, 20);
    map.paint_square(&at(10, 10, RED), &at(10, 12, RED), &at(12, 12, RED), &at(12, 10, RED), false,
        Eye::DontCare);
    for y in 0..20 {
        for x in 0..20 {
            let c = map.get(x, y);
            if x > 10 && x < 12 && y > 10 && y < 12 {
                assert_eq!(c, RED);
            }
            if x < 10 || x > 12 || y < 10 || y > 12 {
                assert_eq!(c, BLACK);
            }
            if (10..=12).contains(&x) && (10..=12).contains(&y) {
                assert_eq!(c, RED);
            }
        }
    }
}

#[test]
fn a_triangle_paints_the_pixels_it_holds_edges_included() {
    for t in [
        Triangle { p0: at(2, 2, RED), p1: at(2, 6, RED), p2: at(6, 2, RED) },
        Triangle { p0: at(2, 2, RED), p1: at(6, 2, RED), p2: at(2, 6, RED) },
    ] {
        let mut map = Raster::create(10, 10);
        map.paint_tri(&t, false, Eye::DontCare);
        for y in 0..10i64 {
            for x in 0..10i64 {
                let inside = x >= 2 && y >= 2 && x + y <= 8;
                let want = if inside { RED } else { BLACK };
                assert_eq!(map.get(x as usize, y as usize), want);
            }
        }
    }
}

#[test]
fn painting_interpolates_the_colours_of_the_vertices() {
    let t = Triangle {
        p0: at(0, 0, Rgb { r: 0, g: 1000, b: 5 }),
        p1: at(0, 10, Rgb { r: 200, g: 1000, b: 5 }),
        p2: at(10, 0, Rgb { r: 100, g: 0, b: 5 }),
    };
    let mut map = Raster::create(12, 12);
    map.paint_tri(&t, false, Eye::DontCare);
    assert_eq!(map.get(0, 0), Rgb { r: 0, g: 1000, b: 5 });
    assert_eq!(map.get(0, 10), Rgb { r: 200, g: 1000, b: 5 });
    assert_eq!(map.get(10, 0), Rgb { r: 100, g: 0, b: 5 });
    assert_eq!(map.get(2, 3), Rgb { r: 80, g: 800, b: 5 });
    assert_eq!(map.get(11, 11), BLACK);
}

#[test]
fn a_triangle_a_hundred_pixels_wide_is_skipped() {
    for (w, h) in [(100, 5), (5, 100), (100, 100), (1500, 3)] {
        let t = Triangle { p0: at(1, 1, RED), p1: at(1, 1 + h, RED), p2: at(1 + w, 1, RED) };
        let mut map = filled(120, 120, Rgb { r: 3, g: 4, b: 5 });
        let before = snapshot(&map);
        map.paint_tri(&t, false, Eye::DontCare);
        assert_eq!(snapshot(&map), before);
        map.paint_tri(&t, true, Eye::Left);
        assert_eq!(snapshot(&map), before);
    }
}

#[test]
fn a_triangle_ninety_nine_pixels_wide_is_painted() {
    let t = Triangle { p0: at(1, 1, RED), p1: at(1, 100, RED), p2: at(100, 1, RED) };
    let mut map = Raster::create(120, 120);
    map.paint_tri(&t, false, Eye::DontCare);
    assert_eq!(map.get(1, 1), RED);
    assert_eq!(map.get(50, 50), RED);
    assert_eq!(map.get(100, 1), RED);
    assert_eq!(map.get(1, 100), RED);
    assert_eq!(map.get(60, 60), BLACK);
}

#[test]
fn the_span_counts_whole_pixels_around_fractional_corners() {
    // from 0.5 to 99.5 pixels: the box runs from column 0 to column 100
    let t = Triangle {
        p0: Point::create(512, 512, 255, 0, 0),
        p1: Point::create(512, 3 * 1024, 255, 0, 0),
        p2: Point::create(99 * 1024 + 512, 512, 255, 0, 0),
    };
    let mut map = Raster::create(120, 120);
    map.paint_tri(&t, false, Eye::DontCare);
    assert!(snapshot(&map).iter().all(|c| *c == BLACK));
    // from 0.5 to 99 pixels: the box runs from column 0 to column 99
    let u = Triangle {
        p0: Point::create(512, 512, 255, 0, 0),
        p1: Point::create(512, 3 * 1024, 255, 0, 0),
        p2: Point::create(99 * 1024, 512, 255, 0, 0),
    };
    map.paint_tri(&u, false, Eye::DontCare);
    assert_eq!(map.get(1, 1), RED);
}

#[test]
fn a_triangle_that_reaches_left_of_the_raster_is_measured_from_its_edge() {
    // 150 pixels wide, but only 50 of them on the raster
    let t = Triangle { p0: at(-100, 0, RED), p1: at(-100, 10, RED), p2: at(50, 0, RED) };
    let mut map = Raster::create(60, 20);
    map.paint_tri(&t, false, Eye::DontCare);
    assert_eq!(map.get(0, 0), RED);
    assert_eq!(map.get(50, 0), RED);
    assert_eq!(map.get(0, 3), RED);
    assert_eq!(map.get(51, 0), BLACK);
    assert_eq!(map.get(0, 7), BLACK);
}

#[test]
fn a_flat_triangle_paints_nothing() {
    let mut map = Raster::create(20, 20);
    map.paint_tri(&Triangle { p0: at(1, 1, RED), p1: at(5, 5, RED), p2: at(9, 9, RED) }, false,
        Eye::DontCare);
    map.paint_tri(&Triangle { p0: at(3, 3, RED), p1: at(3, 3, RED), p2: at(3, 3, RED) }, false,
        Eye::DontCare);
    map.paint_tri(&Triangle { p0: at(1, 4, RED), p1: at(9, 4, RED), p2: at(5, 4, RED) }, false,
        Eye::DontCare);
    assert!(snapshot(&map).iter().all(|c| *c == BLACK));
}

#[test]
fn painting_is_cut_off_at_the_edge_of_the_raster() {
    let t = Triangle { p0: at(5, 5, RED), p1: at(5, 30, RED), p2: at(30, 5, RED) };
    let mut map = Raster::create(10, 8);
    map.paint_tri(&t, false, Eye::DontCare);
    for y in 0..8 {
        for x in 0..10 {
            let want = if x >= 5 && y >= 5 { RED } else { BLACK };
            assert_eq!(map.get(x, y), want);
        }
    }
    let far = Triangle { p0: at(500, 500, RED), p1: at(500, 530, RED), p2: at(530, 500, RED) };
    let before = snapshot(&map);
    map.paint_tri(&far, false, Eye::DontCare);
    assert_eq!(snapshot(&map), before);
    let mut none = Raster::create(0, 0);
    none.paint_tri(&t, false, Eye::DontCare);
    assert_eq!(none.get_width(), 0);
}

#[test]
fn the_left_eye_writes_red_only() {
    let old = Rgb { r: 1, g: 2, b: 3 };
    let new = Rgb { r: 100, g: 200, b: 300 };
    let t = Triangle { p0: at(2, 2, new), p1: at(2, 6, new), p2: at(6, 2, new) };
    let mut map = filled(10, 10, old);
    map.paint_tri(&t, false, Eye::Left);
    assert_eq!(map.get(3, 3), Rgb { r: 100, g: 2, b: 3 });
    assert_eq!(map.get(8, 8), old);
}

#[test]
fn the_right_eye_writes_green_and_blue_only() {
    let old = Rgb { r: 1, g: 2, b: 3 };
    let new = Rgb { r: 100, g: 200, b: 300 };
    let t = Triangle { p0: at(2, 2, new), p1: at(2, 6, new), p2: at(6, 2, new) };
    let mut map = filled(10, 10, old);
    map.paint_tri(&t, false, Eye::Right);
    assert_eq!(map.get(3, 3), Rgb { r: 1, g: 200, b: 300 });
    assert_eq!(map.get(8, 8), old);
}

#[test]
fn without_an_eye_all_three_channels_are_written() {
    let old = Rgb { r: 1, g: 2, b: 3 };
    let new = Rgb { r: 100, g: 200, b: 300 };
    let t = Triangle { p0: at(2, 2, new), p1: at(2, 6, new), p2: at(6, 2, new) };
    let mut map = filled(10, 10, old);
    map.paint_tri(&t, false, Eye::DontCare);
    assert_eq!(map.get(3, 3), new);
    assert_eq!(map.get(8, 8), old);
}

#[test]
fn a_stereo_pair_shares_one_raster() {
    let left = Rgb { r: 111, g: 112, b: 113 };
    let right = Rgb { r: 221, g: 222, b: 223 };
    let mut map = Raster::create(10, 10);
    map.paint_square(&at(1, 1, left), &at(1, 5, left), &at(5, 5, left), &at(5, 1, left), false,
        Eye::Left);
    map.paint_square(&at(1, 1, right), &at(1, 5, right), &at(5, 5, right), &at(5, 1, right), false,
        Eye::Right);
    assert_eq!(map.get(3, 3), Rgb { r: 111, g: 222, b: 223 });
    map.paint_square(&at(1, 1, left), &at(1, 5, left), &at(5, 5, left), &at(5, 1, left), false,
        Eye::Left);
    assert_eq!(map.get(3, 3), Rgb { r: 111, g: 222, b: 223 });
}

#[test]
fn averaging_blends_with_what_is_there() {
    let new = Rgb { r: 100, g: 201, b: 0 };
    let t = Triangle { p0: at(2, 2, new), p1: at(2, 6, new), p2: at(6, 2, new) };
    let mut map = Raster::create(10, 10);
    map.put(3, 3, Rgb { r: 50, g: 0, b: 7 });
    map.put(4, 3, Rgb { r: 0, g: 0, b: 1 });
    map.paint_tri(&t, true, Eye::DontCare);
    // a black pixel takes the colour as it is
    assert_eq!(map.get(2, 2), new);
    // any other pixel takes the mean, rounded down
    assert_eq!(map.get(3, 3), Rgb { r: 75, g: 100, b: 3 });
    assert_eq!(map.get(4, 3), Rgb { r: 50, g: 100, b: 0 });
    // a second pass blends again
    map.paint_tri(&t, true, Eye::DontCare);
    assert_eq!(map.get(3, 3), Rgb { r: 87, g: 150, b: 1 });
    assert_eq!(map.get(2, 2), new);
}

#[test]
fn averaging_for_one_eye_looks_at_all_channels_and_writes_its_own() {
    let new = Rgb { r: 100, g: 200, b: 300 };
    let t = Triangle { p0: at(2, 2, new), p1: at(2, 6, new), p2: at(6, 2, new) };
    let mut map = Raster::create(10, 10);
    map.put(3, 3, Rgb { r: 0, g: 0, b: 9 });
    map.paint_tri(&t, true, Eye::Left);
    assert_eq!(map.get(3, 3), Rgb { r: 50, g: 0, b: 9 });
    assert_eq!(map.get(2, 2), Rgb { r: 100, g: 0, b: 0 });
}

#[test]
fn averaging_does_not_overflow_at_full_scale() {
    let new = Rgb { r: 65535, g: 65535, b: 65535 };
    let t = Triangle { p0: at(2, 2, new), p1: at(2, 6, new), p2: at(6, 2, new) };
    let mut map = filled(10, 10, Rgb { r: 65535, g: 65534, b: 1 });
    map.paint_tri(&t, true, Eye::DontCare);
    assert_eq!(map.get(3, 3), Rgb { r: 65535, g: 65534, b: 32768 });
}

#[test]
fn painting_twice_without_averaging_is_painting_once() {
    let t = Triangle {
        p0: at(1, 1, Rgb { r: 10, g: 500, b: 60000 }),
        p1: at(3, 17, Rgb { r: 900, g: 5, b: 6 }),
        p2: at(15, 4, Rgb { r: 0, g: 65535, b: 33 }),
    };
    for eye in [Eye::Left, Eye::Right, Eye::DontCare] {
        let mut map = filled(20, 20, Rgb { r: 7, g: 8, b: 9 });
        map.paint_tri(&t, false, eye);
        let once = snapshot(&map);
        map.paint_tri(&t, false, eye);
        assert_eq!(snapshot(&map), once);
        assert!(once.iter().any(|c| *c != Rgb { r: 7, g: 8, b: 9 }));
    }
}

#[test]
fn a_quad_is_painted_as_two_triangles() {
    let c = [
        Rgb { r: 10, g: 0, b: 0 },
        Rgb { r: 20, g: 0, b: 0 },
        Rgb { r: 30, g: 0, b: 0 },
        Rgb { r: 40, g: 0, b: 0 },
    ];
    let (tl, bl, br, tr) = (at(1, 1, c[0]), at(2, 9, c[1]), at(11, 12, c[2]), at(9, 0, c[3]));
    let mut one = Raster::create(16, 16);
    one.paint_square(&tl, &bl, &br, &tr, false, Eye::DontCare);
    let mut two = Raster::create(16, 16);
    two.paint_tri(&Triangle { p0: tl, p1: bl, p2: tr }, false, Eye::DontCare);
    two.paint_tri(&Triangle { p0: tr, p1: bl, p2: br }, false, Eye::DontCare);
    assert_eq!(snapshot(&one), snapshot(&two));
    assert!(snapshot(&one).iter().any(|p| *p != BLACK));
}

#[test]
fn a_raster_is_made_from_its_three_channels() {
    let red = vec![1, 2, 3, 4, 5, 6];
    let green = vec![11, 12, 13, 14, 15, 16];
    let blue = vec![21, 22, 23, 24, 25, 26];
    let map = Raster::from_bands(3, 2, &red, &green, &blue).unwrap();
    assert_eq!((map.get_width(), map.get_height()), (3, 2));
    assert_eq!(map.get(0, 0), Rgb { r: 1, g: 11, b: 21 });
    assert_eq!(map.get(2, 0), Rgb { r: 3, g: 13, b: 23 });
    assert_eq!(map.get(0, 1), Rgb { r: 4, g: 14, b: 24 });
    assert_eq!(map.get(2, 1), Rgb { r: 6, g: 16, b: 26 });
    let tall = Raster::from_bands(2, 3, &red, &green, &blue).unwrap();
    assert_eq!(tall.get(1, 2), Rgb { r: 6, g: 16, b: 26 });
    assert_eq!(tall.get(0, 1), Rgb { r: 3, g: 13, b: 23 });
    assert_eq!(map.bands(), (red.clone(), green.clone(), blue.clone()));
    assert_eq!(tall.bands(), (red, green, blue));
}

#[test]
fn channels_that_do_not_fit_the_extent_make_no_raster() {
    let six = vec![0; 6];
    let five = vec![0; 5];
    assert!(Raster::from_bands(3, 2, &six, &six, &six).is_some());
    assert!(Raster::from_bands(3, 2, &five, &six, &six).is_none());
    assert!(Raster::from_bands(3, 2, &six, &five, &six).is_none());
    assert!(Raster::from_bands(3, 2, &six, &six, &five).is_none());
    assert!(Raster::from_bands(3, 3, &six, &six, &six).is_none());
    assert!(Raster::from_bands(usize::MAX, usize::MAX, &six, &six, &six).is_none());
    assert!(Raster::from_bands(usize::MAX, 2, &six, &six, &six).is_none());
    let none: Vec<u16> = vec![];
    let empty = Raster::from_bands(0, 7, &none, &none, &none).unwrap();
    assert_eq!((empty.get_width(), empty.get_height()), (0, 7));
    assert_eq!(empty.bands(), (vec![], vec![], vec![]));
    let wide = Raster::from_bands(7, 0, &none, &none, &none).unwrap();
    assert_eq!((wide.get_width(), wide.get_height()), (7, 0));
}

#[test]
fn the_channels_of_a_painted_raster_hold_what_was_painted() {
    let mut map = Raster::create(3, 2);
    map.put(1, 0, Rgb { r: 7, g: 8, b: 9 });
    map.put(2, 1, Rgb { r: 1, g: 2, b: 3 });
    assert_eq!(
        map.bands(),
        (vec![0, 7, 0, 0, 0, 1], vec![0, 8, 0, 0, 0, 2], vec![0, 9, 0, 0, 0, 3])
    );
}

#[test]
fn a_quad_far_to_the_right_is_painted_where_it_lies() {
    // a map more than two million pixels wide
    let c = Rgb { r: 9, g: 8, b: 7 };
    let mut map = Raster::create(2_100_000, 3);
    map.paint_square(
        &at(2_099_000, 0, c),
        &at(2_099_000, 2, c),
        &at(2_099_002, 2, c),
        &at(2_099_002, 0, c),
        false,
        Eye::DontCare,
    );
    for x in 2_098_990..2_099_010 {
        for y in 0..3 {
            let want = if (2_099_000..=2_099_002).contains(&x) { c } else { BLACK };
            assert_eq!(map.get(x, y), want);
        }
    }
    assert_eq!(map.get(0, 0), BLACK);
    assert_eq!(map.get(2_097_151, 1), BLACK);
    assert_eq!(map.get(2_099_999, 2), BLACK);
}

#[test]
fn a_triangle_at_the_limit_of_coordinates_paints_nothing_on_a_raster_that_ends_before() {
    let limit = (1i64 << 33) - 1;
    let t = Triangle { p0: at(limit - 5, 0, RED), p1: at(limit - 5, 5, RED), p2: at(limit, 0, RED) };
    let mut map = Raster::create(50, 50);
    map.paint_tri(&t, false, Eye::DontCare);
    assert!(snapshot(&map).iter().all(|c| *c == BLACK));
}
