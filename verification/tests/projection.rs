use mars_raw_utils::anaglyph::{process_image, round_px, sample_source, ImageCoordinate};
use mars_raw_utils::color::{Eye, Rgb};
use mars_raw_utils::drawable::{Drawable, Raster};
use mars_raw_utils::error::MosaicError;
use mars_raw_utils::mapcontext::{LatLon, MapContext};
use mars_raw_utils::projection::{project, Strategy};
use mars_raw_utils::mosaic::{
    corner, first_missing, interior_stop, process_file, project_pixel, MARGIN,
};

const BLACK: Rgb = Rgb { r: 0, g: 0, b: 0 };

fn snapshot(map: &Raster) -> Vec<Rgb> {
    let mut all = Vec::new();
    for y in 0..map.get_height() {
        for x in 0..map.get_width() {
            all.push(map.get(x, y));
        }
    }
    all
}

/// A source whose pixel in column x and row y holds (x, y, 7).
fn ramp(width: usize, height: usize) -> Raster {
    let mut img = Raster::create(width, height);
    for y in 0..height {
        for x in 0..width {
            img.put(x, y, Rgb { r: x as u16, g: y as u16, b: 7 });
        }
    }
    img
}

/// A map of `width` by `height` pixels, one thousandth of a degree each,
/// with its corner at latitude 0 and longitude 0.
fn milli_map(width: usize, height: usize) -> MapContext {
    MapContext {
        top_lat: height as i32 * 1000,
        bottom_lat: 0,
        left_lon: 0,
        right_lon: width as i32 * 1000,
        width,
        height,
        degrees_per_pixel: 1000,
    }
}

/// A camera that sees the corner in column x and row y of its image at the
/// map pixel (x - 50 + dx, y - 50 + dy).
fn shifted_camera(width: usize, height: usize, dx: i32, dy: i32) -> Vec<Vec<Option<LatLon>>> {
    (0..height as i32)
        .map(|y| {
            (0..width as i32)
                .map(|x| Some(LatLon { lat: (y - 50 + dy) * 1000, lon: (x - 50 + dx) * 1000 }))
                .collect()
        })
        .collect()
}

#[test]
fn the_margin_is_fifty_pixels() {
    assert_eq!(MARGIN, 50);
    assert_eq!(interior_stop(0), 50);
    assert_eq!(interior_stop(50), 50);
    assert_eq!(interior_stop(101), 50);
    assert_eq!(interior_stop(102), 51);
    assert_eq!(interior_stop(1000), 949);
}

#[test]
fn corners_beyond_the_table_are_missing() {
    let table = vec![vec![Some(LatLon { lat: 1, lon: 2 }), None], vec![]];
    assert_eq!(corner(&table, 0, 0), Some(LatLon { lat: 1, lon: 2 }));
    assert_eq!(corner(&table, 1, 0), None);
    assert_eq!(corner(&table, 2, 0), None);
    assert_eq!(corner(&table, 0, 1), None);
    assert_eq!(corner(&table, 0, 2), None);
}

#[test]
fn a_source_pixel_becomes_a_quad_of_its_four_corners() {
    let img = ramp(110, 110);
    let table = shifted_camera(110, 110, 3, 4);
    let q = project_pixel(&img, &table, &milli_map(20, 20), 52, 55).unwrap();
    assert_eq!((q.tl.x, q.tl.y), (5 * 1024, 9 * 1024));
    assert_eq!((q.tr.x, q.tr.y), (6 * 1024, 9 * 1024));
    assert_eq!((q.bl.x, q.bl.y), (5 * 1024, 10 * 1024));
    assert_eq!((q.br.x, q.br.y), (6 * 1024, 10 * 1024));
    assert_eq!((q.tl.r, q.tl.g, q.tl.b), (52, 55, 7));
    assert_eq!((q.tr.r, q.tr.g, q.tr.b), (53, 55, 7));
    assert_eq!((q.bl.r, q.bl.g, q.bl.b), (52, 56, 7));
    assert_eq!((q.br.r, q.br.g, q.br.b), (53, 56, 7));
    let mut holed = shifted_camera(110, 110, 3, 4);
    holed[56][53] = None;
    assert_eq!(project_pixel(&img, &holed, &milli_map(20, 20), 52, 55), None);
    assert!(project_pixel(&img, &holed, &milli_map(20, 20), 51, 54).is_some());
}

#[test]
fn the_inside_of_the_image_is_painted_on_the_map() {
    // columns and rows 50 to 56 of the source are projected; their
    // corners reach from 50 to 57, that is map pixels 0 to 7, moved by 3, 4
    let img = ramp(108, 108);
    let table = Some(shifted_camera(108, 108, 3, 4));
    let mut map = Raster::create(20, 20);
    assert_eq!(process_file(&img, &table, &milli_map(20, 20), &mut map, Eye::DontCare), Ok(()));
    for y in 0..20u16 {
        for x in 0..20u16 {
            let want = if (3..=10).contains(&x) && (4..=11).contains(&y) {
                Rgb { r: x - 3 + 50, g: y - 4 + 50, b: 7 }
            } else {
                BLACK
            };
            assert_eq!(map.get(x as usize, y as usize), want);
        }
    }
}

#[test]
fn the_eye_of_the_image_is_the_eye_of_every_quad() {
    let img = ramp(108, 108);
    let table = Some(shifted_camera(108, 108, 0, 0));
    let mut map = Raster::create(20, 20);
    assert_eq!(process_file(&img, &table, &milli_map(20, 20), &mut map, Eye::Right), Ok(()));
    assert_eq!(map.get(2, 3), Rgb { r: 0, g: 53, b: 7 });
    assert_eq!(process_file(&img, &table, &milli_map(20, 20), &mut map, Eye::Left), Ok(()));
    assert_eq!(map.get(2, 3), Rgb { r: 52, g: 53, b: 7 });
}

#[test]
fn an_image_without_a_camera_model_is_an_error() {
    let img = ramp(120, 120);
    let mut map = Raster::create(20, 20);
    assert_eq!(
        process_file(&img, &None, &milli_map(20, 20), &mut map, Eye::DontCare),
        Err(MosaicError::MissingCameraModel)
    );
    assert!(snapshot(&map).iter().all(|c| *c == BLACK));
}

#[test]
fn a_camera_that_gives_no_ray_at_all_ends_the_run() {
    let img = ramp(120, 120);
    let blind: Vec<Vec<Option<LatLon>>> = vec![vec![None; 120]; 120];
    let mut map = Raster::create(20, 20);
    assert_eq!(
        process_file(&img, &Some(blind), &milli_map(20, 20), &mut map, Eye::DontCare),
        Err(MosaicError::ProjectionFailure)
    );
    assert!(snapshot(&map).iter().all(|c| *c == BLACK));
    let mut map = Raster::create(20, 20);
    assert_eq!(
        process_file(&img, &Some(vec![]), &milli_map(20, 20), &mut map, Eye::DontCare),
        Err(MosaicError::ProjectionFailure)
    );
}

#[test]
fn a_missing_ray_ends_the_run_and_keeps_what_was_painted() {
    let img = ramp(108, 108);
    let mut table = shifted_camera(108, 108, 0, 0);
    // the corner shared by the pixels in columns 51 and 52, rows 52 and 53
    table[53][52] = None;
    let mut map = Raster::create(20, 20);
    assert_eq!(
        process_file(&img, &Some(table), &milli_map(20, 20), &mut map, Eye::DontCare),
        Err(MosaicError::ProjectionFailure)
    );
    // column 50 was painted whole, column 51 down to row 51
    let mut want = Raster::create(20, 20);
    let whole = Some(shifted_camera(108, 108, 0, 0));
    let ctx = milli_map(20, 20);
    for (x, y) in (50..57).map(|y| (50, y)).chain((50..52).map(|y| (51, y))) {
        let q = project_pixel(&img, whole.as_ref().unwrap(), &ctx, x, y).unwrap();
        want.paint_square(&q.tl, &q.bl, &q.br, &q.tr, false, Eye::DontCare);
    }
    assert_eq!(snapshot(&map), snapshot(&want));
    assert_eq!(map.get(1, 7), Rgb { r: 51, g: 57, b: 7 });
    assert_eq!(map.get(2, 2), Rgb { r: 52, g: 52, b: 7 });
    assert_eq!(map.get(2, 3), BLACK);
    assert_eq!(map.get(3, 0), BLACK);
}

#[test]
fn a_missing_ray_in_the_margin_does_no_harm() {
    let img = ramp(108, 108);
    let mut table = shifted_camera(108, 108, 0, 0);
    table[0][0] = None;
    table[49][49] = None;
    table[58][58] = None;
    table[107][107] = None;
    let mut map = Raster::create(20, 20);
    assert_eq!(
        process_file(&img, &Some(table), &milli_map(20, 20), &mut map, Eye::DontCare),
        Ok(())
    );
}

#[test]
fn an_image_that_is_all_margin_paints_nothing() {
    for (w, h) in [(0, 0), (50, 50), (101, 101), (101, 500), (500, 101)] {
        let img = ramp(w, h);
        let blind: Vec<Vec<Option<LatLon>>> = vec![];
        let mut map = Raster::create(20, 20);
        assert_eq!(
            process_file(&img, &Some(blind), &milli_map(20, 20), &mut map, Eye::DontCare),
            Ok(())
        );
        assert!(snapshot(&map).iter().all(|c| *c == BLACK));
    }
}

#[test]
fn quads_that_wrap_around_the_seam_are_not_painted() {
    let img = ramp(104, 104);
    let mut table = shifted_camera(104, 104, 0, 0);
    // the right-hand corners of the pixels of column 51 lie 150 pixels away
    for row in table.iter_mut() {
        row[52] = Some(LatLon { lat: row[52].unwrap().lat, lon: 152_000 });
    }
    let mut map = Raster::create(200, 20);
    assert_eq!(
        process_file(&img, &Some(table), &milli_map(200, 20), &mut map, Eye::DontCare),
        Ok(())
    );
    assert_eq!(map.get(0, 0), Rgb { r: 50, g: 50, b: 7 });
    for x in 2..152 {
        assert_eq!(map.get(x, 1), BLACK);
    }
}

#[test]
fn places_are_rounded_to_the_nearest_pixel() {
    assert_eq!(round_px(0), 0);
    assert_eq!(round_px(511), 0);
    assert_eq!(round_px(512), 1);
    assert_eq!(round_px(1024), 1);
    assert_eq!(round_px(1535), 1);
    assert_eq!(round_px(1536), 2);
    assert_eq!(round_px(i64::MAX), i64::MAX / 1024 + 1);
}

#[test]
fn the_source_is_sampled_at_the_nearest_pixel_short_of_its_last_row_and_column() {
    let img = ramp(10, 8);
    let ls = |sample: i64, line: i64| ImageCoordinate { line, sample };
    assert_eq!(sample_source(&img, &ls(0, 0)), Some(Rgb { r: 0, g: 0, b: 7 }));
    assert_eq!(sample_source(&img, &ls(3 * 1024, 2 * 1024)), Some(Rgb { r: 3, g: 2, b: 7 }));
    assert_eq!(sample_source(&img, &ls(3 * 1024 + 511, 2 * 1024 - 512)), Some(Rgb { r: 3, g: 2, b: 7 }));
    assert_eq!(sample_source(&img, &ls(3 * 1024 + 512, 2 * 1024)), Some(Rgb { r: 4, g: 2, b: 7 }));
    assert_eq!(sample_source(&img, &ls(8 * 1024 + 511, 6 * 1024 + 511)), Some(Rgb { r: 8, g: 6, b: 7 }));
    assert_eq!(sample_source(&img, &ls(8 * 1024 + 512, 0)), None);
    assert_eq!(sample_source(&img, &ls(0, 6 * 1024 + 512)), None);
    assert_eq!(sample_source(&img, &ls(9 * 1024, 0)), None);
    assert_eq!(sample_source(&img, &ls(-1, 0)), None);
    assert_eq!(sample_source(&img, &ls(0, -1)), None);
    assert_eq!(sample_source(&img, &ls(i64::MAX, 0)), None);
    assert_eq!(sample_source(&img, &ls(0, i64::MIN)), None);
    assert_eq!(sample_source(&Raster::create(0, 0), &ls(0, 0)), None);
    assert_eq!(sample_source(&Raster::create(1, 1), &ls(0, 0)), None);
    assert_eq!(sample_source(&ramp(2, 2), &ls(0, 0)), Some(Rgb { r: 0, g: 0, b: 7 }));
}

#[test]
fn the_map_pulls_its_colours_from_the_source() {
    let img = ramp(30, 30);
    // the map pixel in column x and row y shows the source at (x + 2, y + 5)
    let lookups: Vec<Vec<Option<ImageCoordinate>>> = (0..6i64)
        .map(|y| {
            (0..8i64)
                .map(|x| Some(ImageCoordinate { line: (y + 5) * 1024, sample: (x + 2) * 1024 }))
                .collect()
        })
        .collect();
    let mut map = Raster::create(8, 6);
    process_image(&img, &mut map, &lookups, Eye::DontCare);
    // every pixel is painted by the quads of its neighbours too; the one
    // taken last, its own, decides
    for y in 0..6u16 {
        for x in 0..8u16 {
            assert_eq!(map.get(x as usize, y as usize), Rgb { r: x + 2, g: y + 5, b: 7 });
        }
    }
}

#[test]
fn a_quad_reaches_the_next_column_and_row() {
    let img = ramp(30, 30);
    let mut lookups: Vec<Vec<Option<ImageCoordinate>>> = vec![vec![None; 8]; 6];
    // the only pixel with a place on the source
    lookups[2][3] = Some(ImageCoordinate { line: 4 * 1024, sample: 9 * 1024 });
    // places that fall on no pixel of the source
    lookups[4][6] = Some(ImageCoordinate { line: 29 * 1024, sample: 9 * 1024 });
    lookups[0][0] = Some(ImageCoordinate { line: 4 * 1024, sample: -9 * 1024 });
    let grey = Rgb { r: 1, g: 1, b: 1 };
    let mut map = Raster::create(8, 6);
    for y in 0..6 {
        for x in 0..8 {
            map.put(x, y, grey);
        }
    }
    process_image(&img, &mut map, &lookups, Eye::DontCare);
    let pulled = Rgb { r: 9, g: 4, b: 7 };
    // the pixel itself
    assert_eq!(map.get(3, 2), pulled);
    // its right, lower and lower right neighbours pull nothing and take its colour
    assert_eq!(map.get(4, 2), pulled);
    assert_eq!(map.get(3, 3), pulled);
    assert_eq!(map.get(4, 3), pulled);
    // every other pixel is left as it was
    for y in 0..6 {
        for x in 0..8 {
            if !((3..=4).contains(&x) && (2..=3).contains(&y)) {
                assert_eq!(map.get(x, y), grey);
            }
        }
    }
}

#[test]
fn a_pixel_takes_the_colour_of_the_nearest_neighbour_taken_last() {
    let img = ramp(30, 30);
    let place = |sample: i64, line: i64| Some(ImageCoordinate { line: line * 1024, sample: sample * 1024 });
    // upper left, left, upper and the pixel itself, each alone and together
    let mut lookups: Vec<Vec<Option<ImageCoordinate>>> = vec![vec![None; 3]; 3];
    lookups[0][0] = place(1, 1);
    let mut map = Raster::create(3, 3);
    process_image(&img, &mut map, &lookups, Eye::DontCare);
    assert_eq!(map.get(1, 1), Rgb { r: 1, g: 1, b: 7 });
    lookups[1][0] = place(2, 2);
    let mut map = Raster::create(3, 3);
    process_image(&img, &mut map, &lookups, Eye::DontCare);
    assert_eq!(map.get(1, 1), Rgb { r: 2, g: 2, b: 7 });
    lookups[0][1] = place(3, 3);
    let mut map = Raster::create(3, 3);
    process_image(&img, &mut map, &lookups, Eye::DontCare);
    assert_eq!(map.get(1, 1), Rgb { r: 3, g: 3, b: 7 });
    lookups[1][1] = place(4, 4);
    let mut map = Raster::create(3, 3);
    process_image(&img, &mut map, &lookups, Eye::DontCare);
    assert_eq!(map.get(1, 1), Rgb { r: 4, g: 4, b: 7 });
    // a pixel that none of the four reaches with a colour stays as it was
    assert_eq!(map.get(2, 2), Rgb { r: 4, g: 4, b: 7 });
    assert_eq!(map.get(0, 2), Rgb { r: 2, g: 2, b: 7 });
    let lone: Vec<Vec<Option<ImageCoordinate>>> =
        vec![vec![place(1, 1), None, None], vec![None; 3], vec![None; 3]];
    let mut map = Raster::create(3, 3);
    process_image(&img, &mut map, &lone, Eye::DontCare);
    assert_eq!(map.get(2, 2), BLACK);
    assert_eq!(map.get(2, 0), BLACK);
    assert_eq!(map.get(0, 2), BLACK);
}

#[test]
fn a_two_by_one_map_with_one_place_is_painted_whole() {
    let img = ramp(30, 30);
    let lookups = vec![vec![Some(ImageCoordinate { line: 4 * 1024, sample: 9 * 1024 }), None]];
    let mut map = Raster::create(2, 1);
    process_image(&img, &mut map, &lookups, Eye::DontCare);
    assert_eq!(map.get(0, 0), Rgb { r: 9, g: 4, b: 7 });
    assert_eq!(map.get(1, 0), Rgb { r: 9, g: 4, b: 7 });
}

#[test]
fn pixels_far_to_the_right_pull_their_colours_too() {
    // a map more than two million pixels wide
    let img = ramp(30, 30);
    let width = 2_100_000;
    let mut row: Vec<Option<ImageCoordinate>> = vec![None; width];
    row[2_099_000] = Some(ImageCoordinate { line: 4 * 1024, sample: 9 * 1024 });
    row[2_099_998] = Some(ImageCoordinate { line: 5 * 1024, sample: 8 * 1024 });
    row[2_099_999] = Some(ImageCoordinate { line: 6 * 1024, sample: 7 * 1024 });
    let mut map = Raster::create(width, 1);
    process_image(&img, &mut map, &vec![row], Eye::DontCare);
    assert_eq!(map.get(2_098_999, 0), BLACK);
    assert_eq!(map.get(2_099_000, 0), Rgb { r: 9, g: 4, b: 7 });
    assert_eq!(map.get(2_099_001, 0), Rgb { r: 9, g: 4, b: 7 });
    assert_eq!(map.get(2_099_002, 0), BLACK);
    assert_eq!(map.get(2_099_998, 0), Rgb { r: 8, g: 5, b: 7 });
    assert_eq!(map.get(2_099_999, 0), Rgb { r: 7, g: 6, b: 7 });
    assert_eq!(map.get(2_097_151, 0), BLACK);
}

#[test]
fn pulling_for_one_eye_writes_its_channels_only() {
    let img = ramp(30, 30);
    let lookups: Vec<Vec<Option<ImageCoordinate>>> =
        vec![vec![Some(ImageCoordinate { line: 4 * 1024, sample: 9 * 1024 }); 4]; 4];
    let mut map = Raster::create(4, 4);
    process_image(&img, &mut map, &lookups, Eye::Left);
    assert_eq!(map.get(1, 1), Rgb { r: 9, g: 0, b: 0 });
    process_image(&img, &mut map, &lookups, Eye::Right);
    assert_eq!(map.get(1, 1), Rgb { r: 9, g: 4, b: 7 });
}

#[test]
fn a_table_smaller_than_the_map_leaves_the_rest_alone() {
    let img = ramp(30, 30);
    let lookups: Vec<Vec<Option<ImageCoordinate>>> =
        vec![vec![Some(ImageCoordinate { line: 4 * 1024, sample: 9 * 1024 }); 2]; 1];
    let mut map = Raster::create(6, 6);
    process_image(&img, &mut map, &lookups, Eye::DontCare);
    for y in 0..6 {
        for x in 0..6 {
            let want = if x <= 2 && y <= 1 { Rgb { r: 9, g: 4, b: 7 } } else { BLACK };
            assert_eq!(map.get(x, y), want);
        }
    }
    let mut none = Raster::create(0, 0);
    process_image(&img, &mut none, &lookups, Eye::DontCare);
    assert_eq!(none.get_height(), 0);
}

#[test]
fn the_first_missing_input_is_found() {
    assert_eq!(first_missing(&vec![]), None);
    assert_eq!(first_missing(&vec![true, true, true]), None);
    assert_eq!(first_missing(&vec![false]), Some(0));
    assert_eq!(first_missing(&vec![true, false, true, false]), Some(1));
    assert_eq!(first_missing(&vec![true, true, false]), Some(2));
}

#[test]
fn both_ways_of_painting_share_one_interface() {
    let img = ramp(108, 108);
    let ctx = milli_map(20, 20);
    let table = shifted_camera(108, 108, 3, 4);

    let mut direct = Raster::create(20, 20);
    assert_eq!(process_file(&img, &Some(table.clone()), &ctx, &mut direct, Eye::DontCare), Ok(()));
    let mut scattered = Raster::create(20, 20);
    let scatter = Strategy::Scatter { corners: Some(table), map_context: ctx };
    assert_eq!(project(&img, &mut scattered, &scatter, Eye::DontCare), Ok(()));
    assert_eq!(snapshot(&scattered), snapshot(&direct));
    assert_eq!(scattered.get(3, 4), Rgb { r: 50, g: 50, b: 7 });

    let lookups: Vec<Vec<Option<ImageCoordinate>>> =
        vec![vec![Some(ImageCoordinate { line: 4 * 1024, sample: 9 * 1024 }); 4]; 4];
    let mut pulled_directly = Raster::create(4, 4);
    process_image(&img, &mut pulled_directly, &lookups, Eye::Left);
    let mut pulled = Raster::create(4, 4);
    assert_eq!(project(&img, &mut pulled, &Strategy::Pull { lookups }, Eye::Left), Ok(()));
    assert_eq!(snapshot(&pulled), snapshot(&pulled_directly));
    assert_eq!(pulled.get(1, 1), Rgb { r: 9, g: 0, b: 0 });
}

#[test]
fn scattering_fails_where_pulling_goes_on() {
    let img = ramp(108, 108);
    let ctx = milli_map(20, 20);
    let mut map = Raster::create(20, 20);
    let no_model = Strategy::Scatter { corners: None, map_context: ctx };
    assert_eq!(
        project(&img, &mut map, &no_model, Eye::DontCare),
        Err(MosaicError::MissingCameraModel)
    );
    let blind = Strategy::Scatter { corners: Some(vec![vec![None; 108]; 108]), map_context: ctx };
    assert_eq!(
        project(&img, &mut map, &blind, Eye::DontCare),
        Err(MosaicError::ProjectionFailure)
    );
    let nothing = Strategy::Pull { lookups: vec![vec![None; 20]; 20] };
    assert_eq!(project(&img, &mut map, &nothing, Eye::DontCare), Ok(()));
    assert!(snapshot(&map).iter().all(|c| *c == BLACK));
}
