use image::DynamicImage;
use image::Rgba;
use image::RgbaImage;
use snapr::raster::assemble_mosaic;
use snapr::raster::can_allocate;
use snapr::raster::composite;
use snapr::raster::paste_tiles;
use snapr::raster::FetchedTile;
use snapr::raster::Raster;

fn solid(width: u32, height: u32, color: [u8; 4]) -> Raster {
    Raster::from_image(&DynamicImage::ImageRgba8(RgbaImage::from_pixel(width, height, Rgba(color))))
}

#[test]
fn a_new_raster_is_transparent() {
    let raster = Raster::new(3, 2).unwrap();
    assert_eq!(raster.width(), 3);
    assert_eq!(raster.height(), 2);
    for row in 0..2 {
        for column in 0..3 {
            assert_eq!(raster.pixel(column, row), Some((0, 0, 0, 0)));
        }
    }
    assert_eq!(raster.pixel(3, 0), None);
    assert_eq!(raster.pixel(0, 2), None);
}

#[test]
fn a_raster_too_large_for_memory_is_not_made() {
    assert!(can_allocate(800, 600));
    assert!(can_allocate(0, u32::MAX));
    assert!(!can_allocate(u32::MAX, u32::MAX));
    assert!(Raster::new(u32::MAX, u32::MAX).is_none());
}

#[test]
fn decoding_keeps_size_and_pixels() {
    let mut picture = RgbaImage::new(2, 3);
    picture.put_pixel(1, 2, Rgba([9, 8, 7, 6]));
    let raster = Raster::from_image(&DynamicImage::ImageRgba8(picture.clone()));
    assert_eq!((raster.width(), raster.height()), (2, 3));
    assert_eq!(raster.pixel(1, 2), Some((9, 8, 7, 6)));
    assert_eq!(raster.pixel(0, 0), Some((0, 0, 0, 0)));
    assert_eq!(raster.into_image().to_rgba8(), picture);
}

#[test]
fn the_tile_pasted_last_shows() {
    let tiles = vec![
        FetchedTile { image: solid(2, 2, [10, 0, 0, 255]), x: 0, y: 0 },
        FetchedTile { image: solid(2, 2, [0, 20, 0, 255]), x: 1, y: 1 },
        FetchedTile { image: solid(2, 2, [0, 0, 30, 128]), x: 3, y: -1 },
    ];
    let mosaic = assemble_mosaic(4, 3, &tiles);
    assert_eq!((mosaic.width(), mosaic.height()), (4, 3));
    assert_eq!(mosaic.pixel(0, 0), Some((10, 0, 0, 255)));
    assert_eq!(mosaic.pixel(1, 0), Some((10, 0, 0, 255)));
    assert_eq!(mosaic.pixel(0, 1), Some((10, 0, 0, 255)));
    // The second tile was pasted over the corner of the first.
    assert_eq!(mosaic.pixel(1, 1), Some((0, 20, 0, 255)));
    assert_eq!(mosaic.pixel(2, 2), Some((0, 20, 0, 255)));
    // A pasted pixel replaces what was there, whatever its alpha.
    assert_eq!(mosaic.pixel(3, 0), Some((0, 0, 30, 128)));
    // Nothing lies here.
    assert_eq!(mosaic.pixel(2, 0), Some((0, 0, 0, 0)));
    assert_eq!(mosaic.pixel(0, 2), Some((0, 0, 0, 0)));
    assert_eq!(mosaic.pixel(3, 1), Some((0, 0, 0, 0)));
}

#[test]
fn tiles_that_do_not_overlap_can_be_pasted_in_any_order() {
    let forward = vec![
        FetchedTile { image: solid(2, 2, [1, 1, 1, 255]), x: 0, y: 0 },
        FetchedTile { image: solid(2, 2, [2, 2, 2, 255]), x: 2, y: 0 },
        FetchedTile { image: solid(2, 2, [3, 3, 3, 255]), x: 0, y: 2 },
    ];
    let backward = vec![
        FetchedTile { image: solid(2, 2, [3, 3, 3, 255]), x: 0, y: 2 },
        FetchedTile { image: solid(2, 2, [2, 2, 2, 255]), x: 2, y: 0 },
        FetchedTile { image: solid(2, 2, [1, 1, 1, 255]), x: 0, y: 0 },
    ];
    let first = assemble_mosaic(4, 4, &forward);
    let second = assemble_mosaic(4, 4, &backward);
    assert_eq!(first.into_image().to_rgba8(), second.into_image().to_rgba8());
}

#[test]
fn pasting_keeps_what_no_tile_covers() {
    let mut raster = solid(3, 3, [7, 7, 7, 255]);
    let tiles = vec![FetchedTile { image: solid(1, 1, [1, 2, 3, 4]), x: 1, y: 1 }];
    paste_tiles(&mut raster, &tiles);
    assert_eq!(raster.pixel(1, 1), Some((1, 2, 3, 4)));
    assert_eq!(raster.pixel(0, 0), Some((7, 7, 7, 255)));
    assert_eq!(raster.pixel(2, 2), Some((7, 7, 7, 255)));
    let far = vec![FetchedTile { image: solid(2, 2, [1, 2, 3, 4]), x: i64::MIN, y: i64::MAX }];
    paste_tiles(&mut raster, &far);
    assert_eq!(raster.pixel(1, 1), Some((1, 2, 3, 4)));
}

#[test]
fn compositing_blends_the_overlay_onto_the_mosaic() {
    let mosaic = solid(2, 2, [100, 100, 100, 255]);
    let mut layer = RgbaImage::new(2, 2);
    layer.put_pixel(0, 0, Rgba([200, 0, 0, 255]));
    layer.put_pixel(1, 0, Rgba([0, 0, 0, 0]));
    layer.put_pixel(0, 1, Rgba([255, 255, 255, 128]));
    let layer = Raster::from_image(&DynamicImage::ImageRgba8(layer));
    let snapshot = composite(mosaic, &layer);
    assert_eq!((snapshot.width(), snapshot.height()), (2, 2));
    // Opaque covers, transparent leaves, the rest is blended.
    assert_eq!(snapshot.pixel(0, 0), Some((200, 0, 0, 255)));
    assert_eq!(snapshot.pixel(1, 0), Some((100, 100, 100, 255)));
    assert_eq!(snapshot.pixel(1, 1), Some((100, 100, 100, 255)));
    let blended = snapshot.pixel(0, 1).unwrap();
    assert!(blended.0 > 100 && blended.0 < 255);
    assert!(blended.0 == blended.1 && blended.1 == blended.2);
    assert!(blended.3 >= 254);
}

#[test]
fn a_smaller_overlay_leaves_the_rest_of_the_mosaic() {
    let mosaic = solid(3, 3, [5, 6, 7, 255]);
    let layer = solid(1, 1, [9, 9, 9, 255]);
    let snapshot = composite(mosaic, &layer);
    assert_eq!(snapshot.pixel(0, 0), Some((9, 9, 9, 255)));
    assert_eq!(snapshot.pixel(1, 0), Some((5, 6, 7, 255)));
    assert_eq!(snapshot.pixel(2, 2), Some((5, 6, 7, 255)));
}
