use graphics::{
    composite_pixel, draw_blended, draw_porter_duff, BlendMode, flood_fill, flood_fill_with_reference, flood_fill_within, mask_image,
    replace_color, Color, FillError, Image, ImageError, Point, Rect, Size,
};

fn size(width: i32, height: i32) -> Size {
    Size { width, height }
}

fn pixel(image: &Image, x: i32, y: i32) -> Color {
    image.pixel_color(Point { x, y }).unwrap()
}

#[test]
fn test_replace_color() {
    let bytes = vec![
        0xff, 0xba, 0x43, 0xff, // 1
        0x54, 0x00, 0x13, 0xff, // 2
        0xda, 0xda, 0x01, 0xff, // 3
        0x54, 0x00, 0x13, 0x7a, // 4
    ];
    let mut image = Image::new(bytes, size(2, 2), 8);

    let target_color = Color::from_rgb_u32(0x540013);
    let replacement_color = Color::from_rgb_u32(0xff13ff);
    replace_color(&mut image, &target_color, &replacement_color);

    let expected_bytes = vec![
        0xff, 0xba, 0x43, 0xff, // 1
        0xff, 0x13, 0xff, 0xff, // 2
        0xda, 0xda, 0x01, 0xff, // 3
        0x54, 0x00, 0x13, 0x7a, // 4
    ];

    assert_eq!(image.data, expected_bytes);
}

#[test]
fn test_flood_fill() {
    let mut image = Image::color(&Color::red(), size(32, 32));
    let fill_color = Color::from_rgb_u32(0x00ffff);
    let result = flood_fill(&mut image, Point { x: 2, y: 5 }, &fill_color).unwrap();

    let expected_image = Image::color(&Color::cyan(), size(32, 32));
    assert!(image.appears_equal_to(&expected_image));
    assert_eq!(image.data, expected_image.data);
    assert_eq!(result.origin, Point::zero());
    assert_eq!(result.size, size(32, 32));
}

#[test]
fn flood_fill_with_own_colour_changes_nothing() {
    let mut image = Image::color(&Color::red(), size(6, 4));
    image.set_pixel_color(Color::blue(), Point { x: 3, y: 1 });
    let before = image.clone();
    let result = flood_fill(&mut image, Point { x: 1, y: 2 }, &Color::red()).unwrap();
    assert_eq!(image.data, before.data);
    assert!(result.size.width >= 1 && result.size.height >= 1);
    assert!(result.contains(Point { x: 1, y: 2 }));
}

#[test]
fn flood_fill_stops_at_other_colours() {
    // A vertical wall of blue at x = 2 splits the red image in two.
    let mut image = Image::color(&Color::red(), size(5, 3));
    for y in 0..3 {
        image.set_pixel_color(Color::blue(), Point { x: 2, y });
    }
    let result = flood_fill(&mut image, Point { x: 0, y: 0 }, &Color::green()).unwrap();
    for y in 0..3 {
        assert_eq!(pixel(&image, 0, y), Color::green());
        assert_eq!(pixel(&image, 1, y), Color::green());
        assert_eq!(pixel(&image, 2, y), Color::blue());
        assert_eq!(pixel(&image, 3, y), Color::red());
        assert_eq!(pixel(&image, 4, y), Color::red());
    }
    assert_eq!(result, Rect::new(0, 0, 2, 3));
}

#[test]
fn flood_fill_reaches_around_corners() {
    // Red path shaped like a U inside blue.
    let mut image = Image::color(&Color::blue(), size(3, 3));
    for (x, y) in [(0, 0), (0, 1), (0, 2), (1, 2), (2, 2), (2, 1), (2, 0)] {
        image.set_pixel_color(Color::red(), Point { x, y });
    }
    flood_fill(&mut image, Point { x: 0, y: 0 }, &Color::white()).unwrap();
    assert_eq!(pixel(&image, 2, 0), Color::white());
    assert_eq!(pixel(&image, 1, 2), Color::white());
    assert_eq!(pixel(&image, 1, 1), Color::blue());
    assert_eq!(pixel(&image, 1, 0), Color::blue());
}

#[test]
fn flood_fill_rejects_point_outside() {
    let mut image = Image::color(&Color::red(), size(4, 4));
    let before = image.clone();
    assert_eq!(
        flood_fill(&mut image, Point { x: 4, y: 0 }, &Color::green()),
        Err(FillError::PointOutsideBounds)
    );
    assert_eq!(
        flood_fill(&mut image, Point { x: -1, y: 2 }, &Color::green()),
        Err(FillError::PointOutsideBounds)
    );
    assert_eq!(image.data, before.data);
}

#[test]
fn flood_fill_within_bounding_box() {
    let mut image = Image::color(&Color::red(), size(6, 6));
    let result =
        flood_fill_within(&mut image, Point { x: 2, y: 2 }, &Color::green(), Rect::new(1, 1, 3, 2))
            .unwrap();
    assert_eq!(result, Rect::new(1, 1, 3, 2));
    for y in 0..6 {
        for x in 0..6 {
            let inside = (1..4).contains(&x) && (1..3).contains(&y);
            let expected = if inside { Color::green() } else { Color::red() };
            assert_eq!(pixel(&image, x, y), expected);
        }
    }
}

#[test]
fn flood_fill_within_clamps_and_rejects() {
    let mut image = Image::color(&Color::red(), size(4, 4));
    assert_eq!(
        flood_fill_within(&mut image, Point { x: 1, y: 1 }, &Color::green(), Rect::new(10, 10, 2, 2)),
        Err(FillError::BoundsOutsideImage)
    );
    assert_eq!(
        flood_fill_within(&mut image, Point { x: 0, y: 0 }, &Color::green(), Rect::new(1, 1, 2, 2)),
        Err(FillError::PointOutsideBounds)
    );
    let result =
        flood_fill_within(&mut image, Point { x: 3, y: 3 }, &Color::green(), Rect::new(-5, -5, 20, 20))
            .unwrap();
    assert_eq!(result, Rect::new(0, 0, 4, 4));
}

#[test]
fn reference_fill_recolours_target_only() {
    let mut reference = Image::color(&Color::red(), size(4, 2));
    reference.set_pixel_color(Color::blue(), Point { x: 2, y: 0 });
    reference.set_pixel_color(Color::blue(), Point { x: 2, y: 1 });
    let reference_before = reference.clone();
    let mut target = Image::empty(size(4, 2));
    let result =
        flood_fill_with_reference(&mut target, &reference, Point { x: 0, y: 1 }, &Color::yellow())
            .unwrap();
    assert_eq!(reference.data, reference_before.data);
    assert_eq!(result, Rect::new(0, 0, 2, 2));
    for y in 0..2 {
        assert_eq!(pixel(&target, 0, y), Color::yellow());
        assert_eq!(pixel(&target, 1, y), Color::yellow());
        assert_eq!(pixel(&target, 2, y), Color::clear());
        assert_eq!(pixel(&target, 3, y), Color::clear());
    }
}

#[test]
fn reference_fill_rejects_mismatched_target() {
    let reference = Image::color(&Color::red(), size(4, 2));
    let mut target = Image::empty(size(3, 2));
    assert_eq!(
        flood_fill_with_reference(&mut target, &reference, Point { x: 0, y: 0 }, &Color::yellow()),
        Err(FillError::MismatchedSecondary)
    );
}

#[test]
fn mask_image_marks_target_colour() {
    let mut image = Image::color(&Color::red(), size(2, 2));
    image.set_pixel_color(Color::blue(), Point { x: 1, y: 0 });
    let mask = mask_image(&image, &Color::blue());
    assert_eq!(mask.data, vec![0, 0, 0, 0, 0, 0, 0, 255, 0, 0, 0, 0, 0, 0, 0, 0]);
}

#[test]
fn draw_image_over_with_offset_and_clipping() {
    let mut canvas = Image::color(&Color::white(), size(4, 3));
    let mut stamp = Image::color(&Color::red(), size(2, 2));
    stamp.set_pixel_color(Color::blue(), Point { x: 0, y: 0 });
    canvas.draw_image_over(&stamp, Point { x: 3, y: -1 });
    assert_eq!(pixel(&canvas, 3, 0), Color::red());
    assert_eq!(pixel(&canvas, 2, 0), Color::white());
    assert_eq!(pixel(&canvas, 3, 1), Color::white());

    let mut canvas = Image::color(&Color::white(), size(4, 3));
    canvas.draw_image_over(&stamp, Point { x: -1, y: -1 });
    assert_eq!(pixel(&canvas, 0, 0), Color::red());
    assert_eq!(pixel(&canvas, 1, 0), Color::white());
}

#[test]
fn drawing_off_canvas_changes_nothing() {
    let stamp = Image::color(&Color::red(), size(3, 3));
    for location in [
        Point { x: 4, y: 0 },
        Point { x: 0, y: 5 },
        Point { x: -3, y: 0 },
        Point { x: 0, y: -3 },
    ] {
        let mut canvas = Image::color(&Color::white(), size(4, 5));
        let before = canvas.clone();
        canvas.draw_image_over(&stamp, location);
        assert_eq!(canvas.data, before.data);
        draw_blended(&mut canvas, &stamp, location, &|_base: Color, top: Color| top);
        assert_eq!(canvas.data, before.data);
    }
}

#[test]
fn draw_blended_applies_blend_to_covered_pixels() {
    let mut canvas = Image::color(&Color::from_rgb_u32(0x102030), size(3, 1));
    let stamp = Image::color(&Color::from_rgb_u32(0x010101), size(2, 1));
    draw_blended(&mut canvas, &stamp, Point { x: 1, y: 0 }, &|base: Color, top: Color| Color {
        red: base.red.wrapping_add(top.red),
        green: base.green.wrapping_add(top.green),
        blue: base.blue.wrapping_add(top.blue),
        alpha: base.alpha,
    });
    assert_eq!(pixel(&canvas, 0, 0), Color::from_rgb_u32(0x102030));
    assert_eq!(pixel(&canvas, 1, 0), Color::from_rgb_u32(0x112131));
    assert_eq!(pixel(&canvas, 2, 0), Color::from_rgb_u32(0x112131));
}

#[test]
fn trim_removes_transparent_edges() {
    let mut image = Image::empty(size(5, 4));
    image.set_pixel_color(Color::red(), Point { x: 1, y: 1 });
    image.set_pixel_color(Color::blue(), Point { x: 3, y: 2 });
    let rect = image.trim().unwrap();
    assert_eq!(rect, Rect::new(1, 1, 3, 2));
    assert_eq!(image.size, size(3, 2));
    assert_eq!(image.bytes_per_row, 12);
    assert_eq!(pixel(&image, 0, 0), Color::red());
    assert_eq!(pixel(&image, 2, 1), Color::blue());
    assert_eq!(pixel(&image, 1, 0), Color::clear());
}

#[test]
fn trim_when_not_required_keeps_image() {
    let mut image = Image::color(&Color::red(), size(3, 2));
    let before = image.clone();
    let rect = image.trim().unwrap();
    assert_eq!(rect, Rect::new(0, 0, 3, 2));
    assert_eq!(image, before);
}

#[test]
fn trim_errors() {
    let mut image = Image::empty(size(3, 3));
    assert_eq!(image.trim(), Err(ImageError::OnlyTransparentPixels));
    let mut image = Image::color(&Color::red(), size(3, 3));
    assert_eq!(
        image.trim_in_container(Rect::new(5, 5, 2, 2)),
        Err(ImageError::ContainerOutsideImage)
    );
}

#[test]
fn crop_with_offset_limits_and_rejects() {
    let mut image = Image::color(&Color::red(), size(4, 4));
    image.set_pixel_color(Color::blue(), Point { x: 3, y: 3 });
    image.crop_with_offset(size(5, 5), Point { x: 2, y: 2 }).unwrap();
    assert_eq!(image.size, size(2, 2));
    assert_eq!(pixel(&image, 1, 1), Color::blue());

    let mut image = Image::color(&Color::red(), size(4, 4));
    assert_eq!(
        image.crop_with_offset(size(2, 2), Point { x: -1, y: 0 }),
        Err(ImageError::InvalidDimensions)
    );
}

#[test]
fn flips() {
    let mut image = Image::empty(size(3, 2));
    image.set_pixel_color(Color::red(), Point { x: 0, y: 0 });
    image.set_pixel_color(Color::blue(), Point { x: 1, y: 1 });
    let mut horizontal = image.clone();
    horizontal.flip_horizontally();
    assert_eq!(pixel(&horizontal, 2, 0), Color::red());
    assert_eq!(pixel(&horizontal, 1, 1), Color::blue());
    assert_eq!(pixel(&horizontal, 0, 0), Color::clear());
    let mut vertical = image.clone();
    vertical.flip_vertically();
    assert_eq!(pixel(&vertical, 0, 1), Color::red());
    assert_eq!(pixel(&vertical, 1, 0), Color::blue());
}

#[test]
fn subimage_copies_region() {
    let mut image = Image::color(&Color::red(), size(3, 3));
    image.set_pixel_color(Color::blue(), Point { x: 2, y: 2 });
    let sub = image.subimage(Rect::new(1, 1, 3, 3)).unwrap();
    assert_eq!(sub.size, size(3, 3));
    assert_eq!(pixel(&sub, 0, 0), Color::red());
    assert_eq!(pixel(&sub, 1, 1), Color::blue());
    assert_eq!(pixel(&sub, 2, 2), Color::clear());
}

#[test]
fn transparency_and_appearance() {
    let empty = Image::empty(size(2, 2));
    assert!(empty.is_transparent());
    let mut other = Image::new(vec![9, 9, 9, 0, 0, 0, 0, 0, 0, 0, 0, 0, 0, 0, 0, 0], size(2, 2), 8);
    assert!(other.appears_equal_to(&empty));
    other.set_pixel_color(Color::red(), Point { x: 1, y: 1 });
    assert!(!other.is_transparent());
    assert!(!other.appears_equal_to(&empty));
    assert!(!empty.appears_equal_to(&Image::empty(size(2, 3))));
    assert_eq!(empty.pixel_color(Point { x: 2, y: 0 }), None);
}

#[test]
fn pixel_buffer_data() {
    let image = Image::color(
        &Color { red: 0xad, green: 0xde, blue: 0x19, alpha: 0xff },
        Size { width: 13, height: 2 },
    );

    let result = image.pixel_buffer_data();

    assert_eq!(result.len(), 128);

    assert_eq!(result[0], 0x19);
    assert_eq!(result[1], 0xde);
    assert_eq!(result[2], 0xad);
    assert_eq!(result[3], 0xff);
}

#[test]
fn pixel_buffer_pads_rows() {
    let image = Image::color(&Color { red: 1, green: 2, blue: 3, alpha: 4 }, size(2, 2));
    assert_eq!(image.pixel_buffer_bytes_per_row(), 64);
    let buffer = image.pixel_buffer_image();
    assert_eq!(buffer.bytes_per_row, 64);
    assert_eq!(&buffer.data[64..72], &[3, 2, 1, 4, 3, 2, 1, 4]);
    assert_eq!(buffer.data[8], 0);
}

#[test]
fn colors_lists_each_colour_once() {
    let mut image = Image::color(&Color::red(), size(3, 2));
    image.set_pixel_color(Color::blue(), Point { x: 1, y: 0 });
    image.set_pixel_color(Color::blue(), Point { x: 2, y: 1 });
    image.set_pixel_color(Color::clear(), Point { x: 0, y: 1 });
    assert_eq!(image.colors(), vec![Color::red(), Color::blue(), Color::clear()]);
}

#[test]
fn composite_pixel_porter_duff_keeps_colour() {
    let base = Color { red: 10, green: 20, blue: 30, alpha: 200 };
    let top = Color { red: 250, green: 240, blue: 230, alpha: 128 };
    for mode in [BlendMode::DestinationIn, BlendMode::DestinationOut] {
        let out = composite_pixel(base, top, mode, &|_b: Color, t: Color| t, &|_b: Color, _t: Color| 77u8);
        assert_eq!(out, Color { red: 10, green: 20, blue: 30, alpha: 77 });
    }
    let out = composite_pixel(base, top, BlendMode::Multiply, &|_b: Color, t: Color| t, &|_b: Color, _t: Color| 77u8);
    assert_eq!(out, top);
}

#[test]
fn composite_pixel_skips_two_transparent_pixels() {
    let base = Color { red: 1, green: 2, blue: 3, alpha: 0 };
    let top = Color { red: 9, green: 9, blue: 9, alpha: 0 };
    let out = composite_pixel(base, top, BlendMode::Normal, &|_b: Color, t: Color| t, &|_b: Color, _t: Color| 5u8);
    assert_eq!(out, base);
    let out = composite_pixel(base, top, BlendMode::DestinationOut, &|_b: Color, t: Color| t, &|_b: Color, _t: Color| 5u8);
    assert_eq!(out, base);
}

#[test]
fn either_gives_the_value() {
    let image = Image::color(&Color::red(), size(1, 1));
    let borrowed: graphics::composite::Either<Image> = graphics::composite::Either::Borrowed(&image);
    assert_eq!(borrowed.get().data, image.data);
    let owned: graphics::composite::Either<Image> = graphics::composite::Either::Owned(image.clone());
    assert_eq!(owned.get().data, image.data);
}

#[test]
fn empty_image_edges() {
    let mut image = Image::empty(size(0, 0));
    assert!(image.data.is_empty());
    assert_eq!(
        flood_fill(&mut image, Point { x: 0, y: 0 }, &Color::red()),
        Err(FillError::PointOutsideBounds)
    );
    assert!(image.is_transparent());
    assert_eq!(image.colors(), Vec::new());
    let mut wide = Image::color(&Color::green(), size(5, 0));
    assert_eq!(wide.trim(), Err(ImageError::OnlyTransparentPixels));
}

#[test]
fn padded_rows_are_respected() {
    // Two pixels per row, rows twelve bytes apart: four padding bytes each.
    let data = vec![
        1, 1, 1, 255, 2, 2, 2, 255, 9, 9, 9, 9, //
        1, 1, 1, 255, 1, 1, 1, 255, 9, 9, 9, 9,
    ];
    let mut image = Image::new(data, size(2, 2), 12);
    let result = flood_fill(&mut image, Point { x: 0, y: 0 }, &Color::black()).unwrap();
    assert_eq!(result, Rect::new(0, 0, 2, 2));
    assert_eq!(pixel(&image, 1, 0), Color { red: 2, green: 2, blue: 2, alpha: 255 });
    assert_eq!(pixel(&image, 1, 1), Color::black());
    assert_eq!(&image.data[8..12], &[9, 9, 9, 9]);
    assert_eq!(&image.data[20..24], &[9, 9, 9, 9]);
}

#[test]
fn porter_duff_drawing_keeps_colour_and_padding() {
    let data = vec![
        10, 20, 30, 200, 40, 50, 60, 100, 7, 7, 7, 7, //
        1, 2, 3, 4, 5, 6, 7, 8, 7, 7, 7, 7,
    ];
    let mut image = Image::new(data, size(2, 2), 12);
    let mask = Image::color(&Color { red: 0, green: 0, blue: 0, alpha: 255 }, size(1, 2));
    draw_porter_duff(&mut image, &mask, Point { x: 1, y: 0 }, BlendMode::DestinationOut, &|_b: Color, _t: Color| 0u8);
    assert_eq!(
        image.data,
        vec![10, 20, 30, 200, 40, 50, 60, 0, 7, 7, 7, 7, 1, 2, 3, 4, 5, 6, 7, 0, 7, 7, 7, 7]
    );
}

#[test]
fn drawing_keeps_row_padding() {
    let data = vec![9u8; 24];
    let mut image = Image::new(data, size(2, 2), 12);
    let stamp = Image::color(&Color::red(), size(3, 3));
    image.draw_image_over(&stamp, Point { x: -1, y: -1 });
    assert_eq!(&image.data[8..12], &[9, 9, 9, 9]);
    assert_eq!(&image.data[20..24], &[9, 9, 9, 9]);
    assert_eq!(pixel(&image, 1, 1), Color::red());
}
