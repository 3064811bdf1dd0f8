use rasm::image::{Image, Layer, Pixel, Row};
use rasm::object::Object;
use rasm::RenderError;

fn sample_rgba(width: usize, height: usize) -> Vec<u8> {
    let mut data = Vec::new();
    for r in 0..height {
        for c in 0..width {
            data.push((r * 40 + 1) as u8);
            data.push((c * 30 + 2) as u8);
            data.push((r + c) as u8);
            data.push(255u8);
        }
    }
    data
}

#[test]
fn from_rgba_reads_pixels_row_major() {
    let data = vec![1u8, 2, 3, 4, 5, 6, 7, 8, 9, 10, 11, 12, 13, 14, 15, 16];
    let img = Image::from_rgba(2, 2, &data);
    assert_eq!(img.width, 2);
    assert_eq!(img.height, 2);
    assert_eq!(img.layers.len(), 1);
    assert_eq!(img.layers[0].rows[0].pixels[0], Pixel { red: 1, green: 2, blue: 3, alpha: 4 });
    assert_eq!(img.layers[0].rows[0].pixels[1], Pixel { red: 5, green: 6, blue: 7, alpha: 8 });
    assert_eq!(img.layers[0].rows[1].pixels[0], Pixel { red: 9, green: 10, blue: 11, alpha: 12 });
    assert_eq!(
        img.layers[0].rows[1].pixels[1],
        Pixel { red: 13, green: 14, blue: 15, alpha: 16 }
    );
}

#[test]
fn collapse_single_layer_unchanged_byte_for_byte() {
    let data = sample_rgba(3, 2);
    let mut img = Image::from_rgba(3, 2, &data);
    let before = img.clone();
    img.collapse();
    assert_eq!(img.layers.len(), 1);
    assert_eq!(img.to_vec(), data);
    let mut before = before;
    assert_eq!(before.to_vec(), data);
}

#[test]
fn collapse_blends_layers_in_paint_order() {
    // Bottom layer opaque red, top layer 50%-alpha blue.
    let red = vec![255u8, 0, 0, 255];
    let blue = vec![0u8, 0, 255, 128];
    let mut img = Image::from_rgba(1, 1, &red);
    img.add_layer(Layer::from_rgba(1, 1, &blue));
    img.collapse();
    assert_eq!(img.layers.len(), 1);
    assert_eq!(
        img.layers[0].rows[0].pixels[0],
        Pixel { red: 127, green: 0, blue: 128, alpha: 255 }
    );
}

#[test]
fn collapse_is_not_commutative() {
    let red = vec![255u8, 0, 0, 255];
    let blue = vec![0u8, 0, 255, 128];
    let mut forward = Image::from_rgba(1, 1, &red);
    forward.add_layer(Layer::from_rgba(1, 1, &blue));
    forward.collapse();
    let mut reversed = Image::from_rgba(1, 1, &blue);
    reversed.add_layer(Layer::from_rgba(1, 1, &red));
    reversed.collapse();
    // Opaque red on top covers everything.
    assert_eq!(
        reversed.layers[0].rows[0].pixels[0],
        Pixel { red: 255, green: 0, blue: 0, alpha: 255 }
    );
    assert_ne!(forward.to_vec(), reversed.to_vec());
}

#[test]
fn to_vec_round_trips_rgba_bytes() {
    let data = sample_rgba(4, 3);
    let mut img = Image::from_rgba(4, 3, &data);
    assert_eq!(img.to_vec(), data);
}

#[test]
fn as_pixels_flattens_row_major() {
    let data = vec![1u8, 2, 3, 4, 5, 6, 7, 8];
    let mut img = Image::from_rgba(2, 1, &data);
    let pixels = img.as_pixels();
    assert_eq!(pixels.len(), 2);
    assert_eq!(pixels[0], Pixel { red: 1, green: 2, blue: 3, alpha: 4 });
    assert_eq!(pixels[1], Pixel { red: 5, green: 6, blue: 7, alpha: 8 });
}

#[test]
fn resize_to_zero_extent_fails() {
    let data = sample_rgba(4, 4);
    let mut img = Image::from_rgba(4, 4, &data);
    assert_eq!(img.resize([0, 0]), Err(RenderError::InvalidResize));
    // The image is untouched by the failed resize.
    assert_eq!(img.width, 4);
    assert_eq!(img.height, 4);
    assert_eq!(img.to_vec(), data);
}

#[test]
fn resize_to_current_size_is_a_noop() {
    let data = sample_rgba(4, 4);
    let mut img = Image::from_rgba(4, 4, &data);
    assert_eq!(img.resize([4, 4]), Ok(()));
    assert_eq!(img.to_vec(), data);
}

#[test]
fn resize_zero_width_preserves_aspect_ratio() {
    let data = sample_rgba(4, 2);
    let mut img = Image::from_rgba(4, 2, &data);
    // Requested height 1 at a 4:2 aspect ratio resolves to width 4*1/2.
    assert_eq!(img.resize([0, 1]), Ok(()));
    assert_eq!(img.width, 2);
    assert_eq!(img.height, 1);
    assert_eq!(img.layers.len(), 1);
}

#[test]
fn resize_zero_height_preserves_aspect_ratio() {
    let data = sample_rgba(4, 2);
    let mut img = Image::from_rgba(4, 2, &data);
    assert_eq!(img.resize([2, 0]), Ok(()));
    assert_eq!(img.width, 2);
    assert_eq!(img.height, 1);
}

#[test]
fn resize_resamples_to_target_size() {
    let data = sample_rgba(4, 4);
    let mut img = Image::from_rgba(4, 4, &data);
    assert_eq!(img.resize([2, 2]), Ok(()));
    assert_eq!(img.width, 2);
    assert_eq!(img.height, 2);
    assert_eq!(img.layers.len(), 1);
    assert_eq!(img.to_vec().len(), 16);
}

#[test]
fn rect_resize_is_a_noop() {
    let mut rect = rasm::object::Rect::with_coordinates((0, 0), (4, 4));
    assert_eq!(rect.resize([0, 0]), Ok(()));
    assert_eq!(rect.width, 4);
    assert_eq!(rect.height, 4);
}

#[test]
fn row_accessors_are_one_based() {
    let mut row = Row::new(3);
    row.add_pixel(Pixel { red: 9, green: 8, blue: 7, alpha: 6 });
    assert_eq!(row.pixels.len(), 4);
    assert_eq!(*row.get_pixel(4), Pixel { red: 9, green: 8, blue: 7, alpha: 6 });
    *row.get_pixel(1) = Pixel { red: 1, green: 1, blue: 1, alpha: 1 };
    assert_eq!(row.pixels[0], Pixel { red: 1, green: 1, blue: 1, alpha: 1 });
}

#[test]
fn layer_fill_and_row_column_writes() {
    let mut layer = Layer::new(3, 2);
    let teal = Pixel { red: 0, green: 128, blue: 128, alpha: 255 };
    layer.fill(teal);
    assert_eq!(layer.rows[1].pixels[2], teal);
    let mark = Pixel { red: 1, green: 2, blue: 3, alpha: 4 };
    layer.mut_row(0, mark);
    assert_eq!(layer.rows[0].pixels[1], mark);
    assert_eq!(layer.rows[1].pixels[1], teal);
    layer.mut_col(2, mark);
    assert_eq!(layer.rows[1].pixels[2], mark);
    assert_eq!(layer.rows[1].pixels[0], teal);
}

#[test]
fn layer_construct_starts_empty() {
    let rect = rasm::object::Rect::new();
    let layer = Layer::construct(rect, 7, 5);
    assert_eq!(layer.width(), 7);
    assert_eq!(layer.height(), 0);
    assert_eq!(layer.rows.len(), 0);
}

#[test]
fn paste_adds_a_transparent_staging_layer() {
    let mut img = Image::new(4, 4);
    let mut rect = rasm::object::Rect::with_coordinates((1, 1), (3, 3));
    rect.set_color(Pixel { red: 50, green: 60, blue: 70, alpha: 255 });
    rect.paste(&mut img);
    assert_eq!(img.layers.len(), 2);
    let top = &img.layers[1];
    assert_eq!(top.rows[0].pixels[0], Pixel { red: 0, green: 0, blue: 0, alpha: 0 });
    assert_eq!(top.rows[1].pixels[1], Pixel { red: 50, green: 60, blue: 70, alpha: 255 });
    assert_eq!(top.rows[2].pixels[2], Pixel { red: 50, green: 60, blue: 70, alpha: 255 });
    assert_eq!(top.rows[3].pixels[3], Pixel { red: 0, green: 0, blue: 0, alpha: 0 });
    let mut img = img;
    img.collapse();
    // The pasted colour covers the white base only inside the region.
    assert_eq!(
        img.layers[0].rows[1].pixels[1],
        Pixel { red: 50, green: 60, blue: 70, alpha: 255 }
    );
    assert_eq!(
        img.layers[0].rows[0].pixels[0],
        Pixel { red: 255, green: 255, blue: 255, alpha: 255 }
    );
}
