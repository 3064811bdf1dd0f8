use rasm::image::{Image, Pixel};
use rasm::util::Canvas;
use rasm::RenderError;

#[test]
fn unknown_format_is_a_configuration_error() {
    match Canvas::new("gif", 10, 10) {
        Err(e) => assert_eq!(e, RenderError::UnknownFormat),
        Ok(_) => panic!("an unknown format tag must be rejected"),
    }
}

#[test]
fn new_canvas_is_opaque_white() {
    let canvas = Canvas::new("png", 5, 4).unwrap();
    assert_eq!(canvas.width, 5);
    assert_eq!(canvas.height, 4);
    let img = canvas.fmt();
    assert_eq!(img.width, 5);
    assert_eq!(img.height, 4);
    assert_eq!(
        img.layers[0].rows[3].pixels[4],
        Pixel { red: 255, green: 255, blue: 255, alpha: 255 }
    );
}

#[test]
fn fifo_later_rect_wins_at_overlap() {
    let mut canvas = Canvas::new("png", 10, 10).unwrap();
    canvas.new_rect((0, 0), (60, 60), [10, 20, 30, 255]);
    canvas.new_rect((40, 40), (100, 100), [200, 100, 50, 128]);
    assert!(canvas.save().is_ok());
    // In the overlap the second rectangle composites over the first:
    // compose((10,20,30,255), (200,100,50,128)).
    let expected = Pixel { red: 10, green: 20, blue: 30, alpha: 255 }
        .compose(Pixel { red: 200, green: 100, blue: 50, alpha: 128 });
    assert_eq!(canvas.fmt().layers[0].rows[5].pixels[5], expected);
    // Outside the overlap the first rectangle is untouched.
    assert_eq!(
        canvas.fmt().layers[0].rows[1].pixels[1],
        Pixel { red: 10, green: 20, blue: 30, alpha: 255 }
    );
}

#[test]
fn end_to_end_red_top_blue_bottom() {
    let mut canvas = Canvas::new("png", 100, 100).unwrap();
    canvas.new_rect((0, 0), (100, 50), [255, 0, 0, 255]);
    canvas.new_rect((0, 50), (100, 100), [0, 0, 255, 255]);
    let bytes = canvas.save().unwrap();

    let red = Pixel { red: 255, green: 0, blue: 0, alpha: 255 };
    let blue = Pixel { red: 0, green: 0, blue: 255, alpha: 255 };
    let img = canvas.fmt();
    for r in 0..100 {
        for c in [0usize, 37, 99] {
            let expected = if r < 50 { red } else { blue };
            assert_eq!(img.layers[0].rows[r].pixels[c], expected);
        }
    }

    // The saved PNG decodes back to exactly these pixels.
    let decoded = Image::from_png_bytes(&bytes).unwrap();
    assert_eq!(decoded.width, 100);
    assert_eq!(decoded.height, 100);
    assert_eq!(decoded.layers[0].rows[0].pixels[0], red);
    assert_eq!(decoded.layers[0].rows[49].pixels[99], red);
    assert_eq!(decoded.layers[0].rows[50].pixels[0], blue);
    assert_eq!(decoded.layers[0].rows[99].pixels[99], blue);
}

#[test]
fn end_to_end_opaque_image_on_transparent_background() {
    let mut canvas = Canvas::new("png", 20, 20).unwrap();
    canvas.set_background(Pixel { red: 0, green: 0, blue: 0, alpha: 0 });

    let mut data = Vec::new();
    for r in 0..10usize {
        for c in 0..10usize {
            data.push((r * 25) as u8);
            data.push((c * 25) as u8);
            data.push((r * 10 + c) as u8);
            data.push(255u8);
        }
    }
    let source = Image::from_rgba(10, 10, &data);
    canvas.add_image((0, 0), source);
    let bytes = canvas.save().unwrap();

    let img = canvas.fmt();
    for r in 0..20usize {
        for c in 0..20usize {
            let got = img.layers[0].rows[r].pixels[c];
            if r < 10 && c < 10 {
                let expected = Pixel {
                    red: (r * 25) as u8,
                    green: (c * 25) as u8,
                    blue: (r * 10 + c) as u8,
                    alpha: 255,
                };
                assert_eq!(got, expected);
            } else {
                assert_eq!(got, Pixel { red: 0, green: 0, blue: 0, alpha: 0 });
            }
        }
    }

    let decoded = Image::from_png_bytes(&bytes).unwrap();
    assert_eq!(decoded.width, 20);
    assert_eq!(decoded.height, 20);
    assert_eq!(
        decoded.layers[0].rows[3].pixels[4],
        Pixel { red: 75, green: 100, blue: 34, alpha: 255 }
    );
    assert_eq!(decoded.layers[0].rows[15].pixels[15], Pixel { red: 0, green: 0, blue: 0, alpha: 0 });
}

#[test]
fn out_of_bounds_drawable_aborts_the_render() {
    let mut canvas = Canvas::new("png", 10, 10).unwrap();
    let data = vec![1u8; 10 * 10 * 4];
    let source = Image::from_rgba(10, 10, &data);
    // Placed at 50% of a 10-pixel canvas, a 10x10 image exceeds the bounds.
    canvas.add_image((50, 50), source);
    assert_eq!(canvas.save(), Err(RenderError::OutOfBounds));
}

#[test]
fn resize_queued_image_before_save() {
    let mut canvas = Canvas::new("png", 20, 20).unwrap();
    canvas.set_background(Pixel { red: 0, green: 0, blue: 0, alpha: 0 });
    let data = vec![200u8; 8 * 8 * 4];
    let source = Image::from_rgba(8, 8, &data);
    let idx = canvas.add_image((0, 0), source);
    assert_eq!(canvas.resize_queued(idx, [4, 4]), Ok(()));
    assert!(canvas.save().is_ok());
    let img = canvas.fmt();
    // The resized image covers only a 4x4 corner.
    assert_ne!(img.layers[0].rows[0].pixels[0].alpha, 0);
    assert_eq!(img.layers[0].rows[10].pixels[10], Pixel { red: 0, green: 0, blue: 0, alpha: 0 });
}

#[test]
fn saved_jpg_is_a_jpeg_file() {
    let mut canvas = Canvas::new("jpg", 8, 8).unwrap();
    canvas.new_rect((0, 0), (100, 100), [255, 0, 0, 255]);
    let bytes = canvas.save().unwrap();
    assert!(bytes.len() > 2);
    assert_eq!(bytes[0], 0xFF);
    assert_eq!(bytes[1], 0xD8);
    let decoded = Image::from_jpg_bytes(&bytes).unwrap();
    assert_eq!(decoded.width, 8);
    assert_eq!(decoded.height, 8);
}

#[test]
fn parse_assets_accepts_the_manifest_list() {
    let infos = vec![rasm::asset::AssetInfo {
        id: String::from("icon"),
        src: String::from("icon.svg"),
    }];
    rasm::util::parse_assets(infos);
}
