use rasm::image::{Image, Pixel};
use rasm::object::Rect;

#[test]
fn create_png() {
    let mut img = Image::new(1080, 1080);
    let mut rect1 = Rect::with_coordinates((0, 0), (1080, 270));
    let mut rect2 = Rect::with_coordinates((0, 270), (1080, 540));
    let mut rect3 = Rect::with_coordinates((0, 540), (1080, 810));
    let mut rect4 = Rect::with_coordinates((0, 810), (1080, 1080));
    rect1.set_color(Pixel { red: 0, green: 75, blue: 150, alpha: 255 });
    rect2.set_color(Pixel { red: 150, green: 0, blue: 150, alpha: 255 });
    rect3.set_color(Pixel { red: 150, green: 75, blue: 0, alpha: 255 });
    rect4.set_color(Pixel { red: 0, green: 150, blue: 0, alpha: 255 });
    rect1.paste(&mut img);
    rect2.paste(&mut img);
    rect3.paste(&mut img);
    rect4.paste(&mut img);

    let bytes = img.to_vec();
    assert_eq!(bytes.len(), 1080 * 1080 * 4);
    // Four horizontal bands of 270 rows each, in paste order.
    let band = |r: usize| -> Pixel { img.layers[0].rows[r].pixels[540] };
    assert_eq!(band(0), Pixel { red: 0, green: 75, blue: 150, alpha: 255 });
    assert_eq!(band(269), Pixel { red: 0, green: 75, blue: 150, alpha: 255 });
    assert_eq!(band(270), Pixel { red: 150, green: 0, blue: 150, alpha: 255 });
    assert_eq!(band(539), Pixel { red: 150, green: 0, blue: 150, alpha: 255 });
    assert_eq!(band(540), Pixel { red: 150, green: 75, blue: 0, alpha: 255 });
    assert_eq!(band(810), Pixel { red: 0, green: 150, blue: 0, alpha: 255 });
    assert_eq!(band(1079), Pixel { red: 0, green: 150, blue: 0, alpha: 255 });
    // The byte stream matches the collapsed pixels.
    assert_eq!(bytes[0], 0);
    assert_eq!(bytes[1], 75);
    assert_eq!(bytes[2], 150);
    assert_eq!(bytes[3], 255);
}
