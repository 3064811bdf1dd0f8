use rasm::image::Pixel;

#[test]
fn compose_transparent_source_returns_dst() {
    let dst = Pixel { red: 10, green: 20, blue: 30, alpha: 200 };
    let src = Pixel { red: 99, green: 98, blue: 97, alpha: 0 };
    assert_eq!(dst.compose(src), dst);
}

#[test]
fn compose_transparent_source_even_on_transparent_dst() {
    let dst = Pixel { red: 10, green: 20, blue: 30, alpha: 0 };
    let src = Pixel { red: 99, green: 98, blue: 97, alpha: 0 };
    assert_eq!(dst.compose(src), dst);
}

#[test]
fn compose_opaque_source_returns_src() {
    let dst = Pixel { red: 10, green: 20, blue: 30, alpha: 200 };
    let src = Pixel { red: 99, green: 98, blue: 97, alpha: 255 };
    assert_eq!(dst.compose(src), src);
}

#[test]
fn compose_transparent_destination_takes_src_verbatim() {
    let dst = Pixel { red: 0, green: 0, blue: 0, alpha: 0 };
    let src = Pixel { red: 1, green: 2, blue: 3, alpha: 77 };
    assert_eq!(dst.compose(src), src);
}

#[test]
fn compose_is_deterministic() {
    let dst = Pixel { red: 41, green: 142, blue: 33, alpha: 214 };
    let src = Pixel { red: 17, green: 250, blue: 3, alpha: 90 };
    assert_eq!(dst.compose(src), dst.compose(src));
}

#[test]
fn compose_blend_formula_exact() {
    // 50%-alpha blue over opaque red: each channel is
    // ceil((src.a*src.c + (255-src.a)*dst.c) / 255).
    let dst = Pixel { red: 255, green: 0, blue: 0, alpha: 255 };
    let src = Pixel { red: 0, green: 0, blue: 255, alpha: 128 };
    assert_eq!(dst.compose(src), Pixel { red: 127, green: 0, blue: 128, alpha: 255 });
}

#[test]
fn pixel_new_is_opaque_white() {
    assert_eq!(Pixel::new(), Pixel { red: 255, green: 255, blue: 255, alpha: 255 });
}

#[test]
fn pixel_setters_chain() {
    let mut p = Pixel::new();
    p.set_red(1).set_green(2).set_blue(3).set_alpha(4);
    assert_eq!(p, Pixel { red: 1, green: 2, blue: 3, alpha: 4 });
}
