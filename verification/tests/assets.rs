use rasm::asset::{Asset, Assets, AssetsMethods, Font, Svg};

fn font(id: &str) -> Font {
    Font { id: String::from(id), src: String::from("fonts/sample.ttf") }
}

#[test]
fn empty_map_has_no_elements() {
    let assets = Assets::new();
    assert!(assets.is_empty());
    assert_eq!(assets.len(), 0);
    let missing: Option<&Font> = assets.get("nope");
    assert!(missing.is_none());
}

#[test]
fn with_capacity_starts_empty() {
    let assets = Assets::with_capacity(16);
    assert!(assets.is_empty());
    assert_eq!(assets.len(), 0);
}

#[test]
fn insert_get_and_remove_by_key() {
    let mut assets = Assets::new();
    assert!(assets.insert("title", font("title")).is_none());
    assert!(!assets.is_empty());
    assert_eq!(assets.len(), 1);

    let found: Option<&Font> = assets.get("title");
    assert_eq!(found.unwrap().id, "title");

    let removed: Option<Font> = assets.remove("title");
    assert_eq!(removed.unwrap().id, "title");
    let gone: Option<&Font> = assets.get("title");
    assert!(gone.is_none());
    // The record of inserted keys is kept even after a removal.
    assert_eq!(assets.len(), 1);
}

#[test]
fn insert_replaces_and_returns_the_old_value() {
    let mut assets = Assets::new();
    assert!(assets.insert("body", Font { id: String::from("old"), src: String::from("a") })
        .is_none());
    let prev = assets.insert("body", Font { id: String::from("new"), src: String::from("b") });
    assert_eq!(prev.unwrap().id, "old");
    let found: Option<&Font> = assets.get("body");
    assert_eq!(found.unwrap().id, "new");
    // Each insert is counted, replacements included.
    assert_eq!(assets.len(), 2);
}

#[test]
fn kinds_are_filed_separately() {
    let mut assets = Assets::new();
    assets.insert("logo", Svg {
        id: String::from("logo"),
        src: String::from("logo.svg"),
        data: String::from("M 0 0"),
    });
    let as_font: Option<&Font> = assets.get("logo");
    assert!(as_font.is_none());
    let as_svg: Option<&Svg> = assets.get("logo");
    assert_eq!(as_svg.unwrap().data, "M 0 0");
}

#[test]
fn svg_renders_no_pixels() {
    let svg = Svg {
        id: String::from("logo"),
        src: String::from("logo.svg"),
        data: String::from("M 0 0"),
    };
    assert!(svg.render([10, 10], None).is_empty());
    assert!(!svg.is_font());
    assert!(!svg.is_raster());
    assert!(!svg.is_vector());
}
