//! Assets loadable by the generator: fonts, vector graphics and images.

use vstd::prelude::*;

use vstd::string::StringExecFns;

use crate::image::Image;

verus! {

/// Details of an asset named in the manifest: a key to file it under and
/// the path it is loaded from.
pub struct AssetInfo {
    /// String for keying the asset.
    pub id: String,
    /// Source path of the asset.
    pub src: String,
}

/// An asset that can rasterise itself.
pub trait Asset: Sized {
    /// Renders the asset as raw bytes at the given scale.
    fn render(&self, scale: [usize; 2], text: Option<String>) -> Vec<u8>;

    /// Whether this is a font asset.
    fn is_font(&self) -> bool;

    /// Whether this is a raster asset.
    fn is_raster(&self) -> bool;

    /// Whether this is a vector asset.
    fn is_vector(&self) -> bool;
}

/// A vector graphic: the path data collected from an SVG file.
pub struct Svg {
    /// Key of the asset.
    pub id: String,
    /// Source path the asset was loaded from.
    pub src: String,
    /// The collected path data of the graphic.
    pub data: String,
}

impl Asset for Svg {
    /// Vector rasterisation is outside the rendering core: a vector asset
    /// contributes no pixels.
    fn render(&self, _scale: [usize; 2], _text: Option<String>) -> (r: Vec<u8>)
        ensures
            r@.len() == 0,
    {
        Vec::new()
    }

    fn is_font(&self) -> (r: bool)
        ensures
            r == false,
    {
        false
    }

    fn is_raster(&self) -> (r: bool)
        ensures
            r == false,
    {
        false
    }

    fn is_vector(&self) -> (r: bool)
        ensures
            r == false,
    {
        false
    }
}

/// A font asset.
pub struct Font {
    /// Key of the asset.
    pub id: String,
    /// Source path of the asset.
    pub src: String,
}

/// The index of the first entry of the table that carries `key`, if any.
pub open spec fn spec_find<T>(table: Seq<(Seq<char>, T)>, key: Seq<char>) -> Option<int>
    decreases table.len(),
{
    if table.len() == 0 {
        None
    } else if table[0].0 == key {
        Some(0int)
    } else {
        match spec_find(table.skip(1), key) {
            Some(i) => Some(i + 1),
            None => None,
        }
    }
}

/// A key first matched at position `i` is what the table lookup finds.
pub proof fn lemma_find_at<T>(table: Seq<(Seq<char>, T)>, key: Seq<char>, i: int)
    requires
        0 <= i < table.len(),
        forall|j: int| 0 <= j < i ==> (#[trigger] table[j]).0 != key,
        table[i].0 == key,
    ensures
        spec_find(table, key) == Some(i),
    decreases i,
{
    if i > 0 {
        assert(table[0].0 != key);
        assert(forall|j: int|
            0 <= j < i - 1 ==> (#[trigger] table.skip(1)[j]).0 == table[j + 1].0);
        lemma_find_at(table.skip(1), key, i - 1);
    }
}

/// A key matched nowhere is not found by the table lookup.
pub proof fn lemma_find_none<T>(table: Seq<(Seq<char>, T)>, key: Seq<char>)
    requires
        forall|j: int| 0 <= j < table.len() ==> (#[trigger] table[j]).0 != key,
    ensures
        spec_find(table, key) is None,
    decreases table.len(),
{
    if table.len() > 0 {
        assert(forall|j: int|
            0 <= j < table.len() - 1 ==> (#[trigger] table.skip(1)[j]).0 == table[j + 1].0);
        lemma_find_none(table.skip(1), key);
    }
}

/// The map of assets: every inserted key in insertion order, and one
/// keyed table per kind of asset.
pub struct Assets {
    /// Every key ever inserted, in insertion order.
    pub assets: Vec<String>,
    /// Font assets by key.
    pub fonts: Vec<(String, Font)>,
    /// Image assets by key.
    pub images: Vec<(String, Image)>,
    /// Vector assets by key.
    pub svgs: Vec<(String, Svg)>,
}

impl Assets {
    /// The keys inserted so far, in insertion order.
    pub open spec fn names(&self) -> Seq<Seq<char>> {
        self.assets@.map_values(|s: String| s@)
    }

    /// The keyed font entries, in insertion order.
    pub open spec fn font_table(&self) -> Seq<(Seq<char>, Font)> {
        self.fonts@.map_values(|p: (String, Font)| (p.0@, p.1))
    }

    /// The keyed image entries, in insertion order.
    pub open spec fn image_table(&self) -> Seq<(Seq<char>, Image)> {
        self.images@.map_values(|p: (String, Image)| (p.0@, p.1))
    }

    /// The keyed vector entries, in insertion order.
    pub open spec fn svg_table(&self) -> Seq<(Seq<char>, Svg)> {
        self.svgs@.map_values(|p: (String, Svg)| (p.0@, p.1))
    }

    /// Returns true if the map contains no elements.
    pub fn is_empty(&self) -> (r: bool)
        ensures
            r == (self.names().len() == 0),
    {
        self.assets.is_empty()
    }

    /// Returns the number of elements in the map.
    pub fn len(&self) -> (r: usize)
        ensures
            r == self.names().len(),
    {
        self.assets.len()
    }

    /// Creates an empty assets map.
    pub fn new() -> (r: Assets)
        ensures
            r.names().len() == 0,
            r.fonts@.len() == 0,
            r.images@.len() == 0,
            r.svgs@.len() == 0,
    {
        Assets { assets: Vec::new(), fonts: Vec::new(), images: Vec::new(), svgs: Vec::new() }
    }

    /// Creates an empty assets map with at least the given capacity
    /// already allocated.
    pub fn with_capacity(capacity: usize) -> (r: Assets)
        ensures
            r.names().len() == 0,
            r.fonts@.len() == 0,
            r.images@.len() == 0,
            r.svgs@.len() == 0,
    {
        Assets {
            assets: Vec::with_capacity(capacity),
            fonts: Vec::with_capacity(capacity),
            images: Vec::with_capacity(capacity),
            svgs: Vec::with_capacity(capacity),
        }
    }
}

/// Keyed access to one kind of asset held by the map.
pub trait AssetsMethods<T>: Sized {
    /// The keyed entries of this kind of asset, in insertion order.
    spec fn table(&self) -> Seq<(Seq<char>, T)>;

    /// The keys inserted so far, over all kinds.
    spec fn keys(&self) -> Seq<Seq<char>>;

    /// Inserts a key-value pair into the map. If the key was already
    /// present, its value is replaced and the old value returned.
    fn insert(&mut self, k: &str, v: T) -> (prev: Option<T>)
        ensures
            final(self).keys() == old(self).keys().push(k@),
            match spec_find(old(self).table(), k@) {
                Some(i) => {
                    &&& prev matches Some(p) && p == old(self).table()[i].1
                    &&& final(self).table() == old(self).table().update(i, (k@, v))
                },
                None => {
                    &&& prev is None
                    &&& final(self).table() == old(self).table().push((k@, v))
                },
            },
    ;

    /// Returns a reference to the value filed under the key, if any.
    fn get(&self, k: &str) -> (r: Option<&T>)
        ensures
            match spec_find(self.table(), k@) {
                Some(i) => r matches Some(v) && *v == self.table()[i].1,
                None => r is None,
            },
    ;

    /// Removes a key from the map, returning its value if it was present.
    /// The record of inserted keys is left as it is.
    fn remove(&mut self, k: &str) -> (r: Option<T>)
        ensures
            final(self).keys() == old(self).keys(),
            match spec_find(old(self).table(), k@) {
                Some(i) => {
                    &&& r matches Some(v) && v == old(self).table()[i].1
                    &&& final(self).table() == old(self).table().remove(i)
                },
                None => {
                    &&& r is None
                    &&& final(self).table() == old(self).table()
                },
            },
    ;
}

impl AssetsMethods<Font> for Assets {
    open spec fn table(&self) -> Seq<(Seq<char>, Font)> {
        self.font_table()
    }

    open spec fn keys(&self) -> Seq<Seq<char>> {
        self.names()
    }

    fn insert(&mut self, k: &str, v: Font) -> (prev: Option<Font>) {
        let key = String::from_str(k);
        self.assets.push(String::from_str(k));
        proof {
            assert(self.names() =~= old(self).names().push(k@));
        }
        let n = self.fonts.len();
        let mut i: usize = 0;
        while i < n
            invariant
                self.fonts@ == old(self).fonts@,
                self.images@ == old(self).images@,
                self.svgs@ == old(self).svgs@,
                self.names() == old(self).names().push(k@),
                n == self.fonts@.len(),
                i <= n,
                key@ == k@,
                forall|j: int| 0 <= j < i ==> (#[trigger] self.font_table()[j]).0 != k@,
            decreases n - i,
        {
            if self.fonts[i].0 == key {
                proof {
                    lemma_find_at(self.font_table(), k@, i as int);
                }
                let prev_pair = self.fonts.remove(i);
                self.fonts.insert(i, (key, v));
                proof {
                    assert(final(self).font_table() =~= old(self).font_table().update(
                        i as int,
                        (k@, v),
                    ));
                }
                return Some(prev_pair.1);
            }
            i += 1;
        }
        proof {
            lemma_find_none(self.font_table(), k@);
        }
        self.fonts.push((key, v));
        proof {
            assert(final(self).font_table() =~= old(self).font_table().push((k@, v)));
        }
        None
    }

    fn get(&self, k: &str) -> (r: Option<&Font>) {
        let key = String::from_str(k);
        let n = self.fonts.len();
        let mut i: usize = 0;
        while i < n
            invariant
                n == self.fonts@.len(),
                i <= n,
                key@ == k@,
                forall|j: int| 0 <= j < i ==> (#[trigger] self.font_table()[j]).0 != k@,
            decreases n - i,
        {
            if self.fonts[i].0 == key {
                proof {
                    lemma_find_at(self.font_table(), k@, i as int);
                }
                return Some(&self.fonts[i].1);
            }
            i += 1;
        }
        proof {
            lemma_find_none(self.font_table(), k@);
        }
        None
    }

    fn remove(&mut self, k: &str) -> (r: Option<Font>) {
        let key = String::from_str(k);
        let n = self.fonts.len();
        let mut i: usize = 0;
        while i < n
            invariant
                *self == *old(self),
                n == self.fonts@.len(),
                i <= n,
                key@ == k@,
                forall|j: int| 0 <= j < i ==> (#[trigger] self.font_table()[j]).0 != k@,
            decreases n - i,
        {
            if self.fonts[i].0 == key {
                proof {
                    lemma_find_at(self.font_table(), k@, i as int);
                }
                let pair = self.fonts.remove(i);
                proof {
                    assert(final(self).font_table() =~= old(self).font_table().remove(i as int));
                }
                return Some(pair.1);
            }
            i += 1;
        }
        proof {
            lemma_find_none(self.font_table(), k@);
        }
        None
    }
}

impl AssetsMethods<Image> for Assets {
    open spec fn table(&self) -> Seq<(Seq<char>, Image)> {
        self.image_table()
    }

    open spec fn keys(&self) -> Seq<Seq<char>> {
        self.names()
    }

    fn insert(&mut self, k: &str, v: Image) -> (prev: Option<Image>) {
        let key = String::from_str(k);
        self.assets.push(String::from_str(k));
        proof {
            assert(self.names() =~= old(self).names().push(k@));
        }
        let n = self.images.len();
        let mut i: usize = 0;
        while i < n
            invariant
                self.fonts@ == old(self).fonts@,
                self.images@ == old(self).images@,
                self.svgs@ == old(self).svgs@,
                self.names() == old(self).names().push(k@),
                n == self.images@.len(),
                i <= n,
                key@ == k@,
                forall|j: int| 0 <= j < i ==> (#[trigger] self.image_table()[j]).0 != k@,
            decreases n - i,
        {
            if self.images[i].0 == key {
                proof {
                    lemma_find_at(self.image_table(), k@, i as int);
                }
                let prev_pair = self.images.remove(i);
                self.images.insert(i, (key, v));
                proof {
                    assert(final(self).image_table() =~= old(self).image_table().update(
                        i as int,
                        (k@, v),
                    ));
                }
                return Some(prev_pair.1);
            }
            i += 1;
        }
        proof {
            lemma_find_none(self.image_table(), k@);
        }
        self.images.push((key, v));
        proof {
            assert(final(self).image_table() =~= old(self).image_table().push((k@, v)));
        }
        None
    }

    fn get(&self, k: &str) -> (r: Option<&Image>) {
        let key = String::from_str(k);
        let n = self.images.len();
        let mut i: usize = 0;
        while i < n
            invariant
                n == self.images@.len(),
                i <= n,
                key@ == k@,
                forall|j: int| 0 <= j < i ==> (#[trigger] self.image_table()[j]).0 != k@,
            decreases n - i,
        {
            if self.images[i].0 == key {
                proof {
                    lemma_find_at(self.image_table(), k@, i as int);
                }
                return Some(&self.images[i].1);
            }
            i += 1;
        }
        proof {
            lemma_find_none(self.image_table(), k@);
        }
        None
    }

    fn remove(&mut self, k: &str) -> (r: Option<Image>) {
        let key = String::from_str(k);
        let n = self.images.len();
        let mut i: usize = 0;
        while i < n
            invariant
                *self == *old(self),
                n == self.images@.len(),
                i <= n,
                key@ == k@,
                forall|j: int| 0 <= j < i ==> (#[trigger] self.image_table()[j]).0 != k@,
            decreases n - i,
        {
            if self.images[i].0 == key {
                proof {
                    lemma_find_at(self.image_table(), k@, i as int);
                }
                let pair = self.images.remove(i);
                proof {
                    assert(final(self).image_table() =~= old(self).image_table().remove(i as int));
                }
                return Some(pair.1);
            }
            i += 1;
        }
        proof {
            lemma_find_none(self.image_table(), k@);
        }
        None
    }
}


impl AssetsMethods<Svg> for Assets {
    open spec fn table(&self) -> Seq<(Seq<char>, Svg)> {
        self.svg_table()
    }

    open spec fn keys(&self) -> Seq<Seq<char>> {
        self.names()
    }

    fn insert(&mut self, k: &str, v: Svg) -> (prev: Option<Svg>) {
        let key = String::from_str(k);
        self.assets.push(String::from_str(k));
        proof {
            assert(self.names() =~= old(self).names().push(k@));
        }
        let n = self.svgs.len();
        let mut i: usize = 0;
        while i < n
            invariant
                self.fonts@ == old(self).fonts@,
                self.images@ == old(self).images@,
                self.svgs@ == old(self).svgs@,
                self.names() == old(self).names().push(k@),
                n == self.svgs@.len(),
                i <= n,
                key@ == k@,
                forall|j: int| 0 <= j < i ==> (#[trigger] self.svg_table()[j]).0 != k@,
            decreases n - i,
        {
            if self.svgs[i].0 == key {
                proof {
                    lemma_find_at(self.svg_table(), k@, i as int);
                }
                let prev_pair = self.svgs.remove(i);
                self.svgs.insert(i, (key, v));
                proof {
                    assert(final(self).svg_table() =~= old(self).svg_table().update(
                        i as int,
                        (k@, v),
                    ));
                }
                return Some(prev_pair.1);
            }
            i += 1;
        }
        proof {
            lemma_find_none(self.svg_table(), k@);
        }
        self.svgs.push((key, v));
        proof {
            assert(final(self).svg_table() =~= old(self).svg_table().push((k@, v)));
        }
        None
    }

    fn get(&self, k: &str) -> (r: Option<&Svg>) {
        let key = String::from_str(k);
        let n = self.svgs.len();
        let mut i: usize = 0;
        while i < n
            invariant
                n == self.svgs@.len(),
                i <= n,
                key@ == k@,
                forall|j: int| 0 <= j < i ==> (#[trigger] self.svg_table()[j]).0 != k@,
            decreases n - i,
        {
            if self.svgs[i].0 == key {
                proof {
                    lemma_find_at(self.svg_table(), k@, i as int);
                }
                return Some(&self.svgs[i].1);
            }
            i += 1;
        }
        proof {
            lemma_find_none(self.svg_table(), k@);
        }
        None
    }

    fn remove(&mut self, k: &str) -> (r: Option<Svg>) {
        let key = String::from_str(k);
        let n = self.svgs.len();
        let mut i: usize = 0;
        while i < n
            invariant
                *self == *old(self),
                n == self.svgs@.len(),
                i <= n,
                key@ == k@,
                forall|j: int| 0 <= j < i ==> (#[trigger] self.svg_table()[j]).0 != k@,
            decreases n - i,
        {
            if self.svgs[i].0 == key {
                proof {
                    lemma_find_at(self.svg_table(), k@, i as int);
                }
                let pair = self.svgs.remove(i);
                proof {
                    assert(final(self).svg_table() =~= old(self).svg_table().remove(i as int));
                }
                return Some(pair.1);
            }
            i += 1;
        }
        proof {
            lemma_find_none(self.svg_table(), k@);
        }
        None
    }
}


} // verus!
