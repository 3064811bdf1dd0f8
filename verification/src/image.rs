//! The image data model: pixels, rows, layers and layer stacks.

use vstd::prelude::*;

use crate::object::Point;

verus! {

/// One RGBA colour value. Channels are independent and never premultiplied.
#[derive(Clone, Copy, Debug, PartialEq, Eq, Structural)]
pub struct Pixel {
    /// Red channel.
    pub red: u8,
    /// Green channel.
    pub green: u8,
    /// Blue channel.
    pub blue: u8,
    /// Alpha (opacity) channel: 0 is fully transparent, 255 fully opaque.
    pub alpha: u8,
}

/// One channel of the source-over-destination blend:
/// `ceil((sa*sc + (255-sa)*dc) / 255)`.
pub open spec fn blend_channel(sa: int, sc: int, dc: int) -> int {
    (sa * sc + (255 - sa) * dc + 254) / 255
}

/// Source-over-destination alpha compositing of `src` onto `dst`.
///
/// A fully transparent source leaves the destination unchanged, and a
/// fully transparent destination takes the source verbatim (blending
/// against an undefined transparent colour would be meaningless).
pub open spec fn spec_compose(dst: Pixel, src: Pixel) -> Pixel {
    if src.alpha == 0 {
        dst
    } else if dst.alpha == 0 {
        src
    } else {
        Pixel {
            red: blend_channel(src.alpha as int, src.red as int, dst.red as int) as u8,
            green: blend_channel(src.alpha as int, src.green as int, dst.green as int) as u8,
            blue: blend_channel(src.alpha as int, src.blue as int, dst.blue as int) as u8,
            alpha: blend_channel(src.alpha as int, 255, dst.alpha as int) as u8,
        }
    }
}

/// The blend of two in-range channels is again an 8-bit channel value.
pub proof fn lemma_blend_channel_bounds(sa: int, sc: int, dc: int)
    requires
        0 <= sa <= 255,
        0 <= sc <= 255,
        0 <= dc <= 255,
    ensures
        0 <= blend_channel(sa, sc, dc) <= 255,
{
    assert(sa * sc + (255 - sa) * dc <= 255 * 255) by (nonlinear_arith)
        requires
            0 <= sa <= 255,
            0 <= sc <= 255,
            0 <= dc <= 255,
    ;
    assert(sa * sc + (255 - sa) * dc >= 0) by (nonlinear_arith)
        requires
            0 <= sa <= 255,
            0 <= sc <= 255,
            0 <= dc <= 255,
    ;
}

impl Pixel {
    /// Creates a fully opaque white pixel, the default canvas colour.
    pub fn new() -> (p: Pixel)
        ensures
            p == (Pixel { red: 255, green: 255, blue: 255, alpha: 255 }),
    {
        Pixel { red: 255, green: 255, blue: 255, alpha: 255 }
    }

    /// Sets the red channel, returning the pixel for further chaining.
    pub fn set_red(&mut self, red: u8) -> (r: &mut Pixel)
        ensures
            *r == (Pixel { red, ..*old(self) }),
            *final(self) == *final(r),
    {
        self.red = red;
        self
    }

    /// Sets the blue channel, returning the pixel for further chaining.
    pub fn set_blue(&mut self, blue: u8) -> (r: &mut Pixel)
        ensures
            *r == (Pixel { blue, ..*old(self) }),
            *final(self) == *final(r),
    {
        self.blue = blue;
        self
    }

    /// Sets the green channel, returning the pixel for further chaining.
    pub fn set_green(&mut self, green: u8) -> (r: &mut Pixel)
        ensures
            *r == (Pixel { green, ..*old(self) }),
            *final(self) == *final(r),
    {
        self.green = green;
        self
    }

    /// Sets the alpha channel, returning the pixel for further chaining.
    pub fn set_alpha(&mut self, alpha: u8) -> (r: &mut Pixel)
        ensures
            *r == (Pixel { alpha, ..*old(self) }),
            *final(self) == *final(r),
    {
        self.alpha = alpha;
        self
    }

    /// Composites `src` over `self` (the destination) and returns the blend.
    pub fn compose(self, src: Pixel) -> (r: Pixel)
        ensures
            r == spec_compose(self, src),
    {
        if src.alpha == 0 {
            self
        } else if self.alpha == 0 {
            src
        } else {
            proof {
                lemma_blend_channel_bounds(src.alpha as int, src.red as int, self.red as int);
                lemma_blend_channel_bounds(src.alpha as int, src.green as int, self.green as int);
                lemma_blend_channel_bounds(src.alpha as int, src.blue as int, self.blue as int);
                lemma_blend_channel_bounds(src.alpha as int, 255, self.alpha as int);
            }
            let sa = src.alpha as u32;
            Pixel {
                red: ((sa * (src.red as u32) + (255 - sa) * (self.red as u32) + 254) / 255) as u8,
                green: ((sa * (src.green as u32) + (255 - sa) * (self.green as u32) + 254)
                    / 255) as u8,
                blue: ((sa * (src.blue as u32) + (255 - sa) * (self.blue as u32) + 254) / 255) as u8,
                alpha: ((sa * 255 + (255 - sa) * (self.alpha as u32) + 254) / 255) as u8,
            }
        }
    }
}

impl Default for Pixel {
    /// The default pixel is opaque white.
    fn default() -> (p: Pixel)
        ensures
            p == (Pixel { red: 255, green: 255, blue: 255, alpha: 255 }),
    {
        Pixel::new()
    }
}

/// Compositing a fully transparent source leaves the destination unchanged.
pub proof fn lemma_compose_transparent_source(dst: Pixel, src: Pixel)
    requires
        src.alpha == 0,
    ensures
        spec_compose(dst, src) == dst,
{
}

/// Compositing a fully opaque source yields exactly the source's channels.
pub proof fn lemma_compose_opaque_source(dst: Pixel, src: Pixel)
    requires
        src.alpha == 255,
    ensures
        spec_compose(dst, src) == src,
{
    if dst.alpha != 0 {
        assert(blend_channel(255, src.red as int, dst.red as int) == src.red as int);
        assert(blend_channel(255, src.green as int, dst.green as int) == src.green as int);
        assert(blend_channel(255, src.blue as int, dst.blue as int) == src.blue as int);
        assert(blend_channel(255, 255, dst.alpha as int) == 255);
    }
}

/// Compositing is a pure function of its two arguments: equal inputs always
/// blend to equal outputs.
pub proof fn lemma_compose_deterministic(dst1: Pixel, src1: Pixel, dst2: Pixel, src2: Pixel)
    requires
        dst1 == dst2,
        src1 == src2,
    ensures
        spec_compose(dst1, src1) == spec_compose(dst2, src2),
{
}

/// One horizontal line of pixels inside a layer.
#[derive(Clone)]
pub struct Row {
    /// The pixels of the row, left to right.
    pub pixels: Vec<Pixel>,
}

impl View for Row {
    type V = Seq<Pixel>;

    open spec fn view(&self) -> Seq<Pixel> {
        self.pixels@
    }
}

impl Row {
    /// Creates a row of `length` opaque white pixels.
    pub fn new(length: usize) -> (r: Row)
        ensures
            r@.len() == length,
            forall|i: int| 0 <= i < length ==> r@[i] == (Pixel {
                red: 255,
                green: 255,
                blue: 255,
                alpha: 255,
            }),
    {
        Row { pixels: vec![Pixel { red: 255, green: 255, blue: 255, alpha: 255 }; length] }
    }

    /// Appends a pixel at the right end of the row.
    pub fn add_pixel(&mut self, pixel: Pixel)
        ensures
            final(self)@ == old(self)@.push(pixel),
    {
        self.pixels.push(pixel)
    }

    /// Returns the pixel at the given one-based index, for reading or writing.
    pub fn get_pixel(&mut self, index: usize) -> (p: &mut Pixel)
        requires
            1 <= index <= old(self)@.len(),
        ensures
            *p == old(self)@[index - 1],
            final(self)@ == old(self)@.update(index - 1, *final(p)),
    {
        &mut self.pixels[index - 1]
    }
}

impl Default for Row {
    /// The default row spans the default canvas width.
    fn default() -> (r: Row)
        ensures
            r@.len() == 1080,
            forall|i: int| 0 <= i < 1080 ==> r@[i] == (Pixel {
                red: 255,
                green: 255,
                blue: 255,
                alpha: 255,
            }),
    {
        Row::new(1080)
    }
}

/// One compositing plane: a `height` by `width` grid of pixels.
#[derive(Clone)]
pub struct Layer {
    /// Number of pixels in each row.
    pub width: usize,
    /// Number of rows.
    pub height: usize,
    /// The rows of the layer, top to bottom.
    pub rows: Vec<Row>,
}

impl View for Layer {
    type V = Seq<Seq<Pixel>>;

    open spec fn view(&self) -> Seq<Seq<Pixel>> {
        Seq::new(self.rows@.len(), |r: int| self.rows@[r]@)
    }
}

impl Layer {
    /// A layer is well formed when its grid matches its recorded dimensions.
    pub open spec fn wf(&self) -> bool {
        &&& self.rows@.len() == self.height
        &&& forall|r: int| 0 <= r < self.rows@.len() ==> (#[trigger] self.rows@[r])@.len()
            == self.width
    }

    /// Creates a `width` by `height` layer of opaque white pixels.
    pub fn new(width: usize, height: usize) -> (l: Layer)
        ensures
            l.wf(),
            l.width == width,
            l.height == height,
            forall|r: int, c: int|
                0 <= r < height && 0 <= c < width ==> l@[r][c] == (Pixel {
                    red: 255,
                    green: 255,
                    blue: 255,
                    alpha: 255,
                }),
    {
        let mut rows: Vec<Row> = Vec::new();
        for i in 0..height
            invariant
                rows@.len() == i,
                forall|r: int| 0 <= r < i ==> (#[trigger] rows@[r])@.len() == width,
                forall|r: int, c: int|
                    0 <= r < i && 0 <= c < width ==> rows@[r]@[c] == (Pixel {
                        red: 255,
                        green: 255,
                        blue: 255,
                        alpha: 255,
                    }),
        {
            rows.push(Row::new(width));
        }
        Layer { width, height, rows }
    }

    /// Appends a row at the bottom of the layer, growing its height by one.
    pub fn add_row(&mut self, row: Row)
        requires
            old(self).height < usize::MAX,
        ensures
            final(self).width == old(self).width,
            final(self).height == old(self).height + 1,
            final(self).rows@ == old(self).rows@.push(row),
    {
        self.rows.push(row);
        self.height = self.height + 1;
    }

    /// Returns the row at the given one-based index, for reading or writing.
    pub fn get_row(&mut self, index: usize) -> (row: &mut Row)
        requires
            1 <= index <= old(self).rows@.len(),
        ensures
            *row == old(self).rows@[index - 1],
            final(self).rows@ == old(self).rows@.update(index - 1, *final(row)),
            final(self).width == old(self).width,
            final(self).height == old(self).height,
    {
        &mut self.rows[index - 1]
    }

    /// Overwrites the pixel at row `r`, column `c` (both zero-based).
    pub fn set_pixel(&mut self, r: usize, c: usize, pixel: Pixel)
        requires
            old(self).wf(),
            r < old(self).height,
            c < old(self).width,
        ensures
            final(self).wf(),
            final(self).width == old(self).width,
            final(self).height == old(self).height,
            final(self)@ == old(self)@.update(r as int, old(self)@[r as int].update(c as int, pixel)),
    {
        self.rows[r].pixels[c] = pixel;
        proof {
            assert(final(self)@ =~= old(self)@.update(
                r as int,
                old(self)@[r as int].update(c as int, pixel),
            ));
        }
    }

    /// Overwrites every pixel of the row at the given zero-based index.
    pub fn mut_row(&mut self, idx: usize, color: Pixel)
        requires
            old(self).wf(),
            idx < old(self).height,
        ensures
            final(self).wf(),
            final(self).width == old(self).width,
            final(self).height == old(self).height,
            forall|r: int, c: int|
                0 <= r < old(self).height && 0 <= c < old(self).width ==> final(self)@[r][c] == (
                if r == idx {
                    color
                } else {
                    old(self)@[r][c]
                }),
    {
        let width = self.width;
        for i in 0..width
            invariant
                self.wf(),
                self.width == width,
                idx < self.height,
                self.height == old(self).height,
                forall|r: int, c: int|
                    0 <= r < self.height && 0 <= c < self.width ==> self@[r][c] == (
                    if r == idx && c < i {
                        color
                    } else {
                        old(self)@[r][c]
                    }),
        {
            self.set_pixel(idx, i, color);
        }
    }

    /// Overwrites every pixel of the column at the given zero-based index.
    pub fn mut_col(&mut self, idx: usize, color: Pixel)
        requires
            old(self).wf(),
            idx < old(self).width,
        ensures
            final(self).wf(),
            final(self).width == old(self).width,
            final(self).height == old(self).height,
            forall|r: int, c: int|
                0 <= r < old(self).height && 0 <= c < old(self).width ==> final(self)@[r][c] == (
                if c == idx {
                    color
                } else {
                    old(self)@[r][c]
                }),
    {
        let height = self.height;
        for i in 0..height
            invariant
                self.wf(),
                self.height == height,
                idx < self.width,
                self.width == old(self).width,
                forall|r: int, c: int|
                    0 <= r < self.height && 0 <= c < self.width ==> self@[r][c] == (
                    if c == idx && r < i {
                        color
                    } else {
                        old(self)@[r][c]
                    }),
        {
            self.set_pixel(i, idx, color);
        }
    }

    /// Replaces every pixel of the layer with the given colour.
    pub fn fill(&mut self, color: Pixel)
        requires
            old(self).wf(),
        ensures
            final(self).wf(),
            final(self).width == old(self).width,
            final(self).height == old(self).height,
            forall|r: int, c: int|
                0 <= r < old(self).height && 0 <= c < old(self).width ==> final(self)@[r][c]
                    == color,
    {
        let height = self.height;
        for i in 0..height
            invariant
                self.wf(),
                self.height == height,
                self.width == old(self).width,
                forall|r: int, c: int|
                    0 <= r < i && 0 <= c < self.width ==> self@[r][c] == color,
        {
            self.mut_row(i, color);
        }
    }

    /// Constructs an empty staging layer of the given width for a
    /// rectangle; rows are added to it afterwards.
    pub fn construct(_rect: crate::object::Rect, width: usize, _height: usize) -> (l: Layer)
        ensures
            l.wf(),
            l.width == width,
            l.height == 0,
            l@.len() == 0,
    {
        Layer { width, height: 0, rows: Vec::new() }
    }

    /// Returns the width of the layer.
    pub fn width(&self) -> (w: usize)
        ensures
            w == self.width,
    {
        self.width
    }

    /// Returns the height of the layer.
    pub fn height(&self) -> (h: usize)
        ensures
            h == self.height,
    {
        self.height
    }

    /// Returns the layer's pixels as row-major RGBA bytes, four bytes
    /// per pixel.
    pub fn to_bytes(&self) -> (bytes: Vec<u8>)
        requires
            self.wf(),
        ensures
            bytes@ == layer_bytes(self@),
    {
        let width = self.width;
        let height = self.height;
        let mut bytes: Vec<u8> = Vec::new();
        for r in 0..height
            invariant
                self.wf(),
                width == self.width,
                height == self.height,
                bytes@ == layer_bytes(self@.subrange(0, r as int)),
        {
            for c in 0..width
                invariant
                    self.wf(),
                    width == self.width,
                    height == self.height,
                    r < height,
                    bytes@ == layer_bytes(self@.subrange(0, r as int)) + row_bytes(
                        self@[r as int].subrange(0, c as int),
                    ),
            {
                let p = self.rows[r].pixels[c];
                proof {
                    assert(p == self@[r as int][c as int]);
                    lemma_row_bytes_step(self@[r as int], c as int);
                }
                bytes.push(p.red);
                bytes.push(p.green);
                bytes.push(p.blue);
                bytes.push(p.alpha);
                proof {
                    assert(bytes@ =~= layer_bytes(self@.subrange(0, r as int)) + row_bytes(
                        self@[r as int].subrange(0, c as int + 1),
                    ));
                }
            }
            proof {
                assert(self@[r as int].subrange(0, width as int) =~= self@[r as int]);
                lemma_layer_bytes_step(self@, r as int);
            }
        }
        proof {
            assert(self@.subrange(0, height as int) =~= self@);
        }
        bytes
    }

    /// Builds a layer directly from a row-major RGBA byte buffer,
    /// four bytes per pixel.
    pub fn from_rgba(width: usize, height: usize, data: &Vec<u8>) -> (l: Layer)
        requires
            data@.len() == 4 * width * height,
        ensures
            l.wf(),
            l.width == width,
            l.height == height,
            forall|r: int, c: int|
                0 <= r < height && 0 <= c < width ==> l@[r][c] == rgba_pixel_at(
                    data@,
                    r * width + c,
                ),
    {
        let data_len = data.len();
        let mut rows: Vec<Row> = Vec::new();
        for r in 0..height
            invariant
                data@.len() == 4 * width * height,
                data_len == data@.len(),
                rows@.len() == r,
                forall|rr: int| 0 <= rr < r ==> (#[trigger] rows@[rr])@.len() == width,
                forall|rr: int, cc: int|
                    0 <= rr < r && 0 <= cc < width ==> rows@[rr]@[cc] == rgba_pixel_at(
                        data@,
                        rr * width + cc,
                    ),
        {
            let mut pixels: Vec<Pixel> = Vec::new();
            for c in 0..width
                invariant
                    data@.len() == 4 * width * height,
                    data_len == data@.len(),
                    r < height,
                    pixels@.len() == c,
                    forall|cc: int|
                        0 <= cc < c ==> pixels@[cc] == rgba_pixel_at(data@, r * width + cc),
            {
                proof {
                    assert(0 <= r * width + c && 4 * (r * width + c) + 3 < 4 * width * height)
                        by (nonlinear_arith)
                        requires
                            0 <= r < height,
                            0 <= c < width,
                    ;
                    assert(4 * (r * width + c) + 3 < data@.len());
                }
                let base = 4 * (r * width + c);
                pixels.push(
                    Pixel {
                        red: data[base],
                        green: data[base + 1],
                        blue: data[base + 2],
                        alpha: data[base + 3],
                    },
                );
            }
            rows.push(Row { pixels });
        }
        Layer { width, height, rows }
    }
}

impl Default for Layer {
    /// The default layer is an opaque white square of the default canvas
    /// size.
    fn default() -> (l: Layer)
        ensures
            l.wf(),
            l.width == 1080,
            l.height == 1080,
    {
        Layer::new(1080, 1080)
    }
}

/// The pixel that begins at byte offset `4*i` of a row-major RGBA buffer.
pub open spec fn rgba_pixel_at(bytes: Seq<u8>, i: int) -> Pixel {
    Pixel {
        red: bytes[4 * i],
        green: bytes[4 * i + 1],
        blue: bytes[4 * i + 2],
        alpha: bytes[4 * i + 3],
    }
}

/// The pixel at position (`r`, `c`) after composing the whole layer stack
/// in paint order: the first layer is the bottom, each later layer is
/// blended over the accumulated result.
pub open spec fn composed_stack(stack: Seq<Seq<Seq<Pixel>>>, r: int, c: int) -> Pixel
    decreases stack.len(),
{
    if stack.len() <= 1 {
        stack[0][r][c]
    } else {
        spec_compose(composed_stack(stack.drop_last(), r, c), stack.last()[r][c])
    }
}

/// The single layer that a `width` by `height` stack collapses to.
pub open spec fn spec_collapsed(stack: Seq<Seq<Seq<Pixel>>>, width: int, height: int) -> Seq<
    Seq<Pixel>,
> {
    Seq::new(height as nat, |r: int| Seq::new(width as nat, |c: int| composed_stack(stack, r, c)))
}

/// Extending a stack prefix by one layer blends that layer over the prefix.
proof fn lemma_composed_stack_step(stack: Seq<Seq<Seq<Pixel>>>, l: int, r: int, c: int)
    requires
        1 <= l < stack.len(),
    ensures
        composed_stack(stack.subrange(0, l + 1), r, c) == spec_compose(
            composed_stack(stack.subrange(0, l), r, c),
            stack[l][r][c],
        ),
{
    assert(stack.subrange(0, l + 1).drop_last() =~= stack.subrange(0, l));
    assert(stack.subrange(0, l + 1).last() == stack[l]);
}

/// Collapsing a single-layer stack returns that layer unchanged.
pub proof fn lemma_collapse_single(stack: Seq<Seq<Seq<Pixel>>>, width: int, height: int)
    requires
        stack.len() == 1,
        stack[0].len() == height,
        forall|r: int| 0 <= r < height ==> (#[trigger] stack[0][r]).len() == width,
    ensures
        spec_collapsed(stack, width, height) == stack[0],
{
    assert(spec_collapsed(stack, width, height) =~~= stack[0]);
}

impl Default for Image {
    /// The default image is an opaque white square of the default canvas
    /// size.
    fn default() -> (img: Image)
        ensures
            img.wf(),
            img.width == 1080,
            img.height == 1080,
            img.layers@.len() == 1,
    {
        Image::new(1080, 1080)
    }
}

/// The row-major RGBA bytes of one row of pixels, four bytes per pixel.
pub open spec fn row_bytes(row: Seq<Pixel>) -> Seq<u8>
    decreases row.len(),
{
    if row.len() == 0 {
        Seq::empty()
    } else {
        row_bytes(row.drop_last()) + seq![
            row.last().red,
            row.last().green,
            row.last().blue,
            row.last().alpha,
        ]
    }
}

/// The row-major RGBA bytes of a whole layer, top row first.
pub open spec fn layer_bytes(rows: Seq<Seq<Pixel>>) -> Seq<u8>
    decreases rows.len(),
{
    if rows.len() == 0 {
        Seq::empty()
    } else {
        layer_bytes(rows.drop_last()) + row_bytes(rows.last())
    }
}

/// The pixels of a whole layer flattened in row-major order.
pub open spec fn layer_pixels(rows: Seq<Seq<Pixel>>) -> Seq<Pixel>
    decreases rows.len(),
{
    if rows.len() == 0 {
        Seq::empty()
    } else {
        layer_pixels(rows.drop_last()) + rows.last()
    }
}

/// A row's byte encoding holds four bytes per pixel.
pub proof fn lemma_row_bytes_len(row: Seq<Pixel>)
    ensures
        row_bytes(row).len() == 4 * row.len(),
    decreases row.len(),
{
    if row.len() > 0 {
        lemma_row_bytes_len(row.drop_last());
    }
}

/// A layer's byte encoding of `rows.len()` rows of `width` pixels holds
/// `4 * width * rows.len()` bytes.
pub proof fn lemma_layer_bytes_len(rows: Seq<Seq<Pixel>>, width: int)
    requires
        forall|r: int| 0 <= r < rows.len() ==> (#[trigger] rows[r]).len() == width,
    ensures
        layer_bytes(rows).len() == 4 * width * rows.len(),
    decreases rows.len(),
{
    if rows.len() > 0 {
        lemma_layer_bytes_len(rows.drop_last(), width);
        lemma_row_bytes_len(rows.last());
        assert(4 * width * (rows.len() - 1) + 4 * width == 4 * width * rows.len())
            by (nonlinear_arith);
    }
}

/// Taking one more pixel of a row appends its four channel bytes.
proof fn lemma_row_bytes_step(row: Seq<Pixel>, c: int)
    requires
        0 <= c < row.len(),
    ensures
        row_bytes(row.subrange(0, c + 1)) == row_bytes(row.subrange(0, c)) + seq![
            row[c].red,
            row[c].green,
            row[c].blue,
            row[c].alpha,
        ],
{
    assert(row.subrange(0, c + 1).drop_last() =~= row.subrange(0, c));
    assert(row.subrange(0, c + 1).last() == row[c]);
}

/// Taking one more row of a layer appends that row's bytes.
proof fn lemma_layer_bytes_step(rows: Seq<Seq<Pixel>>, r: int)
    requires
        0 <= r < rows.len(),
    ensures
        layer_bytes(rows.subrange(0, r + 1)) == layer_bytes(rows.subrange(0, r)) + row_bytes(
            rows[r],
        ),
{
    assert(rows.subrange(0, r + 1).drop_last() =~= rows.subrange(0, r));
    assert(rows.subrange(0, r + 1).last() == rows[r]);
}

/// Taking one more row of a layer appends that row's pixels.
proof fn lemma_layer_pixels_step(rows: Seq<Seq<Pixel>>, r: int)
    requires
        0 <= r < rows.len(),
    ensures
        layer_pixels(rows.subrange(0, r + 1)) == layer_pixels(rows.subrange(0, r)) + rows[r],
{
    assert(rows.subrange(0, r + 1).drop_last() =~= rows.subrange(0, r));
    assert(rows.subrange(0, r + 1).last() == rows[r]);
}

/// An ordered stack of layers plus a placement origin.
#[derive(Clone)]
pub struct Image {
    /// Width of the image.
    pub width: usize,
    /// Height of the image.
    pub height: usize,
    /// Origin of the image when placed onto a canvas.
    pub origin: Point,
    /// Layers in the image, bottom to top in paint order.
    pub layers: Vec<Layer>,
}

impl Image {
    /// An image is well formed when it has at least one layer and every
    /// layer is a well-formed grid of the image's dimensions.
    pub open spec fn wf(&self) -> bool {
        &&& self.layers@.len() >= 1
        &&& forall|l: int|
            0 <= l < self.layers@.len() ==> {
                &&& (#[trigger] self.layers@[l]).wf()
                &&& self.layers@[l].width == self.width
                &&& self.layers@[l].height == self.height
            }
    }

    /// The mathematical view of the layer stack: layer, then row, then column.
    pub open spec fn stack(&self) -> Seq<Seq<Seq<Pixel>>> {
        Seq::new(self.layers@.len(), |l: int| self.layers@[l]@)
    }

    /// Creates an image of the given size holding one opaque white layer.
    pub fn new(width: usize, height: usize) -> (img: Image)
        ensures
            img.wf(),
            img.width == width,
            img.height == height,
            img.origin == (Point { x: 0, y: 0 }),
            img.layers@.len() == 1,
            forall|r: int, c: int|
                0 <= r < height && 0 <= c < width ==> img.stack()[0][r][c] == (Pixel {
                    red: 255,
                    green: 255,
                    blue: 255,
                    alpha: 255,
                }),
    {
        let mut layers: Vec<Layer> = Vec::new();
        layers.push(Layer::new(width, height));
        Image { width, height, origin: Point { x: 0, y: 0 }, layers }
    }

    /// Builds a single-layer image from a row-major RGBA byte buffer.
    pub fn from_rgba(width: usize, height: usize, data: &Vec<u8>) -> (img: Image)
        requires
            data@.len() == 4 * width * height,
        ensures
            img.wf(),
            img.width == width,
            img.height == height,
            img.origin == (Point { x: 0, y: 0 }),
            img.layers@.len() == 1,
            forall|r: int, c: int|
                0 <= r < height && 0 <= c < width ==> img.stack()[0][r][c] == rgba_pixel_at(
                    data@,
                    r * width + c,
                ),
    {
        let mut layers: Vec<Layer> = Vec::new();
        layers.push(Layer::from_rgba(width, height, data));
        Image { width, height, origin: Point { x: 0, y: 0 }, layers }
    }

    /// Appends a layer on top of the stack.
    pub fn add_layer(&mut self, layer: Layer)
        requires
            layer.wf(),
            layer.width == old(self).width,
            layer.height == old(self).height,
    ensures
            final(self).width == old(self).width,
            final(self).height == old(self).height,
            final(self).origin == old(self).origin,
            final(self).layers@ == old(self).layers@.push(layer),
            old(self).wf() ==> final(self).wf(),
    {
        self.layers.push(layer);
    }

    /// Returns the layer at the given one-based index, for reading or writing.
    pub fn get_layer(&mut self, index: usize) -> (layer: &mut Layer)
        requires
            1 <= index <= old(self).layers@.len(),
        ensures
            *layer == old(self).layers@[index - 1],
            final(self).layers@ == old(self).layers@.update(index - 1, *final(layer)),
            final(self).width == old(self).width,
            final(self).height == old(self).height,
            final(self).origin == old(self).origin,
    {
        &mut self.layers[index - 1]
    }

    /// Returns the width of the image.
    pub fn width(&self) -> (w: usize)
        ensures
            w == self.width,
    {
        self.width
    }

    /// Returns the height of the image.
    pub fn height(&self) -> (h: usize)
        ensures
            h == self.height,
    {
        self.height
    }

    /// Computes the single layer that the stack collapses to, blending
    /// every pixel position across the layers in paint order, without
    /// changing the image.
    pub fn collapsed_layer(&self) -> (layer: Layer)
        requires
            self.wf(),
        ensures
            layer.wf(),
            layer.width == self.width,
            layer.height == self.height,
            layer@ == spec_collapsed(self.stack(), self.width as int, self.height as int),
    {
        let ghost orig = self.stack();
        let width = self.width;
        let height = self.height;
        let n = self.layers.len();
        let mut rows: Vec<Row> = Vec::new();
        for r in 0..height
            invariant
                self.wf(),
                orig == self.stack(),
                width == self.width,
                height == self.height,
                n == self.layers@.len(),
                n >= 1,
                rows@.len() == r,
                forall|rr: int| 0 <= rr < r ==> (#[trigger] rows@[rr])@.len() == width,
                forall|rr: int, cc: int|
                    0 <= rr < r && 0 <= cc < width ==> rows@[rr]@[cc] == composed_stack(
                        orig,
                        rr,
                        cc,
                    ),
        {
            let mut pixels: Vec<Pixel> = Vec::new();
            for c in 0..width
                invariant
                    self.wf(),
                    orig == self.stack(),
                    width == self.width,
                    height == self.height,
                    n == self.layers@.len(),
                    n >= 1,
                    r < height,
                    pixels@.len() == c,
                    forall|cc: int|
                        0 <= cc < c ==> pixels@[cc] == composed_stack(orig, r as int, cc),
            {
                let mut acc = self.layers[0].rows[r].pixels[c];
                proof {
                    assert(orig.subrange(0, 1).len() == 1);
                    assert(orig.subrange(0, 1)[0] == orig[0]);
                    assert(acc == composed_stack(orig.subrange(0, 1), r as int, c as int));
                }
                for l in 1..n
                    invariant
                        self.wf(),
                        orig == self.stack(),
                        width == self.width,
                        height == self.height,
                        n == self.layers@.len(),
                        r < height,
                        c < width,
                        acc == composed_stack(orig.subrange(0, l as int), r as int, c as int),
                {
                    proof {
                        lemma_composed_stack_step(orig, l as int, r as int, c as int);
                    }
                    acc = acc.compose(self.layers[l].rows[r].pixels[c]);
                }
                proof {
                    assert(orig.subrange(0, n as int) =~= orig);
                }
                pixels.push(acc);
            }
            rows.push(Row { pixels });
        }
        let layer = Layer { width, height, rows };
        proof {
            assert(layer@ =~~= spec_collapsed(orig, width as int, height as int));
        }
        layer
    }

    /// Collapses the layer stack to a single layer by blending every pixel
    /// position across the layers in paint order. A single-layer image is
    /// returned unchanged.
    pub fn collapse(&mut self)
        requires
            old(self).wf(),
        ensures
            final(self).wf(),
            final(self).width == old(self).width,
            final(self).height == old(self).height,
            final(self).origin == old(self).origin,
            final(self).layers@.len() == 1,
            final(self).stack()[0] == spec_collapsed(
                old(self).stack(),
                old(self).width as int,
                old(self).height as int,
            ),
            old(self).layers@.len() == 1 ==> *final(self) == *old(self),
    {
        let ghost orig = self.stack();
        let ghost w = self.width as int;
        let ghost h = self.height as int;
        if self.layers.len() == 1 {
            proof {
                lemma_collapse_single(orig, w, h);
                assert(self.stack()[0] =~= self.layers@[0]@);
            }
            return ;
        }
        let layer = self.collapsed_layer();
        let mut layers: Vec<Layer> = Vec::new();
        layers.push(layer);
        self.layers = layers;
        proof {
            assert(final(self).stack()[0] =~= final(self).layers@[0]@);
        }
    }

    /// Collapses the image and returns its pixels as row-major RGBA bytes.
    pub fn to_vec(&mut self) -> (bytes: Vec<u8>)
        requires
            old(self).wf(),
        ensures
            final(self).wf(),
            final(self).width == old(self).width,
            final(self).height == old(self).height,
            final(self).origin == old(self).origin,
            final(self).layers@.len() == 1,
            final(self).stack()[0] == spec_collapsed(
                old(self).stack(),
                old(self).width as int,
                old(self).height as int,
            ),
            old(self).layers@.len() == 1 ==> *final(self) == *old(self),
            bytes@ == layer_bytes(
                spec_collapsed(
                    old(self).stack(),
                    old(self).width as int,
                    old(self).height as int,
                ),
            ),
    {
        let ghost w = self.width as int;
        let ghost h = self.height as int;
        let ghost target = spec_collapsed(old(self).stack(), w, h);
        if self.layers.len() > 1 {
            self.collapse();
        } else {
            proof {
                lemma_collapse_single(self.stack(), w, h);
                assert(self.stack()[0] =~= self.layers@[0]@);
            }
        }
        let ghost snap = *self;
        let width = self.width;
        let height = self.height;
        let mut bytes: Vec<u8> = Vec::new();
        for r in 0..height
            invariant
                *self == snap,
                self.wf(),
                self.layers@.len() == 1,
                self.stack()[0] == target,
                width == self.width,
                height == self.height,
                target.len() == height,
                forall|rr: int| 0 <= rr < height ==> (#[trigger] target[rr]).len() == width,
                bytes@ == layer_bytes(target.subrange(0, r as int)),
        {
            for c in 0..width
                invariant
                    *self == snap,
                    self.wf(),
                    self.layers@.len() == 1,
                    self.stack()[0] == target,
                    width == self.width,
                    height == self.height,
                    r < height,
                    target.len() == height,
                    forall|rr: int| 0 <= rr < height ==> (#[trigger] target[rr]).len() == width,
                    bytes@ == layer_bytes(target.subrange(0, r as int)) + row_bytes(
                        target[r as int].subrange(0, c as int),
                    ),
            {
                let p = self.layers[0].rows[r].pixels[c];
                proof {
                    assert(p == target[r as int][c as int]);
                    lemma_row_bytes_step(target[r as int], c as int);
                }
                bytes.push(p.red);
                bytes.push(p.green);
                bytes.push(p.blue);
                bytes.push(p.alpha);
                proof {
                    assert(bytes@ =~= layer_bytes(target.subrange(0, r as int)) + row_bytes(
                        target[r as int].subrange(0, c as int + 1),
                    ));
                }
            }
            proof {
                assert(target[r as int].subrange(0, width as int) =~= target[r as int]);
                lemma_layer_bytes_step(target, r as int);
            }
        }
        proof {
            assert(target.subrange(0, height as int) =~= target);
        }
        bytes
    }

    /// Decodes a PNG file held in memory into a single-layer image.
    /// Returns None when the decoder reports an error or the decoded
    /// buffer is not an RGBA image of the reported dimensions.
    pub fn from_png_bytes(data: &Vec<u8>) -> (r: Option<Image>)
        ensures
            r matches Some(img) ==> {
                &&& img.wf()
                &&& img.origin == (Point { x: 0, y: 0 })
                &&& img.layers@.len() == 1
                &&& crate::codec::png_decoded(data@).len() == 4 * img.width * img.height
                &&& forall|rr: int, cc: int|
                    0 <= rr < img.height && 0 <= cc < img.width ==> img.stack()[0][rr][cc]
                        == rgba_pixel_at(
                        crate::codec::png_decoded(data@),
                        rr * img.width + cc,
                    )
            },
    {
        let decoded = match crate::codec::decode_png(data) {
            Some(t) => t,
            None => {
                return None;
            },
        };
        let (width, height, buf) = decoded;
        let pixels = match width.checked_mul(height) {
            Some(p) => p,
            None => {
                return None;
            },
        };
        let expected = match pixels.checked_mul(4) {
            Some(n) => n,
            None => {
                return None;
            },
        };
        if buf.len() != expected {
            return None;
        }
        proof {
            assert((width * height) * 4 == 4 * width * height) by (nonlinear_arith);
        }
        Some(Image::from_rgba(width, height, &buf))
    }

    /// Decodes a JPEG file held in memory into a single-layer image.
    /// Returns None when the decoder reports an error.
    pub fn from_jpg_bytes(data: &Vec<u8>) -> (r: Option<Image>)
        ensures
            r matches Some(img) ==> {
                &&& img.wf()
                &&& img.origin == (Point { x: 0, y: 0 })
                &&& img.layers@.len() == 1
                &&& img.width <= 65535
                &&& img.height <= 65535
            },
    {
        let decoded = match crate::codec::decode_jpg(data) {
            Some(t) => t,
            None => {
                return None;
            },
        };
        let (width, height, buf) = decoded;
        Some(Image::from_rgba(width, height, &buf))
    }

    /// Collapses the image and returns its pixels flattened in row-major order.
    pub fn as_pixels(&mut self) -> (pixels: Vec<Pixel>)
        requires
            old(self).wf(),
        ensures
            final(self).wf(),
            final(self).width == old(self).width,
            final(self).height == old(self).height,
            final(self).origin == old(self).origin,
            final(self).layers@.len() == 1,
            final(self).stack()[0] == spec_collapsed(
                old(self).stack(),
                old(self).width as int,
                old(self).height as int,
            ),
            old(self).layers@.len() == 1 ==> *final(self) == *old(self),
            pixels@ == layer_pixels(
                spec_collapsed(
                    old(self).stack(),
                    old(self).width as int,
                    old(self).height as int,
                ),
            ),
    {
        let ghost w = self.width as int;
        let ghost h = self.height as int;
        let ghost target = spec_collapsed(old(self).stack(), w, h);
        if self.layers.len() > 1 {
            self.collapse();
        } else {
            proof {
                lemma_collapse_single(self.stack(), w, h);
                assert(self.stack()[0] =~= self.layers@[0]@);
            }
        }
        let ghost snap = *self;
        let width = self.width;
        let height = self.height;
        let mut pixels: Vec<Pixel> = Vec::new();
        for r in 0..height
            invariant
                *self == snap,
                self.wf(),
                self.layers@.len() == 1,
                self.stack()[0] == target,
                width == self.width,
                height == self.height,
                target.len() == height,
                forall|rr: int| 0 <= rr < height ==> (#[trigger] target[rr]).len() == width,
                pixels@ == layer_pixels(target.subrange(0, r as int)),
        {
            for c in 0..width
                invariant
                    *self == snap,
                    self.wf(),
                    self.layers@.len() == 1,
                    self.stack()[0] == target,
                    width == self.width,
                    height == self.height,
                    r < height,
                    target.len() == height,
                    forall|rr: int| 0 <= rr < height ==> (#[trigger] target[rr]).len() == width,
                    pixels@ == layer_pixels(target.subrange(0, r as int)) + target[r as int]
                        .subrange(0, c as int),
            {
                let p = self.layers[0].rows[r].pixels[c];
                proof {
                    assert(p == target[r as int][c as int]);
                }
                pixels.push(p);
                proof {
                    assert(pixels@ =~= layer_pixels(target.subrange(0, r as int)) + target[
                        r as int
                    ].subrange(0, c as int + 1));
                }
            }
            proof {
                assert(target[r as int].subrange(0, width as int) =~= target[r as int]);
                lemma_layer_pixels_step(target, r as int);
            }
        }
        proof {
            assert(target.subrange(0, height as int) =~= target);
        }
        pixels
    }
}

} // verus!
