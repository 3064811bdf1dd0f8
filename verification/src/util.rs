//! The canvas: the output image under construction and its render queue.

use vstd::prelude::*;

use std::collections::VecDeque;

use vstd::arithmetic::div_mod::lemma_div_is_ordered;
use vstd::pervasive::unreached;

use crate::asset::AssetInfo;
use crate::format::{encode_jpg, encode_png, png_encoding, Format};
use crate::image::{layer_bytes, lemma_collapse_single, lemma_layer_bytes_len, Image, Pixel};
use crate::object::{Drawable, Point, Rect};
use crate::RenderError;

verus! {

/// The layer that results from drawing every queued drawable, in queue
/// order, onto `base`; None when some drawable does not fit the `width`
/// by `height` target ("painter's algorithm": later drawables cover
/// earlier ones at overlapping pixels).
pub open spec fn spec_drained(
    base: Seq<Seq<Pixel>>,
    shapes: Seq<Drawable>,
    width: int,
    height: int,
) -> Option<Seq<Seq<Pixel>>>
    decreases shapes.len(),
{
    if shapes.len() == 0 {
        Some(base)
    } else if !shapes[0].fits(width, height) {
        None
    } else {
        spec_drained(shapes[0].drawn(base), shapes.skip(1), width, height)
    }
}

/// The percentage `pct` of a dimension, rounded down.
pub open spec fn spec_pct(dim: int, pct: int) -> int {
    dim * pct / 100
}

/// First-in first-out rendering: when two rectangles are enqueued in
/// order and both cover a pixel, the drained canvas shows the second
/// composited over the first there — with an opaque first rectangle,
/// exactly `compose(first.color, second.color)`. (With a translucent
/// first rectangle the base colour would still show through it.)
pub proof fn lemma_fifo_overlap(
    base: Seq<Seq<Pixel>>,
    first: Rect,
    second: Rect,
    width: int,
    height: int,
    r: int,
    c: int,
)
    requires
        base.len() == height,
        forall|i: int| 0 <= i < height ==> (#[trigger] base[i]).len() == width,
        first.origin.x + first.width <= width,
        first.origin.y + first.height <= height,
        second.origin.x + second.width <= width,
        second.origin.y + second.height <= height,
        0 <= r < height,
        0 <= c < width,
        crate::object::in_region(first.origin, first.width as int, first.height as int, r, c),
        crate::object::in_region(second.origin, second.width as int, second.height as int, r, c),
        first.color.alpha == 255,
    ensures
        spec_drained(
            base,
            seq![Drawable::Rect(first), Drawable::Rect(second)],
            width,
            height,
        ) matches Some(drawn) && drawn[r][c] == crate::image::spec_compose(
            first.color,
            second.color,
        ),
{
    let shapes = seq![Drawable::Rect(first), Drawable::Rect(second)];
    let d1 = crate::object::spec_rect_drawn(base, first);
    let d2 = crate::object::spec_rect_drawn(d1, second);
    assert(shapes[0].fits(width, height));
    assert(shapes[0].drawn(base) == d1);
    assert(shapes.skip(1) =~= seq![Drawable::Rect(second)]);
    assert(shapes.skip(1)[0].fits(width, height));
    assert(shapes.skip(1)[0].drawn(d1) == d2);
    assert(shapes.skip(1).skip(1) =~= Seq::<Drawable>::empty());
    assert(spec_drained(base, shapes, width, height) == spec_drained(
        d1,
        shapes.skip(1),
        width,
        height,
    ));
    assert(spec_drained(d1, shapes.skip(1), width, height) == spec_drained(
        d2,
        shapes.skip(1).skip(1),
        width,
        height,
    ));
    assert(spec_drained(d2, shapes.skip(1).skip(1), width, height) == Some(d2));
    assert(d1[r][c] == crate::image::spec_compose(base[r][c], first.color));
    crate::image::lemma_compose_opaque_source(base[r][c], first.color);
    assert(d1[r].len() == width);
    assert(d2[r][c] == crate::image::spec_compose(d1[r][c], second.color));
}

/// A canvas: the output format, the target image, and a first-in
/// first-out queue of drawables that a single save drains in insertion
/// order.
pub struct Canvas {
    /// Width of the canvas.
    pub width: usize,
    /// Height of the canvas.
    pub height: usize,
    /// The output format, resolved at construction.
    pub format: Format,
    /// The target image; it holds exactly one layer.
    pub image: Image,
    /// Drawables waiting to be rendered, in insertion order.
    pub shapes: VecDeque<Drawable>,
}

impl Canvas {
    /// A canvas is well formed when its single-layer target image matches
    /// its dimensions and every queued drawable is well formed.
    pub open spec fn wf(&self) -> bool {
        &&& self.image.wf()
        &&& self.image.width == self.width
        &&& self.image.height == self.height
        &&& self.image.layers@.len() == 1
        &&& forall|i: int| 0 <= i < self.shapes@.len() ==> (#[trigger] self.shapes@[i]).wf()
    }

    /// Creates a canvas of the given size with an opaque white target
    /// image. An unknown format tag is a configuration error.
    pub fn new(fmt: &str, width: usize, height: usize) -> (r: Result<Canvas, RenderError>)
        ensures
            r is Ok <==> (fmt@ == "png"@ || fmt@ == "jpg"@),
            r is Err ==> r == Err::<Canvas, RenderError>(RenderError::UnknownFormat),
            r matches Ok(canvas) ==> {
                &&& canvas.wf()
                &&& canvas.width == width
                &&& canvas.height == height
                &&& canvas.shapes@.len() == 0
                &&& (canvas.format == Format::Png <==> fmt@ == "png"@)
                &&& (canvas.format == Format::Jpg <==> fmt@ == "jpg"@)
                &&& forall|r: int, c: int|
                    0 <= r < height && 0 <= c < width ==> canvas.image.stack()[0][r][c] == (Pixel {
                        red: 255,
                        green: 255,
                        blue: 255,
                        alpha: 255,
                    })
            },
    {
        let format = match Format::from_tag(fmt) {
            Some(f) => f,
            None => {
                return Err(RenderError::UnknownFormat);
            },
        };
        Ok(
            Canvas {
                width,
                height,
                format,
                image: Image::new(width, height),
                shapes: VecDeque::new(),
            },
        )
    }

    /// Replaces every pixel of the target image's background layer.
    pub fn set_background(&mut self, color: Pixel)
        requires
            old(self).wf(),
        ensures
            final(self).wf(),
            final(self).width == old(self).width,
            final(self).height == old(self).height,
            final(self).format == old(self).format,
            final(self).shapes@ == old(self).shapes@,
            forall|r: int, c: int|
                0 <= r < old(self).height && 0 <= c < old(self).width
                    ==> final(self).image.stack()[0][r][c] == color,
    {
        let base = &mut self.image.layers[0];
        base.fill(color);
        proof {
            assert(final(self).image.stack()[0] =~= final(self).image.layers@[0]@);
        }
    }

    /// Converts the percentage corners `a` and `c` (each `(x, y)`, 0 to
    /// 100) to pixels, builds a rectangle of the given colour spanning
    /// that diagonal, and enqueues it. Returns the queue index of the new
    /// rectangle.
    pub fn new_rect(&mut self, a: (usize, usize), c: (usize, usize), color: [u8; 4]) -> (idx:
        usize)
        requires
            old(self).wf(),
            a.0 <= c.0 <= 100,
            a.1 <= c.1 <= 100,
            100 * old(self).width <= usize::MAX,
            100 * old(self).height <= usize::MAX,
        ensures
            final(self).wf(),
            final(self).width == old(self).width,
            final(self).height == old(self).height,
            final(self).format == old(self).format,
            final(self).image == old(self).image,
            idx == old(self).shapes@.len(),
            final(self).shapes@ == old(self).shapes@.push(
                Drawable::Rect(
                    Rect {
                        origin: Point {
                            x: spec_pct(old(self).width as int, a.0 as int) as usize,
                            y: spec_pct(old(self).height as int, a.1 as int) as usize,
                        },
                        color: Pixel {
                            red: color[0],
                            green: color[1],
                            blue: color[2],
                            alpha: color[3],
                        },
                        width: (spec_pct(old(self).width as int, c.0 as int) - spec_pct(
                            old(self).width as int,
                            a.0 as int,
                        )) as usize,
                        height: (spec_pct(old(self).height as int, c.1 as int) - spec_pct(
                            old(self).height as int,
                            a.1 as int,
                        )) as usize,
                    },
                ),
            ),
    {
        proof {
            assert(self.width * a.0 <= self.width * c.0 <= self.width * 100 == 100 * self.width)
                by (nonlinear_arith)
                requires
                    a.0 <= c.0 <= 100,
                    0 <= self.width,
            ;
            assert(self.height * a.1 <= self.height * c.1 <= self.height * 100 == 100
                * self.height) by (nonlinear_arith)
                requires
                    a.1 <= c.1 <= 100,
                    0 <= self.height,
            ;
            lemma_div_is_ordered(self.width * a.0, self.width * c.0, 100);
            lemma_div_is_ordered(self.height * a.1, self.height * c.1, 100);
        }
        let x0 = self.width * a.0 / 100;
        let y0 = self.height * a.1 / 100;
        let x1 = self.width * c.0 / 100;
        let y1 = self.height * c.1 / 100;
        let mut rect = Rect::with_coordinates((x0, y0), (x1, y1));
        rect.set_color(
            Pixel { red: color[0], green: color[1], blue: color[2], alpha: color[3] },
        );
        let idx = self.shapes.len();
        self.shapes.push_back(Drawable::Rect(rect));
        idx
    }

    /// Converts the percentage origin (`(x, y)`, 0 to 100) to pixels,
    /// places the image there, and enqueues it. Returns the queue index
    /// of the placed image, through which it can still be resized before
    /// the save.
    pub fn add_image(&mut self, origin: (usize, usize), image: Image) -> (idx: usize)
        requires
            old(self).wf(),
            image.wf(),
            origin.0 <= 100,
            origin.1 <= 100,
            100 * old(self).width <= usize::MAX,
            100 * old(self).height <= usize::MAX,
        ensures
            final(self).wf(),
            final(self).width == old(self).width,
            final(self).height == old(self).height,
            final(self).format == old(self).format,
            final(self).image == old(self).image,
            idx == old(self).shapes@.len(),
            final(self).shapes@ == old(self).shapes@.push(
                Drawable::Image(
                    Image {
                        origin: Point {
                            x: spec_pct(old(self).width as int, origin.0 as int) as usize,
                            y: spec_pct(old(self).height as int, origin.1 as int) as usize,
                        },
                        ..image
                    },
                ),
            ),
    {
        proof {
            assert(self.width * origin.0 <= self.width * 100 == 100 * self.width)
                by (nonlinear_arith)
                requires
                    origin.0 <= 100,
                    0 <= self.width,
            ;
            assert(self.height * origin.1 <= self.height * 100 == 100 * self.height)
                by (nonlinear_arith)
                requires
                    origin.1 <= 100,
                    0 <= self.height,
            ;
        }
        let ox = self.width * origin.0 / 100;
        let oy = self.height * origin.1 / 100;
        let mut image = image;
        image.origin = Point { x: ox, y: oy };
        let idx = self.shapes.len();
        self.shapes.push_back(Drawable::Image(image));
        idx
    }

    /// Resizes the queued drawable at the given index to the `[width,
    /// height]` extent; a no-op for rectangles, a resample for images.
    pub fn resize_queued(&mut self, index: usize, scale: [usize; 2]) -> (res: Result<
        (),
        RenderError,
    >)
        requires
            old(self).wf(),
            index < old(self).shapes@.len(),
            old(self).shapes@[index as int].resize_req(scale),
        ensures
            final(self).wf(),
            final(self).width == old(self).width,
            final(self).height == old(self).height,
            final(self).format == old(self).format,
            final(self).image == old(self).image,
            final(self).shapes@.len() == old(self).shapes@.len(),
            forall|i: int|
                0 <= i < old(self).shapes@.len() && i != index ==> final(self).shapes@[i] == old(
                    self,
                ).shapes@[i],
            old(self).shapes@[index as int].resize_post(
                scale,
                final(self).shapes@[index as int],
                res,
            ),
    {
        let mut drawable = match self.shapes.remove(index) {
            Some(d) => d,
            None => unreached(),
        };
        let res = drawable.resize(scale);
        self.shapes.insert(index, drawable);
        proof {
            assert(final(self).shapes@ =~= old(self).shapes@.update(
                index as int,
                final(self).shapes@[index as int],
            ));
        }
        res
    }

    /// Returns the target image that the canvas renders onto.
    pub fn fmt(&self) -> (img: &Image)
        ensures
            *img == self.image,
    {
        &self.image
    }

    /// Drains the queue in insertion order, compositing each drawable onto
    /// the target image's single layer, then encodes the final pixels in
    /// the canvas's format and returns the encoded file bytes. A drawable
    /// that does not fit the canvas aborts the render with a bounds error.
    pub fn save(&mut self) -> (res: Result<Vec<u8>, RenderError>)
        requires
            old(self).wf(),
        ensures
            final(self).wf(),
            final(self).width == old(self).width,
            final(self).height == old(self).height,
            final(self).format == old(self).format,
            res == Err::<Vec<u8>, RenderError>(RenderError::OutOfBounds) <==> spec_drained(
                old(self).image.stack()[0],
                old(self).shapes@,
                old(self).width as int,
                old(self).height as int,
            ) is None,
            spec_drained(
                old(self).image.stack()[0],
                old(self).shapes@,
                old(self).width as int,
                old(self).height as int,
            ) matches Some(drawn) ==> {
                &&& final(self).shapes@.len() == 0
                &&& final(self).image.stack()[0] == drawn
                &&& (res matches Ok(bytes) ==> {
                    &&& (final(self).format == Format::Png ==> bytes@ == png_encoding(
                        layer_bytes(drawn),
                        old(self).width as int,
                        old(self).height as int,
                    ))
                    &&& (final(self).format == Format::Jpg ==> bytes@.len() > 0)
                })
            },
            res is Err ==> res == Err::<Vec<u8>, RenderError>(RenderError::OutOfBounds) || res
                == Err::<Vec<u8>, RenderError>(RenderError::Encode),
    {
        let ghost drained = spec_drained(
            old(self).image.stack()[0],
            old(self).shapes@,
            old(self).width as int,
            old(self).height as int,
        );
        let width = self.width;
        let height = self.height;
        while self.shapes.len() > 0
            invariant
                self.wf(),
                drained == spec_drained(
                    old(self).image.stack()[0],
                    old(self).shapes@,
                    old(self).width as int,
                    old(self).height as int,
                ),
                width == self.width,
                height == self.height,
                self.width == old(self).width,
                self.height == old(self).height,
                self.format == old(self).format,
                drained == spec_drained(
                    self.image.stack()[0],
                    self.shapes@,
                    self.width as int,
                    self.height as int,
                ),
            decreases self.shapes@.len(),
        {
            let ghost pre_stack = self.image.stack()[0];
            let ghost pre_shapes = self.shapes@;
            let mut drawable = match self.shapes.pop_front() {
                Some(d) => d,
                None => unreached(),
            };
            let r = drawable.draw(&mut self.image.layers[0]);
            proof {
                assert(self.image.stack()[0] =~= self.image.layers@[0]@);
            }
            match r {
                Ok(()) => {
                    proof {
                        assert(self.shapes@ =~= pre_shapes.skip(1));
                        assert(self.image.stack()[0] == pre_shapes[0].drawn(pre_stack));
                    }
                },
                Err(e) => {
                    proof {
                        assert(drained is None);
                    }
                    return Err(e);
                },
            }
        }
        proof {
            assert(drained == Some(self.image.stack()[0]));
            lemma_collapse_single(self.image.stack(), self.width as int, self.height as int);
            assert(self.image.stack()[0] =~= self.image.layers@[0]@);
            lemma_layer_bytes_len(self.image.stack()[0], self.width as int);
        }
        let bytes = self.image.to_vec();
        match self.format {
            Format::Png => {
                if width > u32::MAX as usize || height > u32::MAX as usize {
                    return Err(RenderError::Encode);
                }
                match encode_png(&bytes, width as u32, height as u32) {
                    Some(encoded) => Ok(encoded),
                    None => Err(RenderError::Encode),
                }
            },
            Format::Jpg => {
                if width > u16::MAX as usize || height > u16::MAX as usize {
                    return Err(RenderError::Encode);
                }
                match encode_jpg(&bytes, width as u16, height as u16) {
                    Some(encoded) => Ok(encoded),
                    None => Err(RenderError::Encode),
                }
            },
        }
    }
}

/// Accepts the assets named in the manifest. Loading assets from disk
/// is the embedding application's job; the rendering core takes no
/// action for them.
pub fn parse_assets(assets_info: Vec<AssetInfo>) {
    let _ = assets_info;
}

} // verus!
