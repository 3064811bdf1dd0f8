//! Drawable objects: points, rectangles and placed images.
//!
//! Coordinates follow one uniform convention: `x` is the column and `y`
//! is the row, so a pair is always written `(x, y)` = `(column, row)`.

use vstd::prelude::*;

use crate::image::{
    spec_collapsed, spec_compose, Image, Layer, Pixel,
};
use crate::RenderError;

verus! {

/// A point on the pixel grid: `x` is the column, `y` is the row.
#[derive(Clone, Copy, Debug, PartialEq, Eq, Structural)]
pub struct Point {
    /// Column coordinate.
    pub x: usize,
    /// Row coordinate.
    pub y: usize,
}

impl Point {
    /// Creates the origin point `(0, 0)`.
    pub fn new() -> (p: Point)
        ensures
            p == (Point { x: 0, y: 0 }),
    {
        Point { x: 0, y: 0 }
    }
}

impl Default for Point {
    /// The default point is the origin.
    fn default() -> (p: Point)
        ensures
            p == (Point { x: 0, y: 0 }),
    {
        Point::new()
    }
}

/// Whether (`r`, `c`) lies in the `width` by `height` region anchored at
/// `origin`: rows `[origin.y, origin.y + height)`, columns
/// `[origin.x, origin.x + width)`.
pub open spec fn in_region(origin: Point, width: int, height: int, r: int, c: int) -> bool {
    &&& origin.y <= r < origin.y + height
    &&& origin.x <= c < origin.x + width
}

/// An axis-aligned rectangle with a fill colour.
#[derive(Clone, Debug)]
pub struct Rect {
    /// Origin (top-left corner) of the rectangle.
    pub origin: Point,
    /// Fill colour of the rectangle.
    pub color: Pixel,
    /// Width (number of columns) of the rectangle.
    pub width: usize,
    /// Height (number of rows) of the rectangle.
    pub height: usize,
}

impl Default for Rect {
    /// The default rectangle is empty, at the origin, with an opaque
    /// white fill.
    fn default() -> (rect: Rect)
        ensures
            rect.origin == (Point { x: 0, y: 0 }),
            rect.color == (Pixel { red: 255, green: 255, blue: 255, alpha: 255 }),
            rect.width == 0,
            rect.height == 0,
    {
        Rect::new()
    }
}

/// The target layer after a rectangle composites its fill colour over
/// every pixel of its region.
pub open spec fn spec_rect_drawn(base: Seq<Seq<Pixel>>, rect: Rect) -> Seq<Seq<Pixel>> {
    Seq::new(
        base.len(),
        |r: int|
            Seq::new(
                base[r].len(),
                |c: int|
                    if in_region(rect.origin, rect.width as int, rect.height as int, r, c) {
                        spec_compose(base[r][c], rect.color)
                    } else {
                        base[r][c]
                    },
            ),
    )
}

/// The target layer after an image composites its collapsed pixels over
/// the region anchored at its origin.
pub open spec fn spec_image_drawn(base: Seq<Seq<Pixel>>, img: Image) -> Seq<Seq<Pixel>> {
    Seq::new(
        base.len(),
        |r: int|
            Seq::new(
                base[r].len(),
                |c: int|
                    if in_region(img.origin, img.width as int, img.height as int, r, c) {
                        spec_compose(
                            base[r][c],
                            spec_collapsed(img.stack(), img.width as int, img.height as int)[r
                                - img.origin.y][c - img.origin.x],
                        )
                    } else {
                        base[r][c]
                    },
            ),
    )
}

impl Rect {
    /// Creates an empty rectangle at the origin with an opaque white fill.
    pub fn new() -> (rect: Rect)
        ensures
            rect.origin == (Point { x: 0, y: 0 }),
            rect.color == (Pixel { red: 255, green: 255, blue: 255, alpha: 255 }),
            rect.width == 0,
            rect.height == 0,
    {
        Rect {
            origin: Point { x: 0, y: 0 },
            color: Pixel { red: 255, green: 255, blue: 255, alpha: 255 },
            width: 0,
            height: 0,
        }
    }

    /// Creates an opaque black rectangle spanning the diagonal from corner
    /// `a` to corner `c`, each given as `(x, y)`.
    pub fn with_coordinates(a: (usize, usize), c: (usize, usize)) -> (rect: Rect)
        requires
            a.0 <= c.0,
            a.1 <= c.1,
        ensures
            rect.origin == (Point { x: a.0, y: a.1 }),
            rect.color == (Pixel { red: 0, green: 0, blue: 0, alpha: 255 }),
            rect.width == c.0 - a.0,
            rect.height == c.1 - a.1,
    {
        Rect {
            origin: Point { x: a.0, y: a.1 },
            color: Pixel { red: 0, green: 0, blue: 0, alpha: 255 },
            width: c.0 - a.0,
            height: c.1 - a.1,
        }
    }

    /// Sets the fill colour of the rectangle.
    pub fn set_color(&mut self, pixel: Pixel)
        ensures
            *final(self) == (Rect { color: pixel, ..*old(self) }),
    {
        self.color = pixel
    }

    /// Pastes the rectangle onto the image as a new layer: fully
    /// transparent outside the rectangle's region, its fill colour
    /// inside it.
    pub fn paste(&self, img: &mut Image)
        requires
            old(img).wf(),
            self.origin.x + self.width <= old(img).width,
            self.origin.y + self.height <= old(img).height,
        ensures
            final(img).wf(),
            final(img).width == old(img).width,
            final(img).height == old(img).height,
            final(img).origin == old(img).origin,
            final(img).layers@.len() == old(img).layers@.len() + 1,
            final(img).layers@.subrange(0, old(img).layers@.len() as int) == old(img).layers@,
            forall|r: int, c: int|
                0 <= r < old(img).height && 0 <= c < old(img).width
                    ==> final(img).layers@.last()@[r][c] == (
                if in_region(self.origin, self.width as int, self.height as int, r, c) {
                    self.color
                } else {
                    Pixel { red: 0, green: 0, blue: 0, alpha: 0 }
                }),
    {
        let mut layer = Layer::new(img.width(), img.height());
        layer.fill(Pixel { red: 0, green: 0, blue: 0, alpha: 0 });
        let x0 = self.origin.x;
        let y0 = self.origin.y;
        let w = self.width;
        let h = self.height;
        for dr in 0..h
            invariant
                layer.wf(),
                layer.width == img.width,
                layer.height == img.height,
                x0 == self.origin.x,
                y0 == self.origin.y,
                w == self.width,
                h == self.height,
                x0 + w <= layer.width,
                y0 + h <= layer.height,
                forall|r: int, c: int|
                    #![trigger layer@[r][c]]
                    0 <= r < layer.height && 0 <= c < layer.width ==> layer@[r][c] == (
                    if in_region(self.origin, w as int, h as int, r, c) && r < y0 + dr {
                        self.color
                    } else {
                        Pixel { red: 0, green: 0, blue: 0, alpha: 0 }
                    }),
        {
            for dc in 0..w
                invariant
                    layer.wf(),
                    layer.width == img.width,
                    layer.height == img.height,
                    x0 == self.origin.x,
                    y0 == self.origin.y,
                    w == self.width,
                    h == self.height,
                    x0 + w <= layer.width,
                    y0 + h <= layer.height,
                    dr < h,
                    forall|r: int, c: int|
                        #![trigger layer@[r][c]]
                        0 <= r < layer.height && 0 <= c < layer.width ==> layer@[r][c] == (
                        if in_region(self.origin, w as int, h as int, r, c) && (r < y0 + dr || (r
                            == y0 + dr && c < x0 + dc)) {
                            self.color
                        } else {
                            Pixel { red: 0, green: 0, blue: 0, alpha: 0 }
                        }),
            {
                layer.set_pixel(y0 + dr, x0 + dc, self.color);
            }
        }
        img.add_layer(layer);
    }
}

/// A renderable object: it can composite itself onto a target layer and
/// resize itself to a target extent.
pub trait Object: Sized {
    /// The object's own well-formedness.
    spec fn obj_wf(&self) -> bool;

    /// Whether the object's placement fits a `width` by `height` target.
    spec fn fits(&self, width: int, height: int) -> bool;

    /// The target layer after the object composites itself onto `base`.
    spec fn drawn(&self, base: Seq<Seq<Pixel>>) -> Seq<Seq<Pixel>>;

    /// How drawing changes the object itself.
    spec fn draw_post(&self, post: Self, res: Result<(), RenderError>) -> bool;

    /// The inputs on which the object can resize.
    spec fn resize_req(&self, scale: [usize; 2]) -> bool;

    /// How resizing changes the object.
    spec fn resize_post(&self, scale: [usize; 2], post: Self, res: Result<(), RenderError>) -> bool;

    /// Composites the object onto the target layer; fails without changing
    /// the target when the object does not fit inside it.
    fn draw(&mut self, target: &mut Layer) -> (res: Result<(), RenderError>)
        requires
            old(self).obj_wf(),
            old(target).wf(),
        ensures
            final(target).wf(),
            final(target).width == old(target).width,
            final(target).height == old(target).height,
            final(self).obj_wf(),
            old(self).draw_post(*final(self), res),
            res is Ok <==> old(self).fits(old(target).width as int, old(target).height as int),
            res is Ok ==> final(target)@ == old(self).drawn(old(target)@),
            res is Err ==> *final(target) == *old(target) && res == Err::<(), RenderError>(
                RenderError::OutOfBounds,
            ),
    ;

    /// Resizes the object to the given `[width, height]` extent.
    fn resize(&mut self, scale: [usize; 2]) -> (res: Result<(), RenderError>)
        requires
            old(self).obj_wf(),
            old(self).resize_req(scale),
        ensures
            final(self).obj_wf(),
            old(self).resize_post(scale, *final(self), res),
    ;
}

impl Object for Rect {
    /// A rectangle is always well formed.
    open spec fn obj_wf(&self) -> bool {
        true
    }

    open spec fn fits(&self, width: int, height: int) -> bool {
        &&& self.origin.x + self.width <= width
        &&& self.origin.y + self.height <= height
    }

    open spec fn drawn(&self, base: Seq<Seq<Pixel>>) -> Seq<Seq<Pixel>> {
        spec_rect_drawn(base, *self)
    }

    /// Drawing never changes the rectangle.
    open spec fn draw_post(&self, post: Rect, res: Result<(), RenderError>) -> bool {
        post == *self
    }

    open spec fn resize_req(&self, scale: [usize; 2]) -> bool {
        true
    }

    /// Rectangles are resolution independent: resizing is a no-op.
    open spec fn resize_post(&self, scale: [usize; 2], post: Rect, res: Result<
        (),
        RenderError,
    >) -> bool {
        post == *self && res == Ok::<(), RenderError>(())
    }

    fn draw(&mut self, target: &mut Layer) -> (res: Result<(), RenderError>) {
        let fits = self.width <= target.width && self.origin.x <= target.width - self.width
            && self.height <= target.height && self.origin.y <= target.height - self.height;
        if !fits {
            return Err(RenderError::OutOfBounds);
        }
        let ghost base = target@;
        let x0 = self.origin.x;
        let y0 = self.origin.y;
        let w = self.width;
        let h = self.height;
        let color = self.color;
        for dr in 0..h
            invariant
                *self == *old(self),
                target.wf(),
                target.width == old(target).width,
                target.height == old(target).height,
                base == old(target)@,
                x0 == self.origin.x,
                y0 == self.origin.y,
                w == self.width,
                h == self.height,
                color == self.color,
                x0 + w <= target.width,
                y0 + h <= target.height,
                forall|r: int, c: int|
                    #![trigger target@[r][c]]
                    0 <= r < target.height && 0 <= c < target.width ==> target@[r][c] == (
                    if in_region(self.origin, w as int, h as int, r, c) && r < y0 + dr {
                        spec_compose(base[r][c], color)
                    } else {
                        base[r][c]
                    }),
        {
            for dc in 0..w
                invariant
                    *self == *old(self),
                    target.wf(),
                    target.width == old(target).width,
                    target.height == old(target).height,
                    base == old(target)@,
                    x0 == self.origin.x,
                    y0 == self.origin.y,
                    w == self.width,
                    h == self.height,
                    color == self.color,
                    x0 + w <= target.width,
                    y0 + h <= target.height,
                    dr < h,
                    forall|r: int, c: int|
                        #![trigger target@[r][c]]
                        0 <= r < target.height && 0 <= c < target.width ==> target@[r][c] == (
                        if in_region(self.origin, w as int, h as int, r, c) && (r < y0 + dr || (r
                            == y0 + dr && c < x0 + dc)) {
                            spec_compose(base[r][c], color)
                        } else {
                            base[r][c]
                        }),
            {
                let cur = target.rows[y0 + dr].pixels[x0 + dc];
                proof {
                    assert(cur == target@[y0 + dr][x0 + dc]);
                    assert(target@[y0 + dr][x0 + dc] == base[y0 + dr][x0 + dc]);
                }
                target.set_pixel(y0 + dr, x0 + dc, cur.compose(color));
            }
        }
        proof {
            assert(target@ =~~= spec_rect_drawn(base, *self));
        }
        Ok(())
    }

    fn resize(&mut self, scale: [usize; 2]) -> (res: Result<(), RenderError>) {
        Ok(())
    }
}

/// The width an image resolves a resize request to: a zero requested
/// width is recomputed from the requested height to preserve the aspect
/// ratio.
pub open spec fn spec_resolved_width(img: Image, scale: [usize; 2]) -> int {
    if scale[0] == 0 {
        img.width * scale[1] / img.height as int
    } else {
        scale[0] as int
    }
}

/// The height an image resolves a resize request to, symmetrically.
pub open spec fn spec_resolved_height(img: Image, scale: [usize; 2]) -> int {
    if scale[1] == 0 {
        img.height * scale[0] / img.width as int
    } else {
        scale[1] as int
    }
}

impl Object for Image {
    /// The image's layer stack matches its dimensions.
    open spec fn obj_wf(&self) -> bool {
        self.wf()
    }

    open spec fn fits(&self, width: int, height: int) -> bool {
        &&& self.origin.x + self.width <= width
        &&& self.origin.y + self.height <= height
    }

    open spec fn drawn(&self, base: Seq<Seq<Pixel>>) -> Seq<Seq<Pixel>> {
        spec_image_drawn(base, *self)
    }

    /// Drawing collapses the image's own layer stack; a failed draw leaves
    /// it unchanged.
    open spec fn draw_post(&self, post: Image, res: Result<(), RenderError>) -> bool {
        &&& post.width == self.width
        &&& post.height == self.height
        &&& post.origin == self.origin
        &&& (res is Err ==> post == *self)
        &&& (res is Ok ==> post.layers@.len() == 1 && post.stack()[0] == spec_collapsed(
            self.stack(),
            self.width as int,
            self.height as int,
        ))
    }

    /// Resizing needs a non-empty image and products that fit the machine.
    open spec fn resize_req(&self, scale: [usize; 2]) -> bool {
        &&& self.width >= 1
        &&& self.height >= 1
        &&& self.width * scale[1] <= usize::MAX
        &&& self.height * scale[0] <= usize::MAX
        &&& 4 * spec_resolved_width(*self, scale) * spec_resolved_height(*self, scale)
            <= usize::MAX
    }

    /// A resize either fails leaving the image unchanged — on a target
    /// that resolves to zero size, or when the external resampler fails —
    /// or replaces the layer stack with exactly one resampled layer. A
    /// request equal to the current size is a no-op.
    open spec fn resize_post(&self, scale: [usize; 2], post: Image, res: Result<
        (),
        RenderError,
    >) -> bool {
        let rw = spec_resolved_width(*self, scale);
        let rh = spec_resolved_height(*self, scale);
        &&& (res == Err::<(), RenderError>(RenderError::InvalidResize) <==> (rw == 0 || rh == 0))
        &&& (res is Err ==> post == *self)
        &&& (res is Err ==> res == Err::<(), RenderError>(RenderError::InvalidResize) || res
            == Err::<(), RenderError>(RenderError::Encode))
        &&& ((scale[0] == self.width && scale[1] == self.height) ==> res == Ok::<
            (),
            RenderError,
        >(()) && post == *self)
        &&& ((res is Ok && !(scale[0] == self.width && scale[1] == self.height)) ==> {
            &&& post.width == rw
            &&& post.height == rh
            &&& post.origin == self.origin
            &&& post.layers@.len() == 1
            &&& forall|r: int, c: int|
                0 <= r < rh && 0 <= c < rw ==> post.stack()[0][r][c]
                    == crate::image::rgba_pixel_at(
                    crate::codec::resampled(
                        crate::image::layer_bytes(
                            spec_collapsed(self.stack(), self.width as int, self.height as int),
                        ),
                        self.width as int,
                        self.height as int,
                        rw,
                        rh,
                    ),
                    r * rw + c,
                )
        })
    }

    fn draw(&mut self, target: &mut Layer) -> (res: Result<(), RenderError>) {
        let fits = self.width <= target.width && self.origin.x <= target.width - self.width
            && self.height <= target.height && self.origin.y <= target.height - self.height;
        if !fits {
            return Err(RenderError::OutOfBounds);
        }
        self.collapse();
        let ghost base = target@;
        let ghost coll = spec_collapsed(
            old(self).stack(),
            old(self).width as int,
            old(self).height as int,
        );
        let x0 = self.origin.x;
        let y0 = self.origin.y;
        let w = self.width;
        let h = self.height;
        let ghost snap = *self;
        for dr in 0..h
            invariant
                *self == snap,
                self.wf(),
                self.layers@.len() == 1,
                self.stack()[0] == coll,
                self.width == old(self).width,
                self.height == old(self).height,
                self.origin == old(self).origin,
                target.wf(),
                target.width == old(target).width,
                target.height == old(target).height,
                base == old(target)@,
                x0 == self.origin.x,
                y0 == self.origin.y,
                w == self.width,
                h == self.height,
                x0 + w <= target.width,
                y0 + h <= target.height,
                forall|r: int, c: int|
                    #![trigger target@[r][c]]
                    0 <= r < target.height && 0 <= c < target.width ==> target@[r][c] == (
                    if in_region(self.origin, w as int, h as int, r, c) && r < y0 + dr {
                        spec_compose(base[r][c], coll[r - y0][c - x0])
                    } else {
                        base[r][c]
                    }),
        {
            for dc in 0..w
                invariant
                    *self == snap,
                    self.wf(),
                    self.layers@.len() == 1,
                    self.stack()[0] == coll,
                    self.width == old(self).width,
                    self.height == old(self).height,
                    self.origin == old(self).origin,
                    target.wf(),
                    target.width == old(target).width,
                    target.height == old(target).height,
                    base == old(target)@,
                    x0 == self.origin.x,
                    y0 == self.origin.y,
                    w == self.width,
                    h == self.height,
                    x0 + w <= target.width,
                    y0 + h <= target.height,
                    dr < h,
                    forall|r: int, c: int|
                        #![trigger target@[r][c]]
                        0 <= r < target.height && 0 <= c < target.width ==> target@[r][c] == (
                        if in_region(self.origin, w as int, h as int, r, c) && (r < y0 + dr || (r
                            == y0 + dr && c < x0 + dc)) {
                            spec_compose(base[r][c], coll[r - y0][c - x0])
                        } else {
                            base[r][c]
                        }),
            {
                let src = self.layers[0].rows[dr].pixels[dc];
                let cur = target.rows[y0 + dr].pixels[x0 + dc];
                proof {
                    assert(src == coll[dr as int][dc as int]);
                    assert(cur == target@[y0 + dr][x0 + dc]);
                    assert(target@[y0 + dr][x0 + dc] == base[y0 + dr][x0 + dc]);
                }
                target.set_pixel(y0 + dr, x0 + dc, cur.compose(src));
            }
        }
        proof {
            assert(target@ =~~= spec_image_drawn(base, *old(self)));
        }
        Ok(())
    }

    fn resize(&mut self, scale: [usize; 2]) -> (res: Result<(), RenderError>) {
        let w1 = self.width;
        let h1 = self.height;
        if scale[0] == w1 && scale[1] == h1 {
            return Ok(());
        }
        let rw = if scale[0] == 0 {
            (w1 * scale[1]) / h1
        } else {
            scale[0]
        };
        let rh = if scale[1] == 0 {
            (h1 * scale[0]) / w1
        } else {
            scale[1]
        };
        proof {
            assert(rw == spec_resolved_width(*old(self), scale));
            assert(rh == spec_resolved_height(*old(self), scale));
        }
        if rw == 0 || rh == 0 {
            return Err(RenderError::InvalidResize);
        }
        let layer = self.collapsed_layer();
        let src = layer.to_bytes();
        proof {
            crate::image::lemma_layer_bytes_len(layer@, w1 as int);
        }
        proof {
            assert(rw * rh <= usize::MAX && 4 * (rw * rh) == 4 * rw * rh) by (nonlinear_arith)
                requires
                    rw >= 1,
                    rh >= 1,
                    4 * rw * rh <= usize::MAX,
            ;
        }
        let n = rw * rh;
        let dst = vec![0u8; 4 * n];
        match crate::codec::resample_rgba(&src, w1, h1, rw, rh, dst) {
            Some(out) => {
                let new_layer = Layer::from_rgba(rw, rh, &out);
                self.width = rw;
                self.height = rh;
                let mut layers: Vec<Layer> = Vec::new();
                layers.push(new_layer);
                self.layers = layers;
                Ok(())
            },
            None => Err(RenderError::Encode),
        }
    }
}

/// The closed set of drawables a canvas can queue: rectangles and placed
/// images. Rendering dispatches on the variant, so the canvas itself
/// stays agnostic to the concrete kind.
pub enum Drawable {
    /// A filled rectangle.
    Rect(Rect),
    /// A placed image with its own layer stack.
    Image(Image),
}

impl Drawable {
    /// The drawable's own well-formedness.
    pub open spec fn wf(&self) -> bool {
        match self {
            Drawable::Rect(_) => true,
            Drawable::Image(img) => img.wf(),
        }
    }

    /// Whether the drawable's placement fits a `width` by `height` target.
    pub open spec fn fits(&self, width: int, height: int) -> bool {
        match self {
            Drawable::Rect(rect) => rect.fits(width, height),
            Drawable::Image(img) => Object::fits(img, width, height),
        }
    }

    /// The target layer after the drawable composites itself onto `base`.
    pub open spec fn drawn(&self, base: Seq<Seq<Pixel>>) -> Seq<Seq<Pixel>> {
        match self {
            Drawable::Rect(rect) => rect.drawn(base),
            Drawable::Image(img) => Object::drawn(img, base),
        }
    }

    /// The inputs on which the drawable can resize.
    pub open spec fn resize_req(&self, scale: [usize; 2]) -> bool {
        match self {
            Drawable::Rect(_) => true,
            Drawable::Image(img) => img.resize_req(scale),
        }
    }

    /// How resizing changes the drawable.
    pub open spec fn resize_post(&self, scale: [usize; 2], post: Drawable, res: Result<
        (),
        RenderError,
    >) -> bool {
        match self {
            Drawable::Rect(rect) => post == *self && res == Ok::<(), RenderError>(()),
            Drawable::Image(img) => {
                post is Image && img.resize_post(scale, post->Image_0, res)
            },
        }
    }

    /// Composites the drawable onto the target layer.
    pub fn draw(&mut self, target: &mut Layer) -> (res: Result<(), RenderError>)
        requires
            old(self).wf(),
            old(target).wf(),
        ensures
            final(self).wf(),
            final(target).wf(),
            final(target).width == old(target).width,
            final(target).height == old(target).height,
            res is Ok <==> old(self).fits(old(target).width as int, old(target).height as int),
            res is Ok ==> final(target)@ == old(self).drawn(old(target)@),
            res is Err ==> *final(target) == *old(target) && res == Err::<(), RenderError>(
                RenderError::OutOfBounds,
            ),
    {
        match self {
            Drawable::Rect(rect) => rect.draw(target),
            Drawable::Image(img) => img.draw(target),
        }
    }

    /// Resizes the drawable to the given `[width, height]` extent.
    pub fn resize(&mut self, scale: [usize; 2]) -> (res: Result<(), RenderError>)
        requires
            old(self).wf(),
            old(self).resize_req(scale),
        ensures
            final(self).wf(),
            old(self).resize_post(scale, *final(self), res),
    {
        match self {
            Drawable::Rect(rect) => rect.resize(scale),
            Drawable::Image(img) => img.resize(scale),
        }
    }
}

} // verus!
