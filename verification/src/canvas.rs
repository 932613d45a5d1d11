//! Rendering state of the canvas and SVG widgets: each keeps its program
//! (or image source) and the pixmap last drawn, and decides when a pixmap
//! must be drawn again. Drawing itself runs elsewhere, on the pixmap and
//! program (or source) handed out here, and comes back as a finished pixmap.

use tiny_skia::Pixmap;
use vstd::prelude::*;

verus! {

#[verifier::external_type_specification]
#[verifier::external_body]
pub struct ExPixmap(Pixmap);

/// The width of a pixmap, in pixels
pub uninterp spec fn pixmap_width(p: Pixmap) -> u32;

/// The height of a pixmap, in pixels
pub uninterp spec fn pixmap_height(p: Pixmap) -> u32;

/// The size of a pixmap, `(width, height)`
pub open spec fn pixmap_size(p: Pixmap) -> (u32, u32) {
    (pixmap_width(p), pixmap_height(p))
}

/// A pixmap of `w × h` pixels can be made: both sides are positive, a row
/// of four bytes per pixel fits in `i32` and all rows fit in `usize`
pub open spec fn pixmap_fits(w: u32, h: u32) -> bool {
    &&& w > 0
    &&& h > 0
    &&& 4 * w <= i32::MAX
    &&& 4 * w * h <= usize::MAX
}

/// Calls `Pixmap::new`, which makes a pixmap of `width × height` pixels
/// exactly when its checked size computations succeed, as
/// [`pixmap_fits`] states them.
#[verifier::external_body]
fn new_pixmap(width: u32, height: u32) -> (r: Option<Pixmap>)
    ensures
        r is Some <==> pixmap_fits(width, height),
        r matches Some(p) ==> pixmap_width(p) == width && pixmap_height(p) == height,
{
    Pixmap::new(width, height)
}

/// Calls `Pixmap::width`
#[verifier::external_body]
fn width_of(p: &Pixmap) -> (r: u32)
    ensures
        r == pixmap_width(*p),
{
    p.width()
}

/// Calls `Pixmap::height`
#[verifier::external_body]
fn height_of(p: &Pixmap) -> (r: u32)
    ensures
        r == pixmap_height(*p),
{
    p.height()
}

/// The size of a pixmap
pub fn size_of_pixmap(p: &Pixmap) -> (r: (u32, u32))
    ensures
        r == pixmap_size(*p),
{
    (width_of(p), height_of(p))
}

/// Draws a canvas; implemented by users of the canvas widget
pub trait CanvasProgram: std::fmt::Debug + Send + 'static {
    /// Draw the image into `pixmap`
    fn draw(&self, pixmap: &mut Pixmap);

    /// Called each time a frame is drawn: whether to draw the image again
    fn need_redraw(&mut self) -> bool {
        false
    }
}

/// State of a canvas: a program waiting for a size, drawing in progress
/// (the program is away with the pixmap), or a program with its drawn
/// pixmap
pub enum CanvasState<P> {
    Initial(P),
    Rendering,
    Ready(P, Pixmap),
}

/// The program of a canvas state, when it holds one
pub open spec fn canvas_program<P>(s: CanvasState<P>) -> Option<P> {
    match s {
        CanvasState::Initial(p) => Some(p),
        CanvasState::Rendering => None,
        CanvasState::Ready(p, _) => Some(p),
    }
}

impl<P: CanvasProgram> CanvasState<P> {
    /// The step after a ready program (with its pixmap) was asked whether
    /// to redraw: when it `need`s a redraw, program and pixmap are handed out
    /// and the state is rendering; otherwise the state is ready with them
    pub fn answer_redraw(&mut self, program: P, pixmap: Pixmap, need: bool) -> (r: Option<(P, Pixmap)>)
        ensures
            need ==> r == Some((program, pixmap)) && *final(self) == CanvasState::<P>::Rendering,
            !need ==> r is None && *final(self) == CanvasState::Ready(program, pixmap),
    {
        if need {
            *self = CanvasState::Rendering;
            Some((program, pixmap))
        } else {
            *self = CanvasState::Ready(program, pixmap);
            None
        }
    }

    /// Redraw if requested: a ready state whose program asks for a redraw
    /// hands out its program and pixmap and is then rendering; otherwise the
    /// state stays (a ready program keeps what `need_redraw` made of it)
    pub fn maybe_redraw(&mut self) -> (r: Option<(P, Pixmap)>)
        ensures
            match *old(self) {
                CanvasState::Ready(_, px) => match r {
                    Some((_, px2)) => px2 == px && *final(self) is Rendering,
                    None => *final(self) matches CanvasState::Ready(_, px3) && px3 == px,
                },
                _ => r is None && *final(self) == *old(self),
            },
    {
        let mut state = CanvasState::Rendering;
        std::mem::swap(self, &mut state);
        match state {
            CanvasState::Ready(mut p, px) => {
                let need = p.need_redraw();
                self.answer_redraw(p, px, need)
            },
            other => {
                *self = other;
                None
            },
        }
    }

    /// Resize to `size`, redrawing on resize: nothing happens while
    /// rendering or when ready at that size; else, when a pixmap of that
    /// size can be made, the program and the new pixmap are handed out and
    /// the state is rendering, or the program waits in the initial state
    pub fn resize(&mut self, size: (u32, u32)) -> (r: Option<(P, Pixmap)>)
        ensures
            *old(self) is Rendering ==> r is None && *final(self) == *old(self),
            (*old(self) matches CanvasState::Ready(_, px) && pixmap_size(px) == size) ==> r is None
                && *final(self) == *old(self),
            (*old(self) is Initial || (*old(self) matches CanvasState::Ready(_, px) && pixmap_size(px) != size))
                ==> if pixmap_fits(size.0, size.1) {
                r matches Some((p, px)) && Some(p) == canvas_program(*old(self)) && pixmap_size(px) == size
                    && *final(self) is Rendering
            } else {
                r is None && (canvas_program(*old(self)) matches Some(p) && *final(self) == CanvasState::Initial(p))
            },
    {
        let mut state = CanvasState::Rendering;
        std::mem::swap(self, &mut state);
        let program = match state {
            CanvasState::Rendering => return None,
            CanvasState::Initial(p) => p,
            CanvasState::Ready(p, px) => {
                let s = size_of_pixmap(&px);
                if s.0 == size.0 && s.1 == size.1 {
                    *self = CanvasState::Ready(p, px);
                    return None;
                }
                p
            },
        };
        match new_pixmap(size.0, size.1) {
            Some(px) => Some((program, px)),
            None => {
                *self = CanvasState::Initial(program);
                None
            },
        }
    }

    /// A drawing finished with `program` and `pixmap` while the canvas has
    /// size `rect_size`: at that size the state is ready; otherwise (the
    /// canvas was resized meanwhile) the program and a new pixmap of the
    /// canvas's size are handed out, the state staying as it is, or the
    /// program waits in the initial state when no such pixmap can be made
    pub fn rendered(&mut self, program: P, pixmap: Pixmap, rect_size: (u32, u32)) -> (r: Option<(P, Pixmap)>)
        ensures
            pixmap_size(pixmap) == rect_size ==> r is None && *final(self) == CanvasState::Ready(program, pixmap),
            pixmap_size(pixmap) != rect_size && pixmap_fits(rect_size.0, rect_size.1) ==> (r matches Some((p, px))
                && p == program && pixmap_size(px) == rect_size && *final(self) == *old(self)),
            pixmap_size(pixmap) != rect_size && !pixmap_fits(rect_size.0, rect_size.1) ==> r is None
                && *final(self) == CanvasState::Initial(program),
    {
        let size = size_of_pixmap(&pixmap);
        if size.0 == rect_size.0 && size.1 == rect_size.1 {
            *self = CanvasState::Ready(program, pixmap);
            return None;
        }
        match new_pixmap(rect_size.0, rect_size.1) {
            Some(px) => Some((program, px)),
            None => {
                *self = CanvasState::Initial(program);
                None
            },
        }
    }
}

/// State of an SVG image: nothing loaded, a source waiting for a size, a
/// source being drawn, or a source with its drawn pixmap
pub enum SvgState<S> {
    Empty,
    Initial(S),
    Rendering(S),
    Ready(S, Pixmap),
}

/// The source of an SVG state, when it holds one
pub open spec fn svg_source<S>(s: SvgState<S>) -> Option<S> {
    match s {
        SvgState::Empty => None,
        SvgState::Initial(src) => Some(src),
        SvgState::Rendering(src) => Some(src),
        SvgState::Ready(src, _) => Some(src),
    }
}

impl<S> SvgState<S> {
    /// The source being shown, if any
    pub fn source(&self) -> (r: Option<&S>)
        ensures
            match svg_source(*self) {
                Some(src) => r matches Some(x) && *x == src,
                None => r is None,
            },
    {
        match self {
            SvgState::Empty => None,
            SvgState::Initial(src) => Some(src),
            SvgState::Rendering(src) => Some(src),
            SvgState::Ready(src, _) => Some(src),
        }
    }

    /// Load a new source: a ready state keeps its pixmap (until redrawn),
    /// any other state becomes initial
    pub fn load(&mut self, source: S)
        ensures
            match *old(self) {
                SvgState::Ready(_, px) => *final(self) == SvgState::Ready(source, px),
                _ => *final(self) == SvgState::Initial(source),
            },
    {
        let mut state = SvgState::Empty;
        std::mem::swap(self, &mut state);
        *self = match state {
            SvgState::Ready(_, px) => SvgState::Ready(source, px),
            _ => SvgState::Initial(source),
        };
    }

    /// Resize to `size`, redrawing on resize: nothing happens when empty,
    /// while rendering or when ready at that size; else, when a pixmap of
    /// that size can be made, it is handed out (to draw the source into) and
    /// the state is rendering, or the source waits in the initial state
    pub fn resize(&mut self, size: (u32, u32)) -> (r: Option<Pixmap>)
        ensures
            (*old(self) is Empty || *old(self) is Rendering) ==> r is None && *final(self) == *old(self),
            (*old(self) matches SvgState::Ready(_, px) && pixmap_size(px) == size) ==> r is None && *final(self)
                == *old(self),
            (*old(self) is Initial || (*old(self) matches SvgState::Ready(_, px) && pixmap_size(px) != size))
                ==> if pixmap_fits(size.0, size.1) {
                r matches Some(px) && pixmap_size(px) == size && (svg_source(*old(self)) matches Some(s)
                    && *final(self) == SvgState::Rendering(s))
            } else {
                r is None && (svg_source(*old(self)) matches Some(s) && *final(self) == SvgState::Initial(s))
            },
    {
        let mut state = SvgState::Empty;
        std::mem::swap(self, &mut state);
        let source = match state {
            SvgState::Empty => return None,
            SvgState::Rendering(s) => {
                *self = SvgState::Rendering(s);
                return None;
            },
            SvgState::Initial(s) => s,
            SvgState::Ready(s, px) => {
                let ps = size_of_pixmap(&px);
                if ps.0 == size.0 && ps.1 == size.1 {
                    *self = SvgState::Ready(s, px);
                    return None;
                }
                s
            },
        };
        match new_pixmap(size.0, size.1) {
            Some(px) => {
                *self = SvgState::Rendering(source);
                Some(px)
            },
            None => {
                *self = SvgState::Initial(source);
                None
            },
        }
    }

    /// A drawing finished with `pixmap` while the image has size
    /// `own_size`: a state holding a source becomes ready with it (an empty
    /// state stays empty); when the sizes differ the image is then resized
    /// to `own_size` (see [`SvgState::resize`]), whose pixmap is handed out
    pub fn rendered(&mut self, pixmap: Pixmap, own_size: (u32, u32)) -> (r: Option<Pixmap>)
        ensures
            *old(self) is Empty ==> r is None && *final(self) is Empty,
            !(*old(self) is Empty) && pixmap_size(pixmap) == own_size ==> r is None && (svg_source(*old(self))
                matches Some(s) && *final(self) == SvgState::Ready(s, pixmap)),
            !(*old(self) is Empty) && pixmap_size(pixmap) != own_size && pixmap_fits(own_size.0, own_size.1)
                ==> (r matches Some(px) && pixmap_size(px) == own_size && (svg_source(*old(self)) matches Some(s)
                && *final(self) == SvgState::Rendering(s))),
            !(*old(self) is Empty) && pixmap_size(pixmap) != own_size && !pixmap_fits(own_size.0, own_size.1)
                ==> r is None && (svg_source(*old(self)) matches Some(s) && *final(self) == SvgState::Initial(s)),
    {
        let size = size_of_pixmap(&pixmap);
        let mut state = SvgState::Empty;
        std::mem::swap(self, &mut state);
        *self = match state {
            SvgState::Empty => SvgState::Empty,
            SvgState::Initial(s) => SvgState::Ready(s, pixmap),
            SvgState::Rendering(s) => SvgState::Ready(s, pixmap),
            SvgState::Ready(s, _) => SvgState::Ready(s, pixmap),
        };
        if size.0 != own_size.0 || size.1 != own_size.1 {
            return self.resize(own_size);
        }
        None
    }
}

} // verus!
