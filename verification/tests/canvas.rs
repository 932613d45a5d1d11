use kas_verified::canvas::{size_of_pixmap, CanvasProgram, CanvasState, SvgState};
use tiny_skia::Pixmap;

#[derive(Debug)]
struct Prog {
    redraw: bool,
}

impl CanvasProgram for Prog {
    fn draw(&self, _: &mut Pixmap) {}

    fn need_redraw(&mut self) -> bool {
        std::mem::replace(&mut self.redraw, false)
    }
}

#[test]
fn canvas_resize_and_render() {
    let mut s = CanvasState::Initial(Prog { redraw: false });
    let (p, px) = s.resize((4, 3)).unwrap();
    assert_eq!(size_of_pixmap(&px), (4, 3));
    assert!(matches!(s, CanvasState::Rendering));
    // nothing happens while rendering
    assert!(s.resize((5, 5)).is_none());
    assert!(matches!(s, CanvasState::Rendering));
    assert!(s.rendered(p, px, (4, 3)).is_none());
    assert!(matches!(s, CanvasState::Ready(_, _)));
    // ready at the same size: nothing to do
    assert!(s.resize((4, 3)).is_none());
    assert!(s.maybe_redraw().is_none());
    assert!(matches!(s, CanvasState::Ready(_, _)));
    // no pixmap of an empty size: the program waits
    assert!(s.resize((0, 3)).is_none());
    assert!(matches!(s, CanvasState::Initial(_)));
}

#[test]
fn canvas_redraw_requested() {
    let px = Pixmap::new(2, 2).unwrap();
    let mut s = CanvasState::Ready(Prog { redraw: true }, px);
    let (p, px) = s.maybe_redraw().unwrap();
    assert_eq!(size_of_pixmap(&px), (2, 2));
    assert!(matches!(s, CanvasState::Rendering));
    // resized while drawing: drawing restarts at the new size
    let (p, px) = s.rendered(p, px, (3, 5)).unwrap();
    assert_eq!(size_of_pixmap(&px), (3, 5));
    assert!(matches!(s, CanvasState::Rendering));
    assert!(s.rendered(p, px, (3, 5)).is_none());
    match &mut s {
        CanvasState::Ready(p, _) => assert!(!p.need_redraw()),
        _ => panic!("expected a ready canvas"),
    }
}

#[test]
fn svg_state_transitions() {
    let mut s = SvgState::Initial("a");
    let px = s.resize((2, 2)).unwrap();
    assert!(matches!(s, SvgState::Rendering("a")));
    assert_eq!(s.source(), Some(&"a"));
    assert!(s.rendered(px, (2, 2)).is_none());
    assert!(matches!(s, SvgState::Ready("a", _)));
    // loading keeps the pixmap until redrawn
    s.load("b");
    assert!(matches!(s, SvgState::Ready("b", _)));
    assert!(s.resize((2, 2)).is_none());
    let px = s.resize((3, 1)).unwrap();
    assert_eq!(size_of_pixmap(&px), (3, 1));
    assert!(matches!(s, SvgState::Rendering("b")));
    // finished at a stale size: drawn again at the image's size
    let px = s.rendered(px, (5, 5)).unwrap();
    assert_eq!(size_of_pixmap(&px), (5, 5));
    assert!(matches!(s, SvgState::Rendering("b")));
    // loading while rendering starts over
    s.load("c");
    assert!(matches!(s, SvgState::Initial("c")));

    let mut e: SvgState<&str> = SvgState::Empty;
    assert!(e.resize((1, 1)).is_none());
    assert!(e.rendered(Pixmap::new(1, 1).unwrap(), (2, 2)).is_none());
    assert!(matches!(e, SvgState::Empty));
    assert_eq!(e.source(), None);
}

#[test]
fn canvas_answer_redraw() {
    let mut s = CanvasState::Initial(Prog { redraw: false });
    let (p, px) = s.answer_redraw(Prog { redraw: false }, Pixmap::new(2, 3).unwrap(), true).unwrap();
    assert_eq!(size_of_pixmap(&px), (2, 3));
    assert!(matches!(s, CanvasState::Rendering));
    assert!(s.answer_redraw(p, px, false).is_none());
    assert!(matches!(s, CanvasState::Ready(_, _)));
}
