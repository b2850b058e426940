//! The view capability, and the window that drives a tree of views.

use vstd::prelude::*;
use vstd::view::View as _;
use crate::key::KeyEvent;
use crate::layout::Layout;
use crate::surface::DrawOp;
use crate::surface::Surface;

verus! {

/// Width of the space that a redraw pass offers the root view.
pub const VIEWPORT_WIDTH: i32 = 600;

/// Height of the space that a redraw pass offers the root view.
pub const VIEWPORT_HEIGHT: i32 = 400;

/// The space that a redraw pass offers the root view.
pub open spec fn viewport() -> Layout {
    Layout { width: VIEWPORT_WIDTH, height: VIEWPORT_HEIGHT }
}

/// What every node of the view tree can do: draw itself, take a key, settle
/// on a layout, and report the layout it settled on.
///
/// Within a frame `relayout` comes before `draw`. `draw` finds the origin of
/// the surface at the top-left corner of the view and leaves the transform
/// as it found it; the parent moves the origin between siblings.
///
/// The four specification functions say what the four methods do. A view
/// written in Verus defines them and is held to them. Their defaults
/// promise nothing, so that a view of the host can implement the methods
/// alone.
pub trait View: Sized {
    /// The layout that the view holds from its last relayout.
    open spec fn layout(&self) -> Layout {
        arbitrary()
    }

    /// Whether `next` is what a relayout against `space` may make of the
    /// view.
    open spec fn relaid(&self, space: Layout, next: Self) -> bool {
        true
    }

    /// Whether `next` is what handling `ev` may make of the view.
    open spec fn keyed(&self, ev: KeyEvent, next: Self) -> bool {
        true
    }

    /// The commands that the view draws, with or without the focus.
    open spec fn drawn(&self, focus: bool) -> Seq<DrawOp> {
        arbitrary()
    }

    /// Draws the view: appends its commands to `cr`.
    fn draw(&self, cr: &mut Surface, focus: bool)
        ensures
            final(cr)@ == old(cr)@ + self.drawn(focus),
    ;

    /// Handles a key press.
    fn key(&mut self, ev: &KeyEvent)
        ensures
            old(self).keyed(*ev, *final(self)),
    ;

    /// Settles on a layout within `space`, keeps it, and returns it.
    ///
    /// A view of fixed size changes nothing and returns the layout it holds.
    fn relayout(&mut self, space: Layout) -> (layout: Layout)
        ensures
            old(self).relaid(space, *final(self)),
            layout == final(self).layout(),
    ;

    /// The layout that the last relayout settled on.
    fn get_layout(&self) -> (layout: Layout)
        ensures
            layout == self.layout(),
    ;
}

/// The view that a window shows before it is given one: it takes no space,
/// draws nothing and ignores keys.
#[derive(Debug, Clone, Copy, PartialEq, Eq, Structural)]
pub struct NullView {}

impl View for NullView {
    open spec fn layout(&self) -> Layout {
        Layout { width: 0, height: 0 }
    }

    open spec fn relaid(&self, space: Layout, next: Self) -> bool {
        next == *self
    }

    open spec fn keyed(&self, ev: KeyEvent, next: Self) -> bool {
        next == *self
    }

    open spec fn drawn(&self, focus: bool) -> Seq<DrawOp> {
        Seq::empty()
    }

    fn draw(&self, cr: &mut Surface, focus: bool) {
    }

    fn key(&mut self, ev: &KeyEvent) {
    }

    fn relayout(&mut self, space: Layout) -> (layout: Layout) {
        self.get_layout()
    }

    fn get_layout(&self) -> (layout: Layout) {
        Layout::new()
    }
}

/// The top of the view tree: one child that can be replaced, and the flag
/// that coalesces requests for a redraw.
///
/// The host owns the window, delivers its events to `draw` and `key`, and
/// schedules a redraw whenever `dirty` tells it to.
pub struct Win<V> {
    child: Option<V>,
    draw_pending: bool,
}

impl<V: View> Win<V> {
    /// The installed child, if there is one.
    pub closed spec fn child(&self) -> Option<V> {
        self.child
    }

    /// Whether a redraw was requested and has not run yet.
    pub closed spec fn pending(&self) -> bool {
        self.draw_pending
    }

    /// Whether `next` and `request` are what a dirty signal makes of the
    /// window: the flag is set, and the host is asked for a redraw only if
    /// the flag was clear.
    pub open spec fn signalled(&self, next: Self, request: bool) -> bool {
        &&& request == !self.pending()
        &&& next.pending()
        &&& next.child() == self.child()
    }

    /// Whether `next` is what a redraw pass may make of the window: the
    /// child laid out in the viewport, and the flag clear.
    pub open spec fn redrawn(&self, next: Self) -> bool {
        &&& !next.pending()
        &&& match self.child() {
            Some(child) => next.child() is Some && child.relaid(viewport(), next.child()->0),
            None => next.child() is None,
        }
    }

    /// The commands of a redraw pass: those of the child, drawn with the
    /// focus, or none where there is no child.
    pub open spec fn drawn(&self) -> Seq<DrawOp> {
        match self.child() {
            Some(child) => child.drawn(true),
            None => Seq::empty(),
        }
    }

    /// Whether `next` is what a key pass with `ev` may make of the window:
    /// the child has handled the key, and the flag is as it was.
    pub open spec fn keyed(&self, ev: KeyEvent, next: Self) -> bool {
        &&& next.pending() == self.pending()
        &&& match self.child() {
            Some(child) => next.child() is Some && child.keyed(ev, next.child()->0),
            None => next.child() is None,
        }
    }

    /// A window with no child yet and no redraw pending.
    pub fn new() -> (win: Win<V>)
        ensures
            win.child() is None,
            !win.pending(),
    {
        Win { child: None, draw_pending: false }
    }

    /// Installs `child` as the root view and returns the one it replaces.
    pub fn set_child(&mut self, child: V) -> (previous: Option<V>)
        ensures
            final(self).child() == Some(child),
            final(self).pending() == old(self).pending(),
            previous == old(self).child(),
    {
        let mut slot: Option<V> = Some(child);
        std::mem::swap(&mut slot, &mut self.child);
        slot
    }

    /// The installed child.
    pub fn get_child(&self) -> (child: Option<&V>)
        ensures
            child is Some <==> self.child() is Some,
            child is Some ==> *child->0 == self.child()->0,
    {
        self.child.as_ref()
    }

    /// The installed child, to change it in place.
    pub fn child_mut(&mut self) -> (child: Option<&mut V>)
        ensures
            final(self).pending() == old(self).pending(),
            old(self).child() is None ==> child is None && final(self).child() is None,
            old(self).child() is Some ==> child is Some && *child->0 == old(self).child()->0
                && final(self).child() == Some(*final(child->0)),
    {
        match &mut self.child {
            Some(v) => Some(v),
            None => None,
        }
    }

    /// Whether a redraw was requested and has not run yet.
    pub fn is_pending(&self) -> (pending: bool)
        ensures
            pending == self.pending(),
    {
        self.draw_pending
    }

    /// The dirty trigger: something on screen is out of date.
    ///
    /// Returns whether the host must schedule a redraw. While one is
    /// pending the call changes nothing and asks for nothing.
    pub fn dirty(&mut self) -> (request: bool)
        ensures
            old(self).signalled(*final(self), request),
    {
        if self.draw_pending {
            return false;
        }
        self.draw_pending = true;
        true
    }

    /// The redraw pass: lays the child out in the viewport, draws it with
    /// the focus, and only then clears the pending flag, so that a `dirty`
    /// that comes later asks for a pass of its own.
    pub fn draw(&mut self, cr: &mut Surface)
        ensures
            old(self).redrawn(*final(self)),
            final(cr)@ == old(cr)@ + final(self).drawn(),
    {
        let space = Layout { width: VIEWPORT_WIDTH, height: VIEWPORT_HEIGHT };
        match &mut self.child {
            Some(child) => {
                child.relayout(space);
                child.draw(cr, true);
            },
            None => {
                let mut null = NullView {};
                null.relayout(space);
                null.draw(cr, true);
            },
        }
        self.draw_pending = false;
    }

    /// The key pass: hands the event to the child, whatever it is.
    pub fn key(&mut self, ev: &KeyEvent)
        ensures
            old(self).keyed(*ev, *final(self)),
    {
        match &mut self.child {
            Some(child) => {
                child.key(ev);
            },
            None => {
                let mut null = NullView {};
                null.key(ev);
            },
        }
    }
}

/// Signals between two redraw passes collapse into one request: of two
/// dirty signals in a row the first asks the host for a redraw and the
/// second asks for nothing, and the first signal after the pass asks again.
pub proof fn lemma_dirty_coalesces<V: View>(
    win: Win<V>,
    once: Win<V>,
    twice: Win<V>,
    shown: Win<V>,
    again: Win<V>,
    first: bool,
    second: bool,
    third: bool,
)
    requires
        !win.pending(),
        win.signalled(once, first),
        once.signalled(twice, second),
        twice.redrawn(shown),
        shown.signalled(again, third),
    ensures
        first,
        !second,
        third,
{
}

} // verus!
