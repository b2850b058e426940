use smash::key::KeyEvent;
use smash::layout::Layout;
use smash::surface::{DrawOp, Surface};
use smash::view::{NullView, View, Win, VIEWPORT_HEIGHT, VIEWPORT_WIDTH};

/// A view that paints one widget and keeps a record of what reached it.
struct Probe {
    tag: u64,
    size: Layout,
    layout: Layout,
    spaces: Vec<Layout>,
    keys: Vec<u32>,
}

impl Probe {
    fn new(tag: u64, width: i32, height: i32) -> Probe {
        Probe {
            tag,
            size: Layout { width, height },
            layout: Layout::new(),
            spaces: Vec::new(),
            keys: Vec::new(),
        }
    }
}

impl View for Probe {
    fn draw(&self, cr: &mut Surface, focus: bool) {
        cr.paint(self.tag, focus);
    }

    fn key(&mut self, ev: &KeyEvent) {
        self.keys.push(ev.keyval);
    }

    fn relayout(&mut self, space: Layout) -> Layout {
        self.spaces.push(space);
        self.layout = self.size;
        self.layout
    }

    fn get_layout(&self) -> Layout {
        self.layout
    }
}

fn press(keyval: u32) -> KeyEvent {
    KeyEvent { keyval, state: 0 }
}

#[test]
fn null_view_takes_no_space_and_does_nothing() {
    let mut null = NullView {};
    assert_eq!(null.get_layout(), Layout { width: 0, height: 0 });
    assert_eq!(null.relayout(Layout { width: 600, height: 400 }), Layout { width: 0, height: 0 });
    assert_eq!(null.get_layout(), Layout { width: 0, height: 0 });
    let mut cr = Surface::new();
    null.draw(&mut cr, true);
    null.draw(&mut cr, false);
    assert!(cr.ops().is_empty());
    null.key(&press(0x61));
    assert_eq!(null, NullView {});
}

#[test]
fn new_window_has_no_child_and_nothing_pending() {
    let win: Win<Probe> = Win::new();
    assert!(win.get_child().is_none());
    assert!(!win.is_pending());
}

#[test]
fn window_without_child_behaves_as_the_null_view() {
    let mut win: Win<Probe> = Win::new();
    let mut cr = Surface::new();
    win.draw(&mut cr);
    assert!(cr.ops().is_empty());
    win.key(&press(0x61));
    assert!(win.get_child().is_none());
    assert!(win.child_mut().is_none());
}

#[test]
fn viewport_is_fixed() {
    assert_eq!(VIEWPORT_WIDTH, 600);
    assert_eq!(VIEWPORT_HEIGHT, 400);
}

#[test]
fn dirty_twice_before_a_redraw_asks_once_and_after_it_once_more() {
    let mut win: Win<Probe> = Win::new();
    win.set_child(Probe::new(1, 10, 10));
    let mut requests = 0;
    if win.dirty() {
        requests += 1;
    }
    if win.dirty() {
        requests += 1;
    }
    assert_eq!(requests, 1);
    assert!(win.is_pending());

    let mut cr = Surface::new();
    win.draw(&mut cr);
    assert!(!win.is_pending());
    assert_eq!(requests, 1);

    if win.dirty() {
        requests += 1;
    }
    assert_eq!(requests, 2);
    assert!(win.is_pending());
}

#[test]
fn many_dirty_signals_collapse_into_one_request() {
    let mut win: Win<NullView> = Win::new();
    let mut requests = 0;
    for _ in 0..100 {
        if win.dirty() {
            requests += 1;
        }
    }
    assert_eq!(requests, 1);
}

#[test]
fn redraw_without_a_request_still_clears_the_flag() {
    let mut win: Win<NullView> = Win::new();
    let mut cr = Surface::new();
    win.draw(&mut cr);
    assert!(!win.is_pending());
    assert!(win.dirty());
}

#[test]
fn redraw_lays_out_in_the_viewport_then_draws_with_focus() {
    let mut win: Win<Probe> = Win::new();
    win.set_child(Probe::new(5, 80, 25));
    let mut cr = Surface::new();
    win.draw(&mut cr);
    let child = win.get_child().unwrap();
    assert_eq!(child.spaces, vec![Layout { width: 600, height: 400 }]);
    assert_eq!(child.get_layout(), Layout { width: 80, height: 25 });
    assert_eq!(cr.ops(), &vec![DrawOp::Paint { tag: 5, focus: true }]);
}

#[test]
fn every_redraw_lays_out_again() {
    let mut win: Win<Probe> = Win::new();
    win.set_child(Probe::new(5, 80, 25));
    let mut cr = Surface::new();
    win.draw(&mut cr);
    win.draw(&mut cr);
    assert_eq!(win.get_child().unwrap().spaces.len(), 2);
    assert_eq!(
        cr.ops(),
        &vec![DrawOp::Paint { tag: 5, focus: true }, DrawOp::Paint { tag: 5, focus: true }]
    );
}

#[test]
fn key_is_forwarded_to_the_child() {
    let mut win: Win<Probe> = Win::new();
    win.set_child(Probe::new(5, 80, 25));
    win.key(&press(0x61));
    win.key(&press(0xff0d));
    assert_eq!(win.get_child().unwrap().keys, vec![0x61, 0xff0d]);
    assert!(!win.is_pending());
}

#[test]
fn child_can_be_replaced() {
    let mut win: Win<Probe> = Win::new();
    assert!(win.set_child(Probe::new(1, 10, 10)).is_none());
    assert!(win.dirty());
    let previous = win.set_child(Probe::new(2, 20, 20));
    assert_eq!(previous.unwrap().tag, 1);
    assert_eq!(win.get_child().unwrap().tag, 2);
    assert!(win.is_pending());
    win.key(&press(0x62));
    assert_eq!(win.get_child().unwrap().keys, vec![0x62]);
}

#[test]
fn child_can_be_changed_in_place() {
    let mut win: Win<Probe> = Win::new();
    win.set_child(Probe::new(1, 10, 10));
    win.child_mut().unwrap().size = Layout { width: 30, height: 40 };
    let mut cr = Surface::new();
    win.draw(&mut cr);
    assert_eq!(win.get_child().unwrap().get_layout(), Layout { width: 30, height: 40 });
}
