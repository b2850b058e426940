use smash::surface::{DrawOp, Surface};

#[test]
fn new_surface_is_blank() {
    let cr = Surface::new();
    assert!(cr.ops().is_empty());
}

#[test]
fn commands_are_kept_in_the_order_drawn() {
    let mut cr = Surface::new();
    cr.save();
    cr.paint(7, true);
    cr.translate(0, 12);
    cr.paint(8, false);
    cr.translate(-3, 0);
    cr.restore();
    assert_eq!(
        cr.ops(),
        &vec![
            DrawOp::Save,
            DrawOp::Paint { tag: 7, focus: true },
            DrawOp::Translate { dx: 0, dy: 12 },
            DrawOp::Paint { tag: 8, focus: false },
            DrawOp::Translate { dx: -3, dy: 0 },
            DrawOp::Restore,
        ]
    );
}
