//! The drawing surface of a frame.
//!
//! Drawing does not touch the screen. A view draws by appending commands to
//! the surface, and the host replays them, in order, on its own drawing
//! context: `Save` and `Restore` bracket a change of transform, `Translate`
//! moves the origin, and `Paint` asks the host to render one of its widgets
//! at the origin.

use vstd::prelude::*;

verus! {

/// One drawing command.
#[derive(Debug, Clone, Copy, PartialEq, Eq, Structural)]
pub enum DrawOp {
    /// Remember the current transform.
    Save,
    /// Return to the transform that the matching `Save` remembered.
    Restore,
    /// Move the origin by `dx` and `dy`.
    Translate { dx: i32, dy: i32 },
    /// Render the host's widget `tag` at the origin, with or without the
    /// input focus.
    Paint { tag: u64, focus: bool },
}

/// The commands of a frame, oldest first.
pub struct Surface {
    ops: Vec<DrawOp>,
}

impl View for Surface {
    type V = Seq<DrawOp>;

    closed spec fn view(&self) -> Seq<DrawOp> {
        self.ops@
    }
}

impl Surface {
    /// A surface on which nothing has been drawn.
    pub fn new() -> (cr: Surface)
        ensures
            cr@ == Seq::<DrawOp>::empty(),
    {
        Surface { ops: Vec::new() }
    }

    /// Appends `Save`.
    pub fn save(&mut self)
        ensures
            final(self)@ == old(self)@.push(DrawOp::Save),
    {
        self.ops.push(DrawOp::Save);
    }

    /// Appends `Restore`.
    pub fn restore(&mut self)
        ensures
            final(self)@ == old(self)@.push(DrawOp::Restore),
    {
        self.ops.push(DrawOp::Restore);
    }

    /// Appends a `Translate` by `dx` and `dy`.
    pub fn translate(&mut self, dx: i32, dy: i32)
        ensures
            final(self)@ == old(self)@.push(DrawOp::Translate { dx, dy }),
    {
        self.ops.push(DrawOp::Translate { dx, dy });
    }

    /// Appends a `Paint` of the widget `tag`.
    pub fn paint(&mut self, tag: u64, focus: bool)
        ensures
            final(self)@ == old(self)@.push(DrawOp::Paint { tag, focus }),
    {
        self.ops.push(DrawOp::Paint { tag, focus });
    }

    /// The commands drawn so far, oldest first.
    pub fn ops(&self) -> (ops: &Vec<DrawOp>)
        ensures
            ops@ == self@,
    {
        &self.ops
    }
}

/// What the commands act on when they are replayed: the position of the
/// origin, and the origins that `Save` remembered, oldest first.
pub struct Transform {
    pub x: int,
    pub y: int,
    pub saved: Seq<(int, int)>,
}

/// The transform after one command. A `Restore` with nothing remembered
/// changes nothing.
pub open spec fn step(at: Transform, op: DrawOp) -> Transform {
    match op {
        DrawOp::Save => Transform { saved: at.saved.push((at.x, at.y)), ..at },
        DrawOp::Restore => if at.saved.len() > 0 {
            Transform { x: at.saved.last().0, y: at.saved.last().1, saved: at.saved.drop_last() }
        } else {
            at
        },
        DrawOp::Translate { dx, dy } => Transform { x: at.x + dx, y: at.y + dy, ..at },
        DrawOp::Paint { .. } => at,
    }
}

/// The transform after the commands `ops`, replayed in order from `at`.
pub open spec fn replayed(ops: Seq<DrawOp>, at: Transform) -> Transform
    decreases ops.len(),
{
    if ops.len() == 0 {
        at
    } else {
        step(replayed(ops.drop_last(), at), ops.last())
    }
}

/// Whether the commands leave every transform as they find it.
pub open spec fn neutral(ops: Seq<DrawOp>) -> bool {
    forall|at: Transform| #[trigger] replayed(ops, at) == at
}

/// Replaying two runs of commands in a row is replaying their
/// concatenation.
pub proof fn lemma_replayed_concat(first: Seq<DrawOp>, then: Seq<DrawOp>, at: Transform)
    ensures
        replayed(first + then, at) == replayed(then, replayed(first, at)),
    decreases then.len(),
{
    if then.len() == 0 {
        assert(first + then =~= first);
    } else {
        lemma_replayed_concat(first, then.drop_last(), at);
        assert((first + then).drop_last() =~= first + then.drop_last());
        assert((first + then).last() == then.last());
    }
}

/// Replaying one command is taking its step.
pub proof fn lemma_replayed_one(op: DrawOp, at: Transform)
    ensures
        replayed(seq![op], at) == step(at, op),
{
    assert(seq![op].drop_last() =~= Seq::<DrawOp>::empty());
    assert(replayed(Seq::<DrawOp>::empty(), at) == at);
}

} // verus!
