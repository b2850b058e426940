//! The transcript: entries that go from a prompt to a prompt with a
//! terminal, and the log that stacks them.

use vstd::prelude::*;
use vstd::view::View as _;
use crate::key::KeyEvent;
use crate::layout::lemma_wrap_add;
use crate::layout::lemma_wrap_exact;
use crate::layout::lemma_wrap_sub;
use crate::layout::lemma_wrapping_add;
use crate::layout::lemma_wrapping_sub;
use crate::layout::wrap;
use crate::layout::FontMetrics;
use crate::layout::Layout;
use crate::surface::lemma_replayed_concat;
use crate::surface::lemma_replayed_one;
use crate::surface::neutral;
use crate::surface::replayed;
use crate::surface::step;
use crate::surface::DrawOp;
use crate::surface::Surface;
use crate::surface::Transform;
use crate::task::add_task;
use crate::task::TaskQueue;
use crate::task::Tick;
use crate::view::View;

verus! {

/// The deferred half of an entry's transition: the order to build the
/// terminal of entry `entry` from `metrics`, seeded with the accepted line,
/// and to hand it to [`Log::start_term`].
#[derive(Debug, PartialEq, Eq)]
pub struct OpenTerm {
    pub entry: usize,
    pub metrics: FontMetrics,
    pub seed: String,
}

impl OpenTerm {
    /// Whether the task is for entry `entry`, with `metrics` and the line
    /// `seed`.
    pub open spec fn opens(&self, entry: usize, metrics: FontMetrics, seed: Seq<char>) -> bool {
        &&& self.entry == entry
        &&& self.metrics == metrics
        &&& self.seed@ == seed
    }
}

/// The accept handler of an entry. It fires once: until then it holds what
/// the terminal will be built from.
#[derive(Debug, Clone, Copy, PartialEq, Eq, Structural)]
pub enum Accept {
    Pending { metrics: FontMetrics },
    Fired,
}

/// One entry of the transcript: a prompt and, once the prompt has accepted
/// a line and the deferred task has run, the terminal below it.
pub struct LogEntry<P, T> {
    id: usize,
    prompt: P,
    term: Option<T>,
    accept: Accept,
    layout: Layout,
}

impl<P: View, T: View> LogEntry<P, T> {
    /// The identity of the entry: its place in the log.
    pub closed spec fn id(&self) -> usize {
        self.id
    }

    /// The prompt.
    pub closed spec fn prompt(&self) -> P {
        self.prompt
    }

    /// The terminal, once there is one.
    pub closed spec fn term(&self) -> Option<T> {
        self.term
    }

    /// The state of the accept handler.
    pub closed spec fn accept_state(&self) -> Accept {
        self.accept
    }

    /// No terminal without an accepted line.
    pub open spec fn wf(&self) -> bool {
        self.term() is Some ==> self.accept_state() is Fired
    }

    /// Whether the entry is a well-formed entry `index` of a log with
    /// `metrics`: it knows its place, and its handler, while armed, holds
    /// the metrics of the log.
    pub open spec fn placed(&self, index: int, metrics: FontMetrics) -> bool {
        &&& self.wf()
        &&& self.id() == index
        &&& self.accept_state() is Pending ==> self.accept_state()->metrics == metrics
    }

    /// Whether the entry is as `new` makes it.
    pub open spec fn is_fresh(&self, id: usize, prompt: P, metrics: FontMetrics) -> bool {
        &&& self.id() == id
        &&& self.prompt() == prompt
        &&& self.term() is None
        &&& self.accept_state() == (Accept::Pending { metrics })
        &&& self.layout() == (Layout { width: 0, height: 0 })
    }

    /// Whether `next` is what an accepted line makes of the entry: the
    /// handler has fired, and nothing else has changed.
    pub open spec fn accepted(&self, next: Self) -> bool {
        &&& next.id() == self.id()
        &&& next.prompt() == self.prompt()
        &&& next.term() == self.term()
        &&& next.accept_state() is Fired
        &&& next.layout() == self.layout()
    }

    /// Whether `next`, `queued` and `asked` are what the accept handler,
    /// called with the line `text`, makes of the entry and of the tasks
    /// `queue`. An armed handler fires: it queues one task, for this entry
    /// and seeded with `text`, and asks for a tick. A handler that has
    /// fired changes nothing and asks for nothing.
    pub open spec fn fired(
        &self,
        text: Seq<char>,
        queue: Seq<OpenTerm>,
        next: Self,
        queued: Seq<OpenTerm>,
        asked: bool,
    ) -> bool {
        match self.accept_state() {
            Accept::Pending { metrics } => {
                &&& asked
                &&& self.accepted(next)
                &&& queued.len() == queue.len() + 1
                &&& queued.drop_last() == queue
                &&& queued.last().opens(self.id(), metrics, text)
            },
            Accept::Fired => !asked && next == *self && queued == queue,
        }
    }

    /// Whether the deferred task has been ordered and the terminal is still
    /// to come.
    pub open spec fn awaits_term(&self) -> bool {
        self.accept_state() is Fired && self.term() is None
    }

    /// Whether `next` is the entry with `term` as its terminal.
    pub open spec fn started(&self, term: T, next: Self) -> bool {
        &&& next.id() == self.id()
        &&& next.prompt() == self.prompt()
        &&& next.term() == Some(term)
        &&& next.accept_state() == self.accept_state()
        &&& next.layout() == self.layout()
    }

    /// Whether `next` and `refused` are what the deferred task, run with
    /// `term`, makes of the entry. An entry that awaits its terminal takes
    /// it. Any other entry stays as it is, and `term` comes back.
    pub open spec fn opened(&self, term: T, next: Self, refused: Option<T>) -> bool {
        if self.awaits_term() {
            refused is None && self.started(term, next)
        } else {
            refused == Some(term) && next == *self
        }
    }

    /// An entry in its first state: the prompt alone, the handler armed
    /// with `metrics`, no layout yet.
    pub fn new(id: usize, prompt: P, metrics: FontMetrics) -> (entry: LogEntry<P, T>)
        ensures
            entry.is_fresh(id, prompt, metrics),
            entry.wf(),
    {
        LogEntry {
            id,
            prompt,
            term: None,
            accept: Accept::Pending { metrics },
            layout: Layout::new(),
        }
    }

    /// The accept handler: the prompt has accepted the line `text`.
    ///
    /// The first call fires the handler and queues the task that opens the
    /// terminal, seeded with `text`; the terminal itself is not built here.
    /// Every later call does nothing.
    pub fn accept(&mut self, text: &str, queue: &mut TaskQueue<OpenTerm>) -> (tick: Option<Tick>)
        ensures
            old(self).fired(text@, old(queue)@, *final(self), final(queue)@, tick is Some),
            old(self).wf() ==> final(self).wf(),
    {
        match self.accept {
            Accept::Pending { metrics } => {
                self.accept = Accept::Fired;
                let task = OpenTerm { entry: self.id, metrics, seed: text.to_owned() };
                let tick = add_task(queue, task);
                assert(queue@.drop_last() =~= old(queue)@);
                Some(tick)
            },
            Accept::Fired => None,
        }
    }

    /// Runs the deferred task: gives the entry its terminal.
    ///
    /// The terminal is taken, and `None` returned, only while the entry
    /// awaits it: after the handler has fired and before a terminal is in
    /// place. Otherwise the entry stays as it is and `term` comes back.
    pub fn start_term(&mut self, term: T) -> (refused: Option<T>)
        ensures
            old(self).opened(term, *final(self), refused),
            old(self).wf() ==> final(self).wf(),
    {
        let awaited = match (&self.accept, &self.term) {
            (Accept::Fired, None) => true,
            _ => false,
        };
        if awaited {
            self.term = Some(term);
            None
        } else {
            Some(term)
        }
    }

    /// The identity of the entry.
    pub fn get_id(&self) -> (id: usize)
        ensures
            id == self.id(),
    {
        self.id
    }

    /// The prompt.
    pub fn get_prompt(&self) -> (prompt: &P)
        ensures
            *prompt == self.prompt(),
    {
        &self.prompt
    }

    /// The terminal, once there is one.
    pub fn get_term(&self) -> (term: Option<&T>)
        ensures
            term is Some <==> self.term() is Some,
            term is Some ==> *term->0 == self.term()->0,
    {
        self.term.as_ref()
    }

    /// Whether the accept handler has fired.
    pub fn has_fired(&self) -> (fired: bool)
        ensures
            fired == (self.accept_state() is Fired),
    {
        match self.accept {
            Accept::Pending { .. } => false,
            Accept::Fired => true,
        }
    }
}

impl<P: View, T: View> View for LogEntry<P, T> {
    closed spec fn layout(&self) -> Layout {
        self.layout
    }

    /// The prompt is laid out in all of `space`, the terminal in what the
    /// prompt leaves of its height, and the entry is as large as both
    /// stacked.
    open spec fn relaid(&self, space: Layout, next: Self) -> bool {
        &&& next.id() == self.id()
        &&& next.accept_state() == self.accept_state()
        &&& self.prompt().relaid(space, next.prompt())
        &&& match self.term() {
            Some(term) => {
                &&& next.term() is Some
                &&& term.relaid(
                    Layout {
                        width: space.width,
                        height: wrap(space.height - next.prompt().layout().height),
                    },
                    next.term()->0,
                )
                &&& next.layout() == next.prompt().layout().spec_add(
                    next.term()->0.layout().width as int,
                    next.term()->0.layout().height as int,
                )
            },
            None => next.term() is None && next.layout() == next.prompt().layout(),
        }
    }

    /// The key goes to the terminal if there is one, else to the prompt.
    open spec fn keyed(&self, ev: KeyEvent, next: Self) -> bool {
        &&& next.id() == self.id()
        &&& next.accept_state() == self.accept_state()
        &&& next.layout() == self.layout()
        &&& match self.term() {
            Some(term) => {
                &&& next.term() is Some
                &&& term.keyed(ev, next.term()->0)
                &&& next.prompt() == self.prompt()
            },
            None => next.term() is None && self.prompt().keyed(ev, next.prompt()),
        }
    }

    /// The prompt alone has the entry's focus. With a terminal, the prompt
    /// is drawn without focus at the top, and the terminal below it, lower
    /// by the height of the prompt, has the focus.
    open spec fn drawn(&self, focus: bool) -> Seq<DrawOp> {
        match self.term() {
            Some(term) => self.prompt().drawn(false) + seq![
                DrawOp::Save,
                DrawOp::Translate { dx: 0, dy: self.prompt().layout().height },
            ] + term.drawn(focus) + seq![DrawOp::Restore],
            None => self.prompt().drawn(focus),
        }
    }

    fn draw(&self, cr: &mut Surface, focus: bool) {
        match &self.term {
            Some(term) => {
                self.prompt.draw(cr, false);
                cr.save();
                let height: i32 = self.prompt.get_layout().height;
                cr.translate(0, height);
                term.draw(cr, focus);
                cr.restore();
                assert(cr@ =~= old(cr)@ + self.drawn(focus));
            },
            None => {
                self.prompt.draw(cr, focus);
            },
        }
    }

    fn key(&mut self, ev: &KeyEvent)
        ensures
            old(self).wf() ==> final(self).wf(),
    {
        match &mut self.term {
            Some(term) => {
                term.key(ev);
            },
            None => {
                self.prompt.key(ev);
            },
        }
    }

    fn relayout(&mut self, space: Layout) -> (layout: Layout)
        ensures
            old(self).wf() ==> final(self).wf(),
    {
        let mut layout = self.prompt.relayout(space);
        match &mut self.term {
            Some(term) => {
                proof {
                    lemma_wrapping_sub(space.height, layout.height);
                }
                let left = Layout {
                    width: space.width,
                    height: space.height.wrapping_sub(layout.height),
                };
                let tlayout = term.relayout(left);
                layout = layout.add(tlayout.width, tlayout.height);
            },
            None => {},
        }
        self.layout = layout;
        layout
    }

    fn get_layout(&self) -> (layout: Layout) {
        self.layout
    }
}

/// The accept handler fires once. Of two calls in a row on an armed entry,
/// the first queues exactly one task, seeded with the first line, and asks
/// for a tick; the second leaves the entry and the queue as they are and
/// asks for nothing.
pub proof fn lemma_accept_fires_once<P: View, T: View>(
    entry: LogEntry<P, T>,
    first: Seq<char>,
    second: Seq<char>,
    queue: Seq<OpenTerm>,
    once: LogEntry<P, T>,
    queued: Seq<OpenTerm>,
    asked: bool,
    twice: LogEntry<P, T>,
    requeued: Seq<OpenTerm>,
    asked_again: bool,
)
    requires
        entry.accept_state() is Pending,
        entry.fired(first, queue, once, queued, asked),
        once.fired(second, queued, twice, requeued, asked_again),
    ensures
        asked,
        !asked_again,
        twice == once,
        requeued == queued,
        queued == queue.push(queued.last()),
        queued.last().seed@ == first,
        queued.last().entry == entry.id(),
{
    assert(queued =~= queued.drop_last().push(queued.last()));
}

/// An accepted line leads to a terminal: a well-formed entry whose handler
/// fires has no terminal yet, and takes the one that the deferred task
/// brings.
pub proof fn lemma_accepted_awaits_term<P: View, T: View>(
    entry: LogEntry<P, T>,
    next: LogEntry<P, T>,
    term: T,
    last: LogEntry<P, T>,
    refused: Option<T>,
)
    requires
        entry.wf(),
        entry.accept_state() is Pending,
        entry.accepted(next),
        next.opened(term, last, refused),
    ensures
        next.awaits_term(),
        refused is None,
        last.term() == Some(term),
        last.wf(),
{
}

/// The terminal state is final: an entry that has its terminal keeps one
/// through every key, every relayout and every accepted line.
pub proof fn lemma_term_stays<P: View, T: View>(
    entry: LogEntry<P, T>,
    next: LogEntry<P, T>,
    ev: KeyEvent,
    space: Layout,
)
    requires
        entry.term() is Some,
        entry.keyed(ev, next) || entry.relaid(space, next) || entry.accepted(next),
    ensures
        next.term() is Some,
{
}

/// The heights of the first `n` views, summed.
pub open spec fn heights<V: View>(views: Seq<V>, n: int) -> int
    decreases n,
{
    if n <= 0 {
        0
    } else {
        heights(views, n - 1) + views[n - 1].layout().height
    }
}

/// The commands that draw the first `n` entries of a stack, each followed
/// by the move of the origin to the next. Only the last entry of the whole
/// stack can have the focus.
pub open spec fn stack_drawn<V: View>(views: Seq<V>, focus: bool, n: int) -> Seq<DrawOp>
    decreases n,
{
    if n <= 0 {
        Seq::empty()
    } else {
        stack_drawn(views, focus, n - 1) + views[n - 1].drawn(focus && n == views.len()) + seq![
            DrawOp::Translate { dx: 0, dy: views[n - 1].layout().height },
        ]
    }
}

/// The summed heights of the first `n` views depend on those views alone.
pub proof fn lemma_heights_prefix<V: View>(a: Seq<V>, b: Seq<V>, n: int)
    requires
        n <= a.len(),
        n <= b.len(),
        forall|i: int| 0 <= i < n ==> a[i] == b[i],
    ensures
        heights(a, n) == heights(b, n),
    decreases n,
{
    if n > 0 {
        lemma_heights_prefix(a, b, n - 1);
    }
}

/// The transcript: entries stacked from the top in the order in which they
/// were added. The last entry is the live one; the others are history.
pub struct Log<P, T> {
    entries: Vec<LogEntry<P, T>>,
    metrics: FontMetrics,
    layout: Layout,
}

impl<P: View, T: View> Log<P, T> {
    /// The entries, first to last.
    pub closed spec fn entries(&self) -> Seq<LogEntry<P, T>> {
        self.entries@
    }

    /// The font metrics that every new entry is armed with.
    pub closed spec fn metrics(&self) -> FontMetrics {
        self.metrics
    }

    /// The log is never empty, and every entry is well formed, knows its
    /// place and, while armed, holds the metrics of the log.
    pub open spec fn wf(&self) -> bool {
        &&& self.entries().len() > 0
        &&& forall|i: int|
            0 <= i < self.entries().len() ==> (#[trigger] self.entries()[i]).placed(
                i,
                self.metrics(),
            )
    }

    /// Whether `next` is the log with one more entry, fresh, at the end.
    pub open spec fn grown(&self, prompt: P, next: Self) -> bool {
        &&& next.metrics() == self.metrics()
        &&& next.layout() == self.layout()
        &&& next.entries().len() == self.entries().len() + 1
        &&& next.entries().drop_last() == self.entries()
        &&& next.entries().last().is_fresh(self.entries().len() as usize, prompt, self.metrics())
    }

    /// Whether `next` is the log with entry `entry` replaced by `changed`.
    pub open spec fn replaced(&self, entry: int, changed: LogEntry<P, T>, next: Self) -> bool {
        &&& next.metrics() == self.metrics()
        &&& next.layout() == self.layout()
        &&& next.entries() == self.entries().update(entry, changed)
    }

    /// Whether `next`, `queued` and `asked` are what the accept handler of
    /// entry `entry`, called with the line `text`, makes of the log and of
    /// the tasks `queue`: what it makes of that entry, with the rest of the
    /// log as it was, or nothing at all where there is no such entry.
    pub open spec fn fired(
        &self,
        entry: usize,
        text: Seq<char>,
        queue: Seq<OpenTerm>,
        next: Self,
        queued: Seq<OpenTerm>,
        asked: bool,
    ) -> bool {
        if entry < self.entries().len() {
            &&& self.replaced(entry as int, next.entries()[entry as int], next)
            &&& self.entries()[entry as int].fired(
                text,
                queue,
                next.entries()[entry as int],
                queued,
                asked,
            )
        } else {
            !asked && next == *self && queued == queue
        }
    }

    /// Whether `next` and `refused` are what the deferred task of entry
    /// `entry`, run with `term`, makes of the log: what it makes of that
    /// entry, with the rest of the log as it was, or nothing at all, with
    /// `term` handed back, where there is no such entry.
    pub open spec fn opened(&self, entry: usize, term: T, next: Self, refused: Option<T>) -> bool {
        if entry < self.entries().len() {
            &&& self.replaced(entry as int, next.entries()[entry as int], next)
            &&& self.entries()[entry as int].opened(term, next.entries()[entry as int], refused)
        } else {
            refused == Some(term) && next == *self
        }
    }

    /// A log of one fresh entry around `prompt`.
    pub fn new(prompt: P, metrics: FontMetrics) -> (log: Log<P, T>)
        ensures
            log.wf(),
            log.metrics() == metrics,
            log.layout() == (Layout { width: 0, height: 0 }),
            log.entries().len() == 1,
            log.entries()[0].is_fresh(0, prompt, metrics),
    {
        let mut entries: Vec<LogEntry<P, T>> = Vec::new();
        entries.push(LogEntry::new(0, prompt, metrics));
        Log { entries, metrics, layout: Layout::new() }
    }

    /// Appends a fresh entry around `prompt`: the session of the last entry
    /// has ended, and the transcript goes on below it.
    pub fn new_entry(&mut self, prompt: P)
        ensures
            old(self).grown(prompt, *final(self)),
            old(self).wf() ==> final(self).wf(),
    {
        let id: usize = self.entries.len();
        let entry = LogEntry::new(id, prompt, self.metrics);
        self.entries.push(entry);
        assert(self.entries@.drop_last() =~= old(self).entries@);
    }

    /// The accept handler of entry `entry`; see [`LogEntry::accept`]. With
    /// no such entry, nothing happens.
    pub fn accept(&mut self, entry: usize, text: &str, queue: &mut TaskQueue<OpenTerm>) -> (tick:
        Option<Tick>)
        ensures
            old(self).fired(entry, text@, old(queue)@, *final(self), final(queue)@, tick is Some),
            old(self).wf() && tick is Some ==> final(queue)@.last().opens(
                entry,
                old(self).metrics(),
                text@,
            ),
            old(self).wf() ==> final(self).wf(),
    {
        if entry < self.entries.len() {
            let tick = self.entries[entry].accept(text, queue);
            assert(self.entries@ =~= old(self).entries@.update(
                entry as int,
                self.entries@[entry as int],
            ));
            tick
        } else {
            None
        }
    }

    /// Runs the deferred task of entry `entry`; see
    /// [`LogEntry::start_term`]. With no such entry, `term` comes back.
    pub fn start_term(&mut self, entry: usize, term: T) -> (refused: Option<T>)
        ensures
            old(self).opened(entry, term, *final(self), refused),
            old(self).wf() ==> final(self).wf(),
    {
        if entry < self.entries.len() {
            let refused = self.entries[entry].start_term(term);
            assert(self.entries@ =~= old(self).entries@.update(
                entry as int,
                self.entries@[entry as int],
            ));
            refused
        } else {
            Some(term)
        }
    }

    /// The number of entries.
    pub fn len(&self) -> (len: usize)
        ensures
            len == self.entries().len(),
    {
        self.entries.len()
    }

    /// Entry `index`, if there is one.
    pub fn get_entry(&self, index: usize) -> (entry: Option<&LogEntry<P, T>>)
        ensures
            entry is Some <==> index < self.entries().len(),
            entry is Some ==> *entry->0 == self.entries()[index as int],
    {
        if index < self.entries.len() {
            Some(&self.entries[index])
        } else {
            None
        }
    }
}

impl<P: View, T: View> View for Log<P, T> {
    closed spec fn layout(&self) -> Layout {
        self.layout
    }

    /// Every entry is laid out in the width of `space` and in what the
    /// entries above it leave of its height. No entry is cut to that
    /// height: the log is as high as all its entries together.
    open spec fn relaid(&self, space: Layout, next: Self) -> bool {
        &&& next.metrics() == self.metrics()
        &&& next.entries().len() == self.entries().len()
        &&& forall|i: int|
            0 <= i < self.entries().len() ==> (#[trigger] self.entries()[i]).relaid(
                Layout {
                    width: space.width,
                    height: wrap(space.height - heights(next.entries(), i)),
                },
                next.entries()[i],
            )
        &&& next.layout() == (Layout {
            width: space.width,
            height: wrap(heights(next.entries(), next.entries().len() as int)),
        })
    }

    /// The key goes to the last entry and to no other.
    open spec fn keyed(&self, ev: KeyEvent, next: Self) -> bool {
        &&& next.metrics() == self.metrics()
        &&& next.layout() == self.layout()
        &&& next.entries().len() == self.entries().len()
        &&& forall|i: int|
            0 <= i < self.entries().len() - 1 ==> #[trigger] next.entries()[i] == self.entries()[i]
        &&& self.entries().len() > 0 ==> self.entries().last().keyed(ev, next.entries().last())
    }

    /// The entries from the top, the origin moved down by the height of
    /// each after it is drawn, all of it between one `Save` and one
    /// `Restore`. Only the last entry can have the focus.
    open spec fn drawn(&self, focus: bool) -> Seq<DrawOp> {
        seq![DrawOp::Save] + stack_drawn(self.entries(), focus, self.entries().len() as int)
            + seq![DrawOp::Restore]
    }

    fn draw(&self, cr: &mut Surface, focus: bool) {
        let n: usize = self.entries.len();
        cr.save();
        let mut i: usize = 0;
        while i < n
            invariant
                i <= n,
                n == self.entries@.len(),
                cr@ == old(cr)@ + seq![DrawOp::Save] + stack_drawn(self.entries@, focus, i as int),
            decreases n - i,
        {
            let last = i + 1 == n;
            let entry = &self.entries[i];
            entry.draw(cr, focus && last);
            cr.translate(0, entry.get_layout().height);
            assert(cr@ =~= old(cr)@ + seq![DrawOp::Save] + stack_drawn(
                self.entries@,
                focus,
                i + 1,
            ));
            i += 1;
        }
        cr.restore();
        assert(cr@ =~= old(cr)@ + self.drawn(focus));
    }

    fn key(&mut self, ev: &KeyEvent)
        ensures
            old(self).wf() ==> final(self).wf(),
    {
        let n: usize = self.entries.len();
        if n > 0 {
            self.entries[n - 1].key(ev);
        }
    }

    fn relayout(&mut self, space: Layout) -> (layout: Layout)
        ensures
            old(self).wf() ==> final(self).wf(),
            layout.width == space.width,
            i32::MIN <= heights(final(self).entries(), final(self).entries().len() as int)
                <= i32::MAX ==> layout.height == heights(
                final(self).entries(),
                final(self).entries().len() as int,
            ),
    {
        let n: usize = self.entries.len();
        let mut height: i32 = 0;
        let mut i: usize = 0;
        proof {
            lemma_wrap_exact(0);
        }
        while i < n
            invariant
                i <= n,
                n == self.entries@.len(),
                n == old(self).entries@.len(),
                self.metrics == old(self).metrics,
                height == wrap(heights(self.entries@, i as int)),
                old(self).wf() ==> forall|j: int|
                    0 <= j < n ==> (#[trigger] self.entries@[j]).placed(j, self.metrics),
                forall|j: int|
                    0 <= j < i ==> (#[trigger] old(self).entries@[j]).relaid(
                        Layout {
                            width: space.width,
                            height: wrap(space.height - heights(self.entries@, j)),
                        },
                        self.entries@[j],
                    ),
                forall|j: int| i <= j < n ==> #[trigger] self.entries@[j] == old(self).entries@[j],
            decreases n - i,
        {
            let ghost before = self.entries@;
            let ghost used: int = heights(before, i as int);
            proof {
                lemma_wrapping_sub(0, height);
                lemma_wrap_sub(0, used);
                lemma_wrap_add(-(height as int), space.height as int);
                lemma_wrap_add(-used, space.height as int);
            }
            let budget = space.add(0, 0i32.wrapping_sub(height));
            let entry_layout = self.entries[i].relayout(budget);
            proof {
                lemma_wrapping_add(height, entry_layout.height);
                lemma_wrap_add(used, entry_layout.height as int);
                lemma_heights_prefix(before, self.entries@, i as int);
                assert forall|j: int| 0 <= j < i + 1 implies (#[trigger] old(self).entries@[j]).relaid(
                    Layout {
                        width: space.width,
                        height: wrap(space.height - heights(self.entries@, j)),
                    },
                    self.entries@[j],
                ) by {
                    lemma_heights_prefix(before, self.entries@, j);
                }
            }
            height = height.wrapping_add(entry_layout.height);
            i += 1;
        }
        self.layout = Layout { width: space.width, height };
        proof {
            let total: int = heights(self.entries@, n as int);
            if i32::MIN <= total <= i32::MAX {
                lemma_wrap_exact(total);
            }
        }
        self.layout
    }

    fn get_layout(&self) -> (layout: Layout) {
        self.layout
    }
}

/// Where an entry with a terminal draws it: when the prompt and the
/// terminal leave the transform as they find it, the commands of the
/// terminal start with the origin lower by the height of the prompt, and the
/// entry as a whole leaves the transform as it found it.
pub proof fn lemma_entry_draws_term_below_prompt<P: View, T: View>(
    entry: LogEntry<P, T>,
    focus: bool,
    at: Transform,
)
    requires
        entry.term() is Some,
        neutral(entry.prompt().drawn(false)),
        neutral(entry.term()->0.drawn(focus)),
    ensures
        replayed(
            entry.prompt().drawn(false) + seq![
                DrawOp::Save,
                DrawOp::Translate { dx: 0, dy: entry.prompt().layout().height },
            ],
            at,
        ) == (Transform {
            x: at.x,
            y: at.y + entry.prompt().layout().height,
            saved: at.saved.push((at.x, at.y)),
        }),
        replayed(entry.drawn(focus), at) == at,
{
    let prompt = entry.prompt().drawn(false);
    let term = entry.term()->0.drawn(focus);
    let save = DrawOp::Save;
    let down = DrawOp::Translate { dx: 0, dy: entry.prompt().layout().height };
    let frame = seq![save, down];
    let below = Transform {
        x: at.x,
        y: at.y + entry.prompt().layout().height,
        saved: at.saved.push((at.x, at.y)),
    };
    assert(replayed(prompt, at) == at);
    assert(replayed(frame, at) == below) by {
        assert(frame =~= seq![save] + seq![down]);
        lemma_replayed_concat(seq![save], seq![down], at);
        lemma_replayed_one(save, at);
        lemma_replayed_one(down, step(at, save));
    }
    lemma_replayed_concat(prompt, frame, at);
    assert(replayed(term, below) == below);
    lemma_replayed_concat(prompt + frame, term, at);
    lemma_replayed_concat(prompt + frame + term, seq![DrawOp::Restore], at);
    lemma_replayed_one(DrawOp::Restore, below);
    assert(below.saved.drop_last() =~= at.saved);
}

/// An entry leaves the transform as it finds it when its prompt and its
/// terminal do.
pub proof fn lemma_entry_drawn_neutral<P: View, T: View>(entry: LogEntry<P, T>, focus: bool)
    requires
        neutral(entry.prompt().drawn(false)),
        neutral(entry.prompt().drawn(focus)),
        entry.term() is Some ==> neutral(entry.term()->0.drawn(focus)),
    ensures
        neutral(entry.drawn(focus)),
{
    if entry.term() is Some {
        assert forall|at: Transform| #[trigger] replayed(entry.drawn(focus), at) == at by {
            lemma_entry_draws_term_below_prompt(entry, focus, at);
        }
    }
}

/// Where a stack draws its entries: when every entry leaves the transform
/// as it finds it, the first `n` entries move the origin down by their
/// summed heights, so that each entry is drawn right below the one before
/// it.
pub proof fn lemma_stack_drawn_offset<V: View>(views: Seq<V>, focus: bool, n: int, at: Transform)
    requires
        0 <= n <= views.len(),
        forall|i: int, f: bool| 0 <= i < views.len() ==> neutral(#[trigger] views[i].drawn(f)),
    ensures
        replayed(stack_drawn(views, focus, n), at) == (Transform { y: at.y + heights(views, n), ..at }),
    decreases n,
{
    if n > 0 {
        lemma_stack_drawn_offset(views, focus, n - 1, at);
        let above = stack_drawn(views, focus, n - 1);
        let entry = views[n - 1].drawn(focus && n == views.len());
        let down = DrawOp::Translate { dx: 0, dy: views[n - 1].layout().height };
        let here = Transform { y: at.y + heights(views, n - 1), ..at };
        lemma_replayed_concat(above, entry, at);
        assert(replayed(entry, here) == here);
        lemma_replayed_concat(above + entry, seq![down], at);
        lemma_replayed_one(down, here);
    }
}

/// Where a log draws its entries, and that it restores the transform: when
/// every entry leaves the transform as it finds it, the commands of entry
/// `i` start with the origin lower by the summed heights of the entries
/// above it, and the log as a whole leaves the transform as it found it.
pub proof fn lemma_log_draws_entries_stacked<P: View, T: View>(
    log: Log<P, T>,
    focus: bool,
    i: int,
    at: Transform,
)
    requires
        0 <= i <= log.entries().len(),
        forall|j: int, f: bool|
            0 <= j < log.entries().len() ==> neutral(#[trigger] log.entries()[j].drawn(f)),
    ensures
        replayed(seq![DrawOp::Save] + stack_drawn(log.entries(), focus, i), at) == (Transform {
            x: at.x,
            y: at.y + heights(log.entries(), i),
            saved: at.saved.push((at.x, at.y)),
        }),
        replayed(log.drawn(focus), at) == at,
{
    let entries = log.entries();
    let n: int = entries.len() as int;
    let opened = step(at, DrawOp::Save);
    lemma_replayed_one(DrawOp::Save, at);
    lemma_replayed_concat(seq![DrawOp::Save], stack_drawn(entries, focus, i), at);
    lemma_stack_drawn_offset(entries, focus, i, opened);
    lemma_replayed_concat(seq![DrawOp::Save], stack_drawn(entries, focus, n), at);
    lemma_stack_drawn_offset(entries, focus, n, opened);
    let closed = Transform { y: opened.y + heights(entries, n), ..opened };
    lemma_replayed_concat(
        seq![DrawOp::Save] + stack_drawn(entries, focus, n),
        seq![DrawOp::Restore],
        at,
    );
    lemma_replayed_one(DrawOp::Restore, closed);
    assert(opened.saved.drop_last() =~= at.saved);
}

/// A log leaves the transform as it finds it when its entries do.
pub proof fn lemma_log_drawn_neutral<P: View, T: View>(log: Log<P, T>, focus: bool)
    requires
        forall|j: int, f: bool|
            0 <= j < log.entries().len() ==> neutral(#[trigger] log.entries()[j].drawn(f)),
    ensures
        neutral(log.drawn(focus)),
{
    assert forall|at: Transform| #[trigger] replayed(log.drawn(focus), at) == at by {
        lemma_log_draws_entries_stacked(log, focus, 0, at);
    }
}

} // verus!
