//! Decisions of the render scheduler.
//!
//! Each render request opens a new generation. The scheduler announces it
//! with a `Reset`, cancels the generation it supersedes, and starts one task
//! per image row. Rows that come back are passed on as `ImageLine`s only while
//! their generation is current, and each row at most once, so a consumer never
//! sees a row of a superseded render after the `Reset` of a newer one.
//!
//! The scheduler performs no work itself: it maps its state and an event to
//! its next state and the actions that the caller carries out.

use vstd::prelude::*;

use crate::pixel::Rgb8;

verus! {

/// What a consumer of a render receives.
#[derive(Debug)]
pub enum RenderResult {
    /// A render of this generation and size begins; earlier rows are void.
    Reset { generation: u64, image_width: usize, image_height: usize },
    /// Row `line_num`, counted from the bottom, of a render of this generation.
    ImageLine { generation: u64, line_num: usize, line_pixels: Vec<Rgb8> },
}

/// What happens to the scheduler.
#[derive(Debug)]
pub enum SchedulerInput {
    /// A new render of the given size is requested.
    Render { image_width: usize, image_height: usize },
    /// A row task of `generation` finished with these pixels.
    RowDone { generation: u64, line_num: usize, line_pixels: Vec<Rgb8> },
}

/// What the scheduler asks its caller to do.
#[derive(Debug)]
pub enum SchedulerAction {
    /// Send `result` to the consumer.
    Emit { result: RenderResult },
    /// Raise the cancellation flag of `generation`.
    Cancel { generation: u64 },
    /// Start a task for each of `rows`, in that order, for a render of this
    /// generation and size.
    Start { generation: u64, image_width: usize, image_height: usize, rows: Vec<usize> },
}

/// The scheduler's state.
pub struct SchedulerState {
    /// Number of renders started so far; 0 before the first.
    pub generation: nat,
    pub image_width: nat,
    pub image_height: nat,
    /// Which rows of the current render have been passed on.
    pub rows_done: Seq<bool>,
}

/// An input, as far as the scheduler's decisions depend on it.
pub enum Event {
    Render { image_width: nat, image_height: nat },
    RowDone { generation: nat, line_num: nat, pixel_count: nat },
}

/// An action, as far as the order of generations is concerned.
pub enum Output {
    Reset { generation: nat, image_width: nat, image_height: nat },
    Line { generation: nat, line_num: nat },
    Cancel { generation: nat },
    Start { generation: nat, image_width: nat, image_height: nat },
}

/// Rows `height - 1` down to `0`.
pub open spec fn rows_descending(height: nat) -> Seq<usize> {
    Seq::new(height, |i: int| (height - 1 - i) as usize)
}

/// A finished row is passed on: its generation is the current one, the row
/// exists and was not passed on before, and it has one pixel per column.
pub open spec fn accepts_row(s: SchedulerState, generation: nat, line_num: nat, pixel_count: nat) -> bool {
    &&& generation > 0
    &&& generation == s.generation
    &&& line_num < s.rows_done.len()
    &&& !s.rows_done[line_num as int]
    &&& pixel_count == s.image_width
}

/// One step of the scheduler: the next state and what it asks for.
pub open spec fn step_model(s: SchedulerState, e: Event) -> (SchedulerState, Seq<Output>) {
    match e {
        Event::Render { image_width, image_height } => {
            if s.generation >= u64::MAX {
                (s, Seq::empty())
            } else {
                let g = s.generation + 1;
                let cancel = if s.generation > 0 {
                    seq![Output::Cancel { generation: s.generation }]
                } else {
                    Seq::empty()
                };
                (
                    SchedulerState {
                        generation: g,
                        image_width,
                        image_height,
                        rows_done: Seq::new(image_height, |i: int| false),
                    },
                    seq![Output::Reset { generation: g, image_width, image_height }] + cancel
                        + seq![Output::Start { generation: g, image_width, image_height }],
                )
            }
        },
        Event::RowDone { generation, line_num, pixel_count } => {
            if accepts_row(s, generation, line_num, pixel_count) {
                (
                    SchedulerState { rows_done: s.rows_done.update(line_num as int, true), ..s },
                    seq![Output::Line { generation, line_num }],
                )
            } else {
                (s, Seq::empty())
            }
        },
    }
}

impl SchedulerInput {
    pub open spec fn event(&self) -> Event {
        match self {
            SchedulerInput::Render { image_width, image_height } => Event::Render {
                image_width: *image_width as nat,
                image_height: *image_height as nat,
            },
            SchedulerInput::RowDone { generation, line_num, line_pixels } => Event::RowDone {
                generation: *generation as nat,
                line_num: *line_num as nat,
                pixel_count: line_pixels@.len(),
            },
        }
    }
}

impl SchedulerAction {
    pub open spec fn output(&self) -> Output {
        match self {
            SchedulerAction::Emit { result } => match result {
                RenderResult::Reset { generation, image_width, image_height } => Output::Reset {
                    generation: *generation as nat,
                    image_width: *image_width as nat,
                    image_height: *image_height as nat,
                },
                RenderResult::ImageLine { generation, line_num, .. } => Output::Line {
                    generation: *generation as nat,
                    line_num: *line_num as nat,
                },
            },
            SchedulerAction::Cancel { generation } => Output::Cancel {
                generation: *generation as nat,
            },
            SchedulerAction::Start { generation, image_width, image_height, .. } => Output::Start {
                generation: *generation as nat,
                image_width: *image_width as nat,
                image_height: *image_height as nat,
            },
        }
    }
}

/// The outputs of a sequence of actions.
pub open spec fn outputs(actions: Seq<SchedulerAction>) -> Seq<Output> {
    actions.map_values(|a: SchedulerAction| a.output())
}

/// The state reached from `s` through `events`, and everything asked for on
/// the way, in order.
pub open spec fn run(s: SchedulerState, events: Seq<Event>) -> (SchedulerState, Seq<Output>)
    decreases events.len(),
{
    if events.len() == 0 {
        (s, Seq::empty())
    } else {
        let before = run(s, events.drop_last());
        let last = step_model(before.0, events.last());
        (last.0, before.1 + last.1)
    }
}

/// The generation of the last `Reset` in `outs`, if there is one.
pub open spec fn latest_reset(outs: Seq<Output>) -> Option<nat>
    decreases outs.len(),
{
    if outs.len() == 0 {
        None
    } else {
        match outs.last() {
            Output::Reset { generation, .. } => Some(generation),
            _ => latest_reset(outs.drop_last()),
        }
    }
}

/// Every line is of the generation that the last `Reset` before it announced.
pub open spec fn lines_are_current(outs: Seq<Output>) -> bool {
    forall|k: int|
        0 <= k < outs.len() ==> (#[trigger] outs[k] matches Output::Line { generation, .. }
            ==> latest_reset(outs.take(k)) == Some(generation))
}

/// No row of a generation is passed on twice.
pub open spec fn lines_are_distinct(outs: Seq<Output>) -> bool {
    forall|j: int, k: int|
        0 <= j < k < outs.len() ==> (#[trigger] outs[j] matches Output::Line {
            generation: gj,
            line_num: lj,
        } ==> (#[trigger] outs[k] matches Output::Line { generation: gk, line_num: lk } ==> (gj
            != gk || lj != lk)))
}

/// What holds of a scheduler's history, for the proofs below.
spec fn history_consistent(s: SchedulerState, outs: Seq<Output>) -> bool {
    &&& lines_are_current(outs)
    &&& lines_are_distinct(outs)
    &&& s.generation == 0 ==> latest_reset(outs) is None
    &&& s.generation > 0 ==> latest_reset(outs) == Some(s.generation)
    &&& forall|k: int|
        0 <= k < outs.len() ==> (#[trigger] outs[k] matches Output::Line { generation, line_num }
            ==> generation <= s.generation && (generation == s.generation ==> line_num
            < s.rows_done.len() && s.rows_done[line_num as int]))
}

proof fn lemma_latest_reset_skips(a: Seq<Output>, b: Seq<Output>)
    requires
        forall|k: int| 0 <= k < b.len() ==> !(#[trigger] b[k] is Reset),
    ensures
        latest_reset(a + b) == latest_reset(a),
    decreases b.len(),
{
    if b.len() > 0 {
        assert((a + b).drop_last() =~= a + b.drop_last());
        assert((a + b).last() == b[b.len() - 1]);
        lemma_latest_reset_skips(a, b.drop_last());
    } else {
        assert(a + b =~= a);
    }
}

proof fn lemma_run_consistent(events: Seq<Event>)
    ensures
        history_consistent(run(RenderScheduler::initial(), events).0, run(RenderScheduler::initial(), events).1),
    decreases events.len(),
{
    let init = RenderScheduler::initial();
    if events.len() == 0 {
        assert(run(init, events).1 =~= Seq::<Output>::empty());
    } else {
        lemma_run_consistent(events.drop_last());
        let before = run(init, events.drop_last());
        let s1 = before.0;
        let o1 = before.1;
        let last = step_model(s1, events.last());
        let s2 = last.0;
        let o2 = last.1;
        let outs = o1 + o2;
        assert(run(init, events) == (s2, outs));
        assert forall|k: int| 0 <= k < o1.len() implies outs[k] == o1[k] && #[trigger] outs.take(k)
            == o1.take(k) by {
            assert(outs.take(k) =~= o1.take(k));
        }
        match events.last() {
            Event::Render { image_width, image_height } => {
                if s1.generation >= u64::MAX {
                    assert(outs =~= o1);
                } else {
                    let g = s1.generation + 1;
                    let cancel = if s1.generation > 0 {
                        seq![Output::Cancel { generation: s1.generation }]
                    } else {
                        Seq::empty()
                    };
                    let reset = Output::Reset { generation: g, image_width, image_height };
                    let tail = cancel + seq![Output::Start { generation: g, image_width, image_height }];
                    assert(o2 =~= seq![reset] + tail);
                    assert(outs =~= (o1 + seq![reset]) + tail);
                    lemma_latest_reset_skips(o1 + seq![reset], tail);
                    assert((o1 + seq![reset]).drop_last() =~= o1);
                    assert(latest_reset(o1 + seq![reset]) == Some(g));
                    assert forall|k: int| 0 <= k < outs.len() implies !(#[trigger] outs[k] is Line)
                        || k < o1.len() by {
                        if k >= o1.len() {
                            assert(outs[k] == o2[k - o1.len()]);
                        }
                    }
                }
            },
            Event::RowDone { generation, line_num, pixel_count } => {
                if accepts_row(s1, generation, line_num, pixel_count) {
                    let line = Output::Line { generation, line_num };
                    assert(o2 =~= seq![line]);
                    lemma_latest_reset_skips(o1, o2);
                    assert(outs.take(o1.len() as int) =~= o1);
                    assert(outs[o1.len() as int] == line);
                } else {
                    assert(outs =~= o1);
                }
            },
        }
    }
}

/// Once the consumer has been sent the `Reset` of a generation, every line it
/// is sent is of that generation, until the next `Reset`: no row of a
/// superseded render follows the `Reset` of a newer one. And no row of a
/// generation is sent twice.
pub proof fn lemma_no_stale_lines(events: Seq<Event>)
    ensures
        lines_are_current(run(RenderScheduler::initial(), events).1),
        lines_are_distinct(run(RenderScheduler::initial(), events).1),
{
    lemma_run_consistent(events);
}

/// The scheduler of renders.
#[derive(Debug)]
pub struct RenderScheduler {
    generation: u64,
    image_width: usize,
    image_height: usize,
    rows_done: Vec<bool>,
}

impl View for RenderScheduler {
    type V = SchedulerState;

    closed spec fn view(&self) -> SchedulerState {
        SchedulerState {
            generation: self.generation as nat,
            image_width: self.image_width as nat,
            image_height: self.image_height as nat,
            rows_done: self.rows_done@,
        }
    }
}

/// The rows of an image of `height` rows, from the top one (`height - 1`)
/// down to `0`.
pub fn rows_top_down(height: usize) -> (r: Vec<usize>)
    ensures
        r@ == rows_descending(height as nat),
{
    let mut rows: Vec<usize> = Vec::new();
    let mut i: usize = 0;
    while i < height
        invariant
            i <= height,
            rows@ == rows_descending(height as nat).subrange(0, i as int),
        decreases height - i,
    {
        rows.push(height - 1 - i);
        assert(rows@ =~= rows_descending(height as nat).subrange(0, (i + 1) as int));
        i = i + 1;
    }
    assert(rows@ =~= rows_descending(height as nat));
    rows
}

impl RenderScheduler {
    /// The state before any render: generation 0, an empty image.
    pub open spec fn initial() -> SchedulerState {
        SchedulerState { generation: 0, image_width: 0, image_height: 0, rows_done: Seq::empty() }
    }

    pub fn new() -> (r: RenderScheduler)
        ensures
            r@ == Self::initial(),
    {
        let r = RenderScheduler {
            generation: 0,
            image_width: 0,
            image_height: 0,
            rows_done: Vec::new(),
        };
        assert(r@.rows_done =~= Seq::<bool>::empty());
        r
    }

    /// The current generation; 0 before the first render.
    pub fn generation(&self) -> (r: u64)
        ensures
            r == self@.generation,
    {
        self.generation
    }

    /// Decides what follows `input`. A request that would open generation
    /// 2^64 is ignored.
    pub fn step(&mut self, input: SchedulerInput) -> (r: Vec<SchedulerAction>)
        ensures
            final(self)@ == step_model(old(self)@, input.event()).0,
            outputs(r@) == step_model(old(self)@, input.event()).1,
            forall|i: int|
                0 <= i < r@.len() ==> (#[trigger] r@[i] matches SchedulerAction::Start {
                    image_height,
                    rows,
                    ..
                } ==> rows@ == rows_descending(image_height as nat)),
            forall|i: int|
                0 <= i < r@.len() ==> (#[trigger] r@[i] matches SchedulerAction::Emit {
                    result: RenderResult::ImageLine { line_pixels, .. },
                } ==> input matches SchedulerInput::RowDone { line_pixels: given, .. }
                    && line_pixels@ == given@),
    {
        match input {
            SchedulerInput::Render { image_width, image_height } => {
                let mut actions: Vec<SchedulerAction> = Vec::new();
                if self.generation == u64::MAX {
                    assert(outputs(actions@) =~= Seq::empty());
                    return actions;
                }
                let previous = self.generation;
                let generation = previous + 1;
                actions.push(
                    SchedulerAction::Emit {
                        result: RenderResult::Reset { generation, image_width, image_height },
                    },
                );
                if previous > 0 {
                    actions.push(SchedulerAction::Cancel { generation: previous });
                }
                let rows = rows_top_down(image_height);
                actions.push(SchedulerAction::Start { generation, image_width, image_height, rows });
                let mut rows_done: Vec<bool> = Vec::new();
                let mut i: usize = 0;
                while i < image_height
                    invariant
                        i <= image_height,
                        rows_done@ == Seq::new(i as nat, |k: int| false),
                    decreases image_height - i,
                {
                    rows_done.push(false);
                    assert(rows_done@ =~= Seq::new((i + 1) as nat, |k: int| false));
                    i = i + 1;
                }
                self.generation = generation;
                self.image_width = image_width;
                self.image_height = image_height;
                self.rows_done = rows_done;
                assert(outputs(actions@) =~= step_model(old(self)@, input.event()).1);
                actions
            },
            SchedulerInput::RowDone { generation, line_num, line_pixels } => {
                if generation > 0 && generation == self.generation && line_num
                    < self.rows_done.len() && !self.rows_done[line_num] && line_pixels.len()
                    == self.image_width {
                    self.rows_done.set(line_num, true);
                    let mut actions: Vec<SchedulerAction> = Vec::new();
                    actions.push(
                        SchedulerAction::Emit {
                            result: RenderResult::ImageLine { generation, line_num, line_pixels },
                        },
                    );
                    assert(outputs(actions@) =~= step_model(old(self)@, input.event()).1);
                    actions
                } else {
                    let actions: Vec<SchedulerAction> = Vec::new();
                    assert(outputs(actions@) =~= Seq::empty());
                    actions
                }
            },
        }
    }
}

} // verus!
