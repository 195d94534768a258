//! The scheduling/aggregation core: a registry of per-block states in a
//! fixed configured order, an aggregator that recomposes the line after
//! every update, and the coalescing rule that suppresses a line equal to
//! the one last emitted.
//!
//! The engine is a pure state machine.  Runners (outside this crate) call
//! `handle_update` with one block's tick outcome; the returned line, when
//! present, is exactly what the output sink must write next.

use vstd::prelude::*;

verus! {

/// Why one tick produced no text.  The runner treats every variant
/// uniformly: each one degrades the block to its fallback segment and
/// never stops the schedule (see `lemma_failure_uniform`).
#[derive(Clone, Copy, PartialEq, Eq, Structural, Debug)]
pub enum BlockError {
    /// The external tool is not installed or could not be invoked.
    ToolMissing,
    /// The external tool ran but reported failure.
    ToolFailed,
    /// The tool's output did not match the expected structure.
    UnparsableOutput,
    /// The block did not answer within the runner's bound.
    Timeout,
}

/// What one tick of a block runner hands to the engine.
pub enum TickOutcome {
    /// The block produced display text.
    Success(String),
    /// The tick failed; the block keeps ticking at its cadence.
    Failure(BlockError),
}

/// Fixed per-block configuration: poll interval in whole seconds (never
/// zero), the segment color, and the fallback text shown while the block
/// fails.
pub struct BlockConfig {
    pub interval_secs: u64,
    pub color: u32,
    pub fallback: String,
}

/// Latest known state of one block: its text, its color, when it last
/// published, and whether the last tick failed.
pub struct BlockState {
    pub text: String,
    pub color: u32,
    pub last_updated: u64,
    pub is_error: bool,
}

/// One rendered segment: a block's text with its color.
pub struct Segment {
    pub text: String,
    pub color: u32,
}

/// A composed status line: one segment per configured block, in the
/// configured order.
pub struct RenderedLine {
    pub segments: Vec<Segment>,
}

pub open spec fn seg_view(s: Segment) -> (Seq<char>, u32) {
    (s.text@, s.color)
}

pub open spec fn line_view(l: RenderedLine) -> Seq<(Seq<char>, u32)> {
    Seq::new(l.segments@.len(), |i: int| seg_view(l.segments@[i]))
}

pub open spec fn state_view(s: BlockState) -> (Seq<char>, u32, u64, bool) {
    (s.text@, s.color, s.last_updated, s.is_error)
}

pub open spec fn states_view(v: Seq<BlockState>) -> Seq<(Seq<char>, u32, u64, bool)> {
    Seq::new(v.len(), |i: int| state_view(v[i]))
}

/// The line a registry snapshot renders to: segment `i` is block `i`'s
/// text and color, in the configured order.
pub open spec fn rendered_of(states: Seq<(Seq<char>, u32, u64, bool)>) -> Seq<(Seq<char>, u32)> {
    Seq::new(states.len(), |i: int| (states[i].0, states[i].1))
}

/// View of a tick outcome: `Some(text)` on success, `None` on failure.
/// Failures carry nothing here: every error variant degrades a block the
/// same way.
pub open spec fn outcome_view(o: TickOutcome) -> Option<Seq<char>> {
    match o {
        TickOutcome::Success(t) => Some(t@),
        TickOutcome::Failure(_) => None,
    }
}

/// The state a block enters after one tick: on success the new text with
/// the block's own color, stamped `now`; on failure the fallback text,
/// flagged as an error — same color, same stamp, still ticking.
pub open spec fn state_after(
    fallback: Seq<char>,
    color: u32,
    up: Option<Seq<char>>,
    now: u64,
) -> (Seq<char>, u32, u64, bool) {
    match up {
        Some(t) => (t, color, now, false),
        None => (fallback, color, now, true),
    }
}

/// Whether a newly rendered line is emitted: only when it differs from
/// the last line already emitted (byte-for-byte on text, exact on color).
pub open spec fn emits(last: Option<Seq<(Seq<char>, u32)>>, new: Seq<(Seq<char>, u32)>) -> bool {
    last != Some(new)
}

/// One engine step at the view level: update entry `idx`, re-render, and
/// emit on change.  Returns the new states, the new last-emitted line,
/// and the emission, if any.
pub open spec fn step_view(
    states: Seq<(Seq<char>, u32, u64, bool)>,
    last: Option<Seq<(Seq<char>, u32)>>,
    fallback: Seq<char>,
    color: u32,
    idx: int,
    up: Option<Seq<char>>,
    now: u64,
) -> (Seq<(Seq<char>, u32, u64, bool)>, Option<Seq<(Seq<char>, u32)>>, Option<
    Seq<(Seq<char>, u32)>,
>) {
    let states2 = states.update(idx, state_after(fallback, color, up, now));
    let render = rendered_of(states2);
    if emits(last, render) {
        (states2, Some(render), Some(render))
    } else {
        (states2, last, None)
    }
}

/// The engine: the status registry (one entry per configured block, order
/// fixed at construction), the configurations, and the last emitted line.
pub struct Engine {
    pub configs: Vec<BlockConfig>,
    pub states: Vec<BlockState>,
    pub last: Option<RenderedLine>,
}

impl Engine {
    /// Registry well-formedness: exactly one state per configured block,
    /// and every configured interval is nonzero.
    pub open spec fn wf(&self) -> bool {
        &&& self.states@.len() == self.configs@.len()
        &&& forall|i: int|
            0 <= i < self.configs@.len() ==> (#[trigger] self.configs@[i]).interval_secs >= 1
    }

    pub open spec fn spec_len(&self) -> nat {
        self.configs@.len()
    }

    pub open spec fn states_v(&self) -> Seq<(Seq<char>, u32, u64, bool)> {
        states_view(self.states@)
    }

    pub open spec fn last_v(&self) -> Option<Seq<(Seq<char>, u32)>> {
        match self.last {
            Some(l) => Some(line_view(l)),
            None => None,
        }
    }

    /// Build the engine from the configured block list.  Every block
    /// starts with an empty placeholder text, its own color, and no
    /// error; nothing has been emitted yet.
    pub fn new(configs: Vec<BlockConfig>) -> (r: Engine)
        requires
            forall|i: int|
                0 <= i < configs@.len() ==> (#[trigger] configs@[i]).interval_secs >= 1,
        ensures
            r.wf(),
            r.configs@ == configs@,
            r.last_v() is None,
            r.states_v().len() == configs@.len(),
            forall|i: int|
                0 <= i < configs@.len() ==> #[trigger] r.states_v()[i] == (
                    Seq::<char>::empty(),
                    configs@[i].color,
                    0u64,
                    false,
                ),
    {
        let mut states: Vec<BlockState> = Vec::new();
        let mut i: usize = 0;
        let n = configs.len();
        while i < n
            invariant
                0 <= i <= n,
                n == configs@.len(),
                states@.len() == i,
                forall|j: int|
                    0 <= j < i ==> #[trigger] state_view(states@[j]) == (
                        Seq::<char>::empty(),
                        configs@[j].color,
                        0u64,
                        false,
                    ),
            decreases n - i,
        {
            states.push(
                BlockState {
                    text: String::new(),
                    color: configs[i].color,
                    last_updated: 0,
                    is_error: false,
                },
            );
            i = i + 1;
        }
        Engine { configs, states, last: None }
    }

    /// Number of configured blocks.
    pub fn len(&self) -> (r: usize)
        ensures
            r == self.spec_len(),
    {
        self.configs.len()
    }

    /// Compose the ordered line from the registry: segment `i` is block
    /// `i`'s latest text with its color — the configured order, always.
    pub fn render(&self) -> (r: RenderedLine)
        ensures
            line_view(r) == rendered_of(self.states_v()),
    {
        let mut segments: Vec<Segment> = Vec::new();
        let mut i: usize = 0;
        let n = self.states.len();
        while i < n
            invariant
                0 <= i <= n,
                n == self.states@.len(),
                segments@.len() == i,
                forall|j: int|
                    0 <= j < i ==> #[trigger] seg_view(segments@[j]) == (
                        self.states@[j].text@,
                        self.states@[j].color,
                    ),
            decreases n - i,
        {
            segments.push(
                Segment { text: self.states[i].text.clone(), color: self.states[i].color },
            );
            i = i + 1;
        }
        let r = RenderedLine { segments };
        proof {
            assert(line_view(r) =~= rendered_of(self.states_v()));
        }
        r
    }

    /// Apply one runner's tick outcome for block `idx`, re-render, and
    /// return the new line exactly when it differs from the last emitted
    /// one — the aggregator and coalescing rule in one step.
    pub fn handle_update(&mut self, idx: usize, outcome: TickOutcome, now: u64) -> (r: Option<
        RenderedLine,
    >)
        requires
            old(self).wf(),
            idx < old(self).spec_len(),
        ensures
            final(self).wf(),
            final(self).configs@ == old(self).configs@,
            ({
                let step = step_view(
                    old(self).states_v(),
                    old(self).last_v(),
                    old(self).configs@[idx as int].fallback@,
                    old(self).configs@[idx as int].color,
                    idx as int,
                    outcome_view(outcome),
                    now,
                );
                &&& final(self).states_v() == step.0
                &&& final(self).last_v() == step.1
                &&& match r {
                    Some(line) => step.2 == Some(line_view(line)),
                    None => step.2 is None,
                }
            }),
    {
        let color = self.configs[idx].color;
        let new_state = match outcome {
            TickOutcome::Success(t) => BlockState {
                text: t,
                color,
                last_updated: now,
                is_error: false,
            },
            TickOutcome::Failure(_) => BlockState {
                text: self.configs[idx].fallback.clone(),
                color,
                last_updated: now,
                is_error: true,
            },
        };
        self.states[idx] = new_state;
        proof {
            assert(self.states_v() =~= old(self).states_v().update(
                idx as int,
                state_view(self.states@[idx as int]),
            ));
        }
        let line = self.render();
        let changed = match &self.last {
            None => true,
            Some(prev) => !line_eq(prev, &line),
        };
        if changed {
            let stored = self.render();
            self.last = Some(stored);
            Some(line)
        } else {
            None
        }
    }
}

/// Compare two rendered lines, text byte-for-byte and color exactly.
fn line_eq(a: &RenderedLine, b: &RenderedLine) -> (r: bool)
    ensures
        r == (line_view(*a) == line_view(*b)),
{
    let n = a.segments.len();
    if n != b.segments.len() {
        assert(line_view(*a).len() != line_view(*b).len());
        return false;
    }
    let mut i: usize = 0;
    while i < n
        invariant
            0 <= i <= n,
            n == a.segments@.len(),
            n == b.segments@.len(),
            forall|j: int| 0 <= j < i ==> #[trigger] seg_view(a.segments@[j]) == seg_view(
                b.segments@[j],
            ),
        decreases n - i,
    {
        let sa = &a.segments[i];
        let sb = &b.segments[i];
        if !sa.text.eq(&sb.text) || sa.color != sb.color {
            assert(line_view(*a)[i as int] != line_view(*b)[i as int]);
            return false;
        }
        i = i + 1;
    }
    assert(line_view(*a) =~= line_view(*b));
    true
}

/// ORDERING LAW: the rendered line always has exactly one segment per
/// block, and segment `i` shows block `i`'s text and color — the
/// configured order, whatever the relative timing of runner updates.
pub proof fn lemma_ordering(states: Seq<(Seq<char>, u32, u64, bool)>)
    ensures
        rendered_of(states).len() == states.len(),
        forall|i: int|
            0 <= i < states.len() ==> #[trigger] rendered_of(states)[i] == (
                states[i].0,
                states[i].1,
            ),
{
}

/// ISOLATION LAW: a failing block never disturbs the others.  After block
/// `j` fails and block `i` then succeeds with `text`, the line still shows
/// every block: segment `i` is the fresh text, segment `j` is block `j`'s
/// fallback, and every other segment is exactly what it was before.
pub proof fn lemma_isolation(
    states: Seq<(Seq<char>, u32, u64, bool)>,
    i: int,
    j: int,
    text: Seq<char>,
    fb_i: Seq<char>,
    fb_j: Seq<char>,
    ci: u32,
    cj: u32,
    t1: u64,
    t2: u64,
)
    requires
        0 <= i < states.len(),
        0 <= j < states.len(),
        i != j,
    ensures
        ({
            let after_fail = states.update(j, state_after(fb_j, cj, None, t1));
            let after_ok = after_fail.update(i, state_after(fb_i, ci, Some(text), t2));
            &&& rendered_of(after_ok).len() == states.len()
            &&& rendered_of(after_ok)[i] == (text, ci)
            &&& rendered_of(after_ok)[j] == (fb_j, cj)
            &&& forall|k: int|
                0 <= k < states.len() && k != i && k != j ==> #[trigger] rendered_of(after_ok)[k]
                    == rendered_of(states)[k]
        }),
{
}

/// UNIFORMITY LAW: every failure variant degrades a block identically —
/// the scheduler never special-cases what went wrong.
pub proof fn lemma_failure_uniform(e1: BlockError, e2: BlockError)
    ensures
        outcome_view(TickOutcome::Failure(e1)) == outcome_view(TickOutcome::Failure(e2)),
{
}

/// DEGRADATION LAW: a failed tick — a timeout included — leaves the block
/// in a degraded state: fallback text, its own color, the tick's stamp,
/// and the error flag set; the registry entry is never left stale.
pub proof fn lemma_failure_degrades(fb: Seq<char>, color: u32, now: u64, e: BlockError)
    ensures
        state_after(fb, color, outcome_view(TickOutcome::Failure(e)), now) == (fb, color, now, true),
{
}

/// After every step the recorded last-emitted line equals the render of
/// the current registry: the sink is never behind the registry by more
/// than the in-flight step.
pub proof fn lemma_emitted_is_latest(
    states: Seq<(Seq<char>, u32, u64, bool)>,
    last: Option<Seq<(Seq<char>, u32)>>,
    fallback: Seq<char>,
    color: u32,
    idx: int,
    up: Option<Seq<char>>,
    now: u64,
)
    ensures
        ({
            let step = step_view(states, last, fallback, color, idx, up, now);
            step.1 == Some(rendered_of(step.0))
        }),
{
}

/// COALESCING LAW: two successive updates whose second render equals the
/// first one's emit nothing the second time — the sink never receives a
/// duplicate of the line it already has.
pub proof fn lemma_coalescing(
    states: Seq<(Seq<char>, u32, u64, bool)>,
    last: Option<Seq<(Seq<char>, u32)>>,
    fb1: Seq<char>,
    c1: u32,
    i1: int,
    up1: Option<Seq<char>>,
    t1: u64,
    fb2: Seq<char>,
    c2: u32,
    i2: int,
    up2: Option<Seq<char>>,
    t2: u64,
)
    requires
        ({
            let step1 = step_view(states, last, fb1, c1, i1, up1, t1);
            let step2 = step_view(step1.0, step1.1, fb2, c2, i2, up2, t2);
            rendered_of(step2.0) == rendered_of(step1.0)
        }),
    ensures
        ({
            let step1 = step_view(states, last, fb1, c1, i1, up1, t1);
            let step2 = step_view(step1.0, step1.1, fb2, c2, i2, up2, t2);
            step2.2 is None
        }),
{
    let step1 = step_view(states, last, fb1, c1, i1, up1, t1);
    lemma_emitted_is_latest(states, last, fb1, c1, i1, up1, t1);
    assert(step1.1 == Some(rendered_of(step1.0)));
}

} // verus!
