//! The execution context core: the single-slot result channel the guest
//! reports through, the session state of one guest isolate, the harness
//! built around submitted code, and the state transitions of the
//! dual-mode evaluation protocol. The engine itself is an outside
//! collaborator: the owner of a context runs the texts this module hands
//! out on the isolate and reports each outcome back, and every decision
//! in between is made here.
use vstd::prelude::*;

use crate::codec::quoted;
use crate::errors::EvalError;

verus! {

broadcast use vstd::seq::group_seq_axioms;

/// A single-slot, clearable holding cell for the most recent
/// evaluation's serialized result text. The guest writes it through the
/// registered native callback; the host reads it exactly once per
/// execution.
pub struct ResultChannel {
    slot: Option<String>,
}

impl View for ResultChannel {
    type V = Option<Seq<char>>;

    closed spec fn view(&self) -> Option<Seq<char>> {
        match self.slot {
            Some(s) => Some(s@),
            None => None,
        }
    }
}

impl ResultChannel {
    /// A channel holding nothing.
    pub fn new() -> (r: ResultChannel)
        ensures
            r@ is None,
    {
        ResultChannel { slot: None }
    }

    /// Empties the channel.
    pub fn clear(&mut self)
        ensures
            final(self)@ is None,
    {
        self.slot = None;
    }

    /// Stores one result text. A second store within one evaluation
    /// overwrites the first: the last write wins.
    pub fn store(&mut self, text: String)
        ensures
            final(self)@ == Some(text@),
    {
        self.slot = Some(text);
    }

    /// Reads and empties the channel in one step.
    pub fn take(&mut self) -> (r: Option<String>)
        ensures
            final(self)@ is None,
            match r {
                Some(t) => old(self)@ == Some(t@),
                None => old(self)@ is None,
            },
    {
        self.slot.take()
    }
}

/// Mathematical model of an execution context: the init code it was
/// created with, whether that code has run, the number of completed
/// evaluations, and what the result channel holds.
pub struct CtxView {
    pub init_code: Seq<char>,
    pub compiled: bool,
    pub exec_count: nat,
    pub channel: Option<Seq<char>>,
}

/// Beginning an evaluation clears the channel and changes nothing else.
pub open spec fn spec_begin(c: CtxView) -> CtxView {
    CtxView { channel: None, ..c }
}

/// The guest storing a result replaces the channel's content.
pub open spec fn spec_store(c: CtxView, t: Seq<char>) -> CtxView {
    CtxView { channel: Some(t), ..c }
}

/// Reading the channel after a completed run: a stored text comes out
/// and counts as one completed evaluation; an empty channel yields
/// nothing and counts nothing.
pub open spec fn spec_complete(c: CtxView) -> (CtxView, Option<Seq<char>>) {
    match c.channel {
        Option::Some(t) => (
            (CtxView { channel: None, exec_count: c.exec_count + 1, ..c }),
            Some(t),
        ),
        Option::None => (c, None),
    }
}

/// Resetting the statistics zeroes the counter and nothing else.
pub open spec fn spec_reset(c: CtxView) -> CtxView {
    CtxView { exec_count: 0, ..c }
}

/// The harness wrapped around submitted code. The code is embedded as a
/// quoted, escaped string literal and handed to the guest's own
/// expression evaluation, so arbitrary text cannot break out of the
/// harness; the harness serializes the result (the guest's string
/// coercion of it when it has no serialized form, the canonical null
/// when there is no value) and reports it through the store callback.
/// In asynchronous mode the result is first awaited through a deferred
/// boundary; in synchronous mode a deferred value is reported as-is.
pub open spec fn harness_text(code: Seq<char>, auto_await: bool) -> Seq<char> {
    if auto_await {
        "(async function() { const code = "@ + quoted(code)
            + "; const __result = await Promise.resolve(eval(code)); if (__result === undefined) { Deno.core.ops.op_store_result(\"null\"); return null; } try { const json = JSON.stringify(__result); Deno.core.ops.op_store_result(json); return __result; } catch (e) { const str = JSON.stringify(String(__result)); Deno.core.ops.op_store_result(str); return __result; } })()"@
    } else {
        "(function() { const code = "@ + quoted(code)
            + "; const __result = eval(code); if (__result === undefined) { Deno.core.ops.op_store_result(\"null\"); return null; } try { const json = JSON.stringify(__result); Deno.core.ops.op_store_result(json); return __result; } catch (e) { const str = JSON.stringify(String(__result)); Deno.core.ops.op_store_result(str); return __result; } })()"@
    }
}

/// Builds the harness around submitted code.
pub fn build_harness(code: &str, auto_await: bool) -> (r: String)
    ensures
        r@ == harness_text(code@, auto_await),
{
    let lit = crate::codec::encode_string_literal(code);
    if auto_await {
        let mut out = String::from_str("(async function() { const code = ");
        out.append(lit.as_str());
        out.append(
            "; const __result = await Promise.resolve(eval(code)); if (__result === undefined) { Deno.core.ops.op_store_result(\"null\"); return null; } try { const json = JSON.stringify(__result); Deno.core.ops.op_store_result(json); return __result; } catch (e) { const str = JSON.stringify(String(__result)); Deno.core.ops.op_store_result(str); return __result; } })()",
        );
        out
    } else {
        let mut out = String::from_str("(function() { const code = ");
        out.append(lit.as_str());
        out.append(
            "; const __result = eval(code); if (__result === undefined) { Deno.core.ops.op_store_result(\"null\"); return null; } try { const json = JSON.stringify(__result); Deno.core.ops.op_store_result(json); return __result; } catch (e) { const str = JSON.stringify(String(__result)); Deno.core.ops.op_store_result(str); return __result; } })()",
        );
        out
    }
}

/// What the engine reported for one run of the harness.
pub enum RunOutcome {
    /// The engine call returned and, in asynchronous mode, the event
    /// loop drained to quiescence.
    Completed,
    /// The engine call itself failed: the submitted code threw.
    Failed(String),
    /// Draining the event loop failed.
    LoopFailed(String),
}

/// One execution context: owns the session state of one guest isolate
/// and the result channel shared with the isolate's store callback.
pub struct Context {
    init_code: String,
    compiled: bool,
    exec_count: u64,
    channel: ResultChannel,
}

impl View for Context {
    type V = CtxView;

    closed spec fn view(&self) -> CtxView {
        CtxView {
            init_code: self.init_code@,
            compiled: self.compiled,
            exec_count: self.exec_count as nat,
            channel: self.channel@,
        }
    }
}

impl Context {
    /// A fresh context: the init code is stored without running it, no
    /// evaluation has completed, and the channel holds nothing.
    pub fn new(init_code: String) -> (c: Context)
        ensures
            c@ == (CtxView {
                init_code: init_code@,
                compiled: false,
                exec_count: 0,
                channel: None,
            }),
    {
        Context { init_code, compiled: false, exec_count: 0, channel: ResultChannel::new() }
    }

    /// Whether the next evaluation must first run the init code:
    /// compilation is deferred to first use, and empty init code never
    /// needs a run.
    pub fn needs_init(&self) -> (r: bool)
        ensures
            r == (!self@.compiled && self@.init_code.len() > 0),
    {
        !self.compiled && !self.init_code.as_str().is_empty()
    }

    /// The init code to run on the isolate.
    pub fn init_source(&self) -> (r: &str)
        ensures
            r@ == self@.init_code,
    {
        self.init_code.as_str()
    }

    /// Records the outcome of running the init code: success marks the
    /// context compiled; failure is a `Compile` error and leaves the
    /// context unchanged, so a later call may attempt the run again.
    pub fn apply_init_outcome(&mut self, outcome: Result<(), String>) -> (r: Result<(), EvalError>)
        ensures
            match outcome {
                Ok(_) => r is Ok && final(self)@ == (CtxView { compiled: true, ..old(self)@ }),
                Err(m) => (match r {
                    Err(EvalError::Compile(mm)) => mm@ == m@,
                    _ => false,
                }) && final(self)@ == old(self)@,
            },
    {
        match outcome {
            Ok(_) => {
                self.compiled = true;
                Ok(())
            },
            Err(m) => Err(EvalError::Compile(m)),
        }
    }

    /// Starts one evaluation: clears any prior result out of the
    /// channel, so a stale value can never leak into this run's read,
    /// and hands back the harness to run on the isolate.
    pub fn begin_evaluation(&mut self, code: &str, auto_await: bool) -> (harness: String)
        ensures
            final(self)@ == spec_begin(old(self)@),
            harness@ == harness_text(code@, auto_await),
    {
        self.channel.clear();
        build_harness(code, auto_await)
    }

    /// The store callback's target: holds the guest's serialized result
    /// text for the host's read. A second store within one evaluation
    /// overwrites the first: the last write wins.
    pub fn store_result(&mut self, text: String)
        ensures
            final(self)@ == spec_store(old(self)@, text@),
    {
        self.channel.store(text);
    }

    /// Finishes one evaluation. A failed engine call is an `Execution`
    /// error and a failed drain an `EventLoop` error, both leaving the
    /// context unchanged, counter included. After a completed run the
    /// channel is read and cleared: a stored text is the result and
    /// counts as exactly one completed evaluation; an empty channel is
    /// a `ResultMissing` error and counts nothing.
    pub fn finish_evaluation(&mut self, outcome: RunOutcome) -> (r: Result<String, EvalError>)
        requires
            old(self)@.exec_count < u64::MAX as nat,
        ensures
            match outcome {
                RunOutcome::Completed => match old(self)@.channel {
                    Option::Some(t) => (match r {
                        Ok(text) => text@ == t,
                        _ => false,
                    }) && final(self)@ == spec_complete(old(self)@).0,
                    Option::None => r matches Err(EvalError::ResultMissing) && final(self)@ == old(
                        self,
                    )@,
                },
                RunOutcome::Failed(m) => (match r {
                    Err(EvalError::Execution(mm)) => mm@ == m@,
                    _ => false,
                }) && final(self)@ == old(self)@,
                RunOutcome::LoopFailed(m) => (match r {
                    Err(EvalError::EventLoop(mm)) => mm@ == m@,
                    _ => false,
                }) && final(self)@ == old(self)@,
            },
    {
        match outcome {
            RunOutcome::Completed => {
                match self.channel.take() {
                    Some(text) => {
                        self.exec_count = self.exec_count + 1;
                        Ok(text)
                    },
                    None => Err(EvalError::ResultMissing),
                }
            },
            RunOutcome::Failed(m) => Err(EvalError::Execution(m)),
            RunOutcome::LoopFailed(m) => Err(EvalError::EventLoop(m)),
        }
    }

    /// The number of completed evaluations; purely observational.
    pub fn stats(&self) -> (r: u64)
        ensures
            r as nat == self@.exec_count,
    {
        self.exec_count
    }

    /// Zeroes the execution counter; no effect on isolate state.
    pub fn reset_stats(&mut self)
        ensures
            final(self)@ == spec_reset(old(self)@),
    {
        self.exec_count = 0;
    }

    /// Whether the advisory memory-pressure hint is due: every
    /// hundredth completed evaluation.
    pub fn gc_hint_due(&self) -> (r: bool)
        ensures
            r == (self@.exec_count > 0 && self@.exec_count % 100 == 0),
    {
        self.exec_count > 0 && self.exec_count % 100 == 0
    }
}

/// The advisory script a garbage-collection request runs on the
/// isolate: a hint only, a no-op wherever the engine does not expose a
/// collector, and never a failure for the caller.
pub open spec fn gc_script_text() -> Seq<char> {
    "if (typeof gc === 'function') { gc(); } null;"@
}

/// The text a garbage-collection request runs on the isolate.
pub fn gc_script() -> (r: &'static str)
    ensures
        r@ == gc_script_text(),
{
    "if (typeof gc === 'function') { gc(); } null;"
}

/// One evaluation in which the guest stores the text `t`: the result is
/// exactly `t` and the counter increases by exactly one; a second
/// evaluation of the same side-effect-free code, modeled by the guest
/// storing the same text again, yields the same result and one more
/// increment, with the rest of the context unchanged throughout.
pub proof fn lemma_evaluation_idempotent(c: CtxView, t: Seq<char>)
    ensures
        ({
            let first = spec_complete(spec_store(spec_begin(c), t));
            let second = spec_complete(spec_store(spec_begin(first.0), t));
            &&& first.1 == Some(t)
            &&& second.1 == Some(t)
            &&& first.1 == second.1
            &&& first.0.exec_count == c.exec_count + 1
            &&& second.0.exec_count == c.exec_count + 2
            &&& first.0.compiled == c.compiled && second.0.compiled == c.compiled
            &&& first.0.init_code == c.init_code && second.0.init_code == c.init_code
        }),
{
}

/// A run that reaches the post-run read with nothing stored, as when
/// the submitted code threw before the harness could report, leaves
/// the execution counter unchanged.
pub proof fn lemma_failed_run_counts_nothing(c: CtxView)
    requires
        c.channel is None,
    ensures
        spec_complete(c).0 == c,
        spec_complete(c).1 is None,
{
}

/// The two evaluation modes wrap the same code in different harnesses:
/// only the asynchronous one routes the result through a deferred
/// boundary before it is serialized and stored.
pub proof fn lemma_modes_build_distinct_harnesses(code: Seq<char>)
    ensures
        harness_text(code, true) != harness_text(code, false),
{
    reveal_strlit("(async function() { const code = ");
    reveal_strlit("(function() { const code = ");
    let a = harness_text(code, true);
    let b = harness_text(code, false);
    assert(a[1] == 'a');
    assert(b[1] == 'f');
}

/// After a reset the counter reads zero, whatever activity came before.
pub proof fn lemma_reset_then_stats(c: CtxView)
    ensures
        spec_reset(c).exec_count == 0,
{
}

} // verus!
