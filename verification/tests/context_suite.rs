//! Tests for the execution-context core: the evaluation protocol's
//! state transitions, the result channel, the harness, the counter,
//! and the error taxonomy.
use never_jscore::context::{build_harness, gc_script, Context, RunOutcome};
use never_jscore::errors::EvalError;

#[test]
fn fresh_context_has_clean_state() {
    let ctx = Context::new("function add(a,b){return a+b;}".to_string());
    assert_eq!(ctx.stats(), 0);
    assert!(ctx.needs_init());
    assert_eq!(ctx.init_source(), "function add(a,b){return a+b;}");
}

#[test]
fn empty_init_code_never_needs_a_run() {
    let ctx = Context::new(String::new());
    assert!(!ctx.needs_init());
}

#[test]
fn init_success_is_recorded_once() {
    let mut ctx = Context::new("var x = 1;".to_string());
    assert!(ctx.needs_init());
    assert!(ctx.apply_init_outcome(Ok(())).is_ok());
    assert!(!ctx.needs_init());
}

#[test]
fn init_failure_leaves_a_retryable_context() {
    let mut ctx = Context::new("syntax error(".to_string());
    let r = ctx.apply_init_outcome(Err("unexpected token".to_string()));
    match r {
        Err(EvalError::Compile(m)) => assert_eq!(m, "unexpected token"),
        other => panic!("expected a compile error, got {:?}", other),
    }
    assert!(ctx.needs_init());
}

#[test]
fn harness_embeds_the_code_as_a_literal() {
    let h = build_harness("1 + 2 + 3", true);
    assert!(h.starts_with("(async function() { const code = \"1 + 2 + 3\"; "));
    assert!(h.contains("await Promise.resolve(eval(code))"));
    assert!(h.contains("Deno.core.ops.op_store_result"));
    assert!(h.ends_with("})()"));
}

#[test]
fn hostile_code_cannot_break_out_of_the_literal() {
    let h = build_harness("\"; process.exit(); //", false);
    assert!(h.starts_with("(function() { const code = \"\\\"; process.exit(); //\"; "));
}

#[test]
fn synchronous_mode_builds_a_harness_without_await() {
    let sync = build_harness("Promise.resolve(42)", false);
    let asyn = build_harness("Promise.resolve(42)", true);
    assert_ne!(sync, asyn);
    assert!(!sync.contains("await"));
    assert!(!sync.contains("async"));
    assert!(asyn.contains("await"));
}

#[test]
fn completed_run_returns_the_stored_text_once() {
    let mut ctx = Context::new(String::new());
    let _harness = ctx.begin_evaluation("1 + 2 + 3", true);
    ctx.store_result("6".to_string());
    let r = ctx.finish_evaluation(RunOutcome::Completed);
    assert_eq!(r.unwrap(), "6");
    assert_eq!(ctx.stats(), 1);
    let r2 = ctx.finish_evaluation(RunOutcome::Completed);
    assert!(matches!(r2, Err(EvalError::ResultMissing)));
    assert_eq!(ctx.stats(), 1);
}

#[test]
fn repeated_evaluation_yields_the_same_value_and_counts_each() {
    let mut ctx = Context::new(String::new());
    let mut results = Vec::new();
    for _ in 0..2 {
        let _h = ctx.begin_evaluation("1 + 2 + 3", true);
        ctx.store_result("6".to_string());
        results.push(ctx.finish_evaluation(RunOutcome::Completed).unwrap());
    }
    assert_eq!(results[0], results[1]);
    assert_eq!(results[0], "6");
    assert_eq!(ctx.stats(), 2);
}

#[test]
fn last_stored_result_wins() {
    let mut ctx = Context::new(String::new());
    let _h = ctx.begin_evaluation("x", true);
    ctx.store_result("1".to_string());
    ctx.store_result("2".to_string());
    assert_eq!(ctx.finish_evaluation(RunOutcome::Completed).unwrap(), "2");
}

#[test]
fn beginning_an_evaluation_clears_stale_results() {
    let mut ctx = Context::new(String::new());
    let _h1 = ctx.begin_evaluation("1", true);
    ctx.store_result("1".to_string());
    let _h2 = ctx.begin_evaluation("2", true);
    let r = ctx.finish_evaluation(RunOutcome::Completed);
    assert!(matches!(r, Err(EvalError::ResultMissing)));
}

#[test]
fn thrown_code_surfaces_an_execution_error_and_counts_nothing() {
    let mut ctx = Context::new(String::new());
    let _h = ctx.begin_evaluation("throw new Error('x')", true);
    let r = ctx.finish_evaluation(RunOutcome::Failed("Error: x".to_string()));
    match r {
        Err(EvalError::Execution(m)) => assert_eq!(m, "Error: x"),
        other => panic!("expected an execution error, got {:?}", other),
    }
    assert_eq!(ctx.stats(), 0);
}

#[test]
fn a_failed_drain_is_an_event_loop_error() {
    let mut ctx = Context::new(String::new());
    let _h = ctx.begin_evaluation("setTimeout(() => { throw 1; }, 0)", true);
    let r = ctx.finish_evaluation(RunOutcome::LoopFailed("uncaught in timer".to_string()));
    assert!(matches!(r, Err(EvalError::EventLoop(_))));
    assert_eq!(ctx.stats(), 0);
}

#[test]
fn reset_stats_always_reads_zero_afterwards() {
    let mut ctx = Context::new(String::new());
    for _ in 0..3 {
        let _h = ctx.begin_evaluation("1", true);
        ctx.store_result("1".to_string());
        ctx.finish_evaluation(RunOutcome::Completed).unwrap();
    }
    assert_eq!(ctx.stats(), 3);
    ctx.reset_stats();
    assert_eq!(ctx.stats(), 0);
}

#[test]
fn gc_hint_is_due_every_hundredth_evaluation() {
    let mut ctx = Context::new(String::new());
    assert!(!ctx.gc_hint_due());
    for _ in 0..100 {
        let _h = ctx.begin_evaluation("1", true);
        ctx.store_result("1".to_string());
        ctx.finish_evaluation(RunOutcome::Completed).unwrap();
    }
    assert!(ctx.gc_hint_due());
    let _h = ctx.begin_evaluation("1", true);
    ctx.store_result("1".to_string());
    ctx.finish_evaluation(RunOutcome::Completed).unwrap();
    assert!(!ctx.gc_hint_due());
}

#[test]
fn gc_script_is_a_fixed_advisory_text() {
    assert_eq!(gc_script(), "if (typeof gc === 'function') { gc(); } null;");
}

#[test]
fn independent_contexts_share_no_state() {
    let mut a = Context::new("var g = 1;".to_string());
    let mut b = Context::new(String::new());
    a.apply_init_outcome(Ok(())).unwrap();
    let _ha = a.begin_evaluation("g", true);
    a.store_result("1".to_string());
    let _hb = b.begin_evaluation("typeof g", true);
    let rb = b.finish_evaluation(RunOutcome::Completed);
    assert!(matches!(rb, Err(EvalError::ResultMissing)));
    assert_eq!(a.finish_evaluation(RunOutcome::Completed).unwrap(), "1");
    assert_eq!(a.stats(), 1);
    assert_eq!(b.stats(), 0);
    assert!(b.needs_init() == false && a.needs_init() == false);
}

#[test]
fn errors_describe_their_phase() {
    assert_eq!(
        EvalError::Compile("bad".to_string()).describe(),
        "compile error: bad"
    );
    assert_eq!(
        EvalError::Execution("threw".to_string()).describe(),
        "execution error: threw"
    );
    assert_eq!(
        EvalError::EventLoop("stuck".to_string()).describe(),
        "event loop error: stuck"
    );
    assert_eq!(EvalError::ResultMissing.describe(), "no result stored");
    assert_eq!(
        EvalError::Conversion("shape".to_string()).describe(),
        "conversion error: shape"
    );
    assert_eq!(
        EvalError::UnsupportedType("callable".to_string()).describe(),
        "unsupported type: callable"
    );
}
