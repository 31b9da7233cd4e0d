use discord_fend::event_handler::command::commands::fend::{
    clear_context, cmd as fend_cmd, evaluation_outcome, fend_args, fend_lines, fend_run,
    new_context, render_line,
    render_spans, repl_exit_text, repl_outcome, repl_start_text, repl_step, repl_timeout_text,
    session_taken_text, settle_evaluation, style_for, EvalOutcome, FendContexts, FendPlan,
    Repl, ReplStep, Span, SpanClass, MAX_FEND_CTX,
};
use discord_fend::utils::ansi_color::Style;

fn strings(v: &[&str]) -> Vec<String> {
    v.iter().map(|s| s.to_string()).collect()
}

/// Evaluates `lines` one after the other in `ctx` and renders the answer.
fn run(lines: Vec<String>, ctx: &mut fend_core::Context) -> String {
    let mut steps = Vec::new();
    for line in lines {
        let raw = match fend_core::evaluate(&line, ctx) {
            Ok(res) => Ok(res
                .get_main_result_spans()
                .map(|span| (span.kind(), span.string().to_string()))
                .collect()),
            Err(err) => Err(err),
        };
        steps.push((line, evaluation_outcome(raw)));
    }
    fend_run(steps)
}

#[test]
fn fend_args_takes_what_follows_the_command() {
    assert_eq!(fend_args("~fend  1 + 1 "), "1 + 1");
    assert_eq!(fend_args("~fend `2*3`"), " 2*3 ");
    assert_eq!(fend_args("~fend"), "");
    assert_eq!(fend_args("~help 2"), "");
}

#[test]
fn fend_lines_drops_blank_lines() {
    assert_eq!(fend_lines("~fend 1\n\n  \n2\r\n3"), strings(&["1", "2", "3"]));
    assert_eq!(fend_lines("~fend ```\nx = 5\nx + 1\n```"), strings(&["x = 5", "x + 1"]));
    assert!(fend_lines("~fend \n \n").is_empty());
}

#[test]
fn fend_without_expression_starts_a_session() {
    assert!(matches!(fend_cmd("~fend", false), FendPlan::Interactive));
    assert!(matches!(fend_cmd("~fend ``", false), FendPlan::Interactive));
}

#[test]
fn fend_with_expression_or_edit_evaluates() {
    match fend_cmd("~fend 1 + 1", false) {
        FendPlan::Evaluate(lines) => assert_eq!(lines, strings(&["1 + 1"])),
        FendPlan::Interactive => panic!("expected an evaluation"),
    }
    match fend_cmd("~fend", true) {
        FendPlan::Evaluate(lines) => assert!(lines.is_empty()),
        FendPlan::Interactive => panic!("an edit is always evaluated"),
    }
}

#[test]
fn style_for_each_kind() {
    assert_eq!(style_for(SpanClass::Number), vec![Style::WhiteForeground, Style::Bold]);
    assert_eq!(style_for(SpanClass::BuiltInFunction), vec![Style::YellowForeground]);
    assert_eq!(style_for(SpanClass::Keyword), vec![Style::MagentaForeground]);
    assert_eq!(style_for(SpanClass::String), vec![Style::GreenForeground, Style::Bold]);
    assert_eq!(style_for(SpanClass::Date), vec![Style::CyanForeground, Style::Bold]);
    assert_eq!(style_for(SpanClass::Whitespace), vec![Style::WhiteForeground]);
    assert_eq!(style_for(SpanClass::Ident), vec![Style::BlueForeground]);
    assert_eq!(style_for(SpanClass::Boolean), vec![Style::RedForeground, Style::Bold]);
    assert_eq!(style_for(SpanClass::Other), vec![Style::WhiteForeground]);
}

#[test]
fn render_spans_colours_each_span() {
    let spans = vec![
        Span { kind: SpanClass::Number, text: "2".to_string() },
        Span { kind: SpanClass::Whitespace, text: " ".to_string() },
        Span { kind: SpanClass::Ident, text: "m".to_string() },
    ];
    assert_eq!(
        render_spans(&spans),
        "\x1b[37;1m2\x1b[0m\x1b[37m \x1b[0m\x1b[34mm\x1b[0m"
    );
    assert_eq!(render_spans(&Vec::new()), "");
}

#[test]
fn render_line_echoes_only_for_several_lines() {
    let ok: Result<Vec<Span>, String> = Ok(vec![Span { kind: SpanClass::Boolean, text: "true".to_string() }]);
    assert_eq!(render_line(" a ", false, &ok), "\x1b[31;1mtrue\x1b[0m\n");
    assert_eq!(render_line(" a ", true, &ok), "> a\n\x1b[31;1mtrue\x1b[0m\n");
    let err: Result<Vec<Span>, String> = Err("bad".to_string());
    assert_eq!(render_line("x", false, &err), "\x1b[31mbad\x1b[0m\n");
}

#[test]
fn fend_run_evaluates_one_line() {
    let mut ctx = new_context();
    // fend answers `2` as a number span followed by an empty identifier span
    assert_eq!(
        run(strings(&["1 + 1"]), &mut ctx),
        "```ansi\n\x1b[37;1m2\x1b[0m\x1b[34m\x1b[0m\n\n```"
    );
}

#[test]
fn fend_run_keeps_context_between_lines() {
    let mut ctx = new_context();
    let out = run(strings(&["x = 5", "x + 10"]), &mut ctx);
    assert!(out.starts_with("```ansi\n> x = 5\n"));
    assert!(out.contains("> x + 10\n"));
    assert!(out.contains("15"));
    assert!(out.ends_with("\n\n```"));
    let again = run(strings(&["x * 2"]), &mut ctx);
    assert!(again.contains("10"));
}

#[test]
fn fend_run_renders_given_outcomes() {
    let steps = vec![
        ("a".to_string(), Ok(vec![Span { kind: SpanClass::Number, text: "1".to_string() }])),
        (" b ".to_string(), Err("no".to_string())),
    ];
    assert_eq!(
        fend_run(steps),
        "```ansi\n> a\n\x1b[37;1m1\x1b[0m\n> b\n\x1b[31mno\x1b[0m\n\n```"
    );
    assert_eq!(fend_run(Vec::new()), "```ansi\n\n```");
}

#[test]
fn evaluation_outcome_keeps_errors_and_texts() {
    let err: Result<Vec<(fend_core::SpanKind, String)>, String> = Err("oops".to_string());
    assert!(matches!(evaluation_outcome(err), Err(e) if e == "oops"));
    let ok = Ok(vec![(fend_core::SpanKind::Number, "7".to_string())]);
    match evaluation_outcome(ok) {
        Ok(spans) => {
            assert_eq!(spans.len(), 1);
            assert_eq!(spans[0].kind, SpanClass::Number);
            assert_eq!(spans[0].text, "7");
        }
        Err(_) => panic!("expected spans"),
    }
}

#[test]
fn second_line_sees_the_first_lines_variable() {
    let mut ctx = new_context();
    let out = run(strings(&["x = 5", " x + 10 "]), &mut ctx);
    assert!(out.starts_with("```ansi\n> x = 5\n"));
    assert!(out.contains("\n> x + 10\n"));
    assert!(out.contains("15"));
    assert!(!out.contains("\x1b[31m"));
    assert!(out.ends_with("\n\n```"));
}

#[test]
fn fend_run_shows_errors_in_red() {
    let mut ctx = new_context();
    let out = run(strings(&["1 +"]), &mut ctx);
    assert!(out.starts_with("```ansi\n\x1b[31m"));
    assert!(out.ends_with("\x1b[0m\n\n```"));
}

#[test]
fn new_contexts_roll_dice_and_draw_bars() {
    let mut ctx = new_context();
    // with a random source, rolling works
    let rolled = run(strings(&["roll d6"]), &mut ctx);
    assert!(!rolled.contains("\x1b[31m"));
    // in terminal mode a distribution is drawn as bars, not listed in braces
    let dist = run(strings(&["d2"]), &mut ctx);
    assert!(dist.contains('#'));
    assert!(!dist.contains("{ "));
}

#[test]
fn fend_run_of_nothing_is_an_empty_block() {
    let mut ctx = new_context();
    assert_eq!(run(Vec::new(), &mut ctx), "```ansi\n\n```");
    assert_eq!(run(strings(&[""]), &mut ctx), "```ansi\n\n\n```");
}

#[test]
fn contexts_are_kept_per_channel() {
    let mut store = FendContexts::new();
    assert!(store.context_for(7).is_none());
    let mut ctx = new_context();
    run(strings(&["y = 3"]), &mut ctx);
    store.store(7, ctx);
    assert_eq!(store.len(), 1);
    let mut back = store.context_for(7).unwrap();
    assert!(run(strings(&["y + 1"]), &mut back).contains('4'));
    assert!(store.context_for(8).is_none());
    store.store(7, new_context());
    assert_eq!(store.len(), 1);
}

#[test]
fn kept_contexts_come_back_without_a_random_source() {
    let mut store = FendContexts::new();
    store.store(3, new_context());
    let mut back = store.context_for(3).unwrap();
    assert!(run(strings(&["roll d6"]), &mut back).contains("random numbers are not available"));
}

#[test]
fn contexts_evict_the_oldest_channel() {
    let mut store = FendContexts::new();
    for channel in 0..(MAX_FEND_CTX as u64 + 2) {
        store.store(channel, new_context());
    }
    assert_eq!(store.len(), MAX_FEND_CTX);
    assert!(store.context_for(0).is_none());
    assert!(store.context_for(1).is_none());
    assert!(store.context_for(2).is_some());
    assert!(store.context_for(MAX_FEND_CTX as u64 + 1).is_some());
}

#[test]
fn clear_context_reports_what_it_did() {
    let mut store = FendContexts::new();
    store.store(3, new_context());
    assert_eq!(clear_context(&mut store, 3), "Context cleared");
    assert!(store.context_for(3).is_none());
    assert_eq!(clear_context(&mut store, 3), "No context to clear");
}

#[test]
fn repl_step_exit_and_quit() {
    assert!(matches!(repl_step("exit"), ReplStep::Exit));
    assert!(matches!(repl_step("quit"), ReplStep::Exit));
    match repl_step("`1`\n\n2") {
        ReplStep::Evaluate(lines) => assert_eq!(lines, strings(&[" 1 ", "", "2"])),
        ReplStep::Exit => panic!("not an exit"),
    }
    assert!(matches!(repl_step("exit "), ReplStep::Evaluate(_)));
}

#[test]
fn settle_evaluation_for_each_outcome() {
    let (text, ctx) = settle_evaluation(EvalOutcome::Finished("ok".to_string(), 5u8));
    assert_eq!(text, "ok");
    assert_eq!(ctx, Some(5));
    let (text, ctx) = settle_evaluation::<u8>(EvalOutcome::Crashed("boom".to_string()));
    assert_eq!(text, "Error: boom");
    assert_eq!(ctx, None);
    let (text, ctx) = settle_evaluation::<u8>(EvalOutcome::TimedOut);
    assert_eq!(text, "Operation timed out.");
    assert_eq!(ctx, None);
}

#[test]
fn repl_outcome_stops_only_on_timeout() {
    let (text, go_on, ctx) = repl_outcome(EvalOutcome::Finished("r".to_string(), 1u8));
    assert_eq!((text.as_str(), go_on, ctx), ("r", true, Some(1)));
    let (text, go_on, ctx) = repl_outcome::<u8>(EvalOutcome::Crashed("e".to_string()));
    assert_eq!((text.as_str(), go_on, ctx), ("Error: e", true, None));
    let (text, go_on, ctx) = repl_outcome::<u8>(EvalOutcome::TimedOut);
    assert_eq!((text.as_str(), go_on, ctx), ("Operation timed out.", false, None));
}

#[test]
fn fixed_answers() {
    assert_eq!(repl_start_text(), "Starting fend REPL. Type `exit` to exit.");
    assert_eq!(repl_timeout_text(), "Session timed out.");
    assert_eq!(repl_exit_text(), "Fend exited.");
    assert_eq!(session_taken_text(), "You already have an active interactive session.");
}

#[test]
fn repl_keeps_the_latest_finished_context() {
    let mut repl = Repl::start(1u32);
    assert!(repl.is_running());
    match repl.on_message("2 + 2") {
        ReplStep::Evaluate(lines) => assert_eq!(lines, strings(&["2 + 2"])),
        ReplStep::Exit => panic!("expected an evaluation"),
    }
    assert_eq!(repl.on_outcome(EvalOutcome::Finished("4".to_string(), 2)), "4");
    assert_eq!(*repl.current_context(), 2);
    assert_eq!(repl.on_outcome(EvalOutcome::Crashed("boom".to_string())), "Error: boom");
    assert_eq!(*repl.current_context(), 2);
    assert!(repl.is_running());
    assert_eq!(repl.on_outcome(EvalOutcome::TimedOut), "Operation timed out.");
    assert!(!repl.is_running());
}

#[test]
fn repl_ends_on_exit_or_silence() {
    let mut repl = Repl::start(0u32);
    assert!(matches!(repl.on_message("quit"), ReplStep::Exit));
    assert!(!repl.is_running());
    let mut quiet = Repl::start(0u32);
    quiet.on_silence();
    assert!(!quiet.is_running());
}
