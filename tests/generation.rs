use local_llm::generation::{
    prepare_inference, reply_text, InferenceFailure, InferenceRun, SessionState, TokenFeedback,
};
use local_llm::sampling::{InferenceParameters, SettingName};

fn params(t: &str) -> InferenceParameters {
    InferenceParameters {
        prompt_template: "[[message]]".to_string(),
        temperature: t.to_string(),
        top_p: "0.95".to_string(),
        top_k: "40".to_string(),
        repetition_penalty: "1.3".to_string(),
    }
}

#[test]
fn run_gathers_tokens() {
    let mut session = SessionState::new();
    let mut run = InferenceRun::start(&mut session);
    assert_eq!(run.on_token("Hel", session.stop_infering()), TokenFeedback::Continue);
    assert_eq!(run.on_token("lo", session.stop_infering()), TokenFeedback::Continue);
    assert_eq!(run.answer, "Hello");
    assert!(!run.halted);
}

#[test]
fn cancel_halts_and_keeps_earlier_tokens() {
    let mut session = SessionState::new();
    let mut run = InferenceRun::start(&mut session);
    assert_eq!(run.on_token("one ", session.stop_infering()), TokenFeedback::Continue);
    session.cancel_inference();
    assert_eq!(run.on_token("two", session.stop_infering()), TokenFeedback::Halt);
    assert_eq!(run.on_token("three", false), TokenFeedback::Halt);
    assert!(run.halted);
    assert_eq!(run.answer, "one ");
}

#[test]
fn start_clears_a_stale_cancel() {
    let mut session = SessionState::new();
    session.cancel_inference();
    assert!(session.stop_infering());
    let mut run = InferenceRun::start(&mut session);
    assert!(!session.stop_infering());
    assert_eq!(run.on_token("a", session.stop_infering()), TokenFeedback::Continue);
}

#[test]
fn no_model_means_no_generation() {
    let r = prepare_inference(false, &params("0.8"));
    assert!(matches!(r, Err(InferenceFailure::NoModelLoaded)));
    assert_eq!(reply_text(&Err(InferenceFailure::NoModelLoaded)), "Error: No model loaded");
}

#[test]
fn malformed_temperature_fails_the_call() {
    match prepare_inference(true, &params("hot")) {
        Err(InferenceFailure::Configuration(e)) => {
            assert_eq!(e.setting, SettingName::Temperature);
            let text = reply_text(&Err(InferenceFailure::Configuration(e)));
            assert_eq!(text, "\nConfiguration error: temperature is not a number: hot");
        }
        _ => panic!("expected a configuration error"),
    }
    assert!(prepare_inference(true, &params("0.7")).is_ok());
}

#[test]
fn replies() {
    let run = InferenceRun { answer: "partial".to_string(), halted: true, steps: 3 };
    assert_eq!(reply_text(&Ok(run)), "partial");
    let failed = Err(InferenceFailure::Generation("tokenizer failed".to_string()));
    assert_eq!(reply_text(&failed), "\ntokenizer failed");
}

#[test]
fn steps_are_bounded() {
    let mut session = SessionState::new();
    let mut run = InferenceRun::start(&mut session);
    for _ in 0..1000 {
        assert!(run.may_continue());
        run.count_step();
    }
    assert!(!run.may_continue());
    assert_eq!(run.steps, 1000);
}
