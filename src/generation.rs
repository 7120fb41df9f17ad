//! Token generation: the cooperative stop flag, the run that gathers the
//! answer token by token, and the reply that a caller receives.

use vstd::prelude::*;
use crate::sampling::{
    build_parameters, first_unreadable, settings_readable, ConfigurationError, InferenceParameters,
    SamplingSettings, SettingName,
};

verus! {

/// The most tokens that one call generates.
pub const MAX_GENERATED_TOKENS: usize = 1000;

/// The cooperative stop flag shared by the running generation and whoever
/// asks it to stop.
pub struct SessionState {
    pub should_stop_infering: bool,
}

impl SessionState {
    /// A flag that asks nothing.
    pub fn new() -> (r: SessionState)
        ensures
            !r.should_stop_infering,
    {
        SessionState { should_stop_infering: false }
    }

    /// Asks the running generation to stop.
    pub fn cancel_inference(&mut self)
        ensures
            final(self).should_stop_infering,
    {
        self.should_stop_infering = true;
    }

    /// Clears the flag; done when a generation starts, before its first token.
    pub fn reset_stop_infering(&mut self)
        ensures
            !final(self).should_stop_infering,
    {
        self.should_stop_infering = false;
    }

    /// Tells whether a stop has been asked.
    pub fn stop_infering(&self) -> (r: bool)
        ensures
            r == self.should_stop_infering,
    {
        self.should_stop_infering
    }
}

/// What the generation loop does after a token.
#[derive(PartialEq, Eq, Structural, Clone, Copy, Debug)]
pub enum TokenFeedback {
    Continue,
    Halt,
}

/// The answer gathered so far, whether a stop request ended the run, and
/// how many generation steps it has taken.
pub struct InferenceRun {
    pub answer: String,
    pub halted: bool,
    pub steps: usize,
}

/// One generated token, and whether the stop flag was set when it came.
pub type TokenEvent = (Seq<char>, bool);

/// The run's state (answer, halted) after one token.
pub open spec fn step(state: (Seq<char>, bool), event: TokenEvent) -> (Seq<char>, bool) {
    if state.1 || event.1 {
        (state.0, true)
    } else {
        (state.0 + event.0, false)
    }
}

/// The run's state after a sequence of tokens, from a fresh start.
pub open spec fn run_of(events: Seq<TokenEvent>) -> (Seq<char>, bool)
    decreases events.len(),
{
    if events.len() == 0 {
        (Seq::empty(), false)
    } else {
        step(run_of(events.drop_last()), events.last())
    }
}

/// The texts of the tokens, one after another.
pub open spec fn joined_tokens(events: Seq<TokenEvent>) -> Seq<char>
    decreases events.len(),
{
    if events.len() == 0 {
        Seq::empty()
    } else {
        joined_tokens(events.drop_last()) + events.last().0
    }
}

impl InferenceRun {
    /// Starts a run: clears the stop flag, so that a stop asked of an earlier
    /// run does not end this one, and begins with an empty answer.
    pub fn start(session: &mut SessionState) -> (r: InferenceRun)
        ensures
            !final(session).should_stop_infering,
            r.answer@.len() == 0,
            !r.halted,
            r.steps == 0,
    {
        session.reset_stop_infering();
        InferenceRun { answer: String::new(), halted: false, steps: 0 }
    }

    /// Tells whether the run may take another generation step: it has not
    /// halted and has not reached the most tokens of one call.
    pub fn may_continue(&self) -> (r: bool)
        ensures
            r == (!self.halted && self.steps < MAX_GENERATED_TOKENS),
    {
        !self.halted && self.steps < MAX_GENERATED_TOKENS
    }

    /// Counts a generation step (a token drawn from the model, whether or
    /// not it completed a piece of text).
    pub fn count_step(&mut self)
        requires
            old(self).steps < MAX_GENERATED_TOKENS,
        ensures
            final(self).steps == old(self).steps + 1,
            final(self).answer == old(self).answer,
            final(self).halted == old(self).halted,
    {
        self.steps = self.steps + 1;
    }

    /// Takes one generated token. When a stop was asked (`stop_requested`)
    /// or the run has halted, the token is dropped and the run halts;
    /// otherwise it joins the answer and the loop goes on (the caller then
    /// emits it).
    pub fn on_token(&mut self, token: &str, stop_requested: bool) -> (r: TokenFeedback)
        ensures
            (final(self).answer@, final(self).halted) == step(
                (old(self).answer@, old(self).halted),
                (token@, stop_requested),
            ),
            r == (if final(self).halted {
                TokenFeedback::Halt
            } else {
                TokenFeedback::Continue
            }),
            final(self).steps == old(self).steps,
    {
        if self.halted || stop_requested {
            self.halted = true;
            TokenFeedback::Halt
        } else {
            self.answer.append(token);
            TokenFeedback::Continue
        }
    }
}

/// A run that a stop request ends keeps exactly the tokens that came before
/// the first token at which the flag was seen set, and is flagged as halted;
/// a run that no stop request reaches keeps every token.
pub proof fn lemma_halted_run_keeps_earlier_tokens(events: Seq<TokenEvent>, first_stop: int)
    requires
        0 <= first_stop <= events.len(),
        forall|i: int| 0 <= i < first_stop ==> !(#[trigger] events[i]).1,
        first_stop < events.len() ==> events[first_stop].1,
    ensures
        run_of(events) == (joined_tokens(events.subrange(0, first_stop)), first_stop
            < events.len()),
    decreases events.len(),
{
    if events.len() > 0 {
        let prev = events.drop_last();
        if first_stop == events.len() {
            lemma_halted_run_keeps_earlier_tokens(prev, first_stop - 1);
            assert(events.subrange(0, first_stop).drop_last() =~= prev.subrange(0, first_stop - 1));
            assert(events.subrange(0, first_stop) =~= events);
            assert(prev.subrange(0, first_stop - 1) =~= prev);
        } else if first_stop == events.len() - 1 {
            lemma_halted_run_keeps_earlier_tokens(prev, first_stop);
            assert(prev.subrange(0, first_stop) =~= events.subrange(0, first_stop));
        } else {
            lemma_halted_run_keeps_earlier_tokens(prev, first_stop);
            assert(prev.subrange(0, first_stop) =~= events.subrange(0, first_stop));
        }
    }
}

/// Why a generation call gave no answer.
pub enum InferenceFailure {
    /// No model is loaded; nothing was generated.
    NoModelLoaded,
    /// A stored sampling setting is not a number.
    Configuration(ConfigurationError),
    /// The generation step failed, with its message.
    Generation(String),
}

/// Checks what a generation call needs before it starts: a loaded model,
/// then sampling settings that read as numbers.
pub fn prepare_inference(model_loaded: bool, parameters: &InferenceParameters) -> (r: Result<
    SamplingSettings,
    InferenceFailure,
>)
    ensures
        !model_loaded ==> r matches Err(InferenceFailure::NoModelLoaded),
        model_loaded && !settings_readable(*parameters) ==> (r matches Err(
            InferenceFailure::Configuration(e),
        ) && e.setting == first_unreadable(*parameters)),
        model_loaded && settings_readable(*parameters) ==> r is Ok,
        r matches Ok(s) ==> build_parameters_ok(*parameters, s),
{
    if !model_loaded {
        return Err(InferenceFailure::NoModelLoaded);
    }
    match build_parameters(parameters) {
        Ok(s) => Ok(s),
        Err(e) => Err(InferenceFailure::Configuration(e)),
    }
}

/// `s` is what `build_parameters` reads from `p`.
pub open spec fn build_parameters_ok(p: InferenceParameters, s: SamplingSettings) -> bool {
    &&& Some(s.top_p) == crate::sampling::decimal_number_of(p.top_p@)
    &&& Some(s.top_k) == crate::sampling::count_of(p.top_k@)
    &&& Some(s.repeat_penalty) == crate::sampling::decimal_number_of(p.repetition_penalty@)
    &&& Some(s.temperature) == crate::sampling::decimal_number_of(p.temperature@)
}

/// The name under which a setting is shown.
pub open spec fn setting_label(name: SettingName) -> Seq<char> {
    match name {
        SettingName::Temperature => "temperature"@,
        SettingName::TopP => "top_p"@,
        SettingName::TopK => "top_k"@,
        SettingName::RepetitionPenalty => "repetition_penalty"@,
    }
}

/// The message of a failure, as the caller shows it in place of an answer.
pub open spec fn failure_text(f: InferenceFailure) -> Seq<char> {
    match f {
        InferenceFailure::NoModelLoaded => "Error: No model loaded"@,
        InferenceFailure::Configuration(e) => "\nConfiguration error: "@ + setting_label(e.setting)
            + " is not a number: "@ + e.text@,
        InferenceFailure::Generation(m) => "\n"@ + m@,
    }
}

fn setting_label_exec(name: SettingName) -> (r: &'static str)
    ensures
        r@ == setting_label(name),
{
    match name {
        SettingName::Temperature => "temperature",
        SettingName::TopP => "top_p",
        SettingName::TopK => "top_k",
        SettingName::RepetitionPenalty => "repetition_penalty",
    }
}

/// What a generation call hands back: the answer (whole, or as far as it
/// went before a stop), or the failure's message.
pub fn reply_text(outcome: &Result<InferenceRun, InferenceFailure>) -> (r: String)
    ensures
        outcome matches Ok(run) ==> r@ == run.answer@,
        outcome matches Err(f) ==> r@ == failure_text(*f),
{
    match outcome {
        Ok(run) => run.answer.clone(),
        Err(InferenceFailure::NoModelLoaded) => String::from_str("Error: No model loaded"),
        Err(InferenceFailure::Configuration(e)) => {
            let mut s = String::from_str("\nConfiguration error: ");
            s.append(setting_label_exec(e.setting));
            s.append(" is not a number: ");
            s.append(e.text.as_str());
            s
        },
        Err(InferenceFailure::Generation(m)) => {
            let mut s = String::from_str("\n");
            s.append(m.as_str());
            s
        },
    }
}

} // verus!
