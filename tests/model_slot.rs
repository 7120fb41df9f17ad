use local_llm::config::Configuration;
use local_llm::model_slot::{check_architecture, read_architecture, Architecture, LoadFailure, ModelSlot};

#[test]
fn architectures_are_recognised() {
    assert_eq!(read_architecture("llama"), Some(Architecture::Llama));
    assert_eq!(read_architecture("LLaMA"), Some(Architecture::Llama));
    assert_eq!(read_architecture("GPT-NeoX"), Some(Architecture::NeoX));
    assert_eq!(read_architecture("gpt2"), Some(Architecture::Gpt2));
    assert_eq!(read_architecture("falcon"), None);
}

#[test]
fn unknown_architecture_is_an_error() {
    match check_architecture("falcon") {
        Err(e @ LoadFailure::UnsupportedArchitecture(_)) => {
            assert_eq!(e.message(), "falcon is not a supported model architecture");
        }
        _ => panic!("expected an unsupported architecture"),
    }
    assert!(matches!(check_architecture("bloom"), Ok(Architecture::Bloom)));
}

#[test]
fn failed_load_keeps_previous_model() {
    let mut slot = ModelSlot::new(Some(1u32));
    let r = slot.install(Err(LoadFailure::CorruptFile("bad magic".to_string())));
    assert!(matches!(r, Err(LoadFailure::CorruptFile(_))));
    assert_eq!(slot.current(), Some(&1));
    assert!(slot.install(Ok(2)).is_ok());
    assert_eq!(slot.current(), Some(&2));
}

#[test]
fn replace_hands_back_previous() {
    let mut slot: ModelSlot<u32> = ModelSlot::new(None);
    assert!(!slot.is_loaded());
    assert_eq!(slot.current(), None);
    assert_eq!(slot.replace(5), None);
    assert_eq!(slot.replace(6), Some(5));
    assert_eq!(slot.current(), Some(&6));
}

#[test]
fn default_configuration() {
    let c = Configuration::default();
    assert_eq!(c.model.architecture, "LLaMA");
    assert_eq!(c.model.architecture(), Some(Architecture::Llama));
    assert_eq!(c.model.path, "models/7B/ggml-alpaca-q4_0.bin");
    assert_eq!(c.model.context_token_length, 2048);
    assert_eq!(c.inference.thread_count, 8);
    assert_eq!(c.commands.len(), 2);
    assert_eq!(c.commands[0].0, "hallucinate");
    assert_eq!(c.commands[1].0, "alpaca");
    assert!(c.commands[1].1.prompt.starts_with("Below is an instruction"));
    assert!(c.commands[1].1.prompt.ends_with("### Response:\n\n"));
}
