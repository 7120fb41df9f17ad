//! The assistant's configuration file: credentials, the model to load, how
//! to run it, and the prompt commands.

use vstd::prelude::*;
use crate::model_slot::{architecture_label, architecture_named, label_of, read_architecture, Architecture};

verus! {

/// Credentials.
pub struct Authentication {
    pub discord_token: Option<String>,
}

/// The model to load and how.
pub struct Model {
    pub path: String,
    pub context_token_length: usize,
    pub architecture: String,
    pub prefer_mmap: bool,
}

impl Model {
    /// The architecture that the configured name denotes, if any.
    pub fn architecture(&self) -> (r: Option<Architecture>)
        ensures
            r == architecture_named(self.architecture@),
    {
        read_architecture(self.architecture.as_str())
    }
}

/// How generation runs.
pub struct Inference {
    /// The number of threads to use
    pub thread_count: usize,
    /// The number of prompt tokens fed to the model at once; larger batches
    /// are faster and use more memory.
    pub batch_size: usize,
    /// How often a message being written is updated, in milliseconds
    pub discord_message_update_interval_ms: u64,
    /// Whether the two characters `\n` in an answer become a line break
    pub replace_newlines: bool,
    /// Whether the whole prompt is shown, or only what the user wrote
    pub show_prompt_template: bool,
}

/// A prompt command.
pub struct Command {
    pub enabled: bool,
    pub description: String,
    pub prompt: String,
}

/// The whole configuration. Command names are unique.
pub struct Configuration {
    pub authentication: Authentication,
    pub model: Model,
    pub inference: Inference,
    pub commands: Vec<(String, Command)>,
}

/// The prompt of the instruction-following command.
pub const INSTRUCTION_PROMPT: &'static str = "Below is an instruction that describes a task. Write a response that appropriately completes the request.\n\n### Instruction:\n\n{{PROMPT}}\n\n### Response:\n\n";

impl Configuration {
    /// No two commands share a name.
    pub open spec fn wf(&self) -> bool {
        forall|i: int, j: int|
            0 <= i < j < self.commands.len() ==> self.commands@[i].0@ != self.commands@[j].0@
    }
}

impl Default for Configuration {
    /// The configuration written when none exists: a LLaMA model under
    /// `models/7B`, eight threads, and two disabled commands.
    fn default() -> (r: Configuration)
        ensures
            r.wf(),
            r.authentication.discord_token is None,
            r.model.path@ == "models/7B/ggml-alpaca-q4_0.bin"@,
            r.model.context_token_length == 2048,
            r.model.architecture@ == label_of(Architecture::Llama),
            r.model.prefer_mmap,
            r.inference.thread_count == 8,
            r.inference.batch_size == 8,
            r.inference.discord_message_update_interval_ms == 250,
            r.inference.replace_newlines,
            r.inference.show_prompt_template,
            r.commands@.len() == 2,
            r.commands@[0].0@ == "hallucinate"@,
            !r.commands@[0].1.enabled,
            r.commands@[0].1.description@ == "Hallucinates some text."@,
            r.commands@[0].1.prompt@ == "{{PROMPT}}"@,
            r.commands@[1].0@ == "alpaca"@,
            !r.commands@[1].1.enabled,
            r.commands@[1].1.description@ == "Responds to the provided instruction."@,
            r.commands@[1].1.prompt@ == INSTRUCTION_PROMPT@,
    {
        let mut commands: Vec<(String, Command)> = Vec::new();
        commands.push(
            (
                String::from_str("hallucinate"),
                Command {
                    enabled: false,
                    description: String::from_str("Hallucinates some text."),
                    prompt: String::from_str("{{PROMPT}}"),
                },
            ),
        );
        commands.push(
            (
                String::from_str("alpaca"),
                Command {
                    enabled: false,
                    description: String::from_str("Responds to the provided instruction."),
                    prompt: String::from_str(INSTRUCTION_PROMPT),
                },
            ),
        );
        proof {
            reveal_strlit("hallucinate");
            reveal_strlit("alpaca");
            assert(commands@[0].0@.len() != commands@[1].0@.len());
        }
        Configuration {
            authentication: Authentication { discord_token: None },
            model: Model {
                path: String::from_str("models/7B/ggml-alpaca-q4_0.bin"),
                context_token_length: 2048,
                architecture: architecture_label(Architecture::Llama),
                prefer_mmap: true,
            },
            inference: Inference {
                thread_count: 8,
                batch_size: 8,
                discord_message_update_interval_ms: 250,
                replace_newlines: true,
                show_prompt_template: true,
            },
            commands,
        }
    }
}

} // verus!
