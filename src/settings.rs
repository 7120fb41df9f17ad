//! The settings kept in the durable store: their keys, their defaults, and
//! what the commands make of a value that is or is not there.

use vstd::prelude::*;
use crate::sampling::InferenceParameters;

verus! {

/// The model loaded last, as the store keeps it.
pub struct CurrentLanguageModel {
    pub name: String,
    pub filename: String,
    pub arquitecture: String,
    pub path: String,
}

/// A setting of the generation step.
#[derive(PartialEq, Eq, Structural, Clone, Copy, Debug)]
pub enum SettingKey {
    PromptTemplate,
    Temperature,
    TopP,
    TopK,
    RepetitionPenalty,
}

/// The key under which the store keeps the active model.
pub const ACTIVE_MODEL_KEY: &'static str = "current_language_model";

/// The key under which the store keeps the models directory.
pub const MODELS_FOLDER_KEY: &'static str = "models_folder";

/// The key under which the store records that it was set up.
pub const FIRST_TIME_KEY: &'static str = "first_time";

/// The store key of a setting.
pub open spec fn key_of(key: SettingKey) -> Seq<char> {
    match key {
        SettingKey::PromptTemplate => "prompt_template"@,
        SettingKey::Temperature => "temperature"@,
        SettingKey::TopP => "top_p"@,
        SettingKey::TopK => "top_k"@,
        SettingKey::RepetitionPenalty => "repetition_penalty"@,
    }
}

/// The value that a setting has while the store holds none.
pub open spec fn default_of(key: SettingKey) -> Seq<char> {
    match key {
        SettingKey::PromptTemplate => "[[message]]"@,
        SettingKey::Temperature => "0.8"@,
        SettingKey::TopP => "0.95"@,
        SettingKey::TopK => "40"@,
        SettingKey::RepetitionPenalty => "1.3"@,
    }
}

impl SettingKey {
    /// The store key of the setting.
    pub fn store_key(self) -> (r: &'static str)
        ensures
            r@ == key_of(self),
    {
        match self {
            SettingKey::PromptTemplate => "prompt_template",
            SettingKey::Temperature => "temperature",
            SettingKey::TopP => "top_p",
            SettingKey::TopK => "top_k",
            SettingKey::RepetitionPenalty => "repetition_penalty",
        }
    }

    /// The value that the setting has while the store holds none.
    pub fn default_value(self) -> (r: String)
        ensures
            r@ == default_of(self),
    {
        match self {
            SettingKey::PromptTemplate => String::from_str("[[message]]"),
            SettingKey::Temperature => String::from_str("0.8"),
            SettingKey::TopP => String::from_str("0.95"),
            SettingKey::TopK => String::from_str("40"),
            SettingKey::RepetitionPenalty => String::from_str("1.3"),
        }
    }

    /// The setting's value: the stored one, or the default when none is
    /// stored.
    pub fn resolve(self, stored: Option<String>) -> (r: String)
        ensures
            r@ == match stored {
                Some(v) => v@,
                None => default_of(self),
            },
    {
        match stored {
            Some(v) => v,
            None => self.default_value(),
        }
    }
}

/// The stored sampling parameters, each stored value or its default.
pub fn stored_parameters(
    prompt_template: Option<String>,
    temperature: Option<String>,
    top_p: Option<String>,
    top_k: Option<String>,
    repetition_penalty: Option<String>,
) -> (r: InferenceParameters)
    ensures
        r.prompt_template@ == match prompt_template {
            Some(v) => v@,
            None => default_of(SettingKey::PromptTemplate),
        },
        r.temperature@ == match temperature {
            Some(v) => v@,
            None => default_of(SettingKey::Temperature),
        },
        r.top_p@ == match top_p {
            Some(v) => v@,
            None => default_of(SettingKey::TopP),
        },
        r.top_k@ == match top_k {
            Some(v) => v@,
            None => default_of(SettingKey::TopK),
        },
        r.repetition_penalty@ == match repetition_penalty {
            Some(v) => v@,
            None => default_of(SettingKey::RepetitionPenalty),
        },
{
    InferenceParameters {
        prompt_template: SettingKey::PromptTemplate.resolve(prompt_template),
        temperature: SettingKey::Temperature.resolve(temperature),
        top_p: SettingKey::TopP.resolve(top_p),
        top_k: SettingKey::TopK.resolve(top_k),
        repetition_penalty: SettingKey::RepetitionPenalty.resolve(repetition_penalty),
    }
}

/// The file name of the active model, or the empty text when there is none.
pub fn get_current_model_filename(active: Option<CurrentLanguageModel>) -> (r: String)
    ensures
        r@ == match active {
            Some(m) => m.filename@,
            None => Seq::<char>::empty(),
        },
{
    match active {
        Some(m) => m.filename,
        None => String::new(),
    }
}

/// The answer to a request for the models directory.
pub fn models_folder_answer(folder: Option<String>) -> (r: Result<String, String>)
    ensures
        folder matches Some(f) ==> r == Ok::<String, String>(f),
        folder is None ==> (r matches Err(m) && m@ == "No models folder found"@),
{
    match folder {
        Some(f) => Ok(f),
        None => Err(String::from_str("No models folder found")),
    }
}

/// The answer to a directory choice: the chosen path, or an error when the
/// user chose none.
pub fn chosen_directory_answer(chosen: Option<String>) -> (r: Result<String, String>)
    ensures
        chosen matches Some(f) ==> r == Ok::<String, String>(f),
        chosen is None ==> (r matches Err(m) && m@ == "No path selected"@),
{
    match chosen {
        Some(f) => Ok(f),
        None => Err(String::from_str("No path selected")),
    }
}

} // verus!
