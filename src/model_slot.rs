//! The single loaded model: which architectures can be loaded, and the slot
//! that owns the model once it is.

use vstd::prelude::*;

verus! {

/// The model architectures that the loader knows.
#[derive(PartialEq, Eq, Structural, Clone, Copy, Debug)]
pub enum Architecture {
    Bloom,
    Gpt2,
    GptJ,
    Llama,
    NeoX,
}

/// The architecture that a declared name denotes for the loader, if any.
pub uninterp spec fn architecture_named(s: Seq<char>) -> Option<Architecture>;

/// Relies on `llm::ModelArchitecture`'s `FromStr`: whether a name denotes an
/// architecture, and which, depends on the name alone.
#[verifier::external_body]
fn parse_architecture(s: &str) -> (r: Option<Architecture>)
    ensures
        r == architecture_named(s@),
{
    match s.parse::<llm::ModelArchitecture>() {
        Ok(llm::ModelArchitecture::Bloom) => Some(Architecture::Bloom),
        Ok(llm::ModelArchitecture::Gpt2) => Some(Architecture::Gpt2),
        Ok(llm::ModelArchitecture::GptJ) => Some(Architecture::GptJ),
        Ok(llm::ModelArchitecture::Llama) => Some(Architecture::Llama),
        Ok(llm::ModelArchitecture::NeoX) => Some(Architecture::NeoX),
        Err(_) => None,
    }
}

/// The display name of an architecture.
pub open spec fn label_of(a: Architecture) -> Seq<char> {
    match a {
        Architecture::Bloom => "BLOOM"@,
        Architecture::Gpt2 => "GPT-2"@,
        Architecture::GptJ => "GPT-J"@,
        Architecture::Llama => "LLaMA"@,
        Architecture::NeoX => "GPT-NeoX"@,
    }
}

/// Relies on `llm::ModelArchitecture`'s `Display`, which writes one fixed
/// name for each architecture.
#[verifier::external_body]
pub(crate) fn architecture_label(a: Architecture) -> (r: String)
    ensures
        r@ == label_of(a),
{
    let arch = match a {
        Architecture::Bloom => llm::ModelArchitecture::Bloom,
        Architecture::Gpt2 => llm::ModelArchitecture::Gpt2,
        Architecture::GptJ => llm::ModelArchitecture::GptJ,
        Architecture::Llama => llm::ModelArchitecture::Llama,
        Architecture::NeoX => llm::ModelArchitecture::NeoX,
    };
    arch.to_string()
}

/// Reads a declared architecture name.
pub fn read_architecture(s: &str) -> (r: Option<Architecture>)
    ensures
        r == architecture_named(s@),
{
    parse_architecture(s)
}

/// Why a model could not be loaded.
pub enum LoadFailure {
    /// The declared architecture is none that the loader knows.
    UnsupportedArchitecture(String),
    /// The file is not a model of that architecture.
    CorruptFile(String),
    /// The file could not be read.
    Io(String),
}

/// Checks a declared architecture before anything is loaded.
pub fn check_architecture(declared: &str) -> (r: Result<Architecture, LoadFailure>)
    ensures
        architecture_named(declared@) matches Some(a) ==> r == Ok::<Architecture, LoadFailure>(a),
        architecture_named(declared@) is None ==> (r matches Err(
            LoadFailure::UnsupportedArchitecture(n),
        ) && n@ == declared@),
{
    match read_architecture(declared) {
        Some(a) => Ok(a),
        None => Err(LoadFailure::UnsupportedArchitecture(String::from_str(declared))),
    }
}

impl LoadFailure {
    /// The message that the caller shows.
    pub fn message(&self) -> (r: String)
        ensures
            r@ == match self {
                LoadFailure::UnsupportedArchitecture(n) => n@ + " is not a supported model architecture"@,
                LoadFailure::CorruptFile(m) => m@,
                LoadFailure::Io(m) => m@,
            },
    {
        match self {
            LoadFailure::UnsupportedArchitecture(n) => {
                let mut s = n.clone();
                s.append(" is not a supported model architecture");
                s
            },
            LoadFailure::CorruptFile(m) => m.clone(),
            LoadFailure::Io(m) => m.clone(),
        }
    }
}

/// The holder of at most one loaded model; all use of the model goes
/// through it.
pub struct ModelSlot<M> {
    model: Option<M>,
}

impl<M> ModelSlot<M> {
    /// The model held, if any.
    pub closed spec fn held(&self) -> Option<M> {
        self.model
    }

    /// A slot holding `initial`.
    pub fn new(initial: Option<M>) -> (r: ModelSlot<M>)
        ensures
            r.held() == initial,
    {
        ModelSlot { model: initial }
    }

    /// Puts `model` in the slot in one step and hands back the one it held,
    /// for the caller to drop. The slot is never seen empty in between.
    pub fn replace(&mut self, model: M) -> (r: Option<M>)
        ensures
            final(self).held() == Some(model),
            r == old(self).held(),
    {
        let previous = self.model.take();
        self.model = Some(model);
        previous
    }

    /// Takes the outcome of a load: a loaded model replaces the held one; a
    /// failure leaves the slot as it was and is handed back.
    pub fn install(&mut self, loaded: Result<M, LoadFailure>) -> (r: Result<(), LoadFailure>)
        ensures
            loaded is Ok ==> r is Ok && final(self).held() == Some(loaded->Ok_0),
            loaded is Err ==> r is Err && final(self).held() == old(self).held(),
            loaded matches Err(e) ==> r == Err::<(), LoadFailure>(e),
    {
        match loaded {
            Ok(m) => {
                self.model = Some(m);
                Ok(())
            },
            Err(e) => Err(e),
        }
    }

    /// The held model, for use while the caller holds the slot.
    pub fn current(&self) -> (r: Option<&M>)
        ensures
            r == match self.held() {
                Some(m) => Some(&m),
                None => None::<&M>,
            },
    {
        match &self.model {
            Some(m) => Some(m),
            None => None,
        }
    }

    /// Tells whether a model is held.
    pub fn is_loaded(&self) -> (r: bool)
        ensures
            r == self.held() is Some,
    {
        self.model.is_some()
    }
}

} // verus!
