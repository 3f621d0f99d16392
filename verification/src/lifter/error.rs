use vstd::prelude::*;
use vstd::string::to_string_from_display_ensures;

verus! {

/// Why a lifter could not be generated: the translator failed, for the
/// reason given.
#[derive(Debug, Clone, PartialEq, Eq)]
pub enum LifterGeneratorError {
    Translator(String),
}

impl LifterGeneratorError {
    /// The error for a failure `e` of the translator.
    pub fn translator<E: std::fmt::Debug + std::fmt::Display>(e: E) -> (r: Self)
        ensures
            r is Translator && to_string_from_display_ensures::<E>(&e, r->Translator_0),
    {
        LifterGeneratorError::Translator(e.to_string())
    }

    /// The error for a failure of the translator described by `m`.
    pub fn translator_with<M: std::fmt::Debug + std::fmt::Display>(m: M) -> (r: Self)
        ensures
            r is Translator && to_string_from_display_ensures::<M>(&m, r->Translator_0),
    {
        LifterGeneratorError::Translator(m.to_string())
    }
}

} // verus!
