use vstd::prelude::*;

verus! {

/// A fault detected while checking a request, before any state is touched.
#[derive(Clone, Copy, PartialEq, Eq, Structural, Debug)]
pub enum ValidationFault {
    /// `create` named an id that is already registered.
    StateExists,
    /// `copy` named a destination id that is already registered.
    DestinationExists,
    /// `copy` named a source id that is not registered.
    SourceMissing,
    /// `delete` named an id that is not registered.
    StateMissing,
    /// A ticket or generation named a state id that is not registered.
    UnknownState,
    /// A generation named a transformer id that is not registered.
    UnknownTransformer,
    /// A generation named a sampler id that is not registered.
    UnknownSampler,
    /// A generation named a terminal id that is not registered.
    UnknownTerminal,
    /// A generation named a normalizer id that is not registered.
    UnknownNormalizer,
    /// The same transformer id appears twice in one pipeline.
    DuplicateTransformer,
    /// The per-state lists of a request do not have matching lengths.
    LengthMismatch,
    /// A per-state token list is empty.
    EmptyTokens,
    /// A reset specification's per-transformer flags do not match the
    /// pipeline's transformer shape.
    ShapeMismatch,
    /// A reset specification is neither a boolean nor an object.
    NotBoolOrObject,
    /// A token value does not fit the model's token width.
    TokenOutOfRange,
    /// A pipeline component was exhausted on the very first step.
    ExhaustedAtStart,
    /// The pool has no free slot left for a new admission.
    PoolFull,
    /// The command names no handler.
    UnknownCommand,
    /// A state was built for one model variant and offered to the other.
    MismatchedState,
}

impl ValidationFault {
    /// The text that the transport serializes into the `error` field.
    pub open spec fn message_spec(self) -> Seq<char> {
        match self {
            ValidationFault::StateExists => "State already exists!"@,
            ValidationFault::DestinationExists => "Destination state already exists!"@,
            ValidationFault::SourceMissing => "Source state id doesn't exist!"@,
            ValidationFault::StateMissing => "State ID does not exist!"@,
            ValidationFault::UnknownState => "One or more state ids not exist!"@,
            ValidationFault::UnknownTransformer => "One or more transformer ids not exist!"@,
            ValidationFault::UnknownSampler => "Sampler id does not exist!"@,
            ValidationFault::UnknownTerminal => "Terminal id does not exist!"@,
            ValidationFault::UnknownNormalizer => "Normalizer id does not exist!"@,
            ValidationFault::DuplicateTransformer => "All transformer ids must be unique!"@,
            ValidationFault::LengthMismatch => "State, token, transformer length must be matched!"@,
            ValidationFault::EmptyTokens => "Empty token list!"@,
            ValidationFault::ShapeMismatch => "The shape of transformers and ids must match!"@,
            ValidationFault::NotBoolOrObject => "Must be a bool or an object!"@,
            ValidationFault::TokenOutOfRange => "Token id is out of range!"@,
            ValidationFault::ExhaustedAtStart => "Sampler/transformer is exhausted at the start, inference won't continue."@,
            ValidationFault::PoolFull => "Batch admission exceeds the pool size!"@,
            ValidationFault::UnknownCommand => "Unknown command!"@,
            ValidationFault::MismatchedState => "Mismatched state type!"@,
        }
    }

    pub fn message(&self) -> (r: String)
        ensures
            r@ == self.message_spec(),
    {
        match self {
            ValidationFault::StateExists => "State already exists!".to_owned(),
            ValidationFault::DestinationExists => "Destination state already exists!".to_owned(),
            ValidationFault::SourceMissing => "Source state id doesn't exist!".to_owned(),
            ValidationFault::StateMissing => "State ID does not exist!".to_owned(),
            ValidationFault::UnknownState => "One or more state ids not exist!".to_owned(),
            ValidationFault::UnknownTransformer => "One or more transformer ids not exist!".to_owned(),
            ValidationFault::UnknownSampler => "Sampler id does not exist!".to_owned(),
            ValidationFault::UnknownTerminal => "Terminal id does not exist!".to_owned(),
            ValidationFault::UnknownNormalizer => "Normalizer id does not exist!".to_owned(),
            ValidationFault::DuplicateTransformer => "All transformer ids must be unique!".to_owned(),
            ValidationFault::LengthMismatch => "State, token, transformer length must be matched!".to_owned(),
            ValidationFault::EmptyTokens => "Empty token list!".to_owned(),
            ValidationFault::ShapeMismatch => "The shape of transformers and ids must match!".to_owned(),
            ValidationFault::NotBoolOrObject => "Must be a bool or an object!".to_owned(),
            ValidationFault::TokenOutOfRange => "Token id is out of range!".to_owned(),
            ValidationFault::ExhaustedAtStart => "Sampler/transformer is exhausted at the start, inference won't continue.".to_owned(),
            ValidationFault::PoolFull => "Batch admission exceeds the pool size!".to_owned(),
            ValidationFault::UnknownCommand => "Unknown command!".to_owned(),
            ValidationFault::MismatchedState => "Mismatched state type!".to_owned(),
        }
    }
}

} // verus!
