use vstd::prelude::*;

verus! {

/// Relies on serde_json::Value being an ordinary owned JSON tree. The core
/// never looks inside one: payloads are carried through untouched, and the
/// transport layer builds and reads them.
#[verifier::external_type_specification]
#[verifier::external_body]
pub struct ExValue(serde_json::Value);

/// The four component families whose lifecycle the wire can address. The
/// components themselves live in collaborator registries outside the core;
/// the dispatch table only names them.
#[derive(Clone, Copy, PartialEq, Eq, Structural, Debug)]
pub enum ComponentKind {
    Transformer,
    Sampler,
    Normalizer,
    Terminal,
}

/// What a component lifecycle command does to its registry.
#[derive(Clone, Copy, PartialEq, Eq, Structural, Debug)]
pub enum ComponentOp {
    Create,
    Copy,
    Update,
    Delete,
    Reset,
}

/// The commands of the API, as named on the wire: the state and generation
/// commands the core itself handles, and the component lifecycle commands
/// the transport routes to its collaborator registries.
#[derive(Clone, Copy, PartialEq, Eq, Structural, Debug)]
pub enum CommandKind {
    CreateState,
    CopyState,
    UpdateState,
    DeleteState,
    Infer,
    Component(ComponentOp, ComponentKind),
}

/// The dispatch table: which core command a wire name selects.
pub open spec fn command_kind_of(s: Seq<char>) -> Option<CommandKind> {
    if s == "create_state"@ {
        Some(CommandKind::CreateState)
    } else if s == "copy_state"@ {
        Some(CommandKind::CopyState)
    } else if s == "update_state"@ {
        Some(CommandKind::UpdateState)
    } else if s == "delete_state"@ {
        Some(CommandKind::DeleteState)
    } else if s == "infer"@ {
        Some(CommandKind::Infer)
    } else if s == "create_transformer"@ {
        Some(CommandKind::Component(ComponentOp::Create, ComponentKind::Transformer))
    } else if s == "create_sampler"@ {
        Some(CommandKind::Component(ComponentOp::Create, ComponentKind::Sampler))
    } else if s == "create_normalizer"@ {
        Some(CommandKind::Component(ComponentOp::Create, ComponentKind::Normalizer))
    } else if s == "create_terminal"@ {
        Some(CommandKind::Component(ComponentOp::Create, ComponentKind::Terminal))
    } else if s == "copy_transformer"@ {
        Some(CommandKind::Component(ComponentOp::Copy, ComponentKind::Transformer))
    } else if s == "copy_sampler"@ {
        Some(CommandKind::Component(ComponentOp::Copy, ComponentKind::Sampler))
    } else if s == "copy_normalizer"@ {
        Some(CommandKind::Component(ComponentOp::Copy, ComponentKind::Normalizer))
    } else if s == "copy_terminal"@ {
        Some(CommandKind::Component(ComponentOp::Copy, ComponentKind::Terminal))
    } else if s == "update_transformer"@ {
        Some(CommandKind::Component(ComponentOp::Update, ComponentKind::Transformer))
    } else if s == "update_sampler"@ {
        Some(CommandKind::Component(ComponentOp::Update, ComponentKind::Sampler))
    } else if s == "update_normalizer"@ {
        Some(CommandKind::Component(ComponentOp::Update, ComponentKind::Normalizer))
    } else if s == "update_terminal"@ {
        Some(CommandKind::Component(ComponentOp::Update, ComponentKind::Terminal))
    } else if s == "delete_transformer"@ {
        Some(CommandKind::Component(ComponentOp::Delete, ComponentKind::Transformer))
    } else if s == "delete_sampler"@ {
        Some(CommandKind::Component(ComponentOp::Delete, ComponentKind::Sampler))
    } else if s == "delete_normalizer"@ {
        Some(CommandKind::Component(ComponentOp::Delete, ComponentKind::Normalizer))
    } else if s == "delete_terminal"@ {
        Some(CommandKind::Component(ComponentOp::Delete, ComponentKind::Terminal))
    } else if s == "reset_transformer"@ {
        Some(CommandKind::Component(ComponentOp::Reset, ComponentKind::Transformer))
    } else if s == "reset_sampler"@ {
        Some(CommandKind::Component(ComponentOp::Reset, ComponentKind::Sampler))
    } else if s == "reset_normalizer"@ {
        Some(CommandKind::Component(ComponentOp::Reset, ComponentKind::Normalizer))
    } else if s == "reset_terminal"@ {
        Some(CommandKind::Component(ComponentOp::Reset, ComponentKind::Terminal))
    } else {
        None
    }
}

/// Resolves a wire command name to a core command.
pub fn parse_command(cmd: &String) -> (r: Option<CommandKind>)
    ensures
        r == command_kind_of(cmd@),
{
    if *cmd == "create_state".to_owned() {
        Some(CommandKind::CreateState)
    } else if *cmd == "copy_state".to_owned() {
        Some(CommandKind::CopyState)
    } else if *cmd == "update_state".to_owned() {
        Some(CommandKind::UpdateState)
    } else if *cmd == "delete_state".to_owned() {
        Some(CommandKind::DeleteState)
    } else if *cmd == "infer".to_owned() {
        Some(CommandKind::Infer)
    } else if *cmd == "create_transformer".to_owned() {
        Some(CommandKind::Component(ComponentOp::Create, ComponentKind::Transformer))
    } else if *cmd == "create_sampler".to_owned() {
        Some(CommandKind::Component(ComponentOp::Create, ComponentKind::Sampler))
    } else if *cmd == "create_normalizer".to_owned() {
        Some(CommandKind::Component(ComponentOp::Create, ComponentKind::Normalizer))
    } else if *cmd == "create_terminal".to_owned() {
        Some(CommandKind::Component(ComponentOp::Create, ComponentKind::Terminal))
    } else if *cmd == "copy_transformer".to_owned() {
        Some(CommandKind::Component(ComponentOp::Copy, ComponentKind::Transformer))
    } else if *cmd == "copy_sampler".to_owned() {
        Some(CommandKind::Component(ComponentOp::Copy, ComponentKind::Sampler))
    } else if *cmd == "copy_normalizer".to_owned() {
        Some(CommandKind::Component(ComponentOp::Copy, ComponentKind::Normalizer))
    } else if *cmd == "copy_terminal".to_owned() {
        Some(CommandKind::Component(ComponentOp::Copy, ComponentKind::Terminal))
    } else if *cmd == "update_transformer".to_owned() {
        Some(CommandKind::Component(ComponentOp::Update, ComponentKind::Transformer))
    } else if *cmd == "update_sampler".to_owned() {
        Some(CommandKind::Component(ComponentOp::Update, ComponentKind::Sampler))
    } else if *cmd == "update_normalizer".to_owned() {
        Some(CommandKind::Component(ComponentOp::Update, ComponentKind::Normalizer))
    } else if *cmd == "update_terminal".to_owned() {
        Some(CommandKind::Component(ComponentOp::Update, ComponentKind::Terminal))
    } else if *cmd == "delete_transformer".to_owned() {
        Some(CommandKind::Component(ComponentOp::Delete, ComponentKind::Transformer))
    } else if *cmd == "delete_sampler".to_owned() {
        Some(CommandKind::Component(ComponentOp::Delete, ComponentKind::Sampler))
    } else if *cmd == "delete_normalizer".to_owned() {
        Some(CommandKind::Component(ComponentOp::Delete, ComponentKind::Normalizer))
    } else if *cmd == "delete_terminal".to_owned() {
        Some(CommandKind::Component(ComponentOp::Delete, ComponentKind::Terminal))
    } else if *cmd == "reset_transformer".to_owned() {
        Some(CommandKind::Component(ComponentOp::Reset, ComponentKind::Transformer))
    } else if *cmd == "reset_sampler".to_owned() {
        Some(CommandKind::Component(ComponentOp::Reset, ComponentKind::Sampler))
    } else if *cmd == "reset_normalizer".to_owned() {
        Some(CommandKind::Component(ComponentOp::Reset, ComponentKind::Normalizer))
    } else if *cmd == "reset_terminal".to_owned() {
        Some(CommandKind::Component(ComponentOp::Reset, ComponentKind::Terminal))
    } else {
        None
    }
}

/// The error envelope of a response. `echo_id` is absent exactly when the
/// inbound payload was too malformed to carry one.
#[derive(Debug)]
pub struct CommandError {
    pub echo_id: Option<String>,
    pub status: String,
    pub error: String,
}

impl CommandError {
    /// An error reply to a well-formed command.
    pub fn new(id: String, error: String) -> (r: Self)
        ensures
            r.echo_id is Some,
            r.echo_id->0@ == id@,
            r.status@ == "error"@,
            r.error@ == error@,
    {
        CommandError { echo_id: Some(id), status: "error".to_owned(), error }
    }

    /// An error reply to a payload that could not be decoded at all: the
    /// `echo_id` field stays absent.
    pub fn new_raw(error: String) -> (r: Self)
        ensures
            r.echo_id is None,
            r.status@ == "error"@,
            r.error@ == error@,
    {
        CommandError { echo_id: None, status: "error".to_owned(), error }
    }
}

/// The reply to a frame that did not decode into a command at all: no
/// `echo_id` to echo, the error status, and the fixed malformed-payload
/// text.
pub fn malformed_payload_error() -> (r: CommandError)
    ensures
        r.echo_id is None,
        r.status@ == "error"@,
        r.error@ == "Malformed JSON payload. A payload must include echo_id, command and data!"@,
{
    CommandError::new_raw(
        "Malformed JSON payload. A payload must include echo_id, command and data!".to_owned(),
    )
}

/// The success envelope of a response. The result payload is an opaque JSON
/// value produced by the command's handler.
#[derive(Debug)]
pub struct CommandSuccess {
    pub echo_id: String,
    pub status: String,
    pub result: serde_json::Value,
}

impl CommandSuccess {
    pub fn new(id: String, result: serde_json::Value) -> (r: Self)
        ensures
            r.echo_id@ == id@,
            r.status@ == "success"@,
            r.result == result,
    {
        CommandSuccess { echo_id: id, status: "success".to_owned(), result }
    }
}

} // verus!
