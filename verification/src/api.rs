use vstd::prelude::*;
use vstd::string::*;

verus! {

/// Query parameters of the status endpoint.
#[derive(Clone, Copy, Debug, PartialEq, Eq, Structural)]
pub struct StatusParams {
    /// Whether to list every server's health; off when not given.
    pub verbose: bool,
}

impl StatusParams {
    /// The parameters when the query names none: not verbose.
    pub fn new() -> (p: StatusParams)
        ensures
            !p.verbose,
    {
        StatusParams { verbose: false }
    }
}

/// How an attempt to replace the configuration went.
#[derive(Clone, Debug)]
pub enum ConfigUpdateOutcome {
    /// The new configuration could not be serialized; the error's text.
    SerializeFailed(String),
    /// The configuration file could not be written; the error's text.
    WriteFailed(String),
    /// The file was written, and the configuration and monitors replaced.
    Applied,
}

/// Whether a reply reports an error or a success.
#[derive(Clone, Copy, Debug, PartialEq, Eq, Structural)]
pub enum ReplyStatus {
    Error,
    Success,
}

/// The word under which a reply status is reported.
pub open spec fn reply_status_name(s: ReplyStatus) -> Seq<char> {
    match s {
        ReplyStatus::Error => "error"@,
        ReplyStatus::Success => "success"@,
    }
}

impl ReplyStatus {
    /// The word under which this status is reported.
    pub fn as_str(&self) -> (name: &'static str)
        ensures
            name@ == reply_status_name(*self),
    {
        match self {
            ReplyStatus::Error => "error",
            ReplyStatus::Success => "success",
        }
    }
}

/// An HTTP reply with a status word and a message.
#[derive(Clone, Debug)]
pub struct ApiReply {
    pub status_code: u16,
    pub status: ReplyStatus,
    pub message: String,
}

/// Mathematical model of an [`ApiReply`].
pub struct ApiReplyView {
    pub status_code: u16,
    pub status: ReplyStatus,
    pub message: Seq<char>,
}

impl View for ApiReply {
    type V = ApiReplyView;

    open spec fn view(&self) -> ApiReplyView {
        ApiReplyView { status_code: self.status_code, status: self.status, message: self.message@ }
    }
}

/// The message of a successful configuration update.
pub open spec fn config_applied_message() -> Seq<char> {
    "Configuration updated and monitors reloaded. Note: Any changes to bind_address will take effect only after app restart."@
}

/// The reply to a configuration update: 400 when serializing failed, 500
/// when writing the file failed, 200 when the configuration was applied.
pub open spec fn config_update_reply_spec(outcome: ConfigUpdateOutcome) -> ApiReplyView {
    match outcome {
        ConfigUpdateOutcome::SerializeFailed(e) => ApiReplyView {
            status_code: 400,
            status: ReplyStatus::Error,
            message: "Failed to serialize config: "@ + e@,
        },
        ConfigUpdateOutcome::WriteFailed(e) => ApiReplyView {
            status_code: 500,
            status: ReplyStatus::Error,
            message: "Failed to write configuration file to disk: "@ + e@,
        },
        ConfigUpdateOutcome::Applied => ApiReplyView {
            status_code: 200,
            status: ReplyStatus::Success,
            message: config_applied_message(),
        },
    }
}

/// The reply to a configuration update with this outcome.
pub fn config_update_reply(outcome: &ConfigUpdateOutcome) -> (r: ApiReply)
    ensures
        r@ == config_update_reply_spec(*outcome),
        r.status_code == 200 <==> outcome is Applied,
{
    match outcome {
        ConfigUpdateOutcome::SerializeFailed(e) => ApiReply {
            status_code: 400,
            status: ReplyStatus::Error,
            message: String::from_str("Failed to serialize config: ").concat(e.as_str()),
        },
        ConfigUpdateOutcome::WriteFailed(e) => ApiReply {
            status_code: 500,
            status: ReplyStatus::Error,
            message: String::from_str("Failed to write configuration file to disk: ").concat(
                e.as_str(),
            ),
        },
        ConfigUpdateOutcome::Applied => ApiReply {
            status_code: 200,
            status: ReplyStatus::Success,
            message: String::from_str(
                "Configuration updated and monitors reloaded. Note: Any changes to bind_address will take effect only after app restart.",
            ),
        },
    }
}

} // verus!
