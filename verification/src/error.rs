//! The library's error type.
use vstd::prelude::*;

verus! {

/// Everything that can go wrong while handling a hook event. Each variant
/// carries a human-readable message.
#[derive(Debug)]
pub enum NotifyError {
    Config(String),
    TranscriptParse(String),
    HookInput(String),
    Platform(String),
    Webhook(String),
    Io(String),
    Json(String),
    Yaml(String),
}

impl NotifyError {
    /// The text that describes the error, prefixed with its kind
    /// (for instance `config error: ...`).
    pub fn message(&self) -> (r: String)
        ensures
            r@ == error_message(*self),
    {
        let (prefix, m) = match self {
            NotifyError::Config(m) => ("config error: ", m),
            NotifyError::TranscriptParse(m) => ("transcript parse error: ", m),
            NotifyError::HookInput(m) => ("hook input error: ", m),
            NotifyError::Platform(m) => ("platform error: ", m),
            NotifyError::Webhook(m) => ("webhook error: ", m),
            NotifyError::Io(m) => ("io error: ", m),
            NotifyError::Json(m) => ("json error: ", m),
            NotifyError::Yaml(m) => ("yaml error: ", m),
        };
        let mut v = crate::text::chars_of(prefix);
        crate::text::push_str(&mut v, m.as_str());
        crate::text::string_of(&v)
    }
}

/// The text that describes an error.
pub open spec fn error_message(e: NotifyError) -> Seq<char> {
    match e {
        NotifyError::Config(m) => "config error: "@ + m@,
        NotifyError::TranscriptParse(m) => "transcript parse error: "@ + m@,
        NotifyError::HookInput(m) => "hook input error: "@ + m@,
        NotifyError::Platform(m) => "platform error: "@ + m@,
        NotifyError::Webhook(m) => "webhook error: "@ + m@,
        NotifyError::Io(m) => "io error: "@ + m@,
        NotifyError::Json(m) => "json error: "@ + m@,
        NotifyError::Yaml(m) => "yaml error: "@ + m@,
    }
}

} // verus!
