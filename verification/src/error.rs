//! Recoverable application errors.

use vstd::prelude::*;
use crate::text::push_chars;
use crate::text::chars_of;

verus! {

/// Recoverable AstroFetch errors.
#[derive(Debug)]
pub enum AppError {
    /// Failed to collect system information.
    System(String),
    /// Failed to generate the art.
    Render(String),
    /// CLI error (invalid arguments, etc.).
    Cli(String),
    /// IO error.
    Io(String),
    /// The `--animate` intro was interrupted by Ctrl+C; the process exits
    /// with code 130 without printing a message.
    Interrupted,
    /// The `--animate` intro failed.
    Animation(String),
}

/// The user-facing text of an error.
pub open spec fn error_message(e: AppError) -> Seq<char> {
    match e {
        AppError::System(m) => "failed to collect system information: "@ + m@,
        AppError::Render(m) => "failed to render art: "@ + m@,
        AppError::Cli(m) => "CLI error: "@ + m@,
        AppError::Io(m) => "IO error: "@ + m@,
        AppError::Interrupted => "interrupted (Ctrl+C)"@,
        AppError::Animation(m) => "animation failed: "@ + m@,
    }
}

impl AppError {
    /// The user-facing text of this error (what `Display` prints).
    pub fn message(&self) -> (s: String)
        ensures
            s@ == error_message(*self),
    {
        let (prefix, detail): (&str, Option<&String>) = match self {
            AppError::System(m) => ("failed to collect system information: ", Some(m)),
            AppError::Render(m) => ("failed to render art: ", Some(m)),
            AppError::Cli(m) => ("CLI error: ", Some(m)),
            AppError::Io(m) => ("IO error: ", Some(m)),
            AppError::Interrupted => ("interrupted (Ctrl+C)", None),
            AppError::Animation(m) => ("animation failed: ", Some(m)),
        };
        let mut s = String::new();
        let p = chars_of(prefix);
        push_chars(&mut s, &p);
        match detail {
            Some(m) => {
                let d = chars_of(m.as_str());
                push_chars(&mut s, &d);
            },
            None => {},
        }
        assert(s@ =~= error_message(*self));
        s
    }
}

} // verus!
