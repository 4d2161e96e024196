//! The client of a session that runs in the background.
use crate::text;
use vstd::prelude::*;

verus! {

/// What is said where there is no such session.
pub fn no_daemon(session_id: &str, socket_path: &str) -> (r: String)
    ensures
        r@ == "No active daemon found for session `"@ + session_id@ + "` at "@ + socket_path@,
{
    text::concat4("No active daemon found for session `", session_id, "` at ", socket_path)
}

/// The first line that is sent.
pub fn token_line(token: &str) -> (r: String)
    ensures
        r@ == text::spec_trim(token@) + "\n"@,
{
    text::concat(&text::trim(token), "\n")
}

/// What the answer to the token means: what is printed, or why it failed.
pub open spec fn greeting_of(session_id: Seq<char>, response: Seq<char>) -> Result<
    Seq<char>,
    Seq<char>,
> {
    if text::begins(response, "OK:"@) {
        Ok("Connected to daemon `"@ + session_id + "`."@)
    } else {
        Err("Authentication failed: "@ + text::spec_trim(response))
    }
}

/// What the answer to the token means.
pub fn greeting(session_id: &str, response: &str) -> (r: Result<String, String>)
    ensures
        crate::flow::executor::result_view(r) == greeting_of(session_id@, response@),
{
    if text::starts_with(response, "OK:") {
        Ok(text::concat3("Connected to daemon `", session_id, "`."))
    } else {
        Err(text::concat("Authentication failed: ", &text::trim(response)))
    }
}

/// The text before the cursor.
pub fn attach_prompt(session_id: &str) -> (r: String)
    ensures
        r@ == "attach ("@ + session_id@ + ") > "@,
{
    text::concat3("attach (", session_id, ") > ")
}

/// What an input leads to.
#[allow(inconsistent_fields)]
pub enum AttachStep {
    /// The next line is read.
    Again,
    /// This is sent, and the line that comes back is printed.
    Send(String),
    /// The first is sent, the second is printed, and the connection ends.
    Detach { send: String, said: String },
}

/// What an `AttachStep` stands for.
#[allow(inconsistent_fields)]
pub ghost enum AttachView {
    Again,
    Send(Seq<char>),
    Detach { send: Seq<char>, said: Seq<char> },
}

impl DeepView for AttachStep {
    type V = AttachView;

    open spec fn deep_view(&self) -> AttachView {
        match self {
            AttachStep::Again => AttachView::Again,
            AttachStep::Send(s) => AttachView::Send(s@),
            AttachStep::Detach { send, said } => AttachView::Detach { send: send@, said: said@ },
        }
    }
}

/// What a line of the user, or the end of the input, leads to.
pub open spec fn attach_step(session_id: Seq<char>, line: Option<Seq<char>>) -> AttachView {
    match line {
        None => AttachView::Detach { send: "QUIT\n"@, said: "Detached."@ },
        Some(line) => {
            let trimmed = text::spec_trim(line);
            if trimmed.len() == 0 {
                AttachView::Again
            } else if trimmed == "/detach"@ || trimmed == "/exit"@ {
                AttachView::Detach {
                    send: "QUIT\n"@,
                    said: "Detached from daemon `"@ + session_id + "`."@,
                }
            } else {
                AttachView::Send(trimmed + "\n"@)
            }
        },
    }
}

/// What a line of the user, or the end of the input, leads to.
pub fn run_attach(session_id: &str, line: Option<&str>) -> (r: AttachStep)
    ensures
        r.deep_view() == attach_step(session_id@, line.deep_view()),
{
    match line {
        None => AttachStep::Detach { send: "QUIT\n".to_owned(), said: "Detached.".to_owned() },
        Some(line) => {
            let trimmed = text::trim(line);
            if text::count(&trimmed) == 0 {
                AttachStep::Again
            } else if text::same(&trimmed, "/detach") || text::same(&trimmed, "/exit") {
                AttachStep::Detach {
                    send: "QUIT\n".to_owned(),
                    said: text::concat3("Detached from daemon `", session_id, "`."),
                }
            } else {
                AttachStep::Send(text::concat(&trimmed, "\n"))
            }
        },
    }
}

} // verus!
