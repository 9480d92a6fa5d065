use vstd::prelude::*;
use vstd::string::StringExecFns;

verus! {

/// What a script engine reported for one evaluation or call: a value or a
/// thrown exception, each with its string form when the engine could give
/// one.
pub enum EngineOutcome {
    Returned(Option<String>),
    Threw(Option<String>),
}

/// Why a bridge operation failed.
pub enum BridgeError {
    /// No callable global binding has this name.
    FunctionNotFound(String),
    /// The called function threw; the text is the exception's string form.
    CallFailed(String),
    /// Loading a script threw; the text is the exception's string form.
    ScriptFailed(String),
}

/// The text that stands for an exception with no string form.
pub open spec fn unknown_error_text() -> Seq<char> {
    seq!['U', 'n', 'k', 'n', 'o', 'w', 'n', ' ', 'e', 'r', 'r', 'o', 'r']
}

/// The text reported for an exception whose string form is `text`, if any.
pub open spec fn exception_text(text: Option<String>) -> Seq<char> {
    match text {
        Some(s) => s@,
        None => unknown_error_text(),
    }
}

/// The message of a failure, as it crosses the flat boundary.
pub open spec fn message_of(e: BridgeError) -> Seq<char> {
    match e {
        BridgeError::FunctionNotFound(name) => "Function "@ + name@ + " not found"@,
        BridgeError::CallFailed(text) => "Function call error: "@ + text@,
        BridgeError::ScriptFailed(text) => "Script error: "@ + text@,
    }
}

impl BridgeError {
    /// The message of the failure, as it crosses the flat boundary.
    pub fn message(&self) -> (r: String)
        ensures
            r@ == message_of(*self),
    {
        match self {
            BridgeError::FunctionNotFound(name) => {
                let mut s = String::from_str("Function ");
                s.append(name.as_str());
                s.append(" not found");
                s
            },
            BridgeError::CallFailed(text) => String::from_str("Function call error: ").concat(
                text.as_str(),
            ),
            BridgeError::ScriptFailed(text) => String::from_str("Script error: ").concat(
                text.as_str(),
            ),
        }
    }
}

/// The text for an exception, falling back on a fixed one when the engine
/// could not give its string form.
pub fn exception_message(text: Option<String>) -> (r: String)
    ensures
        r@ == exception_text(text),
{
    match text {
        Some(s) => s,
        None => {
            let r = String::from_str("Unknown error");
            proof {
                reveal_strlit("Unknown error");
            }
            r
        },
    }
}

/// The result of loading a script, given what evaluating it produced: it
/// fails exactly when the evaluation threw.
pub fn load_result(outcome: EngineOutcome) -> (r: Result<(), BridgeError>)
    ensures
        outcome is Returned ==> r is Ok,
        outcome matches EngineOutcome::Threw(text) ==> (r matches Err(BridgeError::ScriptFailed(m))
            && m@ == exception_text(text)),
{
    match outcome {
        EngineOutcome::Returned(_) => Ok(()),
        EngineOutcome::Threw(text) => Err(BridgeError::ScriptFailed(exception_message(text))),
    }
}

/// The result of calling the global function `name` with one string
/// argument. `outcome` is `None` when no callable binding of that name was
/// found, and otherwise what the call produced. A missing or non-callable
/// binding fails as not found; a call that threw fails with the exception's
/// text; otherwise the result is the value's string form, empty when it has
/// none.
pub fn call_result(name: &str, outcome: Option<EngineOutcome>) -> (r: Result<String, BridgeError>)
    ensures
        outcome is None ==> (r matches Err(BridgeError::FunctionNotFound(n)) && n@ == name@),
        outcome matches Some(EngineOutcome::Returned(Some(v))) ==> (r matches Ok(s) && s@ == v@),
        outcome matches Some(EngineOutcome::Returned(None)) ==> (r matches Ok(s) && s@.len() == 0),
        outcome matches Some(EngineOutcome::Threw(text)) ==> (r matches Err(
            BridgeError::CallFailed(m),
        ) && m@ == exception_text(text)),
{
    match outcome {
        None => Err(BridgeError::FunctionNotFound(name.to_owned())),
        Some(EngineOutcome::Returned(Some(v))) => Ok(v),
        Some(EngineOutcome::Returned(None)) => Ok(String::new()),
        Some(EngineOutcome::Threw(text)) => Err(BridgeError::CallFailed(exception_message(text))),
    }
}

/// How the result of an operation crosses the flat boundary: a status, the
/// text for the result out-parameter, and the text for the error
/// out-parameter. Exactly one of the two texts is present, so the error
/// out-parameter is left untouched on success and the result one on failure.
pub struct Delivery {
    pub ok: bool,
    pub result: Option<String>,
    pub error: Option<String>,
}

/// Splits a result into what the flat boundary writes: on success the value
/// goes to the result out-parameter; on failure the failure's message goes
/// to the error out-parameter.
pub fn deliver(r: Result<String, BridgeError>) -> (d: Delivery)
    ensures
        d.ok == r is Ok,
        match r {
            Ok(s) => (d.result matches Some(t) && t@ == s@) && d.error is None,
            Err(e) => d.result is None && (d.error matches Some(t) && t@ == message_of(e)),
        },
{
    match r {
        Ok(s) => Delivery { ok: true, result: Some(s), error: None },
        Err(e) => Delivery { ok: false, result: None, error: Some(e.message()) },
    }
}

} // verus!
