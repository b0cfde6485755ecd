//! What is said when the bridge process cannot be used.

use vstd::prelude::*;

verus! {

/// What went wrong with the bridge while an answer was awaited. The texts are
/// those of the operating system.
pub enum AnswerFault {
    /// It could not be started: its path, and why.
    Start(String, String),
    /// It has no input.
    NoInput,
    /// The request could not be sent.
    Send(String),
    /// It has no output.
    NoOutput,
    /// Its output could not be read.
    Read(String),
    /// Its end could not be awaited.
    Wait(String),
}

/// What an [`AnswerFault`] is called.
pub open spec fn answer_fault_text(fault: AnswerFault) -> Seq<char> {
    match fault {
        AnswerFault::Start(bridge, err) => "failed to start Python bridge '"@ + bridge@ + "': "@
            + err@,
        AnswerFault::NoInput => "failed to open Python stdin"@,
        AnswerFault::Send(err) => "failed to send prompt to Python bridge: "@ + err@,
        AnswerFault::NoOutput => "failed to read Python stdout"@,
        AnswerFault::Read(err) => "failed while reading stream: "@ + err@,
        AnswerFault::Wait(err) => "failed to wait for Python bridge: "@ + err@,
    }
}

/// What went wrong with the bridge while the models were fetched. The texts
/// are those of the operating system.
pub enum FetchFault {
    /// It could not be started.
    Start(String),
    /// Its output could not be read.
    Read(String),
}

/// What a [`FetchFault`] is called.
pub open spec fn fetch_fault_text(fault: FetchFault) -> Seq<char> {
    match fault {
        FetchFault::Start(err) => "failed to start bridge: "@ + err@,
        FetchFault::Read(err) => "read error: "@ + err@,
    }
}

/// A text and the reason behind it.
fn with_reason(text: &str, err: &str) -> (r: String)
    ensures
        r@ == text@ + err@,
{
    let mut r = text.to_owned();
    r.append(err);
    r
}

impl AnswerFault {
    /// What the fault is called.
    pub fn message(&self) -> (r: String)
        ensures
            r@ == answer_fault_text(*self),
    {
        match self {
            AnswerFault::Start(bridge, err) => {
                let mut r = "failed to start Python bridge '".to_owned();
                r.append(bridge.as_str());
                r.append("': ");
                r.append(err.as_str());
                r
            },
            AnswerFault::NoInput => "failed to open Python stdin".to_owned(),
            AnswerFault::Send(err) => with_reason(
                "failed to send prompt to Python bridge: ",
                err.as_str(),
            ),
            AnswerFault::NoOutput => "failed to read Python stdout".to_owned(),
            AnswerFault::Read(err) => with_reason("failed while reading stream: ", err.as_str()),
            AnswerFault::Wait(err) => with_reason(
                "failed to wait for Python bridge: ",
                err.as_str(),
            ),
        }
    }
}

impl FetchFault {
    /// What the fault is called.
    pub fn message(&self) -> (r: String)
        ensures
            r@ == fetch_fault_text(*self),
    {
        match self {
            FetchFault::Start(err) => with_reason("failed to start bridge: ", err.as_str()),
            FetchFault::Read(err) => with_reason("read error: ", err.as_str()),
        }
    }
}

} // verus!
