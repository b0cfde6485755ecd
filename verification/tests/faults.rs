use edge_glow::faults::{AnswerFault, FetchFault};

#[test]
fn faults_while_an_answer_is_awaited() {
    let why = || "why".to_string();
    for (fault, expected) in [
        (
            AnswerFault::Start("b.py".to_string(), why()),
            "failed to start Python bridge 'b.py': why",
        ),
        (AnswerFault::NoInput, "failed to open Python stdin"),
        (AnswerFault::Send(why()), "failed to send prompt to Python bridge: why"),
        (AnswerFault::NoOutput, "failed to read Python stdout"),
        (AnswerFault::Read(why()), "failed while reading stream: why"),
        (AnswerFault::Wait(why()), "failed to wait for Python bridge: why"),
    ] {
        assert_eq!(fault.message(), expected);
    }
}

#[test]
fn faults_while_models_are_fetched() {
    assert_eq!(FetchFault::Start("why".to_string()).message(), "failed to start bridge: why");
    assert_eq!(FetchFault::Read("why".to_string()).message(), "read error: why");
}
