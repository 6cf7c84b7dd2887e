use file_guard::config::DefaultAction;
use file_guard::path::FilePath;
use file_guard::policy::rule::Access;
use file_guard::process::identify::ProcessInfo;
use file_guard::prompt::client::{
    Exchange, ExchangeAction, ExchangeError, ExchangeEvent, PromptClient,
};
use file_guard::prompt::protocol::{AgentResponse, PromptOutcome, PROTOCOL_VERSION};
use file_guard::prompt::types::{default_choice, UserChoice};
use file_guard::time::TimeSpan;

fn client() -> PromptClient {
    PromptClient::new(FilePath::from_text("/run/agent.sock"), TimeSpan::from_millis(1_500), 1000)
}

fn reply(v: u32, id: u64) -> ExchangeEvent {
    let outcome = PromptOutcome::Decided(UserChoice::AllowOnce);
    ExchangeEvent::Parsed(AgentResponse { v, id, outcome })
}

fn finished(state: Exchange, event: ExchangeEvent) -> Result<PromptOutcome, ExchangeError> {
    match client().next(state, event, 9) {
        (Exchange::Done, ExchangeAction::Finish(result)) => result,
        other => panic!("not finished: {other:?}"),
    }
}

#[test]
fn an_exchange_runs_to_the_decision() {
    let c = client();
    let (state, action) = c.next(Exchange::Connecting, ExchangeEvent::Connected(1000), 9);
    assert!(matches!((state, &action), (Exchange::Sending, ExchangeAction::Send)));
    let (state, action) = c.next(state, ExchangeEvent::Sent, 9);
    assert!(matches!((state, &action), (Exchange::Receiving, ExchangeAction::Receive)));
    let (state, action) = c.next(state, ExchangeEvent::Line(" {}\n".to_string()), 9);
    assert_eq!(state, Exchange::Parsing);
    assert!(matches!(action, ExchangeAction::Parse(text) if text == "{}"));
    assert_eq!(
        finished(state, reply(PROTOCOL_VERSION, 9)),
        Ok(PromptOutcome::Decided(UserChoice::AllowOnce))
    );
}

#[test]
fn peers_must_be_the_user_or_root() {
    let (state, _) = client().next(Exchange::Connecting, ExchangeEvent::Connected(0), 9);
    assert_eq!(state, Exchange::Sending);
    assert_eq!(
        finished(Exchange::Connecting, ExchangeEvent::Connected(1001)),
        Err(ExchangeError::WrongPeer { uid: 1001 })
    );
}

#[test]
fn bad_replies_are_errors() {
    assert_eq!(
        finished(Exchange::Receiving, ExchangeEvent::Line(String::new())),
        Err(ExchangeError::NoReply)
    );
    assert_eq!(
        finished(Exchange::Parsing, ExchangeEvent::Unparsable),
        Err(ExchangeError::BadReply)
    );
    assert_eq!(
        finished(Exchange::Parsing, reply(PROTOCOL_VERSION + 1, 9)),
        Err(ExchangeError::WrongVersion { v: PROTOCOL_VERSION + 1 })
    );
    assert_eq!(
        finished(Exchange::Parsing, reply(PROTOCOL_VERSION, 8)),
        Err(ExchangeError::WrongId { id: 8 })
    );
    assert_eq!(finished(Exchange::Sending, ExchangeEvent::Failed), Err(ExchangeError::Io));
    assert_eq!(finished(Exchange::Connecting, ExchangeEvent::Sent), Err(ExchangeError::Io));
    assert_eq!(
        finished(Exchange::Receiving, ExchangeEvent::TimedOut),
        Ok(PromptOutcome::NoResponse)
    );
}

#[test]
fn without_a_decision_the_default_applies() {
    let c = client();
    assert_eq!(
        c.prompt(Ok(PromptOutcome::Decided(UserChoice::DenyAlways)), DefaultAction::Allow),
        UserChoice::DenyAlways
    );
    for result in [Ok(PromptOutcome::NoResponse), Err(ExchangeError::Io)] {
        assert_eq!(c.prompt(result, DefaultAction::Allow), UserChoice::AllowOnce);
        assert_eq!(c.prompt(result, DefaultAction::Deny), UserChoice::DenyOnce);
    }
    assert_eq!(default_choice(DefaultAction::Deny), UserChoice::DenyOnce);
}

#[test]
fn requests_describe_the_access() {
    let process = ProcessInfo {
        pid: 42,
        start_time: 1,
        binary_path: FilePath::from_bytes(b"/bin/\xff".to_vec()),
        binary_name: "cat".to_string(),
        script: Some(FilePath::from_text("/s.py")),
        parent_chain: vec![],
        code_signature: None,
    };
    let request = client().request(9, &process, &FilePath::from_text("/f"), Access::Write);
    assert_eq!(request.v, PROTOCOL_VERSION);
    assert_eq!(request.id, 9);
    assert_eq!(request.access, Access::Write);
    assert_eq!(request.file, "/f");
    assert_eq!(request.timeout_ms, 1_500);
    assert_eq!(request.process.pid, 42);
    assert_eq!(request.process.name, "cat");
    assert_eq!(request.process.binary, "/bin/\u{fffd}");
    assert_eq!(request.process.script.as_deref(), Some("/s.py"));
    assert_eq!(PromptClient::request_line(b"{}".to_vec()), b"{}\n");
    let limit = client().hard_limit();
    assert_eq!((limit.secs, limit.nanos), (6, 500_000_000));
}

#[test]
fn spans_of_time() {
    assert_eq!(TimeSpan::from_millis(1_234).as_millis(), 1_234);
    assert_eq!(TimeSpan::from_secs(2).as_millis(), 2_000);
    let huge = TimeSpan { secs: u64::MAX, nanos: 999_999_999 };
    assert_eq!(huge.as_millis(), (u64::MAX as u128 * 1_000 + 999) as u64);
}
