use file_guard::es::{
    audit_token_t, auth_result, es_auth_result_t, es_event_open_t, es_event_type_t, es_file_t,
    es_message_t, es_process_t, es_string_token_t, handle_event, EsClient, EsError, EsEvent,
    EsInterceptor, EsRequest, EsSetup,
};
use file_guard::path::FilePath;
use file_guard::policy::rule::Decision;
use file_guard::process::identify::ProcessInfo;

fn file(path: &[u8]) -> es_file_t {
    es_file_t { path: es_string_token_t { data: Some(path.to_vec()) }, path_truncated: false }
}

fn message(path: &[u8]) -> es_message_t {
    es_message_t {
        version: 1,
        mach_time: 0,
        deadline: 0,
        process: es_process_t {
            audit_token: audit_token_t { val: [0, 1, 2, 3, 4, 555, 6, 7] },
            ppid: 1,
            original_ppid: 1,
            group_id: 1,
            session_id: 1,
            codesigning_flags: 0,
            is_platform_binary: false,
            is_es_client: false,
            cdhash: [0; 20],
            signing_id: es_string_token_t { data: None },
            team_id: es_string_token_t { data: None },
            executable: file(b"/bin/cat"),
        },
        seq_num: 0,
        event_type: es_event_type_t::ES_EVENT_TYPE_AUTH_OPEN,
        event: es_event_open_t { fflag: 1, file: file(path) },
    }
}

#[test]
fn the_pid_is_in_the_audit_token() {
    assert_eq!(audit_token_t { val: [1, 2, 3, 4, 5, 6, 7, 8] }.pid(), 6);
}

#[test]
fn string_tokens_are_text() {
    assert_eq!(es_string_token_t { data: None }.as_str(), "");
    assert_eq!(es_string_token_t { data: Some(vec![]) }.as_str(), "");
    assert_eq!(es_string_token_t { data: Some("/é".as_bytes().to_vec()) }.as_str(), "/é");
}

#[test]
fn only_watched_paths_are_enforced() {
    let watched = vec![FilePath::from_text("/f")];
    match handle_event(&watched, &message(b"/f")) {
        EsRequest::Authorize { pid, file } => {
            assert_eq!(pid, 555);
            assert_eq!(file, FilePath::from_text("/f"));
        }
        EsRequest::Respond(_) => panic!("a watched path is authorized"),
    }
    assert!(matches!(
        handle_event(&watched, &message(b"/g")),
        EsRequest::Respond(es_auth_result_t::ES_AUTH_RESULT_ALLOW)
    ));
}

#[test]
fn responses_follow_the_decision() {
    let caller = |decision| -> Result<(ProcessInfo, Decision), ()> {
        Ok((
            ProcessInfo {
                pid: 1,
                start_time: 1,
                binary_path: FilePath::from_text("/bin/x"),
                binary_name: "x".to_string(),
                script: None,
                parent_chain: vec![],
                code_signature: None,
            },
            decision,
        ))
    };
    let allow = es_auth_result_t::ES_AUTH_RESULT_ALLOW;
    let deny = es_auth_result_t::ES_AUTH_RESULT_DENY;
    assert_eq!(auth_result(caller(Decision::AllowSession)), allow);
    assert_eq!(auth_result(caller(Decision::DenyAlways)), deny);
    let unidentified: Result<(ProcessInfo, Decision), ()> = Err(());
    assert_eq!(auth_result(unidentified), deny);
}

#[test]
fn clients_are_set_up_in_order() {
    let mut client = EsClient::new(vec![FilePath::from_text("/a"), FilePath::from_text("/b")]);
    assert_eq!(client.at(), EsSetup::Create);
    assert_eq!(client.watched_paths().len(), 2);
    assert_eq!(client.next(EsEvent::Created(0)), Ok(EsSetup::MuteAll));
    assert_eq!(client.next(EsEvent::Muted), Ok(EsSetup::Invert));
    assert_eq!(client.next(EsEvent::Subscribed(0)), Err(EsError::OutOfOrder));
    assert_eq!(client.next(EsEvent::Muted), Ok(EsSetup::Watch(0)));
    assert_eq!(client.next(EsEvent::Muted), Ok(EsSetup::Watch(1)));
    assert_eq!(client.next(EsEvent::Muted), Ok(EsSetup::SetContext));
    assert_eq!(client.next(EsEvent::ContextSet(true)), Ok(EsSetup::Subscribe));
    assert_eq!(client.next(EsEvent::Subscribed(0)), Ok(EsSetup::Started));
    assert_eq!(client.at(), EsSetup::Started);
}

#[test]
fn failing_clients_say_why() {
    let mut client = EsClient::new(vec![]);
    assert_eq!(client.next(EsEvent::Created(3)), Err(EsError::NewClientFailed(3)));
    client.next(EsEvent::Created(0)).unwrap();
    client.next(EsEvent::Muted).unwrap();
    assert_eq!(client.next(EsEvent::Muted), Ok(EsSetup::SetContext));
    assert_eq!(client.next(EsEvent::ContextSet(false)), Err(EsError::AlreadyInitialized));
    client.next(EsEvent::ContextSet(true)).unwrap();
    assert_eq!(client.next(EsEvent::Subscribed(1)), Err(EsError::SubscribeFailed));

    let mut client = EsClient::new(vec![FilePath::from_text("/a"), FilePath::from_text("/b\0")]);
    client.next(EsEvent::Created(0)).unwrap();
    client.next(EsEvent::Muted).unwrap();
    assert_eq!(client.next(EsEvent::Muted), Ok(EsSetup::Watch(0)));
    assert_eq!(client.next(EsEvent::Muted), Err(EsError::InvalidPath(1)));
}

#[test]
fn es_interceptors_start_once() {
    let mut interceptor = EsInterceptor::new(vec![FilePath::from_text("/a")]);
    assert!(interceptor.stop().is_none());
    let client = interceptor.start().unwrap();
    assert!(interceptor.start().is_err());
    assert!(interceptor.stop().is_none());
    interceptor.started(client);
    assert!(interceptor.stop().is_some());
    assert!(interceptor.stop().is_none());
}
