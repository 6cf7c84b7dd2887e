//! macOS Endpoint Security client.
//!
//! Subscribes to opens of the watched credential files. For each open attempt
//! the policy engine decides allow/deny; the response is sent back before the
//! kernel deadline.
use crate::fuse_fs::credential_fs::authorize;
use crate::path::{
    contains_path, from_utf8_lossy, lists_path, path_list, text_of_bytes, FilePath,
};
use crate::policy::rule::Decision;
use crate::process::identify::ProcessInfo;
use vstd::prelude::*;
use vstd::string::*;
use vstd::utf8::*;

verus! {

// ---------------------------------------------------------------------------
// Messages
// ---------------------------------------------------------------------------

/// The event types that are subscribed to.
#[allow(non_camel_case_types)]
#[derive(Debug, Clone, Copy, PartialEq, Eq, Structural)]
pub enum es_event_type_t {
    ES_EVENT_TYPE_AUTH_OPEN,
}

/// Audit token — 8 × u32, used to extract the pid.
#[allow(non_camel_case_types)]
#[derive(Debug, Clone, Copy)]
pub struct audit_token_t {
    pub val: [u32; 8],
}

impl audit_token_t {
    /// PID lives at index 5 of the audit token.
    pub fn pid(&self) -> (r: u32)
        ensures
            r == self.val@[5],
    {
        self.val[5]
    }
}

/// A string of a message; it may be absent.
#[allow(non_camel_case_types)]
#[derive(Debug)]
pub struct es_string_token_t {
    pub data: Option<Vec<u8>>,
}

impl View for es_string_token_t {
    type V = Seq<u8>;

    /// The bytes of the string, none if it is absent.
    open spec fn view(&self) -> Seq<u8> {
        match self.data {
            Some(bytes) => bytes@,
            None => Seq::empty(),
        }
    }
}

impl es_string_token_t {
    /// The string as text; an absent one is empty.
    pub fn as_str(&self) -> (s: String)
        ensures
            s@ == text_of_bytes(self@),
    {
        match &self.data {
            Some(bytes) => from_utf8_lossy(bytes.as_slice()),
            None => {
                proof {
                    encode_utf8_decode_utf8(Seq::<char>::empty());
                    encode_utf8_valid_utf8(Seq::<char>::empty());
                    assert(encode_utf8(Seq::<char>::empty()) =~= Seq::<u8>::empty());
                }
                String::new()
            },
        }
    }
}

/// A file of a message.
#[allow(non_camel_case_types)]
#[derive(Debug)]
pub struct es_file_t {
    pub path: es_string_token_t,
    pub path_truncated: bool,
}

/// The process that caused a message.
#[allow(non_camel_case_types)]
#[derive(Debug)]
pub struct es_process_t {
    pub audit_token: audit_token_t,
    pub ppid: i32,
    pub original_ppid: i32,
    pub group_id: i32,
    pub session_id: i32,
    pub codesigning_flags: u32,
    pub is_platform_binary: bool,
    pub is_es_client: bool,
    pub cdhash: [u8; 20],
    pub signing_id: es_string_token_t,
    pub team_id: es_string_token_t,
    pub executable: es_file_t,
}

/// An open that waits for authorization.
#[allow(non_camel_case_types)]
#[derive(Debug)]
pub struct es_event_open_t {
    pub fflag: i32,
    pub file: es_file_t,
}

/// A message about an event.
#[allow(non_camel_case_types)]
#[derive(Debug)]
pub struct es_message_t {
    pub version: u32,
    pub mach_time: u64,
    pub deadline: u64,
    pub process: es_process_t,
    pub seq_num: u64,
    pub event_type: es_event_type_t,
    pub event: es_event_open_t,
}

/// Auth response values.
#[allow(non_camel_case_types)]
#[derive(Debug, Clone, Copy, PartialEq, Eq, Structural)]
pub enum es_auth_result_t {
    ES_AUTH_RESULT_ALLOW,
    ES_AUTH_RESULT_DENY,
}

/// Results of most calls.
#[allow(non_camel_case_types)]
#[derive(Debug, Clone, Copy, PartialEq, Eq, Structural)]
pub enum es_return_t {
    ES_RETURN_SUCCESS,
    ES_RETURN_ERROR,
}

/// Results of creating a client.
#[allow(non_camel_case_types)]
#[derive(Debug, Clone, Copy, PartialEq, Eq, Structural)]
pub enum es_new_client_result_t {
    ES_NEW_CLIENT_RESULT_SUCCESS,
}

/// What to do about a message.
#[derive(Debug)]
pub enum EsRequest {
    /// Respond right away.
    Respond(es_auth_result_t),
    /// Identify the process, evaluate the policy for the file, and respond with
    /// [`auth_result`].
    Authorize { pid: u32, file: FilePath },
}

/// The path that a message is about.
pub open spec fn opened_path(message: es_message_t) -> Seq<u8> {
    encode_utf8(text_of_bytes(message.event.file.path@))
}

/// The handler invoked for every open. Only watched paths are enforced;
/// anything else is allowed.
pub fn handle_event(watched_paths: &Vec<FilePath>, message: &es_message_t) -> (r: EsRequest)
    ensures
        if lists_path(path_list(watched_paths@), opened_path(*message)) {
            r matches EsRequest::Authorize { pid, file } && pid
                == message.process.audit_token.val@[5] && file@ == opened_path(*message)
        } else {
            r == EsRequest::Respond(es_auth_result_t::ES_AUTH_RESULT_ALLOW)
        },
{
    let file = FilePath::from_text(message.event.file.path.as_str().as_str());
    if !contains_path(watched_paths, &file) {
        return EsRequest::Respond(es_auth_result_t::ES_AUTH_RESULT_ALLOW);
    }
    EsRequest::Authorize { pid: message.process.audit_token.pid(), file }
}

/// The response to an open of a watched path: it is allowed iff the process was
/// identified and the decision allows it.
pub fn auth_result<E>(caller: Result<(ProcessInfo, Decision), E>) -> (r: es_auth_result_t)
    ensures
        (r == es_auth_result_t::ES_AUTH_RESULT_ALLOW) == (caller matches Ok((_, decision))
            && decision.allows()),
{
    if authorize(caller).is_some() {
        es_auth_result_t::ES_AUTH_RESULT_ALLOW
    } else {
        es_auth_result_t::ES_AUTH_RESULT_DENY
    }
}

// ---------------------------------------------------------------------------
// Setting up the client
// ---------------------------------------------------------------------------

/// The next call for setting up a client.
#[derive(Debug, Clone, Copy, PartialEq, Eq, Structural)]
pub enum EsSetup {
    /// Create the client.
    Create,
    /// Mute all paths.
    MuteAll,
    /// Invert the muting, so that only the paths named from then on deliver
    /// events.
    Invert,
    /// Name the watched path at this index.
    Watch(usize),
    /// Hand the handler its context.
    SetContext,
    /// Subscribe to opens.
    Subscribe,
    /// The client is running.
    Started,
}

/// What came of a call.
#[derive(Debug, Clone, Copy, PartialEq, Eq, Structural)]
pub enum EsEvent {
    /// The client was created, or not, with this code; 0 is success.
    Created(i32),
    /// A path was muted or the muting inverted; the outcome does not matter.
    Muted,
    /// The context was set, or had been set before.
    ContextSet(bool),
    /// The subscription ended with this code; 0 is success.
    Subscribed(i32),
}

/// Why a client could not be set up.
#[derive(Debug, Clone, Copy, PartialEq, Eq, Structural)]
pub enum EsError {
    /// The client could not be created. Run as root with ES entitlement.
    NewClientFailed(i32),
    /// The watched path at this index contains a NUL character.
    InvalidPath(usize),
    /// The handler's context was already set.
    AlreadyInitialized,
    /// The subscription failed.
    SubscribeFailed,
    /// The call reported on was not the one to make.
    OutOfOrder,
}

/// Whether a path can be handed to the system: its text has no NUL character.
pub open spec fn is_c_path(path: Seq<u8>) -> bool {
    !text_of_bytes(path).contains('\u{0}')
}

/// The call for the path at index `i`, or for the context after the last path.
pub open spec fn watch_from(i: int, paths: Seq<Seq<u8>>) -> Result<EsSetup, EsError> {
    if i >= paths.len() {
        Ok(EsSetup::SetContext)
    } else if is_c_path(paths[i]) {
        Ok(EsSetup::Watch(i as usize))
    } else {
        Err(EsError::InvalidPath(i as usize))
    }
}

/// The call after the call `at` came to `event`.
pub open spec fn setup_step(at: EsSetup, event: EsEvent, paths: Seq<Seq<u8>>) -> Result<
    EsSetup,
    EsError,
> {
    match (at, event) {
        (EsSetup::Create, EsEvent::Created(rc)) => if rc == 0 {
            Ok(EsSetup::MuteAll)
        } else {
            Err(EsError::NewClientFailed(rc))
        },
        (EsSetup::MuteAll, EsEvent::Muted) => Ok(EsSetup::Invert),
        (EsSetup::Invert, EsEvent::Muted) => watch_from(0, paths),
        (EsSetup::Watch(i), EsEvent::Muted) => watch_from(i + 1, paths),
        (EsSetup::SetContext, EsEvent::ContextSet(fresh)) => if fresh {
            Ok(EsSetup::Subscribe)
        } else {
            Err(EsError::AlreadyInitialized)
        },
        (EsSetup::Subscribe, EsEvent::Subscribed(rc)) => if rc == 0 {
            Ok(EsSetup::Started)
        } else {
            Err(EsError::SubscribeFailed)
        },
        (_, _) => Err(EsError::OutOfOrder),
    }
}

/// Whether a text can be handed to the system.
fn has_no_nul(text: &str) -> (r: bool)
    ensures
        r == !text@.contains('\u{0}'),
{
    let chars = crate::text::chars_of(text);
    let mut i: usize = 0;
    while i < chars.len()
        invariant
            i <= chars@.len(),
            chars@ == text@,
            forall|j: int| 0 <= j < i ==> text@[j] != '\u{0}',
        decreases chars@.len() - i,
    {
        if chars[i] == '\u{0}' {
            assert(text@[i as int] == '\u{0}');
            return false;
        }
        i = i + 1;
    }
    true
}

/// The set-up of an Endpoint Security client.
#[derive(Debug)]
pub struct EsClient {
    watched_paths: Vec<FilePath>,
    at: EsSetup,
}

/// The state of an [`EsClient`].
pub ghost struct EsClientView {
    pub paths: Seq<Seq<u8>>,
    pub at: EsSetup,
}

impl View for EsClient {
    type V = EsClientView;

    closed spec fn view(&self) -> EsClientView {
        EsClientView { paths: path_list(self.watched_paths@), at: self.at }
    }
}

impl EsClient {
    /// A client for these paths, to be created.
    pub fn new(watched_paths: Vec<FilePath>) -> (r: EsClient)
        ensures
            r@ == (EsClientView { paths: path_list(watched_paths@), at: EsSetup::Create }),
    {
        EsClient { watched_paths, at: EsSetup::Create }
    }

    /// The paths that are watched.
    pub fn watched_paths(&self) -> (r: &Vec<FilePath>)
        ensures
            path_list(r@) == self@.paths,
    {
        &self.watched_paths
    }

    /// The call to make.
    pub fn at(&self) -> (r: EsSetup)
        ensures
            r == self@.at,
    {
        self.at
    }

    fn watch(&self, i: usize) -> (r: Result<EsSetup, EsError>)
        ensures
            r == watch_from(i as int, self@.paths),
    {
        if i >= self.watched_paths.len() {
            return Ok(EsSetup::SetContext);
        }
        assert(self@.paths[i as int] == self.watched_paths@[i as int]@);
        if has_no_nul(self.watched_paths[i].to_text().as_str()) {
            Ok(EsSetup::Watch(i))
        } else {
            Err(EsError::InvalidPath(i))
        }
    }

    /// Goes on after the call to make came to `event`: everything is muted but
    /// the watched paths, the context is set, and opens are subscribed to.
    pub fn next(&mut self, event: EsEvent) -> (r: Result<EsSetup, EsError>)
        requires
            old(self)@.at matches EsSetup::Watch(i) ==> i < old(self)@.paths.len(),
        ensures
            r == setup_step(old(self)@.at, event, old(self)@.paths),
            final(self)@.paths == old(self)@.paths,
            final(self)@.at == (match r {
                Ok(at) => at,
                Err(_) => old(self)@.at,
            }),
            final(self)@.at matches EsSetup::Watch(i) ==> i < final(self)@.paths.len(),
    {
        let r = match self.at {
            EsSetup::Create => match event {
                EsEvent::Created(rc) => {
                    if rc != 0 {
                        Err(EsError::NewClientFailed(rc))
                    } else {
                        Ok(EsSetup::MuteAll)
                    }
                },
                _ => Err(EsError::OutOfOrder),
            },
            EsSetup::MuteAll => match event {
                EsEvent::Muted => Ok(EsSetup::Invert),
                _ => Err(EsError::OutOfOrder),
            },
            EsSetup::Invert => match event {
                EsEvent::Muted => self.watch(0),
                _ => Err(EsError::OutOfOrder),
            },
            EsSetup::Watch(i) => match event {
                EsEvent::Muted => {
                    assert(self.watched_paths.len() == self@.paths.len());
                    self.watch(i + 1)
                },
                _ => Err(EsError::OutOfOrder),
            },
            EsSetup::SetContext => match event {
                EsEvent::ContextSet(fresh) => {
                    if fresh {
                        Ok(EsSetup::Subscribe)
                    } else {
                        Err(EsError::AlreadyInitialized)
                    }
                },
                _ => Err(EsError::OutOfOrder),
            },
            EsSetup::Subscribe => match event {
                EsEvent::Subscribed(rc) => {
                    if rc != 0 {
                        Err(EsError::SubscribeFailed)
                    } else {
                        Ok(EsSetup::Started)
                    }
                },
                _ => Err(EsError::OutOfOrder),
            },
            EsSetup::Started => Err(EsError::OutOfOrder),
        };
        if let Ok(at) = r {
            self.at = at;
        }
        r
    }
}

/// What the events so far led to: the call to make, or the error.
pub open spec fn setup_run(events: Seq<EsEvent>, paths: Seq<Seq<u8>>) -> Result<EsSetup, EsError>
    decreases events.len(),
{
    if events.len() == 0 {
        Ok(EsSetup::Create)
    } else {
        match setup_run(events.drop_last(), paths) {
            Ok(at) => setup_step(at, events.last(), paths),
            Err(e) => Err(e),
        }
    }
}

/// How many of the watched paths have been named when this call is to be made.
pub open spec fn named(at: EsSetup, count: int) -> int {
    match at {
        EsSetup::Create => 0,
        EsSetup::MuteAll => 0,
        EsSetup::Invert => 0,
        EsSetup::Watch(i) => i as int,
        EsSetup::SetContext => count,
        EsSetup::Subscribe => count,
        EsSetup::Started => count,
    }
}

/// A client never delivers events before every watched path has been named: it
/// gets to a call only with all earlier calls made, one event each, and a path
/// with a NUL character keeps it from being started.
pub proof fn law_clients_watch_every_path(events: Seq<EsEvent>, paths: Seq<Seq<u8>>)
    requires
        paths.len() <= usize::MAX,
    ensures
        match setup_run(events, paths) {
            Ok(at) => {
                &&& 0 <= named(at, paths.len() as int) <= paths.len()
                &&& forall|i: int|
                    0 <= i < named(at, paths.len() as int) ==> is_c_path(#[trigger] paths[i])
                &&& at == EsSetup::Started ==> events.len() == paths.len() + 5
            },
            Err(_) => true,
        },
{
    lemma_setup_run(events, paths);
}

proof fn lemma_setup_run(events: Seq<EsEvent>, paths: Seq<Seq<u8>>)
    requires
        paths.len() <= usize::MAX,
    ensures
        match setup_run(events, paths) {
            Ok(at) => {
                let k = named(at, paths.len() as int);
                &&& 0 <= k <= paths.len()
                &&& forall|i: int| 0 <= i < k ==> is_c_path(#[trigger] paths[i])
                &&& match at {
                    EsSetup::Create => events.len() == 0,
                    EsSetup::MuteAll => events.len() == 1,
                    EsSetup::Invert => events.len() == 2,
                    EsSetup::Watch(i) => events.len() == 3 + i && i < paths.len() && is_c_path(
                        paths[i as int],
                    ),
                    EsSetup::SetContext => events.len() == 3 + paths.len(),
                    EsSetup::Subscribe => events.len() == 4 + paths.len(),
                    EsSetup::Started => events.len() == 5 + paths.len(),
                }
            },
            Err(_) => true,
        },
    decreases events.len(),
{
    if events.len() > 0 {
        lemma_setup_run(events.drop_last(), paths);
    }
}

// ---------------------------------------------------------------------------
// Starting and stopping
// ---------------------------------------------------------------------------

/// An interceptor can be started only once.
#[derive(Debug, Clone, Copy, PartialEq, Eq, Structural)]
pub struct AlreadyStarted;

/// Interception through Endpoint Security.
#[derive(Debug)]
pub struct EsInterceptor {
    pub args: Option<Vec<FilePath>>,
    pub client: Option<EsClient>,
}

impl EsInterceptor {
    /// An interceptor for these paths.
    pub fn new(watched_paths: Vec<FilePath>) -> (r: EsInterceptor)
        ensures
            r.args == Some(watched_paths),
            r.client is None,
    {
        EsInterceptor { args: Some(watched_paths), client: None }
    }

    /// Begins to start: the client to set up. It belongs to the interceptor once
    /// [`Self::started`] has been called.
    pub fn start(&mut self) -> (r: Result<EsClient, AlreadyStarted>)
        ensures
            match old(self).args {
                Some(paths) => r matches Ok(client) && client@ == (EsClientView {
                    paths: path_list(paths@),
                    at: EsSetup::Create,
                }),
                None => r is Err,
            },
            final(self).args is None,
            final(self).client == old(self).client,
    {
        match self.args.take() {
            Some(paths) => Ok(EsClient::new(paths)),
            None => Err(AlreadyStarted),
        }
    }

    /// Keeps the client that has been set up.
    pub fn started(&mut self, client: EsClient)
        ensures
            final(self).client == Some(client),
            final(self).args == old(self).args,
    {
        self.client = Some(client);
    }

    /// Stops: the client to tear down, if there is one.
    pub fn stop(&mut self) -> (r: Option<EsClient>)
        ensures
            r == old(self).client,
            final(self).client is None,
            final(self).args == old(self).args,
    {
        self.client.take()
    }
}

/// The set-up makes its calls in order: the client is created, everything is
/// muted, the muting is inverted, each path is named in turn, the context is set,
/// and opens are subscribed to. An invalid path, a context that was set before and
/// a call that fails end it, each with its own error.
pub proof fn law_the_setup_goes_call_by_call(paths: Seq<Seq<u8>>, i: usize, rc: i32)
    requires
        i < paths.len() <= usize::MAX,
    ensures
        setup_step(EsSetup::Create, EsEvent::Created(0), paths) == Ok::<EsSetup, EsError>(
            EsSetup::MuteAll,
        ),
        rc != 0 ==> setup_step(EsSetup::Create, EsEvent::Created(rc), paths) == Err::<
            EsSetup,
            EsError,
        >(EsError::NewClientFailed(rc)),
        setup_step(EsSetup::MuteAll, EsEvent::Muted, paths) == Ok::<EsSetup, EsError>(
            EsSetup::Invert,
        ),
        ({
            let named = if i == 0 {
                EsSetup::Invert
            } else {
                EsSetup::Watch((i - 1) as usize)
            };
            let valid = !text_of_bytes(paths[i as int]).contains('\u{0}');
            &&& valid ==> setup_step(named, EsEvent::Muted, paths) == Ok::<EsSetup, EsError>(
                EsSetup::Watch(i),
            )
            &&& !valid ==> setup_step(named, EsEvent::Muted, paths) == Err::<EsSetup, EsError>(
                EsError::InvalidPath(i),
            )
        }),
        setup_step(EsSetup::Watch((paths.len() - 1) as usize), EsEvent::Muted, paths) == Ok::<
            EsSetup,
            EsError,
        >(EsSetup::SetContext),
        setup_step(EsSetup::Invert, EsEvent::Muted, Seq::empty()) == Ok::<EsSetup, EsError>(
            EsSetup::SetContext,
        ),
        setup_step(EsSetup::SetContext, EsEvent::ContextSet(true), paths) == Ok::<
            EsSetup,
            EsError,
        >(EsSetup::Subscribe),
        setup_step(EsSetup::SetContext, EsEvent::ContextSet(false), paths) == Err::<
            EsSetup,
            EsError,
        >(EsError::AlreadyInitialized),
        setup_step(EsSetup::Subscribe, EsEvent::Subscribed(0), paths) == Ok::<EsSetup, EsError>(
            EsSetup::Started,
        ),
        rc != 0 ==> setup_step(EsSetup::Subscribe, EsEvent::Subscribed(rc), paths) == Err::<
            EsSetup,
            EsError,
        >(EsError::SubscribeFailed),
{
}

/// A report on a call that was not the one to make is an error, and so is any
/// report once the client is running.
pub proof fn law_reports_out_of_order_are_refused(at: EsSetup, event: EsEvent, paths: Seq<Seq<u8>>)
    requires
        ({
            ||| at == EsSetup::Started
            ||| event is Created && at != EsSetup::Create
            ||| event is ContextSet && at != EsSetup::SetContext
            ||| event is Subscribed && at != EsSetup::Subscribe
            ||| event is Muted && (at == EsSetup::Create || at == EsSetup::SetContext || at
                == EsSetup::Subscribe)
        }),
    ensures
        setup_step(at, event, paths) == Err::<EsSetup, EsError>(EsError::OutOfOrder),
{
}

/// The path of an open is the text of the message's path, and none where the
/// message has none.
pub proof fn law_opens_are_about_the_path_of_the_message(message: es_message_t, text: Seq<char>)
    requires
        message.event.file.path.data matches Some(bytes) ==> bytes@ == encode_utf8(text),
        message.event.file.path.data is None ==> text.len() == 0,
    ensures
        opened_path(message) == encode_utf8(text),
{
    encode_utf8_valid_utf8(text);
    encode_utf8_decode_utf8(text);
    if message.event.file.path.data is None {
        assert(text =~= Seq::<char>::empty());
        assert(encode_utf8(text) =~= Seq::<u8>::empty());
    }
}

} // verus!
