use crate::config::InstanceConfig;
use crate::error::SyncError;
use crate::json::{
    lemma_array_view, lemma_object_view, member_of, member_trees, trees, JsonTree, JsonValue,
};
use crate::path::{append_decimal, decimal};
use vstd::prelude::*;
use vstd::string::StringExecFns;

verus! {

/// The text of an optional string.
pub open spec fn text_of(value: Option<String>) -> Option<Seq<char>> {
    match value {
        Some(s) => Some(s@),
        None => None,
    }
}

/// A copy of an optional string.
pub fn copy_text(value: &Option<String>) -> (r: Option<String>)
    ensures
        text_of(r) == text_of(*value),
{
    match value {
        Some(s) => Some(s.clone()),
        None => None,
    }
}

/// Whether two optional strings hold the same text.
pub fn same_text(a: &Option<String>, b: &Option<String>) -> (r: bool)
    ensures
        r == (text_of(*a) == text_of(*b)),
{
    match a {
        Some(x) => match b {
            Some(y) => *x == *y,
            None => false,
        },
        None => b.is_none(),
    }
}

/// A password for the API of one instance, with the hash that the instance
/// stores for it.
#[derive(Debug)]
pub struct AppPassword {
    pub password: String,
    pub hash: String,
}

/// A group of an instance. Its name is its identity; its id is local to the
/// instance and differs between instances.
#[derive(Debug)]
pub struct Group {
    pub name: String,
    pub comment: Option<String>,
    pub enabled: bool,
    pub id: Option<u32>,
}

/// The value of a [`Group`].
pub struct GroupView {
    pub name: Seq<char>,
    pub comment: Option<Seq<char>>,
    pub enabled: bool,
    pub id: Option<u32>,
}

impl View for Group {
    type V = GroupView;

    open spec fn view(&self) -> GroupView {
        GroupView {
            name: self.name@,
            comment: text_of(self.comment),
            enabled: self.enabled,
            id: self.id,
        }
    }
}

impl Clone for Group {
    fn clone(&self) -> (r: Self)
        ensures
            r@ == self@,
    {
        Group {
            name: self.name.clone(),
            comment: copy_text(&self.comment),
            enabled: self.enabled,
            id: self.id,
        }
    }
}

/// A list of an instance. Its address and type together are its identity;
/// the ids of its groups are local to the instance.
#[derive(Debug)]
pub struct List {
    pub address: String,
    pub list_type: String,
    pub comment: Option<String>,
    pub groups: Vec<u32>,
    pub enabled: bool,
    pub id: Option<u32>,
}

/// The value of a [`List`].
pub struct ListView {
    pub address: Seq<char>,
    pub list_type: Seq<char>,
    pub comment: Option<Seq<char>>,
    pub groups: Seq<u32>,
    pub enabled: bool,
    pub id: Option<u32>,
}

impl View for List {
    type V = ListView;

    open spec fn view(&self) -> ListView {
        ListView {
            address: self.address@,
            list_type: self.list_type@,
            comment: text_of(self.comment),
            groups: self.groups@,
            enabled: self.enabled,
            id: self.id,
        }
    }
}

/// A copy of a list of ids.
pub fn copy_ids(ids: &Vec<u32>) -> (r: Vec<u32>)
    ensures
        r@ == ids@,
{
    let mut r: Vec<u32> = Vec::new();
    let mut i: usize = 0;
    while i < ids.len()
        invariant
            i <= ids.len(),
            r@ == ids@.take(i as int),
        decreases ids.len() - i,
    {
        r.push(ids[i]);
        i += 1;
        assert(r@ =~= ids@.take(i as int));
    }
    assert(ids@.take(ids.len() as int) =~= ids@);
    r
}

impl Clone for List {
    fn clone(&self) -> (r: Self)
        ensures
            r@ == self@,
    {
        List {
            address: self.address.clone(),
            list_type: self.list_type.clone(),
            comment: copy_text(&self.comment),
            groups: copy_ids(&self.groups),
            enabled: self.enabled,
            id: self.id,
        }
    }
}

/// The values of a list of groups.
pub open spec fn group_views(groups: Seq<Group>) -> Seq<GroupView> {
    groups.map_values(|g: Group| g@)
}

/// The values of a list of lists.
pub open spec fn list_views(lists: Seq<List>) -> Seq<ListView> {
    lists.map_values(|l: List| l@)
}

/// The name of the request header that carries the session id.
pub const X_FTL_SID_HEADER: &'static str = "X-FTL-SID";

/// The user agent that every request names.
pub const APP_USER_AGENT: &'static str = "pihole-sync";

/// Milliseconds allowed for an instance to answer again after its
/// configuration was applied, which restarts it.
pub const CONFIG_READINESS_TIMEOUT_MS: u64 = 10_000;

/// The method of a request.
#[derive(Debug, Clone, Copy, PartialEq, Eq)]
pub enum HttpMethod {
    Get,
    Post,
    Put,
    Patch,
    Delete,
}

/// An operation of an instance's API.
#[derive(Debug)]
pub enum ApiCall {
    Authenticate,
    CheckSession,
    Logout,
    AppPassword,
    DownloadBackup,
    UploadBackup,
    TriggerGravity,
    GetConfig,
    PatchConfig,
    GetGroups,
    AddGroup,
    /// Update the group of this name.
    UpdateGroup(String),
    GetLists,
    AddList,
    /// Update the list of this address.
    UpdateList(String),
}

/// The method of an operation.
pub open spec fn method_of(call: ApiCall) -> HttpMethod {
    match call {
        ApiCall::Authenticate => HttpMethod::Post,
        ApiCall::CheckSession => HttpMethod::Get,
        ApiCall::Logout => HttpMethod::Delete,
        ApiCall::AppPassword => HttpMethod::Get,
        ApiCall::DownloadBackup => HttpMethod::Get,
        ApiCall::UploadBackup => HttpMethod::Post,
        ApiCall::TriggerGravity => HttpMethod::Post,
        ApiCall::GetConfig => HttpMethod::Get,
        ApiCall::PatchConfig => HttpMethod::Patch,
        ApiCall::GetGroups => HttpMethod::Get,
        ApiCall::AddGroup => HttpMethod::Post,
        ApiCall::UpdateGroup(_) => HttpMethod::Put,
        ApiCall::GetLists => HttpMethod::Get,
        ApiCall::AddList => HttpMethod::Post,
        ApiCall::UpdateList(_) => HttpMethod::Put,
    }
}

/// The path of an operation, below the base address of the API.
pub open spec fn path_of(call: ApiCall) -> Seq<char> {
    match call {
        ApiCall::Authenticate => "/auth"@,
        ApiCall::CheckSession => "/auth"@,
        ApiCall::Logout => "/auth"@,
        ApiCall::AppPassword => "/auth/app"@,
        ApiCall::DownloadBackup => "/teleporter"@,
        ApiCall::UploadBackup => "/teleporter"@,
        ApiCall::TriggerGravity => "/action/gravity"@,
        ApiCall::GetConfig => "/config"@,
        ApiCall::PatchConfig => "/config"@,
        ApiCall::GetGroups => "/groups"@,
        ApiCall::AddGroup => "/groups"@,
        ApiCall::UpdateGroup(name) => "/groups/"@ + name@,
        ApiCall::GetLists => "/lists"@,
        ApiCall::AddList => "/lists"@,
        ApiCall::UpdateList(address) => "/lists/"@ + address@,
    }
}

/// Whether an operation is sent with the session id. Only the request that
/// obtains a session is sent without one.
pub open spec fn needs_session(call: ApiCall) -> bool {
    !(call is Authenticate)
}

impl ApiCall {
    /// The method of the operation.
    pub fn method(&self) -> (method: HttpMethod)
        ensures
            method == method_of(*self),
    {
        match self {
            ApiCall::Authenticate => HttpMethod::Post,
            ApiCall::CheckSession => HttpMethod::Get,
            ApiCall::Logout => HttpMethod::Delete,
            ApiCall::AppPassword => HttpMethod::Get,
            ApiCall::DownloadBackup => HttpMethod::Get,
            ApiCall::UploadBackup => HttpMethod::Post,
            ApiCall::TriggerGravity => HttpMethod::Post,
            ApiCall::GetConfig => HttpMethod::Get,
            ApiCall::PatchConfig => HttpMethod::Patch,
            ApiCall::GetGroups => HttpMethod::Get,
            ApiCall::AddGroup => HttpMethod::Post,
            ApiCall::UpdateGroup(_) => HttpMethod::Put,
            ApiCall::GetLists => HttpMethod::Get,
            ApiCall::AddList => HttpMethod::Post,
            ApiCall::UpdateList(_) => HttpMethod::Put,
        }
    }

    /// The path of the operation, below the base address of the API.
    pub fn path(&self) -> (path: String)
        ensures
            path@ == path_of(*self),
    {
        match self {
            ApiCall::Authenticate => String::from_str("/auth"),
            ApiCall::CheckSession => String::from_str("/auth"),
            ApiCall::Logout => String::from_str("/auth"),
            ApiCall::AppPassword => String::from_str("/auth/app"),
            ApiCall::DownloadBackup => String::from_str("/teleporter"),
            ApiCall::UploadBackup => String::from_str("/teleporter"),
            ApiCall::TriggerGravity => String::from_str("/action/gravity"),
            ApiCall::GetConfig => String::from_str("/config"),
            ApiCall::PatchConfig => String::from_str("/config"),
            ApiCall::GetGroups => String::from_str("/groups"),
            ApiCall::AddGroup => String::from_str("/groups"),
            ApiCall::UpdateGroup(name) => {
                let mut path = String::from_str("/groups/");
                path.append(name.as_str());
                path
            },
            ApiCall::GetLists => String::from_str("/lists"),
            ApiCall::AddList => String::from_str("/lists"),
            ApiCall::UpdateList(address) => {
                let mut path = String::from_str("/lists/");
                path.append(address.as_str());
                path
            },
        }
    }

    /// Whether the operation is sent with the session id.
    pub fn sends_session(&self) -> (r: bool)
        ensures
            r == needs_session(*self),
    {
        match self {
            ApiCall::Authenticate => false,
            _ => true,
        }
    }
}

/// The base address of an instance's API: schema, host and port, and `/api`.
pub open spec fn base_url_of(config: InstanceConfig) -> Seq<char> {
    config.schema@ + "://"@ + config.host@ + ":"@ + decimal(config.port as nat) + "/api"@
}

/// What the first step is of making sure that a session is open.
#[derive(Debug, Clone, Copy, PartialEq, Eq)]
pub enum AuthStep {
    /// No session id is cached: authenticate.
    Authenticate,
    /// A session id is cached: ask the instance whether it still holds.
    CheckSession,
}

/// The instance's answer to the question whether the session holds.
#[derive(Debug)]
pub enum SessionAnswer {
    /// The instance knows no such session.
    Unauthorized,
    /// The instance describes the session: whether it is valid, and its id,
    /// which may be a renewed one.
    Session { valid: bool, sid: Option<String> },
}

/// What the first step of a logout is.
#[derive(Debug, Clone, Copy, PartialEq, Eq)]
pub enum LogoutStep {
    /// No session id is cached: nothing to do.
    Nothing,
    /// A session id is cached: ask the instance to invalidate it.
    Invalidate,
}

/// Whether the status of the answer to a logout means that the session is
/// gone: gone (410), any success (200 to 299), or unknown session (401).
pub open spec fn session_gone(status: u16) -> bool {
    status == 410 || 200 <= status < 300 || status == 401
}

/// Two to the power of `n`.
pub open spec fn pow2(n: nat) -> nat
    decreases n,
{
    if n == 0 {
        1
    } else {
        2 * pow2((n - 1) as nat)
    }
}

/// Milliseconds to wait after the failed attempt number `attempt` before the
/// next: 50 ms doubled with each attempt, and one second at most.
pub open spec fn backoff(attempt: nat) -> nat {
    if pow2(attempt) * 50 < 1000 {
        pow2(attempt) * 50
    } else {
        1000
    }
}

pub proof fn lemma_pow2_grows(n: nat)
    requires
        n >= 5,
    ensures
        pow2(n) >= 32,
    decreases n,
{
    reveal_with_fuel(pow2, 6);
    if n > 5 {
        lemma_pow2_grows((n - 1) as nat);
    }
}

/// Milliseconds to wait after the failed attempt number `attempt`.
pub fn backoff_ms(attempt: u32) -> (ms: u64)
    ensures
        ms == backoff(attempt as nat),
{
    proof {
        reveal_with_fuel(pow2, 6);
        if attempt >= 5 {
            lemma_pow2_grows(attempt as nat);
        }
    }
    if attempt == 0 {
        50
    } else if attempt == 1 {
        100
    } else if attempt == 2 {
        200
    } else if attempt == 3 {
        400
    } else if attempt == 4 {
        800
    } else {
        1000
    }
}

/// What follows an attempt to reach an instance.
#[derive(Debug, Clone, Copy, PartialEq, Eq)]
pub enum ReadyStep {
    /// The instance answered: it is ready.
    Ready,
    /// The instance did not answer: wait this many milliseconds and try
    /// again.
    Retry { after_ms: u64 },
    /// The instance did not answer and the time allowed is over.
    TimedOut,
}

impl ReadyStep {
    /// The failure that the step stands for, if it stands for one: the time
    /// allowed is over.
    pub fn failure(&self) -> (error: Option<SyncError>)
        ensures
            error == if *self is TimedOut {
                Some(SyncError::ReadinessTimeout)
            } else {
                None::<SyncError>
            },
    {
        match self {
            ReadyStep::TimedOut => Some(SyncError::ReadinessTimeout),
            _ => None,
        }
    }
}

/// The wait for an instance to answer again, as after a change of its
/// configuration, which restarts it.
#[derive(Debug)]
pub struct ReadinessWait {
    timeout_ms: u64,
    attempts: u32,
}

impl ReadinessWait {
    /// The time allowed, in milliseconds.
    pub closed spec fn timeout_ms(&self) -> u64 {
        self.timeout_ms
    }

    /// The number of attempts made.
    pub closed spec fn attempts(&self) -> u32 {
        self.attempts
    }

    /// A wait of at most `timeout_ms` milliseconds, before its first attempt.
    pub fn new(timeout_ms: u64) -> (wait: Self)
        ensures
            wait.timeout_ms() == timeout_ms,
            wait.attempts() == 0,
    {
        ReadinessWait { timeout_ms, attempts: 0 }
    }

    /// What follows an attempt: ready where the instance answered; else,
    /// where the time elapsed since the wait began exceeds the time allowed,
    /// the wait is over; else another attempt after the backoff of this one.
    pub fn after_attempt(&mut self, answered: bool, elapsed_ms: u64) -> (step: ReadyStep)
        ensures
            final(self).timeout_ms() == old(self).timeout_ms(),
            final(self).attempts() as int == if old(self).attempts() < u32::MAX {
                old(self).attempts() + 1
            } else {
                u32::MAX as int
            },
            step == if answered {
                ReadyStep::Ready
            } else if elapsed_ms > old(self).timeout_ms() {
                ReadyStep::TimedOut
            } else {
                ReadyStep::Retry { after_ms: backoff(final(self).attempts() as nat) as u64 }
            },
    {
        if self.attempts < u32::MAX {
            self.attempts = self.attempts + 1;
        }
        if answered {
            ReadyStep::Ready
        } else if elapsed_ms > self.timeout_ms {
            ReadyStep::TimedOut
        } else {
            ReadyStep::Retry { after_ms: backoff_ms(self.attempts) }
        }
    }
}

/// Whether a session needs to be kept alive between two cycles: the cycles
/// are further apart than the session lasts, less a margin.
pub fn needs_keepalive(sync_interval_secs: u64, session_timeout_secs: u64, margin_secs: u64) -> (r:
    bool)
    ensures
        r == (sync_interval_secs > session_timeout_secs - margin_secs),
{
    if margin_secs > session_timeout_secs {
        true
    } else {
        sync_interval_secs > session_timeout_secs - margin_secs
    }
}

/// One endpoint with its session. The session id is cached here and nowhere
/// else; it is created on the first call that needs it, renewed when the
/// instance renews it, and dropped on logout.
#[derive(Debug)]
pub struct PiHoleClient {
    config: InstanceConfig,
    session_token: Option<String>,
}

impl PiHoleClient {
    /// The cached session id.
    pub closed spec fn token(&self) -> Option<Seq<char>> {
        text_of(self.session_token)
    }

    /// The instance that the client speaks to.
    pub closed spec fn instance(&self) -> InstanceConfig {
        self.config
    }

    /// A client for the instance, without a session.
    pub fn new(config: InstanceConfig) -> (client: Self)
        ensures
            client.instance() == config,
            client.token() is None,
    {
        PiHoleClient { config, session_token: None }
    }

    /// The instance that the client speaks to.
    pub fn config(&self) -> (config: &InstanceConfig)
        ensures
            *config == self.instance(),
    {
        &self.config
    }

    /// The instance's host and port, by which it is named in messages.
    pub fn instance_label(&self) -> (label: (&str, u16))
        ensures
            label.0@ == self.instance().host@,
            label.1 == self.instance().port,
    {
        (self.config.host.as_str(), self.config.port)
    }

    /// The base address of the instance's API.
    pub fn base_url(&self) -> (url: String)
        ensures
            url@ == base_url_of(self.instance()),
    {
        let mut url = self.config.schema.clone();
        url.append("://");
        url.append(self.config.host.as_str());
        url.append(":");
        let ghost before = url@;
        append_decimal(&mut url, self.config.port as usize);
        url.append("/api");
        assert(url@ =~= base_url_of(self.instance()));
        url
    }

    /// The password to authenticate with: the one given, or the configured
    /// credential.
    pub fn password<'a>(&'a self, given: &'a Option<String>) -> (password: &'a str)
        ensures
            password@ == match *given {
                Some(p) => p@,
                None => self.instance().api_key@,
            },
    {
        match given {
            Some(p) => p.as_str(),
            None => self.config.api_key.as_str(),
        }
    }

    /// The value of the session header: the cached session id, or nothing.
    pub fn get_session_token(&self) -> (token: String)
        ensures
            token@ == match self.token() {
                Some(t) => t,
                None => Seq::<char>::empty(),
            },
    {
        match &self.session_token {
            Some(t) => t.clone(),
            None => String::new(),
        }
    }

    /// The first step of making sure that a session is open: with no cached
    /// session id, authenticate; with one, ask the instance.
    pub fn ensure_authenticated(&self) -> (step: AuthStep)
        ensures
            step == if self.token() is None {
                AuthStep::Authenticate
            } else {
                AuthStep::CheckSession
            },
    {
        match &self.session_token {
            Some(_) => AuthStep::CheckSession,
            None => AuthStep::Authenticate,
        }
    }

    /// Takes the instance's answer about the session and tells whether the
    /// session holds. A renewed session id is cached. Where the session does
    /// not hold, the caller authenticates again.
    pub fn is_logged_in(&mut self, answer: SessionAnswer) -> (valid: bool)
        ensures
            final(self).instance() == old(self).instance(),
            match answer {
                SessionAnswer::Unauthorized => !valid && final(self).token() == old(self).token(),
                SessionAnswer::Session { valid: holds, sid } => valid == holds && final(self).token() == match sid {
                    Some(t) => Some(t@),
                    None => old(self).token(),
                },
            },
    {
        match answer {
            SessionAnswer::Unauthorized => false,
            SessionAnswer::Session { valid, sid } => {
                match sid {
                    Some(t) => {
                        self.session_token = Some(t);
                    },
                    None => {},
                }
                valid
            },
        }
    }

    /// Takes the session id of the instance's answer to an authentication. An
    /// answer without a session id means that the credential was refused; the
    /// cache is then left as it was.
    pub fn authenticate(&mut self, sid: Option<String>) -> (r: Result<(), SyncError>)
        ensures
            final(self).instance() == old(self).instance(),
            match sid {
                Some(t) => r is Ok && final(self).token() == Some(t@),
                None => r == Err::<(), SyncError>(SyncError::Authentication) && final(self).token()
                    == old(self).token(),
            },
    {
        match sid {
            Some(t) => {
                self.session_token = Some(t);
                Ok(())
            },
            None => Err(SyncError::Authentication),
        }
    }

    /// The wait for the instance to answer again after its configuration was
    /// applied.
    pub fn patch_config_and_wait_for_ftl_readiness(&self) -> (wait: ReadinessWait)
        ensures
            wait.timeout_ms() == CONFIG_READINESS_TIMEOUT_MS,
            wait.attempts() == 0,
    {
        ReadinessWait::new(CONFIG_READINESS_TIMEOUT_MS)
    }

    /// A wait of at most `timeout_ms` milliseconds for the instance to
    /// answer.
    pub fn wait_for_ready(&self, timeout_ms: u64) -> (wait: ReadinessWait)
        ensures
            wait.timeout_ms() == timeout_ms,
            wait.attempts() == 0,
    {
        ReadinessWait::new(timeout_ms)
    }

    /// The first step of a logout: nothing where no session id is cached.
    pub fn logout(&self) -> (step: LogoutStep)
        ensures
            step == if self.token() is None {
                LogoutStep::Nothing
            } else {
                LogoutStep::Invalidate
            },
    {
        match &self.session_token {
            Some(_) => LogoutStep::Invalidate,
            None => LogoutStep::Nothing,
        }
    }

    /// Takes the outcome of the request that invalidates the session: the
    /// status of the answer, or none where the request failed. The cached
    /// session id is dropped whatever the outcome. The logout succeeded
    /// where the status says that the session is gone.
    pub fn finish_logout(&mut self, status: Option<u16>) -> (r: Result<(), SyncError>)
        ensures
            final(self).instance() == old(self).instance(),
            final(self).token() is None,
            r is Ok <==> (status matches Some(s) && session_gone(s)),
            r is Err ==> r == Err::<(), SyncError>(SyncError::Transport),
    {
        self.session_token = None;
        match status {
            Some(s) => if s == 410 || (200 <= s && s < 300) || s == 401 {
                Ok(())
            } else {
                Err(SyncError::Transport)
            },
            None => Err(SyncError::Transport),
        }
    }

    /// Takes the instance's answer to a keepalive check and tells whether
    /// the keepalive goes on. A renewed session id is cached. A session that
    /// no longer holds ends the keepalive; it is not opened again here.
    pub fn keepalive(&mut self, answer: SessionAnswer) -> (goes_on: bool)
        ensures
            final(self).instance() == old(self).instance(),
            match answer {
                SessionAnswer::Unauthorized => !goes_on && final(self).token() == old(self).token(),
                SessionAnswer::Session { valid, sid } => goes_on == valid && final(self).token()
                    == match sid {
                    Some(t) => Some(t@),
                    None => old(self).token(),
                },
            },
    {
        self.is_logged_in(answer)
    }
}

/// The configuration tree in the answer to a request for the configuration:
/// the member `config` of the answer.
pub open spec fn config_in(answer: JsonTree) -> Option<JsonTree> {
    match answer {
        JsonTree::Object(members) => member_of(members, "config"@),
        _ => None,
    }
}

/// The tree of an optional text: the text, or null.
pub open spec fn text_or_null(text: Option<Seq<char>>) -> JsonTree {
    match text {
        Some(t) => JsonTree::Text(t),
        None => JsonTree::Null,
    }
}

/// The tree of a list of ids: an array of numbers.
pub open spec fn ids_tree(ids: Seq<u32>) -> JsonTree {
    JsonTree::Array(ids.map_values(|id: u32| JsonTree::Number(decimal(id as nat))))
}

/// The body of the request that authenticates with `password`.
pub open spec fn auth_body(password: Seq<char>) -> JsonTree {
    JsonTree::Object(seq![("password"@, JsonTree::Text(password))])
}

/// The body of the request that applies a configuration tree: the tree as
/// the member `config`.
pub open spec fn patch_body(config: JsonTree) -> JsonTree {
    JsonTree::Object(seq![("config"@, config)])
}

/// The body of the requests that create or update a group.
pub open spec fn group_body(group: GroupView) -> JsonTree {
    JsonTree::Object(
        seq![
            ("name"@, JsonTree::Text(group.name)),
            ("comment"@, text_or_null(group.comment)),
            ("enabled"@, JsonTree::Bool(group.enabled)),
        ],
    )
}

/// The body of the request that creates a list.
pub open spec fn new_list_body(list: ListView) -> JsonTree {
    JsonTree::Object(
        seq![
            ("address"@, JsonTree::Text(list.address)),
            ("comment"@, text_or_null(list.comment)),
            ("groups"@, ids_tree(list.groups)),
            ("enabled"@, JsonTree::Bool(list.enabled)),
        ],
    )
}

/// The body of the request that updates a list.
pub open spec fn list_body(list: ListView) -> JsonTree {
    JsonTree::Object(
        seq![
            ("comment"@, text_or_null(list.comment)),
            ("groups"@, ids_tree(list.groups)),
            ("enabled"@, JsonTree::Bool(list.enabled)),
            ("type"@, JsonTree::Text(list.list_type)),
        ],
    )
}

/// A request to an instance's API: the operation, the list type that goes
/// into the query where the operation concerns a list, and the body.
#[derive(Debug)]
pub struct Request {
    pub call: ApiCall,
    pub list_type: Option<String>,
    pub body: Option<JsonValue>,
}

/// The value of a [`Request`].
pub struct RequestView {
    pub method: HttpMethod,
    pub path: Seq<char>,
    pub list_type: Option<Seq<char>>,
    pub body: Option<JsonTree>,
}

impl View for Request {
    type V = RequestView;

    open spec fn view(&self) -> RequestView {
        RequestView {
            method: method_of(self.call),
            path: path_of(self.call),
            list_type: text_of(self.list_type),
            body: match self.body {
                Some(body) => Some(body@),
                None => None,
            },
        }
    }
}

fn text_value(text: &Option<String>) -> (r: JsonValue)
    ensures
        r@ == text_or_null(text_of(*text)),
{
    match text {
        Some(t) => JsonValue::Text(t.clone()),
        None => JsonValue::Null,
    }
}

fn ids_value(ids: &Vec<u32>) -> (r: JsonValue)
    ensures
        r@ == ids_tree(ids@),
{
    let mut items: Vec<JsonValue> = Vec::new();
    let mut i: usize = 0;
    while i < ids.len()
        invariant
            i <= ids.len(),
            items@.len() == i,
            forall|k: int|
                0 <= k < i ==> (#[trigger] items@[k])@ == JsonTree::Number(
                    decimal(ids@[k] as nat),
                ),
        decreases ids.len() - i,
    {
        let mut digits = String::new();
        append_decimal(&mut digits, ids[i] as usize);
        assert(digits@ =~= decimal(ids@[i as int] as nat));
        items.push(JsonValue::Number(digits));
        i += 1;
    }
    proof {
        lemma_array_view(items);
        assert(trees(items@) =~= ids@.map_values(
            |id: u32| JsonTree::Number(decimal(id as nat)),
        ));
    }
    JsonValue::Array(items)
}

fn object_value(members: Vec<(String, JsonValue)>) -> (r: JsonValue)
    ensures
        r@ == JsonTree::Object(member_trees(members@)),
{
    proof {
        lemma_object_view(members);
    }
    JsonValue::Object(members)
}

impl PiHoleClient {
    /// The request that authenticates with the given password, or with the
    /// configured credential where none is given.
    pub fn authentication(&self, given: &Option<String>) -> (request: Request)
        ensures
            request@ == (RequestView {
                method: HttpMethod::Post,
                path: "/auth"@,
                list_type: None,
                body: Some(
                    auth_body(
                        match *given {
                            Some(p) => p@,
                            None => self.instance().api_key@,
                        },
                    ),
                ),
            }),
    {
        let mut members: Vec<(String, JsonValue)> = Vec::new();
        let password = String::from_str(self.password(given));
        members.push((String::from_str("password"), JsonValue::Text(password)));
        let body = object_value(members);
        assert(body@->Object_0 =~= auth_body(password@)->Object_0);
        Request { call: ApiCall::Authenticate, list_type: None, body: Some(body) }
    }

    /// The configuration tree in the answer to a request for the
    /// configuration. An answer without a member `config` is a failed
    /// request.
    pub fn get_config(answer: &JsonValue) -> (r: Result<JsonValue, SyncError>)
        ensures
            match r {
                Ok(config) => config_in(answer@) == Some(config@),
                Err(e) => config_in(answer@) is None && e == SyncError::Transport,
            },
    {
        match answer {
            JsonValue::Object(members) => {
                proof {
                    lemma_object_view(*members);
                }
                let ghost all = member_trees(members@);
                let mut i: usize = members.len();
                assert(all.take(i as int) =~= all);
                while i > 0
                    invariant
                        i <= members.len(),
                        all == member_trees(members@),
                        answer@ == JsonTree::Object(all),
                        member_of(all, "config"@) == member_of(all.take(i as int), "config"@),
                    decreases i,
                {
                    i -= 1;
                    assert(all.take(i + 1).drop_last() =~= all.take(i as int));
                    assert(all.take(i + 1).last() == all[i as int]);
                    let wanted = String::from_str("config");
                    if members[i].0 == wanted {
                        return Ok(members[i].1.deep_copy());
                    }
                }
                Err(SyncError::Transport)
            },
            _ => Err(SyncError::Transport),
        }
    }

    /// The request that applies a configuration tree.
    pub fn patch_config(config: JsonValue) -> (request: Request)
        ensures
            request@ == (RequestView {
                method: HttpMethod::Patch,
                path: "/config"@,
                list_type: None,
                body: Some(patch_body(config@)),
            }),
    {
        let mut members: Vec<(String, JsonValue)> = Vec::new();
        members.push((String::from_str("config"), config));
        let body = object_value(members);
        assert(body@->Object_0 =~= patch_body(config@)->Object_0);
        Request { call: ApiCall::PatchConfig, list_type: None, body: Some(body) }
    }

    fn group_value(group: &Group) -> (r: JsonValue)
        ensures
            r@ == group_body(group@),
    {
        let mut members: Vec<(String, JsonValue)> = Vec::new();
        members.push((String::from_str("name"), JsonValue::Text(group.name.clone())));
        members.push((String::from_str("comment"), text_value(&group.comment)));
        members.push((String::from_str("enabled"), JsonValue::Bool(group.enabled)));
        let body = object_value(members);
        assert(body@->Object_0 =~= group_body(group@)->Object_0);
        body
    }

    /// The request that creates a group.
    pub fn add_group(group: &Group) -> (request: Request)
        ensures
            request@ == (RequestView {
                method: HttpMethod::Post,
                path: "/groups"@,
                list_type: None,
                body: Some(group_body(group@)),
            }),
    {
        Request { call: ApiCall::AddGroup, list_type: None, body: Some(Self::group_value(group)) }
    }

    /// The request that updates the group of the name `existing_name` to the
    /// given group.
    pub fn update_group(existing_name: &str, group: &Group) -> (request: Request)
        ensures
            request@ == (RequestView {
                method: HttpMethod::Put,
                path: "/groups/"@ + existing_name@,
                list_type: None,
                body: Some(group_body(group@)),
            }),
    {
        Request {
            call: ApiCall::UpdateGroup(String::from_str(existing_name)),
            list_type: None,
            body: Some(Self::group_value(group)),
        }
    }

    /// The request that creates a list.
    pub fn add_list(list: &List) -> (request: Request)
        ensures
            request@ == (RequestView {
                method: HttpMethod::Post,
                path: "/lists"@,
                list_type: Some(list@.list_type),
                body: Some(new_list_body(list@)),
            }),
    {
        let mut members: Vec<(String, JsonValue)> = Vec::new();
        members.push((String::from_str("address"), JsonValue::Text(list.address.clone())));
        members.push((String::from_str("comment"), text_value(&list.comment)));
        members.push((String::from_str("groups"), ids_value(&list.groups)));
        members.push((String::from_str("enabled"), JsonValue::Bool(list.enabled)));
        let body = object_value(members);
        assert(body@->Object_0 =~= new_list_body(list@)->Object_0);
        Request {
            call: ApiCall::AddList,
            list_type: Some(list.list_type.clone()),
            body: Some(body),
        }
    }

    /// The request that updates the list of the same address and type.
    pub fn update_list(list: &List) -> (request: Request)
        ensures
            request@ == (RequestView {
                method: HttpMethod::Put,
                path: "/lists/"@ + list@.address,
                list_type: Some(list@.list_type),
                body: Some(list_body(list@)),
            }),
    {
        let mut members: Vec<(String, JsonValue)> = Vec::new();
        members.push((String::from_str("comment"), text_value(&list.comment)));
        members.push((String::from_str("groups"), ids_value(&list.groups)));
        members.push((String::from_str("enabled"), JsonValue::Bool(list.enabled)));
        members.push((String::from_str("type"), JsonValue::Text(list.list_type.clone())));
        let body = object_value(members);
        assert(body@->Object_0 =~= list_body(list@)->Object_0);
        Request {
            call: ApiCall::UpdateList(list.address.clone()),
            list_type: Some(list.list_type.clone()),
            body: Some(body),
        }
    }
}

/// Whether a status reports a mistake of the client: 400 to 499.
pub open spec fn client_error(status: u16) -> bool {
    400 <= status < 500
}

/// Whether a status reports an error: 400 to 599.
pub open spec fn error_status(status: u16) -> bool {
    400 <= status < 600
}

/// Whether a status reports an error.
pub fn is_error_status(status: u16) -> (r: bool)
    ensures
        r == error_status(status),
{
    400 <= status && status < 600
}

/// The name under which the snapshot archive is uploaded and kept.
pub const BACKUP_FILE_NAME: &'static str = "pihole_backup.zip";

impl PiHoleClient {
    /// The app password in the instance's answer, given the status of the
    /// answer and the password that it holds, if it holds one. A status that
    /// reports a mistake of the client means that the instance refused; an
    /// answer that cannot be read is a failed request.
    pub fn fetch_app_password(status: u16, answer: Option<AppPassword>) -> (r: Result<
        AppPassword,
        SyncError,
    >)
        ensures
            match r {
                Ok(app) => !client_error(status) && answer == Some(app),
                Err(e) => e == if client_error(status) {
                    SyncError::Authentication
                } else {
                    SyncError::Transport
                } && (client_error(status) || answer is None),
            },
    {
        if 400 <= status && status < 500 {
            Err(SyncError::Authentication)
        } else {
            match answer {
                Some(app) => Ok(app),
                None => Err(SyncError::Transport),
            }
        }
    }

    /// Whether the upload of a snapshot succeeded, by the status of the
    /// answer.
    pub fn upload_backup(status: u16) -> (r: Result<(), SyncError>)
        ensures
            r is Ok <==> !error_status(status),
            r is Err ==> r == Err::<(), SyncError>(SyncError::Transport),
    {
        if is_error_status(status) {
            Err(SyncError::Transport)
        } else {
            Ok(())
        }
    }
}

} // verus!
