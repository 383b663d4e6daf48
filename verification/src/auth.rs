//! Request authentication policy: the daemon bearer token, browser sessions
//! bound to a cookie and a CSRF token, Host and Origin checks.
use vstd::prelude::*;
use crate::config::loopback_host;
use crate::encoding::{constant_time_equal, random_secret, is_lower_hex_char};
use crate::error::{ApiError, STATUS_FORBIDDEN, STATUS_UNAUTHORIZED};
use crate::net::{parse_url, url_parse_result};
use crate::text::{
    chars_of, copy_range, eq_ignore_ascii_case, eq_ignore_ascii_case_spec, find_char,
    first_index_of, lemma_first_index_is, scan_to, seq_eq, split_on, string_of, trim, trim_spec,
    str_eq, decimal, u64_to_decimal,
};

verus! {

pub open spec fn session_cookie_name() -> Seq<char> {
    "openchatcut_session"@
}

/// The name and value of one `name=value` cookie part, after trimming.
pub open spec fn cookie_pair(part: Seq<char>) -> Option<(Seq<char>, Seq<char>)> {
    let t = trim_spec(part);
    match first_index_of(t, '=') {
        None => None,
        Some(i) => if 0 <= i < t.len() {
            Some((t.subrange(0, i), t.subrange(i + 1, t.len() as int)))
        } else {
            None
        },
    }
}

/// The value of the first part named `name`.
pub open spec fn cookie_in_parts(parts: Seq<Seq<char>>, name: Seq<char>) -> Option<Seq<char>>
    decreases parts.len(),
{
    if parts.len() == 0 {
        None
    } else {
        match cookie_pair(parts[0]) {
            Some(kv) => if kv.0 == name {
                Some(kv.1)
            } else {
                cookie_in_parts(parts.drop_first(), name)
            },
            None => cookie_in_parts(parts.drop_first(), name),
        }
    }
}

/// The value of the first cookie named `name` across the `Cookie` header
/// values, each split on `;`.
pub open spec fn cookie_in_headers(headers: Seq<Seq<char>>, name: Seq<char>) -> Option<Seq<char>>
    decreases headers.len(),
{
    if headers.len() == 0 {
        None
    } else {
        match cookie_in_parts(split_on(headers[0], ';'), name) {
            Some(v) => Some(v),
            None => cookie_in_headers(headers.drop_first(), name),
        }
    }
}

pub open spec fn strings_view(v: Seq<String>) -> Seq<Seq<char>> {
    v.map_values(|s: String| s@)
}

fn cookie_in_header_from(h: &[char], start: usize, name: &[char]) -> (r: Option<Vec<char>>)
    requires
        start <= h.len(),
    ensures
        match r {
            Some(v) => cookie_in_parts(split_on(h@.subrange(start as int, h.len() as int), ';'), name@) == Some(v@),
            None => cookie_in_parts(split_on(h@.subrange(start as int, h.len() as int), ';'), name@) is None,
        },
    decreases h.len() - start,
{
    let ghost rest = h@.subrange(start as int, h.len() as int);
    let k = scan_to(h, start, ';');
    proof {
        assert forall|j: int| 0 <= j < k - start implies rest[j] != ';' by {
            assert(rest[j] == h@[start + j]);
        }
        if k < h.len() {
            assert(rest[k - start] == h@[k as int]);
        }
        lemma_first_index_is(rest, ';', k - start);
    }
    let part = copy_range(h, start, k);
    let t = trim(part.as_slice());
    let ghost tail = if k < h.len() {
        split_on(h@.subrange(k + 1, h.len() as int), ';')
    } else {
        Seq::<Seq<char>>::empty()
    };
    proof {
        assert(part@ == rest.subrange(0, k - start));
        if k < h.len() {
            assert(rest.subrange(k - start + 1, rest.len() as int) =~= h@.subrange(
                k + 1,
                h.len() as int,
            ));
            assert(split_on(rest, ';') == seq![part@] + tail);
        } else {
            assert(rest.subrange(0, k - start) =~= rest);
            assert(split_on(rest, ';') == seq![part@]);
            assert(seq![part@] =~= seq![part@] + tail);
        }
        assert((seq![part@] + tail)[0] == part@);
        assert((seq![part@] + tail).drop_first() =~= tail);
    }
    proof {
        crate::text::lemma_first_index_bounds(t@, '=');
    }
    match find_char(t.as_slice(), '=') {
        Some(i) => {
            let n = t.len();
            assert(i < n);
            let key = copy_range(t.as_slice(), 0, i);
            if seq_eq(key.as_slice(), name) {
                let value = copy_range(t.as_slice(), i + 1, n);
                return Some(value);
            }
        },
        None => {},
    }
    if k == h.len() {
        assert(cookie_in_parts(tail, name@) is None);
        None
    } else {
        cookie_in_header_from(h, k + 1, name)
    }
}

/// The value of the first cookie named `name` in the `Cookie` header values.
pub fn cookie_value(headers: &Vec<String>, name: &str) -> (r: Option<String>)
    ensures
        match r {
            Some(v) => cookie_in_headers(strings_view(headers@), name@) == Some(v@),
            None => cookie_in_headers(strings_view(headers@), name@) is None,
        },
{
    let name_chars = chars_of(name);
    let mut i: usize = 0;
    assert(strings_view(headers@).subrange(0, headers.len() as int) =~= strings_view(headers@));
    while i < headers.len()
        invariant
            i <= headers.len(),
            name_chars@ == name@,
            cookie_in_headers(strings_view(headers@), name@) == cookie_in_headers(
                strings_view(headers@).subrange(i as int, headers.len() as int),
                name@,
            ),
        decreases headers.len() - i,
    {
        let ghost rest = strings_view(headers@).subrange(i as int, headers.len() as int);
        assert(rest[0] == headers@[i as int]@);
        assert(rest.drop_first() =~= strings_view(headers@).subrange(i + 1, headers.len() as int));
        let h = chars_of(headers[i].as_str());
        assert(h@.subrange(0, h.len() as int) =~= h@);
        match cookie_in_header_from(h.as_slice(), 0, name_chars.as_slice()) {
            Some(v) => {
                return Some(string_of(v.as_slice()));
            },
            None => {},
        }
        i += 1;
    }
    None
}

/// The `Host` header names `localhost` or a loopback address.
pub open spec fn loopback_host_header(host: Option<Seq<char>>) -> bool {
    match host {
        None => false,
        Some(h) => match url_parse_result("http://"@ + h) {
            None => false,
            Some(p) => p.host is Some && loopback_host(p.host->0, p.host_kind),
        },
    }
}

/// Whether the request's `Host` resolves to the loopback interface.
pub fn valid_loopback_host(host: Option<&str>) -> (r: bool)
    ensures
        r == loopback_host_header(match host {
            Some(h) => Some(h@),
            None => None,
        }),
{
    let h = match host {
        Some(h) => h,
        None => return false,
    };
    let mut url = chars_of("http://");
    let rest = chars_of(h);
    let mut i: usize = 0;
    let ghost base = url@;
    while i < rest.len()
        invariant
            i <= rest.len(),
            url@ == base + rest@.subrange(0, i as int),
        decreases rest.len() - i,
    {
        url.push(rest[i]);
        i += 1;
        assert(base + rest@.subrange(0, i as int) =~= (base + rest@.subrange(0, i - 1)).push(
            rest@[i - 1],
        ));
    }
    assert(rest@.subrange(0, rest.len() as int) =~= rest@);
    let text = string_of(url.as_slice());
    let parts = match parse_url(text.as_str()) {
        Some(p) => p,
        None => return false,
    };
    match &parts.host {
        Some(host_name) => {
            let name = chars_of(host_name.as_str());
            let localhost = chars_of("localhost");
            if eq_ignore_ascii_case(name.as_slice(), localhost.as_slice()) {
                return true;
            }
            match parts.host_kind {
                Some(crate::net::HostKind::Ip(ip)) => ip.is_loopback(),
                _ => false,
            }
        },
        None => false,
    }
}

} // verus!

verus! {

/// The most sessions kept at once; the oldest is evicted beyond this.
pub const MAX_BROWSER_SESSIONS: usize = 1024;

/// The latest instant a UTC timestamp can hold, in milliseconds
/// (+262142-12-31T23:59:59.999Z).
pub const MAX_TIMESTAMP_MILLIS: i64 = 8_210_266_876_799_999;

/// Fallback session lifetime when the configured one is out of range.
pub const FALLBACK_SESSION_MILLIS: i64 = 900_000;

/// Longest session lifetime, in seconds, that converts to a time delta.
pub const MAX_SESSION_TTL_SECS: u64 = 9_223_372_036_854_775;

/// How a request was authenticated.
#[derive(Debug, Clone, Copy, PartialEq, Eq, Structural)]
pub enum RequestIdentity {
    DaemonToken,
    Browser,
}

#[derive(Debug)]
pub struct BrowserSession {
    pub csrf_token: String,
    /// Expiry instant, milliseconds since the Unix epoch.
    pub expires_at: i64,
}

#[derive(Debug)]
pub struct SessionEntry {
    pub token: String,
    pub session: BrowserSession,
}

/// What a browser receives when a session is issued.
#[derive(Debug)]
pub struct BrowserBootstrap {
    pub csrf_token: String,
    pub expires_at: i64,
}

#[derive(Debug)]
pub struct IssuedBrowserSession {
    pub bootstrap: BrowserBootstrap,
    /// The `Set-Cookie` header value.
    pub set_cookie: String,
}

/// The daemon's authentication state: its bearer token, the allowed browser
/// origins and the live browser sessions.
pub struct AuthState {
    daemon_token: String,
    allowed_origins: vstd::hash_set::StringHashSet,
    sessions: Vec<SessionEntry>,
    session_ttl_secs: u64,
    secure_cookie: bool,
}

/// Session lifetime in milliseconds; the fallback when out of range.
pub open spec fn ttl_millis(ttl_secs: u64) -> int {
    if ttl_secs <= MAX_SESSION_TTL_SECS {
        ttl_secs * 1000
    } else {
        FALLBACK_SESSION_MILLIS as int
    }
}

/// The `Set-Cookie` value for a session token.
pub open spec fn session_cookie_text(token: Seq<char>, ttl_secs: u64, secure: bool) -> Seq<char> {
    session_cookie_name() + "="@ + token + "; HttpOnly; SameSite=Strict; Path=/api/v1; Max-Age="@
        + decimal(ttl_secs as nat) + (if secure {
        "; Secure"@
    } else {
        ""@
    })
}

pub open spec fn tokens_distinct(s: Seq<SessionEntry>) -> bool {
    forall|i: int, j: int| 0 <= i < s.len() && 0 <= j < s.len() && i != j ==> s[i].token@ != s[j].token@
}

/// The session stored under a token, as (CSRF token, expiry).
pub open spec fn session_of(s: Seq<SessionEntry>, token: Seq<char>) -> Option<(Seq<char>, i64)>
    decreases s.len(),
{
    if s.len() == 0 {
        None
    } else if s[0].token@ == token {
        Some((s[0].session.csrf_token@, s[0].session.expires_at))
    } else {
        session_of(s.drop_first(), token)
    }
}

/// The credentials of an `Authorization: Bearer <credentials>` value.
pub open spec fn bearer_credentials(value: Seq<char>) -> Option<Seq<char>> {
    match first_index_of(value, ' ') {
        Some(i) => if 0 <= i < value.len() && eq_ignore_ascii_case_spec(
            value.subrange(0, i),
            "bearer"@,
        ) {
            Some(value.subrange(i + 1, value.len() as int))
        } else {
            None
        },
        None => None,
    }
}

/// The identity a request proves: the bearer token first, then a live
/// session named by the session cookie (with its CSRF token).
pub open spec fn identity_spec(
    sessions: Seq<SessionEntry>,
    daemon_token: Seq<char>,
    authorization: Option<Seq<char>>,
    cookies: Seq<Seq<char>>,
    now: i64,
) -> Option<(RequestIdentity, Option<Seq<char>>)> {
    let bearer = match authorization {
        Some(a) => bearer_credentials(a) == Some(daemon_token),
        None => false,
    };
    if bearer {
        Some((RequestIdentity::DaemonToken, None))
    } else {
        match cookie_in_headers(cookies, session_cookie_name()) {
            None => None,
            Some(token) => match session_of(sessions, token) {
                Some(s) => if s.1 > now {
                    Some((RequestIdentity::Browser, Some(s.0)))
                } else {
                    None
                },
                None => None,
            },
        }
    }
}

/// Why a request was refused before reaching a handler.
#[derive(Debug, Clone, Copy, PartialEq, Eq, Structural)]
pub enum SecurityFailure {
    InvalidHost,
    OriginNotAllowed,
    PreflightOriginRequired,
    BootstrapOriginRequired,
    AuthenticationRequired,
    WriteOriginRequired,
    CsrfFailed,
}

impl SecurityFailure {
    /// The API error returned for the failure.
    pub fn to_api_error(&self) -> (e: ApiError)
        ensures
            e.status == (if *self == SecurityFailure::AuthenticationRequired {
                STATUS_UNAUTHORIZED
            } else {
                STATUS_FORBIDDEN
            }),
            e.code@ == match *self {
                SecurityFailure::InvalidHost => "invalid_host"@,
                SecurityFailure::OriginNotAllowed => "origin_not_allowed"@,
                SecurityFailure::PreflightOriginRequired => "origin_required"@,
                SecurityFailure::BootstrapOriginRequired => "origin_required"@,
                SecurityFailure::AuthenticationRequired => "authentication_required"@,
                SecurityFailure::WriteOriginRequired => "origin_required"@,
                SecurityFailure::CsrfFailed => "csrf_failed"@,
            },
    {
        match self {
            SecurityFailure::InvalidHost => ApiError::forbidden(
                "invalid_host",
                "the HTTP Host must resolve to the loopback interface",
            ),
            SecurityFailure::OriginNotAllowed => ApiError::forbidden(
                "origin_not_allowed",
                "browser origin is not allowed",
            ),
            SecurityFailure::PreflightOriginRequired => ApiError::forbidden(
                "origin_required",
                "CORS preflight requires an allowed Origin",
            ),
            SecurityFailure::BootstrapOriginRequired => ApiError::forbidden(
                "origin_required",
                "browser session bootstrap requires an allowed Origin",
            ),
            SecurityFailure::AuthenticationRequired => ApiError::new(
                STATUS_UNAUTHORIZED,
                "authentication_required",
                "provide the daemon bearer token or a valid browser session",
            ),
            SecurityFailure::WriteOriginRequired => ApiError::forbidden(
                "origin_required",
                "browser writes require an allowed Origin",
            ),
            SecurityFailure::CsrfFailed => ApiError::forbidden(
                "csrf_failed",
                "browser writes require a valid X-OpenChatCut-CSRF header",
            ),
        }
    }
}

/// The request method, as far as the policy distinguishes it.
#[derive(Debug, Clone, Copy, PartialEq, Eq, Structural)]
pub enum RequestMethod {
    Options,
    Get,
    Head,
    /// Any other (writing) method.
    Other,
}

/// What the security layer does with a request.
#[derive(Debug)]
pub enum SecurityOutcome {
    /// An error response without security headers.
    Refuse(SecurityFailure),
    /// An error response with `no-store`, `nosniff` and, for an allowed
    /// origin, CORS headers.
    Deny(SecurityFailure, Option<String>),
    /// An empty CORS preflight response for the origin.
    Preflight(String),
    /// Pass the request on, with the proven identity (none on the public
    /// routes) and the origin to echo in CORS headers.
    Forward(Option<RequestIdentity>, Option<String>),
}

pub enum OutcomeView {
    Refuse(SecurityFailure),
    Deny(SecurityFailure, Option<Seq<char>>),
    Preflight(Seq<char>),
    Forward(Option<RequestIdentity>, Option<Seq<char>>),
}

impl View for SecurityOutcome {
    type V = OutcomeView;

    open spec fn view(&self) -> OutcomeView {
        match self {
            SecurityOutcome::Refuse(f) => OutcomeView::Refuse(*f),
            SecurityOutcome::Deny(f, o) => OutcomeView::Deny(*f, crate::net::opt_string_view(*o)),
            SecurityOutcome::Preflight(o) => OutcomeView::Preflight(o@),
            SecurityOutcome::Forward(i, o) => OutcomeView::Forward(*i, crate::net::opt_string_view(*o)),
        }
    }
}

/// The security decision for a request, given whether its host is a
/// loopback host, its `Origin` (and whether that origin is allowed), method
/// and path, the identity it proves and the CSRF header it carries.
pub open spec fn security_spec(
    host_ok: bool,
    origin: Option<Seq<char>>,
    origin_allowed: bool,
    method: RequestMethod,
    path: Seq<char>,
    identity: Option<(RequestIdentity, Option<Seq<char>>)>,
    csrf_header: Option<Seq<char>>,
) -> OutcomeView {
    if !host_ok {
        OutcomeView::Refuse(SecurityFailure::InvalidHost)
    } else if origin is Some && !origin_allowed {
        OutcomeView::Refuse(SecurityFailure::OriginNotAllowed)
    } else if method == RequestMethod::Options {
        match origin {
            None => OutcomeView::Refuse(SecurityFailure::PreflightOriginRequired),
            Some(o) => OutcomeView::Preflight(o),
        }
    } else if path == "/api/v1/session/bootstrap"@ && origin is None {
        OutcomeView::Refuse(SecurityFailure::BootstrapOriginRequired)
    } else if path == "/health"@ || path == "/api/v1/session/bootstrap"@ {
        OutcomeView::Forward(None, origin)
    } else {
        match identity {
            None => OutcomeView::Deny(SecurityFailure::AuthenticationRequired, origin),
            Some((id, csrf)) => {
                let write = !(method == RequestMethod::Get || method == RequestMethod::Head);
                if write && id == RequestIdentity::Browser && origin is None {
                    OutcomeView::Deny(SecurityFailure::WriteOriginRequired, origin)
                } else if write && id == RequestIdentity::Browser && !(csrf_header is Some
                    && csrf is Some && csrf_header == csrf) {
                    OutcomeView::Deny(SecurityFailure::CsrfFailed, origin)
                } else {
                    OutcomeView::Forward(Some(id), origin)
                }
            },
        }
    }
}

impl AuthState {
    /// Well-formed: distinct session tokens and at most the session cap.
    pub closed spec fn wf(&self) -> bool {
        &&& tokens_distinct(self.sessions@)
        &&& self.sessions@.len() <= MAX_BROWSER_SESSIONS
    }

    pub closed spec fn sessions_view(&self) -> Seq<SessionEntry> {
        self.sessions@
    }

    pub closed spec fn daemon_token_view(&self) -> Seq<char> {
        self.daemon_token@
    }

    pub closed spec fn allowed_origins_view(&self) -> Set<Seq<char>> {
        self.allowed_origins@
    }

    pub closed spec fn ttl_secs(&self) -> u64 {
        self.session_ttl_secs
    }

    pub closed spec fn secure(&self) -> bool {
        self.secure_cookie
    }

    pub fn new(
        daemon_token: String,
        allowed_origins: Vec<String>,
        session_ttl_secs: u64,
        secure_cookie: bool,
    ) -> (s: AuthState)
        ensures
            s.wf(),
            s.sessions_view().len() == 0,
            s.daemon_token_view() == daemon_token@,
            s.allowed_origins_view() == strings_view(allowed_origins@).to_set(),
            s.ttl_secs() == session_ttl_secs,
            s.secure() == secure_cookie,
    {
        let origins = crate::content::string_set(&allowed_origins);
        proof {
            assert(strings_view(allowed_origins@) =~= crate::content::string_seq_view(allowed_origins@));
        }
        AuthState {
            daemon_token,
            allowed_origins: origins,
            sessions: Vec::new(),
            session_ttl_secs,
            secure_cookie,
        }
    }

    /// Whether the origin is one of the allowed browser origins.
    pub fn origin_allowed(&self, origin: &str) -> (r: bool)
        ensures
            r == self.allowed_origins_view().contains(origin@),
    {
        self.allowed_origins.contains(origin)
    }
}

} // verus!

verus! {

/// Some entry stores `(csrf, expiry)` under `token`.
pub open spec fn has_entry(s: Seq<SessionEntry>, token: Seq<char>, v: (Seq<char>, i64)) -> bool {
    exists|i: int|
        0 <= i < s.len() && #[trigger] s[i].token@ == token && s[i].session.csrf_token@ == v.0
            && s[i].session.expires_at == v.1
}

pub open spec fn entry_view(e: SessionEntry) -> (Seq<char>, i64) {
    (e.session.csrf_token@, e.session.expires_at)
}

proof fn lemma_session_of(s: Seq<SessionEntry>, token: Seq<char>)
    requires
        tokens_distinct(s),
    ensures
        forall|i: int|
            0 <= i < s.len() && #[trigger] s[i].token@ == token ==> session_of(s, token) == Some(
                entry_view(s[i]),
            ),
        (forall|i: int| 0 <= i < s.len() ==> #[trigger] s[i].token@ != token) ==> session_of(
            s,
            token,
        ) is None,
    decreases s.len(),
{
    if s.len() > 0 {
        let t = s.drop_first();
        assert(tokens_distinct(t)) by {
            assert forall|i: int, j: int|
                0 <= i < t.len() && 0 <= j < t.len() && i != j implies t[i].token@ != t[j].token@ by {
                assert(t[i] == s[i + 1] && t[j] == s[j + 1]);
            }
        }
        lemma_session_of(t, token);
        assert forall|i: int|
            0 <= i < s.len() && #[trigger] s[i].token@ == token implies session_of(s, token) == Some(
                entry_view(s[i]),
            ) by {
            if i > 0 {
                assert(t[i - 1] == s[i]);
                assert(s[0].token@ != token);
            }
        }
        if forall|i: int| 0 <= i < s.len() ==> #[trigger] s[i].token@ != token {
            assert forall|i: int| 0 <= i < t.len() implies #[trigger] t[i].token@ != token by {
                assert(t[i] == s[i + 1]);
            }
        }
    }
}

/// `session_of` read through any entry: the unique entry of a token.
proof fn lemma_session_of_has_entry(s: Seq<SessionEntry>)
    requires
        tokens_distinct(s),
    ensures
        forall|t: Seq<char>, v: (Seq<char>, i64)|
            #![trigger has_entry(s, t, v)]
            #![trigger session_of(s, t), has_entry(s, t, v)]
            session_of(s, t) == Some(v) <==> has_entry(s, t, v),
{
    assert forall|t: Seq<char>, v: (Seq<char>, i64)|
        #![trigger has_entry(s, t, v)]
        session_of(s, t) == Some(v) <==> has_entry(s, t, v) by {
        lemma_session_of(s, t);
        if has_entry(s, t, v) {
            let i = choose|i: int|
                0 <= i < s.len() && #[trigger] s[i].token@ == t && s[i].session.csrf_token@ == v.0
                    && s[i].session.expires_at == v.1;
            assert(session_of(s, t) == Some(entry_view(s[i])));
        }
        if session_of(s, t) == Some(v) {
            if forall|i: int| 0 <= i < s.len() ==> #[trigger] s[i].token@ != t {
                assert(session_of(s, t) is None);
            } else {
                let i = choose|i: int| 0 <= i < s.len() && #[trigger] s[i].token@ == t;
                assert(session_of(s, t) == Some(entry_view(s[i])));
                assert(has_entry(s, t, v));
            }
        }
    }
}

proof fn lemma_distinct_remove(s: Seq<SessionEntry>, k: int)
    requires
        tokens_distinct(s),
        0 <= k < s.len(),
    ensures
        tokens_distinct(s.remove(k)),
        forall|i: int| 0 <= i < s.remove(k).len() ==> #[trigger] s.remove(k)[i] == (if i < k {
            s[i]
        } else {
            s[i + 1]
        }),
{
    let r = s.remove(k);
    assert forall|i: int| 0 <= i < r.len() implies #[trigger] r[i] == (if i < k {
        s[i]
    } else {
        s[i + 1]
    }) by {}
    assert forall|i: int, j: int|
        0 <= i < r.len() && 0 <= j < r.len() && i != j implies r[i].token@ != r[j].token@ by {
        let a = if i < k { i } else { i + 1 };
        let b = if j < k { j } else { j + 1 };
        assert(r[i] == s[a] && r[j] == s[b]);
    }
}

fn clone_entry(e: &SessionEntry) -> (r: SessionEntry)
    ensures
        r.token@ == e.token@,
        entry_view(r) == entry_view(*e),
{
    SessionEntry {
        token: e.token.clone(),
        session: BrowserSession {
            csrf_token: e.session.csrf_token.clone(),
            expires_at: e.session.expires_at,
        },
    }
}

/// The entries whose expiry lies after `now`.
fn retain_live(entries: &Vec<SessionEntry>, now: i64) -> (r: Vec<SessionEntry>)
    requires
        tokens_distinct(entries@),
    ensures
        tokens_distinct(r@),
        r@.len() <= entries@.len(),
        forall|k: int| 0 <= k < r@.len() ==> #[trigger] r@[k].session.expires_at > now,
        forall|k: int|
            0 <= k < r@.len() ==> has_entry(entries@, #[trigger] r@[k].token@, entry_view(r@[k])),
        forall|j: int|
            0 <= j < entries@.len() && #[trigger] entries@[j].session.expires_at > now ==> has_entry(
                r@,
                entries@[j].token@,
                entry_view(entries@[j]),
            ),
{
    let mut r: Vec<SessionEntry> = Vec::new();
    let ghost mut src: Seq<int> = Seq::empty();
    let mut i: usize = 0;
    while i < entries.len()
        invariant
            i <= entries@.len(),
            tokens_distinct(entries@),
            src.len() == r@.len(),
            r@.len() <= i,
            forall|k: int| 0 <= k < src.len() ==> 0 <= #[trigger] src[k] < i,
            forall|k: int, l: int| 0 <= k < l < src.len() ==> src[k] < src[l],
            forall|k: int|
                0 <= k < src.len() ==> #[trigger] r@[k].token@ == entries@[src[k]].token@
                    && entry_view(r@[k]) == entry_view(entries@[src[k]])
                    && r@[k].session.expires_at > now,
            forall|j: int|
                0 <= j < i && #[trigger] entries@[j].session.expires_at > now ==> exists|k: int|
                    0 <= k < src.len() && src[k] == j,
        decreases entries.len() - i,
    {
        let ghost old_src = src;
        if entries[i].session.expires_at > now {
            let e = clone_entry(&entries[i]);
            r.push(e);
            proof {
                src = src.push(i as int);
            }
        }
        proof {
            assert forall|j: int|
                0 <= j < i + 1 && #[trigger] entries@[j].session.expires_at > now implies exists|k: int|
                0 <= k < src.len() && src[k] == j by {
                if j == i {
                    assert(src[src.len() - 1] == j);
                } else {
                    let k = choose|k: int| 0 <= k < old_src.len() && old_src[k] == j;
                    assert(src[k] == j);
                }
            }
        }
        i += 1;
    }
    proof {
        assert forall|a: int, b: int|
            0 <= a < r@.len() && 0 <= b < r@.len() && a != b implies r@[a].token@
            != r@[b].token@ by {
            assert(src[a] != src[b]);
        }
        assert forall|k: int| 0 <= k < r@.len() implies #[trigger] r@[k].session.expires_at > now by {
            assert(r@[k].token@ == entries@[src[k]].token@);
        }
        assert forall|k: int| 0 <= k < r@.len() implies has_entry(
            entries@,
            #[trigger] r@[k].token@,
            entry_view(r@[k]),
        ) by {
            let j = src[k];
            assert(entries@[j].token@ == r@[k].token@);
            assert(entries@[j].session.csrf_token@ == entry_view(r@[k]).0);
            assert(entries@[j].session.expires_at == entry_view(r@[k]).1);
            assert(has_entry(entries@, r@[k].token@, entry_view(r@[k])));
        }
        assert forall|j: int|
            0 <= j < entries@.len() && #[trigger] entries@[j].session.expires_at > now implies has_entry(
            r@,
            entries@[j].token@,
            entry_view(entries@[j]),
        ) by {
            let k = choose|k: int| 0 <= k < src.len() && src[k] == j;
            assert(r@[k].token@ == entries@[j].token@);
        }
    }
    r
}

/// Index of the entry that expires first (the first such on ties).
fn oldest_index(entries: &Vec<SessionEntry>) -> (m: usize)
    requires
        entries@.len() > 0,
    ensures
        m < entries@.len(),
        forall|k: int|
            0 <= k < entries@.len() ==> entries@[m as int].session.expires_at
                <= #[trigger] entries@[k].session.expires_at,
{
    let mut m: usize = 0;
    let mut i: usize = 1;
    while i < entries.len()
        invariant
            1 <= i <= entries@.len(),
            m < i,
            forall|k: int|
                0 <= k < i ==> entries@[m as int].session.expires_at
                    <= #[trigger] entries@[k].session.expires_at,
        decreases entries.len() - i,
    {
        if entries[i].session.expires_at < entries[m].session.expires_at {
            m = i;
        }
        i += 1;
    }
    m
}

/// Index of the entry stored under `token`.
fn position_of(entries: &Vec<SessionEntry>, token: &str) -> (r: Option<usize>)
    ensures
        match r {
            Some(i) => i < entries@.len() && entries@[i as int].token@ == token@,
            None => forall|i: int| 0 <= i < entries@.len() ==> #[trigger] entries@[i].token@ != token@,
        },
{
    let mut i: usize = 0;
    while i < entries.len()
        invariant
            i <= entries@.len(),
            forall|j: int| 0 <= j < i ==> #[trigger] entries@[j].token@ != token@,
        decreases entries.len() - i,
    {
        if str_eq(entries[i].token.as_str(), token) {
            return Some(i);
        }
        i += 1;
    }
    None
}

} // verus!

verus! {

/// The expiry of the session stored under `t` (0 when there is none).
pub open spec fn expiry_of(s: Seq<SessionEntry>, t: Seq<char>) -> i64 {
    match session_of(s, t) {
        Some(v) => v.1,
        None => 0,
    }
}

/// A live session (expiring after `now`) is stored under `t`.
pub open spec fn live_in(s: Seq<SessionEntry>, t: Seq<char>, now: i64) -> bool {
    session_of(s, t) is Some && expiry_of(s, t) > now
}

proof fn lemma_remove_has_entry(s: Seq<SessionEntry>, k: int)
    requires
        tokens_distinct(s),
        0 <= k < s.len(),
    ensures
        forall|t: Seq<char>, v: (Seq<char>, i64)| #[trigger]
            has_entry(s.remove(k), t, v) <==> has_entry(s, t, v) && t != s[k].token@,
{
    lemma_distinct_remove(s, k);
    let r = s.remove(k);
    assert forall|t: Seq<char>, v: (Seq<char>, i64)| #[trigger]
        has_entry(r, t, v) <==> has_entry(s, t, v) && t != s[k].token@ by {
        if has_entry(r, t, v) {
            let i = choose|i: int|
                0 <= i < r.len() && #[trigger] r[i].token@ == t && r[i].session.csrf_token@ == v.0
                    && r[i].session.expires_at == v.1;
            let j = if i < k { i } else { i + 1 };
            assert(r[i] == s[j]);
            assert(s[j].token@ == t);
        }
        if has_entry(s, t, v) && t != s[k].token@ {
            let j = choose|j: int|
                0 <= j < s.len() && #[trigger] s[j].token@ == t && s[j].session.csrf_token@ == v.0
                    && s[j].session.expires_at == v.1;
            let i = if j < k { j } else { j - 1 };
            assert(r[i] == s[j]);
            assert(r[i].token@ == t);
        }
    }
}

proof fn lemma_push_has_entry(s: Seq<SessionEntry>, e: SessionEntry)
    ensures
        forall|t: Seq<char>, v: (Seq<char>, i64)| #[trigger]
            has_entry(s.push(e), t, v) <==> has_entry(s, t, v) || (t == e.token@ && v == entry_view(
                e,
            )),
{
    let r = s.push(e);
    assert forall|t: Seq<char>, v: (Seq<char>, i64)| #[trigger]
        has_entry(r, t, v) <==> has_entry(s, t, v) || (t == e.token@ && v == entry_view(e)) by {
        if has_entry(r, t, v) {
            let i = choose|i: int|
                0 <= i < r.len() && #[trigger] r[i].token@ == t && r[i].session.csrf_token@ == v.0
                    && r[i].session.expires_at == v.1;
            if i < s.len() {
                assert(r[i] == s[i]);
                assert(s[i].token@ == t);
            }
        }
        if has_entry(s, t, v) {
            let j = choose|j: int|
                0 <= j < s.len() && #[trigger] s[j].token@ == t && s[j].session.csrf_token@ == v.0
                    && s[j].session.expires_at == v.1;
            assert(r[j] == s[j]);
            assert(r[j].token@ == t);
        }
        if t == e.token@ && v == entry_view(e) {
            assert(r[s.len() as int] == e);
            assert(r[s.len() as int].token@ == t);
        }
    }
}

/// The `Set-Cookie` value for a new session.
fn session_cookie(token: &str, ttl_secs: u64, secure: bool) -> (r: String)
    ensures
        r@ == session_cookie_text(token@, ttl_secs, secure),
{
    let mut v = chars_of("openchatcut_session=");
    let mut t = chars_of(token);
    v.append(&mut t);
    let mut mid = chars_of("; HttpOnly; SameSite=Strict; Path=/api/v1; Max-Age=");
    v.append(&mut mid);
    let mut digits = u64_to_decimal(ttl_secs);
    v.append(&mut digits);
    if secure {
        let mut s = chars_of("; Secure");
        v.append(&mut s);
    }
    proof {
        reveal_strlit("openchatcut_session=");
        reveal_strlit("openchatcut_session");
        reveal_strlit("=");
        reveal_strlit("");
        assert(session_cookie_name() + "="@ =~= "openchatcut_session="@);
        assert(""@ =~= Seq::<char>::empty());
    }
    assert(v@ =~= session_cookie_text(token@, ttl_secs, secure));
    string_of(v.as_slice())
}

} // verus!

verus! {

impl AuthState {
    /// Issues a browser session at `now` (milliseconds since the epoch):
    /// expired sessions are dropped, the session that expires first is
    /// evicted when the table is full, and a fresh random session token and
    /// CSRF token are stored.
    pub fn issue_browser_session(&mut self, now: i64) -> (r: IssuedBrowserSession)
        requires
            old(self).wf(),
            0 <= now,
            now + ttl_millis(old(self).ttl_secs()) <= MAX_TIMESTAMP_MILLIS,
        ensures
            final(self).wf(),
            final(self).daemon_token_view() == old(self).daemon_token_view(),
            final(self).allowed_origins_view() == old(self).allowed_origins_view(),
            final(self).ttl_secs() == old(self).ttl_secs(),
            final(self).secure() == old(self).secure(),
            r.bootstrap.expires_at == now + ttl_millis(old(self).ttl_secs()),
            r.bootstrap.csrf_token@.len() == 64,
            forall|i: int|
                0 <= i < 64 ==> crate::encoding::is_lower_hex_char(
                    #[trigger] r.bootstrap.csrf_token@[i],
                ),
            exists|token: Seq<char>|
                {
                    &&& token.len() == 64
                    &&& r.set_cookie@ == session_cookie_text(
                        token,
                        old(self).ttl_secs(),
                        old(self).secure(),
                    )
                    &&& #[trigger] session_of(final(self).sessions_view(), token) == Some(
                        (r.bootstrap.csrf_token@, r.bootstrap.expires_at),
                    )
                    &&& forall|t: Seq<char>|
                        t != token && #[trigger] session_of(final(self).sessions_view(), t) is Some
                            ==> session_of(final(self).sessions_view(), t) == session_of(
                            old(self).sessions_view(),
                            t,
                        ) && live_in(old(self).sessions_view(), t, now)
                    &&& forall|t: Seq<char>|
                        t != token && #[trigger] live_in(old(self).sessions_view(), t, now)
                            && session_of(final(self).sessions_view(), t) is None ==> {
                            &&& final(self).sessions_view().len() + 1 >= MAX_BROWSER_SESSIONS
                            &&& forall|u: Seq<char>| #[trigger]
                                live_in(old(self).sessions_view(), u, now) ==> expiry_of(
                                old(self).sessions_view(),
                                t,
                            ) <= expiry_of(old(self).sessions_view(), u)
                            &&& forall|u: Seq<char>|
                                u != token && #[trigger] live_in(old(self).sessions_view(), u, now)
                                    && session_of(final(self).sessions_view(), u) is None ==> u == t
                        }
                },
    {
        let ghost old_s = self.sessions@;
        let token = random_secret();
        let csrf = random_secret();
        let ttl_ms: i64 = if self.session_ttl_secs <= MAX_SESSION_TTL_SECS {
            (self.session_ttl_secs * 1000) as i64
        } else {
            FALLBACK_SESSION_MILLIS
        };
        let expires_at = now + ttl_ms;
        let mut kept = retain_live(&self.sessions, now);
        let ghost a = kept@;
        let ghost mut evicted: Option<int> = None;
        if kept.len() >= MAX_BROWSER_SESSIONS {
            let m = oldest_index(&kept);
            proof {
                lemma_remove_has_entry(kept@, m as int);
                lemma_distinct_remove(kept@, m as int);
                evicted = Some(m as int);
            }
            kept.remove(m);
        }
        let ghost b = kept@;
        match position_of(&kept, token.as_str()) {
            Some(i) => {
                proof {
                    lemma_remove_has_entry(kept@, i as int);
                    lemma_distinct_remove(kept@, i as int);
                }
                kept.remove(i);
            },
            None => {},
        }
        let ghost c0 = kept@;
        let entry = SessionEntry {
            token: token.clone(),
            session: BrowserSession { csrf_token: csrf.clone(), expires_at },
        };
        let ghost e = entry;
        kept.push(entry);
        let ghost c = kept@;
        proof {
            lemma_push_has_entry(c0, e);
            // `token` no longer occurs in c0.
            assert forall|k: int| 0 <= k < c0.len() implies #[trigger] c0[k].token@ != token@ by {
                if c0[k].token@ == token@ {
                    assert(has_entry(c0, token@, entry_view(c0[k])));
                    assert(has_entry(b, token@, entry_view(c0[k])));
                }
            }
            assert(tokens_distinct(c)) by {
                assert forall|i: int, j: int|
                    0 <= i < c.len() && 0 <= j < c.len() && i != j implies c[i].token@
                    != c[j].token@ by {
                    if i < c0.len() && j < c0.len() {
                        assert(c[i] == c0[i] && c[j] == c0[j]);
                    } else if i < c0.len() {
                        assert(c[i] == c0[i]);
                    } else {
                        assert(c[j] == c0[j]);
                    }
                }
            }
            assert(c.len() <= MAX_BROWSER_SESSIONS);
            // Entries of `a` are the live entries of the old table.
            assert forall|t: Seq<char>, v: (Seq<char>, i64)| #[trigger]
                has_entry(a, t, v) <==> has_entry(old_s, t, v) && v.1 > now by {
                if has_entry(a, t, v) {
                    let k = choose|k: int|
                        0 <= k < a.len() && #[trigger] a[k].token@ == t && a[k].session.csrf_token@
                            == v.0 && a[k].session.expires_at == v.1;
                    assert(a[k].session.expires_at > now);
                    assert(has_entry(old_s, a[k].token@, entry_view(a[k])));
                }
                if has_entry(old_s, t, v) && v.1 > now {
                    let j = choose|j: int|
                        0 <= j < old_s.len() && #[trigger] old_s[j].token@ == t
                            && old_s[j].session.csrf_token@ == v.0 && old_s[j].session.expires_at
                            == v.1;
                    assert(old_s[j].session.expires_at > now);
                    assert(has_entry(a, old_s[j].token@, entry_view(old_s[j])));
                }
            }
            lemma_session_of_has_entry(old_s);
            lemma_session_of_has_entry(c);
            lemma_session_of(c, token@);
            assert(c[c.len() - 1] == e);
            assert(session_of(c, token@) == Some((csrf@, expires_at)));
            // Survivors are unchanged live entries of the old table.
            assert forall|t: Seq<char>|
                t != token@ && #[trigger] session_of(c, t) is Some implies session_of(c, t)
                == session_of(old_s, t) && live_in(old_s, t, now) by {
                let v = session_of(c, t)->0;
                assert(has_entry(c, t, v));
                assert(has_entry(c0, t, v));
                assert(has_entry(b, t, v));
                if evicted is Some {
                    lemma_remove_has_entry(a, evicted->0);
                }
                assert(has_entry(a, t, v));
                assert(has_entry(old_s, t, v));
            }
            // A live entry disappears only through eviction.
            assert forall|t: Seq<char>|
                t != token@ && #[trigger] live_in(old_s, t, now) && session_of(c, t) is None implies {
                &&& c.len() + 1 >= MAX_BROWSER_SESSIONS
                &&& forall|u: Seq<char>| #[trigger]
                    live_in(old_s, u, now) ==> expiry_of(old_s, t) <= expiry_of(old_s, u)
                &&& forall|u: Seq<char>|
                    u != token@ && #[trigger] live_in(old_s, u, now) && session_of(c, u) is None
                        ==> u == t
            } by {
                let v = session_of(old_s, t)->0;
                assert(has_entry(old_s, t, v));
                assert(has_entry(a, t, v));
                if evicted is None {
                    assert(has_entry(b, t, v));
                    assert(has_entry(c0, t, v));
                    assert(has_entry(c, t, v));
                    assert(false);
                }
                let m = evicted->0;
                lemma_remove_has_entry(a, m);
                if t != a[m].token@ {
                    assert(has_entry(b, t, v));
                    assert(has_entry(c0, t, v));
                    assert(has_entry(c, t, v));
                    assert(false);
                }
                lemma_session_of(a, t);
                assert forall|u: Seq<char>| #[trigger]
                    live_in(old_s, u, now) implies expiry_of(old_s, t) <= expiry_of(old_s, u) by {
                    let w = session_of(old_s, u)->0;
                    assert(has_entry(old_s, u, w));
                    assert(has_entry(a, u, w));
                    let k = choose|k: int|
                        0 <= k < a.len() && #[trigger] a[k].token@ == u && a[k].session.csrf_token@
                            == w.0 && a[k].session.expires_at == w.1;
                    assert(a[m].session.expires_at <= a[k].session.expires_at);
                    lemma_session_of_has_entry(a);
                    assert(session_of(a, t) == Some(v));
                }
                assert forall|u: Seq<char>|
                    u != token@ && #[trigger] live_in(old_s, u, now) && session_of(c, u) is None
                        implies u == t by {
                    let w = session_of(old_s, u)->0;
                    assert(has_entry(old_s, u, w));
                    assert(has_entry(a, u, w));
                    if u != a[m].token@ {
                        assert(has_entry(b, u, w));
                        assert(has_entry(c0, u, w));
                        assert(has_entry(c, u, w));
                    }
                }
            }
        }
        self.sessions = kept;
        let cookie = session_cookie(token.as_str(), self.session_ttl_secs, self.secure_cookie);
        proof {
            assert(self.sessions_view() == c);
            assert(session_of(self.sessions_view(), token@) == Some((csrf@, expires_at)));
        }
        IssuedBrowserSession {
            bootstrap: BrowserBootstrap { csrf_token: csrf, expires_at },
            set_cookie: cookie,
        }
    }
}

} // verus!

verus! {

pub open spec fn opt_str_view(o: Option<&str>) -> Option<Seq<char>> {
    match o {
        Some(s) => Some(s@),
        None => None,
    }
}

pub open spec fn identity_view(r: Option<(RequestIdentity, Option<String>)>) -> Option<
    (RequestIdentity, Option<Seq<char>>),
> {
    match r {
        Some(p) => Some((p.0, crate::net::opt_string_view(p.1))),
        None => None,
    }
}

/// The token of an expired session named by the cookie, when the bearer
/// token did not already authenticate the request.
pub open spec fn stale_token(
    sessions: Seq<SessionEntry>,
    daemon_token: Seq<char>,
    authorization: Option<Seq<char>>,
    cookies: Seq<Seq<char>>,
    now: i64,
) -> Option<Seq<char>> {
    let bearer = match authorization {
        Some(a) => bearer_credentials(a) == Some(daemon_token),
        None => false,
    };
    if bearer {
        None
    } else {
        match cookie_in_headers(cookies, session_cookie_name()) {
            Some(t) => if session_of(sessions, t) is Some && expiry_of(sessions, t) <= now {
                Some(t)
            } else {
                None
            },
            None => None,
        }
    }
}

fn bearer_matches(authorization: &str, daemon_token: &str) -> (r: bool)
    ensures
        r == (bearer_credentials(authorization@) == Some(daemon_token@)),
{
    let a = chars_of(authorization);
    proof {
        crate::text::lemma_first_index_bounds(a@, ' ');
    }
    match find_char(a.as_slice(), ' ') {
        Some(i) => {
            let n = a.len();
            let scheme = copy_range(a.as_slice(), 0, i);
            let bearer = chars_of("bearer");
            if !eq_ignore_ascii_case(scheme.as_slice(), bearer.as_slice()) {
                return false;
            }
            let credentials = copy_range(a.as_slice(), i + 1, n);
            let provided = string_of(credentials.as_slice());
            constant_time_equal(provided.as_str(), daemon_token)
        },
        None => false,
    }
}

impl AuthState {
    /// The identity a request proves, and its session's CSRF token; an
    /// expired session named by the cookie is forgotten.
    pub fn authenticate(&mut self, authorization: Option<&str>, cookies: &Vec<String>, now: i64) -> (r:
        Option<(RequestIdentity, Option<String>)>)
        requires
            old(self).wf(),
        ensures
            final(self).wf(),
            final(self).daemon_token_view() == old(self).daemon_token_view(),
            final(self).allowed_origins_view() == old(self).allowed_origins_view(),
            final(self).ttl_secs() == old(self).ttl_secs(),
            final(self).secure() == old(self).secure(),
            identity_view(r) == identity_spec(
                old(self).sessions_view(),
                old(self).daemon_token_view(),
                opt_str_view(authorization),
                strings_view(cookies@),
                now,
            ),
            forall|x: Seq<char>| #[trigger]
                session_of(final(self).sessions_view(), x) == (if stale_token(
                    old(self).sessions_view(),
                    old(self).daemon_token_view(),
                    opt_str_view(authorization),
                    strings_view(cookies@),
                    now,
                ) == Some(x) {
                    None
                } else {
                    session_of(old(self).sessions_view(), x)
                }),
    {
        if let Some(value) = authorization {
            if bearer_matches(value, self.daemon_token.as_str()) {
                return Some((RequestIdentity::DaemonToken, None));
            }
        }
        let token = match cookie_value(cookies, "openchatcut_session") {
            Some(t) => t,
            None => return None,
        };
        proof {
            reveal_strlit("openchatcut_session");
            lemma_session_of(self.sessions@, token@);
        }
        match position_of(&self.sessions, token.as_str()) {
            Some(i) => {
                if self.sessions[i].session.expires_at > now {
                    let csrf = self.sessions[i].session.csrf_token.clone();
                    Some((RequestIdentity::Browser, Some(csrf)))
                } else {
                    let ghost s = self.sessions@;
                    proof {
                        lemma_remove_has_entry(s, i as int);
                        lemma_distinct_remove(s, i as int);
                        lemma_session_of_has_entry(s);
                        lemma_session_of_has_entry(s.remove(i as int));
                    }
                    self.sessions.remove(i);
                    proof {
                        assert forall|x: Seq<char>| #[trigger]
                            session_of(self.sessions@, x) == (if token@ == x {
                                None
                            } else {
                                session_of(s, x)
                            }) by {
                            lemma_session_of(self.sessions@, x);
                            lemma_session_of(s, x);
                            if session_of(self.sessions@, x) is Some {
                                let v = session_of(self.sessions@, x)->0;
                                assert(has_entry(self.sessions@, x, v));
                            } else if x != token@ && session_of(s, x) is Some {
                                let v = session_of(s, x)->0;
                                assert(has_entry(s, x, v));
                                assert(has_entry(self.sessions@, x, v));
                            }
                        }
                    }
                    None
                }
            },
            None => None,
        }
    }

    /// The decision of the security layer for one request. `host`,
    /// `origin`, `authorization` and `csrf_header` are the header values
    /// (absent when missing or not visible ASCII); `cookies` holds every
    /// `Cookie` header value.
    pub fn security_decision(
        &mut self,
        host: Option<&str>,
        origin: Option<&str>,
        method: RequestMethod,
        path: &str,
        authorization: Option<&str>,
        cookies: &Vec<String>,
        csrf_header: Option<&str>,
        now: i64,
    ) -> (r: SecurityOutcome)
        requires
            old(self).wf(),
        ensures
            final(self).wf(),
            final(self).daemon_token_view() == old(self).daemon_token_view(),
            final(self).allowed_origins_view() == old(self).allowed_origins_view(),
            final(self).ttl_secs() == old(self).ttl_secs(),
            final(self).secure() == old(self).secure(),
            r@ == security_spec(
                loopback_host_header(opt_str_view(host)),
                opt_str_view(origin),
                match origin {
                    Some(o) => old(self).allowed_origins_view().contains(o@),
                    None => false,
                },
                method,
                path@,
                identity_spec(
                    old(self).sessions_view(),
                    old(self).daemon_token_view(),
                    opt_str_view(authorization),
                    strings_view(cookies@),
                    now,
                ),
                opt_str_view(csrf_header),
            ),
            forall|x: Seq<char>| #[trigger]
                session_of(final(self).sessions_view(), x) is Some ==> session_of(
                    final(self).sessions_view(),
                    x,
                ) == session_of(old(self).sessions_view(), x),
            forall|x: Seq<char>| #[trigger]
                live_in(old(self).sessions_view(), x, now) ==> session_of(
                    final(self).sessions_view(),
                    x,
                ) == session_of(old(self).sessions_view(), x),
    {
        let ghost old_self_allowed = self.allowed_origins_view();
        if !valid_loopback_host(host) {
            return SecurityOutcome::Refuse(SecurityFailure::InvalidHost);
        }
        let allowed_origin: Option<String> = match origin {
            Some(o) => {
                if self.origin_allowed(o) {
                    Some(o.to_owned())
                } else {
                    return SecurityOutcome::Refuse(SecurityFailure::OriginNotAllowed);
                }
            },
            None => None,
        };
        if method == RequestMethod::Options {
            return match allowed_origin {
                None => SecurityOutcome::Refuse(SecurityFailure::PreflightOriginRequired),
                Some(o) => SecurityOutcome::Preflight(o),
            };
        }
        let public_health = str_eq(path, "/health");
        let browser_bootstrap = str_eq(path, "/api/v1/session/bootstrap");
        if browser_bootstrap && allowed_origin.is_none() {
            return SecurityOutcome::Refuse(SecurityFailure::BootstrapOriginRequired);
        }
        if public_health || browser_bootstrap {
            return SecurityOutcome::Forward(None, allowed_origin);
        }
        let ghost before = self.sessions_view();
        let identity = self.authenticate(authorization, cookies, now);
        proof {
            assert forall|x: Seq<char>| #[trigger]
                live_in(before, x, now) implies session_of(self.sessions_view(), x) == session_of(
                before,
                x,
            ) by {
                assert(session_of(self.sessions_view(), x) == session_of(before, x));
            }
        }
        let (id, csrf) = match identity {
            None => return SecurityOutcome::Deny(SecurityFailure::AuthenticationRequired, allowed_origin),
            Some(p) => p,
        };
        let write = !(method == RequestMethod::Get || method == RequestMethod::Head);
        if write && id == RequestIdentity::Browser {
            if allowed_origin.is_none() {
                return SecurityOutcome::Deny(SecurityFailure::WriteOriginRequired, allowed_origin);
            }
            let ok = match (csrf_header, &csrf) {
                (Some(provided), Some(expected)) => constant_time_equal(provided, expected.as_str()),
                _ => false,
            };
            if !ok {
                return SecurityOutcome::Deny(SecurityFailure::CsrfFailed, allowed_origin);
            }
        }
        SecurityOutcome::Forward(Some(id), allowed_origin)
    }
}

} // verus!

verus! {

pub open spec fn proven_identity(id: Option<(RequestIdentity, Option<Seq<char>>)>) -> Option<
    RequestIdentity,
> {
    match id {
        Some(p) => Some(p.0),
        None => None,
    }
}

pub open spec fn proven_csrf(id: Option<(RequestIdentity, Option<Seq<char>>)>) -> Option<
    Seq<char>,
> {
    match id {
        Some(p) => p.1,
        None => None,
    }
}

/// The CSRF token of the session stored under `t`.
pub open spec fn csrf_of(s: Seq<SessionEntry>, t: Seq<char>) -> Seq<char> {
    match session_of(s, t) {
        Some(v) => v.0,
        None => Seq::empty(),
    }
}

/// Outside the public routes, a request is only forwarded with a proven
/// identity; a browser write is only forwarded from an allowed origin with
/// the CSRF token of its session.
pub proof fn lemma_forwarded_requests_are_authenticated(
    host_ok: bool,
    origin: Option<Seq<char>>,
    origin_allowed: bool,
    method: RequestMethod,
    path: Seq<char>,
    identity: Option<(RequestIdentity, Option<Seq<char>>)>,
    csrf_header: Option<Seq<char>>,
)
    ensures
        ({
            let out = security_spec(host_ok, origin, origin_allowed, method, path, identity, csrf_header);
            &&& out is Forward ==> host_ok && (origin is Some ==> origin_allowed)
            &&& (out is Forward && path != "/health"@ && path != "/api/v1/session/bootstrap"@)
                ==> out->Forward_0 == proven_identity(identity) && identity is Some
            &&& (out is Forward && out->Forward_0 == Some(RequestIdentity::Browser) && method
                != RequestMethod::Get && method != RequestMethod::Head) ==> origin is Some
                && csrf_header is Some && csrf_header == proven_csrf(identity)
        }),
{
}

/// The characters that a session token never contains: separators of the
/// cookie syntax and whitespace.
pub open spec fn plain_cookie_value(token: Seq<char>) -> bool {
    forall|i: int|
        0 <= i < token.len() ==> #[trigger] token[i] != ';' && token[i] != '=' && !crate::text::is_whitespace_spec(token[i])
}

/// A session issued under `token` is found again from the cookie
/// `openchatcut_session=<token>` until it expires.
pub proof fn lemma_session_cookie_round_trip(
    sessions: Seq<SessionEntry>,
    daemon_token: Seq<char>,
    token: Seq<char>,
    now: i64,
)
    requires
        token.len() > 0,
        plain_cookie_value(token),
        session_of(sessions, token) is Some,
        expiry_of(sessions, token) > now,
    ensures
        identity_spec(
            sessions,
            daemon_token,
            None,
            seq![session_cookie_name() + "="@ + token],
            now,
        ) == Some((RequestIdentity::Browser, Some(csrf_of(sessions, token)))),
{
    reveal_strlit("openchatcut_session");
    reveal_strlit("=");
    let name = session_cookie_name();
    let h = name + "="@ + token;
    let n = name.len() as int;
    assert(n == 19);
    assert forall|j: int| 0 <= j < h.len() implies h[j] != ';' by {
        if j >= n + 1 {
            assert(h[j] == token[j - n - 1]);
        }
    }
    crate::text::lemma_first_index_is(h, ';', h.len() as int);
    assert(split_on(h, ';') == seq![h]);
    // `h` has no surrounding whitespace.
    assert(!crate::text::is_whitespace_spec(h[0]));
    assert(h.last() == token.last());
    assert(h[h.len() - 1] == token[token.len() - 1]);
    crate::text::lemma_trim_end_unique(h, h.len() as int);
    assert(h.subrange(0, h.len() as int) =~= h);
    crate::text::lemma_trim_start_unique(h, 0);
    assert(h.subrange(0, h.len() as int).subrange(0, h.len() as int) =~= h);
    assert(trim_spec(h) == h);
    assert forall|j: int| 0 <= j < n implies h[j] != '=' by {}
    assert(h[n] == '=');
    crate::text::lemma_first_index_is(h, '=', n);
    assert(h.subrange(0, n) =~= name);
    assert(h.subrange(n + 1, h.len() as int) =~= token);
    assert(cookie_pair(h) == Some((name, token)));
    assert(cookie_in_parts(seq![h], name) == Some(token));
    assert(seq![h].drop_first() =~= Seq::<Seq<char>>::empty());
    assert(cookie_in_headers(seq![h], name) == Some(token));
}

} // verus!
