//! Daemon configuration policy: which browser origins may talk to the
//! daemon, which bind addresses are acceptable, and the derived file layout.
use vstd::prelude::*;
use crate::net::{HostKind, UrlParts, parse_url, url_parse_result};
use crate::text::{chars_of, eq_ignore_ascii_case, eq_ignore_ascii_case_spec, str_eq};

verus! {

/// Why an origin, bind address or hosted deployment setting was refused.
#[derive(Debug, Clone, Copy, PartialEq, Eq, Structural)]
pub enum OriginError {
    /// The value is not an absolute URL.
    InvalidUrl,
    /// An origin must be an http(s) scheme/host/port tuple.
    NotSchemeHostPort,
    /// The origin has no host.
    MissingHost,
    /// Only http loopback origins are supported.
    LoopbackRequiresHttp,
    /// Refusing a non-loopback browser origin.
    NonLoopback,
    /// Container service origins must use http.
    ContainerRequiresHttp,
    /// Refusing a public container browser origin.
    PublicContainerAddress,
    /// A container service origin must use a private address or a
    /// single-label service name.
    NotServiceName,
    /// A hosted origin must use https.
    HostedRequiresHttps,
    /// A hosted origin must not contain credentials.
    HostedCredentials,
    /// A hosted origin must not use a loopback host.
    HostedLoopback,
    /// A hosted origin requires constrained container mode.
    HostedRequiresContainer,
    /// Refusing to bind to a non-loopback address.
    NonLoopbackBind,
}

/// The text of a configuration refusal (the value, where the refusal names
/// one, follows it).
pub open spec fn origin_error_text(e: OriginError) -> Seq<char> {
    match e {
        OriginError::InvalidUrl => "invalid origin"@,
        OriginError::NotSchemeHostPort => "origin must be an http(s) scheme/host/port tuple"@,
        OriginError::MissingHost => "origin has no host"@,
        OriginError::LoopbackRequiresHttp => "only http loopback origins are supported"@,
        OriginError::NonLoopback => "refusing non-loopback browser origin"@,
        OriginError::ContainerRequiresHttp => "container service origins must use http"@,
        OriginError::PublicContainerAddress => "refusing public container browser origin"@,
        OriginError::NotServiceName => "container service origin must use a private address or single-label service name"@,
        OriginError::HostedRequiresHttps => "hosted origin must use https"@,
        OriginError::HostedCredentials => "hosted origin must not contain credentials"@,
        OriginError::HostedLoopback => "hosted origin must not use a loopback host"@,
        OriginError::HostedRequiresContainer => "OPENCHATCUT_HOSTED_ORIGIN requires constrained container mode"@,
        OriginError::NonLoopbackBind => "refusing to bind to non-loopback address"@,
    }
}

impl OriginError {
    /// The text of the refusal.
    pub fn message(&self) -> (r: &'static str)
        ensures
            r@ == origin_error_text(*self),
    {
        match self {
            OriginError::InvalidUrl => "invalid origin",
            OriginError::NotSchemeHostPort => "origin must be an http(s) scheme/host/port tuple",
            OriginError::MissingHost => "origin has no host",
            OriginError::LoopbackRequiresHttp => "only http loopback origins are supported",
            OriginError::NonLoopback => "refusing non-loopback browser origin",
            OriginError::ContainerRequiresHttp => "container service origins must use http",
            OriginError::PublicContainerAddress => "refusing public container browser origin",
            OriginError::NotServiceName => "container service origin must use a private address or single-label service name",
            OriginError::HostedRequiresHttps => "hosted origin must use https",
            OriginError::HostedCredentials => "hosted origin must not contain credentials",
            OriginError::HostedLoopback => "hosted origin must not use a loopback host",
            OriginError::HostedRequiresContainer => "OPENCHATCUT_HOSTED_ORIGIN requires constrained container mode",
            OriginError::NonLoopbackBind => "refusing to bind to non-loopback address",
        }
    }
}

/// The host is `localhost` (any ASCII case) or a loopback IP address.
pub open spec fn loopback_host(host: Seq<char>, kind: Option<HostKind>) -> bool {
    eq_ignore_ascii_case_spec(host, "localhost"@) || match kind {
        Some(HostKind::Ip(ip)) => ip.loopback(),
        _ => false,
    }
}

pub open spec fn service_name_char(c: char) -> bool {
    ('a' <= c && c <= 'z') || ('A' <= c && c <= 'Z') || ('0' <= c && c <= '9') || c == '-' || c
        == '_'
}

/// A single DNS label such as a Compose service name.
pub open spec fn single_label(host: Seq<char>) -> bool {
    &&& 0 < host.len() <= 63
    &&& host[0] != '-' && host[0] != '_'
    &&& host.last() != '-' && host.last() != '_'
    &&& forall|i: int| 0 <= i < host.len() ==> service_name_char(#[trigger] host[i])
}

pub open spec fn normalize_origin_spec(value: Seq<char>) -> Result<Seq<char>, OriginError> {
    match url_parse_result(value) {
        None => Err(OriginError::InvalidUrl),
        Some(p) => if !(p.scheme == "http"@ || p.scheme == "https"@) || p.path != "/"@
            || p.has_query || p.has_fragment {
            Err(OriginError::NotSchemeHostPort)
        } else if p.host is None {
            Err(OriginError::MissingHost)
        } else {
            Ok(p.origin)
        },
    }
}

pub open spec fn loopback_origin_spec(value: Seq<char>) -> Result<(), OriginError> {
    match url_parse_result(value) {
        None => Err(OriginError::InvalidUrl),
        Some(p) => if p.scheme != "http"@ {
            Err(OriginError::LoopbackRequiresHttp)
        } else if p.host is None {
            Err(OriginError::MissingHost)
        } else if !loopback_host(p.host->0, p.host_kind) {
            Err(OriginError::NonLoopback)
        } else {
            match normalize_origin_spec(value) {
                Err(e) => Err(e),
                Ok(_) => Ok(()),
            }
        },
    }
}

pub open spec fn browser_origin_spec(value: Seq<char>, containerized: bool) -> Result<
    (),
    OriginError,
> {
    if loopback_origin_spec(value) is Ok || !containerized {
        loopback_origin_spec(value)
    } else {
        match url_parse_result(value) {
            None => Err(OriginError::InvalidUrl),
            Some(p) => if p.scheme != "http"@ {
                Err(OriginError::ContainerRequiresHttp)
            } else if normalize_origin_spec(value) is Err {
                Err(normalize_origin_spec(value)->Err_0)
            } else if p.host is None {
                Err(OriginError::MissingHost)
            } else {
                match p.host_kind {
                    Some(HostKind::Ip(ip)) => if ip.private_or_link_local() {
                        Ok(())
                    } else {
                        Err(OriginError::PublicContainerAddress)
                    },
                    _ => if single_label(p.host->0) {
                        Ok(())
                    } else {
                        Err(OriginError::NotServiceName)
                    },
                }
            },
        }
    }
}

pub open spec fn hosted_origin_spec(value: Seq<char>) -> Result<(), OriginError> {
    match url_parse_result(value) {
        None => Err(OriginError::InvalidUrl),
        Some(p) => if p.scheme != "https"@ {
            Err(OriginError::HostedRequiresHttps)
        } else if p.username.len() > 0 || p.has_password {
            Err(OriginError::HostedCredentials)
        } else if normalize_origin_spec(value) is Err {
            Err(normalize_origin_spec(value)->Err_0)
        } else if p.host is None {
            Err(OriginError::MissingHost)
        } else if loopback_host(p.host->0, p.host_kind) {
            Err(OriginError::HostedLoopback)
        } else {
            Ok(())
        },
    }
}

fn is_host_loopback(host: &str, kind: Option<HostKind>) -> (r: bool)
    ensures
        r == loopback_host(host@, kind),
{
    let chars = chars_of(host);
    let localhost = chars_of("localhost");
    if eq_ignore_ascii_case(chars.as_slice(), localhost.as_slice()) {
        return true;
    }
    match kind {
        Some(HostKind::Ip(ip)) => ip.is_loopback(),
        _ => false,
    }
}

fn is_service_name_char(c: char) -> (r: bool)
    ensures
        r == service_name_char(c),
{
    ('a' <= c && c <= 'z') || ('A' <= c && c <= 'Z') || ('0' <= c && c <= '9') || c == '-' || c
        == '_'
}

fn is_single_label(host: &str) -> (r: bool)
    ensures
        r == single_label(host@),
{
    let h = chars_of(host);
    let n = h.len();
    if n == 0 || n > 63 {
        return false;
    }
    if h[0] == '-' || h[0] == '_' || h[n - 1] == '-' || h[n - 1] == '_' {
        return false;
    }
    let mut i: usize = 0;
    while i < n
        invariant
            i <= n == h@.len(),
            h@ == host@,
            forall|j: int| 0 <= j < i ==> service_name_char(#[trigger] h@[j]),
        decreases n - i,
    {
        if !is_service_name_char(h[i]) {
            assert(!service_name_char(host@[i as int]));
            return false;
        }
        i += 1;
    }
    true
}

fn is_scheme(parts: &UrlParts, scheme: &str) -> (r: bool)
    ensures
        r == (parts@.scheme == scheme@),
{
    str_eq(parts.scheme.as_str(), scheme)
}

/// The ASCII serialization of an http(s) origin (`scheme://host[:port]`).
pub fn normalize_origin(value: &str) -> (r: Result<String, OriginError>)
    ensures
        match r {
            Ok(s) => normalize_origin_spec(value@) == Ok::<Seq<char>, OriginError>(s@),
            Err(e) => normalize_origin_spec(value@) == Err::<Seq<char>, OriginError>(e),
        },
{
    let parts = match parse_url(value) {
        Some(p) => p,
        None => return Err(OriginError::InvalidUrl),
    };
    if !(is_scheme(&parts, "http") || is_scheme(&parts, "https")) || !str_eq(
        parts.path.as_str(),
        "/",
    ) || parts.query.is_some() || parts.fragment.is_some() {
        return Err(OriginError::NotSchemeHostPort);
    }
    if parts.host.is_none() {
        return Err(OriginError::MissingHost);
    }
    Ok(parts.origin)
}

/// Accepts only `http` origins whose host is `localhost` or a loopback
/// address.
pub fn validate_loopback_origin(value: &str) -> (r: Result<(), OriginError>)
    ensures
        r == loopback_origin_spec(value@),
{
    let parts = match parse_url(value) {
        Some(p) => p,
        None => return Err(OriginError::InvalidUrl),
    };
    if !is_scheme(&parts, "http") {
        return Err(OriginError::LoopbackRequiresHttp);
    }
    let host = match &parts.host {
        Some(h) => h,
        None => return Err(OriginError::MissingHost),
    };
    if !is_host_loopback(host.as_str(), parts.host_kind) {
        return Err(OriginError::NonLoopback);
    }
    match normalize_origin(value) {
        Err(e) => Err(e),
        Ok(_) => Ok(()),
    }
}

/// Loopback origins are always accepted; in constrained-container mode an
/// http origin on a private address or a single-label service name is too.
pub fn validate_browser_origin(value: &str, containerized: bool) -> (r: Result<(), OriginError>)
    ensures
        r == browser_origin_spec(value@, containerized),
{
    let loopback = validate_loopback_origin(value);
    if loopback.is_ok() || !containerized {
        return loopback;
    }
    let parts = match parse_url(value) {
        Some(p) => p,
        None => return Err(OriginError::InvalidUrl),
    };
    if !is_scheme(&parts, "http") {
        return Err(OriginError::ContainerRequiresHttp);
    }
    if let Err(e) = normalize_origin(value) {
        return Err(e);
    }
    let host = match &parts.host {
        Some(h) => h,
        None => return Err(OriginError::MissingHost),
    };
    match parts.host_kind {
        Some(HostKind::Ip(ip)) => {
            if ip.is_private_or_link_local() {
                Ok(())
            } else {
                Err(OriginError::PublicContainerAddress)
            }
        },
        _ => {
            if is_single_label(host.as_str()) {
                Ok(())
            } else {
                Err(OriginError::NotServiceName)
            }
        },
    }
}

/// A hosted deployment origin: explicit https, no credentials, not loopback.
pub fn validate_hosted_origin(value: &str) -> (r: Result<(), OriginError>)
    ensures
        r == hosted_origin_spec(value@),
{
    let parts = match parse_url(value) {
        Some(p) => p,
        None => return Err(OriginError::InvalidUrl),
    };
    if !is_scheme(&parts, "https") {
        return Err(OriginError::HostedRequiresHttps);
    }
    if !parts.username.as_str().is_empty() || parts.password.is_some() {
        return Err(OriginError::HostedCredentials);
    }
    if let Err(e) = normalize_origin(value) {
        return Err(e);
    }
    let host = match &parts.host {
        Some(h) => h,
        None => return Err(OriginError::MissingHost),
    };
    if is_host_loopback(host.as_str(), parts.host_kind) {
        return Err(OriginError::HostedLoopback);
    }
    Ok(())
}

} // verus!

verus! {

use crate::net::IpAddress;
use crate::paths::join_spec;

/// The daemon accepts only a loopback bind address, or the unspecified
/// address in constrained-container mode.
pub open spec fn bind_allowed(ip: IpAddress, containerized: bool) -> bool {
    ip.loopback() || (containerized && ip.unspecified())
}

pub fn check_bind(ip: &IpAddress, containerized: bool) -> (r: Result<(), OriginError>)
    ensures
        r is Ok <==> bind_allowed(*ip, containerized),
        r is Err ==> r == Err::<(), OriginError>(OriginError::NonLoopbackBind),
{
    if !ip.is_loopback() && !(containerized && ip.is_unspecified()) {
        Err(OriginError::NonLoopbackBind)
    } else {
        Ok(())
    }
}

/// The editor origin given to users: the hosted origin (which needs
/// container mode) when one is configured, else the loopback editor URL;
/// normalized either way.
pub open spec fn editor_origin_spec(hosted_origin: Option<Seq<char>>, editor_url: Seq<char>, containerized: bool) -> Result<
    Seq<char>,
    OriginError,
> {
    match hosted_origin {
        Some(h) => if !containerized {
            Err(OriginError::HostedRequiresContainer)
        } else {
            match hosted_origin_spec(h) {
                Err(e) => Err(e),
                Ok(_) => normalize_origin_spec(h),
            }
        },
        None => match loopback_origin_spec(editor_url) {
            Err(e) => Err(e),
            Ok(_) => normalize_origin_spec(editor_url),
        },
    }
}

pub fn editor_origin(hosted_origin: Option<&str>, editor_url: &str, containerized: bool) -> (r: Result<
    String,
    OriginError,
>)
    ensures
        match r {
            Ok(s) => editor_origin_spec(crate::requests::opt_view(hosted_origin), editor_url@, containerized)
                == Ok::<Seq<char>, OriginError>(s@),
            Err(e) => editor_origin_spec(crate::requests::opt_view(hosted_origin), editor_url@, containerized)
                == Err::<Seq<char>, OriginError>(e),
        },
{
    match hosted_origin {
        Some(h) => {
            if !containerized {
                return Err(OriginError::HostedRequiresContainer);
            }
            match validate_hosted_origin(h) {
                Err(e) => Err(e),
                Ok(()) => normalize_origin(h),
            }
        },
        None => match validate_loopback_origin(editor_url) {
            Err(e) => Err(e),
            Ok(()) => normalize_origin(editor_url),
        },
    }
}

/// The editor origin the headless worker uses: its own configured origin,
/// which must be an acceptable browser origin, else the user-facing one.
pub open spec fn worker_origin_spec(worker: Option<Seq<char>>, editor_origin: Seq<char>, containerized: bool) -> Result<
    Seq<char>,
    OriginError,
> {
    match worker {
        Some(w) => match browser_origin_spec(w, containerized) {
            Err(e) => Err(e),
            Ok(_) => normalize_origin_spec(w),
        },
        None => Ok(editor_origin),
    }
}

pub fn worker_origin(worker: Option<&str>, editor_origin: &str, containerized: bool) -> (r: Result<
    String,
    OriginError,
>)
    ensures
        match r {
            Ok(s) => worker_origin_spec(crate::requests::opt_view(worker), editor_origin@, containerized)
                == Ok::<Seq<char>, OriginError>(s@),
            Err(e) => worker_origin_spec(crate::requests::opt_view(worker), editor_origin@, containerized)
                == Err::<Seq<char>, OriginError>(e),
        },
{
    match worker {
        Some(w) => match validate_browser_origin(w, containerized) {
            Err(e) => Err(e),
            Ok(()) => normalize_origin(w),
        },
        None => Ok(crate::text::copy_string(editor_origin)),
    }
}

/// The first origin in `extra` that is refused, with its error.
pub open spec fn first_refused_origin(extra: Seq<Seq<char>>, containerized: bool) -> Option<OriginError>
    decreases extra.len(),
{
    if extra.len() == 0 {
        None
    } else if browser_origin_spec(extra[0], containerized) is Err {
        Some(browser_origin_spec(extra[0], containerized)->Err_0)
    } else if normalize_origin_spec(extra[0]) is Err {
        Some(normalize_origin_spec(extra[0])->Err_0)
    } else {
        first_refused_origin(extra.drop_first(), containerized)
    }
}

/// The browser origins the daemon answers: the two loopback editor origins,
/// the configured editor origin and every extra one, normalized.
pub open spec fn origin_set_spec(editor_origin: Seq<char>, extra: Seq<Seq<char>>) -> Set<Seq<char>> {
    set!["http://127.0.0.1:3100"@, "http://localhost:3100"@, editor_origin] + Set::new(
        |o: Seq<char>| exists|i: int| 0 <= i < extra.len() && normalize_origin_spec(#[trigger] extra[i]) == Ok::<Seq<char>, OriginError>(o),
    )
}

fn insert_distinct(v: &mut Vec<String>, s: String)
    requires
        crate::auth::strings_view(old(v)@).no_duplicates(),
    ensures
        crate::auth::strings_view(final(v)@).no_duplicates(),
        crate::auth::strings_view(final(v)@).to_set() == crate::auth::strings_view(old(v)@).to_set().insert(s@),
{
    let ghost before = crate::auth::strings_view(v@);
    let mut i: usize = 0;
    while i < v.len()
        invariant
            i <= v.len(),
            before == crate::auth::strings_view(v@),
            before.no_duplicates(),
            forall|j: int| 0 <= j < i ==> before[j] != s@,
        decreases v.len() - i,
    {
        if str_eq(v[i].as_str(), s.as_str()) {
            proof {
                assert(before[i as int] == s@);
                assert(before.to_set().insert(s@) =~= before.to_set());
            }
            return;
        }
        i += 1;
    }
    v.push(s);
    proof {
        let after = crate::auth::strings_view(v@);
        assert(after =~= before.push(s@));
        before.lemma_push_to_set_commute(s@);
        assert forall|a: int, b: int| 0 <= a < b < after.len() implies after[a] != after[b] by {
            if b == after.len() - 1 {
                assert(after[a] == before[a]);
            }
        }
    }
}

/// Builds the browser origin list: no origin twice, exactly the origins of
/// `origin_set_spec`, or the first refused extra origin.
pub fn allowed_origin_set(editor_origin: &str, extra: &Vec<String>, containerized: bool) -> (r: Result<
    Vec<String>,
    OriginError,
>)
    ensures
        match r {
            Ok(v) => first_refused_origin(crate::auth::strings_view(extra@), containerized) is None
                && crate::auth::strings_view(v@).no_duplicates() && crate::auth::strings_view(v@).to_set()
                == origin_set_spec(editor_origin@, crate::auth::strings_view(extra@)),
            Err(e) => first_refused_origin(crate::auth::strings_view(extra@), containerized) == Some(e),
        },
{
    let mut v: Vec<String> = Vec::new();
    insert_distinct(&mut v, crate::text::copy_string("http://127.0.0.1:3100"));
    insert_distinct(&mut v, crate::text::copy_string("http://localhost:3100"));
    insert_distinct(&mut v, crate::text::copy_string(editor_origin));
    let ghost xs = crate::auth::strings_view(extra@);
    let ghost base = set!["http://127.0.0.1:3100"@, "http://localhost:3100"@, editor_origin@];
    proof {
        assert(crate::auth::strings_view(v@).to_set() =~= base);
        assert(xs.subrange(0, xs.len() as int) =~= xs);
    }
    let mut i: usize = 0;
    while i < extra.len()
        invariant
            i <= extra.len(),
            xs == crate::auth::strings_view(extra@),
            crate::auth::strings_view(v@).no_duplicates(),
            crate::auth::strings_view(v@).to_set() == base + Set::new(
                |o: Seq<char>| exists|j: int| 0 <= j < i && normalize_origin_spec(#[trigger] xs[j]) == Ok::<Seq<char>, OriginError>(o),
            ),
            first_refused_origin(xs, containerized) == first_refused_origin(xs.subrange(i as int, xs.len() as int), containerized),
        decreases extra.len() - i,
    {
        let ghost rest = xs.subrange(i as int, xs.len() as int);
        assert(rest[0] == xs[i as int]);
        assert(rest.drop_first() =~= xs.subrange(i + 1, xs.len() as int));
        let o = extra[i].as_str();
        match validate_browser_origin(o, containerized) {
            Err(e) => return Err(e),
            Ok(()) => {},
        }
        let n = match normalize_origin(o) {
            Err(e) => return Err(e),
            Ok(n) => n,
        };
        let ghost before_set = crate::auth::strings_view(v@).to_set();
        insert_distinct(&mut v, n);
        proof {
            let s_old = Set::new(
                |o: Seq<char>| exists|j: int| 0 <= j < i && normalize_origin_spec(#[trigger] xs[j]) == Ok::<Seq<char>, OriginError>(o),
            );
            let s_new = Set::new(
                |o: Seq<char>| exists|j: int| 0 <= j < i + 1 && normalize_origin_spec(#[trigger] xs[j]) == Ok::<Seq<char>, OriginError>(o),
            );
            assert(normalize_origin_spec(xs[i as int]) == Ok::<Seq<char>, OriginError>(n@));
            assert(s_new =~= s_old.insert(n@)) by {
                assert forall|o: Seq<char>| s_new.contains(o) implies #[trigger] s_old.insert(n@).contains(o) by {
                    let j = choose|j: int| 0 <= j < i + 1 && normalize_origin_spec(#[trigger] xs[j]) == Ok::<Seq<char>, OriginError>(o);
                    if j < i {
                        assert(s_old.contains(o));
                    }
                }
                assert forall|o: Seq<char>| s_old.insert(n@).contains(o) implies #[trigger] s_new.contains(o) by {
                    if o == n@ {
                        assert(normalize_origin_spec(xs[i as int]) == Ok::<Seq<char>, OriginError>(o));
                    } else {
                        let j = choose|j: int| 0 <= j < i && normalize_origin_spec(#[trigger] xs[j]) == Ok::<Seq<char>, OriginError>(o);
                        assert(0 <= j < i + 1);
                    }
                }
            }
            assert(crate::auth::strings_view(v@).to_set() =~= base + s_new);
        }
        i += 1;
    }
    proof {
        assert(xs.subrange(xs.len() as int, xs.len() as int) =~= Seq::<Seq<char>>::empty());
    }
    Ok(v)
}

/// Configuration of the daemon after validation; paths are plain strings.
#[derive(Debug)]
pub struct Config {
    pub bind_ip: IpAddress,
    pub bind_port: u16,
    pub containerized: bool,
    pub home_dir: String,
    pub data_dir: String,
    pub database_path: String,
    pub runtime_descriptor: String,
    pub token_path: String,
    pub provider_config: String,
    pub editor_url: String,
    pub worker_editor_url: String,
    pub media_worker: Option<String>,
    pub mg_runtime_node: Option<String>,
    pub mg_runtime_cli: Option<String>,
    pub codex_command: Option<String>,
    pub authorized_import_roots: Vec<String>,
    /// The browser origins the daemon answers, each once.
    pub allowed_origins: Vec<String>,
    pub browser_session_ttl_secs: u64,
    pub secure_browser_cookie: bool,
}

/// How long a browser session lasts: fifteen minutes.
pub const BROWSER_SESSION_TTL_SECS: u64 = 900;

/// A configured path, or the default file under the daemon home.
pub open spec fn path_or_home(value: Option<Seq<char>>, home: Seq<char>, name: Seq<char>) -> Seq<char> {
    match value {
        Some(v) => v,
        None => join_spec(home, name),
    }
}

fn path_or(value: Option<String>, home: &str, name: &str) -> (r: String)
    ensures
        r@ == path_or_home(crate::net::opt_string_view(value), home@, name@),
{
    match value {
        Some(v) => v,
        None => crate::paths::join(home, name),
    }
}

/// The settings a daemon is started with, after the environment and the
/// file system were consulted: paths resolved, executables located.
#[derive(Debug)]
pub struct StartupSettings {
    pub bind_ip: IpAddress,
    pub bind_port: u16,
    pub containerized: bool,
    pub home_dir: String,
    pub data_dir: Option<String>,
    pub runtime_descriptor: Option<String>,
    pub token_path: Option<String>,
    pub provider_config: Option<String>,
    pub media_worker: Option<String>,
    pub mg_runtime_cli: Option<String>,
    pub mg_runtime_node: Option<String>,
    pub codex_command: Option<String>,
    pub authorized_import_roots: Vec<String>,
    pub hosted: bool,
}

impl Config {
    /// Assembles the configuration from resolved settings and the already
    /// validated origins. Paths default to files under the daemon home; the
    /// Node.js runtime is kept only when the motion-graphic compiler is.
    pub fn assemble(
        settings: StartupSettings,
        editor_url: String,
        worker_editor_url: String,
        allowed_origins: Vec<String>,
    ) -> (c: Config)
        ensures
            c.bind_ip == settings.bind_ip,
            c.bind_port == settings.bind_port,
            c.containerized == settings.containerized,
            c.home_dir@ == settings.home_dir@,
            c.data_dir@ == path_or_home(crate::net::opt_string_view(settings.data_dir), settings.home_dir@, "data"@),
            c.database_path@ == join_spec(c.data_dir@, "openchatcut.sqlite3"@),
            c.runtime_descriptor@ == path_or_home(crate::net::opt_string_view(settings.runtime_descriptor), settings.home_dir@, "runtime.json"@),
            c.token_path@ == path_or_home(crate::net::opt_string_view(settings.token_path), settings.home_dir@, "daemon.token"@),
            c.provider_config@ == path_or_home(crate::net::opt_string_view(settings.provider_config), settings.home_dir@, "providers.json"@),
            c.editor_url@ == editor_url@,
            c.worker_editor_url@ == worker_editor_url@,
            c.media_worker == settings.media_worker,
            c.mg_runtime_cli == settings.mg_runtime_cli,
            c.mg_runtime_node == (if settings.mg_runtime_cli is Some {
                settings.mg_runtime_node
            } else {
                None
            }),
            c.codex_command == settings.codex_command,
            c.authorized_import_roots == settings.authorized_import_roots,
            c.allowed_origins == allowed_origins,
            c.browser_session_ttl_secs == BROWSER_SESSION_TTL_SECS,
            c.secure_browser_cookie == settings.hosted,
    {
        let home = settings.home_dir;
        let data_dir = path_or(settings.data_dir, home.as_str(), "data");
        let database_path = crate::paths::join(data_dir.as_str(), "openchatcut.sqlite3");
        let runtime_descriptor = path_or(settings.runtime_descriptor, home.as_str(), "runtime.json");
        let token_path = path_or(settings.token_path, home.as_str(), "daemon.token");
        let provider_config = path_or(settings.provider_config, home.as_str(), "providers.json");
        let mg_runtime_node = if settings.mg_runtime_cli.is_some() {
            settings.mg_runtime_node
        } else {
            None
        };
        Config {
            bind_ip: settings.bind_ip,
            bind_port: settings.bind_port,
            containerized: settings.containerized,
            home_dir: home,
            data_dir,
            database_path,
            runtime_descriptor,
            token_path,
            provider_config,
            editor_url,
            worker_editor_url,
            media_worker: settings.media_worker,
            mg_runtime_node,
            mg_runtime_cli: settings.mg_runtime_cli,
            codex_command: settings.codex_command,
            authorized_import_roots: settings.authorized_import_roots,
            allowed_origins,
            browser_session_ttl_secs: BROWSER_SESSION_TTL_SECS,
            secure_browser_cookie: settings.hosted,
        }
    }

    /// A configuration for tests rooted at `root`: loopback on an
    /// ephemeral port, the default loopback editor, no optional tools.
    pub fn for_test(root: &str) -> (c: Config)
        ensures
            c.bind_ip == IpAddress::V4([127, 0, 0, 1]),
            c.bind_port == 0,
            !c.containerized,
            c.home_dir@ == join_spec(root@, "home"@),
            c.data_dir@ == join_spec(root@, "data"@),
            c.database_path@ == join_spec(join_spec(root@, "data"@), "openchatcut.sqlite3"@),
            c.runtime_descriptor@ == join_spec(join_spec(root@, "home"@), "runtime.json"@),
            c.token_path@ == join_spec(join_spec(root@, "home"@), "daemon.token"@),
            c.provider_config@ == join_spec(join_spec(root@, "home"@), "providers.json"@),
            c.editor_url@ == "http://127.0.0.1:3100"@,
            c.worker_editor_url@ == "http://127.0.0.1:3100"@,
            c.media_worker is None && c.mg_runtime_node is None && c.mg_runtime_cli is None
                && c.codex_command is None,
            c.authorized_import_roots@.len() == 0,
            crate::auth::strings_view(c.allowed_origins@) == seq!["http://127.0.0.1:3100"@, "http://localhost:3100"@],
            c.browser_session_ttl_secs == BROWSER_SESSION_TTL_SECS,
            !c.secure_browser_cookie,
    {
        let home_dir = crate::paths::join(root, "home");
        let data_dir = crate::paths::join(root, "data");
        let database_path = crate::paths::join(data_dir.as_str(), "openchatcut.sqlite3");
        let runtime_descriptor = crate::paths::join(home_dir.as_str(), "runtime.json");
        let token_path = crate::paths::join(home_dir.as_str(), "daemon.token");
        let provider_config = crate::paths::join(home_dir.as_str(), "providers.json");
        let origins = vec![
            crate::text::copy_string("http://127.0.0.1:3100"),
            crate::text::copy_string("http://localhost:3100"),
        ];
        assert(crate::auth::strings_view(origins@) =~= seq!["http://127.0.0.1:3100"@, "http://localhost:3100"@]);
        Config {
            bind_ip: IpAddress::V4([127, 0, 0, 1]),
            bind_port: 0,
            containerized: false,
            home_dir,
            data_dir,
            database_path,
            runtime_descriptor,
            token_path,
            provider_config,
            editor_url: crate::text::copy_string("http://127.0.0.1:3100"),
            worker_editor_url: crate::text::copy_string("http://127.0.0.1:3100"),
            media_worker: None,
            mg_runtime_node: None,
            mg_runtime_cli: None,
            codex_command: None,
            authorized_import_roots: Vec::new(),
            allowed_origins: origins,
            browser_session_ttl_secs: BROWSER_SESSION_TTL_SECS,
            secure_browser_cookie: false,
        }
    }

    /// The API base URL for the address the daemon bound: `host_text` is the
    /// address as text, bracketed when it is an IPv6 address.
    pub fn api_base_url(&self, host_text: &str, is_v6: bool, port: u16) -> (r: String)
        ensures
            r@ == "http://"@ + (if is_v6 {
                "["@ + host_text@ + "]"@
            } else {
                host_text@
            }) + ":"@ + crate::text::decimal(port as nat) + "/api/v1"@,
    {
        let mut v = chars_of("http://");
        if is_v6 {
            crate::text::push_str(&mut v, "[");
            crate::text::push_str(&mut v, host_text);
            crate::text::push_str(&mut v, "]");
        } else {
            crate::text::push_str(&mut v, host_text);
        }
        crate::text::push_str(&mut v, ":");
        crate::text::push_decimal(&mut v, port as u64);
        crate::text::push_str(&mut v, "/api/v1");
        proof {
            if is_v6 {
                assert(v@ =~= "http://"@ + ("["@ + host_text@ + "]"@) + ":"@ + crate::text::decimal(port as nat) + "/api/v1"@);
            } else {
                assert(v@ =~= "http://"@ + host_text@ + ":"@ + crate::text::decimal(port as nat) + "/api/v1"@);
            }
        }
        crate::text::string_of(v.as_slice())
    }
}

/// A command given with a directory part (or as an absolute path) is used
/// as given; a bare name is looked up in each `PATH` directory.
pub open spec fn has_directory_part(value: Seq<char>) -> bool {
    crate::paths::is_absolute_spec(value) || crate::paths::path_components(value).len() > 1
}

/// The file names tried for an executable (on Unix, the name itself).
pub fn executable_names(value: &str) -> (r: Vec<String>)
    ensures
        r@.len() == 1,
        r@[0]@ == value@,
{
    vec![crate::text::copy_string(value)]
}

/// The candidate files for an executable named `value`, given the `PATH`
/// directories.
pub fn executable_candidates(value: &str, path_dirs: &Vec<String>) -> (r: Vec<String>)
    ensures
        has_directory_part(value@) ==> crate::auth::strings_view(r@) == seq![value@],
        !has_directory_part(value@) ==> crate::auth::strings_view(r@) == crate::auth::strings_view(path_dirs@).map_values(|d: Seq<char>| join_spec(d, value@)),
{
    let has_path = crate::paths::is_absolute(value) || crate::paths::components(value).len() > 1;
    if has_path {
        let r = executable_names(value);
        assert(crate::auth::strings_view(r@) =~= seq![value@]);
        return r;
    }
    let mut out: Vec<String> = Vec::new();
    let mut i: usize = 0;
    while i < path_dirs.len()
        invariant
            i <= path_dirs.len(),
            crate::auth::strings_view(out@) == crate::auth::strings_view(path_dirs@).subrange(0, i as int).map_values(|d: Seq<char>| join_spec(d, value@)),
        decreases path_dirs.len() - i,
    {
        let names = executable_names(crate::paths::join(path_dirs[i].as_str(), value).as_str());
        let c = crate::text::copy_string(names[0].as_str());
        let ghost old_out = out@;
        out.push(c);
        proof {
            let dirs = crate::auth::strings_view(path_dirs@);
            assert(crate::auth::strings_view(out@) =~= crate::auth::strings_view(old_out).push(c@));
            assert(dirs[i as int] == path_dirs@[i as int]@);
            assert(dirs.subrange(0, i + 1) =~= dirs.subrange(0, i as int).push(dirs[i as int]));
            assert(crate::auth::strings_view(out@) =~= dirs.subrange(0, i + 1).map_values(|d: Seq<char>| join_spec(d, value@)));
        }
        i += 1;
    }
    assert(crate::auth::strings_view(path_dirs@).subrange(0, path_dirs.len() as int) =~= crate::auth::strings_view(path_dirs@));
    out
}


/// The components of each path.
pub open spec fn path_keys(v: Seq<String>) -> Seq<Seq<Seq<char>>> {
    v.map_values(|p: String| crate::paths::path_components(p@))
}

/// `s` is a root of `roots` that names its location first.
pub open spec fn first_root_of_location(s: String, roots: Seq<String>) -> bool {
    exists|j: int|
        0 <= j < roots.len() && #[trigger] roots[j]@ == s@ && forall|q: int|
            0 <= q < j ==> path_keys(roots)[q] != path_keys(roots)[j]
}

/// Some path of `out` names the location with components `k`.
pub open spec fn lists_location(out: Seq<String>, k: Seq<Seq<char>>) -> bool {
    exists|i: int| 0 <= i < out.len() && #[trigger] path_keys(out)[i] == k
}

/// The canonical import roots in path order, each location once: `out` is
/// strictly ordered by `components_lt`, names exactly the locations of
/// `roots`, and keeps for each location the first root that names it.
pub open spec fn ordered_roots(out: Seq<String>, roots: Seq<String>) -> bool {
    &&& forall|i: int, j: int|
        0 <= i < j < out.len() ==> crate::paths::components_lt(
            #[trigger] path_keys(out)[i],
            #[trigger] path_keys(out)[j],
        )
    &&& forall|i: int| 0 <= i < out.len() ==> first_root_of_location(#[trigger] out[i], roots)
    &&& forall|j: int| 0 <= j < roots.len() ==> lists_location(out, #[trigger] path_keys(roots)[j])
}

/// Orders the canonical import roots by path and drops later roots that name
/// a location already listed (`sort` then `dedup` of the canonical paths).
pub fn canonical_import_roots(roots: Vec<String>) -> (r: Vec<String>)
    ensures
        ordered_roots(r@, roots@),
{
    let ghost rk = path_keys(roots@);
    let mut out: Vec<String> = Vec::new();
    let mut keys: Vec<Vec<Vec<char>>> = Vec::new();
    let mut n: usize = 0;
    while n < roots.len()
        invariant
            n <= roots.len(),
            rk == path_keys(roots@),
            keys.len() == out.len(),
            forall|i: int| 0 <= i < out.len() ==> crate::paths::views_of(#[trigger] keys@[i]@) == path_keys(out@)[i],
            forall|i: int, j: int|
                0 <= i < j < out.len() ==> crate::paths::components_lt(
                    #[trigger] path_keys(out@)[i],
                    #[trigger] path_keys(out@)[j],
                ),
            forall|i: int|
                #![trigger out@[i]]
                0 <= i < out.len() ==> exists|j: int|
                    0 <= j < n && #[trigger] out@[i]@ == roots@[j]@ && forall|q: int|
                        0 <= q < j ==> rk[q] != rk[j],
            forall|j: int|
                #![trigger rk[j]]
                0 <= j < n ==> exists|i: int| 0 <= i < out.len() && #[trigger] path_keys(out@)[i] == rk[j],
        decreases roots.len() - n,
    {
        let c = crate::paths::components(roots[n].as_str());
        assert(crate::paths::views_of(c@) == rk[n as int]);
        let mut k: usize = 0;
        while k < keys.len() && crate::paths::components_less(&keys[k], &c)
            invariant
                k <= keys.len(),
                keys.len() == out.len(),
                forall|i: int| 0 <= i < out.len() ==> crate::paths::views_of(#[trigger] keys@[i]@) == path_keys(out@)[i],
                forall|i: int| 0 <= i < k ==> crate::paths::components_lt(#[trigger] path_keys(out@)[i], crate::paths::views_of(c@)),
            decreases keys.len() - k,
        {
            k += 1;
        }
        let ghost ck = crate::paths::views_of(c@);
        let duplicate = k < keys.len() && same_components(&keys[k], &c);
        if !duplicate {
            proof {
                if k < keys.len() {
                    crate::paths::lemma_components_lt_order(path_keys(out@)[k as int], ck);
                }
            }
            let ghost before_out = out@;
            let ghost before_keys = path_keys(out@);
            out.insert(k, crate::text::copy_string(roots[n].as_str()));
            keys.insert(k, c);
            proof {
                assert(path_keys(out@) =~= before_keys.insert(k as int, ck));
                assert forall|i: int, j: int|
                    0 <= i < j < out.len() implies crate::paths::components_lt(
                    #[trigger] path_keys(out@)[i],
                    #[trigger] path_keys(out@)[j],
                ) by {
                    let pk = path_keys(out@);
                    if j < k {
                        assert(pk[i] == before_keys[i] && pk[j] == before_keys[j]);
                    } else if j == k {
                        assert(pk[i] == before_keys[i]);
                    } else if i == k {
                        assert(pk[j] == before_keys[j - 1]);
                        if j - 1 > k {
                            crate::paths::lemma_components_lt_transitive(ck, before_keys[k as int], before_keys[j - 1]);
                        }
                    } else if i < k {
                        assert(pk[i] == before_keys[i] && pk[j] == before_keys[j - 1]);
                        crate::paths::lemma_components_lt_transitive(before_keys[i], ck, before_keys[k as int]);
                        if j - 1 > k {
                            crate::paths::lemma_components_lt_transitive(before_keys[i], before_keys[k as int], before_keys[j - 1]);
                        }
                    } else {
                        assert(pk[i] == before_keys[i - 1] && pk[j] == before_keys[j - 1]);
                    }
                }
                assert forall|i: int| #![trigger out@[i]] 0 <= i < out.len() implies exists|j: int|
                    0 <= j < n + 1 && #[trigger] out@[i]@ == roots@[j]@ && forall|q: int|
                        0 <= q < j ==> rk[q] != rk[j] by {
                    if i == k {
                        assert(out@[i]@ == roots@[n as int]@);
                        assert forall|q: int| 0 <= q < n implies rk[q] != rk[n as int] by {
                            let w = choose|w: int| 0 <= w < before_out.len() && #[trigger] before_keys[w] == rk[q];
                            if rk[q] == ck {
                                if w < k {
                                    crate::paths::lemma_components_lt_order(ck, ck);
                                } else if w == k {
                                } else {
                                    crate::paths::lemma_components_lt_order(ck, ck);
                                    crate::paths::lemma_components_lt_transitive(ck, before_keys[k as int], before_keys[w]);
                                }
                            }
                        }
                    } else if i < k {
                        assert(out@[i] == before_out[i]);
                    } else {
                        assert(out@[i] == before_out[i - 1]);
                    }
                }
                assert forall|j: int| #![trigger rk[j]] 0 <= j < n + 1 implies exists|i: int|
                    0 <= i < out.len() && #[trigger] path_keys(out@)[i] == rk[j] by {
                    if j == n {
                        assert(path_keys(out@)[k as int] == rk[j]);
                    } else {
                        let w = choose|w: int| 0 <= w < before_out.len() && #[trigger] before_keys[w] == rk[j];
                        if w < k {
                            assert(path_keys(out@)[w] == rk[j]);
                        } else {
                            assert(path_keys(out@)[w + 1] == rk[j]);
                        }
                    }
                }
                assert forall|i: int| 0 <= i < out.len() implies crate::paths::views_of(#[trigger] keys@[i]@) == path_keys(out@)[i] by {
                    if i < k {
                    } else if i == k {
                    } else {
                    }
                }
            }
        } else {
            proof {
                assert forall|j: int| #![trigger rk[j]] 0 <= j < n + 1 implies exists|i: int|
                    0 <= i < out.len() && #[trigger] path_keys(out@)[i] == rk[j] by {
                    if j == n {
                        assert(path_keys(out@)[k as int] == rk[j]);
                    }
                }
            }
        }
        n += 1;
    }
    proof {
        assert forall|i: int| 0 <= i < out.len() implies first_root_of_location(
            #[trigger] out@[i],
            roots@,
        ) by {
            let oi = out@[i];
            let j = choose|j: int| 0 <= j < n && #[trigger] out@[i]@ == roots@[j]@ && forall|q: int|
                0 <= q < j ==> rk[q] != rk[j];
            assert(roots@[j]@ == out@[i]@);
        }
        assert forall|j: int| 0 <= j < roots.len() implies lists_location(
            out@,
            #[trigger] path_keys(roots@)[j],
        ) by {
            let kj = rk[j];
            let i = choose|i: int| 0 <= i < out.len() && #[trigger] path_keys(out@)[i] == rk[j];
        }
    }
    out
}

fn same_components(a: &Vec<Vec<char>>, b: &Vec<Vec<char>>) -> (r: bool)
    ensures
        r == (crate::paths::views_of(a@) == crate::paths::views_of(b@)),
{
    if a.len() != b.len() {
        assert(crate::paths::views_of(a@).len() != crate::paths::views_of(b@).len());
        return false;
    }
    let mut i: usize = 0;
    while i < a.len()
        invariant
            i <= a.len(),
            a.len() == b.len(),
            forall|j: int| 0 <= j < i ==> a@[j]@ == b@[j]@,
        decreases a.len() - i,
    {
        if !crate::text::seq_eq(a[i].as_slice(), b[i].as_slice()) {
            assert(crate::paths::views_of(a@)[i as int] != crate::paths::views_of(b@)[i as int]);
            return false;
        }
        i += 1;
    }
    assert(crate::paths::views_of(a@) =~= crate::paths::views_of(b@));
    true
}

} // verus!
