use vstd::prelude::*;
use vstd::string::*;

use crate::iri::{
    check_absolute_iri, check_relative_iri, fresh_uuid, hyphenated_uuid, is_absolute_iri,
    is_relative_iri, resolve_against, resolved_iri, set_fragment, uuid_text, with_fragment,
};

verus! {

/// The settings a relay is started with, as read from its environment.
pub struct Settings {
    pub hostname: String,
    pub addr: String,
    pub port: u16,
    pub debug: bool,
    pub restricted_mode: bool,
    pub validate_signatures: bool,
    pub https: bool,
    pub publish_blocks: bool,
    pub sled_path: String,
    pub source_repo: String,
    pub opentelemetry_url: Option<String>,
    pub telegram_token: Option<String>,
    pub telegram_admin_handle: Option<String>,
    pub api_token: Option<String>,
    pub local_domains: Vec<String>,
}

/// Why a configuration could not be built.
#[derive(Debug, PartialEq, Eq, Structural, Clone, Copy)]
pub enum ConfigError {
    /// The scheme and hostname do not form an absolute IRI.
    InvalidBaseUri,
}

/// Why an address could not be generated.
#[derive(Debug, PartialEq, Eq, Structural, Clone, Copy)]
pub enum UrlError {
    /// The relative path of the endpoint is not a relative IRI reference.
    InvalidPath,
}

/// The process-wide, read-only relay configuration.
pub struct Config {
    hostname: String,
    addr: String,
    port: u16,
    debug: bool,
    restricted_mode: bool,
    validate_signatures: bool,
    publish_blocks: bool,
    base_uri: String,
    sled_path: String,
    source_repo: String,
    opentelemetry_url: Option<String>,
    telegram_token: Option<String>,
    telegram_admin_handle: Option<String>,
    api_token: Option<String>,
    local_domains: Vec<String>,
}

/// The public protocol endpoints of the relay.
#[derive(Debug, PartialEq, Eq, Structural, Clone, Copy)]
pub enum UrlKind {
    Activity,
    Actor,
    Followers,
    Following,
    Inbox,
    Index,
    MainKey,
    /// A media item, by the 128-bit value of its UUID.
    Media(u128),
    NodeInfo,
    Outbox,
}

/// The endpoints of the admin API.
#[derive(Debug, PartialEq, Eq, Structural, Clone, Copy)]
pub enum AdminUrlKind {
    Allow,
    Disallow,
    Block,
    Unblock,
    Allowed,
    Blocked,
    Connected,
}

/// What a configuration holds, as mathematical values.
pub struct ConfigView {
    pub hostname: Seq<char>,
    pub addr: Seq<char>,
    pub port: u16,
    pub debug: bool,
    pub restricted_mode: bool,
    pub validate_signatures: bool,
    pub publish_blocks: bool,
    pub base_uri: Seq<char>,
    pub sled_path: Seq<char>,
    pub source_repo: Seq<char>,
    pub opentelemetry_url: Option<Seq<char>>,
    pub telegram_token: Option<Seq<char>>,
    pub telegram_admin_handle: Option<Seq<char>>,
    pub api_token: Option<Seq<char>>,
    pub local_domains: Seq<Seq<char>>,
}

pub open spec fn opt_view(o: Option<String>) -> Option<Seq<char>> {
    match o {
        Some(s) => Some(s@),
        None => None,
    }
}

pub open spec fn strings_view(v: Seq<String>) -> Seq<Seq<char>> {
    v.map_values(|s: String| s@)
}

impl View for Config {
    type V = ConfigView;

    closed spec fn view(&self) -> ConfigView {
        ConfigView {
            hostname: self.hostname@,
            addr: self.addr@,
            port: self.port,
            debug: self.debug,
            restricted_mode: self.restricted_mode,
            validate_signatures: self.validate_signatures,
            publish_blocks: self.publish_blocks,
            base_uri: self.base_uri@,
            sled_path: self.sled_path@,
            source_repo: self.source_repo@,
            opentelemetry_url: opt_view(self.opentelemetry_url),
            telegram_token: opt_view(self.telegram_token),
            telegram_admin_handle: opt_view(self.telegram_admin_handle),
            api_token: opt_view(self.api_token),
            local_domains: strings_view(self.local_domains@),
        }
    }
}

/// The base address: the scheme, `://` and the hostname.
pub open spec fn base_text(https: bool, hostname: Seq<char>) -> Seq<char> {
    (if https {
        "https"@
    } else {
        "http"@
    }) + "://"@ + hostname
}

/// The path of a public endpoint relative to the base; `id` names a fresh activity.
pub open spec fn url_path(kind: UrlKind, id: u128) -> Seq<char> {
    match kind {
        UrlKind::Activity => "activity/"@ + hyphenated_uuid(id),
        UrlKind::Actor => "actor"@,
        UrlKind::Followers => "followers"@,
        UrlKind::Following => "following"@,
        UrlKind::Inbox => "inbox"@,
        UrlKind::Index => Seq::empty(),
        UrlKind::MainKey => "actor"@,
        UrlKind::Media(m) => "media/"@ + hyphenated_uuid(m),
        UrlKind::NodeInfo => "nodeinfo/2.0.json"@,
        UrlKind::Outbox => "outbox"@,
    }
}

/// The address of a public endpoint against `base`, or `None` where its path
/// is not a relative reference.
pub open spec fn url_of(base: Seq<char>, kind: UrlKind, id: u128) -> Option<Seq<char>> {
    let path = url_path(kind, id);
    match kind {
        UrlKind::Index => Some(base),
        UrlKind::MainKey => if is_relative_iri(path) {
            Some(with_fragment(resolved_iri(base, path), "main-key"@))
        } else {
            None
        },
        _ => if is_relative_iri(path) {
            Some(resolved_iri(base, path))
        } else {
            None
        },
    }
}

/// The path of an admin endpoint relative to the base.
pub open spec fn admin_path(kind: AdminUrlKind) -> Seq<char> {
    "api/v1/admin/"@ + match kind {
        AdminUrlKind::Allow => "allow"@,
        AdminUrlKind::Disallow => "disallow"@,
        AdminUrlKind::Block => "block"@,
        AdminUrlKind::Unblock => "unblock"@,
        AdminUrlKind::Allowed => "allowed"@,
        AdminUrlKind::Blocked => "blocked"@,
        AdminUrlKind::Connected => "connected"@,
    }
}

/// The address of an admin endpoint against `base`, or `None` where its path
/// is not a relative reference.
pub open spec fn admin_url_of(base: Seq<char>, kind: AdminUrlKind) -> Option<Seq<char>> {
    let path = admin_path(kind);
    if is_relative_iri(path) {
        Some(resolved_iri(base, path))
    } else {
        None
    }
}

pub open spec fn result_view(r: Result<String, UrlError>) -> Option<Seq<char>> {
    match r {
        Ok(s) => Some(s@),
        Err(_) => None,
    }
}

/// The version text: `v<version>`, followed by `-<branch>-<hash>` when both are known.
pub open spec fn version_text(
    version: Seq<char>,
    branch: Option<Seq<char>>,
    hash: Option<Seq<char>>,
) -> Seq<char> {
    match (branch, hash) {
        (Some(b), Some(h)) => "v"@ + version + "-"@ + b + "-"@ + h,
        _ => "v"@ + version,
    }
}

pub open spec fn str_opt_view(o: Option<&str>) -> Option<Seq<char>> {
    match o {
        Some(s) => Some(s@),
        None => None,
    }
}

fn clone_opt(o: &Option<String>) -> (r: Option<String>)
    ensures
        opt_view(r) == opt_view(*o),
{
    match o {
        Some(s) => Some(s.clone()),
        None => None,
    }
}

impl Config {
    #[verifier::type_invariant]
    spec fn inv(&self) -> bool {
        is_absolute_iri(self.base_uri@)
    }

    /// Builds the configuration; the base address is the scheme chosen by
    /// `https` followed by the hostname, and must be an absolute IRI.
    pub fn build(settings: Settings) -> (r: Result<Config, ConfigError>)
        ensures
            r is Ok <==> is_absolute_iri(base_text(settings.https, settings.hostname@)),
            r matches Ok(c) ==> c@ == (ConfigView {
                hostname: settings.hostname@,
                addr: settings.addr@,
                port: settings.port,
                debug: settings.debug,
                restricted_mode: settings.restricted_mode,
                validate_signatures: settings.validate_signatures,
                publish_blocks: settings.publish_blocks,
                base_uri: base_text(settings.https, settings.hostname@),
                sled_path: settings.sled_path@,
                source_repo: settings.source_repo@,
                opentelemetry_url: opt_view(settings.opentelemetry_url),
                telegram_token: opt_view(settings.telegram_token),
                telegram_admin_handle: opt_view(settings.telegram_admin_handle),
                api_token: opt_view(settings.api_token),
                local_domains: strings_view(settings.local_domains@),
            }),
            r is Err ==> r == Err::<Config, ConfigError>(ConfigError::InvalidBaseUri),
    {
        let mut base_uri = if settings.https {
            String::from_str("https")
        } else {
            String::from_str("http")
        };
        base_uri.append("://");
        base_uri.append(settings.hostname.as_str());
        proof {
            reveal_strlit("https");
            reveal_strlit("http");
            assert(base_uri@ =~= base_text(settings.https, settings.hostname@));
        }
        if !check_absolute_iri(base_uri.as_str()) {
            return Err(ConfigError::InvalidBaseUri);
        }
        Ok(Config {
            hostname: settings.hostname,
            addr: settings.addr,
            port: settings.port,
            debug: settings.debug,
            restricted_mode: settings.restricted_mode,
            validate_signatures: settings.validate_signatures,
            publish_blocks: settings.publish_blocks,
            base_uri,
            sled_path: settings.sled_path,
            source_repo: settings.source_repo,
            opentelemetry_url: settings.opentelemetry_url,
            telegram_token: settings.telegram_token,
            telegram_admin_handle: settings.telegram_admin_handle,
            api_token: settings.api_token,
            local_domains: settings.local_domains,
        })
    }

    /// The absolute base address of the relay.
    pub fn base_uri(&self) -> (r: &str)
        ensures
            r@ == self@.base_uri,
            is_absolute_iri(r@),
    {
        proof {
            use_type_invariant(self);
        }
        self.base_uri.as_str()
    }

    /// The address of a public endpoint, with `id` as the identifier of a
    /// fresh activity.
    pub fn generate_url_with(&self, kind: UrlKind, id: u128) -> (r: Result<String, UrlError>)
        ensures
            result_view(r) == url_of(self@.base_uri, kind, id),
            r is Err ==> r == Err::<String, UrlError>(UrlError::InvalidPath),
    {
        proof {
            use_type_invariant(self);
        }
        let path = match kind {
            UrlKind::Activity => {
                let mut p = String::from_str("activity/");
                let u = uuid_text(id);
                p.append(u.as_str());
                p
            },
            UrlKind::Actor => String::from_str("actor"),
            UrlKind::Followers => String::from_str("followers"),
            UrlKind::Following => String::from_str("following"),
            UrlKind::Inbox => String::from_str("inbox"),
            UrlKind::Index => {
                return Ok(self.base_uri.clone());
            },
            UrlKind::MainKey => String::from_str("actor"),
            UrlKind::Media(m) => {
                let mut p = String::from_str("media/");
                let u = uuid_text(m);
                p.append(u.as_str());
                p
            },
            UrlKind::NodeInfo => String::from_str("nodeinfo/2.0.json"),
            UrlKind::Outbox => String::from_str("outbox"),
        };
        assert(path@ == url_path(kind, id));
        if !check_relative_iri(path.as_str()) {
            return Err(UrlError::InvalidPath);
        }
        let resolved = resolve_against(self.base_uri.as_str(), path.as_str());
        match kind {
            UrlKind::MainKey => Ok(set_fragment(resolved.as_str(), "main-key")),
            _ => Ok(resolved),
        }
    }

    /// The address of a public endpoint; an activity gets a fresh random
    /// identifier on each call.
    pub fn do_generate_url(&self, kind: UrlKind) -> (r: Result<String, UrlError>)
        ensures
            exists|id: u128| result_view(r) == url_of(self@.base_uri, kind, id),
            kind != UrlKind::Activity ==> result_view(r) == url_of(self@.base_uri, kind, 0),
    {
        let id: u128 = match kind {
            UrlKind::Activity => fresh_uuid(),
            _ => 0,
        };
        let r = self.generate_url_with(kind, id);
        assert(result_view(r) == url_of(self@.base_uri, kind, id));
        r
    }

    /// The address of an admin endpoint.
    pub fn do_generate_admin_url(&self, kind: AdminUrlKind) -> (r: Result<String, UrlError>)
        ensures
            result_view(r) == admin_url_of(self@.base_uri, kind),
            r is Err ==> r == Err::<String, UrlError>(UrlError::InvalidPath),
    {
        proof {
            use_type_invariant(self);
        }
        let mut path = String::from_str("api/v1/admin/");
        let tail = match kind {
            AdminUrlKind::Allow => "allow",
            AdminUrlKind::Disallow => "disallow",
            AdminUrlKind::Block => "block",
            AdminUrlKind::Unblock => "unblock",
            AdminUrlKind::Allowed => "allowed",
            AdminUrlKind::Blocked => "blocked",
            AdminUrlKind::Connected => "connected",
        };
        path.append(tail);
        assert(path@ == admin_path(kind));
        if !check_relative_iri(path.as_str()) {
            return Err(UrlError::InvalidPath);
        }
        Ok(resolve_against(self.base_uri.as_str(), path.as_str()))
    }

    /// The WebFinger resource of the relay: `relay@<hostname>`.
    pub fn generate_resource(&self) -> (r: String)
        ensures
            r@ == "relay@"@ + self@.hostname,
    {
        let mut r = String::from_str("relay@");
        r.append(self.hostname.as_str());
        r
    }

    /// The name the relay's software goes by.
    pub fn software_name() -> (r: &'static str)
        ensures
            r@ == "AodeRelay"@,
    {
        "AodeRelay"
    }

    /// `<branch>-<hash>` when both parts of the build's revision are known.
    pub fn git_version(branch: Option<&str>, hash: Option<&str>) -> (r: Option<String>)
        ensures
            r is Some <==> (branch is Some && hash is Some),
            r matches Some(s) ==> s@ == branch->Some_0@ + "-"@ + hash->Some_0@,
    {
        match (branch, hash) {
            (Some(b), Some(h)) => {
                let mut s = String::from_str(b);
                s.append("-");
                s.append(h);
                Some(s)
            },
            _ => None,
        }
    }

    /// The version of the software, with the build's revision when it is known.
    pub fn software_version(version: &str, branch: Option<&str>, hash: Option<&str>) -> (r: String)
        ensures
            r@ == version_text(version@, str_opt_view(branch), str_opt_view(hash)),
    {
        let mut r = String::from_str("v");
        r.append(version);
        match Self::git_version(branch, hash) {
            Some(git) => {
                r.append("-");
                r.append(git.as_str());
                assert(r@ =~= version_text(version@, str_opt_view(branch), str_opt_view(hash)));
            },
            None => {},
        }
        r
    }

    /// The `User-Agent` of the relay's outgoing requests:
    /// `AodeRelay (<name>/<version>; +<base address>)`.
    pub fn user_agent(&self, name: &str, version: &str) -> (r: String)
        ensures
            r@ == "AodeRelay ("@ + name@ + "/"@ + version@ + "; +"@ + self@.base_uri + ")"@,
    {
        let mut r = String::from_str(Self::software_name());
        r.append(" (");
        r.append(name);
        r.append("/");
        r.append(version);
        r.append("; +");
        r.append(self.base_uri.as_str());
        r.append(")");
        proof {
            reveal_strlit("AodeRelay");
            reveal_strlit(" (");
            reveal_strlit("AodeRelay (");
            assert(r@ =~= "AodeRelay ("@ + name@ + "/"@ + version@ + "; +"@ + self@.base_uri
                + ")"@);
        }
        r
    }

    /// The bot token and admin handle, when both are configured.
    pub fn telegram_info(&self) -> (r: Option<(&str, &str)>)
        ensures
            r is Some <==> (self@.telegram_token is Some && self@.telegram_admin_handle is Some),
            r matches Some((t, h)) ==> t@ == self@.telegram_token->Some_0 && h@
                == self@.telegram_admin_handle->Some_0,
    {
        match (&self.telegram_token, &self.telegram_admin_handle) {
            (Some(t), Some(h)) => Some((t.as_str(), h.as_str())),
            _ => None,
        }
    }

    pub fn validate_signatures(&self) -> (r: bool)
        ensures
            r == self@.validate_signatures,
    {
        self.validate_signatures
    }

    pub fn restricted_mode(&self) -> (r: bool)
        ensures
            r == self@.restricted_mode,
    {
        self.restricted_mode
    }

    pub fn debug(&self) -> (r: bool)
        ensures
            r == self@.debug,
    {
        self.debug
    }

    pub fn publish_blocks(&self) -> (r: bool)
        ensures
            r == self@.publish_blocks,
    {
        self.publish_blocks
    }

    pub fn hostname(&self) -> (r: &str)
        ensures
            r@ == self@.hostname,
    {
        self.hostname.as_str()
    }

    pub fn port(&self) -> (r: u16)
        ensures
            r == self@.port,
    {
        self.port
    }

    /// The textual address the relay binds to.
    pub fn addr(&self) -> (r: &str)
        ensures
            r@ == self@.addr,
    {
        self.addr.as_str()
    }

    pub fn sled_path(&self) -> (r: &str)
        ensures
            r@ == self@.sled_path,
    {
        self.sled_path.as_str()
    }

    /// The address of the relay's source repository.
    pub fn source_code(&self) -> (r: &str)
        ensures
            r@ == self@.source_repo,
    {
        self.source_repo.as_str()
    }

    pub fn opentelemetry_url(&self) -> (r: Option<String>)
        ensures
            opt_view(r) == self@.opentelemetry_url,
    {
        clone_opt(&self.opentelemetry_url)
    }

    pub fn api_token(&self) -> (r: Option<String>)
        ensures
            opt_view(r) == self@.api_token,
    {
        clone_opt(&self.api_token)
    }

    pub fn local_domains(&self) -> (r: &Vec<String>)
        ensures
            strings_view(r@) == self@.local_domains,
    {
        &self.local_domains
    }
}

/// Setting the fragment `main-key` on the actor's address gives the address
/// of the main key.
pub proof fn lemma_main_key_is_actor_with_fragment(base: Seq<char>, id: u128)
    requires
        url_of(base, UrlKind::Actor, id) is Some,
    ensures
        url_of(base, UrlKind::MainKey, id) == Some(
            with_fragment(url_of(base, UrlKind::Actor, id)->Some_0, "main-key"@),
        ),
{
}

} // verus!
