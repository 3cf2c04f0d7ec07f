//! Resolution of operator-supplied options into one startup
//! configuration.
//!
//! A single configurable entry point replaces separate program variants:
//! the operator either supplies one public address (single-address mode)
//! or lets the process discover its addresses (multi-homed mode), and in
//! multi-homed mode must name the local endpoint the credential service
//! listens on. Every missing-but-required or malformed option is a
//! distinct fatal error, never a silent default.

use vstd::prelude::*;

use crate::addr::{spec_parse_ipv4, IpAddress};
use crate::auth::AuthAdapter;
use crate::credentials::DEFAULT_TTL_SECS;
use crate::endpoints::RelayEndpointPlan;

verus! {

/// The relay port used when the operator names none.
pub const DEFAULT_PORT: u16 = 3478;

/// The realm advertised when the operator names none.
pub fn default_realm() -> (r: &'static str)
    ensures
        r@ == "webrtc.rs"@,
{
    "webrtc.rs"
}

/// Where the relay's public addresses come from.
#[derive(Clone, Copy, PartialEq, Eq, Structural, Debug)]
pub enum AddressMode {
    /// One operator-supplied public address; discovery is bypassed.
    Single { public_ip: IpAddress },
    /// The addresses discovered on the machine's interfaces.
    MultiHomed,
}

/// The options as they arrive from the command line, each still absent
/// when the operator did not give it.
pub struct CliOptions {
    pub realm: Option<String>,
    pub socket_path: Option<String>,
    pub public_ip: Option<String>,
    pub port: Option<u16>,
    pub shared_secret: Option<String>,
}

/// A fatal startup error in the supplied options.
#[derive(Clone, Copy, PartialEq, Eq, Structural, Debug)]
pub enum ConfigError {
    /// `--public-ip` was given but is not dotted-quad IPv4 text.
    MalformedPublicIp,
    /// Multi-homed mode was chosen and no credential-service endpoint
    /// was named.
    MissingSocketPath,
    /// No shared secret was supplied; credentials could neither be
    /// minted nor checked.
    MissingSharedSecret,
}

/// Everything startup needs, resolved once and immutable thereafter.
pub struct ResolvedConfig {
    pub realm: String,
    pub mode: AddressMode,
    pub port: u16,
    pub socket_path: Option<String>,
    pub shared_secret: String,
    pub ttl_secs: u64,
    pub channel_bind_timeout_secs: u64,
}

/// The mode the options choose, when they are acceptable.
pub open spec fn spec_mode_of(public_ip: Option<String>) -> AddressMode {
    match public_ip {
        Option::Some(p) => AddressMode::Single {
            public_ip: IpAddress::V4(spec_parse_ipv4(p@)->Some_0),
        },
        Option::None => AddressMode::MultiHomed,
    }
}

/// Turns command-line options into the startup configuration, or the
/// first fatal error in them. Single-address mode needs a well-formed
/// `--public-ip`; multi-homed mode needs `--socket`; realm and port fall
/// back to their defaults.
pub fn resolve_config(opts: CliOptions) -> (r: Result<ResolvedConfig, ConfigError>)
    ensures
        r == Result::<ResolvedConfig, ConfigError>::Err(ConfigError::MalformedPublicIp) <==> (
        opts.public_ip is Some && spec_parse_ipv4(opts.public_ip->Some_0@) is None),
        r == Result::<ResolvedConfig, ConfigError>::Err(ConfigError::MissingSocketPath) <==> (
        opts.public_ip is None && opts.socket_path is None),
        r == Result::<ResolvedConfig, ConfigError>::Err(ConfigError::MissingSharedSecret) <==> (
        opts.shared_secret is None && !(opts.public_ip is Some && spec_parse_ipv4(
            opts.public_ip->Some_0@,
        ) is None) && !(opts.public_ip is None && opts.socket_path is None)),
        r is Ok ==> {
            let c = r->Ok_0;
            &&& c.realm@ == (if opts.realm is Some {
                opts.realm->Some_0@
            } else {
                "webrtc.rs"@
            })
            &&& c.mode == spec_mode_of(opts.public_ip)
            &&& c.port == (if opts.port is Some {
                opts.port->Some_0
            } else {
                DEFAULT_PORT
            })
            &&& c.socket_path == opts.socket_path
            &&& c.shared_secret@ == opts.shared_secret->Some_0@
            &&& c.ttl_secs == DEFAULT_TTL_SECS
            &&& c.channel_bind_timeout_secs == 0
        },
{
    let CliOptions { realm, socket_path, public_ip, port, shared_secret } = opts;
    let mode = match &public_ip {
        Option::Some(p) => {
            match crate::addr::IpAddress::parse_ipv4(p.as_str()) {
                Option::Some(ip) => AddressMode::Single { public_ip: ip },
                Option::None => {
                    return Result::Err(ConfigError::MalformedPublicIp);
                },
            }
        },
        Option::None => {
            if socket_path.is_none() {
                return Result::Err(ConfigError::MissingSocketPath);
            }
            AddressMode::MultiHomed
        },
    };
    let shared_secret = match shared_secret {
        Option::Some(s) => s,
        Option::None => {
            return Result::Err(ConfigError::MissingSharedSecret);
        },
    };
    let realm = match realm {
        Option::Some(r) => r,
        Option::None => default_realm().to_owned(),
    };
    let port = match port {
        Option::Some(p) => p,
        Option::None => DEFAULT_PORT,
    };
    Result::Ok(
        ResolvedConfig {
            realm,
            mode,
            port,
            socket_path,
            shared_secret,
            ttl_secs: DEFAULT_TTL_SECS,
            channel_bind_timeout_secs: 0,
        },
    )
}

/// What the external relay engine is started with: the realm, the
/// ordered relay listeners, the authentication capability, and the
/// engine's timeout parameter. Built once at startup; immutable
/// thereafter.
pub struct ServerRuntimeConfig {
    pub realm: String,
    pub endpoints: Vec<RelayEndpointPlan>,
    pub auth: AuthAdapter,
    pub channel_bind_timeout_secs: u64,
}

impl ServerRuntimeConfig {
    pub fn new(
        realm: String,
        endpoints: Vec<RelayEndpointPlan>,
        auth: AuthAdapter,
        channel_bind_timeout_secs: u64,
    ) -> (c: ServerRuntimeConfig)
        ensures
            c.realm@ == realm@,
            c.endpoints@ == endpoints@,
            c.auth.secret.text@ == auth.secret.text@,
            c.channel_bind_timeout_secs == channel_bind_timeout_secs,
    {
        ServerRuntimeConfig { realm, endpoints, auth, channel_bind_timeout_secs }
    }
}

} // verus!
