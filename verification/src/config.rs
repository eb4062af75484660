use vstd::prelude::*;

use crate::error::Error;
use crate::relay::{
    default_discovery_relays, default_relays, law_blank_relay_list, law_relay_list_complete,
    parse_relay_list, relay_list, relay_url_parse, RelaySet,
};
use crate::text::{char_is_whitespace, split_on, trim};

verus! {

/// A filesystem path.
#[verifier::external_type_specification]
#[verifier::external_body]
pub struct ExPathBuf(std::path::PathBuf);

/// The environment variable that names the working directory.
pub const ENV_WORKDIR: &'static str = "NOSTR_SYNC_WORKDIR";

/// The environment variable that overrides the web listening address.
pub const ENV_WEB_LISTEN_ADDR: &'static str = "NOSTR_SYNC_WEB_LISTEN_ADDR";

/// The environment variable that overrides the discovery relays.
pub const ENV_NOSTR_DISCOVERY_RELAYS: &'static str = "NOSTR_SYNC_DISCOVERY_RELAYS";

/// The working directory below the platform's data directory, where no
/// working directory is named.
pub const WORKDIR_IN_DATA_DIR: &'static str = "rust-nostr/sync";

/// The configuration file in the working directory.
pub const CONFIG_FILE_NAME: &'static str = "config.toml";

/// The events database in the working directory.
pub const EVENTS_DB_FILE_NAME: &'static str = "events.db";

/// The gossip database in the working directory.
pub const GOSSIP_DB_FILE_NAME: &'static str = "gossip.db";

/// The loopback address 127.0.0.1, as a number.
pub const IPV4_LOCALHOST: u32 = 0x7f00_0001;

/// The port the web interface listens on by default.
pub const DEFAULT_WEB_LISTEN_PORT: u16 = 44552;

/// A socket address: IPv4 address and port, or IPv6 address, port, flow
/// information and scope.
#[derive(Clone, Copy, Debug, PartialEq, Eq, Structural)]
pub enum ListenAddr {
    V4 { ipv4: u32, port: u16 },
    V6 { ipv6: u128, port: u16, flowinfo: u32, scope_id: u32 },
}

/// The default web listening address, 127.0.0.1:44552.
pub open spec fn default_listen_addr() -> ListenAddr {
    ListenAddr::V4 { ipv4: IPV4_LOCALHOST, port: DEFAULT_WEB_LISTEN_PORT }
}

/// The default web listening address, 127.0.0.1:44552.
pub fn default_web_listen_addr() -> (r: ListenAddr)
    ensures
        r == default_listen_addr(),
{
    ListenAddr::V4 { ipv4: IPV4_LOCALHOST, port: DEFAULT_WEB_LISTEN_PORT }
}

/// The web part of the configuration file.
pub struct BaseWebConfig {
    pub listen_addr: Option<ListenAddr>,
}

/// The nostr part of the configuration file.
pub struct BaseNostrConfig {
    pub discovery_relays: Option<RelaySet>,
}

/// The configuration as the file gives it, each value optional.
pub struct BaseConfig {
    pub web: BaseWebConfig,
    pub nostr: BaseNostrConfig,
}

impl Default for BaseWebConfig {
    fn default() -> (r: Self)
        ensures
            r.listen_addr is None,
    {
        BaseWebConfig { listen_addr: None }
    }
}

impl Default for BaseNostrConfig {
    fn default() -> (r: Self)
        ensures
            r.discovery_relays is None,
    {
        BaseNostrConfig { discovery_relays: None }
    }
}

impl Default for BaseConfig {
    fn default() -> (r: Self)
        ensures
            r.web.listen_addr is None,
            r.nostr.discovery_relays is None,
    {
        BaseConfig { web: BaseWebConfig::default(), nostr: BaseNostrConfig::default() }
    }
}

/// The web interface's configuration.
pub struct WebConfig {
    /// Listening address
    pub listen_addr: ListenAddr,
}

/// The nostr side's configuration.
pub struct NostrConfig {
    /// Events database path
    pub events_path: std::path::PathBuf,
    /// Gossip database path
    pub gossip_path: std::path::PathBuf,
    /// Discovery relays
    pub discovery_relays: RelaySet,
}

/// The configuration the service runs with.
pub struct Config {
    pub web: WebConfig,
    pub nostr: NostrConfig,
}

/// The relays an optional relay set holds.
pub open spec fn relays_view(relays: Option<RelaySet>) -> Option<Map<Seq<char>, Seq<char>>> {
    match relays {
        Some(set) => Some(set@),
        None => None,
    }
}

/// The text of an optional string.
pub open spec fn opt_str_view(value: Option<&str>) -> Option<Seq<char>> {
    match value {
        Some(s) => Some(s@),
        None => None,
    }
}

/// The relays configured before the environment is read, once the
/// environment's list `env` has been applied: a non-empty valid list
/// replaces them, an empty one leaves them, an invalid one is the error.
pub open spec fn relays_after_env(
    configured: Option<Map<Seq<char>, Seq<char>>>,
    env: Option<Seq<char>>,
) -> Result<Option<Map<Seq<char>, Seq<char>>>, Seq<char>> {
    match env {
        None => Ok(configured),
        Some(v) => match relay_list(v) {
            Err(entry) => Err(entry),
            Ok(m) => Ok(
                if m.len() > 0 {
                    Some(m)
                } else {
                    configured
                },
            ),
        },
    }
}

/// The listening address once the environment's `env` has been applied.
pub open spec fn listen_addr_after_env(
    configured: Option<ListenAddr>,
    env: Option<ListenAddr>,
) -> Option<ListenAddr> {
    if env is Some {
        env
    } else {
        configured
    }
}

/// Overrides the file's values with those of the environment: the listening
/// address where `env_listen_addr` is given, the discovery relays where
/// `env_discovery_relays` is a non-empty list. An invalid relay list is the
/// error; the address is overridden all the same.
pub fn override_from_env(
    base_config: &mut BaseConfig,
    env_listen_addr: Option<ListenAddr>,
    env_discovery_relays: Option<&str>,
) -> (r: Result<(), Error>)
    ensures
        final(base_config).web.listen_addr == listen_addr_after_env(
            old(base_config).web.listen_addr,
            env_listen_addr,
        ),
        match relays_after_env(
            relays_view(old(base_config).nostr.discovery_relays),
            opt_str_view(env_discovery_relays),
        ) {
            Ok(relays) => r is Ok && relays_view(final(base_config).nostr.discovery_relays)
                == relays,
            Err(entry) => r matches Err(Error::InvalidRelayUrl(t, _)) && t@ == entry
                && relays_view(final(base_config).nostr.discovery_relays) == relays_view(
                old(base_config).nostr.discovery_relays,
            ),
        },
{
    if let Some(addr) = env_listen_addr {
        base_config.web.listen_addr = Some(addr);
    }
    if let Some(value) = env_discovery_relays {
        match parse_relay_list(value) {
            Ok(relays) => {
                if !relays.is_empty() {
                    base_config.nostr.discovery_relays = Some(relays);
                }
            },
            Err(e) => {
                return Err(e);
            },
        }
    }
    Ok(())
}

/// The relays a configuration ends with: those configured, else the
/// defaults.
pub open spec fn relays_or_default(configured: Option<Map<Seq<char>, Seq<char>>>) -> Map<
    Seq<char>,
    Seq<char>,
> {
    match configured {
        Some(m) => m,
        None => default_relays(),
    }
}

/// The listening address a configuration ends with: the one configured,
/// else the default.
pub open spec fn listen_addr_or_default(configured: Option<ListenAddr>) -> ListenAddr {
    match configured {
        Some(addr) => addr,
        None => default_listen_addr(),
    }
}

/// The file's listening address, where there is a file.
pub open spec fn file_listen_addr(file_config: Option<BaseConfig>) -> Option<ListenAddr> {
    match file_config {
        Some(c) => c.web.listen_addr,
        None => None,
    }
}

/// The file's relays, where there is a file that names them.
pub open spec fn file_relays(file_config: Option<BaseConfig>) -> Option<
    Map<Seq<char>, Seq<char>>,
> {
    match file_config {
        Some(c) => relays_view(c.nostr.discovery_relays),
        None => None,
    }
}

impl Config {
    /// The configuration whose settings are `base_config`, missing values
    /// taking their defaults, with the databases at `events_path` and
    /// `gossip_path` (in the working directory, named `EVENTS_DB_FILE_NAME`
    /// and `GOSSIP_DB_FILE_NAME`).
    pub fn from_base(
        events_path: std::path::PathBuf,
        gossip_path: std::path::PathBuf,
        base_config: BaseConfig,
    ) -> (r: Config)
        ensures
            r.nostr.events_path == events_path,
            r.nostr.gossip_path == gossip_path,
            r.web.listen_addr == listen_addr_or_default(base_config.web.listen_addr),
            r.nostr.discovery_relays@ == relays_or_default(
                relays_view(base_config.nostr.discovery_relays),
            ),
    {
        let listen_addr = match base_config.web.listen_addr {
            Some(addr) => addr,
            None => default_web_listen_addr(),
        };
        let discovery_relays = match base_config.nostr.discovery_relays {
            Some(relays) => relays,
            None => default_discovery_relays(),
        };
        Config {
            web: WebConfig { listen_addr },
            nostr: NostrConfig {
                events_path,
                gossip_path,
                discovery_relays,
            },
        }
    }

    /// The configuration from the file's settings (`None` where there is no
    /// file) and the environment's overrides: the environment first, then
    /// the file, then the defaults. The databases are at `events_path` and
    /// `gossip_path`.
    pub fn resolve(
        events_path: std::path::PathBuf,
        gossip_path: std::path::PathBuf,
        file_config: Option<BaseConfig>,
        env_listen_addr: Option<ListenAddr>,
        env_discovery_relays: Option<&str>,
    ) -> (r: Result<Config, Error>)
        ensures
            match relays_after_env(file_relays(file_config), opt_str_view(env_discovery_relays)) {
                Ok(relays) => r matches Ok(config) && config.nostr.events_path == events_path
                    && config.nostr.gossip_path == gossip_path && config.nostr.discovery_relays@
                    == relays_or_default(relays) && config.web.listen_addr
                    == listen_addr_or_default(
                    listen_addr_after_env(file_listen_addr(file_config), env_listen_addr),
                ),
                Err(entry) => r matches Err(Error::InvalidRelayUrl(t, _)) && t@ == entry,
            },
    {
        let mut base_config = match file_config {
            Some(c) => c,
            None => BaseConfig::default(),
        };
        match override_from_env(&mut base_config, env_listen_addr, env_discovery_relays) {
            Ok(()) => Ok(Config::from_base(events_path, gossip_path, base_config)),
            Err(e) => Err(e),
        }
    }
}

/// Accepts the working directory only where it is a directory.
pub fn ensure_directory(workdir: std::path::PathBuf, is_dir: bool) -> (r: Result<
    std::path::PathBuf,
    Error,
>)
    ensures
        is_dir ==> (r matches Ok(p) && p == workdir),
        !is_dir ==> r matches Err(Error::NotADirectory),
{
    if is_dir {
        Ok(workdir)
    } else {
        Err(Error::NotADirectory)
    }
}


/// A non-empty valid relay list in the environment is the list the
/// configuration ends with, whatever the file says.
pub proof fn law_env_relays_take_precedence(
    configured: Option<Map<Seq<char>, Seq<char>>>,
    env: Seq<char>,
)
    requires
        relay_list(env) is Ok,
        relay_list(env)->Ok_0.len() > 0,
    ensures
        relays_after_env(configured, Some(env)) is Ok,
        relays_or_default(relays_after_env(configured, Some(env))->Ok_0) == relay_list(env)->Ok_0,
{
}

/// An environment relay list of whitespace and commas only, the empty one
/// among them, leaves the configured relays, and so the defaults where
/// none are configured.
pub proof fn law_blank_env_relays_keep_configured(
    configured: Option<Map<Seq<char>, Seq<char>>>,
    env: Seq<char>,
)
    requires
        forall|i: int| 0 <= i < env.len() ==> #[trigger] env[i] == ',' || char_is_whitespace(env[i]),
    ensures
        relays_after_env(configured, Some(env)) == Ok::<
            Option<Map<Seq<char>, Seq<char>>>,
            Seq<char>,
        >(configured),
{
    law_blank_relay_list(env);
}

/// Without file and environment the configuration takes the default address
/// and the default relays.
pub proof fn law_defaults_without_settings()
    ensures
        listen_addr_or_default(listen_addr_after_env(file_listen_addr(None), None))
            == default_listen_addr(),
        relays_after_env(file_relays(None), None) == Ok::<
            Option<Map<Seq<char>, Seq<char>>>,
            Seq<char>,
        >(None),
        relays_or_default(None) == default_relays(),
{
}

/// A listening address in the environment is the one the configuration ends
/// with, whatever the file says.
pub proof fn law_env_listen_addr_takes_precedence(configured: Option<ListenAddr>, env: ListenAddr)
    ensures
        listen_addr_or_default(listen_addr_after_env(configured, Some(env))) == env,
{
}


/// Applying the environment's relay list never leaves an empty relay set
/// where there was none: a list that names no relay keeps what was
/// configured.
pub proof fn law_env_never_empties_relays(
    configured: Option<Map<Seq<char>, Seq<char>>>,
    env: Option<Seq<char>>,
)
    requires
        configured != Some(Map::<Seq<char>, Seq<char>>::empty()),
    ensures
        relays_after_env(configured, env) matches Ok(relays) ==> relays != Some(
            Map::<Seq<char>, Seq<char>>::empty(),
        ),
{
    assert(Map::<Seq<char>, Seq<char>>::empty().dom() =~= Set::<Seq<char>>::empty());
}

/// An environment relay list with a piece that, trimmed, is neither empty
/// nor a relay URL is an error, whatever is configured, and the error names
/// the entry the list reading fails on; any other list is no error.
pub proof fn law_invalid_env_relays_are_an_error(
    configured: Option<Map<Seq<char>, Seq<char>>>,
    env: Seq<char>,
)
    ensures
        relay_list(env) is Err ==> relays_after_env(configured, Some(env)) == Err::<
            Option<Map<Seq<char>, Seq<char>>>,
            Seq<char>,
        >(relay_list(env)->Err_0),
        relays_after_env(configured, Some(env)) is Err <==> exists|k: int|
            0 <= k < split_on(env, ',').len() && trim(#[trigger] split_on(env, ',')[k]).len() > 0
                && relay_url_parse(trim(split_on(env, ',')[k])) is None,
{
    law_relay_list_complete(env);
}

/// Without an environment list, configured relays are used as they are
/// given, an empty set too; the defaults stand only where none are
/// configured.
pub proof fn law_configured_relays_used_as_given(configured: Map<Seq<char>, Seq<char>>)
    ensures
        relays_after_env(Some(configured), None) == Ok::<
            Option<Map<Seq<char>, Seq<char>>>,
            Seq<char>,
        >(Some(configured)),
        relays_or_default(Some(configured)) == configured,
{
}

/// Without an environment address, the configured address is kept, whatever
/// it is; the default stands only where none is configured.
pub proof fn law_configured_listen_addr_kept(configured: Option<ListenAddr>, addr: ListenAddr)
    ensures
        listen_addr_after_env(configured, None) == configured,
        listen_addr_or_default(Some(addr)) == addr,
        listen_addr_or_default(listen_addr_after_env(Some(addr), None)) == addr,
{
}
} // verus!
