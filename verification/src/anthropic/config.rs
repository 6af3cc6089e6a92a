//! Settings of the Anthropic twin.

use vstd::prelude::*;
use vstd::string::*;

use crate::settings;
pub use crate::settings::{Mode, RecordFormat};
use crate::text;

verus! {

/// The settings of a server.
#[derive(Clone, Debug)]
pub struct Config {
    pub bind_addr: String,
    pub require_auth: bool,
    pub enable_admin: bool,
    pub request_log_path: Option<String>,
    pub scenarios_path: Option<String>,
    pub allow_unmatched: bool,
    pub mode: Mode,
    pub upstream_url: String,
    pub upstream_messages_path: Option<String>,
    pub upstream_api_key: Option<String>,
    pub recording_path: Option<String>,
    pub record_format: RecordFormat,
    pub recording_append: bool,
}

/// The settings as they are given: text, or nothing.
pub struct Settings {
    pub bind_addr: Option<String>,
    pub require_auth: Option<String>,
    pub enable_admin: Option<String>,
    pub request_log_path: Option<String>,
    pub scenarios_path: Option<String>,
    pub allow_unmatched: Option<String>,
    pub mode: Option<String>,
    pub upstream_url: Option<String>,
    pub upstream_messages_path: Option<String>,
    pub upstream_api_key: Option<String>,
    pub provider_api_key: Option<String>,
    pub recording_path: Option<String>,
    pub record_format: Option<String>,
    pub recording_append: Option<String>,
}

/// Whether a given path does not start with a slash.
pub open spec fn path_broken(path: Option<Seq<char>>) -> bool {
    settings::non_empty(path) matches Some(s) && s[0] != '/'
}

/// Whether a given path does not start with a slash.
fn is_path_broken(path: &Option<String>) -> (r: bool)
    ensures
        r == path_broken(text::opt_text(*path)),
{
    match path {
        Some(s) => {
            let chars = text::chars_of(s.as_str());
            chars.len() > 0 && chars[0] != '/'
        },
        None => false,
    }
}

/// The key for the upstream: the twin's own, or the provider's.
pub open spec fn upstream_key(own: Option<Seq<char>>, provider: Option<Seq<char>>) -> Option<
    Seq<char>,
> {
    match settings::non_empty(own) {
        Some(s) => Some(s),
        None => settings::non_empty(provider),
    }
}

impl Settings {
    /// What is wrong with the settings, where the address is one or is not. The
    /// first fault is reported; recording needs a key and a file.
    pub open spec fn error(&self, address_ok: bool) -> Option<Seq<char>> {
        if !address_ok {
            Some("invalid TWIN_ANTHROPIC_BIND_ADDR"@)
        } else if settings::flag(text::opt_text(self.require_auth), true) is None {
            Some(settings::bad_bool("TWIN_ANTHROPIC_REQUIRE_AUTH"@))
        } else if settings::flag(text::opt_text(self.enable_admin), true) is None {
            Some(settings::bad_bool("TWIN_ANTHROPIC_ENABLE_ADMIN"@))
        } else if settings::flag(text::opt_text(self.allow_unmatched), false) is None {
            Some(settings::bad_bool("TWIN_ANTHROPIC_ALLOW_UNMATCHED"@))
        } else if settings::mode_value(text::opt_text(self.mode)) is None {
            Some("TWIN_ANTHROPIC_MODE must be twin or proxy-record, got "@ + self.mode->0@)
        } else if settings::format_value(text::opt_text(self.record_format)) is None {
            Some("TWIN_ANTHROPIC_RECORD_FORMAT must be semantic or transcript, got "@ + self.record_format->0@)
        } else if settings::flag(text::opt_text(self.recording_append), false) is None {
            Some(settings::bad_bool("TWIN_ANTHROPIC_RECORDING_APPEND"@))
        } else if path_broken(text::opt_text(self.upstream_messages_path)) {
            Some("TWIN_ANTHROPIC_UPSTREAM_MESSAGES_PATH must start with /"@)
        } else {
            recording_error(
                settings::mode_value(text::opt_text(self.mode))->0,
                upstream_key(
                    text::opt_text(self.upstream_api_key),
                    text::opt_text(self.provider_api_key),
                ) is Some,
                settings::non_empty(text::opt_text(self.recording_path)) is Some,
            )
        }
    }

    /// Whether a configuration is what the settings say.
    pub open spec fn gives(&self, config: Config) -> bool {
        &&& config.bind_addr@ == (match self.bind_addr {
            Some(s) => s@,
            None => "127.0.0.1:3001"@,
        })
        &&& settings::flag(text::opt_text(self.require_auth), true) == Some(config.require_auth)
        &&& settings::flag(text::opt_text(self.enable_admin), true) == Some(config.enable_admin)
        &&& text::opt_text(config.request_log_path) == settings::non_empty(
            text::opt_text(self.request_log_path),
        )
        &&& text::opt_text(config.scenarios_path) == settings::non_empty(
            text::opt_text(self.scenarios_path),
        )
        &&& settings::flag(text::opt_text(self.allow_unmatched), false) == Some(
            config.allow_unmatched,
        )
        &&& settings::mode_value(text::opt_text(self.mode)) == Some(config.mode)
        &&& config.upstream_url@ == settings::upstream_value(
            text::opt_text(self.upstream_url),
            "https://api.anthropic.com"@,
        )
        &&& text::opt_text(config.upstream_messages_path) == settings::non_empty(
            text::opt_text(self.upstream_messages_path),
        )
        &&& text::opt_text(config.upstream_api_key) == upstream_key(
            text::opt_text(self.upstream_api_key),
            text::opt_text(self.provider_api_key),
        )
        &&& text::opt_text(config.recording_path) == settings::non_empty(
            text::opt_text(self.recording_path),
        )
        &&& settings::format_value(text::opt_text(self.record_format)) == Some(
            config.record_format,
        )
        &&& settings::flag(text::opt_text(self.recording_append), false) == Some(
            config.recording_append,
        )
    }

    /// Reads the settings. Whether the address is one is known elsewhere.
    pub fn read(&self, address_ok: bool) -> (r: Result<Config, String>)
        ensures
            match r {
                Ok(config) => self.error(address_ok) is None && self.gives(config),
                Err(e) => self.error(address_ok) == Some(e@),
            },
    {
        if !address_ok {
            return Err("invalid TWIN_ANTHROPIC_BIND_ADDR".to_owned());
        }
        let require_auth = match settings::bool_or(
            &self.require_auth,
            "TWIN_ANTHROPIC_REQUIRE_AUTH",
            true,
        ) {
            Ok(b) => b,
            Err(e) => {
                return Err(e);
            },
        };
        let enable_admin = match settings::bool_or(
            &self.enable_admin,
            "TWIN_ANTHROPIC_ENABLE_ADMIN",
            true,
        ) {
            Ok(b) => b,
            Err(e) => {
                return Err(e);
            },
        };
        let allow_unmatched = match settings::bool_or(
            &self.allow_unmatched,
            "TWIN_ANTHROPIC_ALLOW_UNMATCHED",
            false,
        ) {
            Ok(b) => b,
            Err(e) => {
                return Err(e);
            },
        };
        let mode = match settings::parse_mode(&self.mode) {
            Some(mode) => mode,
            None => {
                return Err(
                    got("TWIN_ANTHROPIC_MODE must be twin or proxy-record, got ", &self.mode),
                );
            },
        };
        let record_format = match settings::parse_format(&self.record_format) {
            Some(format) => format,
            None => {
                return Err(
                    got(
                        "TWIN_ANTHROPIC_RECORD_FORMAT must be semantic or transcript, got ",
                        &self.record_format,
                    ),
                );
            },
        };
        let recording_append = match settings::bool_or(
            &self.recording_append,
            "TWIN_ANTHROPIC_RECORDING_APPEND",
            false,
        ) {
            Ok(b) => b,
            Err(e) => {
                return Err(e);
            },
        };
        if is_path_broken(&self.upstream_messages_path) {
            return Err("TWIN_ANTHROPIC_UPSTREAM_MESSAGES_PATH must start with /".to_owned());
        }
        let upstream_api_key = match settings::keep_non_empty(&self.upstream_api_key) {
            Some(key) => Some(key),
            None => settings::keep_non_empty(&self.provider_api_key),
        };
        let bind_addr = match &self.bind_addr {
            Some(s) => s.clone(),
            None => "127.0.0.1:3001".to_owned(),
        };
        let config = Config {
            bind_addr,
            require_auth,
            enable_admin,
            request_log_path: settings::keep_non_empty(&self.request_log_path),
            scenarios_path: settings::keep_non_empty(&self.scenarios_path),
            allow_unmatched,
            mode,
            upstream_url: settings::choose_upstream(
                &self.upstream_url,
                "https://api.anthropic.com",
            ),
            upstream_messages_path: settings::keep_non_empty(&self.upstream_messages_path),
            upstream_api_key,
            recording_path: settings::keep_non_empty(&self.recording_path),
            record_format,
            recording_append,
        };
        match config.validate() {
            Ok(()) => Ok(config),
            Err(e) => Err(e),
        }
    }
}

/// A message that ends in what was given.
fn got(message: &str, value: &Option<String>) -> (r: String)
    ensures
        value matches Some(s) ==> r@ == message@ + s@,
{
    let mut out = message.to_owned();
    match value {
        Some(s) => {
            out.append(s.as_str());
        },
        None => {},
    }
    out
}

/// What recording lacks.
pub open spec fn recording_error(mode: Mode, has_key: bool, has_path: bool) -> Option<Seq<char>> {
    if mode == Mode::ProxyRecord && !has_key {
        Some("proxy-record mode requires ANTHROPIC_API_KEY"@)
    } else if mode == Mode::ProxyRecord && !has_path {
        Some("proxy-record mode requires TWIN_ANTHROPIC_RECORDING_PATH"@)
    } else {
        None
    }
}

/// Whether a configuration is the one without any settings.
pub open spec fn is_default(config: Config) -> bool {
    &&& config.bind_addr@ == "127.0.0.1:3001"@
    &&& config.require_auth
    &&& config.enable_admin
    &&& config.request_log_path is None
    &&& config.scenarios_path is None
    &&& !config.allow_unmatched
    &&& config.mode == Mode::Twin
    &&& config.upstream_url@ == "https://api.anthropic.com"@
    &&& config.upstream_messages_path is None
    &&& config.upstream_api_key is None
    &&& config.recording_path is None
    &&& config.record_format == RecordFormat::Semantic
    &&& !config.recording_append
}

impl Default for Config {
    fn default() -> (r: Self)
        ensures
            is_default(r),
    {
        Config {
            bind_addr: "127.0.0.1:3001".to_owned(),
            require_auth: true,
            enable_admin: true,
            request_log_path: None,
            scenarios_path: None,
            allow_unmatched: false,
            mode: Mode::Twin,
            upstream_url: "https://api.anthropic.com".to_owned(),
            upstream_messages_path: None,
            upstream_api_key: None,
            recording_path: None,
            record_format: RecordFormat::Semantic,
            recording_append: false,
        }
    }
}

/// Whether settings are what a lookup gives under the names of the settings.
pub open spec fn looked_up<F: Fn(&str) -> Option<String>>(lookup: &F, s: Settings) -> bool {
    &&& call_ensures(*lookup, ("TWIN_ANTHROPIC_BIND_ADDR",), s.bind_addr)
    &&& call_ensures(*lookup, ("TWIN_ANTHROPIC_REQUIRE_AUTH",), s.require_auth)
    &&& call_ensures(*lookup, ("TWIN_ANTHROPIC_ENABLE_ADMIN",), s.enable_admin)
    &&& call_ensures(*lookup, ("TWIN_ANTHROPIC_REQUEST_LOG_PATH",), s.request_log_path)
    &&& call_ensures(*lookup, ("TWIN_ANTHROPIC_SCENARIOS_PATH",), s.scenarios_path)
    &&& call_ensures(*lookup, ("TWIN_ANTHROPIC_ALLOW_UNMATCHED",), s.allow_unmatched)
    &&& call_ensures(*lookup, ("TWIN_ANTHROPIC_MODE",), s.mode)
    &&& call_ensures(*lookup, ("TWIN_ANTHROPIC_UPSTREAM_URL",), s.upstream_url)
    &&& call_ensures(*lookup, ("TWIN_ANTHROPIC_UPSTREAM_MESSAGES_PATH",), s.upstream_messages_path)
    &&& call_ensures(*lookup, ("TWIN_ANTHROPIC_UPSTREAM_API_KEY",), s.upstream_api_key)
    &&& call_ensures(*lookup, ("ANTHROPIC_API_KEY",), s.provider_api_key)
    &&& call_ensures(*lookup, ("TWIN_ANTHROPIC_RECORDING_PATH",), s.recording_path)
    &&& call_ensures(*lookup, ("TWIN_ANTHROPIC_RECORD_FORMAT",), s.record_format)
    &&& call_ensures(*lookup, ("TWIN_ANTHROPIC_RECORDING_APPEND",), s.recording_append)
}

/// Whether reading settings by a lookup and a test of addresses gave a
/// configuration, or the fault it should.
pub open spec fn read_by<F: Fn(&str) -> Option<String>, P: Fn(&str) -> bool>(
    lookup: &F,
    is_address: &P,
    r: Result<Config, String>,
) -> bool {
    exists|s: Settings, ok: bool| #[trigger]
        looked_up(lookup, s) && #[trigger] settings::address_tested(is_address, s.bind_addr, ok)
            && match r {
            Ok(config) => s.error(ok) is None && s.gives(config),
            Err(e) => s.error(ok) == Some(e@),
        }
}

impl Config {
    /// Reads the settings that a lookup gives by name, such as the environment,
    /// with a test of whether a text is a socket address.
    pub fn from_lookup<F: Fn(&str) -> Option<String>, P: Fn(&str) -> bool>(
        lookup: &F,
        is_address: &P,
    ) -> (r: Result<Config, String>)
        requires
            forall|name: &str| call_requires(*lookup, (name,)),
            forall|t: &str| call_requires(*is_address, (t,)),
        ensures
            read_by(lookup, is_address, r),
    {
        let s = Settings {
            bind_addr: lookup("TWIN_ANTHROPIC_BIND_ADDR"),
            require_auth: lookup("TWIN_ANTHROPIC_REQUIRE_AUTH"),
            enable_admin: lookup("TWIN_ANTHROPIC_ENABLE_ADMIN"),
            request_log_path: lookup("TWIN_ANTHROPIC_REQUEST_LOG_PATH"),
            scenarios_path: lookup("TWIN_ANTHROPIC_SCENARIOS_PATH"),
            allow_unmatched: lookup("TWIN_ANTHROPIC_ALLOW_UNMATCHED"),
            mode: lookup("TWIN_ANTHROPIC_MODE"),
            upstream_url: lookup("TWIN_ANTHROPIC_UPSTREAM_URL"),
            upstream_messages_path: lookup("TWIN_ANTHROPIC_UPSTREAM_MESSAGES_PATH"),
            upstream_api_key: lookup("TWIN_ANTHROPIC_UPSTREAM_API_KEY"),
            provider_api_key: lookup("ANTHROPIC_API_KEY"),
            recording_path: lookup("TWIN_ANTHROPIC_RECORDING_PATH"),
            record_format: lookup("TWIN_ANTHROPIC_RECORD_FORMAT"),
            recording_append: lookup("TWIN_ANTHROPIC_RECORDING_APPEND"),
        };
        assert(looked_up(lookup, s));
        let ok = settings::test_address(is_address, &s.bind_addr);
        s.read(ok)
    }

    /// As `from_lookup`, with the defaults in place of faulty settings.
    pub fn from_lookup_or_default<F: Fn(&str) -> Option<String>, P: Fn(&str) -> bool>(
        lookup: &F,
        is_address: &P,
    ) -> (r: Config)
        requires
            forall|name: &str| call_requires(*lookup, (name,)),
            forall|t: &str| call_requires(*is_address, (t,)),
        ensures
            read_by(lookup, is_address, Ok(r)) || is_default(r) && exists|e: String| #[trigger]
                read_by(lookup, is_address, Err(e)),
    {
        match Config::from_lookup(lookup, is_address) {
            Ok(config) => config,
            Err(_) => Config::default(),
        }
    }

    /// Checks that recording has what it needs.
    pub fn validate(&self) -> (r: Result<(), String>)
        ensures
            (match r {
                Ok(()) => None,
                Err(e) => Some(e@),
            }) == recording_error(
                self.mode,
                self.upstream_api_key is Some,
                self.recording_path is Some,
            ),
    {
        if self.mode == Mode::ProxyRecord && self.upstream_api_key.is_none() {
            Err("proxy-record mode requires ANTHROPIC_API_KEY".to_owned())
        } else if self.mode == Mode::ProxyRecord && self.recording_path.is_none() {
            Err("proxy-record mode requires TWIN_ANTHROPIC_RECORDING_PATH".to_owned())
        } else {
            Ok(())
        }
    }
}

/// Whether a setting is one of the texts of a boolean, or not given.
pub open spec fn boolean(value: Option<String>) -> bool {
    value matches Some(s) ==> s@ == "true"@ || s@ == "false"@ || s@ == "1"@ || s@ == "0"@
}

/// Whether a setting is given and not empty.
pub open spec fn given(value: Option<String>) -> bool {
    value matches Some(s) && s@.len() > 0
}

/// The settings are accepted exactly where each says something that it may say,
/// and where recording has a key and a file.
pub proof fn settings_are_checked(s: Settings, address_ok: bool)
    ensures
        s.error(address_ok) is None <==> {
            &&& address_ok
            &&& s.require_auth matches Some(v) ==> v@ == "true"@ || v@ == "false"@ || v@ == "1"@
                || v@ == "0"@
            &&& s.enable_admin matches Some(v) ==> v@ == "true"@ || v@ == "false"@ || v@ == "1"@
                || v@ == "0"@
            &&& s.allow_unmatched matches Some(v) ==> v@ == "true"@ || v@ == "false"@ || v@ == "1"@
                || v@ == "0"@
            &&& s.recording_append matches Some(v) ==> v@ == "true"@ || v@ == "false"@ || v@
                == "1"@ || v@ == "0"@
            &&& s.mode matches Some(v) ==> v@ == "twin"@ || v@ == "proxy-record"@
            &&& s.record_format matches Some(v) ==> v@ == "semantic"@ || v@ == "transcript"@
            &&& s.upstream_messages_path matches Some(path) ==> path@.len() > 0 ==> path@[0] == '/'
            &&& (s.mode matches Some(v) && v@ == "proxy-record"@) ==> {
                &&& (s.upstream_api_key matches Some(k) && k@.len() > 0) || (
                s.provider_api_key matches Some(k) && k@.len() > 0)
                &&& s.recording_path matches Some(path) && path@.len() > 0
            }
        },
{
    reveal_strlit("twin");
    reveal_strlit("proxy-record");
    assert("twin"@.len() == 4 && "proxy-record"@.len() == 12);
}

/// The first fault is the one that is reported: the address, the booleans, the
/// mode, the record format, then what recording lacks.
pub proof fn first_bad_setting_is_reported(s: Settings)
    ensures
        s.error(false) == Some("invalid TWIN_ANTHROPIC_BIND_ADDR"@),
        !boolean(s.require_auth) ==> s.error(true) == Some(
            "TWIN_ANTHROPIC_REQUIRE_AUTH"@ + " must be true/false or 1/0"@,
        ),
        boolean(s.require_auth) && !boolean(s.enable_admin) ==> s.error(true) == Some(
            "TWIN_ANTHROPIC_ENABLE_ADMIN"@ + " must be true/false or 1/0"@,
        ),
        boolean(s.require_auth) && boolean(s.enable_admin) && !boolean(s.allow_unmatched)
            ==> s.error(true) == Some(
            "TWIN_ANTHROPIC_ALLOW_UNMATCHED"@ + " must be true/false or 1/0"@,
        ),
        boolean(s.require_auth) && boolean(s.enable_admin) && boolean(s.allow_unmatched) ==> {
            &&& s.mode matches Some(v) ==> v@ != "twin"@ && v@ != "proxy-record"@ ==> s.error(true)
                == Some("TWIN_ANTHROPIC_MODE must be twin or proxy-record, got "@ + v@)
            &&& s.mode is None ==> (s.record_format matches Some(v) ==> v@ != "semantic"@ && v@
                != "transcript"@ ==> s.error(true) == Some(
                "TWIN_ANTHROPIC_RECORD_FORMAT must be semantic or transcript, got "@ + v@,
            ))
            &&& s.mode is None && s.record_format is None && !boolean(s.recording_append)
                ==> s.error(true) == Some(
                "TWIN_ANTHROPIC_RECORDING_APPEND"@ + " must be true/false or 1/0"@,
            )
        },
{
}

/// Recording needs a key and a file, in this order; a twin needs neither.
pub proof fn recording_needs_key_and_file(has_key: bool, has_path: bool)
    ensures
        recording_error(Mode::Twin, has_key, has_path) is None,
        recording_error(Mode::ProxyRecord, true, true) is None,
        recording_error(Mode::ProxyRecord, false, has_path) == Some(
            "proxy-record mode requires ANTHROPIC_API_KEY"@,
        ),
        recording_error(Mode::ProxyRecord, true, false) == Some(
            "proxy-record mode requires TWIN_ANTHROPIC_RECORDING_PATH"@,
        ),
{
}

/// A configuration says what the settings say, and the defaults where they say
/// nothing: a local address, authentication, the admin routes, and the
/// provider's own upstream.
pub proof fn settings_become_the_configuration(s: Settings, config: Config)
    requires
        s.error(true) is None,
        s.gives(config),
    ensures
        s.bind_addr matches Some(a) ==> config.bind_addr@ == a@,
        s.bind_addr is None ==> config.bind_addr@ == "127.0.0.1:3001"@,
        config.require_auth <==> !(s.require_auth matches Some(v) && (v@ == "false"@ || v@
            == "0"@)),
        config.enable_admin <==> !(s.enable_admin matches Some(v) && (v@ == "false"@ || v@
            == "0"@)),
        config.allow_unmatched <==> (s.allow_unmatched matches Some(v) && (v@ == "true"@ || v@
            == "1"@)),
        config.recording_append <==> (s.recording_append matches Some(v) && (v@ == "true"@ || v@
            == "1"@)),
        config.mode == Mode::ProxyRecord <==> (s.mode matches Some(v) && v@ == "proxy-record"@),
        config.record_format == RecordFormat::Transcript <==> (s.record_format matches Some(v)
            && v@ == "transcript"@),
        given(s.request_log_path) ==> text::opt_text(config.request_log_path) == text::opt_text(
            s.request_log_path,
        ),
        !given(s.request_log_path) ==> config.request_log_path is None,
        given(s.scenarios_path) ==> text::opt_text(config.scenarios_path) == text::opt_text(
            s.scenarios_path,
        ),
        !given(s.scenarios_path) ==> config.scenarios_path is None,
        given(s.upstream_messages_path) ==> text::opt_text(config.upstream_messages_path)
            == text::opt_text(s.upstream_messages_path),
        !given(s.upstream_messages_path) ==> config.upstream_messages_path is None,
        given(s.recording_path) ==> text::opt_text(config.recording_path) == text::opt_text(
            s.recording_path,
        ),
        !given(s.recording_path) ==> config.recording_path is None,
        given(s.upstream_api_key) ==> text::opt_text(config.upstream_api_key) == text::opt_text(
            s.upstream_api_key,
        ),
        !given(s.upstream_api_key) && given(s.provider_api_key) ==> text::opt_text(
            config.upstream_api_key,
        ) == text::opt_text(s.provider_api_key),
        !given(s.upstream_api_key) && !given(s.provider_api_key) ==> config.upstream_api_key
            is None,
        !given(s.upstream_url) ==> config.upstream_url@ == "https://api.anthropic.com"@,
        given(s.upstream_url) && s.upstream_url->0@.last() != '/' ==> config.upstream_url@
            == s.upstream_url->0@,
{
    reveal_strlit("true");
    reveal_strlit("false");
    reveal_strlit("1");
    reveal_strlit("0");
    reveal_strlit("twin");
    reveal_strlit("proxy-record");
    reveal_strlit("semantic");
    reveal_strlit("transcript");
    assert("true"@.len() == 4 && "false"@.len() == 5 && "1"@.len() == 1 && "0"@.len() == 1);
    assert("1"@[0] == '1' && "0"@[0] == '0');
    assert("twin"@.len() == 4 && "proxy-record"@.len() == 12);
    assert("semantic"@.len() == 8 && "transcript"@.len() == 10);
}

/// What an environment gives under a name.
pub open spec fn in_environment(env: Map<Seq<char>, Seq<char>>, name: Seq<char>) -> Option<
    Seq<char>,
> {
    if env.contains_key(name) {
        Some(env[name])
    } else {
        None
    }
}

/// Each setting is read from the variable that is named after it.
pub proof fn settings_come_from_their_variables<
    F: Fn(&str) -> Option<String>,
    P: Fn(&str) -> bool,
>(
    lookup: &F,
    is_address: &P,
    env: Map<Seq<char>, Seq<char>>,
    config: Config,
)
    requires
        forall|name: &str, r: Option<String>| #[trigger]
            call_ensures(*lookup, (name,), r) ==> text::opt_text(r) == in_environment(env, name@),
        read_by(lookup, is_address, Ok(config)),
    ensures
        ({
            let var = |name: Seq<char>| in_environment(env, name);
            &&& config.bind_addr@ == (match var("TWIN_ANTHROPIC_BIND_ADDR"@) {
                Some(a) => a,
                None => "127.0.0.1:3001"@,
            })
            &&& settings::flag(var("TWIN_ANTHROPIC_REQUIRE_AUTH"@), true) == Some(config.require_auth)
            &&& settings::flag(var("TWIN_ANTHROPIC_ENABLE_ADMIN"@), true) == Some(config.enable_admin)
            &&& settings::flag(var("TWIN_ANTHROPIC_ALLOW_UNMATCHED"@), false) == Some(
                config.allow_unmatched,
            )
            &&& settings::flag(var("TWIN_ANTHROPIC_RECORDING_APPEND"@), false) == Some(
                config.recording_append,
            )
            &&& text::opt_text(config.request_log_path) == settings::non_empty(
                var("TWIN_ANTHROPIC_REQUEST_LOG_PATH"@),
            )
            &&& text::opt_text(config.scenarios_path) == settings::non_empty(
                var("TWIN_ANTHROPIC_SCENARIOS_PATH"@),
            )
            &&& text::opt_text(config.recording_path) == settings::non_empty(
                var("TWIN_ANTHROPIC_RECORDING_PATH"@),
            )
            &&& settings::mode_value(var("TWIN_ANTHROPIC_MODE"@)) == Some(config.mode)
            &&& settings::format_value(var("TWIN_ANTHROPIC_RECORD_FORMAT"@)) == Some(
                config.record_format,
            )
            &&& config.upstream_url@ == settings::upstream_value(
                var("TWIN_ANTHROPIC_UPSTREAM_URL"@),
                "https://api.anthropic.com"@,
            )
            &&& text::opt_text(config.upstream_messages_path) == settings::non_empty(
                var("TWIN_ANTHROPIC_UPSTREAM_MESSAGES_PATH"@),
            )
            &&& settings::non_empty(var("TWIN_ANTHROPIC_UPSTREAM_API_KEY"@)) is Some
                ==> text::opt_text(config.upstream_api_key) == var("TWIN_ANTHROPIC_UPSTREAM_API_KEY"@)
            &&& settings::non_empty(var("TWIN_ANTHROPIC_UPSTREAM_API_KEY"@)) is None ==> text::opt_text(
                config.upstream_api_key,
            ) == settings::non_empty(var("ANTHROPIC_API_KEY"@))
        }),
{
}

/// The default configuration is the one that no settings give.
pub proof fn default_is_without_settings(s: Settings, config: Config)
    requires
        s.bind_addr is None,
        s.require_auth is None,
        s.enable_admin is None,
        s.request_log_path is None,
        s.scenarios_path is None,
        s.allow_unmatched is None,
        s.mode is None,
        s.upstream_url is None,
        s.upstream_messages_path is None,
        s.upstream_api_key is None,
        s.provider_api_key is None,
        s.recording_path is None,
        s.record_format is None,
        s.recording_append is None,
    ensures
        s.error(true) is None,
        s.gives(config) <==> is_default(config),
{
}

} // verus!
