//! Settings that both twins read.

use vstd::prelude::*;
use vstd::string::*;

use crate::text;

verus! {

/// How the server treats `/v1/*` traffic.
#[derive(Clone, Copy, Debug, PartialEq, Eq, Structural)]
pub enum Mode {
    /// Serve deterministic twin responses (scenarios and fallbacks).
    Twin,
    /// Forward requests to a real upstream, stream responses back verbatim, and
    /// derive a scenario recording from every successful exchange.
    ProxyRecord,
}

impl Default for Mode {
    fn default() -> (r: Self)
        ensures
            r == Mode::Twin,
    {
        Mode::Twin
    }
}

/// What a recorded exchange keeps.
#[derive(Clone, Copy, Debug, PartialEq, Eq, Structural)]
pub enum RecordFormat {
    /// The content of the response, rendered anew on replay.
    Semantic,
    /// The response as it came, matched by the hash of the request.
    Transcript,
}

impl Default for RecordFormat {
    fn default() -> (r: Self)
        ensures
            r == RecordFormat::Semantic,
    {
        RecordFormat::Semantic
    }
}

/// What a boolean setting means; nothing for other text.
pub open spec fn bool_value(value: Seq<char>) -> Option<bool> {
    if value == "true"@ || value == "1"@ {
        Some(true)
    } else if value == "false"@ || value == "0"@ {
        Some(false)
    } else {
        None
    }
}

/// What a mode setting means; without one the server is a twin.
pub open spec fn mode_value(value: Option<Seq<char>>) -> Option<Mode> {
    match value {
        None => Some(Mode::Twin),
        Some(s) => if s == "twin"@ {
            Some(Mode::Twin)
        } else if s == "proxy-record"@ {
            Some(Mode::ProxyRecord)
        } else {
            None
        },
    }
}

/// What a record format setting means; without one recording is semantic.
pub open spec fn format_value(value: Option<Seq<char>>) -> Option<RecordFormat> {
    match value {
        None => Some(RecordFormat::Semantic),
        Some(s) => if s == "semantic"@ {
            Some(RecordFormat::Semantic)
        } else if s == "transcript"@ {
            Some(RecordFormat::Transcript)
        } else {
            None
        },
    }
}

/// A setting that counts only where it is not empty.
pub open spec fn non_empty(value: Option<Seq<char>>) -> Option<Seq<char>> {
    match value {
        Some(s) if s.len() > 0 => Some(s),
        _ => None,
    }
}

/// `s` without the slashes at its end.
pub open spec fn without_slashes(s: Seq<char>) -> Seq<char>
    decreases s.len(),
{
    if s.len() > 0 && s.last() == '/' {
        without_slashes(s.drop_last())
    } else {
        s
    }
}

/// The upstream to use: the given one without slashes at its end, or the
/// default.
pub open spec fn upstream_value(value: Option<Seq<char>>, default: Seq<char>) -> Seq<char> {
    match non_empty(value) {
        Some(s) => without_slashes(s),
        None => default,
    }
}

/// Whether a test of addresses says `ok` of an address. Where none is given, the
/// default stands, which is one.
pub open spec fn address_tested<P: Fn(&str) -> bool>(
    is_address: &P,
    address: Option<String>,
    ok: bool,
) -> bool {
    match address {
        Some(a) => exists|t: &str| t@ == a@ && #[trigger] call_ensures(*is_address, (t,), ok),
        None => ok,
    }
}

/// Tests an address, where one is given.
pub(crate) fn test_address<P: Fn(&str) -> bool>(is_address: &P, address: &Option<String>) -> (r:
    bool)
    requires
        forall|t: &str| call_requires(*is_address, (t,)),
    ensures
        address_tested(is_address, *address, r),
{
    match address {
        Some(a) => is_address(a.as_str()),
        None => true,
    }
}

/// The message that refuses a boolean setting.
pub open spec fn bad_bool(name: Seq<char>) -> Seq<char> {
    name + " must be true/false or 1/0"@
}

/// Reads a boolean setting.
pub fn parse_bool_env(value: &str, name: &str) -> (r: Result<bool, String>)
    ensures
        match r {
            Ok(b) => bool_value(value@) == Some(b),
            Err(e) => bool_value(value@) is None && e@ == bad_bool(name@),
        },
{
    if text::same(value, "true") || text::same(value, "1") {
        Ok(true)
    } else if text::same(value, "false") || text::same(value, "0") {
        Ok(false)
    } else {
        let mut message = name.to_owned();
        message.append(" must be true/false or 1/0");
        Err(message)
    }
}

/// Reads a mode setting.
pub(crate) fn parse_mode(value: &Option<String>) -> (r: Option<Mode>)
    ensures
        r == mode_value(text::opt_text(*value)),
{
    match value {
        None => Some(Mode::Twin),
        Some(s) => if text::same(s.as_str(), "twin") {
            Some(Mode::Twin)
        } else if text::same(s.as_str(), "proxy-record") {
            Some(Mode::ProxyRecord)
        } else {
            None
        },
    }
}

/// Reads a record format setting.
pub(crate) fn parse_format(value: &Option<String>) -> (r: Option<RecordFormat>)
    ensures
        r == format_value(text::opt_text(*value)),
{
    match value {
        None => Some(RecordFormat::Semantic),
        Some(s) => if text::same(s.as_str(), "semantic") {
            Some(RecordFormat::Semantic)
        } else if text::same(s.as_str(), "transcript") {
            Some(RecordFormat::Transcript)
        } else {
            None
        },
    }
}

/// Keeps a setting that is not empty.
pub(crate) fn keep_non_empty(value: &Option<String>) -> (r: Option<String>)
    ensures
        text::opt_text(r) == non_empty(text::opt_text(*value)),
{
    match value {
        Some(s) => if s.as_str().is_empty() {
            None
        } else {
            Some(s.clone())
        },
        None => None,
    }
}

/// The upstream to use.
pub(crate) fn choose_upstream(value: &Option<String>, default: &str) -> (r: String)
    ensures
        r@ == upstream_value(text::opt_text(*value), default@),
{
    match keep_non_empty(value) {
        None => default.to_owned(),
        Some(s) => {
            let chars = text::chars_of(s.as_str());
            let mut to: usize = chars.len();
            assert(chars@.take(to as int) =~= chars@);
            while to > 0 && chars[to - 1] == '/'
                invariant
                    to <= chars.len(),
                    without_slashes(chars@) == without_slashes(chars@.take(to as int)),
                decreases to,
            {
                assert(chars@.take(to as int).drop_last() =~= chars@.take(to - 1));
                to = to - 1;
            }
            let out = text::text_of(&chars, 0, to);
            assert(out@ =~= chars@.take(to as int));
            out
        },
    }
}

/// A boolean setting, or its default.
pub(crate) fn bool_or(value: &Option<String>, name: &str, default: bool) -> (r: Result<bool, String>)
    ensures
        match r {
            Ok(b) => flag(text::opt_text(*value), default) == Some(b),
            Err(e) => flag(text::opt_text(*value), default) is None && e@ == bad_bool(name@),
        },
{
    match value {
        Some(s) => parse_bool_env(s.as_str(), name),
        None => Ok(default),
    }
}

/// What an optional boolean setting means.
pub open spec fn flag(value: Option<Seq<char>>, default: bool) -> Option<bool> {
    match value {
        Some(s) => bool_value(s),
        None => Some(default),
    }
}

} // verus!
