//! Process role and logging level settings.

use crate::addr::{ip_string, ip_text, IpAddress};
use crate::discovery::{generate_pair_code, is_pair_code};
use crate::text::{
    chars_equal, chars_of, decimal, push_decimal, push_text, text_string, to_lowercase, trim_bounds,
    trimmed, unicode_lower,
};
use vstd::prelude::*;

verus! {

/// Process role.
#[derive(Debug, Clone, Copy, PartialEq, Eq, Structural)]
pub enum Role {
    /// Laptop connected to the vehicle ENET cable.
    Agent,
    /// Desktop running diagnostic tools.
    Gateway,
}

/// Logging verbosity.
#[derive(Debug, Clone, Copy, PartialEq, Eq, Structural)]
pub enum LogLevel {
    /// Error only.
    Error,
    /// Warnings+.
    Warn,
    /// Informational (default).
    Info,
    /// Debug detail.
    Debug,
    /// Trace everything (including packet meta).
    Trace,
}

impl Default for LogLevel {
    fn default() -> (l: Self)
        ensures
            l == LogLevel::Info,
    {
        LogLevel::Info
    }
}

impl LogLevel {
    /// The tracing filter name of a level.
    pub open spec fn filter_name(self) -> Seq<char> {
        match self {
            LogLevel::Error => "error"@,
            LogLevel::Warn => "warn"@,
            LogLevel::Info => "info"@,
            LogLevel::Debug => "debug"@,
            LogLevel::Trace => "trace"@,
        }
    }

    /// Convert to tracing filter string.
    pub fn as_filter(self) -> (s: &'static str)
        ensures
            s@ == self.filter_name(),
    {
        match self {
            LogLevel::Error => "error",
            LogLevel::Warn => "warn",
            LogLevel::Info => "info",
            LogLevel::Debug => "debug",
            LogLevel::Trace => "trace",
        }
    }

    /// The level a settings request names (case-insensitive); anything
    /// unknown is `Info`.
    pub open spec fn from_setting_text(text: Seq<char>) -> LogLevel {
        let t = unicode_lower(text);
        if t == "error"@ {
            LogLevel::Error
        } else if t == "warn"@ {
            LogLevel::Warn
        } else if t == "debug"@ {
            LogLevel::Debug
        } else if t == "trace"@ {
            LogLevel::Trace
        } else {
            LogLevel::Info
        }
    }

    /// Reads the level from a settings request.
    pub fn from_setting(text: &str) -> (l: LogLevel)
        ensures
            l == LogLevel::from_setting_text(text@),
    {
        let lower = to_lowercase(text);
        let t = chars_of(lower.as_str());
        let error = chars_of("error");
        let warn = chars_of("warn");
        let debug = chars_of("debug");
        let trace = chars_of("trace");
        if chars_equal(t.as_slice(), error.as_slice()) {
            LogLevel::Error
        } else if chars_equal(t.as_slice(), warn.as_slice()) {
            LogLevel::Warn
        } else if chars_equal(t.as_slice(), debug.as_slice()) {
            LogLevel::Debug
        } else if chars_equal(t.as_slice(), trace.as_slice()) {
            LogLevel::Trace
        } else {
            LogLevel::Info
        }
    }
}

impl Role {
    /// The example config path used by documentation and the installer.
    pub open spec fn config_path(self) -> Seq<char> {
        match self {
            Role::Agent => "config/agent.toml"@,
            Role::Gateway => "config/gateway.toml"@,
        }
    }

    /// Example config path for this role (relative to the install directory).
    pub fn default_config_path(self) -> (s: &'static str)
        ensures
            s@ == self.config_path(),
    {
        match self {
            Role::Agent => "config/agent.toml",
            Role::Gateway => "config/gateway.toml",
        }
    }
}

/// The plain-language setup checklist shown by the dashboards.
pub open spec fn setup_hint_texts(
    role: Role,
    api_port: u16,
    pair_code: Seq<char>,
    auto_discover: bool,
    peer_addr: Option<IpAddress>,
) -> Seq<Seq<char>> {
    match role {
        Role::Gateway => seq![
            "1. Keep this desktop on your home Wi‑Fi or Ethernet."@,
            "2. Open http://127.0.0.1:"@ + decimal(api_port as nat) + "/ in a browser for the dashboard."@,
            "3. On the laptop, install the Agent and enter pair code "@ + (if pair_code.len() == 0 {
                "(shown in dashboard)"@
            } else {
                pair_code
            }) + " (or leave blank to auto-find)."@,
            "4. Plug the ENET cable into the laptop and the car, then turn ignition ON."@,
            "5. Launch ISTA / E-Sys on this desktop when the dashboard says Connected."@,
        ],
        Role::Agent => seq![
            "1. Connect this laptop to the same Wi‑Fi/Ethernet as the desktop."@,
            if auto_discover {
                "2. Auto-discover is ON — the agent will find the desktop automatically."@
            } else {
                match peer_addr {
                    Some(ip) => "2. Connecting to desktop at "@ + ip_text(ip) + "."@,
                    None => "2. Set peer_addr or enable auto_discover."@,
                }
            },
            "3. Plug ENET into the car OBD port and this laptop."@,
        ],
    }
}

/// Plain-language setup checklist for the dashboards.
pub fn setup_hints(
    role: Role,
    api_port: u16,
    pair_code: &str,
    auto_discover: bool,
    peer_addr: Option<IpAddress>,
) -> (hints: Vec<String>)
    ensures
        hints@.map_values(|h: String| h@) == setup_hint_texts(role, api_port, pair_code@, auto_discover, peer_addr),
{
    let mut hints: Vec<String> = Vec::new();
    match role {
        Role::Gateway => {
            hints.push(text_string("1. Keep this desktop on your home Wi‑Fi or Ethernet."));
            let mut h2 = text_string("2. Open http://127.0.0.1:");
            push_decimal(&mut h2, api_port as u64);
            push_text(&mut h2, "/ in a browser for the dashboard.");
            hints.push(h2);
            let mut h3 = text_string("3. On the laptop, install the Agent and enter pair code ");
            if pair_code.is_empty() {
                push_text(&mut h3, "(shown in dashboard)");
            } else {
                push_text(&mut h3, pair_code);
            }
            push_text(&mut h3, " (or leave blank to auto-find).");
            hints.push(h3);
            hints.push(text_string("4. Plug the ENET cable into the laptop and the car, then turn ignition ON."));
            hints.push(text_string("5. Launch ISTA / E-Sys on this desktop when the dashboard says Connected."));
        },
        Role::Agent => {
            hints.push(text_string("1. Connect this laptop to the same Wi‑Fi/Ethernet as the desktop."));
            if auto_discover {
                hints.push(text_string("2. Auto-discover is ON — the agent will find the desktop automatically."));
            } else {
                match peer_addr {
                    Some(ip) => {
                        let mut h = text_string("2. Connecting to desktop at ");
                        let t = ip_string(ip);
                        push_text(&mut h, t.as_str());
                        push_text(&mut h, ".");
                        hints.push(h);
                    },
                    None => hints.push(text_string("2. Set peer_addr or enable auto_discover.")),
                }
            }
            hints.push(text_string("3. Plug ENET into the car OBD port and this laptop."));
        },
    }
    assert(hints@.map_values(|h: String| h@) =~= setup_hint_texts(role, api_port, pair_code@, auto_discover, peer_addr));
    hints
}

/// Ensure a pair code exists: a code that is empty once trimmed is replaced
/// by a freshly generated one.
pub fn ensure_pair_code(pair_code: &mut String)
    ensures
        trimmed(old(pair_code)@).len() == 0 ==> is_pair_code(final(pair_code)@),
        trimmed(old(pair_code)@).len() > 0 ==> final(pair_code)@ == old(pair_code)@,
{
    let v = crate::text::chars_of(pair_code.as_str());
    let (a, b) = trim_bounds(v.as_slice());
    if a == b {
        *pair_code = generate_pair_code();
    }
}

} // verus!
