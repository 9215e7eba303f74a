//! Installer roles and the package / request / result records of the setup
//! wizard, with the configuration text it writes.

use crate::text::{
    chars_of, has_prefix, index_of, is_space, lemma_index_of_after, lemma_run_len_unique,
    lemma_trimmed_first, lemma_trimmed_skip_space, push_char, push_text, run_len,
    string_from_chars, text_string, trim_bounds, trimmed,
};
use crate::magic::{DEFAULT_API_PORT, DEFAULT_DISCOVERY_PORT, DEFAULT_TUNNEL_PORT};
use crate::text::{contains_chars, decimal, digit_char, occurs_at};
use vstd::prelude::*;

verus! {

/// Which half of the tunnel a machine installs.
#[derive(Debug, Clone, Copy, PartialEq, Eq, Structural)]
pub enum Role {
    /// Desktop PC that runs ISTA / E-Sys.
    Host,
    /// Laptop near the car with the ENET cable.
    Client,
}

impl Role {
    /// Label shown on the role card.
    pub open spec fn label_text(self) -> Seq<char> {
        match self {
            Role::Host => "Host (Desktop)"@,
            Role::Client => "Client (Laptop)"@,
        }
    }

    /// Release asset carrying this role's package.
    pub open spec fn asset_text(self) -> Seq<char> {
        match self {
            Role::Host => "BMW-ENET-Host-windows-x64.zip"@,
            Role::Client => "BMW-ENET-Client-windows-x64.zip"@,
        }
    }

    /// Folder name under Program Files.
    pub open spec fn install_dir_text(self) -> Seq<char> {
        match self {
            Role::Host => "BMW-ENET-Gateway"@,
            Role::Client => "BMW-ENET-Agent"@,
        }
    }

    /// Windows service name.
    pub open spec fn service_text(self) -> Seq<char> {
        match self {
            Role::Host => "BmwEnetGateway"@,
            Role::Client => "BmwEnetAgent"@,
        }
    }

    /// Windows service display name.
    pub open spec fn service_display_text(self) -> Seq<char> {
        match self {
            Role::Host => "BMW ENET desktop gateway"@,
            Role::Client => "BMW ENET laptop agent"@,
        }
    }

    /// The executable the service runs.
    pub open spec fn main_exe_text(self) -> Seq<char> {
        match self {
            Role::Host => "enet-gateway.exe"@,
            Role::Client => "enet-agent.exe"@,
        }
    }

    /// Binaries a package must contain.
    pub open spec fn required_texts(self) -> Seq<Seq<char>> {
        match self {
            Role::Host => seq!["enet-gateway.exe"@, "enet-setup.exe"@],
            Role::Client => seq!["enet-agent.exe"@, "enet-setup.exe"@],
        }
    }

    /// Binaries copied when present.
    pub open spec fn optional_texts(self) -> Seq<Seq<char>> {
        match self {
            Role::Host => seq!["enet-gui.exe"@],
            Role::Client => Seq::empty(),
        }
    }

    /// Label shown on the role card.
    pub fn label(self) -> (s: &'static str)
        ensures
            s@ == self.label_text(),
    {
        match self {
            Role::Host => "Host (Desktop)",
            Role::Client => "Client (Laptop)",
        }
    }

    /// Release asset carrying this role's package.
    pub fn asset_name(self) -> (s: &'static str)
        ensures
            s@ == self.asset_text(),
    {
        match self {
            Role::Host => "BMW-ENET-Host-windows-x64.zip",
            Role::Client => "BMW-ENET-Client-windows-x64.zip",
        }
    }

    /// Binaries a package must contain.
    pub fn required_bins(self) -> (bins: &'static [&'static str])
        ensures
            bins@.len() == self.required_texts().len(),
            forall|i: int| 0 <= i < bins@.len() ==> #[trigger] bins@[i]@ == self.required_texts()[i],
    {
        match self {
            Role::Host => &["enet-gateway.exe", "enet-setup.exe"],
            Role::Client => &["enet-agent.exe", "enet-setup.exe"],
        }
    }

    /// Binaries copied when present.
    pub fn optional_bins(self) -> (bins: &'static [&'static str])
        ensures
            bins@.len() == self.optional_texts().len(),
            forall|i: int| 0 <= i < bins@.len() ==> #[trigger] bins@[i]@ == self.optional_texts()[i],
    {
        match self {
            Role::Host => &["enet-gui.exe"],
            Role::Client => &[],
        }
    }

    /// Folder name under Program Files.
    pub fn install_dir_name(self) -> (s: &'static str)
        ensures
            s@ == self.install_dir_text(),
    {
        match self {
            Role::Host => "BMW-ENET-Gateway",
            Role::Client => "BMW-ENET-Agent",
        }
    }

    /// Windows service name.
    pub fn service_name(self) -> (s: &'static str)
        ensures
            s@ == self.service_text(),
    {
        match self {
            Role::Host => "BmwEnetGateway",
            Role::Client => "BmwEnetAgent",
        }
    }

    /// Windows service display name.
    pub fn service_display(self) -> (s: &'static str)
        ensures
            s@ == self.service_display_text(),
    {
        match self {
            Role::Host => "BMW ENET desktop gateway",
            Role::Client => "BMW ENET laptop agent",
        }
    }

    /// The executable the service runs.
    pub fn main_exe(self) -> (s: &'static str)
        ensures
            s@ == self.main_exe_text(),
    {
        match self {
            Role::Host => "enet-gateway.exe",
            Role::Client => "enet-agent.exe",
        }
    }
}

/// A package ready to install: its version and where its files were unpacked.
pub struct PreparedPackage {
    /// Release tag, or "offline" / "local" for files found next to the wizard.
    pub version: String,
    /// Directory holding the unpacked binaries.
    pub extract_dir: String,
}

/// What the user chose in the wizard.
pub struct InstallRequest {
    /// Host or client.
    pub role: Role,
    /// Pair code to join (client) or show (host).
    pub pair_code: String,
    /// Shared tunnel password (may be empty).
    pub password: String,
    /// Register and start the Windows service.
    pub start_service: bool,
    /// Open the dashboard when done.
    pub open_dashboard: bool,
}

/// What the wizard reports after installing.
pub struct InstallResult {
    /// Where the files went.
    pub install_dir: String,
    /// Installed package version.
    pub version: String,
    /// Pair code to show the user.
    pub pair_code_hint: String,
    /// Local dashboard address (host only).
    pub dashboard_url: Option<String>,
}

// ---------------------------------------------------------------------------
// The configuration file the wizard writes.
// ---------------------------------------------------------------------------

/// `s` without its '"' characters.
pub open spec fn without_quotes(s: Seq<char>) -> Seq<char>
    decreases s.len(),
{
    if s.len() == 0 {
        s
    } else if s.last() == '"' {
        without_quotes(s.drop_last())
    } else {
        without_quotes(s.drop_last()).push(s.last())
    }
}

/// Appends `v` without its '"' characters.
fn push_without_quotes(out: &mut String, v: &[char])
    ensures
        final(out)@ == old(out)@ + without_quotes(v@),
{
    let mut i: usize = 0;
    while i < v.len()
        invariant
            i <= v@.len(),
            out@ == old(out)@ + without_quotes(v@.take(i as int)),
        decreases v@.len() - i,
    {
        assert(v@.take(i + 1).drop_last() =~= v@.take(i as int));
        assert(v@.take(i + 1).last() == v@[i as int]);
        if v[i] != '"' {
            push_char(out, v[i]);
        }
        i = i + 1;
        assert(out@ =~= old(out)@ + without_quotes(v@.take(i as int)));
    }
    assert(v@.take(v@.len() as int) =~= v@);
}

/// The password line: the password without quotes, quoted.
pub open spec fn password_line(password: Seq<char>) -> Seq<char> {
    "password = \""@ + without_quotes(password) + "\""@
}

/// The configuration text written for a role.
pub open spec fn config_text(role: Role, pair_code: Seq<char>, password: Seq<char>) -> Seq<char> {
    match role {
        Role::Host => "# Generated by BMW-ENET-Setup\nrole = \"gateway\"\nnetwork_mode = \"lan\"\ntunnel_port = 47900\napi_port = 47901\ndiscovery_port = 47902\nauto_discover = true\npair_code = \"\"\n"@
            + password_line(password)
            + "\nrequire_crypto = false\nrelay_url = \"\"\nauto_start = true\nsetup_complete = false\nvirtual_interface = \"BMW-ENET\"\ntester_ip = \"169.254.1.1\"\ntester_mask = \"255.255.0.0\"\nlog_level = \"info\"\nlog_dir = \"logs\"\nmanage_firewall = true\n"@,
        Role::Client => "# Generated by BMW-ENET-Setup\nrole = \"agent\"\nnetwork_mode = \"lan\"\ntunnel_port = 47900\napi_port = 47901\ndiscovery_port = 47902\nauto_discover = true\npair_code = \""@
            + without_quotes(trimmed(pair_code)) + "\"\n"@ + password_line(password)
            + "\nrequire_crypto = false\nrelay_url = \"\"\nauto_start = true\nsetup_complete = false\nlog_level = \"info\"\nlog_dir = \"logs\"\nmanage_firewall = true\n"@,
    }
}

/// The configuration text the wizard writes for a request.
pub fn config_contents(req: &InstallRequest) -> (text: String)
    ensures
        text@ == config_text(req.role, req.pair_code@, req.password@),
{
    let pw = chars_of(req.password.as_str());
    match req.role {
        Role::Host => {
            let mut t = text_string(
                "# Generated by BMW-ENET-Setup\nrole = \"gateway\"\nnetwork_mode = \"lan\"\ntunnel_port = 47900\napi_port = 47901\ndiscovery_port = 47902\nauto_discover = true\npair_code = \"\"\n",
            );
            push_text(&mut t, "password = \"");
            push_without_quotes(&mut t, pw.as_slice());
            push_text(&mut t, "\"");
            push_text(
                &mut t,
                "\nrequire_crypto = false\nrelay_url = \"\"\nauto_start = true\nsetup_complete = false\nvirtual_interface = \"BMW-ENET\"\ntester_ip = \"169.254.1.1\"\ntester_mask = \"255.255.0.0\"\nlog_level = \"info\"\nlog_dir = \"logs\"\nmanage_firewall = true\n",
            );
            assert(t@ =~= config_text(req.role, req.pair_code@, req.password@));
            t
        },
        Role::Client => {
            let code = chars_of(req.pair_code.as_str());
            let (a, b) = trim_bounds(code.as_slice());
            let mut t = text_string(
                "# Generated by BMW-ENET-Setup\nrole = \"agent\"\nnetwork_mode = \"lan\"\ntunnel_port = 47900\napi_port = 47901\ndiscovery_port = 47902\nauto_discover = true\npair_code = \"",
            );
            push_without_quotes(&mut t, vstd::slice::slice_subrange(code.as_slice(), a, b));
            push_text(&mut t, "\"\n");
            push_text(&mut t, "password = \"");
            push_without_quotes(&mut t, pw.as_slice());
            push_text(&mut t, "\"");
            push_text(
                &mut t,
                "\nrequire_crypto = false\nrelay_url = \"\"\nauto_start = true\nsetup_complete = false\nlog_level = \"info\"\nlog_dir = \"logs\"\nmanage_firewall = true\n",
            );
            assert(t@ =~= config_text(req.role, req.pair_code@, req.password@));
            t
        },
    }
}

/// The configuration file's name for a role.
pub fn config_file_name(role: Role) -> (s: &'static str)
    ensures
        s@ == (match role {
            Role::Host => "gateway.toml"@,
            Role::Client => "agent.toml"@,
        }),
{
    match role {
        Role::Host => "gateway.toml",
        Role::Client => "agent.toml",
    }
}

// ---------------------------------------------------------------------------
// Reading the pair code back.
// ---------------------------------------------------------------------------

/// Length of the run of characters equal to `c` at the end of `s`.
pub open spec fn trailing_run(s: Seq<char>, c: char) -> int
    decreases s.len(),
{
    if s.len() == 0 {
        0
    } else if s.last() == c {
        1 + trailing_run(s.drop_last(), c)
    } else {
        0
    }
}

/// The predicate "is the character `c`".
pub open spec fn is_char(c: char) -> spec_fn(char) -> bool {
    |x: char| x == c
}

/// `s` without leading and trailing `c` characters (as `trim_matches(c)`).
pub open spec fn trim_char(s: Seq<char>, c: char) -> Seq<char> {
    let t = s.skip(run_len(s, is_char(c)));
    t.take(t.len() - trailing_run(t, c))
}

/// The value of a `pair_code = "…"` line, if the line is one and its value
/// is not empty.
pub open spec fn pair_code_value(line: Seq<char>) -> Option<Seq<char>> {
    let t = trimmed(line);
    if has_prefix(t, "pair_code"@) {
        let r1 = trimmed(t.skip(9));
        let r2 = r1.skip(run_len(r1, is_char('=')));
        let v = trimmed(trim_char(trimmed(r2), '"'));
        if v.len() > 0 {
            Some(v)
        } else {
            None
        }
    } else {
        None
    }
}

/// The value of the first non-empty pair code line of a config text (lines
/// split at '\n').
pub open spec fn pair_code_in(text: Seq<char>) -> Option<Seq<char>>
    decreases text.len(),
{
    match index_of(text, '\n') {
        Some(i) => if 0 <= i < text.len() {
            match pair_code_value(text.take(i)) {
                Some(v) => Some(v),
                None => pair_code_in(text.skip(i + 1)),
            }
        } else {
            None
        },
        None => pair_code_value(text),
    }
}

proof fn lemma_trailing_run_bounds(s: Seq<char>, c: char)
    ensures
        0 <= trailing_run(s, c) <= s.len(),
    decreases s.len(),
{
    if s.len() > 0 {
        lemma_trailing_run_bounds(s.drop_last(), c);
    }
}

/// The bounds of `v[from..to]` without leading and trailing `c`.
fn trim_char_bounds(v: &[char], c: char) -> (r: (usize, usize))
    ensures
        r.0 <= r.1 <= v@.len(),
        v@.subrange(r.0 as int, r.1 as int) == trim_char(v@, c),
{
    let mut a: usize = 0;
    while a < v.len() && v[a] == c
        invariant
            a <= v@.len(),
            forall|j: int| 0 <= j < a ==> v@[j] == c,
        decreases v@.len() - a,
    {
        a = a + 1;
    }
    proof {
        lemma_run_len_unique(v@, is_char(c), a as int);
    }
    let ghost t = v@.skip(a as int);
    let mut b: usize = v.len();
    assert(t.take(b - a) =~= t);
    while b > a && v[b - 1] == c
        invariant
            a <= b <= v@.len(),
            t == v@.skip(a as int),
            trailing_run(t, c) == (v@.len() - b) + trailing_run(t.take(b - a), c),
        decreases b,
    {
        proof {
            let u = t.take(b - a);
            assert(u.last() == v@[b - 1]);
            assert(u.drop_last() =~= t.take(b - 1 - a));
        }
        b = b - 1;
    }
    proof {
        let u = t.take(b - a);
        if b > a {
            assert(u.last() == v@[b - 1]);
            assert(trailing_run(u, c) == 0);
        } else {
            assert(u.len() == 0);
            assert(trailing_run(u, c) == 0);
        }
        assert(t.take(t.len() - trailing_run(t, c)) =~= v@.subrange(a as int, b as int));
    }
    (a, b)
}

/// Reads the pair code a config line gives, if any.
fn line_pair_code(line: &[char]) -> (r: Option<String>)
    ensures
        crate::state::opt_text(r) == pair_code_value(line@),
{
    let (a, b) = trim_bounds(line);
    let t = vstd::slice::slice_subrange(line, a, b);
    let key = chars_of("pair_code");
    proof {
        reveal_strlit("pair_code");
    }
    if !crate::text::chars_start_with(t, key.as_slice()) {
        return None;
    }
    let rest = vstd::slice::slice_subrange(t, 9, t.len());
    assert(rest@ =~= t@.skip(9));
    let (c, d) = trim_bounds(rest);
    let r1 = vstd::slice::slice_subrange(rest, c, d);
    let mut e: usize = 0;
    while e < r1.len() && r1[e] == '='
        invariant
            e <= r1@.len(),
            forall|j: int| 0 <= j < e ==> r1@[j] == '=',
        decreases r1@.len() - e,
    {
        e = e + 1;
    }
    proof {
        lemma_run_len_unique(r1@, is_char('='), e as int);
    }
    let r2 = vstd::slice::slice_subrange(r1, e, r1.len());
    assert(r2@ =~= r1@.skip(e as int));
    let (f, g) = trim_bounds(r2);
    let r3 = vstd::slice::slice_subrange(r2, f, g);
    let (h, k) = trim_char_bounds(r3, '"');
    let r4 = vstd::slice::slice_subrange(r3, h, k);
    let (m, n) = trim_bounds(r4);
    if m == n {
        None
    } else {
        Some(string_from_chars(vstd::slice::slice_subrange(r4, m, n)))
    }
}

/// The pair code a written config file holds, if any (first non-empty
/// `pair_code` line).
pub fn read_pair_code(text: &str) -> (r: Option<String>)
    ensures
        crate::state::opt_text(r) == pair_code_in(text@),
{
    let all = chars_of(text);
    let mut start: usize = 0;
    assert(all@.skip(0) =~= all@);
    while start <= all.len()
        invariant
            all@ == text@,
            start <= all@.len(),
            pair_code_in(text@) == pair_code_in(all@.skip(start as int)),
        decreases all@.len() + 1 - start,
    {
        let rest = vstd::slice::slice_subrange(all.as_slice(), start, all.len());
        assert(rest@ =~= all@.skip(start as int));
        match crate::text::find_char(rest, '\n') {
            Some(i) => {
                let line = vstd::slice::slice_subrange(rest, 0, i);
                assert(line@ =~= rest@.take(i as int));
                match line_pair_code(line) {
                    Some(v) => return Some(v),
                    None => {
                        assert(rest@.skip(i + 1) =~= all@.skip(start + i + 1));
                        start = start + i + 1;
                    },
                }
            },
            None => {
                return line_pair_code(rest);
            },
        }
    }
    None
}

/// Every character left by `without_quotes` is one of `s` and no quote.
proof fn lemma_without_quotes_chars(s: Seq<char>)
    ensures
        forall|i: int|
            0 <= i < without_quotes(s).len() ==> s.contains(#[trigger] without_quotes(s)[i])
                && without_quotes(s)[i] != '"',
    decreases s.len(),
{
    if s.len() > 0 {
        let d = s.drop_last();
        lemma_without_quotes_chars(d);
        assert forall|i: int| 0 <= i < without_quotes(s).len() implies s.contains(
            #[trigger] without_quotes(s)[i],
        ) && without_quotes(s)[i] != '"' by {
            if i < without_quotes(d).len() {
                assert(without_quotes(s)[i] == without_quotes(d)[i]);
                let k = choose|k: int| 0 <= k < d.len() && d[k] == without_quotes(d)[i];
                assert(s[k] == d[k]);
            } else {
                assert(without_quotes(s)[i] == s.last());
                assert(s[s.len() - 1] == s.last());
            }
        }
    }
}

/// A line that does not begin with "pair_code" (after white space) gives no
/// pair code.
proof fn lemma_not_pair_line(l: Seq<char>)
    requires
        l.len() > 0,
        !is_space(l[0]),
        l[0] != 'p',
    ensures
        pair_code_value(l) is None,
{
    lemma_trimmed_first(l);
    reveal_strlit("pair_code");
    if has_prefix(trimmed(l), "pair_code"@) {
        assert(trimmed(l).take(9)[0] == trimmed(l)[0]);
    }
}

/// The line `pair_code = "v"` gives `v`, trimmed, when `v` holds no quote
/// and is not blank.
proof fn lemma_pair_line(v: Seq<char>)
    requires
        forall|i: int| 0 <= i < v.len() ==> v[i] != '"',
        trimmed(v).len() > 0,
    ensures
        pair_code_value(seq!['p', 'a', 'i', 'r', '_', 'c', 'o', 'd', 'e', ' ', '=', ' ', '"'] + v
            + seq!['"']) == Some(trimmed(v)),
{
    let line = seq!['p', 'a', 'i', 'r', '_', 'c', 'o', 'd', 'e', ' ', '=', ' ', '"'] + v + seq!['"'];
    assert(v.len() > 0);
    reveal_strlit("pair_code");
    lemma_trimmed_skip_space(line, 0);
    assert(line.skip(0) =~= line);
    assert(line.take(9) =~= "pair_code"@);
    let s1 = line.skip(9);
    assert(s1 =~= seq![' ', '=', ' ', '"'] + v + seq!['"']);
    lemma_trimmed_skip_space(s1, 1);
    let r1 = trimmed(s1);
    assert(r1 =~= seq!['=', ' ', '"'] + v + seq!['"']);
    lemma_run_len_unique(r1, is_char('='), 1);
    let r2 = r1.skip(1);
    assert(r2 =~= seq![' ', '"'] + v + seq!['"']);
    lemma_trimmed_skip_space(r2, 1);
    let q = trimmed(r2);
    assert(q =~= seq!['"'] + v + seq!['"']);
    assert(q[1] == v[0]);
    lemma_run_len_unique(q, is_char('"'), 1);
    let t = q.skip(1);
    assert(t =~= v + seq!['"']);
    assert(t.drop_last() =~= v);
    assert(v.last() == v[v.len() - 1]);
    assert(trailing_run(v, '"') == 0);
    assert(trailing_run(t, '"') == 1);
    assert(t.take(t.len() - 1) =~= v);
    assert(trim_char(q, '"') == v);
}

/// Skipping a line that gives no pair code.
proof fn lemma_skip_line(l: Seq<char>, rest: Seq<char>)
    requires
        !l.contains('\n'),
        pair_code_value(l) is None,
    ensures
        pair_code_in(l + seq!['\n'] + rest) == pair_code_in(rest),
{
    let t = l + seq!['\n'] + rest;
    lemma_index_of_after(l, '\n', rest);
    assert(t.take(l.len() as int) =~= l);
    assert(t.skip(l.len() as int + 1) =~= rest);
}

/// The first line, when it gives a pair code.
proof fn lemma_first_line(l: Seq<char>, rest: Seq<char>)
    requires
        !l.contains('\n'),
    ensures
        pair_code_value(l) is Some ==> pair_code_in(l + seq!['\n'] + rest) == pair_code_value(l),
{
    let t = l + seq!['\n'] + rest;
    lemma_index_of_after(l, '\n', rest);
    assert(t.take(l.len() as int) =~= l);
}

/// A line that neither spans lines nor gives a pair code.
proof fn lemma_plain_line(l: Seq<char>)
    requires
        l.len() > 0,
        !is_space(l[0]),
        l[0] != 'p',
        forall|i: int| 0 <= i < l.len() ==> l[i] != '\n',
    ensures
        !l.contains('\n'),
        pair_code_value(l) is None,
{
    lemma_not_pair_line(l);
}

/// The lines a client configuration starts with.
spec fn client_head_lines() -> Seq<Seq<char>> {
    seq![
        "# Generated by BMW-ENET-Setup"@,
        "role = \"agent\""@,
        "network_mode = \"lan\""@,
        "tunnel_port = 47900"@,
        "api_port = 47901"@,
        "discovery_port = 47902"@,
        "auto_discover = true"@,
    ]
}

/// `lines`, each followed by a line break, then `rest`.
spec fn joined_lines(lines: Seq<Seq<char>>, rest: Seq<char>) -> Seq<char>
    decreases lines.len(),
{
    if lines.len() == 0 {
        rest
    } else {
        lines[0] + seq!['\n'] + joined_lines(lines.drop_first(), rest)
    }
}

/// Lines that give no pair code are passed over.
proof fn lemma_skip_lines(lines: Seq<Seq<char>>, rest: Seq<char>)
    requires
        forall|k: int|
            0 <= k < lines.len() ==> !(#[trigger] lines[k]).contains('\n') && pair_code_value(
                lines[k],
            ) is None,
    ensures
        pair_code_in(joined_lines(lines, rest)) == pair_code_in(rest),
    decreases lines.len(),
{
    if lines.len() > 0 {
        assert forall|k: int| 0 <= k < lines.drop_first().len() implies !(
        #[trigger] lines.drop_first()[k]).contains('\n') && pair_code_value(
            lines.drop_first()[k],
        ) is None by {
            assert(lines.drop_first()[k] == lines[k + 1]);
        }
        lemma_skip_lines(lines.drop_first(), rest);
        lemma_skip_line(lines[0], joined_lines(lines.drop_first(), rest));
    }
}

/// None of the head lines of a client configuration gives a pair code.
proof fn lemma_client_head_plain()
    ensures
        forall|k: int|
            0 <= k < client_head_lines().len() ==> !(#[trigger] client_head_lines()[k]).contains(
                '\n',
            ) && pair_code_value(client_head_lines()[k]) is None,
{
    let h = client_head_lines();
    assert(h.len() == 7);
    assert(!h[0].contains('\n') && pair_code_value(h[0]) is None) by {
        reveal_strlit("# Generated by BMW-ENET-Setup");
        lemma_plain_line(h[0]);
    }
    assert(!h[1].contains('\n') && pair_code_value(h[1]) is None) by {
        reveal_strlit("role = \"agent\"");
        lemma_plain_line(h[1]);
    }
    assert(!h[2].contains('\n') && pair_code_value(h[2]) is None) by {
        reveal_strlit("network_mode = \"lan\"");
        lemma_plain_line(h[2]);
    }
    assert(!h[3].contains('\n') && pair_code_value(h[3]) is None) by {
        reveal_strlit("tunnel_port = 47900");
        lemma_plain_line(h[3]);
    }
    assert(!h[4].contains('\n') && pair_code_value(h[4]) is None) by {
        reveal_strlit("api_port = 47901");
        lemma_plain_line(h[4]);
    }
    assert(!h[5].contains('\n') && pair_code_value(h[5]) is None) by {
        reveal_strlit("discovery_port = 47902");
        lemma_plain_line(h[5]);
    }
    assert(!h[6].contains('\n') && pair_code_value(h[6]) is None) by {
        reveal_strlit("auto_discover = true");
        lemma_plain_line(h[6]);
    }
}

/// The head of a client configuration, up to the pair code's opening quote.
proof fn lemma_client_head_text()
    ensures
        "# Generated by BMW-ENET-Setup\nrole = \"agent\"\nnetwork_mode = \"lan\"\ntunnel_port = 47900\napi_port = 47901\ndiscovery_port = 47902\nauto_discover = true\npair_code = \""@
            == joined_lines(
            client_head_lines(),
            seq!['p', 'a', 'i', 'r', '_', 'c', 'o', 'd', 'e', ' ', '=', ' ', '"'],
        ),
{
    reveal_strlit(
        "# Generated by BMW-ENET-Setup\nrole = \"agent\"\nnetwork_mode = \"lan\"\ntunnel_port = 47900\napi_port = 47901\ndiscovery_port = 47902\nauto_discover = true\npair_code = \"",
    );
    reveal_strlit("# Generated by BMW-ENET-Setup");
    reveal_strlit("role = \"agent\"");
    reveal_strlit("network_mode = \"lan\"");
    reveal_strlit("tunnel_port = 47900");
    reveal_strlit("api_port = 47901");
    reveal_strlit("discovery_port = 47902");
    reveal_strlit("auto_discover = true");
    reveal_with_fuel(joined_lines, 8);
    let h = client_head_lines();
    assert(h.drop_first().drop_first().drop_first().drop_first().drop_first().drop_first().drop_first().len() == 0);
    assert("# Generated by BMW-ENET-Setup\nrole = \"agent\"\nnetwork_mode = \"lan\"\ntunnel_port = 47900\napi_port = 47901\ndiscovery_port = 47902\nauto_discover = true\npair_code = \""@
        =~= joined_lines(h, seq!['p', 'a', 'i', 'r', '_', 'c', 'o', 'd', 'e', ' ', '=', ' ', '"']));
}

/// What the wizard writes for a client it reads back: the configuration's
/// pair code line gives the entered pair code, trimmed and without quotes,
/// unless that is blank or runs over several lines.
pub proof fn lemma_client_config_pair_code_roundtrip(pair_code: Seq<char>, password: Seq<char>)
    requires
        !trimmed(pair_code).contains('\n'),
        trimmed(without_quotes(trimmed(pair_code))).len() > 0,
    ensures
        pair_code_in(config_text(Role::Client, pair_code, password)) == Some(
            trimmed(without_quotes(trimmed(pair_code))),
        ),
{
    let v = without_quotes(trimmed(pair_code));
    lemma_without_quotes_chars(trimmed(pair_code));
    assert(!v.contains('\n')) by {
        if v.contains('\n') {
            let i = choose|i: int| 0 <= i < v.len() && v[i] == '\n';
            assert(trimmed(pair_code).contains(v[i]));
        }
    }
    let open = seq!['p', 'a', 'i', 'r', '_', 'c', 'o', 'd', 'e', ' ', '=', ' ', '"'];
    let line = open + v + seq!['"'];
    let rest = password_line(password)
        + "\nrequire_crypto = false\nrelay_url = \"\"\nauto_start = true\nsetup_complete = false\nlog_level = \"info\"\nlog_dir = \"logs\"\nmanage_firewall = true\n"@;
    lemma_client_head_text();
    lemma_joined_lines_append(client_head_lines(), open, v + seq!['"'] + seq!['\n'] + rest);
    assert(config_text(Role::Client, pair_code, password) == joined_lines(
        client_head_lines(),
        line + seq!['\n'] + rest,
    )) by {
        reveal_strlit("\"\n");
        assert(open + (v + seq!['"'] + seq!['\n'] + rest) =~= line + seq!['\n'] + rest);
        assert(config_text(Role::Client, pair_code, password) =~= joined_lines(
            client_head_lines(),
            open,
        ) + (v + seq!['"'] + seq!['\n'] + rest));
    }
    assert(!line.contains('\n')) by {
        if line.contains('\n') {
            let i = choose|i: int| 0 <= i < line.len() && line[i] == '\n';
            if 13 <= i < 13 + v.len() {
                assert(line[i] == v[i - 13]);
            }
        }
    }
    lemma_pair_line(v);
    lemma_first_line(line, rest);
    lemma_client_head_plain();
    lemma_skip_lines(client_head_lines(), line + seq!['\n'] + rest);
}

/// Appending after the last line.
proof fn lemma_joined_lines_append(lines: Seq<Seq<char>>, a: Seq<char>, b: Seq<char>)
    ensures
        joined_lines(lines, a) + b == joined_lines(lines, a + b),
    decreases lines.len(),
{
    if lines.len() > 0 {
        lemma_joined_lines_append(lines.drop_first(), a, b);
        assert(joined_lines(lines, a) + b =~= joined_lines(lines, a + b));
    }
}

// ---------------------------------------------------------------------------
// The setup helper's command line and the result.
// ---------------------------------------------------------------------------

/// The arguments the wizard passes to the setup helper.
pub open spec fn setup_arg_texts(role: Role, config_path: Seq<char>, pair_code: Seq<char>, password: Seq<char>) -> Seq<Seq<char>> {
    let base = match role {
        Role::Host => seq!["gateway"@, "--config"@, config_path, "--yes"@],
        Role::Client => seq!["agent"@, "--config"@, config_path, "--yes"@] + if trimmed(pair_code).len() > 0 {
            seq!["--pair-code"@, trimmed(pair_code)]
        } else {
            Seq::empty()
        },
    };
    if password.len() > 0 {
        base + seq!["--password"@, password]
    } else {
        base
    }
}

/// The arguments the wizard passes to the setup helper.
pub fn setup_args(req: &InstallRequest, config_path: &str) -> (args: Vec<String>)
    ensures
        args@.map_values(|a: String| a@) == setup_arg_texts(req.role, config_path@, req.pair_code@, req.password@),
{
    let mut args: Vec<String> = Vec::new();
    match req.role {
        Role::Host => {
            args.push(text_string("gateway"));
        },
        Role::Client => {
            args.push(text_string("agent"));
        },
    }
    args.push(text_string("--config"));
    args.push(text_string(config_path));
    args.push(text_string("--yes"));
    if req.role == Role::Client {
        let code = chars_of(req.pair_code.as_str());
        let (a, b) = trim_bounds(code.as_slice());
        if a < b {
            args.push(text_string("--pair-code"));
            args.push(string_from_chars(vstd::slice::slice_subrange(code.as_slice(), a, b)));
        }
    }
    if !req.password.as_str().is_empty() {
        args.push(text_string("--password"));
        args.push(text_string(req.password.as_str()));
    }
    assert(args@.map_values(|a: String| a@) =~= setup_arg_texts(req.role, config_path@, req.pair_code@, req.password@));
    args
}

/// The service command line: the quoted program, the quoted config path,
/// and for a client the trimmed pair code when there is one.
pub open spec fn service_command_text(role: Role, exe_path: Seq<char>, config_path: Seq<char>, pair_code: Seq<char>) -> Seq<char> {
    "\""@ + exe_path + "\" --config \""@ + config_path + "\""@ + if role == Role::Client
        && trimmed(pair_code).len() > 0 {
        " --pair-code "@ + trimmed(pair_code)
    } else {
        Seq::empty()
    }
}

/// The command line registered for the Windows service.
pub fn service_command_line(role: Role, exe_path: &str, config_path: &str, pair_code: &str) -> (cmd: String)
    ensures
        cmd@ == service_command_text(role, exe_path@, config_path@, pair_code@),
{
    let mut cmd = text_string("\"");
    push_text(&mut cmd, exe_path);
    push_text(&mut cmd, "\" --config \"");
    push_text(&mut cmd, config_path);
    push_text(&mut cmd, "\"");
    let ghost head = cmd@;
    if role == Role::Client {
        let code = chars_of(pair_code);
        let (a, b) = trim_bounds(code.as_slice());
        if a < b {
            push_text(&mut cmd, " --pair-code ");
            crate::text::push_chars(&mut cmd, vstd::slice::slice_subrange(code.as_slice(), a, b));
        }
    }
    proof {
        if !(role == Role::Client && trimmed(pair_code@).len() > 0) {
            assert(head + Seq::<char>::empty() =~= head);
        }
    }
    cmd
}

/// The local dashboard address, offered on the host only.
pub fn dashboard_url(role: Role) -> (r: Option<String>)
    ensures
        match role {
            Role::Host => r matches Some(u) && u@ == "http://127.0.0.1:47901/"@,
            Role::Client => r is None,
        },
{
    match role {
        Role::Host => Some(text_string("http://127.0.0.1:47901/")),
        Role::Client => None,
    }
}

/// The wizard's report: where and what was installed, the pair code the
/// written config holds (else the one requested), and the dashboard address.
pub fn install_result(
    req: &InstallRequest,
    install_dir: String,
    package: &PreparedPackage,
    written_pair_code: Option<String>,
) -> (r: InstallResult)
    ensures
        r.install_dir == install_dir,
        r.version@ == package.version@,
        r.pair_code_hint@ == (match written_pair_code {
            Some(c) => c@,
            None => req.pair_code@,
        }),
        match req.role {
            Role::Host => r.dashboard_url matches Some(u) && u@ == "http://127.0.0.1:47901/"@,
            Role::Client => r.dashboard_url is None,
        },
{
    let hint = match written_pair_code {
        Some(c) => c,
        None => text_string(req.pair_code.as_str()),
    };
    InstallResult {
        install_dir,
        version: text_string(package.version.as_str()),
        pair_code_hint: hint,
        dashboard_url: dashboard_url(req.role),
    }
}

// ---------------------------------------------------------------------------
// Where the package comes from, and its layout.
// ---------------------------------------------------------------------------

/// Where the wizard takes the role's files from.
#[derive(Debug, Clone, Copy, PartialEq, Eq, Structural)]
pub enum PackageSource {
    /// The role's zip lies next to the wizard.
    Offline,
    /// All required binaries lie next to the wizard.
    Local,
    /// Download the role's asset from the latest release.
    Download,
}

impl PackageSource {
    /// The version label of a package from here ("offline" / "local"); a
    /// download is labelled by its release tag.
    pub fn label(self) -> (s: Option<&'static str>)
        ensures
            s matches Some(t) ==> (self == PackageSource::Offline && t@ == "offline"@) || (self
                == PackageSource::Local && t@ == "local"@),
            s is None <==> self == PackageSource::Download,
    {
        match self {
            PackageSource::Offline => Some("offline"),
            PackageSource::Local => Some("local"),
            PackageSource::Download => None,
        }
    }
}

/// Offline files are preferred: the role's zip, then loose binaries, else a
/// download.
pub fn package_source(offline_zip: bool, all_bins: bool) -> (s: PackageSource)
    ensures
        s == (if offline_zip {
            PackageSource::Offline
        } else if all_bins {
            PackageSource::Local
        } else {
            PackageSource::Download
        }),
{
    if offline_zip {
        PackageSource::Offline
    } else if all_bins {
        PackageSource::Local
    } else {
        PackageSource::Download
    }
}

/// The files whose presence marks an unpacked package's top directory.
pub fn package_markers() -> (m: [&'static str; 3])
    ensures
        m[0]@ == "enet-gateway.exe"@,
        m[1]@ == "enet-agent.exe"@,
        m[2]@ == "enet-setup.exe"@,
{
    ["enet-gateway.exe", "enet-agent.exe", "enet-setup.exe"]
}

/// Where the binaries of an unpacked package are found when the zip held
/// them one folder down: nothing to do when the top directory holds a
/// marker file, else the first sub-directory (in listing order) that holds
/// one, whose children move up.
pub fn flatten_source(top_has_marker: bool, subdir_has_marker: &[bool]) -> (r: Option<usize>)
    ensures
        top_has_marker ==> r is None,
        !top_has_marker ==> match r {
            Some(k) => k < subdir_has_marker@.len() && subdir_has_marker@[k as int] && forall|j: int|
                0 <= j < k ==> !subdir_has_marker@[j],
            None => forall|j: int| 0 <= j < subdir_has_marker@.len() ==> !subdir_has_marker@[j],
        },
{
    if top_has_marker {
        return None;
    }
    let mut k: usize = 0;
    while k < subdir_has_marker.len()
        invariant
            !top_has_marker,
            k <= subdir_has_marker@.len(),
            forall|j: int| 0 <= j < k ==> !subdir_has_marker@[j],
        decreases subdir_has_marker@.len() - k,
    {
        if subdir_has_marker[k] {
            return Some(k);
        }
        k = k + 1;
    }
    None
}

/// A text that occurs in `a` occurs in `a` followed by anything.
proof fn lemma_contains_extends(a: Seq<char>, b: Seq<char>, needle: Seq<char>)
    requires
        contains_chars(a, needle),
    ensures
        contains_chars(a + b, needle),
{
    let at = choose|at: int| occurs_at(a, needle, at);
    assert((a + b).subrange(at, at + needle.len()) =~= a.subrange(at, at + needle.len()));
    assert(occurs_at(a + b, needle, at));
}

/// The line `key = port` (with its line breaks) for a default port.
pub open spec fn port_line(key: Seq<char>, port: u16) -> Seq<char> {
    seq!['\n'] + key + " = "@ + decimal(port as nat) + seq!['\n']
}

/// The decimal texts of the default ports.
proof fn lemma_port_decimals()
    ensures
        decimal(47900) == seq!['4', '7', '9', '0', '0'],
        decimal(47901) == seq!['4', '7', '9', '0', '1'],
        decimal(47902) == seq!['4', '7', '9', '0', '2'],
{
    assert(digit_char(4) == '4');
    assert(digit_char(7) == '7');
    assert(digit_char(9) == '9');
    assert(digit_char(0) == '0');
    assert(digit_char(1) == '1');
    assert(digit_char(2) == '2');
    assert(decimal(4) == seq!['4']);
    assert(decimal(47) =~= seq!['4', '7']);
    assert(decimal(479) =~= seq!['4', '7', '9']);
    assert(decimal(4790) =~= seq!['4', '7', '9', '0']);
    assert(decimal(47900) =~= seq!['4', '7', '9', '0', '0']);
    assert(decimal(47901) =~= seq!['4', '7', '9', '0', '1']);
    assert(decimal(47902) =~= seq!['4', '7', '9', '0', '2']);
}

/// The written port lines in the head of each role's configuration.
proof fn lemma_head_ports(head: Seq<char>, role: Role)
    requires
        head == (match role {
            Role::Host => "# Generated by BMW-ENET-Setup\nrole = \"gateway\"\nnetwork_mode = \"lan\"\ntunnel_port = 47900\napi_port = 47901\ndiscovery_port = 47902\nauto_discover = true\npair_code = \"\"\n"@,
            Role::Client => "# Generated by BMW-ENET-Setup\nrole = \"agent\"\nnetwork_mode = \"lan\"\ntunnel_port = 47900\napi_port = 47901\ndiscovery_port = 47902\nauto_discover = true\npair_code = \""@,
        }),
    ensures
        contains_chars(head, port_line("tunnel_port"@, DEFAULT_TUNNEL_PORT)),
        contains_chars(head, port_line("api_port"@, DEFAULT_API_PORT)),
        contains_chars(head, port_line("discovery_port"@, DEFAULT_DISCOVERY_PORT)),
{
    reveal_strlit("# Generated by BMW-ENET-Setup\nrole = \"gateway\"\nnetwork_mode = \"lan\"\ntunnel_port = 47900\napi_port = 47901\ndiscovery_port = 47902\nauto_discover = true\npair_code = \"\"\n");
    reveal_strlit("# Generated by BMW-ENET-Setup\nrole = \"agent\"\nnetwork_mode = \"lan\"\ntunnel_port = 47900\napi_port = 47901\ndiscovery_port = 47902\nauto_discover = true\npair_code = \"");
    reveal_strlit("tunnel_port");
    reveal_strlit("api_port");
    reveal_strlit("discovery_port");
    reveal_strlit(" = ");
    lemma_port_decimals();
    let t = port_line("tunnel_port"@, DEFAULT_TUNNEL_PORT);
    let a = port_line("api_port"@, DEFAULT_API_PORT);
    let d = port_line("discovery_port"@, DEFAULT_DISCOVERY_PORT);
    let off: int = match role {
        Role::Host => 67,
        Role::Client => 65,
    };
    assert(head.subrange(off, off + t.len()) =~= t);
    assert(occurs_at(head, t, off));
    assert(head.subrange(off + 20, off + 20 + a.len()) =~= a);
    assert(occurs_at(head, a, off + 20));
    assert(head.subrange(off + 37, off + 37 + d.len()) =~= d);
    assert(occurs_at(head, d, off + 37));
}

/// The configuration the wizard writes names the ports the rest of the
/// programs use: the tunnel on the default tunnel port, the dashboard/API
/// on the default API port (the one `dashboard_url` opens for the host) and
/// discovery on the default discovery port, for either role.
pub proof fn lemma_config_ports(role: Role, pair_code: Seq<char>, password: Seq<char>)
    ensures
        contains_chars(config_text(role, pair_code, password), port_line("tunnel_port"@, DEFAULT_TUNNEL_PORT)),
        contains_chars(config_text(role, pair_code, password), port_line("api_port"@, DEFAULT_API_PORT)),
        contains_chars(config_text(role, pair_code, password), port_line("discovery_port"@, DEFAULT_DISCOVERY_PORT)),
        "http://127.0.0.1:47901/"@ == "http://127.0.0.1:"@ + decimal(DEFAULT_API_PORT as nat) + "/"@,
{
    let t = port_line("tunnel_port"@, DEFAULT_TUNNEL_PORT);
    let a = port_line("api_port"@, DEFAULT_API_PORT);
    let d = port_line("discovery_port"@, DEFAULT_DISCOVERY_PORT);
    match role {
        Role::Host => {
            let head = "# Generated by BMW-ENET-Setup\nrole = \"gateway\"\nnetwork_mode = \"lan\"\ntunnel_port = 47900\napi_port = 47901\ndiscovery_port = 47902\nauto_discover = true\npair_code = \"\"\n"@;
            lemma_head_ports(head, role);
            let rest = password_line(password) + "\nrequire_crypto = false\nrelay_url = \"\"\nauto_start = true\nsetup_complete = false\nvirtual_interface = \"BMW-ENET\"\ntester_ip = \"169.254.1.1\"\ntester_mask = \"255.255.0.0\"\nlog_level = \"info\"\nlog_dir = \"logs\"\nmanage_firewall = true\n"@;
            assert(config_text(role, pair_code, password) =~= head + rest);
            lemma_contains_extends(head, rest, t);
            lemma_contains_extends(head, rest, a);
            lemma_contains_extends(head, rest, d);
        },
        Role::Client => {
            let head = "# Generated by BMW-ENET-Setup\nrole = \"agent\"\nnetwork_mode = \"lan\"\ntunnel_port = 47900\napi_port = 47901\ndiscovery_port = 47902\nauto_discover = true\npair_code = \""@;
            lemma_head_ports(head, role);
            let rest = without_quotes(trimmed(pair_code)) + "\"\n"@ + password_line(password) + "\nrequire_crypto = false\nrelay_url = \"\"\nauto_start = true\nsetup_complete = false\nlog_level = \"info\"\nlog_dir = \"logs\"\nmanage_firewall = true\n"@;
            assert(config_text(role, pair_code, password) =~= head + rest);
            lemma_contains_extends(head, rest, t);
            lemma_contains_extends(head, rest, a);
            lemma_contains_extends(head, rest, d);
        },
    }
    reveal_strlit("http://127.0.0.1:47901/");
    reveal_strlit("http://127.0.0.1:");
    reveal_strlit("/");
    lemma_port_decimals();
    assert("http://127.0.0.1:47901/"@ =~= "http://127.0.0.1:"@ + decimal(DEFAULT_API_PORT as nat) + "/"@);
}

} // verus!
