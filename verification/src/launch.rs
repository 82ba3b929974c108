use vstd::prelude::*;
use crate::decimal::decimal;
use crate::decimal::parse_u16;
use crate::decimal::parse_u16_spec;
use crate::decimal::push_decimal;
use crate::text::after_last;
use crate::text::contains_text;
use crate::text::join_path;
use crate::text::text_after_last;
use crate::text::text_contains;
use vstd::string::StringExecFns;

verus! {

/// The log line by which Tor says that its control socket accepts connections.
pub open spec fn control_marker() -> Seq<char> {
    "Opened Control listener"@
}

/// The log line by which Tor says on which port its SOCKS proxy listens.
pub open spec fn socks_marker() -> Seq<char> {
    "Opened Socks listener on"@
}

/// The port at the end of a line such as `... Opened Socks listener on 127.0.0.1:9050`:
/// what follows the last `:`, read as a number.
pub open spec fn socks_port_spec(line: Seq<char>) -> Option<u16> {
    parse_u16_spec(after_last(line, ':'))
}

/// Reads the port at the end of a SOCKS listener line.
pub fn socks_port_of_line(line: &str) -> (r: Option<u16>)
    ensures
        r == socks_port_spec(line@),
{
    parse_u16(text_after_last(line, ':'))
}

/// Where the start of a Tor process stands, as its log lines tell.
#[derive(Clone, Copy, Debug, PartialEq, Eq, Structural)]
pub enum LaunchState {
    /// Tor has not yet opened its control socket.
    AwaitingControl,
    /// The control socket is open; the SOCKS port is not yet known.
    AwaitingSocks,
    /// Tor proxies connections on this port.
    Running { socks_port: u16 },
}

/// What the launcher is to do after a log line.
#[derive(Clone, Copy, Debug, PartialEq, Eq, Structural)]
pub enum LaunchStep {
    /// Read the next line.
    KeepReading,
    /// Connect to the control socket, authenticate, take ownership of Tor and enable its
    /// network; then read on.
    ConnectControl,
    /// Tor is up and proxies on this port.
    Ready { socks_port: u16 },
    /// Tor announced its SOCKS listener but the port cannot be read.
    UnreadableSocksPort,
    /// Tor is running already; the line changes nothing.
    Ignored,
}

/// The next state and the step after the log line `line` in state `s`.
pub open spec fn launch_step(s: LaunchState, line: Seq<char>) -> (LaunchState, LaunchStep) {
    match s {
        LaunchState::AwaitingControl => if contains_text(line, control_marker()) {
            (LaunchState::AwaitingSocks, LaunchStep::ConnectControl)
        } else {
            (s, LaunchStep::KeepReading)
        },
        LaunchState::AwaitingSocks => if contains_text(line, socks_marker()) {
            match socks_port_spec(line) {
                Some(p) => (LaunchState::Running { socks_port: p }, LaunchStep::Ready { socks_port: p }),
                None => (s, LaunchStep::UnreadableSocksPort),
            }
        } else {
            (s, LaunchStep::KeepReading)
        },
        LaunchState::Running { .. } => (s, LaunchStep::Ignored),
    }
}

/// Follows the log of a starting Tor process.
pub struct TorLaunch {
    pub state: LaunchState,
}

impl TorLaunch {
    /// A launch that waits for the control socket.
    pub fn new() -> (r: TorLaunch)
        ensures
            r.state == LaunchState::AwaitingControl,
    {
        TorLaunch { state: LaunchState::AwaitingControl }
    }

    /// Takes one log line of Tor's and says what to do next.
    pub fn on_log_line(&mut self, line: &str) -> (r: LaunchStep)
        ensures
            (final(self).state, r) == launch_step(old(self).state, line@),
            old(self).state is AwaitingControl ==> (if contains_text(line@, "Opened Control listener"@) {
                r == LaunchStep::ConnectControl && final(self).state == LaunchState::AwaitingSocks
            } else {
                r == LaunchStep::KeepReading && final(self).state == LaunchState::AwaitingControl
            }),
            old(self).state is AwaitingSocks ==> (if !contains_text(line@, "Opened Socks listener on"@) {
                r == LaunchStep::KeepReading && final(self).state == LaunchState::AwaitingSocks
            } else {
                match parse_u16_spec(after_last(line@, ':')) {
                    Some(p) => r == (LaunchStep::Ready { socks_port: p }) && final(self).state == (
                    LaunchState::Running { socks_port: p }),
                    None => r == LaunchStep::UnreadableSocksPort && final(self).state
                        == LaunchState::AwaitingSocks,
                }
            }),
            old(self).state is Running ==> r == LaunchStep::Ignored && final(self).state == old(
                self,
            ).state,
    {
        match self.state {
            LaunchState::AwaitingControl => {
                if text_contains(line, "Opened Control listener") {
                    self.state = LaunchState::AwaitingSocks;
                    LaunchStep::ConnectControl
                } else {
                    LaunchStep::KeepReading
                }
            },
            LaunchState::AwaitingSocks => {
                if text_contains(line, "Opened Socks listener on") {
                    match socks_port_of_line(line) {
                        Some(p) => {
                            self.state = LaunchState::Running { socks_port: p };
                            LaunchStep::Ready { socks_port: p }
                        },
                        None => LaunchStep::UnreadableSocksPort,
                    }
                } else {
                    LaunchStep::KeepReading
                }
            },
            LaunchState::Running { .. } => LaunchStep::Ignored,
        }
    }
}

/// While Tor's control socket is awaited, a line is the signal to connect exactly when it
/// holds "Opened Control listener": such a line, and only such a line, moves the launch on
/// to waiting for the SOCKS port, and the step it gives is to connect; every other line
/// leaves the launch where it was and asks for the next line.
pub proof fn lemma_control_line_connects(line: Seq<char>)
    ensures
        contains_text(line, "Opened Control listener"@) ==> launch_step(
            LaunchState::AwaitingControl,
            line,
        ) == (LaunchState::AwaitingSocks, LaunchStep::ConnectControl),
        !contains_text(line, "Opened Control listener"@) ==> launch_step(
            LaunchState::AwaitingControl,
            line,
        ) == (LaunchState::AwaitingControl, LaunchStep::KeepReading),
        (launch_step(LaunchState::AwaitingControl, line).1 == LaunchStep::ConnectControl)
            <==> (launch_step(LaunchState::AwaitingControl, line).0 == LaunchState::AwaitingSocks),
{
}

/// Every step that reports Tor ready names the port that its state then runs on, and that
/// port is the one written after the last `:` of a SOCKS listener line.
pub proof fn lemma_ready_names_the_port(s: LaunchState, line: Seq<char>, p: u16)
    requires
        launch_step(s, line).1 == (LaunchStep::Ready { socks_port: p }),
    ensures
        s == LaunchState::AwaitingSocks,
        contains_text(line, "Opened Socks listener on"@),
        parse_u16_spec(after_last(line, ':')) == Some(p),
        launch_step(s, line).0 == (LaunchState::Running { socks_port: p }),
{
}

/// Tor is running only after it opened its control socket: a single line read while
/// waiting for the control socket never reports the proxy ready.
pub proof fn lemma_no_ready_before_control(line: Seq<char>)
    ensures
        !(launch_step(LaunchState::AwaitingControl, line).1 is Ready),
        !(launch_step(LaunchState::AwaitingControl, line).0 is Running),
{
}

/// Once running, a launch stays running on the same port, whatever Tor logs.
pub proof fn lemma_running_is_final(p: u16, line: Seq<char>)
    ensures
        launch_step(LaunchState::Running { socks_port: p }, line) == (
            LaunchState::Running { socks_port: p },
            LaunchStep::Ignored,
        ),
{
}

/// A SOCKS listener line ending in `:` and a port written in base ten makes the launch
/// ready on that port.
pub proof fn lemma_socks_line_gives_port(prefix: Seq<char>, p: u16)
    requires
        contains_text(prefix, socks_marker()),
    ensures
        launch_step(LaunchState::AwaitingSocks, prefix + seq![':'] + decimal(p as nat)) == (
            LaunchState::Running { socks_port: p },
            LaunchStep::Ready { socks_port: p },
        ),
{
    let line = prefix + seq![':'] + decimal(p as nat);
    let i = choose|i: int| crate::text::occurs_at(prefix, socks_marker(), i);
    assert(line.subrange(i, i + socks_marker().len()) =~= prefix.subrange(
        i,
        i + socks_marker().len(),
    ));
    assert(crate::text::occurs_at(line, socks_marker(), i));
    crate::decimal::lemma_decimal_has_no_colon(p as nat);
    crate::text::lemma_after_last_suffix(prefix, ':', decimal(p as nat));
    crate::decimal::lemma_parse_decimal_roundtrip(p);
}

/// The state after following the log lines `lines` one after the other from state `s`.
pub open spec fn launch_run(s: LaunchState, lines: Seq<Seq<char>>) -> LaunchState
    decreases lines.len(),
{
    if lines.len() == 0 {
        s
    } else {
        launch_run(launch_step(s, lines[0]).0, lines.drop_first())
    }
}

/// Once running, a launch stays running on the same port through any further log.
pub proof fn lemma_run_stays_running(p: u16, lines: Seq<Seq<char>>)
    ensures
        launch_run(LaunchState::Running { socks_port: p }, lines) == (LaunchState::Running {
            socks_port: p,
        }),
    decreases lines.len(),
{
    if lines.len() > 0 {
        lemma_run_stays_running(p, lines.drop_first());
    }
}

proof fn lemma_run_from_socks(lines: Seq<Seq<char>>, p: u16)
    requires
        launch_run(LaunchState::AwaitingSocks, lines) == (LaunchState::Running { socks_port: p }),
    ensures
        exists|j: int|
            0 <= j < lines.len() && contains_text(#[trigger] lines[j], socks_marker())
                && socks_port_spec(lines[j]) == Some(p),
    decreases lines.len(),
{
    let rest = lines.drop_first();
    let next = launch_step(LaunchState::AwaitingSocks, lines[0]).0;
    if next == LaunchState::AwaitingSocks {
        lemma_run_from_socks(rest, p);
        let j = choose|j: int|
            0 <= j < rest.len() && contains_text(#[trigger] rest[j], socks_marker())
                && socks_port_spec(rest[j]) == Some(p);
        assert(rest[j] == lines[j + 1]);
    } else {
        let q = next->socks_port;
        lemma_run_stays_running(q, rest);
        assert(contains_text(lines[0], socks_marker()));
    }
}

/// Tor is found running on port `p` after a log only when the log holds a line that
/// announces the control socket, and after it a line that announces the SOCKS listener
/// on port `p`.
pub proof fn lemma_run_ready_needs_both_lines(lines: Seq<Seq<char>>, p: u16)
    requires
        launch_run(LaunchState::AwaitingControl, lines) == (LaunchState::Running { socks_port: p }),
    ensures
        exists|i: int, j: int|
            0 <= i < j < lines.len() && contains_text(#[trigger] lines[i], control_marker())
                && contains_text(#[trigger] lines[j], socks_marker()) && socks_port_spec(lines[j])
                == Some(p),
    decreases lines.len(),
{
    let rest = lines.drop_first();
    if contains_text(lines[0], control_marker()) {
        lemma_run_from_socks(rest, p);
        let j = choose|j: int|
            0 <= j < rest.len() && contains_text(#[trigger] rest[j], socks_marker())
                && socks_port_spec(rest[j]) == Some(p);
        assert(rest[j] == lines[j + 1]);
        assert(0 < j + 1 < lines.len() && contains_text(lines[0], control_marker())
            && contains_text(lines[j + 1], socks_marker()));
    } else {
        lemma_run_ready_needs_both_lines(rest, p);
        let (i, j) = choose|i: int, j: int|
            0 <= i < j < rest.len() && contains_text(#[trigger] rest[i], control_marker())
                && contains_text(#[trigger] rest[j], socks_marker()) && socks_port_spec(rest[j])
                == Some(p);
        assert(rest[i] == lines[i + 1]);
        assert(rest[j] == lines[j + 1]);
    }
}

/// The command-line arguments with which Tor is started for a profile.
pub open spec fn tor_arguments_spec(profile_dir: Seq<char>, torrc: Seq<char>) -> Seq<Seq<char>> {
    seq![
        "-f"@,
        torrc,
        "ControlPort"@,
        "unix:"@ + profile_dir + "/control-socket"@,
        "DisableNetwork"@,
        "1"@,
        "DataDirectory"@,
        "data"@,
        "SocksPort"@,
        "auto"@,
        "Log"@,
        "notice file tor-log"@,
        "Log"@,
        "notice"@,
    ]
}

/// The arguments for Tor: the configuration file, a control socket in the profile
/// directory, the network off until the controller enables it, a SOCKS port of Tor's
/// choice, and notices logged both to a file and to the output.
pub fn tor_arguments(profile_dir: &str, torrc: &str) -> (r: Vec<String>)
    ensures
        r@.map_values(|s: String| s@) == tor_arguments_spec(profile_dir@, torrc@),
{
    let mut r: Vec<String> = Vec::new();
    r.push(String::from_str("-f"));
    r.push(String::from_str(torrc));
    r.push(String::from_str("ControlPort"));
    let mut control = String::from_str("unix:");
    control.append(profile_dir);
    control.append("/control-socket");
    r.push(control);
    r.push(String::from_str("DisableNetwork"));
    r.push(String::from_str("1"));
    r.push(String::from_str("DataDirectory"));
    r.push(String::from_str("data"));
    r.push(String::from_str("SocksPort"));
    r.push(String::from_str("auto"));
    r.push(String::from_str("Log"));
    r.push(String::from_str("notice file tor-log"));
    r.push(String::from_str("Log"));
    r.push(String::from_str("notice"));
    assert(r@.map_values(|s: String| s@) =~= tor_arguments_spec(profile_dir@, torrc@));
    r
}

/// The directory of a profile: the profile's name under the working directory.
pub fn profile_dir(working_dir: &str, profile_name: &str) -> (r: String)
    ensures
        r@ == working_dir@ + seq!['/'] + profile_name@,
{
    join_path(working_dir, profile_name)
}

/// The Tor configuration file, which lies in the working directory.
pub fn torrc_path(working_dir: &str) -> (r: String)
    ensures
        r@ == working_dir@ + seq!['/'] + "torrc"@,
{
    join_path(working_dir, "torrc")
}

/// The file that keeps a profile's onion service key.
pub fn key_path(profile_dir: &str) -> (r: String)
    ensures
        r@ == profile_dir@ + seq!['/'] + "key"@,
{
    join_path(profile_dir, "key")
}

/// The control socket that Tor opens in a profile's directory.
pub fn control_socket_path(profile_dir: &str) -> (r: String)
    ensures
        r@ == profile_dir@ + seq!['/'] + "control-socket"@,
{
    join_path(profile_dir, "control-socket")
}

/// Reaches onion services through the SOCKS proxy of a running Tor.
#[derive(Clone, Copy, Debug, PartialEq, Eq, Structural)]
pub struct TorConnector {
    pub socks_port: u16,
}

impl TorConnector {
    /// A connector for the proxy on `socks_port`.
    pub fn new(socks_port: u16) -> (r: TorConnector)
        ensures
            r.socks_port == socks_port,
    {
        TorConnector { socks_port }
    }

    /// The proxy's address: the local host at the SOCKS port.
    pub fn proxy_address(&self) -> (r: String)
        ensures
            r@ == "127.0.0.1:"@ + decimal(self.socks_port as nat),
    {
        let mut r = String::from_str("127.0.0.1:");
        push_decimal(&mut r, self.socks_port as u64);
        r
    }
}

} // verus!
