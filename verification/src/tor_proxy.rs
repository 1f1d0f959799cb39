//! Tor routing: which requests go through Tor, the proxy address and the
//! `torrc` the proxy process is started with.

use vstd::prelude::*;
use vstd::string::StringSliceAdditionalSpecFns;
use crate::text::{decimal, push_decimal, joined_path, join_path};

verus! {

/// When traffic goes through Tor.
#[derive(Debug, Clone, Copy, PartialEq, Eq, Structural)]
pub enum TorMode {
    /// Direct connections only.
    Disabled,
    /// Everything through Tor.
    AlwaysOn,
    /// Only `.onion` addresses through Tor.
    OnionOnly,
    /// Decided per tab.
    PerTab,
}

/// A bridge for censored networks.
#[derive(Debug, Clone)]
pub enum BridgeType {
    NoBridge,
    Obfs4 { bridge_line: String },
    Snowflake,
    Meek { url: String },
    WebTunnel { url: String },
}

/// How the Tor proxy is set up.
#[derive(Debug, Clone)]
pub struct TorConfig {
    pub mode: TorMode,
    pub socks_port: u16,
    pub control_port: u16,
    pub data_dir: String,
    pub bridge: BridgeType,
    pub enforce_https: bool,
    /// A separate circuit per tab.
    pub isolate_by_tab: bool,
    /// A new circuit for each domain.
    pub new_circuit_on_domain: bool,
    /// Preferred exit country.
    pub exit_country: Option<String>,
}

/// A circuit of one tab.
#[derive(Debug, Clone)]
pub struct CircuitInfo {
    pub circuit_id: u64,
    pub entry_node: String,
    pub middle_node: String,
    pub exit_node: String,
    pub exit_country: String,
    pub latency_ms: u32,
    /// When the circuit was built, in milliseconds since the Unix epoch.
    pub established_at: u64,
}

/// Traffic and circuit counters.
#[derive(Debug, Clone, Copy, PartialEq, Eq, Structural)]
pub struct TorStats {
    pub bytes_sent: u64,
    pub bytes_received: u64,
    pub circuits_created: u64,
    pub circuits_failed: u64,
    pub onion_sites_visited: u64,
}

impl Default for TorStats {
    fn default() -> (r: Self)
        ensures
            r == (TorStats {
                bytes_sent: 0,
                bytes_received: 0,
                circuits_created: 0,
                circuits_failed: 0,
                onion_sites_visited: 0,
            }),
    {
        TorStats {
            bytes_sent: 0,
            bytes_received: 0,
            circuits_created: 0,
            circuits_failed: 0,
            onion_sites_visited: 0,
        }
    }
}

/// The data directory of the default set-up: `tor` under `voidweb` under
/// the user's configuration directory, or under `/tmp` without one.
pub open spec fn default_data_dir(config_dir: Option<Seq<char>>) -> Seq<char> {
    let base = match config_dir {
        Some(d) => d,
        None => "/tmp"@,
    };
    joined_path(joined_path(base, "voidweb"@), "tor"@)
}

impl TorConfig {
    /// The default set-up, given the user's configuration directory: all
    /// traffic through Tor on ports 9150 (SOCKS) and 9151 (control), no
    /// bridge, HTTPS enforced, circuits isolated by tab and by domain.
    pub fn default_in(config_dir: Option<&str>) -> (r: Self)
        ensures
            r.mode == TorMode::AlwaysOn,
            r.socks_port == 9150,
            r.control_port == 9151,
            r.data_dir@ == default_data_dir(
                match config_dir {
                    Some(d) => Some(d@),
                    None => None,
                },
            ),
            r.bridge is NoBridge,
            r.enforce_https,
            r.isolate_by_tab,
            r.new_circuit_on_domain,
            r.exit_country is None,
    {
        let base = match config_dir {
            Some(d) => d,
            None => "/tmp",
        };
        let app_dir = join_path(base, "voidweb");
        let data_dir = join_path(app_dir.as_str(), "tor");
        TorConfig {
            mode: TorMode::AlwaysOn,
            socks_port: 9150,
            control_port: 9151,
            data_dir,
            bridge: BridgeType::NoBridge,
            enforce_https: true,
            isolate_by_tab: true,
            new_circuit_on_domain: true,
            exit_country: None,
        }
    }
}

/// The snowflake bridge line.
pub const SNOWFLAKE_BRIDGE: &'static str = "Bridge snowflake 192.0.2.3:80 2B280B23E1107BB62ABFC40DDCC8824814F80A72 fingerprint=2B280B23E1107BB62ABFC40DDCC8824814F80A72 url=https://snowflake-broker.torproject.net.global.prod.fastly.net/ front=cdn.sstatic.net ice=stun:stun.l.google.com:19302,stun:stun.antisip.com:3478,stun:stun.bluesip.net:3478\n";

/// The `torrc` lines for a bridge.
pub open spec fn bridge_lines(b: BridgeType) -> Seq<char> {
    match b {
        BridgeType::NoBridge => Seq::empty(),
        BridgeType::Obfs4 { bridge_line } => "UseBridges 1\n"@ + "Bridge obfs4 "@ + bridge_line@ + "\n"@
            + "ClientTransportPlugin obfs4 exec /usr/bin/obfs4proxy\n"@,
        BridgeType::Snowflake => "UseBridges 1\n"@
            + "ClientTransportPlugin snowflake exec /usr/bin/snowflake-client\n"@ + SNOWFLAKE_BRIDGE@,
        BridgeType::Meek { url } => "UseBridges 1\n"@ + "Bridge meek_lite 0.0.2.0:2 url="@ + url@ + "\n"@,
        BridgeType::WebTunnel { url } => "UseBridges 1\n"@ + "Bridge webtunnel "@ + url@ + "\n"@,
    }
}

/// The `torrc` for a set-up: ports and data directory, a note on HTTPS,
/// the exit country, then the bridge.
pub open spec fn torrc_text(c: TorConfig) -> Seq<char> {
    "SocksPort "@ + decimal(c.socks_port as nat) + "\nControlPort "@ + decimal(c.control_port as nat)
        + "\nDataDirectory "@ + c.data_dir@ + "\n"@ + (if c.enforce_https {
        "# HTTPS enforcement handled at browser level\n"@
    } else {
        Seq::empty()
    }) + (match c.exit_country {
        Some(country) => "ExitNodes {"@ + country@ + "}\n"@,
        None => Seq::empty(),
    }) + bridge_lines(c.bridge)
}

/// The SOCKS proxy address for a port.
pub open spec fn socks_address(port: u16) -> Seq<char> {
    "socks5://127.0.0.1:"@ + decimal(port as nat)
}

/// The bytes of `.onion`.
pub open spec fn onion_marker() -> Seq<u8> {
    seq![46u8, 111u8, 110u8, 105u8, 111u8, 110u8]
}

/// A byte with ASCII upper case turned to lower case.
pub open spec fn lower_byte(c: u8) -> u8 {
    if 65 <= c <= 90 {
        (c + 32) as u8
    } else {
        c
    }
}

/// The first `i' >= i` at which `b` holds `://`, if any.
pub open spec fn scheme_sep(b: Seq<u8>, i: int) -> Option<int>
    decreases b.len() - i,
{
    if i < 0 || i + 3 > b.len() {
        None
    } else if b[i] == 58u8 && b[i + 1] == 47u8 && b[i + 2] == 47u8 {
        Some(i)
    } else {
        scheme_sep(b, i + 1)
    }
}

/// Where the authority of a URL starts: after the first `://`, else at 0.
pub open spec fn authority_start(b: Seq<u8>) -> int {
    match scheme_sep(b, 0) {
        Some(i) => i + 3,
        None => 0,
    }
}

/// Whether `c` ends the authority: `/`, `?` or `#`.
pub open spec fn ends_authority(c: u8) -> bool {
    c == 47u8 || c == 63u8 || c == 35u8
}

/// The first `i' >= i` at which `b` holds a byte that ends the authority,
/// else the length of `b`.
pub open spec fn authority_end(b: Seq<u8>, i: int) -> int
    decreases b.len() - i,
{
    if i < 0 || i >= b.len() {
        b.len() as int
    } else if ends_authority(b[i]) {
        i
    } else {
        authority_end(b, i + 1)
    }
}

/// Just after the last `@` in `b[lo..j]`, else `lo`: where the host starts
/// once the user information is skipped.
pub open spec fn after_last_at(b: Seq<u8>, lo: int, j: int) -> int
    decreases j - lo,
{
    if j <= lo {
        lo
    } else if b[j - 1] == 64u8 {
        j
    } else {
        after_last_at(b, lo, j - 1)
    }
}

/// The first `:` in `b[i..end]`, else `end`: where the host ends.
pub open spec fn port_sep(b: Seq<u8>, i: int, end: int) -> int
    decreases end - i,
{
    if i >= end {
        end
    } else if b[i] == 58u8 {
        i
    } else {
        port_sep(b, i + 1, end)
    }
}

/// The host of a URL: after `scheme://` and user information, before the
/// port and the path, query or fragment.
pub open spec fn url_host(b: Seq<u8>) -> Seq<u8> {
    let lo = authority_start(b);
    let end = authority_end(b, lo);
    let hs = after_last_at(b, lo, end);
    b.subrange(hs, port_sep(b, hs, end))
}

/// Whether `h`, in ASCII lower case, ends with `.onion`.
pub open spec fn ends_with_onion(h: Seq<u8>) -> bool {
    &&& h.len() >= 6
    &&& forall|k: int| 0 <= k < 6 ==> lower_byte(#[trigger] h[h.len() - 6 + k]) == onion_marker()[k]
}

/// Whether the host of `url` is a `.onion` name, in any letter case.
pub open spec fn spec_is_onion(url: &str) -> bool {
    ends_with_onion(url_host(url.spec_bytes()))
}

/// Whether a request to `url` goes through Tor in `mode`.
pub open spec fn spec_should_proxy(mode: TorMode, url: &str) -> bool {
    match mode {
        TorMode::Disabled => false,
        TorMode::AlwaysOn => true,
        TorMode::OnionOnly => spec_is_onion(url),
        TorMode::PerTab => true,
    }
}

/// What starting the proxy takes: the data directory to create, the
/// `torrc` to write there and its path.
pub struct TorLaunch {
    pub data_dir: String,
    pub torrc_path: String,
    pub torrc: String,
}

/// What asking for a new identity takes: the control address and the
/// commands to send there.
pub struct CircuitRequest {
    pub control_addr: String,
    pub commands: String,
}

/// The Tor proxy: its set-up, whether its process runs, its circuits and
/// counters.
pub struct TorProxy {
    config: TorConfig,
    running: bool,
    circuits: Vec<CircuitInfo>,
    stats: TorStats,
}

impl TorProxy {
    /// The set-up.
    pub closed spec fn spec_config(&self) -> TorConfig {
        self.config
    }

    /// Whether the proxy process runs.
    pub closed spec fn spec_running(&self) -> bool {
        self.running
    }

    /// The counters.
    pub closed spec fn spec_stats(&self) -> TorStats {
        self.stats
    }

    /// The known circuits.
    pub closed spec fn spec_circuits(&self) -> Seq<CircuitInfo> {
        self.circuits@
    }

    /// A stopped proxy with no circuits and zero counters.
    pub fn new(config: TorConfig) -> (r: Self)
        ensures
            r.spec_config() == config,
            !r.spec_running(),
            r.spec_circuits() == Seq::<CircuitInfo>::empty(),
            r.spec_stats() == (TorStats {
                bytes_sent: 0,
                bytes_received: 0,
                circuits_created: 0,
                circuits_failed: 0,
                onion_sites_visited: 0,
            }),
    {
        TorProxy { config, running: false, circuits: Vec::new(), stats: TorStats::default() }
    }

    /// What starting the proxy takes; none when Tor is disabled.
    pub fn start_plan(&self) -> (r: Option<TorLaunch>)
        ensures
            self.spec_config().mode == TorMode::Disabled <==> r is None,
            match r {
                Some(l) => {
                    &&& l.data_dir@ == self.spec_config().data_dir@
                    &&& l.torrc_path@ == joined_path(self.spec_config().data_dir@, "torrc"@)
                    &&& l.torrc@ == torrc_text(self.spec_config())
                },
                None => true,
            },
    {
        if self.config.mode == TorMode::Disabled {
            return None;
        }
        let torrc = self.generate_torrc();
        let torrc_path = join_path(self.config.data_dir.as_str(), "torrc");
        Some(TorLaunch { data_dir: self.config.data_dir.clone(), torrc_path, torrc })
    }

    /// Record the outcome of starting the proxy process: with Tor not
    /// disabled, a process that was spawned makes the proxy run; otherwise
    /// nothing changes.
    pub fn start_attempted(&mut self, spawned: bool)
        ensures
            final(self).spec_running() == running_after(old(self).spec_running(), old(self).spec_config().mode, TorEvent::Start { spawned }),
            final(self).spec_config() == old(self).spec_config(),
            final(self).spec_circuits() == old(self).spec_circuits(),
            final(self).spec_stats() == old(self).spec_stats(),
    {
        if spawned && self.config.mode != TorMode::Disabled {
            self.running = true;
        }
    }

    /// Mark the proxy stopped; whether its process has to be ended.
    pub fn stop(&mut self) -> (r: bool)
        ensures
            r == old(self).spec_running(),
            !final(self).spec_running(),
            final(self).spec_config() == old(self).spec_config(),
            final(self).spec_circuits() == old(self).spec_circuits(),
            final(self).spec_stats() == old(self).spec_stats(),
    {
        let was = self.running;
        self.running = false;
        was
    }

    /// The SOCKS5 proxy URL for HTTP clients: present while the proxy
    /// runs or Tor is not disabled.
    pub fn socks_url(&self) -> (r: Option<String>)
        ensures
            match r {
                Some(u) => (self.spec_running() || self.spec_config().mode != TorMode::Disabled)
                    && u@ == socks_address(self.spec_config().socks_port),
                None => !self.spec_running() && self.spec_config().mode == TorMode::Disabled,
            },
    {
        if self.running || self.config.mode != TorMode::Disabled {
            let mut u = String::from_str("socks5://127.0.0.1:");
            push_decimal(&mut u, self.config.socks_port as u64);
            Some(u)
        } else {
            None
        }
    }

    /// Count a new identity and say where to ask for it. The counter goes
    /// up whether or not the request then succeeds.
    pub fn new_circuit_request(&mut self) -> (r: CircuitRequest)
        requires
            old(self).spec_stats().circuits_created < u64::MAX,
        ensures
            final(self).spec_stats() == (TorStats {
                circuits_created: (old(self).spec_stats().circuits_created + 1) as u64,
                ..old(self).spec_stats()
            }),
            final(self).spec_config() == old(self).spec_config(),
            final(self).spec_running() == old(self).spec_running(),
            final(self).spec_circuits() == old(self).spec_circuits(),
            r.control_addr@ == "127.0.0.1:"@ + decimal(old(self).spec_config().control_port as nat),
            r.commands@ == "AUTHENTICATE\r\nSIGNAL NEWNYM\r\nQUIT\r\n"@,
    {
        self.stats.circuits_created = self.stats.circuits_created + 1;
        let mut control_addr = String::from_str("127.0.0.1:");
        push_decimal(&mut control_addr, self.config.control_port as u64);
        CircuitRequest {
            control_addr,
            commands: String::from_str("AUTHENTICATE\r\nSIGNAL NEWNYM\r\nQUIT\r\n"),
        }
    }

    /// Whether `url` is a `.onion` address: whether its host, in ASCII
    /// lower case, ends with `.onion`.
    pub fn is_onion(url: &str) -> (r: bool)
        ensures
            r == spec_is_onion(url),
    {
        let b = url.as_bytes();
        let ghost bs = url.spec_bytes();
        let n = b.len();
        let mut i: usize = 0;
        let mut lo: usize = 0;
        let mut found = false;
        while !found && i < n && n - i >= 3
            invariant
                b@ == bs,
                n == bs.len(),
                i <= n,
                !found ==> lo == 0 && scheme_sep(bs, 0) == scheme_sep(bs, i as int),
                found ==> scheme_sep(bs, 0) == Some(i as int) && lo == i + 3 && lo <= n,
            decreases n - i + (if found { 0int } else { 1int }),
        {
            if b[i] == 58u8 && b[i + 1] == 47u8 && b[i + 2] == 47u8 {
                lo = i + 3;
                found = true;
            } else {
                i = i + 1;
            }
        }
        assert(lo as int == authority_start(bs));
        let mut end: usize = lo;
        while end < n && !(b[end] == 47u8 || b[end] == 63u8 || b[end] == 35u8)
            invariant
                b@ == bs,
                n == bs.len(),
                lo <= end <= n,
                lo as int == authority_start(bs),
                authority_end(bs, lo as int) == authority_end(bs, end as int),
            decreases n - end,
        {
            end = end + 1;
        }
        let mut hs: usize = end;
        while hs > lo && b[hs - 1] != 64u8
            invariant
                b@ == bs,
                n == bs.len(),
                lo <= hs <= end <= n,
                after_last_at(bs, lo as int, end as int) == after_last_at(bs, lo as int, hs as int),
            decreases hs - lo,
        {
            hs = hs - 1;
        }
        let mut he: usize = hs;
        while he < end && b[he] != 58u8
            invariant
                b@ == bs,
                n == bs.len(),
                hs <= he <= end <= n,
                port_sep(bs, hs as int, end as int) == port_sep(bs, he as int, end as int),
            decreases end - he,
        {
            he = he + 1;
        }
        let ghost host = bs.subrange(hs as int, he as int);
        assert(host == url_host(bs));
        if he - hs < 6 {
            return false;
        }
        let marker: [u8; 6] = [46u8, 111u8, 110u8, 105u8, 111u8, 110u8];
        let base = he - 6;
        let mut k: usize = 0;
        while k < 6
            invariant
                b@ == bs,
                n == bs.len(),
                hs + 6 <= he <= n,
                base == he - 6,
                host == bs.subrange(hs as int, he as int),
                host == url_host(bs),
                bs == url.spec_bytes(),
                marker@ == onion_marker(),
                k <= 6,
                forall|m: int| 0 <= m < k ==> lower_byte(#[trigger] host[host.len() - 6 + m]) == onion_marker()[m],
            decreases 6 - k,
        {
            let c = b[base + k];
            let lc: u8 = if 65u8 <= c && c <= 90u8 { c + 32 } else { c };
            assert(host[host.len() - 6 + k] == c);
            assert(lc == lower_byte(c));
            assert(marker[k as int] == onion_marker()[k as int]);
            if lc != marker[k] {
                return false;
            }
            k = k + 1;
        }
        true
    }

    /// Whether a request to `url` goes through Tor.
    pub fn should_proxy(&self, url: &str) -> (r: bool)
        ensures
            r == spec_should_proxy(self.spec_config().mode, url),
    {
        match self.config.mode {
            TorMode::Disabled => false,
            TorMode::AlwaysOn => true,
            TorMode::OnionOnly => Self::is_onion(url),
            TorMode::PerTab => true,
        }
    }

    /// The set-up.
    pub fn config(&self) -> (r: &TorConfig)
        ensures
            *r == self.spec_config(),
    {
        &self.config
    }

    /// Whether the proxy process runs.
    pub fn is_running(&self) -> (r: bool)
        ensures
            r == self.spec_running(),
    {
        self.running
    }

    /// The counters.
    pub fn stats(&self) -> (r: &TorStats)
        ensures
            *r == self.spec_stats(),
    {
        &self.stats
    }

    /// The `torrc` for this proxy's set-up.
    fn generate_torrc(&self) -> (r: String)
        ensures
            r@ == torrc_text(self.spec_config()),
    {
        let c = &self.config;
        let mut t = String::from_str("SocksPort ");
        push_decimal(&mut t, c.socks_port as u64);
        t.append("\nControlPort ");
        push_decimal(&mut t, c.control_port as u64);
        t.append("\nDataDirectory ");
        t.append(c.data_dir.as_str());
        t.append("\n");
        let ghost head = t@;
        if c.enforce_https {
            t.append("# HTTPS enforcement handled at browser level\n");
        }
        let ghost with_https = t@;
        match &c.exit_country {
            Some(country) => {
                t.append("ExitNodes {");
                t.append(country.as_str());
                t.append("}\n");
            },
            None => {},
        }
        let ghost with_exit = t@;
        match &c.bridge {
            BridgeType::NoBridge => {},
            BridgeType::Obfs4 { bridge_line } => {
                t.append("UseBridges 1\n");
                t.append("Bridge obfs4 ");
                t.append(bridge_line.as_str());
                t.append("\n");
                t.append("ClientTransportPlugin obfs4 exec /usr/bin/obfs4proxy\n");
            },
            BridgeType::Snowflake => {
                t.append("UseBridges 1\n");
                t.append("ClientTransportPlugin snowflake exec /usr/bin/snowflake-client\n");
                t.append(SNOWFLAKE_BRIDGE);
            },
            BridgeType::Meek { url } => {
                t.append("UseBridges 1\n");
                t.append("Bridge meek_lite 0.0.2.0:2 url=");
                t.append(url.as_str());
                t.append("\n");
            },
            BridgeType::WebTunnel { url } => {
                t.append("UseBridges 1\n");
                t.append("Bridge webtunnel ");
                t.append(url.as_str());
                t.append("\n");
            },
        }
        proof {
            assert(t@ =~= with_exit + bridge_lines(c.bridge));
            assert(t@ =~= torrc_text(self.spec_config()));
        }
        t
    }
}


/// A call that bears on whether the proxy runs: an attempt to start its
/// process (`start_attempted`), stopping it (`stop`), or asking for a new
/// circuit (`new_circuit_request`).
#[derive(Debug, Clone, Copy, PartialEq, Eq, Structural)]
pub enum TorEvent {
    Start { spawned: bool },
    Stop,
    CircuitRenewed,
}

/// Whether event `e` starts a proxy in `mode`: a spawned process while Tor
/// is not disabled.
pub open spec fn starts(mode: TorMode, e: TorEvent) -> bool {
    e == TorEvent::Start { spawned: true } && mode != TorMode::Disabled
}

/// The running flag after one event, from `before`, in `mode`.
pub open spec fn running_after(before: bool, mode: TorMode, e: TorEvent) -> bool {
    if starts(mode, e) {
        true
    } else if e == TorEvent::Stop {
        false
    } else {
        before
    }
}

/// The running flag after `events` in `mode`, from `initial`: the last
/// successful start or stop decides, and with neither it stays `initial`.
pub open spec fn last_start_or_stop(initial: bool, mode: TorMode, events: Seq<TorEvent>) -> bool
    decreases events.len(),
{
    if events.len() == 0 {
        initial
    } else if starts(mode, events.last()) {
        true
    } else if events.last() == TorEvent::Stop {
        false
    } else {
        last_start_or_stop(initial, mode, events.drop_last())
    }
}

/// Over any sequence of calls on one proxy, each changing the running flag
/// as its own contract says (a spawned start sets it unless Tor is
/// disabled, `stop` clears it, a failed start and a circuit request keep
/// it), the proxy runs exactly when the last successful start or stop was a
/// start.  A proxy that was not running (as `new` makes it) and was never
/// started successfully is still not running; with Tor disabled it never
/// runs.
pub proof fn running_follows_the_last_start_or_stop(states: Seq<TorProxy>, events: Seq<TorEvent>)
    requires
        states.len() == events.len() + 1,
        forall|i: int| 0 <= i < events.len() ==> #[trigger] states[i + 1].spec_config() == states[i].spec_config(),
        forall|i: int| 0 <= i < events.len() ==>
            #[trigger] states[i + 1].spec_running() == running_after(states[i].spec_running(), states[i].spec_config().mode, events[i]),
    ensures
        states.last().spec_running() == last_start_or_stop(states[0].spec_running(), states[0].spec_config().mode, events),
        !states[0].spec_running() && (forall|i: int| 0 <= i < events.len() ==> !starts(states[0].spec_config().mode, #[trigger] events[i]))
            ==> !states.last().spec_running(),
        !states[0].spec_running() && states[0].spec_config().mode == TorMode::Disabled ==> !states.last().spec_running(),
    decreases events.len(),
{
    if events.len() > 0 {
        let n = events.len() - 1;
        let s2 = states.drop_last();
        let e2 = events.drop_last();
        assert forall|i: int| 0 <= i < e2.len() implies #[trigger] s2[i + 1].spec_config() == s2[i].spec_config() by {
            assert(states[i + 1].spec_config() == states[i].spec_config());
        }
        assert forall|i: int| 0 <= i < e2.len() implies #[trigger] s2[i + 1].spec_running()
            == running_after(s2[i].spec_running(), s2[i].spec_config().mode, e2[i]) by {
            assert(states[i + 1].spec_running() == running_after(states[i].spec_running(), states[i].spec_config().mode, events[i]));
        }
        running_follows_the_last_start_or_stop(s2, e2);
        assert forall|i: int| 0 <= i <= n implies #[trigger] states[i].spec_config() == states[0].spec_config() by {
            lemma_configs_constant(states, n, i);
        }
        assert(states[n + 1].spec_running() == running_after(states[n].spec_running(), states[n].spec_config().mode, events[n]));
        assert(s2.last() == states[n]);
        if !states[0].spec_running() && (forall|i: int| 0 <= i < events.len() ==> !starts(states[0].spec_config().mode, #[trigger] events[i])) {
            assert(!starts(states[0].spec_config().mode, events[n]));
            assert forall|i: int| 0 <= i < e2.len() implies !starts(states[0].spec_config().mode, #[trigger] e2[i]) by {
                assert(e2[i] == events[i]);
            }
        }
    }
}

proof fn lemma_configs_constant(states: Seq<TorProxy>, n: int, i: int)
    requires
        0 <= i <= n < states.len(),
        forall|j: int| 0 <= j < n ==> #[trigger] states[j + 1].spec_config() == states[j].spec_config(),
    ensures
        states[i].spec_config() == states[0].spec_config(),
    decreases i,
{
    if i > 0 {
        lemma_configs_constant(states, n, i - 1);
        assert(states[(i - 1) + 1].spec_config() == states[i - 1].spec_config());
    }
}

/// An `.onion` address goes through Tor in every mode but `Disabled`.
pub proof fn onion_addresses_use_tor_unless_disabled(mode: TorMode, url: &str)
    requires
        spec_is_onion(url),
        mode != TorMode::Disabled,
    ensures
        spec_should_proxy(mode, url),
{
}

/// With Tor disabled nothing goes through it.
pub proof fn disabled_tor_proxies_nothing(url: &str)
    ensures
        !spec_should_proxy(TorMode::Disabled, url),
{
}

} // verus!
