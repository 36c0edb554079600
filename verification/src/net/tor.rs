//! Tor bookkeeping: configuration, hidden services named by the hash of
//! their names, connection statistics, and onion address checks. Socket
//! addresses are held as their text (`host:port`); durations and times
//! are milliseconds.

use vstd::prelude::*;
use vstd::utf8::encode_utf8;
use crate::net::error::{NetworkError, PrivacyError};
use crate::net::privacy::{HiddenServiceState, TorStats, TorConnection};
use crate::net::crypto::certificates::{blake3_hash, blake3_digest};
use crate::net::crypto::session::push_text;
use crate::platform::{hex_char, now_millis};
use crate::text::{str_equal, append_decimal, decimal_chars};

verus! {

/// Hidden service port mapping.
#[derive(Debug, Clone)]
pub struct HiddenServicePort {
    /// Virtual port (exposed on the hidden service)
    pub virtual_port: u16,
    /// Target address (where traffic is forwarded), as `host:port`
    pub target: String,
}

/// Tor integration configuration.
#[derive(Debug, Clone)]
pub struct TorConfig {
    /// SOCKS proxy address, as `host:port`
    pub socks_proxy: String,
    /// Control port address, as `host:port`
    pub control_port: Option<String>,
    /// Whether to use hidden services
    pub enable_hidden_services: bool,
    /// Hidden service port mappings
    pub hidden_service_ports: Vec<HiddenServicePort>,
    /// Connection timeout, in milliseconds
    pub connection_timeout_ms: u64,
}

impl TorConfig {
    /// The local Tor defaults: SOCKS on port 9050, control on 9051, no
    /// hidden services, a 30-second timeout.
    pub fn new() -> (r: Result<Self, NetworkError>)
        ensures
            r matches Ok(c) && {
                &&& c.socks_proxy@ == "127.0.0.1:9050"@
                &&& c.control_port matches Some(p) && p@ == "127.0.0.1:9051"@
                &&& !c.enable_hidden_services
                &&& c.hidden_service_ports@.len() == 0
                &&& c.connection_timeout_ms == 30_000
            },
    {
        Ok(TorConfig::default())
    }
}

impl Default for TorConfig {
    fn default() -> (r: Self)
        ensures
            r.socks_proxy@ == "127.0.0.1:9050"@,
            r.control_port matches Some(p) && p@ == "127.0.0.1:9051"@,
            !r.enable_hidden_services,
            r.hidden_service_ports@.len() == 0,
            r.connection_timeout_ms == 30_000,
    {
        TorConfig {
            socks_proxy: String::from_str("127.0.0.1:9050"),
            control_port: Some(String::from_str("127.0.0.1:9051")),
            enable_hidden_services: false,
            hidden_service_ports: Vec::new(),
            connection_timeout_ms: 30_000,
        }
    }
}

/// Hidden service information.
#[derive(Debug, Clone)]
pub struct HiddenService {
    /// Service name/identifier
    pub name: String,
    /// Onion address (e.g., "3g2upl4pq6kufc4m.onion")
    pub onion_address: String,
    /// Port mappings
    pub ports: Vec<HiddenServicePort>,
    /// Creation time, in milliseconds since the Unix epoch
    pub created_at: i64,
    /// Service state
    pub state: HiddenServiceState,
}

/// What a hidden service holds, as values: its name, address, ports (as
/// virtual port and target text), creation time and state.
pub struct HiddenServiceView {
    pub name: Seq<char>,
    pub onion_address: Seq<char>,
    pub ports: Seq<(u16, Seq<char>)>,
    pub created_at: i64,
    pub state: HiddenServiceState,
}

/// The views of port mappings.
pub open spec fn ports_view(ps: Seq<HiddenServicePort>) -> Seq<(u16, Seq<char>)> {
    ps.map_values(|p: HiddenServicePort| (p.virtual_port, p.target@))
}

impl View for HiddenService {
    type V = HiddenServiceView;

    open spec fn view(&self) -> HiddenServiceView {
        HiddenServiceView {
            name: self.name@,
            onion_address: self.onion_address@,
            ports: ports_view(self.ports@),
            created_at: self.created_at,
            state: self.state,
        }
    }
}

/// The views of hidden services.
pub open spec fn services_view(ss: Seq<HiddenService>) -> Seq<HiddenServiceView> {
    ss.map_values(|s: HiddenService| s@)
}

/// Lowercase hexadecimal text of bytes, two digits a byte, high first.
pub open spec fn hex_text(bs: Seq<u8>) -> Seq<char>
    decreases bs.len(),
{
    if bs.len() == 0 {
        Seq::empty()
    } else {
        hex_text(bs.drop_last()) + seq![hex_char(bs.last() as int / 16), hex_char(bs.last() as int % 16)]
    }
}

/// The onion address of a hidden service named `name`: the first 16 hex
/// digits of the BLAKE3 hash of the name, then `.onion`.
pub open spec fn onion_address_for(name: Seq<char>) -> Seq<char> {
    hex_text(blake3_digest(encode_utf8(name)).take(8)) + ".onion"@
}

/// Some service is named `name`.
pub open spec fn has_service(ss: Seq<HiddenServiceView>, name: Seq<char>) -> bool {
    exists|k: int| 0 <= k < ss.len() && (#[trigger] ss[k]).name == name
}

/// The position of the service named `name`.
pub open spec fn service_slot(ss: Seq<HiddenServiceView>, name: Seq<char>) -> int {
    choose|k: int| 0 <= k < ss.len() && (#[trigger] ss[k]).name == name
}

/// No two services share a name.
pub open spec fn distinct_names(ss: Seq<HiddenServiceView>) -> bool {
    forall|i: int, j: int| 0 <= i < j < ss.len() ==> (#[trigger] ss[i]).name != (#[trigger] ss[j]).name
}

/// The position of the first service from `i` on with address `addr`.
pub open spec fn first_with_address(ss: Seq<HiddenServiceView>, addr: Seq<char>, i: int) -> Option<int>
    decreases ss.len() - i,
{
    if i < 0 || i >= ss.len() {
        None
    } else if ss[i].onion_address == addr {
        Some(i)
    } else {
        first_with_address(ss, addr, i + 1)
    }
}

/// `ss` with the service named `s.name` replaced by `s`, or `s` added last.
pub open spec fn with_service(ss: Seq<HiddenServiceView>, s: HiddenServiceView) -> Seq<HiddenServiceView> {
    if has_service(ss, s.name) {
        ss.update(service_slot(ss, s.name), s)
    } else {
        ss.push(s)
    }
}

/// The services `ss` once the service `name` with `ports` is created at
/// `now`, at the onion address its name hashes to: it replaces a service of
/// the same name, and the first service at that address is marked running.
pub open spec fn services_with_created(
    ss: Seq<HiddenServiceView>,
    name: Seq<char>,
    ports: Seq<HiddenServicePort>,
    now: i64,
) -> Seq<HiddenServiceView> {
    mark_running(
        with_service(
            ss,
            HiddenServiceView {
                name,
                onion_address: onion_address_for(name),
                ports: ports_view(ports),
                created_at: now,
                state: HiddenServiceState::Starting,
            },
        ),
        onion_address_for(name),
    )
}

/// `ss` with the first service at address `addr` marked running.
pub open spec fn mark_running(ss: Seq<HiddenServiceView>, addr: Seq<char>) -> Seq<HiddenServiceView> {
    match first_with_address(ss, addr, 0) {
        Some(k) => ss.update(k, HiddenServiceView { state: HiddenServiceState::Running, ..ss[k] }),
        None => ss,
    }
}

/// `s` ends with `p`.
pub open spec fn ends_with(s: Seq<char>, p: Seq<char>) -> bool {
    p.len() <= s.len() && s.subrange(s.len() - p.len(), s.len() as int) == p
}

/// A letter or digit of ASCII.
pub open spec fn ascii_alphanumeric(c: char) -> bool {
    ('0' <= c <= '9') || ('a' <= c <= 'z') || ('A' <= c <= 'Z')
}

/// A well-formed onion address: at least 22 characters, ending in
/// `.onion`, made of ASCII letters, digits and dots.
pub open spec fn valid_onion_address(s: Seq<char>) -> bool {
    &&& ends_with(s, ".onion"@)
    &&& s.len() >= 22
    &&& forall|i: int| 0 <= i < s.len() ==> ascii_alphanumeric(#[trigger] s[i]) || s[i] == '.'
}

/// `s` with every trailing `p` cut off.
pub open spec fn trim_suffixes(s: Seq<char>, p: Seq<char>) -> Seq<char>
    decreases s.len(),
{
    if p.len() > 0 && ends_with(s, p) {
        trim_suffixes(s.subrange(0, s.len() - p.len()), p)
    } else {
        s
    }
}

/// The name given to the hidden service of a configured port.
pub open spec fn port_service_name(port: u16) -> Seq<char> {
    "service_"@ + decimal_chars(port as nat)
}

/// Hex text has two characters a byte, each a digit or a letter from `a`
/// to `f`.
proof fn lemma_hex_text(bs: Seq<u8>)
    ensures
        hex_text(bs).len() == 2 * bs.len(),
        forall|i: int| 0 <= i < hex_text(bs).len() ==> ascii_alphanumeric(#[trigger] hex_text(bs)[i]),
    decreases bs.len(),
{
    if bs.len() > 0 {
        lemma_hex_text(bs.drop_last());
        let hi = bs.last() as int / 16;
        let lo = bs.last() as int % 16;
        lemma_hex_char(hi);
        lemma_hex_char(lo);
        let prev = hex_text(bs.drop_last());
        assert forall|i: int| 0 <= i < hex_text(bs).len() implies ascii_alphanumeric(#[trigger] hex_text(bs)[i]) by {
            if i < prev.len() {
                assert(hex_text(bs)[i] == prev[i]);
            }
        }
    }
}

/// A hex digit is a digit or a lowercase letter.
proof fn lemma_hex_char(d: int)
    requires
        0 <= d < 16,
    ensures
        ascii_alphanumeric(hex_char(d)),
{
    if d < 10 {
        assert('0' <= (48 + d) as char <= '9');
    } else {
        assert('a' <= (87 + d) as char <= 'z');
    }
}

/// The address of a name whose hash is 32 bytes is a well-formed onion
/// address: 16 hex digits and `.onion`, 22 characters.
proof fn lemma_address_valid(name: Seq<char>)
    requires
        blake3_digest(encode_utf8(name)).len() == 32,
    ensures
        valid_onion_address(onion_address_for(name)),
        onion_address_for(name).len() == 22,
{
    let h = blake3_digest(encode_utf8(name)).take(8);
    let a = onion_address_for(name);
    reveal_strlit(".onion");
    lemma_hex_text(h);
    assert(a.subrange(a.len() - 6, a.len() as int) =~= ".onion"@);
    assert forall|i: int| 0 <= i < a.len() implies ascii_alphanumeric(#[trigger] a[i]) || a[i] == '.' by {
        if i < 16 {
            assert(a[i] == hex_text(h)[i]);
        } else {
            assert(a[i] == ".onion"@[i - 16]);
        }
    }
}

/// Appends two lowercase hex digits of `b`, high first.
fn append_hex_byte(out: &mut String, b: u8)
    ensures
        final(out)@ == old(out)@ + seq![hex_char(b as int / 16), hex_char(b as int % 16)],
{
    let digits = "0123456789abcdef";
    proof {
        reveal_strlit("0123456789abcdef");
        assert forall|d: int| 0 <= d < 16 implies #[trigger] digits@[d] == hex_char(d) by {
            if d < 10 {
                assert(digits@[d] == (48 + d) as char);
            } else {
                assert(digits@[d] == (87 + d) as char);
            }
        }
    }
    let hi = (b / 16) as usize;
    let lo = (b % 16) as usize;
    let h = digits.substring_char(hi, hi + 1);
    let l = digits.substring_char(lo, lo + 1);
    assert(h@ =~= seq![hex_char(b as int / 16)]);
    assert(l@ =~= seq![hex_char(b as int % 16)]);
    out.append(h);
    out.append(l);
    assert(out@ =~= old(out)@ + seq![hex_char(b as int / 16), hex_char(b as int % 16)]);
}

/// The onion address of the hidden service named `name`.
fn generate_onion_address(name: &str) -> (r: String)
    ensures
        r@ == onion_address_for(name@),
        valid_onion_address(r@),
        r@.len() == 22,
{
    let mut bytes: Vec<u8> = Vec::new();
    push_text(&mut bytes, name);
    assert(bytes@ =~= encode_utf8(name@));
    let hash = blake3_hash(bytes.as_slice());
    let mut out = String::from_str("");
    proof {
        reveal_strlit("");
    }
    let mut i: usize = 0;
    while i < 8
        invariant
            i <= 8,
            hash@.len() == 32,
            hash@ == blake3_digest(encode_utf8(name@)),
            out@ == hex_text(hash@.take(i as int)),
        decreases 8 - i,
    {
        assert(hash@.take(i + 1).drop_last() =~= hash@.take(i as int));
        append_hex_byte(&mut out, hash[i]);
        i = i + 1;
    }
    out.append(".onion");
    proof {
        lemma_address_valid(name@);
    }
    out
}

/// A copy of a text.
fn copy_text(s: &String) -> (r: String)
    ensures
        r@ == s@,
{
    let mut r = String::from_str("");
    proof {
        reveal_strlit("");
    }
    r.append(s.as_str());
    assert(r@ =~= s@);
    r
}

/// A copy of port mappings.
fn copy_ports(ps: &Vec<HiddenServicePort>) -> (r: Vec<HiddenServicePort>)
    ensures
        ports_view(r@) == ports_view(ps@),
{
    let mut r: Vec<HiddenServicePort> = Vec::new();
    let mut i: usize = 0;
    while i < ps.len()
        invariant
            i <= ps@.len(),
            ports_view(r@) == ports_view(ps@).take(i as int),
        decreases ps@.len() - i,
    {
        let p = HiddenServicePort { virtual_port: ps[i].virtual_port, target: copy_text(&ps[i].target) };
        let ghost before = r@;
        let ghost pv = (ps@[i as int].virtual_port, ps@[i as int].target@);
        r.push(p);
        assert(ports_view(r@) =~= ports_view(before).push(pv));
        assert(ports_view(ps@).take(i + 1) =~= ports_view(ps@).take(i as int).push(pv));
        i = i + 1;
    }
    assert(ports_view(ps@).take(i as int) =~= ports_view(ps@));
    r
}

impl HiddenService {
    /// A copy of the service.
    pub fn copied(&self) -> (r: Self)
        ensures
            r@ == self@,
    {
        HiddenService {
            name: copy_text(&self.name),
            onion_address: copy_text(&self.onion_address),
            ports: copy_ports(&self.ports),
            created_at: self.created_at,
            state: self.state,
        }
    }
}

/// Tor connection manager.
pub struct TorManager {
    /// Configuration
    config: TorConfig,
    /// Active hidden services
    hidden_services: Vec<HiddenService>,
    /// Connection statistics
    stats: TorStats,
}

impl TorManager {
    /// Whether hidden services are enabled.
    pub closed spec fn hidden_services_enabled(&self) -> bool {
        self.config.enable_hidden_services
    }

    /// The configured hidden service ports.
    pub closed spec fn configured_ports(&self) -> Seq<(u16, Seq<char>)> {
        ports_view(self.config.hidden_service_ports@)
    }

    /// The hidden services, in order of creation.
    pub closed spec fn services(&self) -> Seq<HiddenServiceView> {
        services_view(self.hidden_services@)
    }

    /// The statistics.
    pub closed spec fn stats_spec(&self) -> TorStats {
        self.stats
    }

    /// Service names are unique.
    pub open spec fn wf(&self) -> bool {
        distinct_names(self.services())
    }

    /// Creates a Tor manager with no hidden services and zero statistics.
    pub fn new(config: TorConfig) -> (r: Self)
        ensures
            r.wf(),
            r.hidden_services_enabled() == config.enable_hidden_services,
            r.configured_ports() == ports_view(config.hidden_service_ports@),
            r.services().len() == 0,
            r.stats_spec() == TorStats::default_spec(),
    {
        let r = TorManager { config, hidden_services: Vec::new(), stats: TorStats::default() };
        assert(r.services() =~= Seq::<HiddenServiceView>::empty());
        r
    }

    /// A connection to `target` made at `now`, counted.
    pub fn connect_through_tor_at(&mut self, target: &str, now: i64) -> (r: Result<TorConnection, NetworkError>)
        requires
            old(self).stats_spec().connections_made < u64::MAX,
        ensures
            r matches Ok(c) && c.target@ == target@ && c.connected_at == now && c.bytes_sent == 0
                && c.bytes_received == 0,
            final(self).stats_spec() == (TorStats {
                connections_made: (old(self).stats_spec().connections_made + 1) as u64,
                ..old(self).stats_spec()
            }),
            final(self).services() == old(self).services(),
            final(self).hidden_services_enabled() == old(self).hidden_services_enabled(),
            final(self).configured_ports() == old(self).configured_ports(),
    {
        self.stats.connections_made = self.stats.connections_made + 1;
        Ok(TorConnection { target: String::from_str(target), connected_at: now, bytes_sent: 0, bytes_received: 0 })
    }

    /// A connection to `target` made now, counted.
    pub fn connect_through_tor(&mut self, target: &str) -> (r: Result<TorConnection, NetworkError>)
        requires
            old(self).stats_spec().connections_made < u64::MAX,
        ensures
            r matches Ok(c) && c.target@ == target@ && c.bytes_sent == 0 && c.bytes_received == 0,
            final(self).stats_spec() == (TorStats {
                connections_made: (old(self).stats_spec().connections_made + 1) as u64,
                ..old(self).stats_spec()
            }),
            final(self).services() == old(self).services(),
    {
        self.connect_through_tor_at(target, now_millis())
    }

    /// The position of the service named `name`.
    fn position(&self, name: &str) -> (r: Option<usize>)
        ensures
            match r {
                Some(k) => k < self.services().len() && self.services()[k as int].name == name@,
                None => !has_service(self.services(), name@),
            },
    {
        let mut i: usize = 0;
        while i < self.hidden_services.len()
            invariant
                i <= self.hidden_services@.len(),
                forall|j: int| 0 <= j < i ==> (#[trigger] self.services()[j]).name != name@,
            decreases self.hidden_services@.len() - i,
        {
            if str_equal(self.hidden_services[i].name.as_str(), name) {
                return Some(i);
            }
            i = i + 1;
        }
        None
    }

    /// The position of the first service with address `addr`.
    fn address_position(&self, addr: &str) -> (r: Option<usize>)
        ensures
            r matches Some(k) ==> first_with_address(self.services(), addr@, 0) == Some(k as int),
            r is None ==> first_with_address(self.services(), addr@, 0) is None,
    {
        let mut i: usize = 0;
        while i < self.hidden_services.len()
            invariant
                i <= self.hidden_services@.len(),
                first_with_address(self.services(), addr@, 0) == first_with_address(self.services(), addr@, i as int),
            decreases self.hidden_services@.len() - i,
        {
            if str_equal(self.hidden_services[i].onion_address.as_str(), addr) {
                return Some(i);
            }
            i = i + 1;
        }
        None
    }

    /// Creates the hidden service `name` at `now`, with the onion address
    /// that its name hashes to; a service of the same name is replaced. The
    /// service is counted and the first service at that address is marked
    /// running. Refused when hidden services are disabled.
    pub fn create_hidden_service_at(&mut self, name: String, ports: Vec<HiddenServicePort>, now: i64) -> (r: Result<
        String,
        NetworkError,
    >)
        requires
            old(self).wf(),
            old(self).stats_spec().hidden_services_created < u64::MAX,
        ensures
            final(self).wf(),
            final(self).hidden_services_enabled() == old(self).hidden_services_enabled(),
            final(self).configured_ports() == old(self).configured_ports(),
            !old(self).hidden_services_enabled() ==> (r matches Err(NetworkError::Privacy(PrivacyError::Tor(_)))
                && final(self).services() == old(self).services() && final(self).stats_spec()
                == old(self).stats_spec()),
            old(self).hidden_services_enabled() ==> {
                &&& r matches Ok(addr) && addr@ == onion_address_for(name@) && valid_onion_address(addr@)
                &&& final(self).services() == services_with_created(old(self).services(), name@, ports@, now)
                &&& final(self).stats_spec() == (TorStats {
                    hidden_services_created: (old(self).stats_spec().hidden_services_created + 1) as u64,
                    ..old(self).stats_spec()
                })
            },
    {
        if !self.config.enable_hidden_services {
            return Err(NetworkError::Privacy(PrivacyError::Tor(String::from_str("Hidden services not enabled"))));
        }
        let onion_address = generate_onion_address(name.as_str());
        let service = HiddenService {
            name: copy_text(&name),
            onion_address: copy_text(&onion_address),
            ports,
            created_at: now,
            state: HiddenServiceState::Starting,
        };
        let ghost ss = self.services();
        let ghost sv = service@;
        match self.position(name.as_str()) {
            Some(k) => {
                proof {
                    assert(ss[k as int].name == sv.name);
                    assert(service_slot(ss, sv.name) == k as int);
                }
                self.hidden_services.set(k, service);
                assert(self.services() =~= ss.update(k as int, sv));
            },
            None => {
                self.hidden_services.push(service);
                assert(self.services() =~= ss.push(sv));
            },
        }
        assert(self.services() == with_service(ss, sv));
        self.stats.hidden_services_created = self.stats.hidden_services_created + 1;
        let ghost ws = self.services();
        proof {
            lemma_first_with_address(ws, onion_address@, 0);
        }
        match self.address_position(onion_address.as_str()) {
            Some(k) => {
                let mut s = self.hidden_services[k].copied();
                s.state = HiddenServiceState::Running;
                let ghost nv = s@;
                self.hidden_services.set(k, s);
                assert(self.services() =~= ws.update(k as int, nv));
            },
            None => {},
        }
        Ok(onion_address)
    }

    /// Creates the hidden service `name` now.
    pub fn create_hidden_service(&mut self, name: String, ports: Vec<HiddenServicePort>) -> (r: Result<String, NetworkError>)
        requires
            old(self).wf(),
            old(self).stats_spec().hidden_services_created < u64::MAX,
        ensures
            final(self).wf(),
            final(self).hidden_services_enabled() == old(self).hidden_services_enabled(),
            final(self).configured_ports() == old(self).configured_ports(),
            !old(self).hidden_services_enabled() ==> (r matches Err(NetworkError::Privacy(PrivacyError::Tor(_)))
                && final(self).services() == old(self).services() && final(self).stats_spec()
                == old(self).stats_spec()),
            old(self).hidden_services_enabled() ==> {
                &&& r matches Ok(addr) && addr@ == onion_address_for(name@) && valid_onion_address(addr@)
                &&& exists|now: i64| final(self).services() == #[trigger] services_with_created(
                    old(self).services(),
                    name@,
                    ports@,
                    now,
                )
                &&& final(self).stats_spec() == (TorStats {
                    hidden_services_created: (old(self).stats_spec().hidden_services_created + 1) as u64,
                    ..old(self).stats_spec()
                })
            },
    {
        let now = now_millis();
        let ghost ps = ports@;
        let r = self.create_hidden_service_at(name, ports, now);
        assert(old(self).hidden_services_enabled() ==> self.services() == services_with_created(
            old(self).services(),
            name@,
            ps,
            now,
        ));
        r
    }

    /// Removes the hidden service `name`, if there is one.
    pub fn destroy_hidden_service(&mut self, name: &str) -> (r: Result<(), NetworkError>)
        requires
            old(self).wf(),
        ensures
            r is Ok,
            final(self).wf(),
            final(self).stats_spec() == old(self).stats_spec(),
            final(self).hidden_services_enabled() == old(self).hidden_services_enabled(),
            final(self).configured_ports() == old(self).configured_ports(),
            final(self).services() == if has_service(old(self).services(), name@) {
                old(self).services().remove(service_slot(old(self).services(), name@))
            } else {
                old(self).services()
            },
    {
        let ghost ss = self.services();
        match self.position(name) {
            Some(k) => {
                proof {
                    assert(service_slot(ss, name@) == k as int);
                }
                self.hidden_services.remove(k);
                assert(self.services() =~= ss.remove(k as int));
                assert forall|i: int, j: int| 0 <= i < j < self.services().len() implies
                    (#[trigger] self.services()[i]).name != (#[trigger] self.services()[j]).name by {
                    let a = if i < k { i } else { i + 1 };
                    let b = if j < k { j } else { j + 1 };
                    assert(ss[a] == self.services()[i]);
                    assert(ss[b] == self.services()[j]);
                }
            },
            None => {},
        }
        Ok(())
    }

    /// Copies of the hidden services, in order of creation.
    pub fn list_hidden_services(&self) -> (r: Vec<HiddenService>)
        ensures
            services_view(r@) == self.services(),
    {
        let mut r: Vec<HiddenService> = Vec::new();
        let mut i: usize = 0;
        while i < self.hidden_services.len()
            invariant
                i <= self.hidden_services@.len(),
                services_view(r@) == self.services().take(i as int),
            decreases self.hidden_services@.len() - i,
        {
            let ghost before = r@;
            let c = self.hidden_services[i].copied();
            assert(c@ == self.services()[i as int]);
            r.push(c);
            assert(services_view(r@) =~= services_view(before).push(self.services()[i as int]));
            assert(self.services().take(i + 1) =~= self.services().take(i as int).push(self.services()[i as int]));
            i = i + 1;
        }
        assert(self.services().take(i as int) =~= self.services());
        r
    }

    /// The statistics.
    pub fn get_stats(&self) -> (r: TorStats)
        ensures
            r == self.stats_spec(),
    {
        self.stats
    }

    /// Creates the hidden service of each configured port at `now`, named
    /// `service_` and the port number, with that port alone; stops at the
    /// first refusal.
    pub fn initialize_hidden_services_at(&mut self, now: i64) -> (r: Result<(), NetworkError>)
        requires
            old(self).wf(),
            old(self).stats_spec().hidden_services_created + old(self).configured_ports().len() <= u64::MAX,
        ensures
            final(self).wf(),
            final(self).hidden_services_enabled() == old(self).hidden_services_enabled(),
            final(self).configured_ports() == old(self).configured_ports(),
            !old(self).hidden_services_enabled() && old(self).configured_ports().len() > 0 ==> r is Err,
            old(self).hidden_services_enabled() ==> r is Ok && final(self).stats_spec().hidden_services_created
                == old(self).stats_spec().hidden_services_created + old(self).configured_ports().len(),
            old(self).hidden_services_enabled() ==> forall|i: int|
                0 <= i < old(self).configured_ports().len() ==> has_service(
                    final(self).services(),
                    port_service_name(#[trigger] old(self).configured_ports()[i].0),
                ),
    {
        let n = self.config.hidden_service_ports.len();
        let ghost ports = self.configured_ports();
        let mut i: usize = 0;
        while i < n
            invariant
                self.wf(),
                n == ports.len(),
                i <= n,
                self.configured_ports() == ports,
                self.hidden_services_enabled() == old(self).hidden_services_enabled(),
                ports == old(self).configured_ports(),
                self.stats_spec().hidden_services_created == old(self).stats_spec().hidden_services_created + i,
                !self.hidden_services_enabled() ==> i == 0,
                old(self).stats_spec().hidden_services_created + n <= u64::MAX,
                forall|j: int| 0 <= j < i ==> has_service(self.services(), port_service_name(#[trigger] ports[j].0)),
            decreases n - i,
        {
            let port = self.config.hidden_service_ports[i].virtual_port;
            let mut name = String::from_str("service_");
            append_decimal(&mut name, port as usize);
            let mapping = HiddenServicePort {
                virtual_port: port,
                target: copy_text(&self.config.hidden_service_ports[i].target),
            };
            let ghost before = self.services();
            let ghost nm = name@;
            proof {
                reveal_strlit("service_");
                assert(ports[i as int].0 == port);
                assert(nm =~= port_service_name(port));
            }
            match self.create_hidden_service_at(name, vec![mapping], now) {
                Ok(_) => {},
                Err(e) => {
                    return Err(e);
                },
            }
            proof {
                lemma_created_service_present(before, nm, self.services(), now);
                assert forall|j: int| 0 <= j < i + 1 implies has_service(
                    self.services(),
                    port_service_name(#[trigger] ports[j].0),
                ) by {
                    if j < i {
                        lemma_names_kept(before, self.services(), port_service_name(ports[j].0));
                    }
                }
            }
            i = i + 1;
        }
        Ok(())
    }

    /// Counts data sent.
    pub fn record_sent_data(&mut self, bytes: u64)
        requires
            old(self).stats_spec().bytes_sent + bytes <= u64::MAX,
        ensures
            final(self).stats_spec() == (TorStats {
                bytes_sent: (old(self).stats_spec().bytes_sent + bytes) as u64,
                ..old(self).stats_spec()
            }),
            final(self).services() == old(self).services(),
            final(self).hidden_services_enabled() == old(self).hidden_services_enabled(),
            final(self).configured_ports() == old(self).configured_ports(),
    {
        self.stats.bytes_sent = self.stats.bytes_sent + bytes;
    }

    /// Counts data received.
    pub fn record_received_data(&mut self, bytes: u64)
        requires
            old(self).stats_spec().bytes_received + bytes <= u64::MAX,
        ensures
            final(self).stats_spec() == (TorStats {
                bytes_received: (old(self).stats_spec().bytes_received + bytes) as u64,
                ..old(self).stats_spec()
            }),
            final(self).services() == old(self).services(),
            final(self).hidden_services_enabled() == old(self).hidden_services_enabled(),
            final(self).configured_ports() == old(self).configured_ports(),
    {
        self.stats.bytes_received = self.stats.bytes_received + bytes;
    }

    /// Counts a failed connection attempt.
    pub fn record_failed_connection(&mut self)
        requires
            old(self).stats_spec().failed_connections < u64::MAX,
        ensures
            final(self).stats_spec() == (TorStats {
                failed_connections: (old(self).stats_spec().failed_connections + 1) as u64,
                ..old(self).stats_spec()
            }),
            final(self).services() == old(self).services(),
            final(self).hidden_services_enabled() == old(self).hidden_services_enabled(),
            final(self).configured_ports() == old(self).configured_ports(),
    {
        self.stats.failed_connections = self.stats.failed_connections + 1;
    }

    /// Whether `address` is a well-formed onion address.
    pub fn validate_onion_address(address: &str) -> (r: bool)
        ensures
            r == valid_onion_address(address@),
    {
        let n = address.unicode_len();
        if !text_ends_with(address, ".onion") {
            return false;
        }
        if n < 22 {
            return false;
        }
        let mut i: usize = 0;
        while i < n
            invariant
                n == address@.len(),
                i <= n,
                forall|j: int| 0 <= j < i ==> ascii_alphanumeric(#[trigger] address@[j]) || address@[j] == '.',
            decreases n - i,
        {
            let c = address.get_char(i);
            if !(('0' <= c && c <= '9') || ('a' <= c && c <= 'z') || ('A' <= c && c <= 'Z') || c == '.') {
                return false;
            }
            i = i + 1;
        }
        true
    }

    /// The service name of a well-formed onion address: the address with
    /// every trailing `.onion` cut off.
    pub fn extract_service_name(onion_address: &str) -> (r: Option<String>)
        ensures
            valid_onion_address(onion_address@) ==> (r matches Some(s) && s@ == trim_suffixes(
                onion_address@,
                ".onion"@,
            )),
            !valid_onion_address(onion_address@) ==> r is None,
    {
        if !Self::validate_onion_address(onion_address) {
            return None;
        }
        proof {
            reveal_strlit(".onion");
        }
        let mut end = onion_address.unicode_len();
        assert(onion_address@.subrange(0, end as int) =~= onion_address@);
        loop
            invariant
                valid_onion_address(onion_address@),
                end <= onion_address@.len(),
                trim_suffixes(onion_address@, ".onion"@) == trim_suffixes(onion_address@.subrange(0, end as int), ".onion"@),
            decreases end,
        {
            proof {
                reveal_strlit(".onion");
            }
            let prefix = onion_address.substring_char(0, end);
            if end >= 6 && text_ends_with(prefix, ".onion") {
                assert(".onion"@.len() == 6);
                assert(trim_suffixes(prefix@, ".onion"@) == trim_suffixes(prefix@.subrange(0, prefix@.len() - 6), ".onion"@));
                assert(prefix@.subrange(0, end - 6) =~= onion_address@.subrange(0, end - 6));
                end = end - 6;
            } else {
                let s = String::from_str(prefix);
                return Some(s);
            }
        }
    }
}

/// After a service named `name` is created, a service of that name exists.
proof fn lemma_created_service_present(before: Seq<HiddenServiceView>, name: Seq<char>, after: Seq<HiddenServiceView>, now: i64)
    requires
        exists|s: HiddenServiceView| s.name == name && after == mark_running(#[trigger] with_service(before, s), s.onion_address),
    ensures
        has_service(after, name),
{
    let s = choose|s: HiddenServiceView| s.name == name && after == mark_running(#[trigger] with_service(before, s), s.onion_address);
    let w = with_service(before, s);
    let k: int = if has_service(before, name) { service_slot(before, name) } else { before.len() as int };
    assert(w[k].name == name);
    lemma_first_with_address(w, s.onion_address, 0);
    assert(after[k].name == name);
}

/// Creating services keeps every name that was there.
proof fn lemma_names_kept(before: Seq<HiddenServiceView>, after: Seq<HiddenServiceView>, name: Seq<char>)
    requires
        has_service(before, name),
        exists|s: HiddenServiceView| after == mark_running(#[trigger] with_service(before, s), s.onion_address),
    ensures
        has_service(after, name),
{
    let s = choose|s: HiddenServiceView| after == mark_running(#[trigger] with_service(before, s), s.onion_address);
    let w = with_service(before, s);
    let k = service_slot(before, name);
    if s.name == name {
        let m: int = service_slot(before, s.name);
        assert(w[m].name == name);
        lemma_first_with_address(w, s.onion_address, 0);
        assert(after[m].name == name);
    } else {
        assert(w[k].name == name);
        lemma_first_with_address(w, s.onion_address, 0);
        assert(after[k].name == name);
    }
}

/// The first service with an address is within range.
proof fn lemma_first_with_address(ss: Seq<HiddenServiceView>, addr: Seq<char>, i: int)
    ensures
        first_with_address(ss, addr, i) matches Some(k) ==> 0 <= k < ss.len() && ss[k].onion_address == addr,
    decreases ss.len() - i,
{
    if 0 <= i < ss.len() && ss[i].onion_address != addr {
        lemma_first_with_address(ss, addr, i + 1);
    }
}

/// Whether `s` ends with `p`.
fn text_ends_with(s: &str, p: &str) -> (r: bool)
    ensures
        r == ends_with(s@, p@),
{
    let n = s.unicode_len();
    let m = p.unicode_len();
    if m > n {
        return false;
    }
    let mut i: usize = 0;
    while i < m
        invariant
            n == s@.len(),
            m == p@.len(),
            m <= n,
            i <= m,
            forall|j: int| 0 <= j < i ==> s@[n - m + j] == p@[j],
        decreases m - i,
    {
        if s.get_char(n - m + i) != p.get_char(i) {
            assert(s@.subrange(n - m, n as int)[i as int] != p@[i as int]);
            return false;
        }
        i = i + 1;
    }
    assert(s@.subrange(n - m, n as int) =~= p@);
    true
}

impl Default for TorManager {
    fn default() -> (r: Self)
        ensures
            r.wf(),
            !r.hidden_services_enabled(),
            r.services().len() == 0,
            r.stats_spec() == TorStats::default_spec(),
    {
        Self::new(TorConfig::default())
    }
}

} // verus!
