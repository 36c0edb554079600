//! What observability may record: which fields each privacy level lets
//! through, and the events of transports, security, privacy and
//! connections with the channel each is published on. Durations and
//! timestamps are milliseconds.

use vstd::prelude::*;
use crate::net::error::ErrorClass;
use crate::net::types::TransportType;
use crate::text::str_equal;
use crate::platform::fresh_uuid_value;

verus! {

/// Privacy levels for observability.
#[derive(Debug, Clone, Copy, PartialEq, Eq, Structural)]
pub enum PrivacyLevel {
    /// No special privacy requirements
    Unrestricted,
    /// Standard privacy (default)
    Standard,
    /// High privacy - minimal logging
    High,
    /// Maximum privacy - no identifying information
    Maximum,
}

/// Fields that are not logged at the standard privacy level.
pub open spec fn standard_private_field(f: Seq<char>) -> bool {
    f == "ip_address"@ || f == "user_id"@ || f == "email"@ || f == "phone"@ || f == "name"@ || f == "address"@
        || f == "credit_card"@ || f == "ssn"@ || f == "private_key"@ || f == "password"@
}

/// Fields that are logged at the high privacy level.
pub open spec fn high_allowed_field(f: Seq<char>) -> bool {
    f == "timestamp"@ || f == "duration"@ || f == "count"@ || f == "error_type"@ || f == "protocol"@
        || f == "transport_type"@
}

/// Fields that are logged at the maximum privacy level.
pub open spec fn maximum_allowed_field(f: Seq<char>) -> bool {
    f == "timestamp"@ || f == "count"@
}

impl PrivacyLevel {
    pub open spec fn logs_field(&self, f: Seq<char>) -> bool {
        match self {
            PrivacyLevel::Unrestricted => true,
            PrivacyLevel::Standard => !standard_private_field(f),
            PrivacyLevel::High => high_allowed_field(f),
            PrivacyLevel::Maximum => maximum_allowed_field(f),
        }
    }

    /// Checks if a field should be logged at this privacy level.
    pub fn should_log_field(&self, field: &str) -> (r: bool)
        ensures
            r == self.logs_field(field@),
    {
        match self {
            PrivacyLevel::Unrestricted => true,
            PrivacyLevel::Standard => !(str_equal(field, "ip_address") || str_equal(field, "user_id") || str_equal(
                field,
                "email",
            ) || str_equal(field, "phone") || str_equal(field, "name") || str_equal(field, "address") || str_equal(
                field,
                "credit_card",
            ) || str_equal(field, "ssn") || str_equal(field, "private_key") || str_equal(field, "password")),
            PrivacyLevel::High => str_equal(field, "timestamp") || str_equal(field, "duration") || str_equal(
                field,
                "count",
            ) || str_equal(field, "error_type") || str_equal(field, "protocol") || str_equal(field, "transport_type"),
            PrivacyLevel::Maximum => str_equal(field, "timestamp") || str_equal(field, "count"),
        }
    }

    /// Checks if metrics should be collected at this privacy level.
    pub fn should_collect_metrics(&self) -> (r: bool)
        ensures
            r == !(self is Maximum),
    {
        match self {
            PrivacyLevel::Unrestricted | PrivacyLevel::Standard => true,
            PrivacyLevel::High => true,
            PrivacyLevel::Maximum => false,
        }
    }
}

/// A stricter level logs no field that a looser one keeps back.
pub proof fn stricter_levels_log_less(f: Seq<char>)
    ensures
        PrivacyLevel::Maximum.logs_field(f) ==> PrivacyLevel::High.logs_field(f),
        PrivacyLevel::High.logs_field(f) ==> PrivacyLevel::Standard.logs_field(f),
        PrivacyLevel::Standard.logs_field(f) ==> PrivacyLevel::Unrestricted.logs_field(f),
{
    if high_allowed_field(f) {
        lemma_not_private(f);
    }
}

proof fn lemma_not_private(f: Seq<char>)
    requires
        high_allowed_field(f),
    ensures
        !standard_private_field(f),
{
    reveal_strlit("timestamp");
    reveal_strlit("count");
    reveal_strlit("duration");
    reveal_strlit("error_type");
    reveal_strlit("protocol");
    reveal_strlit("transport_type");
    reveal_strlit("ip_address");
    reveal_strlit("user_id");
    reveal_strlit("email");
    reveal_strlit("phone");
    reveal_strlit("name");
    reveal_strlit("address");
    reveal_strlit("credit_card");
    reveal_strlit("ssn");
    reveal_strlit("private_key");
    reveal_strlit("password");
    let c = f[0];
    if f.len() == 8 {
        assert(c == 'd' || c == 'p');
        assert(f[1] == 'u' || f[1] == 'r');
        assert(f != "password"@) by {
            assert("password"@[1] == 'a');
        }
    } else if f.len() == 5 {
        assert(c == 'c');
        assert(f != "email"@) by {
            assert("email"@[0] == 'e');
        }
        assert(f != "phone"@) by {
            assert("phone"@[0] == 'p');
        }
    } else if f.len() == 10 {
        assert(c == 'e');
        assert(f != "ip_address"@) by {
            assert("ip_address"@[0] == 'i');
        }
    }
}

/// Transport events.
#[derive(Debug, Clone)]
pub enum TransportEvent {
    /// Transport registered
    TransportRegistered { transport_type: String },
    /// Connection attempt started, to an anonymized peer
    ConnectionAttempt { peer: String, timestamp: u64, transport_type: String },
    /// Connection established
    ConnectionEstablished { duration: u64, protocol_version: String },
    /// Connection failed
    ConnectionFailed { duration: u64, error_type: ErrorClass },
    /// Data sent
    DataSent { bytes: usize, duration: u64 },
    /// Data received
    DataReceived { bytes: usize },
}

impl TransportEvent {
    pub open spec fn channel(&self) -> Seq<char> {
        match self {
            TransportEvent::TransportRegistered { .. } => "transport.registered"@,
            TransportEvent::ConnectionAttempt { .. } => "connection.attempts"@,
            TransportEvent::ConnectionEstablished { .. } => "connection.established"@,
            TransportEvent::ConnectionFailed { .. } => "connection.failed"@,
            TransportEvent::DataSent { .. } => "data.sent"@,
            TransportEvent::DataReceived { .. } => "data.received"@,
        }
    }

    /// The channel the event is published on.
    pub fn channel_name(&self) -> (r: &'static str)
        ensures
            r@ == self.channel(),
    {
        match self {
            TransportEvent::TransportRegistered { .. } => "transport.registered",
            TransportEvent::ConnectionAttempt { .. } => "connection.attempts",
            TransportEvent::ConnectionEstablished { .. } => "connection.established",
            TransportEvent::ConnectionFailed { .. } => "connection.failed",
            TransportEvent::DataSent { .. } => "data.sent",
            TransportEvent::DataReceived { .. } => "data.received",
        }
    }
}

/// Security events.
#[derive(Debug, Clone)]
pub enum SecurityEvent {
    /// Handshake started
    HandshakeStarted { protocol: String, timestamp: u64 },
    /// Handshake completed
    HandshakeCompleted { duration: u64, cipher_suite: String },
    /// Authentication attempt
    AuthenticationAttempt { method: String, timestamp: u64 },
    /// Authentication result
    AuthenticationResult { success: bool, duration: u64 },
}

impl SecurityEvent {
    pub open spec fn channel(&self) -> Seq<char> {
        match self {
            SecurityEvent::HandshakeStarted { .. } => "handshake.started"@,
            SecurityEvent::HandshakeCompleted { .. } => "handshake.completed"@,
            SecurityEvent::AuthenticationAttempt { .. } => "auth.attempt"@,
            SecurityEvent::AuthenticationResult { .. } => "auth.result"@,
        }
    }

    /// The channel the event is published on.
    pub fn channel_name(&self) -> (r: &'static str)
        ensures
            r@ == self.channel(),
    {
        match self {
            SecurityEvent::HandshakeStarted { .. } => "handshake.started",
            SecurityEvent::HandshakeCompleted { .. } => "handshake.completed",
            SecurityEvent::AuthenticationAttempt { .. } => "auth.attempt",
            SecurityEvent::AuthenticationResult { .. } => "auth.result",
        }
    }
}

/// Privacy events.
#[derive(Debug, Clone)]
pub enum PrivacyEvent {
    /// Anonymous route created
    AnonymousRouteCreated { hop_count: usize, timestamp: u64 },
    /// Mix packet sent
    MixPacketSent { layer_count: usize },
    /// Cover traffic generated
    CoverTrafficGenerated { bytes: usize },
}

impl PrivacyEvent {
    pub open spec fn channel(&self) -> Seq<char> {
        match self {
            PrivacyEvent::AnonymousRouteCreated { .. } => "route.created"@,
            PrivacyEvent::MixPacketSent { .. } => "mix.sent"@,
            PrivacyEvent::CoverTrafficGenerated { .. } => "cover.generated"@,
        }
    }

    /// The channel the event is published on.
    pub fn channel_name(&self) -> (r: &'static str)
        ensures
            r@ == self.channel(),
    {
        match self {
            PrivacyEvent::AnonymousRouteCreated { .. } => "route.created",
            PrivacyEvent::MixPacketSent { .. } => "mix.sent",
            PrivacyEvent::CoverTrafficGenerated { .. } => "cover.generated",
        }
    }
}

/// Connection events.
#[derive(Debug, Clone)]
pub enum ConnectionEvent {
    /// Connection opened
    Opened { connection_id: String, transport: TransportType },
    /// Connection closed
    Closed { connection_id: String, reason: String, duration: u64 },
    /// Connection metrics update
    MetricsUpdate { connection_id: String, bytes_sent: u64, bytes_received: u64, rtt_ms: Option<u64> },
}

impl ConnectionEvent {
    pub open spec fn channel(&self) -> Seq<char> {
        match self {
            ConnectionEvent::Opened { .. } => "opened"@,
            ConnectionEvent::Closed { .. } => "closed"@,
            ConnectionEvent::MetricsUpdate { .. } => "metrics"@,
        }
    }

    /// The channel the event is published on.
    pub fn channel_name(&self) -> (r: &'static str)
        ensures
            r@ == self.channel(),
    {
        match self {
            ConnectionEvent::Opened { .. } => "opened",
            ConnectionEvent::Closed { .. } => "closed",
            ConnectionEvent::MetricsUpdate { .. } => "metrics",
        }
    }
}


/// The texts of baggage items.
pub open spec fn baggage_view(b: Seq<(String, String)>) -> Seq<(Seq<char>, Seq<char>)> {
    b.map_values(|kv: (String, String)| (kv.0@, kv.1@))
}

/// No two baggage items share a key.
pub open spec fn distinct_keys(b: Seq<(Seq<char>, Seq<char>)>) -> bool {
    forall|i: int, j: int| 0 <= i < j < b.len() ==> (#[trigger] b[i]).0 != (#[trigger] b[j]).0
}

/// Some baggage item has key `k`.
pub open spec fn has_key(b: Seq<(Seq<char>, Seq<char>)>, k: Seq<char>) -> bool {
    exists|i: int| 0 <= i < b.len() && (#[trigger] b[i]).0 == k
}

/// The position of the item with key `k`.
pub open spec fn key_slot(b: Seq<(Seq<char>, Seq<char>)>, k: Seq<char>) -> int {
    choose|i: int| 0 <= i < b.len() && (#[trigger] b[i]).0 == k
}

/// Context for observability operations: a trace, a span in it, the
/// span's parent, baggage carried along, and a privacy level.
#[derive(Debug)]
pub struct ObservabilityContext {
    /// Trace ID for distributed tracing
    pub trace_id: u128,
    /// Span ID for this operation
    pub span_id: u128,
    /// Parent span ID if this is a child operation
    pub parent_span: Option<u128>,
    /// Baggage items (key and value, keys unique) for context propagation
    pub baggage: Vec<(String, String)>,
    /// Privacy level for this context
    pub privacy_level: PrivacyLevel,
}

/// A copy of a text.
fn copy_string(s: &String) -> (r: String)
    ensures
        r@ == s@,
{
    let mut r = String::from_str("");
    proof {
        reveal_strlit("");
    }
    r.append(s.as_str());
    assert(r@ =~= s@);
    r
}

impl ObservabilityContext {
    pub open spec fn wf(&self) -> bool {
        distinct_keys(baggage_view(self.baggage@))
    }

    /// A root context: fresh random trace and span ids, no parent, no
    /// baggage, standard privacy.
    pub fn new() -> (r: Self)
        ensures
            r.wf(),
            r.parent_span is None,
            r.baggage@.len() == 0,
            r.privacy_level == PrivacyLevel::Standard,
    {
        ObservabilityContext {
            trace_id: fresh_uuid_value(),
            span_id: fresh_uuid_value(),
            parent_span: None,
            baggage: Vec::new(),
            privacy_level: PrivacyLevel::Standard,
        }
    }

    /// A child context: the same trace, a fresh random span whose parent is
    /// this span, the same baggage and privacy level.
    pub fn child(&self) -> (r: Self)
        ensures
            r.trace_id == self.trace_id,
            r.parent_span == Some(self.span_id),
            baggage_view(r.baggage@) == baggage_view(self.baggage@),
            r.privacy_level == self.privacy_level,
    {
        let mut baggage: Vec<(String, String)> = Vec::new();
        let mut i: usize = 0;
        while i < self.baggage.len()
            invariant
                i <= self.baggage@.len(),
                baggage_view(baggage@) == baggage_view(self.baggage@).take(i as int),
            decreases self.baggage@.len() - i,
        {
            let ghost before = baggage@;
            let item = (copy_string(&self.baggage[i].0), copy_string(&self.baggage[i].1));
            baggage.push(item);
            assert(baggage_view(baggage@) =~= baggage_view(before).push(baggage_view(self.baggage@)[i as int]));
            assert(baggage_view(self.baggage@).take(i + 1) =~= baggage_view(self.baggage@).take(i as int).push(
                baggage_view(self.baggage@)[i as int],
            ));
            i = i + 1;
        }
        assert(baggage_view(self.baggage@).take(i as int) =~= baggage_view(self.baggage@));
        ObservabilityContext {
            trace_id: self.trace_id,
            span_id: fresh_uuid_value(),
            parent_span: Some(self.span_id),
            baggage,
            privacy_level: self.privacy_level,
        }
    }

    /// Sets the baggage item `key`, in place of an item of the same key or
    /// else after the others.
    pub fn add_baggage(&mut self, key: String, value: String)
        requires
            old(self).wf(),
        ensures
            final(self).wf(),
            final(self).trace_id == old(self).trace_id,
            final(self).span_id == old(self).span_id,
            final(self).parent_span == old(self).parent_span,
            final(self).privacy_level == old(self).privacy_level,
            baggage_view(final(self).baggage@) == if has_key(baggage_view(old(self).baggage@), key@) {
                baggage_view(old(self).baggage@).update(key_slot(baggage_view(old(self).baggage@), key@), (key@, value@))
            } else {
                baggage_view(old(self).baggage@).push((key@, value@))
            },
    {
        let ghost bv = baggage_view(self.baggage@);
        let ghost item = (key@, value@);
        let mut i: usize = 0;
        while i < self.baggage.len()
            invariant
                bv == baggage_view(self.baggage@),
                bv == baggage_view(old(self).baggage@),
                item == (key@, value@),
                distinct_keys(bv),
                self.trace_id == old(self).trace_id,
                self.span_id == old(self).span_id,
                self.parent_span == old(self).parent_span,
                self.privacy_level == old(self).privacy_level,
                i <= self.baggage@.len(),
                forall|j: int| 0 <= j < i ==> (#[trigger] bv[j]).0 != key@,
            decreases self.baggage@.len() - i,
        {
            if str_equal(self.baggage[i].0.as_str(), key.as_str()) {
                proof {
                    assert(bv[i as int].0 == key@);
                    assert(key_slot(bv, key@) == i as int);
                }
                let ghost old_items = self.baggage@;
                let pair = (key, value);
                assert(pair.0@ == item.0 && pair.1@ == item.1);
                self.baggage.set(i, pair);
                assert(self.baggage@ == old_items.update(i as int, pair));
                assert forall|j: int| 0 <= j < bv.len() implies #[trigger] baggage_view(self.baggage@)[j]
                    == bv.update(i as int, item)[j] by {
                    if j != i {
                        assert(self.baggage@[j] == old_items[j]);
                    }
                }
                assert(baggage_view(self.baggage@) =~= bv.update(i as int, item));
                assert forall|a: int, b: int| 0 <= a < b < baggage_view(self.baggage@).len() implies
                    (#[trigger] baggage_view(self.baggage@)[a]).0 != (#[trigger] baggage_view(self.baggage@)[b]).0 by {
                    if a != i && b != i {
                        assert(bv[a].0 != bv[b].0);
                    } else if a == i {
                        assert(bv[a].0 != bv[b].0);
                    } else {
                        assert(bv[a].0 != bv[b].0);
                    }
                }
                return;
            }
            i = i + 1;
        }
        self.baggage.push((key, value));
        assert(baggage_view(self.baggage@) =~= bv.push(item));
    }

    /// The context with privacy level `level`.
    pub fn with_privacy_level(self, level: PrivacyLevel) -> (r: Self)
        ensures
            r.trace_id == self.trace_id,
            r.span_id == self.span_id,
            r.parent_span == self.parent_span,
            baggage_view(r.baggage@) == baggage_view(self.baggage@),
            r.privacy_level == level,
    {
        let mut c = self;
        c.privacy_level = level;
        c
    }
}

impl Default for ObservabilityContext {
    fn default() -> (r: Self)
        ensures
            r.wf(),
            r.parent_span is None,
            r.baggage@.len() == 0,
            r.privacy_level == PrivacyLevel::Standard,
    {
        Self::new()
    }
}

} // verus!
