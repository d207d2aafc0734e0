//! Network ADB connections: endpoints typed by the user or discovered, the
//! most-recently-used list of endpoints, and the adb status reports.

use vstd::prelude::*;

use crate::device::{BridgeError, ErrorCode};
use crate::text::{chars_of, decimal, decimal_chars, parse_u16, parsed_u16, push_char, push_chars, string_of, trim, trimmed};

verus! {

/// How many recently connected endpoints are remembered.
pub const MAX_RECENT_ENDPOINTS: usize = 8;

/// A `host:port` an adb server can connect to.
#[derive(Clone, Debug, PartialEq, Eq)]
pub struct AdbEndpoint {
    pub host: String,
    pub port: u16,
}

impl View for AdbEndpoint {
    type V = (Seq<char>, u16);

    open spec fn view(&self) -> (Seq<char>, u16) {
        (self.host@, self.port)
    }
}

/// The endpoints of a list, as plain values.
pub open spec fn endpoint_views(endpoints: Seq<AdbEndpoint>) -> Seq<(Seq<char>, u16)> {
    endpoints.map_values(|e: AdbEndpoint| e@)
}

/// The endpoint an input names: the host without surrounding white space,
/// which must not be empty.
pub open spec fn endpoint_of(host: Seq<char>, port: u16) -> Option<(Seq<char>, u16)> {
    if trim(host).len() > 0 {
        Some((trim(host), port))
    } else {
        None
    }
}

/// `host:port`, as the connection list shows an endpoint.
pub open spec fn endpoint_text(endpoint: (Seq<char>, u16)) -> Seq<char> {
    endpoint.0 + seq![':'] + decimal(endpoint.1 as nat)
}

impl AdbEndpoint {
    /// An endpoint for `host` and `port`; a blank host is refused.
    ///
    /// The rule is an assumption of this library: the host is kept without
    /// surrounding white space and must not be empty, any port is accepted,
    /// and a refusal carries the key `adb.endpoint.host_invalid` with no
    /// detail. Nothing checks the host further (such as its syntax).
    pub fn new(host: &str, port: u16) -> (endpoint: Result<AdbEndpoint, BridgeError>)
        ensures
            match endpoint {
                Ok(e) => endpoint_of(host@, port) == Some(e@),
                Err(error) => endpoint_of(host@, port) is None && error.code == ErrorCode::InvalidInput
                    && error.message_key@ == "adb.endpoint.host_invalid"@ && error.detail@.len() == 0,
            },
    {
        let host = trimmed(host);
        if host.as_str().unicode_len() == 0 {
            return Err(BridgeError::invalid_input("adb.endpoint.host_invalid"));
        }
        Ok(AdbEndpoint { host, port })
    }

    /// A copy of the endpoint.
    pub fn duplicate(&self) -> (copy: Self)
        ensures
            copy@ == self@,
    {
        AdbEndpoint { host: self.host.clone(), port: self.port }
    }

    /// Whether both name the same host and port.
    pub fn same_as(&self, other: &AdbEndpoint) -> (same: bool)
        ensures
            same == (self@ == other@),
    {
        self.port == other.port && self.host == other.host
    }

    /// `host:port`.
    pub fn text(&self) -> (text: String)
        ensures
            text@ == endpoint_text(self@),
    {
        let mut text = self.host.clone();
        push_char(&mut text, ':');
        let digits = decimal_chars(self.port as u64);
        push_chars(&mut text, digits.as_slice());
        text
    }
}

/// The list after connecting to `endpoint`: it moves to the front, earlier
/// mentions of it go, and only the most recent ones are kept.
pub open spec fn remembered(recent: Seq<(Seq<char>, u16)>, endpoint: (Seq<char>, u16)) -> Seq<
    (Seq<char>, u16),
> {
    let all = seq![endpoint] + forgotten(recent, endpoint);
    if all.len() <= MAX_RECENT_ENDPOINTS {
        all
    } else {
        all.take(MAX_RECENT_ENDPOINTS as int)
    }
}

/// The list without `endpoint`.
pub open spec fn forgotten(recent: Seq<(Seq<char>, u16)>, endpoint: (Seq<char>, u16)) -> Seq<
    (Seq<char>, u16),
> {
    recent.filter(other_than(endpoint))
}

/// The test "is not `endpoint`".
pub open spec fn other_than(endpoint: (Seq<char>, u16)) -> spec_fn((Seq<char>, u16)) -> bool {
    |known: (Seq<char>, u16)| known != endpoint
}

fn copy_endpoints_except(recent: &Vec<AdbEndpoint>, endpoint: &AdbEndpoint) -> (rest: Vec<AdbEndpoint>)
    ensures
        endpoint_views(rest@) == forgotten(endpoint_views(recent@), endpoint@),
{
    let ghost all = endpoint_views(recent@);
    let ghost keep = other_than(endpoint@);
    let mut rest: Vec<AdbEndpoint> = Vec::new();
    let mut k: usize = 0;
    while k < recent.len()
        invariant
            k <= recent@.len(),
            all == endpoint_views(recent@),
            keep == other_than(endpoint@),
            endpoint_views(rest@) == all.take(k as int).filter(keep),
        decreases recent@.len() - k,
    {
        let ghost before = endpoint_views(rest@);
        if !recent[k].same_as(endpoint) {
            rest.push(recent[k].duplicate());
            assert(endpoint_views(rest@) =~= before.push(all[k as int]));
        }
        proof {
            reveal(Seq::filter);
            assert(all.take(k + 1).drop_last() =~= all.take(k as int));
            assert(all.take(k + 1).last() == all[k as int]);
        }
        k = k + 1;
    }
    assert(all.take(recent@.len() as int) =~= all);
    rest
}

/// Records a successful connection in the most-recently-used list.
pub fn remember_endpoint(recent: &mut Vec<AdbEndpoint>, endpoint: AdbEndpoint)
    ensures
        endpoint_views(final(recent)@) == remembered(endpoint_views(old(recent)@), endpoint@),
{
    let rest = copy_endpoints_except(recent, &endpoint);
    let ghost front = endpoint@;
    let mut list: Vec<AdbEndpoint> = Vec::new();
    list.push(endpoint);
    let mut k: usize = 0;
    while k < rest.len() && list.len() < MAX_RECENT_ENDPOINTS
        invariant
            k <= rest@.len(),
            list@.len() == k + 1,
            list@.len() <= MAX_RECENT_ENDPOINTS,
            endpoint_views(list@) == seq![front] + endpoint_views(rest@).take(k as int),
        decreases rest@.len() - k,
    {
        let ghost before = endpoint_views(list@);
        list.push(rest[k].duplicate());
        assert(endpoint_views(list@) =~= before.push(endpoint_views(rest@)[k as int]));
        assert(endpoint_views(rest@).take(k + 1) =~= endpoint_views(rest@).take(k as int).push(
            endpoint_views(rest@)[k as int],
        ));
        k = k + 1;
    }
    proof {
        let all = seq![front] + endpoint_views(rest@);
        if all.len() <= MAX_RECENT_ENDPOINTS {
            assert(endpoint_views(rest@).take(k as int) =~= endpoint_views(rest@));
            assert(endpoint_views(list@) =~= all);
        } else {
            assert(k == MAX_RECENT_ENDPOINTS - 1);
            assert(endpoint_views(list@) =~= all.take(MAX_RECENT_ENDPOINTS as int));
        }
    }
    *recent = list;
}

proof fn lemma_filter_keeps_all(s: Seq<(Seq<char>, u16)>, f: spec_fn((Seq<char>, u16)) -> bool)
    requires
        forall|i: int| 0 <= i < s.len() ==> f(#[trigger] s[i]),
    ensures
        s.filter(f) == s,
    decreases s.len(),
{
    reveal(Seq::filter);
    if s.len() > 0 {
        lemma_filter_keeps_all(s.drop_last(), f);
        assert(s.drop_last().push(s.last()) =~= s);
    } else {
        assert(s.filter(f) =~= s);
    }
}

proof fn lemma_filter_distinct(s: Seq<(Seq<char>, u16)>, f: spec_fn((Seq<char>, u16)) -> bool)
    requires
        s.no_duplicates(),
    ensures
        s.filter(f).no_duplicates(),
    decreases s.len(),
{
    reveal(Seq::filter);
    if s.len() > 0 {
        let rest = s.drop_last();
        assert(rest.no_duplicates()) by {
            assert forall|i: int, j: int| 0 <= i < rest.len() && 0 <= j < rest.len() && i != j implies rest[i]
                != rest[j] by {
                assert(rest[i] == s[i] && rest[j] == s[j]);
            }
        }
        lemma_filter_distinct(rest, f);
        if f(s.last()) {
            let kept = rest.filter(f);
            assert(!kept.contains(s.last())) by {
                if kept.contains(s.last()) {
                    rest.lemma_filter_contains_rev(f, s.last());
                    let i = choose|i: int| 0 <= i < rest.len() && rest[i] == s.last();
                    assert(s[i] == s[s.len() - 1]);
                }
            }
            assert forall|i: int, j: int|
                0 <= i < kept.push(s.last()).len() && 0 <= j < kept.push(s.last()).len() && i != j implies kept.push(
                s.last(),
            )[i] != kept.push(s.last())[j] by {
                if i < kept.len() && j < kept.len() {
                } else if i < kept.len() {
                    assert(kept.contains(kept[i]));
                } else if j < kept.len() {
                    assert(kept.contains(kept[j]));
                }
            }
        }
    }
}

proof fn lemma_filter_rejected_single(e: (Seq<char>, u16), f: spec_fn((Seq<char>, u16)) -> bool)
    requires
        !f(e),
    ensures
        seq![e].filter(f) == Seq::<(Seq<char>, u16)>::empty(),
{
    reveal_with_fuel(Seq::filter, 2);
    assert(seq![e].drop_last() =~= Seq::<(Seq<char>, u16)>::empty());
    assert(Seq::<(Seq<char>, u16)>::empty().filter(f) =~= Seq::<(Seq<char>, u16)>::empty());
    assert(seq![e].filter(f) =~= Seq::<(Seq<char>, u16)>::empty());
}

/// The remembered list spelled out: the endpoint, then the first of the
/// other entries up to the limit.
proof fn lemma_remembered_shape(recent: Seq<(Seq<char>, u16)>, endpoint: (Seq<char>, u16))
    ensures
        ({
            let rest = forgotten(recent, endpoint);
            let n = if rest.len() < MAX_RECENT_ENDPOINTS { rest.len() as int } else { MAX_RECENT_ENDPOINTS - 1 };
            &&& 0 <= n <= rest.len()
            &&& remembered(recent, endpoint) == seq![endpoint] + rest.take(n)
            &&& forall|i: int| 0 <= i < rest.len() ==> #[trigger] rest[i] != endpoint
        }),
{
    let f = other_than(endpoint);
    let rest = recent.filter(f);
    recent.filter_lemma(f);
    assert forall|i: int| 0 <= i < rest.len() implies #[trigger] rest[i] != endpoint by {
        assert(f(rest[i]));
    }
    let all = seq![endpoint] + rest;
    if all.len() <= MAX_RECENT_ENDPOINTS {
        assert(rest.take(rest.len() as int) =~= rest);
    } else {
        assert(all.take(MAX_RECENT_ENDPOINTS as int) =~= seq![endpoint] + rest.take(MAX_RECENT_ENDPOINTS - 1));
    }
}

/// Remembering an endpoint puts it first, lists it once, and keeps the list
/// within the limit.
pub proof fn lemma_remembered_front(recent: Seq<(Seq<char>, u16)>, endpoint: (Seq<char>, u16))
    ensures
        1 <= remembered(recent, endpoint).len() <= MAX_RECENT_ENDPOINTS,
        remembered(recent, endpoint)[0] == endpoint,
        forall|i: int| 1 <= i < remembered(recent, endpoint).len() ==> #[trigger] remembered(recent, endpoint)[i] != endpoint,
{
    lemma_remembered_shape(recent, endpoint);
    let rest = forgotten(recent, endpoint);
    assert forall|i: int| 1 <= i < remembered(recent, endpoint).len() implies #[trigger] remembered(
        recent,
        endpoint,
    )[i] != endpoint by {
        assert(remembered(recent, endpoint)[i] == rest[i - 1]);
    }
}

/// Remembering the same endpoint twice leaves the list as remembering it
/// once.
pub proof fn lemma_remembered_twice(recent: Seq<(Seq<char>, u16)>, endpoint: (Seq<char>, u16))
    ensures
        remembered(remembered(recent, endpoint), endpoint) == remembered(recent, endpoint),
{
    let once = remembered(recent, endpoint);
    lemma_remembered_shape(recent, endpoint);
    lemma_remembered_shape(once, endpoint);
    let f = other_than(endpoint);
    let rest = forgotten(recent, endpoint);
    let n = if rest.len() < MAX_RECENT_ENDPOINTS { rest.len() as int } else { MAX_RECENT_ENDPOINTS - 1 };
    let prefix = rest.take(n);
    assert(once == seq![endpoint] + prefix);
    assert(once.filter(f) == prefix) by {
        Seq::filter_distributes_over_add(seq![endpoint], prefix, f);
        lemma_filter_rejected_single(endpoint, f);
        lemma_filter_keeps_all(prefix, f);
        assert(Seq::<(Seq<char>, u16)>::empty() + prefix =~= prefix);
    }
    assert(prefix.take(prefix.len() as int) =~= prefix);
    assert(remembered(once, endpoint) =~= once);
}

/// A list without repeats stays without repeats.
pub proof fn lemma_remembered_distinct(recent: Seq<(Seq<char>, u16)>, endpoint: (Seq<char>, u16))
    requires
        recent.no_duplicates(),
    ensures
        remembered(recent, endpoint).no_duplicates(),
{
    lemma_remembered_shape(recent, endpoint);
    let f = other_than(endpoint);
    let rest = forgotten(recent, endpoint);
    lemma_filter_distinct(recent, f);
    let r = remembered(recent, endpoint);
    assert forall|i: int, j: int| 0 <= i < r.len() && 0 <= j < r.len() && i != j implies r[i] != r[j] by {
        if i > 0 && j > 0 {
            assert(r[i] == rest[i - 1] && r[j] == rest[j - 1]);
        } else if i > 0 {
            assert(r[i] == rest[i - 1]);
        } else {
            assert(r[j] == rest[j - 1]);
        }
    }
}

/// The "forget" button of a remembered endpoint.
pub fn forget_endpoint(recent: &mut Vec<AdbEndpoint>, endpoint: &AdbEndpoint)
    ensures
        endpoint_views(final(recent)@) == forgotten(endpoint_views(old(recent)@), endpoint@),
{
    let rest = copy_endpoints_except(recent, endpoint);
    *recent = rest;
}

/// The remembered endpoints read back at start-up: candidates that no longer
/// make an endpoint are dropped and at most the limit is kept.
pub open spec fn restored(candidates: Seq<(Seq<char>, u16)>) -> Seq<(Seq<char>, u16)> {
    let valid = candidates.filter(|c: (Seq<char>, u16)| endpoint_of(c.0, c.1) is Some).map_values(
        |c: (Seq<char>, u16)| endpoint_of(c.0, c.1)->0,
    );
    if valid.len() <= MAX_RECENT_ENDPOINTS {
        valid
    } else {
        valid.take(MAX_RECENT_ENDPOINTS as int)
    }
}

/// Rebuilds the recent list from stored host/port pairs.
pub fn restore_recent_endpoints(candidates: Vec<(String, u16)>) -> (recent: Vec<AdbEndpoint>)
    ensures
        endpoint_views(recent@) == restored(candidates@.map_values(|c: (String, u16)| (c.0@, c.1))),
{
    let ghost all = candidates@.map_values(|c: (String, u16)| (c.0@, c.1));
    let ghost ok = |c: (Seq<char>, u16)| endpoint_of(c.0, c.1) is Some;
    let ghost make = |c: (Seq<char>, u16)| endpoint_of(c.0, c.1)->0;
    let mut recent: Vec<AdbEndpoint> = Vec::new();
    let mut k: usize = 0;
    while k < candidates.len() && recent.len() < MAX_RECENT_ENDPOINTS
        invariant
            k <= candidates@.len(),
            recent@.len() <= MAX_RECENT_ENDPOINTS,
            all == candidates@.map_values(|c: (String, u16)| (c.0@, c.1)),
            ok == (|c: (Seq<char>, u16)| endpoint_of(c.0, c.1) is Some),
            make == (|c: (Seq<char>, u16)| endpoint_of(c.0, c.1)->0),
            endpoint_views(recent@) == all.take(k as int).filter(ok).map_values(make),
        decreases candidates@.len() - k,
    {
        let ghost before = endpoint_views(recent@);
        match AdbEndpoint::new(candidates[k].0.as_str(), candidates[k].1) {
            Ok(endpoint) => {
                recent.push(endpoint);
                assert(endpoint_views(recent@) =~= before.push(make(all[k as int])));
            },
            Err(_) => {},
        }
        proof {
            reveal(Seq::filter);
            assert(all.take(k + 1).drop_last() =~= all.take(k as int));
            assert(all.take(k + 1).last() == all[k as int]);
            if ok(all[k as int]) {
                assert(all.take(k + 1).filter(ok) =~= all.take(k as int).filter(ok).push(all[k as int]));
                assert(all.take(k + 1).filter(ok).map_values(make) =~= all.take(k as int).filter(
                    ok,
                ).map_values(make).push(make(all[k as int])));
            } else {
                assert(all.take(k + 1).filter(ok) =~= all.take(k as int).filter(ok));
            }
        }
        k = k + 1;
    }
    proof {
        let valid = all.filter(ok).map_values(make);
        lemma_filter_map_prefix(all, ok, make, k as int);
        if k == candidates@.len() {
            assert(all.take(k as int) =~= all);
            if valid.len() > MAX_RECENT_ENDPOINTS {
                assert(false);
            }
        } else {
            assert(recent@.len() == MAX_RECENT_ENDPOINTS);
            assert(endpoint_views(recent@) =~= valid.take(MAX_RECENT_ENDPOINTS as int));
        }
    }
    recent
}

/// Filtering and mapping a prefix gives a prefix of filtering and mapping
/// the whole.
proof fn lemma_filter_map_prefix(
    all: Seq<(Seq<char>, u16)>,
    ok: spec_fn((Seq<char>, u16)) -> bool,
    make: spec_fn((Seq<char>, u16)) -> (Seq<char>, u16),
    k: int,
)
    requires
        0 <= k <= all.len(),
    ensures
        all.take(k).filter(ok).map_values(make).len() <= all.filter(ok).map_values(make).len(),
        all.take(k).filter(ok).map_values(make) == all.filter(ok).map_values(make).take(
            all.take(k).filter(ok).len() as int,
        ),
    decreases all.len() - k,
{
    if k < all.len() {
        lemma_filter_map_prefix(all, ok, make, k + 1);
        reveal(Seq::filter);
        assert(all.take(k + 1).drop_last() =~= all.take(k));
        assert(all.take(k + 1).last() == all[k]);
        let shorter = all.take(k).filter(ok).map_values(make);
        let longer = all.take(k + 1).filter(ok).map_values(make);
        let whole = all.filter(ok).map_values(make);
        if ok(all[k]) {
            assert(all.take(k + 1).filter(ok) =~= all.take(k).filter(ok).push(all[k]));
            assert(longer =~= shorter.push(make(all[k])));
            assert(shorter =~= longer.take(shorter.len() as int));
            assert(whole.take(all.take(k + 1).filter(ok).len() as int).take(shorter.len() as int)
                =~= whole.take(shorter.len() as int));
        } else {
            assert(all.take(k + 1).filter(ok) =~= all.take(k).filter(ok));
        }
    } else {
        assert(all.take(k) =~= all);
        assert(all.filter(ok).map_values(make).take(all.filter(ok).len() as int) =~= all.filter(
            ok,
        ).map_values(make));
    }
}

/// Requests to the adb side of the backend.
pub enum ConnectionCommand {
    ConnectDevice(AdbEndpoint),
}

/// Reports of the adb server and of network connections.
pub enum ConnectionEvent {
    AdbReady { path: String, version: String },
    AdbUnavailable(BridgeError),
    AdbConnecting(AdbEndpoint),
    AdbConnected(AdbEndpoint),
    AdbConnectFailed { endpoint: AdbEndpoint, error: BridgeError },
}

/// The detail of a failed connection: the backend's detail, then the
/// endpoint in brackets.
pub open spec fn connect_failure_detail(detail: Seq<char>, endpoint: (Seq<char>, u16)) -> Seq<char> {
    detail + seq![' ', '('] + endpoint_text(endpoint) + seq![')']
}

/// The adb status and the connect form of the device manager.
pub struct ConnectionState {
    pub adb_path: Option<String>,
    pub adb_version: Option<String>,
    pub recent_endpoints: Vec<AdbEndpoint>,
    pub endpoint_host: String,
    pub endpoint_port: String,
    pub connecting_endpoint: Option<AdbEndpoint>,
    pub last_error: Option<BridgeError>,
}

impl ConnectionState {
    /// A fresh form (port 5555) around the remembered endpoints.
    pub fn new(recent_endpoints: Vec<AdbEndpoint>) -> (state: Self)
        ensures
            state.adb_path is None,
            state.adb_version is None,
            state.recent_endpoints == recent_endpoints,
            state.endpoint_host@.len() == 0,
            state.endpoint_port@ == "5555"@,
            state.connecting_endpoint is None,
            state.last_error is None,
    {
        ConnectionState {
            adb_path: None,
            adb_version: None,
            recent_endpoints,
            endpoint_host: String::new(),
            endpoint_port: string_of(chars_of("5555").as_slice()),
            connecting_endpoint: None,
            last_error: None,
        }
    }

    /// The endpoint typed into the form: the port must read as a 16-bit
    /// number (surrounding white space ignored), the host must not be blank.
    pub fn endpoint_from_inputs(&self) -> (endpoint: Result<AdbEndpoint, BridgeError>)
        ensures
            match parsed_u16(trim(self.endpoint_port@)) {
                Some(port) => match endpoint {
                    Ok(e) => endpoint_of(self.endpoint_host@, port) == Some(e@),
                    Err(error) => endpoint_of(self.endpoint_host@, port) is None && error.code
                        == ErrorCode::InvalidInput && error.message_key@ == "adb.endpoint.host_invalid"@
                        && error.detail@.len() == 0,
                },
                None => endpoint matches Err(error) && error.code == ErrorCode::InvalidInput
                    && error.message_key@ == "adb.endpoint.port_invalid"@ && error.detail@.len() == 0,
            },
    {
        let port_text = trimmed(self.endpoint_port.as_str());
        match parse_u16(port_text.as_str()) {
            Some(port) => AdbEndpoint::new(self.endpoint_host.as_str(), port),
            None => Err(BridgeError::invalid_input("adb.endpoint.port_invalid")),
        }
    }

    /// Connects to `endpoint`, showing it in the form while connecting.
    pub fn connect_endpoint(&mut self, endpoint: AdbEndpoint) -> (command: ConnectionCommand)
        ensures
            command matches ConnectionCommand::ConnectDevice(e) && e@ == endpoint@,
            final(self).endpoint_host@ == endpoint.host@,
            final(self).endpoint_port@ == decimal(endpoint.port as nat),
            final(self).connecting_endpoint matches Some(e) && e@ == endpoint@,
            *final(self) == (ConnectionState {
                endpoint_host: final(self).endpoint_host,
                endpoint_port: final(self).endpoint_port,
                connecting_endpoint: final(self).connecting_endpoint,
                ..*old(self)
            }),
    {
        self.endpoint_host = endpoint.host.clone();
        self.endpoint_port = string_of(decimal_chars(endpoint.port as u64).as_slice());
        self.connecting_endpoint = Some(endpoint.duplicate());
        ConnectionCommand::ConnectDevice(endpoint)
    }

    /// The connect button, enabled while no connection is under way: a valid
    /// form connects, an invalid one reports why.
    pub fn connect_clicked(&mut self) -> (command: Option<ConnectionCommand>)
        ensures
            old(self).connecting_endpoint is Some ==> command is None && *final(self) == *old(self),
            old(self).connecting_endpoint is None ==> match parsed_u16(trim(old(self).endpoint_port@)) {
                Some(port) => match endpoint_of(old(self).endpoint_host@, port) {
                    Some(e) => {
                        &&& command matches Some(ConnectionCommand::ConnectDevice(c)) && c@ == e
                        &&& final(self).connecting_endpoint matches Some(x) && x@ == e
                        &&& final(self).endpoint_host@ == e.0
                        &&& final(self).endpoint_port@ == decimal(e.1 as nat)
                        &&& *final(self) == (ConnectionState {
                            endpoint_host: final(self).endpoint_host,
                            endpoint_port: final(self).endpoint_port,
                            connecting_endpoint: final(self).connecting_endpoint,
                            ..*old(self)
                        })
                    },
                    None => {
                        &&& command is None
                        &&& final(self).last_error matches Some(error) && error.code == ErrorCode::InvalidInput
                            && error.message_key@ == "adb.endpoint.host_invalid"@ && error.detail@.len() == 0
                        &&& *final(self) == (ConnectionState { last_error: final(self).last_error, ..*old(self) })
                    },
                },
                None => {
                    &&& command is None
                    &&& final(self).last_error matches Some(error) && error.code == ErrorCode::InvalidInput
                        && error.message_key@ == "adb.endpoint.port_invalid"@ && error.detail@.len() == 0
                    &&& *final(self) == (ConnectionState { last_error: final(self).last_error, ..*old(self) })
                },
            },
    {
        if self.connecting_endpoint.is_some() {
            return None;
        }
        match self.endpoint_from_inputs() {
            Ok(endpoint) => Some(self.connect_endpoint(endpoint)),
            Err(error) => {
                self.last_error = Some(error);
                None
            },
        }
    }

    /// Applies one adb report; a successful connection is remembered.
    pub fn handle_event(&mut self, event: ConnectionEvent)
        ensures
            match event {
                ConnectionEvent::AdbReady { path, version } => *final(self) == (ConnectionState {
                    adb_path: Some(path),
                    adb_version: Some(version),
                    last_error: None,
                    ..*old(self)
                }),
                ConnectionEvent::AdbUnavailable(error) => *final(self) == (ConnectionState {
                    last_error: Some(error),
                    ..*old(self)
                }),
                ConnectionEvent::AdbConnecting(endpoint) => *final(self) == (ConnectionState {
                    connecting_endpoint: Some(endpoint),
                    last_error: None,
                    ..*old(self)
                }),
                ConnectionEvent::AdbConnected(endpoint) => {
                    &&& endpoint_views(final(self).recent_endpoints@) == remembered(
                        endpoint_views(old(self).recent_endpoints@),
                        endpoint@,
                    )
                    &&& *final(self) == (ConnectionState {
                        connecting_endpoint: None,
                        last_error: None,
                        recent_endpoints: final(self).recent_endpoints,
                        ..*old(self)
                    })
                },
                ConnectionEvent::AdbConnectFailed { endpoint, error } => {
                    &&& final(self).last_error matches Some(e) && e.code == error.code && e.message_key
                        == error.message_key && e.detail@ == connect_failure_detail(
                        error.detail@,
                        endpoint@,
                    )
                    &&& *final(self) == (ConnectionState {
                        connecting_endpoint: None,
                        last_error: final(self).last_error,
                        ..*old(self)
                    })
                },
            },
    {
        match event {
            ConnectionEvent::AdbReady { path, version } => {
                self.adb_path = Some(path);
                self.adb_version = Some(version);
                self.last_error = None;
            },
            ConnectionEvent::AdbUnavailable(error) => {
                self.last_error = Some(error);
            },
            ConnectionEvent::AdbConnecting(endpoint) => {
                self.connecting_endpoint = Some(endpoint);
                self.last_error = None;
            },
            ConnectionEvent::AdbConnected(endpoint) => {
                self.connecting_endpoint = None;
                remember_endpoint(&mut self.recent_endpoints, endpoint);
                self.last_error = None;
            },
            ConnectionEvent::AdbConnectFailed { endpoint, error } => {
                self.connecting_endpoint = None;
                let mut detail = error.detail;
                push_char(&mut detail, ' ');
                push_char(&mut detail, '(');
                let shown = endpoint.text();
                push_chars(&mut detail, chars_of(shown.as_str()).as_slice());
                push_char(&mut detail, ')');
                self.last_error = Some(BridgeError { code: error.code, message_key: error.message_key, detail });
            },
        }
    }
}

} // verus!
