//! Wireless debugging in the device manager: pairing with a code,
//! switching the selected device to TCP mode, and connecting to services
//! found over mDNS.

use vstd::prelude::*;

use crate::connection::{endpoint_of, AdbEndpoint};
use crate::device::{BridgeError, ErrorCode};
use crate::text::{all_digits, chars_of, is_digit, parse_u16, parsed_u16, string_of, trim, trimmed_chars};

verus! {

/// Time between automatic mDNS discoveries while nothing was found.
pub const MDNS_RETRY_MS: u64 = 8_000;

/// The port `tcpip` mode listens on.
pub const TCPIP_PORT: u16 = 5555;

/// A wireless-debugging service seen over mDNS.
#[derive(Clone, Debug, PartialEq, Eq)]
pub struct MdnsService {
    pub name: String,
    pub service_type: String,
    pub address: String,
}

/// Backend requests of the wireless section.
pub enum WirelessCommand {
    PairDevice { request_id: u64, host: String, port: u16, code: String },
    EnableTcpIp { request_id: u64, serial: String, port: u16 },
    ListMdnsServices,
}

/// Backend reports the wireless section reacts to.
pub enum WirelessEvent {
    PairFinished { request_id: u64 },
    PairFailed { request_id: u64, error: BridgeError },
    TcpIpEnabled { request_id: u64, serial: String },
    TcpIpFailed { request_id: u64, serial: String, error: BridgeError },
    MdnsServicesLoaded { services: Vec<MdnsService> },
    MdnsFailed { error: BridgeError },
}

/// The pairing request the form describes: a non-blank host, a port that
/// reads as a 16-bit number, and a code of six to eight digits, each taken
/// without surrounding white space.
pub open spec fn pair_request(host: Seq<char>, port: Seq<char>, code: Seq<char>) -> Option<
    (Seq<char>, u16, Seq<char>),
> {
    match parsed_u16(trim(port)) {
        Some(p) => if trim(host).len() > 0 && 6 <= trim(code).len() <= 8 && all_digits(trim(code)) {
            Some((trim(host), p, trim(code)))
        } else {
            None
        },
        None => None,
    }
}

/// Index of the last `:` of `s`, if any.
pub open spec fn last_colon(s: Seq<char>) -> Option<int>
    decreases s.len(),
{
    if s.len() == 0 {
        None
    } else if s.last() == ':' {
        Some(s.len() - 1)
    } else {
        last_colon(s.drop_last())
    }
}

/// The endpoint an mDNS `host:port` address names: split at the last `:`,
/// the port must read as a 16-bit number and the host make an endpoint.
pub open spec fn address_endpoint(address: Seq<char>) -> Option<(Seq<char>, u16)> {
    match last_colon(address) {
        Some(i) => match parsed_u16(address.subrange(i + 1, address.len() as int)) {
            Some(port) => endpoint_of(address.take(i), port),
            None => None,
        },
        None => None,
    }
}

proof fn lemma_last_colon_bounds(s: Seq<char>)
    ensures
        last_colon(s) matches Some(i) ==> 0 <= i < s.len() && s[i] == ':',
    decreases s.len(),
{
    if s.len() > 0 && s.last() != ':' {
        lemma_last_colon_bounds(s.drop_last());
    }
}

fn string_from(chars: &Vec<char>, start: usize, end: usize) -> (s: String)
    requires
        start <= end <= chars@.len(),
    ensures
        s@ == chars@.subrange(start as int, end as int),
{
    let mut part: Vec<char> = Vec::new();
    let mut k: usize = start;
    while k < end
        invariant
            start <= k <= end <= chars@.len(),
            part@ == chars@.subrange(start as int, k as int),
        decreases end - k,
    {
        part.push(chars[k]);
        k = k + 1;
        assert(part@ =~= chars@.subrange(start as int, k as int));
    }
    string_of(part.as_slice())
}

/// Parses an mDNS `host:port` address into an endpoint.
pub fn endpoint_from_address(address: &str) -> (endpoint: Option<AdbEndpoint>)
    ensures
        match endpoint {
            Some(e) => address_endpoint(address@) == Some(e@),
            None => address_endpoint(address@) is None,
        },
{
    let chars = chars_of(address);
    let mut colon: Option<usize> = None;
    let mut k: usize = 0;
    while k < chars.len()
        invariant
            k <= chars@.len(),
            chars@ == address@,
            match colon {
                Some(i) => last_colon(chars@.take(k as int)) == Some(i as int),
                None => last_colon(chars@.take(k as int)) is None,
            },
        decreases chars@.len() - k,
    {
        assert(chars@.take(k + 1).drop_last() =~= chars@.take(k as int));
        if chars[k] == ':' {
            colon = Some(k);
        }
        k = k + 1;
    }
    assert(chars@.take(chars@.len() as int) =~= chars@);
    proof {
        lemma_last_colon_bounds(address@);
    }
    let i = match colon {
        Some(i) => i,
        None => {
            return None;
        },
    };
    let host = string_from(&chars, 0, i);
    let port_text = string_from(&chars, i + 1, chars.len());
    assert(host@ =~= address@.take(i as int));
    match parse_u16(port_text.as_str()) {
        Some(port) => match AdbEndpoint::new(host.as_str(), port) {
            Ok(endpoint) => Some(endpoint),
            Err(_) => None,
        },
        None => None,
    }
}

/// The wireless-debugging section.
pub struct WirelessState {
    pub pair_host: String,
    pub pair_port: String,
    pub pair_code: String,
    pub pairing: Option<u64>,
    /// The tcpip switch in flight and the device it targets.
    pub tcpip: Option<(u64, String)>,
    /// Text-table key of the last success notice.
    pub notice: Option<&'static str>,
    pub error: Option<BridgeError>,
    pub mdns: Vec<MdnsService>,
    pub mdns_loading: bool,
    /// When discovery last started, in milliseconds of the app's clock.
    pub last_mdns_attempt: Option<u64>,
}

impl Default for WirelessState {
    fn default() -> (state: Self)
        ensures
            state.pair_host@.len() == 0,
            state.pair_port@.len() == 0,
            state.pair_code@.len() == 0,
            state.pairing is None,
            state.tcpip is None,
            state.notice is None,
            state.error is None,
            state.mdns@.len() == 0,
            !state.mdns_loading,
            state.last_mdns_attempt is None,
    {
        WirelessState {
            pair_host: String::new(),
            pair_port: String::new(),
            pair_code: String::new(),
            pairing: None,
            tcpip: None,
            notice: None,
            error: None,
            mdns: Vec::new(),
            mdns_loading: false,
            last_mdns_attempt: None,
        }
    }
}

/// Whether the tcpip switch in flight targets `serial`.
pub open spec fn tcpip_targets(tcpip: Option<(u64, String)>, serial: Seq<char>) -> bool {
    tcpip matches Some(pending) && pending.1@ == serial
}

fn copy_services(services: &Vec<MdnsService>) -> (copy: Vec<MdnsService>)
    ensures
        copy@ == services@,
{
    let mut copy: Vec<MdnsService> = Vec::new();
    let mut k: usize = 0;
    while k < services.len()
        invariant
            k <= services@.len(),
            copy@ == services@.take(k as int),
        decreases services@.len() - k,
    {
        let s = &services[k];
        copy.push(MdnsService { name: s.name.clone(), service_type: s.service_type.clone(), address: s.address.clone() });
        k = k + 1;
        assert(copy@ =~= services@.take(k as int));
    }
    assert(services@.take(services@.len() as int) =~= services@);
    copy
}

impl WirelessState {
    /// Applies one backend report.
    pub fn handle_event(&mut self, event: &WirelessEvent)
        ensures
            match event {
                WirelessEvent::PairFinished { .. } => {
                    &&& final(self).notice matches Some(n) && n@ == "wireless_pair_ok"@
                    &&& *final(self) == (WirelessState {
                        pairing: None,
                        notice: final(self).notice,
                        error: None,
                        ..*old(self)
                    })
                },
                WirelessEvent::PairFailed { error, .. } => *final(self) == (WirelessState {
                    pairing: None,
                    error: Some(*error),
                    ..*old(self)
                }),
                WirelessEvent::TcpIpEnabled { serial, .. } => {
                    &&& final(self).notice matches Some(n) && n@ == "wireless_tcpip_ok"@
                    &&& *final(self) == (WirelessState {
                        tcpip: if tcpip_targets(old(self).tcpip, serial@) {
                            None
                        } else {
                            old(self).tcpip
                        },
                        notice: final(self).notice,
                        error: None,
                        ..*old(self)
                    })
                },
                WirelessEvent::TcpIpFailed { serial, error, .. } => *final(self) == (WirelessState {
                    tcpip: if tcpip_targets(old(self).tcpip, serial@) {
                        None
                    } else {
                        old(self).tcpip
                    },
                    error: Some(*error),
                    ..*old(self)
                }),
                WirelessEvent::MdnsServicesLoaded { services } => {
                    &&& final(self).mdns@ == services@
                    &&& *final(self) == (WirelessState {
                        mdns_loading: false,
                        mdns: final(self).mdns,
                        ..*old(self)
                    })
                },
                WirelessEvent::MdnsFailed { error } => *final(self) == (WirelessState {
                    mdns_loading: false,
                    error: Some(*error),
                    ..*old(self)
                }),
            },
    {
        match event {
            WirelessEvent::PairFinished { .. } => {
                self.pairing = None;
                self.notice = Some("wireless_pair_ok");
                self.error = None;
            },
            WirelessEvent::PairFailed { error, .. } => {
                self.pairing = None;
                self.error = Some(error.duplicate());
            },
            WirelessEvent::TcpIpEnabled { serial, .. } => {
                let answered = match &self.tcpip {
                    Some(pending) => pending.1 == *serial,
                    None => false,
                };
                if answered {
                    self.tcpip = None;
                }
                self.notice = Some("wireless_tcpip_ok");
                self.error = None;
            },
            WirelessEvent::TcpIpFailed { serial, error, .. } => {
                let answered = match &self.tcpip {
                    Some(pending) => pending.1 == *serial,
                    None => false,
                };
                if answered {
                    self.tcpip = None;
                }
                self.error = Some(error.duplicate());
            },
            WirelessEvent::MdnsServicesLoaded { services } => {
                self.mdns_loading = false;
                self.mdns = copy_services(services);
            },
            WirelessEvent::MdnsFailed { error } => {
                self.mdns_loading = false;
                self.error = Some(error.duplicate());
            },
        }
    }

    /// Validates the pairing inputs into host, port and code.
    pub fn pair_inputs(&self) -> (inputs: Result<(String, u16, String), BridgeError>)
        ensures
            match pair_request(self.pair_host@, self.pair_port@, self.pair_code@) {
                Some(r) => inputs matches Ok(v) && v.0@ == r.0 && v.1 == r.1 && v.2@ == r.2,
                None => inputs matches Err(error) && error.code == ErrorCode::InvalidInput
                    && error.message_key@ == "wireless.pair_invalid"@,
            },
    {
        let host = trimmed_chars(self.pair_host.as_str());
        let code = trimmed_chars(self.pair_code.as_str());
        let port_text = trimmed_chars(self.pair_port.as_str());
        let port_string = string_of(port_text.as_slice());
        let port = match parse_u16(port_string.as_str()) {
            Some(p) => p,
            None => {
                return Err(BridgeError::invalid_input("wireless.pair_invalid"));
            },
        };
        if host.len() == 0 || code.len() < 6 || code.len() > 8 {
            return Err(BridgeError::invalid_input("wireless.pair_invalid"));
        }
        let mut k: usize = 0;
        while k < code.len()
            invariant
                k <= code@.len(),
                code@ == trim(self.pair_code@),
                forall|i: int| 0 <= i < k ==> is_digit(#[trigger] code@[i]),
            decreases code@.len() - k,
        {
            if !(code[k] >= '0' && code[k] <= '9') {
                assert(!is_digit(code@[k as int]));
                return Err(BridgeError::invalid_input("wireless.pair_invalid"));
            }
            k = k + 1;
        }
        Ok((string_of(host.as_slice()), port, string_of(code.as_slice())))
    }

    /// The pair button, enabled while no pairing runs: valid inputs send a
    /// pairing request under `request_id`, invalid ones report the error.
    pub fn start_pairing(&mut self, request_id: u64) -> (command: Option<WirelessCommand>)
        ensures
            old(self).pairing is Some ==> command is None && *final(self) == *old(self),
            old(self).pairing is None ==> match pair_request(
                old(self).pair_host@,
                old(self).pair_port@,
                old(self).pair_code@,
            ) {
                Some(r) => {
                    &&& command matches Some(
                        WirelessCommand::PairDevice { request_id: id, host, port, code },
                    ) && id == request_id && host@ == r.0 && port == r.1 && code@ == r.2
                    &&& final(self).notice matches Some(n) && n@ == "wireless_pairing"@
                    &&& *final(self) == (WirelessState { notice: final(self).notice, ..*old(self) })
                },
                None => {
                    &&& command is None
                    &&& final(self).error matches Some(e) && e.code == ErrorCode::InvalidInput
                        && e.message_key@ == "wireless.pair_invalid"@
                    &&& *final(self) == (WirelessState { error: final(self).error, ..*old(self) })
                },
            },
    {
        if self.pairing.is_some() {
            return None;
        }
        match self.pair_inputs() {
            Ok((host, port, code)) => {
                self.notice = Some("wireless_pairing");
                Some(WirelessCommand::PairDevice { request_id, host, port, code })
            },
            Err(error) => {
                self.error = Some(error);
                None
            },
        }
    }

    /// The tcpip button, enabled with a selected device that is not already
    /// being switched: asks the device to listen on port 5555.
    pub fn enable_tcpip(&mut self, selected: &Option<String>, request_id: u64) -> (command: Option<
        WirelessCommand,
    >)
        ensures
            match selected {
                Some(serial) => if !tcpip_targets(old(self).tcpip, serial@) {
                    &&& command matches Some(
                        WirelessCommand::EnableTcpIp { request_id: id, serial: s, port },
                    ) && id == request_id && s@ == serial@ && port == TCPIP_PORT
                    &&& final(self).notice matches Some(n) && n@ == "wireless_tcpip_running"@
                    &&& *final(self) == (WirelessState { notice: final(self).notice, ..*old(self) })
                } else {
                    command is None && *final(self) == *old(self)
                },
                None => command is None && *final(self) == *old(self),
            },
    {
        let serial = match selected {
            Some(s) => s,
            None => {
                return None;
            },
        };
        let busy = match &self.tcpip {
            Some(pending) => pending.1 == *serial,
            None => false,
        };
        if busy {
            return None;
        }
        self.notice = Some("wireless_tcpip_running");
        Some(WirelessCommand::EnableTcpIp { request_id, serial: serial.clone(), port: TCPIP_PORT })
    }

    /// The discovery button, enabled while no discovery runs.
    pub fn discover(&mut self) -> (command: Option<WirelessCommand>)
        ensures
            old(self).mdns_loading ==> command is None && *final(self) == *old(self),
            !old(self).mdns_loading ==> (command matches Some(WirelessCommand::ListMdnsServices))
                && *final(self) == (WirelessState { mdns_loading: true, ..*old(self) }),
    {
        if self.mdns_loading {
            return None;
        }
        self.mdns_loading = true;
        Some(WirelessCommand::ListMdnsServices)
    }

    /// The connect button of a discovered service, enabled while no pairing
    /// runs: the endpoint its address names.
    pub fn service_endpoint(&self, index: usize) -> (endpoint: Option<AdbEndpoint>)
        ensures
            (pairing_idle(self) && index < self.mdns@.len()) ==> match endpoint {
                Some(e) => address_endpoint(self.mdns@[index as int].address@) == Some(e@),
                None => address_endpoint(self.mdns@[index as int].address@) is None,
            },
            !(pairing_idle(self) && index < self.mdns@.len()) ==> endpoint is None,
    {
        if self.pairing.is_some() || index >= self.mdns.len() {
            return None;
        }
        endpoint_from_address(self.mdns[index].address.as_str())
    }
}

/// Whether no pairing runs.
pub open spec fn pairing_idle(state: &WirelessState) -> bool {
    state.pairing is None
}

/// Whether automatic discovery starts now: nothing found, none running, and
/// the last attempt (if any) at least the retry interval ago.
pub open spec fn discovery_due(state: WirelessState, now_ms: u64) -> bool {
    &&& state.mdns@.len() == 0
    &&& !state.mdns_loading
    &&& match state.last_mdns_attempt {
        Some(last) => now_ms >= last && now_ms - last >= MDNS_RETRY_MS,
        None => true,
    }
}

/// Called each frame the device manager is open: discovers services once
/// shortly after opening, retrying with a backoff while nothing is found.
pub fn auto(state: &mut WirelessState, now_ms: u64) -> (commands: Vec<WirelessCommand>)
    ensures
        discovery_due(*old(state), now_ms) ==> {
            &&& commands@.len() == 1
            &&& commands@[0] matches WirelessCommand::ListMdnsServices
            &&& *final(state) == (WirelessState {
                last_mdns_attempt: Some(now_ms),
                mdns_loading: true,
                ..*old(state)
            })
        },
        !discovery_due(*old(state), now_ms) ==> commands@.len() == 0 && *final(state) == *old(state),
{
    let mut commands: Vec<WirelessCommand> = Vec::new();
    let empty_and_idle = state.mdns.len() == 0 && !state.mdns_loading;
    let recently_attempted = match state.last_mdns_attempt {
        Some(last) => now_ms < last || now_ms - last < MDNS_RETRY_MS,
        None => false,
    };
    if empty_and_idle && !recently_attempted {
        state.last_mdns_attempt = Some(now_ms);
        state.mdns_loading = true;
        commands.push(WirelessCommand::ListMdnsServices);
    }
    commands
}

} // verus!
