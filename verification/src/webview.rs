//! The WebView inspector: DevTools sockets found on the device, the
//! debuggable pages behind the selected socket, and the inspector address
//! of a page.

use vstd::prelude::*;

use crate::device::{is_target, same_target, target_view, BridgeError, DeviceTarget};
use crate::text::{chars_of, decimal, decimal_chars, push_chars, string_of};

verus! {

/// The local port forwarded to the device's DevTools socket.
pub const DEVTOOLS_LOCAL_PORT: u16 = 39222;

/// Time between automatic socket searches while none was found, in milliseconds.
pub const AUTO_REFRESH_RETRY_MS: u64 = 8_000;

/// The request the inspector waits for.
#[derive(Clone, Copy, Debug, PartialEq, Eq, Structural)]
pub enum Pending {
    Idle,
    Sockets(u64),
    Pages(u64),
}

/// A debuggable page.
#[derive(Clone, Debug, PartialEq, Eq)]
pub struct WebViewPage {
    pub title: String,
    pub url: String,
    pub kind: String,
    pub debugger_url: String,
}

/// Backend requests of the inspector.
pub enum WebviewCommand {
    ListWebviewSockets { request_id: u64, target: DeviceTarget },
    ListWebviewPages { request_id: u64, target: DeviceTarget, socket: String, port: u16 },
}

/// Backend reports the inspector reacts to.
pub enum WebviewEvent {
    WebviewSocketsLoading { request_id: u64 },
    WebviewSocketsLoaded { request_id: u64, sockets: Vec<String> },
    WebviewPagesLoading { request_id: u64 },
    WebviewPagesLoaded { request_id: u64, pages: Vec<WebViewPage>, port: u16 },
    WebviewFailed { request_id: u64, error: BridgeError },
}

/// The WebView inspector.
pub struct WebviewPanelState {
    pub target: Option<DeviceTarget>,
    pub pending: Pending,
    pub sockets: Vec<String>,
    pub selected_socket: Option<String>,
    pub pages: Vec<WebViewPage>,
    pub active_port: Option<u16>,
    pub error: Option<BridgeError>,
    /// When sockets were last searched for, in milliseconds of the app's clock.
    pub last_refresh: Option<u64>,
    /// The socket the page list was asked for.
    pub pages_requested_for: Option<String>,
}

impl Default for WebviewPanelState {
    fn default() -> (state: Self)
        ensures
            state.target is None,
            state.pending == Pending::Idle,
            state.sockets@.len() == 0,
            state.selected_socket is None,
            state.pages@.len() == 0,
            state.active_port is None,
            state.error is None,
            state.last_refresh is None,
            state.pages_requested_for is None,
    {
        WebviewPanelState {
            target: None,
            pending: Pending::Idle,
            sockets: Vec::new(),
            selected_socket: None,
            pages: Vec::new(),
            active_port: None,
            error: None,
            last_refresh: None,
            pages_requested_for: None,
        }
    }
}

/// The id of the request in flight.
pub open spec fn pending_id(pending: Pending) -> Option<u64> {
    match pending {
        Pending::Sockets(id) => Some(id),
        Pending::Pages(id) => Some(id),
        Pending::Idle => None,
    }
}

fn copy_strings(items: &Vec<String>) -> (copy: Vec<String>)
    ensures
        copy@ == items@,
{
    let mut copy: Vec<String> = Vec::new();
    let mut k: usize = 0;
    while k < items.len()
        invariant
            k <= items@.len(),
            copy@ == items@.take(k as int),
        decreases items@.len() - k,
    {
        copy.push(items[k].clone());
        k = k + 1;
        assert(copy@ =~= items@.take(k as int));
    }
    assert(items@.take(items@.len() as int) =~= items@);
    copy
}

fn copy_pages(pages: &Vec<WebViewPage>) -> (copy: Vec<WebViewPage>)
    ensures
        copy@ == pages@,
{
    let mut copy: Vec<WebViewPage> = Vec::new();
    let mut k: usize = 0;
    while k < pages.len()
        invariant
            k <= pages@.len(),
            copy@ == pages@.take(k as int),
        decreases pages@.len() - k,
    {
        let p = &pages[k];
        copy.push(
            WebViewPage {
                title: p.title.clone(),
                url: p.url.clone(),
                kind: p.kind.clone(),
                debugger_url: p.debugger_url.clone(),
            },
        );
        k = k + 1;
        assert(copy@ =~= pages@.take(k as int));
    }
    assert(pages@.take(pages@.len() as int) =~= pages@);
    copy
}

/// The inspector `after` following the device `target` from `before`:
/// another device drops the sockets, the pages and the request in flight.
pub open spec fn follows_target(before: WebviewPanelState, after: WebviewPanelState, target: Option<DeviceTarget>) -> bool {
    if target_view(before.target) == target_view(target) {
        after == before
    } else {
        &&& after == (WebviewPanelState {
            target,
            pending: Pending::Idle,
            sockets: after.sockets,
            selected_socket: None,
            pages: after.pages,
            active_port: None,
            error: None,
            pages_requested_for: None,
            ..before
        })
        &&& after.sockets@.len() == 0
        &&& after.pages@.len() == 0
    }
}

impl WebviewPanelState {
    /// Follows the selected device: another device drops the sockets, pages
    /// and the request in flight.
    pub fn reset_for(&mut self, target: Option<DeviceTarget>)
        ensures
            follows_target(*old(self), *final(self), target),
    {
        if same_target(&self.target, &target) {
            return;
        }
        self.target = target;
        self.pending = Pending::Idle;
        self.sockets = Vec::new();
        self.selected_socket = None;
        self.pages = Vec::new();
        self.active_port = None;
        self.error = None;
        self.pages_requested_for = None;
    }

    /// The id of the request in flight.
    pub fn pending_request(&self) -> (id: Option<u64>)
        ensures
            id == pending_id(self.pending),
    {
        match self.pending {
            Pending::Sockets(id) => Some(id),
            Pending::Pages(id) => Some(id),
            Pending::Idle => None,
        }
    }

    /// Whether a request is in flight.
    pub fn busy(&self) -> (busy: bool)
        ensures
            busy == (self.pending != Pending::Idle),
    {
        match self.pending {
            Pending::Idle => false,
            _ => true,
        }
    }

    /// Applies one backend report; only answers to the request in flight
    /// count. Loaded sockets select the first one and drop the old pages.
    pub fn handle_event(&mut self, event: &WebviewEvent)
        ensures
            match event {
                WebviewEvent::WebviewSocketsLoading { request_id } => if old(self).pending == Pending::Sockets(
                    *request_id,
                ) {
                    *final(self) == (WebviewPanelState { error: None, ..*old(self) })
                } else {
                    *final(self) == *old(self)
                },
                WebviewEvent::WebviewSocketsLoaded { request_id, sockets } => if old(self).pending
                    == Pending::Sockets(*request_id) {
                    &&& final(self).sockets@ == sockets@
                    &&& final(self).selected_socket == (if sockets@.len() > 0 {
                        Some(sockets@[0])
                    } else {
                        None
                    })
                    &&& final(self).pages@.len() == 0
                    &&& *final(self) == (WebviewPanelState {
                        pending: Pending::Idle,
                        error: None,
                        sockets: final(self).sockets,
                        selected_socket: final(self).selected_socket,
                        pages: final(self).pages,
                        active_port: None,
                        pages_requested_for: None,
                        ..*old(self)
                    })
                } else {
                    *final(self) == *old(self)
                },
                WebviewEvent::WebviewPagesLoading { request_id } => if old(self).pending == Pending::Pages(
                    *request_id,
                ) {
                    *final(self) == (WebviewPanelState { error: None, ..*old(self) })
                } else {
                    *final(self) == *old(self)
                },
                WebviewEvent::WebviewPagesLoaded { request_id, pages, port } => if old(self).pending
                    == Pending::Pages(*request_id) {
                    &&& final(self).pages@ == pages@
                    &&& *final(self) == (WebviewPanelState {
                        pending: Pending::Idle,
                        error: None,
                        pages: final(self).pages,
                        active_port: Some(*port),
                        ..*old(self)
                    })
                } else {
                    *final(self) == *old(self)
                },
                WebviewEvent::WebviewFailed { request_id, error } => if pending_id(old(self).pending) == Some(
                    *request_id,
                ) {
                    *final(self) == (WebviewPanelState {
                        pending: Pending::Idle,
                        error: Some(*error),
                        ..*old(self)
                    })
                } else {
                    *final(self) == *old(self)
                },
            },
    {
        match event {
            WebviewEvent::WebviewSocketsLoading { request_id } => {
                if self.pending == Pending::Sockets(*request_id) {
                    self.error = None;
                }
            },
            WebviewEvent::WebviewSocketsLoaded { request_id, sockets } => {
                if self.pending == Pending::Sockets(*request_id) {
                    self.pending = Pending::Idle;
                    self.error = None;
                    self.sockets = copy_strings(sockets);
                    self.selected_socket = if sockets.len() > 0 {
                        Some(sockets[0].clone())
                    } else {
                        None
                    };
                    self.pages = Vec::new();
                    self.active_port = None;
                    self.pages_requested_for = None;
                }
            },
            WebviewEvent::WebviewPagesLoading { request_id } => {
                if self.pending == Pending::Pages(*request_id) {
                    self.error = None;
                }
            },
            WebviewEvent::WebviewPagesLoaded { request_id, pages, port } => {
                if self.pending == Pending::Pages(*request_id) {
                    self.pending = Pending::Idle;
                    self.error = None;
                    self.pages = copy_pages(pages);
                    self.active_port = Some(*port);
                }
            },
            WebviewEvent::WebviewFailed { request_id, error } => {
                if self.pending_request() == Some(*request_id) {
                    self.pending = Pending::Idle;
                    self.error = Some(error.duplicate());
                }
            },
        }
    }

    /// The refresh button, enabled with a device while idle: searches for
    /// DevTools sockets under `request_id` at `now_ms`.
    pub fn refresh_sockets(&mut self, request_id: u64, now_ms: u64) -> (command: Option<WebviewCommand>)
        ensures
            match old(self).target {
                Some(t) => if old(self).pending == Pending::Idle {
                    &&& command matches Some(WebviewCommand::ListWebviewSockets { request_id: id, target })
                        && id == request_id && target@ == t@
                    &&& *final(self) == (WebviewPanelState {
                        pending: Pending::Sockets(request_id),
                        last_refresh: Some(now_ms),
                        ..*old(self)
                    })
                } else {
                    command is None && *final(self) == *old(self)
                },
                None => command is None && *final(self) == *old(self),
            },
    {
        if self.busy() {
            return None;
        }
        match &self.target {
            Some(t) => {
                let target = t.duplicate();
                self.pending = Pending::Sockets(request_id);
                self.last_refresh = Some(now_ms);
                Some(WebviewCommand::ListWebviewSockets { request_id, target })
            },
            None => None,
        }
    }

    /// Clicking a socket selects it and asks for its pages (clicking the
    /// selected one again refreshes them).
    pub fn select_socket(&mut self, socket: &String, request_id: u64) -> (command: Option<WebviewCommand>)
        ensures
            match old(self).target {
                Some(t) => {
                    &&& command matches Some(
                        WebviewCommand::ListWebviewPages { request_id: id, target, socket: s, port },
                    ) && id == request_id && target@ == t@ && s@ == socket@ && port == DEVTOOLS_LOCAL_PORT
                    &&& *final(self) == (WebviewPanelState {
                        selected_socket: Some(*socket),
                        pending: Pending::Pages(request_id),
                        pages_requested_for: Some(*socket),
                        ..*old(self)
                    })
                },
                None => command is None && *final(self) == *old(self),
            },
    {
        let target = match &self.target {
            Some(t) => t.duplicate(),
            None => {
                return None;
            },
        };
        self.selected_socket = Some(socket.clone());
        self.pending = Pending::Pages(request_id);
        self.pages_requested_for = Some(socket.clone());
        Some(WebviewCommand::ListWebviewPages { request_id, target, socket: socket.clone(), port: DEVTOOLS_LOCAL_PORT })
    }

    /// Fetches the pages of the selected socket once, when none are shown,
    /// nothing runs, and they were not asked for that socket yet.
    pub fn fetch_selected_pages(&mut self, request_id: u64) -> (command: Option<WebviewCommand>)
        ensures
            ({
                let due = old(self).pending == Pending::Idle && old(self).pages@.len() == 0
                    && old(self).target is Some && (old(self).selected_socket matches Some(s) && !(
                old(self).pages_requested_for matches Some(r) && r@ == s@));
                &&& due ==> (command matches Some(
                    WebviewCommand::ListWebviewPages { request_id: id, target, socket, port },
                ) && id == request_id && target@ == old(self).target->0@ && socket
                    == old(self).selected_socket->0 && port == DEVTOOLS_LOCAL_PORT) && *final(self) == (
                WebviewPanelState {
                    pending: Pending::Pages(request_id),
                    pages_requested_for: old(self).selected_socket,
                    ..*old(self)
                })
                &&& !due ==> command is None && *final(self) == *old(self)
            }),
    {
        if self.busy() || self.pages.len() > 0 {
            return None;
        }
        let socket = match &self.selected_socket {
            Some(s) => s.clone(),
            None => {
                return None;
            },
        };
        let asked = match &self.pages_requested_for {
            Some(r) => *r == socket,
            None => false,
        };
        if asked {
            return None;
        }
        let target = match &self.target {
            Some(t) => t.duplicate(),
            None => {
                return None;
            },
        };
        self.pending = Pending::Pages(request_id);
        self.pages_requested_for = Some(socket.clone());
        Some(WebviewCommand::ListWebviewPages { request_id, target, socket, port: DEVTOOLS_LOCAL_PORT })
    }
}

/// The automatic socket search: for an online device, while idle, with no
/// socket found and no search in the last retry interval.
pub open spec fn auto_refresh_due(state: WebviewPanelState, online: bool, now_ms: u64) -> bool {
    &&& online
    &&& state.pending == Pending::Idle
    &&& state.sockets@.len() == 0
    &&& !(state.last_refresh matches Some(l) && !(now_ms >= l && now_ms - l >= AUTO_REFRESH_RETRY_MS))
    &&& state.target is Some
}

/// Called each frame at `now_ms`: searches for DevTools sockets while none
/// has been found, so plugged-in WebViews show up by themselves.
pub fn auto_refresh(state: &mut WebviewPanelState, target_online: bool, now_ms: u64, request_id: u64) -> (command: Option<
    WebviewCommand,
>)
    ensures
        auto_refresh_due(*old(state), target_online, now_ms) ==> (command matches Some(
            WebviewCommand::ListWebviewSockets { request_id: id, target },
        ) && id == request_id && target@ == old(state).target->0@) && *final(state) == (WebviewPanelState {
            pending: Pending::Sockets(request_id),
            last_refresh: Some(now_ms),
            ..*old(state)
        }),
        !auto_refresh_due(*old(state), target_online, now_ms) ==> command is None && *final(state)
            == *old(state),
{
    if !target_online || state.busy() || state.sockets.len() > 0 {
        return None;
    }
    let recently = match state.last_refresh {
        Some(last) => !(now_ms >= last && now_ms - last >= AUTO_REFRESH_RETRY_MS),
        None => false,
    };
    if recently {
        return None;
    }
    let target = match &state.target {
        Some(t) => t.duplicate(),
        None => {
            return None;
        },
    };
    state.pending = Pending::Sockets(request_id);
    state.last_refresh = Some(now_ms);
    Some(WebviewCommand::ListWebviewSockets { request_id, target })
}

/// The DevTools path of a page: what follows the first `/` after the
/// `ws://127.0.0.1` prefix of its debugger address.
pub open spec fn ws_path(debugger_url: Seq<char>) -> Option<Seq<char>> {
    let prefix = "ws://127.0.0.1"@;
    if debugger_url.len() >= prefix.len() && debugger_url.take(prefix.len() as int) == prefix {
        let rest = debugger_url.skip(prefix.len() as int);
        if exists|i: int| 0 <= i < rest.len() && rest[i] == '/' {
            let i = choose|i: int|
                0 <= i < rest.len() && rest[i] == '/' && forall|j: int| 0 <= j < i ==> rest[j] != '/';
            Some(rest.skip(i + 1))
        } else {
            None
        }
    } else {
        None
    }
}

/// The inspector address of a page served on the local `port`.
pub open spec fn inspector_text(path: Seq<char>, port: u16) -> Seq<char> {
    "http://127.0.0.1:"@ + decimal(port as nat) + "/devtools/inspector.html?ws=127.0.0.1:"@ + decimal(
        port as nat,
    ) + seq!['/'] + path
}

/// The DevTools frontend address for a page, when its debugger address is
/// local and a port is forwarded.
pub fn inspector_url(page: &WebViewPage, port: Option<u16>) -> (url: Option<String>)
    ensures
        match (ws_path(page.debugger_url@), port) {
            (Some(path), Some(p)) => url matches Some(u) && u@ == inspector_text(path, p),
            _ => url is None,
        },
{
    let chars = chars_of(page.debugger_url.as_str());
    let prefix = chars_of("ws://127.0.0.1");
    proof {
        reveal_strlit("ws://127.0.0.1");
    }
    let ghost full = page.debugger_url@;
    if chars.len() < prefix.len() {
        return None;
    }
    let mut k: usize = 0;
    while k < prefix.len()
        invariant
            k <= prefix@.len() <= chars@.len(),
            chars@ == full,
            full == page.debugger_url@,
            prefix@ == "ws://127.0.0.1"@,
            forall|j: int| 0 <= j < k ==> chars@[j] == prefix@[j],
        decreases prefix@.len() - k,
    {
        if chars[k] != prefix[k] {
            assert(full.take(prefix@.len() as int)[k as int] != prefix@[k as int]);
            return None;
        }
        k = k + 1;
    }
    assert(full.take(prefix@.len() as int) =~= prefix@);
    let ghost rest = full.skip(prefix@.len() as int);
    let start = prefix.len();
    let mut i: usize = start;
    while i < chars.len() && chars[i] != '/'
        invariant
            start <= i <= chars@.len(),
            start == prefix@.len(),
            chars@ == full,
            rest == full.skip(start as int),
            forall|j: int| 0 <= j < i - start ==> rest[j] != '/',
        decreases chars@.len() - i,
    {
        i = i + 1;
    }
    if i == chars.len() {
        assert(forall|j: int| 0 <= j < rest.len() ==> rest[j] != '/');
        return None;
    }
    let p = match port {
        Some(p) => p,
        None => {
            return None;
        },
    };
    proof {
        let at = (i - start) as int;
        assert(rest[at] == '/');
        let c = choose|c: int| 0 <= c < rest.len() && rest[c] == '/' && forall|j: int| 0 <= j < c ==> rest[j] != '/';
        if c < at {
            assert(rest[c] != '/');
        }
        if c > at {
            assert(rest[at] != '/');
        }
        assert(c == at);
    }
    let mut url = string_of(chars_of("http://127.0.0.1:").as_slice());
    push_chars(&mut url, decimal_chars(p as u64).as_slice());
    push_chars(&mut url, chars_of("/devtools/inspector.html?ws=127.0.0.1:").as_slice());
    push_chars(&mut url, decimal_chars(p as u64).as_slice());
    crate::text::push_char(&mut url, '/');
    let mut j: usize = i + 1;
    let ghost head = url@;
    while j < chars.len()
        invariant
            i + 1 <= j <= chars@.len(),
            chars@ == full,
            url@ == head + chars@.subrange(i + 1, j as int),
        decreases chars@.len() - j,
    {
        crate::text::push_char(&mut url, chars[j]);
        j = j + 1;
        assert(url@ =~= head + chars@.subrange(i + 1, j as int));
    }
    assert(chars@.subrange(i + 1, chars@.len() as int) =~= rest.skip((i - start) + 1));
    Some(url)
}

/// The title shown for a page: `(untitled)` when it has none.
pub fn page_title(page: &WebViewPage) -> (title: &str)
    ensures
        title@ == if page.title@.len() == 0 {
            "(untitled)"@
        } else {
            page.title@
        },
{
    if page.title.as_str().unicode_len() == 0 {
        "(untitled)"
    } else {
        page.title.as_str()
    }
}

} // verus!
