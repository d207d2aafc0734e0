use bridgescope::device::{BridgeError, DeviceTarget};
use bridgescope::webview::{
    inspector_url, page_title, Pending, WebViewPage, WebviewCommand, WebviewEvent, WebviewPanelState,
    DEVTOOLS_LOCAL_PORT,
};

fn page(title: &str, debugger_url: &str) -> WebViewPage {
    WebViewPage {
        title: title.to_owned(),
        url: "https://example.com".to_owned(),
        kind: "page".to_owned(),
        debugger_url: debugger_url.to_owned(),
    }
}

#[test]
fn sockets_select_the_first_and_fetch_its_pages_once() {
    let mut state = WebviewPanelState::default();
    state.reset_for(Some(DeviceTarget::new("s", 1)));
    let command = bridgescope::webview::auto_refresh(&mut state, true, 0, 1);
    assert!(matches!(command, Some(WebviewCommand::ListWebviewSockets { request_id: 1, .. })));
    assert!(bridgescope::webview::auto_refresh(&mut state, true, 1, 2).is_none(), "busy");
    state.handle_event(&WebviewEvent::WebviewSocketsLoaded {
        request_id: 1,
        sockets: vec!["webview_devtools_remote_1".to_owned(), "chrome_devtools_remote".to_owned()],
    });
    assert_eq!(state.selected_socket.as_deref(), Some("webview_devtools_remote_1"));
    let fetch = state.fetch_selected_pages(3);
    assert!(matches!(
        fetch,
        Some(WebviewCommand::ListWebviewPages { request_id: 3, ref socket, port, .. })
            if socket == "webview_devtools_remote_1" && port == DEVTOOLS_LOCAL_PORT
    ));
    assert!(state.fetch_selected_pages(4).is_none(), "in flight");
    state.handle_event(&WebviewEvent::WebviewFailed { request_id: 3, error: BridgeError::invalid_input("webview.x") });
    assert_eq!(state.pending, Pending::Idle);
    assert!(state.fetch_selected_pages(5).is_none(), "already asked for this socket");
    let again = state.select_socket(&"chrome_devtools_remote".to_owned(), 6);
    assert!(again.is_some());
    state.handle_event(&WebviewEvent::WebviewPagesLoaded {
        request_id: 6,
        pages: vec![page("", "ws://127.0.0.1/devtools/page/ABC")],
        port: DEVTOOLS_LOCAL_PORT,
    });
    assert_eq!(state.pages.len(), 1);
    assert_eq!(state.active_port, Some(DEVTOOLS_LOCAL_PORT));
}

#[test]
fn inspector_addresses_point_at_the_forwarded_port() {
    let p = page("t", "ws://127.0.0.1/devtools/page/ABC");
    assert_eq!(
        inspector_url(&p, Some(39222)).as_deref(),
        Some("http://127.0.0.1:39222/devtools/inspector.html?ws=127.0.0.1:39222/devtools/page/ABC")
    );
    assert!(inspector_url(&p, None).is_none());
    assert!(inspector_url(&page("t", "ws://10.0.0.1/devtools/page/ABC"), Some(1)).is_none());
    assert!(inspector_url(&page("t", "ws://127.0.0.1"), Some(1)).is_none());
    assert_eq!(
        inspector_url(&page("t", "ws://127.0.0.1:9222/x"), Some(1)).as_deref(),
        Some("http://127.0.0.1:1/devtools/inspector.html?ws=127.0.0.1:1/x")
    );
    assert_eq!(page_title(&page("", "")), "(untitled)");
    assert_eq!(page_title(&page("Home", "")), "Home");
}

#[test]
fn auto_refresh_backs_off_while_nothing_is_found() {
    let mut state = WebviewPanelState::default();
    assert!(bridgescope::webview::auto_refresh(&mut state, true, 0, 1).is_none(), "no device");
    state.reset_for(Some(DeviceTarget::new("s", 1)));
    assert!(bridgescope::webview::auto_refresh(&mut state, false, 0, 1).is_none(), "offline");
    assert!(bridgescope::webview::auto_refresh(&mut state, true, 100, 2).is_some());
    state.handle_event(&WebviewEvent::WebviewSocketsLoaded { request_id: 2, sockets: Vec::new() });
    assert!(bridgescope::webview::auto_refresh(&mut state, true, 5_000, 3).is_none());
    assert!(bridgescope::webview::auto_refresh(&mut state, true, 8_100, 4).is_some());
}
