use chrome_resolve::connection::{
    ConnectionResolver, ProbeRequest, ResolveStep, SessionRecord,
};
use chrome_resolve::error::AppError;

#[test]
fn explicit_url_resolves_at_once_with_parsed_port() {
    let (resolver, step) = ConnectionResolver::start("h", 9999, Some("ws://h:9222/x"));
    match step {
        ResolveStep::Resolved(conn) => {
            assert_eq!(conn.ws_url, "ws://h:9222/x");
            assert_eq!(conn.host, "h");
            assert_eq!(conn.port, 9222);
        }
        _ => panic!("explicit URL must resolve immediately"),
    }
    assert_eq!(resolver.host, "h");
}

#[test]
fn explicit_url_without_port_falls_back_to_default() {
    let (_, step) = ConnectionResolver::start("h", 9999, Some("ws://h/x"));
    match step {
        ResolveStep::Resolved(conn) => {
            assert_eq!(conn.ws_url, "ws://h/x");
            assert_eq!(conn.port, 9999);
        }
        _ => panic!("explicit URL must resolve immediately"),
    }
}

#[test]
fn without_explicit_url_the_session_store_is_read_first() {
    let (_, step) = ConnectionResolver::start("localhost", 9222, None);
    assert!(matches!(step, ResolveStep::Probe(ProbeRequest::ReadSession)));
}

#[test]
fn session_record_triggers_liveness_probe_at_its_port() {
    let (mut resolver, _) = ConnectionResolver::start("localhost", 9222, None);
    let record = SessionRecord {
        ws_url: "ws://localhost:9500/devtools/browser/saved".to_string(),
        port: 9500,
    };
    let step = resolver.on_session(Ok(Some(record)));
    match step {
        ResolveStep::Probe(ProbeRequest::CheckLiveness { port }) => assert_eq!(port, 9500),
        _ => panic!("a session record must be health-checked"),
    }
}

#[test]
fn live_session_resolves_to_the_record() {
    let (mut resolver, _) = ConnectionResolver::start("localhost", 9222, None);
    let record = SessionRecord {
        ws_url: "ws://localhost:9500/devtools/browser/saved".to_string(),
        port: 9500,
    };
    resolver.on_session(Ok(Some(record)));
    let step = resolver.on_liveness(true);
    match step {
        ResolveStep::Resolved(conn) => {
            assert_eq!(conn.ws_url, "ws://localhost:9500/devtools/browser/saved");
            assert_eq!(conn.host, "localhost");
            assert_eq!(conn.port, 9500);
        }
        _ => panic!("a live session must resolve"),
    }
}

#[test]
fn dead_session_is_terminal_and_never_reaches_discovery() {
    let (mut resolver, _) = ConnectionResolver::start("localhost", 9222, None);
    let record = SessionRecord {
        ws_url: "ws://localhost:9500/devtools/browser/saved".to_string(),
        port: 9500,
    };
    resolver.on_session(Ok(Some(record)));
    let step = resolver.on_liveness(false);
    match step {
        ResolveStep::Failed(err) => {
            assert_eq!(err.code.as_u8(), 2);
            assert!(err.message.contains("Stale session"));
        }
        ResolveStep::Probe(_) => panic!("a dead session must not fall through to discovery"),
        ResolveStep::Resolved(_) => panic!("a dead session must not resolve"),
    }
}

#[test]
fn no_session_record_moves_to_discovery_at_default_port() {
    let (mut resolver, _) = ConnectionResolver::start("localhost", 9222, None);
    let step = resolver.on_session(Ok(None));
    match step {
        ResolveStep::Probe(ProbeRequest::Discover { port }) => assert_eq!(port, 9222),
        _ => panic!("no record must move the chain to discovery"),
    }
}

#[test]
fn successful_discovery_resolves_to_the_discovered_address() {
    let (mut resolver, _) = ConnectionResolver::start("h", 9222, None);
    resolver.on_session(Ok(None));
    let step = resolver.on_discovery(Some(("ws://h:7000/y".to_string(), 7000)));
    match step {
        ResolveStep::Resolved(conn) => {
            assert_eq!(conn.ws_url, "ws://h:7000/y");
            assert_eq!(conn.host, "h");
            assert_eq!(conn.port, 7000);
        }
        _ => panic!("a successful discovery must resolve"),
    }
}

#[test]
fn failed_discovery_reports_no_chrome_found() {
    let (mut resolver, _) = ConnectionResolver::start("h", 9222, None);
    resolver.on_session(Ok(None));
    let step = resolver.on_discovery(None);
    match step {
        ResolveStep::Failed(err) => {
            assert_eq!(err.code.as_u8(), 2);
            assert!(err.message.contains("No Chrome found"));
        }
        _ => panic!("a failed discovery must fail resolution"),
    }
}

#[test]
fn session_read_failure_propagates_unchanged() {
    let (mut resolver, _) = ConnectionResolver::start("h", 9222, None);
    let step = resolver.on_session(Err(AppError::not_implemented("session")));
    match step {
        ResolveStep::Failed(err) => {
            assert_eq!(err.message, "session: not yet implemented");
            assert_eq!(err.code.as_u8(), 1);
        }
        _ => panic!("a session read failure must end resolution"),
    }
}
