use traceline::discover::{candidates, notfound_msg, Action, Connection, Discovery};
use traceline::locate::ErrDetails;

fn place() -> ErrDetails {
    ErrDetails::new("net.rs".to_string(), 12, "connection::new".to_string())
}

fn machine(ip: &str, port: u16, timeout: u64) -> Discovery {
    Discovery::new(ip.to_string(), port, timeout, "192.168.1.".to_string(), place())
}

#[test]
fn candidate_list_covers_the_whole_slash24() {
    let v = candidates("192.168.1.");
    assert_eq!(v.len(), 254);
    assert_eq!(v[0], "192.168.1.1");
    assert_eq!(v[41], "192.168.1.42");
    assert_eq!(v[253], "192.168.1.254");
}

#[test]
fn notfound_message_names_prefix_and_port() {
    assert_eq!(
        notfound_msg("192.168.1.", 5000),
        "No reachable server found for LAN at address: 192.168.1.X:5000"
    );
}

#[test]
fn direct_success_returns_without_any_sweep() {
    let mut d = machine("10.0.0.5", 7777, 100);
    match d.next_action() {
        Action::TryDirect(addr, port, timeout) => {
            assert_eq!(addr, "10.0.0.5");
            assert_eq!(port, 7777);
            assert_eq!(timeout, 100);
        },
        Action::TrySweep(..) => panic!("sweep issued before the direct attempt"),
        Action::Finished => panic!("finished before any attempt"),
    }
    d.on_result(Some(0));
    // the machine is done: it never asks for a sweep
    assert!(matches!(d.next_action(), Action::Finished));
    let conn: Connection = d.into_result().unwrap().unwrap();
    assert_eq!(conn.peer_addr(), "10.0.0.5");
}

#[test]
fn failed_direct_attempt_falls_back_to_the_sweep() {
    let mut d = machine("10.0.0.5", 7777, 100);
    d.on_result(None);
    match d.next_action() {
        Action::TrySweep(addrs, port, timeout) => {
            assert_eq!(addrs.len(), 254);
            assert_eq!(addrs[0], "192.168.1.1");
            assert_eq!(addrs[253], "192.168.1.254");
            assert_eq!(port, 7777);
            assert_eq!(timeout, 100);
        },
        _ => panic!("a failed direct attempt must lead to the sweep"),
    }
    d.on_result(Some(41));
    let conn = d.into_result().unwrap().unwrap();
    assert_eq!(conn.peer_addr(), "192.168.1.42");
}

#[test]
fn exhausted_search_reports_not_found_naming_the_port() {
    let mut d = machine("10.0.0.5", 7777, 100);
    d.on_result(None);
    d.on_result(None);
    let out = d.into_result().unwrap();
    match out {
        Err(f) => {
            assert_eq!(f.places_len(), 1);
            assert_eq!(
                f.message(),
                "No reachable server found for LAN at address: 192.168.1.X:7777"
            );
        },
        Ok(_) => panic!("an exhausted search must fail"),
    }
}

#[test]
fn all_candidates_refusing_yields_not_found_containing_the_port() {
    // discover("10.0.0.99", 5000, 500) with no listener anywhere and all
    // 254 sweep candidates refusing
    let mut d = machine("10.0.0.99", 5000, 500);
    d.on_result(None);
    d.on_result(None);
    match d.into_result().unwrap() {
        Err(f) => assert!(f.message().contains("5000")),
        Ok(_) => panic!("no listener anywhere, yet discovery succeeded"),
    }
}

#[test]
fn finished_machine_ignores_later_reports() {
    let mut d = machine("10.0.0.5", 7777, 100);
    d.on_result(Some(0));
    d.on_result(None);
    let conn = d.into_result().unwrap().unwrap();
    assert_eq!(conn.peer_addr(), "10.0.0.5");
}
