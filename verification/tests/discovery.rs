use screenshare::discovery::{start_listener, TailscalePeer};
use screenshare::protocol::{DiscoveryMessage, STREAM_PORT};

#[test]
fn announcement_is_from_lan() {
    let m = DiscoveryMessage::announcement("host".into(), "192.168.1.42".into(), 42070, "Terminal - tmux".into(), "terminal".into());
    assert_eq!(m.hostname, "host");
    assert_eq!(m.ip, "192.168.1.42");
    assert_eq!(m.port, 42070);
    assert_eq!(m.sharing, "Terminal - tmux");
    assert_eq!(m.mode, "terminal");
    assert_eq!(m.source, "lan");
}

#[test]
fn listener_ignores_own_announcements() {
    let l = start_listener("192.168.1.5".into());
    let own = DiscoveryMessage::announcement("me".into(), "192.168.1.5".into(), 1, "".into(), "".into());
    assert!(l.accept(own).is_none());
    let other = DiscoveryMessage::announcement("you".into(), "192.168.1.6".into(), 1, "".into(), "".into());
    let got = l.accept(other).unwrap();
    assert_eq!(got.hostname, "you");
}

fn peer(name: &str, ips: Option<Vec<&str>>, online: bool) -> TailscalePeer {
    TailscalePeer {
        host_name: name.into(),
        tailscale_ips: ips.map(|v| v.into_iter().map(String::from).collect()),
        online,
    }
}

#[test]
fn tailscale_peers_worth_probing() {
    let l = start_listener("100.64.0.1".into());
    let peers = vec![
        peer("offline", Some(vec!["100.64.0.2"]), false),
        peer("noips", None, true),
        peer("empty", Some(vec![]), true),
        peer("me", Some(vec!["100.64.0.1", "fd7a::1"]), true),
        peer("good", Some(vec!["100.64.0.3", "fd7a::3"]), true),
    ];
    let out = l.tailscale_peers(&peers);
    assert_eq!(out.len(), 1);
    assert_eq!(out[0].hostname, "good");
    assert_eq!(out[0].ip, "100.64.0.3");
    assert_eq!(out[0].port, STREAM_PORT);
    assert_eq!(out[0].sharing, "");
    assert_eq!(out[0].mode, "");
    assert_eq!(out[0].source, "tailscale");
}
