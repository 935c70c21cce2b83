use screenshare::protocol::DiscoveryMessage;
use screenshare::sharers::SharerTable;

fn msg(host: &str, ip: &str, mode: &str, source: &str) -> DiscoveryMessage {
    DiscoveryMessage {
        hostname: host.into(),
        ip: ip.into(),
        port: 42070,
        sharing: format!("{host} stuff"),
        mode: mode.into(),
        source: source.into(),
    }
}

#[test]
fn upsert_replaces_by_ip() {
    let mut t = SharerTable::new();
    t.upsert(msg("a", "10.0.0.1", "screen", "lan"), 0);
    t.upsert(msg("b", "10.0.0.2", "terminal", "lan"), 10);
    t.upsert(msg("a2", "10.0.0.1", "terminal", "lan"), 20);
    assert_eq!(t.len(), 2);
    let infos = t.infos();
    assert_eq!(infos[0].hostname, "a2");
    assert_eq!(infos[0].ip, "10.0.0.1");
    assert_eq!(infos[0].mode, "terminal");
    assert_eq!(infos[1].hostname, "b");
}

#[test]
fn prune_drops_stale_peers() {
    let mut t = SharerTable::new();
    t.upsert(msg("old", "10.0.0.1", "screen", "lan"), 1000);
    t.upsert(msg("new", "10.0.0.2", "screen", "lan"), 2000);
    t.prune(6999);
    assert_eq!(t.len(), 2);
    t.prune(7000);
    let infos = t.infos();
    assert_eq!(infos.len(), 1);
    assert_eq!(infos[0].hostname, "new");
    t.prune(8000);
    assert_eq!(t.len(), 0);
}

#[test]
fn prune_with_earlier_clock_keeps_peer() {
    let mut t = SharerTable::new();
    t.upsert(msg("a", "10.0.0.1", "", "lan"), 5000);
    t.prune(10);
    assert_eq!(t.len(), 1);
}

#[test]
fn recorded_peer_survives_prune_at_same_time() {
    let mut t = SharerTable::new();
    t.upsert(msg("a", "10.0.0.1", "", "lan"), 100);
    t.upsert(msg("a", "10.0.0.1", "", "lan"), 50_000);
    t.prune(50_000);
    assert_eq!(t.len(), 1);
}

#[test]
fn sharers_of_every_mode_are_listed() {
    let mut t = SharerTable::new();
    t.upsert(msg("scr", "10.0.0.1", "screen", "lan"), 0);
    t.upsert(msg("term", "10.0.0.2", "terminal", "lan"), 0);
    t.upsert(msg("old", "10.0.0.3", "", "tailscale"), 0);
    let list = t.infos();
    assert_eq!(list.len(), 3);
    assert_eq!(list[0].hostname, "scr");
    assert_eq!(list[0].mode, "screen");
    assert_eq!(list[1].hostname, "term");
    assert_eq!(list[2].hostname, "old");
    assert_eq!(list[2].source, "tailscale");
}

#[test]
fn update_records_then_prunes() {
    let mut t = SharerTable::new();
    t.upsert(msg("gone", "10.0.0.9", "screen", "lan"), 0);
    t.update(vec![msg("a", "10.0.0.1", "screen", "lan"), msg("b", "10.0.0.2", "screen", "lan"), msg("a3", "10.0.0.1", "terminal", "lan")], 6000);
    let infos = t.infos();
    assert_eq!(infos.len(), 2);
    assert_eq!(infos[0].hostname, "a3");
    assert_eq!(infos[1].hostname, "b");
}
