//! Discovery: the announcement a sharer broadcasts, which announcements a
//! listener passes on, and which Tailscale peers are worth probing.

use vstd::prelude::*;
use crate::protocol::{DiscoveryMessage, MessageView, STREAM_PORT};
use crate::text::text_eq;
use crate::capture::lemma_filter_map_has;

verus! {

impl DiscoveryMessage {
    /// The announcement a sharer broadcasts on the local network.
    pub fn announcement(hostname: String, ip: String, port: u16, sharing: String, mode: String) -> (res: DiscoveryMessage)
        ensures
            res@ == (MessageView {
                hostname: hostname@,
                ip: ip@,
                port: port,
                sharing: sharing@,
                mode: mode@,
                source: "lan"@,
            }),
    {
        DiscoveryMessage { hostname, ip, port, sharing, mode, source: String::from_str("lan") }
    }
}

/// A peer as `tailscale status --json` reports it.
pub struct TailscalePeer {
    pub host_name: String,
    pub tailscale_ips: Option<Vec<String>>,
    pub online: bool,
}

/// The announcement made on behalf of a Tailscale peer, if it is worth
/// probing: it is online, has an address, and its first address is not
/// `my_ip`.
pub open spec fn tailscale_entry(p: TailscalePeer, my_ip: Seq<char>) -> Option<MessageView> {
    if p.online && p.tailscale_ips is Some && p.tailscale_ips->0@.len() > 0
        && p.tailscale_ips->0@[0]@ != my_ip {
        Some(MessageView {
            hostname: p.host_name@,
            ip: p.tailscale_ips->0@[0]@,
            port: STREAM_PORT,
            sharing: Seq::empty(),
            mode: Seq::empty(),
            source: "tailscale"@,
        })
    } else {
        None
    }
}

/// A Tailscale peer is worth probing exactly when it is online, has an
/// address, and its first address is not the listener's own; the
/// announcement made for it names its host and that first address, on the
/// stream port, as found through Tailscale.
pub proof fn law_tailscale_entry_iff_online_and_other(p: TailscalePeer, my_ip: Seq<char>)
    ensures
        tailscale_entry(p, my_ip) is Some <==> (p.online && p.tailscale_ips is Some
            && p.tailscale_ips->0@.len() > 0 && p.tailscale_ips->0@[0]@ != my_ip),
        !p.online ==> tailscale_entry(p, my_ip) is None,
        tailscale_entry(p, my_ip) matches Some(m) ==> m.hostname == p.host_name@ && m.ip
            == p.tailscale_ips->0@[0]@ && m.ip != my_ip && m.port == STREAM_PORT && m.source
            == "tailscale"@,
{
}

/// Every announcement made for Tailscale peers is for a peer that is
/// online and whose first address is not the listener's; and every such
/// peer gets one.
pub proof fn law_tailscale_peers_are_online_others(peers: Seq<TailscalePeer>, my_ip: Seq<char>, m: MessageView)
    ensures
        peers.filter_map(|p: TailscalePeer| tailscale_entry(p, my_ip)).contains(m) ==> exists|i: int|
            0 <= i < peers.len() && (#[trigger] peers[i]).online && peers[i].tailscale_ips is Some
                && peers[i].tailscale_ips->0@.len() > 0 && m.ip == peers[i].tailscale_ips->0@[0]@
                && m.ip != my_ip,
        forall|i: int|
            0 <= i < peers.len() && (#[trigger] peers[i]).online && peers[i].tailscale_ips is Some
                && peers[i].tailscale_ips->0@.len() > 0 && peers[i].tailscale_ips->0@[0]@ != my_ip
                ==> peers.filter_map(|p: TailscalePeer| tailscale_entry(p, my_ip)).contains(
                tailscale_entry(peers[i], my_ip)->0),
{
    let f = |p: TailscalePeer| tailscale_entry(p, my_ip);
    if peers.filter_map(f).contains(m) {
        peers.lemma_filter_map_contains(f, m);
        let t = choose|t: TailscalePeer| peers.contains(t) && f(t) == Some(m);
        let i = choose|i: int| 0 <= i < peers.len() && peers[i] == t;
        law_tailscale_entry_iff_online_and_other(t, my_ip);
    }
    assert forall|i: int|
        0 <= i < peers.len() && (#[trigger] peers[i]).online && peers[i].tailscale_ips is Some
            && peers[i].tailscale_ips->0@.len() > 0 && peers[i].tailscale_ips->0@[0]@ != my_ip
        implies peers.filter_map(f).contains(tailscale_entry(peers[i], my_ip)->0) by {
        lemma_filter_map_has(peers, f, i);
    }
}

/// The decisions of a discovery listener, which ignores its own address.
pub struct Listener {
    my_ip: String,
}

impl Listener {
    /// The address the listener ignores.
    pub closed spec fn my_ip(&self) -> Seq<char> {
        self.my_ip@
    }

    /// Passes on an announcement heard on the local network unless it is
    /// the listener's own.
    pub fn accept(&self, msg: DiscoveryMessage) -> (res: Option<DiscoveryMessage>)
        ensures
            res == if msg.ip@ != self.my_ip() { Some(msg) } else { None::<DiscoveryMessage> },
    {
        if text_eq(msg.ip.as_str(), self.my_ip.as_str()) {
            None
        } else {
            Some(msg)
        }
    }

    /// The announcements made on behalf of the Tailscale peers worth
    /// probing, in the order given (see [`tailscale_entry`]).
    pub fn tailscale_peers(&self, peers: &Vec<TailscalePeer>) -> (res: Vec<DiscoveryMessage>)
        ensures
            res@.map_values(|m: DiscoveryMessage| m@) == peers@.filter_map(
                |p: TailscalePeer| tailscale_entry(p, self.my_ip()),
            ),
    {
        let ghost f = |p: TailscalePeer| tailscale_entry(p, self.my_ip());
        let mut res: Vec<DiscoveryMessage> = Vec::new();
        let mut i: usize = 0;
        while i < peers.len()
            invariant
                i <= peers@.len(),
                f == (|p: TailscalePeer| tailscale_entry(p, self.my_ip())),
                res@.map_values(|m: DiscoveryMessage| m@) == peers@.take(i as int).filter_map(f),
            decreases peers@.len() - i,
        {
            let p = &peers[i];
            proof {
                peers@.lemma_filter_map_take_succ(f, i as int);
            }
            if p.online {
                if let Some(ips) = &p.tailscale_ips {
                    if ips.len() > 0 && !text_eq(ips[0].as_str(), self.my_ip.as_str()) {
                        let ghost before = res@;
                        res.push(
                            DiscoveryMessage {
                                hostname: p.host_name.clone(),
                                ip: ips[0].clone(),
                                port: STREAM_PORT,
                                sharing: String::new(),
                                mode: String::new(),
                                source: String::from_str("tailscale"),
                            },
                        );
                        assert(res@.map_values(|m: DiscoveryMessage| m@) =~= before.map_values(
                            |m: DiscoveryMessage| m@,
                        ).push(res@[res@.len() - 1]@));
                    }
                }
            }
            i = i + 1;
        }
        assert(peers@.take(i as int) =~= peers@);
        res
    }
}

/// The decisions of a discovery listener ignoring `my_ip`: announcements
/// from the local network and from Tailscale are passed on as its methods
/// say; the program runs both listeners and feeds them.
pub fn start_listener(my_ip: String) -> (res: Listener)
    ensures
        res.my_ip() == my_ip@,
{
    Listener { my_ip }
}

} // verus!
