//! The discovery engine's decisions: what an incoming announcement or
//! registration does to the peer table, and what is sent back.
use vstd::prelude::*;
use crate::device::{
    DeviceInfoV1, DeviceInfoV1Response, DeviceInfoV2, DeviceView, InfoQuery, empty_record,
    from_v1, v1_of, with_announce,
};
use crate::error::ApiError;
use crate::keyed::{keyed_map, unique_keys};
use crate::peers::{PeerAddress, PeerEntry, PeerTable};
use crate::text::str_eq;

verus! {

/// Size of the buffer a multicast datagram is received into. A datagram that
/// fills it may have been cut short.
pub const RECEIVE_BUFFER_LEN: usize = 65536;

/// Whether a datagram of which `received` bytes were read is whole; one that
/// filled the buffer is dropped.
pub fn is_whole_datagram(received: usize) -> (r: bool)
    ensures
        r == (received < RECEIVE_BUFFER_LEN),
{
    received < RECEIVE_BUFFER_LEN
}

/// A record heard on the multicast group, in the protocol version it parsed as.
#[derive(Clone, Debug)]
pub enum Announcement {
    V2(DeviceInfoV2),
    V1(DeviceInfoV1),
}

/// The record an announcement stands for, as kept in the peer table.
pub open spec fn announced_record(a: Announcement) -> DeviceView {
    match a {
        Announcement::V2(d) => d@,
        Announcement::V1(v) => from_v1(v@),
    }
}

/// Whether an announcement asks for an answer.
pub open spec fn asks_reply(a: Announcement) -> bool {
    announced_record(a).announce
}

/// What is sent back to an announcement that asked for an answer.
#[derive(Clone, Debug)]
pub enum Reply {
    /// This peer's v2 record, sent on the multicast group and registered over
    /// HTTP at the given address.
    V2 { record: DeviceInfoV2, register_at: PeerAddress },
    /// This peer's compact v1 record, sent on the multicast group.
    V1 { record: DeviceInfoV1 },
}

impl Reply {
    /// The `announce` bit the reply carries.
    pub open spec fn announces(self) -> bool {
        match self {
            Reply::V2 { record, .. } => record.announce,
            Reply::V1 { record } => record.announcement,
        }
    }
}

/// The reply owed to announcement `a` heard from `source_ip` by a peer
/// whose record is `me`.
pub open spec fn is_reply_to(r: Reply, me: DeviceView, a: Announcement, source_ip: u32) -> bool {
    match (r, a) {
        (Reply::V2 { record, register_at }, Announcement::V2(d)) => {
            &&& record@ == with_announce(me, false)
            &&& register_at == (PeerAddress { ip: source_ip, port: d.port })
        },
        (Reply::V1 { record }, Announcement::V1(_)) => record@ == v1_of(with_announce(me, false)),
        _ => false,
    }
}

/// The discovery state: this peer's own record and the peers it knows.
pub struct Discovery {
    device: DeviceInfoV2,
    peers: PeerTable,
}

impl Discovery {
    /// This peer's own record.
    pub closed spec fn me(&self) -> DeviceView {
        self.device@
    }

    /// The peer table.
    pub closed spec fn table(&self) -> Map<Seq<char>, PeerEntry> {
        self.peers@
    }

    pub closed spec fn wf(&self) -> bool {
        &&& self.peers.wf()
        &&& self.peers.self_fp() == self.device.fingerprint@
    }

    /// No peer in the table carries this peer's fingerprint.
    pub proof fn lemma_self_never_peer(&self)
        requires
            self.wf(),
        ensures
            forall|k: Seq<char>| #[trigger] self.table().contains_key(k) ==> self.table()[k].device.fingerprint@
                != self.me().fingerprint,
            forall|k: Seq<char>| #[trigger] self.table().contains_key(k) ==> self.table()[k].device.fingerprint@ == k,
    {
        self.peers.lemma_no_self_entry();
        self.peers.lemma_entries_keyed();
    }

    pub fn new(device: DeviceInfoV2) -> (r: Discovery)
        ensures
            r.wf(),
            r.me() == device@,
            r.table() == Map::<Seq<char>, PeerEntry>::empty(),
    {
        let peers = PeerTable::new(device.fingerprint.clone());
        Discovery { device, peers }
    }

    pub fn device(&self) -> (r: &DeviceInfoV2)
        ensures
            r@ == self.me(),
    {
        &self.device
    }

    /// The record the periodic announcer sends: this peer's, asking for answers.
    pub fn announcement(&self) -> (r: DeviceInfoV2)
        ensures
            r@ == with_announce(self.me(), true),
    {
        let mut r = self.device.duplicate();
        r.announce = true;
        r
    }

    /// Handles a record heard on the multicast group from `source_ip` at
    /// `now`. A record under this peer's own fingerprint is ignored. Any
    /// other is stored, under the source address and the advertised port, and
    /// answered when it asks for an answer; the answer never asks for one.
    pub fn handle_announcement(&mut self, a: Announcement, source_ip: u32, now: u64) -> (r: Option<Reply>)
        requires
            old(self).wf(),
        ensures
            final(self).wf(),
            final(self).me() == old(self).me(),
            announced_record(a).fingerprint == old(self).me().fingerprint ==> {
                &&& final(self).table() == old(self).table()
                &&& r.is_none()
            },
            announced_record(a).fingerprint != old(self).me().fingerprint ==> {
                let fp = announced_record(a).fingerprint;
                &&& final(self).table().contains_key(fp)
                &&& final(self).table().remove(fp) == old(self).table().remove(fp)
                &&& final(self).table()[fp].device@ == announced_record(a)
                &&& final(self).table()[fp].address == (PeerAddress {
                    ip: source_ip,
                    port: announced_record(a).port,
                })
                &&& final(self).table()[fp].last_seen == now
                &&& (asks_reply(a) ==> r.is_some() && is_reply_to(r.unwrap(), old(self).me(), a, source_ip))
                &&& (!asks_reply(a) ==> r.is_none())
            },
            r.is_some() ==> !r.unwrap().announces(),
    {
        match a {
            Announcement::V2(d) => {
                let asks = d.announce;
                let port = d.port;
                let stored = self.peers.upsert(d, PeerAddress { ip: source_ip, port }, now);
                if stored && asks {
                    let mut record = self.device.duplicate();
                    record.announce = false;
                    Some(Reply::V2 { record, register_at: PeerAddress { ip: source_ip, port } })
                } else {
                    None
                }
            },
            Announcement::V1(v) => {
                let d = DeviceInfoV2::from_v1(v);
                let asks = d.announce;
                let port = d.port;
                let stored = self.peers.upsert(d, PeerAddress { ip: source_ip, port }, now);
                if stored && asks {
                    let mut me = self.device.duplicate();
                    me.announce = false;
                    Some(Reply::V1 { record: me.to_v1() })
                } else {
                    None
                }
            },
        }
    }

    /// The v2 `register` endpoint: stores the caller, heard from `source_ip`
    /// at `now`, unless it carries this peer's fingerprint, and answers with
    /// this peer's record.
    pub fn handle_v2_register(&mut self, d: DeviceInfoV2, source_ip: u32, now: u64) -> (r: DeviceInfoV2)
        requires
            old(self).wf(),
        ensures
            final(self).wf(),
            final(self).me() == old(self).me(),
            r@ == old(self).me(),
            d.fingerprint@ == old(self).me().fingerprint ==> final(self).table() == old(self).table(),
            d.fingerprint@ != old(self).me().fingerprint ==> final(self).table() == old(self).table().insert(
                d.fingerprint@,
                PeerEntry { device: d, address: PeerAddress { ip: source_ip, port: d.port }, last_seen: now },
            ),
    {
        let port = d.port;
        self.peers.upsert(d, PeerAddress { ip: source_ip, port }, now);
        self.device.duplicate()
    }

    /// The v1 `register` endpoint: stores the caller as a v1 peer unless it
    /// carries this peer's fingerprint, and answers with this peer's compact
    /// record.
    pub fn handle_v1_register(&mut self, v: DeviceInfoV1, source_ip: u32, now: u64) -> (r: DeviceInfoV1)
        requires
            old(self).wf(),
        ensures
            final(self).wf(),
            final(self).me() == old(self).me(),
            r@ == v1_of(old(self).me()),
            v.fingerprint@ == old(self).me().fingerprint ==> final(self).table() == old(self).table(),
            v.fingerprint@ != old(self).me().fingerprint ==> {
                &&& final(self).table().contains_key(v.fingerprint@)
                &&& final(self).table().remove(v.fingerprint@) == old(self).table().remove(v.fingerprint@)
                &&& final(self).table()[v.fingerprint@].device@ == from_v1(v@)
                &&& final(self).table()[v.fingerprint@].address == (PeerAddress {
                    ip: source_ip,
                    port: crate::device::MULTICAST_PORT,
                })
                &&& final(self).table()[v.fingerprint@].last_seen == now
            },
    {
        let d = DeviceInfoV2::from_v1(v);
        let port = d.port;
        self.peers.upsert(d, PeerAddress { ip: source_ip, port }, now);
        self.device.to_v1()
    }

    /// The v2 `info` endpoint: this peer's record, or an empty one when the
    /// asking fingerprint is this peer's own.
    pub fn handle_v2_info(&self, q: &InfoQuery) -> (r: DeviceInfoV2)
        ensures
            q.fingerprint@ == self.me().fingerprint ==> r@ == empty_record(),
            q.fingerprint@ != self.me().fingerprint ==> r@ == self.me(),
    {
        if str_eq(q.fingerprint.as_str(), self.device.fingerprint.as_str()) {
            DeviceInfoV2::empty()
        } else {
            self.device.duplicate()
        }
    }

    /// The v1 `info` endpoint: alias, model and type of this peer, or empty
    /// fields when the asking fingerprint is this peer's own.
    pub fn handle_v1_info(&self, q: &InfoQuery) -> (r: DeviceInfoV1Response)
        ensures
            q.fingerprint@ == self.me().fingerprint ==> {
                &&& r.alias@ == Seq::<char>::empty()
                &&& r.device_model.is_none()
                &&& r.device_type@ == Seq::<char>::empty()
            },
            q.fingerprint@ != self.me().fingerprint ==> {
                &&& r.alias@ == self.me().alias
                &&& crate::device::opt_view(r.device_model) == self.me().device_model
                &&& r.device_type@ == self.me().device_type.spec_token()
            },
    {
        if str_eq(q.fingerprint.as_str(), self.device.fingerprint.as_str()) {
            DeviceInfoV1Response { alias: String::new(), device_model: None, device_type: String::new() }
        } else {
            DeviceInfoV1Response {
                alias: self.device.alias.clone(),
                device_model: crate::device::clone_opt(&self.device.device_model),
                device_type: String::from_str(self.device.device_type.token()),
            }
        }
    }

    /// Forgets every peer.
    pub fn refresh(&mut self)
        requires
            old(self).wf(),
        ensures
            final(self).wf(),
            final(self).me() == old(self).me(),
            final(self).table() == Map::<Seq<char>, PeerEntry>::empty(),
    {
        self.peers.clear();
    }

    /// A copy of the peer table, each fingerprint once.
    pub fn peer_list(&self) -> (r: Vec<PeerEntry>)
        requires
            self.wf(),
        ensures
            unique_keys(r@),
            keyed_map(r@) == self.table(),
    {
        self.peers.snapshot()
    }

    /// Where to send files for the peer with the given fingerprint: its
    /// last address, or `NotFound` when the peer is unknown.
    pub fn send_target(&self, fingerprint: &str) -> (r: Result<PeerAddress, ApiError>)
        requires
            self.wf(),
        ensures
            self.table().contains_key(fingerprint@) ==> r == Ok::<PeerAddress, ApiError>(
                self.table()[fingerprint@].address,
            ),
            !self.table().contains_key(fingerprint@) ==> r == Err::<PeerAddress, ApiError>(ApiError::NotFound),
    {
        match self.peers.get(fingerprint) {
            Some(e) => Ok(e.address),
            None => Err(ApiError::NotFound),
        }
    }
}

} // verus!
