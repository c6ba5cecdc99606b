//! The broker: the connected clients and the rooms, and how each event from
//! a connection changes them and what it makes the broker send.

use vstd::prelude::*;
use tokio::sync::mpsc::UnboundedSender;

use crate::addr::PeerAddr;
use crate::broker_model::{
    add_member, broker_inv, empty_broker, first_connect, lemma_disconnect_inv, lemma_first_connect_inv,
    lemma_recipients_connected, lemma_room_move_inv, room_move, step_deliveries, step_next, step_sends,
    without, BrokerEventView, BrokerView, ClientView, DeliveryView, Recipient,
};
use crate::broker_msgs::{log_view, BrokerClient, BrokerEvent, BrokerRsp, BrokerToClientMsg, BrokerToClientMsgView};
use crate::channel::{send_on, SendLog};
use crate::keyed::{
    has_key, keys_distinct, lemma_to_map_index, lemma_to_map_push, lemma_to_map_remove, lemma_to_map_update,
    to_map,
};

verus! {

/// A message of the broker and who it goes to.
#[derive(Debug)]
pub struct Delivery {
    pub to: Recipient,
    pub msg: BrokerToClientMsg,
}

impl View for Delivery {
    type V = DeliveryView;

    open spec fn view(&self) -> DeliveryView {
        DeliveryView { to: self.to, msg: self.msg@ }
    }
}

/// The views of a sequence of deliveries.
pub open spec fn deliveries_view(ds: Seq<Delivery>) -> Seq<DeliveryView> {
    ds.map_values(|d: Delivery| d@)
}

/// What handling one event produced: the messages to send, in order, and a
/// client whose addition was refused (its connection gets the refusal).
#[derive(Debug)]
pub struct StepOutput {
    pub deliveries: Vec<Delivery>,
    pub rejected: Option<BrokerClient>,
}

/// The views of messages paired with the channels they go out on.
pub open spec fn sends_view(ps: Seq<(&UnboundedSender<BrokerToClientMsg>, BrokerToClientMsg)>) -> Seq<
    (UnboundedSender<BrokerToClientMsg>, BrokerToClientMsgView),
> {
    ps.map_values(|p: (&UnboundedSender<BrokerToClientMsg>, BrokerToClientMsg)| (*p.0, p.1@))
}

/// The channel that `route` picks for `to`: the channel of the client at the
/// address, or that of the refused client for the requesting connection.
pub open spec fn route_channel(v: BrokerView, rejected: Option<BrokerClient>, to: Recipient) -> UnboundedSender<
    BrokerToClientMsg,
> {
    match to {
        Recipient::Client(a) => v.clients[a].channel,
        Recipient::Requester => match rejected {
            Some(c) => c.broker_to_client,
            None => arbitrary(),
        },
    }
}

/// A room and its members in the order in which they entered.
#[derive(Debug)]
struct RoomEntry {
    name: String,
    members: Vec<PeerAddr>,
}

/// How a client comes into a room: as a new client, or as a connected
/// client that moves.
enum JoinRoomType {
    FirstConnect(BrokerClient),
    RoomMove(PeerAddr),
}

/// The broker's clients (each with its channel) and rooms.
#[derive(Debug)]
pub struct Broker {
    clients: Vec<BrokerClient>,
    rooms: Vec<RoomEntry>,
}

impl View for Broker {
    type V = BrokerView;

    /// The clients by address and the rooms by name.
    closed spec fn view(&self) -> BrokerView {
        BrokerView { clients: to_map(self.client_entries()), rooms: to_map(self.room_entries()) }
    }
}

/// The members of a room without `a`, in the same order.
fn without_vec(v: &Vec<PeerAddr>, a: PeerAddr) -> (r: Vec<PeerAddr>)
    ensures
        r@ == without(v@, a),
{
    let mut out: Vec<PeerAddr> = Vec::new();
    let mut i: usize = 0;
    while i < v.len()
        invariant
            i <= v.len(),
            out@ == without(v@.take(i as int), a),
        decreases v.len() - i,
    {
        assert(v@.take(i + 1).drop_last() =~= v@.take(i as int));
        if v[i] != a {
            out.push(v[i]);
        }
        i = i + 1;
    }
    assert(v@.take(v.len() as int) =~= v@);
    out
}

impl Broker {
    /// The clients as (address, what is known of the client) pairs.
    pub closed spec fn client_entries(self) -> Seq<(PeerAddr, ClientView)> {
        Seq::new(
            self.clients.len() as nat,
            |i: int|
                (
                    self.clients@[i].addr,
                    ClientView {
                        str_id: self.clients@[i].str_id@,
                        room: self.clients@[i].room_name@,
                        channel: self.clients@[i].broker_to_client,
                    },
                ),
        )
    }

    /// The rooms as (name, members) pairs.
    pub closed spec fn room_entries(self) -> Seq<(Seq<char>, Seq<PeerAddr>)> {
        Seq::new(self.rooms.len() as nat, |i: int| (self.rooms@[i].name@, self.rooms@[i].members@))
    }

    /// No address or room name is listed twice, and the broker invariant
    /// holds.
    pub closed spec fn wf(self) -> bool {
        &&& keys_distinct(self.client_entries())
        &&& keys_distinct(self.room_entries())
        &&& broker_inv(self@)
    }

    /// A well-formed broker's view satisfies the broker invariant: every
    /// client is listed once in the room it is in, and every member of a
    /// room is a client that is in it.
    pub proof fn lemma_wf_gives_inv(self)
        requires
            self.wf(),
        ensures
            broker_inv(self@),
    {
    }

    /// A broker with no client and no room.
    pub fn new() -> (b: Broker)
        ensures
            b.wf(),
            b@ == empty_broker(),
    {
        let b = Broker { clients: Vec::new(), rooms: Vec::new() };
        assert(b@.clients =~= Map::empty());
        assert(b@.rooms =~= Map::empty());
        b
    }

    fn find_client(&self, a: PeerAddr) -> (r: Option<usize>)
        requires
            keys_distinct(self.client_entries()),
        ensures
            match r {
                Some(i) => i < self.clients.len() && self.clients@[i as int].addr == a
                    && self@.clients.contains_key(a) && self@.clients[a] == self.client_entries()[i as int].1,
                None => !self@.clients.contains_key(a),
            },
    {
        let mut i: usize = 0;
        while i < self.clients.len()
            invariant
                i <= self.clients.len(),
                keys_distinct(self.client_entries()),
                forall|j: int| 0 <= j < i ==> self.clients@[j].addr != a,
            decreases self.clients.len() - i,
        {
            if self.clients[i].addr == a {
                proof {
                    lemma_to_map_index(self.client_entries(), i as int);
                }
                return Some(i);
            }
            i = i + 1;
        }
        proof {
            if has_key(self.client_entries(), a) {
                let j = choose|j: int| 0 <= j < self.client_entries().len() && self.client_entries()[j].0 == a;
                assert(self.clients@[j].addr == a);
            }
        }
        None
    }

    fn find_room(&self, name: &String) -> (r: Option<usize>)
        requires
            keys_distinct(self.room_entries()),
        ensures
            match r {
                Some(i) => i < self.rooms.len() && self.rooms@[i as int].name@ == name@
                    && self@.rooms.contains_key(name@) && self@.rooms[name@] == self.rooms@[i as int].members@,
                None => !self@.rooms.contains_key(name@),
            },
    {
        let mut i: usize = 0;
        while i < self.rooms.len()
            invariant
                i <= self.rooms.len(),
                keys_distinct(self.room_entries()),
                forall|j: int| 0 <= j < i ==> self.rooms@[j].name@ != name@,
            decreases self.rooms.len() - i,
        {
            if self.rooms[i].name == *name {
                proof {
                    lemma_to_map_index(self.room_entries(), i as int);
                }
                return Some(i);
            }
            i = i + 1;
        }
        proof {
            if has_key(self.room_entries(), name@) {
                let j = choose|j: int| 0 <= j < self.room_entries().len() && self.room_entries()[j].0 == name@;
                assert(self.rooms@[j].name@ == name@);
            }
        }
        None
    }

    /// Puts `a` last in room `room`, creating the room if needed; returns
    /// whether it was created.
    fn add_member(&mut self, room: String, a: PeerAddr) -> (created: bool)
        requires
            keys_distinct(old(self).room_entries()),
        ensures
            keys_distinct(final(self).room_entries()),
            final(self).clients == old(self).clients,
            (final(self)@.rooms, created) == add_member(old(self)@.rooms, room@, a),
    {
        let ghost old_re = self.room_entries();
        match self.find_room(&room) {
            Some(ri) => {
                let mut e = self.rooms.remove(ri);
                e.members.push(a);
                self.rooms.insert(ri, e);
                proof {
                    assert(self.room_entries() =~= old_re.update(
                        ri as int,
                        (old_re[ri as int].0, old_re[ri as int].1.push(a)),
                    ));
                    lemma_to_map_update(old_re, ri as int, old_re[ri as int].1.push(a));
                }
                false
            },
            None => {
                let ghost name = room@;
                let mut members: Vec<PeerAddr> = Vec::new();
                members.push(a);
                self.rooms.push(RoomEntry { name: room, members });
                proof {
                    assert(members@ =~= seq![a]);
                    assert(self.room_entries() =~= old_re.push((name, seq![a])));
                    lemma_to_map_push(old_re, name, seq![a]);
                }
                true
            },
        }
    }

    /// Brings a client into room `room_name`: a new client, or a connected
    /// client that moves from its room. Returns whether it succeeded and
    /// whether the room was created.
    fn join_room(&mut self, joining: JoinRoomType, room_name: String) -> (r: (bool, bool))
        requires
            old(self).wf(),
        ensures
            final(self).wf(),
            match joining {
                JoinRoomType::FirstConnect(c) => {
                    let t = first_connect(old(self)@, c.addr, c.str_id@, room_name@, c.broker_to_client);
                    final(self)@ == t.0 && r.0 == t.1 && r.1 == t.2
                },
                JoinRoomType::RoomMove(a) => {
                    let t = room_move(old(self)@, a, room_name@);
                    final(self)@ == t.0 && r.0 == t.1 && r.1 == t.2
                },
            },
    {
        let ghost old_v = self@;
        let ghost old_ce = self.client_entries();
        let ghost old_re = self.room_entries();
        let ghost jt = joining;
        let client_addr = match joining {
            JoinRoomType::FirstConnect(mut client) => {
                if self.find_client(client.addr).is_some() {
                    return (false, false);
                }
                let addr = client.addr;
                let ghost entry = ClientView {
                    str_id: client.str_id@,
                    room: room_name@,
                    channel: client.broker_to_client,
                };
                client.room_name = room_name.clone();
                self.clients.push(client);
                proof {
                    assert(!has_key(old_ce, addr));
                    assert(self.client_entries() =~= old_ce.push((addr, entry)));
                    lemma_to_map_push(old_ce, addr, entry);
                }
                addr
            },
            JoinRoomType::RoomMove(addr) => {
                let ci = match self.find_client(addr) {
                    Some(i) => i,
                    None => {
                        return (false, false);
                    },
                };
                if self.clients[ci].room_name == room_name {
                    return (false, false);
                }
                let old_room = self.clients[ci].room_name.clone();
                match self.find_room(&old_room) {
                    Some(ri) => {
                        let mut e = self.rooms.remove(ri);
                        e.members = without_vec(&e.members, addr);
                        self.rooms.insert(ri, e);
                        proof {
                            assert(self.room_entries() =~= old_re.update(
                                ri as int,
                                (old_re[ri as int].0, without(old_re[ri as int].1, addr)),
                            ));
                            lemma_to_map_update(old_re, ri as int, without(old_re[ri as int].1, addr));
                        }
                    },
                    None => {},
                }
                let mut c = self.clients.remove(ci);
                let ghost entry = ClientView { str_id: c.str_id@, room: room_name@, channel: c.broker_to_client };
                c.room_name = room_name.clone();
                self.clients.insert(ci, c);
                proof {
                    assert(self.client_entries() =~= old_ce.update(ci as int, (addr, entry)));
                    lemma_to_map_update(old_ce, ci as int, entry);
                }
                addr
            },
        };
        let created = self.add_member(room_name, client_addr);
        proof {
            match jt {
                JoinRoomType::FirstConnect(c) => {
                    assert(self@ =~= first_connect(old_v, c.addr, c.str_id@, room_name@, c.broker_to_client).0);
                    lemma_first_connect_inv(old_v, c.addr, c.str_id@, room_name@, c.broker_to_client);
                },
                JoinRoomType::RoomMove(a) => {
                    assert(self@ =~= room_move(old_v, a, room_name@).0);
                    lemma_room_move_inv(old_v, a, room_name@);
                },
            }
        }
        (true, created)
    }

    /// Adds a new client to the broker, in the room named in its
    /// `room_name`; returns whether it was added, and the client when it was
    /// refused.
    fn add_user_to_broker(&mut self, client: BrokerClient) -> (r: (bool, Option<BrokerClient>))
        requires
            old(self).wf(),
        ensures
            final(self).wf(),
            final(self)@ == first_connect(
                old(self)@,
                client.addr,
                client.str_id@,
                client.room_name@,
                client.broker_to_client,
            ).0,
            r.0 == first_connect(
                old(self)@,
                client.addr,
                client.str_id@,
                client.room_name@,
                client.broker_to_client,
            ).1,
            r.0 <==> r.1 is None,
            r.1 matches Some(c) ==> c == client,
    {
        if self.find_client(client.addr).is_some() {
            return (false, Some(client));
        }
        let room_name = client.room_name.clone();
        let (status, _) = self.join_room(JoinRoomType::FirstConnect(client), room_name);
        (status, None)
    }
}


impl Broker {
    /// The chat deliveries of a broadcast of `text` by the client at
    /// `sender`: one to each member of its room, in order.
    fn broadcast_deliveries(&self, sender: PeerAddr, text: &String, timestamp: &String) -> (r: Vec<Delivery>)
        requires
            self.wf(),
        ensures
            deliveries_view(r@) == step_deliveries(
                self@,
                BrokerEventView::Broadcast { sender, text: text@, timestamp: timestamp@ },
            ),
    {
        let ghost e = BrokerEventView::Broadcast { sender, text: text@, timestamp: timestamp@ };
        let mut out: Vec<Delivery> = Vec::new();
        let ci = match self.find_client(sender) {
            Some(i) => i,
            None => {
                assert(deliveries_view(out@) =~= step_deliveries(self@, e));
                return out;
            },
        };
        let ri = match self.find_room(&self.clients[ci].room_name) {
            Some(i) => i,
            None => {
                assert(deliveries_view(out@) =~= step_deliveries(self@, e));
                return out;
            },
        };
        let members = &self.rooms[ri].members;
        let name = &self.clients[ci].str_id;
        let ghost expected = step_deliveries(self@, e);
        assert(expected.len() == members@.len());
        let mut j: usize = 0;
        while j < members.len()
            invariant
                j <= members.len(),
                expected.len() == members@.len(),
                out@.len() == j,
                forall|k: int| 0 <= k < j ==> #[trigger] out@[k]@ == expected[k],
                forall|k: int| 0 <= k < members@.len() ==> #[trigger] expected[k] == (DeliveryView {
                    to: Recipient::Client(members@[k]),
                    msg: BrokerToClientMsgView::ChatMessage {
                        sender,
                        sender_name: name@,
                        text: text@,
                        timestamp: timestamp@,
                    },
                }),
            decreases members.len() - j,
        {
            let d = Delivery {
                to: Recipient::Client(members[j]),
                msg: BrokerToClientMsg::ChatMessage {
                    sender,
                    sender_name: name.clone(),
                    text: text.clone(),
                    timestamp: timestamp.clone(),
                },
            };
            out.push(d);
            j = j + 1;
        }
        assert(deliveries_view(out@) =~= expected);
        out
    }

    /// A disconnect of `addr`: `None` if no client is connected there;
    /// otherwise the client leaves and the deliveries telling the rest of its
    /// room are returned.
    fn disconnect_client(&mut self, addr: PeerAddr, timestamp: String) -> (r: Option<Vec<Delivery>>)
        requires
            old(self).wf(),
        ensures
            final(self).wf(),
            r is None <==> !old(self)@.clients.contains_key(addr),
            final(self)@ == step_next(old(self)@, BrokerEventView::Disconnect { addr, timestamp: timestamp@ }),
            r matches Some(ds) ==> deliveries_view(ds@) == step_deliveries(
                old(self)@,
                BrokerEventView::Disconnect { addr, timestamp: timestamp@ },
            ),
    {
        let ghost old_v = self@;
        let ghost old_ce = self.client_entries();
        let ghost old_re = self.room_entries();
        let ghost e = BrokerEventView::Disconnect { addr, timestamp: timestamp@ };
        let ci = match self.find_client(addr) {
            Some(i) => i,
            None => {
                return None;
            },
        };
        let c = self.clients.remove(ci);
        proof {
            assert(self.client_entries() =~= old_ce.remove(ci as int));
            lemma_to_map_remove(old_ce, ci as int);
            lemma_disconnect_inv(old_v, addr);
        }
        let mut out: Vec<Delivery> = Vec::new();
        match self.find_room(&c.room_name) {
            Some(ri) => {
                let mut entry = self.rooms.remove(ri);
                entry.members = without_vec(&entry.members, addr);
                let text = c.str_id.clone().concat(" has left the room");
                let ghost expected = step_deliveries(old_v, e);
                assert(expected.len() == entry.members@.len());
                let mut j: usize = 0;
                while j < entry.members.len()
                    invariant
                        j <= entry.members.len(),
                        expected.len() == entry.members@.len(),
                        out@.len() == j,
                        forall|k: int| 0 <= k < j ==> #[trigger] out@[k]@ == expected[k],
                        forall|k: int| 0 <= k < entry.members@.len() ==> #[trigger] expected[k] == (DeliveryView {
                            to: Recipient::Client(entry.members@[k]),
                            msg: BrokerToClientMsgView::UserLogoutNtf {
                                text: text@,
                                timestamp: timestamp@,
                            },
                        }),
                    decreases entry.members.len() - j,
                {
                    let d = Delivery {
                        to: Recipient::Client(entry.members[j]),
                        msg: BrokerToClientMsg::UserLogoutNtf { text: text.clone(), timestamp: timestamp.clone() },
                    };
                    out.push(d);
                    j = j + 1;
                }
                assert(deliveries_view(out@) =~= expected);
                if entry.members.len() == 0 {
                    proof {
                        assert(self.room_entries() =~= old_re.remove(ri as int));
                        lemma_to_map_remove(old_re, ri as int);
                    }
                } else {
                    self.rooms.insert(ri, entry);
                    proof {
                        assert(self.room_entries() =~= old_re.update(
                            ri as int,
                            (old_re[ri as int].0, without(old_re[ri as int].1, addr)),
                        ));
                        lemma_to_map_update(old_re, ri as int, without(old_re[ri as int].1, addr));
                    }
                }
            },
            None => {
                assert(deliveries_view(out@) =~= step_deliveries(old_v, e));
            },
        }
        assert(self@ =~= step_next(old_v, e));
        Some(out)
    }

    /// Handles one event: updates the clients and rooms, and returns what
    /// to send (each message with its recipient) and, when an addition was
    /// refused, the refused client.
    pub fn step(&mut self, event: BrokerEvent) -> (out: StepOutput)
        requires
            old(self).wf(),
        ensures
            final(self).wf(),
            final(self)@ == step_next(old(self)@, event@),
            deliveries_view(out.deliveries@) == step_deliveries(old(self)@, event@),
            out.rejected matches Some(c) ==> (event@ matches BrokerEventView::AddUser { channel, .. }
                && c.broker_to_client == channel),
            forall|i: int|
                0 <= i < out.deliveries@.len() ==> (#[trigger] out.deliveries@[i]).to is Requester
                    ==> out.rejected is Some,
    {
        let ghost old_v = self@;
        let ghost ev = event@;
        match event {
            BrokerEvent::AddUserToBroker { client, timestamp } => {
                let addr = client.addr;
                let (status, rejected) = self.add_user_to_broker(client);
                let to = if status {
                    Recipient::Client(addr)
                } else {
                    Recipient::Requester
                };
                let mut deliveries: Vec<Delivery> = Vec::new();
                deliveries.push(
                    Delivery { to, msg: BrokerToClientMsg::new_response(BrokerRsp::AddedToBroker { status }) },
                );
                assert(deliveries_view(deliveries@) =~= step_deliveries(old_v, ev));
                StepOutput { deliveries, rejected }
            },
            BrokerEvent::Broadcast { sender_addr, str_message, timestamp } => {
                let deliveries = self.broadcast_deliveries(sender_addr, &str_message, &timestamp);
                assert forall|i: int| 0 <= i < deliveries@.len() implies !((#[trigger] deliveries@[i]).to is Requester) by {
                    assert(deliveries_view(deliveries@).len() == deliveries@.len());
                    assert(deliveries_view(deliveries@)[i] == deliveries@[i]@);
                    assert(step_deliveries(old_v, ev)[i].to is Client);
                }
                StepOutput { deliveries, rejected: None }
            },
            BrokerEvent::JoinRoom { sender_addr, room_name, timestamp } => {
                let (status, created) = self.join_room(JoinRoomType::RoomMove(sender_addr), room_name);
                let mut deliveries: Vec<Delivery> = Vec::new();
                if self.find_client(sender_addr).is_some() {
                    deliveries.push(
                        Delivery {
                            to: Recipient::Client(sender_addr),
                            msg: BrokerToClientMsg::new_response(BrokerRsp::JoinRoom { status, created }),
                        },
                    );
                }
                assert(deliveries_view(deliveries@) =~= step_deliveries(old_v, ev));
                StepOutput { deliveries, rejected: None }
            },
            BrokerEvent::Disconnect { addr, timestamp } => {
                match self.disconnect_client(addr, timestamp) {
                    Some(deliveries) => {
                        assert forall|i: int| 0 <= i < deliveries@.len() implies !((#[trigger] deliveries@[i]).to is Requester) by {
                            assert(deliveries_view(deliveries@).len() == deliveries@.len());
                            assert(deliveries_view(deliveries@)[i] == deliveries@[i]@);
                            assert(step_deliveries(old_v, ev)[i].to is Client);
                        }
                        StepOutput { deliveries, rejected: None }
                    },
                    None => {
                        let deliveries: Vec<Delivery> = Vec::new();
                        assert(deliveries_view(deliveries@) =~= step_deliveries(old_v, ev));
                        StepOutput { deliveries, rejected: None }
                    },
                }
            },
        }
    }

    /// The channel of the client at `a`, if one is connected there.
    fn channel_of(&self, a: PeerAddr) -> (r: Option<&UnboundedSender<BrokerToClientMsg>>)
        requires
            self.wf(),
        ensures
            r is Some <==> self@.clients.contains_key(a),
            r matches Some(ch) ==> *ch == self@.clients[a].channel,
    {
        match self.find_client(a) {
            Some(i) => Some(&self.clients[i].broker_to_client),
            None => None,
        }
    }

    /// Pairs each delivery with the channel it goes out on, in order: the
    /// channel of the client at its address, or, for the requesting
    /// connection, that of the refused client.
    pub fn route<'a>(&'a self, rejected: &'a Option<BrokerClient>, deliveries: Vec<Delivery>) -> (r: Vec<
        (&'a UnboundedSender<BrokerToClientMsg>, BrokerToClientMsg),
    >)
        requires
            self.wf(),
            forall|i: int|
                0 <= i < deliveries@.len() ==> ((#[trigger] deliveries@[i]).to matches Recipient::Client(a)
                    ==> self@.clients.contains_key(a)),
            forall|i: int|
                0 <= i < deliveries@.len() ==> (#[trigger] deliveries@[i]).to is Requester ==> rejected is Some,
        ensures
            r@.len() == deliveries@.len(),
            forall|i: int|
                0 <= i < r@.len() ==> (#[trigger] r@[i]).1 == deliveries@[i].msg && *r@[i].0 == route_channel(
                    self@,
                    *rejected,
                    deliveries@[i].to,
                ),
    {
        let ghost orig = deliveries@;
        let mut ds = deliveries;
        let mut out: Vec<(&'a UnboundedSender<BrokerToClientMsg>, BrokerToClientMsg)> = Vec::new();
        while ds.len() > 0
            invariant
                self.wf(),
                out@.len() + ds@.len() == orig.len(),
                ds@ == orig.skip(out@.len() as int),
                forall|i: int|
                    0 <= i < orig.len() ==> ((#[trigger] orig[i]).to matches Recipient::Client(a)
                        ==> self@.clients.contains_key(a)),
                forall|i: int| 0 <= i < orig.len() ==> (#[trigger] orig[i]).to is Requester ==> rejected is Some,
                forall|i: int|
                    0 <= i < out@.len() ==> (#[trigger] out@[i]).1 == orig[i].msg && *out@[i].0 == route_channel(
                        self@,
                        *rejected,
                        orig[i].to,
                    ),
            decreases ds@.len(),
        {
            let ghost k = out@.len() as int;
            let d = ds.remove(0);
            assert(d == orig[k]);
            let ch: &'a UnboundedSender<BrokerToClientMsg> = match d.to {
                Recipient::Requester => match rejected {
                    Some(c) => &c.broker_to_client,
                    None => {
                        assert(false);
                        return out;
                    },
                },
                Recipient::Client(a) => match self.channel_of(a) {
                    Some(c) => c,
                    None => {
                        assert(false);
                        return out;
                    },
                },
            };
            out.push((ch, d.msg));
            assert(ds@ =~= orig.skip(out@.len() as int));
        }
        out
    }

    /// Handles one event: updates the state, pairs each message the event
    /// produced with the channel of its recipient, and sends each pair, in
    /// order. This is the body of the broker's event loop. The result is the
    /// log of the sends made: exactly the model's `step_sends`, each message
    /// handed to its recipient's channel, including those after a send that
    /// failed.
    pub fn handle_event(&mut self, event: BrokerEvent) -> (sent: SendLog<BrokerToClientMsg>)
        requires
            old(self).wf(),
        ensures
            final(self).wf(),
            final(self)@ == step_next(old(self)@, event@),
            log_view(sent@) == step_sends(old(self)@, event@),
    {
        let ghost old_v = self@;
        let ghost ev = event@;
        let StepOutput { deliveries, rejected } = self.step(event);
        proof {
            lemma_recipients_connected(old_v, ev);
            assert forall|i: int| 0 <= i < deliveries@.len() implies ((#[trigger] deliveries@[i]).to matches Recipient::Client(
                a,
            ) ==> self@.clients.contains_key(a)) by {
                assert(deliveries_view(deliveries@)[i] == deliveries@[i]@);
            }
        }
        let ghost ds = deliveries@;
        let pairs = self.route(&rejected, deliveries);
        let ghost sent = sends_view(pairs@);
        proof {
            assert forall|i: int| 0 <= i < sent.len() implies #[trigger] sent[i] == step_sends(old_v, ev)[i] by {
                assert(deliveries_view(ds)[i] == ds[i]@);
                assert(pairs@[i].1 == ds[i].msg);
            }
            assert(sent =~= step_sends(old_v, ev));
        }
        let ghost ps = pairs@;
        let log = deliver(pairs);
        proof {
            assert(log_view(log@) =~= sent);
        }
        log
    }
}

/// The sends that `pairs` asks for: each message with its channel.
pub open spec fn planned_sends(ps: Seq<(&UnboundedSender<BrokerToClientMsg>, BrokerToClientMsg)>) -> Seq<
    (UnboundedSender<BrokerToClientMsg>, BrokerToClientMsg),
> {
    ps.map_values(|p: (&UnboundedSender<BrokerToClientMsg>, BrokerToClientMsg)| (*p.0, p.1))
}

/// Sends each message on its channel, in order; a send on a closed channel
/// fails and the rest go on. The result is the log of the sends made: one
/// per pair, in the order of `pairs`, whether or not an earlier one failed.
pub fn deliver(pairs: Vec<(&UnboundedSender<BrokerToClientMsg>, BrokerToClientMsg)>) -> (log: SendLog<
    BrokerToClientMsg,
>)
    ensures
        log@ == planned_sends(pairs@),
{
    let ghost orig = pairs@;
    let mut log: SendLog<BrokerToClientMsg> = SendLog::new();
    let mut ps = pairs;
    while ps.len() > 0
        invariant
            log@.len() <= orig.len(),
            ps@ == orig.skip(log@.len() as int),
            log@ == planned_sends(orig.take(log@.len() as int)),
        decreases ps.len(),
    {
        let ghost k = log@.len() as int;
        let (ch, msg) = ps.remove(0);
        assert((ch, msg) == orig[k]);
        let _ = send_on(ch, msg, &mut log);
        assert(orig.take(k + 1) =~= orig.take(k).push(orig[k]));
        assert(planned_sends(orig.take(k + 1)) =~= planned_sends(orig.take(k)).push((*ch, msg)));
        assert(ps@ =~= orig.skip(k + 1));
    }
    assert(orig.take(orig.len() as int) =~= orig);
    log
}

/// Every pair handed to `deliver` is sent, in order, whatever became of the
/// sends before it: the log `deliver` returns has one send per pair, the
/// i-th being the i-th pair's message on the i-th pair's channel.
pub proof fn law_deliver_sends_every_pair(
    pairs: Seq<(&UnboundedSender<BrokerToClientMsg>, BrokerToClientMsg)>,
    log: Seq<(UnboundedSender<BrokerToClientMsg>, BrokerToClientMsg)>,
)
    requires
        log == planned_sends(pairs),
    ensures
        log.len() == pairs.len(),
        forall|i: int| 0 <= i < pairs.len() ==> #[trigger] log[i] == (*pairs[i].0, pairs[i].1),
{
}

} // verus!
