//! The broker's state as maps, what each event does to it, and what each
//! event makes the broker send.

use vstd::prelude::*;

use crate::addr::PeerAddr;
use crate::broker_msgs::{BrokerEvent, BrokerRsp, BrokerToClientMsg, BrokerToClientMsgView};
use tokio::sync::mpsc::UnboundedSender;

verus! {

/// What the broker knows of a connected client.
pub struct ClientView {
    /// The client's user name.
    pub str_id: Seq<char>,
    /// The room the client is in.
    pub room: Seq<char>,
    /// The channel on which the client is reached.
    pub channel: UnboundedSender<BrokerToClientMsg>,
}

/// The broker's state: the connected clients by address, and each room's
/// members in the order in which they entered.
#[verifier::ext_equal]
pub struct BrokerView {
    pub clients: Map<PeerAddr, ClientView>,
    pub rooms: Map<Seq<char>, Seq<PeerAddr>>,
}

/// An event for the broker, with its texts as character sequences.
pub enum BrokerEventView {
    AddUser {
        addr: PeerAddr,
        str_id: Seq<char>,
        room: Seq<char>,
        channel: UnboundedSender<BrokerToClientMsg>,
        timestamp: Seq<char>,
    },
    Disconnect { addr: PeerAddr, timestamp: Seq<char> },
    Broadcast { sender: PeerAddr, text: Seq<char>, timestamp: Seq<char> },
    JoinRoom { sender: PeerAddr, room: Seq<char>, timestamp: Seq<char> },
}

impl View for BrokerEvent {
    type V = BrokerEventView;

    open spec fn view(&self) -> BrokerEventView {
        match self {
            BrokerEvent::AddUserToBroker { client, timestamp } => BrokerEventView::AddUser {
                addr: client.addr,
                str_id: client.str_id@,
                room: client.room_name@,
                channel: client.broker_to_client,
                timestamp: timestamp@,
            },
            BrokerEvent::Disconnect { addr, timestamp } => BrokerEventView::Disconnect {
                addr: *addr,
                timestamp: timestamp@,
            },
            BrokerEvent::Broadcast { sender_addr, str_message, timestamp } => BrokerEventView::Broadcast {
                sender: *sender_addr,
                text: str_message@,
                timestamp: timestamp@,
            },
            BrokerEvent::JoinRoom { sender_addr, room_name, timestamp } => BrokerEventView::JoinRoom {
                sender: *sender_addr,
                room: room_name@,
                timestamp: timestamp@,
            },
        }
    }
}

/// Who a message of the broker goes to.
#[derive(Debug, Clone, Copy, PartialEq, Eq, Structural)]
pub enum Recipient {
    /// The connection that sent the event being handled.
    Requester,
    /// The connected client at this address.
    Client(PeerAddr),
}

/// A message of the broker and who it goes to.
pub struct DeliveryView {
    pub to: Recipient,
    pub msg: BrokerToClientMsgView,
}

/// Every client is in the member list of its room; every member of a room
/// is a client whose room it is; no room lists a member twice.
pub open spec fn broker_inv(v: BrokerView) -> bool {
    &&& forall|a: PeerAddr| #[trigger] v.clients.contains_key(a) ==> {
        &&& v.rooms.contains_key(v.clients[a].room)
        &&& v.rooms[v.clients[a].room].contains(a)
    }
    &&& forall|r: Seq<char>, j: int| #![trigger v.rooms[r][j]]
        v.rooms.contains_key(r) && 0 <= j < v.rooms[r].len() ==> {
            &&& v.clients.contains_key(v.rooms[r][j])
            &&& v.clients[v.rooms[r][j]].room == r
        }
    &&& forall|r: Seq<char>| #[trigger] v.rooms.contains_key(r) ==> v.rooms[r].no_duplicates()
}

/// The broker with no client and no room.
pub open spec fn empty_broker() -> BrokerView {
    BrokerView { clients: Map::empty(), rooms: Map::empty() }
}

/// `s` without the occurrences of `a`, in the same order.
pub open spec fn without(s: Seq<PeerAddr>, a: PeerAddr) -> Seq<PeerAddr>
    decreases s.len(),
{
    if s.len() == 0 {
        s
    } else {
        let rest = without(s.drop_last(), a);
        if s.last() == a {
            rest
        } else {
            rest.push(s.last())
        }
    }
}

/// `a` enters `room` last, the room being created if it does not exist;
/// also whether it was created.
pub open spec fn add_member(rooms: Map<Seq<char>, Seq<PeerAddr>>, room: Seq<char>, a: PeerAddr) -> (Map<
    Seq<char>,
    Seq<PeerAddr>,
>, bool) {
    if rooms.contains_key(room) {
        (rooms.insert(room, rooms[room].push(a)), false)
    } else {
        (rooms.insert(room, seq![a]), true)
    }
}

/// A new client at `a` named `str_id`, reached on `channel`, enters `room`:
/// the new state, whether it was accepted, and whether the room was created.
/// A client already connected at `a` makes it fail with nothing changed.
pub open spec fn first_connect(
    v: BrokerView,
    a: PeerAddr,
    str_id: Seq<char>,
    room: Seq<char>,
    channel: UnboundedSender<BrokerToClientMsg>,
) -> (
    BrokerView,
    bool,
    bool,
) {
    if v.clients.contains_key(a) {
        (v, false, false)
    } else {
        let (rooms, created) = add_member(v.rooms, room, a);
        (
            BrokerView { clients: v.clients.insert(a, ClientView { str_id, room, channel }), rooms },
            true,
            created,
        )
    }
}

/// The client at `a` leaves its room and enters `room`: the new state,
/// whether it moved, and whether `room` was created. An unknown address, or
/// the room the client is already in, makes it fail with nothing changed.
/// The room left stays, though it may now be empty.
pub open spec fn room_move(v: BrokerView, a: PeerAddr, room: Seq<char>) -> (BrokerView, bool, bool) {
    if !v.clients.contains_key(a) || v.clients[a].room == room {
        (v, false, false)
    } else {
        let old = v.clients[a].room;
        let rooms1 = if v.rooms.contains_key(old) {
            v.rooms.insert(old, without(v.rooms[old], a))
        } else {
            v.rooms
        };
        let (rooms2, created) = add_member(rooms1, room, a);
        (
            BrokerView {
                clients: v.clients.insert(
                    a,
                    ClientView { str_id: v.clients[a].str_id, room, channel: v.clients[a].channel },
                ),
                rooms: rooms2,
            },
            true,
            created,
        )
    }
}

/// The state after the client at `a` (a connected client) leaves: it is
/// gone from the clients and from its room, and the room is gone if no one
/// is left in it.
pub open spec fn disconnect(v: BrokerView, a: PeerAddr) -> BrokerView {
    let room = v.clients[a].room;
    let clients = v.clients.remove(a);
    if v.rooms.contains_key(room) {
        let rest = without(v.rooms[room], a);
        BrokerView {
            clients,
            rooms: if rest.len() == 0 {
                v.rooms.remove(room)
            } else {
                v.rooms.insert(room, rest)
            },
        }
    } else {
        BrokerView { clients, rooms: v.rooms }
    }
}

/// The text that tells a room that `name` left it.
pub open spec fn left_room_text(name: Seq<char>) -> Seq<char> {
    name + " has left the room"@
}

/// The state after the broker handles `e`.
pub open spec fn step_next(v: BrokerView, e: BrokerEventView) -> BrokerView {
    match e {
        BrokerEventView::AddUser { addr, str_id, room, channel, .. } => first_connect(
            v,
            addr,
            str_id,
            room,
            channel,
        ).0,
        BrokerEventView::Disconnect { addr, .. } => if v.clients.contains_key(addr) {
            disconnect(v, addr)
        } else {
            v
        },
        BrokerEventView::Broadcast { .. } => v,
        BrokerEventView::JoinRoom { sender, room, .. } => room_move(v, sender, room).0,
    }
}

/// What the broker sends when it handles `e`, in order.
///
/// - Adding a client: the requesting connection is told whether it was added;
///   once added, it is the client at its address.
/// - A broadcast from a connected client: every member of the sender's room,
///   the sender included, in the order in which they entered, gets the chat
///   message with the sender's address and name. An unknown sender sends
///   nothing.
/// - Joining a room: a connected client is told whether it moved and whether
///   the room was created; an unknown address gets nothing.
/// - A disconnect: each member left in the client's room is told that the
///   client left; an unknown address sends nothing.
pub open spec fn step_deliveries(v: BrokerView, e: BrokerEventView) -> Seq<DeliveryView> {
    match e {
        BrokerEventView::AddUser { addr, str_id, room, channel, .. } => {
            let status = first_connect(v, addr, str_id, room, channel).1;
            seq![
                DeliveryView {
                    to: if status {
                        Recipient::Client(addr)
                    } else {
                        Recipient::Requester
                    },
                    msg: BrokerToClientMsgView::Response(BrokerRsp::AddedToBroker { status }),
                },
            ]
        },
        BrokerEventView::Disconnect { addr, timestamp } => if v.clients.contains_key(addr)
            && v.rooms.contains_key(v.clients[addr].room) {
            without(v.rooms[v.clients[addr].room], addr).map_values(
                |m: PeerAddr|
                    DeliveryView {
                        to: Recipient::Client(m),
                        msg: BrokerToClientMsgView::UserLogoutNtf {
                            text: left_room_text(v.clients[addr].str_id),
                            timestamp,
                        },
                    },
            )
        } else {
            Seq::empty()
        },
        BrokerEventView::Broadcast { sender, text, timestamp } => if v.clients.contains_key(sender)
            && v.rooms.contains_key(v.clients[sender].room) {
            v.rooms[v.clients[sender].room].map_values(
                |m: PeerAddr|
                    DeliveryView {
                        to: Recipient::Client(m),
                        msg: BrokerToClientMsgView::ChatMessage {
                            sender,
                            sender_name: v.clients[sender].str_id,
                            text,
                            timestamp,
                        },
                    },
            )
        } else {
            Seq::empty()
        },
        BrokerEventView::JoinRoom { sender, room, .. } => if v.clients.contains_key(sender) {
            let (_, status, created) = room_move(v, sender, room);
            seq![
                DeliveryView {
                    to: Recipient::Client(sender),
                    msg: BrokerToClientMsgView::Response(BrokerRsp::JoinRoom { status, created }),
                },
            ]
        } else {
            Seq::empty()
        },
    }
}

/// The channel a message for `to` goes out on, when the broker handles `e`
/// in state `v`: the channel of the client at that address afterwards, or,
/// for the requesting connection, the channel it came with.
pub open spec fn recipient_channel(v: BrokerView, e: BrokerEventView, to: Recipient) -> UnboundedSender<
    BrokerToClientMsg,
> {
    match to {
        Recipient::Client(a) => step_next(v, e).clients[a].channel,
        Recipient::Requester => match e {
            BrokerEventView::AddUser { channel, .. } => channel,
            _ => arbitrary(),
        },
    }
}

/// The sends the broker plans when it handles `e`, in order: each message
/// with the channel of its recipient.
pub open spec fn step_sends(v: BrokerView, e: BrokerEventView) -> Seq<
    (UnboundedSender<BrokerToClientMsg>, BrokerToClientMsgView),
> {
    step_deliveries(v, e).map_values(|d: DeliveryView| (recipient_channel(v, e, d.to), d.msg))
}

pub proof fn lemma_without_contains(s: Seq<PeerAddr>, a: PeerAddr, x: PeerAddr)
    ensures
        without(s, a).contains(x) <==> (s.contains(x) && x != a),
    decreases s.len(),
{
    if s.len() > 0 {
        let d = s.drop_last();
        lemma_without_contains(d, a, x);
        let r = without(d, a);
        let w = without(s, a);
        if s.contains(x) && x != a {
            let i = choose|i: int| 0 <= i < s.len() && s[i] == x;
            if i < s.len() - 1 {
                assert(d[i] == x);
                assert(d.contains(x));
                assert(r.contains(x));
                let k = choose|k: int| 0 <= k < r.len() && r[k] == x;
                assert(w[k] == x);
            } else {
                assert(w[r.len() as int] == x);
            }
            assert(w.contains(x));
        }
        if w.contains(x) {
            let i = choose|i: int| 0 <= i < w.len() && w[i] == x;
            if i < r.len() {
                assert(r[i] == x);
                assert(r.contains(x));
                let k = choose|k: int| 0 <= k < d.len() && d[k] == x;
                assert(s[k] == x);
            } else {
                assert(s[s.len() - 1] == x);
            }
            assert(s.contains(x));
        }
    }
}

pub proof fn lemma_without_no_duplicates(s: Seq<PeerAddr>, a: PeerAddr)
    requires
        s.no_duplicates(),
    ensures
        without(s, a).no_duplicates(),
    decreases s.len(),
{
    if s.len() > 0 {
        let d = s.drop_last();
        assert(d.no_duplicates());
        lemma_without_no_duplicates(d, a);
        let r = without(d, a);
        if s.last() != a {
            lemma_without_contains(d, a, s.last());
            assert(!d.contains(s.last())) by {
                if d.contains(s.last()) {
                    let k = choose|k: int| 0 <= k < d.len() && d[k] == s.last();
                    assert(s[k] == s[s.len() - 1]);
                }
            }
            let t = r.push(s.last());
            assert forall|i: int, j: int| 0 <= i < t.len() && 0 <= j < t.len() && i != j implies t[i] != t[j] by {
                if i == r.len() {
                    assert(r.contains(t[j]));
                } else if j == r.len() {
                    assert(r.contains(t[i]));
                }
            }
        }
    }
}

/// Adding a client at an address that is not connected keeps the invariant.
pub proof fn lemma_first_connect_inv(
    v: BrokerView,
    a: PeerAddr,
    str_id: Seq<char>,
    room: Seq<char>,
    channel: UnboundedSender<BrokerToClientMsg>,
)
    requires
        broker_inv(v),
    ensures
        broker_inv(first_connect(v, a, str_id, room, channel).0),
{
    if !v.clients.contains_key(a) {
        let w = first_connect(v, a, str_id, room, channel).0;
        assert(!v.rooms.contains_key(room) || !v.rooms[room].contains(a)) by {
            if v.rooms.contains_key(room) && v.rooms[room].contains(a) {
                let j = choose|j: int| 0 <= j < v.rooms[room].len() && v.rooms[room][j] == a;
                assert(v.rooms[room][j] == a);
            }
        }
        assert forall|b: PeerAddr| #[trigger] w.clients.contains_key(b) implies w.rooms.contains_key(
            w.clients[b].room,
        ) && w.rooms[w.clients[b].room].contains(b) by {
            if b == a {
                if v.rooms.contains_key(room) {
                    assert(w.rooms[room][v.rooms[room].len() as int] == a);
                } else {
                    assert(w.rooms[room][0] == a);
                }
            } else {
                let r = v.clients[b].room;
                let j = choose|j: int| 0 <= j < v.rooms[r].len() && v.rooms[r][j] == b;
                assert(w.rooms[r][j] == b);
            }
        }
        assert forall|r: Seq<char>, j: int|
            w.rooms.contains_key(r) && 0 <= j < w.rooms[r].len() implies w.clients.contains_key(
            #[trigger] w.rooms[r][j],
        ) && w.clients[w.rooms[r][j]].room == r by {
            if r == room && (!v.rooms.contains_key(room) || j == v.rooms[room].len()) {
                assert(w.rooms[r][j] == a);
            } else {
                assert(w.rooms[r][j] == v.rooms[r][j]);
                assert(v.clients.contains_key(v.rooms[r][j]));
            }
        }
        assert forall|r: Seq<char>| #[trigger] w.rooms.contains_key(r) implies w.rooms[r].no_duplicates() by {
            if r == room && v.rooms.contains_key(room) {
                let s = v.rooms[room];
                let t = s.push(a);
                assert forall|i: int, j: int| 0 <= i < t.len() && 0 <= j < t.len() && i != j implies t[i] != t[j] by {
                    if i == s.len() {
                        assert(v.clients.contains_key(s[j]));
                    } else if j == s.len() {
                        assert(v.clients.contains_key(s[i]));
                    }
                }
            }
        }
    }
}

/// Moving a client to another room keeps the invariant.
pub proof fn lemma_room_move_inv(v: BrokerView, a: PeerAddr, room: Seq<char>)
    requires
        broker_inv(v),
    ensures
        broker_inv(room_move(v, a, room).0),
{
    if v.clients.contains_key(a) && v.clients[a].room != room {
        let old = v.clients[a].room;
        let w = room_move(v, a, room).0;
        let rest = without(v.rooms[old], a);
        lemma_without_no_duplicates(v.rooms[old], a);
        assert forall|x: PeerAddr| rest.contains(x) <==> (v.rooms[old].contains(x) && x != a) by {
            lemma_without_contains(v.rooms[old], a, x);
        }
        assert(!v.rooms.contains_key(room) || !v.rooms[room].contains(a)) by {
            if v.rooms.contains_key(room) && v.rooms[room].contains(a) {
                let j = choose|j: int| 0 <= j < v.rooms[room].len() && v.rooms[room][j] == a;
                assert(v.rooms[room][j] == a);
            }
        }
        assert forall|b: PeerAddr| #[trigger] w.clients.contains_key(b) implies w.rooms.contains_key(
            w.clients[b].room,
        ) && w.rooms[w.clients[b].room].contains(b) by {
            if b == a {
                if v.rooms.contains_key(room) {
                    assert(w.rooms[room][v.rooms[room].len() as int] == a);
                } else {
                    assert(w.rooms[room][0] == a);
                }
            } else {
                let r = v.clients[b].room;
                if r == old {
                    assert(rest.contains(b));
                    let j = choose|j: int| 0 <= j < rest.len() && rest[j] == b;
                    assert(w.rooms[r][j] == b);
                } else {
                    let j = choose|j: int| 0 <= j < v.rooms[r].len() && v.rooms[r][j] == b;
                    assert(w.rooms[r][j] == b);
                }
            }
        }
        assert forall|r: Seq<char>, j: int|
            w.rooms.contains_key(r) && 0 <= j < w.rooms[r].len() implies w.clients.contains_key(
            #[trigger] w.rooms[r][j],
        ) && w.clients[w.rooms[r][j]].room == r by {
            if r == room && (!v.rooms.contains_key(room) || j == v.rooms[room].len()) {
                assert(w.rooms[r][j] == a);
            } else if r == old {
                let x = rest[j];
                assert(rest.contains(x));
                let k = choose|k: int| 0 <= k < v.rooms[old].len() && v.rooms[old][k] == x;
                assert(v.clients.contains_key(v.rooms[old][k]));
            } else {
                assert(w.rooms[r][j] == v.rooms[r][j]);
                assert(v.clients.contains_key(v.rooms[r][j]));
            }
        }
        assert forall|r: Seq<char>| #[trigger] w.rooms.contains_key(r) implies w.rooms[r].no_duplicates() by {
            if r == room && v.rooms.contains_key(room) {
                let s = v.rooms[room];
                let t = s.push(a);
                assert forall|i: int, j: int| 0 <= i < t.len() && 0 <= j < t.len() && i != j implies t[i] != t[j] by {
                    if i == s.len() {
                        assert(v.clients.contains_key(s[j]));
                    } else if j == s.len() {
                        assert(v.clients.contains_key(s[i]));
                    }
                }
            }
        }
    }
}

/// A connected client leaving keeps the invariant.
pub proof fn lemma_disconnect_inv(v: BrokerView, a: PeerAddr)
    requires
        broker_inv(v),
        v.clients.contains_key(a),
    ensures
        broker_inv(disconnect(v, a)),
{
    let old = v.clients[a].room;
    let w = disconnect(v, a);
    let rest = without(v.rooms[old], a);
    lemma_without_no_duplicates(v.rooms[old], a);
    assert forall|x: PeerAddr| rest.contains(x) <==> (v.rooms[old].contains(x) && x != a) by {
        lemma_without_contains(v.rooms[old], a, x);
    }
    assert forall|b: PeerAddr| #[trigger] w.clients.contains_key(b) implies w.rooms.contains_key(
        w.clients[b].room,
    ) && w.rooms[w.clients[b].room].contains(b) by {
        let r = v.clients[b].room;
        if r == old {
            assert(rest.contains(b));
        } else {
            let j = choose|j: int| 0 <= j < v.rooms[r].len() && v.rooms[r][j] == b;
            assert(w.rooms[r][j] == b);
        }
    }
    assert forall|r: Seq<char>, j: int|
        w.rooms.contains_key(r) && 0 <= j < w.rooms[r].len() implies w.clients.contains_key(
        #[trigger] w.rooms[r][j],
    ) && w.clients[w.rooms[r][j]].room == r by {
        if r == old {
            let x = rest[j];
            assert(rest.contains(x));
            let k = choose|k: int| 0 <= k < v.rooms[old].len() && v.rooms[old][k] == x;
            assert(v.clients.contains_key(v.rooms[old][k]));
        } else {
            assert(w.rooms[r][j] == v.rooms[r][j]);
            assert(v.clients.contains_key(v.rooms[r][j]));
            if v.rooms[r][j] == a {
                assert(v.clients[a].room == r);
            }
        }
    }
}

/// Handling any event keeps the invariant.
pub proof fn lemma_step_inv(v: BrokerView, e: BrokerEventView)
    requires
        broker_inv(v),
    ensures
        broker_inv(step_next(v, e)),
{
    match e {
        BrokerEventView::AddUser { addr, str_id, room, channel, .. } => lemma_first_connect_inv(
            v,
            addr,
            str_id,
            room,
            channel,
        ),
        BrokerEventView::Disconnect { addr, .. } => if v.clients.contains_key(addr) {
            lemma_disconnect_inv(v, addr);
        },
        BrokerEventView::Broadcast { .. } => {},
        BrokerEventView::JoinRoom { sender, room, .. } => lemma_room_move_inv(v, sender, room),
    }
}

/// Every message of the broker to a client address goes to a client that
/// is connected after the event.
pub proof fn lemma_recipients_connected(v: BrokerView, e: BrokerEventView)
    requires
        broker_inv(v),
    ensures
        forall|i: int|
            0 <= i < step_deliveries(v, e).len() ==> ((#[trigger] step_deliveries(v, e)[i]).to matches Recipient::Client(
                a,
            ) ==> step_next(v, e).clients.contains_key(a)),
{
    let ds = step_deliveries(v, e);
    let w = step_next(v, e);
    match e {
        BrokerEventView::Broadcast { sender, .. } => {
            if v.clients.contains_key(sender) && v.rooms.contains_key(v.clients[sender].room) {
                let r = v.clients[sender].room;
                assert forall|i: int| 0 <= i < ds.len() implies ((#[trigger] ds[i]).to matches Recipient::Client(a)
                    ==> w.clients.contains_key(a)) by {
                    assert(ds[i].to == Recipient::Client(v.rooms[r][i]));
                    assert(v.clients.contains_key(v.rooms[r][i]));
                }
            }
        },
        BrokerEventView::Disconnect { addr, .. } => {
            if v.clients.contains_key(addr) && v.rooms.contains_key(v.clients[addr].room) {
                let r = v.clients[addr].room;
                let rest = without(v.rooms[r], addr);
                assert forall|i: int| 0 <= i < ds.len() implies ((#[trigger] ds[i]).to matches Recipient::Client(a)
                    ==> w.clients.contains_key(a)) by {
                    let m = rest[i];
                    assert(ds[i].to == Recipient::Client(m));
                    assert(rest.contains(m));
                    lemma_without_contains(v.rooms[r], addr, m);
                    let k = choose|k: int| 0 <= k < v.rooms[r].len() && v.rooms[r][k] == m;
                    assert(v.clients.contains_key(v.rooms[r][k]));
                }
            }
        },
        _ => {},
    }
}

} // verus!
