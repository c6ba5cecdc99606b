//! What holds of the broker across events.

use vstd::prelude::*;

use crate::addr::PeerAddr;
use crate::broker_model::{
    broker_inv, lemma_step_inv, lemma_without_contains, lemma_without_no_duplicates, left_room_text,
    step_deliveries, step_next, step_sends, without, BrokerEventView, BrokerView, ClientView, DeliveryView,
    Recipient,
};
use crate::broker_msgs::{log_view, BrokerRsp, BrokerToClientMsg, BrokerToClientMsgView};
use tokio::sync::mpsc::UnboundedSender;

verus! {

/// Whatever event the broker handles, afterwards every client is listed in
/// its room, every listed member is a client of that room, and no room lists
/// anyone twice.
pub proof fn law_every_event_keeps_rooms_consistent(v: BrokerView, e: BrokerEventView)
    requires
        broker_inv(v),
    ensures
        broker_inv(step_next(v, e)),
{
    lemma_step_inv(v, e);
}

/// A broadcast by a connected client goes to the clients of the sender's
/// room, the sender included, exactly once each, and to no one else; each
/// gets the text with the sender's address and name, on its own channel.
/// Nothing changes.
pub proof fn law_broadcast_reaches_exactly_the_room(
    v: BrokerView,
    sender: PeerAddr,
    text: Seq<char>,
    timestamp: Seq<char>,
)
    requires
        broker_inv(v),
        v.clients.contains_key(sender),
    ensures
        ({
            let e = BrokerEventView::Broadcast { sender, text, timestamp };
            let ds = step_deliveries(v, e);
            let room = v.clients[sender].room;
            &&& step_next(v, e) == v
            &&& step_sends(v, e).len() == ds.len()
            &&& forall|i: int| 0 <= i < ds.len() ==> ((#[trigger] ds[i]).to matches Recipient::Client(m)
                && v.clients.contains_key(m) && v.clients[m].room == room && step_sends(v, e)[i] == (
                v.clients[m].channel,
                BrokerToClientMsgView::ChatMessage {
                    sender,
                    sender_name: v.clients[sender].str_id,
                    text,
                    timestamp,
                },
            ))
            &&& forall|m: PeerAddr| #[trigger] v.clients.contains_key(m) && v.clients[m].room == room
                ==> exists|i: int| 0 <= i < ds.len() && ds[i].to == Recipient::Client(m)
            &&& forall|i: int, j: int| 0 <= i < ds.len() && 0 <= j < ds.len() && i != j ==> ds[i].to != ds[j].to
        }),
{
    let e = BrokerEventView::Broadcast { sender, text, timestamp };
    let ds = step_deliveries(v, e);
    let room = v.clients[sender].room;
    let members = v.rooms[room];
    assert(ds.len() == members.len());
    assert forall|i: int| 0 <= i < ds.len() implies ((#[trigger] ds[i]).to matches Recipient::Client(m)
        && v.clients.contains_key(m) && v.clients[m].room == room && step_sends(v, e)[i] == (
        v.clients[m].channel,
        BrokerToClientMsgView::ChatMessage {
            sender,
            sender_name: v.clients[sender].str_id,
            text,
            timestamp,
        },
    )) by {
        assert(ds[i].to == Recipient::Client(members[i]));
        assert(v.clients.contains_key(members[i]));
    }
    assert forall|m: PeerAddr| #[trigger] v.clients.contains_key(m) && v.clients[m].room == room implies exists|
        i: int,
    | 0 <= i < ds.len() && ds[i].to == Recipient::Client(m) by {
        let i = choose|i: int| 0 <= i < members.len() && members[i] == m;
        assert(ds[i].to == Recipient::Client(m));
    }
    assert forall|i: int, j: int| 0 <= i < ds.len() && 0 <= j < ds.len() && i != j implies ds[i].to
        != ds[j].to by {
        assert(ds[i].to == Recipient::Client(members[i]));
        assert(ds[j].to == Recipient::Client(members[j]));
    }
}

/// A broadcast by a connected client is sent to every member of the
/// sender's room, the sender included: for each of them, the log of the
/// sends that `Broker::handle_event` made holds the chat message handed to
/// that member's channel, whether or not a send before it failed.
pub proof fn law_broadcast_sent_to_every_member(
    v: BrokerView,
    sender: PeerAddr,
    text: Seq<char>,
    timestamp: Seq<char>,
    sent: Seq<(UnboundedSender<BrokerToClientMsg>, BrokerToClientMsg)>,
)
    requires
        broker_inv(v),
        v.clients.contains_key(sender),
        log_view(sent) == step_sends(v, BrokerEventView::Broadcast { sender, text, timestamp }),
    ensures
        forall|m: PeerAddr| #[trigger] v.clients.contains_key(m) && v.clients[m].room == v.clients[sender].room
            ==> exists|i: int| 0 <= i < sent.len() && sent[i].0 == v.clients[m].channel && sent[i].1@
                == (BrokerToClientMsgView::ChatMessage {
                sender,
                sender_name: v.clients[sender].str_id,
                text,
                timestamp,
            }),
{
    let e = BrokerEventView::Broadcast { sender, text, timestamp };
    law_broadcast_reaches_exactly_the_room(v, sender, text, timestamp);
    let ds = step_deliveries(v, e);
    assert forall|m: PeerAddr| #[trigger] v.clients.contains_key(m) && v.clients[m].room == v.clients[sender].room
        implies exists|i: int| 0 <= i < sent.len() && sent[i].0 == v.clients[m].channel && sent[i].1@
        == (BrokerToClientMsgView::ChatMessage {
        sender,
        sender_name: v.clients[sender].str_id,
        text,
        timestamp,
    }) by {
        let i = choose|i: int| 0 <= i < ds.len() && ds[i].to == Recipient::Client(m);
        assert(ds[i].to matches Recipient::Client(mm) && mm == m);
        assert(log_view(sent)[i] == step_sends(v, e)[i]);
        assert(log_view(sent)[i] == (sent[i].0, sent[i].1@));
    }
}

/// A new client at an address that is not connected is added: it is in the
/// room it asked for, last, with its name and its channel; the room is
/// created if needed; it is told on its channel that it was added. Nothing
/// else changes.
pub proof fn law_new_client_joins_its_room(
    v: BrokerView,
    a: PeerAddr,
    str_id: Seq<char>,
    room: Seq<char>,
    channel: UnboundedSender<BrokerToClientMsg>,
    timestamp: Seq<char>,
)
    requires
        !v.clients.contains_key(a),
    ensures
        ({
            let e = BrokerEventView::AddUser { addr: a, str_id, room, channel, timestamp };
            let w = step_next(v, e);
            &&& w.clients == v.clients.insert(a, ClientView { str_id, room, channel })
            &&& w.rooms.contains_key(room)
            &&& w.rooms[room].last() == a
            &&& w.rooms[room].drop_last() == (if v.rooms.contains_key(room) {
                v.rooms[room]
            } else {
                Seq::empty()
            })
            &&& forall|r: Seq<char>| r != room ==> w.rooms.contains_key(r) == v.rooms.contains_key(r)
                && (#[trigger] w.rooms[r]) == v.rooms[r]
            &&& step_deliveries(v, e) == seq![
                DeliveryView {
                    to: Recipient::Client(a),
                    msg: BrokerToClientMsgView::Response(BrokerRsp::AddedToBroker { status: true }),
                },
            ]
            &&& step_sends(v, e) == seq![
                (channel, BrokerToClientMsgView::Response(BrokerRsp::AddedToBroker { status: true })),
            ]
        }),
{
    let e = BrokerEventView::AddUser { addr: a, str_id, room, channel, timestamp };
    let w = step_next(v, e);
    if v.rooms.contains_key(room) {
        assert(w.rooms[room].drop_last() =~= v.rooms[room]);
    } else {
        assert(w.rooms[room].drop_last() =~= Seq::<PeerAddr>::empty());
    }
    assert(step_sends(v, e) =~= seq![
        (channel, BrokerToClientMsgView::Response(BrokerRsp::AddedToBroker { status: true })),
    ]);
}

/// A second client at an address that is already connected is refused: it
/// is told on its own channel that it was not added, and nothing changes
/// (the client already there keeps its name, room and channel).
pub proof fn law_duplicate_address_refused(
    v: BrokerView,
    a: PeerAddr,
    str_id: Seq<char>,
    room: Seq<char>,
    channel: UnboundedSender<BrokerToClientMsg>,
    timestamp: Seq<char>,
)
    requires
        v.clients.contains_key(a),
    ensures
        ({
            let e = BrokerEventView::AddUser { addr: a, str_id, room, channel, timestamp };
            &&& step_next(v, e) == v
            &&& step_deliveries(v, e) == seq![
                DeliveryView {
                    to: Recipient::Requester,
                    msg: BrokerToClientMsgView::Response(BrokerRsp::AddedToBroker { status: false }),
                },
            ]
            &&& step_sends(v, e) == seq![
                (channel, BrokerToClientMsgView::Response(BrokerRsp::AddedToBroker { status: false })),
            ]
        }),
{
    let e = BrokerEventView::AddUser { addr: a, str_id, room, channel, timestamp };
    assert(step_sends(v, e) =~= seq![
        (channel, BrokerToClientMsgView::Response(BrokerRsp::AddedToBroker { status: false })),
    ]);
}

/// A connected client that asks for another room leaves its room and
/// enters the other one, last, keeping its name and channel; it is told on
/// its channel that it moved and whether the room was created (exactly when
/// no room of that name existed). Other clients stay where they are.
pub proof fn law_move_to_other_room(v: BrokerView, a: PeerAddr, room: Seq<char>, timestamp: Seq<char>)
    requires
        broker_inv(v),
        v.clients.contains_key(a),
        v.clients[a].room != room,
    ensures
        ({
            let e = BrokerEventView::JoinRoom { sender: a, room, timestamp };
            let w = step_next(v, e);
            let old = v.clients[a].room;
            let rsp = BrokerToClientMsgView::Response(
                BrokerRsp::JoinRoom { status: true, created: !v.rooms.contains_key(room) },
            );
            &&& w.clients == v.clients.insert(
                a,
                ClientView { str_id: v.clients[a].str_id, room, channel: v.clients[a].channel },
            )
            &&& w.rooms.contains_key(room) && w.rooms[room].last() == a
            &&& w.rooms.contains_key(old) && !w.rooms[old].contains(a)
            &&& forall|b: PeerAddr| b != a && #[trigger] w.rooms[old].contains(b) <==> v.rooms[old].contains(b)
                && b != a
            &&& step_deliveries(v, e) == seq![DeliveryView { to: Recipient::Client(a), msg: rsp }]
            &&& step_sends(v, e) == seq![(v.clients[a].channel, rsp)]
        }),
{
    let old = v.clients[a].room;
    let e = BrokerEventView::JoinRoom { sender: a, room, timestamp };
    assert forall|b: PeerAddr| without(v.rooms[old], a).contains(b) <==> v.rooms[old].contains(b) && b != a by {
        lemma_without_contains(v.rooms[old], a, b);
    }
    let rsp = BrokerToClientMsgView::Response(
        BrokerRsp::JoinRoom { status: true, created: !v.rooms.contains_key(room) },
    );
    assert(step_sends(v, e) =~= seq![(v.clients[a].channel, rsp)]);
}

/// Asking for the room one is already in fails: the client is told on its
/// channel that it did not move and no room was created, and nothing
/// changes.
pub proof fn law_move_to_same_room_refused(v: BrokerView, a: PeerAddr, timestamp: Seq<char>)
    requires
        v.clients.contains_key(a),
    ensures
        ({
            let e = BrokerEventView::JoinRoom { sender: a, room: v.clients[a].room, timestamp };
            let rsp = BrokerToClientMsgView::Response(BrokerRsp::JoinRoom { status: false, created: false });
            &&& step_next(v, e) == v
            &&& step_deliveries(v, e) == seq![DeliveryView { to: Recipient::Client(a), msg: rsp }]
            &&& step_sends(v, e) == seq![(v.clients[a].channel, rsp)]
        }),
{
    let e = BrokerEventView::JoinRoom { sender: a, room: v.clients[a].room, timestamp };
    let rsp = BrokerToClientMsgView::Response(BrokerRsp::JoinRoom { status: false, created: false });
    assert(step_sends(v, e) =~= seq![(v.clients[a].channel, rsp)]);
}

/// A room request from an address that is not connected changes nothing
/// and is answered to no one.
pub proof fn law_move_of_unknown_address_ignored(v: BrokerView, a: PeerAddr, room: Seq<char>, timestamp: Seq<char>)
    requires
        !v.clients.contains_key(a),
    ensures
        ({
            let e = BrokerEventView::JoinRoom { sender: a, room, timestamp };
            &&& step_next(v, e) == v
            &&& step_sends(v, e).len() == 0
        }),
{
}

/// A connected client that disconnects is gone; every other member of its
/// room, and no one else, is told once, on its channel, that it left; its
/// room is removed exactly when no one is left in it.
pub proof fn law_disconnect_notifies_the_rest_of_the_room(v: BrokerView, a: PeerAddr, timestamp: Seq<char>)
    requires
        broker_inv(v),
        v.clients.contains_key(a),
    ensures
        ({
            let e = BrokerEventView::Disconnect { addr: a, timestamp };
            let w = step_next(v, e);
            let ds = step_deliveries(v, e);
            let room = v.clients[a].room;
            &&& w.clients == v.clients.remove(a)
            &&& step_sends(v, e).len() == ds.len()
            &&& forall|i: int| 0 <= i < ds.len() ==> ((#[trigger] ds[i]).to matches Recipient::Client(m)
                && m != a && v.clients.contains_key(m) && v.clients[m].room == room && step_sends(v, e)[i] == (
                v.clients[m].channel,
                BrokerToClientMsgView::UserLogoutNtf { text: left_room_text(v.clients[a].str_id), timestamp },
            ))
            &&& forall|m: PeerAddr| #[trigger] v.clients.contains_key(m) && m != a && v.clients[m].room == room
                ==> exists|i: int| 0 <= i < ds.len() && ds[i].to == Recipient::Client(m)
            &&& forall|i: int, j: int| 0 <= i < ds.len() && 0 <= j < ds.len() && i != j ==> ds[i].to != ds[j].to
            &&& w.rooms.contains_key(room) <==> ds.len() > 0
        }),
{
    let e = BrokerEventView::Disconnect { addr: a, timestamp };
    let ds = step_deliveries(v, e);
    let room = v.clients[a].room;
    let rest = without(v.rooms[room], a);
    lemma_without_no_duplicates(v.rooms[room], a);
    assert forall|x: PeerAddr| rest.contains(x) <==> (v.rooms[room].contains(x) && x != a) by {
        lemma_without_contains(v.rooms[room], a, x);
    }
    assert(ds.len() == rest.len());
    assert forall|i: int| 0 <= i < ds.len() implies ((#[trigger] ds[i]).to matches Recipient::Client(m) && m
        != a && v.clients.contains_key(m) && v.clients[m].room == room && step_sends(v, e)[i] == (
        v.clients[m].channel,
        BrokerToClientMsgView::UserLogoutNtf { text: left_room_text(v.clients[a].str_id), timestamp },
    )) by {
        let m = rest[i];
        assert(ds[i].to == Recipient::Client(m));
        assert(rest.contains(m));
        let k = choose|k: int| 0 <= k < v.rooms[room].len() && v.rooms[room][k] == m;
        assert(v.clients.contains_key(v.rooms[room][k]));
    }
    assert forall|m: PeerAddr| #[trigger] v.clients.contains_key(m) && m != a && v.clients[m].room == room implies exists|
        i: int,
    | 0 <= i < ds.len() && ds[i].to == Recipient::Client(m) by {
        assert(rest.contains(m));
        let i = choose|i: int| 0 <= i < rest.len() && rest[i] == m;
        assert(ds[i].to == Recipient::Client(m));
    }
    assert forall|i: int, j: int| 0 <= i < ds.len() && 0 <= j < ds.len() && i != j implies ds[i].to
        != ds[j].to by {
        assert(ds[i].to == Recipient::Client(rest[i]));
        assert(ds[j].to == Recipient::Client(rest[j]));
    }
}

/// A disconnect of an address that is not connected changes nothing and is
/// told to no one; the broker goes on serving.
pub proof fn law_disconnect_of_unknown_address_ignored(v: BrokerView, a: PeerAddr, timestamp: Seq<char>)
    requires
        !v.clients.contains_key(a),
    ensures
        ({
            let e = BrokerEventView::Disconnect { addr: a, timestamp };
            &&& step_next(v, e) == v
            &&& step_sends(v, e).len() == 0
        }),
{
}

} // verus!
