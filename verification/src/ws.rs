//! The depth broadcaster: which clients follow which market, the latest depth
//! per market, and what each client message calls for.
use vstd::prelude::*;
use crate::book::rows_view;
use crate::strmap::StrMap;
use crate::types::{Depth, EngineResponse};

verus! {

/// A client's message.
#[derive(Debug)]
pub enum ClientMessage {
    SUBSCRIBE { params: [String; 1] },
    UNSUBSCRIBE,
}

/// A client following a market.
#[derive(Debug)]
pub struct ClientSub {
    pub id: String,
    pub market: String,
}

/// The first dot at or after `i` (the length where there is none).
pub open spec fn first_dot_from(s: Seq<char>, i: int) -> int
    decreases s.len() - i,
{
    if i < 0 || i >= s.len() {
        s.len() as int
    } else if s[i] == '.' {
        i
    } else {
        first_dot_from(s, i + 1)
    }
}

/// The market of a subscription topic: its second dot-separated field
/// ("depth.SOL" follows "SOL"). `None` where the topic has no dot.
pub open spec fn topic_market(s: Seq<char>) -> Option<Seq<char>> {
    let i = first_dot_from(s, 0);
    if i >= s.len() {
        None
    } else {
        Some(s.subrange(i + 1, first_dot_from(s, i + 1)))
    }
}

proof fn lemma_first_dot_from(s: Seq<char>, i: int)
    requires
        0 <= i <= s.len(),
    ensures
        i <= first_dot_from(s, i) <= s.len(),
    decreases s.len() - i,
{
    if i < s.len() && s[i] != '.' {
        lemma_first_dot_from(s, i + 1);
    }
}

fn find_dot(s: &str, from: usize) -> (r: usize)
    requires
        from <= s@.len(),
    ensures
        r == first_dot_from(s@, from as int),
{
    let n = s.unicode_len();
    let mut i = from;
    while i < n && s.get_char(i) != '.'
        invariant
            from <= i <= n,
            n == s@.len(),
            first_dot_from(s@, i as int) == first_dot_from(s@, from as int),
        decreases n - i,
    {
        i = i + 1;
    }
    i
}

/// The market a subscription topic follows, if it names one.
pub fn market_of_topic(topic: &String) -> (r: Option<String>)
    ensures
        r is Some <==> topic_market(topic@) is Some,
        r matches Some(m) ==> m@ == topic_market(topic@).unwrap(),
{
    let s = topic.as_str();
    let n = s.unicode_len();
    let i = find_dot(s, 0);
    if i >= n {
        return None;
    }
    let j = find_dot(s, i + 1);
    proof {
        lemma_first_dot_from(s@, i + 1);
    }
    Some(crate::text::text(s.substring_char(i + 1, j)))
}

/// The clients following markets, in the order they subscribed.
pub open spec fn registry_view(v: Seq<ClientSub>) -> Seq<(Seq<char>, Seq<char>)> {
    v.map_values(|c: ClientSub| (c.id@, c.market@))
}

/// Takes every subscription of the connection `id` off the registry,
/// keeping the others in order.
pub fn remove_client(registry: &mut Vec<ClientSub>, id: &String)
    ensures
        registry_view(final(registry)@) == registry_view(old(registry)@).filter(
            |c: (Seq<char>, Seq<char>)| c.0 != id@,
        ),
{
    let ghost old_view = registry_view(registry@);
    let mut kept: Vec<ClientSub> = Vec::new();
    let mut rest: Vec<ClientSub> = Vec::new();
    std::mem::swap(&mut rest, registry);
    let ghost all = rest@;
    let n = rest.len();
    let mut i: usize = 0;
    let ghost pred = |c: (Seq<char>, Seq<char>)| c.0 != id@;
    assert(registry_view(all) == old_view);
    while rest.len() > 0
        invariant
            i + rest@.len() == n,
            n == all.len(),
            rest@ == all.subrange(i as int, n as int),
            registry_view(kept@) == registry_view(all).take(i as int).filter(pred),
            pred == (|c: (Seq<char>, Seq<char>)| c.0 != id@),
        decreases rest@.len(),
    {
        let c = rest.remove(0);
        let ghost tk = registry_view(all).take(i + 1);
        assert(tk.drop_last() =~= registry_view(all).take(i as int));
        assert(c == all[i as int]);
        assert(tk.last() == (all[i as int].id@, all[i as int].market@));
        reveal_with_fuel(Seq::<(Seq<char>, Seq<char>)>::filter, 1);
        assert(tk.filter(pred) == if pred(tk.last()) {
            tk.drop_last().filter(pred).push(tk.last())
        } else {
            tk.drop_last().filter(pred)
        });
        if c.id != *id {
            assert(pred(tk.last()));
            kept.push(c);
            assert(registry_view(kept@) =~= registry_view(all).take(i as int).filter(pred).push(
                (all[i as int].id@, all[i as int].market@),
            ));
        }
        assert(rest@ =~= all.subrange(i + 1, n as int));
        i = i + 1;
    }
    assert(registry_view(all).take(n as int) =~= registry_view(all));
    *registry = kept;
}

/// The latest depth per market.
pub type DepthStore = StrMap<Depth>;

/// The latest depth of each market, after an engine answer: an order or
/// cancellation answer that carries a depth replaces its market's; other
/// answers change nothing.
pub fn process_engine_response(engine_response: EngineResponse, depth_store: &mut StrMap<Depth>)
    requires
        old(depth_store).wf(),
    ensures
        final(depth_store).wf(),
        match engine_response {
            EngineResponse::CreateOrder { data, .. } => match data.depth {
                Some(d) => final(depth_store).map() == old(depth_store).map().insert(data.order.market@, d),
                None => final(depth_store).map() == old(depth_store).map(),
            },
            EngineResponse::CancelOrder { data, .. } => match data.depth {
                Some(d) => final(depth_store).map() == old(depth_store).map().insert(data.market@, d),
                None => final(depth_store).map() == old(depth_store).map(),
            },
            _ => final(depth_store).map() == old(depth_store).map(),
        },
{
    match engine_response {
        EngineResponse::CreateOrder { data, .. } => {
            if let Some(depth) = data.depth {
                depth_store.insert(data.order.market, depth);
            }
        },
        EngineResponse::CancelOrder { data, .. } => {
            if let Some(depth) = data.depth {
                depth_store.insert(data.market, depth);
            }
        },
        _ => {},
    }
}

/// A copy of a depth.
pub fn copy_depth(d: &Depth) -> (r: Depth)
    ensures
        rows_view(r.bids@) == rows_view(d.bids@),
        rows_view(r.asks@) == rows_view(d.asks@),
{
    Depth { bids: copy_rows(&d.bids), asks: copy_rows(&d.asks) }
}

fn copy_rows(v: &Vec<(String, String)>) -> (r: Vec<(String, String)>)
    ensures
        rows_view(r@) == rows_view(v@),
{
    let mut r: Vec<(String, String)> = Vec::new();
    let mut i: usize = 0;
    while i < v.len()
        invariant
            i <= v@.len(),
            r@.len() == i,
            forall|k: int| 0 <= k < i ==> (#[trigger] r@[k]).0@ == v@[k].0@ && r@[k].1@ == v@[k].1@,
        decreases v@.len() - i,
    {
        r.push((v[i].0.clone(), v[i].1.clone()));
        i = i + 1;
    }
    assert(rows_view(r@) =~= rows_view(v@));
    r
}

/// What one depth push sends: to each client, in registry order, the latest
/// depth of its market where there is one.
pub fn depth_push(depth_store: &StrMap<Depth>, clients: &Vec<ClientSub>) -> (r: Vec<(String, Depth)>)
    requires
        depth_store.wf(),
    ensures
        ({
            let sent = clients@.filter(|c: ClientSub| depth_store.map().contains_key(c.market@));
            &&& r@.len() == sent.len()
            &&& forall|k: int|
                0 <= k < r@.len() ==> (#[trigger] r@[k]).0@ == sent[k].id@ && rows_view(r@[k].1.bids@) == rows_view(
                    depth_store.map()[sent[k].market@].bids@,
                ) && rows_view(r@[k].1.asks@) == rows_view(depth_store.map()[sent[k].market@].asks@)
        }),
{
    let ghost pred = |c: ClientSub| depth_store.map().contains_key(c.market@);
    let mut r: Vec<(String, Depth)> = Vec::new();
    let mut i: usize = 0;
    while i < clients.len()
        invariant
            i <= clients@.len(),
            depth_store.wf(),
            pred == (|c: ClientSub| depth_store.map().contains_key(c.market@)),
            r@.len() == clients@.take(i as int).filter(pred).len(),
            forall|k: int|
                0 <= k < r@.len() ==> (#[trigger] r@[k]).0@ == clients@.take(i as int).filter(pred)[k].id@ && rows_view(
                    r@[k].1.bids@,
                ) == rows_view(depth_store.map()[clients@.take(i as int).filter(pred)[k].market@].bids@) && rows_view(
                    r@[k].1.asks@,
                ) == rows_view(depth_store.map()[clients@.take(i as int).filter(pred)[k].market@].asks@),
        decreases clients@.len() - i,
    {
        let ghost before = clients@.take(i as int).filter(pred);
        assert(clients@.take(i + 1).drop_last() =~= clients@.take(i as int));
        reveal_with_fuel(Seq::<ClientSub>::filter, 1);
        let ghost tk = clients@.take(i + 1);
        assert(tk.last() == clients@[i as int]);
        assert(tk.filter(pred) == if pred(tk.last()) {
            before.push(tk.last())
        } else {
            before
        });
        let c = &clients[i];
        match depth_store.get(&c.market) {
            Some(d) => {
                let ghost old_r = r@;
                r.push((c.id.clone(), copy_depth(d)));
                assert(depth_store.map().contains_key(clients@[i as int].market@));
                assert(pred(tk.last()));
                assert(clients@.take(i + 1).filter(pred) == before.push(clients@[i as int]));
                assert forall|k: int| 0 <= k < r@.len() implies (#[trigger] r@[k]).0@ == clients@.take(i + 1).filter(
                    pred,
                )[k].id@ && rows_view(r@[k].1.bids@) == rows_view(
                    depth_store.map()[clients@.take(i + 1).filter(pred)[k].market@].bids@,
                ) && rows_view(r@[k].1.asks@) == rows_view(
                    depth_store.map()[clients@.take(i + 1).filter(pred)[k].market@].asks@,
                ) by {
                    if k < old_r.len() {
                        assert(r@[k] == old_r[k]);
                    }
                }
            },
            None => {
                assert(clients@.take(i + 1).filter(pred) == before);
            },
        }
        i = i + 1;
    }
    assert(clients@.take(clients@.len() as int) =~= clients@);
    r
}

/// What a connection does next.
#[derive(Debug, PartialEq, Eq)]
pub enum WsAction {
    /// Stop the task that forwards broadcasts to the client.
    AbortPush,
    /// Add the connection to the registry for a market.
    Register(String),
    /// Start forwarding broadcasts to the client.
    StartPush,
    /// Take the connection's subscriptions off the registry.
    Unregister,
    /// Drop the connection (its topic named no market).
    Drop,
}

/// What a connection hears from its client.
#[derive(Debug)]
pub enum ClientEvent {
    /// A text message that reads as a client message.
    Message(ClientMessage),
    /// The client closes the connection.
    Close,
    /// Anything else: text that does not read, binary data, pings.
    Other,
}

/// One event on a connection, given whether it is forwarding broadcasts:
/// whether it is afterwards, and what to do. A subscription stops a running
/// forwarder, registers the connection for the topic's market and starts a
/// new forwarder (a topic without a market drops the connection); an
/// unsubscription or a close of a forwarding connection unregisters it and
/// stops the forwarder; anything else changes nothing.
pub fn on_client_event(pushing: bool, event: ClientEvent) -> (r: (bool, Vec<WsAction>))
    ensures
        match event {
            ClientEvent::Message(ClientMessage::SUBSCRIBE { params }) => match topic_market(params@[0]@) {
                Some(m) => {
                    &&& r.0
                    &&& r.1@.len() == (if pushing { 3int } else { 2int })
                    &&& (pushing ==> r.1@[0] == WsAction::AbortPush)
                    &&& r.1@[r.1@.len() - 2] matches WsAction::Register(mm)
                    &&& mm@ == m
                    &&& r.1@[r.1@.len() - 1] == WsAction::StartPush
                },
                None => !r.0 && r.1@ == (if pushing { seq![WsAction::AbortPush, WsAction::Drop] } else { seq![WsAction::Drop] }),
            },
            ClientEvent::Message(ClientMessage::UNSUBSCRIBE) | ClientEvent::Close => if pushing {
                !r.0 && r.1@ == seq![WsAction::Unregister, WsAction::AbortPush]
            } else {
                !r.0 && r.1@.len() == 0
            },
            ClientEvent::Other => r.0 == pushing && r.1@.len() == 0,
        },
{
    let mut actions: Vec<WsAction> = Vec::new();
    match event {
        ClientEvent::Message(ClientMessage::SUBSCRIBE { params }) => {
            if pushing {
                actions.push(WsAction::AbortPush);
            }
            match market_of_topic(&params[0]) {
                Some(m) => {
                    actions.push(WsAction::Register(m));
                    actions.push(WsAction::StartPush);
                    (true, actions)
                },
                None => {
                    actions.push(WsAction::Drop);
                    assert(actions@ =~= (if pushing { seq![WsAction::AbortPush, WsAction::Drop] } else { seq![WsAction::Drop] }));
                    (false, actions)
                },
            }
        },
        ClientEvent::Message(ClientMessage::UNSUBSCRIBE) | ClientEvent::Close => {
            if pushing {
                actions.push(WsAction::Unregister);
                actions.push(WsAction::AbortPush);
                assert(actions@ =~= seq![WsAction::Unregister, WsAction::AbortPush]);
            }
            (false, actions)
        },
        ClientEvent::Other => (pushing, actions),
    }
}

} // verus!
