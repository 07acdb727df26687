//! Bookkeeping of an RPC client: which requests are waiting for a response, which
//! identifier the next request gets, and what an incoming message does to them.

use std::collections::HashMap;
use tokio::sync::oneshot::{Receiver, Sender};
use vstd::arithmetic::power2::{pow2, lemma2_to64, lemma_pow2_strictly_increases, lemma_pow2_unfold};
use vstd::prelude::*;
use vstd::std_specs::iter::IteratorSpec;

use crate::external::{oneshot_channel, oneshot_send, ChannelLog, SendLog};

verus! {

broadcast use vstd::std_specs::hash::group_hash_axioms;

/// The identifier given to the request after the one identified by `id`.
///
/// The next identifier is the previous one added to itself plus one, so the
/// identifiers run 0, 1, 3, 7, 15, ... and are not consecutive. Once `u64::MAX` is
/// reached it is handed out again for every further request; such a request takes
/// the place of the one still waiting under `u64::MAX`, whose receiver then sees its
/// sender dropped.
pub open spec fn following_id(id: u64) -> u64 {
    if id == u64::MAX {
        id
    } else {
        (2 * id + 1) as u64
    }
}

/// The identifiers a request map can hand out: one less than a power of two that
/// is at most `2^64`.
pub open spec fn is_reachable_id(id: u64) -> bool {
    exists|k: nat| k <= 64 && id + 1 == pow2(k)
}

/// Handing out identifiers never overflows, and it stays among the reachable ones.
pub proof fn lemma_following_id(id: u64)
    requires
        is_reachable_id(id),
    ensures
        id != u64::MAX ==> 2 * id + 1 <= u64::MAX,
        is_reachable_id(following_id(id)),
{
    let k = choose|k: nat| k <= 64 && id + 1 == pow2(k);
    lemma2_to64();
    if k < 64 {
        lemma_pow2_unfold((k + 1) as nat);
        if k + 1 < 64 {
            lemma_pow2_strictly_increases((k + 1) as nat, 64);
        }
        assert(following_id(id) + 1 == pow2((k + 1) as nat));
    } else {
        assert(id == u64::MAX);
        assert(following_id(id) + 1 == pow2(k));
    }
}

/// Below `u64::MAX`, the identifier after `id` is exactly `2 * id + 1`.
pub proof fn lemma_following_id_doubles_plus_one(id: u64)
    requires
        id < u64::MAX,
        is_reachable_id(id),
    ensures
        following_id(id) == 2 * id + 1,
{
    lemma_following_id(id);
}

/// The identifier handed out to the `n`-th request (counting from 0) of a fresh map.
pub open spec fn nth_request_id(n: nat) -> u64
    decreases n,
{
    if n == 0 {
        0
    } else {
        following_id(nth_request_id((n - 1) as nat))
    }
}

/// The `n`-th request of a fresh map gets `2^n - 1` for `n <= 64`; from the 64th
/// request on, every request gets `u64::MAX`.
pub proof fn lemma_nth_request_id(n: nat)
    ensures
        n <= 64 ==> nth_request_id(n) + 1 == pow2(n),
        n >= 64 ==> nth_request_id(n) == u64::MAX,
    decreases n,
{
    lemma2_to64();
    if n > 0 {
        lemma_nth_request_id((n - 1) as nat);
        let prev = nth_request_id((n - 1) as nat);
        if n <= 64 {
            assert(is_reachable_id(prev));
            lemma_following_id(prev);
            lemma_pow2_unfold(n);
            if n < 64 {
                lemma_pow2_strictly_increases(n, 64);
            }
        }
    }
}

/// The first 65 identifiers a fresh map hands out (requests 0 to 64) strictly
/// increase, so no two of them are the same.
pub proof fn lemma_first_request_ids_distinct(n: nat, m: nat)
    requires
        n < m <= 64,
    ensures
        nth_request_id(n) < nth_request_id(m),
{
    lemma_nth_request_id(n);
    lemma_nth_request_id(m);
    lemma_pow2_strictly_increases(n, m);
}

/// Each request gets a larger identifier than the one before it until `u64::MAX`
/// is reached; from then on `u64::MAX` is handed out again and again (the quirk
/// described at [`following_id`]).
pub proof fn lemma_ids_increase_until_max(id: u64)
    requires
        is_reachable_id(id),
    ensures
        id < u64::MAX ==> following_id(id) > id,
        id == u64::MAX ==> following_id(id) == id,
{
    lemma_following_id(id);
}

/// The requests that are waiting for a response, each with the channel its
/// response goes to.
#[verifier::reject_recursive_types(T)]
pub struct RequestMap<T> {
    next_id: u64,
    demux_map: HashMap<u64, Sender<T>>,
    channels: ChannelLog<T>,
}

impl<T> RequestMap<T> {
    /// The identifier the next request will get.
    pub closed spec fn next_request_id(self) -> u64 {
        self.next_id
    }

    /// The requests waiting for a response: each identifier with the sending half
    /// of the channel its response goes to.
    pub closed spec fn senders(self) -> Map<u64, Sender<T>> {
        self.demux_map@
    }

    /// The channels this map has opened for its requests, oldest first: the
    /// sending and the receiving half of each.
    pub closed spec fn opened_channels(self) -> Seq<(Sender<T>, Receiver<T>)> {
        self.channels.entries()
    }

    /// The identifiers of the requests waiting for a response.
    pub open spec fn pending_ids(self) -> Set<u64> {
        self.senders().dom()
    }

    #[verifier::type_invariant]
    closed spec fn well_formed(self) -> bool {
        is_reachable_id(self.next_id)
    }

    pub fn new(demux_map: HashMap<u64, Sender<T>>) -> (m: RequestMap<T>)
        ensures
            m.next_request_id() == 0,
            m.senders() == demux_map@,
            m.opened_channels() == Seq::<(Sender<T>, Receiver<T>)>::empty(),
    {
        proof {
            lemma2_to64();
            assert(0 + 1 == pow2(0));
        }
        RequestMap { next_id: 0, demux_map, channels: ChannelLog::new() }
    }

    /// Registers a new request: it gets the next identifier, the sending half of a
    /// fresh channel is stored under it (in place of any sender already there), and
    /// the receiving half is returned to wait for the response.
    pub fn allocate_request_slot(&mut self) -> (r: (u64, Receiver<T>))
        ensures
            r.0 == old(self).next_request_id(),
            final(self).next_request_id() == following_id(old(self).next_request_id()),
            old(self).next_request_id() < u64::MAX ==> final(self).next_request_id() == 2 * old(
                self,
            ).next_request_id() + 1,
            old(self).next_request_id() == u64::MAX ==> final(self).next_request_id()
                == u64::MAX,
            final(self).senders() == old(self).senders().insert(r.0, final(self).senders()[r.0]),
            final(self).opened_channels() == old(self).opened_channels().push(
                (final(self).senders()[r.0], r.1),
            ),
    {
        proof {
            use_type_invariant(&*self);
            lemma_following_id(self.next_id);
        }
        let id = self.next_id;
        self.next_id = self.next_id + self.next_id.wrapping_add(1);
        let mut channels = ChannelLog::new();
        std::mem::swap(&mut channels, &mut self.channels);
        let (tx, rx) = oneshot_channel(&mut channels);
        self.channels = channels;
        let mut map = HashMap::new();
        std::mem::swap(&mut map, &mut self.demux_map);
        map.insert(id, tx);
        self.demux_map = map;
        (id, rx)
    }

    /// Sends `value` on the sender stored under `request_id` and forgets that
    /// request, if it is waiting; `sent` records the send.
    fn deliver(&mut self, request_id: u64, value: T, sent: &mut SendLog<T>) -> (outcome: RxOutcome)
        ensures
            final(self).next_request_id() == old(self).next_request_id(),
            old(self).pending_ids().contains(request_id) ==> {
                &&& outcome == RxOutcome::Delivered
                &&& final(self).senders() == old(self).senders().remove(request_id)
                &&& final(sent).entries() == old(sent).entries().push(
                    (old(self).senders()[request_id], value),
                )
            },
            !old(self).pending_ids().contains(request_id) ==> {
                &&& outcome == RxOutcome::UnknownRequest(request_id)
                &&& final(self).senders() == old(self).senders()
                &&& final(sent).entries() == old(sent).entries()
            },
    {
        proof {
            use_type_invariant(&*self);
        }
        let mut map = HashMap::new();
        std::mem::swap(&mut map, &mut self.demux_map);
        let removed = map.remove(&request_id);
        self.demux_map = map;
        match removed {
            Some(tx) => {
                let _ = oneshot_send(tx, value, sent);
                RxOutcome::Delivered
            },
            None => RxOutcome::UnknownRequest(request_id),
        }
    }

    /// Sends a clone of `x` on the sender of every request still waiting for a
    /// response, and forgets them; `sent` records the sends.
    pub fn close_with_global_result(self, x: T, sent: &mut SendLog<T>) where T: Clone
        ensures
            is_broadcast(old(sent).entries(), final(sent).entries(), self.senders(), x),
    {
        let ghost before = sent.entries();
        let ghost senders = self.senders();
        let ghost pending = self.pending_ids();
        let mut map = self.demux_map;
        let mut ids: Vec<u64> = Vec::new();
        let ghost keys = vstd::std_specs::hash::spec_keys_iter(&map).remaining();
        for id in it: map.keys()
            invariant
                keys == vstd::std_specs::hash::spec_keys_iter(&map).remaining(),
                it.seq() == keys,
                ids@.len() == it.index(),
                forall|k: int| 0 <= k < ids@.len() ==> ids@[k] == *keys[k],
        {
            ids.push(*id);
        }
        proof {
            assert(ids@.len() == keys.len());
            assert(ids@ =~= keys.unref());
            assert(keys.unref().to_set() == pending);
            assert(keys.no_duplicates());
            assert forall|a: int, b: int| 0 <= a < b < ids@.len() implies ids@[a] != ids@[b] by {
                assert(keys[a] != keys[b]);
            }
            assert(ids@.no_duplicates());
            assert(ids@.to_set() == senders.dom());
            assert forall|k: int| 0 <= k < ids@.len() implies senders.contains_key(
                #[trigger] ids@[k],
            ) by {
                assert(ids@.to_set().contains(ids@[k]));
            }
        }
        let mut i: usize = 0;
        while i < ids.len()
            invariant
                forall|a: int, b: int| 0 <= a < b < ids@.len() ==> ids@[a] != ids@[b],
                i <= ids@.len(),
                forall|k: int|
                    i <= k < ids@.len() ==> map@.contains_key(#[trigger] ids@[k]) && map@[ids@[k]]
                        == senders[ids@[k]],
                sent.entries().len() == before.len() + i,
                sent.entries().take(before.len() as int) == before,
                forall|k: int|
                    0 <= k < i ==> sent.entries()[before.len() + k].0 == senders[#[trigger] ids@[k]]
                        && cloned(x, sent.entries()[before.len() + k].1),
            decreases ids.len() - i,
        {
            let ghost log_before = sent.entries();
            let removed = map.remove(&ids[i]);
            match removed {
                Some(tx) => {
                    let copy = x.clone();
                    let _ = oneshot_send(tx, copy, sent);
                    proof {
                        assert(sent.entries().take(before.len() as int) =~= log_before.take(
                            before.len() as int,
                        ));
                        assert forall|k: int| 0 <= k < i + 1 implies sent.entries()[before.len()
                            + k].0 == senders[#[trigger] ids@[k]] && cloned(
                            x,
                            sent.entries()[before.len() + k].1,
                        ) by {
                            if k < i {
                                assert(sent.entries()[before.len() + k] == log_before[before.len()
                                    + k]);
                            }
                        }
                        assert forall|k: int| i + 1 <= k < ids@.len() implies map@.contains_key(
                            #[trigger] ids@[k],
                        ) && map@[ids@[k]] == senders[ids@[k]] by {
                            assert(ids@[k] != ids@[i as int]);
                        }
                    }
                },
                None => {
                    proof {
                        assert(map@.contains_key(ids@[i as int]));
                    }
                },
            }
            i = i + 1;
        }
        proof {
            assert(is_broadcast_along(before, sent.entries(), senders, x, ids@));
        }
    }
}

/// Whether `after` is `before` followed by one send for each identifier in `ids`,
/// in that sequence: the send for `ids[i]` went on the sender that `senders` holds
/// under it, with a clone of `x`; and `ids` names each key of `senders` once.
pub open spec fn is_broadcast_along<T: Clone>(
    before: Seq<(Sender<T>, T)>,
    after: Seq<(Sender<T>, T)>,
    senders: Map<u64, Sender<T>>,
    x: T,
    ids: Seq<u64>,
) -> bool {
    &&& ids.no_duplicates()
    &&& ids.to_set() == senders.dom()
    &&& after.len() == before.len() + ids.len()
    &&& after.take(before.len() as int) == before
    &&& forall|i: int|
        0 <= i < ids.len() ==> after[before.len() + i].0 == senders[#[trigger] ids[i]]
            && cloned(x, after[before.len() + i].1)
}

/// Whether `after` is `before` followed by exactly one send on each sender of
/// `senders`, in some order, each sending a clone of `x`.
pub open spec fn is_broadcast<T: Clone>(
    before: Seq<(Sender<T>, T)>,
    after: Seq<(Sender<T>, T)>,
    senders: Map<u64, Sender<T>>,
    x: T,
) -> bool {
    exists|ids: Seq<u64>| #[trigger] is_broadcast_along(before, after, senders, x, ids)
}

/// A message coming in from the server side of the connection, already decoded.
pub enum RxEvent<T> {
    /// A response to the request with the given identifier.
    Response { request_id: u64, value: T },
    /// A message that could not be decoded.
    Undecodable,
    /// The transport failed; every waiting request is answered with this value.
    Failure(T),
    /// The connection has ended.
    Closed,
}

/// What handling an incoming message did.
#[derive(Debug, Clone, Copy, PartialEq, Eq, Structural)]
pub enum RxOutcome {
    /// The response went to the request that was waiting for it.
    Delivered,
    /// No request with this identifier was waiting; the response was dropped.
    UnknownRequest(u64),
    /// The message could not be decoded and was dropped.
    Undecodable,
    /// Every waiting request was answered with the failure; the client is now
    /// disconnected.
    FailureBroadcast,
    /// The connection ended; the client is now disconnected.
    Disconnected,
    /// The client was already disconnected; nothing changed.
    AlreadyDisconnected,
}

/// Handles one incoming message. `map` is `None` once the client is disconnected;
/// `sent` records every value sent to a waiting request.
pub fn handle_rx_next<T: Clone>(
    map: &mut Option<RequestMap<T>>,
    event: RxEvent<T>,
    sent: &mut SendLog<T>,
) -> (outcome: RxOutcome)
    ensures
        *old(map) is None ==> {
            &&& *final(map) is None
            &&& outcome == RxOutcome::AlreadyDisconnected
            &&& final(sent).entries() == old(sent).entries()
        },
        *old(map) matches Some(m) ==> match event {
            RxEvent::Response { request_id, value } => if m.pending_ids().contains(request_id) {
                &&& outcome == RxOutcome::Delivered
                &&& *final(map) matches Some(n) && n.next_request_id() == m.next_request_id()
                    && n.senders() == m.senders().remove(request_id)
                &&& final(sent).entries() == old(sent).entries().push(
                    (m.senders()[request_id], value),
                )
            } else {
                &&& outcome == RxOutcome::UnknownRequest(request_id)
                &&& *final(map) matches Some(n) && n.next_request_id() == m.next_request_id()
                    && n.senders() == m.senders()
                &&& final(sent).entries() == old(sent).entries()
            },
            RxEvent::Undecodable => {
                &&& outcome == RxOutcome::Undecodable
                &&& *final(map) == *old(map)
                &&& final(sent).entries() == old(sent).entries()
            },
            RxEvent::Failure(x) => {
                &&& outcome == RxOutcome::FailureBroadcast
                &&& *final(map) is None
                &&& is_broadcast(old(sent).entries(), final(sent).entries(), m.senders(), x)
            },
            RxEvent::Closed => {
                &&& outcome == RxOutcome::Disconnected
                &&& *final(map) is None
                &&& final(sent).entries() == old(sent).entries()
            },
        },
{
    let taken = map.take();
    match taken {
        None => RxOutcome::AlreadyDisconnected,
        Some(mut m) => match event {
            RxEvent::Response { request_id, value } => {
                let outcome = m.deliver(request_id, value, sent);
                *map = Some(m);
                outcome
            },
            RxEvent::Undecodable => {
                *map = Some(m);
                RxOutcome::Undecodable
            },
            RxEvent::Failure(x) => {
                m.close_with_global_result(x, sent);
                RxOutcome::FailureBroadcast
            },
            RxEvent::Closed => RxOutcome::Disconnected,
        },
    }
}

/// Registers a new request, unless the client is disconnected (`map` is `None`).
pub fn begin_request<T>(map: &mut Option<RequestMap<T>>) -> (r: Option<(u64, Receiver<T>)>)
    ensures
        *old(map) is None ==> r is None && *final(map) is None,
        *old(map) matches Some(m) ==> (m.next_request_id() < u64::MAX ==> (*final(map) matches Some(
            n,
        ) && n.next_request_id() == 2 * m.next_request_id() + 1)),
        *old(map) matches Some(m) ==> {
            &&& r matches Some(slot) && slot.0 == m.next_request_id()
            &&& *final(map) matches Some(n) && n.next_request_id() == following_id(m.next_request_id())
                && n.senders() == m.senders().insert(
                m.next_request_id(),
                n.senders()[m.next_request_id()],
            )
            &&& r matches Some(slot) && *final(map) matches Some(n) && n.opened_channels()
                == m.opened_channels().push((n.senders()[slot.0], slot.1))
        },
{
    match map {
        None => None,
        Some(m) => Some(m.allocate_request_slot()),
    }
}

} // verus!
