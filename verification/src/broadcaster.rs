//! The broadcaster: fans out short text events to any number of concurrent
//! subscribers, without letting a slow or dead subscriber stall producers.
//!
//! Each subscription gets a bounded outbound channel and immediately
//! receives a synthetic `connected` event. A send enqueues the event,
//! framed for the event stream, on every channel that can take it; a full
//! or closed channel silently drops that event — delivery is best-effort,
//! at most once. A periodic heartbeat enqueues a ping on every channel and
//! reaps every subscriber whose channel cannot take it; that reaping is the
//! sole way a disconnected subscriber leaves the registry.

use vstd::prelude::*;
use vstd::string::StringExecFns;

verus! {

/// How many frames one subscriber's channel buffers before the broadcaster
/// drops events for it.
pub const CHANNEL_CAPACITY: usize = 100;

/// How often the heartbeat ticks, in milliseconds.
pub const HEARTBEAT_INTERVAL_MS: u64 = 500;

/// What a text becomes once its written-out backslash escapes are applied.
/// A function of the characters alone.
pub uninterp spec fn unescaped_of(s: Seq<char>) -> Seq<char>;

/// Whether a text's written-out backslash escapes are all well-formed, so
/// that applying them succeeds. A function of the characters alone.
pub uninterp spec fn unescape_ok(s: Seq<char>) -> bool;

/// Relies on `unescape::unescape`: rewriting written-out backslash escapes
/// is decided by the characters alone; it succeeds exactly on the texts
/// whose escapes are well-formed, and a malformed escape yields `None`.
#[verifier::external_body]
fn unescape_text(s: &str) -> (r: Option<String>)
    ensures
        (r is Some) <==> unescape_ok(s@),
        r matches Some(u) ==> u@ == unescaped_of(s@),
{
    unescape::unescape(s)
}

/// The event-stream framing of one event text.
pub open spec fn sse_frame_spec(msg: Seq<char>) -> Seq<char> {
    "data: "@ + msg + "\n\n"@
}

/// Frame one event text for the stream.
pub fn sse_frame(msg: &str) -> (r: String)
    ensures
        r@ == sse_frame_spec(msg@),
{
    let s = String::from_str("data: ");
    let s = s.concat(msg);
    s.concat("\n\n")
}

/// One subscriber's bounded outbound channel, as the broadcaster holds it:
/// the frames enqueued and not yet taken, and whether the subscriber's end
/// has closed.
#[derive(Debug)]
pub struct Client {
    /// Stable handle a subscriber reads its channel by.
    pub id: u64,
    /// Frames awaiting the subscriber, oldest first.
    pub queue: Vec<String>,
    /// The subscriber's end is gone; nothing sent here arrives.
    pub closed: bool,
}

/// The ghost shape of one channel: its id, its queued frames and whether
/// it has closed.
pub struct ClientModel {
    pub id: u64,
    pub frames: Seq<Seq<char>>,
    pub closed: bool,
}

impl Client {
    pub open spec fn model(self) -> ClientModel {
        ClientModel { id: self.id, frames: self.queue.deep_view(), closed: self.closed }
    }
}

/// A channel can take one more frame: it is open and not full.
pub open spec fn can_accept(m: ClientModel) -> bool {
    !m.closed && m.frames.len() < CHANNEL_CAPACITY
}

/// The channel after a best-effort send of `frame`: enqueued if the
/// channel can take it, silently unchanged otherwise.
pub open spec fn after_send(m: ClientModel, frame: Seq<char>) -> ClientModel {
    if can_accept(m) {
        ClientModel { id: m.id, frames: m.frames.push(frame), closed: m.closed }
    } else {
        m
    }
}

/// The ghost shape of a channel registry.
pub open spec fn models(cs: Seq<Client>) -> Seq<ClientModel> {
    cs.map_values(|c: Client| c.model())
}

/// The registry after one heartbeat tick: the channels that could take
/// the ping, each with the ping enqueued, in their old order.
pub open spec fn reaped_models(cs: Seq<Client>) -> Seq<ClientModel> {
    models(cs).filter(|m: ClientModel| can_accept(m)).map_values(
        |m: ClientModel| after_send(m, sse_frame_spec("ping"@)),
    )
}

/// The registry of live subscriber channels.
#[derive(Debug)]
pub struct Broadcaster {
    pub clients: Vec<Client>,
    /// The id the next subscriber will get.
    pub next_id: u64,
}

impl Broadcaster {
    pub open spec fn wf(self) -> bool {
        &&& forall|i1: int, i2: int| 0 <= i1 < i2 < self.clients@.len()
            ==> (#[trigger] self.clients@[i1]).id != (#[trigger] self.clients@[i2]).id
        &&& forall|i: int| 0 <= i < self.clients@.len() ==> (#[trigger] self.clients@[i]).id
            < self.next_id
        &&& forall|i: int| 0 <= i < self.clients@.len() ==> (#[trigger] self.clients@[i]).queue@.len()
            <= CHANNEL_CAPACITY
    }

    /// An empty registry.
    pub fn new() -> (r: Self)
        ensures
            r.wf(),
            r.clients@.len() == 0,
            r.next_id == 0,
    {
        Broadcaster { clients: Vec::new(), next_id: 0 }
    }

    /// Register a new subscriber and hand back the id it reads its channel
    /// by. The new channel is open, and already carries the synthetic
    /// `connected` event — a subscriber sees it immediately.
    pub fn new_client(&mut self) -> (r: u64)
        requires
            old(self).wf(),
            old(self).next_id < u64::MAX,
        ensures
            final(self).wf(),
            r == old(self).next_id,
            final(self).next_id == old(self).next_id + 1,
            final(self).clients@.len() == old(self).clients@.len() + 1,
            forall|i: int| 0 <= i < old(self).clients@.len() ==> final(self).clients@[i]
                == old(self).clients@[i],
            final(self).clients@.last().id == r,
            !final(self).clients@.last().closed,
            final(self).clients@.last().queue@.len() == 1,
            final(self).clients@.last().queue@[0]@ == sse_frame_spec("connected"@),
    {
        let id = self.next_id;
        let mut queue: Vec<String> = Vec::new();
        queue.push(sse_frame("connected"));
        self.clients.push(Client { id, queue, closed: false });
        self.next_id = self.next_id + 1;
        id
    }

    /// Best-effort fan-out of one already-framed event: every channel that
    /// can take the frame gets it, every full or closed channel silently
    /// drops it, and no channel is added or removed.
    pub fn deliver(&mut self, frame: &String)
        requires
            old(self).wf(),
        ensures
            final(self).wf(),
            final(self).next_id == old(self).next_id,
            final(self).clients@.len() == old(self).clients@.len(),
            forall|i: int| 0 <= i < old(self).clients@.len()
                ==> (#[trigger] final(self).clients@[i]).model() == after_send(
                old(self).clients@[i].model(),
                frame@,
            ),
    {
        let n = self.clients.len();
        let mut i: usize = 0;
        while i < n
            invariant
                i <= n,
                n == self.clients@.len(),
                n == old(self).clients@.len(),
                self.next_id == old(self).next_id,
                forall|j: int| 0 <= j < i ==> (#[trigger] self.clients@[j]).model() == after_send(
                    old(self).clients@[j].model(),
                    frame@,
                ),
                forall|j: int| 0 <= j < i ==> (#[trigger] self.clients@[j]).id
                    == old(self).clients@[j].id,
                forall|j: int| 0 <= j < i ==> (#[trigger] self.clients@[j]).queue@.len()
                    <= CHANNEL_CAPACITY,
                forall|j: int| i <= j < n ==> #[trigger] self.clients@[j]
                    == old(self).clients@[j],
                old(self).wf(),
            decreases n - i,
        {
            let closed = self.clients[i].closed;
            let qlen = self.clients[i].queue.len();
            if !closed && qlen < CHANNEL_CAPACITY {
                let c = &mut self.clients[i];
                c.queue.push(frame.clone());
                proof {
                    assert(self.clients@[i as int].model().frames =~= old(self).clients@[
                        i as int].model().frames.push(frame@));
                    assert(self.clients@[i as int].queue@.len() == old(self).clients@[
                        i as int].queue@.len() + 1);
                }
            }
            i = i + 1;
        }
    }

    /// Broadcast one event text: its written-out escapes are applied, the
    /// result framed for the stream and fanned out best-effort — every
    /// open, non-full channel receives it, every other channel silently
    /// drops it. An event whose escapes are malformed is dropped whole;
    /// either way the registry keeps the same channels in the same order.
    pub fn send(&mut self, msg: &str)
        requires
            old(self).wf(),
        ensures
            final(self).wf(),
            final(self).next_id == old(self).next_id,
            final(self).clients@.len() == old(self).clients@.len(),
            unescape_ok(msg@) ==> forall|i: int| 0 <= i < old(self).clients@.len()
                ==> (#[trigger] final(self).clients@[i]).model() == after_send(
                old(self).clients@[i].model(),
                sse_frame_spec(unescaped_of(msg@)),
            ),
            !unescape_ok(msg@) ==> final(self).clients@ == old(self).clients@,
    {
        match unescape_text(msg) {
            Some(u) => {
                let framed = sse_frame(u.as_str());
                self.deliver(&framed);
            },
            None => (),
        }
    }

    /// One heartbeat tick: enqueue a ping on every channel that can take
    /// it and keep those channels; reap every channel that is closed or
    /// full — the failed ping is the proof of a dead or unresponsive
    /// subscriber. Order among the kept channels is preserved.
    pub fn remove_stale_clients(&mut self)
        requires
            old(self).wf(),
        ensures
            final(self).wf(),
            final(self).next_id == old(self).next_id,
            models(final(self).clients@) == reaped_models(old(self).clients@),
    {
        let ghost all = self.clients@;
        let total = self.clients.len();
        proof {
            assert(all.len() == total);
            assert(all.subrange(0, all.len() as int) =~= all);
        }
        let mut kept: Vec<Client> = Vec::new();
        proof {
            assert(models(all.subrange(0, 0)).filter(|m: ClientModel| can_accept(m)) =~= Seq::<
                ClientModel,
            >::empty()) by {
                assert(models(all.subrange(0, 0)) =~= Seq::<ClientModel>::empty());
                reveal(Seq::filter);
            }
            assert(models(kept@) =~= Seq::<ClientModel>::empty());
        }
        while self.clients.len() > 0
            invariant
                self.next_id == old(self).next_id,
                old(self).wf(),
                all == old(self).clients@,
                all.len() <= usize::MAX,
                self.clients@.len() <= all.len(),
                self.clients@ == all.subrange(
                    all.len() - self.clients@.len(),
                    all.len() as int,
                ),
                models(kept@) == models(all.subrange(0, all.len() - self.clients@.len())).filter(
                    |m: ClientModel| can_accept(m),
                ).map_values(|m: ClientModel| after_send(m, sse_frame_spec("ping"@))),
                forall|x: int| 0 <= x < kept@.len() ==> (#[trigger] kept@[x]).queue@.len()
                    <= CHANNEL_CAPACITY,
                forall|x: int| 0 <= x < kept@.len() ==> (#[trigger] kept@[x]).id
                    < old(self).next_id,
                forall|x1: int, x2: int| 0 <= x1 < x2 < kept@.len() ==> (#[trigger] kept@[x1]).id
                    != (#[trigger] kept@[x2]).id,
                forall|x: int, y: int| 0 <= x < kept@.len() && all.len() - self.clients@.len()
                    <= y < all.len() ==> (#[trigger] kept@[x]).id != (#[trigger] all[y]).id,
            decreases self.clients@.len(),
        {
            let ghost k = all.len() - self.clients@.len();
            let mut c = self.clients.remove(0);
            proof {
                assert(0 <= k < all.len());
                assert(all[k] == old(self).clients@[k]);
                assert(all[k].id < old(self).next_id);
                assert(forall|y: int| k < y < all.len() ==> all[k].id != (#[trigger] all[y]).id);
                assert(all.subrange(k, all.len() as int)[0] == all[k]);
                assert(self.clients@ =~= all.subrange(k + 1, all.len() as int));
                assert(all.subrange(0, k + 1) =~= all.subrange(0, k).push(all[k]));
                lemma_models_push(all.subrange(0, k), all[k]);
                lemma_filter_send_push(
                    models(all.subrange(0, k)),
                    all[k].model(),
                    sse_frame_spec("ping"@),
                );
            }
            let open = !c.closed && c.queue.len() < CHANNEL_CAPACITY;
            if open {
                c.queue.push(sse_frame("ping"));
                proof {
                    assert(c.model().frames =~= all[k].model().frames.push(sse_frame_spec(
                        "ping"@,
                    )));
                    lemma_models_push(kept@, c);
                }
                kept.push(c);
            }
        }
        proof {
            assert(all.subrange(0, all.len() as int) =~= all);
        }
        self.clients = kept;
    }

    /// Mark one subscriber's channel closed: its reader is gone. (In a
    /// running process this happens on the subscriber's side; the next
    /// heartbeat tick observes it and reaps the channel.)
    pub fn close_client(&mut self, id: u64)
        requires
            old(self).wf(),
        ensures
            final(self).wf(),
            final(self).next_id == old(self).next_id,
            final(self).clients@.len() == old(self).clients@.len(),
            forall|i: int| 0 <= i < old(self).clients@.len() ==> {
                let c0 = old(self).clients@[i];
                let c1 = (#[trigger] final(self).clients@[i]);
                &&& c1.id == c0.id
                &&& c1.queue == c0.queue
                &&& c1.closed == (c0.closed || c0.id == id)
            },
    {
        let n = self.clients.len();
        let mut i: usize = 0;
        while i < n
            invariant
                i <= n,
                n == self.clients@.len(),
                self.next_id == old(self).next_id,
                forall|j: int| 0 <= j < i ==> {
                    let c0 = old(self).clients@[j];
                    let c1 = (#[trigger] self.clients@[j]);
                    &&& c1.id == c0.id
                    &&& c1.queue == c0.queue
                    &&& c1.closed == (c0.closed || c0.id == id)
                },
                forall|j: int| i <= j < n ==> #[trigger] self.clients@[j]
                    == old(self).clients@[j],
                old(self).wf(),
            decreases n - i,
        {
            let c = &mut self.clients[i];
            if c.id == id {
                c.closed = true;
            }
            i = i + 1;
        }
    }

    /// Take every frame a subscriber's channel holds, in order — what the
    /// subscriber's read side receives. An unknown id receives nothing.
    pub fn take_events(&mut self, id: u64) -> (r: Vec<String>)
        requires
            old(self).wf(),
        ensures
            final(self).wf(),
            final(self).next_id == old(self).next_id,
            final(self).clients@.len() == old(self).clients@.len(),
            forall|i: int| 0 <= i < old(self).clients@.len() && old(self).clients@[i].id != id
                ==> #[trigger] final(self).clients@[i] == old(self).clients@[i],
            forall|i: int| 0 <= i < old(self).clients@.len() && old(self).clients@[i].id == id
                ==> {
                let c1 = (#[trigger] final(self).clients@[i]);
                &&& r == old(self).clients@[i].queue
                &&& c1.id == id
                &&& c1.queue@.len() == 0
                &&& c1.closed == old(self).clients@[i].closed
            },
            (forall|i: int| 0 <= i < old(self).clients@.len()
                ==> (#[trigger] old(self).clients@[i]).id != id) ==> r@.len() == 0,
    {
        let n = self.clients.len();
        let mut i: usize = 0;
        while i < n
            invariant
                i <= n,
                n == self.clients@.len(),
                self.clients@ == old(self).clients@,
                self.next_id == old(self).next_id,
                old(self).wf(),
                forall|j: int| 0 <= j < i ==> (#[trigger] old(self).clients@[j]).id != id,
            decreases n - i,
        {
            if self.clients[i].id == id {
                let c = &mut self.clients[i];
                let mut taken: Vec<String> = Vec::new();
                core::mem::swap(&mut c.queue, &mut taken);
                return taken;
            }
            i = i + 1;
        }
        Vec::new()
    }
}

proof fn lemma_models_push(cs: Seq<Client>, c: Client)
    ensures
        models(cs.push(c)) =~= models(cs).push(c.model()),
{
}

proof fn lemma_filter_send_push(ms: Seq<ClientModel>, m: ClientModel, frame: Seq<char>)
    ensures
        ms.push(m).filter(|x: ClientModel| can_accept(x)) == if can_accept(m) {
            ms.filter(|x: ClientModel| can_accept(x)).push(m)
        } else {
            ms.filter(|x: ClientModel| can_accept(x))
        },
        can_accept(m) ==> ms.push(m).filter(|x: ClientModel| can_accept(x)).map_values(
            |x: ClientModel| after_send(x, frame),
        ) =~= ms.filter(|x: ClientModel| can_accept(x)).map_values(
            |x: ClientModel| after_send(x, frame),
        ).push(after_send(m, frame)),
        !can_accept(m) ==> ms.push(m).filter(|x: ClientModel| can_accept(x)).map_values(
            |x: ClientModel| after_send(x, frame),
        ) =~= ms.filter(|x: ClientModel| can_accept(x)).map_values(
            |x: ClientModel| after_send(x, frame),
        ),
{
    reveal(Seq::filter);
    assert(ms.push(m).drop_last() =~= ms);
}

/// Stale-subscriber reaping law: a subscriber whose channel has closed is
/// gone after the next heartbeat tick — no channel with its id remains in
/// the registry, so no later send can deliver anything to it. (A
/// subscriber only ever leaves the registry this way.)
pub proof fn lemma_stale_client_reaped(b: Broadcaster, i: int)
    requires
        b.wf(),
        0 <= i < b.clients@.len(),
        b.clients@[i].closed,
    ensures
        forall|j: int| 0 <= j < reaped_models(b.clients@).len()
            ==> (#[trigger] reaped_models(b.clients@)[j]).id != b.clients@[i].id,
{
    let ms = models(b.clients@);
    let kept = ms.filter(|m: ClientModel| can_accept(m));
    let ticked = reaped_models(b.clients@);
    assert forall|j: int| 0 <= j < ticked.len() implies (#[trigger] ticked[j]).id
        != b.clients@[i].id by {
        ms.lemma_filter_pred(|m: ClientModel| can_accept(m), j);
        assert(kept.contains(kept[j]));
        ms.lemma_filter_contains_rev(|m: ClientModel| can_accept(m), kept[j]);
        let w = choose|w: int| 0 <= w < ms.len() && ms[w] == kept[j];
        assert(ms[w] == b.clients@[w].model());
        assert(!b.clients@[w].closed);
        assert(w != i);
        assert(b.clients@[w].id != b.clients@[i].id);
        assert(ticked[j].id == kept[j].id);
    }
}

} // verus!
