//! Bounded multi-subscriber broadcast channels: the per-job byte relay.
//!
//! Each job owns one inbound channel (remote input toward the job's
//! interactive process) and, once a tunnel is attached, one outbound channel
//! (process output toward the remote client).  A channel retains only the
//! most recent `capacity` chunks: a subscriber that falls further behind
//! loses the oldest chunks and is told explicitly how many it missed.

use vstd::prelude::*;

verus! {

/// Ghost description of one channel: its identity (`epoch`), its bound, and
/// every chunk ever offered to it, oldest first.
pub ghost struct ChannelModel {
    pub epoch: int,
    pub capacity: int,
    pub history: Seq<Seq<char>>,
}

impl ChannelModel {
    /// Index of the oldest chunk the channel still retains.
    pub open spec fn retained_start(self) -> int {
        if self.history.len() <= self.capacity {
            0
        } else {
            self.history.len() - self.capacity
        }
    }
}

/// How many chunks a subscriber whose cursor stands at `pos` has lost.
pub open spec fn missed_from(m: ChannelModel, pos: int) -> int {
    if pos < m.retained_start() {
        m.retained_start() - pos
    } else {
        0
    }
}

/// The chunks a subscriber whose cursor stands at `pos` can still observe,
/// oldest first.
pub open spec fn visible_from(m: ChannelModel, pos: int) -> Seq<Seq<char>> {
    if pos < m.retained_start() {
        m.history.skip(m.retained_start())
    } else {
        m.history.skip(pos)
    }
}

/// One bounded broadcast channel.  Replacing a job's channel (a second tunnel
/// attach) installs a value with a distinct `epoch`; cursors made for the old
/// channel are then observed as closed.
pub struct RelayChannel {
    epoch: u64,
    capacity: usize,
    total_sent: usize,
    buffer: Vec<String>,
    hist: Ghost<Seq<Seq<char>>>,
}

/// A subscriber's position in a channel's history.
pub struct RelayCursor {
    epoch: u64,
    pos: usize,
}

impl RelayCursor {
    pub closed spec fn epoch_id(&self) -> int {
        self.epoch as int
    }

    pub closed spec fn pos(&self) -> int {
        self.pos as int
    }
}

/// Outcome of one receive attempt.
pub enum RelayRecv {
    /// The next chunk, in send order.
    Chunk(String),
    /// The subscriber fell behind: this many oldest unread chunks were
    /// dropped; the cursor now stands at the oldest retained chunk.
    Lagged(usize),
    /// Nothing new has been sent.
    Empty,
    /// The cursor belongs to a channel that has since been replaced.
    Closed,
}

/// What `recv` does, as a relation over the channel model: `pos` and
/// `cur_epoch` describe the cursor before the call, `r` and `pos2` the result
/// and the cursor after it.
pub open spec fn recv_rel(m: ChannelModel, pos: int, cur_epoch: int, r: RelayRecv, pos2: int) -> bool {
    if cur_epoch != m.epoch {
        &&& r is Closed
        &&& pos2 == pos
    } else if pos >= m.history.len() {
        &&& r is Empty
        &&& pos2 == pos
    } else if pos < m.retained_start() {
        &&& r matches RelayRecv::Lagged(n) && n == m.retained_start() - pos
        &&& pos2 == m.retained_start()
    } else {
        &&& r matches RelayRecv::Chunk(s) && s@ == m.history[pos]
        &&& pos2 == pos + 1
    }
}

/// Law: a cursor whose channel has been replaced — its epoch no longer
/// matches — is observed as closed by every receive, and the cursor does
/// not move.
pub proof fn lemma_stale_cursor_closed(
    m: ChannelModel,
    pos: int,
    cur_epoch: int,
    r: RelayRecv,
    pos2: int,
)
    requires
        cur_epoch != m.epoch,
        recv_rel(m, pos, cur_epoch, r, pos2),
    ensures
        r is Closed,
        pos2 == pos,
{
}

impl Clone for RelayChannel {
    /// A snapshot of the channel: same identity, bound and history.
    fn clone(&self) -> (r: Self)
        ensures
            r.model() == self.model(),
            r.wf() <==> self.wf(),
    {
        let r = RelayChannel {
            epoch: self.epoch,
            capacity: self.capacity,
            total_sent: self.total_sent,
            buffer: self.buffer.clone(),
            hist: Ghost(self.hist@),
        };
        proof {
            assert(r.buffer@ =~= self.buffer@);
        }
        r
    }
}

impl RelayChannel {
    pub closed spec fn model(&self) -> ChannelModel {
        ChannelModel {
            epoch: self.epoch as int,
            capacity: self.capacity as int,
            history: self.hist@,
        }
    }

    pub open spec fn history(&self) -> Seq<Seq<char>> {
        self.model().history
    }

    pub open spec fn cap(&self) -> int {
        self.model().capacity
    }

    pub open spec fn epoch_id(&self) -> int {
        self.model().epoch
    }

    pub closed spec fn wf(&self) -> bool {
        &&& self.capacity >= 1
        &&& self.hist@.len() == self.total_sent as int
        &&& self.buffer@.len() == self.hist@.len() - self.model().retained_start()
        &&& forall|i: int|
            0 <= i < self.buffer@.len() ==> self.buffer@[i]@ == self.hist@[self.model().retained_start() + i]
    }

    pub fn new(capacity: usize, epoch: u64) -> (c: Self)
        requires
            capacity >= 1,
        ensures
            c.wf(),
            c.epoch_id() == epoch as int,
            c.cap() == capacity as int,
            c.history() == Seq::<Seq<char>>::empty(),
    {
        RelayChannel {
            epoch,
            capacity,
            total_sent: 0,
            buffer: Vec::new(),
            hist: Ghost(Seq::empty()),
        }
    }

    /// Broadcast one chunk: it is appended to the history, and if the channel
    /// already retains `capacity` chunks the oldest retained one is dropped.
    pub fn send(&mut self, chunk: String)
        requires
            old(self).wf(),
            old(self).history().len() < usize::MAX,
        ensures
            final(self).wf(),
            final(self).epoch_id() == old(self).epoch_id(),
            final(self).cap() == old(self).cap(),
            final(self).history() == old(self).history().push(chunk@),
    {
        let ghost c = chunk@;
        if self.buffer.len() >= self.capacity {
            self.buffer.remove(0);
        }
        self.buffer.push(chunk);
        self.total_sent = self.total_sent + 1;
        self.hist = Ghost(self.hist@.push(c));
    }

    /// A new subscriber starts at the current end of the history: it observes
    /// only chunks sent after it subscribed.
    pub fn subscribe(&self) -> (cur: RelayCursor)
        requires
            self.wf(),
        ensures
            cur.epoch_id() == self.epoch_id(),
            cur.pos() == self.history().len(),
    {
        RelayCursor { epoch: self.epoch, pos: self.total_sent }
    }

    /// Receive the next chunk for the given cursor, reporting lag explicitly
    /// and closure when the cursor's channel has been replaced.
    pub fn recv(&self, cur: &mut RelayCursor) -> (r: RelayRecv)
        requires
            self.wf(),
        ensures
            final(cur).epoch_id() == old(cur).epoch_id(),
            recv_rel(self.model(), old(cur).pos(), old(cur).epoch_id(), r, final(cur).pos()),
    {
        if cur.epoch != self.epoch {
            return RelayRecv::Closed;
        }
        if cur.pos >= self.total_sent {
            return RelayRecv::Empty;
        }
        let start = self.total_sent - self.buffer.len();
        if cur.pos < start {
            let missed = start - cur.pos;
            cur.pos = start;
            RelayRecv::Lagged(missed)
        } else {
            let idx = cur.pos - start;
            let chunk = self.buffer[idx].clone();
            cur.pos = cur.pos + 1;
            RelayRecv::Chunk(chunk)
        }
    }

    /// Receive everything currently observable.  A subscriber that fell more
    /// than `capacity` chunks behind is told exactly how many chunks it lost
    /// and then observes exactly the retained most recent chunks, in order:
    /// overflow is an explicit signal, never a silent gap.
    pub fn drain(&self, cur: &mut RelayCursor) -> (r: (Vec<String>, usize))
        requires
            self.wf(),
            old(cur).epoch_id() == self.epoch_id(),
            old(cur).pos() <= self.history().len(),
        ensures
            final(cur).epoch_id() == old(cur).epoch_id(),
            final(cur).pos() == self.history().len(),
            r.1 as int == missed_from(self.model(), old(cur).pos()),
            r.0@.map_values(|s: String| s@) == visible_from(self.model(), old(cur).pos()),
    {
        let mut out: Vec<String> = Vec::new();
        let mut missed: usize = 0;
        loop
            invariant
                self.wf(),
                cur.epoch_id() == self.epoch_id(),
                old(cur).pos() <= self.history().len(),
                cur.pos() <= self.history().len(),
                (cur.pos() == old(cur).pos() && missed == 0 && out@ =~= Seq::<String>::empty())
                    || (cur.pos() >= old(cur).pos()
                        && cur.pos() >= self.model().retained_start()
                        && missed as int == missed_from(self.model(), old(cur).pos())
                        && out@.map_values(|s: String| s@) =~= self.history().subrange(
                            if old(cur).pos() < self.model().retained_start() {
                                self.model().retained_start()
                            } else {
                                old(cur).pos()
                            },
                            cur.pos(),
                        )),
            ensures
                cur.pos() == self.history().len(),
            decreases self.history().len() + 1 - cur.pos(),
        {
            match self.recv(cur) {
                RelayRecv::Chunk(s) => {
                    out.push(s);
                }
                RelayRecv::Lagged(n) => {
                    missed = n;
                }
                RelayRecv::Empty => {
                    break;
                }
                RelayRecv::Closed => {
                    proof {
                        assert(false);
                    }
                    break;
                }
            }
        }
        proof {
            assert(out@.map_values(|s: String| s@) =~= visible_from(self.model(), old(cur).pos()));
        }
        (out, missed)
    }
}

} // verus!
