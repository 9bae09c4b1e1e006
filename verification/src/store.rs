//! The job registry: the single source of truth for job status and for the
//! per-job relay channels.
//!
//! Every record carries its inbound channel from the moment it is
//! registered; the outbound channel and the tunnel descriptor appear
//! together when a tunnel attaches and are always both present or both
//! absent.  Registering an id again replaces the old record; the caller is
//! told so.  Writes to an absent id are silent no-ops.

use vstd::prelude::*;

use crate::relay::ChannelModel;
use crate::relay::RelayChannel;

verus! {

/// The remote endpoint currently attached to a job.
pub struct Tunnel {
    pub client_id: String,
}

impl Clone for Tunnel {
    fn clone(&self) -> (r: Self)
        ensures
            r == *self,
    {
        Tunnel { client_id: self.client_id.clone() }
    }
}

/// Ghost description of one job record.
pub ghost struct JobModel {
    pub job_id: Seq<char>,
    pub job_type: Seq<char>,
    pub status: Seq<char>,
    pub inbound: ChannelModel,
    pub outbound: Option<ChannelModel>,
    pub tunnel: Option<Seq<char>>,
}

/// One tracked job: status plus the two relay channels.
pub struct JobProcess {
    pub job_id: String,
    pub job_type: String,
    pub status: String,
    pub channel_tx: Option<RelayChannel>,
    pub channel_to_job_tx: RelayChannel,
    pub tunnel: Option<Tunnel>,
}

impl JobProcess {
    pub open spec fn model(&self) -> JobModel {
        JobModel {
            job_id: self.job_id@,
            job_type: self.job_type@,
            status: self.status@,
            inbound: self.channel_to_job_tx.model(),
            outbound: match self.channel_tx {
                Some(c) => Some(c.model()),
                None => None,
            },
            tunnel: match self.tunnel {
                Some(t) => Some(t.client_id@),
                None => None,
            },
        }
    }

    /// The outbound channel and the tunnel descriptor are both present or
    /// both absent, and the channels are well formed.
    pub open spec fn wf(&self) -> bool {
        &&& self.channel_to_job_tx.wf()
        &&& (match self.channel_tx {
            Some(c) => c.wf(),
            None => true,
        })
        &&& (self.channel_tx is Some <==> self.tunnel is Some)
    }

}

impl Clone for JobProcess {
    /// A snapshot of the record: same model.
    fn clone(&self) -> (r: Self)
        ensures
            r.model() == self.model(),
            r.wf() <==> self.wf(),
    {
        JobProcess {
            job_id: self.job_id.clone(),
            job_type: self.job_type.clone(),
            status: self.status.clone(),
            channel_tx: match &self.channel_tx {
                Some(c) => Some(c.clone()),
                None => None,
            },
            channel_to_job_tx: self.channel_to_job_tx.clone(),
            tunnel: match &self.tunnel {
                Some(t) => Some(t.clone()),
                None => None,
            },
        }
    }
}

pub open spec fn unique_ids(s: Seq<JobProcess>) -> bool {
    forall|a: int, b: int| 0 <= a < b < s.len() ==> s[a].job_id@ != s[b].job_id@
}

/// The registry's contents as a map from job id to record model.
pub open spec fn map_of(s: Seq<JobProcess>) -> Map<Seq<char>, JobModel>
    decreases s.len(),
{
    if s.len() == 0 {
        Map::empty()
    } else {
        map_of(s.drop_last()).insert(s.last().job_id@, s.last().model())
    }
}

pub proof fn lemma_map_of_domain(s: Seq<JobProcess>, k: Seq<char>)
    ensures
        map_of(s).contains_key(k) <==> exists|i: int| 0 <= i < s.len() && s[i].job_id@ == k,
    decreases s.len(),
{
    if s.len() > 0 {
        lemma_map_of_domain(s.drop_last(), k);
        assert(forall|i: int| 0 <= i < s.len() - 1 ==> s.drop_last()[i] == s[i]);
        if s.last().job_id@ == k {
            assert(s[s.len() - 1].job_id@ == k);
        } else {
            if map_of(s).contains_key(k) {
                let i = choose|i: int| 0 <= i < s.drop_last().len() && s.drop_last()[i].job_id@ == k;
                assert(s[i].job_id@ == k);
            }
            if exists|i: int| 0 <= i < s.len() && s[i].job_id@ == k {
                let i = choose|i: int| 0 <= i < s.len() && s[i].job_id@ == k;
                assert(i < s.len() - 1);
                assert(s.drop_last()[i].job_id@ == k);
            }
        }
    }
}

pub proof fn lemma_map_of_index(s: Seq<JobProcess>, i: int)
    requires
        unique_ids(s),
        0 <= i < s.len(),
    ensures
        map_of(s).contains_key(s[i].job_id@),
        map_of(s)[s[i].job_id@] == s[i].model(),
    decreases s.len(),
{
    if i == s.len() - 1 {
        assert(s.last() == s[i]);
    } else {
        assert(forall|a: int| 0 <= a < s.len() - 1 ==> s.drop_last()[a] == s[a]);
        lemma_map_of_index(s.drop_last(), i);
        assert(s[i].job_id@ != s.last().job_id@);
    }
}

pub proof fn lemma_map_of_update(s: Seq<JobProcess>, i: int, r: JobProcess)
    requires
        unique_ids(s),
        0 <= i < s.len(),
        r.job_id@ == s[i].job_id@,
    ensures
        map_of(s.update(i, r)) == map_of(s).insert(r.job_id@, r.model()),
    decreases s.len(),
{
    let t = s.update(i, r);
    if i == s.len() - 1 {
        assert(t.drop_last() =~= s.drop_last());
        assert(t.last() == r);
        assert(map_of(t) =~= map_of(s).insert(r.job_id@, r.model()));
    } else {
        assert(forall|a: int| 0 <= a < s.len() - 1 ==> s.drop_last()[a] == s[a]);
        lemma_map_of_update(s.drop_last(), i, r);
        assert(t.drop_last() =~= s.drop_last().update(i, r));
        assert(t.last() == s.last());
        assert(s[i].job_id@ != s.last().job_id@);
        assert(map_of(t) =~= map_of(s).insert(r.job_id@, r.model()));
    }
}

pub proof fn lemma_map_of_push(s: Seq<JobProcess>, r: JobProcess)
    ensures
        map_of(s.push(r)) == map_of(s).insert(r.job_id@, r.model()),
{
    assert(s.push(r).drop_last() =~= s);
    assert(s.push(r).last() == r);
}

/// The registry itself.  `next_epoch` hands out a fresh identity to every
/// channel it creates, so a replaced channel is never mistaken for the one
/// that replaced it.
pub struct JobManager {
    data: Vec<JobProcess>,
    next_epoch: u64,
}

/// Capacity of every relay channel the registry creates.
pub open spec fn spec_channel_capacity() -> int {
    100
}

/// Both of a record's channels were created before the counter reached
/// `bound`.
pub open spec fn epochs_below(p: JobProcess, bound: int) -> bool {
    &&& p.channel_to_job_tx.epoch_id() < bound
    &&& (p.channel_tx is Some ==> p.channel_tx.unwrap().epoch_id() < bound)
}

impl JobManager {
    pub closed spec fn jobs(&self) -> Map<Seq<char>, JobModel> {
        map_of(self.data@)
    }

    pub closed spec fn epoch_counter(&self) -> int {
        self.next_epoch as int
    }

    pub closed spec fn wf(&self) -> bool {
        &&& unique_ids(self.data@)
        &&& forall|i: int| 0 <= i < self.data@.len() ==> (#[trigger] self.data@[i]).wf()
        &&& forall|i: int|
            0 <= i < self.data@.len() ==> epochs_below(#[trigger] self.data@[i], self.next_epoch as int)
    }

    /// Every channel the registry currently holds was created under an
    /// earlier value of the epoch counter.
    pub proof fn lemma_epochs_bounded(&self, k: Seq<char>)
        requires
            self.wf(),
            self.jobs().contains_key(k),
        ensures
            self.jobs()[k].inbound.epoch < self.epoch_counter(),
            self.jobs()[k].outbound matches Some(c) ==> c.epoch < self.epoch_counter(),
    {
        lemma_map_of_domain(self.data@, k);
        let i = choose|i: int| 0 <= i < self.data@.len() && self.data@[i].job_id@ == k;
        lemma_map_of_index(self.data@, i);
    }

    fn find(&self, job_id: &String) -> (r: Option<usize>)
        requires
            self.wf(),
        ensures
            (match r {
                Some(i) => i < self.data@.len() && self.data@[i as int].job_id@ == job_id@,
                None => forall|i: int| 0 <= i < self.data@.len() ==> self.data@[i].job_id@ != job_id@,
            }),
    {
        let mut i: usize = 0;
        while i < self.data.len()
            invariant
                self.wf(),
                i <= self.data@.len(),
                forall|a: int| 0 <= a < i ==> self.data@[a].job_id@ != job_id@,
            decreases self.data@.len() - i,
        {
            if self.data[i].job_id == *job_id {
                return Some(i);
            }
            i = i + 1;
        }
        None
    }

    /// Register a job: a fresh record with a fresh bounded inbound channel,
    /// no outbound channel and no tunnel.  A record already under this id is
    /// replaced, and the caller is told that it was.
    pub fn new_job(&mut self, job_id: String, job_type: String, status: String) -> (replaced: bool)
        requires
            old(self).wf(),
            old(self).epoch_counter() < u64::MAX,
        ensures
            final(self).wf(),
            replaced == old(self).jobs().contains_key(job_id@),
            final(self).epoch_counter() == old(self).epoch_counter() + 1,
            final(self).jobs() == old(self).jobs().insert(
                job_id@,
                (JobModel {
                    job_id: job_id@,
                    job_type: job_type@,
                    status: status@,
                    inbound: (ChannelModel {
                        epoch: old(self).epoch_counter(),
                        capacity: spec_channel_capacity(),
                        history: Seq::<Seq<char>>::empty(),
                    }),
                    outbound: None,
                    tunnel: None,
                }),
            ),
    {
        let channel_to_job_tx = RelayChannel::new(100, self.next_epoch);
        self.next_epoch = self.next_epoch + 1;
        let rec = JobProcess {
            job_id,
            job_type,
            status,
            channel_tx: None,
            channel_to_job_tx,
            tunnel: None,
        };
        proof {
            lemma_map_of_domain(self.data@, rec.job_id@);
        }
        match self.find(&rec.job_id) {
            Some(i) => {
                proof {
                    lemma_map_of_update(self.data@, i as int, rec);
                }
                let slot = vstd::std_specs::vec::vec_index_mut(&mut self.data, i);
                *slot = rec;
                true
            }
            None => {
                proof {
                    lemma_map_of_push(self.data@, rec);
                }
                self.data.push(rec);
                false
            }
        }
    }

    /// A snapshot of the record under this id, if any; callers never hold a
    /// reference into the registry.
    pub fn get_job_or_none(&self, job_id: &String) -> (r: Option<JobProcess>)
        requires
            self.wf(),
        ensures
            (match r {
                Some(p) => self.jobs().contains_key(job_id@) && p.model() == self.jobs()[job_id@]
                    && p.wf(),
                None => !self.jobs().contains_key(job_id@),
            }),
    {
        proof {
            lemma_map_of_domain(self.data@, job_id@);
        }
        match self.find(job_id) {
            Some(i) => {
                proof {
                    lemma_map_of_index(self.data@, i as int);
                }
                Some(self.data[i].clone())
            }
            None => None,
        }
    }

    /// Set a job's status.  Writing to an absent id is a silent no-op, never
    /// an error.
    pub fn set_job_status(&mut self, job_id: String, status: String)
        requires
            old(self).wf(),
        ensures
            final(self).wf(),
            final(self).epoch_counter() == old(self).epoch_counter(),
            old(self).jobs().contains_key(job_id@) ==> final(self).jobs() == old(self).jobs().insert(
                job_id@,
                (JobModel { status: status@, ..old(self).jobs()[job_id@] }),
            ),
            !old(self).jobs().contains_key(job_id@) ==> final(self).jobs() == old(self).jobs(),
    {
        proof {
            lemma_map_of_domain(self.data@, job_id@);
        }
        match self.find(&job_id) {
            Some(i) => {
                proof {
                    lemma_map_of_index(self.data@, i as int);
                }
                let ghost pre = self.data@;
                let slot = vstd::std_specs::vec::vec_index_mut(&mut self.data, i);
                slot.status = status;
                proof {
                    lemma_map_of_update(pre, i as int, self.data@[i as int]);
                }
            }
            None => {},
        }
    }

    /// Attach a tunnel: install the client descriptor and a fresh outbound
    /// channel, replacing any prior one.  The fresh channel's epoch differs
    /// from every channel the registry held before, so subscribers of a
    /// replaced channel are observed as closed.  An absent id is a silent
    /// no-op.
    pub fn create_job_tunnel(&mut self, job_id: &String, client_id: String)
        requires
            old(self).wf(),
            old(self).epoch_counter() < u64::MAX,
        ensures
            final(self).wf(),
            old(self).jobs().contains_key(job_id@) ==> {
                &&& final(self).epoch_counter() == old(self).epoch_counter() + 1
                &&& final(self).jobs() == old(self).jobs().insert(
                    job_id@,
                    (JobModel {
                        outbound: Some(
                            ChannelModel {
                                epoch: old(self).epoch_counter(),
                                capacity: spec_channel_capacity(),
                                history: Seq::<Seq<char>>::empty(),
                            },
                        ),
                        tunnel: Some(client_id@),
                        ..old(self).jobs()[job_id@]
                    }),
                )
                &&& (old(self).jobs()[job_id@].outbound matches Some(c) ==> c.epoch != old(
                    self,
                ).epoch_counter())
            },
            !old(self).jobs().contains_key(job_id@) ==> *final(self) == *old(self),
    {
        proof {
            lemma_map_of_domain(self.data@, job_id@);
        }
        match self.find(job_id) {
            Some(i) => {
                proof {
                    lemma_map_of_index(self.data@, i as int);
                    self.lemma_epochs_bounded(job_id@);
                }
                let tx = RelayChannel::new(100, self.next_epoch);
                self.next_epoch = self.next_epoch + 1;
                let ghost pre = self.data@;
                let slot = vstd::std_specs::vec::vec_index_mut(&mut self.data, i);
                slot.tunnel = Some(Tunnel { client_id });
                slot.channel_tx = Some(tx);
                proof {
                    lemma_map_of_update(pre, i as int, self.data@[i as int]);
                }
            }
            None => {},
        }
    }

    /// The outbound sender for this job, as a snapshot: present only while a
    /// tunnel is attached.
    pub fn get_channel_by_job_id(&self, job_id: &String) -> (r: Option<RelayChannel>)
        requires
            self.wf(),
        ensures
            (match r {
                Some(c) => self.jobs().contains_key(job_id@) && self.jobs()[job_id@].outbound
                    == Some(c.model()) && c.wf(),
                None => !self.jobs().contains_key(job_id@) || self.jobs()[job_id@].outbound is None,
            }),
    {
        proof {
            lemma_map_of_domain(self.data@, job_id@);
        }
        match self.find(job_id) {
            Some(i) => {
                proof {
                    lemma_map_of_index(self.data@, i as int);
                }
                match &self.data[i].channel_tx {
                    Some(c) => Some(c.clone()),
                    None => None,
                }
            }
            None => None,
        }
    }

    /// The inbound sender for this job, as a snapshot: it exists for the
    /// whole lifetime of the record.
    pub fn get_channel_to_job_tx_by_job_id(&self, job_id: &String) -> (r: Option<RelayChannel>)
        requires
            self.wf(),
        ensures
            (match r {
                Some(c) => self.jobs().contains_key(job_id@) && self.jobs()[job_id@].inbound
                    == c.model() && c.wf(),
                None => !self.jobs().contains_key(job_id@),
            }),
    {
        proof {
            lemma_map_of_domain(self.data@, job_id@);
        }
        match self.find(job_id) {
            Some(i) => {
                proof {
                    lemma_map_of_index(self.data@, i as int);
                }
                Some(self.data[i].channel_to_job_tx.clone())
            }
            None => None,
        }
    }

    /// Broadcast remote input onto a job's inbound channel.  If the job is
    /// unknown the bytes are dropped with no error.
    pub fn send_to_job(&mut self, job_id: &String, chunk: String) -> (delivered: bool)
        requires
            old(self).wf(),
            old(self).jobs().contains_key(job_id@) ==> old(self).jobs()[job_id@].inbound.history.len()
                < usize::MAX,
        ensures
            final(self).wf(),
            final(self).epoch_counter() == old(self).epoch_counter(),
            delivered == old(self).jobs().contains_key(job_id@),
            old(self).jobs().contains_key(job_id@) ==> final(self).jobs() == old(self).jobs().insert(
                job_id@,
                (JobModel {
                    inbound: (ChannelModel {
                        history: old(self).jobs()[job_id@].inbound.history.push(chunk@),
                        ..old(self).jobs()[job_id@].inbound
                    }),
                    ..old(self).jobs()[job_id@]
                }),
            ),
            !old(self).jobs().contains_key(job_id@) ==> *final(self) == *old(self),
    {
        proof {
            lemma_map_of_domain(self.data@, job_id@);
        }
        match self.find(job_id) {
            Some(i) => {
                proof {
                    lemma_map_of_index(self.data@, i as int);
                }
                let ghost pre = self.data@;
                let slot = vstd::std_specs::vec::vec_index_mut(&mut self.data, i);
                slot.channel_to_job_tx.send(chunk);
                proof {
                    lemma_map_of_update(pre, i as int, self.data@[i as int]);
                }
                true
            }
            None => false,
        }
    }

    /// Broadcast a process output chunk toward the remote side: delivered
    /// only while a tunnel is attached; otherwise the chunk is dropped.
    pub fn broadcast_output(&mut self, job_id: &String, chunk: String) -> (delivered: bool)
        requires
            old(self).wf(),
            old(self).jobs().contains_key(job_id@) && old(self).jobs()[job_id@].outbound is Some
                ==> old(self).jobs()[job_id@].outbound.unwrap().history.len() < usize::MAX,
        ensures
            final(self).wf(),
            final(self).epoch_counter() == old(self).epoch_counter(),
            delivered == (old(self).jobs().contains_key(job_id@) && old(
                self,
            ).jobs()[job_id@].outbound is Some),
            delivered ==> final(self).jobs() == old(self).jobs().insert(
                job_id@,
                (JobModel {
                    outbound: Some(
                        ChannelModel {
                            history: old(self).jobs()[job_id@].outbound.unwrap().history.push(
                                chunk@,
                            ),
                            ..old(self).jobs()[job_id@].outbound.unwrap()
                        },
                    ),
                    ..old(self).jobs()[job_id@]
                }),
            ),
            !delivered ==> *final(self) == *old(self),
    {
        proof {
            lemma_map_of_domain(self.data@, job_id@);
        }
        match self.find(job_id) {
            Some(i) => {
                proof {
                    lemma_map_of_index(self.data@, i as int);
                }
                let has_tunnel = self.data[i].channel_tx.is_some();
                if has_tunnel {
                    let ghost pre = self.data@;
                    let slot = vstd::std_specs::vec::vec_index_mut(&mut self.data, i);
                    match &mut slot.channel_tx {
                        Some(c) => {
                            c.send(chunk);
                        }
                        None => {},
                    }
                    proof {
                        lemma_map_of_update(pre, i as int, self.data@[i as int]);
                    }
                    true
                } else {
                    false
                }
            }
            None => false,
        }
    }
}

/// Handles for the agent-wide message relay: one channel toward the
/// operator, one toward the agent.
pub struct MessageManager {
    pub from_message_tx: RelayChannel,
    pub to_message_tx: RelayChannel,
}

/// One message envelope, stamped when it is created.
pub struct Message {
    pub timestamp: u128,
    pub content: String,
    pub from: Option<String>,
    pub to: Option<String>,
}

/// Relies on std::time::SystemTime::now / duration_since: nanoseconds
/// since the Unix epoch as the system clock reports them; nothing is
/// assumed of the value (a clock before the epoch reads as zero).
#[verifier::external_body]
fn now_unix_nanos() -> u128 {
    match std::time::SystemTime::now().duration_since(std::time::SystemTime::UNIX_EPOCH) {
        Ok(d) => d.as_nanos(),
        Err(_) => 0,
    }
}

impl Message {
    /// A message carries exactly the given content and endpoints; the
    /// timestamp is whatever the clock said at creation.
    pub fn new(content: String, from: Option<String>, to: Option<String>) -> (r: Self)
        ensures
            r.content == content,
            r.from == from,
            r.to == to,
    {
        let timestamp = now_unix_nanos();
        Message { timestamp, content, from, to }
    }
}

impl Default for JobManager {
    /// An empty registry.
    fn default() -> (r: Self)
        ensures
            r.wf(),
            r.jobs() == Map::<Seq<char>, JobModel>::empty(),
            r.epoch_counter() == 0,
    {
        JobManager { data: Vec::new(), next_epoch: 0 }
    }
}

} // verus!
