//! The robot/peer registry: a map from peer id to robot record, plus the
//! interfaces learned for peers whose robot record has not arrived yet.
//!
//! An interface reported for an unknown peer is parked in `peer_id_to_ip`
//! and merged into the robot record as soon as the robot is added.

use vstd::prelude::*;

verus! {

/// One network interface of a robot.
pub struct RobotInterface {
    pub ip4: String,
}

impl Clone for RobotInterface {
    fn clone(&self) -> (r: Self)
        ensures
            r == *self,
    {
        RobotInterface { ip4: self.ip4.clone() }
    }
}

/// Ghost description of one robot record.
pub ghost struct RobotModel {
    pub robot_id: Seq<char>,
    pub robot_peer_id: Seq<char>,
    pub name: Seq<char>,
    pub tags: Seq<Seq<char>>,
    pub interfaces: Set<Seq<char>>,
}

/// One robot known to the agent.
pub struct Robot {
    pub robot_id: String,
    pub robot_peer_id: String,
    pub name: String,
    pub tags: Vec<String>,
    pub interfaces: Vec<RobotInterface>,
}

/// The set of interface addresses in a list.
pub open spec fn iface_set(s: Seq<RobotInterface>) -> Set<Seq<char>>
    decreases s.len(),
{
    if s.len() == 0 {
        Set::empty()
    } else {
        iface_set(s.drop_last()).insert(s.last().ip4@)
    }
}

pub proof fn lemma_iface_set_domain(s: Seq<RobotInterface>, x: Seq<char>)
    ensures
        iface_set(s).contains(x) <==> exists|i: int| 0 <= i < s.len() && s[i].ip4@ == x,
    decreases s.len(),
{
    if s.len() > 0 {
        lemma_iface_set_domain(s.drop_last(), x);
        assert(forall|i: int| 0 <= i < s.len() - 1 ==> s.drop_last()[i] == s[i]);
        if s.last().ip4@ == x {
            assert(s[s.len() - 1].ip4@ == x);
        } else {
            if iface_set(s).contains(x) {
                let i = choose|i: int| 0 <= i < s.drop_last().len() && s.drop_last()[i].ip4@ == x;
                assert(s[i].ip4@ == x);
            }
            if exists|i: int| 0 <= i < s.len() && s[i].ip4@ == x {
                let i = choose|i: int| 0 <= i < s.len() && s[i].ip4@ == x;
                assert(i < s.len() - 1);
                assert(s.drop_last()[i].ip4@ == x);
            }
        }
    }
}

pub proof fn lemma_iface_set_push(s: Seq<RobotInterface>, r: RobotInterface)
    ensures
        iface_set(s.push(r)) == iface_set(s).insert(r.ip4@),
{
    assert(s.push(r).drop_last() =~= s);
    assert(s.push(r).last() == r);
}

impl Robot {
    pub open spec fn model(&self) -> RobotModel {
        RobotModel {
            robot_id: self.robot_id@,
            robot_peer_id: self.robot_peer_id@,
            name: self.name@,
            tags: self.tags.deep_view(),
            interfaces: iface_set(self.interfaces@),
        }
    }

    /// No interface address is listed twice.
    pub open spec fn wf(&self) -> bool {
        forall|a: int, b: int|
            0 <= a < b < self.interfaces@.len() ==> self.interfaces@[a].ip4@
                != self.interfaces@[b].ip4@
    }
}

impl Clone for Robot {
    fn clone(&self) -> (r: Self)
        ensures
            r.model() == self.model(),
            r.wf() <==> self.wf(),
            r.robot_peer_id@ == self.robot_peer_id@,
    {
        let r = Robot {
            robot_id: self.robot_id.clone(),
            robot_peer_id: self.robot_peer_id.clone(),
            name: self.name.clone(),
            tags: self.tags.clone(),
            interfaces: self.interfaces.clone(),
        };
        proof {
            assert(r.interfaces@ =~= self.interfaces@);
            assert(r.tags.deep_view() =~= self.tags.deep_view());
        }
        r
    }
}

/// The wire shape of a robots configuration: a list of robots.
pub struct RobotsConfig {
    pub robots: Vec<Robot>,
}

impl RobotsConfig {
    pub open spec fn wf(&self) -> bool {
        forall|i: int| 0 <= i < self.robots@.len() ==> (#[trigger] self.robots@[i]).wf()
    }
}

/// The robots as a map from peer id to record model.
pub open spec fn rmap_of(s: Seq<Robot>) -> Map<Seq<char>, RobotModel>
    decreases s.len(),
{
    if s.len() == 0 {
        Map::empty()
    } else {
        rmap_of(s.drop_last()).insert(s.last().robot_peer_id@, s.last().model())
    }
}

pub proof fn lemma_rmap_of_domain(s: Seq<Robot>, k: Seq<char>)
    ensures
        rmap_of(s).contains_key(k) <==> exists|i: int| 0 <= i < s.len() && s[i].robot_peer_id@ == k,
    decreases s.len(),
{
    if s.len() > 0 {
        lemma_rmap_of_domain(s.drop_last(), k);
        assert(forall|i: int| 0 <= i < s.len() - 1 ==> s.drop_last()[i] == s[i]);
        if s.last().robot_peer_id@ == k {
            assert(s[s.len() - 1].robot_peer_id@ == k);
        } else {
            if rmap_of(s).contains_key(k) {
                let i = choose|i: int|
                    0 <= i < s.drop_last().len() && s.drop_last()[i].robot_peer_id@ == k;
                assert(s[i].robot_peer_id@ == k);
            }
            if exists|i: int| 0 <= i < s.len() && s[i].robot_peer_id@ == k {
                let i = choose|i: int| 0 <= i < s.len() && s[i].robot_peer_id@ == k;
                assert(i < s.len() - 1);
                assert(s.drop_last()[i].robot_peer_id@ == k);
            }
        }
    }
}

pub proof fn lemma_rmap_of_index(s: Seq<Robot>, i: int)
    requires
        forall|a: int, b: int| 0 <= a < b < s.len() ==> s[a].robot_peer_id@ != s[b].robot_peer_id@,
        0 <= i < s.len(),
    ensures
        rmap_of(s).contains_key(s[i].robot_peer_id@),
        rmap_of(s)[s[i].robot_peer_id@] == s[i].model(),
    decreases s.len(),
{
    if i == s.len() - 1 {
        assert(s.last() == s[i]);
    } else {
        assert(forall|a: int| 0 <= a < s.len() - 1 ==> s.drop_last()[a] == s[a]);
        lemma_rmap_of_index(s.drop_last(), i);
        assert(s[i].robot_peer_id@ != s.last().robot_peer_id@);
    }
}

pub proof fn lemma_rmap_of_update(s: Seq<Robot>, i: int, r: Robot)
    requires
        forall|a: int, b: int| 0 <= a < b < s.len() ==> s[a].robot_peer_id@ != s[b].robot_peer_id@,
        0 <= i < s.len(),
        r.robot_peer_id@ == s[i].robot_peer_id@,
    ensures
        rmap_of(s.update(i, r)) == rmap_of(s).insert(r.robot_peer_id@, r.model()),
    decreases s.len(),
{
    let t = s.update(i, r);
    if i == s.len() - 1 {
        assert(t.drop_last() =~= s.drop_last());
        assert(t.last() == r);
        assert(rmap_of(t) =~= rmap_of(s).insert(r.robot_peer_id@, r.model()));
    } else {
        assert(forall|a: int| 0 <= a < s.len() - 1 ==> s.drop_last()[a] == s[a]);
        lemma_rmap_of_update(s.drop_last(), i, r);
        assert(t.drop_last() =~= s.drop_last().update(i, r));
        assert(t.last() == s.last());
        assert(s[i].robot_peer_id@ != s.last().robot_peer_id@);
        assert(rmap_of(t) =~= rmap_of(s).insert(r.robot_peer_id@, r.model()));
    }
}

pub proof fn lemma_rmap_of_push(s: Seq<Robot>, r: Robot)
    ensures
        rmap_of(s.push(r)) == rmap_of(s).insert(r.robot_peer_id@, r.model()),
{
    assert(s.push(r).drop_last() =~= s);
    assert(s.push(r).last() == r);
}

/// The parked interfaces as a map from peer id to address.
pub open spec fn pmap_of(s: Seq<(String, String)>) -> Map<Seq<char>, Seq<char>>
    decreases s.len(),
{
    if s.len() == 0 {
        Map::empty()
    } else {
        pmap_of(s.drop_last()).insert(s.last().0@, s.last().1@)
    }
}

pub proof fn lemma_pmap_of_domain(s: Seq<(String, String)>, k: Seq<char>)
    ensures
        pmap_of(s).contains_key(k) <==> exists|i: int| 0 <= i < s.len() && s[i].0@ == k,
    decreases s.len(),
{
    if s.len() > 0 {
        lemma_pmap_of_domain(s.drop_last(), k);
        assert(forall|i: int| 0 <= i < s.len() - 1 ==> s.drop_last()[i] == s[i]);
        if s.last().0@ == k {
            assert(s[s.len() - 1].0@ == k);
        } else {
            if pmap_of(s).contains_key(k) {
                let i = choose|i: int| 0 <= i < s.drop_last().len() && s.drop_last()[i].0@ == k;
                assert(s[i].0@ == k);
            }
            if exists|i: int| 0 <= i < s.len() && s[i].0@ == k {
                let i = choose|i: int| 0 <= i < s.len() && s[i].0@ == k;
                assert(i < s.len() - 1);
                assert(s.drop_last()[i].0@ == k);
            }
        }
    }
}

pub proof fn lemma_pmap_of_index(s: Seq<(String, String)>, i: int)
    requires
        forall|a: int, b: int| 0 <= a < b < s.len() ==> s[a].0@ != s[b].0@,
        0 <= i < s.len(),
    ensures
        pmap_of(s).contains_key(s[i].0@),
        pmap_of(s)[s[i].0@] == s[i].1@,
    decreases s.len(),
{
    if i == s.len() - 1 {
        assert(s.last() == s[i]);
    } else {
        assert(forall|a: int| 0 <= a < s.len() - 1 ==> s.drop_last()[a] == s[a]);
        lemma_pmap_of_index(s.drop_last(), i);
        assert(s[i].0@ != s.last().0@);
    }
}

pub proof fn lemma_pmap_of_update(s: Seq<(String, String)>, i: int, r: (String, String))
    requires
        forall|a: int, b: int| 0 <= a < b < s.len() ==> s[a].0@ != s[b].0@,
        0 <= i < s.len(),
        r.0@ == s[i].0@,
    ensures
        pmap_of(s.update(i, r)) == pmap_of(s).insert(r.0@, r.1@),
    decreases s.len(),
{
    let t = s.update(i, r);
    if i == s.len() - 1 {
        assert(t.drop_last() =~= s.drop_last());
        assert(t.last() == r);
        assert(pmap_of(t) =~= pmap_of(s).insert(r.0@, r.1@));
    } else {
        assert(forall|a: int| 0 <= a < s.len() - 1 ==> s.drop_last()[a] == s[a]);
        lemma_pmap_of_update(s.drop_last(), i, r);
        assert(t.drop_last() =~= s.drop_last().update(i, r));
        assert(t.last() == s.last());
        assert(s[i].0@ != s.last().0@);
        assert(pmap_of(t) =~= pmap_of(s).insert(r.0@, r.1@));
    }
}

pub proof fn lemma_pmap_of_push(s: Seq<(String, String)>, r: (String, String))
    ensures
        pmap_of(s.push(r)) == pmap_of(s).insert(r.0@, r.1@),
{
    assert(s.push(r).drop_last() =~= s);
    assert(s.push(r).last() == r);
}

/// The robot registry.
pub struct RobotsManager {
    robots: Vec<Robot>,
    peer_id_to_ip: Vec<(String, String)>,
}

/// What a robot record looks like right after `add_robot`: the parked
/// interface for its peer id, if one exists, is merged in.
pub open spec fn added_model(r: RobotModel, pending: Map<Seq<char>, Seq<char>>) -> RobotModel {
    if pending.contains_key(r.robot_peer_id) {
        RobotModel { interfaces: r.interfaces.insert(pending[r.robot_peer_id]), ..r }
    } else {
        r
    }
}

/// The effect of merging a list of robot records, first to last: a record
/// whose peer id is already known is skipped, a new one is added.
pub open spec fn merge_spec(
    robots: Map<Seq<char>, RobotModel>,
    pending: Map<Seq<char>, Seq<char>>,
    upd: Seq<Robot>,
) -> Map<Seq<char>, RobotModel>
    decreases upd.len(),
{
    if upd.len() == 0 {
        robots
    } else {
        let head = upd[0];
        let next = if robots.contains_key(head.robot_peer_id@) {
            robots
        } else {
            robots.insert(head.robot_peer_id@, added_model(head.model(), pending))
        };
        merge_spec(next, pending, upd.skip(1))
    }
}

pub proof fn lemma_merge_spec_snoc(
    robots: Map<Seq<char>, RobotModel>,
    pending: Map<Seq<char>, Seq<char>>,
    upd: Seq<Robot>,
    r: Robot,
)
    ensures
        merge_spec(robots, pending, upd.push(r)) == ({
            let m = merge_spec(robots, pending, upd);
            if m.contains_key(r.robot_peer_id@) {
                m
            } else {
                m.insert(r.robot_peer_id@, added_model(r.model(), pending))
            }
        }),
    decreases upd.len(),
{
    if upd.len() == 0 {
        assert(upd.push(r)[0] == r);
        assert(upd.push(r).skip(1) =~= Seq::<Robot>::empty());
        let next = if robots.contains_key(r.robot_peer_id@) {
            robots
        } else {
            robots.insert(r.robot_peer_id@, added_model(r.model(), pending))
        };
        assert(merge_spec(robots, pending, Seq::<Robot>::empty()) == robots);
        assert(merge_spec(next, pending, Seq::<Robot>::empty()) == next);
    } else {
        assert(upd.push(r)[0] == upd[0]);
        assert(upd.push(r).skip(1) =~= upd.skip(1).push(r));
        let next = if robots.contains_key(upd[0].robot_peer_id@) {
            robots
        } else {
            robots.insert(upd[0].robot_peer_id@, added_model(upd[0].model(), pending))
        };
        assert(merge_spec(robots, pending, upd) == merge_spec(next, pending, upd.skip(1)));
        lemma_merge_spec_snoc(next, pending, upd.skip(1), r);
    }
}

impl RobotsManager {
    pub closed spec fn robots_map(&self) -> Map<Seq<char>, RobotModel> {
        rmap_of(self.robots@)
    }

    pub closed spec fn pending_map(&self) -> Map<Seq<char>, Seq<char>> {
        pmap_of(self.peer_id_to_ip@)
    }

    pub closed spec fn wf(&self) -> bool {
        &&& forall|a: int, b: int|
            0 <= a < b < self.robots@.len() ==> self.robots@[a].robot_peer_id@
                != self.robots@[b].robot_peer_id@
        &&& forall|i: int| 0 <= i < self.robots@.len() ==> (#[trigger] self.robots@[i]).wf()
        &&& forall|a: int, b: int|
            0 <= a < b < self.peer_id_to_ip@.len() ==> self.peer_id_to_ip@[a].0@
                != self.peer_id_to_ip@[b].0@
    }

    fn find_robot(&self, peer_id: &String) -> (r: Option<usize>)
        requires
            self.wf(),
        ensures
            (match r {
                Some(i) => i < self.robots@.len() && self.robots@[i as int].robot_peer_id@
                    == peer_id@,
                None => forall|i: int|
                    0 <= i < self.robots@.len() ==> self.robots@[i].robot_peer_id@ != peer_id@,
            }),
    {
        let mut i: usize = 0;
        while i < self.robots.len()
            invariant
                self.wf(),
                i <= self.robots@.len(),
                forall|a: int| 0 <= a < i ==> self.robots@[a].robot_peer_id@ != peer_id@,
            decreases self.robots@.len() - i,
        {
            if self.robots[i].robot_peer_id == *peer_id {
                return Some(i);
            }
            i = i + 1;
        }
        None
    }

    fn find_pending(&self, peer_id: &String) -> (r: Option<usize>)
        requires
            self.wf(),
        ensures
            (match r {
                Some(i) => i < self.peer_id_to_ip@.len() && self.peer_id_to_ip@[i as int].0@
                    == peer_id@,
                None => forall|i: int|
                    0 <= i < self.peer_id_to_ip@.len() ==> self.peer_id_to_ip@[i].0@ != peer_id@,
            }),
    {
        let mut i: usize = 0;
        while i < self.peer_id_to_ip.len()
            invariant
                self.wf(),
                i <= self.peer_id_to_ip@.len(),
                forall|a: int| 0 <= a < i ==> self.peer_id_to_ip@[a].0@ != peer_id@,
            decreases self.peer_id_to_ip@.len() - i,
        {
            if self.peer_id_to_ip[i].0 == *peer_id {
                return Some(i);
            }
            i = i + 1;
        }
        None
    }

    /// Whether a robot with this peer id is known.
    pub fn contains_robot(&self, peer_id: &String) -> (r: bool)
        requires
            self.wf(),
        ensures
            r == self.robots_map().contains_key(peer_id@),
    {
        proof {
            lemma_rmap_of_domain(self.robots@, peer_id@);
        }
        match self.find_robot(peer_id) {
            Some(_) => true,
            None => false,
        }
    }

    /// A snapshot of the robot known under this peer id, if any.
    pub fn get_robot(&self, peer_id: &String) -> (r: Option<Robot>)
        requires
            self.wf(),
        ensures
            (match r {
                Some(robot) => self.robots_map().contains_key(peer_id@) && robot.model()
                    == self.robots_map()[peer_id@],
                None => !self.robots_map().contains_key(peer_id@),
            }),
    {
        proof {
            lemma_rmap_of_domain(self.robots@, peer_id@);
        }
        match self.find_robot(peer_id) {
            Some(i) => {
                proof {
                    lemma_rmap_of_index(self.robots@, i as int);
                }
                Some(self.robots[i].clone())
            }
            None => None,
        }
    }

    /// The address parked for a peer whose robot record has not arrived
    /// yet, if any.
    pub fn get_pending_ip(&self, peer_id: &String) -> (r: Option<String>)
        requires
            self.wf(),
        ensures
            (match r {
                Some(ip) => self.pending_map().contains_key(peer_id@) && ip@
                    == self.pending_map()[peer_id@],
                None => !self.pending_map().contains_key(peer_id@),
            }),
    {
        proof {
            lemma_pmap_of_domain(self.peer_id_to_ip@, peer_id@);
        }
        match self.find_pending(peer_id) {
            Some(i) => {
                proof {
                    lemma_pmap_of_index(self.peer_id_to_ip@, i as int);
                }
                Some(self.peer_id_to_ip[i].1.clone())
            }
            None => None,
        }
    }

    /// Snapshots of all known robots, each peer id exactly once.
    pub fn all_robots(&self) -> (r: Vec<Robot>)
        requires
            self.wf(),
        ensures
            forall|i: int|
                0 <= i < r@.len() ==> self.robots_map().contains_key(
                    (#[trigger] r@[i]).robot_peer_id@,
                ) && r@[i].model() == self.robots_map()[r@[i].robot_peer_id@],
            forall|k: Seq<char>|
                self.robots_map().contains_key(k) ==> exists|i: int|
                    0 <= i < r@.len() && (#[trigger] r@[i]).robot_peer_id@ == k,
            forall|a: int, b: int|
                0 <= a < b < r@.len() ==> r@[a].robot_peer_id@ != r@[b].robot_peer_id@,
    {
        let mut r: Vec<Robot> = Vec::new();
        let mut i: usize = 0;
        while i < self.robots.len()
            invariant
                self.wf(),
                i <= self.robots@.len(),
                r@.len() == i as int,
                forall|a: int|
                    0 <= a < i ==> (#[trigger] r@[a]).robot_peer_id@
                        == self.robots@[a].robot_peer_id@ && r@[a].model()
                        == self.robots@[a].model(),
            decreases self.robots@.len() - i,
        {
            proof {
                lemma_rmap_of_index(self.robots@, i as int);
            }
            r.push(self.robots[i].clone());
            i = i + 1;
        }
        proof {
            assert forall|k: Seq<char>| self.robots_map().contains_key(k) implies exists|i: int|
                0 <= i < r@.len() && (#[trigger] r@[i]).robot_peer_id@ == k by {
                lemma_rmap_of_domain(self.robots@, k);
                let i = choose|i: int| 0 <= i < self.robots@.len() && self.robots@[i].robot_peer_id@ == k;
                assert(r@[i].robot_peer_id@ == k);
            }
            assert forall|i: int| 0 <= i < r@.len() implies self.robots_map().contains_key(
                (#[trigger] r@[i]).robot_peer_id@,
            ) && r@[i].model() == self.robots_map()[r@[i].robot_peer_id@] by {
                lemma_rmap_of_index(self.robots@, i);
            }
        }
        r
    }

    /// Snapshots of all parked interfaces, each peer id exactly once.
    pub fn all_pending(&self) -> (r: Vec<(String, String)>)
        requires
            self.wf(),
        ensures
            forall|i: int|
                0 <= i < r@.len() ==> self.pending_map().contains_key((#[trigger] r@[i]).0@)
                    && r@[i].1@ == self.pending_map()[r@[i].0@],
    {
        let mut r: Vec<(String, String)> = Vec::new();
        let mut i: usize = 0;
        while i < self.peer_id_to_ip.len()
            invariant
                self.wf(),
                i <= self.peer_id_to_ip@.len(),
                r@.len() == i as int,
                forall|a: int|
                    0 <= a < i ==> (#[trigger] r@[a]).0@ == self.peer_id_to_ip@[a].0@ && r@[a].1@
                        == self.peer_id_to_ip@[a].1@,
            decreases self.peer_id_to_ip@.len() - i,
        {
            proof {
                lemma_pmap_of_index(self.peer_id_to_ip@, i as int);
            }
            let pair = (self.peer_id_to_ip[i].0.clone(), self.peer_id_to_ip[i].1.clone());
            r.push(pair);
            i = i + 1;
        }
        proof {
            assert forall|i: int| 0 <= i < r@.len() implies self.pending_map().contains_key(
                (#[trigger] r@[i]).0@,
            ) && r@[i].1@ == self.pending_map()[r@[i].0@] by {
                lemma_pmap_of_index(self.peer_id_to_ip@, i);
            }
        }
        r
    }

    /// Record an interface for a peer.  If the robot is known the address
    /// joins its interface set; otherwise it is parked until the robot
    /// record arrives, replacing any previously parked address.
    pub fn add_interface_to_robot(&mut self, robot_peer_id: String, ip4: String)
        requires
            old(self).wf(),
        ensures
            final(self).wf(),
            old(self).robots_map().contains_key(robot_peer_id@) ==> {
                &&& final(self).robots_map() == old(self).robots_map().insert(
                    robot_peer_id@,
                    (RobotModel {
                        interfaces: old(self).robots_map()[robot_peer_id@].interfaces.insert(ip4@),
                        ..old(self).robots_map()[robot_peer_id@]
                    }),
                )
                &&& final(self).pending_map() == old(self).pending_map()
            },
            !old(self).robots_map().contains_key(robot_peer_id@) ==> {
                &&& final(self).robots_map() == old(self).robots_map()
                &&& final(self).pending_map() == old(self).pending_map().insert(
                    robot_peer_id@,
                    ip4@,
                )
            },
    {
        proof {
            lemma_rmap_of_domain(self.robots@, robot_peer_id@);
        }
        match self.find_robot(&robot_peer_id) {
            Some(i) => {
                proof {
                    lemma_rmap_of_index(self.robots@, i as int);
                }
                let ghost pre = self.robots@;
                let slot = vstd::std_specs::vec::vec_index_mut(&mut self.robots, i);
                let mut j: usize = 0;
                let mut present = false;
                while j < slot.interfaces.len()
                    invariant
                        j <= slot.interfaces@.len(),
                        *slot == pre[i as int],
                        present <==> exists|a: int| 0 <= a < j && slot.interfaces@[a].ip4@ == ip4@,
                    decreases slot.interfaces@.len() - j,
                {
                    if slot.interfaces[j].ip4 == ip4 {
                        present = true;
                    }
                    j = j + 1;
                }
                proof {
                    lemma_iface_set_domain(slot.interfaces@, ip4@);
                }
                if !present {
                    let ghost pre_ifaces = slot.interfaces@;
                    slot.interfaces.push(RobotInterface { ip4 });
                    proof {
                        lemma_iface_set_push(pre_ifaces, slot.interfaces@.last());
                        assert(slot.interfaces@ =~= pre_ifaces.push(slot.interfaces@.last()));
                    }
                } else {
                    proof {
                        assert(iface_set(slot.interfaces@).insert(ip4@) =~= iface_set(
                            slot.interfaces@,
                        ));
                    }
                }
                proof {
                    lemma_rmap_of_update(pre, i as int, self.robots@[i as int]);
                }
            }
            None => {
                proof {
                    lemma_pmap_of_domain(self.peer_id_to_ip@, robot_peer_id@);
                }
                match self.find_pending(&robot_peer_id) {
                    Some(j) => {
                        proof {
                            lemma_pmap_of_index(self.peer_id_to_ip@, j as int);
                        }
                        let ghost pre = self.peer_id_to_ip@;
                        let slot = vstd::std_specs::vec::vec_index_mut(&mut self.peer_id_to_ip, j);
                        slot.1 = ip4;
                        proof {
                            lemma_pmap_of_update(pre, j as int, self.peer_id_to_ip@[j as int]);
                        }
                    }
                    None => {
                        proof {
                            lemma_pmap_of_push(self.peer_id_to_ip@, (robot_peer_id, ip4));
                        }
                        self.peer_id_to_ip.push((robot_peer_id, ip4));
                    }
                }
            }
        }
    }

    /// Add (or replace) a robot record; a parked interface for its peer id,
    /// if any, is merged into the stored record at once.
    pub fn add_robot(&mut self, robot: Robot)
        requires
            old(self).wf(),
            robot.wf(),
        ensures
            final(self).wf(),
            final(self).pending_map() == old(self).pending_map(),
            final(self).robots_map() == old(self).robots_map().insert(
                robot.robot_peer_id@,
                added_model(robot.model(), old(self).pending_map()),
            ),
    {
        proof {
            lemma_rmap_of_domain(self.robots@, robot.robot_peer_id@);
        }
        let peer = robot.robot_peer_id.clone();
        match self.find_robot(&peer) {
            Some(i) => {
                proof {
                    lemma_rmap_of_update(self.robots@, i as int, robot);
                }
                let slot = vstd::std_specs::vec::vec_index_mut(&mut self.robots, i);
                *slot = robot;
            }
            None => {
                proof {
                    lemma_rmap_of_push(self.robots@, robot);
                }
                self.robots.push(robot);
            }
        }
        proof {
            lemma_pmap_of_domain(self.peer_id_to_ip@, peer@);
        }
        match self.find_pending(&peer) {
            Some(j) => {
                proof {
                    lemma_pmap_of_index(self.peer_id_to_ip@, j as int);
                }
                let ip = self.peer_id_to_ip[j].1.clone();
                self.add_interface_to_robot(peer, ip);
                proof {
                    assert(self.robots_map() =~= old(self).robots_map().insert(
                        robot.robot_peer_id@,
                        added_model(robot.model(), old(self).pending_map()),
                    ));
                }
            }
            None => {},
        }
    }

    /// Interface removal is not supported yet; the registry is left as it
    /// is.
    #[allow(unused_variables)]
    pub fn remove_interface_from_robot(&mut self, robot_peer_id: String, ip4: String)
        requires
            old(self).wf(),
        ensures
            *final(self) == *old(self),
    {
    }

    /// Merge a configuration update: robots already known are kept as they
    /// are, unknown ones are added, first to last.
    pub fn merge_update(&mut self, update_robots: RobotsConfig)
        requires
            old(self).wf(),
            update_robots.wf(),
        ensures
            final(self).wf(),
            final(self).pending_map() == old(self).pending_map(),
            final(self).robots_map() == merge_spec(
                old(self).robots_map(),
                old(self).pending_map(),
                update_robots.robots@,
            ),
    {
        let mut i: usize = 0;
        while i < update_robots.robots.len()
            invariant
                self.wf(),
                update_robots.wf(),
                i <= update_robots.robots@.len(),
                self.pending_map() == old(self).pending_map(),
                self.robots_map() == merge_spec(
                    old(self).robots_map(),
                    old(self).pending_map(),
                    update_robots.robots@.take(i as int),
                ),
            decreases update_robots.robots@.len() - i,
        {
            proof {
                lemma_merge_spec_snoc(
                    old(self).robots_map(),
                    old(self).pending_map(),
                    update_robots.robots@.take(i as int),
                    update_robots.robots@[i as int],
                );
                assert(update_robots.robots@.take(i as int).push(update_robots.robots@[i as int])
                    =~= update_robots.robots@.take(i as int + 1));
            }
            let r = &update_robots.robots[i];
            if !self.contains_robot(&r.robot_peer_id) {
                self.add_robot(r.clone());
            }
            i = i + 1;
        }
        proof {
            assert(update_robots.robots@.take(update_robots.robots@.len() as int)
                =~= update_robots.robots@);
        }
    }
}

impl Default for RobotsManager {
    /// An empty registry.
    fn default() -> (r: Self)
        ensures
            r.wf(),
            r.robots_map() == Map::<Seq<char>, RobotModel>::empty(),
            r.pending_map() == Map::<Seq<char>, Seq<char>>::empty(),
    {
        RobotsManager { robots: Vec::new(), peer_id_to_ip: Vec::new() }
    }
}

} // verus!
