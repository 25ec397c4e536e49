//! An undirected graph of joints connected by links, with batch constraint
//! and update operations over every joint.

use vstd::prelude::*;

verus! {

use crate::joint::{
    jv_constrained, jv_constrained_angular_at, jv_constrained_spatial_at, jv_step_fits,
    jv_stepped, jv_wf, Joint, JointView,
};
use crate::link::{Link, LinkView};

/// Every joint stepped forward by `dt`, pointwise over the id map.
pub open spec fn stepped_jmap(m: Map<u64, JointView>, dt: i64) -> Map<u64, JointView> {
    Map::new(|id: u64| m.dom().contains(id), |id: u64| jv_stepped(m[id], dt))
}

/// Every joint constrained, pointwise over the id map.
pub open spec fn constrained_jmap(m: Map<u64, JointView>) -> Map<u64, JointView> {
    Map::new(|id: u64| m.dom().contains(id), |id: u64| jv_constrained(m[id]))
}

/// Why a topology mutation was refused. A failed mutation leaves the
/// linkage exactly as it was.
#[derive(Clone, Copy, Debug, PartialEq, Eq, Structural)]
pub enum Error {
    FailedToAddJoint,
    FailedToAddLink,
    FailedToRemoveJoint,
    FailedToRemoveLink,
}

/// The unordered pair `{a, b}`, in canonical order.
pub open spec fn canon(a: u64, b: u64) -> (u64, u64) {
    if a <= b {
        (a, b)
    } else {
        (b, a)
    }
}

/// The links that do not touch joint `id`, in their original order.
pub open spec fn drop_incident(links: Seq<(u64, u64, Link)>, id: u64) -> Seq<(u64, u64, Link)>
    decreases links.len(),
{
    if links.len() == 0 {
        Seq::empty()
    } else {
        let rest = drop_incident(links.drop_last(), id);
        if links.last().0 != id && links.last().1 != id {
            rest.push(links.last())
        } else {
            rest
        }
    }
}

/// What `drop_incident` keeps: exactly the entries of the input that do not
/// touch `id`, each one an entry of the input.
proof fn lemma_drop_incident_props(links: Seq<(u64, u64, Link)>, id: u64)
    ensures
        drop_incident(links, id).len() <= links.len(),
        forall|l: int|
            0 <= l < drop_incident(links, id).len() ==> (#[trigger] drop_incident(links, id)[l]).0
                != id && drop_incident(links, id)[l].1 != id,
        forall|l: int|
            0 <= l < drop_incident(links, id).len() ==> exists|k: int|
                0 <= k < links.len() && links[k] == #[trigger] drop_incident(links, id)[l],
        forall|k: int|
            0 <= k < links.len() && (#[trigger] links[k]).0 != id && links[k].1 != id ==> exists|
                l: int,
            | 0 <= l < drop_incident(links, id).len() && drop_incident(links, id)[l] == links[k],
    decreases links.len(),
{
    if links.len() > 0 {
        let but = links.drop_last();
        lemma_drop_incident_props(but, id);
        let rest = drop_incident(but, id);
        let out = drop_incident(links, id);
        assert(forall|k: int| 0 <= k < but.len() ==> but[k] == links[k]);
        assert forall|l: int|
            0 <= l < out.len() implies exists|k: int|
                0 <= k < links.len() && links[k] == #[trigger] out[l] by {
            if l < rest.len() {
                let k = choose|k: int| 0 <= k < but.len() && but[k] == #[trigger] rest[l];
                assert(links[k] == out[l]);
            } else {
                assert(links[links.len() - 1] == out[l]);
            }
        }
        assert forall|k: int|
            0 <= k < links.len() && (#[trigger] links[k]).0 != id && links[k].1 != id implies
            exists|l: int| 0 <= l < out.len() && out[l] == links[k] by {
            if k < links.len() - 1 {
                assert(but[k] == links[k]);
                let l = choose|l: int| 0 <= l < rest.len() && rest[l] == but[k];
                assert(out[l] == links[k]);
            } else {
                assert(out[out.len() - 1] == links[k]);
            }
        }
    }
}

/// `drop_incident` keeps distinct canonical pairs distinct.
proof fn lemma_drop_incident_distinct(links: Seq<(u64, u64, Link)>, id: u64)
    requires
        forall|k: int, l: int|
            0 <= k < l < links.len() ==> canon((#[trigger] links[k]).0, links[k].1) != canon(
                (#[trigger] links[l]).0,
                links[l].1,
            ),
    ensures
        forall|k: int, l: int|
            0 <= k < l < drop_incident(links, id).len() ==> canon(
                (#[trigger] drop_incident(links, id)[k]).0,
                drop_incident(links, id)[k].1,
            ) != canon(
                (#[trigger] drop_incident(links, id)[l]).0,
                drop_incident(links, id)[l].1,
            ),
    decreases links.len(),
{
    if links.len() > 0 {
        let but = links.drop_last();
        assert(forall|k: int| 0 <= k < but.len() ==> but[k] == links[k]);
        lemma_drop_incident_distinct(but, id);
        lemma_drop_incident_props(but, id);
        let rest = drop_incident(but, id);
        let out = drop_incident(links, id);
        assert forall|k: int, l: int|
            0 <= k < l < out.len() implies canon((#[trigger] out[k]).0, out[k].1) != canon(
                (#[trigger] out[l]).0,
                out[l].1,
            ) by {
            if l < rest.len() {
            } else if out.len() > rest.len() && l == rest.len() {
                let m = choose|m: int| 0 <= m < but.len() && but[m] == #[trigger] rest[k];
                assert(links[m] == out[k]);
                assert(canon(links[m].0, links[m].1) != canon(
                    links[links.len() - 1].0,
                    links[links.len() - 1].1,
                ));
                assert(out[l] == links[links.len() - 1]);
            }
        }
    }
}

/// An undirected graph: joints keyed by unique ids and links keyed by the
/// unordered pair of joint ids they connect. Every link's endpoints are
/// present joints, and all joints share the linkage's dimension and order.
#[derive(Debug)]
pub struct Linkage {
    pub dim: usize,
    pub ord: usize,
    pub joints: Vec<(u64, Joint)>,
    pub links: Vec<(u64, u64, Link)>,
}

impl Linkage {
    /// Whether a joint with this id is present.
    pub open spec fn has_joint_id(self, id: u64) -> bool {
        exists|i: int| 0 <= i < self.joints@.len() && (#[trigger] self.joints@[i]).0 == id
    }

    /// The storage index of the joint with this id.
    pub open spec fn joint_idx(self, id: u64) -> int {
        choose|i: int| 0 <= i < self.joints@.len() && (#[trigger] self.joints@[i]).0 == id
    }

    /// The joints, as a map from id to mathematical content.
    pub open spec fn jmap(self) -> Map<u64, JointView> {
        Map::new(
            |id: u64| self.has_joint_id(id),
            |id: u64| self.joints@[self.joint_idx(id)].1@,
        )
    }

    /// Whether a link connects `a` and `b`, in either orientation.
    pub open spec fn has_link_between(self, a: u64, b: u64) -> bool {
        exists|k: int|
            0 <= k < self.links@.len() && canon(
                (#[trigger] self.links@[k]).0,
                self.links@[k].1,
            ) == canon(a, b)
    }

    /// The storage index of the link between `a` and `b`.
    pub open spec fn link_idx(self, a: u64, b: u64) -> int {
        choose|k: int|
            0 <= k < self.links@.len() && canon(
                (#[trigger] self.links@[k]).0,
                self.links@[k].1,
            ) == canon(a, b)
    }

    /// The links, as a map from canonical id pair to content.
    pub open spec fn lmap(self) -> Map<(u64, u64), LinkView> {
        Map::new(
            |p: (u64, u64)| p == canon(p.0, p.1) && self.has_link_between(p.0, p.1),
            |p: (u64, u64)| self.links@[self.link_idx(p.0, p.1)].2@,
        )
    }

    /// Well-formed: joint ids are unique and every joint matches the
    /// linkage's dimension and order; every link is between present joints,
    /// matches the dimension, and no unordered pair is linked twice.
    pub open spec fn wf(self) -> bool {
        &&& 1 <= self.dim <= 4
        &&& self.ord <= 6
        &&& forall|i: int|
            0 <= i < self.joints@.len() ==> (#[trigger] self.joints@[i]).1.wf()
                && self.joints@[i].1@.spatial.len() == self.ord + 1
                && self.joints@[i].1@.spatial[0].len() == self.dim
        &&& forall|i: int, j: int|
            0 <= i < j < self.joints@.len() ==> (#[trigger] self.joints@[i]).0 != (
            #[trigger] self.joints@[j]).0
        &&& forall|k: int|
            0 <= k < self.links@.len() ==> (#[trigger] self.links@[k]).2.wf()
                && self.links@[k].2.constraint.ranges@.len() == self.dim && self.has_joint_id(
                self.links@[k].0,
            ) && self.has_joint_id(self.links@[k].1)
        &&& forall|k: int, l: int|
            0 <= k < l < self.links@.len() ==> canon(
                (#[trigger] self.links@[k]).0,
                self.links@[k].1,
            ) != canon((#[trigger] self.links@[l]).0, self.links@[l].1)
    }

    /// Looking up the id stored at index `i` yields exactly that entry.
    pub proof fn lemma_jmap_at(self, i: int)
        requires
            self.wf(),
            0 <= i < self.joints@.len(),
        ensures
            self.has_joint_id(self.joints@[i].0),
            self.joint_idx(self.joints@[i].0) == i,
            self.jmap().dom().contains(self.joints@[i].0),
            self.jmap()[self.joints@[i].0] == self.joints@[i].1@,
    {
        let id = self.joints@[i].0;
        assert(self.has_joint_id(id));
        let j = self.joint_idx(id);
        assert(0 <= j < self.joints@.len() && self.joints@[j].0 == id);
        if i < j {
            assert(self.joints@[i].0 != self.joints@[j].0);
        } else if j < i {
            assert(self.joints@[j].0 != self.joints@[i].0);
        }
    }

    /// Looking up the pair stored at index `k` yields exactly that entry.
    pub proof fn lemma_lmap_at(self, k: int)
        requires
            self.wf(),
            0 <= k < self.links@.len(),
        ensures
            self.has_link_between(self.links@[k].0, self.links@[k].1),
            self.link_idx(self.links@[k].0, self.links@[k].1) == k,
            self.lmap().dom().contains(canon(self.links@[k].0, self.links@[k].1)),
            self.lmap()[canon(self.links@[k].0, self.links@[k].1)] == self.links@[k].2@,
    {
        let a = self.links@[k].0;
        let b = self.links@[k].1;
        assert(canon(self.links@[k].0, self.links@[k].1) == canon(a, b));
        assert(self.has_link_between(a, b));
        let l = self.link_idx(a, b);
        assert(0 <= l < self.links@.len() && canon(self.links@[l].0, self.links@[l].1) == canon(
            a,
            b,
        ));
        if k < l {
            assert(canon(self.links@[k].0, self.links@[k].1) != canon(
                self.links@[l].0,
                self.links@[l].1,
            ));
        } else if l < k {
            assert(canon(self.links@[l].0, self.links@[l].1) != canon(
                self.links@[k].0,
                self.links@[k].1,
            ));
        }
        let p = canon(a, b);
        assert(p == canon(p.0, p.1) && self.has_link_between(p.0, p.1));
    }

    /// A fresh linkage with no joints and no links, whose joints will track
    /// derivatives up to `ord` in `dim` axes.
    pub fn new(dim: usize, ord: usize) -> (l: Linkage)
        requires
            1 <= dim <= 4,
            ord <= 6,
        ensures
            l.wf(),
            l.dim == dim,
            l.ord == ord,
            l.jmap() == Map::<u64, JointView>::empty(),
            l.lmap() == Map::<(u64, u64), LinkView>::empty(),
    {
        let l = Linkage { dim, ord, joints: Vec::new(), links: Vec::new() };
        proof {
            assert(l.jmap() =~= Map::<u64, JointView>::empty());
            assert(l.lmap() =~= Map::<(u64, u64), LinkView>::empty());
        }
        l
    }

    /// Two well-formed linkages with equal link storage have equal link maps.
    proof fn lemma_same_links_lmap(pre: Linkage, post: Linkage)
        requires
            pre.wf(),
            post.wf(),
            post.links@ == pre.links@,
        ensures
            post.lmap() == pre.lmap(),
    {
        assert forall|p: (u64, u64)|
            post.has_link_between(p.0, p.1) <==> pre.has_link_between(p.0, p.1) by {
            if post.has_link_between(p.0, p.1) {
                let k = choose|k: int|
                    0 <= k < post.links@.len() && canon(
                        (#[trigger] post.links@[k]).0,
                        post.links@[k].1,
                    ) == canon(p.0, p.1);
                assert(canon(pre.links@[k].0, pre.links@[k].1) == canon(p.0, p.1));
                assert(pre.has_link_between(p.0, p.1));
            }
            if pre.has_link_between(p.0, p.1) {
                let k = choose|k: int|
                    0 <= k < pre.links@.len() && canon(
                        (#[trigger] pre.links@[k]).0,
                        pre.links@[k].1,
                    ) == canon(p.0, p.1);
                assert(canon(post.links@[k].0, post.links@[k].1) == canon(p.0, p.1));
                assert(post.has_link_between(p.0, p.1));
            }
        }
        assert forall|p: (u64, u64)|
            pre.lmap().dom().contains(p) implies post.lmap()[p] == pre.lmap()[p] by {
            let k = choose|k: int|
                0 <= k < pre.links@.len() && canon(
                    (#[trigger] pre.links@[k]).0,
                    pre.links@[k].1,
                ) == canon(p.0, p.1);
            assert(canon(p.0, p.1) == p);
            pre.lemma_lmap_at(k);
            post.lemma_lmap_at(k);
            assert(canon(post.links@[k].0, post.links@[k].1) == p);
        }
        assert(post.lmap() =~= pre.lmap());
    }

    /// Two well-formed linkages with equal joint storage have equal joint
    /// maps.
    proof fn lemma_same_joints_jmap(pre: Linkage, post: Linkage)
        requires
            pre.wf(),
            post.wf(),
            post.joints@ == pre.joints@,
        ensures
            post.jmap() == pre.jmap(),
    {
        assert forall|x: u64| post.has_joint_id(x) <==> pre.has_joint_id(x) by {
            if post.has_joint_id(x) {
                let i = choose|i: int|
                    0 <= i < post.joints@.len() && (#[trigger] post.joints@[i]).0 == x;
                assert(pre.joints@[i].0 == x);
                assert(pre.has_joint_id(x));
            }
            if pre.has_joint_id(x) {
                let i = choose|i: int|
                    0 <= i < pre.joints@.len() && (#[trigger] pre.joints@[i]).0 == x;
                assert(post.joints@[i].0 == x);
                assert(post.has_joint_id(x));
            }
        }
        assert forall|x: u64|
            pre.jmap().dom().contains(x) implies post.jmap()[x] == pre.jmap()[x] by {
            let i = choose|i: int|
                0 <= i < pre.joints@.len() && (#[trigger] pre.joints@[i]).0 == x;
            pre.lemma_jmap_at(i);
            post.lemma_jmap_at(i);
        }
        assert(post.jmap() =~= pre.jmap());
    }

    /// Appending a joint under a fresh id extends the joint map by exactly
    /// that entry and leaves the link map alone.
    proof fn lemma_push_joint(pre: Linkage, post: Linkage, id: u64, joint: Joint)
        requires
            pre.wf(),
            joint.wf(),
            joint@.spatial.len() == pre.ord + 1,
            joint@.spatial[0].len() == pre.dim,
            !pre.has_joint_id(id),
            post.dim == pre.dim,
            post.ord == pre.ord,
            post.joints@ == pre.joints@.push((id, joint)),
            post.links@ == pre.links@,
        ensures
            post.wf(),
            post.jmap() == pre.jmap().insert(id, joint@),
            post.lmap() == pre.lmap(),
    {
        let n = pre.joints@.len() as int;
        assert(post.joints@[n] == (id, joint));
        assert forall|i: int| 0 <= i < n implies (#[trigger] pre.joints@[i]).0 != id by {
            if pre.joints@[i].0 == id {
                assert(pre.has_joint_id(id));
            }
        }
        assert forall|k: int|
            0 <= k < post.links@.len() implies post.has_joint_id(
                (#[trigger] post.links@[k]).0,
            ) && post.has_joint_id(post.links@[k].1) by {
            assert(pre.has_joint_id(pre.links@[k].0) && pre.has_joint_id(pre.links@[k].1));
            let w0 = choose|i: int|
                0 <= i < pre.joints@.len() && (#[trigger] pre.joints@[i]).0 == pre.links@[k].0;
            assert(post.joints@[w0].0 == post.links@[k].0);
            let w1 = choose|i: int|
                0 <= i < pre.joints@.len() && (#[trigger] pre.joints@[i]).0 == pre.links@[k].1;
            assert(post.joints@[w1].0 == post.links@[k].1);
        }
        assert(post.wf());
        assert forall|x: u64|
            post.jmap().dom().contains(x) <==> pre.jmap().insert(id, joint@).dom().contains(
                x,
            ) by {
            if post.has_joint_id(x) {
                let i = choose|i: int|
                    0 <= i < post.joints@.len() && (#[trigger] post.joints@[i]).0 == x;
                if i < n {
                    assert(pre.joints@[i].0 == x);
                    assert(pre.has_joint_id(x));
                } else {
                    assert(x == id);
                }
            }
            if pre.has_joint_id(x) {
                let i = choose|i: int|
                    0 <= i < pre.joints@.len() && (#[trigger] pre.joints@[i]).0 == x;
                assert(post.joints@[i].0 == x);
                assert(post.has_joint_id(x));
            }
            if x == id {
                assert(post.joints@[n].0 == id);
                assert(post.has_joint_id(id));
            }
        }
        assert forall|x: u64|
            post.jmap().dom().contains(x) implies post.jmap()[x] == pre.jmap().insert(
                id,
                joint@,
            )[x] by {
            if x == id {
                post.lemma_jmap_at(n);
            } else {
                assert(post.has_joint_id(x));
                let i = choose|i: int|
                    0 <= i < post.joints@.len() && (#[trigger] post.joints@[i]).0 == x;
                assert(i < n);
                assert(pre.joints@[i].0 == x);
                pre.lemma_jmap_at(i);
                post.lemma_jmap_at(i);
            }
        }
        assert(post.jmap() =~= pre.jmap().insert(id, joint@));
        Self::lemma_same_links_lmap(pre, post);
    }

    /// Insert a joint under `id`; fails, leaving the linkage exactly as it
    /// was, when `id` is already present.
    pub fn add_joint(&mut self, id: u64, joint: Joint) -> (r: Result<(), Error>)
        requires
            old(self).wf(),
            joint.wf(),
            joint@.spatial.len() == old(self).ord + 1,
            joint@.spatial[0].len() == old(self).dim,
        ensures
            final(self).wf(),
            final(self).dim == old(self).dim,
            final(self).ord == old(self).ord,
            old(self).has_joint_id(id) ==> r == Err::<(), Error>(Error::FailedToAddJoint)
                && *final(self) == *old(self),
            !old(self).has_joint_id(id) ==> r == Ok::<(), Error>(()) && final(self).jmap()
                == old(self).jmap().insert(id, joint@) && final(self).lmap() == old(self).lmap(),
    {
        match self.find_joint(id) {
            Some(_) => Err(Error::FailedToAddJoint),
            None => {
                self.joints.push((id, joint));
                proof {
                    Self::lemma_push_joint(*old(self), *self, id, joint);
                }
                Ok(())
            },
        }
    }

    /// The joint stored under `id`, if present.
    pub fn get_joint(&self, id: u64) -> (r: Option<&Joint>)
        requires
            self.wf(),
        ensures
            match r {
                Some(j) => self.jmap().dom().contains(id) && j@ == self.jmap()[id] && j.wf(),
                None => !self.jmap().dom().contains(id),
            },
    {
        match self.find_joint(id) {
            Some(i) => {
                proof {
                    self.lemma_jmap_at(i as int);
                }
                Some(&self.joints[i].1)
            },
            None => None,
        }
    }

    /// The joint stored under `id`, for mutation. The caller is responsible
    /// for keeping the joint's shape: a write through the returned
    /// reference replaces exactly this joint's entry.
    pub fn get_joint_mut(&mut self, id: u64) -> (r: Option<&mut Joint>)
        requires
            old(self).wf(),
        ensures
            r is Some <==> old(self).jmap().dom().contains(id),
            r matches Some(j) ==> {
                &&& (*j)@ == old(self).jmap()[id]
                &&& (*j).wf()
                &&& final(self).joints@ == old(self).joints@.update(
                    old(self).joint_idx(id),
                    (id, *final(j)),
                )
                &&& final(self).links@ == old(self).links@
                &&& final(self).dim == old(self).dim
                &&& final(self).ord == old(self).ord
            },
            r is None ==> *final(self) == *old(self),
    {
        match self.find_joint(id) {
            Some(i) => {
                proof {
                    self.lemma_jmap_at(i as int);
                }
                Some(&mut self.joints[i].1)
            },
            None => None,
        }
    }

    /// Appending a link between present, unlinked joints extends the link
    /// map by exactly that entry and leaves the joint map alone.
    proof fn lemma_push_link(pre: Linkage, post: Linkage, a: u64, b: u64, link: Link)
        requires
            pre.wf(),
            link.wf(),
            link@.constraint.len() == pre.dim,
            pre.has_joint_id(a),
            pre.has_joint_id(b),
            !pre.has_link_between(a, b),
            post.dim == pre.dim,
            post.ord == pre.ord,
            post.joints@ == pre.joints@,
            post.links@ == pre.links@.push((a, b, link)),
        ensures
            post.wf(),
            post.lmap() == pre.lmap().insert(canon(a, b), link@),
            post.jmap() == pre.jmap(),
    {
        let n = pre.links@.len() as int;
        assert(post.links@[n] == (a, b, link));
        assert forall|k: int|
            0 <= k < n implies canon((#[trigger] pre.links@[k]).0, pre.links@[k].1) != canon(
                a,
                b,
            ) by {
            if canon(pre.links@[k].0, pre.links@[k].1) == canon(a, b) {
                assert(pre.has_link_between(a, b));
            }
        }
        assert forall|k: int|
            0 <= k < post.links@.len() implies post.has_joint_id(
                (#[trigger] post.links@[k]).0,
            ) && post.has_joint_id(post.links@[k].1) by {
            if k < n {
                assert(pre.has_joint_id(pre.links@[k].0) && pre.has_joint_id(pre.links@[k].1));
            }
            let u = post.links@[k].0;
            let v = post.links@[k].1;
            assert(pre.has_joint_id(u) && pre.has_joint_id(v));
            let w0 = choose|i: int|
                0 <= i < pre.joints@.len() && (#[trigger] pre.joints@[i]).0 == u;
            assert(post.joints@[w0].0 == u);
            let w1 = choose|i: int|
                0 <= i < pre.joints@.len() && (#[trigger] pre.joints@[i]).0 == v;
            assert(post.joints@[w1].0 == v);
        }
        assert(post.wf());
        assert forall|p: (u64, u64)|
            post.lmap().dom().contains(p) <==> pre.lmap().insert(canon(a, b), link@
            ).dom().contains(p) by {
            if p == canon(p.0, p.1) && post.has_link_between(p.0, p.1) {
                let k = choose|k: int|
                    0 <= k < post.links@.len() && canon(
                        (#[trigger] post.links@[k]).0,
                        post.links@[k].1,
                    ) == canon(p.0, p.1);
                if k < n {
                    assert(canon(pre.links@[k].0, pre.links@[k].1) == canon(p.0, p.1));
                    assert(pre.has_link_between(p.0, p.1));
                } else {
                    assert(canon(a, b) == canon(p.0, p.1));
                }
            }
            if p == canon(p.0, p.1) && pre.has_link_between(p.0, p.1) {
                let k = choose|k: int|
                    0 <= k < pre.links@.len() && canon(
                        (#[trigger] pre.links@[k]).0,
                        pre.links@[k].1,
                    ) == canon(p.0, p.1);
                assert(canon(post.links@[k].0, post.links@[k].1) == canon(p.0, p.1));
                assert(post.has_link_between(p.0, p.1));
            }
            if p == canon(a, b) {
                assert(canon(post.links@[n].0, post.links@[n].1) == canon(p.0, p.1));
                assert(post.has_link_between(p.0, p.1));
                assert(canon(canon(a, b).0, canon(a, b).1) == canon(a, b));
            }
        }
        assert forall|p: (u64, u64)|
            post.lmap().dom().contains(p) implies post.lmap()[p] == pre.lmap().insert(
                canon(a, b),
                link@,
            )[p] by {
            if p == canon(a, b) {
                post.lemma_lmap_at(n);
            } else {
                let k = choose|k: int|
                    0 <= k < post.links@.len() && canon(
                        (#[trigger] post.links@[k]).0,
                        post.links@[k].1,
                    ) == canon(p.0, p.1);
                assert(k < n);
                assert(canon(pre.links@[k].0, pre.links@[k].1) == canon(p.0, p.1));
                pre.lemma_lmap_at(k);
                post.lemma_lmap_at(k);
            }
        }
        assert(post.lmap() =~= pre.lmap().insert(canon(a, b), link@));
        Self::lemma_same_joints_jmap(pre, post);
    }

    /// Insert a link between `nodeid1` and `nodeid2`; fails, leaving the
    /// linkage exactly as it was, when either id is missing or the pair is
    /// already linked.
    pub fn add_link(&mut self, nodeid1: u64, nodeid2: u64, link: Link) -> (r: Result<(), Error>)
        requires
            old(self).wf(),
            link.wf(),
            link@.constraint.len() == old(self).dim,
        ensures
            final(self).wf(),
            final(self).dim == old(self).dim,
            final(self).ord == old(self).ord,
            (!old(self).has_joint_id(nodeid1) || !old(self).has_joint_id(nodeid2) || old(self).has_link_between(nodeid1, nodeid2)) ==> r == Err::<(), Error>(Error::FailedToAddLink)
                && *final(self) == *old(self),
            (old(self).has_joint_id(nodeid1) && old(self).has_joint_id(nodeid2) && !old(self).has_link_between(nodeid1, nodeid2)) ==> r == Ok::<(), Error>(()) && final(self).lmap() == old(self).lmap().insert(canon(nodeid1, nodeid2), link@) && final(self).jmap() == old(self).jmap() && final(self).joints@ == old(self).joints@,
    {
        let e1 = self.find_joint(nodeid1);
        let e2 = self.find_joint(nodeid2);
        if e1.is_none() || e2.is_none() {
            return Err(Error::FailedToAddLink);
        }
        match self.find_link(nodeid1, nodeid2) {
            Some(_) => Err(Error::FailedToAddLink),
            None => {
                self.links.push((nodeid1, nodeid2, link));
                proof {
                    Self::lemma_push_link(*old(self), *self, nodeid1, nodeid2, link);
                }
                Ok(())
            },
        }
    }

    /// The link between `nodeid1` and `nodeid2`, if present, whichever
    /// orientation was stored.
    pub fn get_link(&self, nodeid1: u64, nodeid2: u64) -> (r: Option<&Link>)
        requires
            self.wf(),
        ensures
            match r {
                Some(l) => self.lmap().dom().contains(canon(nodeid1, nodeid2)) && l@
                    == self.lmap()[canon(nodeid1, nodeid2)] && l.wf(),
                None => !self.lmap().dom().contains(canon(nodeid1, nodeid2)),
            },
    {
        match self.find_link(nodeid1, nodeid2) {
            Some(k) => {
                proof {
                    self.lemma_lmap_at(k as int);
                }
                Some(&self.links[k].2)
            },
            None => {
                proof {
                    if self.lmap().dom().contains(canon(nodeid1, nodeid2)) {
                        assert(self.has_link_between(nodeid1, nodeid2));
                    }
                }
                None
            },
        }
    }

    /// The link between `nodeid1` and `nodeid2`, for mutation. A write
    /// through the returned reference replaces exactly this link's entry.
    pub fn get_link_mut(&mut self, nodeid1: u64, nodeid2: u64) -> (r: Option<&mut Link>)
        requires
            old(self).wf(),
        ensures
            r is Some <==> old(self).lmap().dom().contains(canon(nodeid1, nodeid2)),
            r matches Some(l) ==> {
                &&& (*l)@ == old(self).lmap()[canon(nodeid1, nodeid2)]
                &&& (*l).wf()
                &&& final(self).links@ == old(self).links@.update(
                    old(self).link_idx(nodeid1, nodeid2),
                    (
                        old(self).links@[old(self).link_idx(nodeid1, nodeid2)].0,
                        old(self).links@[old(self).link_idx(nodeid1, nodeid2)].1,
                        *final(l),
                    ),
                )
                &&& final(self).joints@ == old(self).joints@
                &&& final(self).dim == old(self).dim
                &&& final(self).ord == old(self).ord
            },
            r is None ==> *final(self) == *old(self),
    {
        match self.find_link(nodeid1, nodeid2) {
            Some(k) => {
                proof {
                    self.lemma_lmap_at(k as int);
                }
                Some(&mut self.links[k].2)
            },
            None => {
                proof {
                    if self.lmap().dom().contains(canon(nodeid1, nodeid2)) {
                        assert(self.has_link_between(nodeid1, nodeid2));
                    }
                }
                None
            },
        }
    }

    /// Removing the link stored at index `k` removes exactly its pair from
    /// the link map and leaves the joint map alone.
    proof fn lemma_remove_link_at(pre: Linkage, post: Linkage, k: int)
        requires
            pre.wf(),
            0 <= k < pre.links@.len(),
            post.dim == pre.dim,
            post.ord == pre.ord,
            post.joints@ == pre.joints@,
            post.links@ == pre.links@.remove(k),
        ensures
            post.wf(),
            post.lmap() == pre.lmap().remove(canon(pre.links@[k].0, pre.links@[k].1)),
            post.jmap() == pre.jmap(),
    {
        pre.links@.remove_ensures(k);
        let gone = canon(pre.links@[k].0, pre.links@[k].1);
        assert forall|l: int|
            0 <= l < post.links@.len() implies post.has_joint_id((#[trigger] post.links@[l]).0)
                && post.has_joint_id(post.links@[l].1) && canon(post.links@[l].0, post.links@[l].1)
                != gone by {
            let src = if l < k {
                l
            } else {
                l + 1
            };
            assert(post.links@[l] == pre.links@[src]);
            assert(pre.has_joint_id(pre.links@[src].0) && pre.has_joint_id(pre.links@[src].1));
            let w0 = choose|i: int|
                0 <= i < pre.joints@.len() && (#[trigger] pre.joints@[i]).0 == pre.links@[src].0;
            assert(post.joints@[w0].0 == post.links@[l].0);
            let w1 = choose|i: int|
                0 <= i < pre.joints@.len() && (#[trigger] pre.joints@[i]).0 == pre.links@[src].1;
            assert(post.joints@[w1].0 == post.links@[l].1);
            if src < k {
                assert(canon(pre.links@[src].0, pre.links@[src].1) != canon(
                    pre.links@[k].0,
                    pre.links@[k].1,
                ));
            } else if k < src {
                assert(canon(pre.links@[k].0, pre.links@[k].1) != canon(
                    pre.links@[src].0,
                    pre.links@[src].1,
                ));
            }
        }
        assert forall|l: int, m: int|
            0 <= l < m < post.links@.len() implies canon(
                (#[trigger] post.links@[l]).0,
                post.links@[l].1,
            ) != canon((#[trigger] post.links@[m]).0, post.links@[m].1) by {
            let sl = if l < k {
                l
            } else {
                l + 1
            };
            let sm = if m < k {
                m
            } else {
                m + 1
            };
            assert(post.links@[l] == pre.links@[sl]);
            assert(post.links@[m] == pre.links@[sm]);
            assert(canon(pre.links@[sl].0, pre.links@[sl].1) != canon(
                pre.links@[sm].0,
                pre.links@[sm].1,
            ));
        }
        assert(post.wf());
        assert forall|p: (u64, u64)|
            post.lmap().dom().contains(p) <==> (pre.lmap().dom().contains(p) && p != gone) by {
            if p == canon(p.0, p.1) && post.has_link_between(p.0, p.1) {
                let l = choose|l: int|
                    0 <= l < post.links@.len() && canon(
                        (#[trigger] post.links@[l]).0,
                        post.links@[l].1,
                    ) == canon(p.0, p.1);
                let src = if l < k {
                    l
                } else {
                    l + 1
                };
                assert(post.links@[l] == pre.links@[src]);
                assert(pre.has_link_between(p.0, p.1));
                assert(canon(post.links@[l].0, post.links@[l].1) != gone);
            }
            if p == canon(p.0, p.1) && pre.has_link_between(p.0, p.1) && p != gone {
                let l = choose|l: int|
                    0 <= l < pre.links@.len() && canon(
                        (#[trigger] pre.links@[l]).0,
                        pre.links@[l].1,
                    ) == canon(p.0, p.1);
                assert(l != k);
                let dst = if l < k {
                    l
                } else {
                    l - 1
                };
                assert(post.links@[dst] == pre.links@[l]);
                assert(canon(post.links@[dst].0, post.links@[dst].1) == canon(p.0, p.1));
                assert(post.has_link_between(p.0, p.1));
            }
        }
        assert forall|p: (u64, u64)|
            post.lmap().dom().contains(p) implies post.lmap()[p] == pre.lmap().remove(gone)[p] by {
            let l = choose|l: int|
                0 <= l < post.links@.len() && canon(
                    (#[trigger] post.links@[l]).0,
                    post.links@[l].1,
                ) == canon(p.0, p.1);
            let src = if l < k {
                l
            } else {
                l + 1
            };
            assert(post.links@[l] == pre.links@[src]);
            post.lemma_lmap_at(l);
            pre.lemma_lmap_at(src);
        }
        assert(post.lmap() =~= pre.lmap().remove(gone));
        Self::lemma_same_joints_jmap(pre, post);
    }

    /// Remove the link between `nodeid1` and `nodeid2` and hand it back;
    /// fails, leaving the linkage exactly as it was, when no such link is
    /// present.
    pub fn remove_link(&mut self, nodeid1: u64, nodeid2: u64) -> (r: Result<Link, Error>)
        requires
            old(self).wf(),
        ensures
            final(self).wf(),
            final(self).dim == old(self).dim,
            final(self).ord == old(self).ord,
            !old(self).has_link_between(nodeid1, nodeid2) ==> r == Err::<Link, Error>(
                Error::FailedToRemoveLink,
            ) && *final(self) == *old(self),
            old(self).has_link_between(nodeid1, nodeid2) ==> (r matches Ok(l) && l@ == old(self).lmap()[canon(nodeid1, nodeid2)] && l.wf()) && final(self).lmap() == old(self).lmap().remove(canon(nodeid1, nodeid2)) && final(self).jmap() == old(self).jmap()
                && final(self).joints@ == old(self).joints@,
    {
        match self.find_link(nodeid1, nodeid2) {
            None => Err(Error::FailedToRemoveLink),
            Some(k) => {
                proof {
                    self.lemma_lmap_at(k as int);
                }
                let entry = self.links.remove(k);
                proof {
                    Self::lemma_remove_link_at(*old(self), *self, k as int);
                }
                Ok(entry.2)
            },
        }
    }

    /// Removing the joint stored at index `i` and every link incident to it
    /// removes exactly that id from the joint map and exactly the incident
    /// pairs from the link map.
    #[verifier::rlimit(50)]
    proof fn lemma_remove_joint_maps(pre: Linkage, post: Linkage, i: int, id: u64)
        requires
            pre.wf(),
            0 <= i < pre.joints@.len(),
            pre.joints@[i].0 == id,
            post.dim == pre.dim,
            post.ord == pre.ord,
            post.joints@ == pre.joints@.remove(i),
            post.links@ == drop_incident(pre.links@, id),
        ensures
            post.wf(),
            post.jmap() == pre.jmap().remove(id),
            post.lmap() == Map::new(
                |p: (u64, u64)| pre.lmap().dom().contains(p) && p.0 != id && p.1 != id,
                |p: (u64, u64)| pre.lmap()[p],
            ),
    {
        pre.joints@.remove_ensures(i);
        lemma_drop_incident_props(pre.links@, id);
        lemma_drop_incident_distinct(pre.links@, id);
        let nj = pre.joints@.len() as int;
        // only index i of the joints held this id
        assert forall|m: int| 0 <= m < nj && m != i implies (#[trigger] pre.joints@[m]).0 != id by {
            if m < i {
                assert(pre.joints@[m].0 != pre.joints@[i].0);
            } else {
                assert(pre.joints@[i].0 != pre.joints@[m].0);
            }
        }
        // joint ids other than `id` survive with the same entry
        assert forall|x: u64| post.has_joint_id(x) <==> (pre.has_joint_id(x) && x != id) by {
            if post.has_joint_id(x) {
                let m = choose|m: int|
                    0 <= m < post.joints@.len() && (#[trigger] post.joints@[m]).0 == x;
                let src = if m < i {
                    m
                } else {
                    m + 1
                };
                assert(post.joints@[m] == pre.joints@[src]);
                assert(pre.has_joint_id(x));
                assert(x != id);
            }
            if pre.has_joint_id(x) && x != id {
                let m = choose|m: int|
                    0 <= m < pre.joints@.len() && (#[trigger] pre.joints@[m]).0 == x;
                assert(m != i);
                let dst = if m < i {
                    m
                } else {
                    m - 1
                };
                assert(post.joints@[dst] == pre.joints@[m]);
                assert(post.joints@[dst].0 == x);
                assert(post.has_joint_id(x));
            }
        }
        // well-formedness of the shrunk joint storage
        assert forall|m: int, l: int|
            0 <= m < l < post.joints@.len() implies (#[trigger] post.joints@[m]).0 != (
            #[trigger] post.joints@[l]).0 by {
            let sm = if m < i {
                m
            } else {
                m + 1
            };
            let sl = if l < i {
                l
            } else {
                l + 1
            };
            assert(post.joints@[m] == pre.joints@[sm]);
            assert(post.joints@[l] == pre.joints@[sl]);
            assert(pre.joints@[sm].0 != pre.joints@[sl].0);
        }
        // every kept link still connects present joints
        assert forall|k: int|
            0 <= k < post.links@.len() implies post.has_joint_id((#[trigger] post.links@[k]).0)
                && post.has_joint_id(post.links@[k].1) by {
            let src = choose|s: int|
                0 <= s < pre.links@.len() && pre.links@[s] == #[trigger] post.links@[k];
            assert(pre.has_joint_id(pre.links@[src].0) && pre.has_joint_id(pre.links@[src].1));
            assert(post.links@[k].0 != id && post.links@[k].1 != id);
            assert(pre.has_joint_id(post.links@[k].0) && post.links@[k].0 != id);
            assert(pre.has_joint_id(post.links@[k].1) && post.links@[k].1 != id);
        }
        assert(post.wf());
        // the joint map loses exactly `id`
        assert forall|x: u64|
            pre.jmap().remove(id).dom().contains(x) implies post.jmap()[x] == pre.jmap().remove(
                id,
            )[x] by {
            let m = choose|m: int|
                0 <= m < pre.joints@.len() && (#[trigger] pre.joints@[m]).0 == x;
            assert(m != i);
            let dst = if m < i {
                m
            } else {
                m - 1
            };
            assert(post.joints@[dst] == pre.joints@[m]);
            pre.lemma_jmap_at(m);
            post.lemma_jmap_at(dst);
        }
        assert(post.jmap() =~= pre.jmap().remove(id));
        // the link map keeps exactly the pairs that avoid `id`
        let goal = Map::new(
            |p: (u64, u64)| pre.lmap().dom().contains(p) && p.0 != id && p.1 != id,
            |p: (u64, u64)| pre.lmap()[p],
        );
        assert forall|p: (u64, u64)|
            post.lmap().dom().contains(p) <==> goal.dom().contains(p) by {
            if p == canon(p.0, p.1) && post.has_link_between(p.0, p.1) {
                let k = choose|k: int|
                    0 <= k < post.links@.len() && canon(
                        (#[trigger] post.links@[k]).0,
                        post.links@[k].1,
                    ) == canon(p.0, p.1);
                let src = choose|s: int|
                    0 <= s < pre.links@.len() && pre.links@[s] == post.links@[k];
                assert(canon(pre.links@[src].0, pre.links@[src].1) == canon(p.0, p.1));
                assert(pre.has_link_between(p.0, p.1));
                pre.lemma_lmap_at(src);
                assert(post.links@[k].0 != id && post.links@[k].1 != id);
                assert(p.0 != id && p.1 != id);
            }
            if p == canon(p.0, p.1) && pre.has_link_between(p.0, p.1) && p.0 != id && p.1 != id {
                let k = choose|k: int|
                    0 <= k < pre.links@.len() && canon(
                        (#[trigger] pre.links@[k]).0,
                        pre.links@[k].1,
                    ) == canon(p.0, p.1);
                assert(pre.links@[k].0 != id && pre.links@[k].1 != id);
                let l = choose|l: int|
                    0 <= l < post.links@.len() && post.links@[l] == pre.links@[k];
                assert(canon(post.links@[l].0, post.links@[l].1) == canon(p.0, p.1));
                assert(post.has_link_between(p.0, p.1));
            }
        }
        assert forall|p: (u64, u64)|
            post.lmap().dom().contains(p) implies post.lmap()[p] == goal[p] by {
            let k = choose|k: int|
                0 <= k < post.links@.len() && canon(
                    (#[trigger] post.links@[k]).0,
                    post.links@[k].1,
                ) == canon(p.0, p.1);
            let src = choose|s: int|
                0 <= s < pre.links@.len() && pre.links@[s] == post.links@[k];
            post.lemma_lmap_at(k);
            pre.lemma_lmap_at(src);
        }
        assert(post.lmap() =~= goal);
    }

    /// Remove the joint stored under `id`, with every link incident to it,
    /// and hand the joint back; fails, leaving the linkage exactly as it
    /// was, when `id` is absent.
    pub fn remove_joint(&mut self, id: u64) -> (r: Result<Joint, Error>)
        requires
            old(self).wf(),
        ensures
            final(self).wf(),
            final(self).dim == old(self).dim,
            final(self).ord == old(self).ord,
            !old(self).has_joint_id(id) ==> r == Err::<Joint, Error>(Error::FailedToRemoveJoint)
                && *final(self) == *old(self),
            old(self).has_joint_id(id) ==> (r matches Ok(j) && j@ == old(self).jmap()[id]
                && j.wf()) && final(self).jmap() == old(self).jmap().remove(id) && final(self).lmap() == Map::new(
                |p: (u64, u64)| old(self).lmap().dom().contains(p) && p.0 != id && p.1 != id,
                |p: (u64, u64)| old(self).lmap()[p],
            ),
    {
        match self.find_joint(id) {
            None => Err(Error::FailedToRemoveJoint),
            Some(i) => {
                proof {
                    self.lemma_jmap_at(i as int);
                }
                let entry = self.joints.remove(i);
                let ghost pre_links = self.links@;
                let mut k: usize = 0;
                let ghost mut p: int = 0;
                while k < self.links.len()
                    invariant
                        0 <= p <= pre_links.len(),
                        k == drop_incident(pre_links.take(p), id).len(),
                        self.links@ == drop_incident(pre_links.take(p), id) + pre_links.skip(p),
                        self.dim == old(self).dim,
                        self.ord == old(self).ord,
                        self.joints@ == old(self).joints@.remove(i as int),
                        i < old(self).joints@.len(),
                    decreases pre_links.len() - p,
                {
                    proof {
                        assert(self.links@.len() == k + (pre_links.len() - p));
                        assert(p < pre_links.len());
                        assert(self.links@[k as int] == pre_links[p]);
                        assert(pre_links.take(p + 1).drop_last() =~= pre_links.take(p));
                        assert(pre_links.take(p + 1).last() == pre_links[p]);
                    }
                    if self.links[k].0 == id || self.links[k].1 == id {
                        let _dropped = self.links.remove(k);
                        proof {
                            p = p + 1;
                            assert(drop_incident(pre_links.take(p), id) == drop_incident(
                                pre_links.take(p - 1),
                                id,
                            ));
                            assert(self.links@ =~= drop_incident(pre_links.take(p), id)
                                + pre_links.skip(p));
                        }
                    } else {
                        k = k + 1;
                        proof {
                            p = p + 1;
                            assert(drop_incident(pre_links.take(p), id) == drop_incident(
                                pre_links.take(p - 1),
                                id,
                            ).push(pre_links[p - 1]));
                            assert(self.links@ =~= drop_incident(pre_links.take(p), id)
                                + pre_links.skip(p));
                        }
                    }
                }
                proof {
                    assert(pre_links.len() - p <= self.links@.len());
                    assert(p == pre_links.len());
                    assert(pre_links.take(p) =~= pre_links);
                    assert(self.links@ =~= drop_incident(pre_links, id));
                    Self::lemma_remove_joint_maps(*old(self), *self, i as int, id);
                }
                Ok(entry.1)
            },
        }
    }

    /// The storage index of the joint with this id, if present.
    fn find_joint(&self, id: u64) -> (r: Option<usize>)
        ensures
            match r {
                Some(i) => i < self.joints@.len() && self.joints@[i as int].0 == id,
                None => !self.has_joint_id(id),
            },
    {
        let n = self.joints.len();
        for i in 0..n
            invariant
                n == self.joints@.len(),
                forall|k: int| 0 <= k < i ==> (#[trigger] self.joints@[k]).0 != id,
        {
            if self.joints[i].0 == id {
                return Some(i);
            }
        }
        None
    }

    /// The storage index of the link between `a` and `b`, if present.
    fn find_link(&self, a: u64, b: u64) -> (r: Option<usize>)
        ensures
            match r {
                Some(k) => k < self.links@.len() && canon(
                    self.links@[k as int].0,
                    self.links@[k as int].1,
                ) == canon(a, b),
                None => !self.has_link_between(a, b),
            },
    {
        let n = self.links.len();
        for k in 0..n
            invariant
                n == self.links@.len(),
                forall|l: int|
                    0 <= l < k ==> canon((#[trigger] self.links@[l]).0, self.links@[l].1)
                        != canon(a, b),
        {
            let ka = self.links[k].0;
            let kb = self.links[k].1;
            if (ka == a && kb == b) || (ka == b && kb == a) {
                return Some(k);
            }
        }
        None
    }

    /// Rewriting every joint in place, pointwise by `f`, rewrites the joint
    /// map pointwise by `f` and leaves everything else alone.
    proof fn lemma_batch_jmap(pre: Linkage, post: Linkage, f: spec_fn(JointView) -> JointView)
        requires
            pre.wf(),
            post.wf(),
            post.joints@.len() == pre.joints@.len(),
            forall|m: int|
                0 <= m < pre.joints@.len() ==> (#[trigger] post.joints@[m]).0
                    == pre.joints@[m].0,
            forall|m: int|
                0 <= m < pre.joints@.len() ==> (#[trigger] post.joints@[m]).1@ == f(
                    pre.joints@[m].1@,
                ),
            post.links@ == pre.links@,
        ensures
            post.jmap() == Map::new(
                |id: u64| pre.jmap().dom().contains(id),
                |id: u64| f(pre.jmap()[id]),
            ),
            post.lmap() == pre.lmap(),
    {
        assert forall|x: u64| post.has_joint_id(x) <==> pre.has_joint_id(x) by {
            if post.has_joint_id(x) {
                let m = choose|m: int|
                    0 <= m < post.joints@.len() && (#[trigger] post.joints@[m]).0 == x;
                assert(pre.joints@[m].0 == x);
                assert(pre.has_joint_id(x));
            }
            if pre.has_joint_id(x) {
                let m = choose|m: int|
                    0 <= m < pre.joints@.len() && (#[trigger] pre.joints@[m]).0 == x;
                assert(post.joints@[m].0 == x);
                assert(post.has_joint_id(x));
            }
        }
        assert forall|x: u64|
            pre.jmap().dom().contains(x) implies post.jmap()[x] == f(pre.jmap()[x]) by {
            let m = choose|m: int|
                0 <= m < pre.joints@.len() && (#[trigger] pre.joints@[m]).0 == x;
            pre.lemma_jmap_at(m);
            post.lemma_jmap_at(m);
        }
        assert(post.jmap() =~= Map::new(
            |id: u64| pre.jmap().dom().contains(id),
            |id: u64| f(pre.jmap()[id]),
        ));
        Self::lemma_same_links_lmap(pre, post);
    }

    /// Advance every joint by one forward Taylor step. Each joint's new
    /// state depends only on its own prior state, never on its neighbours
    /// or links, so no visitation order is observable in the result.
    pub fn update(&mut self, time_step: i64)
        requires
            old(self).wf(),
            forall|id: u64|
                old(self).jmap().dom().contains(id) ==> jv_step_fits(
                    #[trigger] old(self).jmap()[id],
                    time_step,
                ),
        ensures
            final(self).wf(),
            final(self).dim == old(self).dim,
            final(self).ord == old(self).ord,
            final(self).jmap() == stepped_jmap(old(self).jmap(), time_step),
            final(self).lmap() == old(self).lmap(),
    {
        let n = self.joints.len();
        for idx in 0..n
            invariant
                self.wf(),
                old(self).wf(),
                n == self.joints@.len(),
                n == old(self).joints@.len(),
                self.dim == old(self).dim,
                self.ord == old(self).ord,
                self.links@ == old(self).links@,
                forall|id: u64|
                    old(self).jmap().dom().contains(id) ==> jv_step_fits(
                        #[trigger] old(self).jmap()[id],
                        time_step,
                    ),
                forall|m: int|
                    0 <= m < n ==> (#[trigger] self.joints@[m]).0 == old(self).joints@[m].0,
                forall|m: int|
                    0 <= m < idx ==> (#[trigger] self.joints@[m]).1@ == jv_stepped(
                        old(self).joints@[m].1@,
                        time_step,
                    ),
                forall|m: int|
                    idx <= m < n ==> (#[trigger] self.joints@[m]).1 == old(self).joints@[m].1,
        {
            proof {
                old(self).lemma_jmap_at(idx as int);
                assert(jv_step_fits(self.joints@[idx as int].1@, time_step));
            }
            self.joints[idx].1.update(time_step);
            proof {
                assert(self.joints@[idx as int].1@.spatial.len() == self.ord + 1);
                assert(self.joints@[idx as int].1@.spatial[0].len() == self.dim);
                assert forall|k: int|
                    0 <= k < self.links@.len() implies self.has_joint_id(
                    (#[trigger] self.links@[k]).0) && self.has_joint_id(self.links@[k].1) by {
                    let w0 = choose|i: int|
                        0 <= i < old(self).joints@.len() && (#[trigger] old(self).joints@[i]).0
                            == old(self).links@[k].0;
                    assert(self.joints@[w0].0 == self.links@[k].0);
                    let w1 = choose|i: int|
                        0 <= i < old(self).joints@.len() && (#[trigger] old(self).joints@[i]).0
                            == old(self).links@[k].1;
                    assert(self.joints@[w1].0 == self.links@[k].1);
                }
                assert(self.wf());
            }
        }
        proof {
            Self::lemma_batch_jmap(
                *old(self),
                *self,
                |v: JointView| jv_stepped(v, time_step),
            );
            assert(self.jmap() =~= stepped_jmap(old(self).jmap(), time_step));
        }
    }

    /// Clamp every joint's full state with its own constraints. Clamping a
    /// joint reads nothing but that joint, so no visitation order is
    /// observable in the result.
    pub fn constrain_joints(&mut self)
        requires
            old(self).wf(),
        ensures
            final(self).wf(),
            final(self).dim == old(self).dim,
            final(self).ord == old(self).ord,
            final(self).jmap() == constrained_jmap(old(self).jmap()),
            final(self).lmap() == old(self).lmap(),
    {
        let n = self.joints.len();
        for idx in 0..n
            invariant
                self.wf(),
                old(self).wf(),
                n == self.joints@.len(),
                n == old(self).joints@.len(),
                self.dim == old(self).dim,
                self.ord == old(self).ord,
                self.links@ == old(self).links@,
                forall|m: int|
                    0 <= m < n ==> (#[trigger] self.joints@[m]).0 == old(self).joints@[m].0,
                forall|m: int|
                    0 <= m < idx ==> (#[trigger] self.joints@[m]).1@ == jv_constrained(
                        old(self).joints@[m].1@,
                    ),
                forall|m: int|
                    idx <= m < n ==> (#[trigger] self.joints@[m]).1 == old(self).joints@[m].1,
        {
            self.joints[idx].1.constrain();
            proof {
                assert(self.joints@[idx as int].1@.spatial.len() == self.ord + 1);
                assert(self.joints@[idx as int].1@.spatial[0].len() == self.dim);
                assert forall|k: int|
                    0 <= k < self.links@.len() implies self.has_joint_id(
                    (#[trigger] self.links@[k]).0) && self.has_joint_id(self.links@[k].1) by {
                    let w0 = choose|i: int|
                        0 <= i < old(self).joints@.len() && (#[trigger] old(self).joints@[i]).0
                            == old(self).links@[k].0;
                    assert(self.joints@[w0].0 == self.links@[k].0);
                    let w1 = choose|i: int|
                        0 <= i < old(self).joints@.len() && (#[trigger] old(self).joints@[i]).0
                            == old(self).links@[k].1;
                    assert(self.joints@[w1].0 == self.links@[k].1);
                }
                assert(self.wf());
            }
        }
        proof {
            Self::lemma_batch_jmap(*old(self), *self, |v: JointView| jv_constrained(v));
            assert(self.jmap() =~= constrained_jmap(old(self).jmap()));
        }
    }

    /// Clamp one spatial derivative order of every joint.
    fn constrain_joints_spatial_at(&mut self, k: usize)
        requires
            old(self).wf(),
            k <= old(self).ord,
        ensures
            final(self).wf(),
            final(self).dim == old(self).dim,
            final(self).ord == old(self).ord,
            final(self).jmap() == Map::new(
                |id: u64| old(self).jmap().dom().contains(id),
                |id: u64| jv_constrained_spatial_at(old(self).jmap()[id], k as int),
            ),
            final(self).lmap() == old(self).lmap(),
    {
        let n = self.joints.len();
        for idx in 0..n
            invariant
                self.wf(),
                old(self).wf(),
                k <= self.ord,
                n == self.joints@.len(),
                n == old(self).joints@.len(),
                self.dim == old(self).dim,
                self.ord == old(self).ord,
                self.links@ == old(self).links@,
                forall|m: int|
                    0 <= m < n ==> (#[trigger] self.joints@[m]).0 == old(self).joints@[m].0,
                forall|m: int|
                    0 <= m < idx ==> (#[trigger] self.joints@[m]).1@ == jv_constrained_spatial_at(
                        old(self).joints@[m].1@,
                        k as int,
                    ),
                forall|m: int|
                    idx <= m < n ==> (#[trigger] self.joints@[m]).1 == old(self).joints@[m].1,
        {
            self.joints[idx].1.constrain_spatial_at(k);
            proof {
                assert(self.joints@[idx as int].1@.spatial.len() == self.ord + 1);
                assert(self.joints@[idx as int].1@.spatial[0].len() == self.dim);
                assert forall|l: int|
                    0 <= l < self.links@.len() implies self.has_joint_id(
                    (#[trigger] self.links@[l]).0) && self.has_joint_id(self.links@[l].1) by {
                    let w0 = choose|i: int|
                        0 <= i < old(self).joints@.len() && (#[trigger] old(self).joints@[i]).0
                            == old(self).links@[l].0;
                    assert(self.joints@[w0].0 == self.links@[l].0);
                    let w1 = choose|i: int|
                        0 <= i < old(self).joints@.len() && (#[trigger] old(self).joints@[i]).0
                            == old(self).links@[l].1;
                    assert(self.joints@[w1].0 == self.links@[l].1);
                }
                assert(self.wf());
            }
        }
        proof {
            Self::lemma_batch_jmap(
                *old(self),
                *self,
                |v: JointView| jv_constrained_spatial_at(v, k as int),
            );
        }
    }

    /// Clamp one angular derivative order of every joint.
    fn constrain_joints_angular_at(&mut self, k: usize)
        requires
            old(self).wf(),
            k <= old(self).ord,
        ensures
            final(self).wf(),
            final(self).dim == old(self).dim,
            final(self).ord == old(self).ord,
            final(self).jmap() == Map::new(
                |id: u64| old(self).jmap().dom().contains(id),
                |id: u64| jv_constrained_angular_at(old(self).jmap()[id], k as int),
            ),
            final(self).lmap() == old(self).lmap(),
    {
        let n = self.joints.len();
        for idx in 0..n
            invariant
                self.wf(),
                old(self).wf(),
                k <= self.ord,
                n == self.joints@.len(),
                n == old(self).joints@.len(),
                self.dim == old(self).dim,
                self.ord == old(self).ord,
                self.links@ == old(self).links@,
                forall|m: int|
                    0 <= m < n ==> (#[trigger] self.joints@[m]).0 == old(self).joints@[m].0,
                forall|m: int|
                    0 <= m < idx ==> (#[trigger] self.joints@[m]).1@ == jv_constrained_angular_at(
                        old(self).joints@[m].1@,
                        k as int,
                    ),
                forall|m: int|
                    idx <= m < n ==> (#[trigger] self.joints@[m]).1 == old(self).joints@[m].1,
        {
            self.joints[idx].1.constrain_angular_at(k);
            proof {
                assert(self.joints@[idx as int].1@.spatial.len() == self.ord + 1);
                assert(self.joints@[idx as int].1@.spatial[0].len() == self.dim);
                assert forall|l: int|
                    0 <= l < self.links@.len() implies self.has_joint_id(
                    (#[trigger] self.links@[l]).0) && self.has_joint_id(self.links@[l].1) by {
                    let w0 = choose|i: int|
                        0 <= i < old(self).joints@.len() && (#[trigger] old(self).joints@[i]).0
                            == old(self).links@[l].0;
                    assert(self.joints@[w0].0 == self.links@[l].0);
                    let w1 = choose|i: int|
                        0 <= i < old(self).joints@.len() && (#[trigger] old(self).joints@[i]).0
                            == old(self).links@[l].1;
                    assert(self.joints@[w1].0 == self.links@[l].1);
                }
                assert(self.wf());
            }
        }
        proof {
            Self::lemma_batch_jmap(
                *old(self),
                *self,
                |v: JointView| jv_constrained_angular_at(v, k as int),
            );
        }
    }

    /// Clamp every joint's position with its order-0 spatial constraint.
    pub fn constrain_joint_positions(&mut self)
        requires
            old(self).wf(),
        ensures
            final(self).wf(),
            final(self).dim == old(self).dim,
            final(self).ord == old(self).ord,
            final(self).jmap() == Map::new(
                |id: u64| old(self).jmap().dom().contains(id),
                |id: u64| jv_constrained_spatial_at(old(self).jmap()[id], 0),
            ),
            final(self).lmap() == old(self).lmap(),
    {
        self.constrain_joints_spatial_at(0);
    }

    /// Clamp every joint's rotation with its order-0 angular constraint.
    pub fn constrain_joint_rotations(&mut self)
        requires
            old(self).wf(),
        ensures
            final(self).wf(),
            final(self).dim == old(self).dim,
            final(self).ord == old(self).ord,
            final(self).jmap() == Map::new(
                |id: u64| old(self).jmap().dom().contains(id),
                |id: u64| jv_constrained_angular_at(old(self).jmap()[id], 0),
            ),
            final(self).lmap() == old(self).lmap(),
    {
        self.constrain_joints_angular_at(0);
    }

    /// Clamp every joint's spatial velocity with its order-1 spatial constraint.
    pub fn constrain_joint_spatial_velocities(&mut self)
        requires
            old(self).wf(),
            old(self).ord >= 1,
        ensures
            final(self).wf(),
            final(self).dim == old(self).dim,
            final(self).ord == old(self).ord,
            final(self).jmap() == Map::new(
                |id: u64| old(self).jmap().dom().contains(id),
                |id: u64| jv_constrained_spatial_at(old(self).jmap()[id], 1),
            ),
            final(self).lmap() == old(self).lmap(),
    {
        self.constrain_joints_spatial_at(1);
    }

    /// Clamp every joint's angular velocity with its order-1 angular constraint.
    pub fn constrain_joint_angular_velocities(&mut self)
        requires
            old(self).wf(),
            old(self).ord >= 1,
        ensures
            final(self).wf(),
            final(self).dim == old(self).dim,
            final(self).ord == old(self).ord,
            final(self).jmap() == Map::new(
                |id: u64| old(self).jmap().dom().contains(id),
                |id: u64| jv_constrained_angular_at(old(self).jmap()[id], 1),
            ),
            final(self).lmap() == old(self).lmap(),
    {
        self.constrain_joints_angular_at(1);
    }

    /// Clamp every joint's spatial acceleration with its order-2 spatial constraint.
    pub fn constrain_joint_spatial_accelerations(&mut self)
        requires
            old(self).wf(),
            old(self).ord >= 2,
        ensures
            final(self).wf(),
            final(self).dim == old(self).dim,
            final(self).ord == old(self).ord,
            final(self).jmap() == Map::new(
                |id: u64| old(self).jmap().dom().contains(id),
                |id: u64| jv_constrained_spatial_at(old(self).jmap()[id], 2),
            ),
            final(self).lmap() == old(self).lmap(),
    {
        self.constrain_joints_spatial_at(2);
    }

    /// Clamp every joint's angular acceleration with its order-2 angular constraint.
    pub fn constrain_joint_angular_accelerations(&mut self)
        requires
            old(self).wf(),
            old(self).ord >= 2,
        ensures
            final(self).wf(),
            final(self).dim == old(self).dim,
            final(self).ord == old(self).ord,
            final(self).jmap() == Map::new(
                |id: u64| old(self).jmap().dom().contains(id),
                |id: u64| jv_constrained_angular_at(old(self).jmap()[id], 2),
            ),
            final(self).lmap() == old(self).lmap(),
    {
        self.constrain_joints_angular_at(2);
    }

    /// Clamp every joint's spatial jerk with its order-3 spatial constraint.
    pub fn constrain_joint_spatial_jerks(&mut self)
        requires
            old(self).wf(),
            old(self).ord >= 3,
        ensures
            final(self).wf(),
            final(self).dim == old(self).dim,
            final(self).ord == old(self).ord,
            final(self).jmap() == Map::new(
                |id: u64| old(self).jmap().dom().contains(id),
                |id: u64| jv_constrained_spatial_at(old(self).jmap()[id], 3),
            ),
            final(self).lmap() == old(self).lmap(),
    {
        self.constrain_joints_spatial_at(3);
    }

    /// Clamp every joint's angular jerk with its order-3 angular constraint.
    pub fn constrain_joint_angular_jerks(&mut self)
        requires
            old(self).wf(),
            old(self).ord >= 3,
        ensures
            final(self).wf(),
            final(self).dim == old(self).dim,
            final(self).ord == old(self).ord,
            final(self).jmap() == Map::new(
                |id: u64| old(self).jmap().dom().contains(id),
                |id: u64| jv_constrained_angular_at(old(self).jmap()[id], 3),
            ),
            final(self).lmap() == old(self).lmap(),
    {
        self.constrain_joints_angular_at(3);
    }

    /// Clamp every joint's spatial snap with its order-4 spatial constraint.
    pub fn constrain_joint_spatial_snaps(&mut self)
        requires
            old(self).wf(),
            old(self).ord >= 4,
        ensures
            final(self).wf(),
            final(self).dim == old(self).dim,
            final(self).ord == old(self).ord,
            final(self).jmap() == Map::new(
                |id: u64| old(self).jmap().dom().contains(id),
                |id: u64| jv_constrained_spatial_at(old(self).jmap()[id], 4),
            ),
            final(self).lmap() == old(self).lmap(),
    {
        self.constrain_joints_spatial_at(4);
    }

    /// Clamp every joint's angular snap with its order-4 angular constraint.
    pub fn constrain_joint_angular_snaps(&mut self)
        requires
            old(self).wf(),
            old(self).ord >= 4,
        ensures
            final(self).wf(),
            final(self).dim == old(self).dim,
            final(self).ord == old(self).ord,
            final(self).jmap() == Map::new(
                |id: u64| old(self).jmap().dom().contains(id),
                |id: u64| jv_constrained_angular_at(old(self).jmap()[id], 4),
            ),
            final(self).lmap() == old(self).lmap(),
    {
        self.constrain_joints_angular_at(4);
    }

    /// Clamp every joint's spatial crackle with its order-5 spatial constraint.
    pub fn constrain_joint_spatial_crackles(&mut self)
        requires
            old(self).wf(),
            old(self).ord >= 5,
        ensures
            final(self).wf(),
            final(self).dim == old(self).dim,
            final(self).ord == old(self).ord,
            final(self).jmap() == Map::new(
                |id: u64| old(self).jmap().dom().contains(id),
                |id: u64| jv_constrained_spatial_at(old(self).jmap()[id], 5),
            ),
            final(self).lmap() == old(self).lmap(),
    {
        self.constrain_joints_spatial_at(5);
    }

    /// Clamp every joint's angular crackle with its order-5 angular constraint.
    pub fn constrain_joint_angular_crackles(&mut self)
        requires
            old(self).wf(),
            old(self).ord >= 5,
        ensures
            final(self).wf(),
            final(self).dim == old(self).dim,
            final(self).ord == old(self).ord,
            final(self).jmap() == Map::new(
                |id: u64| old(self).jmap().dom().contains(id),
                |id: u64| jv_constrained_angular_at(old(self).jmap()[id], 5),
            ),
            final(self).lmap() == old(self).lmap(),
    {
        self.constrain_joints_angular_at(5);
    }

    /// Clamp every joint's spatial pop with its order-6 spatial constraint.
    pub fn constrain_joint_spatial_pops(&mut self)
        requires
            old(self).wf(),
            old(self).ord >= 6,
        ensures
            final(self).wf(),
            final(self).dim == old(self).dim,
            final(self).ord == old(self).ord,
            final(self).jmap() == Map::new(
                |id: u64| old(self).jmap().dom().contains(id),
                |id: u64| jv_constrained_spatial_at(old(self).jmap()[id], 6),
            ),
            final(self).lmap() == old(self).lmap(),
    {
        self.constrain_joints_spatial_at(6);
    }

    /// Clamp every joint's angular pop with its order-6 angular constraint.
    pub fn constrain_joint_angular_pops(&mut self)
        requires
            old(self).wf(),
            old(self).ord >= 6,
        ensures
            final(self).wf(),
            final(self).dim == old(self).dim,
            final(self).ord == old(self).ord,
            final(self).jmap() == Map::new(
                |id: u64| old(self).jmap().dom().contains(id),
                |id: u64| jv_constrained_angular_at(old(self).jmap()[id], 6),
            ),
            final(self).lmap() == old(self).lmap(),
    {
        self.constrain_joints_angular_at(6);
    }

    /// Every joint view held by a well-formed linkage is well-formed
    /// content.
    pub proof fn lemma_jmap_values_wf(self)
        requires
            self.wf(),
        ensures
            forall|id: u64|
                self.jmap().dom().contains(id) ==> jv_wf(#[trigger] self.jmap()[id]),
    {
        assert forall|id: u64|
            self.jmap().dom().contains(id) implies jv_wf(#[trigger] self.jmap()[id]) by {
            let m = choose|m: int|
                0 <= m < self.joints@.len() && (#[trigger] self.joints@[m]).0 == id;
            self.lemma_jmap_at(m);
            self.joints@[m].1.lemma_wf_view();
        }
    }
}

/// Law: after a batch update each joint's state is a function of that
/// joint's own prior state alone: two linkages that agree on one joint —
/// whatever else they hold, in whatever storage or visitation order, with
/// or without links — agree on that joint after updating by the same time
/// step.
pub proof fn lemma_update_order_independent(l1: Linkage, l2: Linkage, dt: i64, id: u64)
    requires
        l1.jmap().dom().contains(id),
        l2.jmap().dom().contains(id),
        l1.jmap()[id] == l2.jmap()[id],
    ensures
        stepped_jmap(l1.jmap(), dt).dom().contains(id),
        stepped_jmap(l2.jmap(), dt).dom().contains(id),
        stepped_jmap(l1.jmap(), dt)[id] == stepped_jmap(l2.jmap(), dt)[id],
{
}

/// Law: constraining every joint twice produces the same state as
/// constraining every joint once, whatever the constraint configuration.
pub proof fn lemma_constrain_joints_idempotent(l: Linkage)
    requires
        l.wf(),
    ensures
        constrained_jmap(constrained_jmap(l.jmap())) == constrained_jmap(l.jmap()),
{
    l.lemma_jmap_values_wf();
    let m = l.jmap();
    assert forall|id: u64|
        m.dom().contains(id) implies constrained_jmap(constrained_jmap(m))[id]
        == constrained_jmap(m)[id] by {
        crate::joint::lemma_jv_constrained_idempotent(m[id]);
    }
    assert(constrained_jmap(constrained_jmap(m)) =~= constrained_jmap(m));
}

} // verus!
