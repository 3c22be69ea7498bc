//! Which query nodes a coordinator can hand a query to.

use vstd::prelude::*;
use vstd::hash_map::StringHashMap;
use crate::text::has_name;
use crate::text::is_name_of;
use crate::text::lemma_filter_prefix_step;
use crate::text::str_eq;

verus! {

/// What a query node says of itself when it joins.
#[derive(Debug)]
pub struct QuerierMetadata {
    pub querier_id: String,
    pub domain_name: String,
    pub port: String,
    pub start_time: u128,
}

impl Clone for QuerierMetadata {
    fn clone(&self) -> (copy: Self)
        ensures
            copy == *self,
    {
        QuerierMetadata {
            querier_id: self.querier_id.clone(),
            domain_name: self.domain_name.clone(),
            port: self.port.clone(),
            start_time: self.start_time,
        }
    }
}

/// What the coordinator has noted about the work of a node.
#[derive(Debug)]
pub struct QueryNodeStats {
    pub ticket: String,
    pub start_time: u128,
    pub hottier_info: Option<Vec<String>>,
}

/// The nodes that the coordinator knows and those among them that are free
/// to take a query, each by its identifier.
pub struct QueryRouting {
    pub available_nodes: Vec<String>,
    pub stats: StringHashMap<QueryNodeStats>,
    pub info: Vec<QuerierMetadata>,
}

/// The coordinator itself: the server that answers queries and routes them.
#[derive(Clone, Copy, Debug, PartialEq, Eq, Structural)]
pub struct QueryServer;

/// Where a query goes.
#[derive(Debug)]
pub enum NodeChoice {
    /// To this node, which was available and is now taken.
    Available(QuerierMetadata),
    /// To this node, which is known but was not marked as available.
    Known(QuerierMetadata),
    /// No node is known: the coordinator has to look for nodes again, and
    /// answers the query itself if it finds none.
    NoneKnown,
}

/// The set of the texts of a list of names.
pub open spec fn named(names: Seq<String>) -> Set<Seq<char>> {
    Set::new(|name: Seq<char>| has_name(names, name))
}

/// Whether a node with the identifier `id` is among `info`.
pub open spec fn knows(info: Seq<QuerierMetadata>, id: Seq<char>) -> bool {
    exists|i: int| 0 <= i < info.len() && (#[trigger] info[i]).querier_id@ == id
}

/// Whether position `i` holds the first node with the identifier `id`.
pub open spec fn first_known_at(info: Seq<QuerierMetadata>, id: Seq<char>, i: int) -> bool {
    &&& 0 <= i < info.len()
    &&& info[i].querier_id@ == id
    &&& forall|j: int| 0 <= j < i ==> (#[trigger] info[j]).querier_id@ != id
}

/// Whether no name occurs twice.
pub open spec fn distinct_names(names: Seq<String>) -> bool {
    forall|i: int, j: int|
        0 <= i < j < names.len() ==> (#[trigger] names[i])@ != (#[trigger] names[j])@
}

/// Whether no identifier occurs twice.
pub open spec fn distinct_nodes(info: Seq<QuerierMetadata>) -> bool {
    forall|i: int, j: int|
        0 <= i < j < info.len() ==> (#[trigger] info[i]).querier_id@ != (
        #[trigger] info[j]).querier_id@
}

impl QueryRouting {
    /// No node is listed twice, and every available node is known.
    pub open spec fn wf(self) -> bool {
        &&& distinct_names(self.available_nodes@)
        &&& distinct_nodes(self.info@)
        &&& forall|i: int|
            0 <= i < self.available_nodes@.len() ==> knows(
                self.info@,
                (#[trigger] self.available_nodes@[i])@,
            )
    }

    /// A coordinator that knows no node.
    pub fn empty() -> (routing: QueryRouting)
        ensures
            routing.wf(),
            routing.available_nodes@.len() == 0,
            routing.info@.len() == 0,
            routing.stats@ == Map::<Seq<char>, QueryNodeStats>::empty(),
    {
        QueryRouting { available_nodes: Vec::new(), stats: StringHashMap::new(), info: Vec::new() }
    }

    /// Finds the first node with the identifier `id`.
    pub fn position(&self, id: &str) -> (found: Option<usize>)
        ensures
            match found {
                Some(i) => first_known_at(self.info@, id@, i as int),
                None => !knows(self.info@, id@),
            },
    {
        let mut i: usize = 0;
        while i < self.info.len()
            invariant
                i <= self.info.len(),
                forall|j: int| 0 <= j < i ==> (#[trigger] self.info@[j]).querier_id@ != id@,
            decreases self.info.len() - i,
        {
            if str_eq(self.info[i].querier_id.as_str(), id) {
                return Some(i);
            }
            i += 1;
        }
        None
    }

    fn mark_available(&mut self, node_id: String)
        ensures
            final(self).info@ == old(self).info@,
            final(self).stats@ == old(self).stats@,
            has_name(old(self).available_nodes@, node_id@) ==> final(self).available_nodes@ == old(self).available_nodes@,
            !has_name(old(self).available_nodes@, node_id@) ==> final(self).available_nodes@
                == old(self).available_nodes@.push(node_id),
            named(final(self).available_nodes@) == named(old(self).available_nodes@).insert(
                node_id@,
            ),
            distinct_names(old(self).available_nodes@) ==> distinct_names(
                final(self).available_nodes@,
            ),
    {
        if !is_name_of(&self.available_nodes, node_id.as_str()) {
            self.available_nodes.push(node_id);
            proof {
                let n = old(self).available_nodes@.len() as int;
                assert(self.available_nodes@[n] == node_id);
                assert forall|name: Seq<char>|
                    has_name(self.available_nodes@, name) <==> has_name(
                        old(self).available_nodes@,
                        name,
                    ) || name == node_id@ by {
                    if has_name(old(self).available_nodes@, name) {
                        let k = choose|k: int|
                            0 <= k < n && (#[trigger] old(self).available_nodes@[k])@ == name;
                        assert(self.available_nodes@[k]@ == name);
                    }
                    if has_name(self.available_nodes@, name) {
                        let k = choose|k: int|
                            0 <= k < n + 1 && (#[trigger] self.available_nodes@[k])@ == name;
                        if k < n {
                            assert(old(self).available_nodes@[k]@ == name);
                        }
                    }
                }
                assert(named(self.available_nodes@) =~= named(old(self).available_nodes@).insert(
                    node_id@,
                ));
                if distinct_names(old(self).available_nodes@) {
                    assert forall|i: int, j: int|
                        0 <= i < j < self.available_nodes@.len() implies (
                    #[trigger] self.available_nodes@[i])@ != (#[trigger] self.available_nodes@[j])@ by {
                        assert(self.available_nodes@[i] == old(self).available_nodes@[i]);
                        if j < n {
                            assert(self.available_nodes@[j] == old(self).available_nodes@[j]);
                        }
                    }
                }
            }
        } else {
            proof {
                assert(named(self.available_nodes@) =~= named(old(self).available_nodes@).insert(
                    node_id@,
                ));
            }
        }
    }

    /// Notes what a node says of itself, in place of what was known of it,
    /// and marks the node as available.
    pub fn append_querier_info(&mut self, node: QuerierMetadata)
        ensures
            final(self).stats@ == old(self).stats@,
            !knows(old(self).info@, node.querier_id@) ==> final(self).info@ == old(self).info@.push(node),
            forall|i: int|
                first_known_at(old(self).info@, node.querier_id@, i) ==> final(self).info@ == old(self).info@.update(i, node),
            named(final(self).available_nodes@) == named(old(self).available_nodes@).insert(
                node.querier_id@,
            ),
            !has_name(old(self).available_nodes@, node.querier_id@) ==> final(self).available_nodes@ == old(self).available_nodes@.push(node.querier_id),
            has_name(old(self).available_nodes@, node.querier_id@) ==> final(self).available_nodes@ == old(self).available_nodes@,
            old(self).wf() ==> final(self).wf(),
    {
        let node_id = node.querier_id.clone();
        let ghost n = old(self).info@.len() as int;
        match self.position(node_id.as_str()) {
            Some(i) => {
                self.info.set(i, node);
            },
            None => {
                self.info.push(node);
            },
        }
        proof {
            assert(self.info@.len() >= n);
            assert forall|k: int| 0 <= k < n implies (#[trigger] self.info@[k]).querier_id@ == old(self).info@[k].querier_id@ by {}
            assert(knows(self.info@, node.querier_id@)) by {
                if knows(old(self).info@, node.querier_id@) {
                    let i = choose|i: int| first_known_at(old(self).info@, node.querier_id@, i);
                    assert(self.info@[i].querier_id@ == node.querier_id@);
                } else {
                    assert(self.info@[n].querier_id@ == node.querier_id@);
                }
            }
            assert forall|name: Seq<char>| knows(old(self).info@, name) implies knows(
                self.info@,
                name,
            ) by {
                let k = choose|k: int| 0 <= k < n && (#[trigger] old(self).info@[k]).querier_id@ == name;
                assert(self.info@[k].querier_id@ == name);
            }
        }
        let ghost info_now = self.info@;
        self.mark_available(node_id);
        proof {
            if old(self).wf() {
                assert forall|i: int, j: int| 0 <= i < j < info_now.len() implies (
                #[trigger] info_now[i]).querier_id@ != (#[trigger] info_now[j]).querier_id@ by {
                    if j < n {
                        assert(old(self).info@[i].querier_id@ != old(self).info@[j].querier_id@);
                    } else {
                        assert(info_now[i].querier_id@ == old(self).info@[i].querier_id@);
                    }
                }
                assert forall|i: int| 0 <= i < self.available_nodes@.len() implies knows(
                    self.info@,
                    (#[trigger] self.available_nodes@[i])@,
                ) by {
                    if i < old(self).available_nodes@.len() {
                        assert(self.available_nodes@[i] == old(self).available_nodes@[i]);
                        assert(knows(old(self).info@, old(self).available_nodes@[i]@));
                    }
                }
            }
        }
    }

    /// Marks a node as available again.
    pub fn reinstate_node(&mut self, node: QuerierMetadata)
        ensures
            final(self).info@ == old(self).info@,
            final(self).stats@ == old(self).stats@,
            named(final(self).available_nodes@) == named(old(self).available_nodes@).insert(
                node.querier_id@,
            ),
            !has_name(old(self).available_nodes@, node.querier_id@) ==> final(self).available_nodes@ == old(self).available_nodes@.push(node.querier_id),
            has_name(old(self).available_nodes@, node.querier_id@) ==> final(self).available_nodes@ == old(self).available_nodes@,
            old(self).wf() && knows(old(self).info@, node.querier_id@) ==> final(self).wf(),
    {
        self.mark_available(node.querier_id);
        proof {
            if old(self).wf() && knows(old(self).info@, node.querier_id@) {
                assert forall|i: int| 0 <= i < self.available_nodes@.len() implies knows(
                    self.info@,
                    (#[trigger] self.available_nodes@[i])@,
                ) by {
                    if i < old(self).available_nodes@.len() {
                        assert(self.available_nodes@[i] == old(self).available_nodes@[i]);
                    }
                }
            }
        }
    }

    /// Picks the node for the next query: the available node that was marked
    /// last, which is then no longer available; where none is available, the
    /// node that has been known longest; and none where no node is known.
    pub fn get_query_node(&mut self) -> (choice: NodeChoice)
        requires
            old(self).wf(),
        ensures
            final(self).wf(),
            final(self).info@ == old(self).info@,
            final(self).stats@ == old(self).stats@,
            old(self).available_nodes@.len() > 0 ==> final(self).available_nodes@ == old(self).available_nodes@.drop_last() && exists|i: int|
                first_known_at(old(self).info@, old(self).available_nodes@.last()@, i) && choice
                    == NodeChoice::Available(old(self).info@[i]),
            old(self).available_nodes@.len() == 0 ==> final(self).available_nodes@ == old(self).available_nodes@,
            old(self).available_nodes@.len() == 0 && old(self).info@.len() > 0 ==> choice
                == NodeChoice::Known(old(self).info@[0]),
            old(self).available_nodes@.len() == 0 && old(self).info@.len() == 0 ==> choice
                == NodeChoice::NoneKnown,
    {
        match self.available_nodes.pop() {
            Some(node_id) => {
                proof {
                    let n = old(self).available_nodes@.len() as int;
                    assert(node_id == old(self).available_nodes@[n - 1]);
                    assert(knows(self.info@, node_id@));
                    assert forall|i: int| 0 <= i < self.available_nodes@.len() implies knows(
                        self.info@,
                        (#[trigger] self.available_nodes@[i])@,
                    ) by {
                        assert(self.available_nodes@[i] == old(self).available_nodes@[i]);
                    }
                    assert forall|i: int, j: int|
                        0 <= i < j < self.available_nodes@.len() implies (
                    #[trigger] self.available_nodes@[i])@ != (#[trigger] self.available_nodes@[j])@ by {
                        assert(self.available_nodes@[i] == old(self).available_nodes@[i]);
                        assert(self.available_nodes@[j] == old(self).available_nodes@[j]);
                    }
                }
                proof {
                    assert(self.available_nodes@ =~= old(self).available_nodes@.drop_last());
                    assert(node_id@ == old(self).available_nodes@.last()@);
                }
                match self.position(node_id.as_str()) {
                    Some(i) => {
                        let node = self.info[i].clone();
                        proof {
                            assert(first_known_at(
                                old(self).info@,
                                old(self).available_nodes@.last()@,
                                i as int,
                            ));
                        }
                        NodeChoice::Available(node)
                    },
                    None => NodeChoice::NoneKnown,
                }
            },
            None => {
                if self.info.len() > 0 {
                    NodeChoice::Known(self.info[0].clone())
                } else {
                    NodeChoice::NoneKnown
                }
            },
        }
    }

    /// Forgets the nodes that were found dead: they leave the known nodes,
    /// the available nodes and the statistics. The other nodes stay in their
    /// order.
    pub fn remove_dead_nodes(&mut self, dead: &Vec<String>)
        ensures
            final(self).info@ == old(self).info@.filter(
                |node: QuerierMetadata| !has_name(dead@, node.querier_id@),
            ),
            final(self).available_nodes@ == old(self).available_nodes@.filter(
                |name: String| !has_name(dead@, name@),
            ),
            final(self).stats@ == old(self).stats@.remove_keys(named(dead@)),
            old(self).wf() ==> final(self).wf(),
    {
        let ghost alive = |node: QuerierMetadata| !has_name(dead@, node.querier_id@);
        let ghost free = |name: String| !has_name(dead@, name@);
        let mut info: Vec<QuerierMetadata> = Vec::new();
        let mut i: usize = 0;
        while i < self.info.len()
            invariant
                i <= self.info.len(),
                *self == *old(self),
                alive == (|node: QuerierMetadata| !has_name(dead@, node.querier_id@)),
                info@ == self.info@.subrange(0, i as int).filter(alive),
                forall|k: int|
                    0 <= k < info@.len() ==> exists|j: int|
                        0 <= j < i && self.info@[j] == #[trigger] info@[k],
                distinct_nodes(self.info@) ==> distinct_nodes(info@),
            decreases self.info.len() - i,
        {
            proof {
                lemma_filter_prefix_step(self.info@, i as int, alive);
            }
            let ghost before = info@;
            if !is_name_of(dead, self.info[i].querier_id.as_str()) {
                info.push(self.info[i].clone());
                proof {
                    let n = before.len() as int;
                    assert(info@[n] == self.info@[i as int]);
                    assert forall|k: int| 0 <= k < info@.len() implies exists|j: int|
                        0 <= j < i + 1 && self.info@[j] == #[trigger] info@[k] by {
                        if k < n {
                            assert(info@[k] == before[k]);
                            let j = choose|j: int| 0 <= j < i && self.info@[j] == before[k];
                            assert(self.info@[j] == info@[k]);
                        } else {
                            assert(self.info@[i as int] == info@[k]);
                        }
                    }
                    if distinct_nodes(self.info@) {
                        assert forall|a: int, b: int| 0 <= a < b < info@.len() implies (
                        #[trigger] info@[a]).querier_id@ != (#[trigger] info@[b]).querier_id@ by {
                            assert(info@[a] == before[a]);
                            if b < n {
                                assert(info@[b] == before[b]);
                            } else {
                                let j = choose|j: int| 0 <= j < i && self.info@[j] == before[a];
                                assert(self.info@[j].querier_id@ != self.info@[i as int].querier_id@);
                            }
                        }
                    }
                }
            } else {
                proof {
                    assert forall|k: int| 0 <= k < info@.len() implies exists|j: int|
                        0 <= j < i + 1 && self.info@[j] == #[trigger] info@[k] by {
                        let j = choose|j: int| 0 <= j < i && self.info@[j] == info@[k];
                        assert(self.info@[j] == info@[k]);
                    }
                }
            }
            i += 1;
        }
        proof {
            assert(self.info@.subrange(0, i as int) =~= self.info@);
        }
        let mut available: Vec<String> = Vec::new();
        let mut a: usize = 0;
        while a < self.available_nodes.len()
            invariant
                a <= self.available_nodes.len(),
                *self == *old(self),
                free == (|name: String| !has_name(dead@, name@)),
                available@ == self.available_nodes@.subrange(0, a as int).filter(free),
                forall|k: int|
                    0 <= k < available@.len() ==> !has_name(dead@, (#[trigger] available@[k])@)
                        && exists|j: int| 0 <= j < a && self.available_nodes@[j] == available@[k],
                distinct_names(self.available_nodes@) ==> distinct_names(available@),
            decreases self.available_nodes.len() - a,
        {
            proof {
                lemma_filter_prefix_step(self.available_nodes@, a as int, free);
            }
            let ghost before = available@;
            if !is_name_of(dead, self.available_nodes[a].as_str()) {
                available.push(self.available_nodes[a].clone());
                proof {
                    let n = before.len() as int;
                    assert(available@[n] == self.available_nodes@[a as int]);
                    assert forall|k: int| 0 <= k < available@.len() implies !has_name(
                        dead@,
                        (#[trigger] available@[k])@,
                    ) && exists|j: int|
                        0 <= j < a + 1 && self.available_nodes@[j] == available@[k] by {
                        if k < n {
                            assert(available@[k] == before[k]);
                            let j = choose|j: int|
                                0 <= j < a && self.available_nodes@[j] == before[k];
                            assert(self.available_nodes@[j] == available@[k]);
                        } else {
                            assert(self.available_nodes@[a as int] == available@[k]);
                        }
                    }
                    if distinct_names(self.available_nodes@) {
                        assert forall|x: int, y: int| 0 <= x < y < available@.len() implies (
                        #[trigger] available@[x])@ != (#[trigger] available@[y])@ by {
                            assert(available@[x] == before[x]);
                            if y < n {
                                assert(available@[y] == before[y]);
                            } else {
                                let j = choose|j: int|
                                    0 <= j < a && self.available_nodes@[j] == before[x];
                                let last = self.available_nodes@[a as int];
                                assert(self.available_nodes@[j]@ != last@);
                            }
                        }
                    }
                }
            } else {
                proof {
                    assert forall|k: int| 0 <= k < available@.len() implies !has_name(
                        dead@,
                        (#[trigger] available@[k])@,
                    ) && exists|j: int|
                        0 <= j < a + 1 && self.available_nodes@[j] == available@[k] by {
                        let j = choose|j: int|
                            0 <= j < a && self.available_nodes@[j] == available@[k];
                        assert(self.available_nodes@[j] == available@[k]);
                    }
                }
            }
            a += 1;
        }
        proof {
            assert(self.available_nodes@.subrange(0, a as int) =~= self.available_nodes@);
            if old(self).wf() {
                assert forall|k: int| 0 <= k < available@.len() implies knows(
                    info@,
                    (#[trigger] available@[k])@,
                ) by {
                    let name = available@[k]@;
                    let j = choose|j: int|
                        0 <= j < a && self.available_nodes@[j] == available@[k];
                    assert(knows(self.info@, self.available_nodes@[j]@));
                    let m = choose|m: int|
                        0 <= m < self.info@.len() && (#[trigger] self.info@[m]).querier_id@ == name;
                    assert(alive(self.info@[m]));
                    self.info@.lemma_filter_contains(alive, m);
                    let w = choose|w: int| 0 <= w < info@.len() && info@[w] == self.info@[m];
                    assert(info@[w].querier_id@ == name);
                }
            }
        }
        self.info = info;
        self.available_nodes = available;
        let mut d: usize = 0;
        proof {
            assert(self.stats@ =~= old(self).stats@.remove_keys(named(dead@.subrange(0, 0))));
        }
        while d < dead.len()
            invariant
                d <= dead.len(),
                self.info@ == info@,
                self.available_nodes@ == available@,
                self.stats@ == old(self).stats@.remove_keys(named(dead@.subrange(0, d as int))),
            decreases dead.len() - d,
        {
            self.stats.remove(dead[d].as_str());
            proof {
                let shorter = named(dead@.subrange(0, d as int));
                let longer = named(dead@.subrange(0, d + 1));
                assert forall|name: Seq<char>| longer.contains(name) <==> shorter.contains(name)
                    || name == dead@[d as int]@ by {
                    if shorter.contains(name) {
                        let k = choose|k: int|
                            0 <= k < d && (#[trigger] dead@.subrange(0, d as int)[k])@ == name;
                        assert(dead@.subrange(0, d + 1)[k]@ == name);
                    }
                    if name == dead@[d as int]@ {
                        assert(dead@.subrange(0, d + 1)[d as int]@ == name);
                    }
                    if longer.contains(name) {
                        let k = choose|k: int|
                            0 <= k < d + 1 && (#[trigger] dead@.subrange(0, d + 1)[k])@ == name;
                        if k < d {
                            assert(dead@.subrange(0, d as int)[k]@ == name);
                        }
                    }
                }
                assert(self.stats@ =~= old(self).stats@.remove_keys(longer));
            }
            d += 1;
        }
        proof {
            assert(dead@.subrange(0, d as int) =~= dead@);
        }
    }
}

} // verus!
