use vstd::prelude::*;

verus! {

/// A node of the network: its id and, where known, its IPv4 address and port.
pub struct QuorumNode {
    pub node_id: String,
    pub ip_addr: Option<(u32, u16)>,
}

pub struct QuorumNodeView {
    pub node_id: Seq<char>,
    pub ip_addr: Option<(u32, u16)>,
}

impl View for QuorumNode {
    type V = QuorumNodeView;

    open spec fn view(&self) -> QuorumNodeView {
        QuorumNodeView { node_id: self.node_id@, ip_addr: self.ip_addr }
    }
}

/// A quorum slice: a set of nodes that together can convince the local node.
pub struct QuorumSlice {
    pub data: Vec<QuorumNode>,
}

impl View for QuorumSlice {
    type V = Seq<QuorumNodeView>;

    open spec fn view(&self) -> Seq<QuorumNodeView> {
        self.data@.map_values(|n: QuorumNode| n@)
    }
}

/// The quorum slices of a node.
pub struct QuorumSet {
    pub slices: Vec<QuorumSlice>,
    pub threshold: u32,
}

pub struct QuorumSetView {
    pub slices: Seq<Seq<QuorumNodeView>>,
    pub threshold: u32,
}

impl View for QuorumSet {
    type V = QuorumSetView;

    open spec fn view(&self) -> QuorumSetView {
        QuorumSetView {
            slices: self.slices@.map_values(|s: QuorumSlice| s@),
            threshold: self.threshold,
        }
    }
}

/// The slice holds a node of `nodes`.
pub open spec fn slice_meets(s: Seq<QuorumNodeView>, nodes: Seq<Seq<char>>) -> bool {
    exists|i: int| 0 <= i < s.len() && nodes.contains(#[trigger] s[i].node_id)
}

/// Every node of the slice is in `nodes`.
pub open spec fn slice_within(s: Seq<QuorumNodeView>, nodes: Seq<Seq<char>>) -> bool {
    forall|i: int| 0 <= i < s.len() ==> nodes.contains(#[trigger] s[i].node_id)
}

/// `nodes` is v-blocking for a node with quorum set `q`: `q` has slices and
/// every one of them holds a node of `nodes`.
pub open spec fn is_v_blocking_spec(q: QuorumSetView, nodes: Seq<Seq<char>>) -> bool {
    &&& q.slices.len() > 0
    &&& forall|j: int| 0 <= j < q.slices.len() ==> slice_meets(#[trigger] q.slices[j], nodes)
}

/// Some slice of `q` lies within `nodes`.
pub open spec fn is_quorum_slice_spec(q: QuorumSetView, nodes: Seq<Seq<char>>) -> bool {
    exists|j: int| 0 <= j < q.slices.len() && slice_within(#[trigger] q.slices[j], nodes)
}

/// `nodes` is a quorum: it is not empty, and every member, whose quorum set is
/// `qsets[i]`, has a known quorum set with a slice inside `nodes`.
pub open spec fn nodes_form_quorum_spec(
    qsets: Seq<Option<QuorumSetView>>,
    nodes: Seq<Seq<char>>,
) -> bool {
    &&& nodes.len() > 0
    &&& qsets.len() == nodes.len()
    &&& forall|i: int|
        0 <= i < nodes.len() ==> (#[trigger] qsets[i] matches Some(q) && is_quorum_slice_spec(
            q,
            nodes,
        ))
}

pub open spec fn ids_of(nodes: Seq<String>) -> Seq<Seq<char>> {
    nodes.map_values(|s: String| s@)
}

/// Whether `id` is among `nodes`.
pub fn contains_node_id(nodes: &Vec<String>, id: &String) -> (r: bool)
    ensures
        r == ids_of(nodes@).contains(id@),
{
    let mut i: usize = 0;
    while i < nodes.len()
        invariant
            i <= nodes@.len(),
            forall|j: int| 0 <= j < i ==> nodes@[j]@ != id@,
        decreases nodes@.len() - i,
    {
        if nodes[i] == *id {
            assert(ids_of(nodes@)[i as int] == id@);
            return true;
        }
        i = i + 1;
    }
    proof {
        if ids_of(nodes@).contains(id@) {
            let j = choose|j: int| 0 <= j < ids_of(nodes@).len() && ids_of(nodes@)[j] == id@;
            assert(nodes@[j]@ == id@);
        }
    }
    false
}

/// Whether the slice holds a node of `nodes`.
fn slice_meets_nodes(s: &QuorumSlice, nodes: &Vec<String>) -> (r: bool)
    ensures
        r == slice_meets(s@, ids_of(nodes@)),
{
    let mut i: usize = 0;
    while i < s.data.len()
        invariant
            i <= s.data@.len(),
            forall|j: int| 0 <= j < i ==> !ids_of(nodes@).contains(#[trigger] s@[j].node_id),
        decreases s.data@.len() - i,
    {
        if contains_node_id(nodes, &s.data[i].node_id) {
            assert(s@[i as int].node_id == s.data@[i as int].node_id@);
            return true;
        }
        i = i + 1;
    }
    false
}

/// Whether every node of the slice is in `nodes`.
fn slice_within_nodes(s: &QuorumSlice, nodes: &Vec<String>) -> (r: bool)
    ensures
        r == slice_within(s@, ids_of(nodes@)),
{
    let mut i: usize = 0;
    while i < s.data.len()
        invariant
            i <= s.data@.len(),
            forall|j: int| 0 <= j < i ==> ids_of(nodes@).contains(#[trigger] s@[j].node_id),
        decreases s.data@.len() - i,
    {
        if !contains_node_id(nodes, &s.data[i].node_id) {
            assert(s@[i as int].node_id == s.data@[i as int].node_id@);
            return false;
        }
        i = i + 1;
    }
    true
}

/// Whether `nodes` is v-blocking for a node whose quorum set is `quorum_set`.
pub fn is_v_blocking(quorum_set: &QuorumSet, nodes: &Vec<String>) -> (r: bool)
    ensures
        r == is_v_blocking_spec(quorum_set@, ids_of(nodes@)),
{
    if quorum_set.slices.len() == 0 {
        return false;
    }
    let mut j: usize = 0;
    while j < quorum_set.slices.len()
        invariant
            j <= quorum_set.slices@.len(),
            forall|k: int|
                0 <= k < j ==> slice_meets(#[trigger] quorum_set@.slices[k], ids_of(nodes@)),
        decreases quorum_set.slices@.len() - j,
    {
        if !slice_meets_nodes(&quorum_set.slices[j], nodes) {
            assert(!slice_meets(quorum_set@.slices[j as int], ids_of(nodes@)));
            return false;
        }
        j = j + 1;
    }
    true
}

/// Whether some slice of `quorum_set` lies inside `nodes`.
pub fn is_quorum_slice(quorum_set: &QuorumSet, nodes: &Vec<String>) -> (r: bool)
    ensures
        r == is_quorum_slice_spec(quorum_set@, ids_of(nodes@)),
{
    let mut j: usize = 0;
    while j < quorum_set.slices.len()
        invariant
            j <= quorum_set.slices@.len(),
            forall|k: int|
                0 <= k < j ==> !slice_within(#[trigger] quorum_set@.slices[k], ids_of(nodes@)),
        decreases quorum_set.slices@.len() - j,
    {
        if slice_within_nodes(&quorum_set.slices[j], nodes) {
            assert(slice_within(quorum_set@.slices[j as int], ids_of(nodes@)));
            return true;
        }
        j = j + 1;
    }
    false
}

/// Whether `nodes` forms a quorum, `quorum_sets[i]` being what is known of the
/// quorum set of `nodes[i]`.
pub fn nodes_form_quorum(quorum_sets: &Vec<Option<QuorumSet>>, nodes: &Vec<String>) -> (r: bool)
    requires
        quorum_sets@.len() == nodes@.len(),
    ensures
        r == nodes_form_quorum_spec(
            quorum_sets@.map_values(|q: Option<QuorumSet>| opt_qset_view(q)),
            ids_of(nodes@),
        ),
{
    let ghost qv = quorum_sets@.map_values(|q: Option<QuorumSet>| opt_qset_view(q));
    if nodes.len() == 0 {
        return false;
    }
    let mut i: usize = 0;
    while i < nodes.len()
        invariant
            i <= nodes@.len(),
            quorum_sets@.len() == nodes@.len(),
            qv == quorum_sets@.map_values(|q: Option<QuorumSet>| opt_qset_view(q)),
            forall|k: int|
                0 <= k < i ==> (#[trigger] qv[k] matches Some(q) && is_quorum_slice_spec(
                    q,
                    ids_of(nodes@),
                )),
        decreases nodes@.len() - i,
    {
        match &quorum_sets[i] {
            Some(q) => {
                if !is_quorum_slice(q, nodes) {
                    assert(qv[i as int] == Some(q@));
                    return false;
                }
                assert(qv[i as int] == Some(q@));
            },
            None => {
                assert(qv[i as int] is None);
                return false;
            },
        }
        i = i + 1;
    }
    true
}

pub open spec fn opt_qset_view(q: Option<QuorumSet>) -> Option<QuorumSetView> {
    match q {
        Some(q) => Some(q@),
        None => None,
    }
}

} // verus!

verus! {

impl Clone for QuorumNode {
    fn clone(&self) -> (r: Self)
        ensures
            r@ == self@,
    {
        QuorumNode { node_id: self.node_id.clone(), ip_addr: self.ip_addr }
    }
}

impl Clone for QuorumSlice {
    fn clone(&self) -> (r: Self)
        ensures
            r@ == self@,
    {
        let mut data: Vec<QuorumNode> = Vec::new();
        let mut i: usize = 0;
        while i < self.data.len()
            invariant
                i <= self.data@.len(),
                data@.len() == i,
                forall|j: int| 0 <= j < i ==> (#[trigger] data@[j])@ == self.data@[j]@,
            decreases self.data@.len() - i,
        {
            data.push(self.data[i].clone());
            i = i + 1;
        }
        let r = QuorumSlice { data };
        assert(r@ =~= self@);
        r
    }
}

impl Clone for QuorumSet {
    fn clone(&self) -> (r: Self)
        ensures
            r@ == self@,
    {
        let mut slices: Vec<QuorumSlice> = Vec::new();
        let mut i: usize = 0;
        while i < self.slices.len()
            invariant
                i <= self.slices@.len(),
                slices@.len() == i,
                forall|j: int| 0 <= j < i ==> (#[trigger] slices@[j])@ == self.slices@[j]@,
            decreases self.slices@.len() - i,
        {
            slices.push(self.slices[i].clone());
            i = i + 1;
        }
        let r = QuorumSet { slices, threshold: self.threshold };
        assert(r@.slices =~= self@.slices);
        r
    }
}

pub fn clone_opt_qset(q: &Option<QuorumSet>) -> (r: Option<QuorumSet>)
    ensures
        opt_qset_view(r) == opt_qset_view(*q),
{
    match q {
        Some(q) => Some(q.clone()),
        None => None,
    }
}

impl QuorumNode {
    pub fn eq_node(&self, other: &Self) -> (r: bool)
        ensures
            r == (self@ == other@),
    {
        self.node_id == other.node_id && self.ip_addr == other.ip_addr
    }
}

impl QuorumSlice {
    pub fn eq_slice(&self, other: &Self) -> (r: bool)
        ensures
            r == (self@ == other@),
    {
        if self.data.len() != other.data.len() {
            assert(self@.len() != other@.len());
            return false;
        }
        let mut i: usize = 0;
        while i < self.data.len()
            invariant
                i <= self.data@.len(),
                self.data@.len() == other.data@.len(),
                forall|j: int| 0 <= j < i ==> self@[j] == other@[j],
            decreases self.data@.len() - i,
        {
            if !self.data[i].eq_node(&other.data[i]) {
                assert(self@[i as int] != other@[i as int]);
                return false;
            }
            i = i + 1;
        }
        assert(self@ =~= other@);
        true
    }
}

impl QuorumSet {
    pub fn eq_set(&self, other: &Self) -> (r: bool)
        ensures
            r == (self@ == other@),
    {
        if self.threshold != other.threshold || self.slices.len() != other.slices.len() {
            assert(self@.slices.len() != other@.slices.len() || self@.threshold != other@.threshold);
            return false;
        }
        let mut i: usize = 0;
        while i < self.slices.len()
            invariant
                i <= self.slices@.len(),
                self.slices@.len() == other.slices@.len(),
                forall|j: int| 0 <= j < i ==> self@.slices[j] == other@.slices[j],
            decreases self.slices@.len() - i,
        {
            if !self.slices[i].eq_slice(&other.slices[i]) {
                assert(self@.slices[i as int] != other@.slices[i as int]);
                return false;
            }
            i = i + 1;
        }
        assert(self@.slices =~= other@.slices);
        true
    }
}

pub fn eq_opt_qset(a: &Option<QuorumSet>, b: &Option<QuorumSet>) -> (r: bool)
    ensures
        r == (opt_qset_view(*a) == opt_qset_view(*b)),
{
    match (a, b) {
        (Some(x), Some(y)) => x.eq_set(y),
        (None, None) => true,
        _ => false,
    }
}

} // verus!

verus! {

/// Adding nodes never undoes v-blocking: a set that contains a v-blocking set
/// is v-blocking.
pub proof fn law_v_blocking_monotone(q: QuorumSetView, a: Seq<Seq<char>>, b: Seq<Seq<char>>)
    requires
        forall|x: Seq<char>| #[trigger] a.contains(x) ==> b.contains(x),
        is_v_blocking_spec(q, a),
    ensures
        is_v_blocking_spec(q, b),
{
    assert forall|j: int| 0 <= j < q.slices.len() implies slice_meets(#[trigger] q.slices[j], b) by {
        assert(slice_meets(q.slices[j], a));
        let i = choose|i: int| 0 <= i < q.slices[j].len() && a.contains(#[trigger] q.slices[j][i].node_id);
        assert(b.contains(q.slices[j][i].node_id));
    }
}

/// Adding nodes never undoes containing a slice: a set that contains one of
/// the node's slices still does when it grows.
pub proof fn law_quorum_slice_monotone(q: QuorumSetView, a: Seq<Seq<char>>, b: Seq<Seq<char>>)
    requires
        forall|x: Seq<char>| #[trigger] a.contains(x) ==> b.contains(x),
        is_quorum_slice_spec(q, a),
    ensures
        is_quorum_slice_spec(q, b),
{
    let j = choose|j: int| 0 <= j < q.slices.len() && slice_within(#[trigger] q.slices[j], a);
    assert(slice_within(q.slices[j], b));
}

/// A quorum is v-blocking for each of its members whose quorum set has a
/// single slice: that slice lies inside the quorum.
pub proof fn law_quorum_blocks_single_slice_member(q: QuorumSetView, nodes: Seq<Seq<char>>)
    requires
        q.slices.len() == 1,
        q.slices[0].len() > 0,
        is_quorum_slice_spec(q, nodes),
    ensures
        is_v_blocking_spec(q, nodes),
{
    assert(slice_within(q.slices[0], nodes));
    assert(nodes.contains(q.slices[0][0].node_id));
    assert(slice_meets(q.slices[0], nodes));
}

} // verus!
