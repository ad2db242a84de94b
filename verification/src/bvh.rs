//! Structural build of the bounding-volume hierarchy.
//!
//! A BVH is a binary tree over the objects of a scene: internal nodes in a
//! flat node store, leaves naming objects by their [`WorldIndex`].  The
//! build recursively median-splits the objects: sort by the split axis,
//! halve, recurse, with the split axis cycling x, y, z by depth.  Sorting
//! goes by one integer key per axis that the caller derives from each
//! object's bounding box, ordered as the box minimum coordinates are.
//!
//! The build is proved to produce a well-formed tree (every child of a node
//! sits strictly earlier in the node store) whose leaves are exactly the
//! objects handed in, each once — the structural half of the guarantee that
//! querying the tree and scanning the objects linearly see the same scene.

use crate::world::WorldIndex;
use vstd::multiset::Multiset;
use vstd::prelude::*;

verus! {

broadcast use
    vstd::seq_lib::to_multiset_update,
    vstd::seq_lib::to_multiset_build,
    vstd::seq_lib::to_multiset_contains,
    vstd::seq_lib::to_multiset_len,
    vstd::seq_lib::lemma_multiset_commutative,
    vstd::multiset::lemma_multiset_empty_len,
    vstd::multiset::group_multiset_axioms,
;

/// One object as the build sees it: its place in the scene and an
/// order-preserving integer key per axis for its bounding-box minimum.
#[derive(Debug, Clone, Copy, PartialEq, Eq, Structural)]
pub struct Volume {
    pub index: WorldIndex,
    pub key_x: u32,
    pub key_y: u32,
    pub key_z: u32,
}

/// A child of a BVH node: another node, or a leaf naming one object.
#[derive(Debug, Clone, Copy, PartialEq, Eq, Structural)]
pub enum BVHNIndex {
    Node(usize),
    WorldIndex(WorldIndex),
}

/// An internal node of the hierarchy.
#[derive(Debug, Clone, Copy, PartialEq, Eq, Structural)]
pub struct BVHNode2 {
    pub left: BVHNIndex,
    pub right: BVHNIndex,
}

/// The built hierarchy: the flat node store and the root child.
pub struct BVH {
    pub nodes: Vec<BVHNode2>,
    pub root: BVHNIndex,
}

/// The sort key of a volume on the given split axis (axes cycle x, y, z).
pub open spec fn axis_key(v: Volume, axis: u8) -> u32 {
    if axis == 0 {
        v.key_x
    } else if axis == 1 {
        v.key_y
    } else {
        v.key_z
    }
}

/// The volumes are ordered by their key on the given axis.
pub open spec fn sorted_by_axis(vs: Seq<Volume>, axis: u8) -> bool {
    forall|a: int, b: int|
        0 <= a < b < vs.len() ==> axis_key(#[trigger] vs[a], axis) <= axis_key(
            #[trigger] vs[b],
            axis,
        )
}

/// The objects a sequence of volumes stands for, as a multiset.
pub open spec fn volume_indices(vs: Seq<Volume>) -> Multiset<WorldIndex> {
    vs.map_values(|v: Volume| v.index).to_multiset()
}

/// How far a child can recurse: leaves end at once, node `n` only reaches
/// nodes below `n`.
pub open spec fn rank(c: BVHNIndex) -> int {
    match c {
        BVHNIndex::Node(n) => n + 1,
        BVHNIndex::WorldIndex(_) => 0,
    }
}

/// The child sits strictly earlier in the node store than position `n`.
pub open spec fn child_lt(c: BVHNIndex, n: int) -> bool {
    rank(c) <= n
}

/// Every node's children sit strictly earlier in the node store, so every
/// walk down the tree ends.
pub open spec fn nodes_well_formed(nodes: Seq<BVHNode2>) -> bool {
    forall|n: int|
        0 <= n < nodes.len() ==> child_lt(#[trigger] nodes[n].left, n) && child_lt(
            nodes[n].right,
            n,
        )
}

/// The objects at the leaves under a child, each counted as often as it
/// appears.  A dangling or forward-pointing child contributes nothing; a
/// well-formed tree never has one.
pub open spec fn leaves_of(nodes: Seq<BVHNode2>, c: BVHNIndex) -> Multiset<WorldIndex>
    decreases rank(c),
{
    match c {
        BVHNIndex::WorldIndex(w) => Multiset::empty().insert(w),
        BVHNIndex::Node(n) => if 0 <= n < nodes.len() && child_lt(nodes[n as int].left, n as int)
            && child_lt(nodes[n as int].right, n as int) {
            leaves_of(nodes, nodes[n as int].left).add(leaves_of(nodes, nodes[n as int].right))
        } else {
            Multiset::empty()
        },
    }
}

/// Growing the node store beyond a child's reach does not change the
/// leaves under that child.
proof fn lemma_leaves_prefix(small: Seq<BVHNode2>, big: Seq<BVHNode2>, c: BVHNIndex)
    requires
        small.len() <= big.len(),
        big.subrange(0, small.len() as int) == small,
        rank(c) <= small.len(),
    ensures
        leaves_of(big, c) == leaves_of(small, c),
    decreases rank(c),
{
    match c {
        BVHNIndex::WorldIndex(_) => {},
        BVHNIndex::Node(n) => {
            assert(big[n as int] == big.subrange(0, small.len() as int)[n as int]);
            assert(big[n as int] == small[n as int]);
            if child_lt(small[n as int].left, n as int) && child_lt(
                small[n as int].right,
                n as int,
            ) {
                lemma_leaves_prefix(small, big, small[n as int].left);
                lemma_leaves_prefix(small, big, small[n as int].right);
            }
        },
    }
}

/// A prefix of a prefix is a prefix.
proof fn lemma_prefix_trans(a: Seq<BVHNode2>, b: Seq<BVHNode2>, c: Seq<BVHNode2>)
    requires
        a.len() <= b.len() <= c.len(),
        b.subrange(0, a.len() as int) == a,
        c.subrange(0, b.len() as int) == b,
    ensures
        c.subrange(0, a.len() as int) == a,
{
    assert forall|i: int| 0 <= i < a.len() implies c.subrange(0, a.len() as int)[i] == a[i] by {
        assert(c[i] == c.subrange(0, b.len() as int)[i]);
        assert(b[i] == b.subrange(0, a.len() as int)[i]);
    }
    assert(c.subrange(0, a.len() as int) =~= a);
}

/// Swapping two entries of a sequence does not change its multiset of
/// values.
proof fn lemma_swap_multiset<T>(s: Seq<T>, i: int, j: int)
    requires
        0 <= i < s.len(),
        0 <= j < s.len(),
    ensures
        s.update(i, s[j]).update(j, s[i]).to_multiset() == s.to_multiset(),
{
    if i == j {
        assert(s.update(i, s[j]).update(j, s[i]) =~= s);
    } else {
        let s1 = s.update(i, s[j]);
        let s2 = s1.update(j, s[i]);
        assert(s.contains(s[i]));
        assert(s.contains(s[j]));
        assert(s1.to_multiset() == s.to_multiset().insert(s[j]).remove(s[i]));
        assert(s2.to_multiset() == s1.to_multiset().insert(s[i]).remove(s1[j]));
        assert(s2.to_multiset() =~= s.to_multiset());
    }
}

/// Exchanges the volumes at `i` and `j`, which reorders the vector but
/// keeps the objects it stands for.
fn swap_volumes(v: &mut Vec<Volume>, i: usize, j: usize)
    requires
        i < old(v)@.len(),
        j < old(v)@.len(),
    ensures
        final(v)@ == old(v)@.update(i as int, old(v)@[j as int]).update(
            j as int,
            old(v)@[i as int],
        ),
        final(v)@.len() == old(v)@.len(),
        volume_indices(final(v)@) == volume_indices(old(v)@),
{
    let a: Volume = v[i];
    let b: Volume = v[j];
    v[i] = b;
    v[j] = a;
    proof {
        let s = old(v)@;
        let f = |vol: Volume| vol.index;
        assert(v@.map_values(f) =~= s.map_values(f).update(i as int, s[j as int].index).update(
            j as int,
            s[i as int].index,
        ));
        lemma_swap_multiset(s.map_values(f), i as int, j as int);
    }
}

/// The key of a volume on the given split axis.
fn key_of(v: &Volume, axis: u8) -> (r: u32)
    ensures
        r == axis_key(*v, axis),
{
    if axis == 0 {
        v.key_x
    } else if axis == 1 {
        v.key_y
    } else {
        v.key_z
    }
}

/// Sorts the volumes by their key on the given axis, by insertion,
/// keeping the objects they stand for.
fn sort_by_axis(v: &mut Vec<Volume>, axis: u8)
    ensures
        final(v)@.len() == old(v)@.len(),
        sorted_by_axis(final(v)@, axis),
        volume_indices(final(v)@) == volume_indices(old(v)@),
{
    let n: usize = v.len();
    if n <= 1 {
        return ;
    }
    let mut i: usize = 1;
    while i < n
        invariant
            1 <= i <= n,
            n == v@.len(),
            volume_indices(v@) == volume_indices(old(v)@),
            forall|a: int, b: int|
                0 <= a < b < i ==> axis_key(#[trigger] v@[a], axis) <= axis_key(
                    #[trigger] v@[b],
                    axis,
                ),
        decreases n - i,
    {
        let mut j: usize = i;
        while j > 0 && key_of(&v[j - 1], axis) > key_of(&v[j], axis)
            invariant
                j <= i < n,
                n == v@.len(),
                volume_indices(v@) == volume_indices(old(v)@),
                forall|a: int, b: int|
                    0 <= a < b <= i && b != j ==> axis_key(#[trigger] v@[a], axis) <= axis_key(
                        #[trigger] v@[b],
                        axis,
                    ),
            decreases j,
        {
            swap_volumes(v, j - 1, j);
            j = j - 1;
        }
        proof {
            assert forall|a: int, b: int| 0 <= a < b < i + 1 implies axis_key(
                #[trigger] v@[a],
                axis,
            ) <= axis_key(#[trigger] v@[b], axis) by {
                if b == j as int && j > 0 {
                    assert(axis_key(v@[j as int - 1], axis) <= axis_key(v@[j as int], axis));
                    if a < j as int - 1 {
                        assert(axis_key(v@[a], axis) <= axis_key(v@[j as int - 1], axis));
                    }
                }
            }
        }
        i = i + 1;
    }
}

impl BVH {
    /// The root and every node's children point into the node store, and
    /// only ever backwards.
    pub open spec fn well_formed(self) -> bool {
        &&& nodes_well_formed(self.nodes@)
        &&& rank(self.root) <= self.nodes@.len()
    }

    /// The objects at the leaves of the whole tree.
    pub open spec fn leaves(self) -> Multiset<WorldIndex> {
        leaves_of(self.nodes@, self.root)
    }

    /// Builds the hierarchy over the given objects by recursive median
    /// split.  The tree that comes out is well formed and its leaves are
    /// exactly the objects handed in, each exactly once.
    pub fn from_volumes(volumes: Vec<Volume>) -> (r: BVH)
        requires
            volumes@.len() >= 1,
        ensures
            r.well_formed(),
            r.leaves() == volume_indices(volumes@),
            r.leaves().len() == volumes@.len(),
            r.nodes@.len() == volumes@.len() - 1,
    {
        let ghost input_vols: Seq<Volume> = volumes@;
        let mut nodes: Vec<BVHNode2> = Vec::new();
        let root: BVHNIndex = Self::create_node(&mut nodes, volumes, 0);
        proof {
            assert(input_vols.map_values(|v: Volume| v.index).len() == input_vols.len());
        }
        BVH { nodes, root }
    }

    /// Builds the subtree over `volumes`, appending its internal nodes to
    /// `nodes`, and returns the subtree's root child.
    fn create_node(nodes: &mut Vec<BVHNode2>, volumes: Vec<Volume>, axis: u8) -> (r: BVHNIndex)
        requires
            volumes@.len() >= 1,
            axis <= 2,
            nodes_well_formed(old(nodes)@),
        ensures
            final(nodes)@.len() == old(nodes)@.len() + volumes@.len() - 1,
            final(nodes)@.subrange(0, old(nodes)@.len() as int) == old(nodes)@,
            nodes_well_formed(final(nodes)@),
            rank(r) <= final(nodes)@.len(),
            leaves_of(final(nodes)@, r) == volume_indices(volumes@),
        decreases volumes@.len(),
    {
        let ghost input_vols: Seq<Volume> = volumes@;
        let next_axis: u8 = (axis + 1) % 3;
        if volumes.len() == 1 {
            let v0: Volume = volumes[0];
            proof {
                assert(nodes@.subrange(0, nodes@.len() as int) =~= nodes@);
                lemma_indices_of_one(input_vols);
            }
            return BVHNIndex::WorldIndex(v0.index);
        }
        if volumes.len() == 2 {
            let v0: Volume = volumes[0];
            let v1: Volume = volumes[1];
            let (first, second): (Volume, Volume) = if key_of(&v0, axis) <= key_of(&v1, axis) {
                (v0, v1)
            } else {
                (v1, v0)
            };
            let node = BVHNode2 {
                left: BVHNIndex::WorldIndex(first.index),
                right: BVHNIndex::WorldIndex(second.index),
            };
            let ghost before: Seq<BVHNode2> = nodes@;
            nodes.push(node);
            let index: usize = nodes.len() - 1;
            proof {
                assert(nodes@.subrange(0, before.len() as int) =~= before);
                lemma_indices_of_two(input_vols);
                assert(nodes@[index as int] == node);
                assert(child_lt(node.left, index as int) && child_lt(node.right, index as int));
                assert(leaves_of(nodes@, BVHNIndex::Node(index)) == leaves_of(
                    nodes@,
                    node.left,
                ).add(leaves_of(nodes@, node.right)));
                assert(leaves_of(nodes@, node.left) == Multiset::empty().insert(first.index));
                assert(leaves_of(nodes@, node.right) == Multiset::empty().insert(second.index));
                assert(leaves_of(nodes@, BVHNIndex::Node(index)) =~= Multiset::empty().insert(
                    v0.index,
                ).insert(v1.index));
            }
            return BVHNIndex::Node(index);
        }
        let mut vols: Vec<Volume> = volumes;
        sort_by_axis(&mut vols, axis);
        let ghost sorted_full: Seq<Volume> = vols@;
        let mid: usize = vols.len() / 2;
        let right_vec: Vec<Volume> = vols.split_off(mid);
        let ghost left_seq: Seq<Volume> = vols@;
        let ghost right_seq: Seq<Volume> = right_vec@;
        proof {
            assert(left_seq + right_seq =~= sorted_full);
            lemma_indices_of_concat(left_seq, right_seq);
        }
        let ghost before: Seq<BVHNode2> = nodes@;
        let left_child: BVHNIndex = Self::create_node(nodes, vols, next_axis);
        let ghost after_left: Seq<BVHNode2> = nodes@;
        let right_child: BVHNIndex = Self::create_node(nodes, right_vec, next_axis);
        let ghost after_right: Seq<BVHNode2> = nodes@;
        proof {
            lemma_prefix_trans(before, after_left, after_right);
            lemma_leaves_prefix(after_left, after_right, left_child);
        }
        let node = BVHNode2 { left: left_child, right: right_child };
        nodes.push(node);
        let index: usize = nodes.len() - 1;
        proof {
            assert(nodes@.subrange(0, after_right.len() as int) =~= after_right);
            lemma_prefix_trans(before, after_right, nodes@);
            lemma_leaves_prefix(after_right, nodes@, left_child);
            lemma_leaves_prefix(after_right, nodes@, right_child);
            assert(nodes@[index as int].left == left_child);
            assert(leaves_of(nodes@, BVHNIndex::Node(index)) == leaves_of(
                nodes@,
                left_child,
            ).add(leaves_of(nodes@, right_child)));
        }
        BVHNIndex::Node(index)
    }
}

/// Law: a tree whose leaves are the given volumes holds each distinct
/// object exactly once — a ray query over the tree and a linear scan of
/// the objects consult the same scene, no object dropped or doubled.
pub proof fn lemma_each_object_once(tree: BVH, volumes: Seq<Volume>, w: WorldIndex)
    requires
        tree.leaves() == volume_indices(volumes),
        volumes.map_values(|v: Volume| v.index).no_duplicates(),
    ensures
        tree.leaves().count(w) == if volumes.map_values(|v: Volume| v.index).contains(w) {
            1int
        } else {
            0int
        },
{
    let ids = volumes.map_values(|v: Volume| v.index);
    ids.lemma_multiset_has_no_duplicates();
    if !ids.contains(w) {
        assert(ids.to_multiset().count(w) == 0);
    }
}

/// A single volume stands for the one object at its index.
proof fn lemma_indices_of_one(vs: Seq<Volume>)
    requires
        vs.len() == 1,
    ensures
        volume_indices(vs) == Multiset::empty().insert(vs[0].index),
{
    let f = |v: Volume| v.index;
    assert(vs.map_values(f) =~= Seq::empty().push(vs[0].index));
    assert(Seq::<WorldIndex>::empty().to_multiset() =~= Multiset::empty());
    assert(volume_indices(vs) =~= Multiset::empty().insert(vs[0].index));
}

/// Two volumes stand for the two objects at their indices.
proof fn lemma_indices_of_two(vs: Seq<Volume>)
    requires
        vs.len() == 2,
    ensures
        volume_indices(vs) == Multiset::empty().insert(vs[0].index).insert(vs[1].index),
{
    let f = |v: Volume| v.index;
    assert(vs.map_values(f) =~= Seq::empty().push(vs[0].index).push(vs[1].index));
    assert(Seq::<WorldIndex>::empty().to_multiset() =~= Multiset::empty());
    assert(volume_indices(vs) =~= Multiset::empty().insert(vs[0].index).insert(vs[1].index));
}

/// Splitting a run of volumes splits the objects they stand for.
proof fn lemma_indices_of_concat(a: Seq<Volume>, b: Seq<Volume>)
    ensures
        volume_indices(a + b) == volume_indices(a).add(volume_indices(b)),
{
    let f = |v: Volume| v.index;
    assert((a + b).map_values(f) =~= a.map_values(f) + b.map_values(f));
}

} // verus!
