//! A trie over path segments in reverse order, which finds the one full
//! path that ends in a given suffix.

use crate::text::{join, joined, law_join_pieces, pieces, split, texts};
use vstd::prelude::*;

verus! {

/// A node of the trie, as a mathematical tree.
pub struct Tree {
    /// The segment under which the node hangs; empty at the root.
    pub segment: Seq<char>,
    /// Whether a path ends here.
    pub is_end: bool,
    /// The nodes one segment further, in the order in which they came.
    pub children: Seq<Tree>,
    /// How many paths were led through this node to a child; the count
    /// stops at the greatest number that fits.
    pub traversed: u32,
}

/// What a child adds to the count of its parent at least: a child is there
/// because a path was led to it.
pub open spec fn weight(t: Tree) -> nat {
    if t.traversed > 1 {
        t.traversed as nat
    } else {
        1
    }
}

/// The weights of the first `n` of `children`, added up.
pub open spec fn load(children: Seq<Tree>, n: int) -> nat
    decreases n,
{
    if n <= 0 {
        0
    } else {
        load(children, n - 1) + weight(children[n - 1])
    }
}

/// The index of the first of `children` from `from` on that hangs under
/// `segment`, or the number of children.
pub open spec fn child_index(children: Seq<Tree>, segment: Seq<char>, from: int) -> int
    decreases children.len() - from,
{
    if from < 0 || from >= children.len() || children[from].segment == segment {
        from
    } else {
        child_index(children, segment, from + 1)
    }
}

/// A node without children under `segment`.
pub open spec fn leaf(segment: Seq<char>) -> Tree {
    Tree { segment, is_end: false, children: Seq::empty(), traversed: 0 }
}

/// The count after one more path.
pub open spec fn bumped(n: u32) -> u32 {
    if n < u32::MAX {
        (n + 1) as u32
    } else {
        n
    }
}

impl Tree {
    /// Whether the subtree is in order: no two children hang under the same
    /// segment, every child is an end or has children, the count of a node
    /// is at least the load of its children unless it has stopped, and the
    /// same holds below.
    pub open spec fn sound(self) -> bool
        decreases self,
    {
        &&& forall|i: int, j: int|
            0 <= i < j < self.children.len() ==> self.children[i].segment
                != self.children[j].segment
        &&& (self.traversed == u32::MAX || self.traversed >= load(
            self.children,
            self.children.len() as int,
        ))
        &&& forall|i: int|
            0 <= i < self.children.len() ==> {
                &&& (#[trigger] self.children[i]).sound()
                &&& (self.children[i].is_end || self.children[i].children.len() > 0)
            }
    }

    /// The tree with one more path: the segments `q[k - 1]`, ..., `q[0]` are
    /// followed from this node, every node on the way but the last counts
    /// one more, missing nodes are added behind their siblings, and the
    /// last node becomes an end.
    pub open spec fn grafted(self, q: Seq<Seq<char>>, k: int) -> Tree
        decreases k,
    {
        if k <= 0 {
            Tree { is_end: true, ..self }
        } else {
            let seg = q[k - 1];
            let i = child_index(self.children, seg, 0);
            let children = if i >= self.children.len() {
                self.children.push(leaf(seg).grafted(q, k - 1))
            } else {
                self.children.update(i, self.children[i].grafted(q, k - 1))
            };
            Tree { children, traversed: bumped(self.traversed), ..self }
        }
    }

    /// The node reached from this one along `q[k - 1]`, ..., `q[0]`.
    pub open spec fn find(self, q: Seq<Seq<char>>, k: int) -> Option<Tree>
        decreases k,
    {
        if k <= 0 {
            Some(self)
        } else {
            let i = child_index(self.children, q[k - 1], 0);
            if i >= self.children.len() {
                None
            } else {
                self.children[i].find(q, k - 1)
            }
        }
    }

    /// The segments on the way down from this node to the nearest end, by
    /// the first child at each node.
    pub open spec fn tail(self) -> Seq<Seq<char>>
        decreases self,
    {
        if self.is_end || self.children.len() == 0 {
            Seq::empty()
        } else {
            seq![self.children[0].segment] + self.children[0].tail()
        }
    }

    /// The number of nodes on the longest way down, this one included.
    pub open spec fn height(self) -> nat
        decreases self,
    {
        tallest(self.children, self.children.len() as int) + 1
    }
}

/// The greatest height among the first `n` of `children`.
pub open spec fn tallest(children: Seq<Tree>, n: int) -> nat
    decreases children, n,
{
    if n <= 0 || n > children.len() {
        0
    } else {
        let h = children[n - 1].height();
        let rest = tallest(children, n - 1);
        if h > rest {
            h
        } else {
            rest
        }
    }
}

/// What a search finds.
pub enum Found {
    /// No path ends in the suffix.
    Missing,
    /// More than one path was led on from the suffix.
    Ambiguous,
    /// The full path.
    Path(Seq<char>),
}

/// What the search for `suffix` finds in the trie under `root`: the suffix
/// is cut at the slashes and followed from its last segment to its first;
/// from the node reached, the way leads down to the nearest end, and the
/// segments found there stand before the suffix.
pub open spec fn lookup(root: Tree, suffix: Seq<char>) -> Found {
    let q = pieces(suffix, '/');
    match root.find(q, q.len() as int) {
        None => Found::Missing,
        Some(node) => if node.traversed > 1 {
            Found::Ambiguous
        } else {
            Found::Path(joined(node.tail().reverse() + q, seq!['/']))
        },
    }
}

/// The text of the error for a suffix that no path ends in.
pub open spec fn missing_text() -> Seq<char> {
    "Could not suffix"@
}

/// The text of the error for a suffix that more than one path ends in.
pub open spec fn ambiguous_text() -> Seq<char> {
    "Ambiguous suffix"@
}

/// The child found is the first under the segment; where none is found,
/// no child hangs under it.
pub proof fn lemma_child_index(children: Seq<Tree>, segment: Seq<char>, from: int)
    requires
        0 <= from <= children.len(),
    ensures
        from <= child_index(children, segment, from) <= children.len(),
        child_index(children, segment, from) < children.len() ==> children[child_index(
            children,
            segment,
            from,
        )].segment == segment,
        forall|j: int|
            from <= j < child_index(children, segment, from) ==> (#[trigger] children[j]).segment
                != segment,
    decreases children.len() - from,
{
    if from < children.len() && children[from].segment != segment {
        lemma_child_index(children, segment, from + 1);
    }
}

/// Every child is lower than its parent.
pub proof fn lemma_height(children: Seq<Tree>, n: int, i: int)
    requires
        0 <= i < n <= children.len(),
    ensures
        children[i].height() <= tallest(children, n),
    decreases n,
{
    if i < n - 1 {
        lemma_height(children, n - 1, i);
    }
}

/// The load of children of which one has changed.
pub proof fn lemma_load_update(children: Seq<Tree>, i: int, t: Tree, n: int)
    requires
        0 <= i < children.len(),
        0 <= n <= children.len(),
    ensures
        load(children.update(i, t), n) == if i < n {
            load(children, n) - weight(children[i]) + weight(t)
        } else {
            load(children, n) as int
        },
    decreases n,
{
    if n > 0 {
        lemma_load_update(children, i, t, n - 1);
    }
}

/// The load of children with one more.
pub proof fn lemma_load_push(children: Seq<Tree>, t: Tree, n: int)
    requires
        0 <= n <= children.len(),
    ensures
        load(children.push(t), n) == load(children, n),
        load(children.push(t), children.len() as int + 1) == load(children, children.len() as int)
            + weight(t),
    decreases n,
{
    if n > 0 {
        lemma_load_push(children, t, n - 1);
    }
    assert(children.push(t)[children.len() as int] == t);
    lemma_load_push_under(children, t, children.len() as int);
}

/// One more child does not change the load of those before it.
pub proof fn lemma_load_push_under(children: Seq<Tree>, t: Tree, n: int)
    requires
        0 <= n <= children.len(),
    ensures
        load(children.push(t), n) == load(children, n),
    decreases n,
{
    if n > 0 {
        lemma_load_push_under(children, t, n - 1);
    }
}

/// A sound tree stays sound with one more path, keeps its segment, counts
/// at most one more, and ends up an end or with children.
pub proof fn lemma_grafted(t: Tree, q: Seq<Seq<char>>, k: int)
    requires
        t.sound(),
        0 <= k <= q.len(),
    ensures
        t.grafted(q, k).sound(),
        t.grafted(q, k).segment == t.segment,
        t.grafted(q, k).traversed <= t.traversed + 1,
        t.grafted(q, k).traversed >= t.traversed,
        t.grafted(q, k).is_end || t.grafted(q, k).children.len() > 0,
    decreases k,
{
    if k > 0 {
        let seg = q[k - 1];
        let i = child_index(t.children, seg, 0);
        let n = t.children.len() as int;
        let g = t.grafted(q, k);
        lemma_child_index(t.children, seg, 0);
        if i >= n {
            let c = leaf(seg).grafted(q, k - 1);
            assert(leaf(seg).sound());
            lemma_grafted(leaf(seg), q, k - 1);
            lemma_load_push(t.children, c, n);
            assert(g.children == t.children.push(c));
            assert forall|a: int, b: int| 0 <= a < b < g.children.len() implies g.children[a].segment
                != g.children[b].segment by {
                if b == n {
                    assert(t.children[a].segment != seg);
                }
            }
            assert forall|a: int| 0 <= a < g.children.len() implies {
                &&& (#[trigger] g.children[a]).sound()
                &&& (g.children[a].is_end || g.children[a].children.len() > 0)
            } by {
                if a < n {
                    assert(g.children[a] == t.children[a]);
                }
            }
        } else {
            let c = t.children[i].grafted(q, k - 1);
            lemma_grafted(t.children[i], q, k - 1);
            lemma_load_update(t.children, i, c, n);
            assert(g.children == t.children.update(i, c));
            assert forall|a: int, b: int| 0 <= a < b < g.children.len() implies g.children[a].segment
                != g.children[b].segment by {
                assert(g.children[a].segment == t.children[a].segment);
                assert(g.children[b].segment == t.children[b].segment);
            }
            assert forall|a: int| 0 <= a < g.children.len() implies {
                &&& (#[trigger] g.children[a]).sound()
                &&& (g.children[a].is_end || g.children[a].children.len() > 0)
            } by {
                if a != i {
                    assert(g.children[a] == t.children[a]);
                }
            }
        }
    }
}

/// The load of children is at least their number.
pub proof fn lemma_load_counts(children: Seq<Tree>, n: int)
    requires
        0 <= n <= children.len(),
    ensures
        load(children, n) >= n,
        forall|i: int| 0 <= i < n ==> load(children, n) >= n - 1 + weight(#[trigger] children[i]),
    decreases n,
{
    if n > 0 {
        lemma_load_counts(children, n - 1);
    }
}

/// In a sound tree, a node that at most one path was led through has at
/// most one child, and at most one path was led through that child.
pub proof fn law_single_child(t: Tree)
    requires
        t.sound(),
        t.traversed <= 1,
    ensures
        t.children.len() <= 1,
        t.children.len() == 1 ==> t.children[0].traversed <= 1,
{
    lemma_load_counts(t.children, t.children.len() as int);
    if t.children.len() >= 1 {
        assert(weight(t.children[0]) <= 1);
    }
}

/// A path led from a node without children makes a chain: as long as
/// segments are left the node is no end, counts one path, and has a
/// single child, under the next segment, from which the rest of the path is
/// led; at the end of the path the node is an end without children.
pub proof fn lemma_chain(x: Seq<char>, q: Seq<Seq<char>>, k: int)
    requires
        0 <= k <= q.len(),
    ensures
        leaf(x).grafted(q, k).segment == x,
        k == 0 ==> leaf(x).grafted(q, k) == (Tree { is_end: true, ..leaf(x) }),
        k > 0 ==> {
            &&& !leaf(x).grafted(q, k).is_end
            &&& leaf(x).grafted(q, k).traversed == 1
            &&& leaf(x).grafted(q, k).children == seq![leaf(q[k - 1]).grafted(q, k - 1)]
        },
{
    if k > 0 {
        assert(child_index(leaf(x).children, q[k - 1], 0) == 0);
        assert(leaf(x).children.push(leaf(q[k - 1]).grafted(q, k - 1)) =~= seq![
            leaf(q[k - 1]).grafted(q, k - 1),
        ]);
    }
}

/// In a chain, the last `m` of the segments that are left lead to the
/// chain of the segments before them.
pub proof fn lemma_chain_find(
    x: Seq<char>,
    q: Seq<Seq<char>>,
    k: int,
    query: Seq<Seq<char>>,
    m: int,
) -> (y: Seq<char>)
    requires
        0 <= m <= k <= q.len(),
        m <= query.len(),
        forall|j: int| 0 <= j < m ==> query[j] == q[k - m + j],
    ensures
        leaf(x).grafted(q, k).find(query, m) == Some(leaf(y).grafted(q, k - m)),
    decreases m,
{
    if m == 0 {
        x
    } else {
        lemma_chain(x, q, k);
        let child = leaf(q[k - 1]).grafted(q, k - 1);
        lemma_chain(q[k - 1], q, k - 1);
        assert(query[m - 1] == q[k - 1]);
        assert(child_index(seq![child], query[m - 1], 0) == 0);
        assert forall|j: int| 0 <= j < m - 1 implies query[j] == q[(k - 1) - (m - 1) + j] by {
            assert(query[j] == q[k - m + j]);
        }
        lemma_chain_find(q[k - 1], q, k - 1, query, m - 1)
    }
}

/// The way down a chain leads through the segments that are left, from the
/// last to the first.
pub proof fn lemma_chain_tail(x: Seq<char>, q: Seq<Seq<char>>, k: int)
    requires
        0 <= k <= q.len(),
    ensures
        leaf(x).grafted(q, k).tail().reverse() == q.subrange(0, k),
    decreases k,
{
    lemma_chain(x, q, k);
    let node = leaf(x).grafted(q, k);
    if k == 0 {
        assert(node.tail() =~= Seq::<Seq<char>>::empty());
        assert(node.tail().reverse() =~= q.subrange(0, 0));
    } else {
        let child = leaf(q[k - 1]).grafted(q, k - 1);
        lemma_chain(q[k - 1], q, k - 1);
        lemma_chain_tail(q[k - 1], q, k - 1);
        assert(node.children[0] == child);
        assert(node.tail() == seq![q[k - 1]] + child.tail());
        assert(node.tail().reverse() =~= child.tail().reverse().push(q[k - 1]));
        assert(q.subrange(0, k - 1).push(q[k - 1]) =~= q.subrange(0, k));
    }
}

/// In a trie that holds a single path, every suffix of the path that is
/// made of whole segments finds the path.
pub proof fn law_lone_path_is_found(path: Seq<char>, suffix: Seq<char>)
    requires
        pieces(suffix, '/').len() <= pieces(path, '/').len(),
        pieces(suffix, '/') == pieces(path, '/').subrange(
            pieces(path, '/').len() - pieces(suffix, '/').len(),
            pieces(path, '/').len() as int,
        ),
    ensures
        lookup(
            leaf(Seq::empty()).grafted(pieces(path, '/'), pieces(path, '/').len() as int),
            suffix,
        ) == Found::Path(path),
{
    let q = pieces(path, '/');
    let query = pieces(suffix, '/');
    let n = q.len() as int;
    let m = query.len() as int;
    let root = leaf(Seq::empty()).grafted(q, n);
    assert forall|j: int| 0 <= j < m implies query[j] == q[n - m + j] by {
        assert(query[j] == q.subrange(n - m, n)[j]);
    }
    let y = lemma_chain_find(Seq::empty(), q, n, query, m);
    let node = leaf(y).grafted(q, n - m);
    lemma_chain(y, q, n - m);
    lemma_chain_tail(y, q, n - m);
    assert(node.tail().reverse() + query =~= q);
    law_join_pieces(path, '/');
}

/// In a trie that holds a single path, a suffix that ends in another
/// segment than the path finds nothing.
pub proof fn law_other_path_is_missing(path: Seq<char>, suffix: Seq<char>)
    requires
        pieces(suffix, '/').last() != pieces(path, '/').last(),
    ensures
        lookup(
            leaf(Seq::empty()).grafted(pieces(path, '/'), pieces(path, '/').len() as int),
            suffix,
        ) == Found::Missing,
{
    let q = pieces(path, '/');
    let query = pieces(suffix, '/');
    crate::text::lemma_split_nonempty(path, '/', 0);
    crate::text::lemma_split_nonempty(suffix, '/', 0);
    let n = q.len() as int;
    lemma_chain(Seq::empty(), q, n);
    let child = leaf(q[n - 1]).grafted(q, n - 1);
    lemma_chain(q[n - 1], q, n - 1);
    let seg = query[query.len() - 1];
    assert(seq![child][0].segment == q[n - 1]);
    assert(child_index(seq![child], seg, 1) == 1);
    assert(child_index(seq![child], seg, 0) == 1);
}

/// The child under a segment stays where it is when the child is replaced
/// by one under the same segment.
pub proof fn lemma_child_index_update(
    children: Seq<Tree>,
    segment: Seq<char>,
    i: int,
    t: Tree,
    from: int,
)
    requires
        0 <= i < children.len(),
        0 <= from <= children.len(),
        t.segment == children[i].segment,
    ensures
        child_index(children.update(i, t), segment, from) == child_index(children, segment, from),
    decreases children.len() - from,
{
    if from < children.len() {
        assert(children.update(i, t)[from].segment == children[from].segment);
        if children[from].segment != segment {
            lemma_child_index_update(children, segment, i, t, from + 1);
        }
    }
}

/// Where no child hangs under a segment, a new child under it is found
/// behind the others.
pub proof fn lemma_child_index_push(children: Seq<Tree>, t: Tree, from: int)
    requires
        0 <= from <= children.len(),
        child_index(children, t.segment, from) >= children.len(),
    ensures
        child_index(children.push(t), t.segment, from) == children.len(),
    decreases children.len() - from,
{
    if from < children.len() {
        assert(children.push(t)[from] == children[from]);
        lemma_child_index_push(children, t, from + 1);
    } else {
        assert(children.push(t)[from] == t);
    }
}

/// A path keeps the segment of the node that it is led from.
pub proof fn lemma_grafted_segment(t: Tree, q: Seq<Seq<char>>, k: int)
    ensures
        t.grafted(q, k).segment == t.segment,
{
}

/// A path that is led on from a node counts there: after the path, its last
/// `m` segments, where they are not all of it, lead to a node that counts
/// one path more than before, and at least one.
pub proof fn lemma_graft_counts(t: Tree, q: Seq<Seq<char>>, k: int, query: Seq<Seq<char>>, m: int)
    requires
        0 <= m < k <= q.len(),
        m <= query.len(),
        forall|j: int| 0 <= j < m ==> query[j] == q[k - m + j],
    ensures
        t.grafted(q, k).find(query, m).is_some(),
        t.grafted(q, k).find(query, m).unwrap().traversed >= 1,
        t.find(query, m) matches Some(n) ==> t.grafted(q, k).find(query, m).unwrap().traversed
            == bumped(n.traversed),
    decreases m,
{
    if m > 0 {
        let seg = q[k - 1];
        assert(query[m - 1] == seg);
        let i = child_index(t.children, seg, 0);
        lemma_child_index(t.children, seg, 0);
        assert forall|j: int| 0 <= j < m - 1 implies query[j] == q[(k - 1) - (m - 1) + j] by {
            assert(query[j] == q[k - m + j]);
        }
        if i >= t.children.len() {
            let fresh = leaf(seg).grafted(q, k - 1);
            lemma_grafted_segment(leaf(seg), q, k - 1);
            lemma_child_index_push(t.children, fresh, 0);
            assert(t.children.push(fresh)[t.children.len() as int] == fresh);
            lemma_graft_counts(leaf(seg), q, k - 1, query, m - 1);
        } else {
            let child = t.children[i];
            let grown = child.grafted(q, k - 1);
            lemma_grafted_segment(child, q, k - 1);
            lemma_child_index_update(t.children, seg, i, grown, 0);
            assert(t.children.update(i, grown)[i] == grown);
            lemma_graft_counts(child, q, k - 1, query, m - 1);
        }
    }
}

/// Two paths that end in the same segments, and go on beyond them, make
/// these segments ambiguous, whatever the trie held before.
pub proof fn law_shared_suffix_is_ambiguous(
    t: Tree,
    first: Seq<char>,
    second: Seq<char>,
    suffix: Seq<char>,
)
    requires
        pieces(suffix, '/').len() < pieces(first, '/').len(),
        pieces(suffix, '/').len() < pieces(second, '/').len(),
        pieces(suffix, '/') == pieces(first, '/').subrange(
            pieces(first, '/').len() - pieces(suffix, '/').len(),
            pieces(first, '/').len() as int,
        ),
        pieces(suffix, '/') == pieces(second, '/').subrange(
            pieces(second, '/').len() - pieces(suffix, '/').len(),
            pieces(second, '/').len() as int,
        ),
    ensures
        lookup(
            t.grafted(pieces(first, '/'), pieces(first, '/').len() as int).grafted(
                pieces(second, '/'),
                pieces(second, '/').len() as int,
            ),
            suffix,
        ) == Found::Ambiguous,
{
    let a = pieces(first, '/');
    let b = pieces(second, '/');
    let query = pieces(suffix, '/');
    let m = query.len() as int;
    assert forall|j: int| 0 <= j < m implies query[j] == a[a.len() - m + j] by {
        assert(query[j] == a.subrange(a.len() - m, a.len() as int)[j]);
    }
    assert forall|j: int| 0 <= j < m implies query[j] == b[b.len() - m + j] by {
        assert(query[j] == b.subrange(b.len() - m, b.len() as int)[j]);
    }
    let once = t.grafted(a, a.len() as int);
    lemma_graft_counts(t, a, a.len() as int, query, m);
    lemma_graft_counts(once, b, b.len() as int, query, m);
}

/// A node of the trie.
pub struct TrieNode {
    /// The segment under which the node hangs; empty at the root.
    pub segment: String,
    /// Whether a path ends here.
    pub is_end: bool,
    /// The nodes one segment further, in the order in which they came.
    pub children: Vec<TrieNode>,
    /// How many paths were led through this node to a child.
    pub traversed: u32,
}

impl TrieNode {
    /// The node as a mathematical tree.
    pub open spec fn tree(&self) -> Tree
        decreases self,
    {
        Tree {
            segment: self.segment@,
            is_end: self.is_end,
            children: Seq::new(
                self.children@.len(),
                |i: int|
                    if 0 <= i < self.children@.len() {
                        self.children@[i].tree()
                    } else {
                        leaf(Seq::empty())
                    },
            ),
            traversed: self.traversed,
        }
    }
}

impl View for TrieNode {
    type V = Tree;

    open spec fn view(&self) -> Tree {
        self.tree()
    }
}

/// The tree of a node, one level unfolded.
pub proof fn lemma_unfold(node: TrieNode)
    ensures
        node@.segment == node.segment@,
        node@.is_end == node.is_end,
        node@.traversed == node.traversed,
        node@.children.len() == node.children@.len(),
        forall|i: int|
            0 <= i < node.children@.len() ==> #[trigger] node@.children[i] == node.children@[i]@,
{
}

impl Default for TrieNode {
    fn default() -> (r: TrieNode)
        ensures
            r@ == leaf(Seq::empty()),
    {
        let r = TrieNode {
            segment: String::new(),
            is_end: false,
            children: Vec::new(),
            traversed: 0,
        };
        assert(r@.children =~= Seq::empty());
        r
    }
}

/// The index of the child of `node` under `segment`, or the number of its
/// children.
fn find_child(node: &TrieNode, segment: &String) -> (r: usize)
    ensures
        r == child_index(node@.children, segment@, 0),
        r <= node.children@.len(),
{
    let n: usize = node.children.len();
    let mut i: usize = 0;
    while i < n
        invariant
            n == node.children@.len(),
            n == node@.children.len(),
            i <= n,
            child_index(node@.children, segment@, i as int) == child_index(
                node@.children,
                segment@,
                0,
            ),
        decreases n - i,
    {
        assert(node@.children[i as int] == node.children@[i as int]@);
        if node.children[i].segment == *segment {
            return i;
        }
        i += 1;
    }
    i
}

/// Leads one more path from `node` along the segments `segs[k - 1]`, ...,
/// `segs[0]`.
fn graft(node: &mut TrieNode, segs: &Vec<String>, k: usize)
    requires
        k <= segs@.len(),
    ensures
        final(node)@ == old(node)@.grafted(texts(segs@), k as int),
    decreases k,
{
    if k == 0 {
        node.is_end = true;
        assert(node@ =~= old(node)@.grafted(texts(segs@), 0));
        return ;
    }
    if node.traversed < u32::MAX {
        node.traversed += 1;
    }
    let seg = &segs[k - 1];
    assert(texts(segs@)[k - 1] == seg@);
    let i = find_child(node, seg);
    let ghost before = node@.children;
    assert(before =~= old(node)@.children);
    if i == node.children.len() {
        let fresh = TrieNode {
            segment: seg.clone(),
            is_end: false,
            children: Vec::new(),
            traversed: 0,
        };
        assert(fresh@.children =~= Seq::empty());
        assert(fresh@ == leaf(seg@));
        node.children.push(fresh);
        assert(node@.children =~= before.push(leaf(seg@)));
    }
    let ghost child = node.children@[i as int]@;
    let ghost mid = node@.children;
    proof {
        lemma_unfold(*node);
    }
    graft(&mut node.children[i], segs, k - 1);
    proof {
        let want = old(node)@.grafted(texts(segs@), k as int);
        lemma_unfold(*node);
        assert(node@.children =~= mid.update(i as int, child.grafted(texts(segs@), k - 1)));
        assert(node@.children =~= want.children);
        assert(node@ =~= want);
    }
}

/// The trie.
pub struct Trie {
    pub root: TrieNode,
}

impl View for Trie {
    type V = Tree;

    open spec fn view(&self) -> Tree {
        self.root@
    }
}

impl Default for Trie {
    fn default() -> (r: Trie)
        ensures
            r@ == leaf(Seq::empty()),
            r.wf(),
    {
        Trie { root: TrieNode::default() }
    }
}

impl Trie {
    /// The invariant of the trie.
    pub open spec fn wf(&self) -> bool {
        self@.sound()
    }

    /// Adds a path: it is cut at the slashes and led into the trie from its
    /// last segment to its first.
    pub fn add_path(&mut self, path: &str)
        requires
            old(self).wf(),
        ensures
            final(self).wf(),
            final(self)@ == old(self)@.grafted(pieces(path@, '/'), pieces(path@, '/').len() as int),
    {
        let segs = split(path, '/');
        proof {
            lemma_grafted(self@, texts(segs@), segs@.len() as int);
        }
        graft(&mut self.root, &segs, segs.len());
    }

    /// Finds the full path that ends in `suffix`. The search fails if no
    /// path ends in the suffix, and if more than one path was led on from it.
    pub fn search(&self, suffix: &str) -> (r: Result<String, &'static str>)
        requires
            self.wf(),
        ensures
            match lookup(self@, suffix@) {
                Found::Missing => r matches Err(e) && e@ == missing_text(),
                Found::Ambiguous => r matches Err(e) && e@ == ambiguous_text(),
                Found::Path(p) => r matches Ok(s) && s@ == p,
            },
    {
        let q = split(suffix, '/');
        let mut node: &TrieNode = &self.root;
        let mut k: usize = q.len();
        while k > 0
            invariant
                k <= q@.len(),
                texts(q@) == pieces(suffix@, '/'),
                node@.find(texts(q@), k as int) == self@.find(texts(q@), q@.len() as int),
                node@.sound(),
                k < q@.len() ==> (node.is_end || node.children@.len() > 0),
            decreases k,
        {
            let seg = &q[k - 1];
            assert(texts(q@)[k - 1] == seg@);
            let i = find_child(node, seg);
            proof {
                lemma_unfold(*node);
                lemma_child_index(node@.children, seg@, 0);
            }
            if i == node.children.len() {
                return Err("Could not suffix");
            }
            assert(node@.children[i as int] == node.children@[i as int]@);
            node = &node.children[i];
            k -= 1;
            proof {
                lemma_unfold(*node);
            }
        }
        proof {
            lemma_unfold(*node);
        }
        if node.traversed > 1 {
            return Err("Ambiguous suffix");
        }
        let ghost arrival = node@;
        let mut down: Vec<String> = Vec::new();
        while !node.is_end
            invariant
                node@.sound(),
                node.is_end || node.children@.len() > 0,
                texts(down@) + node@.tail() == arrival.tail(),
            decreases node@.height(),
        {
            let ghost before = texts(down@);
            let ghost parent = node@;
            proof {
                lemma_unfold(*node);
            }
            assert(parent.children[0] == node.children@[0]@);
            proof {
                lemma_height(parent.children, parent.children.len() as int, 0);
            }
            node = &node.children[0];
            down.push(node.segment.clone());
            proof {
                lemma_unfold(*node);
                assert(texts(down@) =~= before.push(node@.segment));
                assert(texts(down@) + node@.tail() =~= before + parent.tail());
            }
        }
        assert(texts(down@) =~= arrival.tail());
        let mut parts: Vec<String> = Vec::new();
        let mut j: usize = down.len();
        while j > 0
            invariant
                j <= down@.len(),
                texts(parts@) == texts(down@).reverse().subrange(0, down@.len() - j),
            decreases j,
        {
            let ghost before = texts(parts@);
            parts.push(down[j - 1].clone());
            j -= 1;
            proof {
                assert(texts(parts@) =~= before.push(down@[j as int]@));
                assert(texts(down@).reverse()[down@.len() - 1 - j] == down@[j as int]@);
                assert(texts(parts@) =~= texts(down@).reverse().subrange(0, down@.len() - j));
            }
        }
        assert(texts(parts@) =~= texts(down@).reverse());
        let mut m: usize = 0;
        while m < q.len()
            invariant
                m <= q@.len(),
                texts(parts@) == texts(down@).reverse() + texts(q@).subrange(0, m as int),
            decreases q@.len() - m,
        {
            let ghost before = texts(parts@);
            parts.push(q[m].clone());
            proof {
                assert(texts(parts@) =~= before.push(q@[m as int]@));
                assert(texts(q@)[m as int] == q@[m as int]@);
                assert(texts(parts@) =~= texts(down@).reverse() + texts(q@).subrange(0, m + 1));
            }
            m += 1;
        }
        proof {
            assert(texts(q@).subrange(0, q@.len() as int) =~= texts(q@));
            reveal_strlit("/");
            assert("/"@ =~= seq!['/']);
        }
        Ok(join(&parts, "/"))
    }
}

} // verus!
