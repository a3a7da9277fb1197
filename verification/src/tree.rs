//! Parse trees in flat form: the nodes in document order, each followed by
//! its descendants.
use crate::rule::Rule;
use vstd::prelude::*;
use vstd::slice::{slice_subrange, slice_to_vec};

verus! {

/// One match of a rule: the rule, the bytes `start..end` of the input that
/// it covers, and the number of nodes below it.
#[derive(Clone, Copy, Debug, PartialEq, Eq, Structural)]
pub struct Node {
    pub rule: Rule,
    pub start: usize,
    pub end: usize,
    pub size: usize,
}

/// Each node's descendants lie inside the sequence, and inside the
/// descendants of every node that the node lies below.
pub open spec fn nested(n: Seq<Node>) -> bool {
    &&& forall|i: int| 0 <= i < n.len() ==> i + (#[trigger] n[i]).size < n.len()
    &&& forall|i: int, j: int|
        0 <= i < j < n.len() && j <= i + (#[trigger] n[i]).size ==> j + (#[trigger] n[j]).size
            <= i + n[i].size
}

/// Each node covers a range of bytes between `lo` and `hi`.
pub open spec fn within(n: Seq<Node>, lo: int, hi: int) -> bool {
    forall|i: int| 0 <= i < n.len() ==> lo <= (#[trigger] n[i]).start <= n[i].end <= hi
}

/// Nested, and all between `lo` and `hi`.
pub open spec fn tidy(n: Seq<Node>, lo: int, hi: int) -> bool {
    nested(n) && within(n, lo, hi)
}

/// The ranges follow the tree: a node covers what its descendants cover,
/// and ends before any later node starts that does not lie below it.
pub open spec fn spanned(n: Seq<Node>) -> bool {
    forall|i: int, j: int|
        0 <= i < j < n.len() ==> if j <= i + (#[trigger] n[i]).size {
            n[i].start <= (#[trigger] n[j]).start && n[j].end <= n[i].end
        } else {
            n[i].end <= n[j].start
        }
}

/// Tidy, with ranges that follow the tree: what a parse leaves.
pub open spec fn framed(n: Seq<Node>, lo: int, hi: int) -> bool {
    tidy(n, lo, hi) && spanned(n)
}

/// Two framed sequences, one after the other, are framed.
pub proof fn lemma_framed_concat(
    a: Seq<Node>,
    b: Seq<Node>,
    lo: int,
    mid: int,
    top: int,
    hi: int,
)
    requires
        framed(a, lo, mid),
        framed(b, top, hi),
        lo <= mid <= top <= hi,
    ensures
        framed(a + b, lo, hi),
{
    lemma_tidy_concat(a, b, lo, mid, top, hi);
    let c = a + b;
    assert forall|i: int, j: int| 0 <= i < j < c.len() implies if j <= i + (#[trigger] c[i]).size {
        c[i].start <= (#[trigger] c[j]).start && c[j].end <= c[i].end
    } else {
        c[i].end <= c[j].start
    } by {
        if j < a.len() {
            assert(c[i] == a[i]);
            assert(c[j] == a[j]);
        } else if i < a.len() {
            assert(c[i] == a[i]);
            assert(c[j] == b[j - a.len()]);
        } else {
            assert(c[i] == b[i - a.len()]);
            assert(c[j] == b[j - a.len()]);
        }
    }
}

/// A framed sequence under a node that counts and covers it is framed.
pub proof fn lemma_framed_under(head: Node, below: Seq<Node>, lo: int, hi: int)
    requires
        framed(below, head.start as int, head.end as int),
        head.size == below.len(),
        lo <= head.start <= head.end <= hi,
    ensures
        framed(seq![head] + below, lo, hi),
{
    lemma_tidy_under(head, below, lo, hi);
    let c = seq![head] + below;
    assert forall|i: int, j: int| 0 <= i < j < c.len() implies if j <= i + (#[trigger] c[i]).size {
        c[i].start <= (#[trigger] c[j]).start && c[j].end <= c[i].end
    } else {
        c[i].end <= c[j].start
    } by {
        assert(c[j] == below[j - 1]);
        if i > 0 {
            assert(c[i] == below[i - 1]);
        }
    }
}

/// Two tidy sequences, one after the other, are tidy.
pub proof fn lemma_tidy_concat(a: Seq<Node>, b: Seq<Node>, lo: int, mid: int, top: int, hi: int)
    requires
        tidy(a, lo, mid),
        tidy(b, top, hi),
        lo <= mid <= top <= hi,
    ensures
        tidy(a + b, lo, hi),
{
    let c = a + b;
    assert forall|i: int| 0 <= i < c.len() implies i + (#[trigger] c[i]).size < c.len() && lo
        <= c[i].start <= c[i].end <= hi by {
        if i < a.len() {
            assert(c[i] == a[i]);
        } else {
            assert(c[i] == b[i - a.len()]);
        }
    }
    assert forall|i: int, j: int|
        0 <= i < j < c.len() && j <= i + (#[trigger] c[i]).size implies j + (#[trigger] c[j]).size
        <= i + c[i].size by {
        if i < a.len() {
            assert(c[i] == a[i]);
            assert(c[j] == a[j]);
        } else {
            assert(c[i] == b[i - a.len()]);
            assert(c[j] == b[j - a.len()]);
        }
    }
}

/// A tidy sequence under a node that counts and covers it is tidy.
pub proof fn lemma_tidy_under(head: Node, below: Seq<Node>, lo: int, hi: int)
    requires
        tidy(below, head.start as int, head.end as int),
        head.size == below.len(),
        lo <= head.start <= head.end <= hi,
    ensures
        tidy(seq![head] + below, lo, hi),
{
    let c = seq![head] + below;
    assert forall|i: int| 0 <= i < c.len() implies i + (#[trigger] c[i]).size < c.len() && lo
        <= c[i].start <= c[i].end <= hi by {
        if i > 0 {
            assert(c[i] == below[i - 1]);
        }
    }
    assert forall|i: int, j: int|
        0 <= i < j < c.len() && j <= i + (#[trigger] c[i]).size implies j + (#[trigger] c[j]).size
        <= i + c[i].size by {
        assert(c[j] == below[j - 1]);
        if i > 0 {
            assert(c[i] == below[i - 1]);
        }
    }
}

/// The nodes from `i` on that lie below no other node from `i` on, by
/// their indices.
pub open spec fn roots_from(n: Seq<Node>, i: int) -> Seq<int>
    decreases n.len() - i,
{
    if 0 <= i < n.len() {
        let next = i + 1 + n[i].size;
        if next < n.len() {
            seq![i] + roots_from(n, next)
        } else {
            seq![i]
        }
    } else {
        Seq::empty()
    }
}

/// The indices of the nodes that lie below no other node.
pub open spec fn roots(n: Seq<Node>) -> Seq<int> {
    roots_from(n, 0)
}

/// The node at `i` with all its descendants.
pub open spec fn subtree(n: Seq<Node>, i: int) -> Seq<Node> {
    n.subrange(i, i + 1 + n[i].size)
}

/// In a nested sequence a node with its descendants is nested.
pub proof fn lemma_subtree_nested(n: Seq<Node>, i: int)
    requires
        nested(n),
        0 <= i < n.len(),
    ensures
        nested(subtree(n, i)),
        subtree(n, i).len() == 1 + n[i].size,
        subtree(n, i)[0] == n[i],
{
    let t = subtree(n, i);
    assert forall|k: int| 0 <= k < t.len() implies k + (#[trigger] t[k]).size < t.len() by {
        assert(t[k] == n[i + k]);
        if k > 0 {
            assert(i + k + n[i + k].size <= i + n[i].size);
        }
    }
    assert forall|k: int, j: int|
        0 <= k < j < t.len() && j <= k + (#[trigger] t[k]).size implies j + (#[trigger] t[j]).size
        <= k + t[k].size by {
        assert(t[k] == n[i + k]);
        assert(t[j] == n[i + j]);
    }
}

/// In a nested sequence that is one node with its descendants, the
/// descendants alone are nested.
pub proof fn lemma_below_nested(n: Seq<Node>)
    requires
        nested(n),
        n.len() == 1 + n[0].size,
    ensures
        nested(n.subrange(1, n.len() as int)),
{
    let t = n.subrange(1, n.len() as int);
    assert forall|k: int| 0 <= k < t.len() implies k + (#[trigger] t[k]).size < t.len() by {
        assert(t[k] == n[k + 1]);
        assert(k + 1 + n[k + 1].size <= 0 + n[0].size);
    }
    assert forall|k: int, j: int|
        0 <= k < j < t.len() && j <= k + (#[trigger] t[k]).size implies j + (#[trigger] t[j]).size
        <= k + t[k].size by {
        assert(t[k] == n[k + 1]);
        assert(t[j] == n[j + 1]);
    }
}

/// A range of bytes of the input, `start` included and `end` not.
#[derive(Clone, Copy, Debug, PartialEq, Eq, Structural)]
pub struct Span {
    pub start: usize,
    pub end: usize,
}

impl Span {
    /// The offset of the first byte.
    pub fn start(&self) -> (r: usize)
        ensures
            r == self.start,
    {
        self.start
    }

    /// The offset behind the last byte.
    pub fn end(&self) -> (r: usize)
        ensures
            r == self.end,
    {
        self.end
    }
}

/// One node of a parse tree with everything below it.
#[derive(Debug)]
pub struct Pair {
    nodes: Vec<Node>,
}

impl View for Pair {
    type V = Seq<Node>;

    /// The node, then its descendants in document order.
    closed spec fn view(&self) -> Seq<Node> {
        self.nodes@
    }
}

impl Pair {
    #[verifier::type_invariant]
    spec fn inv(self) -> bool {
        &&& nested(self.nodes@)
        &&& self.nodes@.len() > 0
        &&& self.nodes@.len() == 1 + self.nodes@[0].size
    }

    /// The rule that matched.
    pub fn as_rule(&self) -> (r: Rule)
        ensures
            self@.len() > 0,
            r == self@[0].rule,
    {
        proof {
            use_type_invariant(self);
        }
        self.nodes[0].rule
    }

    /// The bytes that the match covers.
    pub fn as_span(&self) -> (r: Span)
        ensures
            self@.len() > 0,
            r == (Span { start: self@[0].start, end: self@[0].end }),
    {
        proof {
            use_type_invariant(self);
        }
        Span { start: self.nodes[0].start, end: self.nodes[0].end }
    }

    /// Whether a node of the given rule lies below the node: with
    /// `pre_whitespace_omitter` or `pro_whitespace_omitter`, whether a tag
    /// carries `~` at that end.
    pub fn holds(&self, rule: Rule) -> (r: bool)
        ensures
            r == exists|k: int| 0 < k < self@.len() && (#[trigger] self@[k]).rule == rule,
    {
        let n: usize = self.nodes.len();
        let mut k: usize = 1;
        while k < n
            invariant
                1 <= k,
                n == self.nodes@.len(),
                forall|j: int| 0 < j < k && j < n ==> (#[trigger] self.nodes@[j]).rule != rule,
            decreases n - k,
        {
            if self.nodes[k].rule == rule {
                return true;
            }
            k = k + 1;
        }
        false
    }

    /// What lies below the node.
    pub fn into_inner(self) -> (r: Pairs)
        ensures
            self@.len() > 0,
            r@ == self@.subrange(1, self@.len() as int),
    {
        proof {
            use_type_invariant(&self);
            lemma_below_nested(self.nodes@);
        }
        let n: usize = self.nodes.len();
        let below = slice_to_vec(slice_subrange(self.nodes.as_slice(), 1, n));
        Pairs { nodes: below }
    }
}

/// A sequence of parse trees, one behind the other.
#[derive(Debug)]
pub struct Pairs {
    nodes: Vec<Node>,
}

impl View for Pairs {
    type V = Seq<Node>;

    /// The nodes of all the trees in document order.
    closed spec fn view(&self) -> Seq<Node> {
        self.nodes@
    }
}

impl Pairs {
    #[verifier::type_invariant]
    spec fn inv(self) -> bool {
        nested(self.nodes@)
    }

    /// The trees that the nested nodes make up.
    pub(crate) fn new(nodes: Vec<Node>) -> (r: Pairs)
        requires
            nested(nodes@),
        ensures
            r@ == nodes@,
    {
        Pairs { nodes }
    }

    /// All the nodes, in document order.
    pub fn nodes(&self) -> (r: &Vec<Node>)
        ensures
            r@ == self@,
            nested(r@),
    {
        proof {
            use_type_invariant(self);
        }
        &self.nodes
    }

    /// The number of trees.
    pub fn count(&self) -> (r: usize)
        ensures
            r == roots(self@).len(),
    {
        proof {
            use_type_invariant(self);
        }
        let n: usize = self.nodes.len();
        let mut i: usize = 0;
        let mut k: usize = 0;
        while i < n
            invariant
                nested(self.nodes@),
                n == self.nodes@.len(),
                i <= n,
                k <= i,
                roots(self@).len() == k + roots_from(self@, i as int).len(),
            decreases n - i,
        {
            i = i + 1 + self.nodes[i].size;
            k = k + 1;
        }
        k
    }

    /// The tree at place `k` among the trees, if there are that many.
    pub fn get(&self, k: usize) -> (r: Option<Pair>)
        ensures
            match r {
                Some(p) => k < roots(self@).len() && p@ == subtree(self@, roots(self@)[k as int]),
                None => k >= roots(self@).len(),
            },
    {
        proof {
            use_type_invariant(self);
        }
        let n: usize = self.nodes.len();
        let mut i: usize = 0;
        let mut j: usize = 0;
        while i < n && j < k
            invariant
                nested(self.nodes@),
                n == self.nodes@.len(),
                i <= n,
                j <= k,
                j <= i,
                roots(self@).len() == j + roots_from(self@, i as int).len(),
                forall|m: int|
                    0 <= m < roots_from(self@, i as int).len() ==> roots(self@)[j + m]
                        == #[trigger] roots_from(self@, i as int)[m],
            decreases n - i,
        {
            let ghost here = roots_from(self@, i as int);
            let ghost next = roots_from(self@, i + 1 + self@[i as int].size);
            assert forall|m: int| 0 <= m < next.len() implies roots(self@)[j + 1 + m]
                == #[trigger] next[m] by {
                assert(here[m + 1] == next[m]);
            }
            i = i + 1 + self.nodes[i].size;
            j = j + 1;
        }
        if i < n {
            proof {
                lemma_subtree_nested(self.nodes@, i as int);
                assert(roots_from(self@, i as int)[0] == i);
            }
            let end: usize = i + 1 + self.nodes[i].size;
            let part = slice_to_vec(slice_subrange(self.nodes.as_slice(), i, end));
            Some(Pair { nodes: part })
        } else {
            None
        }
    }

    /// The first tree, if there is one.
    pub fn first(&self) -> (r: Option<Pair>)
        ensures
            match r {
                Some(p) => roots(self@).len() > 0 && p@ == subtree(self@, roots(self@)[0]),
                None => roots(self@).len() == 0,
            },
    {
        self.get(0)
    }

    /// The last tree, if there is one.
    pub fn last(&self) -> (r: Option<Pair>)
        ensures
            match r {
                Some(p) => roots(self@).len() > 0 && p@ == subtree(self@, roots(self@).last()),
                None => roots(self@).len() == 0,
            },
    {
        let k: usize = self.count();
        if k == 0 {
            None
        } else {
            self.get(k - 1)
        }
    }
}

} // verus!
