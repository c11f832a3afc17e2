//! The concrete syntax tree the converter reads: each node with its kind, the
//! field it fills in its parent, whether it is named, its source text and its
//! children, anonymous tokens included.

use vstd::prelude::*;
use crate::text::owned;

verus! {

broadcast use vstd::std_specs::vec::group_vec_axioms;

pub struct SyntaxNode {
    /// The grammar kind, such as `interface_declaration` or `{`.
    pub kind: String,
    /// The name of the field this node fills in its parent, if any.
    pub field: Option<String>,
    /// Whether the node is named (not an anonymous token).
    pub named: bool,
    /// The node's source text; `None` when it is not valid UTF-8.
    pub text: Option<String>,
    pub children: Vec<SyntaxNode>,
}

pub struct NodeModel {
    pub kind: Seq<char>,
    pub field: Option<Seq<char>>,
    pub named: bool,
    pub text: Option<Seq<char>>,
    pub children: Seq<NodeModel>,
}

pub open spec fn node_model(n: SyntaxNode) -> NodeModel
    decreases n,
{
    NodeModel {
        kind: n.kind@,
        field: match n.field {
            Some(f) => Some(f@),
            None => None,
        },
        named: n.named,
        text: match n.text {
            Some(t) => Some(t@),
            None => None,
        },
        children: Seq::new(
            n.children.len() as nat,
            |i: int|
                if 0 <= i < n.children.len() {
                    node_model(n.children@[i])
                } else {
                    arbitrary()
                },
        ),
    }
}

impl View for SyntaxNode {
    type V = NodeModel;

    open spec fn view(&self) -> NodeModel {
        node_model(*self)
    }
}

/// The position of the first of `cs[0..j]` that fills field `f`, or -1.
pub open spec fn field_index_upto(cs: Seq<NodeModel>, f: Seq<char>, j: int) -> int
    decreases j,
{
    if j <= 0 {
        -1
    } else {
        let k = field_index_upto(cs, f, j - 1);
        if k >= 0 {
            k
        } else if cs[j - 1].field == Some(f) {
            j - 1
        } else {
            -1
        }
    }
}

/// The position of the first child that fills field `f`, or -1.
pub open spec fn field_index(n: NodeModel, f: Seq<char>) -> int {
    field_index_upto(n.children, f, n.children.len() as int)
}

/// Whether some child fills field `f`.
pub open spec fn has_field(n: NodeModel, f: Seq<char>) -> bool {
    0 <= field_index(n, f) < n.children.len()
}

/// The first child that fills field `f`.
pub open spec fn field_child(n: NodeModel, f: Seq<char>) -> NodeModel {
    n.children[field_index(n, f)]
}

/// The position of the first named child among `cs[0..j]`, or -1.
pub open spec fn named_index_upto(cs: Seq<NodeModel>, j: int) -> int
    decreases j,
{
    if j <= 0 {
        -1
    } else {
        let k = named_index_upto(cs, j - 1);
        if k >= 0 {
            k
        } else if cs[j - 1].named {
            j - 1
        } else {
            -1
        }
    }
}

/// The position of the first named child, or -1.
pub open spec fn first_named_index(n: NodeModel) -> int {
    named_index_upto(n.children, n.children.len() as int)
}

/// Whether the node has a named child.
pub open spec fn has_named_child(n: NodeModel) -> bool {
    0 <= first_named_index(n) < n.children.len()
}

/// The number of named children among `cs[0..j]`.
pub open spec fn named_count_upto(cs: Seq<NodeModel>, j: int) -> nat
    decreases j,
{
    if j <= 0 {
        0
    } else {
        named_count_upto(cs, j - 1) + if cs[j - 1].named {
            1nat
        } else {
            0nat
        }
    }
}

pub open spec fn named_child_count(n: NodeModel) -> nat {
    named_count_upto(n.children, n.children.len() as int)
}

/// Whether the node has a first child and it is of kind `k`.
pub open spec fn first_child_is(n: NodeModel, k: Seq<char>) -> bool {
    n.children.len() > 0 && n.children[0].kind == k
}

pub proof fn lemma_field_index_stable(cs: Seq<NodeModel>, f: Seq<char>, j: int, k: int)
    requires
        0 <= j <= k,
        field_index_upto(cs, f, j) >= 0,
    ensures
        field_index_upto(cs, f, k) == field_index_upto(cs, f, j),
    decreases k - j,
{
    if k > j {
        lemma_field_index_stable(cs, f, j, k - 1);
    }
}

pub proof fn lemma_named_index_stable(cs: Seq<NodeModel>, j: int, k: int)
    requires
        0 <= j <= k,
        named_index_upto(cs, j) >= 0,
    ensures
        named_index_upto(cs, k) == named_index_upto(cs, j),
    decreases k - j,
{
    if k > j {
        lemma_named_index_stable(cs, j, k - 1);
    }
}

impl SyntaxNode {
    /// The position of the first child that fills field `name`.
    pub fn field_position(&self, name: &str) -> (r: Option<usize>)
        ensures
            r is Some <==> has_field(self@, name@),
            r matches Some(k) ==> k == field_index(self@, name@),
    {
        let ghost cs = self@.children;
        let n = self.children.len();
        let mut j: usize = 0;
        while j < n
            invariant
                j <= n == self.children.len(),
                cs == self@.children,
                cs.len() == n,
                field_index_upto(cs, name@, j as int) == -1,
            decreases n - j,
        {
            let hit = match &self.children[j].field {
                Some(f) => *f == owned(name),
                None => false,
            };
            assert(cs[j as int] == self.children@[j as int]@);
            if hit {
                proof {
                    lemma_field_index_stable(cs, name@, j + 1, n as int);
                }
                return Some(j);
            }
            j = j + 1;
        }
        None
    }

    /// The first child that fills field `name`, as tree-sitter's `child_by_field_name`.
    pub fn child_by_field_name(&self, name: &str) -> (r: Option<&SyntaxNode>)
        ensures
            r is Some <==> has_field(self@, name@),
            r matches Some(c) ==> c@ == field_child(self@, name@),
    {
        match self.field_position(name) {
            Some(k) => Some(&self.children[k]),
            None => None,
        }
    }

    /// The position of the first named child.
    pub fn first_named_position(&self) -> (r: Option<usize>)
        ensures
            r is Some <==> has_named_child(self@),
            r matches Some(k) ==> k == first_named_index(self@),
    {
        let ghost cs = self@.children;
        let n = self.children.len();
        let mut j: usize = 0;
        while j < n
            invariant
                j <= n == self.children.len(),
                cs == self@.children,
                cs.len() == n,
                named_index_upto(cs, j as int) == -1,
            decreases n - j,
        {
            assert(cs[j as int] == self.children@[j as int]@);
            if self.children[j].named {
                proof {
                    lemma_named_index_stable(cs, j + 1, n as int);
                }
                return Some(j);
            }
            j = j + 1;
        }
        None
    }

    /// The number of named children.
    pub fn named_child_count(&self) -> (r: usize)
        ensures
            r == named_child_count(self@),
    {
        let ghost cs = self@.children;
        let n = self.children.len();
        let mut count: usize = 0;
        let mut j: usize = 0;
        while j < n
            invariant
                j <= n == self.children.len(),
                cs == self@.children,
                cs.len() == n,
                count == named_count_upto(cs, j as int),
                count <= j,
            decreases n - j,
        {
            assert(cs[j as int] == self.children@[j as int]@);
            if self.children[j].named {
                count = count + 1;
            }
            j = j + 1;
        }
        count
    }

    /// Whether the first child is of kind `kind`.
    pub fn first_child_is(&self, kind: &str) -> (r: bool)
        ensures
            r == first_child_is(self@, kind@),
    {
        if self.children.len() > 0 {
            assert(self@.children[0] == self.children@[0]@);
            self.children[0].kind == owned(kind)
        } else {
            false
        }
    }

    /// Whether the node is of kind `kind`.
    pub fn is_kind(&self, kind: &str) -> (r: bool)
        ensures
            r == (self@.kind == kind@),
    {
        self.kind == owned(kind)
    }
}

} // verus!
