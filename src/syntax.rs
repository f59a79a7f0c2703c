//! A parsed syntax tree held as plain values: a grammar kind, a byte range, the field under
//! which the parent holds the node, and the children in source order.
use vstd::prelude::*;

verus! {

/// One node of a syntax tree.
pub struct SyntaxNode {
    /// The grammar's name for the node's kind (`class_declaration`, `block_comment`, ...).
    pub kind: String,
    /// The field name under which the parent holds this node (`name`, `body`, ...), if any.
    pub field: Option<String>,
    /// First byte of the node in the source.
    pub start_byte: usize,
    /// One past the last byte of the node in the source.
    pub end_byte: usize,
    /// The children, named or not, in source order; a child's previous sibling is the one
    /// before it here.
    pub children: Vec<SyntaxNode>,
}

/// The node is held under the field `f`.
pub open spec fn has_field(n: SyntaxNode, f: Seq<char>) -> bool {
    n.field matches Some(s) && s@ == f
}

/// The position of the first of `nodes` held under the field `f`.
pub open spec fn field_position(nodes: Seq<SyntaxNode>, f: Seq<char>) -> Option<int>
    decreases nodes.len(),
{
    if nodes.len() == 0 {
        None
    } else if has_field(nodes[0], f) {
        Some(0)
    } else {
        match field_position(nodes.drop_first(), f) {
            Some(i) => Some(i + 1),
            None => None,
        }
    }
}

/// The first child of `n` held under the field `f`.
pub open spec fn child_by_field(n: SyntaxNode, f: Seq<char>) -> Option<SyntaxNode> {
    match field_position(n.children@, f) {
        Some(i) => Some(n.children@[i]),
        None => None,
    }
}

/// What `field_position` finds is a node under `f`, and no earlier one is.
pub proof fn lemma_field_position(nodes: Seq<SyntaxNode>, f: Seq<char>)
    ensures
        match field_position(nodes, f) {
            Some(k) => 0 <= k < nodes.len() && has_field(nodes[k], f) && forall|j: int|
                0 <= j < k ==> !has_field(#[trigger] nodes[j], f),
            None => forall|j: int| 0 <= j < nodes.len() ==> !has_field(#[trigger] nodes[j], f),
        },
    decreases nodes.len(),
{
    if nodes.len() > 0 && !has_field(nodes[0], f) {
        lemma_field_position(nodes.drop_first(), f);
        assert forall|j: int| 0 < j < nodes.len() implies nodes[j] == nodes.drop_first()[j - 1] by {
        }
    }
}

/// A scan that stops at `k` finds the first node under `f`.
proof fn lemma_field_position_at(nodes: Seq<SyntaxNode>, f: Seq<char>, k: int)
    requires
        0 <= k <= nodes.len(),
        forall|j: int| 0 <= j < k ==> !has_field(#[trigger] nodes[j], f),
        k < nodes.len() ==> has_field(nodes[k], f),
    ensures
        field_position(nodes, f) == (if k < nodes.len() {
            Some(k)
        } else {
            None::<int>
        }),
    decreases nodes.len(),
{
    if nodes.len() > 0 && k > 0 {
        assert forall|j: int| 0 <= j < k - 1 implies !has_field(#[trigger] nodes.drop_first()[j], f) by {
            assert(nodes.drop_first()[j] == nodes[j + 1]);
        }
        lemma_field_position_at(nodes.drop_first(), f, k - 1);
    }
}

/// Tells whether two strings hold the same characters.
pub fn same_text(a: &str, b: &str) -> (r: bool)
    ensures
        r == (a@ == b@),
{
    let n = a.unicode_len();
    if n != b.unicode_len() {
        return false;
    }
    let mut i: usize = 0;
    while i < n
        invariant
            n == a@.len() == b@.len(),
            i <= n,
            forall|j: int| 0 <= j < i ==> a@[j] == b@[j],
        decreases n - i,
    {
        if a.get_char(i) != b.get_char(i) {
            return false;
        }
        i = i + 1;
    }
    assert(a@ == b@);
    true
}

impl SyntaxNode {
    /// Tells whether the node's kind is `kind`.
    pub fn is_kind(&self, kind: &str) -> (r: bool)
        ensures
            r == (self.kind@ == kind@),
    {
        same_text(self.kind.as_str(), kind)
    }

    /// The first child held under the field `field_name`.
    pub fn child_by_field_name(&self, field_name: &str) -> (r: Option<&SyntaxNode>)
        ensures
            r matches Some(c) ==> child_by_field(*self, field_name@) == Some(*c),
            r is None ==> child_by_field(*self, field_name@) is None,
    {
        let n = self.children.len();
        let mut i: usize = 0;
        while i < n
            invariant
                n == self.children@.len(),
                i <= n,
                forall|j: int| 0 <= j < i ==> !has_field(#[trigger] self.children@[j], field_name@),
            decreases n - i,
        {
            let c = &self.children[i];
            let found = match &c.field {
                Some(f) => same_text(f.as_str(), field_name),
                None => false,
            };
            if found {
                proof {
                    lemma_field_position_at(self.children@, field_name@, i as int);
                }
                return Some(c);
            }
            i = i + 1;
        }
        proof {
            lemma_field_position_at(self.children@, field_name@, n as int);
        }
        None
    }
}

} // verus!
