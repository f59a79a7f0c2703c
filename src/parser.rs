//! Java source parsed by tree-sitter. The parser's tree arrives as a pre-order sequence of
//! tokens (a node opens, its children follow, the node closes), and is rebuilt here into plain
//! `SyntaxNode` values.
use vstd::prelude::*;

use crate::javadoc::DocError;
use crate::syntax::SyntaxNode;

verus! {

/// What the parser reports of one node.
pub struct NodeData {
    pub kind: String,
    pub field: Option<String>,
    pub start_byte: usize,
    pub end_byte: usize,
}

/// One step of a pre-order walk: a node opens, or the node opened last closes.
pub enum TreeToken {
    Open(NodeData),
    Close,
}

/// What a node's opening token holds, as plain values.
pub struct NodeInfo {
    pub kind: Seq<char>,
    pub field: Option<Seq<char>>,
    pub start_byte: usize,
    pub end_byte: usize,
}

/// A token as a plain value.
pub enum TokenView {
    Open(NodeInfo),
    Close,
}

/// An optional string as an optional sequence of characters.
pub open spec fn option_view(s: Option<String>) -> Option<Seq<char>> {
    match s {
        Some(s) => Some(s@),
        None => None,
    }
}

impl TreeToken {
    /// The token as a plain value.
    pub open spec fn view(&self) -> TokenView {
        match self {
            TreeToken::Open(d) => TokenView::Open(
                NodeInfo {
                    kind: d.kind@,
                    field: option_view(d.field),
                    start_byte: d.start_byte,
                    end_byte: d.end_byte,
                },
            ),
            TreeToken::Close => TokenView::Close,
        }
    }
}

/// The tokens as plain values.
pub open spec fn token_views(ts: Seq<TreeToken>) -> Seq<TokenView> {
    ts.map_values(|t: TreeToken| t.view())
}

/// The tokens of the tree-sitter Java parse of `source`, or `None` where it gives none.
pub uninterp spec fn java_tokens(source: Seq<char>) -> Option<Seq<TokenView>>;

/// The opening token of `n`.
pub open spec fn open_of(n: SyntaxNode) -> TokenView {
    TokenView::Open(
        NodeInfo {
            kind: n.kind@,
            field: option_view(n.field),
            start_byte: n.start_byte,
            end_byte: n.end_byte,
        },
    )
}

/// The pre-order tokens of the tree `n`.
pub open spec fn tokens_of(n: SyntaxNode) -> Seq<TokenView>
    decreases n,
{
    seq![open_of(n)] + tokens_of_list(n.children@) + seq![TokenView::Close]
}

/// The tokens of a run of sibling trees, one after the other.
pub open spec fn tokens_of_list(cs: Seq<SyntaxNode>) -> Seq<TokenView>
    decreases cs,
{
    if cs.len() == 0 {
        Seq::empty()
    } else {
        tokens_of(cs[0]) + tokens_of_list(cs.drop_first())
    }
}

/// Where the tree whose opening token is at `pos` ends, if the tokens hold one there.
pub open spec fn end_of_node(ts: Seq<TokenView>, pos: int) -> Option<int>
    decreases ts.len() - pos, 0int,
{
    if 0 <= pos < ts.len() && ts[pos] is Open {
        end_of_children(ts, pos + 1)
    } else {
        None
    }
}

/// Where the closing token after a run of sibling trees starting at `p` ends.
pub open spec fn end_of_children(ts: Seq<TokenView>, p: int) -> Option<int>
    decreases ts.len() - p, 1int,
{
    if p < 0 || p >= ts.len() {
        None
    } else if ts[p] is Close {
        Some(p + 1)
    } else {
        match end_of_node(ts, p) {
            Some(e) => if p < e <= ts.len() {
                end_of_children(ts, e)
            } else {
                None
            },
            None => None,
        }
    }
}

/// Appending one tree to a run appends its tokens.
proof fn lemma_tokens_of_list_push(cs: Seq<SyntaxNode>, c: SyntaxNode)
    ensures
        tokens_of_list(cs.push(c)) == tokens_of_list(cs) + tokens_of(c),
    decreases cs.len(),
{
    if cs.len() == 0 {
        assert(cs.push(c).drop_first() == Seq::<SyntaxNode>::empty());
        assert(tokens_of_list(Seq::<SyntaxNode>::empty()) == Seq::<TokenView>::empty());
    } else {
        assert(cs.push(c).drop_first() == cs.drop_first().push(c));
        lemma_tokens_of_list_push(cs.drop_first(), c);
    }
}

/// Where the tokens of `n` stand at `pos`, the tree found there ends right after them.
proof fn lemma_end_of_node(ts: Seq<TokenView>, pos: int, n: SyntaxNode)
    requires
        0 <= pos,
        pos + tokens_of(n).len() <= ts.len(),
        ts.subrange(pos, pos + tokens_of(n).len()) == tokens_of(n),
    ensures
        end_of_node(ts, pos) == Some(pos + tokens_of(n).len()),
    decreases n,
{
    let t = tokens_of(n);
    assert(ts[pos] == t[0]);
    let inner = tokens_of_list(n.children@);
    assert(ts.subrange(pos + 1, pos + 1 + inner.len() + 1) == inner + seq![TokenView::Close]) by {
        assert(t.subrange(1, t.len() as int) == inner + seq![TokenView::Close]);
        assert(ts.subrange(pos + 1, pos + t.len()) == t.subrange(1, t.len() as int));
    }
    lemma_end_of_children(ts, pos + 1, n.children@);
}

/// Where the tokens of the run `cs` and a closing token stand at `p`, the run ends right
/// after that closing token.
proof fn lemma_end_of_children(ts: Seq<TokenView>, p: int, cs: Seq<SyntaxNode>)
    requires
        0 <= p,
        p + tokens_of_list(cs).len() + 1 <= ts.len(),
        ts.subrange(p, p + tokens_of_list(cs).len() + 1) == tokens_of_list(cs) + seq![
            TokenView::Close,
        ],
    ensures
        end_of_children(ts, p) == Some(p + tokens_of_list(cs).len() + 1),
    decreases cs,
{
    let l = tokens_of_list(cs);
    assert(ts[p] == (l + seq![TokenView::Close])[0]);
    if cs.len() > 0 {
        let c = cs[0];
        let tc = tokens_of(c);
        let rest = tokens_of_list(cs.drop_first());
        assert(l == tc + rest);
        assert(ts.subrange(p, p + tc.len()) == tc) by {
            assert(ts.subrange(p, p + tc.len()) == (l + seq![TokenView::Close]).subrange(
                0,
                tc.len() as int,
            ));
        }
        lemma_end_of_node(ts, p, c);
        assert(tc[0] is Open);
        assert(ts.subrange(p + tc.len(), p + tc.len() + rest.len() + 1) == rest + seq![
            TokenView::Close,
        ]) by {
            assert(ts.subrange(p + tc.len(), p + tc.len() + rest.len() + 1) == (l + seq![
                TokenView::Close,
            ]).subrange(tc.len() as int, (l.len() + 1) as int));
        }
        lemma_end_of_children(ts, p + tc.len(), cs.drop_first());
    }
}

/// Parses `source` as Java and walks the tree in pre-order.
///
/// Relies on tree-sitter's `Parser::new`, `Parser::set_language` with the grammar of
/// `tree_sitter_java::LANGUAGE`, `Parser::parse` (no earlier tree, no timeout: the tree
/// depends on the source alone), and the `TreeCursor` walk (`node`, `field_name`,
/// `goto_first_child`, `goto_next_sibling`, `goto_parent`) reading each node's
/// `grammar_name`, `start_byte` and `end_byte`.
#[verifier::external_body]
fn parse_java(source: &str) -> (r: Option<Vec<TreeToken>>)
    ensures
        r matches Some(v) ==> java_tokens(source@) == Some(token_views(v@)),
        r is None ==> java_tokens(source@) is None,
{
    let mut parser = tree_sitter::Parser::new();
    parser.set_language(&tree_sitter_java::LANGUAGE.into()).ok()?;
    let tree = parser.parse(source, None)?;
    let (mut c, mut out) = (tree.walk(), Vec::new());
    loop {
        let n = c.node();
        let field = c.field_name().map(str::to_owned);
        out.push(TreeToken::Open(NodeData { kind: n.grammar_name().to_owned(), field, start_byte: n.start_byte(), end_byte: n.end_byte() }));
        if c.goto_first_child() { continue; }
        out.push(TreeToken::Close);
        while !c.goto_next_sibling() {
            if !c.goto_parent() { return Some(out); }
            out.push(TreeToken::Close);
        }
    }
}

/// A copy of an optional string.
fn clone_field(f: &Option<String>) -> (r: Option<String>)
    ensures
        option_view(r) == option_view(*f),
{
    match f {
        Some(s) => Some(s.clone()),
        None => None,
    }
}

/// Rebuilds the tree whose opening token is at `pos`; returns it with the position after its
/// closing token.
fn decode_node(ts: &Vec<TreeToken>, pos: usize) -> (r: Option<(SyntaxNode, usize)>)
    ensures
        r is Some <==> end_of_node(token_views(ts@), pos as int) is Some,
        r matches Some((n, e)) ==> end_of_node(token_views(ts@), pos as int) == Some(e as int)
            && pos < e <= ts@.len() && token_views(ts@).subrange(pos as int, e as int)
            == tokens_of(n),
    decreases ts@.len() - pos,
{
    let ghost tv = token_views(ts@);
    if pos >= ts.len() {
        return None;
    }
    let (kind, field, start_byte, end_byte) = match &ts[pos] {
        TreeToken::Open(d) => (d.kind.clone(), clone_field(&d.field), d.start_byte, d.end_byte),
        TreeToken::Close => {
            return None;
        },
    };
    let mut p: usize = pos + 1;
    let mut children: Vec<SyntaxNode> = Vec::new();
    assert(tv.subrange(pos + 1, pos + 1) == tokens_of_list(children@));
    loop
        invariant
            tv == token_views(ts@),
            pos < p <= ts@.len(),
            tv.subrange(pos + 1, p as int) == tokens_of_list(children@),
            end_of_node(tv, pos as int) == end_of_children(tv, p as int),
        ensures
            pos < p < ts@.len(),
            tv.subrange(pos + 1, p as int) == tokens_of_list(children@),
            end_of_node(tv, pos as int) == end_of_children(tv, p as int),
            ts@[p as int] is Close,
        decreases ts@.len() - p,
    {
        if p >= ts.len() {
            return None;
        }
        match &ts[p] {
            TreeToken::Close => {
                break ;
            },
            TreeToken::Open(_) => {
                match decode_node(ts, p) {
                    Some((c, e)) => {
                        proof {
                            lemma_tokens_of_list_push(children@, c);
                            assert(tv.subrange(pos + 1, e as int) == tv.subrange(pos + 1, p as int)
                                + tv.subrange(p as int, e as int));
                        }
                        children.push(c);
                        p = e;
                    },
                    None => {
                        return None;
                    },
                }
            },
        }
    }
    let n = SyntaxNode { kind, field, start_byte, end_byte, children };
    proof {
        assert(tv.subrange(pos as int, p + 1) == seq![tv[pos as int]] + tv.subrange(
            pos + 1,
            p as int,
        ) + seq![tv[p as int]]);
    }
    Some((n, p + 1))
}

/// The tree that `ts` holds, if the tokens are exactly the pre-order tokens of one tree.
pub fn tree_from_tokens(ts: &Vec<TreeToken>) -> (r: Option<SyntaxNode>)
    ensures
        r matches Some(n) ==> tokens_of(n) == token_views(ts@),
        r is None ==> !exists|n: SyntaxNode| tokens_of(n) == token_views(ts@),
{
    match decode_node(ts, 0) {
        Some((n, e)) => {
            if e == ts.len() {
                assert(token_views(ts@).subrange(0, e as int) == token_views(ts@));
                Some(n)
            } else {
                proof {
                    if exists|m: SyntaxNode| tokens_of(m) == token_views(ts@) {
                        let m = choose|m: SyntaxNode| tokens_of(m) == token_views(ts@);
                        assert(token_views(ts@).subrange(0, tokens_of(m).len() as int) == tokens_of(m));
                        lemma_end_of_node(token_views(ts@), 0, m);
                    }
                }
                None
            }
        },
        None => {
            proof {
                if exists|m: SyntaxNode| tokens_of(m) == token_views(ts@) {
                    let m = choose|m: SyntaxNode| tokens_of(m) == token_views(ts@);
                    assert(token_views(ts@).subrange(0, tokens_of(m).len() as int) == tokens_of(m));
                    lemma_end_of_node(token_views(ts@), 0, m);
                }
            }
            None
        },
    }
}

/// Parses Java source into a syntax tree of plain values, rooted at the compilation unit:
/// the tree whose pre-order tokens are those of the parse; `ParseFailed` where the parser gives
/// none.
pub fn parse_string(sourcecode: &str) -> (r: Result<SyntaxNode, DocError>)
    ensures
        match java_tokens(sourcecode@) {
            None => r == Err::<SyntaxNode, DocError>(DocError::ParseFailed),
            Some(ts) => match r {
                Ok(n) => tokens_of(n) == ts,
                Err(e) => e == DocError::ParseFailed && !exists|n: SyntaxNode| tokens_of(n) == ts,
            },
        },
{
    let ts = match parse_java(sourcecode) {
        Some(ts) => ts,
        None => {
            return Err(DocError::ParseFailed);
        },
    };
    match tree_from_tokens(&ts) {
        Some(n) => Ok(n),
        None => Err(DocError::ParseFailed),
    }
}

} // verus!
