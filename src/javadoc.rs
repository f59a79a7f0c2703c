//! Documentable elements: Java declarations paired with their Javadoc comment, and the walk
//! that builds them from a syntax tree.
use vstd::prelude::*;

use crate::comment::{adoc_text, javadoc_to_adoc};
use crate::source::{text_in, valid_range, FileContext};
use crate::syntax::{child_by_field, field_position, lemma_field_position, SyntaxNode};
use crate::text::push_char;

verus! {

/// The five kinds of declaration that can carry documentation.
#[derive(PartialEq, Eq, Structural, Clone, Copy, Debug)]
pub enum ElementKind {
    Class,
    Interface,
    Constructor,
    Method,
    Field,
}

/// The named child of a declaration that the builder reads.
#[derive(PartialEq, Eq, Structural, Clone, Copy, Debug)]
pub enum ChildField {
    Name,
    Type,
    Declarator,
    Parameters,
    Body,
}

/// Why a file could not be documented.
#[derive(PartialEq, Eq, Structural, Clone, Copy, Debug)]
pub enum DocError {
    /// A declaration lacks a child that the grammar guarantees.
    MissingChild(ChildField),
    /// A node's byte range does not lie on character boundaries of the source.
    InvalidRange,
    /// The parser produced no tree.
    ParseFailed,
}

/// A documentable element as a mathematical value: its kind, heading title, raw comment text
/// and, for classes and interfaces, the elements of its body in source order.
pub struct DocModel {
    pub kind: ElementKind,
    pub name: Seq<char>,
    pub comment: Seq<char>,
    pub children: Seq<DocModel>,
}

/// The kind of element a node of this grammar kind becomes, if any.
pub open spec fn element_kind_of(n: SyntaxNode) -> Option<ElementKind> {
    if n.kind@ == "class_declaration"@ {
        Some(ElementKind::Class)
    } else if n.kind@ == "interface_declaration"@ {
        Some(ElementKind::Interface)
    } else if n.kind@ == "constructor_declaration"@ {
        Some(ElementKind::Constructor)
    } else if n.kind@ == "method_declaration"@ {
        Some(ElementKind::Method)
    } else if n.kind@ == "field_declaration"@ {
        Some(ElementKind::Field)
    } else {
        None
    }
}

/// The sibling just before position `i`, if any.
pub open spec fn prev_of(nodes: Seq<SyntaxNode>, i: int) -> Option<SyntaxNode> {
    if 0 < i <= nodes.len() {
        Some(nodes[i - 1])
    } else {
        None
    }
}

/// A block comment whose first three bytes in the source are `/**`, over a readable range.
pub open spec fn is_javadoc(bytes: Seq<u8>, c: SyntaxNode) -> bool {
    &&& c.kind@ == "block_comment"@
    &&& c.start_byte + 3 <= bytes.len()
    &&& bytes[c.start_byte as int] == 47u8
    &&& bytes[c.start_byte + 1] == 42u8
    &&& bytes[c.start_byte + 2] == 42u8
    &&& valid_range(bytes, c.start_byte as int, c.end_byte as int)
}

/// The raw text of the Javadoc comment that immediately precedes a declaration, if any.
pub open spec fn doc_comment(bytes: Seq<u8>, prev: Option<SyntaxNode>) -> Option<Seq<char>> {
    match prev {
        Some(c) => if is_javadoc(bytes, c) {
            Some(text_in(bytes, c.start_byte as int, c.end_byte as int))
        } else {
            None
        },
        None => None,
    }
}

/// The source text of a node.
pub open spec fn node_text(bytes: Seq<u8>, n: SyntaxNode) -> Result<Seq<char>, DocError> {
    if valid_range(bytes, n.start_byte as int, n.end_byte as int) {
        Ok(text_in(bytes, n.start_byte as int, n.end_byte as int))
    } else {
        Err(DocError::InvalidRange)
    }
}

/// The spelling of a field name.
pub open spec fn field_label(f: ChildField) -> Seq<char> {
    match f {
        ChildField::Name => "name"@,
        ChildField::Type => "type"@,
        ChildField::Declarator => "declarator"@,
        ChildField::Parameters => "parameters"@,
        ChildField::Body => "body"@,
    }
}

/// The source text of the child of `n` under the field `f`.
pub open spec fn field_text(bytes: Seq<u8>, n: SyntaxNode, f: ChildField) -> Result<
    Seq<char>,
    DocError,
> {
    match child_by_field(n, field_label(f)) {
        Some(c) => node_text(bytes, c),
        None => Err(DocError::MissingChild(f)),
    }
}

/// `a`, a space, `b`.
pub open spec fn spaced(a: Seq<char>, b: Seq<char>) -> Seq<char> {
    a + seq![' '] + b
}

/// The heading title of a declaration: the name of a class or interface; `type name` of a
/// field (the name read from its declarator); `type name (params)` of a method;
/// `name (params)` of a constructor.
pub open spec fn declaration_name(bytes: Seq<u8>, n: SyntaxNode, k: ElementKind) -> Result<
    Seq<char>,
    DocError,
> {
    match k {
        ElementKind::Class | ElementKind::Interface => field_text(bytes, n, ChildField::Name),
        ElementKind::Field => match child_by_field(n, "declarator"@) {
            None => Err(DocError::MissingChild(ChildField::Declarator)),
            Some(d) => match field_text(bytes, n, ChildField::Type) {
                Err(e) => Err(e),
                Ok(t) => match field_text(bytes, d, ChildField::Name) {
                    Err(e) => Err(e),
                    Ok(name) => Ok(spaced(t, name)),
                },
            },
        },
        ElementKind::Method => match field_text(bytes, n, ChildField::Type) {
            Err(e) => Err(e),
            Ok(t) => match field_text(bytes, n, ChildField::Name) {
                Err(e) => Err(e),
                Ok(name) => match field_text(bytes, n, ChildField::Parameters) {
                    Err(e) => Err(e),
                    Ok(p) => Ok(spaced(spaced(t, name), p)),
                },
            },
        },
        ElementKind::Constructor => match field_text(bytes, n, ChildField::Name) {
            Err(e) => Err(e),
            Ok(name) => match field_text(bytes, n, ChildField::Parameters) {
                Err(e) => Err(e),
                Ok(p) => Ok(spaced(name, p)),
            },
        },
    }
}

/// What a node becomes: nothing when it is no declaration or lacks a Javadoc comment right
/// before it; otherwise its element, whose children for a class or interface are what the
/// nodes of its body become.
pub open spec fn build_node(bytes: Seq<u8>, n: SyntaxNode, prev: Option<SyntaxNode>) -> Result<
    Option<DocModel>,
    DocError,
>
    decreases n,
    via build_node_decreases
{
    match element_kind_of(n) {
        None => Ok(None),
        Some(k) => match doc_comment(bytes, prev) {
            None => Ok(None),
            Some(comment) => match declaration_name(bytes, n, k) {
                Err(e) => Err(e),
                Ok(name) => if k == ElementKind::Class || k == ElementKind::Interface {
                    match child_by_field(n, "body"@) {
                        None => Err(DocError::MissingChild(ChildField::Body)),
                        Some(body) => match build_list(bytes, body.children@) {
                            Err(e) => Err(e),
                            Ok(cs) => Ok(Some(DocModel { kind: k, name, comment, children: cs })),
                        },
                    }
                } else {
                    Ok(Some(DocModel { kind: k, name, comment, children: Seq::empty() }))
                },
            },
        },
    }
}

/// The elements that a run of sibling nodes becomes, in source order; the first error met
/// in that order otherwise.
pub open spec fn build_list(bytes: Seq<u8>, nodes: Seq<SyntaxNode>) -> Result<
    Seq<DocModel>,
    DocError,
>
    decreases nodes,
{
    if nodes.len() == 0 {
        Ok(Seq::empty())
    } else {
        match build_list(bytes, nodes.drop_last()) {
            Err(e) => Err(e),
            Ok(prefix) => match build_node(bytes, nodes.last(), prev_of(nodes, nodes.len() - 1)) {
                Err(e) => Err(e),
                Ok(None) => Ok(prefix),
                Ok(Some(m)) => Ok(prefix.push(m)),
            },
        }
    }
}

/// A declaration right after a block comment that starts with `/**` becomes an element of its
/// own kind that carries that comment, whenever its heading title (and, for a class or an
/// interface, its body) can be read; after a comment that starts otherwise, such as `/*`, or
/// after any other node, it becomes nothing.
pub proof fn lemma_comment_adjacency(
    bytes: Seq<u8>,
    n: SyntaxNode,
    prev: SyntaxNode,
    k: ElementKind,
)
    requires
        element_kind_of(n) == Some(k),
    ensures
        is_javadoc(bytes, prev) && declaration_name(bytes, n, k) is Ok && ((k
            == ElementKind::Class || k == ElementKind::Interface) ==> (child_by_field(
            n,
            "body"@,
        ) matches Some(body) && build_list(bytes, body.children@) is Ok)) ==> (build_node(
            bytes,
            n,
            Some(prev),
        ) matches Ok(Some(m)) && m.kind == k && m.comment == text_in(
            bytes,
            prev.start_byte as int,
            prev.end_byte as int,
        ) && declaration_name(bytes, n, k) == Ok::<Seq<char>, DocError>(m.name)),
        !is_javadoc(bytes, prev) ==> build_node(bytes, n, Some(prev)) == Ok::<
            Option<DocModel>,
            DocError,
        >(None),
{
}

/// A class without a Javadoc comment right before it yields nothing, whatever documented
/// members its body holds.
pub proof fn lemma_undocumented_class_dropped(
    bytes: Seq<u8>,
    n: SyntaxNode,
    prev: Option<SyntaxNode>,
)
    requires
        element_kind_of(n) == Some(ElementKind::Class),
        doc_comment(bytes, prev) is None,
    ensures
        build_node(bytes, n, prev) == Ok::<Option<DocModel>, DocError>(None),
{
}

#[via_fn]
proof fn build_node_decreases(bytes: Seq<u8>, n: SyntaxNode, prev: Option<SyntaxNode>) {
    lemma_field_position(n.children@, "body"@);
    match field_position(n.children@, "body"@) {
        Some(i) => {
            assert(decreases_to!(n => n.children@[i].children@));
        },
        None => {},
    }
}

/// A Javadoc comment: where it stands in the source, and its raw text.
pub struct BlockComment {
    pub start_byte: usize,
    pub end_byte: usize,
    pub text: String,
}

/// A documented class and the documented declarations of its body.
pub struct Class {
    pub comment: BlockComment,
    pub name: String,
    pub children: Vec<JavaDocableElement>,
}

/// A documented interface and the documented declarations of its body.
pub struct Interface {
    pub comment: BlockComment,
    pub name: String,
    pub children: Vec<JavaDocableElement>,
}

/// A documented constructor.
pub struct Constructor {
    pub comment: BlockComment,
    pub name: String,
}

/// A documented method.
pub struct Method {
    pub comment: BlockComment,
    pub name: String,
}

/// A documented field.
pub struct Field {
    pub comment: BlockComment,
    pub name: String,
}

/// A declaration together with the Javadoc comment right before it.
pub enum JavaDocableElement {
    Class(Class),
    Field(Field),
    Method(Method),
    Constructor(Constructor),
    Interface(Interface),
}

impl JavaDocableElement {
    /// The element as a mathematical value.
    pub open spec fn model(&self) -> DocModel
        decreases self,
    {
        match self {
            JavaDocableElement::Class(c) => DocModel {
                kind: ElementKind::Class,
                name: c.name@,
                comment: c.comment.text@,
                children: models(c.children@),
            },
            JavaDocableElement::Interface(c) => DocModel {
                kind: ElementKind::Interface,
                name: c.name@,
                comment: c.comment.text@,
                children: models(c.children@),
            },
            JavaDocableElement::Constructor(c) => DocModel {
                kind: ElementKind::Constructor,
                name: c.name@,
                comment: c.comment.text@,
                children: Seq::empty(),
            },
            JavaDocableElement::Method(c) => DocModel {
                kind: ElementKind::Method,
                name: c.name@,
                comment: c.comment.text@,
                children: Seq::empty(),
            },
            JavaDocableElement::Field(c) => DocModel {
                kind: ElementKind::Field,
                name: c.name@,
                comment: c.comment.text@,
                children: Seq::empty(),
            },
        }
    }
}

/// The models of a run of elements.
pub open spec fn models(s: Seq<JavaDocableElement>) -> Seq<DocModel>
    decreases s,
{
    if s.len() == 0 {
        Seq::empty()
    } else {
        models(s.drop_last()).push(s.last().model())
    }
}

/// `models` keeps the length and maps each element.
pub proof fn lemma_models(s: Seq<JavaDocableElement>)
    ensures
        models(s).len() == s.len(),
        forall|i: int| 0 <= i < s.len() ==> #[trigger] models(s)[i] == s[i].model(),
    decreases s.len(),
{
    if s.len() > 0 {
        lemma_models(s.drop_last());
    }
}

/// An optional element as an optional model.
pub open spec fn option_model(e: Option<JavaDocableElement>) -> Option<DocModel> {
    match e {
        Some(e) => Some(e.model()),
        None => None,
    }
}

/// A built element, or the error met, as a model.
pub open spec fn result_model(r: Result<Option<JavaDocableElement>, DocError>) -> Result<
    Option<DocModel>,
    DocError,
> {
    match r {
        Ok(e) => Ok(option_model(e)),
        Err(e) => Err(e),
    }
}

/// A text read from the source, or the error met, as characters.
pub open spec fn text_result(r: Result<String, DocError>) -> Result<Seq<char>, DocError> {
    match r {
        Ok(s) => Ok(s@),
        Err(e) => Err(e),
    }
}

impl Class {
    /// The heading title.
    pub fn get_name(&self) -> (r: String)
        ensures
            r@ == self.name@,
    {
        self.name.clone()
    }

    /// The Javadoc comment.
    pub fn get_comment(&self) -> (r: &BlockComment)
        ensures
            r == &self.comment,
    {
        &self.comment
    }

    /// The documented declarations of the body, in source order.
    pub fn get_children(&self) -> (r: &Vec<JavaDocableElement>)
        ensures
            r == &self.children,
    {
        &self.children
    }
}

impl Interface {
    /// The heading title.
    pub fn get_name(&self) -> (r: String)
        ensures
            r@ == self.name@,
    {
        self.name.clone()
    }

    /// The Javadoc comment.
    pub fn get_comment(&self) -> (r: &BlockComment)
        ensures
            r == &self.comment,
    {
        &self.comment
    }

    /// The documented declarations of the body, in source order.
    pub fn get_children(&self) -> (r: &Vec<JavaDocableElement>)
        ensures
            r == &self.children,
    {
        &self.children
    }
}

impl Constructor {
    /// The heading title: `name (params)`.
    pub fn get_name(&self) -> (r: String)
        ensures
            r@ == self.name@,
    {
        self.name.clone()
    }

    /// The Javadoc comment.
    pub fn get_comment(&self) -> (r: &BlockComment)
        ensures
            r == &self.comment,
    {
        &self.comment
    }
}

impl Method {
    /// The heading title: `type name (params)`.
    pub fn get_name(&self) -> (r: String)
        ensures
            r@ == self.name@,
    {
        self.name.clone()
    }

    /// The Javadoc comment.
    pub fn get_comment(&self) -> (r: &BlockComment)
        ensures
            r == &self.comment,
    {
        &self.comment
    }
}

impl Field {
    /// The heading title: `type name`.
    pub fn get_name(&self) -> (r: String)
        ensures
            r@ == self.name@,
    {
        self.name.clone()
    }

    /// The Javadoc comment.
    pub fn get_comment(&self) -> (r: &BlockComment)
        ensures
            r == &self.comment,
    {
        &self.comment
    }
}

impl JavaDocableElement {
    /// The heading title of the element.
    pub fn get_name(&self) -> (r: String)
        ensures
            r@ == self.model().name,
    {
        match self {
            JavaDocableElement::Class(c) => c.get_name(),
            JavaDocableElement::Interface(c) => c.get_name(),
            JavaDocableElement::Constructor(c) => c.get_name(),
            JavaDocableElement::Method(c) => c.get_name(),
            JavaDocableElement::Field(c) => c.get_name(),
        }
    }

    /// The element's Javadoc comment.
    pub fn get_comment(&self) -> (r: &BlockComment)
        ensures
            r.text@ == self.model().comment,
    {
        match self {
            JavaDocableElement::Class(c) => &c.comment,
            JavaDocableElement::Interface(c) => &c.comment,
            JavaDocableElement::Constructor(c) => &c.comment,
            JavaDocableElement::Method(c) => &c.comment,
            JavaDocableElement::Field(c) => &c.comment,
        }
    }
}

impl BlockComment {
    /// The comment that `node` spans in `context`.
    pub fn new(node: &SyntaxNode, context: &FileContext) -> (r: BlockComment)
        requires
            valid_range(context.bytes(), node.start_byte as int, node.end_byte as int),
        ensures
            r.start_byte == node.start_byte,
            r.end_byte == node.end_byte,
            r.text@ == text_in(context.bytes(), node.start_byte as int, node.end_byte as int),
    {
        let text = context.source_for_start_end(node.start_byte, node.end_byte).to_owned();
        BlockComment { start_byte: node.start_byte, end_byte: node.end_byte, text }
    }

    /// The comment as AsciiDoc body text, ending in a newline.
    pub fn render(&self) -> (r: String)
        ensures
            r@ == adoc_text(self.text@).push('\n'),
    {
        let mut r = javadoc_to_adoc(self.text.as_str());
        push_char(&mut r, '\n');
        r
    }
}

/// The Javadoc comment that immediately precedes `siblings[index]`: the sibling right before
/// it, when that is a block comment starting with `/**`.
pub fn find_block_comment(siblings: &Vec<SyntaxNode>, index: usize, context: &FileContext) -> (r:
    Option<BlockComment>)
    requires
        index < siblings@.len(),
    ensures
        r is Some <==> doc_comment(context.bytes(), prev_of(siblings@, index as int)) is Some,
        r matches Some(c) ==> doc_comment(context.bytes(), prev_of(siblings@, index as int))
            == Some(c.text@),
        r matches Some(c) ==> c.start_byte == siblings@[index - 1].start_byte && c.end_byte
            == siblings@[index - 1].end_byte,
{
    if index == 0 {
        return None;
    }
    let c = &siblings[index - 1];
    if !c.is_kind("block_comment") {
        return None;
    }
    let len = context.byte_len();
    if len < 3 || c.start_byte > len - 3 {
        return None;
    }
    let start = c.start_byte;
    if context.byte_at(start) == 47u8 && context.byte_at(start + 1) == 42u8 && context.byte_at(
        start + 2,
    ) == 42u8 && context.is_valid_range(start, c.end_byte) {
        Some(BlockComment::new(c, context))
    } else {
        None
    }
}

/// The grammar spelling of a field name.
fn field_label_str(f: ChildField) -> (r: &'static str)
    ensures
        r@ == field_label(f),
{
    match f {
        ChildField::Name => "name",
        ChildField::Type => "type",
        ChildField::Declarator => "declarator",
        ChildField::Parameters => "parameters",
        ChildField::Body => "body",
    }
}

/// The source text of `n`.
fn read_node(n: &SyntaxNode, context: &FileContext) -> (r: Result<String, DocError>)
    ensures
        text_result(r) == node_text(context.bytes(), *n),
{
    match context.checked_source(n.start_byte, n.end_byte) {
        Some(t) => Ok(t.to_owned()),
        None => Err(DocError::InvalidRange),
    }
}

/// The source text of the child of `n` under the field `f`.
fn read_field(n: &SyntaxNode, f: ChildField, context: &FileContext) -> (r: Result<
    String,
    DocError,
>)
    ensures
        text_result(r) == field_text(context.bytes(), *n, f),
{
    match n.child_by_field_name(field_label_str(f)) {
        Some(c) => read_node(c, context),
        None => Err(DocError::MissingChild(f)),
    }
}

/// `a`, a space, `b`.
fn join_spaced(a: String, b: &String) -> (r: String)
    ensures
        r@ == spaced(a@, b@),
{
    let mut r = a;
    push_char(&mut r, ' ');
    r.append(b.as_str());
    r
}

/// The heading title of the declaration `n` of kind `k`.
fn read_declaration_name(n: &SyntaxNode, k: ElementKind, context: &FileContext) -> (r: Result<
    String,
    DocError,
>)
    ensures
        text_result(r) == declaration_name(context.bytes(), *n, k),
{
    match k {
        ElementKind::Class | ElementKind::Interface => read_field(n, ChildField::Name, context),
        ElementKind::Field => {
            let d = match n.child_by_field_name("declarator") {
                Some(d) => d,
                None => {
                    return Err(DocError::MissingChild(ChildField::Declarator));
                },
            };
            let t = match read_field(n, ChildField::Type, context) {
                Ok(t) => t,
                Err(e) => {
                    return Err(e);
                },
            };
            match read_field(d, ChildField::Name, context) {
                Ok(name) => Ok(join_spaced(t, &name)),
                Err(e) => Err(e),
            }
        },
        ElementKind::Method => {
            let t = match read_field(n, ChildField::Type, context) {
                Ok(t) => t,
                Err(e) => {
                    return Err(e);
                },
            };
            let name = match read_field(n, ChildField::Name, context) {
                Ok(name) => name,
                Err(e) => {
                    return Err(e);
                },
            };
            match read_field(n, ChildField::Parameters, context) {
                Ok(p) => Ok(join_spaced(join_spaced(t, &name), &p)),
                Err(e) => Err(e),
            }
        },
        ElementKind::Constructor => {
            let name = match read_field(n, ChildField::Name, context) {
                Ok(name) => name,
                Err(e) => {
                    return Err(e);
                },
            };
            match read_field(n, ChildField::Parameters, context) {
                Ok(p) => Ok(join_spaced(name, &p)),
                Err(e) => Err(e),
            }
        },
    }
}

/// The element kind of a node's grammar kind, if it is a declaration that can be documented.
fn element_kind(n: &SyntaxNode) -> (r: Option<ElementKind>)
    ensures
        r == element_kind_of(*n),
{
    if n.is_kind("class_declaration") {
        Some(ElementKind::Class)
    } else if n.is_kind("interface_declaration") {
        Some(ElementKind::Interface)
    } else if n.is_kind("constructor_declaration") {
        Some(ElementKind::Constructor)
    } else if n.is_kind("method_declaration") {
        Some(ElementKind::Method)
    } else if n.is_kind("field_declaration") {
        Some(ElementKind::Field)
    } else {
        None
    }
}

/// Builds the element for `siblings[index]`: nothing for a node that is no class, interface,
/// constructor, method or field declaration, or that lacks a Javadoc comment right before it;
/// a class or interface also gets the elements of its body. A declaration missing a child
/// its heading needs, or a range off the source, is an error.
pub fn node_to_docable(siblings: &Vec<SyntaxNode>, index: usize, context: &FileContext) -> (r:
    Result<Option<JavaDocableElement>, DocError>)
    requires
        index < siblings@.len(),
    ensures
        result_model(r) == build_node(
            context.bytes(),
            siblings@[index as int],
            prev_of(siblings@, index as int),
        ),
    decreases siblings@[index as int],
{
    let node = &siblings[index];
    let k = match element_kind(node) {
        Some(k) => k,
        None => {
            return Ok(None);
        },
    };
    let comment = match find_block_comment(siblings, index, context) {
        Some(c) => c,
        None => {
            return Ok(None);
        },
    };
    let name = match read_declaration_name(node, k, context) {
        Ok(name) => name,
        Err(e) => {
            return Err(e);
        },
    };
    match k {
        ElementKind::Class | ElementKind::Interface => {
            let body = match node.child_by_field_name("body") {
                Some(body) => body,
                None => {
                    return Err(DocError::MissingChild(ChildField::Body));
                },
            };
            proof {
                lemma_field_position(node.children@, "body"@);
                let i = field_position(node.children@, "body"@)->0;
                assert(decreases_to!(siblings@[index as int] => node.children@[i]));
            }
            let children = match build_children(body, context) {
                Ok(cs) => cs,
                Err(e) => {
                    return Err(e);
                },
            };
            if k == ElementKind::Class {
                Ok(Some(JavaDocableElement::Class(Class { comment, name, children })))
            } else {
                Ok(Some(JavaDocableElement::Interface(Interface { comment, name, children })))
            }
        },
        ElementKind::Constructor => Ok(
            Some(JavaDocableElement::Constructor(Constructor { comment, name })),
        ),
        ElementKind::Method => Ok(Some(JavaDocableElement::Method(Method { comment, name }))),
        ElementKind::Field => Ok(Some(JavaDocableElement::Field(Field { comment, name }))),
    }
}

/// An error met in a prefix of the siblings is the error of the whole run.
proof fn lemma_build_list_error(bytes: Seq<u8>, nodes: Seq<SyntaxNode>, k: int, e: DocError)
    requires
        0 <= k <= nodes.len(),
        build_list(bytes, nodes.take(k)) == Err::<Seq<DocModel>, DocError>(e),
    ensures
        build_list(bytes, nodes) == Err::<Seq<DocModel>, DocError>(e),
    decreases nodes.len(),
{
    if k == nodes.len() {
        assert(nodes.take(k) == nodes);
    } else {
        assert(nodes.drop_last().take(k) == nodes.take(k));
        lemma_build_list_error(bytes, nodes.drop_last(), k, e);
    }
}

/// The elements that the children of `parent` become, in source order.
pub fn build_children(parent: &SyntaxNode, context: &FileContext) -> (r: Result<
    Vec<JavaDocableElement>,
    DocError,
>)
    ensures
        match r {
            Ok(v) => build_list(context.bytes(), parent.children@) == Ok::<
                Seq<DocModel>,
                DocError,
            >(models(v@)),
            Err(e) => build_list(context.bytes(), parent.children@) == Err::<
                Seq<DocModel>,
                DocError,
            >(e),
        },
    decreases *parent,
{
    let n = parent.children.len();
    let mut out: Vec<JavaDocableElement> = Vec::new();
    let mut i: usize = 0;
    assert(parent.children@.take(0) == Seq::<SyntaxNode>::empty());
    while i < n
        invariant
            n == parent.children@.len(),
            i <= n,
            build_list(context.bytes(), parent.children@.take(i as int)) == Ok::<
                Seq<DocModel>,
                DocError,
            >(models(out@)),
        decreases n - i,
    {
        let ghost nodes = parent.children@.take(i + 1);
        assert(nodes.drop_last() == parent.children@.take(i as int));
        assert(nodes.last() == parent.children@[i as int]);
        assert(prev_of(nodes, i as int) == prev_of(parent.children@, i as int));
        assert(decreases_to!(*parent => parent.children@[i as int]));
        match node_to_docable(&parent.children, i, context) {
            Ok(Some(e)) => {
                let ghost before = out@;
                out.push(e);
                assert(out@.drop_last() == before);
            },
            Ok(None) => {},
            Err(e) => {
                proof {
                    lemma_build_list_error(context.bytes(), parent.children@, i + 1, e);
                }
                return Err(e);
            },
        }
        i = i + 1;
    }
    assert(parent.children@.take(n as int) == parent.children@);
    Ok(out)
}

} // verus!
