//! Documentable elements rendered as AsciiDoc: a heading per element whose marker grows with
//! the nesting, the comment body, and the members of a class or interface in captioned groups.
use vstd::prelude::*;

use crate::comment::adoc_text;
use crate::javadoc::{lemma_models, models, DocModel, ElementKind, JavaDocableElement};
use crate::text::push_char;

verus! {

/// The language of the group captions.
#[derive(PartialEq, Eq, Structural, Clone, Copy, Debug)]
pub enum Locale {
    En,
    De,
}

impl Locale {
    /// The locale's code, `en` or `de`.
    pub fn as_str(&self) -> (r: &'static str)
        ensures
            *self == Locale::En ==> r@ == "en"@,
            *self == Locale::De ==> r@ == "de"@,
    {
        match self {
            Locale::En => "en",
            Locale::De => "de",
        }
    }
}

/// The captions of the four groups of members that a class lists.
pub struct Captions {
    pub constructors: String,
    pub fields: String,
    pub methods: String,
    pub nested_classes: String,
}

impl Captions {
    /// These are the captions of `locale`: Constructors, Fields, Methods and Nested Classes in
    /// English; Konstruktoren, Felder, Methoden and Verschachtelte Klassen in German.
    pub open spec fn is_for(&self, locale: Locale) -> bool {
        match locale {
            Locale::En => self.constructors@ == "Constructors"@ && self.fields@ == "Fields"@
                && self.methods@ == "Methods"@ && self.nested_classes@ == "Nested Classes"@,
            Locale::De => self.constructors@ == "Konstruktoren"@ && self.fields@ == "Felder"@
                && self.methods@ == "Methoden"@ && self.nested_classes@
                == "Verschachtelte Klassen"@,
        }
    }

    /// The captions in the given language.
    pub fn for_locale(locale: Locale) -> (r: Captions)
        ensures
            r.is_for(locale),
    {
        match locale {
            Locale::En => Captions {
                constructors: "Constructors".to_owned(),
                fields: "Fields".to_owned(),
                methods: "Methods".to_owned(),
                nested_classes: "Nested Classes".to_owned(),
            },
            Locale::De => Captions {
                constructors: "Konstruktoren".to_owned(),
                fields: "Felder".to_owned(),
                methods: "Methoden".to_owned(),
                nested_classes: "Verschachtelte Klassen".to_owned(),
            },
        }
    }
}

/// `n` heading markers.
pub open spec fn hashes(n: int) -> Seq<char> {
    Seq::new(n as nat, |i: int| '=')
}

/// A blank line pair, the heading of an element at `level` (`level + 1` markers), a blank line.
pub open spec fn heading(level: int, name: Seq<char>) -> Seq<char> {
    seq!['\n', '\n'] + hashes(level + 1) + seq![' '] + name + seq!['\n', '\n']
}

/// Rendered parts joined with `\n`.
pub open spec fn join_lines(parts: Seq<Seq<char>>) -> Seq<char>
    decreases parts.len(),
{
    if parts.len() == 0 {
        Seq::empty()
    } else if parts.len() == 1 {
        parts[0]
    } else {
        join_lines(parts.drop_last()) + seq!['\n'] + parts.last()
    }
}

/// A group of a container at `level`: nothing when it has no members; otherwise its caption,
/// one level deeper than the container, a blank line, and its members.
pub open spec fn group_text(caption: Seq<char>, level: int, parts: Seq<Seq<char>>) -> Seq<char> {
    if parts.len() == 0 {
        Seq::empty()
    } else {
        hashes(member_level(level) + 1) + seq![' '] + caption + seq!['\n', '\n'] + join_lines(parts)
    }
}

/// The renderings at `level` of the members of `s` of kind `k`, in order.
pub open spec fn renders_of_kind(s: Seq<DocModel>, k: ElementKind, level: int, caps: Captions) -> Seq<
    Seq<char>,
>
    decreases s,
{
    if s.len() == 0 {
        Seq::empty()
    } else if s.last().kind == k {
        renders_of_kind(s.drop_last(), k, level, caps).push(render_model(s.last(), level, caps))
    } else {
        renders_of_kind(s.drop_last(), k, level, caps)
    }
}

/// The AsciiDoc of an element at `level`: its heading and comment body; then, for a class,
/// its constructors, fields, methods and nested classes one level deeper, each group under its
/// caption; for an interface, its methods only.
pub open spec fn render_model(m: DocModel, level: int, caps: Captions) -> Seq<char>
    decreases m,
{
    let head = heading(level, m.name) + adoc_text(m.comment).push('\n');
    match m.kind {
        ElementKind::Class => head + group_text(
            caps.constructors@,
            level,
            renders_of_kind(m.children, ElementKind::Constructor, member_level(level), caps),
        ) + group_text(
            caps.fields@,
            level,
            renders_of_kind(m.children, ElementKind::Field, member_level(level), caps),
        ) + group_text(
            caps.methods@,
            level,
            renders_of_kind(m.children, ElementKind::Method, member_level(level), caps),
        ) + group_text(
            caps.nested_classes@,
            level,
            renders_of_kind(m.children, ElementKind::Class, member_level(level), caps),
        ),
        ElementKind::Interface => head + group_text(
            caps.methods@,
            level,
            renders_of_kind(m.children, ElementKind::Method, member_level(level), caps),
        ),
        _ => head,
    }
}

/// The level of the members of a container at `level`: one deeper, kept within a `u8`.
pub open spec fn member_level(level: int) -> int {
    if level < 255 {
        level + 1
    } else {
        255
    }
}

/// An interface lists its methods only: a documented member of any other kind adds nothing
/// to its output.
pub proof fn lemma_interface_lists_methods_only(
    m: DocModel,
    extra: DocModel,
    level: int,
    caps: Captions,
)
    requires
        m.kind == ElementKind::Interface,
        extra.kind != ElementKind::Method,
    ensures
        render_model(
            DocModel {
                kind: m.kind,
                name: m.name,
                comment: m.comment,
                children: m.children.push(extra),
            },
            level,
            caps,
        ) == render_model(m, level, caps),
{
    assert(m.children.push(extra).drop_last() == m.children);
}

/// A class with one documented method renders, after its own heading and comment, the
/// methods caption one level deeper and then the method, whose heading has one marker more
/// than the class's.
pub proof fn lemma_member_heading_one_deeper(
    m: DocModel,
    method: DocModel,
    level: int,
    caps: Captions,
)
    requires
        0 <= level < 255,
        m.kind == ElementKind::Class,
        method.kind == ElementKind::Method,
        m.children == seq![method],
    ensures
        render_model(m, level, caps) == heading(level, m.name) + adoc_text(m.comment).push('\n')
            + hashes(level + 2) + seq![' '] + caps.methods@ + seq!['\n', '\n'] + render_model(
            method,
            level + 1,
            caps,
        ),
        render_model(method, level + 1, caps) == heading(level + 1, method.name) + adoc_text(
            method.comment,
        ).push('\n'),
        heading(level + 1, method.name) == seq!['\n', '\n'] + hashes(level + 2) + seq![' ']
            + method.name + seq!['\n', '\n'],
{
    let s = seq![method];
    assert(s.drop_last() == Seq::<DocModel>::empty());
    assert(s.last() == method);
    assert(member_level(level) == level + 1);
    let e = Seq::<DocModel>::empty();
    assert(renders_of_kind(e, ElementKind::Method, level + 1, caps).len() == 0);
    assert(renders_of_kind(e, ElementKind::Constructor, level + 1, caps).len() == 0);
    assert(renders_of_kind(e, ElementKind::Field, level + 1, caps).len() == 0);
    assert(renders_of_kind(e, ElementKind::Class, level + 1, caps).len() == 0);
    let parts = renders_of_kind(s, ElementKind::Method, level + 1, caps);
    assert(parts == seq![render_model(method, level + 1, caps)]);
    assert(renders_of_kind(s, ElementKind::Constructor, level + 1, caps).len() == 0);
    assert(renders_of_kind(s, ElementKind::Field, level + 1, caps).len() == 0);
    assert(renders_of_kind(s, ElementKind::Class, level + 1, caps).len() == 0);
    assert(join_lines(parts) == render_model(method, level + 1, caps));
    assert(group_text(caps.constructors@, level, Seq::empty()) == Seq::<char>::empty());
}

/// A class whose members are a constructor and then two fields renders the constructors
/// group before the fields group, the fields in their order, and no methods or nested-classes
/// caption.
pub proof fn lemma_constructor_then_fields(
    m: DocModel,
    k: DocModel,
    f1: DocModel,
    f2: DocModel,
    level: int,
    caps: Captions,
)
    requires
        0 <= level < 255,
        m.kind == ElementKind::Class,
        k.kind == ElementKind::Constructor,
        f1.kind == ElementKind::Field,
        f2.kind == ElementKind::Field,
        m.children == seq![k, f1, f2],
    ensures
        render_model(m, level, caps) == heading(level, m.name) + adoc_text(m.comment).push('\n')
            + (hashes(level + 2) + seq![' '] + caps.constructors@ + seq!['\n', '\n']
            + render_model(k, level + 1, caps)) + (hashes(level + 2) + seq![' '] + caps.fields@
            + seq!['\n', '\n'] + (render_model(f1, level + 1, caps) + seq!['\n'] + render_model(
            f2,
            level + 1,
            caps,
        ))),
{
    let s = m.children;
    let s2 = seq![k, f1];
    let s1 = seq![k];
    let e = Seq::<DocModel>::empty();
    assert(s.drop_last() == s2);
    assert(s2.drop_last() == s1);
    assert(s1.drop_last() == e);
    assert(member_level(level) == level + 1);
    let l = level + 1;
    assert(renders_of_kind(e, ElementKind::Constructor, l, caps).len() == 0);
    assert(renders_of_kind(e, ElementKind::Field, l, caps).len() == 0);
    assert(renders_of_kind(e, ElementKind::Method, l, caps).len() == 0);
    assert(renders_of_kind(e, ElementKind::Class, l, caps).len() == 0);
    let kr = render_model(k, l, caps);
    let r1 = render_model(f1, l, caps);
    let r2 = render_model(f2, l, caps);
    assert(renders_of_kind(s1, ElementKind::Constructor, l, caps) == seq![kr]);
    assert(renders_of_kind(s2, ElementKind::Constructor, l, caps) == seq![kr]);
    assert(renders_of_kind(s, ElementKind::Constructor, l, caps) == seq![kr]);
    assert(renders_of_kind(s1, ElementKind::Method, l, caps).len() == 0);
    assert(renders_of_kind(s2, ElementKind::Method, l, caps).len() == 0);
    assert(renders_of_kind(s1, ElementKind::Class, l, caps).len() == 0);
    assert(renders_of_kind(s2, ElementKind::Class, l, caps).len() == 0);
    assert(renders_of_kind(s1, ElementKind::Field, l, caps).len() == 0);
    assert(renders_of_kind(s2, ElementKind::Field, l, caps) == seq![r1]);
    assert(renders_of_kind(s, ElementKind::Field, l, caps) == seq![r1, r2]);
    assert(renders_of_kind(s, ElementKind::Method, l, caps).len() == 0);
    assert(renders_of_kind(s, ElementKind::Class, l, caps).len() == 0);
    assert(join_lines(seq![kr]) == kr);
    assert(seq![r1, r2].drop_last() == seq![r1]);
    assert(join_lines(seq![r1]) == r1);
    assert(join_lines(seq![r1, r2]) == r1 + seq!['\n'] + r2);
    assert(group_text(caps.methods@, level, Seq::empty()) == Seq::<char>::empty());
    assert(group_text(caps.nested_classes@, level, Seq::empty()) == Seq::<char>::empty());
}

/// The heading marker of `level`: `level + 1` times `=`.
pub fn prefix_hashes(level: u8) -> (r: String)
    ensures
        r@ == hashes(level + 1),
{
    let mut r = String::new();
    let mut i: u16 = 0;
    while i <= level as u16
        invariant
            i <= level + 1,
            r@ == hashes(i as int),
        decreases level + 1 - i,
    {
        push_char(&mut r, '=');
        assert(r@ == hashes(i + 1));
        i = i + 1;
    }
    r
}

/// The level of the members of a container at `level`.
pub fn next_level(level: u8) -> (r: u8)
    ensures
        r == member_level(level as int),
{
    if level < 255 {
        level + 1
    } else {
        255
    }
}

/// Appends the heading of an element at `level` named `name`.
fn push_heading(out: &mut String, level: u8, name: &String)
    ensures
        final(out)@ == old(out)@ + heading(level as int, name@),
{
    push_char(out, '\n');
    push_char(out, '\n');
    let marker = prefix_hashes(level);
    out.append(marker.as_str());
    push_char(out, ' ');
    out.append(name.as_str());
    push_char(out, '\n');
    push_char(out, '\n');
    assert(final(out)@ == old(out)@ + heading(level as int, name@));
}

impl JavaDocableElement {
    /// The element's kind.
    pub fn kind(&self) -> (r: ElementKind)
        ensures
            r == self.model().kind,
    {
        match self {
            JavaDocableElement::Class(_) => ElementKind::Class,
            JavaDocableElement::Interface(_) => ElementKind::Interface,
            JavaDocableElement::Constructor(_) => ElementKind::Constructor,
            JavaDocableElement::Method(_) => ElementKind::Method,
            JavaDocableElement::Field(_) => ElementKind::Field,
        }
    }

    /// The element as AsciiDoc at heading level `level`.
    pub fn render(&self, level: u8, captions: &Captions) -> (r: String)
        ensures
            r@ == render_model(self.model(), level as int, *captions),
        decreases self,
    {
        let (comment, name) = match self {
            JavaDocableElement::Class(c) => (&c.comment, &c.name),
            JavaDocableElement::Interface(c) => (&c.comment, &c.name),
            JavaDocableElement::Constructor(c) => (&c.comment, &c.name),
            JavaDocableElement::Method(c) => (&c.comment, &c.name),
            JavaDocableElement::Field(c) => (&c.comment, &c.name),
        };
        let mut out = String::new();
        push_heading(&mut out, level, name);
        let body = comment.render();
        out.append(body.as_str());
        match self {
            JavaDocableElement::Class(c) => {
                assert(decreases_to!(self => c.children@));
                push_group(&mut out, &c.children, ElementKind::Constructor, level, captions, &captions.constructors);
                push_group(&mut out, &c.children, ElementKind::Field, level, captions, &captions.fields);
                push_group(&mut out, &c.children, ElementKind::Method, level, captions, &captions.methods);
                push_group(&mut out, &c.children, ElementKind::Class, level, captions, &captions.nested_classes);
            },
            JavaDocableElement::Interface(c) => {
                assert(decreases_to!(self => c.children@));
                push_group(&mut out, &c.children, ElementKind::Method, level, captions, &captions.methods);
            },
            _ => {},
        }
        out
    }
}

/// Appends the group of the members of kind `k` of a container at `level`.
fn push_group(
    out: &mut String,
    children: &Vec<JavaDocableElement>,
    k: ElementKind,
    level: u8,
    captions: &Captions,
    caption: &String,
)
    ensures
        final(out)@ == old(out)@ + group_text(
            caption@,
            level as int,
            renders_of_kind(models(children@), k, member_level(level as int), *captions),
        ),
    decreases children@,
{
    proof {
        lemma_models(children@);
    }
    let n = children.len();
    let mut joined = String::new();
    let mut any = false;
    let mut i: usize = 0;
    assert(children@.take(0) == Seq::<JavaDocableElement>::empty());
    while i < n
        invariant
            n == children@.len(),
            i <= n,
            models(children@).len() == n,
            forall|j: int| 0 <= j < n ==> #[trigger] models(children@)[j] == children@[j].model(),
            joined@ == join_lines(
                renders_of_kind(models(children@.take(i as int)), k, member_level(level as int), *captions),
            ),
            any == (renders_of_kind(models(children@.take(i as int)), k, member_level(level as int), *captions).len()
                > 0),
        decreases n - i,
    {
        let ghost pre = models(children@.take(i as int));
        let ghost parts = renders_of_kind(pre, k, member_level(level as int), *captions);
        assert(children@.take(i + 1).drop_last() == children@.take(i as int));
        assert(children@.take(i + 1).last() == children@[i as int]);
        assert(models(children@.take(i + 1)) == pre.push(children@[i as int].model()));
        assert(pre.push(children@[i as int].model()).drop_last() == pre);
        if children[i].kind() == k {
            assert(models(children@)[i as int] == children@[i as int].model());
            assert(decreases_to!(children@ => children@[i as int]));
            let r = children[i].render(next_level(level), captions);
            if any {
                push_char(&mut joined, '\n');
            }
            joined.append(r.as_str());
            any = true;
            assert(parts.push(r@).drop_last() == parts);
        }
        i = i + 1;
    }
    assert(children@.take(n as int) == children@);
    if any {
        let marker = prefix_hashes(next_level(level));
        out.append(marker.as_str());
        push_char(out, ' ');
        out.append(caption.as_str());
        push_char(out, '\n');
        push_char(out, '\n');
        out.append(joined.as_str());
    }
}

} // verus!
