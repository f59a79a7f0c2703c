use javadoc2adoc::classdoc::{from_sourcecode, from_syntax_tree, render_document};
use javadoc2adoc::comment::javadoc_to_adoc;
use javadoc2adoc::javadoc::{
    build_children, find_block_comment, node_to_docable, BlockComment, ChildField, DocError,
    Field, Interface, JavaDocableElement, Method,
};
use javadoc2adoc::parser::{parse_string, tree_from_tokens, NodeData, TreeToken};
use javadoc2adoc::render::{next_level, prefix_hashes, Captions, Locale};
use javadoc2adoc::source::FileContext;
use javadoc2adoc::syntax::SyntaxNode;

fn node(
    kind: &str,
    field: Option<&str>,
    start: usize,
    end: usize,
    children: Vec<SyntaxNode>,
) -> SyntaxNode {
    SyntaxNode {
        kind: kind.to_string(),
        field: field.map(|f| f.to_string()),
        start_byte: start,
        end_byte: end,
        children,
    }
}

fn english(source: &str) -> String {
    from_sourcecode(source, Locale::En).unwrap()
}

fn comment(text: &str) -> BlockComment {
    BlockComment {
        start_byte: 0,
        end_byte: text.len(),
        text: text.to_string(),
    }
}

#[test]
fn tag_with_argument_becomes_label() {
    assert_eq!(javadoc_to_adoc("@param x the value"), "param:: x the value");
}

#[test]
fn bare_tag_loses_only_its_sigil() {
    assert_eq!(javadoc_to_adoc("@Override"), "Override");
}

#[test]
fn decorated_comment_is_stripped_line_by_line() {
    let input = "/**\n * Adds.\n * <p>More.\n * @param a first\n * @return sum\n */";
    assert_eq!(
        javadoc_to_adoc(input),
        "\nAdds.\nMore.\nparam:: a first\nreturn:: sum\n"
    );
}

#[test]
fn empty_comment_text_renders_empty() {
    assert_eq!(javadoc_to_adoc(""), "");
}

#[test]
fn plain_text_comes_back_unchanged() {
    assert_eq!(javadoc_to_adoc("Some text\n\nmore text"), "Some text\n\nmore text");
    assert_eq!(javadoc_to_adoc("Some text\n"), "Some text");
}

#[test]
fn carriage_returns_and_unicode_spaces_are_trimmed() {
    assert_eq!(javadoc_to_adoc("* a\r\n*\u{a0}b\u{3000}"), "a\nb");
}

#[test]
fn block_comment_render_ends_with_newline() {
    assert_eq!(comment("/** Größe */").render(), "Größe */\n");
}

#[test]
fn class_with_method_nests_one_level_deeper() {
    let src = "/** A class. */\nclass A {\n    /** Does it. */\n    void run() {}\n}\n";
    assert_eq!(
        english(src),
        "\n\n= A\n\nA class. */\n== Methods\n\n\n\n== void run ()\n\nDoes it. */\n"
    );
}

#[test]
fn class_groups_constructors_before_fields() {
    let src = "/** Point. */\npublic class Point {\n    /** X. */\n    int x;\n    /** Y. */\n    int y;\n    /** Makes one. */\n    Point(int x, int y) {}\n}\n";
    assert_eq!(
        english(src),
        "\n\n= Point\n\nPoint. */\n== Constructors\n\n\n\n== Point (int x, int y)\n\nMakes one. */\n== Fields\n\n\n\n== int x\n\nX. */\n\n\n\n== int y\n\nY. */\n"
    );
}

#[test]
fn nested_class_gets_its_own_group() {
    let src = "/** Outer. */\nclass Outer {\n    /** Inner. */\n    static class Inner {\n        /** Tick. */\n        void tick() {}\n    }\n}\n";
    assert_eq!(
        english(src),
        "\n\n= Outer\n\nOuter. */\n== Nested Classes\n\n\n\n== Inner\n\nInner. */\n=== Methods\n\n\n\n=== void tick ()\n\nTick. */\n"
    );
}

#[test]
fn german_captions() {
    let src = "/** A class. */\nclass A {\n    /** Does it. */\n    void run() {}\n}\n";
    let out = from_sourcecode(src, Locale::De).unwrap();
    assert_eq!(
        out,
        "\n\n= A\n\nA class. */\n== Methoden\n\n\n\n== void run ()\n\nDoes it. */\n"
    );
}

#[test]
fn undocumented_class_hides_documented_members() {
    let src = "class A {\n    /** Does it. */\n    void run() {}\n}\n";
    assert_eq!(english(src), "");
}

#[test]
fn plain_block_comment_is_not_javadoc() {
    assert_eq!(english("/* A class. */\nclass A {}\n"), "");
}

#[test]
fn line_comment_between_breaks_adjacency() {
    assert_eq!(english("/** A class. */\n// note\nclass A {}\n"), "");
}

#[test]
fn top_level_elements_are_concatenated() {
    let src = "/** One. */\nclass A {}\n/** Two. */\ninterface B {}\n";
    assert_eq!(english(src), "\n\n= A\n\nOne. */\n\n\n= B\n\nTwo. */\n");
}

#[test]
fn empty_file_renders_empty() {
    assert_eq!(english(""), "");
}

#[test]
fn interface_renders_methods_only() {
    let src = "/** Shapes. */\ninterface Shape {\n    /** Area. */\n    double area();\n}\n";
    assert_eq!(
        english(src),
        "\n\n= Shape\n\nShapes. */\n== Methods\n\n\n\n== double area ()\n\nArea. */\n"
    );
}

#[test]
fn interface_skips_documented_field() {
    let captions = Captions::for_locale(Locale::En);
    let field = JavaDocableElement::Field(Field {
        comment: comment("/** Sides. */"),
        name: "int SIDES".to_string(),
    });
    let with_field = JavaDocableElement::Interface(Interface {
        comment: comment("/** Shapes. */"),
        name: "Shape".to_string(),
        children: vec![field],
    });
    let without = JavaDocableElement::Interface(Interface {
        comment: comment("/** Shapes. */"),
        name: "Shape".to_string(),
        children: vec![],
    });
    assert_eq!(with_field.render(0, &captions), without.render(0, &captions));
    assert_eq!(with_field.render(0, &captions), "\n\n= Shape\n\nShapes. */\n");
}

#[test]
fn method_heading_at_deeper_level() {
    let captions = Captions::for_locale(Locale::En);
    let m = JavaDocableElement::Method(Method {
        comment: comment("/** Run. */"),
        name: "void run ()".to_string(),
    });
    assert_eq!(m.render(2, &captions), "\n\n=== void run ()\n\nRun. */\n");
    assert_eq!(
        render_document(&vec![m], &captions),
        "\n\n= void run ()\n\nRun. */\n"
    );
}

#[test]
fn heading_markers() {
    assert_eq!(prefix_hashes(0), "=");
    assert_eq!(prefix_hashes(2), "===");
    assert_eq!(next_level(3), 4);
    assert_eq!(next_level(255), 255);
}

#[test]
fn locale_codes() {
    assert_eq!(Locale::En.as_str(), "en");
    assert_eq!(Locale::De.as_str(), "de");
}

#[test]
fn source_ranges_are_checked() {
    let ctx = FileContext::new("aé b");
    assert_eq!(ctx.source_for_start_end(0, 3), "aé");
    assert_eq!(ctx.checked_source(0, 2), None);
    assert_eq!(ctx.checked_source(3, 9), None);
    assert_eq!(ctx.checked_source(4, 5), Some("b"));
}

// source: "/** doc */\n@Ann\nvoid f() {}"
const ANNOTATED: &str = "/** doc */\n@Ann\nvoid f() {}";

fn annotated_tree() -> SyntaxNode {
    let method = node(
        "method_declaration",
        None,
        16,
        27,
        vec![
            node("void_type", Some("type"), 16, 20, vec![]),
            node("identifier", Some("name"), 21, 22, vec![]),
            node("formal_parameters", Some("parameters"), 22, 24, vec![]),
        ],
    );
    node(
        "program",
        None,
        0,
        27,
        vec![
            node("block_comment", None, 0, 10, vec![]),
            node("marker_annotation", None, 11, 15, vec![]),
            method,
        ],
    )
}

#[test]
fn annotation_between_comment_and_declaration_loses_comment() {
    let ctx = FileContext::new(ANNOTATED);
    let root = annotated_tree();
    assert!(find_block_comment(&root.children, 2, &ctx).is_none());
    assert!(node_to_docable(&root.children, 2, &ctx).unwrap().is_none());
}

#[test]
fn adjacent_comment_is_found_by_hand_built_tree() {
    let ctx = FileContext::new(ANNOTATED);
    let mut root = annotated_tree();
    root.children.remove(1);
    let c = find_block_comment(&root.children, 1, &ctx).unwrap();
    assert_eq!(c.text, "/** doc */");
    let e = node_to_docable(&root.children, 1, &ctx).unwrap().unwrap();
    assert_eq!(e.get_name(), "void f ()");
    let captions = Captions::for_locale(Locale::En);
    assert_eq!(
        from_syntax_tree(&root, &ctx, &captions).unwrap(),
        "\n\n= void f ()\n\ndoc */\n"
    );
}

#[test]
fn missing_child_is_an_error() {
    let ctx = FileContext::new(ANNOTATED);
    let mut root = annotated_tree();
    root.children.remove(1);
    root.children[1].children.remove(0);
    assert_eq!(
        build_children(&root, &ctx).err(),
        Some(DocError::MissingChild(ChildField::Type))
    );
}

#[test]
fn range_off_the_source_is_an_error() {
    let ctx = FileContext::new(ANNOTATED);
    let mut root = annotated_tree();
    root.children.remove(1);
    root.children[1].children[1].end_byte = 99;
    assert_eq!(
        build_children(&root, &ctx).err(),
        Some(DocError::InvalidRange)
    );
}

#[test]
fn parsed_tree_keeps_kinds_fields_and_ranges() {
    let src = "class A { int x; }";
    let root = parse_string(src).unwrap();
    assert_eq!(root.kind, "program");
    let class = &root.children[0];
    assert_eq!(class.kind, "class_declaration");
    let name = class.child_by_field_name("name").unwrap();
    assert_eq!((name.start_byte, name.end_byte), (6, 7));
    assert!(class.child_by_field_name("body").is_some());
    assert!(class.child_by_field_name("nothing").is_none());
}

#[test]
fn non_ascii_comment_text_is_kept() {
    assert_eq!(
        english("/** Größe in µm */\nclass Maß {}\n"),
        "\n\n= Maß\n\nGröße in µm */\n"
    );
}

#[test]
fn annotation_inside_modifiers_keeps_comment() {
    let src = "/** A. */\nclass A {\n    /** Runs. */\n    @Override\n    public void run() {}\n}\n";
    assert_eq!(
        english(src),
        "\n\n= A\n\nA. */\n== Methods\n\n\n\n== void run ()\n\nRuns. */\n"
    );
}

#[test]
fn plain_text_loses_only_one_final_newline() {
    assert_eq!(javadoc_to_adoc("a\n\n"), "a\n");
}

#[test]
fn found_comment_keeps_its_range() {
    let ctx = FileContext::new(ANNOTATED);
    let mut root = annotated_tree();
    root.children.remove(1);
    let c = find_block_comment(&root.children, 1, &ctx).unwrap();
    assert_eq!((c.start_byte, c.end_byte), (0, 10));
}

fn open(kind: &str, start: usize, end: usize) -> TreeToken {
    TreeToken::Open(NodeData {
        kind: kind.to_string(),
        field: None,
        start_byte: start,
        end_byte: end,
    })
}

#[test]
fn tokens_rebuild_the_tree() {
    let ts = vec![
        open("program", 0, 5),
        open("a", 0, 1),
        TreeToken::Close,
        open("b", 2, 5),
        open("c", 3, 4),
        TreeToken::Close,
        TreeToken::Close,
        TreeToken::Close,
    ];
    let root = tree_from_tokens(&ts).unwrap();
    assert_eq!(root.kind, "program");
    assert_eq!(root.children.len(), 2);
    assert_eq!(root.children[1].kind, "b");
    assert_eq!(root.children[1].children[0].kind, "c");
    assert_eq!(root.children[1].children[0].start_byte, 3);
}

#[test]
fn unbalanced_tokens_give_no_tree() {
    assert!(tree_from_tokens(&vec![open("program", 0, 1)]).is_none());
    assert!(tree_from_tokens(&vec![open("a", 0, 1), TreeToken::Close, TreeToken::Close]).is_none());
    assert!(tree_from_tokens(&vec![]).is_none());
}
