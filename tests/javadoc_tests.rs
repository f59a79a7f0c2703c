use std::str::FromStr;

use javadoc2adoc::comment::javadoc_to_adoc;
use javadoc2adoc::javadoc::{node_to_docable, JavaDocableElement};
use javadoc2adoc::parser::parse_string;
use javadoc2adoc::source::FileContext;
use tree_sitter::{Point, Range};

const INPUT: &str =
    "Lorem ipsum dolor sit amet, consetetur sadipscing elitr, sed diam nonumy eirmod";

const NO_COMMENT: &str = "
// interface
interface Animal {
  public void animalSound(); // interface method (does not have a body)
  public void run(); // interface method (does not have a body)
}";

const NO_JAVADOC: &str = "
/* interface */
interface Animal {
  public void animalSound(); // interface method (does not have a body)
  public void run(); // interface method (does not have a body)
}";

const JAVADOC: &str = "
/** interface */
interface Animal {
  public void animalSound(); // interface method (does not have a body)
  public void run(); // interface method (does not have a body)
}";

fn root_elements(sourcecode: &str, filecontext: &FileContext) -> Vec<JavaDocableElement> {
    let tree = parse_string(sourcecode).unwrap();
    (0..tree.children.len())
        .filter_map(|i| node_to_docable(&tree.children, i, filecontext).unwrap())
        .collect()
}

#[test]
fn mod_from_str() {
    let ctx = FileContext::from_str(INPUT);
    assert!(ctx.is_ok());
}

#[test]
fn lib_removes_p_tags() {
    let input = "* <p> some cool documentation";
    let result = javadoc_to_adoc(input);
    assert_eq!(result, "some cool documentation");
}

#[test]
fn comment_removes_p_tags() {
    let input = "* <p> some cool documentation";
    let result = javadoc_to_adoc(input);
    assert_eq!(result, "some cool documentation");
}

#[test]
fn no_viable_comment() {
    let sourcecode = NO_COMMENT;
    let filecontext = FileContext::from_str(sourcecode).unwrap();
    let children = root_elements(sourcecode, &filecontext);
    assert_eq!(children.len(), 0);
}

#[test]
fn no_javadoc_comment() {
    let sourcecode = NO_JAVADOC;
    let filecontext = FileContext::from_str(sourcecode).unwrap();
    let children = root_elements(sourcecode, &filecontext);
    assert_eq!(children.len(), 0);
}

#[test]
fn javadoc_comment() {
    let sourcecode = JAVADOC;
    let filecontext = FileContext::from_str(sourcecode).unwrap();
    let children = root_elements(sourcecode, &filecontext);
    assert_eq!(children.len(), 1);
    let child = children.first().unwrap();
    match child {
        JavaDocableElement::Interface(child) => {
            assert_eq!(child.get_name(), "Animal");
            assert_eq!(child.children.len(), 0)
        }
        _ => panic!("Got something else than an interface????"),
    }
}

#[test]
fn mod_source_for_range() {
    let ctx = FileContext::from_str(INPUT).unwrap();
    let p = Point::default();
    let range = Range {
        start_byte: 2,
        end_byte: 7,
        start_point: p,
        end_point: p,
    };
    assert_eq!(ctx.source_for_range(&range), "rem i");
}
