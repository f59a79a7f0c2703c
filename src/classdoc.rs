//! The AsciiDoc document of a whole source file.
use vstd::prelude::*;
use vstd::utf8::encode_utf8;

use crate::javadoc::{
    build_children, build_list, lemma_models, models, text_result, DocError, DocModel,
    JavaDocableElement,
};
use crate::parser::{java_tokens, parse_string, tokens_of};
use crate::render::{render_model, Captions, Locale};
use crate::source::FileContext;
use crate::syntax::SyntaxNode;

verus! {

/// The renderings at level 0 of `ms`, concatenated.
pub open spec fn render_all(ms: Seq<DocModel>, caps: Captions) -> Seq<char>
    decreases ms.len(),
{
    if ms.len() == 0 {
        Seq::empty()
    } else {
        render_all(ms.drop_last(), caps) + render_model(ms.last(), 0, caps)
    }
}

/// The document of a file whose tree has the root `root`: the elements that the root's
/// children become, each rendered at level 0, concatenated; or the error met building them.
pub open spec fn document(bytes: Seq<u8>, root: SyntaxNode, caps: Captions) -> Result<
    Seq<char>,
    DocError,
> {
    match build_list(bytes, root.children@) {
        Ok(ms) => Ok(render_all(ms, caps)),
        Err(e) => Err(e),
    }
}

/// The elements, each rendered at level 0, concatenated.
pub fn render_document(elements: &Vec<JavaDocableElement>, captions: &Captions) -> (r: String)
    ensures
        r@ == render_all(models(elements@), *captions),
{
    proof {
        lemma_models(elements@);
    }
    let n = elements.len();
    let mut out = String::new();
    let mut i: usize = 0;
    assert(elements@.take(0) == Seq::<JavaDocableElement>::empty());
    while i < n
        invariant
            n == elements@.len(),
            i <= n,
            out@ == render_all(models(elements@.take(i as int)), *captions),
        decreases n - i,
    {
        let ghost pre = models(elements@.take(i as int));
        assert(elements@.take(i + 1).drop_last() == elements@.take(i as int));
        assert(models(elements@.take(i + 1)) == pre.push(elements@[i as int].model()));
        assert(pre.push(elements@[i as int].model()).drop_last() == pre);
        let r = elements[i].render(0, captions);
        out.append(r.as_str());
        i = i + 1;
    }
    assert(elements@.take(n as int) == elements@);
    out
}

/// The AsciiDoc document of the file `context` whose syntax tree is rooted at `root`: every
/// top-level documented declaration rendered at level 0, in source order; empty when there
/// is none.
pub fn from_syntax_tree(root: &SyntaxNode, context: &FileContext, captions: &Captions) -> (r:
    Result<String, DocError>)
    ensures
        text_result(r) == document(context.bytes(), *root, *captions),
{
    match build_children(root, context) {
        Ok(elements) => Ok(render_document(&elements, captions)),
        Err(e) => Err(e),
    }
}

/// The AsciiDoc document of a Java source file, its group captions in the language `locale`:
/// the document of the tree that the Java parse of the source gives; `ParseFailed` where the
/// parser gives no tree.
pub fn from_sourcecode(sourcecode: &str, locale: Locale) -> (r: Result<String, DocError>)
    ensures
        match java_tokens(sourcecode@) {
            None => r == Err::<String, DocError>(DocError::ParseFailed),
            Some(ts) => if exists|root: SyntaxNode| tokens_of(root) == ts {
                exists|root: SyntaxNode, caps: Captions|
                    tokens_of(root) == ts && caps.is_for(locale) && text_result(r) == document(
                        encode_utf8(sourcecode@),
                        root,
                        caps,
                    )
            } else {
                r == Err::<String, DocError>(DocError::ParseFailed)
            },
        },
{
    let root = match parse_string(sourcecode) {
        Ok(root) => root,
        Err(e) => {
            return Err(e);
        },
    };
    let context = FileContext::new(sourcecode);
    let captions = Captions::for_locale(locale);
    let r = from_syntax_tree(&root, &context, &captions);
    assert(tokens_of(root) == java_tokens(sourcecode@)->0);
    assert(text_result(r) == document(encode_utf8(sourcecode@), root, captions));
    r
}

} // verus!
