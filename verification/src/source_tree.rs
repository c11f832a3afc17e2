//! Parsing TypeScript source with tree-sitter, copying the syntax tree into
//! [`SyntaxNode`]s, and converting it to Artel text.

use vstd::prelude::*;
use tree_sitter_c2rust::{LanguageError, Parser, Tree};
use crate::convert_tree_walk::{spec_walk_tree, try_walk_tree, law_read_program_renders};
use crate::statement::{
    statements_ready, statements_text, statements_can_render, create_artel_code,
    statements_shape_ok,
};
use crate::syntax::{SyntaxNode, NodeModel};

verus! {

#[verifier::external_type_specification]
#[verifier::external_body]
pub struct ExTree(Tree);

#[verifier::external_type_specification]
#[verifier::external_body]
pub struct ExLanguageError(LanguageError);

/// TypeScript source kept together with the syntax tree tree-sitter parsed
/// from it. Only [`parse_typescript`] makes one, so `tree` is always the tree
/// of `code`.
pub struct ParsedSource {
    code: String,
    tree: Tree,
}

impl View for ParsedSource {
    type V = Seq<char>;

    /// The source text.
    closed spec fn view(&self) -> Seq<char> {
        self.code@
    }
}

// ---------------------------------------------------------------------------
// What tree-sitter reports of the tree it parses from some source
// ---------------------------------------------------------------------------
//
// The nodes of a tree, named ones and anonymous tokens alike, are numbered in
// preorder from the root, `0`: the position `TreeCursor::goto_descendant`
// takes. For a position past the last node the cursor stays where the search
// for it left it, which is again fixed by the source and the position.

/// `Node::kind` of node `i` of the tree parsed from `code` with tree-sitter's
/// TypeScript grammar.
pub uninterp spec fn ts_kind(code: Seq<char>, i: int) -> Seq<char>;

/// `Node::is_named` of node `i` of the tree parsed from `code`.
pub uninterp spec fn ts_is_named(code: Seq<char>, i: int) -> bool;

/// `Node::utf8_text` of node `i` of the tree parsed from `code`, taken over
/// `code`'s own bytes; `None` when those bytes are not valid UTF-8.
pub uninterp spec fn ts_text(code: Seq<char>, i: int) -> Option<Seq<char>>;

/// `Node::field_name_for_child` of node `i` of the tree parsed from `code`, for
/// its child at position `k`.
pub uninterp spec fn ts_field_name(code: Seq<char>, i: int, k: int) -> Option<Seq<char>>;

/// `Node::descendant_count` of node `i` of the tree parsed from `code`: the
/// number of nodes under it, itself included.
pub uninterp spec fn ts_descendant_count(code: Seq<char>, i: int) -> int;

/// Parses `code` with tree-sitter: `Parser::new`, `Parser::set_language` with
/// `tree_sitter_typescript::LANGUAGE_TYPESCRIPT`, then `Parser::parse` with no
/// earlier tree. `set_language` accepts grammars of ABI versions 13 to 15 and
/// the TypeScript grammar is of version 14, so it succeeds; `parse` gives no
/// tree only without a language, after a timeout or on cancellation, none of
/// which is set here, so a tree comes, and it is kept with `code`.
#[verifier::external_body]
fn parse_typescript(code: &str) -> (r: Result<Option<ParsedSource>, LanguageError>)
    ensures
        r is Ok,
        r matches Ok(o) ==> o is Some,
        r matches Ok(Some(p)) ==> p@ == code@,
{
    let mut parser = Parser::new();
    parser.set_language(&tree_sitter_typescript::LANGUAGE_TYPESCRIPT.into())?;
    match parser.parse(code, None) {
        Some(tree) => Ok(Some(ParsedSource { code: code.to_owned(), tree })),
        None => Ok(None),
    }
}

/// `Node::kind` of node `i`, reached from the root with
/// `TreeCursor::goto_descendant`; the name is copied. The crate panics on a
/// kind name that is not UTF-8; the TypeScript grammar's names are ASCII.
#[verifier::external_body]
fn kind_at(p: &ParsedSource, i: usize) -> (r: String)
    ensures
        r@ == ts_kind(p@, i as int),
{
    let mut cursor = p.tree.root_node().walk();
    cursor.goto_descendant(i);
    cursor.node().kind().to_owned()
}

/// `Node::is_named` of node `i`, reached as in [`kind_at`].
#[verifier::external_body]
fn is_named_at(p: &ParsedSource, i: usize) -> (r: bool)
    ensures
        r == ts_is_named(p@, i as int),
{
    let mut cursor = p.tree.root_node().walk();
    cursor.goto_descendant(i);
    cursor.node().is_named()
}

/// `Node::utf8_text` of node `i`, reached as in [`kind_at`], over the bytes of
/// the source the tree was parsed from; the text is copied. The crate slices
/// those bytes at the node's byte range, which lies within them.
#[verifier::external_body]
fn text_at(p: &ParsedSource, i: usize) -> (r: Option<String>)
    ensures
        r is None <==> ts_text(p@, i as int) is None,
        r matches Some(t) ==> ts_text(p@, i as int) == Some(t@),
{
    let mut cursor = p.tree.root_node().walk();
    cursor.goto_descendant(i);
    match cursor.node().utf8_text(p.code.as_bytes()) {
        Ok(t) => Some(t.to_owned()),
        Err(_) => None,
    }
}

/// `Node::field_name_for_child` of node `i`, reached as in [`kind_at`], for its
/// child at position `k`; the name is copied. The crate panics on a field name
/// that is not UTF-8; the TypeScript grammar's names are ASCII.
#[verifier::external_body]
fn field_name_at(p: &ParsedSource, i: usize, k: usize) -> (r: Option<String>)
    ensures
        r is None <==> ts_field_name(p@, i as int, k as int) is None,
        r matches Some(f) ==> ts_field_name(p@, i as int, k as int) == Some(f@),
{
    let mut cursor = p.tree.root_node().walk();
    cursor.goto_descendant(i);
    match cursor.node().field_name_for_child(k as u32) {
        Some(f) => Some(f.to_owned()),
        None => None,
    }
}

/// `Node::descendant_count` of node `i`, reached as in [`kind_at`]; the crate
/// reads it as a `u32` and widens it.
#[verifier::external_body]
fn descendant_count_at(p: &ParsedSource, i: usize) -> (r: usize)
    ensures
        r == ts_descendant_count(p@, i as int),
        r <= u32::MAX,
{
    let mut cursor = p.tree.root_node().walk();
    cursor.goto_descendant(i);
    cursor.node().descendant_count()
}

// ---------------------------------------------------------------------------
// The tree read off the preorder positions
// ---------------------------------------------------------------------------

pub open spec fn text_model(o: Option<String>) -> Option<Seq<char>> {
    match o {
        Some(t) => Some(t@),
        None => None,
    }
}

/// Node `i` of the tree parsed from `code`, filling `field` in its parent: its
/// children start right after it, each the next after the nodes under the one
/// before, until the nodes under `i` are used up. `None` when the descendant
/// counts do not nest that way.
pub open spec fn parsed_node(code: Seq<char>, i: int, field: Option<Seq<char>>) -> Option<
    NodeModel,
>
    decreases ts_descendant_count(code, i), 0int,
{
    let d = ts_descendant_count(code, i);
    if d < 1 {
        None
    } else {
        match parsed_children(code, i, i + 1, 0, i + d) {
            None => None,
            Some(cs) => Some(
                NodeModel {
                    kind: ts_kind(code, i),
                    field,
                    named: ts_is_named(code, i),
                    text: ts_text(code, i),
                    children: cs,
                },
            ),
        }
    }
}

/// The children of node `parent` from the one at position `c`, its `k`-th
/// child, up to position `end`.
pub open spec fn parsed_children(code: Seq<char>, parent: int, c: int, k: int, end: int) -> Option<
    Seq<NodeModel>,
>
    decreases end - c, 1int,
{
    if c >= end {
        Some(seq![])
    } else {
        let d = ts_descendant_count(code, c);
        if d < 1 || d > end - c {
            None
        } else {
            match parsed_node(code, c, ts_field_name(code, parent, k)) {
                None => None,
                Some(n) => match parsed_children(code, parent, c + d, k + 1, end) {
                    None => None,
                    Some(rest) => Some(seq![n] + rest),
                },
            }
        }
    }
}

/// The syntax tree tree-sitter's TypeScript grammar parses from `code`.
pub open spec fn typescript_syntax_tree(code: Seq<char>) -> Option<NodeModel> {
    parsed_node(code, 0, None)
}

pub open spec fn prepend(s: Seq<NodeModel>, rest: Option<Seq<NodeModel>>) -> Option<Seq<NodeModel>> {
    match rest {
        Some(t) => Some(s + t),
        None => None,
    }
}

/// Copies node `i` of `p`'s tree, with `d` nodes under it, and everything under it.
fn copy_node(p: &ParsedSource, i: usize, d: usize, field: Option<String>) -> (r: Option<
    SyntaxNode,
>)
    requires
        d == ts_descendant_count(p@, i as int),
        1 <= d,
        i + d <= usize::MAX,
    ensures
        match r {
            Some(n) => parsed_node(p@, i as int, text_model(field)) == Some(n@),
            None => parsed_node(p@, i as int, text_model(field)) is None,
        },
    decreases d,
{
    let ghost code = p@;
    let kind = kind_at(p, i);
    let named = is_named_at(p, i);
    let text = text_at(p, i);
    let end = i + d;
    let mut children: Vec<SyntaxNode> = Vec::new();
    let ghost mut models: Seq<NodeModel> = seq![];
    let mut c: usize = i + 1;
    let mut k: usize = 0;
    while c < end
        invariant
            code == p@,
            i < c <= end,
            end == i + d,
            d == ts_descendant_count(code, i as int),
            k <= c - i - 1,
            children@.len() == models.len(),
            forall|j: int| 0 <= j < models.len() ==> (#[trigger] children@[j])@ == models[j],
            parsed_children(code, i as int, i + 1, 0, end as int) == prepend(
                models,
                parsed_children(code, i as int, c as int, k as int, end as int),
            ),
        decreases end - c,
    {
        let dc = descendant_count_at(p, c);
        if dc < 1 || dc > end - c {
            return None;
        }
        let f = field_name_at(p, i, k);
        let child = match copy_node(p, c, dc, f) {
            Some(n) => n,
            None => {
                return None;
            },
        };
        let ghost n = child@;
        proof {
            let rest = parsed_children(code, i as int, (c + dc) as int, k + 1, end as int);
            match rest {
                Some(t) => {
                    assert(models + (seq![n] + t) =~= models.push(n) + t);
                },
                None => {},
            }
        }
        children.push(child);
        proof {
            models = models.push(n);
        }
        c = c + dc;
        k = k + 1;
    }
    assert(models + seq![] =~= models);
    let node = SyntaxNode { kind, field, named, text, children };
    assert(node@.children =~= models);
    Some(node)
}

#[derive(PartialEq, Eq, Structural)]
pub enum ConversionError {
    /// The descendant counts the parser reported do not nest into a tree.
    TreeNotCopied,
    /// The program holds a construct the converter does not handle.
    Unsupported,
    /// The converted program cannot be written out: an indentation beyond
    /// 100, an accessor without its type or given twice, a statement block,
    /// or a `declare` block with nothing in it.
    NotRenderable,
}

/// Converts a program given as its syntax tree into Artel text.
pub fn convert_tree(root: &SyntaxNode) -> (r: Result<String, ConversionError>)
    ensures
        spec_walk_tree(root@) is None ==> r == Err::<String, ConversionError>(
            ConversionError::Unsupported,
        ),
        spec_walk_tree(root@) matches Some(p) ==> if statements_ready(p, 0) {
            r matches Ok(s) && s@ == statements_text(p, 0)
        } else {
            r == Err::<String, ConversionError>(ConversionError::NotRenderable)
        },
        spec_walk_tree(root@) matches Some(p) ==> (statements_ready(p, 0) <==> statements_shape_ok(
            p,
            0,
        )),
        result_text(r) == node_conversion(root@),
{
    proof {
        law_read_program_renders(root@);
    }
    match try_walk_tree(root) {
        None => Err(ConversionError::Unsupported),
        Some(program) => {
            if statements_can_render(&program, 0) {
                Ok(create_artel_code(program))
            } else {
                Err(ConversionError::NotRenderable)
            }
        },
    }
}

/// What converting a syntax tree gives: its Artel text, or the error.
pub open spec fn node_conversion(root: NodeModel) -> Result<Seq<char>, ConversionError> {
    match spec_walk_tree(root) {
        None => Err(ConversionError::Unsupported),
        Some(p) => if statements_ready(p, 0) {
            Ok(statements_text(p, 0))
        } else {
            Err(ConversionError::NotRenderable)
        },
    }
}

/// What converting the tree read from the parser gives; `TreeNotCopied` when
/// its descendant counts do not nest.
pub open spec fn tree_conversion(t: Option<NodeModel>) -> Result<Seq<char>, ConversionError> {
    match t {
        Some(root) => node_conversion(root),
        None => Err(ConversionError::TreeNotCopied),
    }
}

pub open spec fn result_text(r: Result<String, ConversionError>) -> Result<Seq<char>, ConversionError> {
    match r {
        Ok(s) => Ok(s@),
        Err(e) => Err(e),
    }
}

/// Converts TypeScript source into Artel API definitions: the result is that
/// of [`convert_tree`] on the tree tree-sitter parses from `code`.
pub fn convert_ts(code: &str) -> (r: Result<String, ConversionError>)
    ensures
        result_text(r) == tree_conversion(typescript_syntax_tree(code@)),
{
    let parsed = match parse_typescript(code) {
        Ok(Some(p)) => p,
        _ => {
            // tree-sitter always accepts the grammar and gives a tree
            return Err(ConversionError::TreeNotCopied);
        },
    };
    let d = descendant_count_at(&parsed, 0);
    if d < 1 {
        return Err(ConversionError::TreeNotCopied);
    }
    let node = match copy_node(&parsed, 0, d, None) {
        Some(n) => n,
        None => {
            return Err(ConversionError::TreeNotCopied);
        },
    };
    convert_tree(&node)
}

} // verus!
