//! Extracting note metadata and cross-references from a parsed note.
//!
//! A note registers itself with a show rule `#show: type.with(id: "...", ...)`
//! and refers to other notes with `#xlink("id")` or `#xlink(id: "id")`.

use vstd::prelude::*;

use crate::error::NotesError;
use crate::metadata::{self, ExtraFields, FieldsView, JsonValue, JsonView, NoteMetadata, NoteMetadataView};
use crate::syntax::{Arg, Call, Expr, Node, NodeKind};
use crate::text::str_eq;

verus! {

// ----------------------------------------------------------------------
// What the extraction computes
// ----------------------------------------------------------------------

/// The text of a string literal; `None` for any other expression.
pub open spec fn expr_string(e: Expr) -> Option<Seq<char>> {
    match e {
        Expr::Str(s) => Some(s@),
        _ => None,
    }
}

/// The string literals among the positional items of an array, in order.
pub open spec fn array_strings(items: Seq<Option<Expr>>) -> Seq<Seq<char>>
    decreases items.len(),
{
    if items.len() == 0 {
        Seq::empty()
    } else {
        let rest = array_strings(items.drop_last());
        match items.last() {
            Some(Expr::Str(s)) => rest.push(s@),
            _ => rest,
        }
    }
}

/// A list of strings given as an array of string literals, or as one string
/// literal; empty for any other expression.
pub open spec fn expr_string_array(e: Expr) -> Seq<Seq<char>> {
    match e {
        Expr::Array(items) => array_strings(items@),
        Expr::Str(s) => seq![s@],
        _ => Seq::empty(),
    }
}

/// The JSON value of a literal: strings, integers, booleans and arrays of
/// them (items that have no JSON value are left out); `None` otherwise.
pub open spec fn expr_json(e: Expr) -> Option<JsonView>
    decreases e,
{
    match e {
        Expr::Str(s) => Some(JsonView::Str(s@)),
        Expr::Int(i) => Some(JsonView::Int(i as int)),
        Expr::Bool(b) => Some(JsonView::Bool(b)),
        Expr::Array(items) => Some(JsonView::Array(array_json(items@))),
        _ => None,
    }
}

/// The JSON values of the positional items of an array that have one, in order.
pub open spec fn array_json(items: Seq<Option<Expr>>) -> Seq<JsonView>
    decreases items,
{
    if items.len() == 0 {
        Seq::empty()
    } else {
        let rest = array_json(items.drop_last());
        match items.last() {
            Some(e) => match expr_json(e) {
                Some(v) => rest.push(v),
                None => rest,
            },
            None => rest,
        }
    }
}

/// The fields gathered from the named arguments of a note constructor.
pub struct ConstructorFields {
    pub id: Option<Seq<char>>,
    pub title: Option<Seq<char>>,
    pub parent: Option<Seq<char>>,
    pub tags: Seq<Seq<char>>,
    pub created: Option<Seq<char>>,
    pub extra: FieldsView,
}

/// Before any argument.
pub open spec fn no_fields() -> ConstructorFields {
    ConstructorFields {
        id: None,
        title: None,
        parent: None,
        tags: Seq::empty(),
        created: None,
        extra: Seq::empty(),
    }
}

/// One argument of a note constructor: a named argument sets the field it
/// names (a later one wins); any other name becomes an extra field when its
/// value is a literal; positional and spread arguments are skipped.
pub open spec fn constructor_step(f: ConstructorFields, arg: Arg) -> ConstructorFields {
    match arg {
        Arg::Named(name, e) => {
            if name@ == "id"@ {
                ConstructorFields { id: expr_string(e), ..f }
            } else if name@ == "title"@ {
                ConstructorFields { title: expr_string(e), ..f }
            } else if name@ == "parent"@ {
                ConstructorFields { parent: expr_string(e), ..f }
            } else if name@ == "tags"@ {
                ConstructorFields { tags: expr_string_array(e), ..f }
            } else if name@ == "created"@ {
                ConstructorFields { created: expr_string(e), ..f }
            } else {
                match expr_json(e) {
                    Some(v) => ConstructorFields { extra: metadata::insert_field(f.extra, name@, v), ..f },
                    None => f,
                }
            }
        },
        _ => f,
    }
}

/// The fields after the arguments, in order.
pub open spec fn constructor_fields(args: Seq<Arg>) -> ConstructorFields
    decreases args.len(),
{
    if args.len() == 0 {
        no_fields()
    } else {
        constructor_step(constructor_fields(args.drop_last()), args.last())
    }
}

/// The metadata stated by a call `type.with(...)` for a note at `path`: the
/// callee must be a field `with` of an identifier, which names the note type,
/// and the arguments must give an `id`; a missing title is empty.
pub open spec fn constructor_metadata(call: Call, path: Seq<char>) -> Option<NoteMetadataView> {
    match call.callee {
        Expr::FieldAccess(target, field) => {
            if field@ == "with"@ {
                match *target {
                    Expr::Ident(kind_name) => {
                        let f = constructor_fields(call.args@);
                        match f.id {
                            Some(id) => Some(
                                NoteMetadataView {
                                    id,
                                    title: match f.title {
                                        Some(t) => t,
                                        None => Seq::empty(),
                                    },
                                    note_type: kind_name@,
                                    parent: f.parent,
                                    tags: f.tags,
                                    created: f.created,
                                    path,
                                    extra: f.extra,
                                },
                            ),
                            None => None,
                        }
                    },
                    _ => None,
                }
            } else {
                None
            }
        },
        _ => None,
    }
}

/// The target named by the arguments of an `xlink` call from argument `i` on:
/// the first positional string literal, or the value of the first argument
/// named `id` (which ends the search even when it is not a string literal).
pub open spec fn xlink_from(args: Seq<Arg>, i: int) -> Option<Seq<char>>
    decreases args.len() - i,
{
    if i < 0 || i >= args.len() {
        None
    } else {
        match args[i] {
            Arg::Pos(e) => match expr_string(e) {
                Some(s) => Some(s),
                None => xlink_from(args, i + 1),
            },
            Arg::Named(name, e) => {
                if name@ == "id"@ {
                    expr_string(e)
                } else {
                    xlink_from(args, i + 1)
                }
            },
            Arg::Spread => xlink_from(args, i + 1),
        }
    }
}

/// The note that a call links to, when the call is `xlink(...)`.
pub open spec fn xlink_target(call: Call) -> Option<Seq<char>> {
    match call.callee {
        Expr::Ident(name) => if name@ == "xlink"@ {
            xlink_from(call.args@, 0)
        } else {
            None
        },
        _ => None,
    }
}

/// The result of extracting a note: its metadata, if it has a note
/// constructor, and the targets of its links in source order.
pub struct AstExtractionView {
    pub metadata: Option<NoteMetadataView>,
    pub links: Seq<Seq<char>>,
}

/// Nothing found yet.
pub open spec fn nothing_found() -> AstExtractionView {
    AstExtractionView { metadata: None, links: Seq::empty() }
}

/// What one node adds: a show rule without selector whose transformation is a
/// note constructor sets the metadata; an `xlink` call adds a link.
pub open spec fn visit(kind: NodeKind, path: Seq<char>, st: AstExtractionView) -> AstExtractionView {
    let metadata = match kind {
        NodeKind::ShowRule { has_selector, transform } => if has_selector {
            st.metadata
        } else {
            match transform {
                Some(call) => match constructor_metadata(call, path) {
                    Some(m) => Some(m),
                    None => st.metadata,
                },
                None => st.metadata,
            }
        },
        _ => st.metadata,
    };
    let links = match kind {
        NodeKind::FuncCall(call) => match xlink_target(call) {
            Some(t) => st.links.push(t),
            None => st.links,
        },
        _ => st.links,
    };
    AstExtractionView { metadata, links }
}

/// The extraction after visiting `n` and then its descendants in pre-order.
pub open spec fn walk(n: Node, path: Seq<char>, st: AstExtractionView) -> AstExtractionView
    decreases n, 1int, 0int,
{
    walk_children(n, 0, path, visit(n.kind, path, st))
}

/// The extraction after walking the children of `n` from child `i` on.
pub open spec fn walk_children(n: Node, i: int, path: Seq<char>, st: AstExtractionView) -> AstExtractionView
    decreases n, 0int, n.children@.len() - i,
{
    if i < 0 || i >= n.children@.len() {
        st
    } else {
        walk_children(n, i + 1, path, walk(n.children@[i], path, st))
    }
}

/// What a note's syntax tree gives for a note file at `path`.
pub open spec fn extraction(tree: Node, path: Seq<char>) -> AstExtractionView {
    walk(tree, path, nothing_found())
}

} // verus!

verus! {

// ----------------------------------------------------------------------
// The extraction
// ----------------------------------------------------------------------

/// Result of parsing a single note file.
#[derive(Debug)]
pub struct AstExtraction {
    pub metadata: Option<NoteMetadata>,
    pub links: Vec<String>,
}

/// The view of what has been found so far.
pub open spec fn found_view(metadata: Option<NoteMetadata>, links: Seq<String>) -> AstExtractionView {
    AstExtractionView { metadata: metadata::opt_meta_view(metadata), links: metadata::strs_view(links) }
}

impl View for AstExtraction {
    type V = AstExtractionView;

    open spec fn view(&self) -> AstExtractionView {
        found_view(self.metadata, self.links@)
    }
}

/// The text of a string literal.
fn expr_to_string(expr: &Expr) -> (res: Option<String>)
    ensures
        match res {
            Some(s) => expr_string(*expr) == Some(s@),
            None => expr_string(*expr) is None,
        },
{
    match expr {
        Expr::Str(s) => Some(s.clone()),
        _ => None,
    }
}

/// The strings of an array of string literals, or of one string literal.
fn expr_to_string_array(expr: &Expr) -> (res: Vec<String>)
    ensures
        metadata::strs_view(res@) == expr_string_array(*expr),
{
    match expr {
        Expr::Array(items) => {
            let mut out: Vec<String> = Vec::new();
            let n = items.len();
            let mut i: usize = 0;
            while i < n
                invariant
                    n == items@.len(),
                    i <= n,
                    metadata::strs_view(out@) == array_strings(items@.take(i as int)),
                decreases n - i,
            {
                assert(items@.take(i + 1).drop_last() =~= items@.take(i as int));
                match &items[i] {
                    Some(Expr::Str(s)) => {
                        proof {
                            metadata::lemma_strs_view_push(out@, *s);
                        }
                        out.push(s.clone());
                    },
                    _ => {},
                }
                i = i + 1;
            }
            assert(items@.take(n as int) =~= items@);
            out
        },
        Expr::Str(s) => {
            let mut out: Vec<String> = Vec::new();
            out.push(s.clone());
            assert(metadata::strs_view(out@) =~= seq![s@]);
            out
        },
        _ => {
            let out: Vec<String> = Vec::new();
            assert(metadata::strs_view(out@) =~= Seq::<Seq<char>>::empty());
            out
        },
    }
}

/// The JSON value of a literal.
#[verifier::loop_isolation(false)]
fn expr_to_json_value(expr: &Expr) -> (res: Option<JsonValue>)
    ensures
        match res {
            Some(v) => expr_json(*expr) == Some(v@),
            None => expr_json(*expr) is None,
        },
    decreases expr,
{
    match expr {
        Expr::Str(s) => Some(JsonValue::Str(s.clone())),
        Expr::Int(i) => Some(JsonValue::Int(*i)),
        Expr::Bool(b) => Some(JsonValue::Bool(*b)),
        Expr::Array(items) => {
            let mut out: Vec<JsonValue> = Vec::new();
            let n = items.len();
            let mut i: usize = 0;
            while i < n
                invariant
                    n == items@.len(),
                    i <= n,
                    metadata::json_views(out@) == array_json(items@.take(i as int)),
                decreases n - i,
            {
                assert(items@.take(i + 1).drop_last() =~= items@.take(i as int));
                match &items[i] {
                    Some(e) => {
                        proof {
                            assert(decreases_to!(*expr => *items));
                            assert(decreases_to!(*items => items@));
                            assert(decreases_to!(items@ => items@[i as int]));
                        }
                        match expr_to_json_value(e) {
                            Some(v) => {
                                proof {
                                    metadata::lemma_json_views_push(out@, v);
                                }
                                out.push(v);
                            },
                            None => {},
                        }
                    },
                    None => {},
                }
                i = i + 1;
            }
            assert(items@.take(n as int) =~= items@);
            Some(JsonValue::Array(out))
        },
        _ => None,
    }
}

} // verus!

verus! {

/// The target of `xlink("id")` or `xlink(id: "id")`.
fn extract_xlink(call: &Call) -> (res: Option<String>)
    ensures
        match res {
            Some(t) => xlink_target(*call) == Some(t@),
            None => xlink_target(*call) is None,
        },
{
    match &call.callee {
        Expr::Ident(name) => {
            if !str_eq(name.as_str(), "xlink") {
                return None;
            }
        },
        _ => {
            return None;
        },
    }
    let n = call.args.len();
    let mut i: usize = 0;
    while i < n
        invariant
            n == call.args@.len(),
            i <= n,
            xlink_target(*call) == xlink_from(call.args@, i as int),
        decreases n - i,
    {
        match &call.args[i] {
            Arg::Pos(e) => {
                if let Some(s) = expr_to_string(e) {
                    return Some(s);
                }
            },
            Arg::Named(name, e) => {
                if str_eq(name.as_str(), "id") {
                    return expr_to_string(e);
                }
            },
            Arg::Spread => {},
        }
        i = i + 1;
    }
    None
}

/// The view of the fields gathered so far.
pub open spec fn fields_view(
    id: Option<String>,
    title: Option<String>,
    parent: Option<String>,
    tags: Seq<String>,
    created: Option<String>,
    extra: FieldsView,
) -> ConstructorFields {
    ConstructorFields {
        id: metadata::opt_str_view(id),
        title: metadata::opt_str_view(title),
        parent: metadata::opt_str_view(parent),
        tags: metadata::strs_view(tags),
        created: metadata::opt_str_view(created),
        extra,
    }
}

/// The metadata stated by a note constructor `type.with(id: ..., ...)`.
fn extract_note_constructor(call: &Call, file_path: &str) -> (res: Option<NoteMetadata>)
    ensures
        metadata::opt_meta_view(res) == constructor_metadata(*call, file_path@),
{
    let kind_name = match &call.callee {
        Expr::FieldAccess(target, field) => {
            if !str_eq(field.as_str(), "with") {
                return None;
            }
            match &**target {
                Expr::Ident(name) => name.clone(),
                _ => {
                    return None;
                },
            }
        },
        _ => {
            return None;
        },
    };
    let mut id: Option<String> = None;
    let mut title: Option<String> = None;
    let mut parent: Option<String> = None;
    let mut tags: Vec<String> = Vec::new();
    let mut created: Option<String> = None;
    let mut extra = ExtraFields::new();
    let n = call.args.len();
    let mut i: usize = 0;
    assert(call.args@.take(0) =~= Seq::<Arg>::empty());
    assert(metadata::strs_view(tags@) =~= Seq::<Seq<char>>::empty());
    while i < n
        invariant
            n == call.args@.len(),
            i <= n,
            fields_view(id, title, parent, tags@, created, extra@) == constructor_fields(
                call.args@.take(i as int),
            ),
        decreases n - i,
    {
        assert(call.args@.take(i + 1).drop_last() =~= call.args@.take(i as int));
        match &call.args[i] {
            Arg::Named(name, e) => {
                if str_eq(name.as_str(), "id") {
                    id = expr_to_string(e);
                } else if str_eq(name.as_str(), "title") {
                    title = expr_to_string(e);
                } else if str_eq(name.as_str(), "parent") {
                    parent = expr_to_string(e);
                } else if str_eq(name.as_str(), "tags") {
                    tags = expr_to_string_array(e);
                } else if str_eq(name.as_str(), "created") {
                    created = expr_to_string(e);
                } else {
                    if let Some(v) = expr_to_json_value(e) {
                        extra.insert(name.clone(), v);
                    }
                }
            },
            _ => {},
        }
        i = i + 1;
    }
    assert(call.args@.take(n as int) =~= call.args@);
    match id {
        Some(id) => {
            let title = match title {
                Some(t) => t,
                None => String::new(),
            };
            Some(
                NoteMetadata {
                    id,
                    title,
                    note_type: kind_name,
                    parent,
                    tags,
                    created,
                    path: file_path.to_owned(),
                    extra,
                },
            )
        },
        None => None,
    }
}

/// Visits `node` and its descendants in pre-order, recording the metadata of
/// note constructors (a later one wins) and the targets of links.
fn walk_node(
    node: &Node,
    metadata: &mut Option<NoteMetadata>,
    links: &mut Vec<String>,
    file_path: &str,
)
    ensures
        found_view(*final(metadata), final(links)@) == walk(
            *node,
            file_path@,
            found_view(*old(metadata), old(links)@),
        ),
    decreases node,
{
    let ghost st0 = found_view(*metadata, links@);
    match &node.kind {
        NodeKind::ShowRule { has_selector, transform } => {
            if !*has_selector {
                if let Some(call) = transform {
                    if let Some(meta) = extract_note_constructor(call, file_path) {
                        *metadata = Some(meta);
                    }
                }
            }
        },
        NodeKind::FuncCall(call) => {
            if let Some(target) = extract_xlink(call) {
                proof {
                    metadata::lemma_strs_view_push(links@, target);
                }
                links.push(target);
            }
        },
        NodeKind::Other => {},
    }
    let ghost st1 = found_view(*metadata, links@);
    assert(st1 == visit(node.kind, file_path@, st0));
    let n = node.children.len();
    let mut i: usize = 0;
    while i < n
        invariant
            n == node.children@.len(),
            i <= n,
            walk_children(*node, 0, file_path@, st1) == walk_children(
                *node,
                i as int,
                file_path@,
                found_view(*metadata, links@),
            ),
        decreases n - i,
    {
        proof {
            assert(decreases_to!(*node => node.children));
            assert(decreases_to!(node.children => node.children@));
            assert(decreases_to!(node.children@ => node.children@[i as int]));
        }
        walk_node(&node.children[i], metadata, links, file_path);
        i = i + 1;
    }
}

/// What a parsed note gives: the metadata of its note constructor, if it has
/// one, and the targets of its links in source order.
pub fn extract_from_tree(tree: &Node, file_path: &str) -> (res: AstExtraction)
    ensures
        res@ == extraction(*tree, file_path@),
{
    let mut metadata: Option<NoteMetadata> = None;
    let mut links: Vec<String> = Vec::new();
    assert(metadata::strs_view(links@) =~= Seq::<Seq<char>>::empty());
    walk_node(tree, &mut metadata, &mut links, file_path);
    AstExtraction { metadata, links }
}

/// Parses a note file and extracts its metadata and links.
pub fn extract_from_file(source: &str, file_path: &str) -> (res: Result<AstExtraction, NotesError>)
    ensures
        res matches Ok(r) && r@ == extraction(crate::syntax::typst_syntax_tree(source@), file_path@),
{
    let tree = crate::syntax::parse_source(source);
    Ok(extract_from_tree(&tree, file_path))
}

} // verus!

verus! {

/// Whether the metadata found so far, if any, belongs to the file at `path`.
pub open spec fn metadata_at(st: AstExtractionView, path: Seq<char>) -> bool {
    st.metadata matches Some(m) ==> m.path == path
}

proof fn lemma_walk_keeps_path(n: Node, path: Seq<char>, st: AstExtractionView)
    requires
        metadata_at(st, path),
    ensures
        metadata_at(walk(n, path, st), path),
    decreases n, 1int, 0int,
{
    lemma_walk_children_keeps_path(n, 0, path, visit(n.kind, path, st));
}

proof fn lemma_walk_children_keeps_path(n: Node, i: int, path: Seq<char>, st: AstExtractionView)
    requires
        metadata_at(st, path),
    ensures
        metadata_at(walk_children(n, i, path, st), path),
    decreases n, 0int, n.children@.len() - i,
{
    if 0 <= i < n.children@.len() {
        lemma_walk_keeps_path(n.children@[i], path, st);
        lemma_walk_children_keeps_path(n, i + 1, path, walk(n.children@[i], path, st));
    }
}

/// The metadata extracted from a note file, when there is any, records the
/// path of that file.
pub proof fn lemma_extraction_path(tree: Node, path: Seq<char>)
    ensures
        extraction(tree, path).metadata matches Some(m) ==> m.path == path,
{
    lemma_walk_keeps_path(tree, path, nothing_found());
}

} // verus!
