use vstd::prelude::*;
use crate::options::OptionsModel;
use crate::tree::{SId, SNode, SSpec};

verus! {

/// What the transform knows at one point of the traversal.
pub struct MarkerModel {
    /// Named imports of the configured library, but for the styled factory.
    pub imported: Set<SId>,
    /// The local binding of the styled factory, if it was imported.
    pub styled_fn: Option<SId>,
    /// For each binding declared as a styled wrapper: its own name, then the
    /// chain of what it wraps.
    pub chains: Map<SId, Seq<Seq<char>>>,
    /// The name of the innermost enclosing named function or class.
    pub context: Option<Seq<char>>,
}

pub open spec fn initial_model() -> MarkerModel {
    MarkerModel { imported: Set::empty(), styled_fn: None, chains: Map::empty(), context: None }
}

/// The effect of one import specifier of a matching import declaration.
pub open spec fn import_step(cfg: OptionsModel, st: MarkerModel, sp: SSpec) -> MarkerModel {
    match sp {
        SSpec::Named { local, imported } => {
            let name = match imported {
                Some(n) => n,
                None => local.0,
            };
            if name == cfg.styled_function_name {
                MarkerModel { styled_fn: Some(local), ..st }
            } else {
                MarkerModel { imported: st.imported.insert(local), ..st }
            }
        },
        _ => st,
    }
}

pub open spec fn import_steps(cfg: OptionsModel, st: MarkerModel, s: Seq<SSpec>) -> MarkerModel
    decreases s.len(),
{
    if s.len() == 0 {
        st
    } else {
        import_step(cfg, import_steps(cfg, st, s.drop_last()), s.last())
    }
}

/// The effect of an import declaration: only one from the configured library
/// is read.
pub open spec fn import_effect(
    cfg: OptionsModel,
    st: MarkerModel,
    src: Seq<char>,
    specs: Seq<SSpec>,
) -> MarkerModel {
    if src == cfg.library_name {
        import_steps(cfg, st, specs)
    } else {
        st
    }
}

/// Whether `callee` is the styled factory, or a property of it.
pub open spec fn styled_callee(st: MarkerModel, callee: SNode) -> bool {
    match callee {
        SNode::Ident(id) => st.styled_fn == Some(id),
        SNode::Member { obj, prop } => match *obj {
            SNode::Ident(id) => st.styled_fn == Some(id),
            _ => false,
        },
        _ => false,
    }
}

/// The chain of what a call wraps, before the check that it is a styled call.
pub open spec fn wrapped_chain(st: MarkerModel, callee: SNode, args: Seq<SNode>) -> Option<
    Seq<Seq<char>>,
> {
    match callee {
        SNode::Ident(_) => if args.len() > 0 {
            match args[0] {
                SNode::Ident(c) => if st.chains.contains_key(c) {
                    Some(st.chains[c])
                } else if st.imported.contains(c) {
                    Some(seq![c.0])
                } else {
                    None
                },
                _ => None,
            }
        } else {
            None
        },
        SNode::Member { obj, prop } => match prop {
            Some(p) => Some(seq![p]),
            None => None,
        },
        _ => None,
    }
}

/// The chain of what a styled call wraps; `None` for any other call.
pub open spec fn styled_call_chain(st: MarkerModel, callee: SNode, args: Seq<SNode>) -> Option<
    Seq<Seq<char>>,
> {
    if styled_callee(st, callee) {
        wrapped_chain(st, callee, args)
    } else {
        None
    }
}

/// The chain of what a declarator's initializer wraps, if it is a styled
/// declaration.
pub open spec fn init_chain(st: MarkerModel, init: SNode) -> Option<Seq<Seq<char>>> {
    match init {
        SNode::Call { callee, args } => styled_call_chain(st, *callee, args),
        SNode::TaggedTpl { tag, parts } => match *tag {
            SNode::Call { callee, args } => styled_call_chain(st, *callee, args),
            SNode::Member { obj, prop } => match *obj {
                SNode::Ident(o) => if st.styled_fn == Some(o) {
                    match prop {
                        Some(p) => Some(seq![p]),
                        None => None,
                    }
                } else {
                    None
                },
                _ => None,
            },
            _ => None,
        },
        _ => None,
    }
}

/// The effect of a variable declarator, before its children are visited.
pub open spec fn declarator_effect(
    st: MarkerModel,
    binding: Option<SId>,
    init: Option<Box<SNode>>,
) -> MarkerModel {
    match (binding, init) {
        (Some(b), Some(i)) => match init_chain(st, *i) {
            Some(c) => MarkerModel { chains: st.chains.insert(b, seq![b.0] + c), ..st },
            None => st,
        },
        _ => st,
    }
}

/// The first two entries of a chain, joined by a hyphen.
pub open spec fn join_first_two(c: Seq<Seq<char>>) -> Seq<char> {
    if c.len() == 0 {
        Seq::empty()
    } else if c.len() == 1 {
        c[0]
    } else {
        c[0] + "-"@ + c[1]
    }
}

/// The name that an element with this tag derives, if it is tracked.
pub open spec fn derived_name(st: MarkerModel, name: Option<SId>) -> Option<Seq<char>> {
    match name {
        Some(id) => if st.chains.contains_key(id) {
            Some(join_first_two(st.chains[id]))
        } else if st.imported.contains(id) {
            Some(id.0)
        } else {
            None
        },
        None => None,
    }
}

pub open spec fn context_or_default(ctx: Option<Seq<char>>) -> Seq<char> {
    match ctx {
        Some(c) => c,
        None => "Component"@,
    }
}

/// The value of the marker attribute for a derived name.
pub open spec fn marker_value(ctx: Option<Seq<char>>, derived: Seq<char>) -> Seq<char> {
    context_or_default(ctx) + "-"@ + derived
}

pub open spec fn is_attr_named(n: SNode, attr: Seq<char>) -> bool {
    match n {
        SNode::Attr { name, value } => name == Some(attr),
        _ => false,
    }
}

pub open spec fn has_attr(attrs: Seq<SNode>, attr: Seq<char>) -> bool {
    exists|i: int| 0 <= i < attrs.len() && #[trigger] is_attr_named(attrs[i], attr)
}

pub open spec fn marker_attr(attr: Seq<char>, value: Seq<char>) -> SNode {
    SNode::Attr { name: Some(attr), value: Some(Box::new(SNode::Str(value))) }
}

/// An element's attributes after the marker, if owed, is appended.
pub open spec fn with_marker(
    attr: Seq<char>,
    ctx: Option<Seq<char>>,
    derived: Option<Seq<char>>,
    attrs: Seq<SNode>,
) -> Seq<SNode> {
    match derived {
        Some(d) => if has_attr(attrs, attr) {
            attrs
        } else {
            attrs.push(marker_attr(attr, marker_value(ctx, d)))
        },
        None => attrs,
    }
}

/// The traversal of one node: the state after it and the rewritten node.
pub open spec fn fold_node(cfg: OptionsModel, st: MarkerModel, n: SNode) -> (MarkerModel, SNode)
    decreases n,
{
    match n {
        SNode::Member { obj, prop } => {
            let (s1, o1) = fold_node(cfg, st, *obj);
            (s1, SNode::Member { obj: Box::new(o1), prop })
        },
        SNode::Call { callee, args } => {
            let (s1, c1) = fold_node(cfg, st, *callee);
            let (s2, a2) = fold_list(cfg, s1, args);
            (s2, SNode::Call { callee: Box::new(c1), args: a2 })
        },
        SNode::TaggedTpl { tag, parts } => {
            let (s1, t1) = fold_node(cfg, st, *tag);
            let (s2, p2) = fold_list(cfg, s1, parts);
            (s2, SNode::TaggedTpl { tag: Box::new(t1), parts: p2 })
        },
        SNode::Attr { name, value } => match value {
            Some(v) => {
                let (s1, v1) = fold_node(cfg, st, *v);
                (s1, SNode::Attr { name, value: Some(Box::new(v1)) })
            },
            None => (st, n),
        },
        SNode::Import { src, specifiers } => (import_effect(cfg, st, src, specifiers), n),
        SNode::VarDeclarator { binding, init } => {
            let s0 = declarator_effect(st, binding, init);
            match init {
                Some(i) => {
                    let (s1, i1) = fold_node(cfg, s0, *i);
                    (s1, SNode::VarDeclarator { binding, init: Some(Box::new(i1)) })
                },
                None => (s0, n),
            }
        },
        SNode::FnDecl { name, body } => {
            let (s1, b1) = fold_list(cfg, MarkerModel { context: Some(name), ..st }, body);
            (MarkerModel { context: st.context, ..s1 }, SNode::FnDecl { name, body: b1 })
        },
        SNode::ClassDecl { name, body } => {
            let (s1, b1) = fold_list(cfg, MarkerModel { context: Some(name), ..st }, body);
            (MarkerModel { context: st.context, ..s1 }, SNode::ClassDecl { name, body: b1 })
        },
        SNode::Element { name, attrs, children } => {
            // The name is derived with the state on entry; the marker follows
            // the traversed attributes, whose names are those on entry.
            let (s1, a1) = fold_list(cfg, st, attrs);
            let (s2, c2) = fold_list(cfg, s1, children);
            let a2 = with_marker(cfg.attribute_name, st.context, derived_name(st, name), a1);
            (s2, SNode::Element { name, attrs: a2, children: c2 })
        },
        SNode::Other(c) => {
            let (s1, c1) = fold_list(cfg, st, c);
            (s1, SNode::Other(c1))
        },
        _ => (st, n),
    }
}

/// The traversal of a sequence of sibling nodes, in document order.
pub open spec fn fold_list(cfg: OptionsModel, st: MarkerModel, s: Seq<SNode>) -> (
    MarkerModel,
    Seq<SNode>,
)
    decreases s,
{
    if s.len() == 0 {
        (st, Seq::empty())
    } else {
        let (s1, o1) = fold_list(cfg, st, s.drop_last());
        let (s2, n2) = fold_node(cfg, s1, s.last());
        (s2, o1.push(n2))
    }
}

/// Whether the tree holds an import declaration from `lib`.
pub open spec fn imports_from(n: SNode, lib: Seq<char>) -> bool
    decreases n,
{
    match n {
        SNode::Member { obj, prop } => imports_from(*obj, lib),
        SNode::Call { callee, args } => imports_from(*callee, lib) || any_imports_from(args, lib),
        SNode::TaggedTpl { tag, parts } => imports_from(*tag, lib) || any_imports_from(parts, lib),
        SNode::Attr { name, value } => match value {
            Some(v) => imports_from(*v, lib),
            None => false,
        },
        SNode::Import { src, specifiers } => src == lib,
        SNode::VarDeclarator { binding, init } => match init {
            Some(i) => imports_from(*i, lib),
            None => false,
        },
        SNode::FnDecl { name, body } => any_imports_from(body, lib),
        SNode::ClassDecl { name, body } => any_imports_from(body, lib),
        SNode::Element { name, attrs, children } => any_imports_from(attrs, lib)
            || any_imports_from(children, lib),
        SNode::Other(c) => any_imports_from(c, lib),
        _ => false,
    }
}

pub open spec fn any_imports_from(s: Seq<SNode>, lib: Seq<char>) -> bool
    decreases s,
{
    if s.len() == 0 {
        false
    } else {
        any_imports_from(s.drop_last(), lib) || imports_from(s.last(), lib)
    }
}

/// The whole transform: the tree unchanged when it imports nothing from the
/// configured library, else its traversal from a fresh state.
pub open spec fn transform(cfg: OptionsModel, t: SNode) -> SNode {
    if imports_from(t, cfg.library_name) {
        fold_node(cfg, initial_model(), t).1
    } else {
        t
    }
}

proof fn lemma_import_steps_context(cfg: OptionsModel, st: MarkerModel, s: Seq<SSpec>)
    ensures
        import_steps(cfg, st, s).context == st.context,
    decreases s.len(),
{
    if s.len() > 0 {
        lemma_import_steps_context(cfg, st, s.drop_last());
    }
}

/// A traversal leaves the naming context as it found it.
pub proof fn lemma_fold_node_context(cfg: OptionsModel, st: MarkerModel, n: SNode)
    ensures
        fold_node(cfg, st, n).0.context == st.context,
    decreases n,
{
    match n {
        SNode::Member { obj, prop } => {
            lemma_fold_node_context(cfg, st, *obj);
        },
        SNode::Call { callee, args } => {
            lemma_fold_node_context(cfg, st, *callee);
            lemma_fold_list_context(cfg, fold_node(cfg, st, *callee).0, args);
        },
        SNode::TaggedTpl { tag, parts } => {
            lemma_fold_node_context(cfg, st, *tag);
            lemma_fold_list_context(cfg, fold_node(cfg, st, *tag).0, parts);
        },
        SNode::Attr { name, value } => {
            if let Some(v) = value {
                lemma_fold_node_context(cfg, st, *v);
            }
        },
        SNode::Import { src, specifiers } => {
            lemma_import_steps_context(cfg, st, specifiers);
        },
        SNode::VarDeclarator { binding, init } => {
            if let Some(i) = init {
                lemma_fold_node_context(cfg, declarator_effect(st, binding, init), *i);
            }
        },
        SNode::Element { name, attrs, children } => {
            lemma_fold_list_context(cfg, st, attrs);
            lemma_fold_list_context(cfg, fold_list(cfg, st, attrs).0, children);
        },
        SNode::Other(c) => {
            lemma_fold_list_context(cfg, st, c);
        },
        _ => {},
    }
}

pub proof fn lemma_fold_list_context(cfg: OptionsModel, st: MarkerModel, s: Seq<SNode>)
    ensures
        fold_list(cfg, st, s).0.context == st.context,
    decreases s,
{
    if s.len() > 0 {
        lemma_fold_list_context(cfg, st, s.drop_last());
        lemma_fold_node_context(cfg, fold_list(cfg, st, s.drop_last()).0, s.last());
    }
}

} // verus!
