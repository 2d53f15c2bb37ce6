use vstd::prelude::*;
use crate::options::OptionsModel;
use crate::model::{
    MarkerModel, initial_model, fold_node, fold_list, imports_from, any_imports_from, transform,
    init_chain, declarator_effect, has_attr, is_attr_named, marker_attr, with_marker,
    derived_name, marker_value,
};
use crate::tree::SNode;

verus! {

/// The attributes of an element; empty for any other node.
pub open spec fn element_attrs(n: SNode) -> Seq<SNode> {
    match n {
        SNode::Element { name, attrs, children } => attrs,
        _ => Seq::empty(),
    }
}

/// Whether `n` is an attribute whose value is a string literal.
pub open spec fn is_str_attr(n: SNode) -> bool {
    match n {
        SNode::Attr { name, value } => match value {
            Some(v) => *v is Str,
            None => false,
        },
        _ => false,
    }
}

proof fn lemma_str_attr_fixed(cfg: OptionsModel, st: MarkerModel, n: SNode)
    requires
        is_str_attr(n),
    ensures
        fold_node(cfg, st, n) == (st, n),
{
    reveal_with_fuel(fold_node, 2);
}

proof fn lemma_has_attr_push(s: Seq<SNode>, x: SNode, a: Seq<char>)
    ensures
        has_attr(s.push(x), a) == (has_attr(s, a) || is_attr_named(x, a)),
{
    let t = s.push(x);
    if has_attr(s, a) {
        let i = choose|i: int| 0 <= i < s.len() && #[trigger] is_attr_named(s[i], a);
        assert(t[i] == s[i]);
    }
    if is_attr_named(x, a) {
        assert(t[s.len() as int] == x);
    }
    if has_attr(t, a) && !is_attr_named(x, a) {
        let i = choose|i: int| 0 <= i < t.len() && #[trigger] is_attr_named(t[i], a);
        assert(i < s.len());
        assert(t[i] == s[i]);
    }
}

proof fn lemma_fold_list_len(cfg: OptionsModel, st: MarkerModel, s: Seq<SNode>)
    ensures
        fold_list(cfg, st, s).1.len() == s.len(),
    decreases s.len(),
{
    if s.len() > 0 {
        lemma_fold_list_len(cfg, st, s.drop_last());
    }
}

/// The traversal of a list rewrites its first node from the starting state.
proof fn lemma_fold_list_first(cfg: OptionsModel, st: MarkerModel, s: Seq<SNode>)
    requires
        s.len() > 0,
    ensures
        fold_list(cfg, st, s).1[0] == fold_node(cfg, st, s[0]).1,
    decreases s.len(),
{
    lemma_fold_list_len(cfg, st, s.drop_last());
    if s.len() > 1 {
        lemma_fold_list_first(cfg, st, s.drop_last());
    } else {
        assert(s.drop_last().len() == 0);
    }
}

/// String-valued attributes come out of a list traversal unchanged.
proof fn lemma_fold_list_keeps_str_attrs(cfg: OptionsModel, st: MarkerModel, s: Seq<SNode>)
    ensures
        fold_list(cfg, st, s).1.len() == s.len(),
        forall|i: int|
            0 <= i < s.len() && is_str_attr(s[i]) ==> #[trigger] fold_list(cfg, st, s).1[i]
                == s[i],
    decreases s.len(),
{
    if s.len() > 0 {
        lemma_fold_list_keeps_str_attrs(cfg, st, s.drop_last());
        let s1 = fold_list(cfg, st, s.drop_last()).0;
        if is_str_attr(s.last()) {
            lemma_str_attr_fixed(cfg, s1, s.last());
        }
        assert forall|i: int| 0 <= i < s.len() && is_str_attr(s[i]) implies #[trigger] fold_list(
            cfg,
            st,
            s,
        ).1[i] == s[i] by {
            if i < s.len() - 1 {
                assert(s.drop_last()[i] == s[i]);
            }
        }
    }
}

/// Attribute names survive a traversal.
proof fn lemma_fold_node_attr_name(cfg: OptionsModel, st: MarkerModel, n: SNode, a: Seq<char>)
    ensures
        is_attr_named(fold_node(cfg, st, n).1, a) == is_attr_named(n, a),
{
}

proof fn lemma_fold_list_has_attr(cfg: OptionsModel, st: MarkerModel, s: Seq<SNode>, a: Seq<char>)
    ensures
        has_attr(fold_list(cfg, st, s).1, a) == has_attr(s, a),
    decreases s.len(),
{
    if s.len() > 0 {
        let (s1, o1) = fold_list(cfg, st, s.drop_last());
        lemma_fold_list_has_attr(cfg, st, s.drop_last(), a);
        lemma_fold_node_attr_name(cfg, s1, s.last(), a);
        lemma_has_attr_push(o1, fold_node(cfg, s1, s.last()).1, a);
        lemma_has_attr_push(s.drop_last(), s.last(), a);
        assert(s.drop_last().push(s.last()) =~= s);
    }
}

/// What a declarator records does not depend on how its initializer was
/// rewritten.
proof fn lemma_init_chain_fold(cfg: OptionsModel, st: MarkerModel, st2: MarkerModel, i: SNode)
    ensures
        init_chain(st, fold_node(cfg, st2, i).1) == init_chain(st, i),
{
    reveal_with_fuel(fold_node, 3);
    match i {
        SNode::Call { callee, args } => {
            let s1 = fold_node(cfg, st2, *callee).0;
            lemma_fold_list_len(cfg, s1, args);
            if args.len() > 0 {
                lemma_fold_list_first(cfg, s1, args);
            }
        },
        SNode::TaggedTpl { tag, parts } => {
            match *tag {
                SNode::Call { callee, args } => {
                    let s1 = fold_node(cfg, st2, *callee).0;
                    lemma_fold_list_len(cfg, s1, args);
                    if args.len() > 0 {
                        lemma_fold_list_first(cfg, s1, args);
                    }
                },
                _ => {},
            }
        },
        _ => {},
    }
}

proof fn lemma_imports_node(cfg: OptionsModel, st: MarkerModel, n: SNode, lib: Seq<char>)
    ensures
        imports_from(fold_node(cfg, st, n).1, lib) == imports_from(n, lib),
    decreases n,
{
    match n {
        SNode::Member { obj, prop } => {
            lemma_imports_node(cfg, st, *obj, lib);
        },
        SNode::Call { callee, args } => {
            lemma_imports_node(cfg, st, *callee, lib);
            lemma_imports_list(cfg, fold_node(cfg, st, *callee).0, args, lib);
        },
        SNode::TaggedTpl { tag, parts } => {
            lemma_imports_node(cfg, st, *tag, lib);
            lemma_imports_list(cfg, fold_node(cfg, st, *tag).0, parts, lib);
        },
        SNode::Attr { name, value } => {
            if let Some(v) = value {
                lemma_imports_node(cfg, st, *v, lib);
            }
        },
        SNode::VarDeclarator { binding, init } => {
            if let Some(i) = init {
                lemma_imports_node(cfg, declarator_effect(st, binding, init), *i, lib);
            }
        },
        SNode::FnDecl { name, body } => {
            lemma_imports_list(cfg, MarkerModel { context: Some(name), ..st }, body, lib);
        },
        SNode::ClassDecl { name, body } => {
            lemma_imports_list(cfg, MarkerModel { context: Some(name), ..st }, body, lib);
        },
        SNode::Element { name, attrs, children } => {
            let (s1, a1) = fold_list(cfg, st, attrs);
            lemma_imports_list(cfg, st, attrs, lib);
            lemma_imports_list(cfg, s1, children, lib);
            if let Some(d) = derived_name(st, name) {
                if !has_attr(a1, cfg.attribute_name) {
                    let m = marker_attr(cfg.attribute_name, marker_value(st.context, d));
                    assert(a1.push(m).drop_last() =~= a1);
                    reveal_with_fuel(imports_from, 2);
                    assert(!imports_from(m, lib));
                    assert(any_imports_from(a1.push(m), lib) == any_imports_from(a1, lib));
                }
            }
            assert(imports_from(fold_node(cfg, st, n).1, lib) == imports_from(n, lib));
        },
        SNode::Other(c) => {
            lemma_imports_list(cfg, st, c, lib);
        },
        _ => {},
    }
}

proof fn lemma_imports_list(cfg: OptionsModel, st: MarkerModel, s: Seq<SNode>, lib: Seq<char>)
    ensures
        any_imports_from(fold_list(cfg, st, s).1, lib) == any_imports_from(s, lib),
    decreases s,
{
    if s.len() > 0 {
        let (s1, o1) = fold_list(cfg, st, s.drop_last());
        lemma_imports_list(cfg, st, s.drop_last(), lib);
        lemma_imports_node(cfg, s1, s.last(), lib);
        let n2 = fold_node(cfg, s1, s.last()).1;
        assert(o1.push(n2).drop_last() =~= o1);
    }
}

proof fn lemma_idem_node(cfg: OptionsModel, st: MarkerModel, n: SNode)
    ensures
        fold_node(cfg, st, fold_node(cfg, st, n).1) == fold_node(cfg, st, n),
    decreases n,
{
    match n {
        SNode::Member { obj, prop } => {
            lemma_idem_node(cfg, st, *obj);
        },
        SNode::Call { callee, args } => {
            lemma_idem_node(cfg, st, *callee);
            lemma_idem_list(cfg, fold_node(cfg, st, *callee).0, args);
        },
        SNode::TaggedTpl { tag, parts } => {
            lemma_idem_node(cfg, st, *tag);
            lemma_idem_list(cfg, fold_node(cfg, st, *tag).0, parts);
        },
        SNode::Attr { name, value } => {
            if let Some(v) = value {
                lemma_idem_node(cfg, st, *v);
            }
        },
        SNode::VarDeclarator { binding, init } => {
            if let Some(i) = init {
                let s0 = declarator_effect(st, binding, init);
                lemma_idem_node(cfg, s0, *i);
                lemma_init_chain_fold(cfg, st, s0, *i);
                let i1 = fold_node(cfg, s0, *i).1;
                assert(declarator_effect(st, binding, Some(Box::new(i1))) == s0);
            }
        },
        SNode::FnDecl { name, body } => {
            lemma_idem_list(cfg, MarkerModel { context: Some(name), ..st }, body);
        },
        SNode::ClassDecl { name, body } => {
            lemma_idem_list(cfg, MarkerModel { context: Some(name), ..st }, body);
        },
        SNode::Element { name, attrs, children } => {
            let (s1, a1) = fold_list(cfg, st, attrs);
            lemma_idem_list(cfg, st, attrs);
            lemma_idem_list(cfg, s1, children);
            let derived = derived_name(st, name);
            if derived is Some && !has_attr(a1, cfg.attribute_name) {
                let m = marker_attr(cfg.attribute_name, marker_value(st.context, derived->0));
                let a2 = a1.push(m);
                assert(a2.drop_last() =~= a1);
                lemma_str_attr_fixed(cfg, s1, m);
                lemma_has_attr_push(a1, m, cfg.attribute_name);
                assert(fold_list(cfg, st, a2) == (s1, a2));
                assert(with_marker(cfg.attribute_name, st.context, derived, a2) == a2);
            } else {
                assert(with_marker(cfg.attribute_name, st.context, derived, a1) == a1);
            }
        },
        SNode::Other(c) => {
            lemma_idem_list(cfg, st, c);
        },
        _ => {},
    }
}

proof fn lemma_idem_list(cfg: OptionsModel, st: MarkerModel, s: Seq<SNode>)
    ensures
        fold_list(cfg, st, fold_list(cfg, st, s).1) == fold_list(cfg, st, s),
    decreases s,
{
    if s.len() > 0 {
        let (s1, o1) = fold_list(cfg, st, s.drop_last());
        lemma_idem_list(cfg, st, s.drop_last());
        lemma_idem_node(cfg, s1, s.last());
        let n2 = fold_node(cfg, s1, s.last()).1;
        assert(o1.push(n2).drop_last() =~= o1);
    }
}

/// Running the transform on its own output changes nothing: no marker is
/// added twice and no other node is rewritten again.
pub proof fn law_idempotent(cfg: OptionsModel, t: SNode)
    ensures
        transform(cfg, transform(cfg, t)) == transform(cfg, t),
{
    if imports_from(t, cfg.library_name) {
        lemma_imports_node(cfg, initial_model(), t, cfg.library_name);
        lemma_idem_node(cfg, initial_model(), t);
    }
}

/// A tree with no import declaration from the configured library comes back
/// exactly as it was.
pub proof fn law_gate(cfg: OptionsModel, t: SNode)
    requires
        !imports_from(t, cfg.library_name),
    ensures
        transform(cfg, t) == t,
{
}

/// An element that already carries the configured attribute gets no second
/// one: its attributes are only traversed, and each string-valued one,
/// the existing marker among them, keeps its value.
pub proof fn law_existing_attribute_kept(
    cfg: OptionsModel,
    st: MarkerModel,
    name: Option<(Seq<char>, u32)>,
    attrs: Seq<SNode>,
    children: Seq<SNode>,
)
    requires
        has_attr(attrs, cfg.attribute_name),
    ensures
        ({
            let out = fold_node(cfg, st, SNode::Element { name, attrs, children }).1;
            &&& out is Element
            &&& element_attrs(out) == fold_list(cfg, st, attrs).1
            &&& element_attrs(out).len() == attrs.len()
            &&& forall|i: int|
                0 <= i < attrs.len() && is_str_attr(attrs[i]) ==> element_attrs(out)[i]
                    == attrs[i]
        }),
{
    lemma_fold_list_keeps_str_attrs(cfg, st, attrs);
    lemma_fold_list_has_attr(cfg, st, attrs, cfg.attribute_name);
}

/// Outside any named function or class declaration, a marker value starts
/// with the fallback context `Component`.
pub proof fn law_default_context(derived: Seq<char>)
    ensures
        marker_value(None, derived) == "Component"@ + "-"@ + derived,
{
}

} // verus!
