use vstd::prelude::*;
use crate::model::{
    MarkerModel, initial_model, marker_value, import_effect, import_steps,
    styled_callee, styled_call_chain, wrapped_chain, declarator_effect, derived_name,
    has_attr, is_attr_named, with_marker, fold_node, fold_list, imports_from,
    any_imports_from, transform, lemma_fold_list_context,
};
use crate::options::JSXMarkerOptions;
use crate::tree::{
    BindingId, ImportSpecifier, Node, SId, SNode, copy_binding_opt, copy_specifiers, node_view,
    nodes_view, opt_id_view, opt_str_view, opt_box_view, specs_view, lemma_nodes_view,
    lemma_nodes_view_push, lemma_nodes_view_take,
};

verus! {

/// A binding declared as a styled wrapper, with its recorded chain.
pub struct ChainEntry {
    pub id: BindingId,
    pub chain: Vec<String>,
}

pub open spec fn strings_view(s: Seq<String>) -> Seq<Seq<char>> {
    Seq::new(s.len(), |i: int| s[i]@)
}

pub open spec fn opt_strings_view(o: Option<Vec<String>>) -> Option<Seq<Seq<char>>> {
    match o {
        Some(v) => Some(strings_view(v@)),
        None => None,
    }
}

pub open spec fn id_set(s: Seq<BindingId>) -> Set<SId> {
    Set::new(|k: SId| exists|i: int| 0 <= i < s.len() && s[i]@ == k)
}

/// The recorded chains; a later entry for the same binding wins.
pub open spec fn chain_map(s: Seq<ChainEntry>) -> Map<SId, Seq<Seq<char>>>
    decreases s.len(),
{
    if s.len() == 0 {
        Map::empty()
    } else {
        chain_map(s.drop_last()).insert(s.last().id@, strings_view(s.last().chain@))
    }
}

/// The state of one traversal: bindings of the configured library, recorded
/// styled chains and the naming context.
pub struct JSXMarkerTransformer {
    pub imported_components: Vec<BindingId>,
    pub styled_function: Option<BindingId>,
    pub styled_components: Vec<ChainEntry>,
    pub current_component: Option<String>,
}

impl View for JSXMarkerTransformer {
    type V = MarkerModel;

    open spec fn view(&self) -> MarkerModel {
        MarkerModel {
            imported: id_set(self.imported_components@),
            styled_fn: opt_id_view(self.styled_function),
            chains: chain_map(self.styled_components@),
            context: opt_str_view(self.current_component),
        }
    }
}

proof fn lemma_chain_map_suffix(s: Seq<ChainEntry>, i: int, k: SId)
    requires
        0 <= i <= s.len(),
        forall|j: int| i <= j < s.len() ==> s[j].id@ != k,
    ensures
        chain_map(s).contains_key(k) == chain_map(s.subrange(0, i)).contains_key(k),
        chain_map(s).contains_key(k) ==> chain_map(s)[k] == chain_map(s.subrange(0, i))[k],
    decreases s.len(),
{
    if s.len() == i {
        assert(s.subrange(0, i) =~= s);
    } else {
        assert(s.drop_last().subrange(0, i) =~= s.subrange(0, i));
        lemma_chain_map_suffix(s.drop_last(), i, k);
    }
}

pub fn copy_string_opt(o: &Option<String>) -> (r: Option<String>)
    ensures
        opt_str_view(r) == opt_str_view(*o),
{
    match o {
        Some(s) => Some(s.clone()),
        None => None,
    }
}

pub fn copy_strings(v: &Vec<String>) -> (r: Vec<String>)
    ensures
        strings_view(r@) == strings_view(v@),
{
    let mut r: Vec<String> = Vec::new();
    let mut i: usize = 0;
    while i < v.len()
        invariant
            i <= v.len(),
            r@.len() == i,
            forall|j: int| 0 <= j < i ==> r@[j]@ == v@[j]@,
        decreases v.len() - i,
    {
        r.push(v[i].clone());
        i = i + 1;
    }
    assert(strings_view(r@) =~= strings_view(v@));
    r
}

/// `name` followed by the entries of `chain`.
pub fn prepend_name(name: &String, chain: &Vec<String>) -> (r: Vec<String>)
    ensures
        strings_view(r@) == seq![name@] + strings_view(chain@),
{
    let mut r: Vec<String> = vec![name.clone()];
    let mut i: usize = 0;
    while i < chain.len()
        invariant
            i <= chain@.len(),
            r@.len() == i + 1,
            r@[0]@ == name@,
            forall|j: int| 0 <= j < i ==> r@[j + 1]@ == chain@[j]@,
        decreases chain@.len() - i,
    {
        r.push(chain[i].clone());
        i = i + 1;
    }
    assert(strings_view(r@) =~= seq![name@] + strings_view(chain@));
    r
}

impl JSXMarkerTransformer {
    pub fn new() -> (r: JSXMarkerTransformer)
        ensures
            r@ == initial_model(),
    {
        let r = JSXMarkerTransformer {
            imported_components: Vec::new(),
            styled_function: None,
            styled_components: Vec::new(),
            current_component: None,
        };
        assert(id_set(r.imported_components@) =~= Set::empty());
        r
    }

    /// The marker value for a derived name under the current naming context.
    pub fn create_data_name(&self, component_name: &str) -> (r: String)
        ensures
            r@ == marker_value(self@.context, component_name@),
    {
        let prefix = match &self.current_component {
            Some(c) => c.clone(),
            None => String::from_str("Component"),
        };
        prefix.concat("-").concat(component_name)
    }

    /// Whether `id` is a named import of the configured library.
    pub fn is_imported(&self, id: &BindingId) -> (r: bool)
        ensures
            r == self@.imported.contains(id@),
    {
        let mut i: usize = 0;
        while i < self.imported_components.len()
            invariant
                i <= self.imported_components@.len(),
                forall|j: int| 0 <= j < i ==> self.imported_components@[j]@ != id@,
            decreases self.imported_components@.len() - i,
        {
            if self.imported_components[i].same(id) {
                return true;
            }
            i = i + 1;
        }
        false
    }

    /// The chain recorded for `id`, if any.
    pub fn lookup_chain(&self, id: &BindingId) -> (r: Option<Vec<String>>)
        ensures
            r is Some == self@.chains.contains_key(id@),
            r is Some ==> strings_view(r->0@) == self@.chains[id@],
    {
        let ghost s = self.styled_components@;
        let mut i: usize = self.styled_components.len();
        while i > 0
            invariant
                i <= s.len(),
                s == self.styled_components@,
                forall|j: int| i <= j < s.len() ==> s[j].id@ != id@,
            decreases i,
        {
            i = i - 1;
            if self.styled_components[i].id.same(id) {
                proof {
                    lemma_chain_map_suffix(s, i + 1, id@);
                    assert(s.subrange(0, i + 1).drop_last() =~= s.subrange(0, i as int));
                }
                return Some(copy_strings(&self.styled_components[i].chain));
            }
        }
        proof {
            lemma_chain_map_suffix(s, 0, id@);
            assert(s.subrange(0, 0) =~= Seq::<ChainEntry>::empty());
        }
        None
    }

    /// Records the named imports of a declaration from the configured library.
    pub fn handle_import(
        &mut self,
        opts: &JSXMarkerOptions,
        src: &String,
        specifiers: &Vec<ImportSpecifier>,
    )
        ensures
            final(self)@ == import_effect(opts@, old(self)@, src@, specs_view(specifiers@)),
    {
        if *src != opts.library_name {
            return;
        }
        let ghost st0 = self@;
        let ghost sv = specs_view(specifiers@);
        let mut i: usize = 0;
        while i < specifiers.len()
            invariant
                i <= specifiers@.len(),
                sv == specs_view(specifiers@),
                self@ == import_steps(opts@, st0, sv.take(i as int)),
            decreases specifiers@.len() - i,
        {
            proof {
                assert(sv.take(i + 1).drop_last() =~= sv.take(i as int));
            }
            match &specifiers[i] {
                ImportSpecifier::Named { local, imported } => {
                    let name: &String = match imported {
                        Some(n) => n,
                        None => &local.name,
                    };
                    if *name == opts.styled_function_name {
                        self.styled_function = Some(local.copy());
                    } else {
                        let ghost old_ids = self.imported_components@;
                        self.imported_components.push(local.copy());
                        proof {
                            let ids = self.imported_components@;
                            assert forall|k: SId| id_set(ids).contains(k) == id_set(old_ids).insert(
                                local@,
                            ).contains(k) by {
                                if id_set(old_ids).contains(k) {
                                    let j = choose|j: int| 0 <= j < old_ids.len() && old_ids[j]@ == k;
                                    assert(ids[j]@ == k);
                                }
                                if k == local@ {
                                    assert(ids[old_ids.len() as int]@ == k);
                                }
                                if id_set(ids).contains(k) && k != local@ {
                                    let j = choose|j: int| 0 <= j < ids.len() && ids[j]@ == k;
                                    assert(old_ids[j]@ == k);
                                }
                            }
                            assert(id_set(ids) =~= id_set(old_ids).insert(local@));
                        }
                    }
                },
                _ => {},
            }
            i = i + 1;
        }
        proof {
            assert(sv.take(specifiers@.len() as int) =~= sv);
        }
    }

    /// Whether a call with this callee is a styled call.
    pub fn is_styled_call(&self, callee: &Node) -> (r: bool)
        ensures
            r == styled_callee(self@, callee@),
    {
        proof {
            reveal_with_fuel(node_view, 2);
        }
        let target: &BindingId = match callee {
            Node::Ident(i) => i,
            Node::Member { obj, prop } => match &**obj {
                Node::Ident(i) => i,
                _ => {
                    return false;
                },
            },
            _ => {
                return false;
            },
        };
        match &self.styled_function {
            Some(f) => f.same(target),
            None => false,
        }
    }

    /// The chain of what a call wraps: the recorded chain or the imported
    /// name of an identifier argument, or the property of a member callee.
    pub fn extract_styled_component_chain(&self, callee: &Node, args: &Vec<Node>) -> (r: Option<
        Vec<String>,
    >)
        ensures
            opt_strings_view(r) == wrapped_chain(self@, callee@, nodes_view(args@)),
    {
        proof {
            lemma_nodes_view(args@);
        }
        match callee {
            Node::Ident(_) => {
                if args.len() == 0 {
                    return None;
                }
                match &args[0] {
                    Node::Ident(component) => {
                        let found = self.lookup_chain(component);
                        if found.is_some() {
                            return found;
                        }
                        if self.is_imported(component) {
                            let v = vec![component.name.clone()];
                            assert(strings_view(v@) =~= seq![component.name@]);
                            return Some(v);
                        }
                        None
                    },
                    _ => None,
                }
            },
            Node::Member { obj, prop } => match prop {
                Some(p) => {
                    let v = vec![p.clone()];
                    assert(strings_view(v@) =~= seq![p@]);
                    Some(v)
                },
                None => None,
            },
            _ => None,
        }
    }

    /// The chain of a styled call, `None` for any other call.
    fn chain_of_styled_call(&self, callee: &Node, args: &Vec<Node>) -> (r: Option<Vec<String>>)
        ensures
            opt_strings_view(r) == styled_call_chain(self@, callee@, nodes_view(args@)),
    {
        if self.is_styled_call(callee) {
            self.extract_styled_component_chain(callee, args)
        } else {
            None
        }
    }

    /// Records the chain of a declarator whose initializer is a styled
    /// declaration.
    pub fn handle_styled_component(&mut self, binding: &Option<BindingId>, init: &Option<Box<Node>>)
        ensures
            final(self)@ == declarator_effect(old(self)@, opt_id_view(*binding), opt_box_view(*init)),
    {
        proof {
            reveal_with_fuel(node_view, 3);
        }
        let b = match binding {
            Some(b) => b,
            None => {
                return;
            },
        };
        let i = match init {
            Some(i) => i,
            None => {
                return;
            },
        };
        let chain: Option<Vec<String>> = match &**i {
            Node::Call { callee, args } => self.chain_of_styled_call(callee, args),
            Node::TaggedTpl { tag, parts } => match &**tag {
                Node::Call { callee, args } => self.chain_of_styled_call(callee, args),
                Node::Member { obj, prop } => match (&**obj, &self.styled_function, prop) {
                    (Node::Ident(o), Some(f), Some(p)) => {
                        if f.same(o) {
                            let v = vec![p.clone()];
                            assert(strings_view(v@) =~= seq![p@]);
                            Some(v)
                        } else {
                            None
                        }
                    },
                    _ => None,
                },
                _ => None,
            },
            _ => None,
        };
        match chain {
            Some(c) => {
                let full = prepend_name(&b.name, &c);
                let ghost old_entries = self.styled_components@;
                self.styled_components.push(ChainEntry { id: b.copy(), chain: full });
                assert(self.styled_components@.drop_last() =~= old_entries);
            },
            None => {},
        }
    }

    /// The name that an element with tag `id` derives: the first two entries
    /// of its chain, else its own name when it is an imported component.
    pub fn derived_name(&self, id: &BindingId) -> (r: Option<String>)
        ensures
            opt_str_view(r) == derived_name(self@, Some(id@)),
    {
        match self.lookup_chain(id) {
            Some(c) => {
                if c.len() == 0 {
                    Some(String::new())
                } else if c.len() == 1 {
                    Some(c[0].clone())
                } else {
                    Some(c[0].clone().concat("-").concat(c[1].as_str()))
                }
            },
            None => {
                if self.is_imported(id) {
                    Some(id.name.clone())
                } else {
                    None
                }
            },
        }
    }

    /// Appends the marker attribute for `component_name` to `attrs`, unless
    /// one of them already has the configured name.
    pub fn add_data_name_attr(
        &self,
        opts: &JSXMarkerOptions,
        attrs: &mut Vec<Node>,
        component_name: &str,
    )
        ensures
            nodes_view(final(attrs)@) == with_marker(
                opts.attribute_name@,
                self@.context,
                Some(component_name@),
                nodes_view(old(attrs)@),
            ),
    {
        proof {
            lemma_nodes_view(attrs@);
        }
        let ghost sv = nodes_view(attrs@);
        let mut i: usize = 0;
        while i < attrs.len()
            invariant
                i <= attrs@.len(),
                sv == nodes_view(attrs@),
                sv.len() == attrs@.len(),
                forall|j: int| 0 <= j < attrs@.len() ==> #[trigger] sv[j] == node_view(attrs@[j]),
                forall|j: int| 0 <= j < i ==> !is_attr_named(#[trigger] sv[j], opts.attribute_name@),
            decreases attrs@.len() - i,
        {
            match &attrs[i] {
                Node::Attr { name: Some(n), value } => {
                    if *n == opts.attribute_name {
                        assert(is_attr_named(sv[i as int], opts.attribute_name@));
                        return;
                    }
                },
                _ => {},
            }
            i = i + 1;
        }
        let value = self.create_data_name(component_name);
        let marker = Node::Attr {
            name: Some(opts.attribute_name.clone()),
            value: Some(Box::new(Node::Str(value))),
        };
        proof {
            reveal_with_fuel(node_view, 2);
            lemma_nodes_view_push(attrs@, marker);
        }
        attrs.push(marker);
    }

    /// Traverses one node in document order, recording bindings and chains,
    /// scoping the naming context and marking tracked elements.
    pub fn fold_node(&mut self, opts: &JSXMarkerOptions, n: &Node) -> (r: Node)
        ensures
            (final(self)@, r@) == fold_node(opts@, old(self)@, n@),
        decreases n,
    {
        match n {
            Node::Ident(b) => Node::Ident(b.copy()),
            Node::Str(s) => Node::Str(s.clone()),
            Node::Member { obj, prop } => {
                let o = self.fold_node(opts, obj);
                Node::Member { obj: Box::new(o), prop: copy_string_opt(prop) }
            },
            Node::Call { callee, args } => {
                let c = self.fold_node(opts, callee);
                let a = self.fold_list(opts, args);
                Node::Call { callee: Box::new(c), args: a }
            },
            Node::TaggedTpl { tag, parts } => {
                let t = self.fold_node(opts, tag);
                let p = self.fold_list(opts, parts);
                Node::TaggedTpl { tag: Box::new(t), parts: p }
            },
            Node::Attr { name, value } => match value {
                Some(v) => {
                    let v1 = self.fold_node(opts, v);
                    Node::Attr { name: copy_string_opt(name), value: Some(Box::new(v1)) }
                },
                None => Node::Attr { name: copy_string_opt(name), value: None },
            },
            Node::Import { src, specifiers } => {
                self.handle_import(opts, src, specifiers);
                Node::Import { src: src.clone(), specifiers: copy_specifiers(specifiers) }
            },
            Node::VarDeclarator { binding, init } => {
                self.handle_styled_component(binding, init);
                match init {
                    Some(i) => {
                        let i1 = self.fold_node(opts, i);
                        Node::VarDeclarator {
                            binding: copy_binding_opt(binding),
                            init: Some(Box::new(i1)),
                        }
                    },
                    None => Node::VarDeclarator { binding: copy_binding_opt(binding), init: None },
                }
            },
            Node::FnDecl { name, body } => {
                let saved = copy_string_opt(&self.current_component);
                self.current_component = Some(name.clone());
                let b = self.fold_list(opts, body);
                self.current_component = saved;
                Node::FnDecl { name: name.clone(), body: b }
            },
            Node::ClassDecl { name, body } => {
                let saved = copy_string_opt(&self.current_component);
                self.current_component = Some(name.clone());
                let b = self.fold_list(opts, body);
                self.current_component = saved;
                Node::ClassDecl { name: name.clone(), body: b }
            },
            Node::Element { name, attrs, children } => {
                let derived: Option<String> = match name {
                    Some(id) => self.derived_name(id),
                    None => None,
                };
                let ghost st = self@;
                let mut a = self.fold_list(opts, attrs);
                let ghost s1 = self@;
                let c = self.fold_list(opts, children);
                proof {
                    lemma_fold_list_context(opts@, st, nodes_view(attrs@));
                    lemma_fold_list_context(opts@, s1, nodes_view(children@));
                }
                match derived {
                    Some(d) => self.add_data_name_attr(opts, &mut a, d.as_str()),
                    None => {},
                }
                Node::Element { name: copy_binding_opt(name), attrs: a, children: c }
            },
            Node::Other(c) => {
                let c1 = self.fold_list(opts, c);
                Node::Other(c1)
            },
        }
    }

    /// Traverses sibling nodes in document order.
    pub fn fold_list(&mut self, opts: &JSXMarkerOptions, v: &Vec<Node>) -> (r: Vec<Node>)
        ensures
            (final(self)@, nodes_view(r@)) == fold_list(opts@, old(self)@, nodes_view(v@)),
        decreases v,
    {
        let ghost st0 = self@;
        let ghost sv = nodes_view(v@);
        let mut out: Vec<Node> = Vec::new();
        let mut i: usize = 0;
        while i < v.len()
            invariant
                i <= v@.len(),
                sv == nodes_view(v@),
                (self@, nodes_view(out@)) == fold_list(opts@, st0, sv.take(i as int)),
            decreases v@.len() - i,
        {
            proof {
                lemma_nodes_view(v@);
                lemma_nodes_view_take(v@, i as int);
                assert(decreases_to!(v => v@[i as int]));
            }
            let ghost before = self@;
            let ghost out_before = nodes_view(out@);
            let r = self.fold_node(opts, &v[i]);
            proof {
                lemma_nodes_view_push(out@, r);
            }
            out.push(r);
            proof {
                let t = sv.take(i + 1);
                assert(t.len() > 0);
                assert(t.drop_last() == sv.take(i as int));
                assert(fold_list(opts@, st0, t.drop_last()) == (before, out_before));
                assert(fold_list(opts@, st0, t) == (self@, out_before.push(r@)));
            }
            i = i + 1;
        }
        proof {
            lemma_nodes_view(v@);
            assert(sv.take(v@.len() as int) =~= sv);
        }
        out
    }
}

/// Whether the tree holds an import declaration from `lib`.
pub fn should_work(n: &Node, lib: &String) -> (r: bool)
    ensures
        r == imports_from(n@, lib@),
    decreases n,
{
    match n {
        Node::Member { obj, prop } => should_work(obj, lib),
        Node::Call { callee, args } => should_work(callee, lib) || any_should_work(args, lib),
        Node::TaggedTpl { tag, parts } => should_work(tag, lib) || any_should_work(parts, lib),
        Node::Attr { name, value } => match value {
            Some(v) => should_work(v, lib),
            None => false,
        },
        Node::Import { src, specifiers } => *src == *lib,
        Node::VarDeclarator { binding, init } => match init {
            Some(i) => should_work(i, lib),
            None => false,
        },
        Node::FnDecl { name, body } => any_should_work(body, lib),
        Node::ClassDecl { name, body } => any_should_work(body, lib),
        Node::Element { name, attrs, children } => any_should_work(attrs, lib) || any_should_work(
            children,
            lib,
        ),
        Node::Other(c) => any_should_work(c, lib),
        _ => false,
    }
}

/// Whether any of the trees holds an import declaration from `lib`.
pub fn any_should_work(v: &Vec<Node>, lib: &String) -> (r: bool)
    ensures
        r == any_imports_from(nodes_view(v@), lib@),
    decreases v,
{
    let ghost sv = nodes_view(v@);
    let mut i: usize = 0;
    while i < v.len()
        invariant
            i <= v@.len(),
            sv == nodes_view(v@),
            !any_imports_from(sv.take(i as int), lib@),
        decreases v@.len() - i,
    {
        proof {
            lemma_nodes_view(v@);
            lemma_nodes_view_take(v@, i as int);
            assert(decreases_to!(v => v@[i as int]));
        }
        if should_work(&v[i], lib) {
            proof {
                lemma_any_imports_from_prefix(sv, i + 1, lib@);
            }
            return true;
        }
        i = i + 1;
    }
    proof {
        lemma_nodes_view(v@);
        assert(sv.take(v@.len() as int) =~= sv);
    }
    false
}

proof fn lemma_any_imports_from_prefix(s: Seq<SNode>, i: int, lib: Seq<char>)
    requires
        0 <= i <= s.len(),
        any_imports_from(s.take(i), lib),
    ensures
        any_imports_from(s, lib),
    decreases s.len(),
{
    if i < s.len() {
        assert(s.drop_last().take(i) =~= s.take(i));
        lemma_any_imports_from_prefix(s.drop_last(), i, lib);
    } else {
        assert(s.take(i) =~= s);
    }
}

/// The marker transform of a whole program: unchanged when it imports nothing
/// from the configured library, else traversed once from a fresh state.
pub fn jsx_marker(options: &JSXMarkerOptions, program: Node) -> (r: Node)
    ensures
        r@ == transform(options@, program@),
{
    if !should_work(&program, &options.library_name) {
        return program;
    }
    let mut pass = JSXMarkerTransformer::new();
    pass.fold_node(options, &program)
}

} // verus!
