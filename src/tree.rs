use vstd::prelude::*;

verus! {

/// The identity of a local binding: its spelling together with the syntax
/// context (scope mark) of the declaration that introduced it. Two bindings
/// with the same spelling in different scopes differ in `ctxt`.
#[derive(Debug, Clone, PartialEq, Eq)]
pub struct BindingId {
    pub name: String,
    pub ctxt: u32,
}

/// The mathematical form of a binding identity.
pub type SId = (Seq<char>, u32);

impl View for BindingId {
    type V = SId;

    open spec fn view(&self) -> SId {
        (self.name@, self.ctxt)
    }
}

impl BindingId {
    pub fn copy(&self) -> (r: BindingId)
        ensures
            r@ == self@,
    {
        BindingId { name: self.name.clone(), ctxt: self.ctxt }
    }

    pub fn same(&self, other: &BindingId) -> (r: bool)
        ensures
            r == (self@ == other@),
    {
        self.ctxt == other.ctxt && self.name == other.name
    }
}

pub fn copy_binding_opt(o: &Option<BindingId>) -> (r: Option<BindingId>)
    ensures
        opt_id_view(r) == opt_id_view(*o),
{
    match o {
        Some(b) => Some(b.copy()),
        None => None,
    }
}

/// One specifier of an import declaration.
#[derive(Debug, Clone, PartialEq, Eq)]
pub enum ImportSpecifier {
    /// `import { imported as local }`; `imported` is `None` when not renamed.
    Named { local: BindingId, imported: Option<String> },
    /// `import local from "..."`
    Default { local: BindingId },
    /// `import * as local from "..."`
    Namespace { local: BindingId },
}

/// The mathematical form of an import specifier.
pub enum SSpec {
    Named { local: SId, imported: Option<Seq<char>> },
    Default { local: SId },
    Namespace { local: SId },
}

pub open spec fn opt_str_view(o: Option<String>) -> Option<Seq<char>> {
    match o {
        Some(s) => Some(s@),
        None => None,
    }
}

pub open spec fn opt_id_view(o: Option<BindingId>) -> Option<SId> {
    match o {
        Some(b) => Some(b@),
        None => None,
    }
}

impl View for ImportSpecifier {
    type V = SSpec;

    open spec fn view(&self) -> SSpec {
        match self {
            ImportSpecifier::Named { local, imported } => SSpec::Named {
                local: local@,
                imported: opt_str_view(*imported),
            },
            ImportSpecifier::Default { local } => SSpec::Default { local: local@ },
            ImportSpecifier::Namespace { local } => SSpec::Namespace { local: local@ },
        }
    }
}

pub open spec fn specs_view(s: Seq<ImportSpecifier>) -> Seq<SSpec> {
    Seq::new(s.len(), |i: int| s[i]@)
}

impl ImportSpecifier {
    pub fn copy(&self) -> (r: ImportSpecifier)
        ensures
            r@ == self@,
    {
        match self {
            ImportSpecifier::Named { local, imported } => ImportSpecifier::Named {
                local: local.copy(),
                imported: match imported {
                    Some(s) => Some(s.clone()),
                    None => None,
                },
            },
            ImportSpecifier::Default { local } => ImportSpecifier::Default { local: local.copy() },
            ImportSpecifier::Namespace { local } => ImportSpecifier::Namespace {
                local: local.copy(),
            },
        }
    }
}

pub fn copy_specifiers(v: &Vec<ImportSpecifier>) -> (r: Vec<ImportSpecifier>)
    ensures
        specs_view(r@) == specs_view(v@),
{
    let mut r: Vec<ImportSpecifier> = Vec::new();
    let mut i: usize = 0;
    while i < v.len()
        invariant
            i <= v@.len(),
            r@.len() == i,
            forall|j: int| 0 <= j < i ==> r@[j]@ == v@[j]@,
        decreases v@.len() - i,
    {
        r.push(v[i].copy());
        i = i + 1;
    }
    assert(specs_view(r@) =~= specs_view(v@));
    r
}

/// The part of a module's syntax tree that the marker transform reads or
/// rewrites. Every node kind that the transform does not inspect is an
/// `Other` node holding its children in document order.
#[derive(Debug, PartialEq, Eq)]
pub enum Node {
    /// An identifier expression.
    Ident(BindingId),
    /// `obj.prop`; `prop` is `None` for a computed or private property.
    Member { obj: Box<Node>, prop: Option<String> },
    /// `callee(args...)`; a `super` or `import` callee is an empty `Other`.
    Call { callee: Box<Node>, args: Vec<Node> },
    /// ``tag`...` ``, with the template's embedded expressions in `parts`.
    TaggedTpl { tag: Box<Node>, parts: Vec<Node> },
    /// A string literal.
    Str(String),
    /// An element attribute; `name` is `None` for a namespaced name or a spread.
    Attr { name: Option<String>, value: Option<Box<Node>> },
    /// `import ... from "src"`
    Import { src: String, specifiers: Vec<ImportSpecifier> },
    /// A variable declarator; `binding` is `Some` when its pattern is a
    /// plain identifier.
    VarDeclarator { binding: Option<BindingId>, init: Option<Box<Node>> },
    /// A named function declaration.
    FnDecl { name: String, body: Vec<Node> },
    /// A named class declaration.
    ClassDecl { name: String, body: Vec<Node> },
    /// An element; `name` is `Some` when the opening tag's name is a bare
    /// identifier.
    Element { name: Option<BindingId>, attrs: Vec<Node>, children: Vec<Node> },
    /// Any other node.
    Other(Vec<Node>),
}

/// The mathematical form of a tree.
pub enum SNode {
    Ident(SId),
    Member { obj: Box<SNode>, prop: Option<Seq<char>> },
    Call { callee: Box<SNode>, args: Seq<SNode> },
    TaggedTpl { tag: Box<SNode>, parts: Seq<SNode> },
    Str(Seq<char>),
    Attr { name: Option<Seq<char>>, value: Option<Box<SNode>> },
    Import { src: Seq<char>, specifiers: Seq<SSpec> },
    VarDeclarator { binding: Option<SId>, init: Option<Box<SNode>> },
    FnDecl { name: Seq<char>, body: Seq<SNode> },
    ClassDecl { name: Seq<char>, body: Seq<SNode> },
    Element { name: Option<SId>, attrs: Seq<SNode>, children: Seq<SNode> },
    Other(Seq<SNode>),
}

pub open spec fn node_view(n: Node) -> SNode
    decreases n,
{
    match n {
        Node::Ident(b) => SNode::Ident(b@),
        Node::Member { obj, prop } => SNode::Member {
            obj: Box::new(node_view(*obj)),
            prop: opt_str_view(prop),
        },
        Node::Call { callee, args } => SNode::Call {
            callee: Box::new(node_view(*callee)),
            args: nodes_view(args@),
        },
        Node::TaggedTpl { tag, parts } => SNode::TaggedTpl {
            tag: Box::new(node_view(*tag)),
            parts: nodes_view(parts@),
        },
        Node::Str(s) => SNode::Str(s@),
        Node::Attr { name, value } => SNode::Attr {
            name: opt_str_view(name),
            value: match value {
                Some(v) => Some(Box::new(node_view(*v))),
                None => None,
            },
        },
        Node::Import { src, specifiers } => SNode::Import {
            src: src@,
            specifiers: specs_view(specifiers@),
        },
        Node::VarDeclarator { binding, init } => SNode::VarDeclarator {
            binding: opt_id_view(binding),
            init: match init {
                Some(v) => Some(Box::new(node_view(*v))),
                None => None,
            },
        },
        Node::FnDecl { name, body } => SNode::FnDecl { name: name@, body: nodes_view(body@) },
        Node::ClassDecl { name, body } => SNode::ClassDecl {
            name: name@,
            body: nodes_view(body@),
        },
        Node::Element { name, attrs, children } => SNode::Element {
            name: opt_id_view(name),
            attrs: nodes_view(attrs@),
            children: nodes_view(children@),
        },
        Node::Other(c) => SNode::Other(nodes_view(c@)),
    }
}

pub open spec fn nodes_view(s: Seq<Node>) -> Seq<SNode>
    decreases s,
{
    if s.len() == 0 {
        Seq::empty()
    } else {
        nodes_view(s.drop_last()).push(node_view(s.last()))
    }
}

pub open spec fn opt_box_view(o: Option<Box<Node>>) -> Option<Box<SNode>> {
    match o {
        Some(v) => Some(Box::new(node_view(*v))),
        None => None,
    }
}

impl View for Node {
    type V = SNode;

    open spec fn view(&self) -> SNode {
        node_view(*self)
    }
}

pub proof fn lemma_nodes_view(s: Seq<Node>)
    ensures
        nodes_view(s).len() == s.len(),
        forall|j: int| 0 <= j < s.len() ==> #[trigger] nodes_view(s)[j] == node_view(s[j]),
    decreases s.len(),
{
    if s.len() > 0 {
        lemma_nodes_view(s.drop_last());
    }
}

pub proof fn lemma_nodes_view_push(s: Seq<Node>, x: Node)
    ensures
        nodes_view(s.push(x)) == nodes_view(s).push(node_view(x)),
{
    assert(s.push(x).drop_last() =~= s);
}

pub proof fn lemma_nodes_view_take(s: Seq<Node>, i: int)
    requires
        0 <= i < s.len(),
    ensures
        nodes_view(s).take(i + 1).drop_last() == nodes_view(s).take(i),
        nodes_view(s).take(i + 1).last() == node_view(s[i]),
{
    lemma_nodes_view(s);
    assert(nodes_view(s).take(i + 1).drop_last() =~= nodes_view(s).take(i));
}

} // verus!
