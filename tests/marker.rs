use jsx_marker::marker::{jsx_marker, should_work, JSXMarkerTransformer};
use jsx_marker::options::{JSXMarkerOptions, JSXMarkerPluginOptions};
use jsx_marker::tree::{BindingId, ImportSpecifier, Node};

fn id(name: &str, ctxt: u32) -> BindingId {
    BindingId { name: name.to_string(), ctxt }
}

fn ident(name: &str) -> Node {
    Node::Ident(id(name, 1))
}

fn named(local: &str) -> ImportSpecifier {
    ImportSpecifier::Named { local: id(local, 1), imported: None }
}

fn renamed(imported: &str, local: &str) -> ImportSpecifier {
    ImportSpecifier::Named { local: id(local, 1), imported: Some(imported.to_string()) }
}

fn import(src: &str, specifiers: Vec<ImportSpecifier>) -> Node {
    Node::Import { src: src.to_string(), specifiers }
}

fn decl(name: &str, init: Node) -> Node {
    Node::VarDeclarator { binding: Some(id(name, 1)), init: Some(Box::new(init)) }
}

fn call(callee: Node, args: Vec<Node>) -> Node {
    Node::Call { callee: Box::new(callee), args }
}

fn member(obj: Node, prop: &str) -> Node {
    Node::Member { obj: Box::new(obj), prop: Some(prop.to_string()) }
}

fn tagged(tag: Node) -> Node {
    Node::TaggedTpl { tag: Box::new(tag), parts: vec![] }
}

fn elem(name: &str, attrs: Vec<Node>, children: Vec<Node>) -> Node {
    Node::Element { name: Some(id(name, 1)), attrs, children }
}

fn attr(name: &str, value: &str) -> Node {
    Node::Attr {
        name: Some(name.to_string()),
        value: Some(Box::new(Node::Str(value.to_string()))),
    }
}

fn func(name: &str, body: Vec<Node>) -> Node {
    Node::FnDecl { name: name.to_string(), body }
}

fn program(items: Vec<Node>) -> Node {
    Node::Other(items)
}

fn options(library: &str, styled: &str) -> JSXMarkerOptions {
    JSXMarkerOptions {
        library_name: library.to_string(),
        attribute_name: "data-uic".to_string(),
        styled_function_name: styled.to_string(),
    }
}

fn card_page(library: &str, marked: Option<&str>) -> Node {
    let attrs = match marked {
        Some(v) => vec![attr("data-uic", v)],
        None => vec![],
    };
    program(vec![
        import(library, vec![named("Box"), named("styled")]),
        decl("Card", call(ident("styled"), vec![ident("Box")])),
        func("Page", vec![elem("Card", attrs, vec![])]),
    ])
}

#[test]
fn end_to_end_styled_component_in_function() {
    let opts = options("uilib", "styled");
    let input = card_page("uilib", None);
    assert!(should_work(&input, &opts.library_name));
    let out = jsx_marker(&opts, input);
    assert_eq!(out, card_page("uilib", Some("Page-Card-Box")));
}

#[test]
fn non_matching_library_leaves_tree_unchanged() {
    let opts = options("uilib", "styled");
    let input = card_page("other-lib", None);
    assert!(!should_work(&input, &opts.library_name));
    let out = jsx_marker(&opts, input);
    assert_eq!(out, card_page("other-lib", None));
}

fn chain_program(marked: Option<&str>) -> Node {
    let attrs = match marked {
        Some(v) => vec![attr("data-uic", v)],
        None => vec![],
    };
    program(vec![
        import("uilib", vec![named("Imported"), named("styled")]),
        decl("A", call(ident("styled"), vec![ident("Imported")])),
        decl("B", call(ident("styled"), vec![ident("A")])),
        decl("C", call(ident("styled"), vec![ident("B")])),
        elem("C", attrs, vec![]),
    ])
}

#[test]
fn chain_is_truncated_to_two_entries() {
    let opts = options("uilib", "styled");
    let out = jsx_marker(&opts, chain_program(None));
    assert_eq!(out, chain_program(Some("Component-C-B")));
}

#[test]
fn top_level_element_uses_default_context() {
    let opts = options("uilib", "styled");
    let build = |marked: Option<&str>| {
        let attrs = match marked {
            Some(v) => vec![attr("data-uic", v)],
            None => vec![],
        };
        program(vec![import("uilib", vec![named("Button")]), elem("Button", attrs, vec![])])
    };
    let out = jsx_marker(&opts, build(None));
    assert_eq!(out, build(Some("Component-Button")));
}

#[test]
fn existing_attribute_is_kept() {
    let opts = options("uilib", "styled");
    let build = || {
        program(vec![
            import("uilib", vec![named("Button")]),
            elem("Button", vec![attr("id", "x"), attr("data-uic", "keep")], vec![]),
        ])
    };
    let out = jsx_marker(&opts, build());
    assert_eq!(out, build());
}

#[test]
fn second_run_adds_nothing() {
    let opts = options("uilib", "styled");
    let once = jsx_marker(&opts, card_page("uilib", None));
    let twice = jsx_marker(&opts, jsx_marker(&opts, card_page("uilib", None)));
    assert_eq!(once, twice);
    assert_eq!(twice, card_page("uilib", Some("Page-Card-Box")));
}

#[test]
fn member_tagged_template_in_class() {
    let opts = options("uilib", "styled");
    let build = |marked: bool| {
        let attrs = if marked { vec![attr("data-uic", "Header-Title-h1")] } else { vec![] };
        program(vec![
            import("uilib", vec![named("styled")]),
            decl("Title", tagged(member(ident("styled"), "h1"))),
            Node::ClassDecl {
                name: "Header".to_string(),
                body: vec![elem("Title", attrs, vec![])],
            },
        ])
    };
    let out = jsx_marker(&opts, build(false));
    assert_eq!(out, build(true));
}

#[test]
fn member_call_and_tagged_call() {
    let opts = options("uilib", "styled");
    let build = |marked: bool| {
        let (a, b) = if marked {
            (vec![attr("data-uic", "Component-Row-div")], vec![attr("data-uic", "Component-Cell-Box")])
        } else {
            (vec![], vec![])
        };
        program(vec![
            import("uilib", vec![named("styled"), named("Box")]),
            decl("Row", call(member(ident("styled"), "div"), vec![])),
            decl("Cell", tagged(call(ident("styled"), vec![ident("Box")]))),
            elem("Row", a, vec![elem("Cell", b, vec![])]),
        ])
    };
    let out = jsx_marker(&opts, build(false));
    assert_eq!(out, build(true));
}

#[test]
fn renamed_imports_are_tracked_by_local_binding() {
    let opts = options("@chakra-ui/react", "chakra");
    let build = |marked: bool| {
        let (a, b) = if marked {
            (vec![attr("data-uic", "App-Btn")], vec![attr("data-uic", "App-Fancy-Btn")])
        } else {
            (vec![], vec![])
        };
        program(vec![
            import("@chakra-ui/react", vec![renamed("Button", "Btn"), renamed("chakra", "c")]),
            decl("Fancy", call(ident("c"), vec![ident("Btn")])),
            func("App", vec![elem("Btn", a, vec![]), elem("Fancy", b, vec![])]),
        ])
    };
    let out = jsx_marker(&opts, build(false));
    assert_eq!(out, build(true));
}

#[test]
fn default_and_namespace_imports_are_ignored() {
    let opts = options("uilib", "styled");
    let build = || {
        program(vec![
            import(
                "uilib",
                vec![
                    ImportSpecifier::Default { local: id("Ui", 1) },
                    ImportSpecifier::Namespace { local: id("All", 1) },
                ],
            ),
            elem("Ui", vec![], vec![]),
            elem("All", vec![], vec![]),
        ])
    };
    let out = jsx_marker(&opts, build());
    assert_eq!(out, build());
}

#[test]
fn shadowed_binding_is_not_matched() {
    let opts = options("uilib", "styled");
    let build = || {
        program(vec![
            import("uilib", vec![named("Button")]),
            Node::Element { name: Some(id("Button", 2)), attrs: vec![], children: vec![] },
        ])
    };
    let out = jsx_marker(&opts, build());
    assert_eq!(out, build());
}

#[test]
fn context_is_restored_after_function() {
    let opts = options("uilib", "styled");
    let build = |marked: bool| {
        let (a, b) = if marked {
            (vec![attr("data-uic", "Inner-Button")], vec![attr("data-uic", "Component-Button")])
        } else {
            (vec![], vec![])
        };
        program(vec![
            import("uilib", vec![named("Button")]),
            func("Outer", vec![func("Inner", vec![elem("Button", a, vec![])])]),
            elem("Button", b, vec![]),
        ])
    };
    let out = jsx_marker(&opts, build(false));
    assert_eq!(out, build(true));
}

#[test]
fn wrapping_a_local_component_records_nothing() {
    let opts = options("uilib", "styled");
    let build = || {
        program(vec![
            import("uilib", vec![named("styled")]),
            decl("Local", call(ident("styled"), vec![ident("Mine")])),
            decl("Other", call(ident("make"), vec![ident("Mine")])),
            elem("Local", vec![], vec![]),
            elem("Other", vec![], vec![]),
        ])
    };
    let out = jsx_marker(&opts, build());
    assert_eq!(out, build());
}

#[test]
fn nested_children_are_marked() {
    let opts = options("uilib", "styled");
    let build = |marked: bool| {
        let (a, b) = if marked {
            (vec![attr("data-uic", "Page-Stack")], vec![attr("data-uic", "Page-Text")])
        } else {
            (vec![], vec![])
        };
        program(vec![
            import("uilib", vec![named("Stack"), named("Text")]),
            func("Page", vec![elem("Stack", a, vec![elem("div", vec![], vec![elem("Text", b, vec![])])])]),
        ])
    };
    let out = jsx_marker(&opts, build(false));
    assert_eq!(out, build(true));
}

#[test]
fn transformer_steps() {
    let opts = options("uilib", "styled");
    let mut t = JSXMarkerTransformer::new();
    t.handle_import(&opts, &"uilib".to_string(), &vec![named("Box"), named("styled")]);
    assert!(t.is_imported(&id("Box", 1)));
    assert!(!t.is_imported(&id("styled", 1)));
    assert!(t.is_styled_call(&ident("styled")));
    assert!(t.is_styled_call(&member(ident("styled"), "div")));
    assert!(!t.is_styled_call(&ident("Box")));
    t.handle_styled_component(
        &Some(id("Card", 1)),
        &Some(Box::new(call(ident("styled"), vec![ident("Box")]))),
    );
    assert_eq!(t.lookup_chain(&id("Card", 1)), Some(vec!["Card".to_string(), "Box".to_string()]));
    assert_eq!(t.derived_name(&id("Card", 1)), Some("Card-Box".to_string()));
    assert_eq!(t.derived_name(&id("Box", 1)), Some("Box".to_string()));
    assert_eq!(t.derived_name(&id("Nope", 1)), None);
    assert_eq!(t.create_data_name("Card-Box"), "Component-Card-Box".to_string());
    t.current_component = Some("Page".to_string());
    assert_eq!(t.create_data_name("Box"), "Page-Box".to_string());
    let mut fresh = vec![attr("id", "a")];
    t.add_data_name_attr(&opts, &mut fresh, "Box");
    assert_eq!(fresh, vec![attr("id", "a"), attr("data-uic", "Page-Box")]);
    let mut marked = vec![attr("data-uic", "x")];
    t.add_data_name_attr(&opts, &mut marked, "Box");
    assert_eq!(marked, vec![attr("data-uic", "x")]);
}

#[test]
fn import_from_other_library_records_nothing() {
    let opts = options("uilib", "styled");
    let mut t = JSXMarkerTransformer::new();
    t.handle_import(&opts, &"other".to_string(), &vec![named("Box")]);
    assert!(!t.is_imported(&id("Box", 1)));
}

#[test]
fn plugin_options_defaults() {
    let o = JSXMarkerPluginOptions { library_name: None, attribute_name: None, styled_function: None }
        .into_jsx_marker_options();
    assert_eq!(o.library_name, "@chakra-ui/react");
    assert_eq!(o.attribute_name, "data-uic");
    assert_eq!(o.styled_function_name, "chakra");
}

#[test]
fn plugin_options_given_values() {
    let o = JSXMarkerPluginOptions {
        library_name: Some("uilib".to_string()),
        attribute_name: Some("data-x".to_string()),
        styled_function: Some("styled".to_string()),
    }
    .into_jsx_marker_options();
    assert_eq!(o, options_with("uilib", "data-x", "styled"));
}

fn options_with(library: &str, attribute: &str, styled: &str) -> JSXMarkerOptions {
    JSXMarkerOptions {
        library_name: library.to_string(),
        attribute_name: attribute.to_string(),
        styled_function_name: styled.to_string(),
    }
}
