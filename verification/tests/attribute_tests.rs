use topcoat_explorer::attributes::{
    button_element, check_node, container_element, input_element, table_element, text_element,
    Attribute, AttributeForm, AttributeValue, Flag, InputValue, NodeKind,
};
use topcoat_explorer::markup::ButtonStyle;

fn plain(key: &str, value: &str) -> Attribute {
    Attribute { form: AttributeForm::Plain, key: Some(key.to_string()), value: AttributeValue::Text(value.to_string()) }
}

fn plain_expr(key: &str) -> Attribute {
    Attribute { form: AttributeForm::Plain, key: Some(key.to_string()), value: AttributeValue::Expression }
}

fn bind(key: &str) -> Attribute {
    Attribute { form: AttributeForm::Binding, key: Some(key.to_string()), value: AttributeValue::Expression }
}

fn handler(key: &str, value: AttributeValue) -> Attribute {
    Attribute { form: AttributeForm::Handler, key: Some(key.to_string()), value }
}

fn table_attrs() -> Vec<Attribute> {
    let mut attrs: Vec<Attribute> = ["key", "rows", "selected", "width", "height"].iter().map(|k| bind(k)).collect();
    for key in ["select", "activate", "sort"] {
        attrs.push(handler(key, AttributeValue::Closure));
    }
    attrs
}

fn err<T>(r: Result<T, String>) -> String {
    match r {
        Ok(_) => panic!("expected an error"),
        Err(m) => m,
    }
}

#[test]
fn unsupported_nodes_are_refused() {
    assert_eq!(check_node(NodeKind::Element), Ok(()));
    assert_eq!(check_node(NodeKind::ForLoop), Ok(()));
    assert_eq!(check_node(NodeKind::Match), Err("Topcoat `match` lowering is not yet implemented for WinUI".to_string()));
    assert_eq!(check_node(NodeKind::DocumentType), Err("DOCTYPE has no WinUI meaning".to_string()));
    assert_eq!(check_node(NodeKind::Break), Err("`break` is not supported by Topcoat views".to_string()));
    assert_eq!(check_node(NodeKind::Continue), Err("`continue` is not supported by Topcoat views".to_string()));
    assert_eq!(
        check_node(NodeKind::Component),
        Err("Topcoat component calls are not yet in this PoC; use an HTML-shaped element".to_string())
    );
}

#[test]
fn text_elements_take_text_children_and_common_attributes() {
    let attrs = vec![plain("class", "font-bold"), plain_expr("title"), plain("id", "x")];
    let c = text_element("p", &vec![NodeKind::Text, NodeKind::RuntimeExpr], &attrs).unwrap();
    assert_eq!(c.class, Some("font-bold".to_string()));
    assert!(c.title && c.id && !c.aria_label);
    assert_eq!(
        err(text_element("p", &vec![NodeKind::Element], &attrs)),
        "native text controls accept only text and expression children"
    );
    assert_eq!(err(text_element("h1", &vec![], &vec![plain("class", "italic")])), "class `italic` has no native text mapping");
    assert_eq!(err(text_element("h1", &vec![], &vec![plain_expr("class")])), "`class` must be static for native lowering");
    assert_eq!(err(text_element("h1", &vec![], &vec![plain("style", "x")])), "attribute `style` has no WinUI mapping on this element");
    assert_eq!(err(text_element("h2", &vec![], &vec![bind("value")])), "attribute construct on `<h2>` has no WinUI mapping");
    let dynamic = Attribute { form: AttributeForm::Plain, key: None, value: AttributeValue::Expression };
    assert_eq!(err(text_element("h2", &vec![], &vec![dynamic])), "dynamic attribute names cannot map safely to WinUI");
}

#[test]
fn containers_read_their_layout() {
    let l = container_element("main", &vec![plain("class", "p-3 space-y-2")]).unwrap();
    assert!(!l.horizontal);
    assert_eq!(l.padding, Some("3".to_string()));
    assert_eq!(l.spacing, Some("2".to_string()));
    assert_eq!(
        err(container_element("nav", &vec![plain("aria-label", "x")])),
        "container accessibility modifiers are not implemented in this PoC"
    );
    assert_eq!(err(container_element("div", &vec![plain("class", "grid")])), "layout class `grid` has no WinUI mapping");
}

#[test]
fn buttons_read_their_attributes() {
    let attrs = vec![
        plain("class", "toolbar"),
        plain("title", "Back"),
        plain_expr("disabled"),
        handler("click", AttributeValue::Closure),
        plain("type", "button"),
    ];
    let b = button_element(&vec![NodeKind::Text], &attrs).unwrap();
    assert_eq!(b.styles, vec![ButtonStyle::Subtle]);
    assert_eq!(b.disabled, Some(Flag::Expression));
    assert!(b.click && b.common.title);
    let b = button_element(&vec![], &vec![plain("disabled", "true"), handler("click", AttributeValue::Expression)]).unwrap();
    assert_eq!(b.disabled, Some(Flag::Literal(true)));
    assert!(b.click);
    let b = button_element(&vec![], &vec![plain("disabled", "false")]).unwrap();
    assert_eq!(b.disabled, Some(Flag::Literal(false)));
    assert!(!b.click);
    let b = button_element(&vec![], &vec![plain("disabled", "FALSE")]).unwrap();
    assert_eq!(b.disabled, Some(Flag::Literal(true)));
    let b = button_element(&vec![], &vec![plain("disabled", "")]).unwrap();
    assert_eq!(b.disabled, Some(Flag::Literal(true)));
}

#[test]
fn buttons_refuse_what_they_cannot_show() {
    assert_eq!(err(button_element(&vec![], &vec![plain("type", "submit")])), "attribute `type` has no WinUI mapping on this element");
    assert_eq!(err(button_element(&vec![], &vec![plain_expr("type")])), "`type` must be static for native lowering");
    assert_eq!(
        err(button_element(&vec![], &vec![handler("click", AttributeValue::Text("go()".to_string()))])),
        "raw JavaScript event handlers cannot run in WinUI"
    );
    assert_eq!(
        err(button_element(&vec![], &vec![handler("hover", AttributeValue::Closure)])),
        "attribute construct on `<button>` has no WinUI mapping"
    );
    assert_eq!(err(button_element(&vec![], &vec![plain("class", "fancy")])), "button class `fancy` has no native mapping");
    assert_eq!(
        err(button_element(&vec![NodeKind::If], &vec![plain("class", "fancy")])),
        "native text controls accept only text and expression children"
    );
}

#[test]
fn inputs_read_their_attributes() {
    let attrs = vec![
        plain("type", "text"),
        plain("class", "w-60"),
        bind("value"),
        plain_expr("placeholder"),
        plain("aria-label", "Search"),
        handler("input", AttributeValue::Closure),
    ];
    let i = input_element(&attrs).unwrap();
    assert_eq!(i.value, InputValue::Bound);
    assert!(i.placeholder && i.on_input && i.common.aria_label);
    assert_eq!(i.width, Some("60".to_string()));
    let i = input_element(&vec![plain("value", "x"), handler("change", AttributeValue::Closure)]).unwrap();
    assert_eq!(i.value, InputValue::Given);
    assert!(i.on_input);
    let i = input_element(&vec![]).unwrap();
    assert_eq!(i.value, InputValue::Empty);
    assert!(!i.on_input);
}

#[test]
fn inputs_refuse_what_they_cannot_show() {
    assert_eq!(
        err(input_element(&vec![handler("input", AttributeValue::Expression)])),
        "native input handlers must be closures receiving a Topcoat Event"
    );
    assert_eq!(err(input_element(&vec![handler("keydown", AttributeValue::Closure)])), "attribute `@keydown` has no WinUI mapping on this element");
    assert_eq!(err(input_element(&vec![bind("text")])), "attribute construct on `<input>` has no WinUI mapping");
    assert_eq!(err(input_element(&vec![plain("type", "password")])), "attribute `type` has no WinUI mapping on this element");
    assert_eq!(err(input_element(&vec![plain("class", "w-6 rounded")])), "input class `rounded` has no native mapping");
}

#[test]
fn complete_tables_are_accepted() {
    assert_eq!(table_element(false, &table_attrs()), Ok(()));
}

#[test]
fn tables_take_no_children() {
    assert_eq!(
        table_element(true, &table_attrs()),
        Err("native `<table>` receives rows through `:rows` and cannot have children".to_string())
    );
}

#[test]
fn tables_refuse_unknown_attributes() {
    let mut attrs = table_attrs();
    attrs.push(bind("columns"));
    assert_eq!(table_element(false, &attrs), Err("attribute `:columns` has no WinUI mapping on this element".to_string()));
    let mut attrs = table_attrs();
    attrs.insert(0, handler("click", AttributeValue::Closure));
    assert_eq!(table_element(false, &attrs), Err("attribute `@click` has no WinUI mapping on this element".to_string()));
    let mut attrs = table_attrs();
    attrs.push(plain("class", "x"));
    assert_eq!(table_element(false, &attrs), Err("attribute construct on `<table>` has no WinUI mapping".to_string()));
}

#[test]
fn tables_need_every_binding_and_closure_handler() {
    let attrs: Vec<_> = table_attrs()
        .into_iter()
        .filter(|a| a.key.as_deref() != Some("selected") && a.key.as_deref() != Some("sort"))
        .collect();
    assert_eq!(table_element(false, &attrs), Err("native `<table>` requires `:selected`".to_string()));
    let attrs: Vec<_> = table_attrs().into_iter().filter(|a| a.key.as_deref() != Some("sort")).collect();
    assert_eq!(table_element(false, &attrs), Err("native `<table>` requires `@sort`".to_string()));
    let mut attrs = table_attrs();
    attrs.push(handler("activate", AttributeValue::Expression));
    assert_eq!(table_element(false, &attrs), Err("native input handlers must be closures receiving a Topcoat Event".to_string()));
}
