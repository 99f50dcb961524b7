//! Which attributes and children each native element accepts, in the order
//! the view lowering checks them, and what it reads from them. An
//! attribute's value is described by its shape only: a text literal, a
//! closure, or another expression.
use vstd::prelude::*;
use crate::markup::{
    button_classes, button_of, check_text_classes, first_unknown_text_class, framed, input_width,
    input_width_of, layout_classes, layout_of, no_layout, opt_text, plain_button, words,
    ButtonStyle, LayoutClasses, LayoutView,
};
use crate::path::copy_string;
use crate::text::{chars_of, push_text, string_from, text_is};

verus! {

/// How an attribute is written.
#[derive(Clone, Copy, Debug, PartialEq, Eq, Structural)]
pub enum AttributeForm {
    /// `key="text"` or `key=(expression)`.
    Plain,
    /// `:key=...`
    Binding,
    /// `@key=...`
    Handler,
    /// Anything else.
    Other,
}

/// The shape of an attribute's value.
#[derive(Clone, Debug, PartialEq, Eq)]
pub enum AttributeValue {
    Text(String),
    Closure,
    Expression,
}

pub enum ValueView {
    Text(Seq<char>),
    Closure,
    Expression,
}

impl View for AttributeValue {
    type V = ValueView;

    open spec fn view(&self) -> ValueView {
        match self {
            AttributeValue::Text(t) => ValueView::Text(t@),
            AttributeValue::Closure => ValueView::Closure,
            AttributeValue::Expression => ValueView::Expression,
        }
    }
}

/// One attribute of an element; `key` is `None` when the name is computed.
#[derive(Clone, Debug, PartialEq, Eq)]
pub struct Attribute {
    pub form: AttributeForm,
    pub key: Option<String>,
    pub value: AttributeValue,
}

pub struct AttributeView {
    pub form: AttributeForm,
    pub key: Option<Seq<char>>,
    pub value: ValueView,
}

impl View for Attribute {
    type V = AttributeView;

    open spec fn view(&self) -> AttributeView {
        AttributeView { form: self.form, key: opt_text(self.key), value: self.value@ }
    }
}

pub open spec fn attribute_views(v: Seq<Attribute>) -> Seq<AttributeView> {
    v.map_values(|a: Attribute| a@)
}

/// The kinds of node a view holds.
#[derive(Clone, Copy, Debug, PartialEq, Eq, Structural)]
pub enum NodeKind {
    Text,
    Expr,
    RuntimeExpr,
    Element,
    If,
    Local,
    ForLoop,
    Block,
    Signal,
    Component,
    Match,
    DocumentType,
    Continue,
    Break,
}

/// Why a node cannot be lowered, if it cannot.
pub open spec fn node_problem(kind: NodeKind) -> Option<Seq<char>> {
    match kind {
        NodeKind::Component => Some(
            "Topcoat component calls are not yet in this PoC; use an HTML-shaped element"@,
        ),
        NodeKind::Match => Some("Topcoat `match` lowering is not yet implemented for WinUI"@),
        NodeKind::DocumentType => Some("DOCTYPE has no WinUI meaning"@),
        NodeKind::Continue => Some("`continue` is not supported by Topcoat views"@),
        NodeKind::Break => Some("`break` is not supported by Topcoat views"@),
        _ => None,
    }
}

/// Checks that a node can be lowered.
pub fn check_node(kind: NodeKind) -> (r: Result<(), String>)
    ensures
        r is Ok <==> node_problem(kind) is None,
        r matches Err(m) ==> node_problem(kind) == Some(m@),
{
    match kind {
        NodeKind::Component => Err(
            "Topcoat component calls are not yet in this PoC; use an HTML-shaped element".to_owned(),
        ),
        NodeKind::Match => Err("Topcoat `match` lowering is not yet implemented for WinUI".to_owned()),
        NodeKind::DocumentType => Err("DOCTYPE has no WinUI meaning".to_owned()),
        NodeKind::Continue => Err("`continue` is not supported by Topcoat views".to_owned()),
        NodeKind::Break => Err("`break` is not supported by Topcoat views".to_owned()),
        _ => Ok(()),
    }
}

pub open spec fn is_text_child(kind: NodeKind) -> bool {
    kind == NodeKind::Text || kind == NodeKind::Expr || kind == NodeKind::RuntimeExpr
}

/// Text controls take text and expression children only.
pub open spec fn text_children_ok(children: Seq<NodeKind>) -> bool {
    forall|i: int| 0 <= i < children.len() ==> is_text_child(#[trigger] children[i])
}

fn text_children(children: &Vec<NodeKind>) -> (r: bool)
    ensures
        r == text_children_ok(children@),
{
    let mut i: usize = 0;
    while i < children.len()
        invariant
            i <= children.len(),
            forall|k: int| 0 <= k < i ==> is_text_child(#[trigger] children@[k]),
        decreases children.len() - i,
    {
        let k = children[i];
        if !(k == NodeKind::Text || k == NodeKind::Expr || k == NodeKind::RuntimeExpr) {
            return false;
        }
        i = i + 1;
    }
    true
}

pub open spec fn children_message() -> Seq<char> {
    "native text controls accept only text and expression children"@
}

pub open spec fn dynamic_key_message() -> Seq<char> {
    "dynamic attribute names cannot map safely to WinUI"@
}

pub open spec fn raw_script_message() -> Seq<char> {
    "raw JavaScript event handlers cannot run in WinUI"@
}

pub open spec fn closure_message() -> Seq<char> {
    "native input handlers must be closures receiving a Topcoat Event"@
}

pub open spec fn accessibility_message() -> Seq<char> {
    "container accessibility modifiers are not implemented in this PoC"@
}

/// The message for an attribute form an element does not take.
pub open spec fn construct_message(element: Seq<char>) -> Seq<char> {
    "attribute construct on `<"@ + element + ">` has no WinUI mapping"@
}

/// The message for an attribute name an element does not take.
pub open spec fn unsupported_message(key: Seq<char>) -> Seq<char> {
    "attribute `"@ + key + "` has no WinUI mapping on this element"@
}

/// The message for an attribute that must be a text literal.
pub open spec fn static_message(name: Seq<char>) -> Seq<char> {
    "`"@ + name + "` must be static for native lowering"@
}

fn construct_error(element: &str) -> (r: String)
    ensures
        r@ == construct_message(element@),
{
    framed("attribute construct on `<", &chars_of(element), ">` has no WinUI mapping")
}

fn unsupported_error(key: &Vec<char>) -> (r: String)
    ensures
        r@ == unsupported_message(key@),
{
    framed("attribute `", key, "` has no WinUI mapping on this element")
}

fn static_error(name: &str) -> (r: String)
    ensures
        r@ == static_message(name@),
{
    framed("`", &chars_of(name), "` must be static for native lowering")
}

/// A boolean attribute: a literal is true unless it reads `false`; any
/// other value is an expression evaluated at run time.
#[derive(Clone, Copy, Debug, PartialEq, Eq, Structural)]
pub enum Flag {
    Literal(bool),
    Expression,
}

pub open spec fn flag_of(v: ValueView) -> Flag {
    match v {
        ValueView::Text(t) => Flag::Literal(t != "false"@),
        _ => Flag::Expression,
    }
}

fn flag(v: &AttributeValue) -> (r: Flag)
    ensures
        r == flag_of(v@),
{
    match v {
        AttributeValue::Text(t) => Flag::Literal(!text_is(&chars_of(t.as_str()), "false")),
        _ => Flag::Expression,
    }
}

/// The attributes every control takes: a literal class list, an id, an
/// accessible name and a tooltip.
#[derive(Clone, Debug, PartialEq, Eq)]
pub struct CommonAttributes {
    pub class: Option<String>,
    pub id: bool,
    pub aria_label: bool,
    pub title: bool,
}

pub struct CommonView {
    pub class: Option<Seq<char>>,
    pub id: bool,
    pub aria_label: bool,
    pub title: bool,
}

impl View for CommonAttributes {
    type V = CommonView;

    open spec fn view(&self) -> CommonView {
        CommonView { class: opt_text(self.class), id: self.id, aria_label: self.aria_label, title: self.title }
    }
}

pub open spec fn no_common() -> CommonView {
    CommonView { class: None, id: false, aria_label: false, title: false }
}

/// A plain attribute `key` read into the common ones, when it is one of
/// them.
pub open spec fn common_key(c: CommonView, key: Seq<char>, value: ValueView) -> Option<Result<CommonView, Seq<char>>> {
    if key == "class"@ {
        Some(
            match value {
                ValueView::Text(t) => Ok(CommonView { class: Some(t), ..c }),
                _ => Err(static_message("class"@)),
            },
        )
    } else if key == "id"@ {
        Some(Ok(CommonView { id: true, ..c }))
    } else if key == "aria-label"@ {
        Some(Ok(CommonView { aria_label: true, ..c }))
    } else if key == "title"@ {
        Some(Ok(CommonView { title: true, ..c }))
    } else {
        None
    }
}

fn copy_common(c: &CommonAttributes) -> (r: CommonAttributes)
    ensures
        r@ == c@,
{
    let class = match &c.class {
        Some(t) => Some(copy_string(t)),
        None => None,
    };
    CommonAttributes { class, id: c.id, aria_label: c.aria_label, title: c.title }
}

fn common_key_exec(c: &CommonAttributes, key: &Vec<char>, value: &AttributeValue) -> (r: Option<Result<CommonAttributes, String>>)
    ensures
        common_key(c@, key@, value@) matches Some(x) ==> r matches Some(y) && match (x, y) {
            (Ok(a), Ok(b)) => a == b@,
            (Err(a), Err(b)) => a == b@,
            _ => false,
        },
        common_key(c@, key@, value@) is None ==> r is None,
{
    if text_is(key, "class") {
        match value {
            AttributeValue::Text(t) => Some(Ok(CommonAttributes { class: Some(copy_string(t)), ..copy_common(c) })),
            _ => Some(Err(static_error("class"))),
        }
    } else if text_is(key, "id") {
        Some(Ok(CommonAttributes { id: true, ..copy_common(c) }))
    } else if text_is(key, "aria-label") {
        Some(Ok(CommonAttributes { aria_label: true, ..copy_common(c) }))
    } else if text_is(key, "title") {
        Some(Ok(CommonAttributes { title: true, ..copy_common(c) }))
    } else {
        None
    }
}

/// One attribute of a text element or container called `element`.
pub open spec fn common_step(c: CommonView, a: AttributeView, element: Seq<char>) -> Result<CommonView, Seq<char>> {
    if a.form != AttributeForm::Plain {
        Err(construct_message(element))
    } else {
        match a.key {
            None => Err(dynamic_key_message()),
            Some(k) => match common_key(c, k, a.value) {
                Some(r) => r,
                None => Err(unsupported_message(k)),
            },
        }
    }
}

pub open spec fn common_fold(c: CommonView, attrs: Seq<AttributeView>, element: Seq<char>) -> Result<CommonView, Seq<char>>
    decreases attrs.len(),
{
    if attrs.len() == 0 {
        Ok(c)
    } else {
        match common_step(c, attrs[0], element) {
            Ok(next) => common_fold(next, attrs.drop_first(), element),
            Err(m) => Err(m),
        }
    }
}

/// Reads the attributes of a text element or container.
fn common_attributes(attrs: &Vec<Attribute>, element: &str) -> (r: Result<CommonAttributes, String>)
    ensures
        match (common_fold(no_common(), attribute_views(attrs@), element@), r) {
            (Ok(a), Ok(b)) => a == b@,
            (Err(a), Err(b)) => a == b@,
            _ => false,
        },
{
    let ghost av = attribute_views(attrs@);
    assert(av.skip(0) =~= av);
    let mut c = CommonAttributes { class: None, id: false, aria_label: false, title: false };
    let mut i: usize = 0;
    while i < attrs.len()
        invariant
            i <= attrs.len(),
            av == attribute_views(attrs@),
            common_fold(no_common(), av, element@) == common_fold(c@, av.skip(i as int), element@),
        decreases attrs.len() - i,
    {
        let a = &attrs[i];
        assert(av.skip(i as int)[0] == a@);
        assert(av.skip(i as int).drop_first() =~= av.skip(i + 1));
        if a.form != AttributeForm::Plain {
            return Err(construct_error(element));
        }
        match &a.key {
            None => {
                return Err("dynamic attribute names cannot map safely to WinUI".to_owned());
            },
            Some(k) => {
                let key = chars_of(k.as_str());
                match common_key_exec(&c, &key, &a.value) {
                    Some(Ok(next)) => {
                        c = next;
                    },
                    Some(Err(m)) => {
                        return Err(m);
                    },
                    None => {
                        return Err(unsupported_error(&key));
                    },
                }
            },
        }
        i = i + 1;
    }
    assert(av.skip(i as int).len() == 0);
    Ok(c)
}

/// What a text element called `element` with these children and
/// attributes lowers to, or why it cannot: the children are checked
/// first, then the attributes, then the class words.
pub open spec fn text_element_result(
    element: Seq<char>,
    children: Seq<NodeKind>,
    attrs: Seq<AttributeView>,
) -> Result<CommonView, Seq<char>> {
    if !text_children_ok(children) {
        Err(children_message())
    } else {
        match common_fold(no_common(), attrs, element) {
            Err(m) => Err(m),
            Ok(c) => match first_unknown_text_class(words(class_text(c.class))) {
                Some(t) => Err("class `"@ + t + "` has no native text mapping"@),
                None => Ok(c),
            },
        }
    }
}

/// The class list, empty when there is none.
pub open spec fn class_text(class: Option<Seq<char>>) -> Seq<char> {
    match class {
        Some(t) => t,
        None => Seq::<char>::empty(),
    }
}

fn class_str(class: &Option<String>) -> (r: String)
    ensures
        r@ == class_text(opt_text(*class)),
{
    match class {
        Some(t) => copy_string(t),
        None => String::new(),
    }
}

/// Checks a text element (`h1`, `p` and the like) called `element`.
pub fn text_element(element: &str, children: &Vec<NodeKind>, attrs: &Vec<Attribute>) -> (r: Result<CommonAttributes, String>)
    ensures
        match (text_element_result(element@, children@, attribute_views(attrs@)), r) {
            (Ok(a), Ok(b)) => a == b@,
            (Err(a), Err(b)) => a == b@,
            _ => false,
        },
{
    if !text_children(children) {
        return Err("native text controls accept only text and expression children".to_owned());
    }
    let c = common_attributes(attrs, element)?;
    let class = class_str(&c.class);
    match check_text_classes(class.as_str()) {
        Ok(()) => Ok(c),
        Err(m) => Err(m),
    }
}

/// What a container called `element` with these attributes lowers to, or
/// why it cannot.
pub open spec fn container_result(element: Seq<char>, attrs: Seq<AttributeView>) -> Result<LayoutView, Seq<char>> {
    match common_fold(no_common(), attrs, element) {
        Err(m) => Err(m),
        Ok(c) => if c.id || c.aria_label || c.title {
            Err(accessibility_message())
        } else {
            layout_of(no_layout(), words(class_text(c.class)))
        },
    }
}

/// Checks a container (`main`, `div` and the like) called `element` and
/// reads its layout.
pub fn container_element(element: &str, attrs: &Vec<Attribute>) -> (r: Result<LayoutClasses, String>)
    ensures
        match (container_result(element@, attribute_views(attrs@)), r) {
            (Ok(a), Ok(b)) => a == b@,
            (Err(a), Err(b)) => a == b@,
            _ => false,
        },
{
    let c = common_attributes(attrs, element)?;
    if c.id || c.aria_label || c.title {
        return Err("container accessibility modifiers are not implemented in this PoC".to_owned());
    }
    let class = class_str(&c.class);
    layout_classes(class.as_str())
}

/// What a button's attributes set, before its classes are read.
pub struct ButtonAcc {
    pub common: CommonView,
    pub disabled: Option<Flag>,
    pub click: bool,
}

pub open spec fn no_button_attributes() -> ButtonAcc {
    ButtonAcc { common: no_common(), disabled: None, click: false }
}

/// One attribute of a button.
pub open spec fn button_step(b: ButtonAcc, a: AttributeView) -> Result<ButtonAcc, Seq<char>> {
    match a.form {
        AttributeForm::Plain => match a.key {
            None => Err(dynamic_key_message()),
            Some(k) => match common_key(b.common, k, a.value) {
                Some(Ok(c)) => Ok(ButtonAcc { common: c, ..b }),
                Some(Err(m)) => Err(m),
                None => if k == "disabled"@ {
                    Ok(ButtonAcc { disabled: Some(flag_of(a.value)), ..b })
                } else if k == "type"@ {
                    match a.value {
                        ValueView::Text(t) => if t == "button"@ {
                            Ok(b)
                        } else {
                            Err(unsupported_message(k))
                        },
                        _ => Err(static_message("type"@)),
                    }
                } else {
                    Err(unsupported_message(k))
                },
            },
        },
        AttributeForm::Handler => match a.key {
            None => Err(dynamic_key_message()),
            Some(k) => if k == "click"@ {
                match a.value {
                    ValueView::Text(_) => Err(raw_script_message()),
                    _ => Ok(ButtonAcc { click: true, ..b }),
                }
            } else {
                Err(construct_message("button"@))
            },
        },
        _ => Err(construct_message("button"@)),
    }
}

pub open spec fn button_fold(b: ButtonAcc, attrs: Seq<AttributeView>) -> Result<ButtonAcc, Seq<char>>
    decreases attrs.len(),
{
    if attrs.len() == 0 {
        Ok(b)
    } else {
        match button_step(b, attrs[0]) {
            Ok(next) => button_fold(next, attrs.drop_first()),
            Err(m) => Err(m),
        }
    }
}

/// What a button lowers to: its common attributes, whether it is
/// disabled, whether it handles clicks, its styles and its width text.
#[derive(Clone, Debug, PartialEq, Eq)]
pub struct ButtonSpec {
    pub common: CommonAttributes,
    pub disabled: Option<Flag>,
    pub click: bool,
    pub styles: Vec<ButtonStyle>,
    pub width: Option<String>,
}

pub struct ButtonSpecView {
    pub common: CommonView,
    pub disabled: Option<Flag>,
    pub click: bool,
    pub styles: Seq<ButtonStyle>,
    pub width: Option<Seq<char>>,
}

impl View for ButtonSpec {
    type V = ButtonSpecView;

    open spec fn view(&self) -> ButtonSpecView {
        ButtonSpecView {
            common: self.common@,
            disabled: self.disabled,
            click: self.click,
            styles: self.styles@,
            width: opt_text(self.width),
        }
    }
}

/// What a button with these children and attributes lowers to, or why it
/// cannot: children first, then attributes, then class words.
pub open spec fn button_result(children: Seq<NodeKind>, attrs: Seq<AttributeView>) -> Result<ButtonSpecView, Seq<char>> {
    if !text_children_ok(children) {
        Err(children_message())
    } else {
        match button_fold(no_button_attributes(), attrs) {
            Err(m) => Err(m),
            Ok(b) => match button_of(plain_button(), words(class_text(b.common.class))) {
                Err(m) => Err(m),
                Ok(look) => Ok(
                    ButtonSpecView {
                        common: b.common,
                        disabled: b.disabled,
                        click: b.click,
                        styles: look.styles,
                        width: look.width,
                    },
                ),
            },
        }
    }
}

/// Checks a button and reads what it lowers to.
pub fn button_element(children: &Vec<NodeKind>, attrs: &Vec<Attribute>) -> (r: Result<ButtonSpec, String>)
    ensures
        match (button_result(children@, attribute_views(attrs@)), r) {
            (Ok(a), Ok(b)) => a == b@,
            (Err(a), Err(b)) => a == b@,
            _ => false,
        },
{
    if !text_children(children) {
        return Err("native text controls accept only text and expression children".to_owned());
    }
    let ghost av = attribute_views(attrs@);
    assert(av.skip(0) =~= av);
    let mut common = CommonAttributes { class: None, id: false, aria_label: false, title: false };
    let mut disabled: Option<Flag> = None;
    let mut click = false;
    let mut i: usize = 0;
    while i < attrs.len()
        invariant
            i <= attrs.len(),
            av == attribute_views(attrs@),
            text_children_ok(children@),
            button_fold(no_button_attributes(), av) == button_fold(
                ButtonAcc { common: common@, disabled, click },
                av.skip(i as int),
            ),
        decreases attrs.len() - i,
    {
        let a = &attrs[i];
        assert(av.skip(i as int)[0] == a@);
        assert(av.skip(i as int).drop_first() =~= av.skip(i + 1));
        match a.form {
            AttributeForm::Plain => match &a.key {
                None => {
                    return Err("dynamic attribute names cannot map safely to WinUI".to_owned());
                },
                Some(k) => {
                    let key = chars_of(k.as_str());
                    match common_key_exec(&common, &key, &a.value) {
                        Some(Ok(next)) => {
                            common = next;
                        },
                        Some(Err(m)) => {
                            return Err(m);
                        },
                        None => {
                            if text_is(&key, "disabled") {
                                disabled = Some(flag(&a.value));
                            } else if text_is(&key, "type") {
                                match &a.value {
                                    AttributeValue::Text(t) => {
                                        if !text_is(&chars_of(t.as_str()), "button") {
                                            return Err(unsupported_error(&key));
                                        }
                                    },
                                    _ => {
                                        return Err(static_error("type"));
                                    },
                                }
                            } else {
                                return Err(unsupported_error(&key));
                            }
                        },
                    }
                },
            },
            AttributeForm::Handler => match &a.key {
                None => {
                    return Err("dynamic attribute names cannot map safely to WinUI".to_owned());
                },
                Some(k) => {
                    if text_is(&chars_of(k.as_str()), "click") {
                        match &a.value {
                            AttributeValue::Text(_) => {
                                return Err("raw JavaScript event handlers cannot run in WinUI".to_owned());
                            },
                            _ => {
                                click = true;
                            },
                        }
                    } else {
                        return Err(construct_error("button"));
                    }
                },
            },
            _ => {
                return Err(construct_error("button"));
            },
        }
        i = i + 1;
    }
    assert(av.skip(i as int).len() == 0);
    let class = class_str(&common.class);
    match button_classes(class.as_str()) {
        Ok(look) => Ok(ButtonSpec { common, disabled, click, styles: look.styles, width: look.width }),
        Err(m) => Err(m),
    }
}

/// Where a text input's text comes from.
#[derive(Clone, Copy, Debug, PartialEq, Eq, Structural)]
pub enum InputValue {
    Empty,
    Given,
    Bound,
}

/// What an input's attributes set, before its classes are read; `handler`
/// tells whether the last input handler is a closure.
pub struct InputAcc {
    pub common: CommonView,
    pub value: InputValue,
    pub placeholder: bool,
    pub disabled: Option<Flag>,
    pub handler: Option<bool>,
}

pub open spec fn no_input_attributes() -> InputAcc {
    InputAcc { common: no_common(), value: InputValue::Empty, placeholder: false, disabled: None, handler: None }
}

/// One attribute of a text input.
pub open spec fn input_step(b: InputAcc, a: AttributeView) -> Result<InputAcc, Seq<char>> {
    match a.form {
        AttributeForm::Plain => match a.key {
            None => Err(dynamic_key_message()),
            Some(k) => match common_key(b.common, k, a.value) {
                Some(Ok(c)) => Ok(InputAcc { common: c, ..b }),
                Some(Err(m)) => Err(m),
                None => if k == "value"@ {
                    Ok(InputAcc { value: InputValue::Given, ..b })
                } else if k == "placeholder"@ {
                    Ok(InputAcc { placeholder: true, ..b })
                } else if k == "disabled"@ {
                    Ok(InputAcc { disabled: Some(flag_of(a.value)), ..b })
                } else if k == "type"@ {
                    match a.value {
                        ValueView::Text(t) => if t == "text"@ {
                            Ok(b)
                        } else {
                            Err(unsupported_message(k))
                        },
                        _ => Err(static_message("type"@)),
                    }
                } else {
                    Err(unsupported_message(k))
                },
            },
        },
        AttributeForm::Binding => match a.key {
            None => Err(dynamic_key_message()),
            Some(k) => if k == "value"@ {
                Ok(InputAcc { value: InputValue::Bound, ..b })
            } else {
                Err(construct_message("input"@))
            },
        },
        AttributeForm::Handler => match a.key {
            None => Err(dynamic_key_message()),
            Some(k) => if k == "input"@ || k == "change"@ {
                match a.value {
                    ValueView::Text(_) => Err(raw_script_message()),
                    ValueView::Closure => Ok(InputAcc { handler: Some(true), ..b }),
                    ValueView::Expression => Ok(InputAcc { handler: Some(false), ..b }),
                }
            } else {
                Err(unsupported_message("@"@ + k))
            },
        },
        AttributeForm::Other => Err(construct_message("input"@)),
    }
}

pub open spec fn input_fold(b: InputAcc, attrs: Seq<AttributeView>) -> Result<InputAcc, Seq<char>>
    decreases attrs.len(),
{
    if attrs.len() == 0 {
        Ok(b)
    } else {
        match input_step(b, attrs[0]) {
            Ok(next) => input_fold(next, attrs.drop_first()),
            Err(m) => Err(m),
        }
    }
}

/// What a text input lowers to.
#[derive(Clone, Debug, PartialEq, Eq)]
pub struct InputSpec {
    pub common: CommonAttributes,
    pub value: InputValue,
    pub placeholder: bool,
    pub disabled: Option<Flag>,
    pub on_input: bool,
    pub width: Option<String>,
}

pub struct InputSpecView {
    pub common: CommonView,
    pub value: InputValue,
    pub placeholder: bool,
    pub disabled: Option<Flag>,
    pub on_input: bool,
    pub width: Option<Seq<char>>,
}

impl View for InputSpec {
    type V = InputSpecView;

    open spec fn view(&self) -> InputSpecView {
        InputSpecView {
            common: self.common@,
            value: self.value,
            placeholder: self.placeholder,
            disabled: self.disabled,
            on_input: self.on_input,
            width: opt_text(self.width),
        }
    }
}

/// What a text input with these attributes lowers to, or why it cannot:
/// attributes, then class words, then the handler's shape.
pub open spec fn input_result(attrs: Seq<AttributeView>) -> Result<InputSpecView, Seq<char>> {
    match input_fold(no_input_attributes(), attrs) {
        Err(m) => Err(m),
        Ok(b) => match input_width_of(None, words(class_text(b.common.class))) {
            Err(m) => Err(m),
            Ok(width) => if b.handler == Some(false) {
                Err(closure_message())
            } else {
                Ok(
                    InputSpecView {
                        common: b.common,
                        value: b.value,
                        placeholder: b.placeholder,
                        disabled: b.disabled,
                        on_input: b.handler == Some(true),
                        width,
                    },
                )
            },
        },
    }
}

/// Checks a text input and reads what it lowers to.
pub fn input_element(attrs: &Vec<Attribute>) -> (r: Result<InputSpec, String>)
    ensures
        match (input_result(attribute_views(attrs@)), r) {
            (Ok(a), Ok(b)) => a == b@,
            (Err(a), Err(b)) => a == b@,
            _ => false,
        },
{
    let ghost av = attribute_views(attrs@);
    assert(av.skip(0) =~= av);
    let mut common = CommonAttributes { class: None, id: false, aria_label: false, title: false };
    let mut value = InputValue::Empty;
    let mut placeholder = false;
    let mut disabled: Option<Flag> = None;
    let mut handler: Option<bool> = None;
    let mut i: usize = 0;
    while i < attrs.len()
        invariant
            i <= attrs.len(),
            av == attribute_views(attrs@),
            input_fold(no_input_attributes(), av) == input_fold(
                InputAcc { common: common@, value, placeholder, disabled, handler },
                av.skip(i as int),
            ),
        decreases attrs.len() - i,
    {
        let a = &attrs[i];
        assert(av.skip(i as int)[0] == a@);
        assert(av.skip(i as int).drop_first() =~= av.skip(i + 1));
        match &a.key {
            None => {
                if a.form == AttributeForm::Other {
                    return Err(construct_error("input"));
                }
                return Err("dynamic attribute names cannot map safely to WinUI".to_owned());
            },
            Some(k) => {
                let key = chars_of(k.as_str());
                match a.form {
                    AttributeForm::Plain => match common_key_exec(&common, &key, &a.value) {
                        Some(Ok(next)) => {
                            common = next;
                        },
                        Some(Err(m)) => {
                            return Err(m);
                        },
                        None => {
                            if text_is(&key, "value") {
                                value = InputValue::Given;
                            } else if text_is(&key, "placeholder") {
                                placeholder = true;
                            } else if text_is(&key, "disabled") {
                                disabled = Some(flag(&a.value));
                            } else if text_is(&key, "type") {
                                match &a.value {
                                    AttributeValue::Text(t) => {
                                        if !text_is(&chars_of(t.as_str()), "text") {
                                            return Err(unsupported_error(&key));
                                        }
                                    },
                                    _ => {
                                        return Err(static_error("type"));
                                    },
                                }
                            } else {
                                return Err(unsupported_error(&key));
                            }
                        },
                    },
                    AttributeForm::Binding => {
                        if text_is(&key, "value") {
                            value = InputValue::Bound;
                        } else {
                            return Err(construct_error("input"));
                        }
                    },
                    AttributeForm::Handler => {
                        if text_is(&key, "input") || text_is(&key, "change") {
                            match &a.value {
                                AttributeValue::Text(_) => {
                                    return Err("raw JavaScript event handlers cannot run in WinUI".to_owned());
                                },
                                AttributeValue::Closure => {
                                    handler = Some(true);
                                },
                                AttributeValue::Expression => {
                                    handler = Some(false);
                                },
                            }
                        } else {
                            let mut sigil = chars_of("@");
                            let mut rest = key.clone();
                            assert(rest@ =~= key@);
                            sigil.append(&mut rest);
                            return Err(unsupported_error(&sigil));
                        }
                    },
                    AttributeForm::Other => {
                        return Err(construct_error("input"));
                    },
                }
            },
        }
        i = i + 1;
    }
    assert(av.skip(i as int).len() == 0);
    let class = class_str(&common.class);
    let width = input_width(class.as_str())?;
    if handler == Some(false) {
        return Err("native input handlers must be closures receiving a Topcoat Event".to_owned());
    }
    Ok(InputSpec { common, value, placeholder, disabled, on_input: handler == Some(true), width })
}

/// What a native table's attributes gave so far: which bindings, and for
/// each handler whether it is a closure.
pub struct TableAcc {
    pub key: bool,
    pub rows: bool,
    pub selected: bool,
    pub width: bool,
    pub height: bool,
    pub select: Option<bool>,
    pub activate: Option<bool>,
    pub sort: Option<bool>,
}

pub open spec fn no_table_attributes() -> TableAcc {
    TableAcc {
        key: false,
        rows: false,
        selected: false,
        width: false,
        height: false,
        select: None,
        activate: None,
        sort: None,
    }
}

pub open spec fn is_closure(v: ValueView) -> bool {
    v is Closure
}

/// One attribute of a native table.
pub open spec fn table_step(t: TableAcc, a: AttributeView) -> Result<TableAcc, Seq<char>> {
    match a.form {
        AttributeForm::Binding => match a.key {
            None => Err(dynamic_key_message()),
            Some(k) => if k == "key"@ {
                Ok(TableAcc { key: true, ..t })
            } else if k == "rows"@ {
                Ok(TableAcc { rows: true, ..t })
            } else if k == "selected"@ {
                Ok(TableAcc { selected: true, ..t })
            } else if k == "width"@ {
                Ok(TableAcc { width: true, ..t })
            } else if k == "height"@ {
                Ok(TableAcc { height: true, ..t })
            } else {
                Err(unsupported_message(":"@ + k))
            },
        },
        AttributeForm::Handler => match a.key {
            None => Err(dynamic_key_message()),
            Some(k) => if k == "select"@ || k == "activate"@ || k == "sort"@ {
                match a.value {
                    ValueView::Text(_) => Err(raw_script_message()),
                    v => if k == "select"@ {
                        Ok(TableAcc { select: Some(is_closure(v)), ..t })
                    } else if k == "activate"@ {
                        Ok(TableAcc { activate: Some(is_closure(v)), ..t })
                    } else {
                        Ok(TableAcc { sort: Some(is_closure(v)), ..t })
                    },
                }
            } else {
                Err(unsupported_message("@"@ + k))
            },
        },
        _ => Err(construct_message("table"@)),
    }
}

pub open spec fn table_fold(t: TableAcc, attrs: Seq<AttributeView>) -> Result<TableAcc, Seq<char>>
    decreases attrs.len(),
{
    if attrs.len() == 0 {
        Ok(t)
    } else {
        match table_step(t, attrs[0]) {
            Ok(next) => table_fold(next, attrs.drop_first()),
            Err(m) => Err(m),
        }
    }
}

pub open spec fn requires_message(name: Seq<char>) -> Seq<char> {
    "native `<table>` requires `"@ + name + "`"@
}

/// The first problem with a table's gathered attributes: a missing
/// binding, then for each handler in turn a missing one or one that is
/// not a closure.
pub open spec fn table_missing(t: TableAcc) -> Option<Seq<char>> {
    if !t.key {
        Some(requires_message(":key"@))
    } else if !t.rows {
        Some(requires_message(":rows"@))
    } else if !t.selected {
        Some(requires_message(":selected"@))
    } else if !t.width {
        Some(requires_message(":width"@))
    } else if !t.height {
        Some(requires_message(":height"@))
    } else if t.select is None {
        Some(requires_message("@select"@))
    } else if t.select == Some(false) {
        Some(closure_message())
    } else if t.activate is None {
        Some(requires_message("@activate"@))
    } else if t.activate == Some(false) {
        Some(closure_message())
    } else if t.sort is None {
        Some(requires_message("@sort"@))
    } else if t.sort == Some(false) {
        Some(closure_message())
    } else {
        None
    }
}

/// What is wrong with a native table, if anything: children, then its
/// attributes in order, then what is missing.
pub open spec fn table_problem(has_children: bool, attrs: Seq<AttributeView>) -> Option<Seq<char>> {
    if has_children {
        Some("native `<table>` receives rows through `:rows` and cannot have children"@)
    } else {
        match table_fold(no_table_attributes(), attrs) {
            Err(m) => Some(m),
            Ok(t) => table_missing(t),
        }
    }
}

fn requires_error(name: &str) -> (r: String)
    ensures
        r@ == requires_message(name@),
{
    let mut message = chars_of("native `<table>` requires `");
    push_text(&mut message, name);
    push_text(&mut message, "`");
    string_from(&message)
}

/// Checks a native table: it takes no children, only the bindings
/// `:key :rows :selected :width :height` and the closure handlers
/// `@select @activate @sort`, and needs all of them.
pub fn table_element(has_children: bool, attrs: &Vec<Attribute>) -> (r: Result<(), String>)
    ensures
        r is Ok <==> table_problem(has_children, attribute_views(attrs@)) is None,
        r matches Err(m) ==> table_problem(has_children, attribute_views(attrs@)) == Some(m@),
{
    if has_children {
        return Err("native `<table>` receives rows through `:rows` and cannot have children".to_owned());
    }
    let ghost av = attribute_views(attrs@);
    assert(av.skip(0) =~= av);
    let mut t = TableAcc {
        key: false,
        rows: false,
        selected: false,
        width: false,
        height: false,
        select: None,
        activate: None,
        sort: None,
    };
    let mut i: usize = 0;
    while i < attrs.len()
        invariant
            i <= attrs.len(),
            !has_children,
            av == attribute_views(attrs@),
            table_fold(no_table_attributes(), av) == table_fold(t, av.skip(i as int)),
        decreases attrs.len() - i,
    {
        let a = &attrs[i];
        assert(av.skip(i as int)[0] == a@);
        assert(av.skip(i as int).drop_first() =~= av.skip(i + 1));
        match a.form {
            AttributeForm::Binding => match &a.key {
                None => {
                    return Err("dynamic attribute names cannot map safely to WinUI".to_owned());
                },
                Some(k) => {
                    let key = chars_of(k.as_str());
                    if text_is(&key, "key") {
                        t.key = true;
                    } else if text_is(&key, "rows") {
                        t.rows = true;
                    } else if text_is(&key, "selected") {
                        t.selected = true;
                    } else if text_is(&key, "width") {
                        t.width = true;
                    } else if text_is(&key, "height") {
                        t.height = true;
                    } else {
                        let mut sigil = chars_of(":");
                        let mut rest = key.clone();
                        assert(rest@ =~= key@);
                        sigil.append(&mut rest);
                        return Err(unsupported_error(&sigil));
                    }
                },
            },
            AttributeForm::Handler => match &a.key {
                None => {
                    return Err("dynamic attribute names cannot map safely to WinUI".to_owned());
                },
                Some(k) => {
                    let key = chars_of(k.as_str());
                    if text_is(&key, "select") || text_is(&key, "activate") || text_is(&key, "sort") {
                        let closure = match &a.value {
                            AttributeValue::Text(_) => {
                                return Err("raw JavaScript event handlers cannot run in WinUI".to_owned());
                            },
                            AttributeValue::Closure => true,
                            AttributeValue::Expression => false,
                        };
                        if text_is(&key, "select") {
                            t.select = Some(closure);
                        } else if text_is(&key, "activate") {
                            t.activate = Some(closure);
                        } else {
                            t.sort = Some(closure);
                        }
                    } else {
                        let mut sigil = chars_of("@");
                        let mut rest = key.clone();
                        assert(rest@ =~= key@);
                        sigil.append(&mut rest);
                        return Err(unsupported_error(&sigil));
                    }
                },
            },
            _ => {
                return Err(construct_error("table"));
            },
        }
        i = i + 1;
    }
    assert(av.skip(i as int).len() == 0);
    if !t.key {
        Err(requires_error(":key"))
    } else if !t.rows {
        Err(requires_error(":rows"))
    } else if !t.selected {
        Err(requires_error(":selected"))
    } else if !t.width {
        Err(requires_error(":width"))
    } else if !t.height {
        Err(requires_error(":height"))
    } else if t.select.is_none() {
        Err(requires_error("@select"))
    } else if t.select == Some(false) {
        Err("native input handlers must be closures receiving a Topcoat Event".to_owned())
    } else if t.activate.is_none() {
        Err(requires_error("@activate"))
    } else if t.activate == Some(false) {
        Err("native input handlers must be closures receiving a Topcoat Event".to_owned())
    } else if t.sort.is_none() {
        Err(requires_error("@sort"))
    } else if t.sort == Some(false) {
        Err("native input handlers must be closures receiving a Topcoat Event".to_owned())
    } else {
        Ok(())
    }
}


/// Reading the attributes `attrs` of a text input and then one more.
proof fn lemma_input_fold_push(b: InputAcc, attrs: Seq<AttributeView>, a: AttributeView)
    ensures
        input_fold(b, attrs.push(a)) == match input_fold(b, attrs) {
            Ok(m) => input_step(m, a),
            Err(e) => Err(e),
        },
    decreases attrs.len(),
{
    if attrs.len() == 0 {
        assert(attrs.push(a) =~= seq![a]);
        assert(seq![a].drop_first() =~= Seq::<AttributeView>::empty());
        match input_step(b, a) {
            Ok(next) => {
                assert(input_fold(next, Seq::<AttributeView>::empty()) == Ok::<InputAcc, Seq<char>>(next));
            },
            Err(_) => {},
        }
    } else {
        assert(attrs.push(a)[0] == attrs[0]);
        assert(attrs.push(a).drop_first() =~= attrs.drop_first().push(a));
        match input_step(b, attrs[0]) {
            Ok(next) => lemma_input_fold_push(next, attrs.drop_first(), a),
            Err(_) => {},
        }
    }
}

/// Reading the attributes `attrs` of a button and then one more.
proof fn lemma_button_fold_push(b: ButtonAcc, attrs: Seq<AttributeView>, a: AttributeView)
    ensures
        button_fold(b, attrs.push(a)) == match button_fold(b, attrs) {
            Ok(m) => button_step(m, a),
            Err(e) => Err(e),
        },
    decreases attrs.len(),
{
    if attrs.len() == 0 {
        assert(attrs.push(a) =~= seq![a]);
        assert(seq![a].drop_first() =~= Seq::<AttributeView>::empty());
        match button_step(b, a) {
            Ok(next) => {
                assert(button_fold(next, Seq::<AttributeView>::empty()) == Ok::<ButtonAcc, Seq<char>>(next));
            },
            Err(_) => {},
        }
    } else {
        assert(attrs.push(a)[0] == attrs[0]);
        assert(attrs.push(a).drop_first() =~= attrs.drop_first().push(a));
        match button_step(b, attrs[0]) {
            Ok(next) => lemma_button_fold_push(next, attrs.drop_first(), a),
            Err(_) => {},
        }
    }
}

/// The state a `disabled` attribute with value `v` gives a control: a
/// text literal disables it unless it reads `false`, and any other value
/// is an expression that decides at run time.
pub open spec fn disabled_by(v: ValueView) -> Flag {
    match v {
        ValueView::Text(t) => if t == "false"@ {
            Flag::Literal(false)
        } else {
            Flag::Literal(true)
        },
        _ => Flag::Expression,
    }
}

/// A plain `disabled` attribute with value `v`.
pub open spec fn disabled_attribute(v: ValueView) -> AttributeView {
    AttributeView { form: AttributeForm::Plain, key: Some("disabled"@), value: v }
}

/// Adding a `disabled` attribute to a text input sets only whether it is
/// disabled, to what the value says, and refuses nothing that was
/// accepted.
pub proof fn lemma_input_disabled(attrs: Seq<AttributeView>, v: ValueView)
    ensures
        input_result(attrs.push(disabled_attribute(v))) == match input_result(attrs) {
            Ok(r) => Ok(InputSpecView { disabled: Some(disabled_by(v)), ..r }),
            Err(e) => Err(e),
        },
{
    reveal_strlit("disabled");
    reveal_strlit("class");
    reveal_strlit("id");
    reveal_strlit("aria-label");
    reveal_strlit("title");
    reveal_strlit("value");
    reveal_strlit("placeholder");
    reveal_strlit("false");
    assert("disabled"@ != "class"@) by {
        assert("disabled"@[0] != "class"@[0]);
    }
    assert("disabled"@ != "id"@) by {
        assert("disabled"@[0] != "id"@[0]);
    }
    assert("disabled"@ != "aria-label"@) by {
        assert("disabled"@[0] != "aria-label"@[0]);
    }
    assert("disabled"@ != "title"@) by {
        assert("disabled"@[0] != "title"@[0]);
    }
    assert("disabled"@ != "value"@) by {
        assert("disabled"@[0] != "value"@[0]);
    }
    assert("disabled"@ != "placeholder"@) by {
        assert("disabled"@[0] != "placeholder"@[0]);
    }
    lemma_input_fold_push(no_input_attributes(), attrs, disabled_attribute(v));
}

/// Adding a `disabled` attribute to a button sets only whether it is
/// disabled, to what the value says, and refuses nothing that was
/// accepted.
pub proof fn lemma_button_disabled(children: Seq<NodeKind>, attrs: Seq<AttributeView>, v: ValueView)
    ensures
        button_result(children, attrs.push(disabled_attribute(v))) == match button_result(children, attrs) {
            Ok(r) => Ok(ButtonSpecView { disabled: Some(disabled_by(v)), ..r }),
            Err(e) => Err(e),
        },
{
    reveal_strlit("disabled");
    reveal_strlit("class");
    reveal_strlit("id");
    reveal_strlit("aria-label");
    reveal_strlit("title");
    reveal_strlit("false");
    assert("disabled"@ != "class"@) by {
        assert("disabled"@[0] != "class"@[0]);
    }
    assert("disabled"@ != "id"@) by {
        assert("disabled"@[0] != "id"@[0]);
    }
    assert("disabled"@ != "aria-label"@) by {
        assert("disabled"@[0] != "aria-label"@[0]);
    }
    assert("disabled"@ != "title"@) by {
        assert("disabled"@[0] != "title"@[0]);
    }
    lemma_button_fold_push(no_button_attributes(), attrs, disabled_attribute(v));
}

} // verus!
