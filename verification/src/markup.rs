//! The decisions the view lowering makes about markup: which native
//! control an element name becomes and what its class words ask for.
//! Spacing and width values must be numbers; they are kept as their text,
//! and scaling them into pixels is left to the code generator.
use vstd::prelude::*;
use crate::number::{float_text, numeric_text};
use crate::text::{chars_of, push_text, string_from, text_is};

verus! {

/// `char::is_whitespace`: the characters with the Unicode `White_Space`
/// property.
pub open spec fn is_white_space(c: char) -> bool {
    let k = c as u32;
    ||| 0x9 <= k && k <= 0xd
    ||| k == 0x20
    ||| k == 0x85
    ||| k == 0xa0
    ||| k == 0x1680
    ||| 0x2000 <= k && k <= 0x200a
    ||| k == 0x2028
    ||| k == 0x2029
    ||| k == 0x202f
    ||| k == 0x205f
    ||| k == 0x3000
}

fn white_space(c: char) -> (r: bool)
    ensures
        r == is_white_space(c),
{
    let k = c as u32;
    (0x9 <= k && k <= 0xd) || k == 0x20 || k == 0x85 || k == 0xa0 || k == 0x1680 || (0x2000 <= k
        && k <= 0x200a) || k == 0x2028 || k == 0x2029 || k == 0x202f || k == 0x205f || k == 0x3000
}

/// The words of `s` from position `i` on, given the word `word` being
/// read and the words `done` already read.
pub open spec fn words_from(s: Seq<char>, i: int, word: Seq<char>, done: Seq<Seq<char>>) -> Seq<
    Seq<char>,
>
    decreases s.len() - i,
{
    if i >= s.len() {
        if word.len() > 0 {
            done.push(word)
        } else {
            done
        }
    } else if is_white_space(s[i]) {
        words_from(
            s,
            i + 1,
            Seq::<char>::empty(),
            if word.len() > 0 {
                done.push(word)
            } else {
                done
            },
        )
    } else {
        words_from(s, i + 1, word.push(s[i]), done)
    }
}

/// The whitespace-separated words of `s`, as `str::split_whitespace`
/// yields them: no empty words.
pub open spec fn words(s: Seq<char>) -> Seq<Seq<char>> {
    words_from(s, 0, Seq::<char>::empty(), Seq::<Seq<char>>::empty())
}

/// Splits a class list into its words.
pub fn split_words(s: &str) -> (r: Vec<Vec<char>>)
    ensures
        r@.map_values(|w: Vec<char>| w@) == words(s@),
{
    let chars = chars_of(s);
    let mut done: Vec<Vec<char>> = Vec::new();
    let mut word: Vec<char> = Vec::new();
    let mut i: usize = 0;
    assert(done@.map_values(|w: Vec<char>| w@) =~= Seq::<Seq<char>>::empty());
    assert(word@ =~= Seq::<char>::empty());
    while i < chars.len()
        invariant
            i <= chars.len(),
            chars@ == s@,
            words(s@) == words_from(s@, i as int, word@, done@.map_values(|w: Vec<char>| w@)),
        decreases chars.len() - i,
    {
        let c = chars[i];
        if white_space(c) {
            if word.len() > 0 {
                let ghost prev = done@;
                done.push(word);
                assert(done@.map_values(|w: Vec<char>| w@) =~= prev.map_values(|w: Vec<char>| w@).push(
                    done@.last()@,
                ));
                word = Vec::new();
            } else {
                word = Vec::new();
            }
            assert(word@ =~= Seq::<char>::empty());
        } else {
            word.push(c);
        }
        i = i + 1;
    }
    if word.len() > 0 {
        let ghost prev = done@;
        done.push(word);
        assert(done@.map_values(|w: Vec<char>| w@) =~= prev.map_values(|w: Vec<char>| w@).push(
            done@.last()@,
        ));
    }
    done
}

/// What follows `p` in `t`, when `t` starts with `p`.
pub open spec fn after_prefix(t: Seq<char>, p: Seq<char>) -> Option<Seq<char>> {
    if p.len() <= t.len() && t.take(p.len() as int) == p {
        Some(t.skip(p.len() as int))
    } else {
        None
    }
}

fn strip_prefix(t: &Vec<char>, p: &str) -> (r: Option<Vec<char>>)
    ensures
        r matches Some(rest) ==> after_prefix(t@, p@) == Some(rest@),
        r is None ==> after_prefix(t@, p@) is None,
{
    let pc = chars_of(p);
    if pc.len() > t.len() {
        return None;
    }
    let mut i: usize = 0;
    while i < pc.len()
        invariant
            i <= pc.len(),
            pc.len() <= t.len(),
            pc@ == p@,
            forall|k: int| 0 <= k < i ==> t@[k] == pc@[k],
        decreases pc.len() - i,
    {
        if t[i] != pc[i] {
            assert(t@.take(pc.len() as int)[i as int] != p@[i as int]);
            return None;
        }
        i = i + 1;
    }
    assert(t@.take(pc.len() as int) =~= p@);
    let mut rest: Vec<char> = Vec::new();
    let mut j: usize = pc.len();
    while j < t.len()
        invariant
            pc.len() <= j <= t.len(),
            rest@ == t@.subrange(pc.len() as int, j as int),
        decreases t.len() - j,
    {
        rest.push(t[j]);
        assert(t@.subrange(pc.len() as int, j + 1) =~= t@.subrange(pc.len() as int, j as int).push(
            t@[j as int],
        ));
        j = j + 1;
    }
    assert(t@.subrange(pc.len() as int, t.len() as int) =~= t@.skip(pc.len() as int));
    Some(rest)
}

/// The text style a text element becomes.
#[derive(Clone, Copy, Debug, PartialEq, Eq, Structural)]
pub enum TextStyle {
    Title,
    Subtitle,
    BodyStrong,
    Body,
}

/// The native control an element becomes.
#[derive(Clone, Copy, Debug, PartialEq, Eq, Structural)]
pub enum ElementRole {
    Container,
    Text(TextStyle),
    Button,
    Input,
    Table,
}

pub open spec fn is_container_name(name: Seq<char>) -> bool {
    name == "main"@ || name == "div"@ || name == "section"@ || name == "article"@ || name
        == "header"@ || name == "footer"@ || name == "nav"@ || name == "form"@ || name == "ul"@
        || name == "li"@
}

/// The control an element name maps to, if any.
pub open spec fn role_of(name: Seq<char>) -> Option<ElementRole> {
    if is_container_name(name) {
        Some(ElementRole::Container)
    } else if name == "h1"@ {
        Some(ElementRole::Text(TextStyle::Title))
    } else if name == "h2"@ {
        Some(ElementRole::Text(TextStyle::Subtitle))
    } else if name == "h3"@ {
        Some(ElementRole::Text(TextStyle::BodyStrong))
    } else if name == "p"@ || name == "span"@ || name == "label"@ {
        Some(ElementRole::Text(TextStyle::Body))
    } else if name == "button"@ {
        Some(ElementRole::Button)
    } else if name == "input"@ {
        Some(ElementRole::Input)
    } else if name == "table"@ {
        Some(ElementRole::Table)
    } else {
        None
    }
}

/// The message for an element name with no native control.
pub open spec fn unmapped_element_message(name: Seq<char>) -> Seq<char> {
    "HTML element `<"@ + name + ">` has no WinUI mapping in this PoC"@
}

fn is_container(n: &Vec<char>) -> (r: bool)
    ensures
        r == is_container_name(n@),
{
    text_is(n, "main") || text_is(n, "div") || text_is(n, "section") || text_is(n, "article")
        || text_is(n, "header") || text_is(n, "footer") || text_is(n, "nav") || text_is(n, "form")
        || text_is(n, "ul") || text_is(n, "li")
}

/// Builds `before + middle + after`.
pub(crate) fn framed(before: &str, middle: &Vec<char>, after: &str) -> (r: String)
    ensures
        r@ == before@ + middle@ + after@,
{
    let mut out = chars_of(before);
    let mut rest = middle.clone();
    assert(rest@ == middle@) by {
        assert(rest@ =~= middle@);
    }
    out.append(&mut rest);
    push_text(&mut out, after);
    string_from(&out)
}

/// The message for an element whose name is computed.
pub open spec fn dynamic_element_message() -> Seq<char> {
    "dynamic element names cannot map safely to WinUI"@
}

/// The control for the element called `name`, or the message saying
/// there is none; `None` stands for a computed name, which never maps.
pub fn element_role(name: Option<&str>) -> (r: Result<ElementRole, String>)
    ensures
        r matches Ok(role) ==> name matches Some(n) && role_of(n@) == Some(role),
        r matches Err(message) ==> match name {
            None => message@ == dynamic_element_message(),
            Some(n) => role_of(n@) is None && message@ == unmapped_element_message(n@),
        },
{
    let name = match name {
        Some(n) => n,
        None => {
            return Err("dynamic element names cannot map safely to WinUI".to_owned());
        },
    };
    let n = chars_of(name);
    if is_container(&n) {
        Ok(ElementRole::Container)
    } else if text_is(&n, "h1") {
        Ok(ElementRole::Text(TextStyle::Title))
    } else if text_is(&n, "h2") {
        Ok(ElementRole::Text(TextStyle::Subtitle))
    } else if text_is(&n, "h3") {
        Ok(ElementRole::Text(TextStyle::BodyStrong))
    } else if text_is(&n, "p") || text_is(&n, "span") || text_is(&n, "label") {
        Ok(ElementRole::Text(TextStyle::Body))
    } else if text_is(&n, "button") {
        Ok(ElementRole::Button)
    } else if text_is(&n, "input") {
        Ok(ElementRole::Input)
    } else if text_is(&n, "table") {
        Ok(ElementRole::Table)
    } else {
        Err(framed("HTML element `<", &n, ">` has no WinUI mapping in this PoC"))
    }
}

pub open spec fn text_class_allowed(token: Seq<char>) -> bool {
    token == "font-bold"@ || token == "font-semibold"@
}

/// The first of the words that is not a known text class, if any.
pub open spec fn first_unknown_text_class(tokens: Seq<Seq<char>>) -> Option<Seq<char>>
    decreases tokens.len(),
{
    if tokens.len() == 0 {
        None
    } else if !text_class_allowed(tokens[0]) {
        Some(tokens[0])
    } else {
        first_unknown_text_class(tokens.drop_first())
    }
}

/// Checks the classes of a text element: only `font-bold` and
/// `font-semibold` are known.
pub fn check_text_classes(class: &str) -> (r: Result<(), String>)
    ensures
        r is Ok <==> first_unknown_text_class(words(class@)) is None,
        r matches Err(message) ==> first_unknown_text_class(words(class@)) matches Some(t)
            && message@ == "class `"@ + t + "` has no native text mapping"@,
{
    let tokens = split_words(class);
    let ghost ws = tokens@.map_values(|w: Vec<char>| w@);
    assert(ws.skip(0) =~= ws);
    let mut i: usize = 0;
    while i < tokens.len()
        invariant
            i <= tokens.len(),
            ws == tokens@.map_values(|w: Vec<char>| w@),
            ws == words(class@),
            first_unknown_text_class(ws) == first_unknown_text_class(ws.skip(i as int)),
        decreases tokens.len() - i,
    {
        let token = &tokens[i];
        assert(ws.skip(i as int)[0] == token@);
        assert(ws.skip(i as int).drop_first() =~= ws.skip(i + 1));
        if !(text_is(token, "font-bold") || text_is(token, "font-semibold")) {
            return Err(framed("class `", token, "` has no native text mapping"));
        }
        i = i + 1;
    }
    assert(ws.skip(i as int).len() == 0);
    Ok(())
}

/// What one class word of a container asks for.
pub enum LayoutWord {
    Horizontal,
    Vertical,
    Gap(Seq<char>),
    SpaceY(Seq<char>),
    SpaceX(Seq<char>),
    Padding(Seq<char>),
    Width(Seq<char>),
    Unknown,
}

pub open spec fn layout_word(t: Seq<char>) -> LayoutWord {
    if t == "flex"@ || t == "flex-row"@ {
        LayoutWord::Horizontal
    } else if t == "flex-col"@ {
        LayoutWord::Vertical
    } else if after_prefix(t, "gap-"@) is Some {
        LayoutWord::Gap(after_prefix(t, "gap-"@)->0)
    } else if after_prefix(t, "space-y-"@) is Some {
        LayoutWord::SpaceY(after_prefix(t, "space-y-"@)->0)
    } else if after_prefix(t, "space-x-"@) is Some {
        LayoutWord::SpaceX(after_prefix(t, "space-x-"@)->0)
    } else if after_prefix(t, "p-"@) is Some {
        LayoutWord::Padding(after_prefix(t, "p-"@)->0)
    } else if after_prefix(t, "w-"@) is Some {
        LayoutWord::Width(after_prefix(t, "w-"@)->0)
    } else {
        LayoutWord::Unknown
    }
}

/// The layout a container's classes ask for; spacing, padding and width
/// are the texts after their prefixes, in Tailwind units.
#[derive(Clone, Debug, PartialEq, Eq)]
pub struct LayoutClasses {
    pub horizontal: bool,
    pub spacing: Option<String>,
    pub padding: Option<String>,
    pub width: Option<String>,
}

pub struct LayoutView {
    pub horizontal: bool,
    pub spacing: Option<Seq<char>>,
    pub padding: Option<Seq<char>>,
    pub width: Option<Seq<char>>,
}

pub open spec fn opt_text(o: Option<String>) -> Option<Seq<char>> {
    match o {
        Some(s) => Some(s@),
        None => None,
    }
}

impl View for LayoutClasses {
    type V = LayoutView;

    open spec fn view(&self) -> LayoutView {
        LayoutView {
            horizontal: self.horizontal,
            spacing: opt_text(self.spacing),
            padding: opt_text(self.padding),
            width: opt_text(self.width),
        }
    }
}

/// The layout after one more known word; later words win.
pub open spec fn apply_layout_word(l: LayoutView, w: LayoutWord) -> LayoutView {
    match w {
        LayoutWord::Horizontal => LayoutView { horizontal: true, ..l },
        LayoutWord::Vertical => LayoutView { horizontal: false, ..l },
        LayoutWord::Gap(n) => LayoutView { spacing: Some(n), ..l },
        LayoutWord::SpaceY(n) => LayoutView { horizontal: false, spacing: Some(n), ..l },
        LayoutWord::SpaceX(n) => LayoutView { horizontal: true, spacing: Some(n), ..l },
        LayoutWord::Padding(n) => LayoutView { padding: Some(n), ..l },
        LayoutWord::Width(n) => LayoutView { width: Some(n), ..l },
        LayoutWord::Unknown => l,
    }
}

/// The number text a layout word carries, if it carries one.
pub open spec fn layout_number(w: LayoutWord) -> Option<Seq<char>> {
    match w {
        LayoutWord::Gap(n) => Some(n),
        LayoutWord::SpaceY(n) => Some(n),
        LayoutWord::SpaceX(n) => Some(n),
        LayoutWord::Padding(n) => Some(n),
        LayoutWord::Width(n) => Some(n),
        _ => None,
    }
}

/// The message for a spacing or width class whose suffix is no number.
pub open spec fn not_numeric_message(t: Seq<char>) -> Seq<char> {
    "class `"@ + t + "` requires a numeric spacing suffix"@
}

/// The layout the words ask for, starting from `l`, or the message for
/// the first word that has no meaning or whose suffix is no number.
pub open spec fn layout_of(l: LayoutView, tokens: Seq<Seq<char>>) -> Result<LayoutView, Seq<char>>
    decreases tokens.len(),
{
    if tokens.len() == 0 {
        Ok(l)
    } else if layout_word(tokens[0]) is Unknown {
        Err("layout class `"@ + tokens[0] + "` has no WinUI mapping"@)
    } else if layout_number(layout_word(tokens[0])) matches Some(n) && !float_text(n) {
        Err(not_numeric_message(tokens[0]))
    } else {
        layout_of(apply_layout_word(l, layout_word(tokens[0])), tokens.drop_first())
    }
}

pub open spec fn no_layout() -> LayoutView {
    LayoutView { horizontal: false, spacing: None, padding: None, width: None }
}

pub(crate) fn text_of(v: Vec<char>) -> (r: String)
    ensures
        r@ == v@,
{
    string_from(&v)
}

/// The suffix of the class `token` as a number text, or the message
/// saying it is none.
fn spacing_text(token: &Vec<char>, n: Vec<char>) -> (r: Result<String, String>)
    ensures
        r matches Ok(t) ==> float_text(n@) && t@ == n@,
        r matches Err(m) ==> !float_text(n@) && m@ == not_numeric_message(token@),
{
    if numeric_text(&n) {
        Ok(text_of(n))
    } else {
        Err(framed("class `", token, "` requires a numeric spacing suffix"))
    }
}

/// Reads the classes of a container: its direction, spacing, padding and
/// width, or the message for the first class it cannot map or whose
/// suffix is no number.
pub fn layout_classes(class: &str) -> (r: Result<LayoutClasses, String>)
    ensures
        r matches Ok(l) ==> layout_of(no_layout(), words(class@)) == Ok::<LayoutView, Seq<char>>(l@),
        r matches Err(message) ==> layout_of(no_layout(), words(class@)) == Err::<LayoutView, Seq<char>>(message@),
{
    let tokens = split_words(class);
    let ghost ws = tokens@.map_values(|w: Vec<char>| w@);
    let mut layout = LayoutClasses { horizontal: false, spacing: None, padding: None, width: None };
    assert(ws.skip(0) =~= ws);
    let mut i: usize = 0;
    while i < tokens.len()
        invariant
            i <= tokens.len(),
            ws == tokens@.map_values(|w: Vec<char>| w@),
            ws == words(class@),
            layout_of(no_layout(), ws) == layout_of(layout@, ws.skip(i as int)),
        decreases tokens.len() - i,
    {
        let token = &tokens[i];
        assert(ws.skip(i as int)[0] == token@);
        assert(ws.skip(i as int).drop_first() =~= ws.skip(i + 1));
        let ghost before = layout@;
        if text_is(token, "flex") || text_is(token, "flex-row") {
            layout.horizontal = true;
        } else if text_is(token, "flex-col") {
            layout.horizontal = false;
        } else if let Some(n) = strip_prefix(token, "gap-") {
            match spacing_text(token, n) {
                Ok(t) => {
                    layout.spacing = Some(t);
                },
                Err(m) => {
                    return Err(m);
                },
            }
        } else if let Some(n) = strip_prefix(token, "space-y-") {
            match spacing_text(token, n) {
                Ok(t) => {
                    layout.horizontal = false;
                    layout.spacing = Some(t);
                },
                Err(m) => {
                    return Err(m);
                },
            }
        } else if let Some(n) = strip_prefix(token, "space-x-") {
            match spacing_text(token, n) {
                Ok(t) => {
                    layout.horizontal = true;
                    layout.spacing = Some(t);
                },
                Err(m) => {
                    return Err(m);
                },
            }
        } else if let Some(n) = strip_prefix(token, "p-") {
            match spacing_text(token, n) {
                Ok(t) => {
                    layout.padding = Some(t);
                },
                Err(m) => {
                    return Err(m);
                },
            }
        } else if let Some(n) = strip_prefix(token, "w-") {
            match spacing_text(token, n) {
                Ok(t) => {
                    layout.width = Some(t);
                },
                Err(m) => {
                    return Err(m);
                },
            }
        } else {
            return Err(framed("layout class `", token, "` has no WinUI mapping"));
        }
        assert(layout@ == apply_layout_word(before, layout_word(token@)));
        i = i + 1;
    }
    assert(ws.skip(i as int).len() == 0);
    Ok(layout)
}

/// The look a button class asks for.
#[derive(Clone, Copy, Debug, PartialEq, Eq, Structural)]
pub enum ButtonStyle {
    Accent,
    Subtle,
}

/// What one class word of a button asks for: a style, a width, or
/// nothing known.
pub enum ButtonWord {
    Style(ButtonStyle),
    Width(Seq<char>),
    Unknown,
}

pub open spec fn button_word(t: Seq<char>) -> ButtonWord {
    if t == "primary"@ || t == "btn-primary"@ {
        ButtonWord::Style(ButtonStyle::Accent)
    } else if t == "secondary"@ || t == "btn-secondary"@ || t == "nav"@ || t == "toolbar"@ {
        ButtonWord::Style(ButtonStyle::Subtle)
    } else if after_prefix(t, "w-"@) is Some {
        ButtonWord::Width(after_prefix(t, "w-"@)->0)
    } else {
        ButtonWord::Unknown
    }
}

/// The styles a button's classes apply, in order, and its width text.
#[derive(Clone, Debug, PartialEq, Eq)]
pub struct ButtonClasses {
    pub styles: Vec<ButtonStyle>,
    pub width: Option<String>,
}

pub struct ButtonView {
    pub styles: Seq<ButtonStyle>,
    pub width: Option<Seq<char>>,
}

impl View for ButtonClasses {
    type V = ButtonView;

    open spec fn view(&self) -> ButtonView {
        ButtonView { styles: self.styles@, width: opt_text(self.width) }
    }
}

/// The button look the words ask for, starting from `b`, or the message
/// for the first word that has no meaning or whose width is no number.
pub open spec fn button_of(b: ButtonView, tokens: Seq<Seq<char>>) -> Result<ButtonView, Seq<char>>
    decreases tokens.len(),
{
    if tokens.len() == 0 {
        Ok(b)
    } else {
        match button_word(tokens[0]) {
            ButtonWord::Unknown => Err("button class `"@ + tokens[0] + "` has no native mapping"@),
            ButtonWord::Style(s) => button_of(ButtonView { styles: b.styles.push(s), ..b }, tokens.drop_first()),
            ButtonWord::Width(n) => if float_text(n) {
                button_of(ButtonView { width: Some(n), ..b }, tokens.drop_first())
            } else {
                Err(not_numeric_message(tokens[0]))
            },
        }
    }
}

pub open spec fn plain_button() -> ButtonView {
    ButtonView { styles: Seq::<ButtonStyle>::empty(), width: None }
}

/// Reads the classes of a button, or the message for the first class it
/// cannot map or whose width is no number.
pub fn button_classes(class: &str) -> (r: Result<ButtonClasses, String>)
    ensures
        r matches Ok(b) ==> button_of(plain_button(), words(class@)) == Ok::<ButtonView, Seq<char>>(b@),
        r matches Err(message) ==> button_of(plain_button(), words(class@)) == Err::<ButtonView, Seq<char>>(message@),
{
    let tokens = split_words(class);
    let ghost ws = tokens@.map_values(|w: Vec<char>| w@);
    let mut result = ButtonClasses { styles: Vec::new(), width: None };
    assert(result@.styles =~= Seq::<ButtonStyle>::empty());
    assert(ws.skip(0) =~= ws);
    let mut i: usize = 0;
    while i < tokens.len()
        invariant
            i <= tokens.len(),
            ws == tokens@.map_values(|w: Vec<char>| w@),
            ws == words(class@),
            button_of(plain_button(), ws) == button_of(result@, ws.skip(i as int)),
        decreases tokens.len() - i,
    {
        let token = &tokens[i];
        assert(ws.skip(i as int)[0] == token@);
        assert(ws.skip(i as int).drop_first() =~= ws.skip(i + 1));
        if text_is(token, "primary") || text_is(token, "btn-primary") {
            result.styles.push(ButtonStyle::Accent);
        } else if text_is(token, "secondary") || text_is(token, "btn-secondary") || text_is(
            token,
            "nav",
        ) || text_is(token, "toolbar") {
            result.styles.push(ButtonStyle::Subtle);
        } else if let Some(n) = strip_prefix(token, "w-") {
            match spacing_text(token, n) {
                Ok(t) => {
                    result.width = Some(t);
                },
                Err(m) => {
                    return Err(m);
                },
            }
        } else {
            return Err(framed("button class `", token, "` has no native mapping"));
        }
        i = i + 1;
    }
    assert(ws.skip(i as int).len() == 0);
    Ok(result)
}

/// The width the words of a text input's classes ask for, starting from
/// `w`, or the message for the first word that is no width or whose width
/// is no number.
pub open spec fn input_width_of(w: Option<Seq<char>>, tokens: Seq<Seq<char>>) -> Result<
    Option<Seq<char>>,
    Seq<char>,
>
    decreases tokens.len(),
{
    if tokens.len() == 0 {
        Ok(w)
    } else if after_prefix(tokens[0], "w-"@) is Some {
        if float_text(after_prefix(tokens[0], "w-"@)->0) {
            input_width_of(Some(after_prefix(tokens[0], "w-"@)->0), tokens.drop_first())
        } else {
            Err(not_numeric_message(tokens[0]))
        }
    } else {
        Err("input class `"@ + tokens[0] + "` has no native mapping"@)
    }
}

/// Reads the classes of a text input: only a width is known; the last
/// width wins.
pub fn input_width(class: &str) -> (r: Result<Option<String>, String>)
    ensures
        r matches Ok(w) ==> input_width_of(None, words(class@)) == Ok::<Option<Seq<char>>, Seq<char>>(opt_text(w)),
        r matches Err(message) ==> input_width_of(None, words(class@)) == Err::<Option<Seq<char>>, Seq<char>>(message@),
{
    let tokens = split_words(class);
    let ghost ws = tokens@.map_values(|w: Vec<char>| w@);
    let mut width: Option<String> = None;
    assert(ws.skip(0) =~= ws);
    let mut i: usize = 0;
    while i < tokens.len()
        invariant
            i <= tokens.len(),
            ws == tokens@.map_values(|w: Vec<char>| w@),
            ws == words(class@),
            input_width_of(None, ws) == input_width_of(opt_text(width), ws.skip(i as int)),
        decreases tokens.len() - i,
    {
        let token = &tokens[i];
        assert(ws.skip(i as int)[0] == token@);
        assert(ws.skip(i as int).drop_first() =~= ws.skip(i + 1));
        match strip_prefix(token, "w-") {
            Some(n) => match spacing_text(token, n) {
                Ok(t) => {
                    width = Some(t);
                },
                Err(m) => {
                    return Err(m);
                },
            },
            None => {
                return Err(framed("input class `", token, "` has no native mapping"));
            },
        }
        i = i + 1;
    }
    assert(ws.skip(i as int).len() == 0);
    Ok(width)
}


/// Reading the words `tokens` and then one more word `w` reads `w` in the
/// layout the first words gave, unless they already failed.
pub proof fn lemma_layout_of_push(l: LayoutView, tokens: Seq<Seq<char>>, w: Seq<char>)
    ensures
        layout_of(l, tokens.push(w)) == match layout_of(l, tokens) {
            Ok(m) => layout_of(m, seq![w]),
            Err(e) => Err(e),
        },
    decreases tokens.len(),
{
    if tokens.len() == 0 {
        assert(tokens.push(w) =~= seq![w]);
    } else {
        assert(tokens.push(w)[0] == tokens[0]);
        assert(tokens.push(w).drop_first() =~= tokens.drop_first().push(w));
        let t = tokens[0];
        if !(layout_word(t) is Unknown) && !(layout_number(layout_word(t)) matches Some(n) && !float_text(n)) {
            lemma_layout_of_push(apply_layout_word(l, layout_word(t)), tokens.drop_first(), w);
        }
    }
}

/// Reading a single word.
proof fn lemma_layout_of_one(l: LayoutView, t: Seq<char>)
    ensures
        layout_of(l, seq![t]) == if layout_word(t) is Unknown {
            Err("layout class `"@ + t + "` has no WinUI mapping"@)
        } else if layout_number(layout_word(t)) matches Some(n) && !float_text(n) {
            Err(not_numeric_message(t))
        } else {
            Ok(apply_layout_word(l, layout_word(t)))
        },
{
    assert(seq![t][0] == t);
    assert(seq![t].drop_first() =~= Seq::<Seq<char>>::empty());
    let m = apply_layout_word(l, layout_word(t));
    assert(layout_of(m, Seq::<Seq<char>>::empty()) == Ok::<LayoutView, Seq<char>>(m));
}

/// What each container class word does to the layout read before it:
/// `flex` and `flex-row` make it horizontal, `flex-col` vertical, `gap-N`
/// sets only the spacing, `space-y-N` and `space-x-N` set the spacing and
/// the direction, `p-N` only the padding and `w-N` only the width; a
/// suffix that is no number is refused.
pub proof fn lemma_layout_words(l: LayoutView, n: Seq<char>)
    ensures
        layout_of(l, seq!["flex"@]) == Ok::<LayoutView, Seq<char>>(LayoutView { horizontal: true, ..l }),
        layout_of(l, seq!["flex-row"@]) == Ok::<LayoutView, Seq<char>>(LayoutView { horizontal: true, ..l }),
        layout_of(l, seq!["flex-col"@]) == Ok::<LayoutView, Seq<char>>(LayoutView { horizontal: false, ..l }),
        float_text(n) ==> layout_of(l, seq!["gap-"@ + n]) == Ok::<LayoutView, Seq<char>>(
            LayoutView { spacing: Some(n), ..l },
        ),
        float_text(n) ==> layout_of(l, seq!["space-y-"@ + n]) == Ok::<LayoutView, Seq<char>>(
            LayoutView { horizontal: false, spacing: Some(n), ..l },
        ),
        float_text(n) ==> layout_of(l, seq!["space-x-"@ + n]) == Ok::<LayoutView, Seq<char>>(
            LayoutView { horizontal: true, spacing: Some(n), ..l },
        ),
        float_text(n) ==> layout_of(l, seq!["p-"@ + n]) == Ok::<LayoutView, Seq<char>>(
            LayoutView { padding: Some(n), ..l },
        ),
        float_text(n) ==> layout_of(l, seq!["w-"@ + n]) == Ok::<LayoutView, Seq<char>>(
            LayoutView { width: Some(n), ..l },
        ),
        !float_text(n) ==> layout_of(l, seq!["gap-"@ + n]) == Err::<LayoutView, Seq<char>>(
            "class `"@ + ("gap-"@ + n) + "` requires a numeric spacing suffix"@,
        ),
        !float_text(n) ==> layout_of(l, seq!["w-"@ + n]) == Err::<LayoutView, Seq<char>>(
            "class `"@ + ("w-"@ + n) + "` requires a numeric spacing suffix"@,
        ),
{
    reveal_strlit("flex");
    reveal_strlit("flex-row");
    reveal_strlit("flex-col");
    reveal_strlit("gap-");
    reveal_strlit("space-y-");
    reveal_strlit("space-x-");
    reveal_strlit("p-");
    reveal_strlit("w-");
    let g = "gap-"@ + n;
    let sy = "space-y-"@ + n;
    let sx = "space-x-"@ + n;
    let p = "p-"@ + n;
    let w = "w-"@ + n;
    assert("flex-row"@ != "flex"@);
    assert("flex-col"@ != "flex"@ && "flex-col"@ != "flex-row"@) by {
        assert("flex-col"@[5] != "flex-row"@[5]);
    }
    assert(layout_word("flex"@) == LayoutWord::Horizontal);
    assert(layout_word("flex-row"@) == LayoutWord::Horizontal);
    assert(layout_word("flex-col"@) == LayoutWord::Vertical);
    assert(g[0] == 'g' && sy[0] == 's' && sx[0] == 's' && p[0] == 'p' && w[0] == 'w');
    assert(sy[6] == 'y' && sx[6] == 'x');
    assert(g != "flex"@ && g != "flex-row"@ && g != "flex-col"@);
    assert(sy != "flex"@ && sy != "flex-row"@ && sy != "flex-col"@);
    assert(sx != "flex"@ && sx != "flex-row"@ && sx != "flex-col"@);
    assert(p != "flex"@ && p != "flex-row"@ && p != "flex-col"@);
    assert(w != "flex"@ && w != "flex-row"@ && w != "flex-col"@);
    assert(g.take(4) =~= "gap-"@ && g.skip(4) =~= n);
    assert(sy.take(8) =~= "space-y-"@ && sy.skip(8) =~= n);
    assert(sx.take(8) =~= "space-x-"@ && sx.skip(8) =~= n);
    assert(p.take(2) =~= "p-"@ && p.skip(2) =~= n);
    assert(w.take(2) =~= "w-"@ && w.skip(2) =~= n);
    assert(sy.take(4) != "gap-"@) by {
        assert(sy.take(4)[0] != "gap-"@[0]);
    }
    assert(sx.take(4) != "gap-"@) by {
        assert(sx.take(4)[0] != "gap-"@[0]);
    }
    assert(sx.take(8) != "space-y-"@) by {
        assert(sx.take(8)[6] != "space-y-"@[6]);
    }
    assert(p.len() < 4 || p.take(4) != "gap-"@) by {
        if p.len() >= 4 {
            assert(p.take(4)[0] != "gap-"@[0]);
        }
    }
    assert(p.len() < 8 || (p.take(8) != "space-y-"@ && p.take(8) != "space-x-"@)) by {
        if p.len() >= 8 {
            assert(p.take(8)[0] != "space-y-"@[0]);
        }
    }
    assert(w.len() < 4 || w.take(4) != "gap-"@) by {
        if w.len() >= 4 {
            assert(w.take(4)[0] != "gap-"@[0]);
        }
    }
    assert(w.len() < 8 || (w.take(8) != "space-y-"@ && w.take(8) != "space-x-"@)) by {
        if w.len() >= 8 {
            assert(w.take(8)[0] != "space-y-"@[0]);
        }
    }
    assert(w.take(2) != "p-"@) by {
        assert(w.take(2)[0] != "p-"@[0]);
    }
    assert(layout_word(g) == LayoutWord::Gap(n));
    assert(layout_word(sy) == LayoutWord::SpaceY(n));
    assert(layout_word(sx) == LayoutWord::SpaceX(n));
    assert(layout_word(p) == LayoutWord::Padding(n));
    assert(layout_word(w) == LayoutWord::Width(n));
    lemma_layout_of_one(l, "flex"@);
    lemma_layout_of_one(l, "flex-row"@);
    lemma_layout_of_one(l, "flex-col"@);
    lemma_layout_of_one(l, g);
    lemma_layout_of_one(l, sy);
    lemma_layout_of_one(l, sx);
    lemma_layout_of_one(l, p);
    lemma_layout_of_one(l, w);
}

/// A word that makes a container horizontal: `flex`, `flex-row`, or one
/// starting with `space-x-`.
pub open spec fn makes_horizontal(t: Seq<char>) -> bool {
    t == "flex"@ || t == "flex-row"@ || (t.len() >= 8 && t.take(8) == "space-x-"@)
}

/// A container is a vertical stack unless one of its words makes it
/// horizontal.
pub proof fn lemma_vertical_by_default(l: LayoutView, tokens: Seq<Seq<char>>)
    requires
        !l.horizontal,
        forall|i: int| 0 <= i < tokens.len() ==> !makes_horizontal(#[trigger] tokens[i]),
    ensures
        layout_of(l, tokens) matches Ok(r) ==> !r.horizontal,
    decreases tokens.len(),
{
    reveal_strlit("space-x-");
    if tokens.len() > 0 {
        let t = tokens[0];
        assert(!makes_horizontal(tokens[0]));
        assert forall|i: int| 0 <= i < tokens.drop_first().len() implies !makes_horizontal(
            #[trigger] tokens.drop_first()[i],
        ) by {
            assert(tokens.drop_first()[i] == tokens[i + 1]);
        }
        lemma_vertical_by_default(apply_layout_word(l, layout_word(t)), tokens.drop_first());
    }
}


/// Reading a single button word.
proof fn lemma_button_of_one(b: ButtonView, t: Seq<char>)
    ensures
        button_of(b, seq![t]) == match button_word(t) {
            ButtonWord::Unknown => Err("button class `"@ + t + "` has no native mapping"@),
            ButtonWord::Style(s) => Ok(ButtonView { styles: b.styles.push(s), ..b }),
            ButtonWord::Width(n) => if float_text(n) {
                Ok(ButtonView { width: Some(n), ..b })
            } else {
                Err(not_numeric_message(t))
            },
        },
{
    assert(seq![t][0] == t);
    assert(seq![t].drop_first() =~= Seq::<Seq<char>>::empty());
    match button_word(t) {
        ButtonWord::Style(s) => {
            let c = ButtonView { styles: b.styles.push(s), ..b };
            assert(button_of(c, Seq::<Seq<char>>::empty()) == Ok::<ButtonView, Seq<char>>(c));
        },
        ButtonWord::Width(n) => {
            let c = ButtonView { width: Some(n), ..b };
            assert(button_of(c, Seq::<Seq<char>>::empty()) == Ok::<ButtonView, Seq<char>>(c));
        },
        ButtonWord::Unknown => {},
    }
}

/// What each button class word does: `primary` and `btn-primary` add the
/// accent style, `secondary`, `btn-secondary`, `nav` and `toolbar` the
/// subtle one, `w-N` sets only the width, and a width that is no number
/// is refused.
pub proof fn lemma_button_words(b: ButtonView, n: Seq<char>)
    ensures
        button_of(b, seq!["primary"@]) == Ok::<ButtonView, Seq<char>>(
            ButtonView { styles: b.styles.push(ButtonStyle::Accent), ..b },
        ),
        button_of(b, seq!["btn-primary"@]) == Ok::<ButtonView, Seq<char>>(
            ButtonView { styles: b.styles.push(ButtonStyle::Accent), ..b },
        ),
        button_of(b, seq!["secondary"@]) == Ok::<ButtonView, Seq<char>>(
            ButtonView { styles: b.styles.push(ButtonStyle::Subtle), ..b },
        ),
        button_of(b, seq!["btn-secondary"@]) == Ok::<ButtonView, Seq<char>>(
            ButtonView { styles: b.styles.push(ButtonStyle::Subtle), ..b },
        ),
        button_of(b, seq!["nav"@]) == Ok::<ButtonView, Seq<char>>(
            ButtonView { styles: b.styles.push(ButtonStyle::Subtle), ..b },
        ),
        button_of(b, seq!["toolbar"@]) == Ok::<ButtonView, Seq<char>>(
            ButtonView { styles: b.styles.push(ButtonStyle::Subtle), ..b },
        ),
        float_text(n) ==> button_of(b, seq!["w-"@ + n]) == Ok::<ButtonView, Seq<char>>(
            ButtonView { width: Some(n), ..b },
        ),
        !float_text(n) ==> button_of(b, seq!["w-"@ + n]) == Err::<ButtonView, Seq<char>>(
            "class `"@ + ("w-"@ + n) + "` requires a numeric spacing suffix"@,
        ),
{
    reveal_strlit("primary");
    reveal_strlit("btn-primary");
    reveal_strlit("secondary");
    reveal_strlit("btn-secondary");
    reveal_strlit("nav");
    reveal_strlit("toolbar");
    reveal_strlit("w-");
    let w = "w-"@ + n;
    assert(w[0] == 'w');
    assert(w != "primary"@ && w != "btn-primary"@ && w != "secondary"@ && w != "btn-secondary"@
        && w != "nav"@ && w != "toolbar"@);
    assert(w.take(2) =~= "w-"@ && w.skip(2) =~= n);
    assert("secondary"@ != "primary"@ && "secondary"@ != "btn-primary"@);
    assert("btn-secondary"@ != "primary"@ && "btn-secondary"@ != "btn-primary"@) by {
        assert("btn-secondary"@[4] != "btn-primary"@[4]);
    }
    assert("nav"@ != "primary"@ && "nav"@ != "btn-primary"@);
    assert("toolbar"@ != "primary"@ && "toolbar"@ != "btn-primary"@) by {
        assert("toolbar"@[0] != "primary"@[0]);
    }
    assert(button_word("primary"@) == ButtonWord::Style(ButtonStyle::Accent));
    assert(button_word("btn-primary"@) == ButtonWord::Style(ButtonStyle::Accent));
    assert(button_word("secondary"@) == ButtonWord::Style(ButtonStyle::Subtle));
    assert(button_word("btn-secondary"@) == ButtonWord::Style(ButtonStyle::Subtle));
    assert(button_word("nav"@) == ButtonWord::Style(ButtonStyle::Subtle));
    assert(button_word("toolbar"@) == ButtonWord::Style(ButtonStyle::Subtle));
    assert(button_word(w) == ButtonWord::Width(n));
    lemma_button_of_one(b, "primary"@);
    lemma_button_of_one(b, "btn-primary"@);
    lemma_button_of_one(b, "secondary"@);
    lemma_button_of_one(b, "btn-secondary"@);
    lemma_button_of_one(b, "nav"@);
    lemma_button_of_one(b, "toolbar"@);
    lemma_button_of_one(b, w);
}

/// A text input's classes: `w-N` sets the width, later widths win, any
/// other word is refused, and a width that is no number is refused.
pub proof fn lemma_input_width_word(w: Option<Seq<char>>, n: Seq<char>, t: Seq<char>)
    ensures
        float_text(n) ==> input_width_of(w, seq!["w-"@ + n]) == Ok::<Option<Seq<char>>, Seq<char>>(Some(n)),
        !float_text(n) ==> input_width_of(w, seq!["w-"@ + n]) == Err::<Option<Seq<char>>, Seq<char>>(
            "class `"@ + ("w-"@ + n) + "` requires a numeric spacing suffix"@,
        ),
        (t.len() < 2 || t[0] != 'w' || t[1] != '-') ==> input_width_of(w, seq![t]) == Err::<
            Option<Seq<char>>,
            Seq<char>,
        >("input class `"@ + t + "` has no native mapping"@),
{
    reveal_strlit("w-");
    let x = "w-"@ + n;
    assert(x.take(2) =~= "w-"@ && x.skip(2) =~= n);
    assert(seq![x][0] == x && seq![t][0] == t);
    assert(seq![x].drop_first() =~= Seq::<Seq<char>>::empty());
    assert(input_width_of(Some(n), Seq::<Seq<char>>::empty()) == Ok::<Option<Seq<char>>, Seq<char>>(Some(n)));
    if t.len() >= 2 && t.take(2) == "w-"@ {
        assert(t[0] == t.take(2)[0] && t[1] == t.take(2)[1]);
    }
}


/// The lengths and first letters of the container names.
proof fn lemma_container_name_shape(n: Seq<char>)
    ensures
        is_container_name(n) ==> {
            &&& n.len() != 1 && n.len() != 5
            &&& n.len() == 2 ==> n[0] == 'u' || n[0] == 'l'
            &&& n.len() == 4 ==> n[0] == 'm' || n[0] == 'f'
            &&& n.len() == 6 ==> n[0] == 'h' || n[0] == 'f'
        },
{
    reveal_strlit("main");
    reveal_strlit("div");
    reveal_strlit("section");
    reveal_strlit("article");
    reveal_strlit("header");
    reveal_strlit("footer");
    reveal_strlit("nav");
    reveal_strlit("form");
    reveal_strlit("ul");
    reveal_strlit("li");
}

/// The elements the lowering knows and the control each becomes: the
/// layout elements are containers, `h1`, `h2` and `h3` titles, subtitles
/// and strong body text, `p`, `span` and `label` body text, and `button`,
/// `input` and `table` their own controls. No other name maps.
pub proof fn lemma_element_roles(n: Seq<char>)
    ensures
        role_of("main"@) == Some(ElementRole::Container),
        role_of("div"@) == Some(ElementRole::Container),
        role_of("section"@) == Some(ElementRole::Container),
        role_of("article"@) == Some(ElementRole::Container),
        role_of("header"@) == Some(ElementRole::Container),
        role_of("footer"@) == Some(ElementRole::Container),
        role_of("nav"@) == Some(ElementRole::Container),
        role_of("form"@) == Some(ElementRole::Container),
        role_of("ul"@) == Some(ElementRole::Container),
        role_of("li"@) == Some(ElementRole::Container),
        role_of("h1"@) == Some(ElementRole::Text(TextStyle::Title)),
        role_of("h2"@) == Some(ElementRole::Text(TextStyle::Subtitle)),
        role_of("h3"@) == Some(ElementRole::Text(TextStyle::BodyStrong)),
        role_of("p"@) == Some(ElementRole::Text(TextStyle::Body)),
        role_of("span"@) == Some(ElementRole::Text(TextStyle::Body)),
        role_of("label"@) == Some(ElementRole::Text(TextStyle::Body)),
        role_of("button"@) == Some(ElementRole::Button),
        role_of("input"@) == Some(ElementRole::Input),
        role_of("table"@) == Some(ElementRole::Table),
        role_of(n) is Some ==> (n == "main"@ || n == "div"@ || n == "section"@ || n == "article"@ || n == "header"@ || n == "footer"@ || n == "nav"@ || n == "form"@ || n == "ul"@ || n == "li"@ || n == "h1"@ || n == "h2"@ || n == "h3"@ || n == "p"@ || n == "span"@ || n == "label"@ || n == "button"@ || n == "input"@ || n == "table"@),
{
    reveal_strlit("main");
    reveal_strlit("div");
    reveal_strlit("section");
    reveal_strlit("article");
    reveal_strlit("header");
    reveal_strlit("footer");
    reveal_strlit("nav");
    reveal_strlit("form");
    reveal_strlit("ul");
    reveal_strlit("li");
    reveal_strlit("h1");
    reveal_strlit("h2");
    reveal_strlit("h3");
    reveal_strlit("p");
    reveal_strlit("span");
    reveal_strlit("label");
    reveal_strlit("button");
    reveal_strlit("input");
    reveal_strlit("table");
    lemma_container_name_shape("h1"@);
    assert("h1"@[0] == 'h');
    lemma_container_name_shape("h2"@);
    assert("h2"@[0] == 'h');
    lemma_container_name_shape("h3"@);
    assert("h3"@[0] == 'h');
    lemma_container_name_shape("p"@);
    assert("p"@[0] == 'p');
    lemma_container_name_shape("span"@);
    assert("span"@[0] == 's');
    lemma_container_name_shape("label"@);
    assert("label"@[0] == 'l');
    lemma_container_name_shape("button"@);
    assert("button"@[0] == 'b');
    lemma_container_name_shape("input"@);
    assert("input"@[0] == 'i');
    lemma_container_name_shape("table"@);
    assert("table"@[0] == 't');
    assert("h2"@ != "h1"@) by {
        assert("h2"@[1] != "h1"@[1]);
    }
    assert("h3"@ != "h1"@) by {
        assert("h3"@[1] != "h1"@[1]);
    }
    assert("h3"@ != "h2"@) by {
        assert("h3"@[1] != "h2"@[1]);
    }
    assert("input"@ != "label"@) by {
        assert("input"@[0] != "label"@[0]);
    }
    assert("table"@ != "label"@) by {
        assert("table"@[0] != "label"@[0]);
    }
    assert("table"@ != "input"@) by {
        assert("table"@[0] != "input"@[0]);
    }
}

} // verus!
