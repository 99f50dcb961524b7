use topcoat_explorer::number::numeric_text;
use topcoat_explorer::markup::{
    button_classes, check_text_classes, element_role, input_width, layout_classes, split_words, ButtonStyle, ElementRole, TextStyle,
};

#[test]
fn element_names_map_to_controls() {
    assert_eq!(element_role(Some("main")), Ok(ElementRole::Container));
    assert_eq!(element_role(Some("li")), Ok(ElementRole::Container));
    assert_eq!(element_role(Some("h1")), Ok(ElementRole::Text(TextStyle::Title)));
    assert_eq!(element_role(Some("h2")), Ok(ElementRole::Text(TextStyle::Subtitle)));
    assert_eq!(element_role(Some("h3")), Ok(ElementRole::Text(TextStyle::BodyStrong)));
    assert_eq!(element_role(Some("label")), Ok(ElementRole::Text(TextStyle::Body)));
    assert_eq!(element_role(Some("button")), Ok(ElementRole::Button));
    assert_eq!(element_role(Some("input")), Ok(ElementRole::Input));
    assert_eq!(element_role(Some("table")), Ok(ElementRole::Table));
}

#[test]
fn unknown_elements_are_refused() {
    assert_eq!(
        element_role(Some("canvas")),
        Err("HTML element `<canvas>` has no WinUI mapping in this PoC".to_string())
    );
    assert!(element_role(Some("Main")).is_err());
    assert_eq!(element_role(None), Err("dynamic element names cannot map safely to WinUI".to_string()));
}

#[test]
fn words_split_on_unicode_whitespace() {
    let words: Vec<String> = split_words("  flex\tgap-2\u{3000}p-3 \n").iter().map(|w| w.iter().collect()).collect();
    assert_eq!(words, vec!["flex", "gap-2", "p-3"]);
    assert!(split_words("   ").is_empty());
}

#[test]
fn container_classes() {
    let l = layout_classes("p-3 space-y-2").unwrap();
    assert!(!l.horizontal);
    assert_eq!(l.spacing, Some("2".to_string()));
    assert_eq!(l.padding, Some("3".to_string()));
    assert_eq!(l.width, None);
    let l = layout_classes("flex gap-1").unwrap();
    assert!(l.horizontal);
    assert_eq!(l.spacing, Some("1".to_string()));
    let l = layout_classes("w-48 space-y-1").unwrap();
    assert!(!l.horizontal);
    assert_eq!(l.width, Some("48".to_string()));
    let l = layout_classes("space-x-4 flex-col").unwrap();
    assert!(!l.horizontal);
    assert_eq!(l.spacing, Some("4".to_string()));
    let l = layout_classes("").unwrap();
    assert!(!l.horizontal && l.spacing.is_none() && l.padding.is_none());
}

#[test]
fn unknown_container_classes_are_refused() {
    assert_eq!(
        layout_classes("flex grid gap-2").unwrap_err(),
        "layout class `grid` has no WinUI mapping"
    );
}

#[test]
fn button_classes_in_order() {
    let b = button_classes("nav w-44").unwrap();
    assert_eq!(b.styles, vec![ButtonStyle::Subtle]);
    assert_eq!(b.width, Some("44".to_string()));
    let b = button_classes("primary toolbar").unwrap();
    assert_eq!(b.styles, vec![ButtonStyle::Accent, ButtonStyle::Subtle]);
    assert_eq!(b.width, None);
    assert_eq!(button_classes("huge").unwrap_err(), "button class `huge` has no native mapping");
}

#[test]
fn input_classes_only_take_a_width() {
    assert_eq!(input_width("w-60"), Ok(Some("60".to_string())));
    assert_eq!(input_width("w-10 w-20"), Ok(Some("20".to_string())));
    assert_eq!(input_width(""), Ok(None));
    assert_eq!(input_width("w-6 rounded"), Err("input class `rounded` has no native mapping".to_string()));
}

#[test]
fn text_classes() {
    assert_eq!(check_text_classes("font-bold font-semibold"), Ok(()));
    assert_eq!(
        check_text_classes("font-bold italic"),
        Err("class `italic` has no native text mapping".to_string())
    );
}


#[test]
fn spacing_suffixes_must_be_numbers() {
    assert_eq!(
        layout_classes("flex gap-x").unwrap_err(),
        "class `gap-x` requires a numeric spacing suffix"
    );
    assert_eq!(layout_classes("p-").unwrap_err(), "class `p-` requires a numeric spacing suffix");
    assert_eq!(
        layout_classes("space-y-1 w-full").unwrap_err(),
        "class `w-full` requires a numeric spacing suffix"
    );
    assert_eq!(layout_classes("gap-1.5 p-.5 w-2e1").unwrap().padding, Some(".5".to_string()));
    assert_eq!(
        button_classes("nav w-abc").unwrap_err(),
        "class `w-abc` requires a numeric spacing suffix"
    );
    assert_eq!(input_width("w-abc"), Err("class `w-abc` requires a numeric spacing suffix".to_string()));
    assert_eq!(input_width("w-1. w-+3"), Ok(Some("+3".to_string())));
}

fn accepted(s: &str) -> bool {
    numeric_text(&s.chars().collect())
}

#[test]
fn numbers_follow_the_float_grammar() {
    let samples = [
        "0", "12", "1.5", ".5", "5.", ".", "", "+", "-", "+1", "-2.25", "1e3", "1E3", "1e", "1e+", "1e-7",
        "e3", ".e1", "1.e1", "1..2", "1.2.3", "inf", "INF", "-Infinity", "nan", "NaN", "+nan", "infin",
        "in", " 1", "1 ", "1_0", "0x10", "1f", "١", "--1", "+-1", "1e+-1", "00.00", "Inf1",
    ];
    for s in samples {
        assert_eq!(accepted(s), s.parse::<f64>().is_ok(), "text = {s:?}");
    }
}

#[test]
fn numbers_agree_with_float_parsing_on_generated_texts() {
    let alphabet: Vec<char> = "0123456789.+-eEinfaty x".chars().collect();
    let mut state: u64 = 0x2545_f491_4f6c_dd1d;
    for _ in 0..100_000 {
        state = state.wrapping_mul(6364136223846793005).wrapping_add(1442695040888963407);
        let len = (state >> 60) as usize % 7;
        let mut text = String::new();
        let mut bits = state;
        for _ in 0..len {
            text.push(alphabet[(bits % alphabet.len() as u64) as usize]);
            bits /= alphabet.len() as u64;
        }
        assert_eq!(accepted(&text), text.parse::<f64>().is_ok(), "text = {text:?}");
    }
}
