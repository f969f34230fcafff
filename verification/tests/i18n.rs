use dioxus_std::i18n::language::{use_i18, Language, UseI18, UseInitI18Data};
use dioxus_std::i18n::strings::{join_dots, replace_first, split_dots};
use dioxus_std::i18n::text::Text;

fn value(text: &str) -> Text {
    Text::Value(text.to_string())
}

fn texts(entries: Vec<(&str, Text)>) -> Text {
    Text::Texts(entries.into_iter().map(|(key, text)| (key.to_string(), text)).collect())
}

fn english() -> Text {
    texts(vec![
        ("hello", value("Hello")),
        ("greet", value("Hello {name}, {name}!")),
        (
            "menu",
            texts(vec![
                ("file", value("File")),
                ("edit", texts(vec![("copy", value("Copy"))])),
            ]),
        ),
        ("menu.view", value("View")),
        ("a.b", value("AB")),
        ("swap", value("{a}{b}")),
    ])
}

fn ask(text: &Text, path: &str) -> (Option<String>, Vec<String>) {
    let mut steps = split_dots(path);
    let found = text.query(&mut steps);
    (found, steps.into_iter().map(|step| step.to_string()).collect())
}

#[test]
fn path_is_cut_at_every_dot() {
    assert_eq!(split_dots("a.b.c"), vec!["a", "b", "c"]);
    assert_eq!(split_dots("menu"), vec!["menu"]);
    assert_eq!(split_dots(""), vec![""]);
    assert_eq!(split_dots("."), vec!["", ""]);
    assert_eq!(split_dots("a..b"), vec!["a", "", "b"]);
    assert_eq!(split_dots(".a"), vec!["", "a"]);
    assert_eq!(split_dots("a."), vec!["a", ""]);
    assert_eq!(split_dots("grüße.オ"), vec!["grüße", "オ"]);
    for path in ["a.b.c", "", ".", "a..b", ".a.", "grüße.オ"] {
        assert_eq!(split_dots(path), path.split('.').collect::<Vec<&str>>());
    }
}

#[test]
fn steps_are_joined_by_dots() {
    assert_eq!(join_dots(&vec!["a", "b", "c"]), "a.b.c");
    assert_eq!(join_dots(&vec!["menu"]), "menu");
    assert_eq!(join_dots(&vec![]), "");
    assert_eq!(join_dots(&vec!["", ""]), ".");
    for path in ["a.b.c", "", ".", "a..b", ".a.", "grüße.オ"] {
        assert_eq!(join_dots(&split_dots(path)), path);
    }
}

#[test]
fn first_occurrence_alone_is_replaced() {
    assert_eq!(replace_first("a-b-c", "-", "+"), "a+b-c");
    assert_eq!(replace_first("abc", "x", "y"), "abc");
    assert_eq!(replace_first("abc", "abcd", "y"), "abc");
    assert_eq!(replace_first("abc", "", "y"), "yabc");
    assert_eq!(replace_first("", "", "y"), "y");
    assert_eq!(replace_first("", "a", "y"), "");
    assert_eq!(replace_first("aaa", "aa", "b"), "ba");
    assert_eq!(replace_first("abab", "ab", ""), "ab");
    assert_eq!(replace_first("xab", "ab", "cd"), "xcd");
    assert_eq!(replace_first("grüße {n}", "{n}", "オ"), "grüße オ");
    for (text, pattern, with) in [("a-b-c", "-", "+"), ("aaa", "aa", "b"), ("abc", "", "y")] {
        assert_eq!(replace_first(text, pattern, with), text.replacen(pattern, with, 1));
    }
}

#[test]
fn steps_lead_through_the_dictionaries() {
    let text = english();
    assert_eq!(ask(&text, "hello"), (Some("Hello".to_string()), vec![]));
    assert_eq!(ask(&text, "menu.file"), (Some("File".to_string()), vec![]));
    assert_eq!(ask(&text, "menu.edit.copy"), (Some("Copy".to_string()), vec![]));
}

#[test]
fn text_is_found_whatever_steps_are_left() {
    let text = english();
    assert_eq!(
        ask(&text, "hello.there.you"),
        (Some("Hello".to_string()), vec!["there".to_string(), "you".to_string()])
    );
    assert_eq!(
        ask(&value("x"), "any.path"),
        (Some("x".to_string()), vec!["any".to_string(), "path".to_string()])
    );
}

#[test]
fn whole_path_is_tried_as_one_key() {
    let text = english();
    assert_eq!(ask(&text, "menu.view"), (Some("View".to_string()), vec![]));
}

#[test]
fn whole_path_is_not_tried_without_its_first_step() {
    let text = english();
    assert_eq!(ask(&text, "a.b"), (None, vec!["b".to_string()]));
}

#[test]
fn dictionary_is_no_text() {
    let text = english();
    assert_eq!(ask(&text, "menu"), (None, vec![]));
    assert_eq!(ask(&text, "menu.edit"), (None, vec![]));
    assert_eq!(ask(&text, "menu.save"), (None, vec![]));
    assert_eq!(ask(&text, "nothing"), (None, vec![]));
    assert_eq!(ask(&text, ""), (None, vec![]));
    assert_eq!(ask(&Text::default(), "a"), (None, vec![]));
}

#[test]
fn query_without_steps_finds_texts_alone() {
    let mut none: Vec<&str> = Vec::new();
    assert_eq!(english().query(&mut none), None);
    assert_eq!(value("x").query(&mut none), Some("x".to_string()));
}

#[test]
fn first_entry_under_a_key_wins() {
    let text = texts(vec![("k", value("first")), ("k", value("second"))]);
    assert_eq!(ask(&text, "k"), (Some("first".to_string()), vec![]));
}

#[test]
fn parameters_are_filled_in_once_and_in_order() {
    let language = Language { id: "en-US".to_string(), texts: english() };
    assert_eq!(language.get_text("hello", vec![]), Some("Hello".to_string()));
    assert_eq!(
        language.get_text("greet", vec![("name", "Ann".to_string())]),
        Some("Hello Ann, {name}!".to_string())
    );
    assert_eq!(
        language.get_text("greet", vec![("name", "Ann".to_string()), ("name", "Bo".to_string())]),
        Some("Hello Ann, Bo!".to_string())
    );
    assert_eq!(
        language.get_text("swap", vec![("a", "{b}".to_string()), ("b", "x".to_string())]),
        Some("x{b}".to_string())
    );
    assert_eq!(
        language.get_text("swap", vec![("b", "x".to_string()), ("a", "{b}".to_string())]),
        Some("{b}x".to_string())
    );
    assert_eq!(
        language.get_text("hello", vec![("name", "Ann".to_string())]),
        Some("Hello".to_string())
    );
}

#[test]
fn path_that_leads_nowhere_gives_the_empty_text() {
    let language = Language { id: "en-US".to_string(), texts: english() };
    assert_eq!(language.get_text("a.b", vec![]), Some(String::new()));
    assert_eq!(language.get_text("menu", vec![("name", "Ann".to_string())]), Some(String::new()));
}

fn interface(selected: &str) -> UseI18 {
    let spanish = texts(vec![("hello", value("Hola")), ("greet", value("Hola {name}"))]);
    use_i18(
        selected.to_string(),
        UseInitI18Data {
            languages: vec![
                Language { id: "en-US".to_string(), texts: english() },
                Language { id: "es-ES".to_string(), texts: spanish },
            ],
            fallback_language: "en-US".to_string(),
        },
    )
}

#[test]
fn selected_language_is_asked_first() {
    let i18 = interface("es-ES");
    assert_eq!(i18.translate("hello"), "Hola");
    assert_eq!(i18.translate_with_params("greet", vec![("name", "Ann".to_string())]), "Hola Ann");
    assert_eq!(i18.translate("menu.file"), "");
}

#[test]
fn fallback_language_stands_in_for_one_that_is_missing() {
    let mut i18 = interface("fr-FR");
    assert_eq!(i18.translate("hello"), "Hello");
    assert_eq!(i18.translate("menu.file"), "File");
    i18.set_language("es-ES".to_string());
    assert_eq!(i18.selected_language, "es-ES");
    assert_eq!(i18.translate("hello"), "Hola");
    i18.set_language("en-US".to_string());
    assert_eq!(i18.translate("hello"), "Hello");
}

#[test]
fn identifier_is_returned_where_no_language_is_there() {
    let i18 = use_i18(
        "fr-FR".to_string(),
        UseInitI18Data { languages: vec![], fallback_language: "en-US".to_string() },
    );
    assert_eq!(i18.translate("hello"), "hello");
    assert_eq!(i18.translate_with_params("greet", vec![("name", "Ann".to_string())]), "greet");
}
