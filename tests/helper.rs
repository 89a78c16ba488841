use colored::Colorize;
use console_hero::layout::{capitalize, expand, listify, wrap};
use console_hero::width::terminal_string_width;
use unicode_width::UnicodeWidthStr;

fn ts(s: &str) -> String {
    s.to_string()
}

#[test]
fn helper_terminal_string_width_test() {
    colored::control::set_override(true);
    let x = String::from("Hello World");
    let x_red = format!("{}", x.red());
    let x_red_black = format!("{}", x_red.on_black());
    let x_blink = format!("{}", x_red_black.blink());
    let x_dimmed = format!("{}", x_blink.dimmed());
    assert_eq!(terminal_string_width(&x), 11);
    assert_eq!(terminal_string_width(&x_red), 11);
    assert_eq!(terminal_string_width(&x_red_black), 11);
    assert_eq!(terminal_string_width(&x_blink), 11);
    assert_eq!(terminal_string_width(&x_dimmed), 11);
    assert_eq!(x.width(), terminal_string_width(&x));
    assert!(x_red.width() != terminal_string_width(&x_red));

    let name = format!("{}", "Hello World".bold().yellow());
    assert_eq!(terminal_string_width(&name), 11);

    assert_eq!(terminal_string_width(""), 0);
}

#[test]
fn wrap_test() {
    assert_eq!(
        wrap("Hello World", 3, "i"),
        "iHeli\nilo i\niWori\nild i".to_string()
    );
    assert_eq!(wrap("", 3, ""), String::from("   "));
    assert_eq!(wrap("", 4, "|"), String::from("|    |"));
    assert_eq!(wrap("Hey", 5, ","), String::from(",Hey  ,"));
    assert_eq!(wrap("Hello", 4, ""), String::from("Hell\no   "));
    assert_eq!(
        wrap("HelloWorld", 7, "/"),
        String::from("/HelloWo/\n/rld    /")
    );
    assert_eq!(wrap("Hey", 1, "e"), String::from("eHe\neee\neye"));
}

#[test]
fn capitalize_test() {
    assert_eq!(capitalize("hello"), "Hello".to_string());
    assert_eq!(capitalize("ßello"), "SSello".to_string());
    assert_eq!(capitalize("0"), "0");
    assert_eq!(capitalize("-"), "-");
    assert_eq!(capitalize("-"), "-");
    assert_eq!(capitalize(""), "");
}

#[test]
fn expand_test() {
    assert_eq!(expand("Hello{}World", 10), String::from("HelloWorld"),);
    assert_eq!(expand("{}X", 5), String::from("    X"),);
    assert_eq!(expand("X{}", 5), String::from("X    "),);
    assert_eq!(expand("X {}", 5), String::from("X    "),);
    assert_eq!(expand(" X{}", 5), String::from(" X   "),);
    assert_eq!(expand(" X{}Y ", 5), String::from(" X Y "),);
    assert_eq!(expand("{}", 10), " ".repeat(10),);
    assert_eq!(expand("{}X{}", 5), String::from("    X"),);
    assert_eq!(expand("Hello{}World", 10), String::from("HelloWorld"));
}

#[test]
fn concat_test() {
    let array = vec![String::from("A"), String::from("B")];
    assert_eq!(console_hero::layout::concat(&array, "---"), String::from("A---B"));
    let array = vec![String::from("A")];
    assert_eq!(console_hero::layout::concat(&array, "123"), String::from("A"));
    let array: Vec<String> = vec![];
    assert_eq!(console_hero::layout::concat(&array, "|"), "");
}

#[test]
fn listify_test() {
    let a1: Vec<String> = vec!["Eins", "Zwei", "Drei"].into_iter().map(ts).collect();
    let a2: Vec<String> = vec![];
    let a3: Vec<String> = vec!["Aliquam erat volutpat.  Nunc eleifend leo vitae magna.  In id erat non orci commodo lobortis."]
        .into_iter()
        .map(ts)
        .collect();
    let a4: Vec<String> = vec![
        "A long text, to long to display in one line",
        "Short one",
        "Yet another long one",
    ]
    .into_iter()
    .map(ts)
    .collect();
    assert_eq!(listify(&a1, '-', 6, "r"), ts("r- Einsr\nr- Zweir\nr- Dreir"),);
    assert_eq!(listify(&a2, '-', 5, "("), ts(&"(     ("),);
    assert_eq!(
        listify(&a3, '#', 32, "+===+"),
        ts("+===+# Aliquam erat volutpat.  Nunc  +===+
+===+  eleifend leo vitae magna.  In +===+
+===+  id erat non orci commodo      +===+
+===+  lobortis.                     +===+")
    );
    assert_eq!(
        listify(&a4, '⟶', 15, ":"),
        ts(":⟶ A long text, :
:  to long to   :
:  display in   :
:  one line     :
:⟶ Short one    :
:⟶ Yet another  :
:  long one     :")
    );
}
