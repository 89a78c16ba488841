use colored::Colorize;
use console_hero::border::Border;
use console_hero::card::{Card, Element};
use console_hero::width::terminal_string_width;

fn basics_body() {
    let x = Card::new().with_heavy_border();
    assert_eq!(x.border(), Border::Heavy);
    let x = Card::new().with_light_border();
    assert_eq!(x.border(), Border::Light);
    let x = Card::new().list(vec![
        String::from("1"),
        String::from("2"),
        String::from("3"),
    ]);
    assert_eq!(
        x.elements()[0],
        Element::List(vec![
            String::from("1"),
            String::from("2"),
            String::from("3"),
        ])
    );
    let x = Card::new().text("Hello World!");
    assert_eq!(x.elements()[0], Element::Text(String::from("Hello World!")));
    let x = Card::new().heavy_line().text("In between!").light_line();
    assert_eq!(
        *x.elements(),
        vec![
            Element::HeavyLine,
            Element::Text(String::from("In between!")),
            Element::LightLine,
        ]
    );
}

#[test]
fn card_basics() {
    basics_body();
}

#[test]
fn mod_basics() {
    basics_body();
}

#[test]
fn card_terminal_string_width_test() {
    colored::control::set_override(true);
    let x = String::from("Hello World");
    let x_red = format!("{}", x.red());
    let x_red_black = format!("{}", x_red.on_black());
    let x_blink = format!("{}", x_red_black.blink());
    let x_dimmed = format!("{}", x_blink.dimmed());
    assert_eq!(terminal_string_width(&x), 11);
    assert_eq!(terminal_string_width(&x_red), 11);
    assert_eq!(terminal_string_width(&x_red_black), 11);
    assert_eq!(terminal_string_width(&x_blink), 11);
    assert_eq!(terminal_string_width(&x_dimmed), 11);
}
