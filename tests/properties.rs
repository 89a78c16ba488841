use console_hero::border::Border;
use unicode_width::UnicodeWidthChar;
use colored::Colorize;
use console_hero::card::Card;
use console_hero::layout::{expand, listify, pad, wrap, Alignment};
use console_hero::records::{Attack, Item, ItemTag, Monster, Monsters, Move, Moves, Tag, Tags};
use console_hero::search::SearchError;
use console_hero::width::terminal_string_width;

fn tag(name: &str, description: &str) -> Tag {
    Tag { name: name.to_string(), key: name.to_lowercase(), description: description.to_string() }
}

fn plain_move(name: &str, key: &str, description: &str, classes: &[&str]) -> Move {
    Move {
        name: name.to_string(),
        key: key.to_string(),
        description: description.to_string(),
        classes: classes.iter().map(|c| c.to_string()).collect(),
        explanation: String::new(),
        replaces: String::new(),
        prerequisite: String::new(),
    }
}

#[test]
fn styled_text_keeps_its_width() {
    colored::control::set_override(true);
    let plain = "Dragon's hoard";
    let styled = format!("{}", plain.bold().yellow().on_blue());
    assert_ne!(styled, plain);
    assert_eq!(terminal_string_width(&styled), terminal_string_width(plain));
    assert_eq!(terminal_string_width("\u{1b}[1m\u{1b}[31mab\u{1b}[0m"), 2);
    assert_eq!(terminal_string_width("\u{1b}[0m"), 0);
}

#[test]
fn wide_glyphs_take_two_columns() {
    assert_eq!(terminal_string_width("日本"), 4);
    assert_eq!(terminal_string_width("a\u{7}b"), 3);
    assert_eq!(terminal_string_width("a\tb"), 3);
    assert_eq!(terminal_string_width("a\nb"), 2);
}

#[test]
fn wrapped_lines_stay_within_width() {
    let text = "The end of all things shall be a burning of tree and earth";
    for width in 1..20 {
        for line in wrap(text, width, "").split('\n') {
            assert_eq!(terminal_string_width(line), width);
        }
    }
}

#[test]
fn wrapping_keeps_the_words() {
    let text = "Memory safety without garbage collection and more";
    let wrapped = wrap(text, 12, "");
    let words: Vec<&str> = wrapped.split_whitespace().collect();
    let expected: Vec<&str> = text.split_whitespace().collect();
    assert_eq!(words, expected);
}

#[test]
fn wrap_scenario_hello_world() {
    assert_eq!(wrap("Hello World", 3, ""), "Hel\nlo \nWor\nld ");
}

#[test]
fn pad_aligns_and_is_idempotent() {
    assert_eq!(pad("ab", 5, Alignment::Left), "ab   ");
    assert_eq!(pad("ab", 5, Alignment::Right), "   ab");
    assert_eq!(pad("ab", 5, Alignment::Center), " ab  ");
    assert_eq!(pad("abcdef", 3, Alignment::Left), "abcdef");
    for align in [Alignment::Left, Alignment::Right, Alignment::Center] {
        let once = pad("xy", 7, align);
        assert_eq!(pad(&once, 7, align), once);
    }
    colored::control::set_override(true);
    let styled = format!("{}", "ab".red());
    let padded = pad(&styled, 4, Alignment::Left);
    assert_eq!(terminal_string_width(&padded), 4);
    assert_eq!(padded, format!("{}  ", styled));
}

#[test]
fn expand_scenario_name_tag() {
    assert_eq!(expand("Name{}Tag", 12), "Name     Tag");
    assert_eq!(terminal_string_width(&expand("Name{}Tag", 12)), 12);
}

#[test]
fn expand_is_exact_with_styles() {
    colored::control::set_override(true);
    let line = format!("{}{{}}{}", "Ogre".bold(), " 3 HP ".on_red());
    assert_eq!(terminal_string_width(&expand(&line, 30)), 30);
}

#[test]
fn expand_overflow_drops_markers_only() {
    assert_eq!(expand("abc{}def{}gh", 4), "abcdefgh");
}

#[test]
fn listify_scenario_two_items() {
    let items = vec![
        "a short item".to_string(),
        "a much longer item that must wrap across two lines".to_string(),
    ];
    let out = listify(&items, '•', 20, "");
    let lines: Vec<&str> = out.split('\n').collect();
    assert_eq!(lines[0], "• a short item      ");
    assert_eq!(lines[1], "• a much longer item");
    assert!(lines[2].starts_with("  that"));
    for line in &lines {
        assert_eq!(terminal_string_width(line), 20);
    }
}

#[test]
fn card_rows_have_equal_width() {
    colored::control::set_override(true);
    let name = format!("{}", "Goblin".bold().yellow());
    let card = Card::new()
        .with_width(30)
        .line(&format!("{} {{}} {}", name, " 3 HP ".on_red()))
        .heavy_line()
        .text("Short, sly and mean, goblins live in warrens under the hills.")
        .light_line()
        .text("")
        .list(vec!["Sneak.".to_string(), "Steal something shiny and run off.".to_string()])
        .list(vec![]);
    let out = card.to_display_string();
    let widths: Vec<usize> = out.split('\n').map(terminal_string_width).collect();
    assert!(widths.len() > 8);
    assert!(widths.iter().all(|w| *w == 33));
    let light = Card::new().with_light_border().with_width(10).text("abc");
    assert_eq!(light.to_display_string(), " ┌──────────┐\n │ abc      │\n └──────────┘");
}

#[test]
fn name_match_beats_description_match() {
    let dragon = tag("Dragon", "A big lizard");
    let ogre = tag("Ogre", "Has a dragon tattoo");
    let first = Tags::new(vec![dragon.clone(), ogre.clone()]);
    assert_eq!(first.find("dragon").unwrap(), Some(&dragon));
    let second = Tags::new(vec![ogre.clone(), dragon.clone()]);
    assert_eq!(second.find("dragon").unwrap(), Some(&dragon));
}

#[test]
fn first_description_match_wins() {
    let a = tag("Troll", "lives under a bridge");
    let b = tag("Goat", "crosses the bridge");
    let tags = Tags::new(vec![a.clone(), b.clone()]);
    assert_eq!(tags.find("BRIDGE").unwrap(), Some(&a));
    assert_eq!(tags.find("nothing like it").unwrap(), None);
}

#[test]
fn invalid_pattern_is_an_error() {
    let tags = Tags::new(vec![tag("Troll", "")]);
    assert_eq!(tags.find("(unclosed"), Err(SearchError::InvalidPattern));
}

#[test]
fn class_match_ranks_last() {
    let a = plain_move("Hack", "hack", "deal damage", &["fighter"]);
    let b = plain_move("Cast", "cast", "a fighter may not", &["wizard"]);
    let moves = Moves::new(vec![a.clone(), b.clone()]);
    assert_eq!(moves.find("fighter").unwrap(), Some(&b));
    assert_eq!(moves.find("wizard").unwrap(), Some(&b));
    let only_class = Moves::new(vec![a.clone()]);
    assert_eq!(only_class.find("fight").unwrap(), Some(&a));
}

#[test]
fn move_references_resolve_to_names() {
    let mut anointed = plain_move("Anointed", "anointed", "Choose one spell.", &["cleric"]);
    anointed.prerequisite = "chosen_one".to_string();
    let chosen = plain_move("Chosen One", "chosen_one", "A spell.", &["cleric"]);
    let moves = Moves::resolve(vec![anointed, chosen]).unwrap();
    assert_eq!(moves.records()[0].prerequisite, "Chosen One");
    assert_eq!(moves.get("chosen_one").unwrap().name, "Chosen One");
    assert!(moves.get("missing").is_none());
    let mut broken = plain_move("Broken", "broken", "", &[]);
    broken.replaces = "nowhere".to_string();
    assert_eq!(Moves::resolve(vec![broken]).err(), Some("nowhere".to_string()));
}

#[test]
fn record_cards_render_evenly() {
    colored::control::set_override(true);
    let monster = Monster {
        key: "goblin".to_string(),
        name: "Goblin".to_string(),
        tags: vec!["horde".to_string(), "small".to_string()],
        armor: 1,
        hp: 3,
        instinct: "To steal".to_string(),
        moves: vec!["Charge".to_string()],
        description: "Sly.".to_string(),
        attacks: vec![Attack {
            name: "Spear".to_string(),
            damage: "d6".to_string(),
            tags: vec!["close".to_string()],
        }],
    };
    let out = monster.render();
    assert!(out.contains("Spear (d6)"));
    assert!(out.contains("Horde, Small"));
    assert!(out.contains("• Charge."));
    assert!(out.split('\n').all(|l| terminal_string_width(l) == 63));
    let mv = plain_move("Hack", "hack", "Roll+Str.", &["fighter", "paladin"]);
    assert!(mv.render().split('\n').all(|l| terminal_string_width(l) == 43));
    let item = Item {
        name: "Rope".to_string(),
        plural_name: String::new(),
        key: "rope".to_string(),
        description: "Long.".to_string(),
        tags: vec![
            ItemTag::Count { key: "weight".to_string(), amount: 1 },
            ItemTag::Count { key: "uses".to_string(), amount: 12 },
            ItemTag::Tag("slow".to_string()),
        ],
    };
    let out = item.render();
    assert!(out.contains("1 KG, 12 Uses, Slow"));
    let t = tag("forceful", "It can knock someone back a pace.");
    assert!(t.render().contains("Forceful"));
    let monsters = Monsters::new(vec![monster.clone()]);
    assert_eq!(monsters.find("gob").unwrap(), Some(&monster));
}

#[test]
fn every_attack_gets_a_line() {
    let attack = |name: &str| Attack { name: name.to_string(), damage: "d8".to_string(), tags: vec![] };
    let monster = Monster {
        key: "hydra".to_string(),
        name: "Hydra".to_string(),
        tags: vec![],
        armor: 2,
        hp: 16,
        instinct: String::new(),
        moves: vec![],
        description: String::new(),
        attacks: vec![attack("Bite"), attack("Tail")],
    };
    let out = monster.render();
    assert!(out.contains("Bite (d8)"));
    assert!(out.contains("Tail (d8)"));
    assert!(out.split('\n').all(|l| terminal_string_width(l) == 63));
}

#[test]
fn bottom_border_ends_with_a_line_feed() {
    assert_eq!(Border::Heavy.end(3), " ┗━━━┛\n");
    assert_eq!(Border::Light.end(2), " └──┘\n");
    assert_eq!(Border::Light.head(2), " ┌──┐");
    assert_eq!(Border::Heavy.line(2), "━━");
}

#[test]
fn frame_glyphs_are_one_column() {
    for c in ('\u{2500}'..='\u{254b}').chain(std::iter::once('\u{2022}')) {
        assert_eq!(c.width(), Some(1), "{:?}", c);
    }
}

#[test]
fn words_with_hyphens_stay_whole() {
    assert_eq!(wrap("well-known word", 12, ""), "well-known  \nword        ");
}
