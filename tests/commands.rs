use console_hero::data::{complete_command, dice_expression, plan_listing, Category, Data};
use console_hero::records::{Item, Items, Monster, Monsters, Move, Moves, Tag, Tags};

fn tag(name: &str) -> Tag {
    Tag { name: name.to_string(), key: name.to_lowercase(), description: String::new() }
}

fn monster(name: &str) -> Monster {
    Monster {
        key: name.to_lowercase(),
        name: name.to_string(),
        tags: vec![],
        armor: 0,
        hp: 1,
        instinct: String::new(),
        moves: vec![],
        description: String::new(),
        attacks: vec![],
    }
}

fn data() -> Data {
    Data::new(
        Monsters::new(vec![monster("Goblin"), monster("Gnoll"), monster("Ogre")]),
        Moves::new(vec![Move {
            name: "Hack and Slash".to_string(),
            key: "hack".to_string(),
            description: String::new(),
            classes: vec![],
            explanation: String::new(),
            replaces: String::new(),
            prerequisite: String::new(),
        }]),
        Tags::new(vec![tag("Forceful"), tag("Messy")]),
        Items::new(vec![Item {
            name: "Rope".to_string(),
            plural_name: String::new(),
            key: "rope".to_string(),
            description: String::new(),
            tags: vec![],
        }]),
    )
}

#[test]
fn command_words_complete_first() {
    let d = data();
    assert_eq!(complete_command(&d, "mo", 2), (0, vec!["monster".to_string(), "move".to_string()]));
    assert_eq!(complete_command(&d, "", 0).1.len(), 8);
    assert_eq!(complete_command(&d, "xyz", 3), (0, vec![]));
}

#[test]
fn record_names_complete_case_insensitively() {
    let d = data();
    assert_eq!(
        complete_command(&d, "monster g", 9),
        (8, vec!["Goblin".to_string(), "Gnoll".to_string()])
    );
    assert_eq!(complete_command(&d, "tag MES", 7), (4, vec!["Messy".to_string()]));
    assert_eq!(d.monsters.complete("monster ", 3), (3, vec![]));
    assert_eq!(d.complete("item r", 6), (5, vec!["Rope".to_string()]));
    assert_eq!(d.complete("roll d6", 7), (7, vec![]));
}

#[test]
fn list_categories_complete() {
    let d = data();
    assert_eq!(
        complete_command(&d, "list mo", 7),
        (5, vec!["monsters".to_string(), "moves".to_string()])
    );
}

#[test]
fn listing_plans() {
    assert_eq!(plan_listing("tags", "f"), Some((vec![Category::Tags], "f".to_string())));
    assert_eq!(plan_listing("all", "x").map(|p| p.0.len()), Some(4));
    assert_eq!(plan_listing("gob", ".*"), Some((
        vec![Category::Monsters, Category::Moves, Category::Items, Category::Tags],
        "gob".to_string()
    )));
    assert_eq!(plan_listing("gob", "x"), None);
}

#[test]
fn names_are_listed_by_pattern() {
    let d = data();
    assert_eq!(d.monsters.list("^g").unwrap(), vec!["Goblin".to_string(), "Gnoll".to_string()]);
    assert!(d.tags.list("[").is_err());
    assert_eq!(d.items.list("nothing").unwrap(), Vec::<String>::new());
}

#[test]
fn dice_expressions_get_a_count() {
    assert_eq!(dice_expression("d6"), "1d6");
    assert_eq!(dice_expression("2d6+1"), "2d6+1");
    assert_eq!(dice_expression(""), "");
}
