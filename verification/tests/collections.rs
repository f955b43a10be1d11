use slv::collections::{
    collection_file, parse_categories, read_choice, read_entry, Choice, Edition, Selection, MAX_CHOICES,
};
use slv::error::GameError;

#[test]
fn editions_go_by_their_names() {
    assert_eq!(Edition::named("default"), Ok(Edition::Default));
    assert_eq!(Edition::named("junior"), Ok(Edition::Junior));
    assert_eq!(Edition::named("adult"), Ok(Edition::Adult));
    for edition in [Edition::Default, Edition::Junior, Edition::Adult] {
        assert_eq!(Edition::named(edition.name()), Ok(edition));
    }
}

#[test]
fn unknown_names_are_refused() {
    for name in ["", "Default", "default ", "senior", "adults", "../default"] {
        assert_eq!(Edition::named(name), Err(GameError::UnknownCollectionName));
        assert_eq!(collection_file(name), Err(GameError::UnknownCollectionName));
    }
}

#[test]
fn editions_have_their_files() {
    assert_eq!(collection_file("default"), Ok("src/categories/default_edition.txt"));
    assert_eq!(collection_file("junior"), Ok("src/categories/junior_edition.txt"));
    assert_eq!(collection_file("adult"), Ok("src/categories/adult_edition.txt"));
    assert_eq!(Edition::Junior.file(), "src/categories/junior_edition.txt");
}

#[test]
fn choice_is_read_from_a_line() {
    assert_eq!(MAX_CHOICES, 3);
    assert_eq!(read_choice("default\n"), Choice::Load(Edition::Default));
    assert_eq!(read_choice("  junior \r\n"), Choice::Load(Edition::Junior));
    assert_eq!(read_choice("adult"), Choice::Load(Edition::Adult));
    assert_eq!(read_choice("\n"), Choice::Done);
    assert_eq!(read_choice("\r\n"), Choice::Ignored);
    assert_eq!(read_choice(""), Choice::Ignored);
    assert_eq!(read_choice(" \n"), Choice::Ignored);
    assert_eq!(read_choice("senior\n"), Choice::Ignored);
}

#[test]
fn categories_stand_one_to_a_line() {
    assert_eq!(parse_categories("Animal\nCity\nRiver\n"), vec!["Animal", "City", "River"]);
    assert_eq!(parse_categories("Animal\nCity"), vec!["Animal", "City"]);
    assert_eq!(parse_categories("Animal\r\nCity\r\n"), vec!["Animal", "City"]);
    assert_eq!(parse_categories(""), Vec::<String>::new());
    assert_eq!(parse_categories("\n"), vec![""]);
    assert_eq!(parse_categories("\n\nCity"), vec!["", "", "City"]);
    assert_eq!(parse_categories("City\r"), vec!["City\r"]);
    assert_eq!(parse_categories("a\rb\n"), vec!["a\rb"]);
    assert_eq!(parse_categories("Straße\nCafé ⚡\n"), vec!["Straße", "Café ⚡"]);
}

#[test]
fn categories_are_the_lines_of_the_text() {
    for text in ["", "\n", "\r", "\r\n", "\n\r", "a", "a\n", "a\r\n", "a\n\n", "a\r\r\n", "\ra\n", "a\nb", "a\nb\r",
        "a\r\nb\r\n\r\nc", " a \n\tb\n", "⚡\n⚡⚡\r\n"]
    {
        let expected: Vec<String> = text.lines().map(|line| line.to_string()).collect();
        assert_eq!(parse_categories(text), expected, "{:?}", text);
    }
}

#[test]
fn entry_is_the_trimmed_line() {
    assert_eq!(read_entry("River\n"), Some("River"));
    assert_eq!(read_entry("  Famous painter \r\n"), Some("Famous painter"));
    assert_eq!(read_entry("\n"), Some(""));
    assert_eq!(read_entry("exit\n"), None);
    assert_eq!(read_entry("  exit  "), None);
    assert_eq!(read_entry("Exit\n"), Some("Exit"));
    assert_eq!(read_entry("exit now\n"), Some("exit now"));
}

#[test]
fn selection_asks_three_times() {
    let mut selection = Selection::new();
    assert!(selection.is_open());
    assert_eq!(selection.offer("junior\n"), Choice::Load(Edition::Junior));
    selection.add(vec!["Animal".to_string(), "City".to_string()]);
    assert!(selection.is_open());
    assert_eq!(selection.offer("nothing\n"), Choice::Ignored);
    assert!(selection.is_open());
    assert_eq!(selection.offer(" adult \n"), Choice::Load(Edition::Adult));
    selection.add(vec!["City".to_string()]);
    assert!(!selection.is_open());
    assert_eq!(selection.finish(), Ok(vec!["Animal".to_string(), "City".to_string(), "City".to_string()]));
}

#[test]
fn selection_ends_on_an_empty_line() {
    let mut selection = Selection::new();
    assert_eq!(selection.offer("default\n"), Choice::Load(Edition::Default));
    selection.add(vec!["River".to_string()]);
    assert_eq!(selection.offer("\n"), Choice::Done);
    assert!(!selection.is_open());
    assert_eq!(selection.finish(), Ok(vec!["River".to_string()]));
}

#[test]
fn selection_of_nothing_is_refused() {
    assert_eq!(Selection::new().finish(), Err(GameError::EmptyCollection));
    let mut selection = Selection::new();
    assert_eq!(selection.offer("\n"), Choice::Done);
    assert!(!selection.is_open());
    assert_eq!(selection.finish(), Err(GameError::EmptyCollection));
    let mut selection = Selection::new();
    assert_eq!(selection.offer("default\n"), Choice::Load(Edition::Default));
    selection.add(Vec::new());
    assert_eq!(selection.finish(), Err(GameError::EmptyCollection));
}
