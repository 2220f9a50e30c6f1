use hub_templates::command::{get_repo_and_id, NewCommand};
use hub_templates::entry::{Category, IndexEntry};

fn entry(title: &str, tags: &[&str], category: Category) -> IndexEntry {
    IndexEntry::new(
        title.to_string(),
        format!("About {}", title),
        "Ada".to_string(),
        format!("https://example.com/{}", title),
        format!("id-{}", title),
        tags.iter().map(|t| t.to_string()).collect(),
        category,
    )
}

fn search(terms: &[&str]) -> NewCommand {
    NewCommand::new(terms.iter().map(|t| t.to_string()).collect(), false, Some("app".to_string()))
}

#[test]
fn no_terms_match_every_entry() {
    let command = search(&[]);
    assert!(command.is_terms_match(&entry("Anything", &[], Category::Plugin)));
    assert!(command.is_terms_match(&entry("", &[], Category::Template)));
}

#[test]
fn term_matches_a_tag() {
    let command = search(&["redis"]);
    assert!(command.is_terms_match(&entry("Cache", &["redis", "rust"], Category::Template)));
    assert!(!command.is_terms_match(&entry("Cache", &["rust"], Category::Template)));
}

#[test]
fn term_matches_a_title_word() {
    let command = search(&["starter"]);
    assert!(command.is_terms_match(&entry("HTTP Starter", &[], Category::Template)));
    assert!(!command.is_terms_match(&entry("HTTP Server", &[], Category::Template)));
}

#[test]
fn term_match_ignores_case_of_the_term() {
    let command = search(&["HTTP", "RuSt"]);
    assert!(command.is_terms_match(&entry("server", &["http", "rust"], Category::Template)));
}

#[test]
fn term_match_ignores_case_of_tags_and_title() {
    let command = search(&["http", "rust"]);
    assert!(command.is_terms_match(&entry("A RUST thing", &["HTTP"], Category::Template)));
}

#[test]
fn every_term_must_match() {
    let command = search(&["http", "go"]);
    assert!(!command.is_terms_match(&entry("HTTP", &["rust"], Category::Template)));
    assert!(command.is_terms_match(&entry("HTTP", &["go"], Category::Template)));
}

#[test]
fn term_must_be_a_whole_word_or_tag() {
    let command = search(&["rust"]);
    assert!(!command.is_terms_match(&entry("Rusty things", &["rustlang"], Category::Template)));
}

#[test]
fn term_with_space_matches_no_title_word() {
    let command = search(&["http server"]);
    assert!(!command.is_terms_match(&entry("HTTP Server", &[], Category::Template)));
    assert!(command.is_terms_match(&entry("x", &["HTTP Server"], Category::Template)));
}

#[test]
fn only_templates_match_the_category() {
    let command = search(&[]);
    assert!(command.is_category_match(&entry("t", &[], Category::Template)));
    assert!(!command.is_category_match(&entry("t", &[], Category::Sample)));
    assert!(!command.is_category_match(&entry("t", &[], Category::Plugin)));
    assert!(!command.is_category_match(&entry("t", &[], Category::Library)));
}

#[test]
fn match_needs_terms_and_category() {
    let command = search(&["rust"]);
    assert!(command.is_match(&entry("Rust", &[], Category::Template)));
    assert!(!command.is_match(&entry("Rust", &[], Category::Sample)));
    assert!(!command.is_match(&entry("Go", &[], Category::Template)));
    assert!(!command.is_match(&entry("Go", &[], Category::Library)));
}

#[test]
fn repo_and_id_come_from_the_entry() {
    let (repo, id) = get_repo_and_id(&entry("kv", &[], Category::Template));
    assert_eq!(repo, "https://example.com/kv");
    assert_eq!(id, "id-kv");
}

#[test]
fn command_returns_what_it_was_made_of() {
    let command = NewCommand::new(
        vec!["Rust".to_string(), "http".to_string()],
        true,
        Some("shop".to_string()),
    );
    assert_eq!(command.terms(), vec!["Rust".to_string(), "http".to_string()]);
    assert!(command.list());
    assert_eq!(command.name(), Some("shop".to_string()));
    let bare = NewCommand::new(Vec::new(), false, None);
    assert_eq!(bare.terms(), Vec::<String>::new());
    assert!(!bare.list());
    assert_eq!(bare.name(), None);
}
