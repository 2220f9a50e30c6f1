use hub_templates::entry::{Category, IndexEntry};

fn sample() -> IndexEntry {
    IndexEntry::new(
        "HTTP Rust Starter".to_string(),
        "A starter for HTTP components".to_string(),
        "Ada".to_string(),
        "https://example.com/ada/http-rust".to_string(),
        "http-rust".to_string(),
        vec!["Rust".to_string(), "HTTP".to_string(), "wasm".to_string()],
        Category::Template,
    )
}

#[test]
fn entry_returns_what_it_was_made_of() {
    let entry = sample();
    assert_eq!(entry.title(), "HTTP Rust Starter");
    assert_eq!(entry.summary(), "A starter for HTTP components");
    assert_eq!(entry.author(), "Ada");
    assert_eq!(entry.url(), "https://example.com/ada/http-rust");
    assert_eq!(entry.id(), "http-rust");
    assert_eq!(entry.category(), Category::Template);
}

#[test]
fn entry_tags_are_lowercased_in_order() {
    assert_eq!(
        sample().tags(),
        vec!["rust".to_string(), "http".to_string(), "wasm".to_string()]
    );
}

#[test]
fn entry_without_tags_has_no_tags() {
    let entry = IndexEntry::new(
        "T".to_string(),
        String::new(),
        String::new(),
        String::new(),
        String::new(),
        Vec::new(),
        Category::Sample,
    );
    assert_eq!(entry.tags(), Vec::<String>::new());
    assert_eq!(entry.category(), Category::Sample);
}

#[test]
fn entry_title_words_are_lowercased() {
    assert_eq!(
        sample().title_words(),
        vec!["http".to_string(), "rust".to_string(), "starter".to_string()]
    );
}

#[test]
fn entry_with_empty_title_has_no_words() {
    let entry = IndexEntry::new(
        "   ".to_string(),
        String::new(),
        String::new(),
        String::new(),
        String::new(),
        Vec::new(),
        Category::Plugin,
    );
    assert_eq!(entry.title_words(), Vec::<String>::new());
}

#[test]
fn entry_clone_keeps_the_content() {
    let entry = sample();
    let copy = entry.clone();
    assert_eq!(copy.title(), entry.title());
    assert_eq!(copy.summary(), entry.summary());
    assert_eq!(copy.author(), entry.author());
    assert_eq!(copy.url(), entry.url());
    assert_eq!(copy.id(), entry.id());
    assert_eq!(copy.tags(), entry.tags());
    assert_eq!(copy.category(), entry.category());
}

#[test]
fn categories_differ() {
    assert_ne!(Category::Template, Category::Sample);
    assert_ne!(Category::Template, Category::Plugin);
    assert_ne!(Category::Template, Category::Library);
}

#[test]
fn entry_keeps_its_tags_as_published() {
    assert_eq!(
        sample().published_tags(),
        vec!["Rust".to_string(), "HTTP".to_string(), "wasm".to_string()]
    );
}
