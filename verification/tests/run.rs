use hub_templates::command::{Action, Event, NewCommand, Stage};
use hub_templates::entry::{Category, IndexEntry};

fn entry(title: &str, id: &str, tags: &[&str], category: Category) -> IndexEntry {
    IndexEntry::new(
        title.to_string(),
        format!("About {}", id),
        "Ada".to_string(),
        format!("https://example.com/{}", id),
        id.to_string(),
        tags.iter().map(|t| t.to_string()).collect(),
        category,
    )
}

fn index() -> Vec<IndexEntry> {
    vec![
        entry("Redis Rust", "redis-rust", &["rust", "redis"], Category::Template),
        entry("HTTP Rust", "http-rust", &["rust", "http"], Category::Template),
        entry("Chat Sample", "chat", &["rust"], Category::Sample),
    ]
}

fn create(terms: &[&str], name: &str) -> NewCommand {
    NewCommand::new(terms.iter().map(|t| t.to_string()).collect(), false, Some(name.to_string()))
}

fn list(terms: &[&str]) -> NewCommand {
    NewCommand::new(terms.iter().map(|t| t.to_string()).collect(), true, None)
}

#[test]
fn run_of_a_listing_fetches_the_index_and_reports() {
    let command = list(&["http"]);
    assert!(command.accepts(&Stage::Start, &Event::Begin));
    let (stage, action) = command.run(Stage::Start, Event::Begin);
    assert!(matches!(stage, Stage::Listing));
    assert!(matches!(action, Action::FetchIndex));
    let event = Event::Index(index());
    assert!(command.accepts(&stage, &event));
    let (stage, action) = command.run(stage, event);
    assert!(matches!(stage, Stage::Done));
    match action {
        Action::Report(lines) => {
            assert_eq!(lines, vec!["Template: HTTP Rust\nDescription: About http-rust\n".to_string()])
        }
        other => panic!("expected a report, got {:?}", other),
    }
}

#[test]
fn run_lists_even_when_a_name_is_given() {
    let command = NewCommand::new(Vec::new(), true, Some("app".to_string()));
    let (stage, action) = command.run(Stage::Start, Event::Begin);
    assert!(matches!(stage, Stage::Listing));
    assert!(matches!(action, Action::FetchIndex));
}

#[test]
fn run_without_a_name_asks_for_one() {
    let command = NewCommand::new(vec!["rust".to_string()], false, None);
    let (stage, action) = command.run(Stage::Start, Event::Begin);
    assert!(matches!(stage, Stage::Done));
    match action {
        Action::Report(lines) => assert_eq!(
            lines,
            vec!["Please provide a name for the application you want to create.".to_string()]
        ),
        other => panic!("expected a report, got {:?}", other),
    }
}

#[test]
fn run_with_no_template_found_says_so() {
    let command = create(&["python"], "app");
    let (stage, action) = command.run(Stage::Start, Event::Begin);
    assert!(matches!(stage, Stage::Searching));
    assert!(matches!(action, Action::FetchIndex));
    let (stage, action) = command.run(stage, Event::Index(index()));
    assert!(matches!(stage, Stage::Done));
    match action {
        Action::Report(lines) => {
            assert_eq!(lines, vec!["No templates match your search terms".to_string()])
        }
        other => panic!("expected a report, got {:?}", other),
    }
}

#[test]
fn run_with_one_template_creates_from_it() {
    let command = create(&["redis"], "my-app");
    let (stage, _) = command.run(Stage::Start, Event::Begin);
    let (stage, action) = command.run(stage, Event::Index(index()));
    assert!(matches!(stage, Stage::Done));
    match action {
        Action::Create { announcement, run } => {
            assert_eq!(
                announcement,
                vec!["Template Redis Rust by Ada".to_string(), "About redis-rust".to_string()]
            );
            assert_eq!(run.repo, "https://example.com/redis-rust");
            assert_eq!(run.id, "redis-rust");
            assert_eq!(run.name, "my-app");
            assert_eq!(run.output_path, "my-app");
            assert!(!run.accept_defaults);
        }
        other => panic!("expected a creation, got {:?}", other),
    }
}

#[test]
fn run_with_several_templates_asks_and_creates_the_choice() {
    let command = create(&["rust"], "my-app");
    let (stage, _) = command.run(Stage::Start, Event::Begin);
    let (stage, action) = command.run(stage, Event::Index(index()));
    match &stage {
        Stage::Choosing(choices) => {
            assert_eq!(choices.len(), 2);
            assert_eq!(choices[0].id(), "http-rust");
            assert_eq!(choices[1].id(), "redis-rust");
        }
        other => panic!("expected a choice, got {:?}", other),
    }
    match action {
        Action::Prompt { prompt, items } => {
            assert_eq!(
                prompt,
                "Several templates match your search. Use arrow keys and Enter to select, or Esc to cancel:"
            );
            assert_eq!(items, vec!["HTTP Rust".to_string(), "Redis Rust".to_string()]);
        }
        other => panic!("expected a prompt, got {:?}", other),
    }
    let event = Event::Choice(Some(1));
    assert!(command.accepts(&stage, &event));
    let (stage, action) = command.run(stage, event);
    assert!(matches!(stage, Stage::Done));
    match action {
        Action::Create { announcement, run } => {
            assert_eq!(
                announcement,
                vec!["Template Redis Rust by Ada".to_string(), "About redis-rust".to_string()]
            );
            assert_eq!(run.repo, "https://example.com/redis-rust");
            assert_eq!(run.id, "redis-rust");
            assert_eq!(run.name, "my-app");
            assert_eq!(run.output_path, "my-app");
            assert!(!run.accept_defaults);
        }
        other => panic!("expected a creation, got {:?}", other),
    }
}

#[test]
fn run_without_a_choice_ends_in_silence() {
    let command = create(&["rust"], "my-app");
    let (stage, _) = command.run(Stage::Start, Event::Begin);
    let (stage, _) = command.run(stage, Event::Index(index()));
    let (stage, action) = command.run(stage, Event::Choice(None));
    assert!(matches!(stage, Stage::Done));
    match action {
        Action::Report(lines) => assert_eq!(lines, Vec::<String>::new()),
        other => panic!("expected a report, got {:?}", other),
    }
}

#[test]
fn events_are_accepted_only_where_they_answer() {
    let command = create(&["rust"], "app");
    assert!(command.accepts(&Stage::Start, &Event::Begin));
    assert!(!command.accepts(&Stage::Start, &Event::Index(Vec::new())));
    assert!(!command.accepts(&Stage::Start, &Event::Choice(None)));
    assert!(command.accepts(&Stage::Listing, &Event::Index(Vec::new())));
    assert!(!command.accepts(&Stage::Listing, &Event::Begin));
    assert!(command.accepts(&Stage::Searching, &Event::Index(index())));
    assert!(!command.accepts(&Stage::Searching, &Event::Choice(Some(0))));
    assert!(!command.accepts(&Stage::Done, &Event::Begin));
    assert!(!command.accepts(&Stage::Done, &Event::Index(Vec::new())));
    assert!(!command.accepts(&Stage::Done, &Event::Choice(None)));
}

#[test]
fn choices_are_accepted_only_within_what_was_offered() {
    let command = create(&["rust"], "app");
    let stage = Stage::Choosing(index());
    assert!(command.accepts(&stage, &Event::Choice(None)));
    assert!(command.accepts(&stage, &Event::Choice(Some(0))));
    assert!(command.accepts(&stage, &Event::Choice(Some(2))));
    assert!(!command.accepts(&stage, &Event::Choice(Some(3))));
    assert!(!command.accepts(&stage, &Event::Begin));
}

#[test]
fn a_search_is_accepted_only_with_a_name() {
    let command = NewCommand::new(Vec::new(), false, None);
    assert!(!command.accepts(&Stage::Searching, &Event::Index(index())));
    assert!(!command.accepts(&Stage::Choosing(index()), &Event::Choice(Some(0))));
    assert!(command.accepts(&Stage::Listing, &Event::Index(index())));
}

#[test]
fn template_run_takes_the_name_of_the_application() {
    let command = create(&[], "shop");
    let run = command.run_template("https://example.com/t".to_string(), "t".to_string());
    assert_eq!(run.repo, "https://example.com/t");
    assert_eq!(run.id, "t");
    assert_eq!(run.name, "shop");
    assert_eq!(run.output_path, "shop");
    assert!(!run.accept_defaults);
}
