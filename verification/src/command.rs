//! The `new` command: searching the index and choosing a template.

use crate::entry::{views, Category, EntryView, IndexEntry};
use crate::text::clone_texts;
use crate::order::{
    lemma_sorted_by_title_same_entries, lemma_title_order_exists, lemma_title_order_is,
    sorted_by_title, title_order,
};
use crate::text::{lowercase_of, texts};
use vstd::prelude::*;
use vstd::string::*;

verus! {

/// The `new` command as the user gave it.
#[derive(Debug)]
pub struct NewCommand {
    terms: Vec<String>,
    list: bool,
    name: Option<String>,
}

/// The mathematical content of a [`NewCommand`].
pub ghost struct CommandView {
    /// The search terms, as typed.
    pub terms: Seq<Seq<char>>,
    /// Whether the command only lists what the terms find.
    pub list: bool,
    /// The name of the application to create.
    pub name: Option<Seq<char>>,
}

/// What a search for the template of a new application comes to.
#[derive(Debug)]
pub enum Selection {
    /// No template answers the search.
    NoMatch,
    /// One template answers the search.
    Unique(IndexEntry),
    /// Several templates answer the search; they stand in title order.
    Ambiguous(Vec<IndexEntry>),
}

/// What the template engine is given to create an application.
#[derive(Debug)]
pub struct TemplateRun {
    /// The repository from which the template is installed.
    pub repo: String,
    /// The template to run once it is installed.
    pub id: String,
    /// The name of the application.
    pub name: String,
    /// The directory in which the application is created.
    pub output_path: String,
    /// Whether the engine takes the template's defaults without asking.
    pub accept_defaults: bool,
}

/// Where a run of the command stands.
#[derive(Debug)]
pub enum Stage {
    /// Nothing was done yet.
    Start,
    /// The index was asked for, to list it.
    Listing,
    /// The index was asked for, to search it for the template.
    Searching,
    /// The user was asked to choose among these templates.
    Choosing(Vec<IndexEntry>),
    /// The run is over.
    Done,
}

/// What the outside world answers to an [`Action`].
#[derive(Debug)]
pub enum Event {
    /// The run begins.
    Begin,
    /// The index was fetched.
    Index(Vec<IndexEntry>),
    /// The user chose the template at this position, or none.
    Choice(Option<usize>),
}

/// What the caller is to do next.
#[derive(Debug)]
pub enum Action {
    /// Fetch the index and answer with [`Event::Index`].
    FetchIndex,
    /// Print these lines; the run is over.
    Report(Vec<String>),
    /// Ask the user to choose one of `items` and answer with
    /// [`Event::Choice`].
    Prompt { prompt: String, items: Vec<String> },
    /// Print the lines of `announcement`, then install and run the template;
    /// the run is over.
    Create { announcement: Vec<String>, run: TemplateRun },
}

impl View for NewCommand {
    type V = CommandView;

    closed spec fn view(&self) -> CommandView {
        CommandView {
            terms: texts(self.terms@),
            list: self.list,
            name: match self.name {
                Some(name) => Some(name@),
                None => None,
            },
        }
    }
}

/// Whether an entry is found under a search term: the term in lowercase is
/// one of the entry's tags in lowercase or one of the words of its title in
/// lowercase.
pub open spec fn term_finds(term: Seq<char>, entry: EntryView) -> bool {
    entry.search_tags().contains(lowercase_of(term)) || entry.search_words().contains(
        lowercase_of(term),
    )
}

/// What is said when no entry answers the search.
pub open spec fn no_match_message() -> Seq<char> {
    "No templates match your search terms"@
}

/// What is said when an application is to be created and has no name.
pub open spec fn name_missing_message() -> Seq<char> {
    "Please provide a name for the application you want to create."@
}

/// The question put to the user when several templates answer the search.
pub open spec fn choice_prompt() -> Seq<char> {
    "Several templates match your search. Use arrow keys and Enter to select, or Esc to cancel:"@
}

/// The line that a listing shows for an entry.
pub open spec fn listing_line(entry: EntryView) -> Seq<char> {
    "Template: "@ + entry.title + "\nDescription: "@ + entry.summary + "\n"@
}

/// The lines of a listing of `shown`: one line for each entry, or the
/// message that nothing was found.
pub open spec fn listing(shown: Seq<EntryView>) -> Seq<Seq<char>> {
    if shown.len() == 0 {
        seq![no_match_message()]
    } else {
        shown.map_values(|entry: EntryView| listing_line(entry))
    }
}

/// The lines that announce the template from which an application is
/// created.
pub open spec fn announcement(entry: EntryView) -> Seq<Seq<char>> {
    seq!["Template "@ + entry.title + " by "@ + entry.author, entry.summary]
}

/// The titles of a sequence of entries.
pub open spec fn titles(entries: Seq<EntryView>) -> Seq<Seq<char>> {
    entries.map_values(|entry: EntryView| entry.title)
}

impl CommandView {
    /// Whether the entry is found under every search term.
    pub open spec fn terms_match(self, entry: EntryView) -> bool {
        forall|i: int| 0 <= i < self.terms.len() ==> term_finds(#[trigger] self.terms[i], entry)
    }

    /// Whether the entry is a template.
    pub open spec fn category_matches(self, entry: EntryView) -> bool {
        entry.category == Category::Template
    }

    /// Whether an application can be created from the entry under this
    /// search: it is a template found under every term.
    pub open spec fn matches(self, entry: EntryView) -> bool {
        self.terms_match(entry) && self.category_matches(entry)
    }

    /// The test by which the command picks entries: every term finds the
    /// entry and, where `templates_only` is set, the entry is a template.
    pub open spec fn picks(self, templates_only: bool) -> spec_fn(EntryView) -> bool {
        |entry: EntryView|
            self.terms_match(entry) && (templates_only ==> self.category_matches(entry))
    }

    /// The entries that a listing shows, in the order of the index.
    pub open spec fn listed(self, entries: Seq<EntryView>) -> Seq<EntryView> {
        entries.filter(self.picks(false))
    }

    /// The entries from which an application can be created, in the order of
    /// the index.
    pub open spec fn candidates(self, entries: Seq<EntryView>) -> Seq<EntryView> {
        entries.filter(self.picks(true))
    }

    /// Whether `selection` is what the search of `entries` comes to.
    pub open spec fn selects(self, entries: Seq<EntryView>, selection: Selection) -> bool {
        let found = title_order(self.candidates(entries));
        match selection {
            Selection::NoMatch => found.len() == 0,
            Selection::Unique(entry) => found.len() == 1 && entry@ == found[0],
            Selection::Ambiguous(choices) => found.len() > 1 && views(choices@) == found,
        }
    }

    /// Whether `action` reports `lines`.
    pub open spec fn reports(self, action: Action, lines: Seq<Seq<char>>) -> bool {
        action matches Action::Report(said) && texts(said@) == lines
    }

    /// Whether `action` creates the application from the template `entry`.
    pub open spec fn creates(self, action: Action, entry: EntryView) -> bool {
        action matches Action::Create { announcement: said, run } && texts(said@) == announcement(
            entry,
        ) && self.hands_over(entry.url, entry.id, run)
    }

    /// Whether `action` asks the user to choose among `choices`.
    pub open spec fn prompts(self, action: Action, choices: Seq<EntryView>) -> bool {
        action matches Action::Prompt { prompt, items } && prompt@ == choice_prompt() && texts(
            items@,
        ) == titles(choices)
    }

    /// Whether `event` can answer a run that stands at `stage`: the run
    /// begins at the start, the index answers a request for it, and a choice
    /// answers the question with one of the positions offered or none. A
    /// search is under way only for an application that has a name.
    pub open spec fn accepts(self, stage: Stage, event: Event) -> bool {
        match (stage, event) {
            (Stage::Start, Event::Begin) => true,
            (Stage::Listing, Event::Index(_)) => true,
            (Stage::Searching, Event::Index(_)) => self.name is Some,
            (Stage::Choosing(choices), Event::Choice(choice)) => self.name is Some && (
            choice matches Some(position) ==> position < choices@.len()),
            _ => false,
        }
    }

    /// Whether a run at `stage` that is answered `event` goes on to `next`
    /// with `action`.
    pub open spec fn steps(self, stage: Stage, event: Event, next: Stage, action: Action) -> bool {
        match (stage, event) {
            (Stage::Start, Event::Begin) => if self.list {
                next is Listing && action is FetchIndex
            } else if self.name is None {
                next is Done && self.reports(action, seq![name_missing_message()])
            } else {
                next is Searching && action is FetchIndex
            },
            (Stage::Listing, Event::Index(entries)) => next is Done && self.reports(
                action,
                listing(title_order(self.listed(views(entries@)))),
            ),
            (Stage::Searching, Event::Index(entries)) => {
                let found = title_order(self.candidates(views(entries@)));
                if found.len() == 0 {
                    next is Done && self.reports(action, seq![no_match_message()])
                } else if found.len() == 1 {
                    next is Done && self.creates(action, found[0])
                } else {
                    &&& next matches Stage::Choosing(choices)
                    &&& views(choices@) == found
                    &&& self.prompts(action, found)
                }
            },
            (Stage::Choosing(choices), Event::Choice(choice)) => match choice {
                Some(position) => next is Done && self.creates(
                    action,
                    choices@[position as int]@,
                ),
                None => next is Done && self.reports(action, Seq::empty()),
            },
            _ => true,
        }
    }

    /// Whether `run` is what the engine is given for the template `id` of
    /// the repository `repo`.
    pub open spec fn hands_over(self, repo: Seq<char>, id: Seq<char>, run: TemplateRun) -> bool {
        &&& run.repo@ == repo
        &&& run.id@ == id
        &&& self.name == Some(run.name@)
        &&& run.output_path@ == run.name@
        &&& !run.accept_defaults
    }
}

/// Whether `needle` is one of the strings of `list`.
fn contains_text(list: &Vec<String>, needle: &String) -> (found: bool)
    ensures
        found == texts(list@).contains(needle@),
{
    let mut i: usize = 0;
    while i < list.len()
        invariant
            i <= list.len(),
            forall|k: int| 0 <= k < i ==> texts(list@)[k] != needle@,
        decreases list.len() - i,
    {
        if list[i] == *needle {
            assert(texts(list@)[i as int] == needle@);
            return true;
        }
        i += 1;
    }
    false
}

impl NewCommand {
    /// The command with the given search terms, listing flag and application
    /// name.
    pub fn new(terms: Vec<String>, list: bool, name: Option<String>) -> (command: Self)
        ensures
            command@.terms == texts(terms@),
            command@.list == list,
            command@.name == match name {
                Some(name) => Some(name@),
                None => None::<Seq<char>>,
            },
    {
        NewCommand { terms, list, name }
    }

    /// The search terms, as typed.
    pub fn terms(&self) -> (terms: Vec<String>)
        ensures
            texts(terms@) == self@.terms,
    {
        clone_texts(&self.terms)
    }

    /// Whether the command only lists what the terms find.
    pub fn list(&self) -> (list: bool)
        ensures
            list == self@.list,
    {
        self.list
    }

    /// The name of the application to create.
    pub fn name(&self) -> (name: Option<String>)
        ensures
            self@.name == match name {
                Some(name) => Some(name@),
                None => None::<Seq<char>>,
            },
    {
        match &self.name {
            Some(name) => Some(name.clone()),
            None => None,
        }
    }

    /// Whether an application can be created from the entry: it is a
    /// template and every search term finds it.
    pub fn is_match(&self, index_entry: &IndexEntry) -> (matched: bool)
        ensures
            matched == self@.matches(index_entry@),
    {
        self.is_terms_match(index_entry) && self.is_category_match(index_entry)
    }

    /// Whether every search term finds the entry, by one of its tags or by a
    /// word of its title, letter case aside.
    pub fn is_terms_match(&self, index_entry: &IndexEntry) -> (matched: bool)
        ensures
            matched == self@.terms_match(index_entry@),
    {
        let tags = index_entry.tags();
        let title = index_entry.title_words();
        let mut i: usize = 0;
        while i < self.terms.len()
            invariant
                i <= self.terms.len(),
                texts(tags@) == index_entry@.search_tags(),
                texts(title@) == index_entry@.search_words(),
                forall|k: int| 0 <= k < i ==> term_finds(#[trigger] self@.terms[k], index_entry@),
            decreases self.terms.len() - i,
        {
            let term = self.terms[i].as_str().to_lowercase();
            assert(self@.terms[i as int] == self.terms@[i as int]@);
            if !(contains_text(&tags, &term) || contains_text(&title, &term)) {
                return false;
            }
            i += 1;
        }
        true
    }

    /// Whether the entry is a template.
    pub fn is_category_match(&self, index_entry: &IndexEntry) -> (matched: bool)
        ensures
            matched == self@.category_matches(index_entry@),
    {
        index_entry.category() == Category::Template
    }

    /// The entries that the command picks, in title order.
    fn pick(&self, entries: &Vec<IndexEntry>, templates_only: bool) -> (picked: Vec<IndexEntry>)
        ensures
            views(picked@) == title_order(views(entries@).filter(self@.picks(templates_only))),
            picked@.len() == views(entries@).filter(self@.picks(templates_only)).len(),
    {
        let ghost test = self@.picks(templates_only);
        let mut found: Vec<IndexEntry> = Vec::new();
        let mut i: usize = 0;
        assert(views(entries@.take(0)).filter(test) =~= views(found@)) by {
            reveal(Seq::filter);
        }
        while i < entries.len()
            invariant
                i <= entries.len(),
                test == self@.picks(templates_only),
                views(found@) == views(entries@.take(i as int)).filter(test),
            decreases entries.len() - i,
        {
            let entry = &entries[i];
            let picked = self.is_terms_match(entry) && (!templates_only || self.is_category_match(
                entry,
            ));
            proof {
                let seen = entries@.take(i as int);
                assert(entries@.take(i + 1) =~= seen.push(entries@[i as int]));
                assert(views(seen.push(entries@[i as int])) =~= views(seen).push(entry@));
                views(seen).lemma_filter_push(entry@, test);
            }
            if picked {
                let copy = entry.clone();
                assert(views(found@.push(copy)) =~= views(found@).push(entry@));
                found.push(copy);
            }
            i += 1;
        }
        assert(entries@.take(entries.len() as int) =~= entries@);
        let ghost unsorted = views(found@);
        let sorted = sorted_by_title(found);
        proof {
            lemma_title_order_is(views(sorted@), unsorted);
            lemma_sorted_by_title_same_entries(views(sorted@), unsorted);
        }
        sorted
    }

    /// The lines of the listing of an index: one line for each entry that
    /// every search term finds, in title order, or the message that nothing
    /// was found.
    pub fn list_templates(&self, entries: &Vec<IndexEntry>) -> (lines: Vec<String>)
        ensures
            texts(lines@) == listing(title_order(self@.listed(views(entries@)))),
    {
        let shown = self.pick(entries, false);
        let mut lines: Vec<String> = Vec::new();
        if shown.len() == 0 {
            let line = String::from_str("No templates match your search terms");
            assert(texts(lines@.push(line)) =~= seq![no_match_message()]);
            lines.push(line);
            return lines;
        }
        let mut i: usize = 0;
        while i < shown.len()
            invariant
                i <= shown.len(),
                lines@.len() == i,
                forall|k: int| 0 <= k < i ==> (#[trigger] lines@[k])@ == listing_line(shown@[k]@),
            decreases shown.len() - i,
        {
            let mut line = String::from_str("Template: ");
            line.append(shown[i].title().as_str());
            line.append("\nDescription: ");
            line.append(shown[i].summary().as_str());
            line.append("\n");
            lines.push(line);
            i += 1;
        }
        assert(texts(lines@) =~= listing(views(shown@)));
        lines
    }

    /// Searches the index for the template of the application: the templates
    /// that every search term finds, in title order. None makes `NoMatch`,
    /// one is `Unique`, several are `Ambiguous` and wait for a choice.
    pub fn resolve_selection(&self, entries: &Vec<IndexEntry>) -> (selection: Selection)
        ensures
            self@.selects(views(entries@), selection),
    {
        let mut found = self.pick(entries, true);
        if found.len() == 0 {
            Selection::NoMatch
        } else if found.len() == 1 {
            let ghost all = views(found@);
            let entry = found.remove(0);
            assert(entry@ == all[0]);
            Selection::Unique(entry)
        } else {
            Selection::Ambiguous(found)
        }
    }

    /// Whether `event` can answer a run of the command that stands at
    /// `stage`.
    pub fn accepts(&self, stage: &Stage, event: &Event) -> (accepted: bool)
        ensures
            accepted == self@.accepts(*stage, *event),
    {
        match (stage, event) {
            (Stage::Start, Event::Begin) => true,
            (Stage::Listing, Event::Index(_)) => true,
            (Stage::Searching, Event::Index(_)) => self.name.is_some(),
            (Stage::Choosing(choices), Event::Choice(choice)) => self.name.is_some() && match choice {
                Some(position) => *position < choices.len(),
                None => true,
            },
            _ => false,
        }
    }

    /// One step of a run of the command: from where the run stands and what
    /// the outside world answered, where it stands next and what the caller
    /// is to do.
    ///
    /// A run starts at [`Stage::Start`] with [`Event::Begin`]. A listing
    /// fetches the index and reports its lines. Without a name the run ends
    /// with the request for one. Otherwise the index is fetched and
    /// searched: no template ends the run with a message, one template is
    /// announced and created, several are offered to the user, whose choice
    /// is announced and created; without a choice the run ends in silence.
    pub fn run(&self, stage: Stage, event: Event) -> (step: (Stage, Action))
        requires
            self@.accepts(stage, event),
        ensures
            self@.steps(stage, event, step.0, step.1),
    {
        match (stage, event) {
            (Stage::Start, Event::Begin) => {
                if self.list {
                    (Stage::Listing, Action::FetchIndex)
                } else if self.name.is_none() {
                    let mut lines: Vec<String> = Vec::new();
                    let line = String::from_str(
                        "Please provide a name for the application you want to create.",
                    );
                    assert(texts(lines@.push(line)) =~= seq![name_missing_message()]);
                    lines.push(line);
                    (Stage::Done, Action::Report(lines))
                } else {
                    (Stage::Searching, Action::FetchIndex)
                }
            },
            (Stage::Listing, Event::Index(entries)) => {
                (Stage::Done, Action::Report(self.list_templates(&entries)))
            },
            (Stage::Searching, Event::Index(entries)) => {
                match self.resolve_selection(&entries) {
                    Selection::NoMatch => {
                        let mut lines: Vec<String> = Vec::new();
                        let line = String::from_str("No templates match your search terms");
                        assert(texts(lines@.push(line)) =~= seq![no_match_message()]);
                        lines.push(line);
                        (Stage::Done, Action::Report(lines))
                    },
                    Selection::Unique(entry) => (Stage::Done, self.create(&entry)),
                    Selection::Ambiguous(choices) => {
                        let prompt = String::from_str(
                            "Several templates match your search. Use arrow keys and Enter to select, or Esc to cancel:",
                        );
                        let items = titles_of(&choices);
                        (Stage::Choosing(choices), Action::Prompt { prompt, items })
                    },
                }
            },
            (Stage::Choosing(choices), Event::Choice(choice)) => {
                match choice {
                    Some(position) => (Stage::Done, self.create(&choices[position])),
                    None => {
                        let lines: Vec<String> = Vec::new();
                        assert(texts(lines@) =~= Seq::<Seq<char>>::empty());
                        (Stage::Done, Action::Report(lines))
                    },
                }
            },
            _ => vstd::pervasive::unreached(),
        }
    }

    /// The action that announces the template `entry` and creates the
    /// application from it.
    fn create(&self, entry: &IndexEntry) -> (action: Action)
        requires
            self@.name is Some,
        ensures
            self@.creates(action, entry@),
    {
        let mut headline = String::from_str("Template ");
        headline.append(entry.title().as_str());
        headline.append(" by ");
        headline.append(entry.author().as_str());
        let mut said: Vec<String> = Vec::new();
        said.push(headline);
        said.push(entry.summary());
        assert(texts(said@) =~= announcement(entry@));
        let (repo, id) = get_repo_and_id(entry);
        Action::Create { announcement: said, run: self.run_template(repo, id) }
    }

    /// What the template engine is given to create the application from the
    /// template `id` of the repository `repo`: the application takes the
    /// command's name and is created in the directory of that name, and the
    /// engine asks for every value.
    pub fn run_template(&self, repo: String, id: String) -> (run: TemplateRun)
        requires
            self@.name is Some,
        ensures
            self@.hands_over(repo@, id@, run),
    {
        let name = match &self.name {
            Some(name) => name.clone(),
            None => vstd::pervasive::unreached(),
        };
        let output_path = name.clone();
        TemplateRun { repo, id, name, output_path, accept_defaults: false }
    }
}

/// The titles of `entries`, in their order.
pub fn titles_of(entries: &Vec<IndexEntry>) -> (items: Vec<String>)
    ensures
        texts(items@) == titles(views(entries@)),
{
    let mut items: Vec<String> = Vec::new();
    let mut i: usize = 0;
    while i < entries.len()
        invariant
            i <= entries.len(),
            items@.len() == i,
            forall|k: int| 0 <= k < i ==> (#[trigger] items@[k])@ == entries@[k]@.title,
        decreases entries.len() - i,
    {
        items.push(entries[i].title());
        i += 1;
    }
    assert(texts(items@) =~= titles(views(entries@)));
    items
}

/// The repository and the identifier of the template that an entry
/// describes.
pub fn get_repo_and_id(index_entry: &IndexEntry) -> (located: (String, String))
    ensures
        located.0@ == index_entry@.url,
        located.1@ == index_entry@.id,
{
    let repo_url = index_entry.url();
    let template_id = index_entry.id();
    (repo_url, template_id)
}

/// What is shown or offered is what was asked for: an entry stands in the
/// title order of the picked entries exactly if it is an entry of the index
/// that every search term finds and, where only templates are picked, a
/// template.
pub proof fn lemma_picked_entries(
    command: CommandView,
    entries: Seq<EntryView>,
    templates_only: bool,
    entry: EntryView,
)
    ensures
        title_order(entries.filter(command.picks(templates_only))).contains(entry) <==> {
            &&& entries.contains(entry)
            &&& command.terms_match(entry)
            &&& templates_only ==> command.category_matches(entry)
        },
{
    let test = command.picks(templates_only);
    let picked = entries.filter(test);
    lemma_title_order_exists(picked);
    lemma_sorted_by_title_same_entries(title_order(picked), picked);
    if picked.contains(entry) {
        entries.lemma_filter_contains_rev(test, entry);
    }
    if entries.contains(entry) && test(entry) {
        let i = choose|i: int| 0 <= i < entries.len() && entries[i] == entry;
        entries.lemma_filter_contains(test, i);
    }
}

/// How many steps a run that stands at `stage` can still take.
pub open spec fn steps_left(stage: Stage) -> nat {
    match stage {
        Stage::Start => 3,
        Stage::Searching => 2,
        Stage::Listing => 1,
        Stage::Choosing(_) => 1,
        Stage::Done => 0,
    }
}

/// A run comes to its end: each step leaves fewer steps to take, and the run
/// is over exactly when the step reports or creates.
pub proof fn lemma_run_ends(
    command: CommandView,
    stage: Stage,
    event: Event,
    next: Stage,
    action: Action,
)
    requires
        command.accepts(stage, event),
        command.steps(stage, event, next, action),
    ensures
        steps_left(next) < steps_left(stage),
        next is Done <==> action is Report || action is Create,
{
}

/// A run can go on: after a step, the answer that the step's action asks for
/// is accepted. The index answers a request for it, and a choice answers a
/// question where it is none or one of the positions offered.
pub proof fn lemma_run_goes_on(
    command: CommandView,
    stage: Stage,
    event: Event,
    next: Stage,
    action: Action,
    answer: Event,
)
    requires
        command.accepts(stage, event),
        command.steps(stage, event, next, action),
        match action {
            Action::FetchIndex => answer is Index,
            Action::Prompt { prompt, items } => answer matches Event::Choice(choice) && (
            choice matches Some(position) ==> position < items@.len()),
            _ => false,
        },
    ensures
        command.accepts(next, answer),
{
    if action is Prompt {
        let found = title_order(command.candidates(views(event->Index_0@)));
        assert(titles(found).len() == found.len());
        assert(texts(action->items@).len() == action->items@.len());
    }
}

/// A command without search terms finds every entry.
pub proof fn lemma_no_terms_match_all(command: CommandView, entry: EntryView)
    requires
        command.terms.len() == 0,
    ensures
        command.terms_match(entry),
{
}

} // verus!
