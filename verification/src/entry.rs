//! Entries of the hub index.

use crate::text::{
    clone_texts, lowercase_each, lowercase_of, lowercase_words, texts, words_of,
};
use vstd::prelude::*;

verus! {

/// What kind of thing an index entry describes.
#[derive(Clone, Copy, Debug, PartialEq, Eq, Structural)]
pub enum Category {
    Template,
    Sample,
    Plugin,
    Library,
}

/// One entry of the hub index, as the hub publishes it.
#[derive(Debug)]
pub struct IndexEntry {
    title: String,
    summary: String,
    author: String,
    url: String,
    id: String,
    tags: Vec<String>,
    category: Category,
}

/// The mathematical content of an [`IndexEntry`].
pub ghost struct EntryView {
    pub title: Seq<char>,
    pub summary: Seq<char>,
    pub author: Seq<char>,
    pub url: Seq<char>,
    pub id: Seq<char>,
    pub tags: Seq<Seq<char>>,
    pub category: Category,
}

impl EntryView {
    /// The tags under which the entry is found: its tags in lowercase.
    pub open spec fn search_tags(self) -> Seq<Seq<char>> {
        lowercase_each(self.tags)
    }

    /// The words under which the entry is found: the words of its title in
    /// lowercase.
    pub open spec fn search_words(self) -> Seq<Seq<char>> {
        lowercase_each(words_of(self.title))
    }
}

impl View for IndexEntry {
    type V = EntryView;

    closed spec fn view(&self) -> EntryView {
        EntryView {
            title: self.title@,
            summary: self.summary@,
            author: self.author@,
            url: self.url@,
            id: self.id@,
            tags: texts(self.tags@),
            category: self.category,
        }
    }
}

/// The views of a sequence of entries.
pub open spec fn views(entries: Seq<IndexEntry>) -> Seq<EntryView> {
    entries.map_values(|entry: IndexEntry| entry@)
}

impl Clone for IndexEntry {
    fn clone(&self) -> (copy: Self)
        ensures
            copy@ == self@,
    {
        IndexEntry {
            title: self.title.clone(),
            summary: self.summary.clone(),
            author: self.author.clone(),
            url: self.url.clone(),
            id: self.id.clone(),
            tags: clone_texts(&self.tags),
            category: self.category,
        }
    }
}

impl IndexEntry {
    /// An entry with the given content.
    pub fn new(
        title: String,
        summary: String,
        author: String,
        url: String,
        id: String,
        tags: Vec<String>,
        category: Category,
    ) -> (entry: Self)
        ensures
            entry@ == (EntryView {
                title: title@,
                summary: summary@,
                author: author@,
                url: url@,
                id: id@,
                tags: texts(tags@),
                category,
            }),
    {
        IndexEntry { title, summary, author, url, id, tags, category }
    }

    /// The title, as published.
    pub fn title(&self) -> (title: String)
        ensures
            title@ == self@.title,
    {
        self.title.clone()
    }

    /// The one-line description.
    pub fn summary(&self) -> (summary: String)
        ensures
            summary@ == self@.summary,
    {
        self.summary.clone()
    }

    /// The author.
    pub fn author(&self) -> (author: String)
        ensures
            author@ == self@.author,
    {
        self.author.clone()
    }

    /// The address of the repository that holds the entry's content.
    pub fn url(&self) -> (url: String)
        ensures
            url@ == self@.url,
    {
        self.url.clone()
    }

    /// The identifier by which the template engine knows the entry.
    pub fn id(&self) -> (id: String)
        ensures
            id@ == self@.id,
    {
        self.id.clone()
    }

    /// The category.
    pub fn category(&self) -> (category: Category)
        ensures
            category == self@.category,
    {
        self.category
    }

    /// The tags, as published.
    pub fn published_tags(&self) -> (tags: Vec<String>)
        ensures
            texts(tags@) == self@.tags,
    {
        clone_texts(&self.tags)
    }

    /// The tags in lowercase, in the order in which the entry lists them.
    pub fn tags(&self) -> (tags: Vec<String>)
        ensures
            texts(tags@) == self@.search_tags(),
    {
        let mut tags: Vec<String> = Vec::new();
        let mut i: usize = 0;
        while i < self.tags.len()
            invariant
                i <= self.tags.len(),
                texts(tags@) == lowercase_each(texts(self.tags@.take(i as int))),
            decreases self.tags.len() - i,
        {
            let tag = self.tags[i].as_str().to_lowercase();
            proof {
                let done = self.tags@.take(i as int);
                assert(self.tags@.take(i + 1) =~= done.push(self.tags@[i as int]));
                assert(texts(tags@.push(tag)) =~= texts(tags@).push(tag@));
                assert(lowercase_each(texts(done.push(self.tags@[i as int]))) =~= lowercase_each(
                    texts(done),
                ).push(lowercase_of(self.tags@[i as int]@)));
            }
            tags.push(tag);
            i += 1;
        }
        assert(self.tags@.take(self.tags.len() as int) =~= self.tags@);
        tags
    }

    /// The words of the title in lowercase, from left to right.
    pub fn title_words(&self) -> (words: Vec<String>)
        ensures
            texts(words@) == self@.search_words(),
    {
        lowercase_words(self.title.as_str())
    }
}

} // verus!
