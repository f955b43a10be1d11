//! The preset collections of categories and the text they are stored as.

use crate::error::GameError;
use crate::text::{answers, chars_of, same_text, trim, trimmed};
use vstd::prelude::*;

verus! {

/// The collections that come with the game.
#[derive(Clone, Copy, Debug, PartialEq, Eq, Structural)]
pub enum Edition {
    Default,
    Junior,
    Adult,
}

/// How many collections a player is asked for at most.
pub const MAX_CHOICES: usize = 3;

/// What a line says when a player is asked for a collection.
#[derive(Clone, Copy, Debug, PartialEq, Eq, Structural)]
pub enum Choice {
    /// The line names a collection.
    Load(Edition),
    /// The line is empty: the player has chosen.
    Done,
    /// The line says nothing that counts.
    Ignored,
}

/// The collection that goes by `name`.
pub open spec fn edition_of(name: Seq<char>) -> Option<Edition> {
    if name == "default"@ {
        Some(Edition::Default)
    } else if name == "junior"@ {
        Some(Edition::Junior)
    } else if name == "adult"@ {
        Some(Edition::Adult)
    } else {
        None
    }
}

/// The file that holds a collection, one category to a line.
pub open spec fn file_of(edition: Edition) -> Seq<char> {
    match edition {
        Edition::Default => "src/categories/default_edition.txt"@,
        Edition::Junior => "src/categories/junior_edition.txt"@,
        Edition::Adult => "src/categories/adult_edition.txt"@,
    }
}

/// What `line` says: the collection that the trimmed line names, or that the
/// player is done, for a line that holds a line feed and no more.
pub open spec fn choice_of(line: Seq<char>) -> Choice {
    match edition_of(trimmed(line)) {
        Some(edition) => Choice::Load(edition),
        None => if line == seq!['\n'] {
            Choice::Done
        } else {
            Choice::Ignored
        },
    }
}

/// Where a line of `text` ends: at its first line feed, or at the end.
pub open spec fn line_end(text: Seq<char>) -> nat
    decreases text.len(),
{
    if text.len() == 0 || text[0] == '\n' {
        0
    } else {
        1 + line_end(text.drop_first())
    }
}

/// A line without the carriage return that stood before its line feed.
pub open spec fn without_return(line: Seq<char>) -> Seq<char> {
    if line.len() > 0 && line.last() == '\r' {
        line.drop_last()
    } else {
        line
    }
}

/// The lines of `text`. A line ends with a line feed, or with a carriage
/// return and a line feed, neither of which belongs to it; the last line
/// may end with the text, and then keeps all its characters.
pub open spec fn lines_of(text: Seq<char>) -> Seq<Seq<char>>
    decreases text.len(),
{
    if text.len() == 0 {
        Seq::empty()
    } else {
        let end = line_end(text) as int;
        if end >= text.len() {
            seq![text]
        } else {
            seq![without_return(text.take(end))] + lines_of(text.skip(end + 1))
        }
    }
}

impl Edition {
    /// The collection that goes by `name`.
    pub fn named(name: &str) -> (edition: Result<Edition, GameError>)
        ensures
            match edition {
                Ok(found) => edition_of(name@) == Some(found),
                Err(error) => edition_of(name@) is None && error
                    == GameError::UnknownCollectionName,
            },
    {
        if same_text(name, "default") {
            Ok(Edition::Default)
        } else if same_text(name, "junior") {
            Ok(Edition::Junior)
        } else if same_text(name, "adult") {
            Ok(Edition::Adult)
        } else {
            Err(GameError::UnknownCollectionName)
        }
    }

    /// The name that the collection goes by.
    pub fn name(&self) -> (name: &'static str)
        ensures
            edition_of(name@) == Some(*self),
    {
        proof {
            reveal_strlit("default");
            reveal_strlit("junior");
            reveal_strlit("adult");
        }
        match self {
            Edition::Default => "default",
            Edition::Junior => {
                assert("junior"@.len() != "default"@.len());
                "junior"
            },
            Edition::Adult => {
                "adult"
            },
        }
    }

    /// The file that holds the collection.
    pub fn file(&self) -> (path: &'static str)
        ensures
            path@ == file_of(*self),
    {
        match self {
            Edition::Default => "src/categories/default_edition.txt",
            Edition::Junior => "src/categories/junior_edition.txt",
            Edition::Adult => "src/categories/adult_edition.txt",
        }
    }
}

/// The file of the collection that goes by `name`.
pub fn collection_file(name: &str) -> (path: Result<&'static str, GameError>)
    ensures
        match path {
            Ok(file) => edition_of(name@) is Some && file@ == file_of(edition_of(name@)->0),
            Err(error) => edition_of(name@) is None && error == GameError::UnknownCollectionName,
        },
{
    match Edition::named(name) {
        Ok(edition) => Ok(edition.file()),
        Err(error) => Err(error),
    }
}

/// What `line` says when a player is asked for a collection.
pub fn read_choice(line: &str) -> (choice: Choice)
    ensures
        choice == choice_of(line@),
{
    proof {
        reveal_strlit("default");
        reveal_strlit("junior");
        reveal_strlit("adult");
        reveal_strlit("\n");
    }
    if answers(line, "default") {
        Choice::Load(Edition::Default)
    } else if answers(line, "junior") {
        Choice::Load(Edition::Junior)
    } else if answers(line, "adult") {
        Choice::Load(Edition::Adult)
    } else if same_text(line, "\n") {
        assert(line@ =~= seq!['\n']);
        Choice::Done
    } else {
        assert(line@ != seq!['\n']) by {
            if line@ == seq!['\n'] {
                assert(line@ =~= "\n"@);
            }
        }
        Choice::Ignored
    }
}

/// The category that `line` adds to a collection: the trimmed line, unless
/// that is the word `exit`, which adds nothing and ends the adding.
pub fn read_entry(line: &str) -> (entry: Option<&str>)
    ensures
        match entry {
            Some(category) => category@ == trimmed(line@) && trimmed(line@) != "exit"@,
            None => trimmed(line@) == "exit"@,
        },
{
    let inner = trim(line);
    if same_text(inner, "exit") {
        None
    } else {
        Some(inner)
    }
}

/// A player's choice of collections, as far as it has come.
pub struct SelectionView {
    /// The categories of the collections chosen so far.
    pub categories: Seq<Seq<char>>,
    /// How many lines the player has been asked for.
    pub asked: nat,
    /// The player has said that the choice is made.
    pub closed: bool,
}

impl SelectionView {
    /// Another line is to be read: the player has neither closed the choice
    /// nor been asked `MAX_CHOICES` times.
    pub open spec fn is_open(self) -> bool {
        !self.closed && self.asked < MAX_CHOICES
    }
}

/// The choice of collections at the start of a game: the player is asked up
/// to `MAX_CHOICES` times, each answer may name a collection to load, and an
/// empty line ends the asking.
pub struct Selection {
    categories: Vec<String>,
    asked: usize,
    closed: bool,
}

impl View for Selection {
    type V = SelectionView;

    closed spec fn view(&self) -> SelectionView {
        SelectionView {
            categories: self.categories.deep_view(),
            asked: self.asked as nat,
            closed: self.closed,
        }
    }
}

impl Selection {
    /// Nothing chosen, nothing asked.
    pub fn new() -> (selection: Selection)
        ensures
            selection@ == (SelectionView { categories: Seq::empty(), asked: 0, closed: false }),
    {
        let selection = Selection { categories: Vec::new(), asked: 0, closed: false };
        assert(selection.categories.deep_view() =~= Seq::<Seq<char>>::empty());
        selection
    }

    /// Whether another line is to be read.
    pub fn is_open(&self) -> (open: bool)
        ensures
            open == self@.is_open(),
    {
        !self.closed && self.asked < MAX_CHOICES
    }

    /// Takes the player's next line and tells what it says. A line that
    /// names a collection asks for it to be loaded and added.
    pub fn offer(&mut self, line: &str) -> (choice: Choice)
        requires
            old(self)@.is_open(),
        ensures
            choice == choice_of(line@),
            final(self)@ == (SelectionView {
                asked: old(self)@.asked + 1,
                closed: choice == Choice::Done,
                ..old(self)@
            }),
    {
        let choice = read_choice(line);
        self.asked = self.asked + 1;
        self.closed = match choice {
            Choice::Done => true,
            _ => false,
        };
        choice
    }

    /// Adds the categories of a collection that was loaded.
    pub fn add(&mut self, loaded: Vec<String>)
        ensures
            final(self)@ == (SelectionView {
                categories: old(self)@.categories + loaded.deep_view(),
                ..old(self)@
            }),
    {
        let ghost before = self.categories.deep_view();
        let mut loaded = loaded;
        let ghost added = loaded.deep_view();
        self.categories.append(&mut loaded);
        assert(self.categories.deep_view() =~= before + added);
    }

    /// The categories chosen. A game needs at least one.
    pub fn finish(self) -> (chosen: Result<Vec<String>, GameError>)
        ensures
            match chosen {
                Ok(categories) => categories.deep_view() == self@.categories
                    && self@.categories.len() > 0,
                Err(error) => error == GameError::EmptyCollection && self@.categories.len() == 0,
            },
    {
        if self.categories.len() == 0 {
            Err(GameError::EmptyCollection)
        } else {
            Ok(self.categories)
        }
    }
}

/// A line of a text ends at the first line feed that follows it.
proof fn lemma_line_end(text: Seq<char>, end: int)
    requires
        0 <= end <= text.len(),
        forall|i: int| 0 <= i < end ==> #[trigger] text[i] != '\n',
        end < text.len() ==> text[end] == '\n',
    ensures
        line_end(text) == end,
    decreases end,
{
    if end > 0 {
        let rest = text.drop_first();
        lemma_line_end(rest, end - 1);
    }
}

/// The categories that `text` lists, one to a line.
pub fn parse_categories(text: &str) -> (categories: Vec<String>)
    ensures
        categories.deep_view() == lines_of(text@),
{
    let chars = chars_of(text);
    let mut categories: Vec<String> = Vec::new();
    let mut start: usize = 0;
    let mut at: usize = 0;
    assert(text@.skip(0) =~= text@);
    while at < chars.len()
        invariant
            chars@ == text@,
            start <= at <= chars@.len(),
            forall|i: int| start <= i < at ==> #[trigger] chars@[i] != '\n',
            categories.deep_view() + lines_of(text@.skip(start as int)) == lines_of(text@),
        decreases chars@.len() - at,
    {
        if chars[at] == '\n' {
            let end = if at > start && chars[at - 1] == '\r' {
                at - 1
            } else {
                at
            };
            let line = text.substring_char(start, end).to_owned();
            proof {
                let rest = text@.skip(start as int);
                let length = at - start;
                lemma_line_end(rest, length);
                assert(line@ =~= without_return(rest.take(length)));
                assert(rest.skip(length + 1) =~= text@.skip(at + 1));
            }
            categories.push(line);
            start = at + 1;
        }
        at += 1;
    }
    if start < chars.len() {
        let line = text.substring_char(start, chars.len()).to_owned();
        proof {
            let rest = text@.skip(start as int);
            lemma_line_end(rest, rest.len() as int);
        }
        categories.push(line);
    }
    categories
}

} // verus!
