//! Row and payload types of the catalog, with their mathematical models.
//!
//! Each stored row type has a ghost counterpart over `int` and `Seq<char>`,
//! reached through `View`; every contract in this crate speaks of those
//! models, never of the executable representation.

use vstd::prelude::*;

verus! {

/// Surrogate id assigned by the store.
pub type Id = i32;

/// A stored paper row.
#[derive(Debug, Clone, PartialEq, Eq)]
pub struct Paper {
    pub id: Id,
    pub title: String,
    pub description: String,
    pub body: String,
    pub url: String,
}

/// A stored author row. The name is a natural key: no two rows share one.
#[derive(Debug, Clone, PartialEq, Eq)]
pub struct Author {
    pub id: Id,
    pub name: String,
}

/// A stored subject row (the schema also calls these categories; the two
/// names denote one entity type). The name is a natural key.
#[derive(Debug, Clone, PartialEq, Eq)]
pub struct Category {
    pub id: Id,
    pub name: String,
}

/// A junction row linking a paper to an author; its identity is the composite
/// key `(paper_id, author_id)`.
#[derive(Debug, PartialEq, Eq, Clone, Copy)]
pub struct PaperAuthor {
    pub paper_id: Id,
    pub author_id: Id,
}

/// A junction row linking a paper to a subject; its identity is the composite
/// key `(paper_id, category_id)`.
#[derive(Debug, PartialEq, Eq, Clone, Copy)]
pub struct PaperCategory {
    pub paper_id: Id,
    pub category_id: Id,
}

/// The payload for a new paper; the store assigns the id.
#[derive(Debug, Clone)]
pub struct NewPaper {
    pub title: String,
    pub description: String,
    pub body: String,
    pub url: String,
}

/// The payload naming an author to resolve or create.
#[derive(Debug, Clone)]
pub struct NewAuthor {
    pub name: String,
}

/// The payload naming a subject to resolve or create.
#[derive(Debug, Clone)]
pub struct NewCategory {
    pub name: String,
}

/// The model of a paper row.
pub ghost struct PaperModel {
    pub id: int,
    pub title: Seq<char>,
    pub description: Seq<char>,
    pub body: Seq<char>,
    pub url: Seq<char>,
}

/// The model of a named entity row (an author or a subject).
pub ghost struct EntityModel {
    pub id: int,
    pub name: Seq<char>,
}

/// The model of a junction row: a paper id and the id of the linked entity.
pub ghost struct LinkModel {
    pub paper_id: int,
    pub entity_id: int,
}

/// The model of a new-paper payload.
pub ghost struct NewPaperModel {
    pub title: Seq<char>,
    pub description: Seq<char>,
    pub body: Seq<char>,
    pub url: Seq<char>,
}

impl View for Paper {
    type V = PaperModel;

    open spec fn view(&self) -> PaperModel {
        PaperModel {
            id: self.id as int,
            title: self.title@,
            description: self.description@,
            body: self.body@,
            url: self.url@,
        }
    }
}

impl View for Author {
    type V = EntityModel;

    open spec fn view(&self) -> EntityModel {
        EntityModel { id: self.id as int, name: self.name@ }
    }
}

impl View for Category {
    type V = EntityModel;

    open spec fn view(&self) -> EntityModel {
        EntityModel { id: self.id as int, name: self.name@ }
    }
}

impl View for PaperAuthor {
    type V = LinkModel;

    open spec fn view(&self) -> LinkModel {
        LinkModel { paper_id: self.paper_id as int, entity_id: self.author_id as int }
    }
}

impl View for PaperCategory {
    type V = LinkModel;

    open spec fn view(&self) -> LinkModel {
        LinkModel { paper_id: self.paper_id as int, entity_id: self.category_id as int }
    }
}

impl View for NewPaper {
    type V = NewPaperModel;

    open spec fn view(&self) -> NewPaperModel {
        NewPaperModel {
            title: self.title@,
            description: self.description@,
            body: self.body@,
            url: self.url@,
        }
    }
}

impl View for NewAuthor {
    type V = Seq<char>;

    open spec fn view(&self) -> Seq<char> {
        self.name@
    }
}

impl View for NewCategory {
    type V = Seq<char>;

    open spec fn view(&self) -> Seq<char> {
        self.name@
    }
}

} // verus!
