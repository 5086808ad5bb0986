//! The mathematical model of the store and of its transitions.
//!
//! A [`StoreModel`] is the content of the five tables together with the next
//! surrogate id of each entity table. [`wf`] states the schema's constraints:
//! unique natural keys, unique surrogate ids assigned in sequence, composite
//! junction keys, and referential integrity. The spec functions below are the
//! transitions that the executable statements of [`crate::db`] are proved to
//! follow.

use vstd::prelude::*;
use crate::models::{EntityModel, LinkModel, NewPaperModel, PaperModel};

verus! {

/// The whole relational state: five tables and three id counters.
#[verifier::ext_equal]
pub ghost struct StoreModel {
    pub papers: Seq<PaperModel>,
    pub authors: Seq<EntityModel>,
    pub categories: Seq<EntityModel>,
    pub paper_author: Seq<LinkModel>,
    pub paper_category: Seq<LinkModel>,
    pub next_paper_id: int,
    pub next_author_id: int,
    pub next_category_id: int,
}

/// The state of a store that holds nothing yet.
pub open spec fn empty_store() -> StoreModel {
    StoreModel {
        papers: Seq::empty(),
        authors: Seq::empty(),
        categories: Seq::empty(),
        paper_author: Seq::empty(),
        paper_category: Seq::empty(),
        next_paper_id: 1,
        next_author_id: 1,
        next_category_id: 1,
    }
}

/// The first entity row carrying `name`, if any. Under [`wf_entities`] there
/// is at most one, so this is the row the name resolves to.
pub open spec fn find_entity(es: Seq<EntityModel>, name: Seq<char>) -> Option<EntityModel>
    decreases es.len(),
{
    if es.len() == 0 {
        None
    } else if es[0].name == name {
        Some(es[0])
    } else {
        find_entity(es.skip(1), name)
    }
}

/// How many entity rows carry `name`.
pub open spec fn count_named(es: Seq<EntityModel>, name: Seq<char>) -> nat
    decreases es.len(),
{
    if es.len() == 0 {
        0
    } else {
        (if es[0].name == name { 1nat } else { 0nat }) + count_named(es.skip(1), name)
    }
}

/// Some entity row has the id.
pub open spec fn has_entity_id(es: Seq<EntityModel>, id: int) -> bool {
    exists|i: int| 0 <= i < es.len() && es[i].id == id
}

/// The first entity row with the id, if any.
pub open spec fn find_entity_by_id(es: Seq<EntityModel>, id: int) -> Option<EntityModel>
    decreases es.len(),
{
    if es.len() == 0 {
        None
    } else if es[0].id == id {
        Some(es[0])
    } else {
        find_entity_by_id(es.skip(1), id)
    }
}

/// Some paper row has the id.
pub open spec fn has_paper_id(ps: Seq<PaperModel>, id: int) -> bool {
    exists|i: int| 0 <= i < ps.len() && ps[i].id == id
}

/// The first paper row with the id, if any.
pub open spec fn find_paper(ps: Seq<PaperModel>, id: int) -> Option<PaperModel>
    decreases ps.len(),
{
    if ps.len() == 0 {
        None
    } else if ps[0].id == id {
        Some(ps[0])
    } else {
        find_paper(ps.skip(1), id)
    }
}

/// Some paper row carries the url.
pub open spec fn url_taken(ps: Seq<PaperModel>, url: Seq<char>) -> bool {
    exists|i: int| 0 <= i < ps.len() && ps[i].url == url
}

/// How many paper rows carry the url.
pub open spec fn count_with_url(ps: Seq<PaperModel>, url: Seq<char>) -> nat
    decreases ps.len(),
{
    if ps.len() == 0 {
        0
    } else {
        (if ps[0].url == url { 1nat } else { 0nat }) + count_with_url(ps.skip(1), url)
    }
}

/// The junction table holds the composite key `(paper_id, entity_id)`.
pub open spec fn has_link(ls: Seq<LinkModel>, paper_id: int, entity_id: int) -> bool {
    exists|i: int|
        0 <= i < ls.len() && ls[i].paper_id == paper_id && ls[i].entity_id == entity_id
}

/// The entity rows a paper is linked to, one per junction row carrying the
/// paper's id, in the junction table's order. Under [`wf`] every looked-up id
/// resolves to exactly one row.
pub open spec fn joined_entities(ls: Seq<LinkModel>, es: Seq<EntityModel>, paper_id: int)
    -> Seq<EntityModel>
    decreases ls.len(),
{
    if ls.len() == 0 {
        Seq::empty()
    } else {
        joined_entities(ls.drop_last(), es, paper_id) + (if ls.last().paper_id == paper_id {
            seq![find_entity_by_id(es, ls.last().entity_id).unwrap()]
        } else {
            Seq::empty()
        })
    }
}

/// The constraints of an entity table: names unique, ids unique, ids assigned
/// in sequence from 1 so that the table's length tracks the counter, and the
/// counter within the id type's range.
pub open spec fn wf_entities(es: Seq<EntityModel>, next_id: int) -> bool {
    &&& forall|i: int, j: int| 0 <= i < j < es.len() ==> es[i].name != es[j].name
    &&& forall|i: int, j: int| 0 <= i < j < es.len() ==> es[i].id != es[j].id
    &&& forall|i: int| 0 <= i < es.len() ==> 0 < #[trigger] es[i].id < next_id
    &&& es.len() == next_id - 1
    &&& 0 < next_id <= i32::MAX
}

/// The constraints of the paper table: urls unique, ids unique and assigned in
/// sequence from 1, the counter within the id type's range.
pub open spec fn wf_papers(ps: Seq<PaperModel>, next_id: int) -> bool {
    &&& forall|i: int, j: int| 0 <= i < j < ps.len() ==> ps[i].url != ps[j].url
    &&& forall|i: int, j: int| 0 <= i < j < ps.len() ==> ps[i].id != ps[j].id
    &&& forall|i: int| 0 <= i < ps.len() ==> 0 < #[trigger] ps[i].id < next_id
    &&& ps.len() == next_id - 1
    &&& 0 < next_id <= i32::MAX
}

/// The constraints of a junction table: composite keys unique, and both
/// foreign ids reference existing rows.
pub open spec fn wf_links(ls: Seq<LinkModel>, ps: Seq<PaperModel>, es: Seq<EntityModel>) -> bool {
    &&& forall|i: int, j: int| 0 <= i < j < ls.len() ==> ls[i] != ls[j]
    &&& forall|i: int|
        0 <= i < ls.len() ==> has_paper_id(ps, (#[trigger] ls[i]).paper_id) && has_entity_id(
            es,
            ls[i].entity_id,
        )
}

/// Well-formedness of the whole store: every table meets its constraints.
pub open spec fn wf(s: StoreModel) -> bool {
    &&& wf_papers(s.papers, s.next_paper_id)
    &&& wf_entities(s.authors, s.next_author_id)
    &&& wf_entities(s.categories, s.next_category_id)
    &&& wf_links(s.paper_author, s.papers, s.authors)
    &&& wf_links(s.paper_category, s.papers, s.categories)
}

/// Resolve-or-create on an entity table: an existing row's id is returned and
/// nothing changes; otherwise a fresh row is appended under the next id. The
/// result is the new table, the new counter and the resolved id; `None` only
/// when a row would be created but the id space is exhausted.
pub open spec fn resolve_entities(es: Seq<EntityModel>, next_id: int, name: Seq<char>)
    -> Option<(Seq<EntityModel>, int, int)>
{
    match find_entity(es, name) {
        Some(e) => Some((es, next_id, e.id)),
        None => if next_id < i32::MAX {
            Some((es.push(EntityModel { id: next_id, name }), next_id + 1, next_id))
        } else {
            None
        },
    }
}

/// [`resolve_entities`] on the author table.
pub open spec fn resolve_author(s: StoreModel, name: Seq<char>) -> Option<(StoreModel, int)> {
    match resolve_entities(s.authors, s.next_author_id, name) {
        Some((es, next, id)) => Some(
            (StoreModel { authors: es, next_author_id: next, ..s }, id),
        ),
        None => None,
    }
}

/// [`resolve_entities`] on the subject table.
pub open spec fn resolve_subject(s: StoreModel, name: Seq<char>) -> Option<(StoreModel, int)> {
    match resolve_entities(s.categories, s.next_category_id, name) {
        Some((es, next, id)) => Some(
            (StoreModel { categories: es, next_category_id: next, ..s }, id),
        ),
        None => None,
    }
}

/// The paper row the next insert appends for this payload.
pub open spec fn paper_row(s: StoreModel, p: NewPaperModel) -> PaperModel {
    PaperModel {
        id: s.next_paper_id,
        title: p.title,
        description: p.description,
        body: p.body,
        url: p.url,
    }
}

/// Append a paper row under the next id. Meaningful only where the url is
/// free and the id space is not exhausted.
pub open spec fn add_paper(s: StoreModel, p: NewPaperModel) -> StoreModel {
    StoreModel {
        papers: s.papers.push(paper_row(s, p)),
        next_paper_id: s.next_paper_id + 1,
        ..s
    }
}

/// Append a paper-author junction row.
pub open spec fn link_author(s: StoreModel, paper_id: int, author_id: int) -> StoreModel {
    StoreModel {
        paper_author: s.paper_author.push(LinkModel { paper_id, entity_id: author_id }),
        ..s
    }
}

/// Append a paper-subject junction row.
pub open spec fn link_subject(s: StoreModel, paper_id: int, category_id: int) -> StoreModel {
    StoreModel {
        paper_category: s.paper_category.push(LinkModel { paper_id, entity_id: category_id }),
        ..s
    }
}

/// The outcome of a sequence of statements: a committed state, or the
/// constraint or id-exhaustion failure that aborted it.
pub ghost enum Applied {
    /// Every statement succeeded; this is the state the transaction commits.
    Committed(StoreModel),
    /// A key constraint rejected a statement.
    Constraint,
    /// An entity table's id space was exhausted.
    Exhausted,
}

/// Resolve each author name in order and link the paper to it; a duplicate
/// composite junction key aborts the sequence.
pub open spec fn apply_authors(s: StoreModel, paper_id: int, names: Seq<Seq<char>>) -> Applied
    decreases names.len(),
{
    if names.len() == 0 {
        Applied::Committed(s)
    } else {
        match resolve_author(s, names[0]) {
            None => Applied::Exhausted,
            Some((s1, aid)) => if has_link(s1.paper_author, paper_id, aid) {
                Applied::Constraint
            } else {
                apply_authors(link_author(s1, paper_id, aid), paper_id, names.skip(1))
            },
        }
    }
}

/// Resolve each subject name in order and link the paper to it; a duplicate
/// composite junction key aborts the sequence.
pub open spec fn apply_subjects(s: StoreModel, paper_id: int, names: Seq<Seq<char>>) -> Applied
    decreases names.len(),
{
    if names.len() == 0 {
        Applied::Committed(s)
    } else {
        match resolve_subject(s, names[0]) {
            None => Applied::Exhausted,
            Some((s1, cid)) => if has_link(s1.paper_category, paper_id, cid) {
                Applied::Constraint
            } else {
                apply_subjects(link_subject(s1, paper_id, cid), paper_id, names.skip(1))
            },
        }
    }
}

/// The full write path: insert the paper, then resolve and link every author,
/// then every subject, in the order given. The outcome is the committed state,
/// or the failure that aborted the transaction.
pub open spec fn apply_insert_full(
    s: StoreModel,
    p: NewPaperModel,
    authors: Seq<Seq<char>>,
    subjects: Seq<Seq<char>>,
) -> Applied {
    if url_taken(s.papers, p.url) {
        Applied::Constraint
    } else if s.next_paper_id == i32::MAX {
        Applied::Exhausted
    } else {
        let paper_id: int = s.next_paper_id;
        match apply_authors(add_paper(s, p), paper_id, authors) {
            Applied::Committed(s2) => apply_subjects(s2, paper_id, subjects),
            e => e,
        }
    }
}

/// A one-shot fault schedule: `Some(k)` makes the statement after the next
/// `k` fail.
pub open spec fn fires(f: Option<int>) -> bool {
    f == Some(0int)
}

/// The schedule after one successful statement.
pub open spec fn tick(f: Option<int>) -> Option<int> {
    match f {
        Some(k) => Some(k - 1),
        None => None,
    }
}

/// What [`find_entity`] returning a row, or no row, says about the table.
pub proof fn lemma_find_entity_props(es: Seq<EntityModel>, name: Seq<char>)
    ensures
        match find_entity(es, name) {
            Some(e) => e.name == name && exists|i: int| 0 <= i < es.len() && es[i] == e,
            None => forall|i: int| 0 <= i < es.len() ==> es[i].name != name,
        },
    decreases es.len(),
{
    if es.len() == 0 {
    } else if es[0].name == name {
        assert(0 <= 0 < es.len() && es[0] == es[0]);
    } else {
        lemma_find_entity_props(es.skip(1), name);
        match find_entity(es, name) {
            Some(e) => {
                let i = choose|i: int| 0 <= i < es.skip(1).len() && es.skip(1)[i] == e;
                assert(es[i + 1] == e);
            },
            None => {
                assert forall|i: int| 0 <= i < es.len() implies es[i].name != name by {
                    if i > 0 {
                        assert(es.skip(1)[i - 1] == es[i]);
                    }
                }
            },
        }
    }
}

/// What [`find_entity_by_id`] returning a row, or no row, says about the table.
pub proof fn lemma_find_entity_by_id_props(es: Seq<EntityModel>, id: int)
    ensures
        match find_entity_by_id(es, id) {
            Some(e) => e.id == id && exists|i: int| 0 <= i < es.len() && es[i] == e,
            None => forall|i: int| 0 <= i < es.len() ==> es[i].id != id,
        },
    decreases es.len(),
{
    if es.len() == 0 {
    } else if es[0].id == id {
        assert(0 <= 0 < es.len() && es[0] == es[0]);
    } else {
        lemma_find_entity_by_id_props(es.skip(1), id);
        match find_entity_by_id(es, id) {
            Some(e) => {
                let i = choose|i: int| 0 <= i < es.skip(1).len() && es.skip(1)[i] == e;
                assert(es[i + 1] == e);
            },
            None => {
                assert forall|i: int| 0 <= i < es.len() implies es[i].id != id by {
                    if i > 0 {
                        assert(es.skip(1)[i - 1] == es[i]);
                    }
                }
            },
        }
    }
}

/// Appending a row under a name that is absent makes that row the one the
/// name resolves to.
pub proof fn lemma_find_entity_push_absent(es: Seq<EntityModel>, name: Seq<char>, e: EntityModel)
    requires
        find_entity(es, name) is None,
        e.name == name,
    ensures
        find_entity(es.push(e), name) == Some(e),
    decreases es.len(),
{
    if es.len() == 0 {
        assert(es.push(e)[0] == e);
    } else {
        assert(es.push(e)[0] == es[0]);
        lemma_find_entity_push_absent(es.skip(1), name, e);
        assert(es.push(e).skip(1) =~= es.skip(1).push(e));
    }
}

/// In a table with pairwise distinct names, a name that resolves occurs on
/// exactly one row, and one that does not resolve occurs on none.
pub proof fn lemma_count_named(es: Seq<EntityModel>, name: Seq<char>)
    requires
        forall|i: int, j: int| 0 <= i < j < es.len() ==> es[i].name != es[j].name,
    ensures
        count_named(es, name) == (if find_entity(es, name) is Some {
            1nat
        } else {
            0nat
        }),
    decreases es.len(),
{
    if es.len() == 0 {
    } else {
        assert forall|i: int, j: int| 0 <= i < j < es.skip(1).len() implies es.skip(1)[i].name
            != es.skip(1)[j].name by {
            assert(es.skip(1)[i] == es[i + 1]);
            assert(es.skip(1)[j] == es[j + 1]);
        }
        lemma_count_named(es.skip(1), name);
        if es[0].name == name {
            lemma_find_entity_props(es.skip(1), name);
            match find_entity(es.skip(1), name) {
                Some(e) => {
                    let i = choose|i: int| 0 <= i < es.skip(1).len() && es.skip(1)[i] == e;
                    assert(es[i + 1] == e);
                    assert(false);
                },
                None => {},
            }
        }
    }
}

/// The id a name resolves to in an entity table: the existing row's id, or
/// the next id when the row is yet to be created.
pub open spec fn resolved_id(es: Seq<EntityModel>, next_id: int, name: Seq<char>) -> int {
    match find_entity(es, name) {
        Some(e) => e.id,
        None => next_id,
    }
}

/// Appending a row under some other name leaves a name that does not resolve
/// unresolved.
pub proof fn lemma_find_entity_push_other(es: Seq<EntityModel>, name: Seq<char>, e: EntityModel)
    requires
        find_entity(es, name) is None,
        e.name != name,
    ensures
        find_entity(es.push(e), name) is None,
    decreases es.len(),
{
    if es.len() == 0 {
        assert(es.push(e)[0] == e);
        assert(es.push(e).skip(1).len() == 0);
        assert(find_entity(es.push(e).skip(1), name) is None);
    } else {
        assert(es.push(e)[0] == es[0]);
        lemma_find_entity_push_other(es.skip(1), name, e);
        assert(es.push(e).skip(1) =~= es.skip(1).push(e));
    }
}

/// In a table with pairwise distinct urls, a url that is taken is on exactly
/// one row, and one that is not taken is on none.
pub proof fn lemma_count_with_url_unique(ps: Seq<PaperModel>, url: Seq<char>)
    requires
        forall|i: int, j: int| 0 <= i < j < ps.len() ==> ps[i].url != ps[j].url,
    ensures
        count_with_url(ps, url) == (if url_taken(ps, url) {
            1nat
        } else {
            0nat
        }),
    decreases ps.len(),
{
    if ps.len() == 0 {
    } else {
        assert forall|i: int, j: int| 0 <= i < j < ps.skip(1).len() implies ps.skip(1)[i].url
            != ps.skip(1)[j].url by {
            assert(ps.skip(1)[i] == ps[i + 1]);
            assert(ps.skip(1)[j] == ps[j + 1]);
        }
        lemma_count_with_url_unique(ps.skip(1), url);
        if ps[0].url == url {
            assert(url_taken(ps, url));
            if url_taken(ps.skip(1), url) {
                let k = choose|k: int| 0 <= k < ps.skip(1).len() && ps.skip(1)[k].url == url;
                assert(ps[k + 1] == ps.skip(1)[k]);
                assert(false);
            }
        } else {
            if url_taken(ps, url) {
                let k = choose|k: int| 0 <= k < ps.len() && ps[k].url == url;
                assert(ps.skip(1)[k - 1] == ps[k]);
                assert(url_taken(ps.skip(1), url));
            }
            if url_taken(ps.skip(1), url) {
                let k = choose|k: int| 0 <= k < ps.skip(1).len() && ps.skip(1)[k].url == url;
                assert(ps[k + 1] == ps.skip(1)[k]);
                assert(url_taken(ps, url));
            }
        }
    }
}

/// A name that resolves keeps resolving to the same row when the table is
/// only extended at the end.
pub proof fn lemma_find_entity_extends(es: Seq<EntityModel>, es2: Seq<EntityModel>, name: Seq<char>)
    requires
        es.len() <= es2.len(),
        forall|i: int| 0 <= i < es.len() ==> es2[i] == es[i],
        find_entity(es, name) is Some,
    ensures
        find_entity(es2, name) == find_entity(es, name),
    decreases es.len(),
{
    if es.len() == 0 {
    } else {
        assert(es2[0] == es[0]);
        if es[0].name == name {
        } else {
            assert forall|i: int| 0 <= i < es.skip(1).len() implies es2.skip(1)[i] == es.skip(
                1,
            )[i] by {
                assert(es.skip(1)[i] == es[i + 1]);
                assert(es2.skip(1)[i] == es2[i + 1]);
            }
            lemma_find_entity_extends(es.skip(1), es2.skip(1), name);
        }
    }
}

/// Resolve-or-create keeps the entity table well formed; the resolved id is a
/// row of the table, and it is the row the name now resolves to.
pub proof fn lemma_resolve_entities_wf(es: Seq<EntityModel>, next_id: int, name: Seq<char>)
    requires
        wf_entities(es, next_id),
        resolve_entities(es, next_id, name) is Some,
    ensures
        ({
            let (es1, nx1, id) = resolve_entities(es, next_id, name).unwrap();
            &&& wf_entities(es1, nx1)
            &&& has_entity_id(es1, id)
            &&& find_entity(es1, name) == Some(EntityModel { id, name })
        }),
{
    lemma_find_entity_props(es, name);
    match find_entity(es, name) {
        Some(e) => {
            let i = choose|i: int| 0 <= i < es.len() && es[i] == e;
            assert(es[i].id == e.id);
        },
        None => {
            let e = EntityModel { id: next_id, name };
            let es1 = es.push(e);
            lemma_find_entity_push_absent(es, name, e);
            assert(es1[es.len() as int] == e);
            assert(forall|i: int| 0 <= i < es.len() ==> es1[i] == es[i]);
        },
    }
}

/// Resolve-or-create on the author table keeps the store well formed.
pub proof fn lemma_resolve_author_wf(s: StoreModel, name: Seq<char>)
    requires
        wf(s),
        resolve_author(s, name) is Some,
    ensures
        ({
            let (s1, id) = resolve_author(s, name).unwrap();
            &&& wf(s1)
            &&& has_entity_id(s1.authors, id)
            &&& find_entity(s1.authors, name) == Some(EntityModel { id, name })
        }),
{
    lemma_resolve_entities_wf(s.authors, s.next_author_id, name);
    let (s1, id) = resolve_author(s, name).unwrap();
    assert forall|k: int| 0 <= k < s1.paper_author.len() implies has_paper_id(
        s1.papers,
        (#[trigger] s1.paper_author[k]).paper_id,
    ) && has_entity_id(s1.authors, s1.paper_author[k].entity_id) by {
        assert(has_entity_id(s.authors, s.paper_author[k].entity_id));
        let w = choose|i: int|
            0 <= i < s.authors.len() && s.authors[i].id == s.paper_author[k].entity_id;
        assert(s1.authors[w] == s.authors[w]);
    }
}

/// Resolve-or-create on the subject table keeps the store well formed.
pub proof fn lemma_resolve_subject_wf(s: StoreModel, name: Seq<char>)
    requires
        wf(s),
        resolve_subject(s, name) is Some,
    ensures
        ({
            let (s1, id) = resolve_subject(s, name).unwrap();
            &&& wf(s1)
            &&& has_entity_id(s1.categories, id)
            &&& find_entity(s1.categories, name) == Some(EntityModel { id, name })
        }),
{
    lemma_resolve_entities_wf(s.categories, s.next_category_id, name);
    let (s1, id) = resolve_subject(s, name).unwrap();
    assert forall|k: int| 0 <= k < s1.paper_category.len() implies has_paper_id(
        s1.papers,
        (#[trigger] s1.paper_category[k]).paper_id,
    ) && has_entity_id(s1.categories, s1.paper_category[k].entity_id) by {
        assert(has_entity_id(s.categories, s.paper_category[k].entity_id));
        let w = choose|i: int|
            0 <= i < s.categories.len() && s.categories[i].id == s.paper_category[k].entity_id;
        assert(s1.categories[w] == s.categories[w]);
    }
}

/// Inserting a paper under a free url keeps the store well formed, and the
/// fresh id becomes a row of the paper table.
pub proof fn lemma_add_paper_wf(s: StoreModel, p: NewPaperModel)
    requires
        wf(s),
        !url_taken(s.papers, p.url),
        s.next_paper_id < i32::MAX,
    ensures
        wf(add_paper(s, p)),
        has_paper_id(add_paper(s, p).papers, s.next_paper_id),
        url_taken(add_paper(s, p).papers, p.url),
{
    let s1 = add_paper(s, p);
    let n = s.papers.len() as int;
    assert(s1.papers[n] == paper_row(s, p));
    assert(forall|i: int| 0 <= i < n ==> s1.papers[i] == s.papers[i]);
    assert forall|i: int, j: int| 0 <= i < j < s1.papers.len() implies s1.papers[i].url
        != s1.papers[j].url by {
        if j == n {
            assert(!(s.papers[i].url == p.url));
        }
    }
    assert forall|k: int| 0 <= k < s1.paper_author.len() implies has_paper_id(
        s1.papers,
        (#[trigger] s1.paper_author[k]).paper_id,
    ) && has_entity_id(s1.authors, s1.paper_author[k].entity_id) by {
        assert(has_paper_id(s.papers, s.paper_author[k].paper_id));
        let w = choose|i: int|
            0 <= i < s.papers.len() && s.papers[i].id == s.paper_author[k].paper_id;
        assert(s1.papers[w] == s.papers[w]);
    }
    assert forall|k: int| 0 <= k < s1.paper_category.len() implies has_paper_id(
        s1.papers,
        (#[trigger] s1.paper_category[k]).paper_id,
    ) && has_entity_id(s1.categories, s1.paper_category[k].entity_id) by {
        assert(has_paper_id(s.papers, s.paper_category[k].paper_id));
        let w = choose|i: int|
            0 <= i < s.papers.len() && s.papers[i].id == s.paper_category[k].paper_id;
        assert(s1.papers[w] == s.papers[w]);
    }
}

/// Linking a paper to an author it is not yet linked to keeps the store well
/// formed, provided both rows exist.
pub proof fn lemma_link_author_wf(s: StoreModel, paper_id: int, author_id: int)
    requires
        wf(s),
        has_paper_id(s.papers, paper_id),
        has_entity_id(s.authors, author_id),
        !has_link(s.paper_author, paper_id, author_id),
    ensures
        wf(link_author(s, paper_id, author_id)),
        has_link(link_author(s, paper_id, author_id).paper_author, paper_id, author_id),
{
    let s1 = link_author(s, paper_id, author_id);
    let n = s.paper_author.len() as int;
    let e = LinkModel { paper_id, entity_id: author_id };
    assert(s1.paper_author[n] == e);
    assert(forall|i: int| 0 <= i < n ==> s1.paper_author[i] == s.paper_author[i]);
    assert forall|i: int, j: int| 0 <= i < j < s1.paper_author.len() implies s1.paper_author[i]
        != s1.paper_author[j] by {
        if j == n && s1.paper_author[i] == e {
            assert(s.paper_author[i].paper_id == paper_id && s.paper_author[i].entity_id
                == author_id);
        }
    }
}

/// Linking a paper to a subject it is not yet linked to keeps the store well
/// formed, provided both rows exist.
pub proof fn lemma_link_subject_wf(s: StoreModel, paper_id: int, category_id: int)
    requires
        wf(s),
        has_paper_id(s.papers, paper_id),
        has_entity_id(s.categories, category_id),
        !has_link(s.paper_category, paper_id, category_id),
    ensures
        wf(link_subject(s, paper_id, category_id)),
        has_link(link_subject(s, paper_id, category_id).paper_category, paper_id, category_id),
{
    let s1 = link_subject(s, paper_id, category_id);
    let n = s.paper_category.len() as int;
    let e = LinkModel { paper_id, entity_id: category_id };
    assert(s1.paper_category[n] == e);
    assert(forall|i: int| 0 <= i < n ==> s1.paper_category[i] == s.paper_category[i]);
    assert forall|i: int, j: int| 0 <= i < j < s1.paper_category.len() implies s1.paper_category[i]
        != s1.paper_category[j] by {
        if j == n && s1.paper_category[i] == e {
            assert(s.paper_category[i].paper_id == paper_id && s.paper_category[i].entity_id
                == category_id);
        }
    }
}

} // verus!
