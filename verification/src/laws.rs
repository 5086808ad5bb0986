//! The store's laws, proved once and for all over the model.
//!
//! Each public proof function here states a guarantee of the write path as a
//! whole — idempotent entity resolution, url uniqueness, shared authors, and
//! empty joins — over the same spec functions that the executable methods of
//! [`crate::db`] are proved to follow.

use vstd::prelude::*;
use crate::model::{
    add_paper, apply_authors, apply_insert_full, apply_subjects, count_named, count_with_url,
    find_entity, has_entity_id, has_link, has_paper_id, joined_entities, lemma_add_paper_wf,
    lemma_count_named, lemma_count_with_url_unique, lemma_find_entity_extends,
    lemma_find_entity_props, lemma_find_entity_push_other, lemma_link_author_wf,
    lemma_link_subject_wf, lemma_resolve_author_wf, lemma_resolve_subject_wf, link_author,
    link_subject, paper_row, resolve_author, resolve_subject, resolved_id, url_taken, wf,
    wf_entities, wf_links, wf_papers, Applied, StoreModel,
};
use crate::models::{EntityModel, LinkModel, NewPaperModel, PaperModel};

verus! {

/// Resolving and linking a list of author names touches only the author and
/// junction tables, only ever appends to them, and keeps the store well
/// formed.
pub proof fn lemma_apply_authors_frame(s: StoreModel, paper_id: int, names: Seq<Seq<char>>)
    requires
        wf(s),
        has_paper_id(s.papers, paper_id),
        apply_authors(s, paper_id, names) is Committed,
    ensures
        ({
            let s1 = apply_authors(s, paper_id, names)->Committed_0;
            &&& wf(s1)
            &&& s1.papers == s.papers
            &&& s1.categories == s.categories
            &&& s1.paper_category == s.paper_category
            &&& s1.next_paper_id == s.next_paper_id
            &&& s1.next_category_id == s.next_category_id
            &&& s.authors.len() <= s1.authors.len()
            &&& forall|i: int| 0 <= i < s.authors.len() ==> s1.authors[i] == s.authors[i]
            &&& s.paper_author.len() <= s1.paper_author.len()
            &&& forall|i: int|
                0 <= i < s.paper_author.len() ==> s1.paper_author[i] == s.paper_author[i]
        }),
    decreases names.len(),
{
    if names.len() == 0 {
    } else {
        match resolve_author(s, names[0]) {
            None => {},
            Some((sr, aid)) => {
                lemma_resolve_author_wf(s, names[0]);
                if !has_link(sr.paper_author, paper_id, aid) {
                    let sl = link_author(sr, paper_id, aid);
                    lemma_link_author_wf(sr, paper_id, aid);
                    lemma_apply_authors_frame(sl, paper_id, names.skip(1));
                    let s1 = apply_authors(s, paper_id, names)->Committed_0;
                    assert forall|i: int| 0 <= i < s.authors.len() implies s1.authors[i]
                        == s.authors[i] by {
                        assert(sl.authors[i] == s.authors[i]);
                    }
                    assert forall|i: int| 0 <= i < s.paper_author.len() implies s1.paper_author[i]
                        == s.paper_author[i] by {
                        assert(sl.paper_author[i] == s.paper_author[i]);
                    }
                }
            },
        }
    }
}

/// Resolving and linking a list of subject names touches only the subject
/// and junction tables and keeps the store well formed.
pub proof fn lemma_apply_subjects_frame(s: StoreModel, paper_id: int, names: Seq<Seq<char>>)
    requires
        wf(s),
        has_paper_id(s.papers, paper_id),
        apply_subjects(s, paper_id, names) is Committed,
    ensures
        ({
            let s1 = apply_subjects(s, paper_id, names)->Committed_0;
            &&& wf(s1)
            &&& s1.papers == s.papers
            &&& s1.authors == s.authors
            &&& s1.paper_author == s.paper_author
            &&& s1.next_paper_id == s.next_paper_id
            &&& s1.next_author_id == s.next_author_id
        }),
    decreases names.len(),
{
    if names.len() == 0 {
    } else {
        match resolve_subject(s, names[0]) {
            None => {},
            Some((sr, cid)) => {
                lemma_resolve_subject_wf(s, names[0]);
                if !has_link(sr.paper_category, paper_id, cid) {
                    let sl = link_subject(sr, paper_id, cid);
                    lemma_link_subject_wf(sr, paper_id, cid);
                    lemma_apply_subjects_frame(sl, paper_id, names.skip(1));
                }
            },
        }
    }
}

/// After a committed author stage, every name of the list resolves to a row,
/// and the paper is linked to that row's id.
pub proof fn lemma_apply_authors_links(s: StoreModel, paper_id: int, names: Seq<Seq<char>>, k: int)
    requires
        wf(s),
        has_paper_id(s.papers, paper_id),
        apply_authors(s, paper_id, names) is Committed,
        0 <= k < names.len(),
    ensures
        ({
            let s1 = apply_authors(s, paper_id, names)->Committed_0;
            &&& find_entity(s1.authors, names[k]) is Some
            &&& has_link(s1.paper_author, paper_id, find_entity(s1.authors, names[k]).unwrap().id)
        }),
    decreases names.len(),
{
    match resolve_author(s, names[0]) {
        None => {},
        Some((sr, aid)) => {
            lemma_resolve_author_wf(s, names[0]);
            if !has_link(sr.paper_author, paper_id, aid) {
                let sl = link_author(sr, paper_id, aid);
                lemma_link_author_wf(sr, paper_id, aid);
                let s1 = apply_authors(s, paper_id, names)->Committed_0;
                lemma_apply_authors_frame(sl, paper_id, names.skip(1));
                if k == 0 {
                    lemma_find_entity_extends(sl.authors, s1.authors, names[0]);
                    let w = choose|i: int|
                        0 <= i < sl.paper_author.len() && sl.paper_author[i].paper_id == paper_id
                            && sl.paper_author[i].entity_id == aid;
                    assert(s1.paper_author[w] == sl.paper_author[w]);
                } else {
                    assert(names.skip(1)[k - 1] == names[k]);
                    lemma_apply_authors_links(sl, paper_id, names.skip(1), k - 1);
                }
            }
        },
    }
}

/// A committed full insert appends exactly one paper row, under the old next
/// id and with the payload's fields, only ever appends to the author and
/// paper-author tables, and keeps the store well formed.
pub proof fn lemma_insert_full_extends(
    s: StoreModel,
    p: NewPaperModel,
    authors: Seq<Seq<char>>,
    subjects: Seq<Seq<char>>,
)
    requires
        wf(s),
        apply_insert_full(s, p, authors, subjects) is Committed,
    ensures
        ({
            let s1 = apply_insert_full(s, p, authors, subjects)->Committed_0;
            &&& wf(s1)
            &&& !url_taken(s.papers, p.url)
            &&& s1.papers == s.papers.push(paper_row(s, p))
            &&& s1.next_paper_id == s.next_paper_id + 1
            &&& s.authors.len() <= s1.authors.len()
            &&& forall|i: int| 0 <= i < s.authors.len() ==> s1.authors[i] == s.authors[i]
            &&& s.paper_author.len() <= s1.paper_author.len()
            &&& forall|i: int|
                0 <= i < s.paper_author.len() ==> s1.paper_author[i] == s.paper_author[i]
        }),
{
    let sa = add_paper(s, p);
    lemma_add_paper_wf(s, p);
    lemma_apply_authors_frame(sa, s.next_paper_id, authors);
    let sm = apply_authors(sa, s.next_paper_id, authors)->Committed_0;
    lemma_apply_subjects_frame(sm, s.next_paper_id, subjects);
}

/// Resolve-or-create is idempotent: once a name has resolved to an id,
/// resolving it again returns the same id and leaves the store unchanged,
/// and exactly one author row carries the name.
pub proof fn lemma_resolve_author_idempotent(s: StoreModel, name: Seq<char>)
    requires
        wf(s),
        resolve_author(s, name) is Some,
    ensures
        ({
            let (s1, id) = resolve_author(s, name).unwrap();
            &&& wf(s1)
            &&& resolve_author(s1, name) == Some((s1, id))
            &&& count_named(s1.authors, name) == 1
        }),
{
    lemma_resolve_author_wf(s, name);
    let (s1, id) = resolve_author(s, name).unwrap();
    lemma_count_named(s1.authors, name);
    assert(find_entity(s1.authors, name) == Some(EntityModel { id, name }));
    assert(StoreModel { authors: s1.authors, next_author_id: s1.next_author_id, ..s1 } =~= s1);
}

/// Resolve-or-create on the subject table is idempotent in the same way as
/// on the author table.
pub proof fn lemma_resolve_subject_idempotent(s: StoreModel, name: Seq<char>)
    requires
        wf(s),
        resolve_subject(s, name) is Some,
    ensures
        ({
            let (s1, id) = resolve_subject(s, name).unwrap();
            &&& wf(s1)
            &&& resolve_subject(s1, name) == Some((s1, id))
            &&& count_named(s1.categories, name) == 1
        }),
{
    lemma_resolve_subject_wf(s, name);
    let (s1, id) = resolve_subject(s, name).unwrap();
    lemma_count_named(s1.categories, name);
    assert(find_entity(s1.categories, name) == Some(EntityModel { id, name }));
    assert(StoreModel { categories: s1.categories, next_category_id: s1.next_category_id, ..s1 }
        =~= s1);
}

/// A paper's url is a unique natural key: after a committed full insert the
/// url is on exactly one paper row, and a second full insert with the same
/// url is rejected as a constraint violation, whatever its author and
/// subject lists.
pub proof fn lemma_insert_full_unique_url(
    s: StoreModel,
    p: NewPaperModel,
    authors: Seq<Seq<char>>,
    subjects: Seq<Seq<char>>,
    p2: NewPaperModel,
    authors2: Seq<Seq<char>>,
    subjects2: Seq<Seq<char>>,
)
    requires
        wf(s),
        apply_insert_full(s, p, authors, subjects) is Committed,
        p2.url == p.url,
    ensures
        ({
            let s1 = apply_insert_full(s, p, authors, subjects)->Committed_0;
            &&& url_taken(s1.papers, p.url)
            &&& count_with_url(s1.papers, p.url) == 1
            &&& apply_insert_full(s1, p2, authors2, subjects2) == Applied::Constraint
        }),
{
    lemma_insert_full_extends(s, p, authors, subjects);
    let s1 = apply_insert_full(s, p, authors, subjects)->Committed_0;
    let n = s.papers.len() as int;
    assert(s1.papers[n] == paper_row(s, p));
    assert(url_taken(s1.papers, p.url));
    lemma_count_with_url_unique(s1.papers, p.url);
}

/// Two committed full inserts that both cite one author name share one
/// author row: exactly one row carries the name afterwards, and each paper's
/// junction rows point at that row's id.
pub proof fn lemma_insert_full_shared_author(
    s: StoreModel,
    p1: NewPaperModel,
    authors1: Seq<Seq<char>>,
    subjects1: Seq<Seq<char>>,
    p2: NewPaperModel,
    authors2: Seq<Seq<char>>,
    subjects2: Seq<Seq<char>>,
    name: Seq<char>,
    k1: int,
    k2: int,
)
    requires
        wf(s),
        apply_insert_full(s, p1, authors1, subjects1) is Committed,
        apply_insert_full(
            apply_insert_full(s, p1, authors1, subjects1)->Committed_0,
            p2,
            authors2,
            subjects2,
        ) is Committed,
        0 <= k1 < authors1.len() && authors1[k1] == name,
        0 <= k2 < authors2.len() && authors2[k2] == name,
    ensures
        ({
            let s1 = apply_insert_full(s, p1, authors1, subjects1)->Committed_0;
            let s2 = apply_insert_full(s1, p2, authors2, subjects2)->Committed_0;
            &&& count_named(s2.authors, name) == 1
            &&& find_entity(s2.authors, name) is Some
            &&& has_link(s2.paper_author, s.next_paper_id, find_entity(s2.authors, name).unwrap().id)
            &&& has_link(
                s2.paper_author,
                s1.next_paper_id,
                find_entity(s2.authors, name).unwrap().id,
            )
        }),
{
    let s1 = apply_insert_full(s, p1, authors1, subjects1)->Committed_0;
    let s2 = apply_insert_full(s1, p2, authors2, subjects2)->Committed_0;
    lemma_insert_full_extends(s, p1, authors1, subjects1);
    lemma_insert_full_extends(s1, p2, authors2, subjects2);

    // The first insert links its paper to the row the name resolves to.
    let sa1 = add_paper(s, p1);
    lemma_add_paper_wf(s, p1);
    lemma_apply_authors_frame(sa1, s.next_paper_id, authors1);
    let sm1 = apply_authors(sa1, s.next_paper_id, authors1)->Committed_0;
    lemma_apply_subjects_frame(sm1, s.next_paper_id, subjects1);
    lemma_apply_authors_links(sa1, s.next_paper_id, authors1, k1);
    assert(s1.authors == sm1.authors);
    assert(s1.paper_author == sm1.paper_author);

    // The second insert resolves the same name to the same row.
    let sa2 = add_paper(s1, p2);
    lemma_add_paper_wf(s1, p2);
    lemma_apply_authors_frame(sa2, s1.next_paper_id, authors2);
    let sm2 = apply_authors(sa2, s1.next_paper_id, authors2)->Committed_0;
    lemma_apply_subjects_frame(sm2, s1.next_paper_id, subjects2);
    lemma_apply_authors_links(sa2, s1.next_paper_id, authors2, k2);
    assert(s2.authors == sm2.authors);
    assert(s2.paper_author == sm2.paper_author);

    // The name's row in the first store survives unchanged into the second.
    lemma_find_entity_extends(s1.authors, s2.authors, name);
    let id = find_entity(s1.authors, name).unwrap().id;
    let w = choose|i: int|
        0 <= i < s1.paper_author.len() && s1.paper_author[i].paper_id == s.next_paper_id
            && s1.paper_author[i].entity_id == id;
    assert(s2.paper_author[w] == s1.paper_author[w]);
    lemma_count_named(s2.authors, name);
}

/// A junction table under the store's invariant never cites an entity id at
/// or beyond the entity table's counter.
pub proof fn lemma_no_link_beyond_counter(
    ls: Seq<LinkModel>,
    ps: Seq<PaperModel>,
    es: Seq<EntityModel>,
    next_id: int,
    paper_id: int,
    entity_id: int,
)
    requires
        wf_links(ls, ps, es),
        wf_entities(es, next_id),
        entity_id >= next_id,
    ensures
        !has_link(ls, paper_id, entity_id),
{
    if has_link(ls, paper_id, entity_id) {
        let i = choose|i: int|
            0 <= i < ls.len() && ls[i].paper_id == paper_id && ls[i].entity_id == entity_id;
        assert(has_entity_id(es, ls[i].entity_id));
        let w = choose|w: int| 0 <= w < es.len() && es[w].id == entity_id;
        assert(es[w].id < next_id);
        assert(false);
    }
}

/// A junction table under the store's invariant never cites a paper id at or
/// beyond the paper table's counter.
pub proof fn lemma_no_link_for_fresh_paper(
    ls: Seq<LinkModel>,
    ps: Seq<PaperModel>,
    es: Seq<EntityModel>,
    next_paper_id: int,
    paper_id: int,
    entity_id: int,
)
    requires
        wf_links(ls, ps, es),
        wf_papers(ps, next_paper_id),
        paper_id >= next_paper_id,
    ensures
        !has_link(ls, paper_id, entity_id),
{
    if has_link(ls, paper_id, entity_id) {
        let i = choose|i: int|
            0 <= i < ls.len() && ls[i].paper_id == paper_id && ls[i].entity_id == entity_id;
        assert(has_paper_id(ps, ls[i].paper_id));
        let w = choose|w: int| 0 <= w < ps.len() && ps[w].id == paper_id;
        assert(ps[w].id < next_paper_id);
        assert(false);
    }
}

/// Distinct names resolve to distinct rows, which carry distinct ids.
pub proof fn lemma_distinct_names_distinct_ids(
    es: Seq<EntityModel>,
    next_id: int,
    n1: Seq<char>,
    n2: Seq<char>,
)
    requires
        wf_entities(es, next_id),
        n1 != n2,
        find_entity(es, n1) is Some,
        find_entity(es, n2) is Some,
    ensures
        find_entity(es, n1).unwrap().id != find_entity(es, n2).unwrap().id,
{
    lemma_find_entity_props(es, n1);
    lemma_find_entity_props(es, n2);
    let e1 = find_entity(es, n1).unwrap();
    let e2 = find_entity(es, n2).unwrap();
    let i1 = choose|i: int| 0 <= i < es.len() && es[i] == e1;
    let i2 = choose|i: int| 0 <= i < es.len() && es[i] == e2;
    if i1 == i2 {
        assert(false);
    } else if e1.id == e2.id {
        if i1 < i2 {
            assert(es[i1].id != es[i2].id);
        } else {
            assert(es[i2].id != es[i1].id);
        }
        assert(false);
    }
}

/// The author stage commits whenever the names are pairwise distinct, the id
/// space has room for them, and none of them is already linked to the paper.
pub proof fn lemma_apply_authors_commits(s: StoreModel, paper_id: int, names: Seq<Seq<char>>)
    requires
        wf(s),
        has_paper_id(s.papers, paper_id),
        forall|i: int, j: int| 0 <= i < j < names.len() ==> names[i] != names[j],
        s.next_author_id + names.len() <= i32::MAX,
        forall|k: int|
            0 <= k < names.len() ==> !has_link(
                s.paper_author,
                paper_id,
                resolved_id(s.authors, s.next_author_id, #[trigger] names[k]),
            ),
    ensures
        apply_authors(s, paper_id, names) is Committed,
    decreases names.len(),
{
    if names.len() == 0 {
    } else {
        assert(resolve_author(s, names[0]) is Some);
        let (s1, a0) = resolve_author(s, names[0]).unwrap();
        lemma_resolve_author_wf(s, names[0]);
        assert(a0 == resolved_id(s.authors, s.next_author_id, names[0]));
        assert(!has_link(s1.paper_author, paper_id, a0));
        let s2 = link_author(s1, paper_id, a0);
        lemma_link_author_wf(s1, paper_id, a0);
        // The resolved id is an existing row of s1, so it is below its counter.
        let wa = choose|w: int| 0 <= w < s1.authors.len() && s1.authors[w].id == a0;
        assert(s1.authors[wa].id < s1.next_author_id);
        assert forall|i: int, j: int| 0 <= i < j < names.skip(1).len() implies names.skip(1)[i]
            != names.skip(1)[j] by {
            assert(names.skip(1)[i] == names[i + 1]);
            assert(names.skip(1)[j] == names[j + 1]);
        }
        assert forall|k: int| 0 <= k < names.skip(1).len() implies !has_link(
            s2.paper_author,
            paper_id,
            resolved_id(s2.authors, s2.next_author_id, #[trigger] names.skip(1)[k]),
        ) by {
            let n = names.skip(1)[k];
            assert(n == names[k + 1]);
            assert(n != names[0]);
            let r2 = resolved_id(s2.authors, s2.next_author_id, n);
            lemma_find_entity_props(s.authors, n);
            match find_entity(s.authors, n) {
                Some(e) => {
                    lemma_find_entity_extends(s.authors, s2.authors, n);
                    assert(r2 == e.id);
                    assert(!has_link(s.paper_author, paper_id, e.id));
                    // The freshly linked id differs from this row's id.
                    if find_entity(s.authors, names[0]) is Some {
                        lemma_distinct_names_distinct_ids(
                            s.authors,
                            s.next_author_id,
                            names[0],
                            n,
                        );
                    } else {
                        // a0 is the fresh id, beyond every existing row's id.
                        lemma_find_entity_props(s.authors, n);
                        let wn = choose|i: int| 0 <= i < s.authors.len() && s.authors[i] == e;
                        assert(s.authors[wn].id < s.next_author_id);
                    }
                    assert(a0 != e.id);
                },
                None => {
                    if find_entity(s.authors, names[0]) is None {
                        lemma_find_entity_push_other(
                            s.authors,
                            n,
                            EntityModel { id: s.next_author_id, name: names[0] },
                        );
                    }
                    assert(find_entity(s2.authors, n) is None);
                    assert(r2 == s2.next_author_id);
                    assert(r2 >= s.next_author_id);
                    lemma_no_link_beyond_counter(
                        s.paper_author,
                        s.papers,
                        s.authors,
                        s.next_author_id,
                        paper_id,
                        r2,
                    );
                    assert(a0 < s2.next_author_id);
                    assert(a0 != r2);
                },
            }
        }
        lemma_apply_authors_commits(s2, paper_id, names.skip(1));
    }
}

/// The subject stage commits under the same conditions as the author stage.
pub proof fn lemma_apply_subjects_commits(s: StoreModel, paper_id: int, names: Seq<Seq<char>>)
    requires
        wf(s),
        has_paper_id(s.papers, paper_id),
        forall|i: int, j: int| 0 <= i < j < names.len() ==> names[i] != names[j],
        s.next_category_id + names.len() <= i32::MAX,
        forall|k: int|
            0 <= k < names.len() ==> !has_link(
                s.paper_category,
                paper_id,
                resolved_id(s.categories, s.next_category_id, #[trigger] names[k]),
            ),
    ensures
        apply_subjects(s, paper_id, names) is Committed,
    decreases names.len(),
{
    if names.len() == 0 {
    } else {
        assert(resolve_subject(s, names[0]) is Some);
        let (s1, c0) = resolve_subject(s, names[0]).unwrap();
        lemma_resolve_subject_wf(s, names[0]);
        assert(c0 == resolved_id(s.categories, s.next_category_id, names[0]));
        assert(!has_link(s1.paper_category, paper_id, c0));
        let s2 = link_subject(s1, paper_id, c0);
        lemma_link_subject_wf(s1, paper_id, c0);
        let wc = choose|w: int| 0 <= w < s1.categories.len() && s1.categories[w].id == c0;
        assert(s1.categories[wc].id < s1.next_category_id);
        assert forall|i: int, j: int| 0 <= i < j < names.skip(1).len() implies names.skip(1)[i]
            != names.skip(1)[j] by {
            assert(names.skip(1)[i] == names[i + 1]);
            assert(names.skip(1)[j] == names[j + 1]);
        }
        assert forall|k: int| 0 <= k < names.skip(1).len() implies !has_link(
            s2.paper_category,
            paper_id,
            resolved_id(s2.categories, s2.next_category_id, #[trigger] names.skip(1)[k]),
        ) by {
            let n = names.skip(1)[k];
            assert(n == names[k + 1]);
            assert(n != names[0]);
            let r2 = resolved_id(s2.categories, s2.next_category_id, n);
            lemma_find_entity_props(s.categories, n);
            match find_entity(s.categories, n) {
                Some(e) => {
                    lemma_find_entity_extends(s.categories, s2.categories, n);
                    assert(r2 == e.id);
                    assert(!has_link(s.paper_category, paper_id, e.id));
                    if find_entity(s.categories, names[0]) is Some {
                        lemma_distinct_names_distinct_ids(
                            s.categories,
                            s.next_category_id,
                            names[0],
                            n,
                        );
                    } else {
                        lemma_find_entity_props(s.categories, n);
                        let wn = choose|i: int| 0 <= i < s.categories.len() && s.categories[i]
                            == e;
                        assert(s.categories[wn].id < s.next_category_id);
                    }
                    assert(c0 != e.id);
                },
                None => {
                    if find_entity(s.categories, names[0]) is None {
                        lemma_find_entity_push_other(
                            s.categories,
                            n,
                            EntityModel { id: s.next_category_id, name: names[0] },
                        );
                    }
                    assert(find_entity(s2.categories, n) is None);
                    assert(r2 == s2.next_category_id);
                    assert(r2 >= s.next_category_id);
                    lemma_no_link_beyond_counter(
                        s.paper_category,
                        s.papers,
                        s.categories,
                        s.next_category_id,
                        paper_id,
                        r2,
                    );
                    assert(c0 < s2.next_category_id);
                    assert(c0 != r2);
                },
            }
        }
        lemma_apply_subjects_commits(s2, paper_id, names.skip(1));
    }
}

/// Success is owed: the full write path commits whenever the url is free,
/// the author and subject name lists are each pairwise distinct, and the id
/// spaces have room. Together with the write path's contract this guarantees
/// that such an insert returns success when no fault is scheduled.
pub proof fn lemma_insert_full_commits(
    s: StoreModel,
    p: NewPaperModel,
    authors: Seq<Seq<char>>,
    subjects: Seq<Seq<char>>,
)
    requires
        wf(s),
        !url_taken(s.papers, p.url),
        s.next_paper_id < i32::MAX,
        forall|i: int, j: int| 0 <= i < j < authors.len() ==> authors[i] != authors[j],
        forall|i: int, j: int| 0 <= i < j < subjects.len() ==> subjects[i] != subjects[j],
        s.next_author_id + authors.len() <= i32::MAX,
        s.next_category_id + subjects.len() <= i32::MAX,
    ensures
        apply_insert_full(s, p, authors, subjects) is Committed,
{
    let sa = add_paper(s, p);
    lemma_add_paper_wf(s, p);
    let pid = s.next_paper_id;
    assert forall|k: int| 0 <= k < authors.len() implies !has_link(
        sa.paper_author,
        pid,
        resolved_id(sa.authors, sa.next_author_id, #[trigger] authors[k]),
    ) by {
        lemma_no_link_for_fresh_paper(
            s.paper_author,
            s.papers,
            s.authors,
            s.next_paper_id,
            pid,
            resolved_id(s.authors, s.next_author_id, authors[k]),
        );
    }
    lemma_apply_authors_commits(sa, pid, authors);
    lemma_apply_authors_frame(sa, pid, authors);
    let sm = apply_authors(sa, pid, authors)->Committed_0;
    assert forall|k: int| 0 <= k < subjects.len() implies !has_link(
        sm.paper_category,
        pid,
        resolved_id(sm.categories, sm.next_category_id, #[trigger] subjects[k]),
    ) by {
        lemma_no_link_for_fresh_paper(
            s.paper_category,
            s.papers,
            s.categories,
            s.next_paper_id,
            pid,
            resolved_id(s.categories, s.next_category_id, subjects[k]),
        );
    }
    lemma_apply_subjects_commits(sm, pid, subjects);
}

/// A paper with no junction rows has no authors: the join over a junction
/// table that never cites the paper's id is the empty sequence.
pub proof fn lemma_joined_entities_no_links(
    ls: Seq<LinkModel>,
    es: Seq<EntityModel>,
    paper_id: int,
)
    requires
        forall|i: int| 0 <= i < ls.len() ==> ls[i].paper_id != paper_id,
    ensures
        joined_entities(ls, es, paper_id) == Seq::<EntityModel>::empty(),
    decreases ls.len(),
{
    if ls.len() == 0 {
    } else {
        assert forall|i: int| 0 <= i < ls.drop_last().len() implies ls.drop_last()[i].paper_id
            != paper_id by {
            assert(ls.drop_last()[i] == ls[i]);
        }
        lemma_joined_entities_no_links(ls.drop_last(), es, paper_id);
        assert(joined_entities(ls, es, paper_id) =~= Seq::<EntityModel>::empty());
    }
}

} // verus!
