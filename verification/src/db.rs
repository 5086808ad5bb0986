//! The connection, its transactions, and the statements of the write path.
//!
//! A [`DBConnection`] holds the committed state of the store. A write runs on
//! a [`Transaction`]: a snapshot of that state. Statements change only the
//! snapshot; [`Transaction::commit`] makes it the committed state, and a
//! dropped transaction leaves the committed state untouched, which is how the
//! write path is all-or-nothing.
//!
//! Storage faults are modelled by a one-shot fault schedule that a caller may
//! arm with [`DBConnection::inject_fault_after`]: within the next
//! transaction, each statement counts as one storage round trip, and the
//! statement after the scheduled number fails with [`Error::Storage`].

use vstd::prelude::*;
use crate::model::{
    add_paper, apply_authors, apply_insert_full, apply_subjects, empty_store, find_entity,
    find_entity_by_id, find_paper, fires, has_entity_id, has_link, has_paper_id, joined_entities,
    lemma_add_paper_wf, lemma_find_entity_by_id_props, lemma_find_entity_push_absent,
    lemma_link_author_wf, lemma_link_subject_wf, lemma_resolve_author_wf,
    lemma_resolve_subject_wf,
    link_author, link_subject, paper_row, resolve_author, resolve_subject, tick, url_taken, wf,
    Applied, StoreModel,
};
use crate::models::{
    Author, Category, EntityModel, Id, LinkModel, NewAuthor, NewCategory, NewPaper, Paper,
    PaperAuthor, PaperCategory, PaperModel,
};

verus! {

/// The sole error kind the store surfaces.
#[derive(Debug, Clone, Copy, PartialEq, Eq)]
pub enum Error {
    /// A single-row fetch matched no row.
    NotFound,
    /// A key constraint (unique natural key, composite junction key, or a
    /// foreign key) rejected a statement.
    Constraint,
    /// The storage engine failed: a scheduled fault, or an exhausted id space.
    Storage,
}

/// The model of a paper table held in a vector.
pub open spec fn paper_models(v: Seq<Paper>) -> Seq<PaperModel> {
    v.map_values(|p: Paper| p@)
}

/// The model of an author table held in a vector.
pub open spec fn author_models(v: Seq<Author>) -> Seq<EntityModel> {
    v.map_values(|a: Author| a@)
}

/// The model of a subject table held in a vector.
pub open spec fn category_models(v: Seq<Category>) -> Seq<EntityModel> {
    v.map_values(|c: Category| c@)
}

/// The model of a paper-author junction table held in a vector.
pub open spec fn paper_author_models(v: Seq<PaperAuthor>) -> Seq<LinkModel> {
    v.map_values(|l: PaperAuthor| l@)
}

/// The model of a paper-subject junction table held in a vector.
pub open spec fn paper_category_models(v: Seq<PaperCategory>) -> Seq<LinkModel> {
    v.map_values(|l: PaperCategory| l@)
}

/// The names in an author payload list, in order.
pub open spec fn author_names(v: Seq<NewAuthor>) -> Seq<Seq<char>> {
    v.map_values(|a: NewAuthor| a@)
}

/// The names in a subject payload list, in order.
pub open spec fn subject_names(v: Seq<NewCategory>) -> Seq<Seq<char>> {
    v.map_values(|c: NewCategory| c@)
}

/// The five tables and the three id counters.
struct Tables {
    papers: Vec<Paper>,
    authors: Vec<Author>,
    categories: Vec<Category>,
    paper_author: Vec<PaperAuthor>,
    paper_category: Vec<PaperCategory>,
    next_paper_id: Id,
    next_author_id: Id,
    next_category_id: Id,
}

impl View for Tables {
    type V = StoreModel;

    closed spec fn view(&self) -> StoreModel {
        StoreModel {
            papers: paper_models(self.papers@),
            authors: author_models(self.authors@),
            categories: category_models(self.categories@),
            paper_author: paper_author_models(self.paper_author@),
            paper_category: paper_category_models(self.paper_category@),
            next_paper_id: self.next_paper_id as int,
            next_author_id: self.next_author_id as int,
            next_category_id: self.next_category_id as int,
        }
    }
}

/// An open transaction: a snapshot of the committed state, plus whatever
/// fault schedule was armed when it was opened. Dropping it rolls back.
pub struct Transaction {
    tables: Tables,
    fault: Option<u64>,
}

/// A connection to the store, holding its committed state.
pub struct DBConnection {
    tables: Tables,
    pending_fault: Option<u64>,
}

impl Transaction {
    /// The relational content this transaction sees.
    pub closed spec fn store(self) -> StoreModel {
        self.tables@
    }

    /// What remains of the fault schedule.
    pub closed spec fn fault_schedule(self) -> Option<int> {
        match self.fault {
            Some(k) => Some(k as int),
            None => None,
        }
    }

    /// The store's invariant, on the transaction's snapshot.
    pub open spec fn wf(self) -> bool {
        wf(self.store())
    }

    /// Counts one storage round trip against the fault schedule. `false`
    /// means the scheduled fault fires now.
    fn take_tick(&mut self) -> (ok: bool)
        ensures
            final(self).store() == old(self).store(),
            ok == !fires(old(self).fault_schedule()),
            ok ==> final(self).fault_schedule() == tick(old(self).fault_schedule()),
            !ok ==> final(self).fault_schedule() == old(self).fault_schedule(),
    {
        match self.fault {
            Some(0) => false,
            Some(k) => {
                self.fault = Some(k - 1);
                true
            },
            None => true,
        }
    }

    /// Commits: the snapshot becomes the connection's committed state. What
    /// remains of the fault schedule is discarded.
    pub fn commit(self, conn: &mut DBConnection)
        ensures
            final(conn).store() == self.store(),
            final(conn).fault_schedule() is None,
    {
        conn.tables = self.tables;
        conn.pending_fault = None;
    }
}

fn clone_paper(p: &Paper) -> (r: Paper)
    ensures
        r == *p,
{
    Paper {
        id: p.id,
        title: p.title.clone(),
        description: p.description.clone(),
        body: p.body.clone(),
        url: p.url.clone(),
    }
}

fn clone_papers(v: &Vec<Paper>) -> (r: Vec<Paper>)
    ensures
        r@ == v@,
{
    let mut r: Vec<Paper> = Vec::new();
    let mut i: usize = 0;
    while i < v.len()
        invariant
            i <= v.len(),
            r@ == v@.take(i as int),
        decreases v.len() - i,
    {
        r.push(clone_paper(&v[i]));
        proof {
            assert(v@.take(i as int + 1) =~= v@.take(i as int).push(v@[i as int]));
        }
        i = i + 1;
    }
    proof {
        assert(v@.take(v.len() as int) =~= v@);
    }
    r
}

fn clone_authors(v: &Vec<Author>) -> (r: Vec<Author>)
    ensures
        r@ == v@,
{
    let mut r: Vec<Author> = Vec::new();
    let mut i: usize = 0;
    while i < v.len()
        invariant
            i <= v.len(),
            r@ == v@.take(i as int),
        decreases v.len() - i,
    {
        r.push(Author { id: v[i].id, name: v[i].name.clone() });
        proof {
            assert(v@.take(i as int + 1) =~= v@.take(i as int).push(v@[i as int]));
        }
        i = i + 1;
    }
    proof {
        assert(v@.take(v.len() as int) =~= v@);
    }
    r
}

fn clone_categories(v: &Vec<Category>) -> (r: Vec<Category>)
    ensures
        r@ == v@,
{
    let mut r: Vec<Category> = Vec::new();
    let mut i: usize = 0;
    while i < v.len()
        invariant
            i <= v.len(),
            r@ == v@.take(i as int),
        decreases v.len() - i,
    {
        r.push(Category { id: v[i].id, name: v[i].name.clone() });
        proof {
            assert(v@.take(i as int + 1) =~= v@.take(i as int).push(v@[i as int]));
        }
        i = i + 1;
    }
    proof {
        assert(v@.take(v.len() as int) =~= v@);
    }
    r
}

fn clone_paper_authors(v: &Vec<PaperAuthor>) -> (r: Vec<PaperAuthor>)
    ensures
        r@ == v@,
{
    let mut r: Vec<PaperAuthor> = Vec::new();
    let mut i: usize = 0;
    while i < v.len()
        invariant
            i <= v.len(),
            r@ == v@.take(i as int),
        decreases v.len() - i,
    {
        r.push(v[i]);
        proof {
            assert(v@.take(i as int + 1) =~= v@.take(i as int).push(v@[i as int]));
        }
        i = i + 1;
    }
    proof {
        assert(v@.take(v.len() as int) =~= v@);
    }
    r
}

fn clone_paper_categories(v: &Vec<PaperCategory>) -> (r: Vec<PaperCategory>)
    ensures
        r@ == v@,
{
    let mut r: Vec<PaperCategory> = Vec::new();
    let mut i: usize = 0;
    while i < v.len()
        invariant
            i <= v.len(),
            r@ == v@.take(i as int),
        decreases v.len() - i,
    {
        r.push(v[i]);
        proof {
            assert(v@.take(i as int + 1) =~= v@.take(i as int).push(v@[i as int]));
        }
        i = i + 1;
    }
    proof {
        assert(v@.take(v.len() as int) =~= v@);
    }
    r
}

fn clone_tables(t: &Tables) -> (r: Tables)
    ensures
        r@ == t@,
{
    Tables {
        papers: clone_papers(&t.papers),
        authors: clone_authors(&t.authors),
        categories: clone_categories(&t.categories),
        paper_author: clone_paper_authors(&t.paper_author),
        paper_category: clone_paper_categories(&t.paper_category),
        next_paper_id: t.next_paper_id,
        next_author_id: t.next_author_id,
        next_category_id: t.next_category_id,
    }
}

fn url_present(v: &Vec<Paper>, url: &String) -> (r: bool)
    ensures
        r == url_taken(paper_models(v@), url@),
{
    let ghost ps = paper_models(v@);
    let mut i: usize = 0;
    while i < v.len()
        invariant
            i <= v.len(),
            ps == paper_models(v@),
            forall|k: int| 0 <= k < i ==> ps[k].url != url@,
        decreases v.len() - i,
    {
        if v[i].url == *url {
            proof {
                assert(ps[i as int].url == url@);
            }
            return true;
        }
        i = i + 1;
    }
    false
}

fn paper_id_present(v: &Vec<Paper>, id: Id) -> (r: bool)
    ensures
        r == has_paper_id(paper_models(v@), id as int),
{
    let ghost ps = paper_models(v@);
    let mut i: usize = 0;
    while i < v.len()
        invariant
            i <= v.len(),
            ps == paper_models(v@),
            forall|k: int| 0 <= k < i ==> ps[k].id != id as int,
        decreases v.len() - i,
    {
        if v[i].id == id {
            proof {
                assert(ps[i as int].id == id as int);
            }
            return true;
        }
        i = i + 1;
    }
    false
}

fn author_id_present(v: &Vec<Author>, id: Id) -> (r: bool)
    ensures
        r == has_entity_id(author_models(v@), id as int),
{
    let ghost es = author_models(v@);
    let mut i: usize = 0;
    while i < v.len()
        invariant
            i <= v.len(),
            es == author_models(v@),
            forall|k: int| 0 <= k < i ==> es[k].id != id as int,
        decreases v.len() - i,
    {
        if v[i].id == id {
            proof {
                assert(es[i as int].id == id as int);
            }
            return true;
        }
        i = i + 1;
    }
    false
}

fn category_id_present(v: &Vec<Category>, id: Id) -> (r: bool)
    ensures
        r == has_entity_id(category_models(v@), id as int),
{
    let ghost es = category_models(v@);
    let mut i: usize = 0;
    while i < v.len()
        invariant
            i <= v.len(),
            es == category_models(v@),
            forall|k: int| 0 <= k < i ==> es[k].id != id as int,
        decreases v.len() - i,
    {
        if v[i].id == id {
            proof {
                assert(es[i as int].id == id as int);
            }
            return true;
        }
        i = i + 1;
    }
    false
}

fn paper_author_present(v: &Vec<PaperAuthor>, paper_id: Id, author_id: Id) -> (r: bool)
    ensures
        r == has_link(paper_author_models(v@), paper_id as int, author_id as int),
{
    let ghost ls = paper_author_models(v@);
    let mut i: usize = 0;
    while i < v.len()
        invariant
            i <= v.len(),
            ls == paper_author_models(v@),
            forall|k: int|
                0 <= k < i ==> !(ls[k].paper_id == paper_id as int && ls[k].entity_id
                    == author_id as int),
        decreases v.len() - i,
    {
        if v[i].paper_id == paper_id && v[i].author_id == author_id {
            proof {
                assert(ls[i as int].paper_id == paper_id as int && ls[i as int].entity_id
                    == author_id as int);
            }
            return true;
        }
        i = i + 1;
    }
    false
}

fn paper_category_present(v: &Vec<PaperCategory>, paper_id: Id, category_id: Id) -> (r: bool)
    ensures
        r == has_link(paper_category_models(v@), paper_id as int, category_id as int),
{
    let ghost ls = paper_category_models(v@);
    let mut i: usize = 0;
    while i < v.len()
        invariant
            i <= v.len(),
            ls == paper_category_models(v@),
            forall|k: int|
                0 <= k < i ==> !(ls[k].paper_id == paper_id as int && ls[k].entity_id
                    == category_id as int),
        decreases v.len() - i,
    {
        if v[i].paper_id == paper_id && v[i].category_id == category_id {
            proof {
                assert(ls[i as int].paper_id == paper_id as int && ls[i as int].entity_id
                    == category_id as int);
            }
            return true;
        }
        i = i + 1;
    }
    false
}

fn find_author_id(v: &Vec<Author>, name: &String) -> (r: Option<Id>)
    ensures
        match r {
            Some(id) => find_entity(author_models(v@), name@) matches Some(e) && e.id == id as int,
            None => find_entity(author_models(v@), name@) is None,
        },
{
    let ghost es = author_models(v@);
    proof {
        assert(es.skip(0) =~= es);
    }
    let mut i: usize = 0;
    while i < v.len()
        invariant
            i <= v.len(),
            es == author_models(v@),
            find_entity(es, name@) == find_entity(es.skip(i as int), name@),
        decreases v.len() - i,
    {
        if v[i].name == *name {
            proof {
                assert(es.skip(i as int)[0] == es[i as int]);
            }
            return Some(v[i].id);
        }
        proof {
            assert(es.skip(i as int)[0] == es[i as int]);
            assert(es.skip(i as int).skip(1) =~= es.skip(i as int + 1));
        }
        i = i + 1;
    }
    proof {
        assert(es.skip(v@.len() as int).len() == 0);
    }
    None
}

fn find_author_row(v: &Vec<Author>, id: Id) -> (r: Option<Author>)
    ensures
        match r {
            Some(a) => find_entity_by_id(author_models(v@), id as int) == Some(a@),
            None => find_entity_by_id(author_models(v@), id as int) is None,
        },
{
    let ghost es = author_models(v@);
    proof {
        assert(es.skip(0) =~= es);
    }
    let mut i: usize = 0;
    while i < v.len()
        invariant
            i <= v.len(),
            es == author_models(v@),
            find_entity_by_id(es, id as int) == find_entity_by_id(es.skip(i as int), id as int),
        decreases v.len() - i,
    {
        if v[i].id == id {
            proof {
                assert(es.skip(i as int)[0] == es[i as int]);
            }
            return Some(Author { id: v[i].id, name: v[i].name.clone() });
        }
        proof {
            assert(es.skip(i as int)[0] == es[i as int]);
            assert(es.skip(i as int).skip(1) =~= es.skip(i as int + 1));
        }
        i = i + 1;
    }
    proof {
        assert(es.skip(v@.len() as int).len() == 0);
    }
    None
}

fn find_category_id(v: &Vec<Category>, name: &String) -> (r: Option<Id>)
    ensures
        match r {
            Some(id) => find_entity(category_models(v@), name@) matches Some(e) && e.id
                == id as int,
            None => find_entity(category_models(v@), name@) is None,
        },
{
    let ghost es = category_models(v@);
    proof {
        assert(es.skip(0) =~= es);
    }
    let mut i: usize = 0;
    while i < v.len()
        invariant
            i <= v.len(),
            es == category_models(v@),
            find_entity(es, name@) == find_entity(es.skip(i as int), name@),
        decreases v.len() - i,
    {
        if v[i].name == *name {
            proof {
                assert(es.skip(i as int)[0] == es[i as int]);
            }
            return Some(v[i].id);
        }
        proof {
            assert(es.skip(i as int)[0] == es[i as int]);
            assert(es.skip(i as int).skip(1) =~= es.skip(i as int + 1));
        }
        i = i + 1;
    }
    proof {
        assert(es.skip(v@.len() as int).len() == 0);
    }
    None
}

impl DBConnection {
    /// The relational content this connection has committed.
    pub closed spec fn store(self) -> StoreModel {
        self.tables@
    }

    /// The armed one-shot fault schedule, if any.
    pub closed spec fn fault_schedule(self) -> Option<int> {
        match self.pending_fault {
            Some(k) => Some(k as int),
            None => None,
        }
    }

    /// The store's invariant holds of the committed state.
    pub open spec fn wf(self) -> bool {
        wf(self.store())
    }

    /// A connection to a fresh, empty store.
    pub fn new() -> (r: DBConnection)
        ensures
            r.wf(),
            r.store() == empty_store(),
            r.fault_schedule() is None,
    {
        let c = DBConnection {
            tables: Tables {
                papers: Vec::new(),
                authors: Vec::new(),
                categories: Vec::new(),
                paper_author: Vec::new(),
                paper_category: Vec::new(),
                next_paper_id: 1,
                next_author_id: 1,
                next_category_id: 1,
            },
            pending_fault: None,
        };
        proof {
            assert(c.store() =~= empty_store());
        }
        c
    }

    /// Arms a one-shot fault schedule: within the next transaction, each
    /// statement counts as one storage round trip, and the statement after
    /// the next `statements` ones fails with [`Error::Storage`].
    pub fn inject_fault_after(&mut self, statements: u64)
        ensures
            final(self).store() == old(self).store(),
            final(self).fault_schedule() == Some(statements as int),
    {
        self.pending_fault = Some(statements);
    }

    /// Opens a transaction on a snapshot of the committed state; an armed
    /// fault schedule moves into it.
    pub fn begin(&mut self) -> (tx: Transaction)
        ensures
            tx.store() == old(self).store(),
            tx.fault_schedule() == old(self).fault_schedule(),
            final(self).store() == old(self).store(),
            final(self).fault_schedule() is None,
    {
        let f = self.pending_fault;
        self.pending_fault = None;
        Transaction { tables: clone_tables(&self.tables), fault: f }
    }

    /// Every paper row, in insertion order.
    pub fn get_all_papers(&mut self) -> (r: Result<Vec<Paper>, Error>)
        ensures
            *final(self) == *old(self),
            r matches Ok(v) && paper_models(v@) == old(self).store().papers,
    {
        Ok(clone_papers(&self.tables.papers))
    }

    /// The number of paper rows.
    pub fn count_papers(&mut self) -> (r: Result<i64, Error>)
        requires
            old(self).wf(),
        ensures
            *final(self) == *old(self),
            r matches Ok(n) && n == old(self).store().papers.len(),
    {
        let n = self.tables.papers.len();
        Ok(n as i64)
    }

    /// The paper row carrying the id; `NotFound` exactly when no row does.
    pub fn get_paper(&mut self, desired_id: Id) -> (r: Result<Paper, Error>)
        ensures
            *final(self) == *old(self),
            match r {
                Ok(p) => find_paper(old(self).store().papers, desired_id as int) == Some(p@),
                Err(e) => e == Error::NotFound && find_paper(
                    old(self).store().papers,
                    desired_id as int,
                ) is None,
            },
    {
        let ghost ps = self.tables@.papers;
        proof {
            assert(ps.skip(0) =~= ps);
        }
        let mut i: usize = 0;
        while i < self.tables.papers.len()
            invariant
                i <= self.tables.papers.len(),
                ps == self.tables@.papers,
                find_paper(ps, desired_id as int) == find_paper(
                    ps.skip(i as int),
                    desired_id as int,
                ),
            decreases self.tables.papers.len() - i,
        {
            if self.tables.papers[i].id == desired_id {
                proof {
                    assert(ps.skip(i as int)[0] == ps[i as int]);
                }
                return Ok(clone_paper(&self.tables.papers[i]));
            }
            proof {
                assert(ps.skip(i as int)[0] == ps[i as int]);
                assert(ps.skip(i as int).skip(1) =~= ps.skip(i as int + 1));
            }
            i = i + 1;
        }
        proof {
            assert(ps.skip(self.tables.papers@.len() as int).len() == 0);
        }
        Err(Error::NotFound)
    }

    /// Whether some paper row carries the url.
    pub fn paper_exists(&mut self, desired_url: &str) -> (r: Result<bool, Error>)
        ensures
            *final(self) == *old(self),
            r matches Ok(b) && b == url_taken(old(self).store().papers, desired_url@),
    {
        let url = desired_url.to_owned();
        Ok(url_present(&self.tables.papers, &url))
    }

    /// The author rows linked to the paper, one per junction row carrying its
    /// id, in junction order. A paper with no links, or an id with no paper,
    /// gives an empty vector, not an error.
    pub fn get_paper_authors(&mut self, desired_paper_id: Id) -> (r: Result<Vec<Author>, Error>)
        requires
            old(self).wf(),
        ensures
            *final(self) == *old(self),
            r matches Ok(v) && author_models(v@) == joined_entities(
                old(self).store().paper_author,
                old(self).store().authors,
                desired_paper_id as int,
            ),
    {
        let ghost ls = self.tables@.paper_author;
        let ghost es = self.tables@.authors;
        let ghost pid = desired_paper_id as int;
        let mut out: Vec<Author> = Vec::new();
        proof {
            assert(ls.take(0).len() == 0);
            assert(author_models(out@) =~= joined_entities(ls.take(0), es, pid));
        }
        let mut i: usize = 0;
        while i < self.tables.paper_author.len()
            invariant
                i <= self.tables.paper_author.len(),
                ls == self.tables@.paper_author,
                es == self.tables@.authors,
                pid == desired_paper_id as int,
                old(self).wf(),
                ls == old(self).store().paper_author,
                es == old(self).store().authors,
                author_models(out@) == joined_entities(ls.take(i as int), es, pid),
            decreases self.tables.paper_author.len() - i,
        {
            let link = self.tables.paper_author[i];
            let ghost out_before = out@;
            if link.paper_id == desired_paper_id {
                match find_author_row(&self.tables.authors, link.author_id) {
                    Some(a) => {
                        out.push(a);
                    },
                    None => {
                        proof {
                            assert(has_entity_id(es, (ls[i as int]).entity_id));
                            lemma_find_entity_by_id_props(es, link.author_id as int);
                            assert(false);
                        }
                        return Err(Error::Storage);
                    },
                }
            }
            proof {
                assert(ls.take(i as int + 1).drop_last() =~= ls.take(i as int));
                assert(ls.take(i as int + 1).last() == ls[i as int]);
                if link.paper_id == desired_paper_id {
                    assert(author_models(out@) =~= author_models(out_before).push(
                        find_entity_by_id(es, ls[i as int].entity_id).unwrap(),
                    ));
                    assert(author_models(out@) =~= joined_entities(ls.take(i as int + 1), es, pid));
                } else {
                    assert(author_models(out@) =~= joined_entities(ls.take(i as int + 1), es, pid));
                }
            }
            i = i + 1;
        }
        proof {
            assert(ls.take(ls.len() as int) =~= ls);
        }
        Ok(out)
    }

    /// Inserts the paper row inside the transaction and returns its fresh id.
    /// A url already present is rejected as a constraint violation: the store
    /// enforces the unique url key; nothing is pre-checked by this statement.
    pub fn insert_paper(&self, new_paper: NewPaper, tx: &mut Transaction) -> (r: Result<Id, Error>)
        requires
            old(tx).wf(),
        ensures
            final(tx).wf(),
            ({
                let s = old(tx).store();
                let f = old(tx).fault_schedule();
                match r {
                    Ok(id) => {
                        &&& !fires(f)
                        &&& !url_taken(s.papers, new_paper@.url)
                        &&& s.next_paper_id < i32::MAX
                        &&& id as int == s.next_paper_id
                        &&& final(tx).store() == add_paper(s, new_paper@)
                        &&& final(tx).fault_schedule() == tick(f)
                    },
                    Err(Error::Constraint) => {
                        &&& !fires(f)
                        &&& url_taken(s.papers, new_paper@.url)
                        &&& final(tx).store() == s
                        &&& final(tx).fault_schedule() == tick(f)
                    },
                    Err(Error::Storage) => {
                        &&& final(tx).store() == s
                        &&& fires(f) || (!url_taken(s.papers, new_paper@.url) && s.next_paper_id
                            == i32::MAX)
                        &&& final(tx).fault_schedule() == (if fires(f) {
                            f
                        } else {
                            tick(f)
                        })
                    },
                    Err(Error::NotFound) => false,
                }
            }),
    {
        if !tx.take_tick() {
            return Err(Error::Storage);
        }
        if url_present(&tx.tables.papers, &new_paper.url) {
            return Err(Error::Constraint);
        }
        if tx.tables.next_paper_id == i32::MAX {
            return Err(Error::Storage);
        }
        let ghost s = old(tx).store();
        let id = tx.tables.next_paper_id;
        let row = Paper {
            id,
            title: new_paper.title,
            description: new_paper.description,
            body: new_paper.body,
            url: new_paper.url,
        };
        tx.tables.papers.push(row);
        tx.tables.next_paper_id = id + 1;
        proof {
            assert(tx.tables@.papers =~= s.papers.push(paper_row(s, new_paper@)));
            assert(tx.store() =~= add_paper(s, new_paper@));
            lemma_add_paper_wf(s, new_paper@);
        }
        Ok(id)
    }

    /// Resolve-or-create for an author name inside the transaction: an
    /// insert-ignore on the unique name key, then a select of the row's id.
    /// The select is proved to always find the row, so the `NotFound` failure
    /// that the two-step pattern admits cannot occur.
    pub fn insert_author(&self, new_author: NewAuthor, tx: &mut Transaction) -> (r: Result<
        Id,
        Error,
    >)
        requires
            old(tx).wf(),
        ensures
            final(tx).wf(),
            ({
                let s = old(tx).store();
                let f = old(tx).fault_schedule();
                match r {
                    Ok(id) => {
                        &&& !fires(f)
                        &&& resolve_author(s, new_author@) is Some
                        &&& final(tx).store() == resolve_author(s, new_author@).unwrap().0
                        &&& id as int == resolve_author(s, new_author@).unwrap().1
                        &&& final(tx).fault_schedule() == tick(f)
                    },
                    Err(Error::Storage) => {
                        &&& final(tx).store() == s
                        &&& fires(f) || resolve_author(s, new_author@) is None
                        &&& final(tx).fault_schedule() == (if fires(f) {
                            f
                        } else {
                            tick(f)
                        })
                    },
                    Err(Error::Constraint) => false,
                    Err(Error::NotFound) => false,
                }
            }),
    {
        if !tx.take_tick() {
            return Err(Error::Storage);
        }
        let ghost s = old(tx).store();
        // Insert-ignore on the unique name key: a no-op when the name exists.
        let found = find_author_id(&tx.tables.authors, &new_author.name);
        if found.is_none() {
            if tx.tables.next_author_id == i32::MAX {
                return Err(Error::Storage);
            }
            let id = tx.tables.next_author_id;
            tx.tables.authors.push(Author { id, name: new_author.name.clone() });
            tx.tables.next_author_id = id + 1;
            proof {
                assert(tx.tables@.authors =~= s.authors.push(
                    EntityModel { id: id as int, name: new_author@ },
                ));
                lemma_find_entity_push_absent(
                    s.authors,
                    new_author@,
                    EntityModel { id: id as int, name: new_author@ },
                );
                assert(tx.store() =~= resolve_author(s, new_author@).unwrap().0);
                lemma_resolve_author_wf(s, new_author@);
            }
        }
        // Select the row by its unique name.
        match find_author_id(&tx.tables.authors, &new_author.name) {
            Some(id) => {
                proof {
                    lemma_resolve_author_wf(s, new_author@);
                }
                Ok(id)
            },
            None => Err(Error::NotFound),
        }
    }

    /// Resolve-or-create for a subject name inside the transaction: an
    /// insert-ignore on the unique name key, then a select of the row's id.
    /// The select is proved to always find the row, so the `NotFound` failure
    /// that the two-step pattern admits cannot occur.
    pub fn insert_subject(&self, new_subject: NewCategory, tx: &mut Transaction) -> (r: Result<
        Id,
        Error,
    >)
        requires
            old(tx).wf(),
        ensures
            final(tx).wf(),
            ({
                let s = old(tx).store();
                let f = old(tx).fault_schedule();
                match r {
                    Ok(id) => {
                        &&& !fires(f)
                        &&& resolve_subject(s, new_subject@) is Some
                        &&& final(tx).store() == resolve_subject(s, new_subject@).unwrap().0
                        &&& id as int == resolve_subject(s, new_subject@).unwrap().1
                        &&& final(tx).fault_schedule() == tick(f)
                    },
                    Err(Error::Storage) => {
                        &&& final(tx).store() == s
                        &&& fires(f) || resolve_subject(s, new_subject@) is None
                        &&& final(tx).fault_schedule() == (if fires(f) {
                            f
                        } else {
                            tick(f)
                        })
                    },
                    Err(Error::Constraint) => false,
                    Err(Error::NotFound) => false,
                }
            }),
    {
        if !tx.take_tick() {
            return Err(Error::Storage);
        }
        let ghost s = old(tx).store();
        // Insert-ignore on the unique name key: a no-op when the name exists.
        let found = find_category_id(&tx.tables.categories, &new_subject.name);
        if found.is_none() {
            if tx.tables.next_category_id == i32::MAX {
                return Err(Error::Storage);
            }
            let id = tx.tables.next_category_id;
            tx.tables.categories.push(Category { id, name: new_subject.name.clone() });
            tx.tables.next_category_id = id + 1;
            proof {
                assert(tx.tables@.categories =~= s.categories.push(
                    EntityModel { id: id as int, name: new_subject@ },
                ));
                lemma_find_entity_push_absent(
                    s.categories,
                    new_subject@,
                    EntityModel { id: id as int, name: new_subject@ },
                );
                assert(tx.store() =~= resolve_subject(s, new_subject@).unwrap().0);
                lemma_resolve_subject_wf(s, new_subject@);
            }
        }
        // Select the row by its unique name.
        match find_category_id(&tx.tables.categories, &new_subject.name) {
            Some(id) => {
                proof {
                    lemma_resolve_subject_wf(s, new_subject@);
                }
                Ok(id)
            },
            None => Err(Error::NotFound),
        }
    }

    /// Inserts the junction row `(paper_id, author_id)`. Both foreign keys
    /// must reference existing rows and the composite key must be new, else
    /// the statement is rejected as a constraint violation.
    pub fn set_paper_author(&mut self, paper_id: Id, author_id: Id, tx: &mut Transaction) -> (r:
        Result<(), Error>)
        requires
            old(tx).wf(),
        ensures
            *final(self) == *old(self),
            final(tx).wf(),
            ({
                let s = old(tx).store();
                let f = old(tx).fault_schedule();
                match r {
                    Ok(()) => {
                        &&& !fires(f)
                        &&& has_paper_id(s.papers, paper_id as int)
                        &&& has_entity_id(s.authors, author_id as int)
                        &&& !has_link(s.paper_author, paper_id as int, author_id as int)
                        &&& final(tx).store() == link_author(s, paper_id as int, author_id as int)
                        &&& final(tx).fault_schedule() == tick(f)
                    },
                    Err(Error::Constraint) => {
                        &&& !fires(f)
                        &&& !(has_paper_id(s.papers, paper_id as int) && has_entity_id(
                            s.authors,
                            author_id as int,
                        ) && !has_link(s.paper_author, paper_id as int, author_id as int))
                        &&& final(tx).store() == s
                        &&& final(tx).fault_schedule() == tick(f)
                    },
                    Err(Error::Storage) => {
                        &&& fires(f)
                        &&& final(tx).store() == s
                        &&& final(tx).fault_schedule() == f
                    },
                    Err(Error::NotFound) => false,
                }
            }),
    {
        if !tx.take_tick() {
            return Err(Error::Storage);
        }
        let ghost s = old(tx).store();
        if !paper_id_present(&tx.tables.papers, paper_id) {
            return Err(Error::Constraint);
        }
        if !author_id_present(&tx.tables.authors, author_id) {
            return Err(Error::Constraint);
        }
        if paper_author_present(&tx.tables.paper_author, paper_id, author_id) {
            return Err(Error::Constraint);
        }
        tx.tables.paper_author.push(PaperAuthor { paper_id, author_id });
        proof {
            assert(tx.tables@.paper_author =~= s.paper_author.push(
                LinkModel { paper_id: paper_id as int, entity_id: author_id as int },
            ));
            assert(tx.store() =~= link_author(s, paper_id as int, author_id as int));
            lemma_link_author_wf(s, paper_id as int, author_id as int);
        }
        Ok(())
    }

    /// Inserts the junction row `(paper_id, category_id)`. Both foreign keys
    /// must reference existing rows and the composite key must be new, else
    /// the statement is rejected as a constraint violation.
    pub fn set_paper_subject(&mut self, paper_id: Id, subject_id: Id, tx: &mut Transaction) -> (r:
        Result<(), Error>)
        requires
            old(tx).wf(),
        ensures
            *final(self) == *old(self),
            final(tx).wf(),
            ({
                let s = old(tx).store();
                let f = old(tx).fault_schedule();
                match r {
                    Ok(()) => {
                        &&& !fires(f)
                        &&& has_paper_id(s.papers, paper_id as int)
                        &&& has_entity_id(s.categories, subject_id as int)
                        &&& !has_link(s.paper_category, paper_id as int, subject_id as int)
                        &&& final(tx).store() == link_subject(s, paper_id as int, subject_id as int)
                        &&& final(tx).fault_schedule() == tick(f)
                    },
                    Err(Error::Constraint) => {
                        &&& !fires(f)
                        &&& !(has_paper_id(s.papers, paper_id as int) && has_entity_id(
                            s.categories,
                            subject_id as int,
                        ) && !has_link(s.paper_category, paper_id as int, subject_id as int))
                        &&& final(tx).store() == s
                        &&& final(tx).fault_schedule() == tick(f)
                    },
                    Err(Error::Storage) => {
                        &&& fires(f)
                        &&& final(tx).store() == s
                        &&& final(tx).fault_schedule() == f
                    },
                    Err(Error::NotFound) => false,
                }
            }),
    {
        if !tx.take_tick() {
            return Err(Error::Storage);
        }
        let ghost s = old(tx).store();
        if !paper_id_present(&tx.tables.papers, paper_id) {
            return Err(Error::Constraint);
        }
        if !category_id_present(&tx.tables.categories, subject_id) {
            return Err(Error::Constraint);
        }
        if paper_category_present(&tx.tables.paper_category, paper_id, subject_id) {
            return Err(Error::Constraint);
        }
        tx.tables.paper_category.push(PaperCategory { paper_id, category_id: subject_id });
        proof {
            assert(tx.tables@.paper_category =~= s.paper_category.push(
                LinkModel { paper_id: paper_id as int, entity_id: subject_id as int },
            ));
            assert(tx.store() =~= link_subject(s, paper_id as int, subject_id as int));
            lemma_link_subject_wf(s, paper_id as int, subject_id as int);
        }
        Ok(())
    }

    /// The full write path, in one transaction: insert the paper row, then
    /// for each author name in the order given resolve-or-create and link,
    /// then likewise for each subject name, then commit. Any failure aborts
    /// the transaction: the committed state is then exactly what it was. With
    /// no fault schedule armed, the outcome is exactly [`apply_insert_full`]
    /// on the committed state.
    ///
    /// A name that occurs twice in one list is processed twice: the second
    /// junction insert hits the composite key and aborts the transaction as
    /// a constraint violation.
    pub fn insert_paper_full(
        &mut self,
        paper: NewPaper,
        authors: Vec<NewAuthor>,
        subjects: Vec<NewCategory>,
    ) -> (r: Result<(), Error>)
        requires
            old(self).wf(),
        ensures
            final(self).wf(),
            final(self).fault_schedule() is None,
            r is Err ==> final(self).store() == old(self).store(),
            r is Ok ==> apply_insert_full(
                old(self).store(),
                paper@,
                author_names(authors@),
                subject_names(subjects@),
            ) == Applied::Committed(final(self).store()),
            r == Err::<(), Error>(Error::Constraint) ==> apply_insert_full(
                old(self).store(),
                paper@,
                author_names(authors@),
                subject_names(subjects@),
            ) is Constraint,
            r != Err::<(), Error>(Error::NotFound),
            old(self).fault_schedule() is None ==> match apply_insert_full(
                old(self).store(),
                paper@,
                author_names(authors@),
                subject_names(subjects@),
            ) {
                Applied::Committed(m) => r is Ok && final(self).store() == m,
                Applied::Constraint => r == Err::<(), Error>(Error::Constraint),
                Applied::Exhausted => r == Err::<(), Error>(Error::Storage),
            },
    {
        let ghost s0 = old(self).store();
        let ghost nsa = author_names(authors@);
        let ghost nss = subject_names(subjects@);
        let mut tx = self.begin();
        let paper_id = match self.insert_paper(paper, &mut tx) {
            Ok(id) => id,
            Err(e) => {
                return Err(e);
            },
        };
        let ghost pid = s0.next_paper_id;
        let ghost base = tx.store();
        proof {
            assert(nsa.skip(0) =~= nsa);
            lemma_add_paper_wf(s0, paper@);
        }
        let mut i: usize = 0;
        while i < authors.len()
            invariant
                i <= authors.len(),
                old(self).wf(),
                s0 == old(self).store(),
                self.store() == s0,
                self.fault_schedule() is None,
                tx.wf(),
                nsa == author_names(authors@),
                pid == s0.next_paper_id,
                paper_id as int == pid,
                !url_taken(s0.papers, paper@.url),
                s0.next_paper_id < i32::MAX,
                base == add_paper(s0, paper@),
                has_paper_id(tx.store().papers, pid),
                apply_authors(base, pid, nsa) == apply_authors(
                    tx.store(),
                    pid,
                    nsa.skip(i as int),
                ),
                old(self).fault_schedule() is None ==> tx.fault_schedule() is None,
            decreases authors.len() - i,
        {
            let ghost cur = tx.store();
            let a = NewAuthor { name: authors[i].name.clone() };
            proof {
                assert(a@ == nsa[i as int]);
                assert(nsa.skip(i as int)[0] == nsa[i as int]);
            }
            let author_id = match self.insert_author(a, &mut tx) {
                Ok(id) => id,
                Err(e) => {
                    proof {
                        if old(self).fault_schedule() is None {
                            assert(resolve_author(cur, nsa.skip(i as int)[0]) is None);
                            assert(apply_authors(cur, pid, nsa.skip(i as int))
                                == Applied::Exhausted);
                            assert(apply_insert_full(s0, paper@, nsa, nss)
                                == Applied::Exhausted);
                        }
                    }
                    return Err(e);
                },
            };
            proof {
                lemma_resolve_author_wf(cur, nsa[i as int]);
            }
            let ghost s1 = resolve_author(cur, nsa[i as int]).unwrap().0;
            match self.set_paper_author(paper_id, author_id, &mut tx) {
                Ok(()) => {},
                Err(e) => {
                    proof {
                        assert(has_paper_id(s1.papers, pid));
                        if e == Error::Constraint {
                            assert(has_link(s1.paper_author, pid, author_id as int));
                            assert(apply_authors(cur, pid, nsa.skip(i as int))
                                == Applied::Constraint);
                            assert(apply_insert_full(s0, paper@, nsa, nss)
                                == Applied::Constraint);
                        }
                    }
                    return Err(e);
                },
            }
            proof {
                assert(tx.store() == link_author(s1, pid, author_id as int));
                assert(apply_authors(cur, pid, nsa.skip(i as int)) == apply_authors(
                    tx.store(),
                    pid,
                    nsa.skip(i as int).skip(1),
                ));
                assert(nsa.skip(i as int).skip(1) =~= nsa.skip(i as int + 1));
            }
            i = i + 1;
        }
        proof {
            assert(nsa.skip(authors@.len() as int).len() == 0);
            assert(nss.skip(0) =~= nss);
        }
        let ghost mid = tx.store();
        let mut j: usize = 0;
        while j < subjects.len()
            invariant
                j <= subjects.len(),
                old(self).wf(),
                s0 == old(self).store(),
                self.store() == s0,
                self.fault_schedule() is None,
                tx.wf(),
                nsa == author_names(authors@),
                nss == subject_names(subjects@),
                pid == s0.next_paper_id,
                paper_id as int == pid,
                !url_taken(s0.papers, paper@.url),
                s0.next_paper_id < i32::MAX,
                base == add_paper(s0, paper@),
                has_paper_id(tx.store().papers, pid),
                apply_authors(base, pid, nsa) == Applied::Committed(mid),
                apply_subjects(mid, pid, nss) == apply_subjects(
                    tx.store(),
                    pid,
                    nss.skip(j as int),
                ),
                old(self).fault_schedule() is None ==> tx.fault_schedule() is None,
            decreases subjects.len() - j,
        {
            let ghost cur = tx.store();
            let c = NewCategory { name: subjects[j].name.clone() };
            proof {
                assert(c@ == nss[j as int]);
                assert(nss.skip(j as int)[0] == nss[j as int]);
            }
            let subject_id = match self.insert_subject(c, &mut tx) {
                Ok(id) => id,
                Err(e) => {
                    proof {
                        if old(self).fault_schedule() is None {
                            assert(resolve_subject(cur, nss.skip(j as int)[0]) is None);
                            assert(apply_subjects(cur, pid, nss.skip(j as int))
                                == Applied::Exhausted);
                            assert(apply_insert_full(s0, paper@, nsa, nss)
                                == Applied::Exhausted);
                        }
                    }
                    return Err(e);
                },
            };
            proof {
                lemma_resolve_subject_wf(cur, nss[j as int]);
            }
            let ghost s1 = resolve_subject(cur, nss[j as int]).unwrap().0;
            match self.set_paper_subject(paper_id, subject_id, &mut tx) {
                Ok(()) => {},
                Err(e) => {
                    proof {
                        assert(has_paper_id(s1.papers, pid));
                        if e == Error::Constraint {
                            assert(has_link(s1.paper_category, pid, subject_id as int));
                            assert(apply_subjects(cur, pid, nss.skip(j as int))
                                == Applied::Constraint);
                            assert(apply_insert_full(s0, paper@, nsa, nss)
                                == Applied::Constraint);
                        }
                    }
                    return Err(e);
                },
            }
            proof {
                assert(tx.store() == link_subject(s1, pid, subject_id as int));
                assert(apply_subjects(cur, pid, nss.skip(j as int)) == apply_subjects(
                    tx.store(),
                    pid,
                    nss.skip(j as int).skip(1),
                ));
                assert(nss.skip(j as int).skip(1) =~= nss.skip(j as int + 1));
            }
            j = j + 1;
        }
        proof {
            assert(nss.skip(subjects@.len() as int).len() == 0);
        }
        tx.commit(self);
        Ok(())
    }
}

} // verus!
