use paper_catalog::db::{DBConnection, Error};
use paper_catalog::models::{Author, NewAuthor, NewCategory, NewPaper};

fn np(url: &str, title: &str) -> NewPaper {
    NewPaper {
        title: title.to_string(),
        description: "a description".to_string(),
        body: "a body".to_string(),
        url: url.to_string(),
    }
}

fn na(name: &str) -> NewAuthor {
    NewAuthor { name: name.to_string() }
}

fn nc(name: &str) -> NewCategory {
    NewCategory { name: name.to_string() }
}

#[test]
fn fresh_store_is_empty() {
    let mut c = DBConnection::new();
    assert_eq!(c.count_papers().unwrap(), 0);
    assert!(c.get_all_papers().unwrap().is_empty());
    assert_eq!(c.paper_exists("https://example.org/p1"), Ok(false));
    assert_eq!(c.get_paper(1), Err(Error::NotFound));
}

#[test]
fn insert_paper_full_links_authors_and_subjects() {
    let mut c = DBConnection::new();
    let r = c.insert_paper_full(
        np("https://example.org/p1", "first"),
        vec![na("Alice"), na("Bob")],
        vec![nc("Math")],
    );
    assert_eq!(r, Ok(()));
    assert_eq!(c.count_papers().unwrap(), 1);
    let papers = c.get_all_papers().unwrap();
    assert_eq!(papers.len(), 1);
    assert_eq!(papers[0].id, 1);
    assert_eq!(papers[0].title, "first");
    assert_eq!(papers[0].url, "https://example.org/p1");
    let p = c.get_paper(1).unwrap();
    assert_eq!(p.id, 1);
    assert_eq!(p.title, "first");
    let authors = c.get_paper_authors(1).unwrap();
    assert_eq!(
        authors,
        vec![
            Author { id: 1, name: "Alice".to_string() },
            Author { id: 2, name: "Bob".to_string() },
        ]
    );
    // The subject row exists and is deduplicated: resolving "Math" again
    // returns the row created by the insert, not a new one.
    let mut tx = c.begin();
    let math = c.insert_subject(nc("Math"), &mut tx).unwrap();
    let other = c.insert_subject(nc("Physics"), &mut tx).unwrap();
    assert_eq!(math, 1);
    assert_eq!(other, 2);
}

#[test]
fn resolve_or_create_is_idempotent() {
    let mut c = DBConnection::new();
    let mut tx = c.begin();
    let id1 = c.insert_author(na("Ada"), &mut tx).unwrap();
    let id2 = c.insert_author(na("Ada"), &mut tx).unwrap();
    let id3 = c.insert_author(na("Grace"), &mut tx).unwrap();
    assert_eq!(id1, id2);
    assert_ne!(id1, id3);
    tx.commit(&mut c);
    // Across transactions the same name still resolves to the same id.
    let mut tx2 = c.begin();
    let id4 = c.insert_author(na("Ada"), &mut tx2).unwrap();
    assert_eq!(id4, id1);
}

#[test]
fn fault_on_second_author_resolution_rolls_back() {
    let mut c = DBConnection::new();
    // Statements: paper insert, resolve Alice, link Alice, then the fault
    // fires on resolving Bob.
    c.inject_fault_after(3);
    let r = c.insert_paper_full(
        np("https://example.org/p1", "first"),
        vec![na("Alice"), na("Bob")],
        vec![],
    );
    assert_eq!(r, Err(Error::Storage));
    assert_eq!(c.count_papers().unwrap(), 0);
    assert!(c.get_all_papers().unwrap().is_empty());
    assert_eq!(c.paper_exists("https://example.org/p1"), Ok(false));
}

#[test]
fn fault_on_second_author_link_rolls_back() {
    let mut c = DBConnection::new();
    // The fault fires on the junction insert for Bob.
    c.inject_fault_after(4);
    let r = c.insert_paper_full(
        np("https://example.org/p1", "first"),
        vec![na("Alice"), na("Bob")],
        vec![],
    );
    assert_eq!(r, Err(Error::Storage));
    assert_eq!(c.count_papers().unwrap(), 0);
    assert!(c.get_all_papers().unwrap().is_empty());
}

#[test]
fn fault_is_consumed_by_the_failed_transaction() {
    let mut c = DBConnection::new();
    c.inject_fault_after(0);
    let r = c.insert_paper_full(np("https://example.org/p1", "first"), vec![na("Alice")], vec![]);
    assert_eq!(r, Err(Error::Storage));
    // The schedule was one-shot: the same insert now succeeds.
    let r2 = c.insert_paper_full(np("https://example.org/p1", "first"), vec![na("Alice")], vec![]);
    assert_eq!(r2, Ok(()));
    assert_eq!(c.count_papers().unwrap(), 1);
    assert_eq!(
        c.get_paper_authors(1).unwrap(),
        vec![Author { id: 1, name: "Alice".to_string() }]
    );
}

#[test]
fn paper_exists_follows_the_url_lifecycle() {
    let mut c = DBConnection::new();
    let url = "https://example.org/p1";
    assert_eq!(c.paper_exists(url), Ok(false));
    assert_eq!(c.insert_paper_full(np(url, "first"), vec![], vec![]), Ok(()));
    assert_eq!(c.paper_exists(url), Ok(true));
    // A second paper under the same url is rejected and nothing changes.
    let r = c.insert_paper_full(np(url, "second"), vec![na("Alice")], vec![]);
    assert_eq!(r, Err(Error::Constraint));
    assert_eq!(c.count_papers().unwrap(), 1);
    let papers = c.get_all_papers().unwrap();
    assert_eq!(papers.len(), 1);
    assert_eq!(papers[0].title, "first");
}

#[test]
fn paper_without_authors_has_empty_author_list() {
    let mut c = DBConnection::new();
    assert_eq!(
        c.insert_paper_full(np("https://example.org/p1", "first"), vec![], vec![nc("Math")]),
        Ok(())
    );
    let authors = c.get_paper_authors(1).unwrap();
    assert!(authors.is_empty());
    // An id with no paper also gives an empty list, not an error.
    let none = c.get_paper_authors(99).unwrap();
    assert!(none.is_empty());
}

#[test]
fn two_papers_share_one_author_row() {
    let mut c = DBConnection::new();
    assert_eq!(
        c.insert_paper_full(np("https://example.org/p1", "first"), vec![na("Carol")], vec![]),
        Ok(())
    );
    assert_eq!(
        c.insert_paper_full(np("https://example.org/p2", "second"), vec![na("Carol")], vec![]),
        Ok(())
    );
    let carol = Author { id: 1, name: "Carol".to_string() };
    assert_eq!(c.get_paper_authors(1).unwrap(), vec![carol.clone()]);
    assert_eq!(c.get_paper_authors(2).unwrap(), vec![carol]);
    // Exactly one row carries the name: resolving it creates nothing new.
    let mut tx = c.begin();
    assert_eq!(c.insert_author(na("Carol"), &mut tx), Ok(1));
    assert_eq!(c.insert_author(na("Dan"), &mut tx), Ok(2));
}

#[test]
fn duplicate_author_names_in_one_request_abort() {
    let mut c = DBConnection::new();
    // The second occurrence hits the composite junction key: the whole
    // transaction rolls back.
    let r = c.insert_paper_full(
        np("https://example.org/p1", "first"),
        vec![na("Ada"), na("Ada")],
        vec![],
    );
    assert_eq!(r, Err(Error::Constraint));
    assert_eq!(c.count_papers().unwrap(), 0);
    let mut tx = c.begin();
    assert_eq!(c.insert_author(na("Ada"), &mut tx), Ok(1));
}

#[test]
fn author_order_follows_the_request() {
    let mut c = DBConnection::new();
    assert_eq!(
        c.insert_paper_full(
            np("https://example.org/p1", "first"),
            vec![na("Zoe"), na("Ann"), na("Mel")],
            vec![],
        ),
        Ok(())
    );
    let names: Vec<String> =
        c.get_paper_authors(1).unwrap().into_iter().map(|a| a.name).collect();
    assert_eq!(names, vec!["Zoe".to_string(), "Ann".to_string(), "Mel".to_string()]);
}

#[test]
fn uncommitted_transaction_is_invisible() {
    let mut c = DBConnection::new();
    let mut tx = c.begin();
    let pid = c.insert_paper(np("https://example.org/p1", "first"), &mut tx).unwrap();
    assert_eq!(pid, 1);
    // Nothing is visible before the commit.
    assert_eq!(c.count_papers().unwrap(), 0);
    assert_eq!(c.paper_exists("https://example.org/p1"), Ok(false));
    tx.commit(&mut c);
    assert_eq!(c.count_papers().unwrap(), 1);
    assert_eq!(c.paper_exists("https://example.org/p1"), Ok(true));
}

#[test]
fn dropped_transaction_rolls_back() {
    let mut c = DBConnection::new();
    {
        let mut tx = c.begin();
        c.insert_paper(np("https://example.org/p1", "first"), &mut tx).unwrap();
        c.insert_author(na("Alice"), &mut tx).unwrap();
    }
    assert_eq!(c.count_papers().unwrap(), 0);
    let mut tx = c.begin();
    // The author created in the dropped transaction was never persisted.
    assert_eq!(c.insert_author(na("Bob"), &mut tx), Ok(1));
}

#[test]
fn get_paper_returns_the_matching_row() {
    let mut c = DBConnection::new();
    assert_eq!(c.insert_paper_full(np("https://example.org/p1", "first"), vec![], vec![]), Ok(()));
    assert_eq!(
        c.insert_paper_full(np("https://example.org/p2", "second"), vec![], vec![]),
        Ok(())
    );
    assert_eq!(c.get_paper(2).unwrap().title, "second");
    assert_eq!(c.get_paper(1).unwrap().url, "https://example.org/p1");
    assert_eq!(c.get_paper(3), Err(Error::NotFound));
}

#[test]
fn junction_statement_enforces_referential_integrity() {
    let mut c = DBConnection::new();
    let mut tx = c.begin();
    let pid = c.insert_paper(np("https://example.org/p1", "first"), &mut tx).unwrap();
    let aid = c.insert_author(na("Alice"), &mut tx).unwrap();
    // A junction row may only cite existing rows.
    assert_eq!(c.set_paper_author(99, aid, &mut tx), Err(Error::Constraint));
    assert_eq!(c.set_paper_author(pid, 99, &mut tx), Err(Error::Constraint));
    assert_eq!(c.set_paper_author(pid, aid, &mut tx), Ok(()));
    // The composite key is unique.
    assert_eq!(c.set_paper_author(pid, aid, &mut tx), Err(Error::Constraint));
    tx.commit(&mut c);
    assert_eq!(
        c.get_paper_authors(pid).unwrap(),
        vec![Author { id: 1, name: "Alice".to_string() }]
    );
}

#[test]
fn subjects_resolve_like_authors() {
    let mut c = DBConnection::new();
    let mut tx = c.begin();
    let id1 = c.insert_subject(nc("Math"), &mut tx).unwrap();
    let id2 = c.insert_subject(nc("Math"), &mut tx).unwrap();
    let id3 = c.insert_subject(nc("Logic"), &mut tx).unwrap();
    assert_eq!(id1, id2);
    assert_ne!(id1, id3);
    let pid = c.insert_paper(np("https://example.org/p1", "first"), &mut tx).unwrap();
    assert_eq!(c.set_paper_subject(pid, id1, &mut tx), Ok(()));
    assert_eq!(c.set_paper_subject(pid, id1, &mut tx), Err(Error::Constraint));
    tx.commit(&mut c);
    assert_eq!(c.count_papers().unwrap(), 1);
}
