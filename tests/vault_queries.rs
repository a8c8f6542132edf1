use obsidian_ls::{
    find_definition, goto_definition, reference_sites, references, search_names_at, FileIndex,
    Location, Position, Range, Reference, Referenceable, ServerError, Session, Vault,
};

fn pos(line: u32, character: u32) -> Position {
    Position::new(line, character)
}

fn span(l1: u32, c1: u32, l2: u32, c2: u32) -> Range {
    Range::new(pos(l1, c1), pos(l2, c2))
}

fn link(text: &str, range: Range) -> Reference {
    Reference::new(text.to_string(), range)
}

fn file(path: &str) -> Referenceable {
    Referenceable::File(path.to_string())
}

fn heading(path: &str, range: Range, text: &str) -> Referenceable {
    Referenceable::Heading(path.to_string(), range, text.to_string())
}

fn tag(path: &str, range: Range, text: &str) -> Referenceable {
    Referenceable::Tag(path.to_string(), range, text.to_string())
}

fn entry(path: &str, linkables: Vec<Referenceable>, refs: Vec<Reference>) -> FileIndex {
    FileIndex::new(path.to_string(), linkables, refs)
}

fn uris(locs: &[Location]) -> Vec<(String, Range)> {
    locs.iter().map(|l| (l.uri.clone(), l.range)).collect()
}

/// A.md: a heading "Intro" and a link `[[B]]`; B.md: empty.
fn intro_vault() -> Vault {
    let a = "/vault/A.md";
    let b = "/vault/B.md";
    Vault::build(
        "/vault".to_string(),
        vec![
            entry(a, vec![file(a), heading(a, span(0, 0, 0, 7), "Intro")], vec![link("B", span(1, 0, 1, 4))]),
            entry(b, vec![file(b)], vec![]),
        ],
    )
}

#[test]
fn scenario_definition_of_file_link() {
    let v = intro_vault();
    let d = goto_definition(&v, pos(1, 2), "/vault/A.md").unwrap();
    assert_eq!(d.uri, "file:///vault/B.md");
    assert_eq!(d.range, span(0, 0, 0, 1));
}

#[test]
fn scenario_references_to_file() {
    let v = intro_vault();
    let r = references(&v, pos(0, 0), "/vault/B.md").unwrap();
    assert_eq!(uris(&r), vec![("file:///vault/A.md".to_string(), span(1, 0, 1, 4))]);
}

fn tag_vault() -> Vault {
    let a = "/vault/A.md";
    Vault::build(
        "/vault".to_string(),
        vec![entry(
            a,
            vec![file(a), tag(a, span(2, 0, 2, 8), "project")],
            vec![link("project", span(5, 3, 5, 11))],
        )],
    )
}

#[test]
fn scenario_tag_declaration_finds_tag_reference() {
    let v = tag_vault();
    let r = references(&v, pos(2, 4), "/vault/A.md").unwrap();
    assert_eq!(uris(&r), vec![("file:///vault/A.md".to_string(), span(5, 3, 5, 11))]);
}

#[test]
fn scenario_file_search_skips_tag_reference() {
    let v = tag_vault();
    let r = references(&v, pos(0, 0), "/vault/A.md").unwrap();
    assert!(r.is_empty());
    let names = search_names_at(&v, pos(0, 0), "/vault/A.md").unwrap();
    assert_eq!(names, vec!["A".to_string()]);
}

#[test]
fn file_search_keeps_tag_name_shared_by_heading() {
    let a = "/vault/A.md";
    let v = Vault::build(
        "/vault".to_string(),
        vec![entry(
            a,
            vec![file(a), tag(a, span(2, 0, 2, 4), "A"), heading(a, span(3, 0, 3, 5), "x")],
            vec![link("A", span(5, 0, 5, 4)), link("A#x", span(6, 0, 6, 6))],
        )],
    );
    let r = reference_sites(&v, pos(0, 0), a).unwrap();
    assert_eq!(
        r,
        vec![(a.to_string(), span(5, 0, 5, 4)), (a.to_string(), span(6, 0, 6, 6))]
    );
}

#[test]
fn heading_refname_and_definition() {
    let a = "/vault/notes/A.md";
    let b = "/vault/B.md";
    let v = Vault::build(
        "/vault/".to_string(),
        vec![
            entry(a, vec![file(a), heading(a, span(3, 0, 3, 9), "Intro")], vec![]),
            entry(b, vec![file(b)], vec![link("notes/A#Intro", span(0, 2, 0, 18))]),
        ],
    );
    assert_eq!(heading(a, span(3, 0, 3, 9), "Intro").refname("/vault"), Some("notes/A#Intro".to_string()));
    let d = goto_definition(&v, pos(0, 18), b).unwrap();
    assert_eq!(d.uri, "file:///vault/notes/A.md");
    assert_eq!(d.range, span(3, 0, 3, 9));
}

#[test]
fn refnames_of_each_kind() {
    assert_eq!(file("/vault/A.md").refname("/vault"), Some("A".to_string()));
    assert_eq!(file("/vault/A.md").refname("/vault/"), Some("A".to_string()));
    assert_eq!(file("/vault/dir/a.b.md").refname("/vault"), Some("dir/a.b".to_string()));
    assert_eq!(file("/vault/dir.x/readme").refname("/vault"), Some("dir.x/readme".to_string()));
    assert_eq!(file("/vault/.hidden").refname("/vault"), Some(".hidden".to_string()));
    assert_eq!(file("/other/A.md").refname("/vault"), None);
    assert_eq!(file("/vaultA.md").refname("/vault"), None);
    assert_eq!(heading("/other/A.md", span(0, 0, 0, 1), "h").refname("/vault"), None);
    assert_eq!(tag("/other/A.md", span(0, 0, 0, 1), "t").refname("/vault"), Some("t".to_string()));
}

#[test]
fn containment_is_inclusive_on_every_edge() {
    let r = span(1, 4, 3, 2);
    assert!(r.contains(pos(1, 4)));
    assert!(r.contains(pos(3, 2)));
    assert!(r.contains(pos(2, 0)));
    assert!(r.contains(pos(2, 100)));
    assert!(!r.contains(pos(1, 3)));
    assert!(!r.contains(pos(3, 3)));
    assert!(!r.contains(pos(0, 5)));
    assert!(!r.contains(pos(4, 0)));
}

#[test]
fn rebuild_replaces_previous_content() {
    let mut v = intro_vault();
    let a = "/vault/A.md";
    v.update_file(a.to_string(), vec![file(a)], vec![link("C", span(4, 0, 4, 4))]);
    assert_eq!(v.linkables_for(a).len(), 1);
    assert_eq!(v.references_for(a).len(), 1);
    assert_eq!(v.references_for(a)[0].reference_text, "C");
    let mine = v.all_references(Some(a));
    assert_eq!(mine.len(), 1);
    assert_eq!(mine[0].1.reference_text, "C");
    assert!(goto_definition(&v, pos(1, 2), a).is_none());
    assert!(references(&v, pos(0, 0), "/vault/B.md").unwrap().is_empty());
    assert_eq!(v.files().len(), 2);
    assert_eq!(v.linkables_for("/vault/B.md").len(), 1);
}

#[test]
fn rebuild_adds_unknown_file() {
    let mut v = intro_vault();
    let c = "/vault/C.md";
    assert!(v.find(c).is_none());
    assert!(v.linkables_for(c).is_empty());
    v.update_file(c.to_string(), vec![file(c)], vec![link("B", span(0, 0, 0, 4))]);
    assert_eq!(v.find(c), Some(2));
    let r = references(&v, pos(0, 0), "/vault/B.md").unwrap();
    assert_eq!(
        uris(&r),
        vec![
            ("file:///vault/A.md".to_string(), span(1, 0, 1, 4)),
            ("file:///vault/C.md".to_string(), span(0, 0, 0, 4)),
        ]
    );
}

#[test]
fn rebuild_twice_is_rebuild_once() {
    let a = "/vault/A.md";
    let content = || (vec![file(a), heading(a, span(2, 0, 2, 3), "H")], vec![link("B", span(3, 0, 3, 4))]);
    let mut once = intro_vault();
    let (l, r) = content();
    once.update_file(a.to_string(), l, r);
    let mut twice = intro_vault();
    let (l, r) = content();
    twice.update_file(a.to_string(), l, r);
    let (l, r) = content();
    twice.update_file(a.to_string(), l, r);
    assert_eq!(format!("{:?}", once.files()), format!("{:?}", twice.files()));
}

#[test]
fn no_match_is_empty_not_error() {
    let v = intro_vault();
    assert!(goto_definition(&v, pos(7, 0), "/vault/A.md").is_none());
    assert!(references(&v, pos(7, 0), "/vault/A.md").is_none());
    assert!(goto_definition(&v, pos(0, 0), "/vault/unknown.md").is_none());
    let mut s = Session::new();
    s.initialize("/vault".to_string(), vec![entry("/vault/A.md", vec![file("/vault/A.md")], vec![])]);
    assert!(s.definition(pos(7, 0), "/vault/A.md").unwrap().is_none());
    assert!(s.references(pos(7, 0), "/vault/A.md").unwrap().is_none());
}

#[test]
fn queries_before_initialization_fail() {
    let mut s = Session::new();
    assert!(matches!(s.definition(pos(0, 0), "/vault/A.md"), Err(ServerError::NotInitialized)));
    assert!(matches!(s.references(pos(0, 0), "/vault/A.md"), Err(ServerError::NotInitialized)));
    assert_eq!(s.did_change("/vault/A.md".to_string(), vec![], vec![]), Err(ServerError::NotInitialized));
    s.initialize("/vault".to_string(), vec![]);
    assert_eq!(s.did_change("/vault/A.md".to_string(), vec![file("/vault/A.md")], vec![]), Ok(()));
    assert!(s.references(pos(0, 0), "/vault/A.md").unwrap().unwrap().is_empty());
}

#[test]
fn broken_link_has_no_definition() {
    let a = "/vault/A.md";
    let v = Vault::build("/vault".to_string(), vec![entry(a, vec![file(a)], vec![link("b", span(0, 0, 0, 4))])]);
    assert!(find_definition(&v, pos(0, 1), a).is_none());
    assert!(goto_definition(&v, pos(0, 1), a).is_none());
}

#[test]
fn overlapping_links_take_the_first() {
    let a = "/vault/A.md";
    let b = "/vault/B.md";
    let c = "/vault/C.md";
    let v = Vault::build(
        "/vault".to_string(),
        vec![
            entry(a, vec![file(a)], vec![link("C", span(0, 0, 0, 10)), link("B", span(0, 2, 0, 4))]),
            entry(b, vec![file(b)], vec![]),
            entry(c, vec![file(c)], vec![]),
        ],
    );
    assert_eq!(goto_definition(&v, pos(0, 3), a).unwrap().uri, "file:///vault/C.md");
}

#[test]
fn first_entity_with_the_name_wins() {
    let a = "/vault/A.md";
    let b = "/vault/B.md";
    let v = Vault::build(
        "/vault".to_string(),
        vec![
            entry(a, vec![file(a), tag(a, span(1, 0, 1, 4), "t")], vec![link("t", span(3, 0, 3, 2))]),
            entry(b, vec![file(b), tag(b, span(2, 0, 2, 4), "t")], vec![]),
        ],
    );
    let d = goto_definition(&v, pos(3, 1), b);
    assert!(d.is_none());
    let d = goto_definition(&v, pos(3, 1), a).unwrap();
    assert_eq!(d.uri, "file:///vault/A.md");
    assert_eq!(d.range, span(1, 0, 1, 4));
}

#[test]
fn duplicate_names_give_duplicate_results() {
    let a = "/vault/A.md";
    let b = "/vault/B.md";
    let v = Vault::build(
        "/vault".to_string(),
        vec![
            entry(a, vec![file(a), heading(a, span(1, 0, 1, 3), "H"), heading(a, span(4, 0, 4, 3), "H")], vec![]),
            entry(b, vec![file(b)], vec![link("A#H", span(0, 0, 0, 7))]),
        ],
    );
    let r = references(&v, pos(0, 0), a).unwrap();
    assert_eq!(r.len(), 2);
    assert_eq!(r[0].range, r[1].range);
    assert_eq!(r[0].uri, "file:///vault/B.md");
}

#[test]
fn relative_path_sites_are_dropped() {
    let a = "/vault/A.md";
    let rel = "notes/B.md";
    let v = Vault::build(
        "/vault".to_string(),
        vec![
            entry(a, vec![file(a)], vec![link("A", span(2, 0, 2, 4))]),
            entry(rel, vec![file(rel)], vec![link("A", span(0, 0, 0, 4))]),
        ],
    );
    let sites = reference_sites(&v, pos(0, 0), a).unwrap();
    assert_eq!(sites.len(), 2);
    let r = references(&v, pos(0, 0), a).unwrap();
    assert_eq!(uris(&r), vec![("file:///vault/A.md".to_string(), span(2, 0, 2, 4))]);
}

#[test]
fn entity_accessors() {
    let h = heading("/vault/A.md", span(1, 2, 1, 9), "Intro");
    assert_eq!(h.range(), span(1, 2, 1, 9));
    assert_eq!(h.path(), "/vault/A.md");
    assert!(!h.is_tag());
    assert_eq!(file("/vault/A.md").range(), span(0, 0, 0, 1));
    assert!(tag("/vault/A.md", span(0, 0, 0, 1), "x").is_tag());
    let v = intro_vault();
    assert_eq!(v.root_dir(), "/vault");
}

#[test]
fn all_references_by_file_and_vault() {
    let mut v = intro_vault();
    let b = "/vault/B.md";
    v.update_file(b.to_string(), vec![file(b)], vec![link("A", span(0, 0, 0, 4)), link("A#Intro", span(1, 0, 1, 9))]);
    let all: Vec<(String, String)> = v
        .all_references(None)
        .iter()
        .map(|(p, r)| (p.to_string(), r.reference_text.clone()))
        .collect();
    assert_eq!(
        all,
        vec![
            ("/vault/A.md".to_string(), "B".to_string()),
            ("/vault/B.md".to_string(), "A".to_string()),
            ("/vault/B.md".to_string(), "A#Intro".to_string()),
        ]
    );
    let only = v.all_references(Some(b));
    assert_eq!(only.len(), 2);
    assert_eq!(only[1].1.range, span(1, 0, 1, 9));
    assert!(v.all_references(Some("/vault/none.md")).is_empty());
    let r = references(&v, pos(0, 3), "/vault/A.md").unwrap();
    assert_eq!(uris(&r), vec![("file:///vault/B.md".to_string(), span(1, 0, 1, 9))]);
}
