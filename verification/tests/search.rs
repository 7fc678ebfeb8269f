use document_resolver::error::ResolveError;
use document_resolver::locate::LocateStep;
use document_resolver::resolver::Resolver;
use std::collections::BTreeMap;

fn text(value: &str) -> String {
    String::from(value)
}

enum Node {
    File(String),
    Unreadable,
    Directory,
}

/// Stands in for a file system and keeps count of what it was asked.
struct Disk {
    nodes: BTreeMap<String, Node>,
    probed: Vec<String>,
    read: Vec<String>,
}

impl Disk {
    fn new() -> Disk {
        Disk { nodes: BTreeMap::new(), probed: Vec::new(), read: Vec::new() }
    }

    fn with_file(mut self, path: &str, content: &str) -> Disk {
        self.nodes.insert(text(path), Node::File(text(content)));
        self
    }

    fn with_unreadable(mut self, path: &str) -> Disk {
        self.nodes.insert(text(path), Node::Unreadable);
        self
    }

    fn with_directory(mut self, path: &str) -> Disk {
        self.nodes.insert(text(path), Node::Directory);
        self
    }

    fn holds(&mut self, path: &str) -> bool {
        self.probed.push(text(path));
        self.nodes.contains_key(path)
    }

    fn read_to_string(&mut self, path: &str) -> Option<String> {
        self.read.push(text(path));
        match self.nodes.get(path) {
            Some(Node::File(content)) => Some(content.clone()),
            _ => None,
        }
    }
}

fn locate(resolver: &Resolver, disk: &mut Disk, filename: &str) -> Result<String, ResolveError> {
    let mut step = resolver.locate(filename);
    loop {
        step = match step {
            LocateStep::Probe(probing) => {
                let found: bool = disk.holds(probing.path());
                probing.answer(found)
            }
            LocateStep::Read(reading) => {
                let content: Option<String> = disk.read_to_string(reading.path());
                reading.answer(content)
            }
            LocateStep::Done(result) => return result,
        };
    }
}

fn two_roots() -> Resolver {
    Resolver::new(vec![text("A/"), text("B/")], text("B/")).unwrap()
}

#[test]
fn found_under_the_second_root() {
    let mut disk = Disk::new().with_file("B/x.md", "hello");
    assert_eq!(locate(&two_roots(), &mut disk, "x.md"), Ok(text("hello")));
}

#[test]
fn the_earlier_root_wins() {
    let mut disk = Disk::new().with_file("A/x.md", "new").with_file("B/x.md", "old");
    assert_eq!(locate(&two_roots(), &mut disk, "x.md"), Ok(text("new")));
}

#[test]
fn absent_everywhere_is_not_found() {
    let mut disk = Disk::new().with_file("A/other.md", "hello");
    assert_eq!(
        locate(&two_roots(), &mut disk, "x.md"),
        Err(ResolveError::NotFound { filename: text("x.md") })
    );
    assert_eq!(disk.probed, vec![text("A/x.md"), text("B/x.md")]);
    assert!(disk.read.is_empty());
}

#[test]
fn not_found_reads_as_one_line() {
    let mut disk = Disk::new();
    let error = locate(&two_roots(), &mut disk, "guide/intro.md").unwrap_err();
    assert_eq!(error.message(), "document not found: guide/intro.md");
}

#[test]
fn a_sole_copy_is_found_at_every_position() {
    let names = vec![text("r0/"), text("r1/"), text("r2/"), text("r3/")];
    let mut position: usize = 0;
    while position < names.len() {
        let resolver = Resolver::new(names.clone(), text("r0/")).unwrap();
        let path: String = format!("r{}/doc.txt", position);
        let mut disk = Disk::new().with_file(&path, "only copy");
        assert_eq!(locate(&resolver, &mut disk, "doc.txt"), Ok(text("only copy")));
        assert_eq!(disk.probed.len(), position + 1);
        assert_eq!(disk.read, vec![path]);
        position += 1;
    }
}

#[test]
fn the_search_stops_at_the_first_success() {
    let resolver = Resolver::new(vec![text("a/"), text("b/"), text("c/")], text("a/")).unwrap();
    let mut disk = Disk::new().with_file("b/x.md", "second").with_file("c/x.md", "third");
    assert_eq!(locate(&resolver, &mut disk, "x.md"), Ok(text("second")));
    assert_eq!(disk.probed, vec![text("a/x.md"), text("b/x.md")]);
    assert_eq!(disk.read, vec![text("b/x.md")]);
}

#[test]
fn an_unreadable_copy_is_passed_over() {
    let mut disk = Disk::new().with_unreadable("A/x.md").with_file("B/x.md", "hello");
    assert_eq!(locate(&two_roots(), &mut disk, "x.md"), Ok(text("hello")));
    assert_eq!(disk.read, vec![text("A/x.md"), text("B/x.md")]);
}

#[test]
fn a_directory_in_place_of_the_document_is_passed_over() {
    let mut disk = Disk::new().with_directory("A/x.md").with_file("B/x.md", "hello");
    assert_eq!(locate(&two_roots(), &mut disk, "x.md"), Ok(text("hello")));
}

#[test]
fn unreadable_everywhere_is_not_found() {
    let mut disk = Disk::new().with_unreadable("A/x.md").with_unreadable("B/x.md");
    assert_eq!(
        locate(&two_roots(), &mut disk, "x.md"),
        Err(ResolveError::NotFound { filename: text("x.md") })
    );
    assert_eq!(disk.read, vec![text("A/x.md"), text("B/x.md")]);
}

#[test]
fn content_comes_back_unchanged() {
    let content = "line one\n\tline two \r\n  \u{feff}trailing  \n";
    let mut disk = Disk::new().with_file("A/x.md", content);
    assert_eq!(locate(&two_roots(), &mut disk, "x.md"), Ok(text(content)));
    let mut empty = Disk::new().with_file("A/e.md", "");
    assert_eq!(locate(&two_roots(), &mut empty, "e.md"), Ok(text("")));
}

#[test]
fn a_single_root_is_searched_once() {
    let resolver = Resolver::new(vec![text("only")], text("only")).unwrap();
    let mut disk = Disk::new();
    assert_eq!(
        locate(&resolver, &mut disk, "x.md"),
        Err(ResolveError::NotFound { filename: text("x.md") })
    );
    assert_eq!(disk.probed, vec![text("only/x.md")]);
}

#[test]
fn the_first_step_probes_the_first_candidate() {
    let resolver = Resolver::bundled();
    match resolver.locate("x.md") {
        LocateStep::Probe(probing) => assert_eq!(probing.path(), "../public/data/x.md"),
        _ => panic!("a search begins with a probe"),
    }
}

#[test]
fn a_path_that_exists_is_read_next() {
    let resolver = Resolver::bundled();
    let step = match resolver.locate("x.md") {
        LocateStep::Probe(probing) => probing.answer(true),
        _ => panic!("a search begins with a probe"),
    };
    match step {
        LocateStep::Read(reading) => assert_eq!(reading.path(), "../public/data/x.md"),
        _ => panic!("a path that exists is read"),
    }
}

#[test]
fn a_missing_path_leads_to_the_next_candidate() {
    let resolver = Resolver::bundled();
    let step = match resolver.locate("x.md") {
        LocateStep::Probe(probing) => probing.answer(false),
        _ => panic!("a search begins with a probe"),
    };
    match step {
        LocateStep::Probe(probing) => assert_eq!(probing.path(), "public/data/x.md"),
        _ => panic!("the next candidate is probed"),
    }
}

#[test]
fn a_failed_read_leads_to_the_next_candidate() {
    let resolver = Resolver::bundled();
    let step = match resolver.locate("x.md") {
        LocateStep::Probe(probing) => probing.answer(true),
        _ => panic!("a search begins with a probe"),
    };
    let step = match step {
        LocateStep::Read(reading) => reading.answer(None),
        _ => panic!("a path that exists is read"),
    };
    match step {
        LocateStep::Probe(probing) => assert_eq!(probing.path(), "public/data/x.md"),
        _ => panic!("the next candidate is probed"),
    }
}

#[test]
fn the_bundled_layout_searches_the_sibling_directory_first() {
    let mut disk = Disk::new()
        .with_file("data/x.md", "fourth")
        .with_file("public/data/x.md", "second")
        .with_file("../public/data/x.md", "first");
    assert_eq!(locate(&Resolver::bundled(), &mut disk, "x.md"), Ok(text("first")));
    let mut later = Disk::new().with_file("data/x.md", "fourth").with_file("./public/data/x.md", "third");
    assert_eq!(locate(&Resolver::bundled(), &mut later, "x.md"), Ok(text("third")));
}
