use cydonia::files::{
    sort_listing, Clicked, Entry, Files, Listed, Open, Scan, Step, BUDGET, TRUNCATED_NOTICE,
};

fn listed(directory: bool, path: &str) -> Listed {
    let name = path.rsplit('/').next().unwrap().to_owned();
    Listed { directory, path: path.to_owned(), name }
}

#[test]
fn folders_come_first_then_names() {
    let out = sort_listing(vec![
        listed(false, "/r/b.txt"),
        listed(true, "/r/src"),
        listed(false, "/r/a.txt"),
        listed(true, "/r/docs"),
        listed(false, "/r/B.txt"),
    ]);
    let names: Vec<&str> = out.iter().map(|e| e.name.as_str()).collect();
    assert_eq!(names, vec!["docs", "src", "B.txt", "a.txt", "b.txt"]);
}

fn run(scan: &mut Scan, tree: &dyn Fn(&str) -> Vec<Listed>) -> bool {
    scan.enter(tree("/r"));
    loop {
        match scan.advance() {
            Step::Read(path) => {
                let listing = tree(&path);
                let n = listing.len().min(scan.remaining);
                scan.enter(listing.into_iter().take(n).collect());
            }
            Step::Done { truncated } => return truncated,
        }
    }
}

fn tree(path: &str) -> Vec<Listed> {
    match path {
        "/r" => vec![listed(false, "/r/readme.md"), listed(true, "/r/src")],
        "/r/src" => vec![listed(false, "/r/src/main.rs"), listed(true, "/r/src/view")],
        "/r/src/view" => vec![listed(false, "/r/src/view/Main.rs")],
        _ => vec![],
    }
}

fn rows(entries: &[Entry]) -> Vec<(String, usize)> {
    entries.iter().map(|e| (e.path.clone(), e.depth)).collect()
}

#[test]
fn a_closed_tree_lists_the_root_only() {
    let mut scan = Scan::new("", vec![]);
    assert!(!run(&mut scan, &tree));
    assert_eq!(rows(&scan.rows), vec![("/r/src".to_owned(), 0), ("/r/readme.md".to_owned(), 0)]);
}

#[test]
fn an_open_folder_is_walked_into_in_place() {
    let mut scan = Scan::new("", vec!["/r/src".to_owned()]);
    run(&mut scan, &tree);
    assert_eq!(
        rows(&scan.rows),
        vec![
            ("/r/src".to_owned(), 0),
            ("/r/src/view".to_owned(), 1),
            ("/r/src/main.rs".to_owned(), 1),
            ("/r/readme.md".to_owned(), 0),
        ]
    );
}

#[test]
fn a_filter_searches_every_folder_and_lists_flat() {
    let mut scan = Scan::new("MAIN", vec![]);
    run(&mut scan, &tree);
    assert_eq!(
        rows(&scan.rows),
        vec![("/r/src/view/Main.rs".to_owned(), 0), ("/r/src/main.rs".to_owned(), 0)]
    );
}

#[test]
fn the_budget_stops_the_walk() {
    let mut scan = Scan::new("", vec!["/r/src".to_owned()]);
    scan.remaining = 3;
    assert!(run(&mut scan, &tree));
    assert_eq!(scan.remaining, 0);
    assert_eq!(BUDGET, 20000);
}

#[test]
fn the_tree_takes_in_a_read() {
    let mut files = Files::new("/r".to_owned());
    assert!(files.loading);
    assert_eq!(files.empty_text(), Some("Loading files…"));
    files.scanned(Ok((vec![], true)));
    assert_eq!(files.empty_text(), Some("No files found"));
    assert!(files.truncated);
    assert_eq!(TRUNCATED_NOTICE, "Showing the first 20,000 entries.");
    files.scanned(Err("denied".to_owned()));
    assert_eq!(files.error.as_deref(), Some("denied"));
}

#[test]
fn clicking_a_folder_toggles_it_and_a_file_opens() {
    let mut files = Files::new("/r".to_owned());
    files.scanned(Ok((
        vec![
            Entry { path: "/r/src".to_owned(), directory: true, depth: 0 },
            Entry { path: "/r/a.txt".to_owned(), directory: false, depth: 0 },
        ],
        false,
    )));
    assert!(matches!(files.click(0), Clicked::Folder));
    assert_eq!(files.expanded, vec!["/r/src".to_owned()]);
    assert!(matches!(files.click(0), Clicked::Folder));
    assert!(files.expanded.is_empty());
    match files.click(1) {
        Clicked::Open(Open(p)) => assert_eq!(p, "/r/a.txt"),
        Clicked::Folder => panic!("a file opens"),
    }
}

#[test]
fn revealing_a_path_opens_the_folders_above_it() {
    let mut files = Files::new("/r".to_owned());
    files.scanned(Ok((vec![], false)));
    let scan = files.reveal_path(Some("/r/src/view/main.rs".to_owned()), "").expect("a rescan");
    assert!(files.loading);
    assert_eq!(scan.remaining, BUDGET);
    let mut open = files.expanded.clone();
    open.sort();
    assert_eq!(open, vec!["/r/src".to_owned(), "/r/src/view".to_owned()]);
    let mut walked = scan.expanded.clone();
    walked.sort();
    assert_eq!(walked, open);
    files.scanned(Ok((vec![], false)));
    assert!(files.reveal_path(Some("/r/src/view/main.rs".to_owned()), "").is_none());
    assert!(files.reveal_path(Some("/r//src/view/main.rs".to_owned()), "").is_none());
    assert!(!files.loading);
    assert!(files.reveal_path(None, "").is_some());
    assert_eq!(files.selected, None);
}

#[test]
fn a_path_outside_the_root_opens_nothing() {
    let mut files = Files::new("/r".to_owned());
    assert!(files.reveal_path(Some("/elsewhere/x/y.rs".to_owned()), "").is_some());
    assert!(files.expanded.is_empty());
}

#[test]
fn a_root_with_a_trailing_slash_is_not_opened_itself() {
    let mut files = Files::new("/r/".to_owned());
    assert!(files.reveal_path(Some("/r/a/b.rs".to_owned()), "").is_some());
    assert_eq!(files.expanded, vec!["/r/a".to_owned()]);
}

#[test]
fn refresh_starts_a_walk_of_the_open_folders() {
    let mut files = Files::new("/r".to_owned());
    files.scanned(Ok((vec![Entry { path: "/r/src".to_owned(), directory: true, depth: 0 }], false)));
    files.click(0);
    assert!(!files.loading);
    let scan = files.refresh("Src");
    assert!(files.loading);
    assert_eq!(scan.query, "src");
    assert_eq!(scan.expanded, vec!["/r/src".to_owned()]);
    assert_eq!(scan.remaining, BUDGET);
}
