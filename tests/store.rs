use scraper_archive::store::Store;

fn strings(values: &[&str]) -> Vec<String> {
    values.iter().map(|s| s.to_string()).collect()
}

fn drain(store: &Store, listing: Vec<String>, reverse: bool) -> Vec<String> {
    let mut contents = store.contents(listing, reverse);
    let mut out = Vec::new();
    while let Some(p) = contents.next() {
        out.push(p);
    }
    out
}

#[test]
fn paths_sort_lexicographically_not_numerically() {
    let store = Store::new("archive");
    let listing = strings(&["archive/3.json", "archive/100.json", "archive/20.json"]);
    assert_eq!(
        drain(&store, listing.clone(), false),
        strings(&["archive/100.json", "archive/20.json", "archive/3.json"])
    );
    assert_eq!(
        store.paths(listing, false),
        strings(&["archive/100.json", "archive/20.json", "archive/3.json"])
    );
}

#[test]
fn reverse_listing_is_exact_reverse() {
    let store = Store::new("archive");
    let listing = strings(&[
        "archive/1759391955666.json",
        "archive/1760252742866.json",
        "archive/1700000000000.json",
        "archive/1759391955666.json",
    ]);
    let mut forward = drain(&store, listing.clone(), false);
    let backward = drain(&store, listing.clone(), true);
    assert_eq!(
        forward,
        strings(&[
            "archive/1700000000000.json",
            "archive/1759391955666.json",
            "archive/1759391955666.json",
            "archive/1760252742866.json",
        ])
    );
    forward.reverse();
    assert_eq!(backward, forward);
    assert_eq!(store.paths(listing, true), forward);
}

#[test]
fn empty_directory_lists_nothing() {
    let store = Store::new("empty");
    assert!(store.paths(Vec::new(), false).is_empty());
    assert!(drain(&store, Vec::new(), true).is_empty());
}

#[test]
fn order_is_by_code_point() {
    let store = Store::new("d");
    let listing = strings(&["d/b", "d/B", "d/a", "d/é", "d/ab", "d/"]);
    assert_eq!(
        store.paths(listing, false),
        strings(&["d/", "d/B", "d/a", "d/ab", "d/b", "d/é"])
    );
}

#[test]
fn store_keeps_its_base() {
    assert_eq!(Store::new("/var/archive").base, "/var/archive");
}
