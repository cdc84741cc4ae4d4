use keeper_attest::catalog::{
    ArtifactResponse, ArtifactsPage, CatalogPager, ARTIFACTS_PAGE_SIZE,
};

fn item(id: &str) -> ArtifactResponse {
    ArtifactResponse {
        id: id.to_string(),
        title: String::new(),
        summary: String::new(),
        description: None,
        url: String::new(),
        files: vec![],
        links: vec![],
        people: vec![],
        identities: vec![],
        from_year: 2000,
        to_year: None,
        decades: vec![2000],
        collections: vec![],
    }
}

#[test]
fn pager_follows_cursors_until_none() {
    let mut pager = CatalogPager::new();
    let first = pager.next_request().expect("first request");
    assert_eq!(first.limit, ARTIFACTS_PAGE_SIZE);
    assert_eq!(first.limit, 50);
    assert!(first.cursor.is_none());

    pager.receive(ArtifactsPage {
        items: vec![item("b"), item("a")],
        next_cursor: Some("c1".to_string()),
    });
    let second = pager.next_request().expect("second request");
    assert_eq!(second.cursor.as_deref(), Some("c1"));

    pager.receive(ArtifactsPage { items: vec![item("c")], next_cursor: None });
    assert!(pager.next_request().is_none());

    let ids: Vec<String> = pager.into_items().into_iter().map(|a| a.id).collect();
    assert_eq!(ids, vec!["b", "a", "c"]);
}

#[test]
fn pager_single_empty_page() {
    let mut pager = CatalogPager::new();
    pager.receive(ArtifactsPage { items: vec![], next_cursor: None });
    assert!(pager.next_request().is_none());
    assert!(pager.into_items().is_empty());
}
