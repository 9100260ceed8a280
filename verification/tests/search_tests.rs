use arueshalae::error::AppError;
use arueshalae::search::Search;
use arueshalae::store::PostStore;

fn store_with_tagged_posts() -> PostStore {
    let mut store = PostStore::new();
    store.insert_posts(&vec![1, 2, 3]);
    store
        .insert_download(1, "0000001_1.png", "image/png", "png", true, "a b")
        .unwrap();
    store
        .insert_download(2, "0000002_2.png", "image/png", "png", true, "a")
        .unwrap();
    store
        .insert_download(3, "0000003_3.png", "image/png", "png", true, "a b c")
        .unwrap();
    store
}

#[test]
fn query_parsing_separates_terms() {
    let q = Search::new("a -b - c");
    assert_eq!(q.wanted, vec!["a", "c"]);
    assert_eq!(q.exclude, vec!["b"]);

    let empty = Search::new("   ");
    assert!(empty.wanted.is_empty());
    assert!(empty.exclude.is_empty());

    let only_minus = Search::new("-");
    assert!(only_minus.wanted.is_empty());
    assert!(only_minus.exclude.is_empty());
}

#[test]
fn intersection_returns_superset_posts_newest_first() {
    let store = store_with_tagged_posts();
    let q = Search::new("a b");
    assert_eq!(store.search(&q), Ok(vec![3, 1]));
}

#[test]
fn single_term_matches_all_posts_carrying_it() {
    let store = store_with_tagged_posts();
    assert_eq!(store.search(&Search::new("a")), Ok(vec![3, 2, 1]));
    assert_eq!(store.search(&Search::new("c")), Ok(vec![3]));
    assert_eq!(store.search(&Search::new("missing")), Ok(vec![]));
}

#[test]
fn empty_query_is_rejected() {
    let store = store_with_tagged_posts();
    assert_eq!(store.search(&Search::new("  ")), Err(AppError::EmptyQuery));
}

#[test]
fn repeated_terms_match_nothing() {
    let store = store_with_tagged_posts();
    assert_eq!(store.search(&Search::new("a a")), Ok(vec![]));
}

#[test]
fn autocomplete_orders_by_usage_and_caps_at_ten() {
    let store = store_with_tagged_posts();
    // uses: a -> 3, b -> 2, c -> 1
    let all = store.autocomplete("");
    assert_eq!(all.len(), 3);
    assert_eq!(all[0].name, "a");
    assert_eq!(all[0].uses, 3);
    assert_eq!(all[1].name, "b");
    assert_eq!(all[2].name, "c");

    let only_c = store.autocomplete("c");
    assert_eq!(only_c.len(), 1);
    assert_eq!(only_c[0].name, "c");
    assert_eq!(only_c[0].uses, 1);
}

#[test]
fn suggestions_stop_at_the_fixed_limit() {
    let mut store = PostStore::new();
    store.insert_posts(&vec![1]);
    store
        .insert_download(
            1,
            "0000001_1.png",
            "image/png",
            "png",
            true,
            "t0 t1 t2 t3 t4 t5 t6 t7 t8 t9 t10 t11",
        )
        .unwrap();
    assert_eq!(store.autocomplete("t").len(), 10);
    let rows = store.get_tag_suggestions("t");
    assert_eq!(rows.len(), 10);
    for row in rows.iter() {
        assert!(row.name.contains('t'));
        assert_eq!(row.uses, 1);
        assert!(row.id >= 1);
    }
}
