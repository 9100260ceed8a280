use arueshalae::error::AppError;
use arueshalae::intake::IntakeGate;
use arueshalae::store::PostStore;
use arueshalae::tags::{Tag, TagKind};

#[test]
fn submit_is_idempotent() {
    let mut store = PostStore::new();
    let mut gate = IntakeGate::new();
    let first = gate.submit(&mut store, &vec![10, 20, 30]);
    assert_eq!(first, vec![10, 20, 30]);
    assert_eq!(gate.queue, vec![10, 20, 30]);
    let second = gate.submit(&mut store, &vec![10, 20, 30]);
    assert_eq!(second, Vec::<i64>::new());
    assert_eq!(gate.queue, vec![10, 20, 30]);
}

#[test]
fn submit_skips_known_and_repeated_ids() {
    let mut store = PostStore::new();
    let mut gate = IntakeGate::new();
    gate.submit(&mut store, &vec![1, 2]);
    let new_ids = gate.submit(&mut store, &vec![2, 3, 3, 4]);
    assert_eq!(new_ids, vec![3, 4]);
    assert_eq!(store.post_count(), 4);
}

#[test]
fn internal_ids_are_monotonic() {
    let mut store = PostStore::new();
    store.insert_posts(&vec![50, 40, 60]);
    assert_eq!(store.get_sort_id_for_post(50), Ok(1));
    assert_eq!(store.get_sort_id_for_post(40), Ok(2));
    assert_eq!(store.get_sort_id_for_post(60), Ok(3));
    assert_eq!(store.get_sort_id_for_post(99), Err(AppError::NoSuchPost));
}

#[test]
fn pending_lists_undownloaded_newest_first() {
    let mut store = PostStore::new();
    store.insert_posts(&vec![1, 2, 3]);
    store
        .insert_download(2, "0000002_2.png", "image/png", "png", true, "a")
        .unwrap();
    assert_eq!(store.pending_posts(), vec![3, 1]);
}

#[test]
fn restart_requeues_the_backlog() {
    let mut store = PostStore::new();
    store.insert_posts(&vec![1, 2, 3]);
    store
        .insert_download(2, "0000002_2.png", "image/png", "png", true, "")
        .unwrap();
    let mut gate = IntakeGate::new();
    gate.requeue_pending(&store);
    assert_eq!(gate.queue, vec![3, 1]);
    assert_eq!(gate.next_post(), Some(3));
    assert_eq!(gate.next_post(), Some(1));
    assert_eq!(gate.next_post(), None);
}

#[test]
fn existing_checks_downloads_not_posts() {
    let mut store = PostStore::new();
    store.insert_posts(&vec![1, 2]);
    store
        .insert_download(1, "0000001_1.png", "image/png", "png", true, "")
        .unwrap();
    let gate = IntakeGate::new();
    // post 2 has a row but no download, so it does not count as existing
    assert_eq!(gate.existing(&store, &vec![1, 2, 3]), vec![1]);
    assert_eq!(
        store.filter_already_downloaded_posts(&vec![1, 1, 3]),
        vec![1]
    );
}

#[test]
fn download_record_is_written_once() {
    let mut store = PostStore::new();
    store.insert_posts(&vec![5]);
    assert_eq!(
        store.insert_download(6, "x", "image/png", "png", true, ""),
        Err(AppError::NoSuchPost)
    );
    assert_eq!(
        store.insert_download(5, "0000001_5.png", "image/png", "png", true, ""),
        Ok(())
    );
    assert_eq!(
        store.insert_download(5, "other", "image/png", "png", true, ""),
        Err(AppError::DownloadExists)
    );
    assert_eq!(store.get_download_count(), 1);
}

#[test]
fn download_tags_are_normalized_and_deduplicated() {
    let mut store = PostStore::new();
    store.insert_posts(&vec![9]);
    store
        .insert_download(9, "0000001_9.png", "image/png", "png", true, "  Foo  BAR foo ")
        .unwrap();
    assert!(store.has_tag("foo"));
    assert!(store.has_tag("bar"));
    assert!(!store.has_tag("Foo"));
    assert!(store.has_assoc(9, "foo"));
    assert!(store.has_assoc(9, "bar"));
    assert_eq!(store.tags.len(), 2);
    assert_eq!(store.post_tags.len(), 2);
    assert_eq!(store.uses_count("foo"), 1);
}

#[test]
fn upload_path_creates_post_download_and_tags() {
    let mut store = PostStore::new();
    let tags = vec![Tag { name: " Cat ".to_string(), kind: TagKind::Artist }];
    let id = store.insert_post(7, "png", "image/png", true, &tags);
    assert_eq!(id, 1);
    assert_eq!(store.get_sort_id_for_post(7), Ok(1));
    assert!(store.has_download(7));
    assert_eq!(store.downloads[0].file_name, "0000001_7.png");
    assert!(store.has_tag("cat"));
    assert_eq!(store.tags[0].kind, Some(TagKind::Artist));
    assert!(store.has_assoc(7, "cat"));

    // a second upload of the same external id reuses the post and its download
    let id2 = store.insert_post(7, "jpg", "image/jpeg", false, &vec![]);
    assert_eq!(id2, 1);
    assert_eq!(store.get_download_count(), 1);
    assert_eq!(store.downloads[0].extension, "png");
}

#[test]
fn empty_tag_names_are_rejected() {
    let mut store = PostStore::new();
    let tags = vec![Tag { name: "   ".to_string(), kind: TagKind::General }];
    store.insert_post(3, "png", "image/png", true, &tags);
    assert_eq!(store.tags.len(), 0);
    assert_eq!(store.post_tags.len(), 0);
}
