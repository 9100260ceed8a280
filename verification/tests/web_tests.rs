use arueshalae::error::AppError;
use arueshalae::intake::{first_post, XMLPost, XMLPosts};
use arueshalae::pages::PostData;
use arueshalae::store::PostStore;
use arueshalae::web::{pagination, PageQuery, Post};

#[test]
fn posts_know_their_media_kind_and_path() {
    let video = Post { id: 1, file_name: "0000001_1.mp4".to_string(), mime: "video/mp4".to_string() };
    assert!(video.is_video());
    assert_eq!(video.image_path("/base"), "/base/.thumbs/0000001_1.mp4.jpeg");

    let image = Post { id: 2, file_name: "0000002_2.png".to_string(), mime: "image/png".to_string() };
    assert!(!image.is_video());
    assert_eq!(image.image_path("/base"), "/base/0000002_2.png");
}

#[test]
fn serve_paths_derive_from_the_naming_scheme() {
    let image = PostData {
        id: 42,
        external_id: 99,
        extension: "png".to_string(),
        mime: "image/png".to_string(),
    };
    assert_eq!(image.serve_path("/b"), "/b/0000042_99.png");
    let video = PostData {
        id: 42,
        external_id: 99,
        extension: "mp4".to_string(),
        mime: "video/mp4".to_string(),
    };
    assert_eq!(video.serve_path("/b"), "/b/.thumbs/0000042_99.mp4.jpeg");
}

#[test]
fn pagination_windows_follow_the_current_page() {
    let empty = pagination(5, 1, 0);
    assert!(empty.pages.is_empty());
    assert!(!empty.show_first && !empty.show_last);
    assert_eq!(empty.total_page_count, 0);

    let first = pagination(5, 3, 480);
    assert_eq!(first.pages, vec![1, 2, 3, 4, 5]);
    assert!(!first.show_first && first.show_last);
    assert_eq!(first.total_page_count, 10);

    let middle = pagination(5, 7, 480);
    assert_eq!(middle.pages, vec![5, 6, 7, 8, 9]);
    assert!(middle.show_first && middle.show_last);

    let clamped = pagination(5, 100, 480);
    assert_eq!(clamped.pages, vec![6, 7, 8, 9, 10]);
    assert!(clamped.show_first && !clamped.show_last);

    let single = pagination(5, 1, 1);
    assert_eq!(single.pages, vec![1]);
    assert_eq!(single.total_page_count, 1);
}

fn store_with_downloads(n: i64) -> PostStore {
    let mut store = PostStore::new();
    let ids: Vec<i64> = (1..=n).collect();
    store.insert_posts(&ids);
    for e in 1..=n {
        let internal = store.get_sort_id_for_post(e).unwrap();
        let name = arueshalae::naming::file_name(internal, e, "png");
        store
            .insert_download(e, &name, "image/png", "png", true, "")
            .unwrap();
    }
    store
}

#[test]
fn pages_hold_48_rows_newest_first() {
    let store = store_with_downloads(50);
    let (rows, total) = store.get_page(&PageQuery { page: None });
    assert_eq!(total, 50);
    assert_eq!(rows.len(), 48);
    assert_eq!(rows[0].id, 50);
    assert_eq!(rows[47].id, 3);
    assert_eq!(rows[0].file_name, "0000050_50.png");

    let (second, _) = store.get_page(&PageQuery { page: Some(2) });
    assert_eq!(second.len(), 2);
    assert_eq!(second[0].id, 2);
    assert_eq!(second[1].id, 1);

    let (beyond, _) = store.get_page(&PageQuery { page: Some(9) });
    assert!(beyond.is_empty());

    let (negative, _) = store.get_page(&PageQuery { page: Some(-3) });
    assert_eq!(negative.len(), 48);
}

#[test]
fn single_post_lookups_read_the_download() {
    let store = store_with_downloads(2);
    let p = store.get_post(2).unwrap();
    assert_eq!(p.external_id, 2);
    assert_eq!(p.id, 2);
    assert_eq!(p.extension, "png");
    assert_eq!(p.mime, "image/png");
    assert!(store.get_post(7).is_err());

    let row = store.get_post_for_send_image(1).unwrap();
    assert_eq!(row.id, 1);
    assert_eq!(row.file_name, "0000001_1.png");
    assert!(store.get_post_for_send_image(9).is_err());
}

#[test]
fn the_first_remote_record_wins() {
    let answer = XMLPosts {
        posts: vec![
            XMLPost { file_url: "https://files/1.png".to_string(), space_seperated_tags: "a b".to_string() },
            XMLPost { file_url: "https://files/2.png".to_string(), space_seperated_tags: "c".to_string() },
        ],
    };
    let p = first_post(answer).unwrap();
    assert_eq!(p.file_url, "https://files/1.png");
    assert_eq!(p.space_seperated_tags, "a b");

    let empty = XMLPosts { posts: Vec::new() };
    assert_eq!(first_post(empty).unwrap_err(), AppError::ApiReturnedNoPost);
}
