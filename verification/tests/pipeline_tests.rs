use arueshalae::guard::ArtifactGuard;
use arueshalae::store::PostStore;
use arueshalae::worker::{worker_step, PipelineStage, PostPipeline, WorkerAction, WorkerEvent};

#[test]
fn workers_obey_cancellation_and_closure() {
    assert_eq!(worker_step(&WorkerEvent::Cancelled), WorkerAction::Exit);
    assert_eq!(worker_step(&WorkerEvent::Closed), WorkerAction::Exit);
    assert_eq!(worker_step(&WorkerEvent::Dequeued(42)), WorkerAction::Process(42));
}

#[test]
fn guard_names_paths_until_committed() {
    let mut g = ArtifactGuard::new();
    g.add("/tmp/a");
    g.add("/tmp/b");
    assert_eq!(g.cleanup(), vec!["/tmp/a", "/tmp/b"]);
    g.commit();
    assert_eq!(g.cleanup(), Vec::<String>::new());
}

#[test]
fn a_full_run_disarms_the_guard() {
    let mut store = PostStore::new();
    store.insert_posts(&vec![1]);
    let mut guard = ArtifactGuard::new();
    let mut pipe = PostPipeline::start(1);
    pipe.info_fetched(true);
    pipe.id_resolved(store.get_sort_id_for_post(1).is_ok());
    guard.add("/tmp/download");
    pipe.content_fetched(true);
    pipe.classified(true);
    pipe.transcoded(true);
    let persisted = store
        .insert_download(1, "0000001_1.png", "image/png", "png", true, "a b")
        .is_ok();
    pipe.record_persisted(persisted);
    pipe.files_placed(true);
    guard.commit();
    pipe.guard_disarmed();
    assert_eq!(pipe.stage, PipelineStage::Done);
    assert!(pipe.committed);
    assert_eq!(guard.cleanup(), Vec::<String>::new());
}

#[test]
fn record_without_file_window_is_observable() {
    // persistence succeeds, file placement is forced to fail: the download
    // record exists while no file was ever placed, and the guard still names
    // the temporary artifact for deletion
    let mut store = PostStore::new();
    store.insert_posts(&vec![1]);
    let mut guard = ArtifactGuard::new();
    let mut pipe = PostPipeline::start(1);
    pipe.info_fetched(true);
    pipe.id_resolved(true);
    guard.add("/tmp/download");
    pipe.content_fetched(true);
    pipe.classified(true);
    pipe.transcoded(true);
    let persisted = store
        .insert_download(1, "0000001_1.png", "image/png", "png", true, "")
        .is_ok();
    assert!(persisted);
    pipe.record_persisted(persisted);
    pipe.files_placed(false);
    assert_eq!(pipe.stage, PipelineStage::Failed);
    assert!(pipe.persisted);
    assert!(!pipe.placed);
    assert!(store.has_download(1));
    assert_eq!(guard.cleanup(), vec!["/tmp/download"]);
    // the post no longer appears in the backlog: the record is durable
    assert_eq!(store.pending_posts(), Vec::<i64>::new());
}

#[test]
fn failures_before_persistence_leave_no_record() {
    let mut store = PostStore::new();
    store.insert_posts(&vec![4]);
    let mut guard = ArtifactGuard::new();
    let mut pipe = PostPipeline::start(4);
    pipe.info_fetched(true);
    pipe.id_resolved(true);
    guard.add("/tmp/partial");
    pipe.content_fetched(false);
    assert_eq!(pipe.stage, PipelineStage::Failed);
    assert!(!pipe.persisted);
    assert!(!store.has_download(4));
    assert_eq!(guard.cleanup(), vec!["/tmp/partial"]);
    // the post stays in the backlog for the next run
    assert_eq!(store.pending_posts(), vec![4]);
}
