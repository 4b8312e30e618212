use courier::loader::{AssetLoader, AssetLoaderState, LoadEvent};

#[test]
fn loader_starts_loading_and_gates_downstream() {
    let l = AssetLoader::new(2);
    assert_eq!(l.state(), AssetLoaderState::Loading);
    assert!(!l.downstream_enabled());
    assert_eq!(l.asset_count(), 2);
}

#[test]
fn loader_enters_done_once_all_assets_report() {
    let mut l = AssetLoader::new(2);
    assert!(!l.handle(LoadEvent::Loaded(0)));
    assert_eq!(l.state(), AssetLoaderState::Loading);
    assert!(!l.handle(LoadEvent::Loaded(0)));
    assert!(!l.handle(LoadEvent::Poll));
    assert_eq!(l.state(), AssetLoaderState::Loading);
    assert!(l.handle(LoadEvent::Loaded(1)));
    assert_eq!(l.state(), AssetLoaderState::Done);
    assert!(l.downstream_enabled());
}

#[test]
fn loader_never_leaves_done_and_transitions_once() {
    let mut l = AssetLoader::new(3);
    let events = vec![
        LoadEvent::Loaded(2),
        LoadEvent::Poll,
        LoadEvent::Loaded(0),
        LoadEvent::Loaded(1),
        LoadEvent::Loaded(1),
        LoadEvent::Poll,
        LoadEvent::Loaded(7),
        LoadEvent::Loaded(0),
    ];
    let mut transitions = 0;
    let mut seen_done = false;
    for e in events {
        if l.handle(e) {
            transitions += 1;
        }
        if seen_done {
            assert_eq!(l.state(), AssetLoaderState::Done);
        }
        seen_done = l.state() == AssetLoaderState::Done;
    }
    assert_eq!(transitions, 1);
    assert!(seen_done);
}

#[test]
fn loader_ignores_unknown_asset_index() {
    let mut l = AssetLoader::new(1);
    assert!(!l.handle(LoadEvent::Loaded(1)));
    assert!(!l.handle(LoadEvent::Loaded(usize::MAX)));
    assert_eq!(l.state(), AssetLoaderState::Loading);
    assert!(l.handle(LoadEvent::Loaded(0)));
}

#[test]
fn loader_with_no_assets_finishes_on_first_tick() {
    let mut l = AssetLoader::new(0);
    assert_eq!(l.state(), AssetLoaderState::Loading);
    assert!(l.handle(LoadEvent::Poll));
    assert_eq!(l.state(), AssetLoaderState::Done);
    assert!(!l.handle(LoadEvent::Poll));
}

#[test]
fn loader_partial_reports_keep_loading() {
    let mut l = AssetLoader::new(3);
    assert!(!l.handle(LoadEvent::Loaded(0)));
    assert!(!l.handle(LoadEvent::Loaded(2)));
    for _ in 0..5 {
        assert!(!l.handle(LoadEvent::Poll));
    }
    assert_eq!(l.state(), AssetLoaderState::Loading);
}
