use asset_loader::{
    begin_phase, check_loading_state, collection_count, count_loaded_statuses, get_collection,
    has_transitioned, is_finished, outstanding_count, pending_handles, post_process,
    resolve_collection, start_loading, AssetCollection, AssetKeys, AssetLoader,
    AssetLoaderConfiguration, AssetLocator, CheckOutcome, GlobalState, LoadState,
};

const LOADING: u64 = 1;
const NEXT: u64 = 2;

fn path_collection(paths: &[&str]) -> AssetCollection {
    AssetCollection {
        fields: paths
            .iter()
            .map(|p| AssetLocator::Path(p.to_string()))
            .collect(),
    }
}

/// Phase "Loading" with Images (tree.png) and Audio (bg.ogg): both start on
/// tick 1 with outstanding count 2; tree.png loading finishes Images with no
/// transition; bg.ogg loading finishes Audio, the count reaches 0 and the
/// transition to the configured next state fires; the post-load
/// initializers come back in registration order.
#[test]
fn scenario_two_collections() {
    let mut config = AssetLoaderConfiguration::new();
    let mut keys = AssetKeys::new();
    AssetLoader::new(LOADING)
        .continue_to_state(NEXT)
        .with_collection(path_collection(&["tree.png"]))
        .with_collection(path_collection(&["bg.ogg"]))
        .init_resource(10)
        .init_resource(11)
        .build(&mut config, &mut keys);
    let mut state = GlobalState::new(LOADING);

    // Tick 1: both collections start.
    begin_phase(&mut config, LOADING);
    assert_eq!(collection_count(&config, LOADING), 2);
    let images = resolve_collection(get_collection(&config, LOADING, 0), &keys).unwrap();
    assert_eq!(images, vec!["tree.png".to_string()]);
    let audio = resolve_collection(get_collection(&config, LOADING, 1), &keys).unwrap();
    assert_eq!(audio, vec!["bg.ogg".to_string()]);
    start_loading(&mut config, LOADING, 0, vec![100]);
    start_loading(&mut config, LOADING, 1, vec![200]);
    assert_eq!(outstanding_count(&config, LOADING), 2);
    assert_eq!(pending_handles(&config, LOADING, 0), Some(&vec![100]));
    assert_eq!(pending_handles(&config, LOADING, 1), Some(&vec![200]));

    // Tick 2: tree.png is loaded, bg.ogg is not.
    let r = check_loading_state(&mut config, &mut state, 0, &vec![LoadState::Loaded]);
    assert_eq!(r, CheckOutcome::Finished { total: 1 });
    let r = check_loading_state(&mut config, &mut state, 1, &vec![LoadState::Loading]);
    assert_eq!(r, CheckOutcome::InProgress { done: 0, total: 1 });
    assert_eq!(outstanding_count(&config, LOADING), 1);
    assert!(is_finished(&config, LOADING, 0));
    assert_eq!(state.requested, None);

    // Tick 3: bg.ogg is loaded too.
    let r = check_loading_state(&mut config, &mut state, 0, &vec![]);
    assert_eq!(r, CheckOutcome::Idle);
    let r = check_loading_state(&mut config, &mut state, 1, &vec![LoadState::Loaded]);
    assert_eq!(r, CheckOutcome::Finished { total: 1 });
    assert_eq!(outstanding_count(&config, LOADING), 0);
    assert_eq!(state.requested, Some(NEXT));
    assert!(has_transitioned(&config, LOADING));

    // On exit: the initializers run in registration order.
    assert_eq!(post_process(&config, LOADING), vec![10, 11]);
    assert_eq!(state.advance(), Some(NEXT));
    assert_eq!(state.current, NEXT);
}

/// Collections may finish in any order; the transition fires exactly when
/// the last one finishes, and no earlier.
#[test]
fn finish_order_does_not_matter() {
    let mut config = AssetLoaderConfiguration::new();
    let mut keys = AssetKeys::new();
    AssetLoader::new(LOADING)
        .continue_to_state(NEXT)
        .with_collection(path_collection(&["a.png"]))
        .with_collection(path_collection(&["b.png", "c.png"]))
        .build(&mut config, &mut keys);
    let mut state = GlobalState::new(LOADING);
    begin_phase(&mut config, LOADING);
    start_loading(&mut config, LOADING, 0, vec![1]);
    start_loading(&mut config, LOADING, 1, vec![2, 3]);

    // The second collection finishes first this time.
    let r = check_loading_state(
        &mut config,
        &mut state,
        1,
        &vec![LoadState::Loaded, LoadState::Loaded],
    );
    assert_eq!(r, CheckOutcome::Finished { total: 2 });
    assert_eq!(state.requested, None);
    assert!(!has_transitioned(&config, LOADING));

    let r = check_loading_state(&mut config, &mut state, 0, &vec![LoadState::Loaded]);
    assert_eq!(r, CheckOutcome::Finished { total: 1 });
    assert_eq!(state.requested, Some(NEXT));
}

/// A registered dynamic key resolves to the registered path.
#[test]
fn dynamic_key_resolves() {
    let mut keys = AssetKeys::new();
    keys.set_asset_key("character".to_string(), "images/zombie.png".to_string());
    assert_eq!(keys.get_path_for_key("character"), "images/zombie.png");
    let collection = AssetCollection {
        fields: vec![AssetLocator::Key {
            key: "character".to_string(),
            optional: false,
        }],
    };
    let paths = resolve_collection(&collection, &keys).unwrap();
    assert_eq!(paths, vec!["images/zombie.png".to_string()]);
}

/// Referencing an unregistered key fails with the missing key's name and
/// starts no handle for the collection.
#[test]
fn missing_key_fails() {
    let mut config = AssetLoaderConfiguration::new();
    let mut keys = AssetKeys::new();
    keys.set_asset_key("other".to_string(), "other.png".to_string());
    let collection = AssetCollection {
        fields: vec![
            AssetLocator::Path("first.png".to_string()),
            AssetLocator::Key {
                key: "character".to_string(),
                optional: false,
            },
        ],
    };
    AssetLoader::new(LOADING)
        .continue_to_state(NEXT)
        .with_collection(collection)
        .build(&mut config, &mut keys);
    begin_phase(&mut config, LOADING);
    let err = resolve_collection(get_collection(&config, LOADING, 0), &keys).unwrap_err();
    assert_eq!(err.key, "character");
    // The load-start aborted: nothing was started for the collection.
    assert_eq!(pending_handles(&config, LOADING, 0), None);
    assert_eq!(outstanding_count(&config, LOADING), 0);
}

/// An optional field whose key is never registered is skipped: the
/// collection still finishes once its non-optional handles load.
#[test]
fn optional_key_skipped() {
    let mut config = AssetLoaderConfiguration::new();
    let mut keys = AssetKeys::new();
    let collection = AssetCollection {
        fields: vec![
            AssetLocator::Path("base.png".to_string()),
            AssetLocator::Key {
                key: "skin".to_string(),
                optional: true,
            },
        ],
    };
    AssetLoader::new(LOADING)
        .continue_to_state(NEXT)
        .with_collection(collection)
        .build(&mut config, &mut keys);
    let mut state = GlobalState::new(LOADING);
    begin_phase(&mut config, LOADING);
    let paths = resolve_collection(get_collection(&config, LOADING, 0), &keys).unwrap();
    assert_eq!(paths, vec!["base.png".to_string()]);
    start_loading(&mut config, LOADING, 0, vec![5]);
    let r = check_loading_state(&mut config, &mut state, 0, &vec![LoadState::Loaded]);
    assert_eq!(r, CheckOutcome::Finished { total: 1 });
    assert!(is_finished(&config, LOADING, 0));
    assert_eq!(state.requested, Some(NEXT));
}

/// Polling with no live tracker and the count already at zero mutates
/// nothing and requests no further transition.
#[test]
fn poll_after_done_is_idle() {
    let mut config = AssetLoaderConfiguration::new();
    let mut keys = AssetKeys::new();
    AssetLoader::new(LOADING)
        .continue_to_state(NEXT)
        .with_collection(path_collection(&["a.png"]))
        .build(&mut config, &mut keys);
    let mut state = GlobalState::new(LOADING);
    begin_phase(&mut config, LOADING);
    start_loading(&mut config, LOADING, 0, vec![1]);
    check_loading_state(&mut config, &mut state, 0, &vec![LoadState::Loaded]);
    assert_eq!(state.advance(), Some(NEXT));

    // The runtime keeps ticking while the state switches over.
    state.current = LOADING;
    let r = check_loading_state(&mut config, &mut state, 0, &vec![]);
    assert_eq!(r, CheckOutcome::Idle);
    assert_eq!(outstanding_count(&config, LOADING), 0);
    assert_eq!(state.requested, None);
    assert!(has_transitioned(&config, LOADING));
}

/// Re-registering a phase identifier with a different next state and then
/// re-entering the phase transitions to the new state, not the old one.
#[test]
fn rebuild_overrides_next_state() {
    let mut config = AssetLoaderConfiguration::new();
    let mut keys = AssetKeys::new();
    AssetLoader::new(LOADING)
        .continue_to_state(NEXT)
        .with_collection(path_collection(&["a.png"]))
        .build(&mut config, &mut keys);
    AssetLoader::new(LOADING)
        .continue_to_state(3)
        .with_collection(path_collection(&["b.png"]))
        .build(&mut config, &mut keys);
    let mut state = GlobalState::new(LOADING);
    begin_phase(&mut config, LOADING);
    assert_eq!(collection_count(&config, LOADING), 1);
    let paths = resolve_collection(get_collection(&config, LOADING, 0), &keys).unwrap();
    assert_eq!(paths, vec!["b.png".to_string()]);
    start_loading(&mut config, LOADING, 0, vec![1]);
    let r = check_loading_state(&mut config, &mut state, 0, &vec![LoadState::Loaded]);
    assert_eq!(r, CheckOutcome::Finished { total: 1 });
    assert_eq!(state.requested, Some(3));
}

/// Re-entering a phase resets its activation: the transition fires again
/// for the new activation.
#[test]
fn phase_reentry_fires_again() {
    let mut config = AssetLoaderConfiguration::new();
    let mut keys = AssetKeys::new();
    AssetLoader::new(LOADING)
        .continue_to_state(NEXT)
        .with_collection(path_collection(&["a.png"]))
        .build(&mut config, &mut keys);
    let mut state = GlobalState::new(LOADING);
    begin_phase(&mut config, LOADING);
    start_loading(&mut config, LOADING, 0, vec![1]);
    check_loading_state(&mut config, &mut state, 0, &vec![LoadState::Loaded]);
    assert_eq!(state.advance(), Some(NEXT));

    // Back to the loading phase: a fresh activation.
    state.current = LOADING;
    begin_phase(&mut config, LOADING);
    assert_eq!(outstanding_count(&config, LOADING), 0);
    assert!(!has_transitioned(&config, LOADING));
    assert_eq!(pending_handles(&config, LOADING, 0), None);
    start_loading(&mut config, LOADING, 0, vec![9]);
    let r = check_loading_state(&mut config, &mut state, 0, &vec![LoadState::Loaded]);
    assert_eq!(r, CheckOutcome::Finished { total: 1 });
    assert_eq!(state.requested, Some(NEXT));
}

/// A failed load counts like one still in progress: the collection never
/// finishes and the phase never completes.
#[test]
fn failed_load_stalls() {
    let mut config = AssetLoaderConfiguration::new();
    let mut keys = AssetKeys::new();
    AssetLoader::new(LOADING)
        .continue_to_state(NEXT)
        .with_collection(path_collection(&["a.png", "b.png"]))
        .build(&mut config, &mut keys);
    let mut state = GlobalState::new(LOADING);
    begin_phase(&mut config, LOADING);
    start_loading(&mut config, LOADING, 0, vec![1, 2]);
    let statuses = vec![LoadState::Loaded, LoadState::Failed];
    for _ in 0..3 {
        let r = check_loading_state(&mut config, &mut state, 0, &statuses);
        assert_eq!(r, CheckOutcome::InProgress { done: 1, total: 2 });
    }
    assert_eq!(outstanding_count(&config, LOADING), 1);
    assert_eq!(state.requested, None);
}

/// The loaded count over a mixed status snapshot.
#[test]
fn count_loaded_mixed() {
    let statuses = vec![
        LoadState::Loaded,
        LoadState::Loading,
        LoadState::Failed,
        LoadState::Loaded,
    ];
    assert_eq!(count_loaded_statuses(&statuses), 2);
    assert_eq!(count_loaded_statuses(&vec![]), 0);
}

/// Overwriting a key replaces its value; unknown keys stay unknown.
#[test]
fn key_overwrite() {
    let mut keys = AssetKeys::new();
    keys.set_asset_key("character".to_string(), "a.png".to_string());
    keys.set_asset_key("portrait".to_string(), "p.png".to_string());
    keys.set_asset_key("character".to_string(), "b.png".to_string());
    assert_eq!(keys.get("character"), Some(&"b.png".to_string()));
    assert_eq!(keys.get("portrait"), Some(&"p.png".to_string()));
    assert_eq!(keys.get("unknown"), None);
}

/// Key/path pairs handed to the builder are applied at build time, in
/// order, so the later of two pairs with the same key wins.
#[test]
fn builder_add_keys() {
    let mut config = AssetLoaderConfiguration::new();
    let mut keys = AssetKeys::new();
    AssetLoader::new(LOADING)
        .add_keys(vec![
            ("character".to_string(), "a.png".to_string()),
            ("portrait".to_string(), "p.png".to_string()),
        ])
        .add_keys(vec![("character".to_string(), "b.png".to_string())])
        .build(&mut config, &mut keys);
    assert_eq!(keys.get("character"), Some(&"b.png".to_string()));
    assert_eq!(keys.get("portrait"), Some(&"p.png".to_string()));
}

/// A phase with no collections never fires a transition by itself: nothing
/// ever decrements its count to zero.
#[test]
fn empty_phase_rests() {
    let mut config = AssetLoaderConfiguration::new();
    let mut keys = AssetKeys::new();
    AssetLoader::new(LOADING)
        .continue_to_state(NEXT)
        .build(&mut config, &mut keys);
    begin_phase(&mut config, LOADING);
    assert_eq!(collection_count(&config, LOADING), 0);
    assert_eq!(outstanding_count(&config, LOADING), 0);
    assert!(!has_transitioned(&config, LOADING));
    assert_eq!(post_process(&config, LOADING), Vec::<u64>::new());
}

/// The switch-over helper: with no requested transition it changes nothing.
#[test]
fn advance_without_request() {
    let mut state = GlobalState::new(LOADING);
    assert_eq!(state.advance(), None);
    assert_eq!(state.current, LOADING);
    assert_eq!(state.requested, None);
}
