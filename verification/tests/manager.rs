use swwws::config::{Config, MonitorBehavior, NamedOutputConfig, OutputConfig};
use swwws::error::{ImageDiscoveryError, StateError, SwwwsError};
use swwws::live::{LiveState, WallpaperChange};
use swwws::manager::{
    build, changes_for, lookup_images, plan_group, present_members, restore_queue, Discovery,
};
use swwws::queue::Sorting;
use swwws::state::{DaemonState, OutputState};
use swwws::time::Span;

fn names(list: &[&str]) -> Vec<String> {
    list.iter().map(|n| n.to_string()).collect()
}

fn found(path: &str, images: &[&str]) -> Discovery {
    Discovery { path: path.to_string(), images: Ok(names(images)) }
}

fn failed(path: &str) -> Discovery {
    Discovery {
        path: path.to_string(),
        images: Err(SwwwsError::ImageDiscovery(ImageDiscoveryError::NoImagesFound {
            path: path.to_string(),
        })),
    }
}

fn config_with_path(path: &str, sorting: Sorting) -> Config {
    let mut config = Config::default();
    config.any.path = Some(path.to_string());
    config.any.sorting = sorting;
    config.any.queue_size = 2;
    config
}

fn saved(current: Option<&str>, position: usize, sorting: Sorting, images: &[&str]) -> OutputState {
    OutputState {
        current_image: current.map(|c| c.to_string()),
        queue_position: position,
        queue_size: 3,
        sorting,
        images: names(images),
        last_updated: 0,
    }
}

fn snapshot_with(output: &str, state: &OutputState) -> DaemonState {
    let mut snapshot = DaemonState::new_at(0);
    snapshot.update_output_state_at(
        output,
        state.current_image.as_deref(),
        state.queue_position,
        state.queue_size,
        state.sorting,
        &state.images,
        10,
    );
    snapshot
}

fn pairs(changes: &[WallpaperChange]) -> Vec<(String, String)> {
    changes.iter().map(|c| (c.output.clone(), c.image.clone())).collect()
}

fn pair(output: &str, image: &str) -> (String, String) {
    (output.to_string(), image.to_string())
}

const NOW: Span = Span { nanos: 5_000_000_000 };

#[test]
fn restart_reconciliation_restores_position() {
    let state = saved(Some("b"), 1, Sorting::Ascending, &["a", "b", "c"]);
    let queue = restore_queue(&state, names(&["a", "b", "c"])).expect("the snapshot fits");
    assert_eq!(queue.current_image(), Some(&"b".to_string()));
    assert_eq!(queue.current_position(), 1);
    assert_eq!(queue.capacity(), 3);
    assert_eq!(queue.get_sorting(), Sorting::Ascending);
    assert_eq!(queue.get_all_images(), names(&["a", "b", "c"]));
    // the images may be found in any order; it is their sorted order that counts
    let queue = restore_queue(&state, names(&["c", "a", "b"])).expect("the snapshot fits");
    assert_eq!(queue.current_image(), Some(&"b".to_string()));
}

#[test]
fn restart_reconciliation_discards_a_changed_set() {
    let state = saved(Some("b"), 1, Sorting::Ascending, &["a", "b", "c"]);
    assert!(restore_queue(&state, names(&["a", "b"])).is_none());
    assert!(restore_queue(&state, names(&["a", "b", "c", "d"])).is_none());
    assert!(restore_queue(&state, names(&["a", "b", "x"])).is_none());
    assert!(restore_queue(&state, Vec::new()).is_none());

    let mut snapshot = snapshot_with("DP-1", &state);
    snapshot.global_paused = false;
    let config = config_with_path("/w", Sorting::Ascending);
    let table = vec![found("/w", &["a", "b"])];
    let (live, changes) =
        LiveState::initialize(Ok(snapshot), &config, &names(&["DP-1"]), &table, NOW).unwrap();
    assert_eq!(live.outputs.len(), 1);
    assert_eq!(live.outputs[0].queue.current_image(), Some(&"a".to_string()));
    assert_eq!(live.outputs[0].queue.current_position(), 0);
    assert_eq!(pairs(&changes), vec![pair("DP-1", "a")]);
}

#[test]
fn restored_rotation_shows_nothing_at_once() {
    let state = saved(Some("b"), 1, Sorting::Ascending, &["a", "b", "c"]);
    let snapshot = snapshot_with("DP-1", &state);
    let config = config_with_path("/w", Sorting::Descending);
    let table = vec![found("/w", &["c", "b", "a"])];
    let (live, changes) =
        LiveState::initialize(Ok(snapshot), &config, &names(&["DP-1"]), &table, NOW).unwrap();
    assert_eq!(live.outputs.len(), 1);
    assert_eq!(live.outputs[0].name, "DP-1");
    assert_eq!(live.outputs[0].timer, NOW);
    assert_eq!(live.outputs[0].queue.current_image(), Some(&"b".to_string()));
    assert_eq!(live.outputs[0].queue.get_sorting(), Sorting::Ascending);
    assert!(changes.is_empty());
}

#[test]
fn ordered_restore_needs_a_position_in_range() {
    let state = saved(Some("c"), 3, Sorting::Descending, &["c", "b", "a"]);
    assert!(restore_queue(&state, names(&["a", "b", "c"])).is_none());
    let state = saved(None, 2, Sorting::Descending, &["c", "b", "a"]);
    let queue = restore_queue(&state, names(&["a", "b", "c"])).unwrap();
    assert_eq!(queue.current_image(), Some(&"a".to_string()));
    assert_eq!(queue.current_position(), 2);
}

#[test]
fn random_restore_finds_the_current_image_again() {
    let images: Vec<String> = (0..20).map(|i| format!("/img/{}", i)).collect();
    for _ in 0..10 {
        let state = OutputState {
            current_image: Some("/img/7".to_string()),
            queue_position: 15,
            queue_size: 4,
            sorting: Sorting::Random,
            images: Vec::new(),
            last_updated: 0,
        };
        let queue = restore_queue(&state, images.clone()).unwrap();
        assert_eq!(queue.current_image(), Some(&"/img/7".to_string()));
        let all = queue.get_all_images();
        assert_eq!(all[queue.current_position()], "/img/7");
        let mut sorted = all.clone();
        sorted.sort();
        let mut expected = images.clone();
        expected.sort();
        assert_eq!(sorted, expected);
    }
    let gone = saved(Some("/img/99"), 0, Sorting::Random, &[]);
    assert!(restore_queue(&gone, images.clone()).is_none());
    let none = saved(None, 0, Sorting::Random, &[]);
    assert!(restore_queue(&none, images).is_none());
}

#[test]
fn images_are_looked_up_by_path() {
    let table = vec![found("/a", &["1", "2"]), failed("/b"), found("/a", &["3"])];
    assert_eq!(lookup_images(&table, "/a").unwrap(), names(&["1", "2"]));
    assert_eq!(lookup_images(&table, "/b").unwrap_err(), "No images found in directory: \"/b\"");
    assert_eq!(lookup_images(&table, "/c").unwrap_err(), "No images found in directory: \"/c\"");
    let unreadable = vec![Discovery {
        path: "/s".to_string(),
        images: Err(SwwwsError::State(StateError::Serialization)),
    }];
    assert_eq!(
        lookup_images(&unreadable, "/s").unwrap_err(),
        "State persistence error: Failed to serialize state"
    );
}

#[test]
fn independent_outputs_each_get_a_queue() {
    let mut config = config_with_path("/w", Sorting::Ascending);
    config.outputs.push(NamedOutputConfig {
        name: "DP-2".to_string(),
        config: OutputConfig {
            path: Some("/v".to_string()),
            sorting: Sorting::Descending,
            queue_size: 1,
            ..OutputConfig::default()
        },
    });
    config.outputs.push(NamedOutputConfig {
        name: "DP-3".to_string(),
        config: OutputConfig { path: Some("/missing".to_string()), ..OutputConfig::default() },
    });
    let table = vec![found("/w", &["b", "a"]), found("/v", &["x", "z", "y"]), failed("/missing")];
    let outputs = names(&["DP-1", "DP-2", "DP-3", "DP-1"]);
    let (live, changes) =
        LiveState::initialize(Err(SwwwsError::State(StateError::Deserialization)), &config, &outputs, &table, NOW)
            .unwrap();
    assert_eq!(live.outputs.len(), 2);
    assert_eq!(live.outputs[0].name, "DP-1");
    assert_eq!(live.outputs[0].queue.get_all_images(), names(&["a", "b"]));
    assert_eq!(live.outputs[0].queue.capacity(), 2);
    assert_eq!(live.outputs[1].name, "DP-2");
    assert_eq!(live.outputs[1].queue.get_all_images(), names(&["z", "y", "x"]));
    assert_eq!(live.outputs[1].timer, NOW);
    assert!(live.groups.is_empty());
    assert!(live.shared_queue.is_none());
    assert!(!live.paused);
    assert_eq!(pairs(&changes), vec![pair("DP-1", "a"), pair("DP-2", "z")]);
}

#[test]
fn the_pause_flag_comes_from_the_snapshot() {
    let mut snapshot = DaemonState::new_at(0);
    snapshot.set_paused_at(true, 1);
    let config = config_with_path("/w", Sorting::Ascending);
    let table = vec![found("/w", &["a"])];
    let (live, _) =
        LiveState::initialize(Ok(snapshot), &config, &names(&["DP-1"]), &table, NOW).unwrap();
    assert!(live.paused);
    assert!(live.persistent_state.is_paused());
}

#[test]
fn nothing_to_rotate_is_fatal() {
    let no_path = Config::default();
    let table = vec![found("/w", &["a"])];
    let err = LiveState::initialize(
        Ok(DaemonState::new_at(0)),
        &no_path,
        &names(&["DP-1"]),
        &table,
        NOW,
    )
    .err()
    .unwrap();
    assert_eq!(err, "No valid wallpaper management initialized - check configuration and paths");
    let config = config_with_path("/w", Sorting::Ascending);
    let err = LiveState::initialize(Ok(DaemonState::new_at(0)), &config, &Vec::new(), &table, NOW)
        .err()
        .unwrap();
    assert_eq!(err, "No swww outputs found");
    let err = LiveState::initialize(
        Ok(DaemonState::new_at(0)),
        &config,
        &names(&["DP-1"]),
        &vec![failed("/w")],
        NOW,
    )
    .err()
    .unwrap();
    assert_eq!(err, "No valid wallpaper management initialized - check configuration and paths");
}

#[test]
fn synchronized_behavior_shares_one_queue() {
    let mut config = config_with_path("/w", Sorting::Ascending);
    config.monitor_behavior = MonitorBehavior::Synchronized;
    let state = saved(Some("b"), 1, Sorting::Ascending, &["a", "b", "c"]);
    let snapshot = snapshot_with("DP-1", &state);
    let table = vec![found("/w", &["c", "a", "b"])];
    let outputs = names(&["DP-1", "DP-2"]);
    let (live, changes) =
        LiveState::initialize(Ok(snapshot), &config, &outputs, &table, NOW).unwrap();
    assert!(live.outputs.is_empty());
    assert!(live.groups.is_empty());
    let shared = live.shared_queue.as_ref().unwrap();
    // synchronized behavior always starts anew
    assert_eq!(shared.current_image(), Some(&"a".to_string()));
    assert_eq!(shared.current_position(), 0);
    assert_eq!(live.shared_timer, Some(NOW));
    assert_eq!(pairs(&changes), vec![pair("DP-1", "a"), pair("DP-2", "a")]);
}

#[test]
fn synchronized_behavior_needs_a_path() {
    let mut config = Config::default();
    config.monitor_behavior = MonitorBehavior::Synchronized;
    let base = || LiveState::new(Ok(DaemonState::new_at(0)));
    let err = build(base(), &config, &names(&["DP-1"]), &Vec::new(), NOW).err().unwrap();
    assert_eq!(
        err,
        "No wallpaper path configured for synchronized mode. Add 'path = \"/path/to/wallpapers\"' to [any] section in config"
    );
    let err = build(base(), &config, &Vec::new(), &Vec::new(), NOW).err().unwrap();
    assert_eq!(err, "No display outputs available for synchronized mode");
    config.any.path = Some("/w".to_string());
    let err = build(base(), &config, &names(&["DP-1"]), &vec![failed("/w")], NOW).err().unwrap();
    assert_eq!(
        err,
        "Failed to discover images for synchronized mode: No images found in directory: \"/w\""
    );
    let err = build(base(), &config, &names(&["DP-1"]), &vec![found("/w", &[])], NOW).err().unwrap();
    assert_eq!(err, "No valid wallpaper management initialized - check configuration and paths");
}

fn grouped_config() -> Config {
    let mut config = Config::default();
    config.monitor_behavior = MonitorBehavior::Grouped(Vec::new());
    config.monitor_groups = Some(vec![
        names(&["DP-9", "DP-1", "DP-2"]),
        names(&["DP-8"]),
        names(&["DP-3"]),
    ]);
    for (name, path) in [("DP-1", "/one"), ("DP-2", "/two"), ("DP-3", "/three"), ("DP-4", "/four")]
    {
        config.outputs.push(NamedOutputConfig {
            name: name.to_string(),
            config: OutputConfig {
                path: Some(path.to_string()),
                sorting: Sorting::Ascending,
                ..OutputConfig::default()
            },
        });
    }
    config
}

#[test]
fn groups_share_a_queue_and_the_rest_is_independent() {
    let config = grouped_config();
    let table = vec![
        found("/one", &["1b", "1a"]),
        found("/two", &["2a"]),
        found("/three", &["3a"]),
        found("/four", &["4a"]),
    ];
    let outputs = names(&["DP-1", "DP-2", "DP-3", "DP-4", "DP-5"]);
    let (live, changes) =
        LiveState::initialize(Ok(DaemonState::new_at(0)), &config, &outputs, &table, NOW).unwrap();
    assert_eq!(live.groups.len(), 2);
    assert_eq!(live.groups[0].name, "group_0");
    assert_eq!(live.groups[0].outputs, names(&["DP-1", "DP-2"]));
    assert_eq!(live.groups[0].queue.get_all_images(), names(&["1a", "1b"]));
    assert_eq!(live.groups[0].timer, NOW);
    assert_eq!(live.groups[1].name, "group_2");
    assert_eq!(live.groups[1].outputs, names(&["DP-3"]));
    assert_eq!(live.outputs.len(), 1);
    assert_eq!(live.outputs[0].name, "DP-4");
    assert!(live.shared_queue.is_none());
    assert_eq!(
        pairs(&changes),
        vec![pair("DP-1", "1a"), pair("DP-2", "1a"), pair("DP-3", "3a"), pair("DP-4", "4a")]
    );
}

#[test]
fn a_group_whose_images_cannot_be_found_is_left_out() {
    let config = grouped_config();
    let table = vec![found("/one", &["1a"]), found("/four", &["4a"])];
    let outputs = names(&["DP-1", "DP-3", "DP-4"]);
    let (live, changes) =
        LiveState::initialize(Ok(DaemonState::new_at(0)), &config, &outputs, &table, NOW).unwrap();
    assert_eq!(live.groups.len(), 1);
    assert_eq!(live.groups[0].name, "group_0");
    assert_eq!(live.groups[0].outputs, names(&["DP-1"]));
    // DP-3 is in no group that rotates, and has no images of its own either
    assert_eq!(live.outputs.len(), 1);
    assert_eq!(live.outputs[0].name, "DP-4");
    assert_eq!(pairs(&changes), vec![pair("DP-1", "1a"), pair("DP-4", "4a")]);

    let nothing = LiveState::initialize(
        Ok(DaemonState::new_at(0)),
        &config,
        &names(&["DP-3"]),
        &vec![failed("/three")],
        NOW,
    );
    assert_eq!(
        nothing.err().unwrap(),
        "No valid wallpaper management initialized - check configuration and paths"
    );
}

#[test]
fn a_group_takes_the_first_member_that_is_known_and_has_a_path() {
    let config = grouped_config();
    let table = vec![found("/two", &["2a"])];
    let members = names(&["DP-9", "DP-1", "DP-2"]);
    let group =
        plan_group(&config, &names(&["DP-2", "DP-9"]), &table, &members, 11, NOW).unwrap();
    assert_eq!(group.name, "group_11");
    assert_eq!(group.outputs, names(&["DP-9", "DP-2"]));
    assert_eq!(group.queue.current_image(), Some(&"2a".to_string()));
    assert!(plan_group(&config, &names(&["DP-7"]), &table, &members, 0, NOW).is_none());
    assert!(plan_group(&config, &names(&["DP-9"]), &table, &members, 0, NOW).is_none());
    // the first member that can lead has no images: the group is left out
    assert!(plan_group(&config, &names(&["DP-1", "DP-2"]), &table, &members, 0, NOW).is_none());
    assert_eq!(
        present_members(&members, &names(&["DP-2", "DP-1", "DP-5"])),
        names(&["DP-1", "DP-2"])
    );
}

#[test]
fn rebuilding_keeps_the_prior_state_on_failure() {
    let config = config_with_path("/w", Sorting::Ascending);
    let table = vec![found("/w", &["a", "b"])];
    let (mut live, _) =
        LiveState::initialize(Ok(DaemonState::new_at(0)), &config, &names(&["DP-1"]), &table, NOW)
            .unwrap();
    live.paused = true;
    let mut synchronized = Config::default();
    synchronized.monitor_behavior = MonitorBehavior::Synchronized;
    let later = Span::from_secs(9);
    let err = live
        .reinitialize_daemon_state(&synchronized, &names(&["DP-1"]), &table, later)
        .err()
        .unwrap();
    assert!(err.starts_with("No wallpaper path configured"));
    assert_eq!(live.outputs.len(), 1);
    assert_eq!(live.outputs[0].timer, NOW);
    assert!(live.shared_queue.is_none());

    synchronized.any.path = Some("/w".to_string());
    synchronized.any.sorting = Sorting::Descending;
    let changes = live
        .reinitialize_daemon_state(&synchronized, &names(&["DP-1", "DP-2"]), &table, later)
        .unwrap();
    assert!(live.outputs.is_empty());
    assert!(live.paused);
    assert_eq!(live.shared_timer, Some(later));
    assert_eq!(pairs(&changes), vec![pair("DP-1", "b"), pair("DP-2", "b")]);
}

#[test]
fn one_image_for_many_outputs() {
    let changes = changes_for(&names(&["a", "b"]), "/img");
    assert_eq!(pairs(&changes), vec![pair("a", "/img"), pair("b", "/img")]);
    assert!(changes_for(&Vec::new(), "/img").is_empty());
}

#[test]
fn the_snapshot_takes_up_the_live_queues() {
    let config = config_with_path("/w", Sorting::Ascending);
    let table = vec![found("/w", &["a", "b", "c"])];
    let (mut live, _) = LiveState::initialize(
        Ok(DaemonState::new_at(0)),
        &config,
        &names(&["DP-1", "DP-2"]),
        &table,
        NOW,
    )
    .unwrap();
    live.outputs[1].queue.next();
    live.paused = true;
    live.sync_snapshot_at(77);
    let snapshot = &live.persistent_state;
    assert!(snapshot.is_paused());
    assert_eq!(snapshot.last_save, 77);
    let second = snapshot.get_output_state("DP-2").unwrap();
    assert_eq!(second.current_image, Some("b".to_string()));
    assert_eq!(second.queue_position, 1);
    assert_eq!(second.queue_size, 2);
    assert_eq!(second.sorting, Sorting::Ascending);
    assert_eq!(second.images, names(&["a", "b", "c"]));
    assert_eq!(second.last_updated, 77);
    assert_eq!(snapshot.get_output_state("DP-1").unwrap().queue_position, 0);
    live.save_state();
    assert!(live.persistent_state.last_save > 1_577_836_800);

    // a later start takes the rotation up where it was
    let kept = live.persistent_state.clone();
    let (again, changes) =
        LiveState::initialize(Ok(kept), &config, &names(&["DP-1", "DP-2"]), &table, NOW).unwrap();
    assert!(again.paused);
    assert_eq!(again.outputs[1].queue.current_image(), Some(&"b".to_string()));
    assert_eq!(again.outputs[1].queue.capacity(), 2);
    assert!(changes.is_empty());
}
