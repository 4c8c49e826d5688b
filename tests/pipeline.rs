use std::cell::Cell;

use character_viewer::bridge::{bridge_asset_events, AssetEvent, AssetLoadedEvent};
use character_viewer::definition::CharacterData;
use character_viewer::error::PipelineError;
use character_viewer::name_map::NameMap;
use character_viewer::pipeline::{load_plan, on_character_data_loaded, start_idle, ClipRequest};
use character_viewer::registry::Characters;

fn definition(id: &str, model: &str, animations: &[(&str, &str)]) -> CharacterData {
    let mut d = CharacterData::new(id.to_string(), model.to_string());
    for (name, path) in animations {
        d.set_animation_path(name.to_string(), path.to_string());
    }
    d
}

fn graph_of(clip: &ClipRequest) -> (String, usize) {
    (format!("graph of {}", clip.locator), 1)
}

fn sorted_names(mut names: Vec<String>) -> Vec<String> {
    names.sort();
    names
}

#[test]
fn locators_use_fixed_suffixes() {
    let d = definition("knight", "models/knight", &[("walk", "anims/walk"), ("run", "anims/run")]);
    assert_eq!(d.model_scene_path(), "models/knight#Scene0");
    assert_eq!(d.animation_path("walk"), "anims/walk#Animation0");
    assert_eq!(d.animation_path("run"), "anims/run#Animation0");
    let plan = load_plan(&d);
    assert_eq!(plan.character_id, "knight");
    assert_eq!(plan.scene_locator, "models/knight#Scene0");
    let mut clips: Vec<(String, String)> =
        plan.clips.iter().map(|c| (c.name.clone(), c.locator.clone())).collect();
    clips.sort();
    assert_eq!(
        clips,
        vec![
            ("run".to_string(), "anims/run#Animation0".to_string()),
            ("walk".to_string(), "anims/walk#Animation0".to_string()),
        ]
    );
}

#[test]
fn empty_paths_get_only_the_suffix() {
    let d = definition("x", "", &[("idle", "")]);
    assert_eq!(d.model_scene_path(), "#Scene0");
    assert_eq!(d.animation_path("idle"), "#Animation0");
}

#[test]
fn animations_lists_each_name_once() {
    let d = definition(
        "knight",
        "models/knight",
        &[("walk", "a"), ("idle", "b"), ("walk", "c")],
    );
    assert_eq!(sorted_names(d.animations()), vec!["idle".to_string(), "walk".to_string()]);
    assert_eq!(d.animation_path("walk"), "c#Animation0");
}

#[test]
fn register_rejects_an_existing_id() {
    let mut characters: Characters<u64, String> = Characters::new();
    assert_eq!(characters.register("mutant".to_string(), 1), Ok(()));
    assert_eq!(characters.register("mutant".to_string(), 2), Err(2));
    let record = characters.get("mutant").unwrap();
    assert_eq!(*record.data(), 1);
    assert!(!record.is_loaded());
    assert!(record.animation_names().is_empty());
}

#[test]
fn lookup_of_unknown_id_fails() {
    let mut characters: Characters<u64, String> = Characters::new();
    assert!(matches!(characters.get("ghost"), Err(PipelineError::UnregisteredCharacter)));
    assert_eq!(
        characters.insert_animation("ghost", "idle".to_string(), "g".to_string(), 0),
        Err(PipelineError::UnregisteredCharacter)
    );
    assert_eq!(characters.mark_loaded("ghost"), Err(PipelineError::UnregisteredCharacter));
    assert!(!characters.contains("ghost"));
}

#[test]
fn insert_animation_replaces_an_existing_name() {
    let mut characters: Characters<u64, String> = Characters::new();
    characters.register("mutant".to_string(), 1).unwrap();
    characters.insert_animation("mutant", "idle".to_string(), "g1".to_string(), 1).unwrap();
    characters.insert_animation("mutant", "idle".to_string(), "g2".to_string(), 4).unwrap();
    let record = characters.get("mutant").unwrap();
    assert_eq!(record.animation_names(), vec!["idle".to_string()]);
    assert_eq!(record.animation("idle"), Some(&("g2".to_string(), 4)));
}

#[test]
fn orchestration_fills_two_animations() {
    let mut characters: Characters<u64, String> = Characters::new();
    characters.register("mutant".to_string(), 42).unwrap();
    let d = definition(
        "mutant",
        "models/mutant",
        &[("idle", "anims/idle"), ("walk", "anims/walk")],
    );
    let plan = on_character_data_loaded(&mut characters, Some(&d), graph_of).unwrap().unwrap();
    assert_eq!(plan.clips.len(), 2);
    let record = characters.get("mutant").unwrap();
    assert!(record.is_loaded());
    assert_eq!(*record.data(), 42);
    assert_eq!(
        sorted_names(record.animation_names()),
        vec!["idle".to_string(), "walk".to_string()]
    );
    let (idle_graph, idle_node) = record.animation("idle").unwrap();
    assert_eq!(idle_graph, "graph of anims/idle#Animation0");
    let (walk_graph, walk_node) = record.animation("walk").unwrap();
    assert_eq!(walk_graph, "graph of anims/walk#Animation0");
    assert_eq!((*idle_node, *walk_node), (1, 1));
}

#[test]
fn orchestration_keeps_other_animations() {
    let mut characters: Characters<u64, String> = Characters::new();
    characters.register("mutant".to_string(), 42).unwrap();
    characters.insert_animation("mutant", "wave".to_string(), "wave graph".to_string(), 5).unwrap();
    characters.insert_animation("mutant", "idle".to_string(), "old idle".to_string(), 5).unwrap();
    let d = definition("mutant", "models/mutant", &[("idle", "anims/idle")]);
    on_character_data_loaded(&mut characters, Some(&d), graph_of).unwrap().unwrap();
    let record = characters.get("mutant").unwrap();
    assert_eq!(
        sorted_names(record.animation_names()),
        vec!["idle".to_string(), "wave".to_string()]
    );
    assert_eq!(record.animation("wave"), Some(&("wave graph".to_string(), 5)));
    assert_eq!(
        record.animation("idle"),
        Some(&("graph of anims/idle#Animation0".to_string(), 1))
    );
}

#[test]
fn redelivered_load_issues_nothing() {
    let mut characters: Characters<u64, String> = Characters::new();
    characters.register("mutant".to_string(), 7).unwrap();
    let d = definition("mutant", "models/mutant", &[("idle", "anims/idle")]);
    let builds = Cell::new(0);
    let counting = |clip: &ClipRequest| {
        builds.set(builds.get() + 1);
        graph_of(clip)
    };
    let first = on_character_data_loaded(&mut characters, Some(&d), counting).unwrap();
    assert!(first.is_some());
    assert_eq!(builds.get(), 1);
    assert_eq!(on_character_data_loaded(&mut characters, Some(&d), counting), Ok(None));
    assert_eq!(on_character_data_loaded(&mut characters, Some(&d), counting), Ok(None));
    assert_eq!(builds.get(), 1);
    let record = characters.get("mutant").unwrap();
    assert_eq!(record.animation_names(), vec!["idle".to_string()]);
    assert_eq!(
        record.animation("idle"),
        Some(&("graph of anims/idle#Animation0".to_string(), 1))
    );
    assert_eq!(*record.data(), 7);
}

#[test]
fn load_of_unresolved_or_unregistered_definition_fails() {
    let mut characters: Characters<u64, String> = Characters::new();
    assert_eq!(
        on_character_data_loaded(&mut characters, None, graph_of),
        Err(PipelineError::MissingAsset)
    );
    let d = definition("stranger", "models/stranger", &[]);
    assert_eq!(
        on_character_data_loaded(&mut characters, Some(&d), graph_of),
        Err(PipelineError::UnregisteredCharacter)
    );
    assert!(!characters.contains("stranger"));
}

fn loaded_mutant(animations: &[(&str, &str, usize)]) -> (Characters<u64, String>, CharacterData) {
    let mut characters: Characters<u64, String> = Characters::new();
    characters.register("mutant".to_string(), 1).unwrap();
    let paths: Vec<(&str, &str)> = animations.iter().map(|(n, _, _)| (*n, "anims")).collect();
    let d = definition("mutant", "models/mutant", &paths);
    let build = |clip: &ClipRequest| {
        let (_, graph, node) = animations.iter().find(|(n, _, _)| *n == clip.name).unwrap();
        (graph.to_string(), *node)
    };
    on_character_data_loaded(&mut characters, Some(&d), build).unwrap();
    (characters, d)
}

#[test]
fn missing_idle_fails_with_animation_not_found() {
    let (characters, d) = loaded_mutant(&[("walk", "walk graph", 1)]);
    let result = start_idle(&characters, Some(&d), &vec![true]);
    assert!(matches!(result, Err(PipelineError::AnimationNotFound)));
}

#[test]
fn activation_without_playback_node_fails() {
    let (characters, d) = loaded_mutant(&[("idle", "idle graph", 1)]);
    assert!(matches!(
        start_idle(&characters, Some(&d), &vec![false, false]),
        Err(PipelineError::NoPlaybackNodeFound)
    ));
    assert!(matches!(
        start_idle(&characters, Some(&d), &vec![]),
        Err(PipelineError::NoPlaybackNodeFound)
    ));
}

#[test]
fn activation_of_unresolved_or_unregistered_definition_fails() {
    let (characters, _) = loaded_mutant(&[("idle", "idle graph", 1)]);
    assert!(matches!(
        start_idle(&characters, None, &vec![true]),
        Err(PipelineError::MissingAsset)
    ));
    let other = definition("other", "models/other", &[]);
    assert!(matches!(
        start_idle(&characters, Some(&other), &vec![true]),
        Err(PipelineError::UnregisteredCharacter)
    ));
}

// The scene root has children `arm` and `head`; `arm` has the child `hand`.
// `head` (depth one) and `hand` (depth two) can play animations.
fn playback_in(order: &[&str]) -> Vec<bool> {
    order.iter().map(|n| *n == "head" || *n == "hand").collect()
}

#[test]
fn activation_binds_first_node_breadth_first() {
    let (characters, d) = loaded_mutant(&[("idle", "idle graph", 3)]);
    let order = ["arm", "head", "hand"];
    let a = start_idle(&characters, Some(&d), &playback_in(&order)).unwrap();
    assert_eq!(order[a.node], "head");
    assert_eq!(a.graph, "idle graph");
    assert_eq!(a.animation, 3);
}

#[test]
fn activation_binds_first_node_depth_first() {
    let (characters, d) = loaded_mutant(&[("idle", "idle graph", 3)]);
    let order = ["arm", "hand", "head"];
    let a = start_idle(&characters, Some(&d), &playback_in(&order)).unwrap();
    assert_eq!(order[a.node], "hand");
    assert_eq!(a.graph, "idle graph");
    assert_eq!(a.animation, 3);
}

#[test]
fn end_to_end_mutant_plays_idle() {
    let mut characters: Characters<u64, String> = Characters::new();
    characters.register("mutant".to_string(), 99).unwrap();
    let d = definition("mutant", "models/mutant", &[("idle", "anims/idle")]);
    let build = |clip: &ClipRequest| {
        assert_eq!(clip.locator, "anims/idle#Animation0");
        ("idle graph".to_string(), 1)
    };
    let plan = on_character_data_loaded(&mut characters, Some(&d), build).unwrap().unwrap();
    assert_eq!(plan.scene_locator, "models/mutant#Scene0");
    assert_eq!(
        plan.clips,
        vec![ClipRequest {
            name: "idle".to_string(),
            locator: "anims/idle#Animation0".to_string(),
        }]
    );
    let a = start_idle(&characters, Some(&d), &vec![true]).unwrap();
    assert_eq!(a.node, 0);
    assert_eq!(a.graph, "idle graph");
    assert_eq!(a.animation, 1);
    assert!(a.repeat);
}

#[test]
fn bridge_keeps_only_loaded_events() {
    let events = vec![
        AssetEvent::Added { id: 1u32 },
        AssetEvent::LoadedWithDependencies { id: 1 },
        AssetEvent::Modified { id: 2 },
        AssetEvent::Removed { id: 3 },
        AssetEvent::Unused { id: 3 },
        AssetEvent::LoadedWithDependencies { id: 4 },
    ];
    assert_eq!(
        bridge_asset_events(&events),
        vec![AssetLoadedEvent { asset_id: 1 }, AssetLoadedEvent { asset_id: 4 }]
    );
    assert!(bridge_asset_events::<u32>(&vec![]).is_empty());
}

#[test]
fn bridge_repeats_a_repeated_transition() {
    let events = vec![
        AssetEvent::LoadedWithDependencies { id: 5u32 },
        AssetEvent::LoadedWithDependencies { id: 5 },
    ];
    assert_eq!(bridge_asset_events(&events).len(), 2);
}

#[test]
fn name_map_insert_get_remove() {
    let mut m: NameMap<u32> = NameMap::new();
    assert_eq!(m.insert("a".to_string(), 1), None);
    assert_eq!(m.insert("b".to_string(), 2), None);
    assert_eq!(m.insert("a".to_string(), 3), Some(1));
    assert_eq!(m.get("a"), Some(&3));
    assert_eq!(m.keys(), vec!["a".to_string(), "b".to_string()]);
    assert_eq!(m.remove("a"), Some(("a".to_string(), 3)));
    assert_eq!(m.remove("a"), None);
    assert!(!m.contains_key("a"));
    assert!(m.contains_key("b"));
}
