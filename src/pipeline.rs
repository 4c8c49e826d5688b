use vstd::prelude::*;

use crate::definition::{clip_locator, scene_locator, CharacterData};
use crate::error::PipelineError;
use crate::registry::{CharacterView, Characters};

verus! {

/// A request to load the clip of one named animation.
#[derive(Debug, PartialEq, Eq)]
pub struct ClipRequest {
    pub name: String,
    pub locator: String,
}

/// The loads that processing a character definition issues: the model scene
/// and one clip for each animation.
#[derive(Debug, PartialEq, Eq)]
pub struct LoadPlan {
    pub character_id: String,
    pub scene_locator: String,
    pub clips: Vec<ClipRequest>,
}

impl LoadPlan {
    /// The plan requests the scene of `data`'s model and the clip of each of
    /// its animations, each animation once: one scene and as many clips as
    /// `data` has animations.
    pub open spec fn describes(&self, data: &CharacterData) -> bool {
        &&& self.character_id@ == data.id@
        &&& self.clips@.len() == data.animation_paths@.len()
        &&& self.scene_locator@ == scene_locator(data.model_path@)
        &&& forall|i: int|
            0 <= i < self.clips@.len() ==> {
                &&& #[trigger] data.animation_paths@.contains_key(self.clips@[i].name@)
                &&& self.clips@[i].locator@ == clip_locator(
                    data.animation_paths@[self.clips@[i].name@]@,
                )
            }
        &&& forall|i: int, j: int|
            0 <= i < j < self.clips@.len() ==> self.clips@[i].name@ != self.clips@[j].name@
        &&& forall|k: Seq<char>|
            #[trigger] data.animation_paths@.contains_key(k) ==> exists|i: int|
                0 <= i < self.clips@.len() && self.clips@[i].name@ == k
    }
}

/// The loads that the definition `data` calls for.
pub fn load_plan(data: &CharacterData) -> (r: LoadPlan)
    requires
        data.wf(),
    ensures
        r.describes(data),
{
    let names = data.animations();
    let mut clips: Vec<ClipRequest> = Vec::new();
    let mut i: usize = 0;
    while i < names.len()
        invariant
            data.wf(),
            i <= names@.len(),
            clips@.len() == i,
            forall|j: int| 0 <= j < names@.len() ==> #[trigger] data.animation_paths@.contains_key(names@[j]@),
            forall|j: int|
                0 <= j < i ==> {
                    &&& (#[trigger] clips@[j]).name@ == names@[j]@
                    &&& clips@[j].locator@ == clip_locator(data.animation_paths@[names@[j]@]@)
                },
        decreases names@.len() - i,
    {
        let name = names[i].clone();
        let locator = data.animation_path(name.as_str());
        let ghost before = clips@;
        clips.push(ClipRequest { name, locator });
        assert forall|j: int| 0 <= j < i implies #[trigger] clips@[j] == before[j] by {}
        i += 1;
    }
    let r = LoadPlan {
        character_id: data.id.clone(),
        scene_locator: data.model_scene_path(),
        clips,
    };
    assert forall|k: Seq<char>| #[trigger] data.animation_paths@.contains_key(k) implies exists|i: int|
        0 <= i < r.clips@.len() && r.clips@[i].name@ == k by {
        let i = choose|i: int| 0 <= i < names@.len() && names@[i]@ == k;
        assert(r.clips@[i].name@ == names@[i]@);
    }
    assert forall|i: int| 0 <= i < r.clips@.len() implies {
        &&& #[trigger] data.animation_paths@.contains_key(r.clips@[i].name@)
        &&& r.clips@[i].locator@ == clip_locator(data.animation_paths@[r.clips@[i].name@]@)
    } by {
        assert(r.clips@[i].name@ == names@[i]@);
    }
    assert forall|i: int, j: int| 0 <= i < j < r.clips@.len() implies r.clips@[i].name@
        != r.clips@[j].name@ by {
        assert(r.clips@[i].name@ == names@[i]@);
        assert(r.clips@[j].name@ == names@[j]@);
    }
    proof {
        lemma_clip_count(&r, data);
    }
    r
}

/// A plan whose clip names are distinct names of `data`'s animations, and
/// cover them all, has one clip per animation.
proof fn lemma_clip_count(plan: &LoadPlan, data: &CharacterData)
    requires
        data.wf(),
        forall|i: int|
            0 <= i < plan.clips@.len() ==> #[trigger] data.animation_paths@.contains_key(
                plan.clips@[i].name@,
            ),
        forall|i: int, j: int|
            0 <= i < j < plan.clips@.len() ==> plan.clips@[i].name@ != plan.clips@[j].name@,
        forall|k: Seq<char>|
            #[trigger] data.animation_paths@.contains_key(k) ==> exists|i: int|
                0 <= i < plan.clips@.len() && plan.clips@[i].name@ == k,
    ensures
        plan.clips@.len() == data.animation_paths@.len(),
{
    let names = plan.clips@.map_values(|c: ClipRequest| c.name@);
    assert forall|i: int, j: int| 0 <= i < names.len() && 0 <= j < names.len() && i != j implies names[i]
        != names[j] by {
        if i < j {
            assert(plan.clips@[i].name@ != plan.clips@[j].name@);
        } else {
            assert(plan.clips@[j].name@ != plan.clips@[i].name@);
        }
    }
    assert(names.no_duplicates());
    names.unique_seq_to_set();
    assert forall|k: Seq<char>| #[trigger] names.to_set().contains(k) == data.animation_paths@.dom().contains(k) by {
        if names.to_set().contains(k) {
            let i = choose|i: int| 0 <= i < names.len() && names[i] == k;
            assert(data.animation_paths@.contains_key(plan.clips@[i].name@));
        }
        if data.animation_paths@.contains_key(k) {
            let i = choose|i: int| 0 <= i < plan.clips@.len() && plan.clips@[i].name@ == k;
            assert(names[i] == k);
        }
    }
    assert(names.to_set() =~= data.animation_paths@.dom());
}

/// What the first delivery of `data`, processed as `plan` with graphs from
/// `build_graph`, leaves in the registry: only the record of `data`'s
/// character changes. It keeps its definition handle and is marked as loaded.
/// Its animations are the ones it had plus one for each animation of `data`,
/// each holding the graph and node index that `build_graph` returned for the
/// animation's clip request; an animation that `data` does not name keeps its
/// entry.
pub open spec fn recorded_graphs<D, G, F: Fn(&ClipRequest) -> (G, usize)>(
    before: Map<Seq<char>, CharacterView<D, G>>,
    after: Map<Seq<char>, CharacterView<D, G>>,
    data: &CharacterData,
    plan: &LoadPlan,
    build_graph: F,
) -> bool {
    let id = data.id@;
    &&& after.dom() == before.dom()
    &&& forall|k: Seq<char>| #[trigger] before.contains_key(k) && k != id ==> after[k] == before[k]
    &&& after[id].data == before[id].data
    &&& after[id].loaded
    &&& forall|n: Seq<char>|
        #[trigger] after[id].animations.contains_key(n) == (before[id].animations.contains_key(n)
            || data.animation_paths@.contains_key(n))
    &&& forall|n: Seq<char>|
        #[trigger] before[id].animations.contains_key(n) && !data.animation_paths@.contains_key(n)
            ==> after[id].animations[n] == before[id].animations[n]
    &&& forall|i: int|
        0 <= i < plan.clips@.len() ==> build_graph.ensures(
            (&plan.clips@[i],),
            #[trigger] after[id].animations[plan.clips@[i].name@],
        )
}

/// Reacts to the definition of a character having loaded. `data` is the
/// definition resolved from the loaded asset, `None` where it could not be
/// resolved. The first time a registered character's definition arrives, its
/// record is marked as loaded, `build_graph` is called once for each clip
/// request (it issues the clip's load and builds a graph around the clip
/// handle, without waiting for the clip), each result is recorded under its
/// animation name, and the plan is returned so that the caller issues the
/// scene load. A definition that arrives again changes nothing and issues
/// nothing.
pub fn on_character_data_loaded<D, G, F: Fn(&ClipRequest) -> (G, usize)>(
    characters: &mut Characters<D, G>,
    data: Option<&CharacterData>,
    build_graph: F,
) -> (r: Result<Option<LoadPlan>, PipelineError>)
    requires
        old(characters).wf(),
        data matches Some(d) ==> d.wf(),
        forall|c: &ClipRequest| build_graph.requires((c,)),
    ensures
        final(characters).wf(),
        match data {
            None => r == Err::<Option<LoadPlan>, PipelineError>(PipelineError::MissingAsset)
                && final(characters)@ == old(characters)@,
            Some(d) => {
                &&& !old(characters)@.contains_key(d.id@) ==> r == Err::<
                    Option<LoadPlan>,
                    PipelineError,
                >(PipelineError::UnregisteredCharacter) && final(characters)@ == old(characters)@
                &&& old(characters)@.contains_key(d.id@) && old(characters)@[d.id@].loaded ==> r
                    == Ok::<Option<LoadPlan>, PipelineError>(None) && final(characters)@ == old(
                    characters,
                )@
                &&& old(characters)@.contains_key(d.id@) && !old(characters)@[d.id@].loaded
                    ==> match r {
                    Ok(Some(p)) => p.describes(d) && recorded_graphs(
                        old(characters)@,
                        final(characters)@,
                        d,
                        &p,
                        build_graph,
                    ),
                    _ => false,
                }
            },
        },
{
    let d = match data {
        Some(d) => d,
        None => {
            return Err(PipelineError::MissingAsset);
        },
    };
    let id = d.id.as_str();
    match characters.get(id) {
        Err(e) => {
            return Err(e);
        },
        Ok(c) => {
            if c.is_loaded() {
                return Ok(None);
            }
        },
    }
    let ghost before = characters@;
    let ghost old_animations = before[d.id@].animations;
    let _ = characters.mark_loaded(id);
    let plan = load_plan(d);
    let mut i: usize = 0;
    while i < plan.clips.len()
        invariant
            characters.wf(),
            id@ == d.id@,
            plan.describes(d),
            forall|c: &ClipRequest| build_graph.requires((c,)),
            i <= plan.clips@.len(),
            characters@.dom() == before.dom(),
            characters@.contains_key(d.id@),
            forall|k: Seq<char>| #[trigger] before.contains_key(k) && k != d.id@ ==> characters@[k] == before[k],
            characters@[d.id@].data == before[d.id@].data,
            characters@[d.id@].loaded,
            forall|n: Seq<char>|
                #[trigger] characters@[d.id@].animations.contains_key(n) == (
                old_animations.contains_key(n) || exists|j: int|
                    0 <= j < i && plan.clips@[j].name@ == n),
            forall|n: Seq<char>|
                #[trigger] old_animations.contains_key(n) && (forall|j: int|
                    0 <= j < i ==> plan.clips@[j].name@ != n) ==> characters@[d.id@].animations[n]
                    == old_animations[n],
            forall|j: int|
                0 <= j < i ==> build_graph.ensures(
                    (&plan.clips@[j],),
                    #[trigger] characters@[d.id@].animations[plan.clips@[j].name@],
                ),
        decreases plan.clips@.len() - i,
    {
        let clip = &plan.clips[i];
        let (graph, node) = build_graph(clip);
        let ghost prev = characters@;
        let _ = characters.insert_animation(id, clip.name.clone(), graph, node);
        proof {
            let name = plan.clips@[i as int].name@;
            let cur = characters@[d.id@].animations;
            assert(cur == prev[d.id@].animations.insert(name, (graph, node)));
            assert(characters@.dom() =~= before.dom());
            assert forall|n: Seq<char>|
                #[trigger] cur.contains_key(n) == (old_animations.contains_key(n) || exists|j: int|
                    0 <= j < i + 1 && plan.clips@[j].name@ == n) by {
                if n == name {
                    assert(plan.clips@[i as int].name@ == n);
                }
            }
            assert forall|j: int| 0 <= j < i + 1 implies build_graph.ensures(
                (&plan.clips@[j],),
                #[trigger] cur[plan.clips@[j].name@],
            ) by {
                if j < i {
                    assert(plan.clips@[j].name@ != name);
                }
            }
        }
        i += 1;
    }
    proof {
        let after = characters@;
        assert forall|n: Seq<char>|
            #[trigger] after[d.id@].animations.contains_key(n) == (old_animations.contains_key(n)
                || d.animation_paths@.contains_key(n)) by {
            if d.animation_paths@.contains_key(n) {
                let j = choose|j: int| 0 <= j < plan.clips@.len() && plan.clips@[j].name@ == n;
                assert(after[d.id@].animations.contains_key(plan.clips@[j].name@));
            }
        }
        assert forall|n: Seq<char>|
            #[trigger] old_animations.contains_key(n) && !d.animation_paths@.contains_key(n)
                implies after[d.id@].animations[n] == old_animations[n] by {
            assert forall|j: int| 0 <= j < plan.clips@.len() implies plan.clips@[j].name@ != n by {
                assert(d.animation_paths@.contains_key(plan.clips@[j].name@));
            }
        }
    }
    Ok(Some(plan))
}

/// After a first delivery of a definition, its character's record is marked
/// as loaded and the registry holds the same ids as before, so that a second
/// delivery of the same definition issues no load and changes nothing.
pub proof fn lemma_redelivery_changes_nothing<D, G, F: Fn(&ClipRequest) -> (G, usize)>(
    before: Map<Seq<char>, CharacterView<D, G>>,
    after: Map<Seq<char>, CharacterView<D, G>>,
    data: &CharacterData,
    plan: &LoadPlan,
    build_graph: F,
)
    requires
        before.contains_key(data.id@),
        recorded_graphs(before, after, data, plan, build_graph),
    ensures
        after.contains_key(data.id@),
        after[data.id@].loaded,
        after.dom() == before.dom(),
{
}

/// Position `i` is the first of `playback` that holds a node able to play
/// animations.
pub open spec fn is_first_playback(playback: Seq<bool>, i: int) -> bool {
    &&& 0 <= i < playback.len()
    &&& playback[i]
    &&& forall|j: int| 0 <= j < i ==> !playback[j]
}

/// Some position of `playback` holds a node able to play animations.
pub open spec fn has_playback(playback: Seq<bool>) -> bool {
    exists|i: int| 0 <= i < playback.len() && playback[i]
}

/// How to start a character's idle animation: on the node at position `node`
/// of the traversal, attach `graph` and play its node `animation`, repeating
/// it indefinitely when `repeat` is set.
#[derive(Debug)]
pub struct IdleAnimation<'a, G> {
    pub node: usize,
    pub graph: &'a G,
    pub animation: usize,
    pub repeat: bool,
}

/// Position of the first `true` in `playback`.
fn first_playback(playback: &Vec<bool>) -> (r: Option<usize>)
    ensures
        match r {
            Some(i) => is_first_playback(playback@, i as int),
            None => !has_playback(playback@),
        },
{
    let mut i: usize = 0;
    while i < playback.len()
        invariant
            i <= playback@.len(),
            forall|j: int| 0 <= j < i ==> !playback@[j],
        decreases playback@.len() - i,
    {
        if playback[i] {
            return Some(i);
        }
        i += 1;
    }
    None
}

/// Reacts to the scene of a character having been instantiated. `data` is the
/// definition that the scene root refers to, `None` where it could not be
/// resolved; `playback[i]` tells whether the `i`-th node of the scene's
/// subtree can play animations. The subtree is listed in the order in which
/// the scene's hierarchy visits the descendants of the scene root: breadth
/// first, children in their stored order, the root itself left out. The idle
/// animation is started, repeating, on the first node that can play.
pub fn start_idle<'a, D, G>(
    characters: &'a Characters<D, G>,
    data: Option<&CharacterData>,
    playback: &Vec<bool>,
) -> (r: Result<IdleAnimation<'a, G>, PipelineError>)
    requires
        characters.wf(),
    ensures
        match data {
            None => r == Err::<IdleAnimation<'a, G>, PipelineError>(PipelineError::MissingAsset),
            Some(d) => if !characters@.contains_key(d.id@) {
                r == Err::<IdleAnimation<'a, G>, PipelineError>(
                    PipelineError::UnregisteredCharacter,
                )
            } else if !has_playback(playback@) {
                r == Err::<IdleAnimation<'a, G>, PipelineError>(
                    PipelineError::NoPlaybackNodeFound,
                )
            } else if !characters@[d.id@].animations.contains_key("idle"@) {
                r == Err::<IdleAnimation<'a, G>, PipelineError>(PipelineError::AnimationNotFound)
            } else {
                match r {
                    Ok(a) => {
                        &&& is_first_playback(playback@, a.node as int)
                        &&& (*a.graph, a.animation) == characters@[d.id@].animations["idle"@]
                        &&& a.repeat
                    },
                    Err(_) => false,
                }
            },
        },
{
    let d = match data {
        Some(d) => d,
        None => {
            return Err(PipelineError::MissingAsset);
        },
    };
    let c = match characters.get(d.id.as_str()) {
        Ok(c) => c,
        Err(e) => {
            return Err(e);
        },
    };
    let node = match first_playback(playback) {
        Some(i) => i,
        None => {
            return Err(PipelineError::NoPlaybackNodeFound);
        },
    };
    match c.animation("idle") {
        Some(a) => Ok(IdleAnimation { node, graph: &a.0, animation: a.1, repeat: true }),
        None => Err(PipelineError::AnimationNotFound),
    }
}

} // verus!
