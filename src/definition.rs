use vstd::prelude::*;

use crate::name_map::NameMap;

verus! {

/// Locator of the scene that a model file holds: the model path followed by
/// `#Scene0`.
pub open spec fn scene_locator(model_path: Seq<char>) -> Seq<char> {
    model_path + "#Scene0"@
}

/// Locator of the clip that an animation file holds: the animation path
/// followed by `#Animation0`.
pub open spec fn clip_locator(animation_path: Seq<char>) -> Seq<char> {
    animation_path + "#Animation0"@
}

/// A character definition, as read from its definition file: the character's
/// id, the path of its model and the base path of each named animation.
pub struct CharacterData {
    pub id: String,
    pub model_path: String,
    pub animation_paths: NameMap<String>,
}

impl CharacterData {
    pub open spec fn wf(&self) -> bool {
        self.animation_paths.wf()
    }

    /// A definition without animations.
    pub fn new(id: String, model_path: String) -> (r: Self)
        ensures
            r.wf(),
            r.id@ == id@,
            r.model_path@ == model_path@,
            r.animation_paths@ == Map::<Seq<char>, String>::empty(),
    {
        CharacterData { id, model_path, animation_paths: NameMap::new() }
    }

    /// Sets the path of the animation `name`, replacing any earlier one.
    pub fn set_animation_path(&mut self, name: String, path: String)
        requires
            old(self).wf(),
        ensures
            final(self).wf(),
            final(self).id == old(self).id,
            final(self).model_path == old(self).model_path,
            final(self).animation_paths@ == old(self).animation_paths@.insert(name@, path),
    {
        self.animation_paths.insert(name, path);
    }

    /// Locator of the character's model scene.
    pub fn model_scene_path(&self) -> (r: String)
        ensures
            r@ == scene_locator(self.model_path@),
    {
        let mut r = self.model_path.clone();
        r.append("#Scene0");
        r
    }

    /// Names of the character's animations, each once.
    pub fn animations(&self) -> (r: Vec<String>)
        requires
            self.wf(),
        ensures
            forall|i: int, j: int| 0 <= i < j < r@.len() ==> r@[i]@ != r@[j]@,
            forall|i: int| 0 <= i < r@.len() ==> #[trigger] self.animation_paths@.contains_key(r@[i]@),
            forall|k: Seq<char>|
                #[trigger] self.animation_paths@.contains_key(k) ==> exists|i: int|
                    0 <= i < r@.len() && r@[i]@ == k,
    {
        self.animation_paths.keys()
    }

    /// Locator of the clip of the animation `name`.
    pub fn animation_path(&self, name: &str) -> (r: String)
        requires
            self.wf(),
            self.animation_paths@.contains_key(name@),
        ensures
            r@ == clip_locator(self.animation_paths@[name@]@),
    {
        let mut r = self.animation_paths.get(name).unwrap().clone();
        r.append("#Animation0");
        r
    }
}

} // verus!
