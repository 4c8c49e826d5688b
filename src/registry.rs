use vstd::prelude::*;

use crate::error::PipelineError;
use crate::name_map::NameMap;

verus! {

/// What a character record holds: the handle of its definition, whether its
/// definition has been processed, and for each animation name the graph built
/// for it with the index of the graph's playback node.
pub ghost struct CharacterView<D, G> {
    pub data: D,
    pub loaded: bool,
    pub animations: Map<Seq<char>, (G, usize)>,
}

/// The record of one character. `D` is the handle that keeps the character's
/// definition alive; `G` is the handle of an animation graph.
pub struct Character<D, G> {
    data: D,
    loaded: bool,
    animations: NameMap<(G, usize)>,
}

impl<D, G> View for Character<D, G> {
    type V = CharacterView<D, G>;

    closed spec fn view(&self) -> CharacterView<D, G> {
        CharacterView { data: self.data, loaded: self.loaded, animations: self.animations@ }
    }
}

impl<D, G> Character<D, G> {
    pub closed spec fn wf(&self) -> bool {
        self.animations.wf()
    }

    /// The handle of the character's definition.
    pub fn data(&self) -> (r: &D)
        ensures
            *r == self@.data,
    {
        &self.data
    }

    /// Whether the character's definition has been processed.
    pub fn is_loaded(&self) -> (r: bool)
        ensures
            r == self@.loaded,
    {
        self.loaded
    }

    /// The graph and playback node index of the animation `name`.
    pub fn animation(&self, name: &str) -> (r: Option<&(G, usize)>)
        requires
            self.wf(),
        ensures
            match r {
                Some(a) => self@.animations.contains_key(name@) && *a == self@.animations[name@],
                None => !self@.animations.contains_key(name@),
            },
    {
        self.animations.get(name)
    }

    /// Names of the animations held, each once.
    pub fn animation_names(&self) -> (r: Vec<String>)
        requires
            self.wf(),
        ensures
            forall|i: int, j: int| 0 <= i < j < r@.len() ==> r@[i]@ != r@[j]@,
            forall|i: int| 0 <= i < r@.len() ==> #[trigger] self@.animations.contains_key(r@[i]@),
            forall|k: Seq<char>|
                #[trigger] self@.animations.contains_key(k) ==> exists|i: int|
                    0 <= i < r@.len() && r@[i]@ == k,
    {
        self.animations.keys()
    }
}

/// The registry of all characters, keyed by character id.
pub struct Characters<D, G> {
    records: NameMap<Character<D, G>>,
}

impl<D, G> View for Characters<D, G> {
    type V = Map<Seq<char>, CharacterView<D, G>>;

    closed spec fn view(&self) -> Map<Seq<char>, CharacterView<D, G>> {
        self.records@.map_values(|c: Character<D, G>| c@)
    }
}

impl<D, G> Characters<D, G> {
    pub closed spec fn wf(&self) -> bool {
        &&& self.records.wf()
        &&& forall|k: Seq<char>| #[trigger] self.records@.contains_key(k) ==> self.records@[k].wf()
    }

    /// An empty registry.
    pub fn new() -> (r: Self)
        ensures
            r.wf(),
            r@ == Map::<Seq<char>, CharacterView<D, G>>::empty(),
    {
        let r = Characters { records: NameMap::new() };
        assert(r@ =~= Map::<Seq<char>, CharacterView<D, G>>::empty());
        r
    }

    pub fn contains(&self, id: &str) -> (r: bool)
        requires
            self.wf(),
        ensures
            r == self@.contains_key(id@),
    {
        self.records.contains_key(id)
    }

    /// Creates an empty record for `id` that owns the definition handle
    /// `data`. An id that is already registered is refused: the registry is
    /// left as it was and the handle is given back.
    pub fn register(&mut self, id: String, data: D) -> (r: Result<(), D>)
        requires
            old(self).wf(),
        ensures
            final(self).wf(),
            old(self)@.contains_key(id@) ==> r == Err::<(), D>(data) && final(self)@ == old(self)@,
            !old(self)@.contains_key(id@) ==> r == Ok::<(), D>(()) && final(self)@ == old(self)@.insert(
                id@,
                CharacterView { data, loaded: false, animations: Map::empty() },
            ),
    {
        if self.records.contains_key(id.as_str()) {
            return Err(data);
        }
        let c = Character { data, loaded: false, animations: NameMap::new() };
        let ghost before = *self;
        self.records.insert(id, c);
        proof {
            assert(self@ =~= before@.insert(id@, c@));
        }
        Ok(())
    }

    /// The record of `id`.
    pub fn get(&self, id: &str) -> (r: Result<&Character<D, G>, PipelineError>)
        requires
            self.wf(),
        ensures
            match r {
                Ok(c) => self@.contains_key(id@) && c@ == self@[id@] && c.wf(),
                Err(e) => !self@.contains_key(id@) && e == PipelineError::UnregisteredCharacter,
            },
    {
        match self.records.get(id) {
            Some(c) => Ok(c),
            None => Err(PipelineError::UnregisteredCharacter),
        }
    }

    /// Records that the definition of `id` has been processed. Returns whether
    /// it had not been before.
    pub fn mark_loaded(&mut self, id: &str) -> (r: Result<bool, PipelineError>)
        requires
            old(self).wf(),
        ensures
            final(self).wf(),
            !old(self)@.contains_key(id@) ==> r == Err::<bool, PipelineError>(
                PipelineError::UnregisteredCharacter,
            ) && final(self)@ == old(self)@,
            old(self)@.contains_key(id@) ==> r == Ok::<bool, PipelineError>(!old(self)@[id@].loaded)
                && final(self)@ == old(self)@.insert(
                id@,
                CharacterView { loaded: true, ..old(self)@[id@] },
            ),
    {
        let ghost before = *self;
        match self.records.remove(id) {
            Some((key, mut c)) => {
                let fresh = !c.loaded;
                c.loaded = true;
                self.records.insert(key, c);
                proof {
                    assert(self@ =~= before@.insert(id@, CharacterView { loaded: true, ..before@[id@] }));
                }
                Ok(fresh)
            },
            None => {
                proof {
                    assert(self@ =~= before@);
                }
                Err(PipelineError::UnregisteredCharacter)
            },
        }
    }

    /// Adds to the record of `id` the graph `graph`, whose playback node is
    /// `node`, under the animation name `name`, replacing any graph of that
    /// name.
    pub fn insert_animation(&mut self, id: &str, name: String, graph: G, node: usize) -> (r: Result<
        (),
        PipelineError,
    >)
        requires
            old(self).wf(),
        ensures
            final(self).wf(),
            !old(self)@.contains_key(id@) ==> r == Err::<(), PipelineError>(
                PipelineError::UnregisteredCharacter,
            ) && final(self)@ == old(self)@,
            old(self)@.contains_key(id@) ==> r == Ok::<(), PipelineError>(()) && final(self)@
                == old(self)@.insert(
                id@,
                CharacterView {
                    animations: old(self)@[id@].animations.insert(name@, (graph, node)),
                    ..old(self)@[id@]
                },
            ),
    {
        let ghost before = *self;
        match self.records.remove(id) {
            Some((key, mut c)) => {
                c.animations.insert(name, (graph, node));
                self.records.insert(key, c);
                proof {
                    assert(self@ =~= before@.insert(
                        id@,
                        CharacterView {
                            animations: before@[id@].animations.insert(name@, (graph, node)),
                            ..before@[id@]
                        },
                    ));
                }
                Ok(())
            },
            None => {
                proof {
                    assert(self@ =~= before@);
                }
                Err(PipelineError::UnregisteredCharacter)
            },
        }
    }
}

} // verus!
