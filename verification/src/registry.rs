//! The in-memory store of loaded voices, looked up by voice id.

use vstd::prelude::*;
use crate::errors::VoiceLoadError;
use crate::text::{owned, str_eq};
use crate::voice::Voice;

verus! {

/// Loaded voices, at most one per voice id.
pub struct VoiceRegistry {
    voices: Vec<Voice>,
}

impl VoiceRegistry {
    /// No two voices share an id.
    #[verifier::type_invariant]
    closed spec fn ids_unique(self) -> bool {
        forall|i: int, j: int|
            0 <= i < j < self.voices@.len() ==> self.voices@[i].voice_id@ != self.voices@[j].voice_id@
    }

    closed spec fn has(self, id: Seq<char>) -> bool {
        exists|i: int| 0 <= i < self.voices@.len() && self.voices@[i].voice_id@ == id
    }

    closed spec fn index_of(self, id: Seq<char>) -> int {
        choose|i: int| 0 <= i < self.voices@.len() && self.voices@[i].voice_id@ == id
    }

    proof fn lemma_index_of(self, i: int)
        requires
            self.ids_unique(),
            0 <= i < self.voices@.len(),
        ensures
            self.has(self.voices@[i].voice_id@),
            self.index_of(self.voices@[i].voice_id@) == i,
    {
        let id = self.voices@[i].voice_id@;
        assert(self.has(id));
        let k = self.index_of(id);
        if k < i {
            assert(self.voices@[k].voice_id@ != self.voices@[i].voice_id@);
        } else if k > i {
            assert(self.voices@[i].voice_id@ != self.voices@[k].voice_id@);
        }
    }

    /// The position of the voice with id `id`, if any.
    fn position(&self, id: &str) -> (r: Option<usize>)
        ensures
            match r {
                Some(i) => i < self.voices@.len() && self.voices@[i as int].voice_id@ == id@,
                None => forall|k: int|
                    0 <= k < self.voices@.len() ==> #[trigger] self.voices@[k].voice_id@ != id@,
            },
    {
        let n = self.voices.len();
        for k in 0..n
            invariant
                n == self.voices@.len(),
                forall|j: int| 0 <= j < k ==> #[trigger] self.voices@[j].voice_id@ != id@,
        {
            if str_eq(self.voices[k].voice_id.as_str(), id) {
                return Some(k);
            }
        }
        None
    }
}

impl View for VoiceRegistry {
    type V = Map<Seq<char>, Voice>;

    /// Voice id to the voice registered under it.
    closed spec fn view(&self) -> Map<Seq<char>, Voice> {
        Map::new(|id: Seq<char>| self.has(id), |id: Seq<char>| self.voices@[self.index_of(id)])
    }
}

impl VoiceRegistry {
    /// An empty registry.
    pub fn new() -> (r: Self)
        ensures
            r@ == Map::<Seq<char>, Voice>::empty(),
    {
        let r = VoiceRegistry { voices: Vec::new() };
        assert(r@ =~= Map::<Seq<char>, Voice>::empty());
        r
    }

    /// Registers `voice` under its id, replacing a voice registered under
    /// the same id before.
    pub fn register(&mut self, voice: Voice)
        ensures
            final(self)@ == old(self)@.insert(voice.voice_id@, voice),
    {
        proof {
            use_type_invariant(&*self);
        }
        let ghost old_self = *self;
        let ghost v = voice;
        let found = self.position(voice.voice_id.as_str());
        let mut voices: Vec<Voice> = Vec::new();
        std::mem::swap(&mut voices, &mut self.voices);
        assert(voices@ == old_self.voices@);
        match found {
            Some(i) => {
                voices.set(i, voice);
            },
            None => {
                voices.push(voice);
            },
        }
        assert forall|a: int, b: int|
            0 <= a < b < voices@.len() implies voices@[a].voice_id@ != voices@[b].voice_id@ by {
            if b == voices@.len() - 1 && found is None {
                assert(voices@[a] == old_self.voices@[a]);
            }
        }
        self.voices = voices;
        proof {
            let new_self = *self;
            let target = old_self@.insert(v.voice_id@, v);
            assert forall|id: Seq<char>|
                #[trigger] new_self@.contains_key(id) == target.contains_key(id) && (
                new_self@.contains_key(id) ==> new_self@[id] == target[id]) by {
                if id == v.voice_id@ {
                    let i: int = match found {
                        Some(i) => i as int,
                        None => old_self.voices@.len() as int,
                    };
                    new_self.lemma_index_of(i);
                } else {
                    if old_self.has(id) {
                        let k = old_self.index_of(id);
                        old_self.lemma_index_of(k);
                        new_self.lemma_index_of(k);
                    }
                    if new_self.has(id) {
                        let k = new_self.index_of(id);
                        assert(old_self.voices@[k].voice_id@ == id);
                    }
                }
            }
            assert(new_self@ =~= target);
        }
    }

    /// The voice registered under `voice_id`, or `NotFound` naming it.
    pub fn lookup(&self, voice_id: &str) -> (r: Result<&Voice, VoiceLoadError>)
        ensures
            match r {
                Ok(v) => self@.contains_key(voice_id@) && *v == self@[voice_id@],
                Err(e) => !self@.contains_key(voice_id@) && (e matches VoiceLoadError::NotFound(
                    id,
                ) && id@ == voice_id@),
            },
    {
        proof {
            use_type_invariant(self);
        }
        match self.position(voice_id) {
            Some(i) => {
                proof {
                    self.lemma_index_of(i as int);
                }
                Ok(&self.voices[i])
            },
            None => {
                assert(!self.has(voice_id@)) by {
                    if self.has(voice_id@) {
                        let k = self.index_of(voice_id@);
                        assert(self.voices@[k].voice_id@ == voice_id@);
                    }
                }
                Err(VoiceLoadError::NotFound(owned(voice_id)))
            },
        }
    }

    /// Every registered voice, each once, in no particular order.
    pub fn list(&self) -> (r: &[Voice])
        ensures
            forall|i: int|
                0 <= i < r@.len() ==> self@.contains_key(#[trigger] r@[i].voice_id@) && self@[r@[i].voice_id@]
                    == r@[i],
            forall|id: Seq<char>|
                #[trigger] self@.contains_key(id) ==> exists|i: int| 0 <= i < r@.len() && r@[i].voice_id@ == id,
            forall|i: int, j: int| 0 <= i < j < r@.len() ==> r@[i].voice_id@ != r@[j].voice_id@,
    {
        proof {
            use_type_invariant(self);
            assert forall|i: int| 0 <= i < self.voices@.len() implies self@.contains_key(
                #[trigger] self.voices@[i].voice_id@,
            ) && self@[self.voices@[i].voice_id@] == self.voices@[i] by {
                self.lemma_index_of(i);
            }
            assert forall|id: Seq<char>| #[trigger] self@.contains_key(id) implies exists|i: int|
                0 <= i < self.voices@.len() && self.voices@[i].voice_id@ == id by {
                let k = self.index_of(id);
                assert(self.voices@[k].voice_id@ == id);
            }
        }
        self.voices.as_slice()
    }
}

/// Reading back a registration: after registering `voice` into a registry
/// whose contents were `before`, its id finds that voice, and every other
/// id finds what it found before.
pub proof fn lemma_register_then_lookup(before: Map<Seq<char>, Voice>, voice: Voice, other: Seq<char>)
    requires
        other != voice.voice_id@,
    ensures
        before.insert(voice.voice_id@, voice).contains_key(voice.voice_id@),
        before.insert(voice.voice_id@, voice)[voice.voice_id@] == voice,
        before.insert(voice.voice_id@, voice).contains_key(other) == before.contains_key(other),
        before.contains_key(other) ==> before.insert(voice.voice_id@, voice)[other] == before[other],
{
}

/// Registering the same voice twice leaves the registry as registering
/// it once; a later registration under an id replaces an earlier one.
pub proof fn lemma_register_overrides(before: Map<Seq<char>, Voice>, first: Voice, second: Voice)
    requires
        first.voice_id@ == second.voice_id@,
    ensures
        before.insert(first.voice_id@, first).insert(second.voice_id@, second) == before.insert(
            second.voice_id@,
            second,
        ),
        before.insert(first.voice_id@, first).insert(first.voice_id@, first) == before.insert(
            first.voice_id@,
            first,
        ),
{
    assert(before.insert(first.voice_id@, first).insert(second.voice_id@, second) =~= before.insert(
        second.voice_id@,
        second,
    ));
    assert(before.insert(first.voice_id@, first).insert(first.voice_id@, first) =~= before.insert(
        first.voice_id@,
        first,
    ));
}

/// The contents of an empty registry after registering `voices` in order.
pub open spec fn registered(voices: Seq<Voice>) -> Map<Seq<char>, Voice>
    decreases voices.len(),
{
    if voices.len() == 0 {
        Map::empty()
    } else {
        registered(voices.drop_last()).insert(voices.last().voice_id@, voices.last())
    }
}

/// After a sequence of registrations the registry holds exactly one voice
/// per id registered, the last one registered under that id (so `list`
/// gives those voices, each once).
pub proof fn lemma_registrations(voices: Seq<Voice>, id: Seq<char>)
    ensures
        registered(voices).contains_key(id) <==> exists|i: int|
            0 <= i < voices.len() && (#[trigger] voices[i]).voice_id@ == id,
        registered(voices).contains_key(id) ==> exists|i: int|
            0 <= i < voices.len() && (#[trigger] voices[i]).voice_id@ == id && registered(voices)[id] == voices[i]
                && forall|j: int| i < j < voices.len() ==> (#[trigger] voices[j]).voice_id@ != id,
    decreases voices.len(),
{
    if voices.len() > 0 {
        let prev = voices.drop_last();
        let n = voices.len() - 1;
        lemma_registrations(prev, id);
        if voices[n].voice_id@ == id {
            assert(voices[n] == voices.last());
        } else {
            if exists|i: int| 0 <= i < voices.len() && (#[trigger] voices[i]).voice_id@ == id {
                let i = choose|i: int| 0 <= i < voices.len() && (#[trigger] voices[i]).voice_id@ == id;
                assert(i < n);
                assert(prev[i] == voices[i]);
            }
            if registered(prev).contains_key(id) {
                let i = choose|i: int|
                    0 <= i < prev.len() && (#[trigger] prev[i]).voice_id@ == id && registered(prev)[id] == prev[i]
                        && forall|j: int| i < j < prev.len() ==> (#[trigger] prev[j]).voice_id@ != id;
                assert(voices[i] == prev[i]);
                assert forall|j: int| i < j < voices.len() implies (#[trigger] voices[j]).voice_id@ != id by {
                    if j < n {
                        assert(voices[j] == prev[j]);
                    }
                }
            }
        }
    }
}

} // verus!

