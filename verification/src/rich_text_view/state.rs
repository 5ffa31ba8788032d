//! The application-owned states of the images of a rich-text view, keyed by
//! attachment, with the diagnostics context of each image load.
use vstd::prelude::*;
use crate::diagnostics::schema::{DiagnosticFlow, ImageSource};
use crate::rich_text_view::keyed::{
    find_key, keys_unique, lemma_map_of_domain, lemma_map_of_index, lemma_map_of_prepend, map_of, upsert,
};

verus! {

/// The state of one attachment image; `T` is the decoded image.
pub enum RichImageRenderState<T> {
    Loading,
    Ready(T),
    Failed,
}

/// Where a diagnostics event about one image load belongs.
#[derive(Clone, Copy, Debug, PartialEq, Eq, Structural)]
pub struct RichImageDiagnosticContext {
    pub flow: DiagnosticFlow,
    pub load_token: u64,
    pub candidate_ordinal: usize,
    pub surface_ordinal: usize,
    pub source: ImageSource,
}

/// The image states of one rich-text view, their per-image diagnostics
/// contexts, and the flow and load token that new images are tagged with.
pub struct RichImageRenderStates<T> {
    states: Vec<(String, RichImageRenderState<T>)>,
    contexts: Vec<(String, RichImageDiagnosticContext)>,
    default_context: Option<(DiagnosticFlow, u64)>,
}

impl<T> View for RichImageRenderStates<T> {
    type V = Map<Seq<char>, RichImageRenderState<T>>;

    closed spec fn view(&self) -> Map<Seq<char>, RichImageRenderState<T>> {
        map_of(self.states@)
    }
}

/// Whether a merge replaces the current state `current` with the previous
/// state `previous`: only a loading slot takes a previously ready image.
pub open spec fn takes_previous<T>(current: RichImageRenderState<T>, previous: Option<RichImageRenderState<T>>) -> bool {
    current is Loading && previous is Some && previous->0 is Ready
}

impl<T: Clone> RichImageRenderStates<T> {
    /// The per-image diagnostics contexts.
    pub closed spec fn context_map(&self) -> Map<Seq<char>, RichImageDiagnosticContext> {
        map_of(self.contexts@)
    }

    /// The flow and load token that new images are tagged with.
    pub closed spec fn default_context(&self) -> Option<(DiagnosticFlow, u64)> {
        self.default_context
    }

    /// Keys are distinct in both tables.
    pub closed spec fn wf(&self) -> bool {
        keys_unique(self.states@) && keys_unique(self.contexts@)
    }

    /// No images and no context.
    pub fn new() -> (r: Self)
        ensures
            r.wf(),
            r@ == Map::<Seq<char>, RichImageRenderState<T>>::empty(),
            r.context_map() == Map::<Seq<char>, RichImageDiagnosticContext>::empty(),
            r.default_context() is None,
    {
        RichImageRenderStates { states: Vec::new(), contexts: Vec::new(), default_context: None }
    }

    /// No images yet; new images are tagged with `flow` and `load_token`.
    pub fn with_context(flow: DiagnosticFlow, load_token: u64) -> (r: Self)
        ensures
            r.wf(),
            r@ == Map::<Seq<char>, RichImageRenderState<T>>::empty(),
            r.context_map() == Map::<Seq<char>, RichImageDiagnosticContext>::empty(),
            r.default_context() == Some((flow, load_token)),
    {
        RichImageRenderStates {
            states: Vec::new(),
            contexts: Vec::new(),
            default_context: Some((flow, load_token)),
        }
    }

    /// Starts a new load: drops every image and context and tags new images
    /// with `flow` and `load_token`.
    pub fn set_context(&mut self, flow: DiagnosticFlow, load_token: u64)
        ensures
            final(self).wf(),
            final(self)@ == Map::<Seq<char>, RichImageRenderState<T>>::empty(),
            final(self).context_map() == Map::<Seq<char>, RichImageDiagnosticContext>::empty(),
            final(self).default_context() == Some((flow, load_token)),
    {
        self.states = Vec::new();
        self.contexts = Vec::new();
        self.default_context = Some((flow, load_token));
    }

    /// Keeps the images but drops their contexts; new images are tagged with
    /// `flow` and `load_token`.
    pub fn rebind_context(&mut self, flow: DiagnosticFlow, load_token: u64)
        requires
            old(self).wf(),
        ensures
            final(self).wf(),
            final(self)@ == old(self)@,
            final(self).context_map() == Map::<Seq<char>, RichImageDiagnosticContext>::empty(),
            final(self).default_context() == Some((flow, load_token)),
    {
        self.contexts = Vec::new();
        self.default_context = Some((flow, load_token));
    }

    /// Sets the state of one image.
    pub fn insert(&mut self, key: String, state: RichImageRenderState<T>)
        requires
            old(self).wf(),
        ensures
            final(self).wf(),
            final(self)@ == old(self)@.insert(key@, state),
            final(self).context_map() == old(self).context_map(),
            final(self).default_context() == old(self).default_context(),
    {
        upsert(&mut self.states, key, state);
    }

    /// Sets the state of one image and, when a load context is set, records
    /// where the image's diagnostics belong.
    pub fn insert_with_context(
        &mut self,
        key: String,
        state: RichImageRenderState<T>,
        candidate_ordinal: usize,
        surface_ordinal: usize,
        source: ImageSource,
    )
        requires
            old(self).wf(),
        ensures
            final(self).wf(),
            final(self)@ == old(self)@.insert(key@, state),
            final(self).context_map() == match old(self).default_context() {
                Some((flow, load_token)) => old(self).context_map().insert(
                    key@,
                    RichImageDiagnosticContext {
                        flow,
                        load_token,
                        candidate_ordinal,
                        surface_ordinal,
                        source,
                    },
                ),
                None => old(self).context_map(),
            },
            final(self).default_context() == old(self).default_context(),
    {
        if let Some((flow, load_token)) = self.default_context {
            let k = key.clone();
            assert(k@ == key@);
            upsert(
                &mut self.contexts,
                k,
                RichImageDiagnosticContext {
                    flow,
                    load_token,
                    candidate_ordinal,
                    surface_ordinal,
                    source,
                },
            );
        }
        upsert(&mut self.states, key, state);
    }

    /// Whether, for the key `k` of the current catalog, a merge with
    /// `previous` takes the previous image: the current slot is loading and
    /// the previous state was ready.
    pub open spec fn merge_takes(&self, previous: &Self, k: Seq<char>) -> bool {
        &&& self@[k] is Loading
        &&& previous@.contains_key(k)
        &&& previous@[k] is Ready
    }

    /// Carries previously ready images into the slots that are loading.
    ///
    /// A ready or failed result already present always wins, and the current
    /// keys remain the whole catalog, so an attachment that is no longer
    /// listed cannot come back.
    pub fn merge_preserving_ready(&mut self, previous: &Self)
        requires
            old(self).wf(),
            previous.wf(),
        ensures
            final(self).wf(),
            final(self)@.dom() == old(self)@.dom(),
            forall|k: Seq<char>| #[trigger]
                old(self)@.contains_key(k) ==> if old(self).merge_takes(previous, k) {
                    &&& final(self)@[k] is Ready
                    &&& cloned(previous@[k]->Ready_0, final(self)@[k]->Ready_0)
                } else {
                    final(self)@[k] == old(self)@[k]
                },
            final(self).context_map() == old(self).context_map(),
            final(self).default_context() == old(self).default_context(),
    {
        let ghost start = self@;
        let ghost start_self = *self;
        let mut i: usize = 0;
        while i < previous.states.len()
            invariant
                self.wf(),
                previous.wf(),
                i <= previous.states@.len(),
                self@.dom() == start.dom(),
                start == start_self@,
                self.context_map() == start_self.context_map(),
                self.default_context() == start_self.default_context(),
                forall|k: Seq<char>| #[trigger]
                    start.contains_key(k) ==> if start_self.merge_takes(previous, k) && exists|j: int|
                        0 <= j < i && (#[trigger] previous.states@[j]).0@ == k {
                        &&& self@[k] is Ready
                        &&& cloned(previous@[k]->Ready_0, self@[k]->Ready_0)
                    } else {
                        self@[k] == start[k]
                    },
            decreases previous.states.len() - i,
        {
            let key = &previous.states[i].0;
            let ghost before = self@;
            proof {
                lemma_map_of_index(previous.states@, i as int);
                assert forall|j: int| 0 <= j < i implies (#[trigger] previous.states@[j]).0@ != key@ by {}
            }
            let mut changed = false;
            if let RichImageRenderState::Ready(image) = &previous.states[i].1 {
                if let Some(at) = find_key(&self.states, key.as_str()) {
                    proof {
                        lemma_map_of_index(self.states@, at as int);
                    }
                    if let RichImageRenderState::Loading = &self.states[at].1 {
                        let copy = image.clone();
                        let k = key.clone();
                        self.insert(k, RichImageRenderState::Ready(copy));
                        changed = true;
                    }
                }
            }
            proof {
                if !changed && before.contains_key(key@) {
                    lemma_map_of_domain(self.states@, key@);
                }
                assert forall|q: Seq<char>| #[trigger]
                    start.contains_key(q) implies if start_self.merge_takes(previous, q) && exists|j: int|
                        0 <= j < i + 1 && (#[trigger] previous.states@[j]).0@ == q {
                        &&& self@[q] is Ready
                        &&& cloned(previous@[q]->Ready_0, self@[q]->Ready_0)
                    } else {
                        self@[q] == start[q]
                    } by {
                    if q == key@ {
                        assert(previous.states@[i as int].0@ == q);
                        assert(before[q] == start[q]);
                    } else {
                        if exists|j: int| 0 <= j < i + 1 && (#[trigger] previous.states@[j]).0@ == q {
                            let j = choose|j: int| 0 <= j < i + 1 && (#[trigger] previous.states@[j]).0@ == q;
                            assert(j < i);
                        }
                    }
                }
            }
            i += 1;
        }
        proof {
            assert forall|k: Seq<char>| #[trigger]
                start.contains_key(k) && start_self.merge_takes(previous, k) implies exists|j: int|
                    0 <= j < previous.states@.len() && (#[trigger] previous.states@[j]).0@ == k by {
                lemma_map_of_domain(previous.states@, k);
            }
        }
    }

    /// The state of one image, if it is in the catalog.
    pub fn get(&self, key: &str) -> (r: Option<&RichImageRenderState<T>>)
        requires
            self.wf(),
        ensures
            match r {
                Some(s) => self@.contains_key(key@) && *s == self@[key@],
                None => !self@.contains_key(key@),
            },
    {
        match find_key(&self.states, key) {
            Some(i) => {
                proof {
                    lemma_map_of_index(self.states@, i as int);
                }
                Some(&self.states[i].1)
            },
            None => {
                proof {
                    if self@.contains_key(key@) {
                        lemma_map_of_domain(self.states@, key@);
                    }
                }
                None
            },
        }
    }

    /// Where the diagnostics of one image belong: its recorded context, else
    /// the load context with the given fallback ordinals and source, else
    /// nowhere.
    pub fn context_for(
        &self,
        key: &str,
        fallback_ordinal: usize,
        fallback_surface_ordinal: usize,
        fallback_source: ImageSource,
    ) -> (r: Option<RichImageDiagnosticContext>)
        requires
            self.wf(),
        ensures
            r == if self.context_map().contains_key(key@) {
                Some(self.context_map()[key@])
            } else {
                match self.default_context() {
                    Some((flow, load_token)) => Some(
                        RichImageDiagnosticContext {
                            flow,
                            load_token,
                            candidate_ordinal: fallback_ordinal,
                            surface_ordinal: fallback_surface_ordinal,
                            source: fallback_source,
                        },
                    ),
                    None => None,
                }
            },
    {
        match find_key(&self.contexts, key) {
            Some(i) => {
                proof {
                    lemma_map_of_index(self.contexts@, i as int);
                }
                Some(self.contexts[i].1)
            },
            None => {
                proof {
                    if self.context_map().contains_key(key@) {
                        lemma_map_of_domain(self.contexts@, key@);
                    }
                }
                match self.default_context {
                    Some((flow, load_token)) => Some(
                        RichImageDiagnosticContext {
                            flow,
                            load_token,
                            candidate_ordinal: fallback_ordinal,
                            surface_ordinal: fallback_surface_ordinal,
                            source: fallback_source,
                        },
                    ),
                    None => None,
                }
            },
        }
    }

    /// Drops every image and context; the load context stays.
    pub fn clear(&mut self)
        ensures
            final(self).wf(),
            final(self)@ == Map::<Seq<char>, RichImageRenderState<T>>::empty(),
            final(self).context_map() == Map::<Seq<char>, RichImageDiagnosticContext>::empty(),
            final(self).default_context() == old(self).default_context(),
    {
        self.states = Vec::new();
        self.contexts = Vec::new();
    }

    /// The states of the given entries, a later entry of a key replacing an
    /// earlier one.
    pub fn from_entries(entries: Vec<(String, RichImageRenderState<T>)>) -> (r: Self)
        ensures
            r.wf(),
            r@ == map_of(entries@),
            r.context_map() == Map::<Seq<char>, RichImageDiagnosticContext>::empty(),
            r.default_context() is None,
    {
        let mut result = Self::new();
        let mut rest = entries;
        let ghost all = rest@;
        // Entries are taken from the back, so the first one seen for a key
        // is the one that the map keeps.
        while rest.len() > 0
            invariant
                result.wf(),
                rest@.len() <= all.len(),
                rest@ == all.take(rest@.len() as int),
                result@ == map_of(all.skip(rest@.len() as int)),
                result.context_map() == Map::<Seq<char>, RichImageDiagnosticContext>::empty(),
                result.default_context() is None,
            decreases rest.len(),
        {
            let ghost n = rest@.len();
            let e = rest.pop().unwrap();
            assert(e == all[n - 1]);
            assert(all.skip(n - 1) =~= seq![e] + all.skip(n as int));
            proof {
                lemma_map_of_prepend(e, all.skip(n as int));
            }
            assert(rest@ =~= all.take(n - 1));
            if result.get(e.0.as_str()).is_none() {
                result.insert(e.0, e.1);
            }
        }
        assert(all.skip(0) =~= all);
        result
    }
}

} // verus!
