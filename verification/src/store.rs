//! The published-snapshot store: one current snapshot, read whole and
//! replaced whole.
//!
//! A read hands back the current snapshot and nothing else; a successful
//! reload replaces it in one step, and a failed reload changes nothing.
//! The generation counter distinguishes snapshot instances: every swap
//! advances it, even when the new snapshot's content equals the old one's.

use vstd::prelude::*;

use crate::state::{page_ok, state_equiv, state_matches, AppState, BuildError, PageLoad};

verus! {

/// Holds the currently published snapshot.
pub struct StateStore {
    /// The snapshot that all reads observe.
    pub current: AppState,
    /// How many swaps have been published.
    pub generation: u64,
}

impl StateStore {
    /// Opens the store over its first snapshot.  There is no fallback
    /// before this point: a process must not serve without one.
    pub fn new(initial: AppState) -> (s: Self)
        ensures
            s.current == initial,
            s.generation == 0,
    {
        StateStore { current: initial, generation: 0 }
    }

    /// The current snapshot, whole: every field a reader sees comes from
    /// the one snapshot published last, never from a mix of two.
    pub fn read(&self) -> (s: &AppState)
        ensures
            s == &self.current,
    {
        &self.current
    }

    /// Publishes a snapshot, replacing the old one in one step.
    pub fn swap(&mut self, next: AppState)
        requires
            old(self).generation < u64::MAX,
        ensures
            final(self).current == next,
            final(self).generation == old(self).generation + 1,
    {
        self.current = next;
        self.generation = self.generation + 1;
    }

    /// Applies the outcome of a rebuild: a successful build is published
    /// whole, and a failed build leaves the store exactly as it was — the
    /// previously published snapshot keeps serving.
    pub fn apply_reload(&mut self, built: Result<AppState, BuildError>) -> (r: Result<
        (),
        BuildError,
    >)
        requires
            old(self).generation < u64::MAX,
        ensures
            match built {
                Ok(next) => final(self).current == next && final(self).generation == old(
                    self,
                ).generation + 1 && r is Ok,
                Err(e) => *final(self) == *old(self) && r == Result::<(), BuildError>::Err(e),
            },
    {
        match built {
            Ok(next) => {
                self.swap(next);
                Ok(())
            },
            Err(e) => Err(e),
        }
    }
}

/// Atomicity of publication: however a reload ends, the store afterwards
/// holds either the old snapshot unchanged or the freshly built one whole —
/// no state mixes fields of the two.
pub proof fn lemma_reload_all_or_nothing(
    pre: StateStore,
    post: StateStore,
    built: Result<AppState, BuildError>,
)
    requires
        match built {
            Ok(next) => post.current == next && post.generation == pre.generation + 1,
            Err(_) => post == pre,
        },
    ensures
        post.current == pre.current || (built matches Ok(next) && post.current == next),
{
}

/// All-or-nothing build: when any page's artifact failed to load, the build
/// yields an error, and applying its outcome leaves the store — the
/// previously published snapshot included — exactly as it was.
pub proof fn lemma_failed_build_changes_nothing(
    pre: StateStore,
    post: StateStore,
    pages: Seq<PageLoad>,
    i: int,
    built: Result<AppState, BuildError>,
)
    requires
        built is Ok <==> (forall|k: int| 0 <= k < pages.len() ==> page_ok(pages, k)),
        0 <= i < pages.len(),
        !(pages[i].artifacts is Ok),
        match built {
            Ok(next) => post.current == next && post.generation == pre.generation + 1,
            Err(_) => post == pre,
        },
    ensures
        built is Err,
        post == pre,
{
    assert(!page_ok(pages, i));
}

/// Idempotent reload: two reloads whose builds saw the same, unchanged
/// input publish a fresh snapshot instance each time — the generation
/// moves — while the served content stays identical.
pub proof fn lemma_reload_idempotent(
    st0: StateStore,
    st1: StateStore,
    st2: StateStore,
    a: AppState,
    b: AppState,
    pages: Seq<PageLoad>,
    top: String,
    profile: String,
    pgp: String,
)
    requires
        state_matches(a, pages, top, profile, pgp),
        state_matches(b, pages, top, profile, pgp),
        st1.current == a,
        st1.generation == st0.generation + 1,
        st2.current == b,
        st2.generation == st1.generation + 1,
    ensures
        state_equiv(st2.current, st1.current),
        st2.generation != st1.generation,
{
    crate::state::lemma_build_deterministic(b, a, pages, top, profile, pgp);
}

} // verus!
