//! Watching a file for changes: which file is watched, and under what
//! identifier. The events themselves are delivered by the caller.

use vstd::prelude::*;
use vstd::string::*;
use crate::document::{existing_file, normalize_existing_file};
use crate::error::{outcome, FsError, FsErrorView};
use crate::model::{WatchStartedResponse, WatchView};
use crate::observe::PathKind;
use crate::text::{
    append_chars, chars_of, decimal, decimal_chars, lemma_decimal_injective, lemma_same_middle,
    string_of,
};

verus! {

/// The identifier of the watch that was started at the time `nanos`.
pub open spec fn watch_id(nanos: nat) -> Seq<char> {
    "watch-"@ + decimal(nanos)
}

/// The identifier of a watch that is started at the time `nanos`, in
/// nanoseconds since the epoch: `watch-` and the number.
pub fn make_watch_id(nanos: u128) -> (id: String)
    ensures
        id@ == watch_id(nanos as nat),
{
    let mut text = chars_of("watch-");
    append_chars(&mut text, &decimal_chars(nanos));
    string_of(&text)
}

/// Watches that are started at different times have different identifiers.
pub proof fn lemma_watch_ids_differ(a: nat, b: nat)
    requires
        a != b,
    ensures
        watch_id(a) != watch_id(b),
{
    if watch_id(a) == watch_id(b) {
        let none = Seq::<char>::empty();
        assert("watch-"@ + decimal(a) + none =~= watch_id(a));
        assert("watch-"@ + decimal(b) + none =~= watch_id(b));
        lemma_same_middle("watch-"@, decimal(a), decimal(b), none);
        lemma_decimal_injective(a, b);
    }
}

/// The watch that is to be started on `path`, given what lies there.
pub open spec fn watch_outcome(path: Seq<char>, kind: PathKind, nanos: nat) -> Result<
    WatchView,
    FsErrorView,
> {
    match existing_file(path, kind) {
        Err(e) => Err(e),
        Ok(p) => Ok(WatchView { path: p, watch_id: watch_id(nanos) }),
    }
}

/// Decides on watching the file at `path`: the caller is to register a watch
/// on that one file, not on what lies below it, and to keep it under the
/// identifier given. `kind` is what lies at the path and `nanos` the time in
/// nanoseconds since the epoch. Fails as `normalize_existing_file` does.
pub fn watch_file(path: &str, kind: PathKind, nanos: u128) -> (out: Result<
    WatchStartedResponse,
    FsError,
>)
    ensures
        outcome(out) == watch_outcome(path@, kind, nanos as nat),
{
    match normalize_existing_file(path, kind) {
        Err(e) => Err(e),
        Ok(target) => Ok(WatchStartedResponse { path: target, watch_id: make_watch_id(nanos) }),
    }
}

/// The watches that are alive, each under its identifier. The registry is
/// made once and handed to whoever starts watches; a watch stays alive as
/// long as the registry holds it.
pub struct WatchRegistry<W> {
    ids: Vec<String>,
    watchers: Vec<W>,
}

impl<W> WatchRegistry<W> {
    /// Every identifier has its watch, and no identifier occurs twice.
    pub closed spec fn well_formed(&self) -> bool {
        &&& self.ids.len() == self.watchers.len()
        &&& forall|i: int, j: int|
            0 <= i < j < self.ids.len() ==> (#[trigger] self.ids[i])@ != (#[trigger] self.ids[j])@
    }

    /// Whether a watch is held under `id`.
    pub closed spec fn holds(&self, id: Seq<char>) -> bool {
        exists|i: int| 0 <= i < self.ids.len() && (#[trigger] self.ids[i])@ == id
    }

    /// Where the watch of `id` is held.
    spec fn index_of(&self, id: Seq<char>) -> int {
        choose|i: int| 0 <= i < self.ids.len() && (#[trigger] self.ids[i])@ == id
    }

    /// The watches by their identifiers.
    pub closed spec fn view(&self) -> Map<Seq<char>, W> {
        Map::new(|id: Seq<char>| self.holds(id), |id: Seq<char>| self.watchers[self.index_of(id)])
    }

    proof fn lemma_index(&self, i: int)
        requires
            self.well_formed(),
            0 <= i < self.ids.len(),
        ensures
            self.holds(self.ids[i]@),
            self.index_of(self.ids[i]@) == i,
    {
        let j = self.index_of(self.ids[i]@);
        assert(0 <= j < self.ids.len() && self.ids[j]@ == self.ids[i]@);
        if j < i {
            assert(self.ids[j]@ != self.ids[i]@);
        } else if i < j {
            assert(self.ids[i]@ != self.ids[j]@);
        }
    }

    /// A registry that holds no watch.
    pub fn new() -> (registry: Self)
        ensures
            registry.well_formed(),
            registry@ == Map::<Seq<char>, W>::empty(),
    {
        let registry = WatchRegistry { ids: Vec::new(), watchers: Vec::new() };
        assert(registry@ =~= Map::<Seq<char>, W>::empty());
        registry
    }

    fn find(&self, id: &String) -> (at: Option<usize>)
        ensures
            match at {
                Some(i) => i < self.ids.len() && self.ids[i as int]@ == id@,
                None => !self.holds(id@),
            },
    {
        let mut i: usize = 0;
        while i < self.ids.len()
            invariant
                i <= self.ids.len(),
                forall|k: int| 0 <= k < i ==> (#[trigger] self.ids[k])@ != id@,
            decreases self.ids.len() - i,
        {
            if self.ids[i] == *id {
                return Some(i);
            }
            i += 1;
        }
        None
    }

    /// Whether a watch is held under `id`.
    pub fn contains(&self, id: &String) -> (held: bool)
        requires
            self.well_formed(),
        ensures
            held == self@.dom().contains(id@),
    {
        self.find(id).is_some()
    }

    /// Puts `watcher` under `id`, and hands back the watch that was held
    /// under that identifier before, if there was one.
    pub fn insert(&mut self, id: String, watcher: W) -> (before: Option<W>)
        requires
            old(self).well_formed(),
        ensures
            final(self).well_formed(),
            final(self)@ == old(self)@.insert(id@, watcher),
            before == if old(self)@.dom().contains(id@) {
                Some(old(self)@[id@])
            } else {
                None
            },
    {
        let ghost was = *self;
        match self.find(&id) {
            Some(p) => {
                proof {
                    was.lemma_index(p as int);
                }
                self.watchers.push(watcher);
                let before = self.watchers.swap_remove(p);
                proof {
                    let now = *self;
                    assert(now.ids == was.ids);
                    assert(now.watchers@ =~= was.watchers@.update(p as int, watcher));
                    assert forall|key: Seq<char>| now.holds(key) == was.holds(key) by {
                        if was.holds(key) {
                            let i = was.index_of(key);
                            assert(now.ids[i]@ == key);
                        }
                        if now.holds(key) {
                            let i = now.index_of(key);
                            assert(was.ids[i]@ == key);
                        }
                    }
                    assert forall|key: Seq<char>| now.holds(key) implies #[trigger] now@[key]
                        == was@.insert(id@, watcher)[key] by {
                        let i = now.index_of(key);
                        assert(was.ids[i]@ == key);
                        now.lemma_index(i);
                        was.lemma_index(i);
                    }
                    assert(now@ =~= was@.insert(id@, watcher));
                }
                Some(before)
            },
            None => {
                self.ids.push(id);
                self.watchers.push(watcher);
                proof {
                    let now = *self;
                    let n = was.ids.len() as int;
                    assert forall|i: int, j: int| 0 <= i < j < now.ids.len() implies (
                    #[trigger] now.ids[i])@ != (#[trigger] now.ids[j])@ by {
                        if j < n {
                            assert(now.ids[i] == was.ids[i] && now.ids[j] == was.ids[j]);
                        } else {
                            assert(now.ids[i] == was.ids[i]);
                            assert(was.ids[i]@ != id@);
                        }
                    }
                    assert(now.well_formed());
                    now.lemma_index(n);
                    assert forall|key: Seq<char>| now.holds(key) == (was.holds(key) || key
                        == id@) by {
                        if was.holds(key) {
                            let i = was.index_of(key);
                            assert(now.ids[i]@ == key);
                        }
                        if now.holds(key) && key != id@ {
                            let i = now.index_of(key);
                            assert(i < n);
                            assert(was.ids[i]@ == key);
                        }
                    }
                    assert forall|key: Seq<char>| now.holds(key) implies #[trigger] now@[key]
                        == was@.insert(id@, watcher)[key] by {
                        let i = now.index_of(key);
                        now.lemma_index(i);
                        if i < n {
                            assert(was.ids[i]@ == key);
                            was.lemma_index(i);
                        }
                    }
                    assert(now@ =~= was@.insert(id@, watcher));
                }
                None
            },
        }
    }
}

} // verus!
