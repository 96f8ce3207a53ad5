//! The tracks of one namespace, by name, and the queue of names that
//! readers have asked for.

use crate::broadcast::track::{fresh, ServeError, Track, TrackView};
use vstd::prelude::*;

verus! {

/// The collection as a mathematical value: `tracks[i]` is the state of the
/// track named `names[i]`; `requests` are the names asked for and not yet
/// taken up, oldest first.
pub struct TracksView {
    pub namespace: Seq<char>,
    pub names: Seq<Seq<char>>,
    pub tracks: Seq<TrackView>,
    pub requests: Seq<Seq<char>>,
}

/// Whether a track of this name is live.
pub open spec fn live(names: Seq<Seq<char>>, name: Seq<char>) -> bool {
    exists|i: int| 0 <= i < names.len() && #[trigger] names[i] == name
}

/// Whether `at` is the place of the track of this name.
pub open spec fn slot(names: Seq<Seq<char>>, name: Seq<char>, at: int) -> bool {
    &&& 0 <= at < names.len()
    &&& names[at] == name
    &&& forall|j: int| 0 <= j < at ==> #[trigger] names[j] != name
}

/// No name is live twice: each track has one writer.
pub open spec fn unique(names: Seq<Seq<char>>) -> bool {
    forall|i: int, j: int|
        0 <= i < names.len() && 0 <= j < names.len() && i != j ==> #[trigger] names[i]
            != #[trigger] names[j]
}

/// The place of the track of this name, where it is live.
pub open spec fn place(names: Seq<Seq<char>>, name: Seq<char>) -> int {
    choose|at: int| slot(names, name, at)
}

/// What holds of every collection: each name has a state, and no name is
/// live twice.
pub open spec fn valid(v: TracksView) -> bool {
    v.names.len() == v.tracks.len() && unique(v.names)
}

/// Creating a track: refused while the name is live.
pub open spec fn create_track_spec(v: TracksView, name: Seq<char>) -> (
    TracksView,
    Result<(), ServeError>,
) {
    if live(v.names, name) {
        (v, Err(ServeError::Duplicate))
    } else {
        (TracksView { names: v.names.push(name), tracks: v.tracks.push(fresh()), ..v }, Ok(()))
    }
}

/// Removing a track: its name and its state leave together.
pub open spec fn remove_track_spec(v: TracksView, name: Seq<char>) -> TracksView {
    if live(v.names, name) {
        let at = place(v.names, name);
        TracksView { names: v.names.remove(at), tracks: v.tracks.remove(at), ..v }
    } else {
        v
    }
}

/// Asking for a track: a live one serves; otherwise one is made and its
/// name is queued.
pub open spec fn subscribe_spec(v: TracksView, name: Seq<char>) -> (TracksView, Subscription) {
    if live(v.names, name) {
        (v, Subscription::Existing)
    } else {
        (
            TracksView {
                names: v.names.push(name),
                tracks: v.tracks.push(fresh()),
                requests: v.requests.push(name),
                ..v
            },
            Subscription::Requested,
        )
    }
}

/// A live name has exactly one place.
pub proof fn lemma_place(names: Seq<Seq<char>>, name: Seq<char>, at: int)
    requires
        slot(names, name, at),
    ensures
        live(names, name),
        place(names, name) == at,
{
    let other = place(names, name);
    assert(slot(names, name, other));
    if other < at {
        assert(names[other] != name);
    } else if at < other {
        assert(names[at] != name);
    }
}

/// Removing a name from names that are all different leaves names that
/// are all different, and that name is not among them.
pub proof fn lemma_remove_unique(names: Seq<Seq<char>>, name: Seq<char>, at: int)
    requires
        unique(names),
        slot(names, name, at),
    ensures
        unique(names.remove(at)),
        !live(names.remove(at), name),
{
    let after = names.remove(at);
    assert forall|j: int| 0 <= j < after.len() implies #[trigger] after[j] != name by {
        if j < at {
            assert(after[j] == names[j]);
        } else {
            assert(after[j] == names[j + 1]);
        }
    }
    assert forall|i: int, j: int|
        0 <= i < after.len() && 0 <= j < after.len() && i != j implies #[trigger] after[i]
        != #[trigger] after[j] by {
        let a = if i < at { i } else { i + 1 };
        let b = if j < at { j } else { j + 1 };
        assert(after[i] == names[a]);
        assert(after[j] == names[b]);
    }
}

/// Whether `after` is `before` but for the state of the track at `at`,
/// which is `t`.
pub open spec fn lent(before: TracksView, after: TracksView, at: int, t: TrackView) -> bool {
    &&& after.namespace == before.namespace
    &&& after.names == before.names
    &&& after.requests == before.requests
    &&& after.tracks.len() == before.tracks.len()
    &&& after.tracks[at] == t
    &&& forall|j: int|
        0 <= j < before.tracks.len() && j != at ==> #[trigger] after.tracks[j] == before.tracks[j]
}

/// Whether a name was newly asked for or is served by a live track.
#[derive(Clone, Copy, Debug, PartialEq, Eq, Structural)]
pub enum Subscription {
    /// The track is live.
    Existing,
    /// The track was made on this demand, and its name was queued for the
    /// producer side.
    Requested,
}

/// The tracks of one namespace, with the queue of requested names.
pub struct Tracks {
    namespace: String,
    names: Vec<String>,
    tracks: Vec<Track>,
    requests: Vec<String>,
}

impl View for Tracks {
    type V = TracksView;

    closed spec fn view(&self) -> TracksView {
        TracksView {
            namespace: self.namespace@,
            names: Seq::new(self.names@.len(), |i: int| self.names@[i]@),
            tracks: Seq::new(self.tracks@.len(), |i: int| self.tracks@[i]@),
            requests: Seq::new(self.requests@.len(), |i: int| self.requests@[i]@),
        }
    }
}

impl Tracks {
    /// Each name has a state, and no name is live twice.
    pub open spec fn wf(&self) -> bool {
        valid(self@)
    }

    /// The collection for a namespace, with no track and no request.
    pub fn new(namespace: String) -> (t: Tracks)
        ensures
            t.wf(),
            t@ == (TracksView {
                namespace: namespace@,
                names: Seq::empty(),
                tracks: Seq::empty(),
                requests: Seq::empty(),
            }),
    {
        let t = Tracks { namespace, names: Vec::new(), tracks: Vec::new(), requests: Vec::new() };
        assert(t@.names =~= Seq::empty());
        assert(t@.tracks =~= Seq::empty());
        assert(t@.requests =~= Seq::empty());
        t
    }

    /// The namespace.
    pub fn namespace(&self) -> (n: &String)
        ensures
            n@ == self@.namespace,
    {
        &self.namespace
    }

    /// The number of live tracks.
    pub fn len(&self) -> (n: usize)
        requires
            self.wf(),
        ensures
            n == self@.names.len(),
            n == self@.tracks.len(),
    {
        self.names.len()
    }

    /// The place of the track of this name, if it is live.
    pub fn find(&self, name: &str) -> (r: Option<usize>)
        ensures
            match r {
                Some(at) => slot(self@.names, name@, at as int),
                None => !live(self@.names, name@),
            },
    {
        let key = name.to_owned();
        let mut i: usize = 0;
        while i < self.names.len()
            invariant
                i <= self.names.len(),
                key@ == name@,
                forall|j: int| 0 <= j < i ==> #[trigger] self@.names[j] != name@,
            decreases self.names.len() - i,
        {
            if self.names[i] == key {
                return Some(i);
            }
            i += 1;
        }
        None
    }

    /// Creates the track `name`. A name that is live is refused: a track has
    /// one writer at a time.
    pub fn create(&mut self, name: &str) -> (r: Result<(), ServeError>)
        requires
            old(self).wf(),
        ensures
            final(self).wf(),
            final(self)@ == create_track_spec(old(self)@, name@).0,
            r == create_track_spec(old(self)@, name@).1,
    {
        match self.find(name) {
            Some(at) => {
                assert(self@.names[at as int] == name@);
                Err(ServeError::Duplicate)
            },
            None => {
                self.names.push(name.to_owned());
                self.tracks.push(Track::new());
                assert(self@.names =~= old(self)@.names.push(name@));
                assert(self@.tracks =~= old(self)@.tracks.push(fresh()));
                assert(self@.requests =~= old(self)@.requests);
                Ok(())
            },
        }
    }

    /// Removes the track `name` and hands out its state; the name is free
    /// again. Nothing changes if no such track is live.
    pub fn remove(&mut self, name: &str) -> (r: Option<Track>)
        requires
            old(self).wf(),
        ensures
            final(self).wf(),
            final(self)@ == remove_track_spec(old(self)@, name@),
            !live(final(self)@.names, name@),
            match r {
                Some(t) => live(old(self)@.names, name@) && t@ == old(self)@.tracks[place(
                    old(self)@.names,
                    name@,
                )],
                None => !live(old(self)@.names, name@),
            },
    {
        match self.find(name) {
            None => None,
            Some(at) => {
                let _name = self.names.remove(at);
                let track = self.tracks.remove(at);
                assert(self@.names =~= old(self)@.names.remove(at as int));
                assert(self@.tracks =~= old(self)@.tracks.remove(at as int));
                assert(self@.requests =~= old(self)@.requests);
                proof {
                    lemma_place(old(self)@.names, name@, at as int);
                    lemma_remove_unique(old(self)@.names, name@, at as int);
                }
                Some(track)
            },
        }
    }

    /// Asks for the track `name` on behalf of a reader: a live track serves
    /// it; otherwise the track is made now and its name is queued.
    pub fn subscribe(&mut self, name: &str) -> (r: Subscription)
        requires
            old(self).wf(),
        ensures
            final(self).wf(),
            live(final(self)@.names, name@),
            final(self)@ == subscribe_spec(old(self)@, name@).0,
            r == subscribe_spec(old(self)@, name@).1,
    {
        match self.find(name) {
            Some(at) => {
                assert(self@.names[at as int] == name@);
                Subscription::Existing
            },
            None => {
                self.names.push(name.to_owned());
                self.tracks.push(Track::new());
                self.requests.push(name.to_owned());
                assert(self@.names =~= old(self)@.names.push(name@));
                assert(self@.tracks =~= old(self)@.tracks.push(fresh()));
                assert(self@.requests =~= old(self)@.requests.push(name@));
                assert(self@.names[old(self)@.names.len() as int] == name@);
                Subscription::Requested
            },
        }
    }

    /// Takes the oldest requested name off the queue.
    pub fn next_request(&mut self) -> (r: Option<String>)
        requires
            old(self).wf(),
        ensures
            final(self).wf(),
            match r {
                Some(name) => old(self)@.requests.len() > 0 && name@ == old(self)@.requests[0]
                    && final(self)@ == (TracksView {
                    requests: old(self)@.requests.drop_first(),
                    ..old(self)@
                }),
                None => old(self)@.requests.len() == 0 && final(self)@ == old(self)@,
            },
    {
        if self.requests.len() == 0 {
            None
        } else {
            let name = self.requests.remove(0);
            assert(self@.requests =~= old(self)@.requests.drop_first());
            assert(self@.names =~= old(self)@.names);
            assert(self@.tracks =~= old(self)@.tracks);
            Some(name)
        }
    }

    /// The state of the track `name`, for reading.
    pub fn get(&self, name: &str) -> (r: Option<&Track>)
        requires
            self.wf(),
        ensures
            match r {
                Some(t) => live(self@.names, name@) && t@ == self@.tracks[place(
                    self@.names,
                    name@,
                )],
                None => !live(self@.names, name@),
            },
    {
        match self.find(name) {
            Some(at) => {
                proof {
                    lemma_place(self@.names, name@, at as int);
                }
                Some(&self.tracks[at])
            },
            None => None,
        }
    }

    /// The state of the track `name`, for writing. What the caller does to
    /// it becomes the state of that track and of no other.
    pub fn get_mut(&mut self, name: &str) -> (r: Option<&mut Track>)
        requires
            old(self).wf(),
        ensures
            final(self).wf(),
            match r {
                Some(t) => {
                    &&& live(old(self)@.names, name@)
                    &&& t@ == old(self)@.tracks[place(old(self)@.names, name@)]
                    &&& lent(old(self)@, final(self)@, place(old(self)@.names, name@), final(t)@)
                },
                None => !live(old(self)@.names, name@) && final(self)@ == old(self)@,
            },
    {
        match self.find(name) {
            Some(at) => {
                proof {
                    lemma_place(old(self)@.names, name@, at as int);
                }
                Some(&mut self.tracks[at])
            },
            None => None,
        }
    }
}

} // verus!
