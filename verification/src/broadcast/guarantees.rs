//! What holds of tracks and of collections of tracks, whatever is done to
//! them.

use crate::broadcast::track::{
    close_spec, create_group_spec, create_spec, finish_group_spec, finish_spec, fix_spec, idle,
    mode_spec, next_group_spec, next_stream_group_spec, read_next_spec, send_spec, write_object_spec,
    write_spec, GroupReader, GroupsReader, Mode, Next, Object, ServeError, StreamReader, TrackView,
};
use crate::broadcast::tracks::{
    create_track_spec, lemma_remove_unique, live, place, remove_track_spec, slot, subscribe_spec,
    valid, TracksView,
};
use vstd::prelude::*;

verus! {

/// While a track is live, a second writer for its name is refused and
/// nothing changes.
pub proof fn lemma_second_writer_refused(v: TracksView, name: Seq<char>)
    requires
        valid(v),
    ensures
        live(create_track_spec(v, name).0.names, name),
        create_track_spec(create_track_spec(v, name).0, name) == (
            create_track_spec(v, name).0,
            Err::<(), ServeError>(ServeError::Duplicate),
        ),
{
    let after = create_track_spec(v, name).0;
    if !live(v.names, name) {
        assert(after.names[v.names.len() as int] == name);
    }
}

/// Once a track is removed, its name is free: a new writer for it is
/// accepted.
pub proof fn lemma_writer_after_remove(v: TracksView, name: Seq<char>)
    requires
        valid(v),
    ensures
        valid(remove_track_spec(v, name)),
        !live(remove_track_spec(v, name).names, name),
        create_track_spec(remove_track_spec(v, name), name).1 is Ok,
{
    if live(v.names, name) {
        let at = place(v.names, name);
        assert(slot(v.names, name, at)) by {
            let i = choose|i: int| 0 <= i < v.names.len() && v.names[i] == name;
            lemma_first_slot(v.names, name, i);
        }
        lemma_remove_unique(v.names, name, at);
    }
}

/// A name that occurs has a first place.
pub proof fn lemma_first_slot(names: Seq<Seq<char>>, name: Seq<char>, i: int)
    requires
        0 <= i < names.len(),
        names[i] == name,
    ensures
        exists|at: int| slot(names, name, at),
        slot(names, name, place(names, name)),
    decreases i,
{
    if exists|j: int| 0 <= j < i && names[j] == name {
        let j = choose|j: int| 0 <= j < i && names[j] == name;
        lemma_first_slot(names, name, j);
    } else {
        assert(slot(names, name, i));
    }
}

/// Creating, removing and asking for tracks keep every name live at most
/// once.
pub proof fn lemma_one_writer_per_name(v: TracksView, name: Seq<char>)
    requires
        valid(v),
    ensures
        valid(create_track_spec(v, name).0),
        valid(remove_track_spec(v, name)),
        valid(subscribe_spec(v, name).0),
{
    lemma_writer_after_remove(v, name);
}

/// What a producer can do to a track.
pub enum Write {
    Fix { mode: Mode },
    CreateGroup { group_id: u64, priority: u64 },
    WriteObject { group: usize, bytes: Seq<u8> },
    FinishGroup { group: usize },
    Create { object: Object },
    WriteRecord { record: usize, bytes: Seq<u8> },
    Finish { record: usize },
    Send { object: Object, bytes: Seq<u8> },
    Close { err: ServeError },
}

/// The track after a producer's operation, and whether it was accepted.
pub open spec fn apply(t: TrackView, w: Write) -> (TrackView, bool) {
    match w {
        Write::Fix { mode } => (fix_spec(t, mode).0, fix_spec(t, mode).1 is Ok),
        Write::CreateGroup { group_id, priority } => (
            create_group_spec(t, group_id, priority).0,
            create_group_spec(t, group_id, priority).1 is Ok,
        ),
        Write::WriteObject { group, bytes } => (
            write_object_spec(t, group, bytes).0,
            write_object_spec(t, group, bytes).1 is Ok,
        ),
        Write::FinishGroup { group } => (
            finish_group_spec(t, group).0,
            finish_group_spec(t, group).1 is Ok,
        ),
        Write::Create { object } => (create_spec(t, object).0, create_spec(t, object).1 is Ok),
        Write::WriteRecord { record, bytes } => (
            write_spec(t, record, bytes).0,
            write_spec(t, record, bytes).1 is Ok,
        ),
        Write::Finish { record } => (finish_spec(t, record).0, finish_spec(t, record).1 is Ok),
        Write::Send { object, bytes } => (
            send_spec(t, object, bytes).0,
            send_spec(t, object, bytes).1 is Ok,
        ),
        Write::Close { err } => (close_spec(t, err).0, close_spec(t, err).1 is Ok),
    }
}

/// Whether an operation is one of the writer for `mode`.
pub open spec fn belongs(w: Write, mode: Mode) -> bool {
    match w {
        Write::Fix { mode: m } => m == mode,
        Write::CreateGroup { .. } | Write::WriteObject { .. } | Write::FinishGroup { .. } => mode
            is Stream || mode is Groups,
        Write::Create { .. } | Write::WriteRecord { .. } | Write::Finish { .. } => mode is Objects,
        Write::Send { .. } => mode is Datagrams,
        Write::Close { .. } => true,
    }
}

/// Once a reader has seen a mode, every reader sees that mode for ever:
/// no operation of the producer changes it.
pub proof fn lemma_mode_is_fixed(t: TrackView, mode: Mode, w: Write)
    requires
        mode_spec(t) == Next::Ready(mode),
    ensures
        mode_spec(apply(t, w).0) == Next::Ready(mode),
{
}

/// An operation of another mode's writer is refused, and leaves the track
/// as it was.
pub proof fn lemma_other_mode_refused(t: TrackView, mode: Mode, w: Write)
    requires
        mode_spec(t) == Next::Ready(mode),
        !belongs(w, mode),
    ensures
        apply(t, w) == (t, false),
{
}

/// The objects that reading a group from a cursor gives, one read after
/// the other, until a read gives none.
pub open spec fn take_all(t: TrackView, c: GroupReader) -> Seq<Seq<u8>>
    decreases
        (if c.group < t.groups.len() {
            t.groups[c.group as int].objects.len() - c.index
        } else {
            0
        }),
{
    match read_next_spec(t, c).1 {
        Next::Ready(bytes) => if c.group < t.groups.len() && c.index
            < t.groups[c.group as int].objects.len() <= usize::MAX {
            seq![bytes] + take_all(t, read_next_spec(t, c).0)
        } else {
            Seq::empty()
        },
        _ => Seq::empty(),
    }
}

/// The cursor after those reads.
pub open spec fn rest(t: TrackView, c: GroupReader) -> GroupReader
    decreases
        (if c.group < t.groups.len() {
            t.groups[c.group as int].objects.len() - c.index
        } else {
            0
        }),
{
    match read_next_spec(t, c).1 {
        Next::Ready(bytes) => if c.group < t.groups.len() && c.index
            < t.groups[c.group as int].objects.len() <= usize::MAX {
            rest(t, read_next_spec(t, c).0)
        } else {
            c
        },
        _ => c,
    }
}

/// A reader of a group gets the group's objects in the order written, each
/// once, from its place on; object identifiers are the places, so they
/// rise. After the last object of a finished group it sees the end.
pub proof fn lemma_group_read_in_order(t: TrackView, c: GroupReader)
    requires
        c.group < t.groups.len(),
        c.index <= t.groups[c.group as int].objects.len() <= usize::MAX,
    ensures
        take_all(t, c) == t.groups[c.group as int].objects.skip(c.index as int),
        rest(t, c) == (GroupReader {
            group: c.group,
            index: t.groups[c.group as int].objects.len() as usize,
        }),
        t.groups[c.group as int].finished ==> read_next_spec(t, rest(t, c)) == (
            rest(t, c),
            Next::<Seq<u8>>::End,
        ),
        !t.groups[c.group as int].finished ==> read_next_spec(t, rest(t, c)) == (
            rest(t, c),
            idle::<Seq<u8>>(t.closed),
        ),
    decreases t.groups[c.group as int].objects.len() - c.index,
{
    let objects = t.groups[c.group as int].objects;
    if c.index < objects.len() {
        let next = read_next_spec(t, c).0;
        lemma_group_read_in_order(t, next);
        assert(take_all(t, c) =~= objects.skip(c.index as int));
    } else {
        assert(take_all(t, c) =~= objects.skip(c.index as int));
    }
}

/// What a reader of one group sees depends on that group and on how the
/// track was closed, and on nothing else: not on any other group, not on
/// where any other reader stands.
pub proof fn lemma_group_read_depends_on_group(t: TrackView, u: TrackView, c: GroupReader)
    requires
        c.group < t.groups.len(),
        c.group < u.groups.len(),
        t.groups[c.group as int] == u.groups[c.group as int],
        t.closed == u.closed,
    ensures
        read_next_spec(t, c) == read_next_spec(u, c),
{
}

/// In `Groups` mode a group is handed out as soon as it exists, and can be
/// written to and finished, whatever has become of the groups before it:
/// an earlier group that is unfinished, unread or abandoned holds nothing
/// up. In `Stream` mode the same group waits for the one before it.
pub proof fn lemma_groups_do_not_wait(t: TrackView, group: usize, bytes: Seq<u8>)
    requires
        0 < group < t.groups.len(),
        t.closed is None,
        !t.groups[group - 1].finished,
        !t.groups[group as int].finished,
    ensures
        t.mode == Some(Mode::Groups) ==> {
            &&& next_group_spec(t, GroupsReader { next: group }).1 == Next::Ready(
                GroupReader { group, index: 0 },
            )
            &&& write_object_spec(t, group, bytes).1 is Ok
            &&& finish_group_spec(t, group).1 is Ok
            &&& write_object_spec(t, group, bytes).0.groups[group - 1] == t.groups[group - 1]
            &&& finish_group_spec(t, group).0.groups[group - 1] == t.groups[group - 1]
        },
        t.mode == Some(Mode::Stream) ==> next_stream_group_spec(t, StreamReader { next: group }).1
            == Next::<GroupReader>::Pending,
{
}

/// Writing to one group, or finishing it, leaves every other group as it
/// was, so that what readers of the other groups see does not change.
pub proof fn lemma_write_touches_one_group(t: TrackView, group: usize, bytes: Seq<u8>, other: int)
    requires
        0 <= other < t.groups.len(),
        other != group,
    ensures
        write_object_spec(t, group, bytes).0.groups[other] == t.groups[other],
        finish_group_spec(t, group).0.groups[other] == t.groups[other],
        write_object_spec(t, group, bytes).0.groups.len() == t.groups.len(),
        finish_group_spec(t, group).0.groups.len() == t.groups.len(),
{
}

/// A group that was written and finished is there in full for a reader
/// that starts on it: all its objects in order, then the end.
pub proof fn lemma_finished_group_available(t: TrackView, group: usize)
    requires
        group < t.groups.len(),
        t.groups[group as int].finished,
        t.groups[group as int].objects.len() <= usize::MAX,
    ensures
        take_all(t, GroupReader { group, index: 0 }) == t.groups[group as int].objects,
        read_next_spec(t, rest(t, GroupReader { group, index: 0 })).1 == Next::<Seq<u8>>::End,
{
    lemma_group_read_in_order(t, GroupReader { group, index: 0 });
    assert(t.groups[group as int].objects.skip(0) =~= t.groups[group as int].objects);
}

/// Closing is seen by every reader that has nothing left to read: a clean
/// close as the end, anything else as that error; and a closed track takes
/// no more writes.
pub proof fn lemma_close_reaches_readers(t: TrackView, err: ServeError, w: Write)
    requires
        t.closed is None,
        !(w is Close),
    ensures
        close_spec(t, err).1 is Ok,
        idle::<Seq<u8>>(close_spec(t, err).0.closed) == (if err is Done {
            Next::<Seq<u8>>::End
        } else {
            Next::<Seq<u8>>::Failed(err)
        }),
        apply(close_spec(t, err).0, w) == (close_spec(t, err).0, false),
{
}

} // verus!
