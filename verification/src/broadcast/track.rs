//! One track: its delivery mode, what the producer has written, and the
//! cursors by which readers take it out again.

use crate::broadcast::payload::{bytes_clone, payload};
use vstd::prelude::*;

verus! {

/// Why an operation on a track was refused, or how a track ended.
#[derive(Clone, Copy, Debug, PartialEq, Eq, Structural)]
pub enum ServeError {
    /// The producer ended the track, group or object in good order.
    Done,
    /// The track no longer takes writes.
    Cancel,
    /// The producer gave up with this code.
    Closed(u64),
    /// There is no such track, group or object.
    NotFound,
    /// The name or identifier is taken.
    Duplicate,
    /// The track is in another delivery mode.
    Mode,
    /// An object takes exactly one payload.
    Size,
}

/// The framing discipline of a track.
#[derive(Clone, Copy, Debug, PartialEq, Eq, Structural)]
pub enum Mode {
    /// Groups in order, each an ordered run of objects.
    Stream,
    /// Groups that are read independently of each other.
    Groups,
    /// A flat run of objects, each with its group and object identifier.
    Objects,
    /// Independent best-effort units.
    Datagrams,
}

/// The address and urgency of an object. A lower priority is sent first.
#[derive(Clone, Copy, Debug, PartialEq, Eq, Structural)]
pub struct Object {
    pub group_id: u64,
    pub object_id: u64,
    pub priority: u64,
}

/// What a read gives: a value, nothing yet, nothing ever, or the error
/// with which the producer gave up.
#[derive(Debug, PartialEq)]
pub enum Next<T> {
    Ready(T),
    Pending,
    End,
    Failed(ServeError),
}

/// A group as a mathematical value.
pub struct GroupView {
    pub group_id: u64,
    pub priority: u64,
    pub objects: Seq<Seq<u8>>,
    pub finished: bool,
}

/// An object of a flat track as a mathematical value.
pub struct RecordView {
    pub object: Object,
    pub payload: Option<Seq<u8>>,
    pub finished: bool,
}

/// A track as a mathematical value.
pub struct TrackView {
    pub mode: Option<Mode>,
    pub groups: Seq<GroupView>,
    pub records: Seq<RecordView>,
    pub closed: Option<ServeError>,
}

/// A datagram as a mathematical value.
pub struct DatagramView {
    pub object: Object,
    pub payload: Seq<u8>,
}

/// A group of a track in `Stream` or `Groups` mode.
pub struct Group {
    group_id: u64,
    priority: u64,
    objects: Vec<bytes::Bytes>,
    finished: bool,
}

/// An object of a track in `Objects` or `Datagrams` mode.
pub struct Record {
    object: Object,
    payload: Option<bytes::Bytes>,
    finished: bool,
}

/// A unit read from a track in `Datagrams` mode.
#[derive(Debug, PartialEq)]
pub struct Datagram {
    pub object: Object,
    pub payload: bytes::Bytes,
}

/// The shared state of one track.
pub struct Track {
    mode: Option<Mode>,
    groups: Vec<Group>,
    records: Vec<Record>,
    closed: Option<ServeError>,
}

/// A reader's place among the groups of a track in `Groups` mode.
#[derive(Clone, Copy, Debug, PartialEq, Eq, Structural)]
pub struct GroupsReader {
    pub next: usize,
}

/// A reader's place among the groups of a track in `Stream` mode.
#[derive(Clone, Copy, Debug, PartialEq, Eq, Structural)]
pub struct StreamReader {
    pub next: usize,
}

/// A reader's place within one group.
#[derive(Clone, Copy, Debug, PartialEq, Eq, Structural)]
pub struct GroupReader {
    pub group: usize,
    pub index: usize,
}

/// A reader's place among the objects of a track in `Objects` mode.
#[derive(Clone, Copy, Debug, PartialEq, Eq, Structural)]
pub struct ObjectsReader {
    pub next: usize,
}

/// One object of a track in `Objects` mode, as a reader got it.
#[derive(Clone, Copy, Debug, PartialEq, Eq, Structural)]
pub struct ObjectReader {
    pub record: usize,
    pub group_id: u64,
    pub object_id: u64,
    pub priority: u64,
}

/// A reader's place among the datagrams of a track.
#[derive(Clone, Copy, Debug, PartialEq, Eq, Structural)]
pub struct DatagramsReader {
    pub next: usize,
}

impl View for Group {
    type V = GroupView;

    closed spec fn view(&self) -> GroupView {
        GroupView {
            group_id: self.group_id,
            priority: self.priority,
            objects: Seq::new(self.objects@.len(), |i: int| payload(self.objects@[i])),
            finished: self.finished,
        }
    }
}

impl View for Record {
    type V = RecordView;

    closed spec fn view(&self) -> RecordView {
        RecordView {
            object: self.object,
            payload: match self.payload {
                Some(b) => Some(payload(b)),
                None => None,
            },
            finished: self.finished,
        }
    }
}

impl View for Datagram {
    type V = DatagramView;

    open spec fn view(&self) -> DatagramView {
        DatagramView { object: self.object, payload: payload(self.payload) }
    }
}

impl View for Track {
    type V = TrackView;

    closed spec fn view(&self) -> TrackView {
        TrackView {
            mode: self.mode,
            groups: Seq::new(self.groups@.len(), |i: int| self.groups@[i]@),
            records: Seq::new(self.records@.len(), |i: int| self.records@[i]@),
            closed: self.closed,
        }
    }
}

/// What a read gives when nothing is there to read: it depends on whether
/// and how the producer closed.
pub open spec fn idle<T>(closed: Option<ServeError>) -> Next<T> {
    match closed {
        None => Next::Pending,
        Some(ServeError::Done) => Next::End,
        Some(e) => Next::Failed(e),
    }
}

/// Why a write in mode `a` or `b` is refused, if it is: a closed track
/// takes no writes, and a track takes writes in its own mode only.
pub open spec fn refusal(t: TrackView, a: Mode, b: Mode) -> Option<ServeError> {
    if t.closed is Some {
        Some(ServeError::Cancel)
    } else if t.mode != Some(a) && t.mode != Some(b) {
        Some(ServeError::Mode)
    } else {
        None
    }
}

/// Whether a group with this identifier exists.
pub open spec fn has_group(groups: Seq<GroupView>, group_id: u64) -> bool {
    exists|i: int| 0 <= i < groups.len() && (#[trigger] groups[i]).group_id == group_id
}

/// A fresh track.
pub open spec fn fresh() -> TrackView {
    TrackView { mode: None, groups: Seq::empty(), records: Seq::empty(), closed: None }
}

/// Choosing a delivery mode: the first choice fixes it; the same choice
/// again changes nothing; another choice is refused.
pub open spec fn fix_spec(t: TrackView, mode: Mode) -> (TrackView, Result<(), ServeError>) {
    if t.closed is Some {
        (t, Err(ServeError::Cancel))
    } else {
        match t.mode {
            None => (TrackView { mode: Some(mode), ..t }, Ok(())),
            Some(m) => if m == mode {
                (t, Ok(()))
            } else {
                (t, Err(ServeError::Mode))
            },
        }
    }
}

/// Opening a group: it is appended, empty and unfinished, and its place
/// among the groups is returned.
pub open spec fn create_group_spec(t: TrackView, group_id: u64, priority: u64) -> (
    TrackView,
    Result<usize, ServeError>,
) {
    match refusal(t, Mode::Stream, Mode::Groups) {
        Some(e) => (t, Err(e)),
        None => if has_group(t.groups, group_id) {
            (t, Err(ServeError::Duplicate))
        } else {
            (
                TrackView {
                    groups: t.groups.push(
                        GroupView { group_id, priority, objects: Seq::empty(), finished: false },
                    ),
                    ..t
                },
                Ok(t.groups.len() as usize),
            )
        },
    }
}

/// Writing an object to a group: it is appended to that group and to no
/// other, and its identifier, the number of objects before it, is returned.
pub open spec fn write_object_spec(t: TrackView, group: usize, bytes: Seq<u8>) -> (
    TrackView,
    Result<u64, ServeError>,
) {
    match refusal(t, Mode::Stream, Mode::Groups) {
        Some(e) => (t, Err(e)),
        None => if group >= t.groups.len() {
            (t, Err(ServeError::NotFound))
        } else if t.groups[group as int].finished {
            (t, Err(ServeError::Done))
        } else {
            let g = t.groups[group as int];
            (
                TrackView {
                    groups: t.groups.update(
                        group as int,
                        GroupView { objects: g.objects.push(bytes), ..g },
                    ),
                    ..t
                },
                Ok(g.objects.len() as u64),
            )
        },
    }
}

/// Finishing a group: readers of it see its end after its last object.
pub open spec fn finish_group_spec(t: TrackView, group: usize) -> (
    TrackView,
    Result<(), ServeError>,
) {
    match refusal(t, Mode::Stream, Mode::Groups) {
        Some(e) => (t, Err(e)),
        None => if group >= t.groups.len() {
            (t, Err(ServeError::NotFound))
        } else if t.groups[group as int].finished {
            (t, Err(ServeError::Done))
        } else {
            let g = t.groups[group as int];
            (
                TrackView {
                    groups: t.groups.update(group as int, GroupView { finished: true, ..g }),
                    ..t
                },
                Ok(()),
            )
        },
    }
}

/// Announcing an object of a flat track: it is appended without a payload,
/// and its place is returned.
pub open spec fn create_spec(t: TrackView, object: Object) -> (
    TrackView,
    Result<usize, ServeError>,
) {
    match refusal(t, Mode::Objects, Mode::Objects) {
        Some(e) => (t, Err(e)),
        None => (
            TrackView {
                records: t.records.push(RecordView { object, payload: None, finished: false }),
                ..t
            },
            Ok(t.records.len() as usize),
        ),
    }
}

/// Writing the payload of an announced object: once, and not after it was
/// finished.
pub open spec fn write_spec(t: TrackView, record: usize, bytes: Seq<u8>) -> (
    TrackView,
    Result<(), ServeError>,
) {
    match refusal(t, Mode::Objects, Mode::Objects) {
        Some(e) => (t, Err(e)),
        None => if record >= t.records.len() {
            (t, Err(ServeError::NotFound))
        } else if t.records[record as int].payload is Some || t.records[record as int].finished {
            (t, Err(ServeError::Size))
        } else {
            let r = t.records[record as int];
            (
                TrackView {
                    records: t.records.update(
                        record as int,
                        RecordView { payload: Some(bytes), ..r },
                    ),
                    ..t
                },
                Ok(()),
            )
        },
    }
}

/// Finishing an object: only one that has its payload, and only once.
pub open spec fn finish_spec(t: TrackView, record: usize) -> (TrackView, Result<(), ServeError>) {
    match refusal(t, Mode::Objects, Mode::Objects) {
        Some(e) => (t, Err(e)),
        None => if record >= t.records.len() {
            (t, Err(ServeError::NotFound))
        } else if t.records[record as int].finished {
            (t, Err(ServeError::Done))
        } else if t.records[record as int].payload is None {
            (t, Err(ServeError::Size))
        } else {
            let r = t.records[record as int];
            (
                TrackView {
                    records: t.records.update(record as int, RecordView { finished: true, ..r }),
                    ..t
                },
                Ok(()),
            )
        },
    }
}

/// Sending a datagram: it is appended whole.
pub open spec fn send_spec(t: TrackView, object: Object, bytes: Seq<u8>) -> (
    TrackView,
    Result<(), ServeError>,
) {
    match refusal(t, Mode::Datagrams, Mode::Datagrams) {
        Some(e) => (t, Err(e)),
        None => (
            TrackView {
                records: t.records.push(
                    RecordView { object, payload: Some(bytes), finished: true },
                ),
                ..t
            },
            Ok(()),
        ),
    }
}

/// Closing the track: `Done` for a clean end, anything else for an error.
/// A track is closed once; a second close reports how it was closed.
pub open spec fn close_spec(t: TrackView, err: ServeError) -> (TrackView, Result<(), ServeError>) {
    match t.closed {
        Some(e) => (t, Err(e)),
        None => (TrackView { closed: Some(err), ..t }, Ok(())),
    }
}

/// The mode as a reader sees it: the mode once it is fixed, and until then
/// nothing yet, or the way the track was closed.
pub open spec fn mode_spec(t: TrackView) -> Next<Mode> {
    match t.mode {
        Some(m) => Next::Ready(m),
        None => idle(t.closed),
    }
}

/// Whether a reader for `mode` is at the wrong track.
pub open spec fn wrong_mode(t: TrackView, mode: Mode) -> bool {
    t.mode is Some && t.mode != Some(mode)
}

/// The next group of a track in `Groups` mode: every group is handed out
/// as soon as it exists, whatever has become of the groups before it.
pub open spec fn next_group_spec(t: TrackView, r: GroupsReader) -> (
    GroupsReader,
    Next<GroupReader>,
) {
    if wrong_mode(t, Mode::Groups) {
        (r, Next::Failed(ServeError::Mode))
    } else if r.next < t.groups.len() {
        (
            GroupsReader { next: (r.next + 1) as usize },
            Next::Ready(GroupReader { group: r.next, index: 0 }),
        )
    } else {
        (r, idle(t.closed))
    }
}

/// The next group of a track in `Stream` mode: a group is handed out only
/// when the group before it is finished or the track is closed.
pub open spec fn next_stream_group_spec(t: TrackView, r: StreamReader) -> (
    StreamReader,
    Next<GroupReader>,
) {
    if wrong_mode(t, Mode::Stream) {
        (r, Next::Failed(ServeError::Mode))
    } else if r.next < t.groups.len() {
        if r.next == 0 || t.groups[r.next - 1].finished || t.closed is Some {
            (
                StreamReader { next: (r.next + 1) as usize },
                Next::Ready(GroupReader { group: r.next, index: 0 }),
            )
        } else {
            (r, Next::Pending)
        }
    } else {
        (r, idle(t.closed))
    }
}

/// The identifier and the priority of the group that a cursor reads, if
/// there is such a group.
pub open spec fn group_header_spec(t: TrackView, c: GroupReader) -> Option<(u64, u64)> {
    if c.group < t.groups.len() {
        Some((t.groups[c.group as int].group_id, t.groups[c.group as int].priority))
    } else {
        None
    }
}

/// The next object of a group: in the order written; after the last, the
/// end if the group is finished, else what an idle track gives.
pub open spec fn read_next_spec(t: TrackView, c: GroupReader) -> (GroupReader, Next<Seq<u8>>) {
    if c.group >= t.groups.len() {
        (c, Next::Failed(ServeError::NotFound))
    } else {
        let g = t.groups[c.group as int];
        if c.index < g.objects.len() {
            (
                GroupReader { group: c.group, index: (c.index + 1) as usize },
                Next::Ready(g.objects[c.index as int]),
            )
        } else if g.finished {
            (c, Next::End)
        } else {
            (c, idle(t.closed))
        }
    }
}

/// The next object of a track in `Objects` mode, in the order announced.
pub open spec fn next_object_spec(t: TrackView, r: ObjectsReader) -> (
    ObjectsReader,
    Next<ObjectReader>,
) {
    if wrong_mode(t, Mode::Objects) {
        (r, Next::Failed(ServeError::Mode))
    } else if r.next < t.records.len() {
        let o = t.records[r.next as int].object;
        (
            ObjectsReader { next: (r.next + 1) as usize },
            Next::Ready(
                ObjectReader {
                    record: r.next,
                    group_id: o.group_id,
                    object_id: o.object_id,
                    priority: o.priority,
                },
            ),
        )
    } else {
        (r, idle(t.closed))
    }
}

/// The payload of an object: there once the object is finished.
pub open spec fn read_all_spec(t: TrackView, o: ObjectReader) -> Next<Seq<u8>> {
    if o.record >= t.records.len() {
        Next::Failed(ServeError::NotFound)
    } else {
        let r = t.records[o.record as int];
        match r.payload {
            Some(bytes) => if r.finished {
                Next::Ready(bytes)
            } else {
                idle(t.closed)
            },
            None => idle(t.closed),
        }
    }
}

/// The next datagram of a track in `Datagrams` mode.
pub open spec fn read_datagram_spec(t: TrackView, r: DatagramsReader) -> (
    DatagramsReader,
    Next<DatagramView>,
) {
    if wrong_mode(t, Mode::Datagrams) {
        (r, Next::Failed(ServeError::Mode))
    } else if r.next < t.records.len() {
        match t.records[r.next as int].payload {
            Some(bytes) => (
                DatagramsReader { next: (r.next + 1) as usize },
                Next::Ready(DatagramView { object: t.records[r.next as int].object, payload: bytes }),
            ),
            None => (r, Next::Failed(ServeError::NotFound)),
        }
    } else {
        (r, idle(t.closed))
    }
}

/// What a read of bytes gave, as a mathematical value.
pub open spec fn bytes_of(n: Next<bytes::Bytes>) -> Next<Seq<u8>> {
    match n {
        Next::Ready(b) => Next::Ready(payload(b)),
        Next::Pending => Next::Pending,
        Next::End => Next::End,
        Next::Failed(e) => Next::Failed(e),
    }
}

/// What a read of a datagram gave, as a mathematical value.
pub open spec fn datagram_of(n: Next<Datagram>) -> Next<DatagramView> {
    match n {
        Next::Ready(d) => Next::Ready(d@),
        Next::Pending => Next::Pending,
        Next::End => Next::End,
        Next::Failed(e) => Next::Failed(e),
    }
}

impl Track {
    /// A track that nothing has been written to and that has no mode yet.
    pub fn new() -> (t: Track)
        ensures
            t@ == fresh(),
    {
        let t = Track { mode: None, groups: Vec::new(), records: Vec::new(), closed: None };
        assert(t@.groups =~= Seq::empty());
        assert(t@.records =~= Seq::empty());
        t
    }

    fn fix(&mut self, mode: Mode) -> (r: Result<(), ServeError>)
        ensures
            final(self)@ == fix_spec(old(self)@, mode).0,
            r == fix_spec(old(self)@, mode).1,
    {
        if self.closed.is_some() {
            return Err(ServeError::Cancel);
        }
        match self.mode {
            None => {
                self.mode = Some(mode);
                Ok(())
            },
            Some(m) => {
                if m == mode {
                    Ok(())
                } else {
                    Err(ServeError::Mode)
                }
            },
        }
    }

    /// Chooses `Stream` mode.
    pub fn stream(&mut self) -> (r: Result<(), ServeError>)
        ensures
            final(self)@ == fix_spec(old(self)@, Mode::Stream).0,
            r == fix_spec(old(self)@, Mode::Stream).1,
    {
        self.fix(Mode::Stream)
    }

    /// Chooses `Groups` mode.
    pub fn groups(&mut self) -> (r: Result<(), ServeError>)
        ensures
            final(self)@ == fix_spec(old(self)@, Mode::Groups).0,
            r == fix_spec(old(self)@, Mode::Groups).1,
    {
        self.fix(Mode::Groups)
    }

    /// Chooses `Objects` mode.
    pub fn objects(&mut self) -> (r: Result<(), ServeError>)
        ensures
            final(self)@ == fix_spec(old(self)@, Mode::Objects).0,
            r == fix_spec(old(self)@, Mode::Objects).1,
    {
        self.fix(Mode::Objects)
    }

    /// Chooses `Datagrams` mode.
    pub fn datagrams(&mut self) -> (r: Result<(), ServeError>)
        ensures
            final(self)@ == fix_spec(old(self)@, Mode::Datagrams).0,
            r == fix_spec(old(self)@, Mode::Datagrams).1,
    {
        self.fix(Mode::Datagrams)
    }

    fn refuse(&self, a: Mode, b: Mode) -> (r: Option<ServeError>)
        ensures
            r == refusal(self@, a, b),
    {
        if self.closed.is_some() {
            return Some(ServeError::Cancel);
        }
        match self.mode {
            Some(m) => {
                if m == a || m == b {
                    None
                } else {
                    Some(ServeError::Mode)
                }
            },
            None => Some(ServeError::Mode),
        }
    }

    fn is_wrong_mode(&self, mode: Mode) -> (r: bool)
        ensures
            r == wrong_mode(self@, mode),
    {
        match self.mode {
            Some(m) => !(m == mode),
            None => false,
        }
    }

    fn idle<T>(&self) -> (r: Next<T>)
        ensures
            r == idle::<T>(self@.closed),
    {
        match self.closed {
            None => Next::Pending,
            Some(ServeError::Done) => Next::End,
            Some(e) => Next::Failed(e),
        }
    }

    fn find_group(&self, group_id: u64) -> (r: bool)
        ensures
            r == has_group(self@.groups, group_id),
    {
        let mut i: usize = 0;
        while i < self.groups.len()
            invariant
                i <= self.groups.len(),
                forall|j: int| 0 <= j < i ==> (#[trigger] self@.groups[j]).group_id != group_id,
            decreases self.groups.len() - i,
        {
            if self.groups[i].group_id == group_id {
                assert(self@.groups[i as int].group_id == group_id);
                return true;
            }
            i += 1;
        }
        false
    }

    /// Opens a group in a track in `Stream` or `Groups` mode.
    pub fn create_group(&mut self, group_id: u64, priority: u64) -> (r: Result<usize, ServeError>)
        ensures
            final(self)@ == create_group_spec(old(self)@, group_id, priority).0,
            r == create_group_spec(old(self)@, group_id, priority).1,
    {
        if let Some(e) = self.refuse(Mode::Stream, Mode::Groups) {
            return Err(e);
        }
        if self.find_group(group_id) {
            return Err(ServeError::Duplicate);
        }
        let at = self.groups.len();
        let group = Group { group_id, priority, objects: Vec::new(), finished: false };
        assert(group@.objects =~= Seq::empty());
        self.groups.push(group);
        assert(self@.groups =~= old(self)@.groups.push(
            GroupView { group_id, priority, objects: Seq::empty(), finished: false },
        ));
        assert(self@.records =~= old(self)@.records);
        Ok(at)
    }

    /// Appends an object to a group and returns the object's identifier.
    pub fn write_object(&mut self, group: usize, bytes: bytes::Bytes) -> (r: Result<
        u64,
        ServeError,
    >)
        ensures
            final(self)@ == write_object_spec(old(self)@, group, payload(bytes)).0,
            r == write_object_spec(old(self)@, group, payload(bytes)).1,
    {
        if let Some(e) = self.refuse(Mode::Stream, Mode::Groups) {
            return Err(e);
        }
        if group >= self.groups.len() {
            return Err(ServeError::NotFound);
        }
        if self.groups[group].finished {
            return Err(ServeError::Done);
        }
        let ghost g = self@.groups[group as int];
        let id = self.groups[group].objects.len() as u64;
        self.groups[group].objects.push(bytes);
        assert(self.groups@[group as int]@.objects =~= g.objects.push(payload(bytes)));
        assert(self@.groups =~= old(self)@.groups.update(
            group as int,
            GroupView { objects: g.objects.push(payload(bytes)), ..g },
        ));
        assert(self@.records =~= old(self)@.records);
        Ok(id)
    }

    /// Finishes a group.
    pub fn finish_group(&mut self, group: usize) -> (r: Result<(), ServeError>)
        ensures
            final(self)@ == finish_group_spec(old(self)@, group).0,
            r == finish_group_spec(old(self)@, group).1,
    {
        if let Some(e) = self.refuse(Mode::Stream, Mode::Groups) {
            return Err(e);
        }
        if group >= self.groups.len() {
            return Err(ServeError::NotFound);
        }
        if self.groups[group].finished {
            return Err(ServeError::Done);
        }
        let ghost g = self@.groups[group as int];
        self.groups[group].finished = true;
        assert(self.groups@[group as int]@.objects =~= g.objects);
        assert(self@.groups =~= old(self)@.groups.update(
            group as int,
            GroupView { finished: true, ..g },
        ));
        assert(self@.records =~= old(self)@.records);
        Ok(())
    }

    /// Announces an object of a track in `Objects` mode.
    pub fn create(&mut self, object: Object) -> (r: Result<usize, ServeError>)
        ensures
            final(self)@ == create_spec(old(self)@, object).0,
            r == create_spec(old(self)@, object).1,
    {
        if let Some(e) = self.refuse(Mode::Objects, Mode::Objects) {
            return Err(e);
        }
        let at = self.records.len();
        self.records.push(Record { object, payload: None, finished: false });
        assert(self@.records =~= old(self)@.records.push(
            RecordView { object, payload: None, finished: false },
        ));
        assert(self@.groups =~= old(self)@.groups);
        Ok(at)
    }

    /// Writes the one payload of an announced object.
    pub fn write(&mut self, record: usize, bytes: bytes::Bytes) -> (r: Result<(), ServeError>)
        ensures
            final(self)@ == write_spec(old(self)@, record, payload(bytes)).0,
            r == write_spec(old(self)@, record, payload(bytes)).1,
    {
        if let Some(e) = self.refuse(Mode::Objects, Mode::Objects) {
            return Err(e);
        }
        if record >= self.records.len() {
            return Err(ServeError::NotFound);
        }
        if self.records[record].payload.is_some() || self.records[record].finished {
            return Err(ServeError::Size);
        }
        let ghost v = self@.records[record as int];
        self.records[record].payload = Some(bytes);
        assert(self@.records =~= old(self)@.records.update(
            record as int,
            RecordView { payload: Some(payload(bytes)), ..v },
        ));
        assert(self@.groups =~= old(self)@.groups);
        Ok(())
    }

    /// Finishes an object that has its payload.
    pub fn finish(&mut self, record: usize) -> (r: Result<(), ServeError>)
        ensures
            final(self)@ == finish_spec(old(self)@, record).0,
            r == finish_spec(old(self)@, record).1,
    {
        if let Some(e) = self.refuse(Mode::Objects, Mode::Objects) {
            return Err(e);
        }
        if record >= self.records.len() {
            return Err(ServeError::NotFound);
        }
        if self.records[record].finished {
            return Err(ServeError::Done);
        }
        if self.records[record].payload.is_none() {
            return Err(ServeError::Size);
        }
        let ghost v = self@.records[record as int];
        self.records[record].finished = true;
        assert(self@.records =~= old(self)@.records.update(
            record as int,
            RecordView { finished: true, ..v },
        ));
        assert(self@.groups =~= old(self)@.groups);
        Ok(())
    }

    /// Sends a datagram on a track in `Datagrams` mode.
    pub fn send(&mut self, object: Object, bytes: bytes::Bytes) -> (r: Result<(), ServeError>)
        ensures
            final(self)@ == send_spec(old(self)@, object, payload(bytes)).0,
            r == send_spec(old(self)@, object, payload(bytes)).1,
    {
        if let Some(e) = self.refuse(Mode::Datagrams, Mode::Datagrams) {
            return Err(e);
        }
        self.records.push(Record { object, payload: Some(bytes), finished: true });
        assert(self@.records =~= old(self)@.records.push(
            RecordView { object, payload: Some(payload(bytes)), finished: true },
        ));
        assert(self@.groups =~= old(self)@.groups);
        Ok(())
    }

    /// Closes the track: with `Done` in good order, with anything else as
    /// an error.
    pub fn close(&mut self, err: ServeError) -> (r: Result<(), ServeError>)
        ensures
            final(self)@ == close_spec(old(self)@, err).0,
            r == close_spec(old(self)@, err).1,
    {
        match self.closed {
            Some(e) => Err(e),
            None => {
                self.closed = Some(err);
                Ok(())
            },
        }
    }

    /// The track's mode, once the producer has chosen one.
    pub fn mode(&self) -> (r: Next<Mode>)
        ensures
            r == mode_spec(self@),
    {
        match self.mode {
            Some(m) => Next::Ready(m),
            None => self.idle(),
        }
    }

    /// Hands out the next group of a track in `Groups` mode.
    pub fn next_group(&self, reader: &mut GroupsReader) -> (r: Next<GroupReader>)
        ensures
            *final(reader) == next_group_spec(self@, *old(reader)).0,
            r == next_group_spec(self@, *old(reader)).1,
    {
        if self.is_wrong_mode(Mode::Groups) {
            Next::Failed(ServeError::Mode)
        } else if reader.next < self.groups.len() {
            let group = reader.next;
            reader.next = group + 1;
            Next::Ready(GroupReader { group, index: 0 })
        } else {
            self.idle()
        }
    }

    /// Hands out the next group of a track in `Stream` mode.
    pub fn next_stream_group(&self, reader: &mut StreamReader) -> (r: Next<GroupReader>)
        ensures
            *final(reader) == next_stream_group_spec(self@, *old(reader)).0,
            r == next_stream_group_spec(self@, *old(reader)).1,
    {
        if self.is_wrong_mode(Mode::Stream) {
            Next::Failed(ServeError::Mode)
        } else if reader.next < self.groups.len() {
            let group = reader.next;
            if group == 0 || self.groups[group - 1].finished || self.closed.is_some() {
                reader.next = group + 1;
                Next::Ready(GroupReader { group, index: 0 })
            } else {
                Next::Pending
            }
        } else {
            self.idle()
        }
    }

    /// The identifier and the priority of the group that a cursor reads.
    pub fn group_header(&self, cursor: &GroupReader) -> (r: Option<(u64, u64)>)
        ensures
            r == group_header_spec(self@, *cursor),
    {
        if cursor.group < self.groups.len() {
            let group = &self.groups[cursor.group];
            Some((group.group_id, group.priority))
        } else {
            None
        }
    }

    /// Reads the next object of a group.
    pub fn read_next(&self, cursor: &mut GroupReader) -> (r: Next<bytes::Bytes>)
        ensures
            *final(cursor) == read_next_spec(self@, *old(cursor)).0,
            bytes_of(r) == read_next_spec(self@, *old(cursor)).1,
    {
        if cursor.group >= self.groups.len() {
            return Next::Failed(ServeError::NotFound);
        }
        let group = &self.groups[cursor.group];
        if cursor.index < group.objects.len() {
            let bytes = bytes_clone(&group.objects[cursor.index]);
            cursor.index = cursor.index + 1;
            Next::Ready(bytes)
        } else if group.finished {
            Next::End
        } else {
            self.idle()
        }
    }

    /// Hands out the next object of a track in `Objects` mode.
    pub fn next_object(&self, reader: &mut ObjectsReader) -> (r: Next<ObjectReader>)
        ensures
            *final(reader) == next_object_spec(self@, *old(reader)).0,
            r == next_object_spec(self@, *old(reader)).1,
    {
        if self.is_wrong_mode(Mode::Objects) {
            Next::Failed(ServeError::Mode)
        } else if reader.next < self.records.len() {
            let record = reader.next;
            let o = self.records[record].object;
            reader.next = record + 1;
            Next::Ready(
                ObjectReader {
                    record,
                    group_id: o.group_id,
                    object_id: o.object_id,
                    priority: o.priority,
                },
            )
        } else {
            self.idle()
        }
    }

    /// Reads the payload of an object once the object is finished.
    pub fn read_all(&self, object: &ObjectReader) -> (r: Next<bytes::Bytes>)
        ensures
            bytes_of(r) == read_all_spec(self@, *object),
    {
        if object.record >= self.records.len() {
            return Next::Failed(ServeError::NotFound);
        }
        let record = &self.records[object.record];
        match &record.payload {
            Some(bytes) => {
                if record.finished {
                    Next::Ready(bytes_clone(bytes))
                } else {
                    self.idle()
                }
            },
            None => self.idle(),
        }
    }

    /// Reads the next datagram of a track in `Datagrams` mode.
    pub fn read_datagram(&self, reader: &mut DatagramsReader) -> (r: Next<Datagram>)
        ensures
            *final(reader) == read_datagram_spec(self@, *old(reader)).0,
            datagram_of(r) == read_datagram_spec(self@, *old(reader)).1,
    {
        if self.is_wrong_mode(Mode::Datagrams) {
            Next::Failed(ServeError::Mode)
        } else if reader.next < self.records.len() {
            let record = &self.records[reader.next];
            match &record.payload {
                Some(bytes) => {
                    reader.next = reader.next + 1;
                    Next::Ready(Datagram { object: record.object, payload: bytes_clone(bytes) })
                },
                None => Next::Failed(ServeError::NotFound),
            }
        } else {
            self.idle()
        }
    }
}

} // verus!
