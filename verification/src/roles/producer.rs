//! The producer: it fills a track in `Objects` mode with groups of a
//! thousand objects, each less urgent than the one before.

use crate::broadcast::payload::{bytes_from, bytes_len, payload};
use crate::broadcast::track::{
    create_spec, finish_spec, fix_spec, write_spec, Mode, Object, ServeError, Track, TrackView,
};
use crate::roles::text::{object_text, pretty_print_object};
use vstd::prelude::*;

verus! {

/// The number of objects in a group.
pub const OBJECTS_PER_GROUP: u64 = 1000;

/// The priority of the first object.
pub const FIRST_PRIORITY: u64 = 10000;

/// The length of every payload.
pub const PAYLOAD_LEN: usize = 800;

/// The byte that every payload is filled with: the letter X.
pub const PAYLOAD_BYTE: u8 = 88;

/// Why the producer made no object.
#[derive(Clone, Copy, Debug, PartialEq, Eq, Structural)]
pub enum ProducerError {
    /// The track refused it.
    Track(ServeError),
    /// No priority or group identifier is left.
    Exhausted,
}

/// Where the producer stands: the address and priority of the object that
/// comes next, and whether anything can come.
#[derive(Clone, Copy, Debug, PartialEq, Eq, Structural)]
pub struct Cursor {
    pub group_id: u64,
    pub object_id: u64,
    pub priority: u64,
    pub exhausted: bool,
}

/// An object that the producer has announced and not yet sent.
#[derive(Clone, Copy, Debug, PartialEq, Eq, Structural)]
pub struct Produced {
    pub object: Object,
    /// The object's place in the track.
    pub record: usize,
    /// Whether the object opens a new group.
    pub new_group: bool,
}

/// The producer as a mathematical value.
pub struct ProducerView {
    pub track: TrackView,
    pub cursor: Cursor,
}

/// Where every producer starts.
pub open spec fn start() -> Cursor {
    Cursor { group_id: 0, object_id: 0, priority: FIRST_PRIORITY, exhausted: false }
}

/// The object that comes next and whether it opens a new group: after the
/// last object of a group comes the first of the next.
pub open spec fn planned(c: Cursor) -> Option<(Object, bool)> {
    if c.exhausted {
        None
    } else if c.object_id >= OBJECTS_PER_GROUP {
        if c.group_id == u64::MAX {
            None
        } else {
            Some(
                (
                    Object {
                        group_id: (c.group_id + 1) as u64,
                        object_id: 0,
                        priority: c.priority,
                    },
                    true,
                ),
            )
        }
    } else {
        Some((Object { group_id: c.group_id, object_id: c.object_id, priority: c.priority }, false))
    }
}

/// Where the producer stands after `o`: one object further in the same
/// group, one step less urgent; after priority zero nothing can come.
pub open spec fn advanced(c: Cursor, o: Object) -> Cursor {
    Cursor {
        group_id: o.group_id,
        object_id: (o.object_id + 1) as u64,
        priority: if c.priority == 0 {
            0
        } else {
            (c.priority - 1) as u64
        },
        exhausted: c.priority == 0,
    }
}

/// Announcing the next object.
pub open spec fn next_object_spec(p: ProducerView) -> (ProducerView, Result<Produced, ProducerError>) {
    match planned(p.cursor) {
        None => (p, Err(ProducerError::Exhausted)),
        Some((object, new_group)) => match create_spec(p.track, object).1 {
            Err(e) => (p, Err(ProducerError::Track(e))),
            Ok(record) => (
                ProducerView {
                    track: create_spec(p.track, object).0,
                    cursor: advanced(p.cursor, object),
                },
                Ok(Produced { object, record, new_group }),
            ),
        },
    }
}

/// Sending an announced object: its payload is written, the object is
/// finished, and the line that reports it is returned.
pub open spec fn send_object_spec(p: ProducerView, produced: Produced, bytes: Seq<u8>) -> (
    ProducerView,
    Result<Seq<char>, ServeError>,
) {
    let written = write_spec(p.track, produced.record, bytes);
    match written.1 {
        Err(e) => (p, Err(e)),
        Ok(()) => (
            ProducerView { track: finish_spec(written.0, produced.record).0, ..p },
            Ok(
                object_text(
                    produced.object.group_id,
                    produced.object.object_id,
                    produced.object.priority,
                    bytes.len() as usize,
                ),
            ),
        ),
    }
}

/// The payload that every object carries.
pub open spec fn stuffing_bytes() -> Seq<u8> {
    Seq::new(PAYLOAD_LEN as nat, |i: int| PAYLOAD_BYTE)
}

/// The producer of one track.
pub struct Producer {
    track: Track,
    cursor: Cursor,
}

impl View for Producer {
    type V = ProducerView;

    closed spec fn view(&self) -> ProducerView {
        ProducerView { track: self.track@, cursor: self.cursor }
    }
}

impl Producer {
    pub fn new(track: Track) -> (p: Producer)
        ensures
            p@ == (ProducerView { track: track@, cursor: start() }),
    {
        Producer {
            track,
            cursor: Cursor { group_id: 0, object_id: 0, priority: FIRST_PRIORITY, exhausted: false },
        }
    }

    /// The track, for readers.
    pub fn track(&self) -> (t: &Track)
        ensures
            t@ == self@.track,
    {
        &self.track
    }

    /// Where the producer stands.
    pub fn cursor(&self) -> (c: Cursor)
        ensures
            c == self@.cursor,
    {
        self.cursor
    }

    /// The object that `next_object` would announce and whether it opens a
    /// new group, or nothing if the run is over.
    pub fn plan(&self) -> (r: Option<(Object, bool)>)
        ensures
            r == planned(self@.cursor),
    {
        let c = self.cursor;
        if c.exhausted {
            None
        } else if c.object_id >= OBJECTS_PER_GROUP {
            if c.group_id == u64::MAX {
                None
            } else {
                Some(
                    (Object { group_id: c.group_id + 1, object_id: 0, priority: c.priority }, true),
                )
            }
        } else {
            Some(
                (Object { group_id: c.group_id, object_id: c.object_id, priority: c.priority }, false),
            )
        }
    }

    /// Begins the run: the track is put into `Objects` mode.
    pub fn run_objects(&mut self) -> (r: Result<(), ServeError>)
        ensures
            final(self)@ == (ProducerView {
                track: fix_spec(old(self)@.track, Mode::Objects).0,
                ..old(self)@
            }),
            r == fix_spec(old(self)@.track, Mode::Objects).1,
    {
        self.track.objects()
    }

    /// The payload that every object carries.
    pub fn stuffing() -> (b: bytes::Bytes)
        ensures
            payload(b) == stuffing_bytes(),
    {
        let mut v: Vec<u8> = Vec::new();
        while v.len() < PAYLOAD_LEN
            invariant
                v@.len() <= PAYLOAD_LEN,
                forall|i: int| 0 <= i < v@.len() ==> v@[i] == PAYLOAD_BYTE,
            decreases PAYLOAD_LEN - v@.len(),
        {
            v.push(PAYLOAD_BYTE);
        }
        assert(v@ =~= stuffing_bytes());
        bytes_from(v)
    }

    /// Announces the next object of the run in the track.
    pub fn next_object(&mut self) -> (r: Result<Produced, ProducerError>)
        ensures
            final(self)@ == next_object_spec(old(self)@).0,
            r == next_object_spec(old(self)@).1,
    {
        let c = self.cursor;
        let (object, new_group) = match self.plan() {
            Some(next) => next,
            None => {
                return Err(ProducerError::Exhausted);
            },
        };
        match self.track.create(object) {
            Err(e) => Err(ProducerError::Track(e)),
            Ok(record) => {
                self.cursor = Cursor {
                    group_id: object.group_id,
                    object_id: object.object_id + 1,
                    priority: if c.priority == 0 {
                        0
                    } else {
                        c.priority - 1
                    },
                    exhausted: c.priority == 0,
                };
                Ok(Produced { object, record, new_group })
            },
        }
    }

    /// Sends an announced object and returns the line that reports it.
    pub fn send_object(&mut self, produced: &Produced, bytes: bytes::Bytes) -> (r: Result<
        String,
        ServeError,
    >)
        ensures
            final(self)@ == send_object_spec(old(self)@, *produced, payload(bytes)).0,
            match send_object_spec(old(self)@, *produced, payload(bytes)).1 {
                Ok(line) => r matches Ok(s) && s@ == line,
                Err(e) => r matches Err(f) && f == e,
            },
    {
        let len = bytes_len(&bytes);
        match self.track.write(produced.record, bytes) {
            Err(e) => Err(e),
            Ok(()) => {
                let _done = self.track.finish(produced.record);
                Ok(
                    pretty_print_object(
                        produced.object.group_id,
                        produced.object.object_id,
                        produced.object.priority,
                        len,
                    ),
                )
            },
        }
    }
}

/// Where the producer stands after `n` objects.
pub open spec fn after(n: nat) -> Cursor
    decreases n,
{
    if n == 0 {
        start()
    } else {
        match planned(after((n - 1) as nat)) {
            Some((object, _)) => advanced(after((n - 1) as nat), object),
            None => after((n - 1) as nat),
        }
    }
}

/// The run as a formula: counting from zero, object `n` is object
/// `n % 1000` of group `n / 1000` and has priority `10000 - n`; it opens a
/// new group exactly when it is the first of a group other than group
/// zero. Object 10000 is the last.
pub proof fn lemma_run(n: nat)
    requires
        n <= FIRST_PRIORITY,
    ensures
        planned(after(n)) == Some(
            (
                Object {
                    group_id: (n / 1000) as u64,
                    object_id: (n % 1000) as u64,
                    priority: (FIRST_PRIORITY - n) as u64,
                },
                n > 0 && n % 1000 == 0,
            ),
        ),
        planned(after(n + 1)) is None <==> n == FIRST_PRIORITY,
    decreases n,
{
    lemma_after(n);
    lemma_after(n + 1);
}

/// Where the producer stands after `n` objects, in closed form.
proof fn lemma_after(n: nat)
    requires
        n <= FIRST_PRIORITY + 1,
    ensures
        n == 0 ==> after(n) == start(),
        n > 0 ==> after(n) == (Cursor {
            group_id: ((n - 1) / 1000) as u64,
            object_id: ((n - 1) % 1000 + 1) as u64,
            priority: if n <= FIRST_PRIORITY {
                (FIRST_PRIORITY - n) as u64
            } else {
                0
            },
            exhausted: n > FIRST_PRIORITY,
        }),
    decreases n,
{
    if n > 0 {
        lemma_after((n - 1) as nat);
    }
}

} // verus!
