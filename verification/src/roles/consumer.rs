//! The consumer: it reads a track in whatever mode the track has and turns
//! what it reads into lines of text, one read at a time.

use crate::broadcast::payload::{bytes_len, bytes_slice, payload};
use crate::broadcast::track::{
    mode_spec, next_group_spec, next_object_spec, next_stream_group_spec, read_all_spec,
    read_datagram_spec, read_next_spec, DatagramsReader, GroupReader, GroupsReader, Mode, Next,
    ObjectReader, ObjectsReader, ServeError, StreamReader, Track, TrackView,
};
use crate::roles::text::{
    decimal, header_text, lossy, object_text, pretty_print_object, print_header, push_decimal,
    string_push, utf8_lossy,
};
use vstd::prelude::*;
use vstd::string::StringExecFns;

verus! {

/// Why the consumer gave up.
#[derive(Clone, Copy, Debug, PartialEq, Eq, Structural)]
pub enum ConsumerError {
    /// The track ended with this error.
    Track(ServeError),
    /// A group ended before its first object.
    EmptyGroup,
}

/// What one step of the consumer came to.
#[derive(Debug, PartialEq)]
pub enum Step {
    /// Print this, then step again.
    Print(String),
    /// Step again.
    Continue,
    /// Nothing to read yet: step again when the track has changed.
    Wait,
    /// The track has ended.
    Done,
    /// The consumer gives up.
    Fail(ConsumerError),
}

/// A step as a mathematical value.
pub enum StepView {
    Print(Seq<char>),
    Continue,
    Wait,
    Done,
    Fail(ConsumerError),
}

impl View for Step {
    type V = StepView;

    open spec fn view(&self) -> StepView {
        match *self {
            Step::Print(s) => StepView::Print(s@),
            Step::Continue => StepView::Continue,
            Step::Wait => StepView::Wait,
            Step::Done => StepView::Done,
            Step::Fail(e) => StepView::Fail(e),
        }
    }
}

/// The consumer as a mathematical value.
pub struct ConsumerView {
    /// Whether the opening line of `Objects` mode has been printed.
    pub started: bool,
    /// The track's mode, once seen.
    pub mode: Option<Mode>,
    pub stream: StreamReader,
    pub groups: GroupsReader,
    /// The group that is being read.
    pub group: Option<GroupReader>,
    /// The text of that group's first object, once read.
    pub base: Option<Seq<char>>,
    pub objects: ObjectsReader,
    /// The object whose payload is awaited.
    pub object: Option<ObjectReader>,
    /// The group of the object before it.
    pub prev_group: Option<u64>,
    pub datagrams: DatagramsReader,
}

/// A consumer that has read nothing.
pub open spec fn fresh_consumer() -> ConsumerView {
    ConsumerView {
        started: false,
        mode: None,
        stream: StreamReader { next: 0 },
        groups: GroupsReader { next: 0 },
        group: None,
        base: None,
        objects: ObjectsReader { next: 0 },
        object: None,
        prev_group: None,
        datagrams: DatagramsReader { next: 0 },
    }
}

/// The step that a read which gave no value comes to.
pub open spec fn halted<X>(n: Next<X>) -> StepView {
    match n {
        Next::Ready(_) => StepView::Continue,
        Next::Pending => StepView::Wait,
        Next::End => StepView::Done,
        Next::Failed(e) => StepView::Fail(ConsumerError::Track(e)),
    }
}

/// The lines that announce a new group in `Objects` mode.
pub open spec fn banner(group_id: u64) -> Seq<char> {
    "consuming group "@ + decimal(group_id as nat) + seq!['\n'] + header_text()
}

/// `Stream` mode: each object of each group is printed as text.
pub open spec fn recv_stream_spec(c: ConsumerView, t: TrackView) -> (ConsumerView, StepView) {
    match c.group {
        None => match next_stream_group_spec(t, c.stream) {
            (r, Next::Ready(g)) => (
                ConsumerView { stream: r, group: Some(g), ..c },
                StepView::Continue,
            ),
            (_, n) => (c, halted(n)),
        },
        Some(g) => match read_next_spec(t, g) {
            (g2, Next::Ready(bytes)) => (
                ConsumerView { group: Some(g2), ..c },
                StepView::Print(utf8_lossy(bytes)),
            ),
            (_, Next::End) => (ConsumerView { group: None, ..c }, StepView::Continue),
            (_, n) => (c, halted(n)),
        },
    }
}

/// `Groups` mode: the first object of a group is kept as text, and each
/// later object is printed behind it. A group without a first object is
/// an error.
pub open spec fn recv_groups_spec(c: ConsumerView, t: TrackView) -> (ConsumerView, StepView) {
    match c.group {
        None => match next_group_spec(t, c.groups) {
            (r, Next::Ready(g)) => (
                ConsumerView { groups: r, group: Some(g), base: None, ..c },
                StepView::Continue,
            ),
            (_, n) => (c, halted(n)),
        },
        Some(g) => match c.base {
            None => match read_next_spec(t, g) {
                (g2, Next::Ready(bytes)) => (
                    ConsumerView { group: Some(g2), base: Some(utf8_lossy(bytes)), ..c },
                    StepView::Continue,
                ),
                (_, Next::End) => (c, StepView::Fail(ConsumerError::EmptyGroup)),
                (_, n) => (c, halted(n)),
            },
            Some(base) => match read_next_spec(t, g) {
                (g2, Next::Ready(bytes)) => (
                    ConsumerView { group: Some(g2), ..c },
                    StepView::Print(base + utf8_lossy(bytes)),
                ),
                (_, Next::End) => (
                    ConsumerView { group: None, base: None, ..c },
                    StepView::Continue,
                ),
                (_, n) => (c, halted(n)),
            },
        },
    }
}

/// `Objects` mode: an opening line; for each object whose group differs
/// from that of the object before, the group's banner; and for each
/// object, once its payload is there, its row.
pub open spec fn recv_objects_spec(c: ConsumerView, t: TrackView) -> (ConsumerView, StepView) {
    if !c.started {
        (ConsumerView { started: true, ..c }, StepView::Print("start consuming"@))
    } else {
        match c.object {
            None => match next_object_spec(t, c.objects) {
                (r, Next::Ready(o)) => if c.prev_group != Some(o.group_id) {
                    (
                        ConsumerView {
                            objects: r,
                            object: Some(o),
                            prev_group: Some(o.group_id),
                            ..c
                        },
                        StepView::Print(banner(o.group_id)),
                    )
                } else {
                    (ConsumerView { objects: r, object: Some(o), ..c }, StepView::Continue)
                },
                (_, n) => (c, halted(n)),
            },
            Some(o) => match read_all_spec(t, o) {
                Next::Ready(bytes) => (
                    ConsumerView { object: None, ..c },
                    StepView::Print(
                        object_text(o.group_id, o.object_id, o.priority, bytes.len() as usize),
                    ),
                ),
                n => (c, halted(n)),
            },
        }
    }
}

/// `Datagrams` mode: each datagram is printed as text.
pub open spec fn recv_datagrams_spec(c: ConsumerView, t: TrackView) -> (ConsumerView, StepView) {
    match read_datagram_spec(t, c.datagrams) {
        (r, Next::Ready(d)) => (
            ConsumerView { datagrams: r, ..c },
            StepView::Print(utf8_lossy(d.payload)),
        ),
        (_, n) => (c, halted(n)),
    }
}

/// One step: the mode is asked for once and kept; from then on the
/// consumer reads as that mode has it.
pub open spec fn run_spec(c: ConsumerView, t: TrackView) -> (ConsumerView, StepView) {
    match c.mode {
        None => match mode_spec(t) {
            Next::Ready(m) => (ConsumerView { mode: Some(m), ..c }, StepView::Continue),
            n => (c, halted(n)),
        },
        Some(Mode::Stream) => recv_stream_spec(c, t),
        Some(Mode::Groups) => recv_groups_spec(c, t),
        Some(Mode::Objects) => recv_objects_spec(c, t),
        Some(Mode::Datagrams) => recv_datagrams_spec(c, t),
    }
}

/// The consumer of one track.
pub struct Consumer {
    started: bool,
    mode: Option<Mode>,
    stream: StreamReader,
    groups: GroupsReader,
    group: Option<GroupReader>,
    base: Option<String>,
    objects: ObjectsReader,
    object: Option<ObjectReader>,
    prev_group: Option<u64>,
    datagrams: DatagramsReader,
}

impl View for Consumer {
    type V = ConsumerView;

    closed spec fn view(&self) -> ConsumerView {
        ConsumerView {
            started: self.started,
            mode: self.mode,
            stream: self.stream,
            groups: self.groups,
            group: self.group,
            base: match self.base {
                Some(s) => Some(s@),
                None => None,
            },
            objects: self.objects,
            object: self.object,
            prev_group: self.prev_group,
            datagrams: self.datagrams,
        }
    }
}

fn halt<X>(n: &Next<X>) -> (s: Step)
    requires
        !(n is Ready),
    ensures
        s@ == halted(*n),
{
    match n {
        Next::Ready(_) => Step::Continue,
        Next::Pending => Step::Wait,
        Next::End => Step::Done,
        Next::Failed(e) => Step::Fail(ConsumerError::Track(*e)),
    }
}

impl Consumer {
    pub fn new() -> (c: Consumer)
        ensures
            c@ == fresh_consumer(),
    {
        Consumer {
            started: false,
            mode: None,
            stream: StreamReader { next: 0 },
            groups: GroupsReader { next: 0 },
            group: None,
            base: None,
            objects: ObjectsReader { next: 0 },
            object: None,
            prev_group: None,
            datagrams: DatagramsReader { next: 0 },
        }
    }

    /// The mode that the consumer has seen, if any.
    pub fn mode(&self) -> (m: Option<Mode>)
        ensures
            m == self@.mode,
    {
        self.mode
    }

    /// One step of the consumer on the track as it is now.
    pub fn run(&mut self, track: &Track) -> (s: Step)
        ensures
            final(self)@ == run_spec(old(self)@, track@).0,
            s@ == run_spec(old(self)@, track@).1,
    {
        match self.mode {
            None => {
                let n = track.mode();
                match n {
                    Next::Ready(m) => {
                        self.mode = Some(m);
                        Step::Continue
                    },
                    _ => halt(&n),
                }
            },
            Some(Mode::Stream) => self.recv_stream(track),
            Some(Mode::Groups) => self.recv_groups(track),
            Some(Mode::Objects) => self.recv_objects(track),
            Some(Mode::Datagrams) => self.recv_datagrams(track),
        }
    }

    /// One step in `Stream` mode.
    pub fn recv_stream(&mut self, track: &Track) -> (s: Step)
        ensures
            final(self)@ == recv_stream_spec(old(self)@, track@).0,
            s@ == recv_stream_spec(old(self)@, track@).1,
    {
        match self.group {
            None => {
                let mut reader = self.stream;
                let n = track.next_stream_group(&mut reader);
                match n {
                    Next::Ready(g) => {
                        self.stream = reader;
                        self.group = Some(g);
                        Step::Continue
                    },
                    _ => halt(&n),
                }
            },
            Some(g) => {
                let mut cursor = g;
                let n = track.read_next(&mut cursor);
                match n {
                    Next::Ready(bytes) => {
                        self.group = Some(cursor);
                        Step::Print(lossy(bytes_slice(&bytes)))
                    },
                    Next::End => {
                        self.group = None;
                        Step::Continue
                    },
                    _ => halt(&n),
                }
            },
        }
    }

    /// One step in `Groups` mode.
    pub fn recv_groups(&mut self, track: &Track) -> (s: Step)
        ensures
            final(self)@ == recv_groups_spec(old(self)@, track@).0,
            s@ == recv_groups_spec(old(self)@, track@).1,
    {
        match self.group {
            None => {
                let mut reader = self.groups;
                let n = track.next_group(&mut reader);
                match n {
                    Next::Ready(g) => {
                        self.groups = reader;
                        self.group = Some(g);
                        self.base = None;
                        Step::Continue
                    },
                    _ => halt(&n),
                }
            },
            Some(g) => {
                let mut cursor = g;
                let n = track.read_next(&mut cursor);
                match n {
                    Next::Ready(bytes) => {
                        let text = lossy(bytes_slice(&bytes));
                        self.group = Some(cursor);
                        match &self.base {
                            None => {
                                self.base = Some(text);
                                Step::Continue
                            },
                            Some(base) => {
                                let mut line = base.clone();
                                line.append(text.as_str());
                                Step::Print(line)
                            },
                        }
                    },
                    Next::End => {
                        if self.base.is_none() {
                            Step::Fail(ConsumerError::EmptyGroup)
                        } else {
                            self.group = None;
                            self.base = None;
                            Step::Continue
                        }
                    },
                    _ => halt(&n),
                }
            },
        }
    }

    /// One step in `Objects` mode.
    pub fn recv_objects(&mut self, track: &Track) -> (s: Step)
        ensures
            final(self)@ == recv_objects_spec(old(self)@, track@).0,
            s@ == recv_objects_spec(old(self)@, track@).1,
    {
        if !self.started {
            self.started = true;
            return Step::Print(String::from_str("start consuming"));
        }
        match self.object {
            None => {
                let mut reader = self.objects;
                let n = track.next_object(&mut reader);
                match n {
                    Next::Ready(o) => {
                        self.objects = reader;
                        self.object = Some(o);
                        let same = match self.prev_group {
                            Some(p) => p == o.group_id,
                            None => false,
                        };
                        if same {
                            Step::Continue
                        } else {
                            self.prev_group = Some(o.group_id);
                            let mut line = String::from_str("consuming group ");
                            push_decimal(&mut line, o.group_id);
                            string_push(&mut line, '\n');
                            let header = print_header();
                            line.append(header.as_str());
                            assert(line@ =~= banner(o.group_id));
                            Step::Print(line)
                        }
                    },
                    _ => halt(&n),
                }
            },
            Some(o) => {
                let n = track.read_all(&o);
                match n {
                    Next::Ready(bytes) => {
                        self.object = None;
                        Step::Print(
                            pretty_print_object(
                                o.group_id,
                                o.object_id,
                                o.priority,
                                bytes_len(&bytes),
                            ),
                        )
                    },
                    _ => halt(&n),
                }
            },
        }
    }

    /// One step in `Datagrams` mode.
    pub fn recv_datagrams(&mut self, track: &Track) -> (s: Step)
        ensures
            final(self)@ == recv_datagrams_spec(old(self)@, track@).0,
            s@ == recv_datagrams_spec(old(self)@, track@).1,
    {
        let mut reader = self.datagrams;
        let n = track.read_datagram(&mut reader);
        match n {
            Next::Ready(d) => {
                self.datagrams = reader;
                Step::Print(lossy(bytes_slice(&d.payload)))
            },
            _ => halt(&n),
        }
    }
}

} // verus!
