use bytes::Bytes;
use moq_relay::broadcast::track::{
    Datagram, DatagramsReader, GroupReader, GroupsReader, Mode, Next, Object, ObjectReader,
    ObjectsReader, ServeError, StreamReader, Track,
};
use moq_relay::broadcast::tracks::{Subscription, Tracks};

fn bytes(text: &str) -> Bytes {
    Bytes::from(text.as_bytes().to_vec())
}

fn groups_track() -> Track {
    let mut t = Track::new();
    assert_eq!(t.groups(), Ok(()));
    t
}

#[test]
fn second_writer_for_a_live_name_is_refused() {
    let mut tracks = Tracks::new("live".to_string());
    assert_eq!(tracks.namespace(), "live");
    assert_eq!(tracks.create("video"), Ok(()));
    assert_eq!(tracks.create("video"), Err(ServeError::Duplicate));
    assert_eq!(tracks.create("audio"), Ok(()));
    assert_eq!(tracks.len(), 2);
    assert_eq!(tracks.find("video"), Some(0));
    assert_eq!(tracks.find("audio"), Some(1));
    assert_eq!(tracks.find("text"), None);
}

#[test]
fn a_removed_name_can_be_created_again() {
    let mut tracks = Tracks::new("live".to_string());
    assert_eq!(tracks.create("video"), Ok(()));
    assert_eq!(tracks.get_mut("video").unwrap().groups(), Ok(()));
    assert_eq!(tracks.create("video"), Err(ServeError::Duplicate));
    let old = tracks.remove("video").unwrap();
    assert_eq!(old.mode(), Next::Ready(Mode::Groups));
    assert_eq!(tracks.len(), 0);
    assert!(tracks.get("video").is_none());
    assert_eq!(tracks.create("video"), Ok(()));
    assert_eq!(tracks.get("video").unwrap().mode(), Next::Pending);
    assert!(tracks.remove("audio").is_none());
}

#[test]
fn same_name_in_another_namespace_is_another_track() {
    let mut a = Tracks::new("a".to_string());
    let mut b = Tracks::new("b".to_string());
    assert_eq!(a.create("video"), Ok(()));
    assert_eq!(b.create("video"), Ok(()));
    assert_eq!(a.create("video"), Err(ServeError::Duplicate));
    assert_eq!(b.create("video"), Err(ServeError::Duplicate));
}

#[test]
fn removing_one_track_keeps_the_others_in_place() {
    let mut tracks = Tracks::new("ns".to_string());
    tracks.create("a").unwrap();
    tracks.create("b").unwrap();
    tracks.create("c").unwrap();
    tracks.get_mut("c").unwrap().datagrams().unwrap();
    assert!(tracks.remove("b").is_some());
    assert_eq!(tracks.find("a"), Some(0));
    assert_eq!(tracks.find("c"), Some(1));
    assert_eq!(tracks.get("c").unwrap().mode(), Next::Ready(Mode::Datagrams));
    assert_eq!(tracks.get("a").unwrap().mode(), Next::Pending);
}

#[test]
fn a_request_for_an_unknown_name_makes_the_track_and_queues_the_name() {
    let mut tracks = Tracks::new("ns".to_string());
    assert_eq!(tracks.next_request(), None);
    assert_eq!(tracks.subscribe("video"), Subscription::Requested);
    assert_eq!(tracks.subscribe("video"), Subscription::Existing);
    assert_eq!(tracks.subscribe("audio"), Subscription::Requested);
    assert_eq!(tracks.create("video"), Err(ServeError::Duplicate));
    assert_eq!(tracks.next_request(), Some("video".to_string()));
    assert_eq!(tracks.next_request(), Some("audio".to_string()));
    assert_eq!(tracks.next_request(), None);
    assert!(tracks.get("video").is_some());
}

#[test]
fn a_request_for_a_created_track_is_not_queued() {
    let mut tracks = Tracks::new("ns".to_string());
    tracks.create("video").unwrap();
    assert_eq!(tracks.subscribe("video"), Subscription::Existing);
    assert_eq!(tracks.next_request(), None);
}

#[test]
fn what_is_written_through_get_mut_is_read_through_get() {
    let mut tracks = Tracks::new("ns".to_string());
    tracks.create("a").unwrap();
    tracks.create("b").unwrap();
    {
        let b = tracks.get_mut("b").unwrap();
        b.groups().unwrap();
        let g = b.create_group(5, 0).unwrap();
        assert_eq!(b.write_object(g, bytes("x")), Ok(0));
    }
    assert!(tracks.get_mut("zzz").is_none());
    let mut cursor = GroupReader { group: 0, index: 0 };
    assert_eq!(
        tracks.get("b").unwrap().read_next(&mut cursor),
        Next::Ready(bytes("x"))
    );
    assert_eq!(tracks.get("a").unwrap().mode(), Next::Pending);
}

#[test]
fn mode_is_pending_until_chosen() {
    let mut t = Track::new();
    assert_eq!(t.mode(), Next::Pending);
    assert_eq!(t.groups(), Ok(()));
    assert_eq!(t.mode(), Next::Ready(Mode::Groups));
}

#[test]
fn mode_once_seen_never_changes() {
    let mut t = groups_track();
    assert_eq!(t.mode(), Next::Ready(Mode::Groups));
    assert_eq!(t.stream(), Err(ServeError::Mode));
    assert_eq!(t.objects(), Err(ServeError::Mode));
    assert_eq!(t.datagrams(), Err(ServeError::Mode));
    assert_eq!(t.groups(), Ok(()));
    assert_eq!(t.mode(), Next::Ready(Mode::Groups));
    let object = Object { group_id: 0, object_id: 0, priority: 0 };
    assert_eq!(t.create(object), Err(ServeError::Mode));
    assert_eq!(t.write(0, bytes("x")), Err(ServeError::Mode));
    assert_eq!(t.finish(0), Err(ServeError::Mode));
    assert_eq!(t.send(object, bytes("x")), Err(ServeError::Mode));
    assert_eq!(t.mode(), Next::Ready(Mode::Groups));
    let g = t.create_group(0, 0).unwrap();
    t.write_object(g, bytes("a")).unwrap();
    t.finish_group(g).unwrap();
    t.close(ServeError::Done).unwrap();
    assert_eq!(t.mode(), Next::Ready(Mode::Groups));
}

#[test]
fn each_mode_refuses_the_writers_of_the_others() {
    let object = Object { group_id: 1, object_id: 2, priority: 3 };

    let mut t = Track::new();
    t.objects().unwrap();
    assert_eq!(t.create_group(0, 0), Err(ServeError::Mode));
    assert_eq!(t.write_object(0, bytes("x")), Err(ServeError::Mode));
    assert_eq!(t.finish_group(0), Err(ServeError::Mode));
    assert_eq!(t.send(object, bytes("x")), Err(ServeError::Mode));
    assert_eq!(t.create(object), Ok(0));

    let mut t = Track::new();
    t.datagrams().unwrap();
    assert_eq!(t.create(object), Err(ServeError::Mode));
    assert_eq!(t.create_group(0, 0), Err(ServeError::Mode));
    assert_eq!(t.send(object, bytes("x")), Ok(()));

    let mut t = Track::new();
    t.stream().unwrap();
    assert_eq!(t.create(object), Err(ServeError::Mode));
    assert_eq!(t.send(object, bytes("x")), Err(ServeError::Mode));
    assert_eq!(t.create_group(0, 0), Ok(0));

    let mut t = Track::new();
    assert_eq!(t.create_group(0, 0), Err(ServeError::Mode));
    assert_eq!(t.create(object), Err(ServeError::Mode));
    assert_eq!(t.send(object, bytes("x")), Err(ServeError::Mode));
    assert_eq!(t.mode(), Next::Pending);
}

#[test]
fn readers_of_another_mode_are_refused() {
    let t = groups_track();
    assert_eq!(
        t.next_stream_group(&mut StreamReader { next: 0 }),
        Next::Failed(ServeError::Mode)
    );
    assert_eq!(
        t.next_object(&mut ObjectsReader { next: 0 }),
        Next::Failed(ServeError::Mode)
    );
    assert_eq!(
        t.read_datagram(&mut DatagramsReader { next: 0 }),
        Next::Failed(ServeError::Mode)
    );
    assert_eq!(t.next_group(&mut GroupsReader { next: 0 }), Next::Pending);
}

#[test]
fn group_two_is_available_while_group_one_is_unread_and_unfinished() {
    let mut t = groups_track();
    let g1 = t.create_group(1, 0).unwrap();
    assert_eq!(t.write_object(g1, bytes("one-a")), Ok(0));

    let mut slow = GroupsReader { next: 0 };
    let slow_group = match t.next_group(&mut slow) {
        Next::Ready(g) => g,
        other => panic!("no first group: {:?}", other),
    };
    assert_eq!(slow_group, GroupReader { group: 0, index: 0 });

    let g2 = t.create_group(2, 0).unwrap();
    assert_eq!(t.write_object(g2, bytes("two-a")), Ok(0));
    assert_eq!(t.write_object(g2, bytes("two-b")), Ok(1));
    assert_eq!(t.finish_group(g2), Ok(()));

    let mut fast = GroupsReader { next: 1 };
    let mut cursor = match t.next_group(&mut fast) {
        Next::Ready(g) => g,
        other => panic!("no second group: {:?}", other),
    };
    assert_eq!(t.read_next(&mut cursor), Next::Ready(bytes("two-a")));
    assert_eq!(t.read_next(&mut cursor), Next::Ready(bytes("two-b")));
    assert_eq!(t.read_next(&mut cursor), Next::End);

    let mut same = slow;
    let mut second = match t.next_group(&mut same) {
        Next::Ready(g) => g,
        other => panic!("no second group: {:?}", other),
    };
    assert_eq!(second.group, 1);
    assert_eq!(t.read_next(&mut second), Next::Ready(bytes("two-a")));

    let mut first = slow_group;
    assert_eq!(t.read_next(&mut first), Next::Ready(bytes("one-a")));
    assert_eq!(t.read_next(&mut first), Next::Pending);
}

#[test]
fn stream_mode_waits_for_the_group_before() {
    let mut t = Track::new();
    t.stream().unwrap();
    let g1 = t.create_group(1, 0).unwrap();
    let g2 = t.create_group(2, 0).unwrap();
    t.write_object(g2, bytes("two")).unwrap();
    let mut r = StreamReader { next: 0 };
    assert_eq!(
        t.next_stream_group(&mut r),
        Next::Ready(GroupReader { group: 0, index: 0 })
    );
    assert_eq!(r, StreamReader { next: 1 });
    assert_eq!(t.next_stream_group(&mut r), Next::Pending);
    assert_eq!(r, StreamReader { next: 1 });
    t.finish_group(g1).unwrap();
    assert_eq!(
        t.next_stream_group(&mut r),
        Next::Ready(GroupReader { group: 1, index: 0 })
    );
    assert_eq!(t.next_stream_group(&mut r), Next::Pending);
    t.close(ServeError::Done).unwrap();
    assert_eq!(t.next_stream_group(&mut r), Next::End);
}

#[test]
fn objects_of_a_group_come_in_write_order() {
    let mut t = groups_track();
    let g = t.create_group(9, 4).unwrap();
    for (i, text) in ["a", "b", "c", "d"].iter().enumerate() {
        assert_eq!(t.write_object(g, bytes(text)), Ok(i as u64));
    }
    let mut c = GroupReader { group: g, index: 0 };
    for (i, text) in ["a", "b", "c", "d"].iter().enumerate() {
        assert_eq!(c.index, i);
        assert_eq!(t.read_next(&mut c), Next::Ready(bytes(text)));
    }
    assert_eq!(t.read_next(&mut c), Next::Pending);
    assert_eq!(c.index, 4);
    t.finish_group(g).unwrap();
    assert_eq!(t.read_next(&mut c), Next::End);
    assert_eq!(t.write_object(g, bytes("e")), Err(ServeError::Done));
    assert_eq!(t.finish_group(g), Err(ServeError::Done));
}

#[test]
fn two_readers_of_one_group_see_the_same_objects() {
    let mut t = groups_track();
    let g = t.create_group(0, 0).unwrap();
    t.write_object(g, bytes("x")).unwrap();
    t.write_object(g, bytes("y")).unwrap();
    let mut a = GroupReader { group: g, index: 0 };
    let mut b = a;
    assert_eq!(t.read_next(&mut a), Next::Ready(bytes("x")));
    assert_eq!(t.read_next(&mut a), Next::Ready(bytes("y")));
    assert_eq!(t.read_next(&mut b), Next::Ready(bytes("x")));
    assert_eq!(t.read_next(&mut b), Next::Ready(bytes("y")));
}

#[test]
fn a_cursor_tells_its_group() {
    let mut t = groups_track();
    t.create_group(7, 3).unwrap();
    t.create_group(2, 9).unwrap();
    assert_eq!(t.group_header(&GroupReader { group: 0, index: 0 }), Some((7, 3)));
    assert_eq!(t.group_header(&GroupReader { group: 1, index: 5 }), Some((2, 9)));
    assert_eq!(t.group_header(&GroupReader { group: 2, index: 0 }), None);
}

#[test]
fn group_identifiers_are_unique_within_a_track() {
    let mut t = groups_track();
    assert_eq!(t.create_group(7, 0), Ok(0));
    assert_eq!(t.create_group(3, 0), Ok(1));
    assert_eq!(t.create_group(7, 1), Err(ServeError::Duplicate));
    assert_eq!(t.write_object(2, bytes("x")), Err(ServeError::NotFound));
    assert_eq!(t.finish_group(2), Err(ServeError::NotFound));
    assert_eq!(
        t.read_next(&mut GroupReader { group: 2, index: 0 }),
        Next::Failed(ServeError::NotFound)
    );
}

#[test]
fn an_object_takes_one_payload_and_is_then_finished() {
    let mut t = Track::new();
    t.objects().unwrap();
    let object = Object { group_id: 3, object_id: 4, priority: 5 };
    let r = t.create(object).unwrap();
    assert_eq!(t.finish(r), Err(ServeError::Size));
    assert_eq!(t.write(r, bytes("payload")), Ok(()));
    assert_eq!(t.write(r, bytes("again")), Err(ServeError::Size));
    assert_eq!(t.write(r + 1, bytes("x")), Err(ServeError::NotFound));
    assert_eq!(t.finish(r + 1), Err(ServeError::NotFound));

    let mut reader = ObjectsReader { next: 0 };
    let o = match t.next_object(&mut reader) {
        Next::Ready(o) => o,
        other => panic!("no object: {:?}", other),
    };
    assert_eq!(
        o,
        ObjectReader { record: 0, group_id: 3, object_id: 4, priority: 5 }
    );
    assert_eq!(t.read_all(&o), Next::Pending);
    assert_eq!(t.finish(r), Ok(()));
    assert_eq!(t.finish(r), Err(ServeError::Done));
    assert_eq!(t.write(r, bytes("late")), Err(ServeError::Size));
    assert_eq!(t.read_all(&o), Next::Ready(bytes("payload")));
    assert_eq!(t.next_object(&mut reader), Next::Pending);
    assert_eq!(
        t.read_all(&ObjectReader { record: 5, group_id: 0, object_id: 0, priority: 0 }),
        Next::Failed(ServeError::NotFound)
    );
}

#[test]
fn objects_are_handed_out_in_the_order_announced() {
    let mut t = Track::new();
    t.objects().unwrap();
    let ids = [(0u64, 0u64), (0, 1), (1, 0), (0, 2)];
    for (g, o) in ids {
        t.create(Object { group_id: g, object_id: o, priority: 9 }).unwrap();
    }
    let mut reader = ObjectsReader { next: 0 };
    for (i, (g, o)) in ids.iter().enumerate() {
        assert_eq!(
            t.next_object(&mut reader),
            Next::Ready(ObjectReader { record: i, group_id: *g, object_id: *o, priority: 9 })
        );
    }
    assert_eq!(t.next_object(&mut reader), Next::Pending);
}

#[test]
fn datagrams_are_read_whole() {
    let mut t = Track::new();
    t.datagrams().unwrap();
    let a = Object { group_id: 1, object_id: 0, priority: 2 };
    let b = Object { group_id: 0, object_id: 7, priority: 1 };
    t.send(a, bytes("first")).unwrap();
    t.send(b, bytes("second")).unwrap();
    let mut r = DatagramsReader { next: 0 };
    assert_eq!(
        t.read_datagram(&mut r),
        Next::Ready(Datagram { object: a, payload: bytes("first") })
    );
    assert_eq!(
        t.read_datagram(&mut r),
        Next::Ready(Datagram { object: b, payload: bytes("second") })
    );
    assert_eq!(t.read_datagram(&mut r), Next::Pending);
    assert_eq!(r, DatagramsReader { next: 2 });
}

#[test]
fn a_clean_close_is_the_end_for_readers() {
    let mut t = groups_track();
    let g = t.create_group(0, 0).unwrap();
    t.write_object(g, bytes("x")).unwrap();
    assert_eq!(t.close(ServeError::Done), Ok(()));
    let mut c = GroupReader { group: g, index: 0 };
    assert_eq!(t.read_next(&mut c), Next::Ready(bytes("x")));
    assert_eq!(t.read_next(&mut c), Next::End);
    let mut r = GroupsReader { next: 1 };
    assert_eq!(t.next_group(&mut r), Next::End);
}

#[test]
fn a_close_with_an_error_is_told_apart_from_a_clean_one() {
    let mut t = groups_track();
    let g = t.create_group(0, 0).unwrap();
    assert_eq!(t.close(ServeError::Closed(42)), Ok(()));
    let mut c = GroupReader { group: g, index: 0 };
    assert_eq!(t.read_next(&mut c), Next::Failed(ServeError::Closed(42)));
    assert_eq!(
        t.next_group(&mut GroupsReader { next: 1 }),
        Next::Failed(ServeError::Closed(42))
    );
    assert_eq!(t.close(ServeError::Done), Err(ServeError::Closed(42)));

    let mut u = Track::new();
    assert_eq!(u.close(ServeError::Cancel), Ok(()));
    assert_eq!(u.mode(), Next::Failed(ServeError::Cancel));
    let mut v = Track::new();
    assert_eq!(v.close(ServeError::Done), Ok(()));
    assert_eq!(v.mode(), Next::End);
}

#[test]
fn a_closed_track_takes_no_writes() {
    let mut t = groups_track();
    let g = t.create_group(0, 0).unwrap();
    t.close(ServeError::Done).unwrap();
    assert_eq!(t.write_object(g, bytes("x")), Err(ServeError::Cancel));
    assert_eq!(t.create_group(1, 0), Err(ServeError::Cancel));
    assert_eq!(t.finish_group(g), Err(ServeError::Cancel));
    assert_eq!(t.groups(), Err(ServeError::Cancel));
    assert_eq!(t.stream(), Err(ServeError::Cancel));
}
