use satrelay::actors::fetch_sat_ids;
use satrelay::actors::CubeSat;
use satrelay::actors::GroundStation;
use satrelay::mailbox::MailBox;
use satrelay::mailbox::Message;

#[test]
fn deliver_on_empty_mailbox_returns_none() {
    let mut mb = MailBox::new();
    let sat = CubeSat { id: 1 };
    assert!(sat.recv(&mut mb).is_none());
    assert_eq!(mb.len(), 0);
}

#[test]
fn deliver_without_match_leaves_queue_unchanged() {
    let mut mb = MailBox::new();
    mb.post(Message::new(5, String::from("for five")));
    let sat9 = CubeSat { id: 9 };
    assert!(sat9.recv(&mut mb).is_none());
    assert_eq!(mb.len(), 1);
    let sat5 = CubeSat { id: 5 };
    let got = sat5.recv(&mut mb).expect("the queued message is still retrievable");
    assert_eq!(got.to, 5);
    assert_eq!(got.content, "for five");
    assert_eq!(mb.len(), 0);
}

#[test]
fn same_id_drains_in_fifo_order() {
    let mut mb = MailBox::new();
    mb.post(Message::new(1, String::from("first")));
    mb.post(Message::new(1, String::from("second")));
    let sat = CubeSat { id: 1 };
    assert_eq!(sat.recv(&mut mb).expect("two queued").content, "first");
    assert_eq!(sat.recv(&mut mb).expect("one queued").content, "second");
    assert!(sat.recv(&mut mb).is_none());
    assert_eq!(mb.len(), 0);
}

#[test]
fn earliest_match_leaves_others_in_order() {
    let mut mb = MailBox::new();
    mb.post(Message::new(1, String::from("a")));
    mb.post(Message::new(2, String::from("b")));
    mb.post(Message::new(1, String::from("c")));
    let sat2 = CubeSat { id: 2 };
    assert_eq!(sat2.recv(&mut mb).expect("a match exists").content, "b");
    let sat1 = CubeSat { id: 1 };
    assert_eq!(sat1.recv(&mut mb).expect("two matches left").content, "a");
    assert_eq!(sat1.recv(&mut mb).expect("one match left").content, "c");
    assert_eq!(mb.len(), 0);
}

#[test]
fn end_to_end_each_satellite_gets_its_message() {
    let mut mb = MailBox::new();
    let base = GroundStation { radio_freq_khz: 84_320 };
    for id in fetch_sat_ids() {
        let sat = base.connect(id);
        base.send(&mut mb, Message::new(sat.id, String::from("hello")));
    }
    for id in fetch_sat_ids() {
        let sat = base.connect(id);
        let msg = sat.recv(&mut mb).expect("one message was posted per id");
        assert_eq!(msg.to, id);
        assert_eq!(msg.content, "hello");
    }
    assert_eq!(mb.len(), 0);
}

#[test]
fn connect_twice_yields_equal_satellites() {
    let base = GroundStation { radio_freq_khz: 84_320 };
    let a = base.connect(7);
    let b = base.connect(7);
    assert_eq!(a.id, 7);
    assert_eq!(b.id, 7);
    assert_eq!(a.id, b.id);
}

#[test]
fn message_construction_is_deterministic() {
    let a = Message::new(3, String::from("ping"));
    let b = Message::new(3, String::from("ping"));
    assert_eq!(a.to, b.to);
    assert_eq!(a.content, b.content);
}

#[test]
fn fetch_sat_ids_is_fixed() {
    let ids = fetch_sat_ids();
    assert_eq!(ids, vec![1, 2, 3]);
}

#[test]
fn post_appends_to_the_back() {
    let mut mb = MailBox::new();
    mb.post(Message::new(4, String::from("early")));
    mb.post(Message::new(4, String::from("late")));
    assert_eq!(mb.len(), 2);
    let sat = CubeSat { id: 4 };
    assert_eq!(sat.recv(&mut mb).expect("front of the queue").content, "early");
    assert_eq!(mb.len(), 1);
}
