use relay::client::{Action, ConnectOutcome, RelayClient};
use relay::topics::topic_key;
use relay::RelayError;

// An in-memory broker: retained messages are stored and redelivered to new
// subscribers of the topic; live publishes go to every current subscriber,
// including the publisher itself.
struct Broker {
    retained: Vec<(Vec<u8>, Vec<u8>)>,
    subs: Vec<Vec<Vec<u8>>>,
    queues: Vec<Vec<(Vec<u8>, Vec<u8>)>>,
}

impl Broker {
    fn new() -> Broker {
        Broker { retained: Vec::new(), subs: Vec::new(), queues: Vec::new() }
    }

    fn add_client(&mut self) -> usize {
        self.subs.push(Vec::new());
        self.queues.push(Vec::new());
        self.subs.len() - 1
    }

    fn subscribe(&mut self, c: usize, topic: Vec<u8>) {
        for (t, p) in &self.retained {
            if *t == topic {
                self.queues[c].push((t.clone(), p.clone()));
            }
        }
        self.subs[c].push(topic);
    }

    fn publish(&mut self, topic: Vec<u8>, payload: Vec<u8>, retained: bool) {
        if retained {
            self.retained.retain(|(t, _)| *t != topic);
            self.retained.push((topic.clone(), payload.clone()));
        }
        for c in 0..self.subs.len() {
            if self.subs[c].iter().any(|t| *t == topic) {
                self.queues[c].push((topic.clone(), payload.clone()));
            }
        }
    }

    fn retained_on(&self, topic: &[u8]) -> Option<Vec<u8>> {
        self.retained.iter().find(|(t, _)| t == topic).map(|(_, p)| p.clone())
    }

    fn pop(&mut self, c: usize) -> Option<(Vec<u8>, Vec<u8>)> {
        if self.queues[c].is_empty() {
            None
        } else {
            Some(self.queues[c].remove(0))
        }
    }
}

#[derive(Default)]
struct Log {
    texts: Vec<(Vec<u8>, Vec<u8>)>,
    sessions: Vec<Vec<u8>>,
}

fn perform(b: &mut Broker, c: usize, actions: Vec<Action>, log: &mut Log) {
    for a in actions {
        match a {
            Action::Publish { topic, payload, retained } => b.publish(topic, payload, retained),
            Action::Subscribe { topic } => b.subscribe(c, topic),
            Action::DeliverText { peer, text } => log.texts.push((peer, text)),
            Action::SessionEstablished { peer } => log.sessions.push(peer),
        }
    }
}

fn bootstrap(b: &mut Broker, c: usize, client: &RelayClient, log: &mut Log) {
    let a1 = client.publish_key_package().unwrap();
    perform(b, c, vec![a1], log);
    let a2 = client.subscribe_welcome();
    perform(b, c, vec![a2], log);
}

fn drain_one(b: &mut Broker, c: usize, client: &mut RelayClient, log: &mut Log) -> bool {
    match b.pop(c) {
        Some((topic, payload)) => {
            if let Ok(acts) = client.handle_event(&topic, &payload) {
                perform(b, c, acts, log);
            }
            true
        },
        None => false,
    }
}

fn id_of(byte: u8) -> Vec<u8> {
    vec![byte; 32]
}

struct Pair {
    broker: Broker,
    a: RelayClient,
    b: RelayClient,
    ca: usize,
    cb: usize,
    log_a: Log,
    log_b: Log,
}

fn bootstrapped_pair() -> Pair {
    let mut broker = Broker::new();
    let a = RelayClient::new(id_of(b'1')).unwrap();
    let b = RelayClient::new(id_of(b'2')).unwrap();
    let ca = broker.add_client();
    let cb = broker.add_client();
    let mut log_a = Log::default();
    let mut log_b = Log::default();
    bootstrap(&mut broker, ca, &a, &mut log_a);
    bootstrap(&mut broker, cb, &b, &mut log_b);
    Pair { broker, a, b, ca, cb, log_a, log_b }
}

fn pump(p: &mut Pair) {
    loop {
        let moved_a = drain_one(&mut p.broker, p.ca, &mut p.a, &mut p.log_a);
        let moved_b = drain_one(&mut p.broker, p.cb, &mut p.b, &mut p.log_b);
        if !moved_a && !moved_b {
            break;
        }
    }
}

fn handshake(p: &mut Pair) {
    let (outcome, acts) = p.a.connect(&id_of(b'2')).unwrap();
    assert_eq!(outcome, ConnectOutcome::Pending);
    perform(&mut p.broker, p.ca, acts, &mut p.log_a);
    pump(p);
}

#[test]
fn s1_symmetric_handshake() {
    let mut p = bootstrapped_pair();
    handshake(&mut p);
    // both ends report the session with the other
    assert!(p.log_a.sessions.contains(&id_of(b'2')));
    assert!(p.log_b.sessions.contains(&id_of(b'1')));
    // and a second connect is a no-op
    let (outcome, acts) = p.a.connect(&id_of(b'2')).unwrap();
    assert_eq!(outcome, ConnectOutcome::AlreadyConnected);
    assert!(acts.is_empty());
}

#[test]
fn p2_handshake_safety_members_agree() {
    let mut p = bootstrapped_pair();
    handshake(&mut p);
    let mut members_a = p.a.group_members(&id_of(b'2')).unwrap();
    let mut members_b = p.b.group_members(&id_of(b'1')).unwrap();
    members_a.sort();
    members_b.sort();
    assert_eq!(members_a, members_b);
    assert_eq!(members_a, vec![id_of(b'1'), id_of(b'2')]);
}

#[test]
fn s2_chat_round_trip() {
    let mut p = bootstrapped_pair();
    handshake(&mut p);
    let acts = p.a.send(&b"22".to_vec(), &b"hello world".to_vec()).unwrap();
    perform(&mut p.broker, p.ca, acts, &mut p.log_a);
    pump(&mut p);
    assert!(p.log_b.texts.contains(&(id_of(b'1'), b"hello world".to_vec())));
    let acts = p.b.send(&b"11".to_vec(), &b"hi back".to_vec()).unwrap();
    perform(&mut p.broker, p.cb, acts, &mut p.log_b);
    pump(&mut p);
    assert!(p.log_a.texts.contains(&(id_of(b'2'), b"hi back".to_vec())));
}

#[test]
fn p3_message_round_trip_is_byte_exact() {
    let mut p = bootstrapped_pair();
    handshake(&mut p);
    // arbitrary bytes, not UTF-8
    let m: Vec<u8> = vec![0, 159, 146, 150, 255, 1, 2, 3];
    let acts = p.a.send(&id_of(b'2'), &m).unwrap();
    perform(&mut p.broker, p.ca, acts, &mut p.log_a);
    pump(&mut p);
    let got = p.log_b.texts.iter().find(|(peer, _)| *peer == id_of(b'1')).unwrap();
    assert_eq!(got.1, m);
}

#[test]
fn own_publishes_echoed_by_the_broker_are_dropped() {
    let mut p = bootstrapped_pair();
    handshake(&mut p);
    let acts = p.a.send(&id_of(b'2'), &b"echo test".to_vec()).unwrap();
    perform(&mut p.broker, p.ca, acts, &mut p.log_a);
    // the broker echoes the publish back to the sender, who subscribed to
    // the group topic as well; the client must drop it silently
    let (topic, payload) = p.broker.pop(p.ca).unwrap();
    let r = p.a.handle_event(&topic, &payload);
    assert_eq!(r, Ok(vec![]));
}

#[test]
fn s3_prefix_routing() {
    let mut p = bootstrapped_pair();
    handshake(&mut p);
    // a unique prefix is accepted
    let acts = p.a.send(&b"22".to_vec(), &b"msg".to_vec()).unwrap();
    perform(&mut p.broker, p.ca, acts, &mut p.log_a);
    pump(&mut p);
    // a second peer whose identifier also starts with 22 makes it ambiguous
    let mut c_id = vec![b'2'; 32];
    c_id[2] = b'9';
    let c = RelayClient::new(c_id.clone()).unwrap();
    let cc = p.broker.add_client();
    let mut log_c = Log::default();
    bootstrap(&mut p.broker, cc, &c, &mut log_c);
    let (_, acts) = p.a.connect(&c_id).unwrap();
    perform(&mut p.broker, p.ca, acts, &mut p.log_a);
    pump(&mut p);
    assert_eq!(p.a.send(&b"22".to_vec(), &b"msg".to_vec()), Err(RelayError::AmbiguousPeer));
    // and an unknown prefix stays unknown
    assert_eq!(p.a.send(&b"zz".to_vec(), &b"msg".to_vec()), Err(RelayError::UnknownPeer));
}

#[test]
fn s4_connect_before_key() {
    let mut broker = Broker::new();
    let mut a = RelayClient::new(id_of(b'1')).unwrap();
    let ca = broker.add_client();
    let mut log_a = Log::default();
    bootstrap(&mut broker, ca, &a, &mut log_a);
    // connect before the peer has published anything
    let (outcome, acts) = a.connect(&id_of(b'3')).unwrap();
    assert_eq!(outcome, ConnectOutcome::Pending);
    perform(&mut broker, ca, acts, &mut log_a);
    assert!(log_a.sessions.is_empty());
    // the peer appears later
    let mut b = RelayClient::new(id_of(b'3')).unwrap();
    let cb = broker.add_client();
    let mut log_b = Log::default();
    bootstrap(&mut broker, cb, &b, &mut log_b);
    loop {
        let ma = drain_one(&mut broker, ca, &mut a, &mut log_a);
        let mb = drain_one(&mut broker, cb, &mut b, &mut log_b);
        if !ma && !mb {
            break;
        }
    }
    assert!(log_a.sessions.contains(&id_of(b'3')));
    assert!(log_b.sessions.contains(&id_of(b'1')));
}

#[test]
fn s5_duplicate_welcome() {
    let mut p = bootstrapped_pair();
    let (_, acts) = p.a.connect(&id_of(b'2')).unwrap();
    perform(&mut p.broker, p.ca, acts, &mut p.log_a);
    // A's key-package arrival at... B published first, so A's connect waits
    // for B's retained key package; drain A once to trigger establishment
    while drain_one(&mut p.broker, p.ca, &mut p.a, &mut p.log_a) {}
    // B's queue now holds the welcome; deliver it twice
    let (topic, payload) = p.broker.pop(p.cb).unwrap();
    assert!(topic.starts_with(b"relay/w/"));
    let first = p.b.handle_event(&topic, &payload).unwrap();
    perform(&mut p.broker, p.cb, first, &mut p.log_b);
    let second = p.b.handle_event(&topic, &payload);
    // the welcome's key material was consumed; the replay is an error and
    // the client stays live
    assert!(second.is_err());
    pump(&mut p);
    // chatting still works on the installed group
    let acts = p.a.send(&id_of(b'2'), &b"still alive".to_vec()).unwrap();
    perform(&mut p.broker, p.ca, acts, &mut p.log_a);
    pump(&mut p);
    assert!(p.log_b.texts.contains(&(id_of(b'1'), b"still alive".to_vec())));
}

#[test]
fn p5_key_package_single_use() {
    let mut p = bootstrapped_pair();
    let before = p.broker.retained_on(&topic_key(&id_of(b'2'))).unwrap();
    handshake(&mut p);
    // B republished a fresh key package after joining; the bytes differ
    let after = p.broker.retained_on(&topic_key(&id_of(b'2'))).unwrap();
    assert_ne!(before, after);
    // a third party consumes the fresh one
    let mut c = RelayClient::new(id_of(b'4')).unwrap();
    let cc = p.broker.add_client();
    let mut log_c = Log::default();
    bootstrap(&mut p.broker, cc, &c, &mut log_c);
    let (_, acts) = c.connect(&id_of(b'2')).unwrap();
    perform(&mut p.broker, cc, acts, &mut log_c);
    loop {
        let mc = drain_one(&mut p.broker, cc, &mut c, &mut log_c);
        let mb = drain_one(&mut p.broker, p.cb, &mut p.b, &mut p.log_b);
        if !mc && !mb {
            break;
        }
    }
    assert!(log_c.sessions.contains(&id_of(b'2')));
    assert!(p.log_b.sessions.contains(&id_of(b'4')));
}

#[test]
fn p8_self_publish_is_a_no_op() {
    let mut p = bootstrapped_pair();
    let my_kp = p.broker.retained_on(&topic_key(&id_of(b'1'))).unwrap();
    let peers_before = p.a.peers();
    let r = p.a.handle_event(&topic_key(&id_of(b'1')), &my_kp);
    assert_eq!(r, Ok(vec![]));
    assert_eq!(p.a.peers(), peers_before);
}

#[test]
fn peers_listing_tracks_sessions() {
    let mut p = bootstrapped_pair();
    assert!(p.a.peers().is_empty());
    handshake(&mut p);
    let listing = p.a.peers();
    assert_eq!(listing.len(), 1);
    assert_eq!(listing[0].0, id_of(b'2'));
    assert!(listing[0].1);
}

#[test]
fn chat_without_session_is_refused() {
    let mut broker = Broker::new();
    let mut a = RelayClient::new(id_of(b'1')).unwrap();
    let ca = broker.add_client();
    let mut log_a = Log::default();
    bootstrap(&mut broker, ca, &a, &mut log_a);
    assert_eq!(a.send(&id_of(b'2'), &b"hi".to_vec()), Err(RelayError::UnknownPeer));
}
