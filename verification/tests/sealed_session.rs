use relay::client::Action;
use relay::sealed::{check_pow, decode_envelope};
use relay::sealed_client::SealedClient;

// The same in-memory broker as in the direct-variant tests.
struct Broker {
    retained: Vec<(Vec<u8>, Vec<u8>)>,
    subs: Vec<Vec<Vec<u8>>>,
    queues: Vec<Vec<(Vec<u8>, Vec<u8>)>>,
}

impl Broker {
    fn new() -> Broker {
        Broker { retained: Vec::new(), subs: Vec::new(), queues: Vec::new() }
    }

    fn add_client(&mut self) -> usize {
        self.subs.push(Vec::new());
        self.queues.push(Vec::new());
        self.subs.len() - 1
    }

    fn subscribe(&mut self, c: usize, topic: Vec<u8>) {
        for (t, p) in &self.retained {
            if *t == topic {
                self.queues[c].push((t.clone(), p.clone()));
            }
        }
        self.subs[c].push(topic);
    }

    fn publish(&mut self, topic: Vec<u8>, payload: Vec<u8>, retained: bool) {
        if retained {
            self.retained.retain(|(t, _)| *t != topic);
            self.retained.push((topic.clone(), payload.clone()));
        }
        for c in 0..self.subs.len() {
            if self.subs[c].iter().any(|t| *t == topic) {
                self.queues[c].push((topic.clone(), payload.clone()));
            }
        }
    }

    fn pop(&mut self, c: usize) -> Option<(Vec<u8>, Vec<u8>)> {
        if self.queues[c].is_empty() {
            None
        } else {
            Some(self.queues[c].remove(0))
        }
    }
}

#[derive(Default)]
struct Log {
    texts: Vec<(Vec<u8>, Vec<u8>)>,
    published_envelopes: Vec<Vec<u8>>,
}

fn perform(b: &mut Broker, c: usize, actions: Vec<Action>, log: &mut Log) {
    for a in actions {
        match a {
            Action::Publish { topic, payload, retained } => {
                if topic.starts_with(b"relay/w/") || topic.ends_with(b"/m") {
                    log.published_envelopes.push(payload.clone());
                }
                b.publish(topic, payload, retained)
            },
            Action::Subscribe { topic } => b.subscribe(c, topic),
            Action::DeliverText { peer, text } => log.texts.push((peer, text)),
            Action::SessionEstablished { .. } => {},
        }
    }
}

fn drain_one(b: &mut Broker, c: usize, client: &mut SealedClient, log: &mut Log) -> bool {
    match b.pop(c) {
        Some((topic, payload)) => {
            if let Ok(acts) = client.handle_event(&topic, &payload) {
                perform(b, c, acts, log);
            }
            true
        },
        None => false,
    }
}

#[test]
fn sealed_chat_round_trip() {
    let mut broker = Broker::new();
    let a_id = vec![b'a'; 32];
    let b_id = vec![b'b'; 32];
    let mut a = SealedClient::new(a_id.clone()).unwrap();
    let mut b = SealedClient::new(b_id.clone()).unwrap();
    let ca = broker.add_client();
    let cb = broker.add_client();
    let mut log_a = Log::default();
    let mut log_b = Log::default();

    // bootstrap: both advertise a bundle and listen for welcomes
    let adv = a.publish_bundle().unwrap();
    perform(&mut broker, ca, vec![adv, a.subscribe_welcome()], &mut log_a);
    let adv = b.publish_bundle().unwrap();
    perform(&mut broker, cb, vec![adv, b.subscribe_welcome()], &mut log_b);

    // A fetches B's bundle
    let sub = a.connect(&b_id);
    perform(&mut broker, ca, vec![sub], &mut log_a);
    while drain_one(&mut broker, ca, &mut a, &mut log_a) {}

    // first chat creates the group, seals the welcome and the message
    let acts = a.send_chat(&b_id, &b"hello sealed world".to_vec()).unwrap();
    perform(&mut broker, ca, acts, &mut log_a);
    loop {
        let ma = drain_one(&mut broker, ca, &mut a, &mut log_a);
        let mb = drain_one(&mut broker, cb, &mut b, &mut log_b);
        if !ma && !mb {
            break;
        }
    }
    assert!(log_b.texts.contains(&(a_id.clone(), b"hello sealed world".to_vec())));

    // every published envelope satisfies the sixteen-bit work target
    for bytes in log_a.published_envelopes.iter().chain(log_b.published_envelopes.iter()) {
        let env = decode_envelope(bytes).expect("published payloads are envelopes");
        assert!(check_pow(&env));
    }

    // B replies through the stored outer key and the installed group
    let acts = b.send_chat(&a_id, &b"sealed reply".to_vec()).unwrap();
    perform(&mut broker, cb, acts, &mut log_b);
    loop {
        let ma = drain_one(&mut broker, ca, &mut a, &mut log_a);
        let mb = drain_one(&mut broker, cb, &mut b, &mut log_b);
        if !ma && !mb {
            break;
        }
    }
    assert!(log_a.texts.contains(&(b_id.clone(), b"sealed reply".to_vec())));
}

#[test]
fn sealed_bundle_errors_are_exact() {
    let mut a = SealedClient::new(vec![b'd'; 32]).unwrap();
    let peer_topic = relay::topics::topic_key(&vec![b'e'; 32]);
    // not a bundle at all
    assert_eq!(
        a.handle_bundle(&peer_topic, &vec![0x01, 0x02]),
        Err(relay::RelayError::Serialization)
    );
    // a bundle whose outer key is not 32 bytes
    let bad = relay::sealed_client::encode_bundle(&vec![1u8; 10], &vec![2u8; 31]).unwrap();
    assert_eq!(a.handle_bundle(&peer_topic, &bad), Err(relay::RelayError::InvalidKey));
    assert!(a.peers.is_empty());
    // a well-formed bundle is stored
    let good = relay::sealed_client::encode_bundle(&vec![1u8; 10], &vec![2u8; 32]).unwrap();
    assert!(a.handle_bundle(&peer_topic, &good).is_ok());
    assert_eq!(a.peers.len(), 1);
    assert_eq!(a.peers[0].peer_id, vec![b'e'; 32]);
    assert_eq!(a.peers[0].outer_pub, Some(vec![2u8; 32]));
}

#[test]
fn sealed_welcome_refreshes_the_sender_outer_key() {
    // after the handshake both ends hold each other's outer key: B learnt
    // A's from the welcome envelope it unsealed
    let mut broker = Broker::new();
    let a_id = vec![b'f'; 32];
    let b_id = vec![b'9'; 32];
    let mut a = SealedClient::new(a_id.clone()).unwrap();
    let mut b = SealedClient::new(b_id.clone()).unwrap();
    let ca = broker.add_client();
    let cb = broker.add_client();
    let mut log_a = Log::default();
    let mut log_b = Log::default();
    let adv = a.publish_bundle().unwrap();
    perform(&mut broker, ca, vec![adv, a.subscribe_welcome()], &mut log_a);
    let adv = b.publish_bundle().unwrap();
    perform(&mut broker, cb, vec![adv, b.subscribe_welcome()], &mut log_b);
    let sub = a.connect(&b_id);
    perform(&mut broker, ca, vec![sub], &mut log_a);
    while drain_one(&mut broker, ca, &mut a, &mut log_a) {}
    let acts = a.send_chat(&b_id, &b"hi".to_vec()).unwrap();
    perform(&mut broker, ca, acts, &mut log_a);
    loop {
        let ma = drain_one(&mut broker, ca, &mut a, &mut log_a);
        let mb = drain_one(&mut broker, cb, &mut b, &mut log_b);
        if !ma && !mb {
            break;
        }
    }
    let rec = b.peers.iter().find(|r| r.peer_id == a_id).expect("B knows A after the welcome");
    assert_eq!(rec.outer_pub.as_ref(), Some(&a.outer_public));
}

#[test]
fn sealed_bundle_of_self_is_ignored() {
    let mut broker = Broker::new();
    let a_id = vec![b'c'; 32];
    let mut a = SealedClient::new(a_id.clone()).unwrap();
    let ca = broker.add_client();
    let mut log_a = Log::default();
    let adv = a.publish_bundle().unwrap();
    let payload = match &adv {
        Action::Publish { payload, .. } => payload.clone(),
        _ => panic!("advertisement must be a publish"),
    };
    perform(&mut broker, ca, vec![adv], &mut log_a);
    let topic = relay::topics::topic_key(&a_id);
    assert!(a.handle_bundle(&topic, &payload).is_ok());
    assert!(a.peers.is_empty());
}
