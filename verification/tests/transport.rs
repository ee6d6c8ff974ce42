use std::collections::HashMap;
use std::sync::{Arc, Mutex};
use std::time::Duration;

use actix::{Actor, ActorContext, Addr, Context, Handler, Message, Recipient, System};

use chat_relay::broadcaster::{broadcast, Delivery};
use chat_relay::registry::{ConnId, Liveness, Registry};
use chat_relay::session::{Event, Frame, Session, SessionState};

const A: ConnId = 1;
const B: ConnId = 2;
const C: ConnId = 3;

struct Push(String);

impl Message for Push {
    type Result = ();
}

struct Stop;

impl Message for Stop {
    type Result = ();
}

struct Flush;

impl Message for Flush {
    type Result = usize;
}

/// A client at the far end of a channel: it keeps what it is pushed.
struct Client {
    inbox: Arc<Mutex<Vec<String>>>,
}

impl Actor for Client {
    type Context = Context<Self>;
}

impl Handler<Push> for Client {
    type Result = ();

    fn handle(&mut self, msg: Push, _ctx: &mut Context<Self>) {
        self.inbox.lock().unwrap().push(msg.0);
    }
}

impl Handler<Stop> for Client {
    type Result = ();

    fn handle(&mut self, _msg: Stop, ctx: &mut Context<Self>) {
        ctx.stop();
    }
}

impl Handler<Flush> for Client {
    type Result = usize;

    fn handle(&mut self, _msg: Flush, _ctx: &mut Context<Self>) -> usize {
        self.inbox.lock().unwrap().len()
    }
}

/// The channels of a running transport, by handle.
struct Transport {
    clients: HashMap<ConnId, Addr<Client>>,
    channels: HashMap<ConnId, Recipient<Push>>,
    inboxes: HashMap<ConnId, Arc<Mutex<Vec<String>>>>,
}

impl Transport {
    fn new() -> Transport {
        Transport { clients: HashMap::new(), channels: HashMap::new(), inboxes: HashMap::new() }
    }

    fn connect(&mut self, connection: ConnId) {
        let inbox = Arc::new(Mutex::new(Vec::new()));
        let client = Client { inbox: Arc::clone(&inbox) }.start();
        self.channels.insert(connection, client.clone().recipient());
        self.clients.insert(connection, client);
        self.inboxes.insert(connection, inbox);
    }

    fn push_all(&self, plan: Vec<Delivery>) {
        for delivery in plan {
            let _ = self.channels[&delivery.to].do_send(Push(delivery.payload));
        }
    }

    fn check_liveness(&self, registry: &Registry) -> Vec<Liveness> {
        registry
            .snapshot()
            .into_iter()
            .map(|connection| {
                let alive = self.channels[&connection].connected();
                Liveness { connection, alive }
            })
            .collect()
    }

    async fn settle(&self) {
        for (connection, client) in self.clients.iter() {
            if self.channels[connection].connected() {
                let _ = client.send(Flush).await;
            }
        }
    }

    async fn break_channel(&self, connection: ConnId) {
        let _ = self.clients[&connection].send(Stop).await;
        for _ in 0..400 {
            if !self.channels[&connection].connected() {
                return;
            }
            actix::clock::sleep(Duration::from_millis(5)).await;
        }
        panic!("the channel did not close");
    }

    fn inbox(&self, connection: ConnId) -> Vec<String> {
        self.inboxes[&connection].lock().unwrap().clone()
    }
}

#[test]
fn hello_arrives_once_at_each_of_three_actors() {
    System::new().block_on(async {
        let mut transport = Transport::new();
        let mut registry = Registry::new();
        for connection in [A, B, C] {
            transport.connect(connection);
            registry.register(connection);
        }
        transport.push_all(broadcast(&registry, "hello"));
        transport.settle().await;
        for connection in [A, B, C] {
            assert_eq!(transport.inbox(connection), vec!["hello".to_string()]);
        }
    });
}

#[test]
fn a_closed_channel_fails_in_silence_and_its_handle_is_swept() {
    System::new().block_on(async {
        let mut transport = Transport::new();
        let mut registry = Registry::new();
        for connection in [A, B] {
            transport.connect(connection);
            registry.register(connection);
        }
        transport.break_channel(B).await;
        transport.push_all(broadcast(&registry, "x"));
        transport.settle().await;
        assert_eq!(transport.inbox(A), vec!["x".to_string()]);
        assert!(transport.inbox(B).is_empty());
        let report = transport.check_liveness(&registry);
        assert_eq!(
            report,
            vec![Liveness { connection: A, alive: true }, Liveness { connection: B, alive: false }]
        );
        registry.deregister_dead(&report);
        assert_eq!(registry.snapshot(), vec![A]);
    });
}

#[test]
fn a_broadcast_to_no_actor_makes_no_push() {
    System::new().block_on(async {
        let transport = Transport::new();
        let registry = Registry::new();
        let plan = broadcast(&registry, "lonely");
        assert!(plan.is_empty());
        transport.push_all(plan);
        transport.settle().await;
    });
}

#[test]
fn a_session_relays_its_text_over_the_channels_of_all() {
    System::new().block_on(async {
        let mut transport = Transport::new();
        let mut registry = Registry::new();
        let mut sessions = Vec::new();
        for connection in [A, B, C] {
            transport.connect(connection);
            let mut session = Session::new(connection);
            session.handle(Event::Established, &mut registry);
            sessions.push(session);
        }
        let reaction =
            sessions[1].handle(Event::Inbound(Frame::Text("from b".to_string())), &mut registry);
        transport.push_all(reaction.deliveries);
        transport.settle().await;
        for connection in [A, B, C] {
            assert_eq!(transport.inbox(connection), vec!["from b".to_string()]);
        }
        sessions[0].handle(Event::TransportClosed, &mut registry);
        assert_eq!(sessions[0].state(), SessionState::Terminated);
        let reaction =
            sessions[2].handle(Event::Inbound(Frame::Text("from c".to_string())), &mut registry);
        transport.push_all(reaction.deliveries);
        transport.settle().await;
        assert_eq!(transport.inbox(A), vec!["from b".to_string()]);
        assert_eq!(transport.inbox(B), vec!["from b".to_string(), "from c".to_string()]);
        assert_eq!(transport.inbox(C), vec!["from b".to_string(), "from c".to_string()]);
    });
}
