//! Whole calls over a transport that lives inside the test process: two or
//! more hosts, their workers on threads, and the codec in between.

use crossbeam::channel::{bounded, unbounded, Receiver, Sender};
use crossbeam::thread::Scope;
use lattice_bus::channel::{InvokerPair, WorkerLink};
use lattice_bus::handler::handle_invocation;
use lattice_bus::invocation::{Invocation, InvocationResponse};
use lattice_bus::lattice::{BusError, DistributedBus};
use std::collections::HashMap;
use std::sync::Mutex;
use std::time::{Duration, Instant};

type WireInvocation = (String, String, String, String, Vec<u8>, String);
type WireResponse = (String, Vec<u8>, Option<String>);

fn encode_invocation(inv: Invocation) -> Result<Vec<u8>, BusError> {
    let wire: WireInvocation =
        (inv.id, inv.origin, inv.target, inv.operation, inv.payload, inv.antiforgery);
    wascc_codec::serialize(wire).map_err(|e| BusError::Encode(e.to_string()))
}

fn decode_invocation(body: &[u8]) -> Option<Invocation> {
    let wire: WireInvocation = wascc_codec::deserialize(body).ok()?;
    Some(Invocation {
        id: wire.0,
        origin: wire.1,
        target: wire.2,
        operation: wire.3,
        payload: wire.4,
        antiforgery: wire.5,
    })
}

fn encode_response(response: InvocationResponse) -> Vec<u8> {
    let wire: WireResponse = (response.invocation_id, response.payload, response.error);
    wascc_codec::serialize(wire).unwrap()
}

fn decode_response(body: &[u8]) -> Result<InvocationResponse, BusError> {
    let wire: WireResponse =
        wascc_codec::deserialize(body).map_err(|e| BusError::Decode(e.to_string()))?;
    Ok(InvocationResponse { invocation_id: wire.0, payload: wire.1, error: wire.2 })
}

/// A toy signature: enough to tell a tampered invocation from an intact one.
fn seal(id: &str, target: &str, operation: &str, payload: &[u8]) -> String {
    let mut sum: u64 = 14695981039346656037;
    for byte in id.bytes().chain(target.bytes()).chain(operation.bytes()).chain(payload.iter().copied())
    {
        sum = (sum ^ byte as u64).wrapping_mul(1099511628211);
    }
    format!("sealed-{:016x}", sum)
}

fn signed(id: &str, target: &str, payload: Vec<u8>) -> Invocation {
    Invocation {
        id: id.to_string(),
        origin: "host-a".to_string(),
        target: target.to_string(),
        operation: "run".to_string(),
        antiforgery: seal(id, target, "run", &payload),
        payload,
    }
}

fn validate_antiforgery(inv: &Invocation) -> Result<(), String> {
    if inv.antiforgery == seal(&inv.id, &inv.target, &inv.operation, &inv.payload) {
        Ok(())
    } else {
        Err("invocation does not match its seal".to_string())
    }
}

/// One message on its way to a subscriber, and where its reply goes.
struct Delivery {
    body: Vec<u8>,
    reply: Sender<Vec<u8>>,
}

struct Member {
    id: u64,
    inbox: Sender<Delivery>,
}

struct Group {
    cursor: usize,
    members: Vec<Member>,
}

/// Subjects, queue groups, request and reply, all inside this process. Each
/// message on a subject goes to one member of each queue group, in turn.
struct Loopback {
    next_id: Mutex<u64>,
    groups: Mutex<HashMap<(String, String), Group>>,
}

impl Loopback {
    fn new() -> Self {
        Loopback { next_id: Mutex::new(0), groups: Mutex::new(HashMap::new()) }
    }

    fn queue_subscribe(&self, subject: &str, queue: &str) -> (u64, Receiver<Delivery>) {
        let mut next_id = self.next_id.lock().unwrap();
        *next_id += 1;
        let (inbox, deliveries) = unbounded();
        self.groups
            .lock()
            .unwrap()
            .entry((subject.to_string(), queue.to_string()))
            .or_insert(Group { cursor: 0, members: Vec::new() })
            .members
            .push(Member { id: *next_id, inbox });
        (*next_id, deliveries)
    }

    fn unsubscribe(&self, id: u64) {
        for group in self.groups.lock().unwrap().values_mut() {
            group.members.retain(|member| member.id != id);
        }
    }

    fn close(&self) {
        self.groups.lock().unwrap().clear();
    }

    fn request_timeout(
        &self,
        subject: &str,
        body: &[u8],
        timeout: Duration,
    ) -> Result<Vec<u8>, BusError> {
        let (reply, replies) = unbounded();
        for (key, group) in self.groups.lock().unwrap().iter_mut() {
            if key.0 == subject && !group.members.is_empty() {
                let member = &group.members[group.cursor % group.members.len()];
                group.cursor += 1;
                let _ = member.inbox.send(Delivery { body: body.to_vec(), reply: reply.clone() });
            }
        }
        let answer = replies.recv_timeout(timeout);
        drop(reply);
        answer.map_err(|_| BusError::Timeout("no reply before the deadline".to_string()))
    }
}

/// A host on the loopback transport: the bus of the library and the glue
/// around it.
struct Host<'t> {
    transport: &'t Loopback,
    bus: Mutex<DistributedBus<u64>>,
}

impl<'t> Host<'t> {
    fn new(transport: &'t Loopback, timeout: Option<&str>) -> Self {
        Host {
            transport,
            bus: Mutex::new(DistributedBus::new(timeout.map(|text| text.to_string()))),
        }
    }

    fn subscribe<'env>(
        &self,
        scope: &Scope<'env>,
        subject: &str,
        sender: Sender<Invocation>,
        receiver: Receiver<InvocationResponse>,
    ) -> Result<(), BusError> {
        let group = DistributedBus::<u64>::queue_group(subject);
        let (id, deliveries) = self.transport.queue_subscribe(subject, &group);
        let pair: InvokerPair = (sender, receiver);
        scope.spawn(move |_| {
            for delivery in deliveries.iter() {
                deliver(&delivery, &pair);
            }
        });
        self.bus.lock().unwrap().subscribe(subject, Ok(id))
    }

    fn invoke(&self, subject: &str, inv: Invocation) -> Result<InvocationResponse, BusError> {
        let request = self.bus.lock().unwrap().invoke(subject, encode_invocation(inv))?;
        let reply = self.transport.request_timeout(
            &request.subject,
            &request.body,
            Duration::from_millis(request.timeout_millis),
        )?;
        decode_response(&reply)
    }

    fn unsubscribe(&self, subject: &str) -> Result<(), BusError> {
        if let Some(id) = self.bus.lock().unwrap().unsubscribe(subject) {
            self.transport.unsubscribe(id);
        }
        Ok(())
    }
}

fn deliver(delivery: &Delivery, pair: &InvokerPair) {
    let inv = match decode_invocation(&delivery.body) {
        Some(inv) => inv,
        None => return,
    };
    let check = validate_antiforgery(&inv);
    let mut link = WorkerLink::for_pair(pair);
    if let Some(response) = handle_invocation(inv, check, &mut link).into_reply() {
        let _ = delivery.reply.send(encode_response(response));
    }
}

/// Answers every invocation with its own payload, and counts them.
fn echo_worker(invocations: Receiver<Invocation>, responses: Sender<InvocationResponse>) -> usize {
    let mut served = 0;
    for inv in invocations.iter() {
        served += 1;
        let payload = inv.payload.clone();
        if responses.send(InvocationResponse::success(&inv, payload)).is_err() {
            break;
        }
    }
    served
}

#[test]
fn scenario_echo_round_trip() {
    let transport = Loopback::new();
    let response = crossbeam::scope(|scope| {
        let host = Host::new(&transport, None);
        let (inv_s, inv_r) = bounded::<Invocation>(0);
        let (resp_s, resp_r) = bounded::<InvocationResponse>(0);
        scope.spawn(move |_| echo_worker(inv_r, resp_s));
        host.subscribe(scope, "svc.echo", inv_s, resp_r).unwrap();
        let response = host.invoke("svc.echo", signed("1", "svc.echo", vec![0x01, 0x02, 0x03]));
        transport.close();
        response
    })
    .unwrap();
    assert_eq!(
        response,
        Ok(InvocationResponse {
            invocation_id: "1".to_string(),
            payload: vec![0x01, 0x02, 0x03],
            error: None,
        })
    );
}

#[test]
fn scenario_round_trip_keeps_every_payload() {
    let transport = Loopback::new();
    let payloads: Vec<Vec<u8>> =
        vec![vec![], vec![0], vec![255; 3], (0..=255).collect(), vec![7; 10_000]];
    let responses = crossbeam::scope(|scope| {
        let host = Host::new(&transport, None);
        let (inv_s, inv_r) = unbounded::<Invocation>();
        let (resp_s, resp_r) = unbounded::<InvocationResponse>();
        scope.spawn(move |_| echo_worker(inv_r, resp_s));
        host.subscribe(scope, "svc.echo", inv_s, resp_r).unwrap();
        let responses: Vec<_> = payloads
            .iter()
            .enumerate()
            .map(|(n, payload)| {
                host.invoke("svc.echo", signed(&n.to_string(), "svc.echo", payload.clone()))
            })
            .collect();
        transport.close();
        responses
    })
    .unwrap();
    for (n, response) in responses.into_iter().enumerate() {
        let response = response.unwrap();
        assert_eq!(response.invocation_id, n.to_string());
        assert_eq!(response.payload, payloads[n]);
        assert_eq!(response.error, None);
    }
}

#[test]
fn scenario_timeout() {
    let transport = Loopback::new();
    let (outcome, waited) = crossbeam::scope(|scope| {
        let host = Host::new(&transport, Some("100"));
        let (inv_s, inv_r) = unbounded::<Invocation>();
        let (resp_s, resp_r) = unbounded::<InvocationResponse>();
        let (release, released) = bounded::<()>(0);
        scope.spawn(move |_| {
            let taken = inv_r.recv();
            let _ = released.recv();
            drop(resp_s);
            taken.is_ok()
        });
        host.subscribe(scope, "svc.mute", inv_s, resp_r).unwrap();
        let started = Instant::now();
        let outcome = host.invoke("svc.mute", signed("1", "svc.mute", vec![1]));
        let waited = started.elapsed();
        drop(release);
        transport.close();
        (outcome, waited)
    })
    .unwrap();
    assert!(matches!(outcome, Err(BusError::Timeout(_))), "got {:?}", outcome);
    assert!(waited >= Duration::from_millis(100), "waited only {:?}", waited);
    assert!(waited < Duration::from_secs(5), "waited {:?}", waited);
}

#[test]
fn scenario_antiforgery() {
    let transport = Loopback::new();
    let (response, untouched) = crossbeam::scope(|scope| {
        let host = Host::new(&transport, None);
        let (inv_s, inv_r) = unbounded::<Invocation>();
        let (resp_s, resp_r) = unbounded::<InvocationResponse>();
        let seen = inv_r.clone();
        scope.spawn(move |_| echo_worker(inv_r, resp_s));
        host.subscribe(scope, "svc.echo", inv_s, resp_r).unwrap();
        let mut tampered = signed("1", "svc.echo", vec![1, 2, 3]);
        tampered.payload = vec![1, 2, 4];
        let response = host.invoke("svc.echo", tampered);
        let untouched = seen.is_empty();
        drop(seen);
        transport.close();
        (response, untouched)
    })
    .unwrap();
    let response = response.unwrap();
    let message = response.error.unwrap();
    assert!(message.starts_with("Antiforgery check failure:"), "got {:?}", message);
    assert_eq!(message, "Antiforgery check failure: invocation does not match its seal");
    assert_eq!(response.invocation_id, "1");
    assert!(response.payload.is_empty());
    assert!(untouched);
}

#[test]
fn scenario_rejected_invocation_never_reaches_the_worker() {
    let transport = Loopback::new();
    let served = crossbeam::scope(|scope| {
        let host = Host::new(&transport, None);
        let (inv_s, inv_r) = unbounded::<Invocation>();
        let (resp_s, resp_r) = unbounded::<InvocationResponse>();
        let worker = scope.spawn(move |_| echo_worker(inv_r, resp_s));
        host.subscribe(scope, "svc.echo", inv_s, resp_r).unwrap();
        for n in 0..10u8 {
            let mut inv = signed(&n.to_string(), "svc.echo", vec![n]);
            if n % 2 == 1 {
                inv.operation = "other".to_string();
            }
            let response = host.invoke("svc.echo", inv).unwrap();
            assert_eq!(response.error.is_some(), n % 2 == 1);
        }
        transport.close();
        worker.join().unwrap()
    })
    .unwrap();
    assert_eq!(served, 5);
}

#[test]
fn scenario_load_sharing() {
    let transport = Loopback::new();
    let (first, second, answered) = crossbeam::scope(|scope| {
        let one = Host::new(&transport, None);
        let two = Host::new(&transport, None);
        let caller = Host::new(&transport, None);

        let (inv_s, inv_r) = unbounded::<Invocation>();
        let (resp_s, resp_r) = unbounded::<InvocationResponse>();
        let first = scope.spawn(move |_| echo_worker(inv_r, resp_s));
        one.subscribe(scope, "svc.work", inv_s, resp_r).unwrap();

        let (inv_s, inv_r) = unbounded::<Invocation>();
        let (resp_s, resp_r) = unbounded::<InvocationResponse>();
        let second = scope.spawn(move |_| echo_worker(inv_r, resp_s));
        two.subscribe(scope, "svc.work", inv_s, resp_r).unwrap();

        let mut answered = 0;
        for n in 0..100u8 {
            let response = caller.invoke("svc.work", signed(&n.to_string(), "svc.work", vec![n]));
            if response.unwrap().payload == vec![n] {
                answered += 1;
            }
        }
        transport.close();
        (first.join().unwrap(), second.join().unwrap(), answered)
    })
    .unwrap();
    assert_eq!(answered, 100);
    assert!(first >= 1);
    assert!(second >= 1);
    assert_eq!(first + second, 100);
}

#[test]
fn scenario_unsubscribe() {
    let transport = Loopback::new();
    let (before, after, served) = crossbeam::scope(|scope| {
        let host = Host::new(&transport, Some("100"));
        let (inv_s, inv_r) = unbounded::<Invocation>();
        let (resp_s, resp_r) = unbounded::<InvocationResponse>();
        let worker = scope.spawn(move |_| echo_worker(inv_r, resp_s));
        host.subscribe(scope, "s", inv_s, resp_r).unwrap();
        let before = host.invoke("s", signed("1", "s", vec![1]));
        host.unsubscribe("s").unwrap();
        let after = host.invoke("s", signed("2", "s", vec![2]));
        transport.close();
        (before, after, worker.join().unwrap())
    })
    .unwrap();
    assert_eq!(before.unwrap().payload, vec![1]);
    assert!(matches!(after, Err(BusError::Timeout(_))), "got {:?}", after);
    assert_eq!(served, 1);
}

#[test]
fn scenario_unsubscribe_twice() {
    let transport = Loopback::new();
    let (first, second, never, after) = crossbeam::scope(|scope| {
        let host = Host::new(&transport, Some("50"));
        let (inv_s, inv_r) = unbounded::<Invocation>();
        let (resp_s, resp_r) = unbounded::<InvocationResponse>();
        scope.spawn(move |_| echo_worker(inv_r, resp_s));
        host.subscribe(scope, "s", inv_s, resp_r).unwrap();
        let first = host.unsubscribe("s");
        let second = host.unsubscribe("s");
        let never = host.unsubscribe("never.subscribed");
        let after = host.invoke("s", signed("1", "s", vec![]));
        transport.close();
        (first, second, never, after)
    })
    .unwrap();
    assert_eq!(first, Ok(()));
    assert_eq!(second, Ok(()));
    assert_eq!(never, Ok(()));
    assert!(matches!(after, Err(BusError::Timeout(_))));
}

#[test]
fn scenario_config_parse_fallback() {
    let transport = Loopback::new();
    let host = Host::new(&transport, Some("abc"));
    assert_eq!(host.bus.lock().unwrap().req_timeout(), 500);
    let started = Instant::now();
    let outcome = host.invoke("nobody.listens", signed("1", "nobody.listens", vec![]));
    let waited = started.elapsed();
    assert!(matches!(outcome, Err(BusError::Timeout(_))));
    assert!(waited >= Duration::from_millis(500), "waited only {:?}", waited);
}

#[test]
fn scenario_garbage_on_the_wire_is_dropped() {
    let transport = Loopback::new();
    let (garbage, next) = crossbeam::scope(|scope| {
        let host = Host::new(&transport, Some("50"));
        let (inv_s, inv_r) = unbounded::<Invocation>();
        let (resp_s, resp_r) = unbounded::<InvocationResponse>();
        scope.spawn(move |_| echo_worker(inv_r, resp_s));
        host.subscribe(scope, "svc.echo", inv_s, resp_r).unwrap();
        let garbage = transport.request_timeout("svc.echo", &[0xc1, 0xff, 0x00], Duration::from_millis(50));
        let next = host.invoke("svc.echo", signed("2", "svc.echo", vec![9]));
        transport.close();
        (garbage, next)
    })
    .unwrap();
    assert!(matches!(garbage, Err(BusError::Timeout(_))));
    assert_eq!(next.unwrap().payload, vec![9]);
}
