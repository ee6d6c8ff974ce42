use chat_relay::broadcaster::{broadcast, fan_out, Delivery};
use chat_relay::registry::{ConnId, Liveness, Registry};

const A: ConnId = 1;
const B: ConnId = 2;
const C: ConnId = 3;

fn push(to: ConnId, payload: &str) -> Delivery {
    Delivery { to, payload: payload.to_string() }
}

/// What each connection gets when a transport makes the pushes of `plan`
/// one after the other and those to `broken` fail.
fn received(plan: &[Delivery], broken: &[ConnId], by: ConnId) -> Vec<String> {
    let mut inbox = Vec::new();
    for delivery in plan {
        if broken.contains(&delivery.to) {
            continue;
        }
        if delivery.to == by {
            inbox.push(delivery.payload.clone());
        }
    }
    inbox
}

fn registry_of(handles: &[ConnId]) -> Registry {
    let mut registry = Registry::new();
    for &handle in handles {
        registry.register(handle);
    }
    registry
}

#[test]
fn hello_reaches_a_b_and_c_once_each() {
    let registry = registry_of(&[A, B, C]);
    let plan = broadcast(&registry, "hello");
    assert_eq!(plan, vec![push(A, "hello"), push(B, "hello"), push(C, "hello")]);
    for connection in [A, B, C] {
        assert_eq!(received(&plan, &[], connection), vec!["hello".to_string()]);
    }
}

#[test]
fn broken_b_gets_nothing_and_is_gone_after_the_sweep() {
    let mut registry = registry_of(&[A, B]);
    let plan = broadcast(&registry, "x");
    assert_eq!(plan.len(), 2);
    assert_eq!(received(&plan, &[B], A), vec!["x".to_string()]);
    assert!(received(&plan, &[B], B).is_empty());
    registry.deregister_dead(&vec![
        Liveness { connection: A, alive: true },
        Liveness { connection: B, alive: false },
    ]);
    assert_eq!(registry.snapshot(), vec![A]);
    assert_eq!(broadcast(&registry, "y"), vec![push(A, "y")]);
}

#[test]
fn lonely_broadcast_makes_no_push() {
    let registry = Registry::new();
    let plan = broadcast(&registry, "lonely");
    assert!(plan.is_empty());
}

#[test]
fn five_registered_two_broken_three_arrive() {
    let handles = [10, 11, 12, 13, 14];
    let broken = [11, 14];
    let registry = registry_of(&handles);
    let plan = broadcast(&registry, "news");
    assert_eq!(plan.len(), 5);
    let mut arrived = 0;
    for &handle in handles.iter() {
        let inbox = received(&plan, &broken, handle);
        if broken.contains(&handle) {
            assert!(inbox.is_empty());
        } else {
            assert_eq!(inbox, vec!["news".to_string()]);
            arrived += 1;
        }
    }
    assert_eq!(arrived, 3);
}

#[test]
fn five_registered_none_broken_five_arrive() {
    let handles = [10, 11, 12, 13, 14];
    let registry = registry_of(&handles);
    let plan = broadcast(&registry, "news");
    let arrived: usize = handles.iter().map(|&h| received(&plan, &[], h).len()).sum();
    assert_eq!(arrived, 5);
}

#[test]
fn a_session_registered_twice_is_served_twice() {
    let registry = registry_of(&[A, B, A]);
    let plan = broadcast(&registry, "twice");
    assert_eq!(plan, vec![push(A, "twice"), push(B, "twice"), push(A, "twice")]);
    assert_eq!(received(&plan, &[], A), vec!["twice".to_string(), "twice".to_string()]);
    assert_eq!(received(&plan, &[], B), vec!["twice".to_string()]);
}

#[test]
fn fan_out_follows_the_snapshot_not_the_registry() {
    let mut registry = registry_of(&[A, B]);
    let snapshot = registry.snapshot();
    registry.register(C);
    assert_eq!(fan_out(&snapshot, "old"), vec![push(A, "old"), push(B, "old")]);
    assert_eq!(broadcast(&registry, "new").len(), 3);
}

#[test]
fn fan_out_of_an_empty_snapshot_is_empty() {
    assert_eq!(fan_out(&Vec::new(), "nobody"), Vec::<Delivery>::new());
}

#[test]
fn the_payload_is_the_text_as_it_is() {
    let registry = registry_of(&[A]);
    assert_eq!(broadcast(&registry, ""), vec![push(A, "")]);
    let odd = "  two\nlines \u{1F600} ";
    assert_eq!(broadcast(&registry, odd), vec![push(A, odd)]);
}

#[test]
fn broadcast_leaves_the_registry_as_it_is() {
    let registry = registry_of(&[C, A]);
    let _ = broadcast(&registry, "one");
    let _ = broadcast(&registry, "two");
    assert_eq!(registry.snapshot(), vec![C, A]);
}

#[test]
fn a_delivery_clones_to_an_equal_delivery() {
    let delivery = push(B, "copy me");
    assert_eq!(delivery.clone(), delivery);
}
