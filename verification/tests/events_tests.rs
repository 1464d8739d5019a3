use em_cockpit::kernel::events::{AppEvent, EventBus, SubscriptionId};
use em_cockpit::system::tray::TrayState;
use std::cell::Cell;
use std::rc::Rc;

type Handler = Box<dyn Fn(&AppEvent)>;

fn counting(counter: &Rc<Cell<usize>>) -> Handler {
    let counter = counter.clone();
    Box::new(move |_| counter.set(counter.get() + 1))
}

fn deliver(bus: &mut EventBus<Handler>, event: AppEvent) {
    let delivery = bus.publish(event.clone());
    for id in delivery {
        (bus.handler(id).unwrap())(&event);
    }
}

fn settings(section: &str) -> AppEvent {
    AppEvent::SettingsChanged { section: section.to_string() }
}

#[test]
fn test_subscribe_returns_unique_id() {
    let mut bus: EventBus<Handler> = EventBus::new();

    let id1 = bus.subscribe(Box::new(|_| {}));
    let id2 = bus.subscribe(Box::new(|_| {}));

    assert_ne!(id1, id2);
}

#[test]
fn test_publish_notifies_subscribers() {
    let mut bus: EventBus<Handler> = EventBus::new();
    let counter = Rc::new(Cell::new(0));

    bus.subscribe(counting(&counter));

    deliver(&mut bus, settings("test"));

    assert_eq!(counter.get(), 1);
}

#[test]
fn test_multiple_subscribers_receive_events() {
    let mut bus: EventBus<Handler> = EventBus::new();
    let counter = Rc::new(Cell::new(0));

    for _ in 0..3 {
        bus.subscribe(counting(&counter));
    }

    deliver(&mut bus, settings("test"));

    assert_eq!(counter.get(), 3);
}

#[test]
fn test_unsubscribe_removes_handler() {
    let mut bus: EventBus<Handler> = EventBus::new();
    let counter = Rc::new(Cell::new(0));

    let id = bus.subscribe(counting(&counter));

    assert!(bus.unsubscribe(id));
    deliver(&mut bus, settings("test"));

    assert_eq!(counter.get(), 0);
}

#[test]
fn test_unsubscribe_nonexistent_returns_false() {
    let mut bus: EventBus<Handler> = EventBus::new();
    assert!(!bus.unsubscribe(SubscriptionId(999)));
}

#[test]
fn test_subscriber_count() {
    let mut bus: EventBus<Handler> = EventBus::new();

    assert_eq!(bus.subscriber_count(), 0);

    let id1 = bus.subscribe(Box::new(|_| {}));
    assert_eq!(bus.subscriber_count(), 1);

    let _id2 = bus.subscribe(Box::new(|_| {}));
    assert_eq!(bus.subscriber_count(), 2);

    bus.unsubscribe(id1);
    assert_eq!(bus.subscriber_count(), 1);
}

#[test]
fn test_event_history_recorded() {
    let mut bus: EventBus<Handler> = EventBus::with_history_size(10);

    bus.publish(settings("test1"));
    bus.publish(settings("test2"));

    let history = bus.get_history();
    assert_eq!(history.len(), 2);
}

#[test]
fn test_history_trimmed_to_max_size() {
    let mut bus: EventBus<Handler> = EventBus::with_history_size(2);

    bus.publish(settings("1"));
    bus.publish(settings("2"));
    bus.publish(settings("3"));

    let history = bus.get_history();
    assert_eq!(history.len(), 2);
}

#[test]
fn test_clear_history() {
    let mut bus: EventBus<Handler> = EventBus::new();

    bus.publish(settings("test"));
    assert!(!bus.get_history().is_empty());

    bus.clear_history();
    assert!(bus.get_history().is_empty());
}

#[test]
fn test_clear_subscribers() {
    let mut bus: EventBus<Handler> = EventBus::new();

    bus.subscribe(Box::new(|_| {}));
    bus.subscribe(Box::new(|_| {}));
    assert_eq!(bus.subscriber_count(), 2);

    bus.clear_subscribers();
    assert_eq!(bus.subscriber_count(), 0);
}

#[test]
fn test_app_event_type_name() {
    let event = AppEvent::TrayStateChanged {
        old_state: TrayState::Neutral,
        new_state: TrayState::Green,
        reason: "test".to_string(),
    };
    assert_eq!(event.event_name(), "TrayStateChanged");

    let event = AppEvent::PrDataUpdated { total_open: 5, stale_count: 2, pending_review: 3 };
    assert_eq!(event.event_name(), "PrDataUpdated");
}

#[test]
fn test_event_bus_integration() {
    let mut bus: EventBus<Handler> = EventBus::new();
    let received = Rc::new(Cell::new(0));

    bus.subscribe(counting(&received));

    deliver(
        &mut bus,
        AppEvent::TrayStateChanged {
            old_state: TrayState::Neutral,
            new_state: TrayState::Green,
            reason: "Test".to_string(),
        },
    );
    deliver(&mut bus, AppEvent::PrDataUpdated { total_open: 5, stale_count: 2, pending_review: 3 });

    assert_eq!(received.get(), 2);
}

#[test]
fn test_event_history_consistency() {
    let mut bus: EventBus<Handler> = EventBus::with_history_size(5);

    for i in 0..10 {
        bus.publish(settings(&format!("section_{}", i)));
    }

    let history = bus.get_history();
    assert_eq!(history.len(), 5);
}

#[test]
fn test_event_publishing_performance() {
    let mut bus: EventBus<Handler> = EventBus::new();
    bus.subscribe(Box::new(|_| {}));
    for _ in 0..10000 {
        deliver(&mut bus, settings("perf"));
    }
    assert_eq!(bus.get_history().len(), 100);
}

#[test]
fn history_keeps_exactly_the_most_recent_events() {
    let mut bus: EventBus<Handler> = EventBus::with_history_size(3);
    for i in 0..7 {
        bus.publish_at(settings(&i.to_string()), 1000 + i);
    }
    let kept: Vec<(i64, String)> = bus
        .get_history()
        .iter()
        .map(|(at, event)| match event {
            AppEvent::SettingsChanged { section } => (*at, section.clone()),
            other => panic!("unexpected {:?}", other),
        })
        .collect();
    assert_eq!(
        kept,
        vec![(1004, "4".to_string()), (1005, "5".to_string()), (1006, "6".to_string())]
    );
    let mut none: EventBus<Handler> = EventBus::with_history_size(0);
    none.publish_at(settings("x"), 1);
    assert!(none.get_history().is_empty());
}

#[test]
fn delivery_names_every_subscriber_once_in_registration_order() {
    let mut bus: EventBus<Handler> = EventBus::new();
    let a = bus.subscribe(Box::new(|_| {}));
    let b = bus.subscribe(Box::new(|_| {}));
    let c = bus.subscribe(Box::new(|_| {}));
    assert_eq!((a, b, c), (SubscriptionId(0), SubscriptionId(1), SubscriptionId(2)));
    assert_eq!(bus.publish_at(settings("x"), 0), vec![a, b, c]);
    assert!(bus.unsubscribe(b));
    assert!(!bus.unsubscribe(b));
    let d = bus.subscribe(Box::new(|_| {}));
    assert_eq!(d, SubscriptionId(3));
    assert_eq!(bus.publish_at(settings("y"), 1), vec![a, c, d]);
    assert!(bus.handler(b).is_none());
    assert!(bus.handler(d).is_some());
    assert_eq!(bus.handles_issued(), 4);
    bus.clear_subscribers();
    assert!(bus.publish_at(settings("z"), 2).is_empty());
    assert_eq!(bus.subscribe(Box::new(|_| {})), SubscriptionId(4));
}

#[test]
fn every_kind_of_event_has_its_name() {
    assert_eq!(
        AppEvent::IncidentStateChanged { active_count: 1, critical_count: 0, new_incidents: vec![] }
            .event_name(),
        "IncidentStateChanged"
    );
    assert_eq!(
        AppEvent::SearchCompleted { query: "q".to_string(), result_count: 1, duration_ms: 2 }
            .event_name(),
        "SearchCompleted"
    );
    assert_eq!(
        AppEvent::CacheInvalidated { cache_type: "c".to_string(), keys: vec![] }.event_name(),
        "CacheInvalidated"
    );
    assert_eq!(settings("s").event_name(), "SettingsChanged");
    assert_eq!(
        AppEvent::ErrorOccurred {
            source: "s".to_string(),
            message: "m".to_string(),
            recoverable: true
        }
        .event_name(),
        "ErrorOccurred"
    );
    assert_eq!(
        AppEvent::PollingTick { poll_type: "pr".to_string(), timestamp: 0, success: true }
            .event_name(),
        "PollingTick"
    );
}
