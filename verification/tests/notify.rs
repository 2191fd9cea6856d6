use timing_system::notify::{ChangeSignal, ChangeSubscriber};
use timing_system::system::TimingSystemApp;
use timing_system::competition::{CompetitionConfiguration, CompetitionConfigurationTrack};

#[test]
fn rapid_changes_coalesce_into_one_wakeup() {
    let mut signal = ChangeSignal::new();
    let mut subscriber = ChangeSubscriber::new(&signal);
    assert!(!subscriber.observe(&signal));
    for _ in 0..100 {
        signal.notify();
    }
    // Many writes, one pending wakeup: the first observation reports the
    // change, the next reports nothing until a further write.
    assert!(subscriber.observe(&signal));
    assert!(!subscriber.observe(&signal));
    signal.notify();
    assert!(subscriber.observe(&signal));
}

#[test]
fn slow_subscriber_eventually_sees_the_state_after_all_commands() {
    let mut cfg = CompetitionConfiguration::new();
    cfg.add_track("0".to_owned(), CompetitionConfigurationTrack { overlap_limit: 2 });
    let mut app = TimingSystemApp::new();
    app.create_competition(Some(cfg)).unwrap();
    let mut signal = ChangeSignal::new();
    let mut subscriber = ChangeSubscriber::new(&signal);

    // A burst of commands, each signalling a change, with the subscriber
    // asleep throughout.
    app.register_next_car(1, "0", "A").unwrap();
    signal.notify();
    app.start(2, "0").unwrap();
    signal.notify();
    app.register_next_car(3, "0", "B").unwrap();
    signal.notify();
    app.start(4, "0").unwrap();
    signal.notify();
    app.stop_with_result_id(10, "0", None, "r1".to_owned()).unwrap();
    signal.notify();

    // One wakeup; the snapshot it reads reflects every command above.
    assert!(subscriber.observe(&signal));
    let snapshot = app.snapshot().unwrap();
    assert_eq!(snapshot.records().len(), 1);
    assert_eq!(snapshot.get_record(&"r1".to_owned()).unwrap().get_competition_entry_id(), "A");
    assert_eq!(app.get_running_cars("0").unwrap(), vec!["B".to_owned()]);
    assert!(!subscriber.observe(&signal));
}

#[test]
fn multiple_subscribers_wake_independently() {
    let mut signal = ChangeSignal::new();
    let mut early = ChangeSubscriber::new(&signal);
    signal.notify();
    let mut late = ChangeSubscriber::new(&signal);
    assert!(early.observe(&signal));
    assert!(!late.observe(&signal));
}
