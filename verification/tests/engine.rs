use timing_system::competition::{
    Competition, CompetitionConfiguration, CompetitionConfigurationTrack, CompetitionEvent,
    CompetitionEventKind,
};
use timing_system::errors::TimingError;
use timing_system::ids::{CompetitionConfigurationId, CompetitionEntryId};
use timing_system::record::RecordState;
use timing_system::replayer::Replayer;
use timing_system::system::{
    CompetitionConfigurationRepository, MockCompetitionConfigurationRepository, TimingSystemApp,
};
use timing_system::timer::{Timer, TimerState};

fn config(tracks: &[(&str, u32)]) -> CompetitionConfiguration {
    let mut cfg = CompetitionConfiguration::new();
    for (id, limit) in tracks {
        cfg.add_track(
            (*id).to_owned(),
            CompetitionConfigurationTrack { overlap_limit: *limit },
        );
    }
    cfg
}

fn app_with(tracks: &[(&str, u32)]) -> TimingSystemApp {
    let mut app = TimingSystemApp::new();
    app.create_competition(Some(config(tracks))).unwrap();
    app
}

/// A plain summary of a competition snapshot, for equality checks.
fn summarize(c: &Competition) -> (Vec<(String, Option<String>, Vec<String>, u32, String)>, Vec<(String, RecordState, u64, String, u32, u32, String, u64)>) {
    let mut tracks = Vec::new();
    for id in c.track_ids() {
        let t = c.get_track(&id).unwrap();
        let pending = t.pending_entry_id().map(|e| e.get().to_owned());
        tracks.push((
            id.clone(),
            pending,
            t.running_ids(),
            t.get_overlap_limit(),
            t.get_record_type().to_owned(),
        ));
    }
    let mut records = Vec::new();
    for r in c.records() {
        records.push((
            r.get_id().to_owned(),
            r.get_state(),
            r.get_duration(),
            r.get_competition_entry_id().to_owned(),
            r.get_pylon_touch_count(),
            r.get_derailment_count(),
            r.get_record_type().to_owned(),
            r.get_timestamp(),
        ));
    }
    (tracks, records)
}

#[test]
fn timer_transitions() {
    let mut t = Timer::new();
    assert_eq!(t.state(), TimerState::NotStarted);
    assert!(!t.is_running());
    assert_eq!(t.elapsed(5), Err(TimingError::TimerNotStarted));
    assert_eq!(t.stop(5), Err(TimingError::TimerNotStarted));
    t.start(10).unwrap();
    assert!(t.is_running());
    assert_eq!(t.start(12), Err(TimingError::TimerAlreadyStarted));
    assert_eq!(t.elapsed(25), Ok(15));
    assert_eq!(t.stop(5), Err(TimingError::NegativeDuration));
    t.stop(40).unwrap();
    assert_eq!(t.state(), TimerState::Stopped { duration: 30 });
    assert_eq!(t.elapsed(100), Ok(30));
    t.set_time(77).unwrap();
    assert_eq!(t.state(), TimerState::ManuallySet { duration: 77 });
    assert_eq!(t.elapsed(5), Ok(77));
}

#[test]
fn overlap_limit_blocks_third_start() {
    let mut app = app_with(&[("0", 2)]);
    app.register_next_car(1, "0", "A").unwrap();
    app.start(2, "0").unwrap();
    app.register_next_car(3, "0", "B").unwrap();
    app.start(4, "0").unwrap();
    app.register_next_car(5, "0", "C").unwrap();
    assert_eq!(app.start(6, "0"), Err(TimingError::TrackOverlapLimitExceeded));
    app.stop_with_result_id(7, "0", None, "r1".to_owned()).unwrap();
    app.start(8, "0").unwrap();
    assert_eq!(app.get_running_cars("0").unwrap(), vec!["B".to_owned(), "C".to_owned()]);
}

#[test]
fn fifo_stop_without_id() {
    let mut app = app_with(&[("0", 2)]);
    app.register_next_car(0, "0", "A").unwrap();
    app.start(0, "0").unwrap();
    app.register_next_car(4, "0", "B").unwrap();
    app.start(5, "0").unwrap();
    app.stop_with_result_id(20, "0", None, "r1".to_owned()).unwrap();
    app.stop_with_result_id(30, "0", None, "r2".to_owned()).unwrap();
    let snapshot = app.snapshot().unwrap();
    let r1 = snapshot.get_record(&"r1".to_owned()).unwrap();
    assert_eq!(r1.get_competition_entry_id(), "A");
    assert_eq!(r1.get_duration(), 20);
    assert_eq!(r1.get_state(), RecordState::Checkered);
    assert_eq!(r1.get_record_type(), "Free");
    let r2 = snapshot.get_record(&"r2".to_owned()).unwrap();
    assert_eq!(r2.get_competition_entry_id(), "B");
    assert_eq!(r2.get_duration(), 25);
}

#[test]
fn stop_by_id_picks_the_addressed_car() {
    let mut app = app_with(&[("0", 2)]);
    app.register_next_car(0, "0", "A").unwrap();
    app.start(1, "0").unwrap();
    app.register_next_car(2, "0", "B").unwrap();
    app.start(3, "0").unwrap();
    let b = CompetitionEntryId::new("B");
    app.stop_with_result_id(13, "0", Some(&b), "r1".to_owned()).unwrap();
    let snapshot = app.snapshot().unwrap();
    let r1 = snapshot.get_record(&"r1".to_owned()).unwrap();
    assert_eq!(r1.get_competition_entry_id(), "B");
    assert_eq!(r1.get_duration(), 10);
    assert_eq!(app.get_running_cars("0").unwrap(), vec!["A".to_owned()]);
}

#[test]
fn out_of_order_submission_matches_replay_from_scratch() {
    // Late-arriving earlier commands: after the late submit the snapshot must
    // equal the one reached by submitting everything in timestamp order.
    let make = |order: &[u64]| {
        let mut app = app_with(&[("0", 2)]);
        for ts in order {
            match ts {
                1 => app.register_next_car(1, "0", "B").unwrap(),
                2 => {
                    // Submitted late this start fails eagerly (nobody is
                    // pending on the current state) but still joins the log
                    // and takes effect through the replay.
                    let _ = app.start(2, "0");
                }
                5 => app.register_next_car(5, "0", "A").unwrap(),
                10 => {
                    app.start(10, "0").unwrap();
                }
                40 => {
                    app.stop_with_result_id(40, "0", None, "r1".to_owned()).unwrap();
                }
                _ => unreachable!(),
            }
        }
        app
    };
    let mut in_order = make(&[1, 2, 5, 10, 40]);
    let mut late = make(&[5, 10, 40, 1, 2]);
    assert_eq!(
        summarize(in_order.snapshot().unwrap()),
        summarize(late.snapshot().unwrap())
    );
    assert_eq!(in_order.get_running_cars("0").unwrap(), vec!["A".to_owned()]);
    let snapshot = late.snapshot().unwrap();
    let r1 = snapshot.get_record(&"r1".to_owned()).unwrap();
    assert_eq!(r1.get_competition_entry_id(), "B");
    assert_eq!(r1.get_duration(), 38);
}

#[test]
fn determinism_under_reordering() {
    // The same set of distinctly timestamped commands, submitted in two
    // arrival orders, yields identical final snapshots.
    let events = || {
        vec![
            CompetitionEvent::new(1, CompetitionEventKind::RegisterNextCar {
                track_id: "0".to_owned(),
                competition_entry_id: CompetitionEntryId::new("A"),
            }),
            CompetitionEvent::new(2, CompetitionEventKind::Start { track_id: "0".to_owned() }),
            CompetitionEvent::new(3, CompetitionEventKind::RegisterNextCar {
                track_id: "0".to_owned(),
                competition_entry_id: CompetitionEntryId::new("B"),
            }),
            CompetitionEvent::new(4, CompetitionEventKind::Start { track_id: "0".to_owned() }),
            CompetitionEvent::new(5, CompetitionEventKind::AddPylonTouch {
                track_id: "0".to_owned(),
                competition_entry_id: CompetitionEntryId::new("B"),
            }),
            CompetitionEvent::new(6, CompetitionEventKind::Stop {
                result_id: "r1".to_owned(),
                track_id: "0".to_owned(),
                competition_entry_id: None,
            }),
        ]
    };
    let shuffled = {
        let mut v = events();
        let e5 = v.remove(4);
        let e1 = v.remove(0);
        v.push(e1);
        v.push(e5);
        v
    };
    let a = Replayer::from_commands(config(&[("0", 2)]), events());
    let b = Replayer::from_commands(config(&[("0", 2)]), shuffled);
    assert_eq!(summarize(a.get()), summarize(b.get()));
    let r1 = a.get().get_record(&"r1".to_owned()).unwrap();
    assert_eq!(r1.get_competition_entry_id(), "A");
    assert_eq!(r1.get_duration(), 4);
}

#[test]
fn red_flag_discards_without_records() {
    let mut app = app_with(&[("0", 2)]);
    app.register_next_car(1, "0", "A").unwrap();
    app.start(2, "0").unwrap();
    app.register_next_car(3, "0", "B").unwrap();
    app.start(4, "0").unwrap();
    assert_eq!(app.get_running_cars("0").unwrap().len(), 2);
    app.red_flag(5, "0").unwrap();
    assert_eq!(app.get_running_cars("0").unwrap().len(), 0);
    assert_eq!(app.snapshot().unwrap().records().len(), 0);
}

#[test]
fn record_mutation_changes_only_state() {
    let mut app = app_with(&[("0", 1)]);
    app.register_next_car(1, "0", "A").unwrap();
    app.start(2, "0").unwrap();
    app.mark_pylon_touch(3, "0", "A").unwrap();
    app.stop_with_result_id(12, "0", None, "r1".to_owned()).unwrap();
    let before = {
        let r = app.snapshot().unwrap().get_record(&"r1".to_owned()).unwrap();
        (r.get_duration(), r.get_competition_entry_id().to_owned(), r.get_pylon_touch_count(), r.get_derailment_count())
    };
    assert_eq!(app.snapshot().unwrap().get_record(&"r1".to_owned()).unwrap().get_state(), RecordState::Checkered);
    app.mark_miss_course_to_record(20, "r1").unwrap();
    {
        let snapshot = app.snapshot().unwrap();
        let r = snapshot.get_record(&"r1".to_owned()).unwrap();
        assert_eq!(r.get_state(), RecordState::MissCourse);
        assert_eq!(
            (r.get_duration(), r.get_competition_entry_id().to_owned(), r.get_pylon_touch_count(), r.get_derailment_count()),
            before
        );
    }
    app.recovery_record(21, "r1").unwrap();
    assert_eq!(app.snapshot().unwrap().get_record(&"r1".to_owned()).unwrap().get_state(), RecordState::Checkered);
    app.remove_record(22, "r1").unwrap();
    assert_eq!(app.snapshot().unwrap().get_record(&"r1".to_owned()).unwrap().get_state(), RecordState::Removed);
    app.mark_dnf_to_record(23, "r1").unwrap();
    assert_eq!(app.snapshot().unwrap().get_record(&"r1".to_owned()).unwrap().get_state(), RecordState::DidNotFinished);
}

#[test]
fn record_count_and_type_corrections() {
    let mut app = app_with(&[("0", 1)]);
    app.register_next_car(1, "0", "A").unwrap();
    app.start(2, "0").unwrap();
    app.mark_pylon_touch(3, "0", "A").unwrap();
    app.mark_pylon_touch(4, "0", "A").unwrap();
    app.remove_pylon_touch(5, "0", "A").unwrap();
    app.add_derailment_count(6, "0", "A").unwrap();
    app.stop_with_result_id(12, "0", None, "r1".to_owned()).unwrap();
    {
        let snapshot = app.snapshot().unwrap();
        let r = snapshot.get_record(&"r1".to_owned()).unwrap();
        assert_eq!(r.get_pylon_touch_count(), 1);
        assert_eq!(r.get_derailment_count(), 1);
    }
    app.change_record_pylon_touch_count(13, "r1", 7).unwrap();
    app.change_derailment_count_of_record(14, "r1", 9).unwrap();
    app.change_record_type(15, "r1", "Final").unwrap();
    {
        let snapshot = app.snapshot().unwrap();
        let r = snapshot.get_record(&"r1".to_owned()).unwrap();
        assert_eq!(r.get_pylon_touch_count(), 7);
        assert_eq!(r.get_derailment_count(), 9);
        assert_eq!(r.get_record_type(), "Final");
    }
}

#[test]
fn track_record_type_applies_to_later_records_only() {
    let mut app = app_with(&[("0", 2)]);
    app.register_next_car(1, "0", "A").unwrap();
    app.start(2, "0").unwrap();
    app.stop_with_result_id(10, "0", None, "r1".to_owned()).unwrap();
    app.set_track_record_type(11, "0", "Heat").unwrap();
    app.register_next_car(12, "0", "B").unwrap();
    app.start(13, "0").unwrap();
    app.stop_with_result_id(20, "0", None, "r2".to_owned()).unwrap();
    let snapshot = app.snapshot().unwrap();
    assert_eq!(snapshot.get_record(&"r1".to_owned()).unwrap().get_record_type(), "Free");
    assert_eq!(snapshot.get_record(&"r2".to_owned()).unwrap().get_record_type(), "Heat");
}

#[test]
fn dnf_and_miss_course_require_the_entrant() {
    let mut app = app_with(&[("0", 2)]);
    app.register_next_car(1, "0", "A").unwrap();
    app.start(2, "0").unwrap();
    assert_eq!(
        app.did_not_finished(3, "0", "B"),
        Err(TimingError::TrackSpecifiedCarNotFound)
    );
    app.did_not_finished_with_result_id(4, "0", "A", "r1".to_owned()).unwrap();
    assert_eq!(
        app.snapshot().unwrap().get_record(&"r1".to_owned()).unwrap().get_state(),
        RecordState::DidNotFinished
    );
    app.register_next_car(5, "0", "C").unwrap();
    app.start(6, "0").unwrap();
    app.miss_course_with_result_id(7, "0", "C", "r2".to_owned()).unwrap();
    assert_eq!(
        app.snapshot().unwrap().get_record(&"r2".to_owned()).unwrap().get_state(),
        RecordState::MissCourse
    );
}

#[test]
fn unknown_ids_fail() {
    let mut app = TimingSystemApp::new();
    assert_eq!(app.start(1, "0"), Err(TimingError::CompetitionNotConfigured));
    assert_eq!(
        app.create_competition(None),
        Err(TimingError::CompetitionConfigurationNotFound)
    );
    app.create_competition(Some(config(&[("0", 2)]))).unwrap();
    assert_eq!(app.start(1, "9"), Err(TimingError::NoSuchTrack));
    assert_eq!(app.red_flag(2, "9"), Err(TimingError::NoSuchTrack));
    assert_eq!(app.register_next_car(3, "9", "A"), Err(TimingError::NoSuchTrack));
    app.register_next_car(4, "0", "A").unwrap();
    app.start(5, "0").unwrap();
    let ghost_car = CompetitionEntryId::new("B");
    assert_eq!(
        app.stop_with_result_id(6, "0", Some(&ghost_car), "r1".to_owned()),
        Err(TimingError::TrackSpecifiedCarNotFound)
    );
    assert_eq!(app.mark_pylon_touch(7, "0", "B"), Err(TimingError::TrackSpecifiedCarNotFound));
    assert_eq!(app.mark_dnf_to_record(8, "nope"), Err(TimingError::NoSuchRecord));
    assert_eq!(app.change_record_type(9, "nope", "x"), Err(TimingError::NoSuchRecord));
}

#[test]
fn start_and_stop_error_cases() {
    let mut app = app_with(&[("0", 1)]);
    assert_eq!(app.start(1, "0"), Err(TimingError::TrackNextCarNotRegistered));
    assert_eq!(
        app.stop_with_result_id(2, "0", None, "r0".to_owned()),
        Err(TimingError::TrackNobodyRunning)
    );
    app.register_next_car(3, "0", "A").unwrap();
    app.start(10, "0").unwrap();
    // A stop whose logical timestamp precedes the start is refused.
    assert_eq!(
        app.stop_with_result_id(5, "0", None, "r1".to_owned()),
        Err(TimingError::NegativeDuration)
    );
    // The entrant is still running and can be stopped at a later timestamp.
    app.stop_with_result_id(15, "0", None, "r2".to_owned()).unwrap();
    let snapshot = app.snapshot().unwrap();
    assert!(snapshot.get_record(&"r1".to_owned()).is_none());
    assert_eq!(snapshot.get_record(&"r2".to_owned()).unwrap().get_duration(), 5);
}

#[test]
fn registration_overwrites_pending_entrant() {
    let mut app = app_with(&[("0", 1)]);
    app.register_next_car(1, "0", "A").unwrap();
    app.register_next_car(2, "0", "B").unwrap();
    assert_eq!(app.get_registered_next_car("0").unwrap(), Some("B".to_owned()));
    app.start(3, "0").unwrap();
    assert_eq!(app.get_registered_next_car("0").unwrap(), None);
    assert_eq!(app.get_running_cars("0").unwrap(), vec!["B".to_owned()]);
}

#[test]
fn a_repeated_result_id_overwrites_in_place() {
    let mut app = app_with(&[("0", 2)]);
    app.register_next_car(1, "0", "A").unwrap();
    app.start(2, "0").unwrap();
    app.stop_with_result_id(10, "0", None, "r1".to_owned()).unwrap();
    app.register_next_car(11, "0", "B").unwrap();
    app.start(12, "0").unwrap();
    app.stop_with_result_id(20, "0", None, "r1".to_owned()).unwrap();
    let snapshot = app.snapshot().unwrap();
    // The records behave as a map keyed by result id: one entry, the
    // later stop's content.
    assert_eq!(snapshot.records().len(), 1);
    let r1 = snapshot.get_record(&"r1".to_owned()).unwrap();
    assert_eq!(r1.get_competition_entry_id(), "B");
    assert_eq!(r1.get_duration(), 8);
}

#[test]
fn create_competition_via_repository() {
    let mut repo = MockCompetitionConfigurationRepository(config(&[("0", 2)]));
    let looked_up = repo.competition_configuration(&CompetitionConfigurationId::new("cfg"));
    assert!(looked_up.is_some());
    let mut app = TimingSystemApp::new();
    app.create_competition_from(&mut repo, &CompetitionConfigurationId::new("cfg")).unwrap();
    app.register_next_car(1, "0", "A").unwrap();
    // Creating again replaces the competition and discards its whole log.
    app.create_competition_from(&mut repo, &CompetitionConfigurationId::new("cfg")).unwrap();
    assert_eq!(app.get_registered_next_car("0").unwrap(), None);
}

#[test]
fn generated_result_ids_are_distinct_enough() {
    let mut app = app_with(&[("0", 2)]);
    app.register_next_car(1, "0", "A").unwrap();
    app.start(2, "0").unwrap();
    app.register_next_car(3, "0", "B").unwrap();
    app.start(4, "0").unwrap();
    app.stop(10, "0", None).unwrap();
    app.stop(11, "0", None).unwrap();
    let snapshot = app.snapshot().unwrap();
    assert_eq!(snapshot.records().len(), 2);
    let id0 = snapshot.records()[0].get_id().to_owned();
    let id1 = snapshot.records()[1].get_id().to_owned();
    assert_eq!(id0.len(), 21);
    assert_eq!(id1.len(), 21);
    assert_ne!(id0, id1);
}
