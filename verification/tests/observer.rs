use timing_system::pending_queue::PendingCarQueue;
use timing_system::records::{Records, RecordsError};
use timing_system::running_observer::{ObserverError, RunningObserver};

const SCHEMA: &str = r#"{"type": "string"}"#;
const DEFAULT: &str = r#""default_metadata""#;

fn observer() -> RunningObserver<PendingCarQueue, Records> {
    let queue = PendingCarQueue::try_new(SCHEMA.to_owned(), DEFAULT.to_owned()).unwrap();
    let records = Records::try_new(SCHEMA.to_owned()).unwrap();
    RunningObserver::try_new(SCHEMA.to_owned(), DEFAULT.to_owned(), queue, records).unwrap()
}

#[test]
fn stop_without_id_files_the_head() {
    let mut obs = observer();
    obs.start(0).unwrap();
    obs.stop(10, &None).unwrap();
    assert_eq!(obs.running_count(), 0);
    let filed = obs.record_service();
    assert_eq!(filed.len(), 1);
    // The queue was seeded with the default entry, so the first consumed
    // metadata is the default text.
    assert_eq!(filed.get_line(0).unwrap().meta(), DEFAULT);
    assert_eq!(filed.get_line(0).unwrap().duration(), 10);
}

#[test]
fn stop_with_id_files_the_addressed_car() {
    let mut obs = observer();
    obs.start(0).unwrap();
    let id = obs.get_car(0).unwrap().car_id().clone();
    obs.stop(10, &Some(id)).unwrap();
    let filed = obs.record_service();
    assert_eq!(filed.len(), 1);
    assert_eq!(filed.get_line(0).unwrap().duration(), 10);
}

#[test]
fn stop_with_unknown_id_fails() {
    let mut obs = observer();
    obs.start(0).unwrap();
    assert_eq!(
        obs.stop(10, &Some("unused_id".to_owned())),
        Err(ObserverError::NoSuchCar)
    );
    assert_eq!(obs.running_count(), 1);
    assert_eq!(obs.record_service().len(), 0);
}

#[test]
fn several_cars_stop_in_start_order() {
    let mut obs = observer();
    obs.start(0).unwrap();
    obs.start(10).unwrap();
    obs.stop(20, &None).unwrap();
    obs.stop(40, &None).unwrap();
    let filed = obs.record_service();
    assert_eq!(filed.len(), 2);
    assert_eq!(filed.get_line(0).unwrap().duration(), 20);
    assert_eq!(filed.get_line(1).unwrap().duration(), 30);
}

#[test]
fn flip_starts_then_stops() {
    let mut obs = observer();
    obs.flip_start_or_stop(0).unwrap();
    assert_eq!(obs.running_count(), 1);
    obs.flip_start_or_stop(10).unwrap();
    assert_eq!(obs.running_count(), 0);
    let filed = obs.record_service();
    assert_eq!(filed.len(), 1);
    assert_eq!(filed.get_line(0).unwrap().duration(), 10);
}

#[test]
fn empty_queue_falls_back_to_the_default_metadata() {
    let mut obs = observer();
    // Two starts drain the seeded queue (which refills itself with the
    // default), so every consumed metadata is the default text.
    obs.start(0).unwrap();
    obs.start(1).unwrap();
    assert_eq!(obs.get_car(0).unwrap().meta(), DEFAULT);
    assert_eq!(obs.get_car(1).unwrap().meta(), DEFAULT);
}

#[test]
fn stop_before_start_is_refused() {
    let mut obs = observer();
    obs.start(10).unwrap();
    assert_eq!(obs.stop(5, &None), Err(ObserverError::NegativeDuration));
    assert_eq!(obs.running_count(), 1);
    obs.stop(15, &None).unwrap();
    assert_eq!(obs.record_service().get_line(0).unwrap().duration(), 5);
}

#[test]
fn stop_with_nobody_running_is_refused() {
    let mut obs = observer();
    assert_eq!(obs.stop(10, &None), Err(ObserverError::NobodyRunning));
    assert_eq!(
        obs.stop(10, &Some("ghost".to_owned())),
        Err(ObserverError::NoSuchCar)
    );
}

#[test]
fn metadata_update_validates_and_addresses_by_id() {
    let mut obs = observer();
    obs.start(0).unwrap();
    let id = obs.get_car(0).unwrap().car_id().clone();
    assert_eq!(
        obs.update_metadata(1, &id, "17".to_owned()),
        Err(ObserverError::MetadataValidationFailed)
    );
    assert_eq!(
        obs.update_metadata(2, &"ghost".to_owned(), r#""x""#.to_owned()),
        Err(ObserverError::NoSuchCar)
    );
    obs.update_metadata(3, &id, r#""updated""#.to_owned()).unwrap();
    assert_eq!(obs.get_car(0).unwrap().meta(), r#""updated""#);
    obs.stop(9, &None).unwrap();
    assert_eq!(obs.record_service().get_line(0).unwrap().meta(), r#""updated""#);
}

#[test]
fn observer_rejects_a_bad_schema() {
    let queue = PendingCarQueue::try_new(SCHEMA.to_owned(), DEFAULT.to_owned()).unwrap();
    let records = Records::try_new(SCHEMA.to_owned()).unwrap();
    assert!(RunningObserver::try_new("{".to_owned(), DEFAULT.to_owned(), queue, records).is_none());
}

#[test]
fn record_store_add_update_remove() {
    let mut store = Records::try_new(SCHEMA.to_owned()).unwrap();
    assert_eq!(store.add(10, "42"), Err(RecordsError::MetadataValidationFailed));
    store.add(10, r#""a""#).unwrap();
    store.add(20, r#""b""#).unwrap();
    assert_eq!(store.len(), 2);
    let id0 = store.get_line(0).unwrap().record_id().clone();
    assert_eq!(store.get_line(0).unwrap().record_id().len(), 21);
    assert_eq!(
        store.update("ghost", 1, r#""x""#),
        Err(RecordsError::NoSuchRecord)
    );
    assert_eq!(
        store.update(&id0, 1, "3"),
        Err(RecordsError::MetadataValidationFailed)
    );
    store.update(&id0, 11, r#""a2""#).unwrap();
    assert_eq!(store.get_line(0).unwrap().duration(), 11);
    assert_eq!(store.get_line(0).unwrap().meta(), r#""a2""#);
    assert_eq!(store.remove("ghost"), Err(RecordsError::NoSuchRecord));
    store.remove(&id0).unwrap();
    assert_eq!(store.len(), 1);
    assert_eq!(store.get_line(0).unwrap().meta(), r#""b""#);
    store.remove_all().unwrap();
    assert_eq!(store.len(), 0);
    assert!(Records::try_new("{".to_owned()).is_none());
}
