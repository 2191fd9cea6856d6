use timing_system::pending_queue::{NextCarQueue, PendingCarQueue, QueueError};

const SCHEMA: &str = r#"{"type": "string"}"#;
const DEFAULT: &str = r#""default_metadata""#;

fn setup() -> PendingCarQueue {
    PendingCarQueue::try_new(SCHEMA.to_owned(), DEFAULT.to_owned()).unwrap()
}

#[test]
fn seeded_with_one_default_entry() {
    let queue = setup();
    assert_eq!(queue.len(), 1);
    assert_eq!(queue.get_car(0).unwrap().meta(), DEFAULT);
    assert_eq!(queue.get_car(0).unwrap().id().len(), 21);
}

#[test]
fn rejects_bad_schema_or_default() {
    assert!(PendingCarQueue::try_new("{".to_owned(), DEFAULT.to_owned()).is_none());
    assert!(PendingCarQueue::try_new(SCHEMA.to_owned(), "42".to_owned()).is_none());
    assert!(PendingCarQueue::try_new(SCHEMA.to_owned(), "not json".to_owned()).is_none());
}

#[test]
fn insert_appends_and_respects_position() {
    let mut queue = setup();
    queue.insert(r#""zero""#.to_owned(), None).unwrap();
    queue.insert(r#""one""#.to_owned(), Some(1)).unwrap();
    assert_eq!(queue.len(), 3);
    assert_eq!(queue.get_car(0).unwrap().meta(), DEFAULT);
    assert_eq!(queue.get_car(1).unwrap().meta(), r#""one""#);
    assert_eq!(queue.get_car(2).unwrap().meta(), r#""zero""#);
}

#[test]
fn insert_rejects_invalid_metadata_and_large_index() {
    let mut queue = setup();
    assert_eq!(
        queue.insert("17".to_owned(), None),
        Err(QueueError::MetadataValidationFailed)
    );
    assert_eq!(
        queue.insert(r#""ok""#.to_owned(), Some(2)),
        Err(QueueError::IndexTooLarge)
    );
    assert_eq!(queue.len(), 1);
}

#[test]
fn remove_refills_an_emptied_queue_with_the_default() {
    let mut queue = setup();
    queue.insert(r#""zero""#.to_owned(), None).unwrap();
    let seed_id = queue.get_car(0).unwrap().id().clone();
    let zero_id = queue.get_car(1).unwrap().id().clone();
    queue.remove(&seed_id).unwrap();
    assert_eq!(queue.len(), 1);
    assert_eq!(queue.get_car(0).unwrap().meta(), r#""zero""#);
    queue.remove(&zero_id).unwrap();
    assert_eq!(queue.len(), 1);
    assert_eq!(queue.get_car(0).unwrap().meta(), DEFAULT);
}

#[test]
fn remove_rejects_an_unknown_id() {
    let mut queue = setup();
    assert_eq!(queue.remove("invalid_id"), Err(QueueError::NoSuchCar));
}

#[test]
fn update_overwrites_metadata_in_place() {
    let mut queue = setup();
    queue.insert(r#""zero""#.to_owned(), None).unwrap();
    let id = queue.get_car(1).unwrap().id().clone();
    queue.update(&id, r#""updated""#.to_owned()).unwrap();
    assert_eq!(queue.len(), 2);
    assert_eq!(queue.get_car(1).unwrap().meta(), r#""updated""#);
    assert_eq!(queue.get_car(1).unwrap().id(), &id);
    assert_eq!(queue.update("ghost", r#""x""#.to_owned()), Err(QueueError::NoSuchCar));
}

#[test]
fn insert_many_splices_at_position() {
    let mut queue = setup();
    queue
        .insert_many(vec![r#""a""#.to_owned(), r#""b""#.to_owned()], Some(0))
        .unwrap();
    assert_eq!(queue.len(), 3);
    assert_eq!(queue.get_car(0).unwrap().meta(), r#""a""#);
    assert_eq!(queue.get_car(1).unwrap().meta(), r#""b""#);
    assert_eq!(queue.get_car(2).unwrap().meta(), DEFAULT);
    assert_eq!(
        queue.insert_many(vec![r#""c""#.to_owned()], Some(9)),
        Err(QueueError::IndexTooLarge)
    );
    assert_eq!(
        queue.insert_many(vec![r#""ok""#.to_owned(), "3".to_owned()], None),
        Err(QueueError::MetadataValidationFailed)
    );
    assert_eq!(queue.len(), 3);
}

#[test]
fn remove_all_reseeds_with_the_default() {
    let mut queue = setup();
    queue.insert(r#""zero""#.to_owned(), None).unwrap();
    queue.remove_all().unwrap();
    assert_eq!(queue.len(), 1);
    assert_eq!(queue.get_car(0).unwrap().meta(), DEFAULT);
}

#[test]
fn replace_swaps_the_whole_queue() {
    let mut queue = setup();
    queue
        .replace(vec![r#""x""#.to_owned(), r#""y""#.to_owned()])
        .unwrap();
    assert_eq!(queue.len(), 2);
    assert_eq!(queue.get_car(0).unwrap().meta(), r#""x""#);
    assert_eq!(queue.get_car(1).unwrap().meta(), r#""y""#);
    assert_eq!(
        queue.replace(vec!["5".to_owned()]),
        Err(QueueError::MetadataValidationFailed)
    );
    assert_eq!(queue.len(), 2);
    queue.replace(Vec::new()).unwrap();
    assert_eq!(queue.len(), 0);
}

#[test]
fn consume_takes_from_the_front_and_refills_when_emptied() {
    let mut queue = setup();
    queue.insert(r#""zero""#.to_owned(), None).unwrap();
    assert_eq!(queue.consume_next_car().unwrap(), DEFAULT.to_owned());
    assert_eq!(queue.consume_next_car().unwrap(), r#""zero""#.to_owned());
    // Consuming the last entry reseeds the queue with the default.
    assert_eq!(queue.len(), 1);
    assert_eq!(queue.consume_next_car().unwrap(), DEFAULT.to_owned());
    // An emptied-and-not-refilled queue only arises after a replace.
    queue.replace(Vec::new()).unwrap();
    assert_eq!(queue.consume_next_car(), None);
}
