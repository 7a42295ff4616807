use resource_list::list::{Event, ListError, ResourceList};
use resource_list::resource::{make_resource, Resource};
use resource_list::status::{menu_for_status, MenuKind, Status};

fn res(id: u64, name: &str, status: Status) -> Resource {
    make_resource(id, name.to_string(), status)
}

fn counts(l: &ResourceList) -> [usize; 8] {
    [
        l.created(),
        l.dead(),
        l.exited(),
        l.paused(),
        l.removing(),
        l.running(),
        l.stopped(),
        l.stopping(),
    ]
}

#[test]
fn new_list_is_empty() {
    let l = ResourceList::new();
    assert_eq!(l.len(), 0);
    assert_eq!(l.event_count(), 0);
    assert_eq!(counts(&l), [0; 8]);
    assert!(l.item_at(0).is_none());
    assert!(l.events_since(0).is_empty());
}

#[test]
fn container_lifecycle_scenario() {
    let mut l = ResourceList::new();
    assert_eq!(l.emit_added(res(1, "A", Status::Running)), Ok(()));
    assert_eq!(l.emit_added(res(2, "B", Status::Paused)), Ok(()));
    assert_eq!(l.emit_added(res(3, "C", Status::Running)), Ok(()));
    assert_eq!(l.running(), 2);
    assert_eq!(l.paused(), 1);
    assert_eq!(l.len(), 3);

    assert_eq!(l.set_status(1, Status::Exited), Ok(()));
    assert_eq!(l.running(), 1);
    assert_eq!(l.exited(), 1);
    assert_eq!(l.paused(), 1);

    assert_eq!(l.emit_removed(2), Ok(()));
    assert_eq!(l.paused(), 0);
    assert_eq!(l.len(), 2);

    let mark = l.event_count();
    assert_eq!(l.set_name(3, "C2".to_string()), Ok(()));
    assert_eq!(l.events_since(mark), vec![Event::Renamed(3)]);
    assert_eq!(l.running(), 1);
    assert_eq!(l.exited(), 1);
    assert_eq!(l.item_at(1).unwrap().name, "C2");
}

#[test]
fn events_keep_emission_order() {
    let mut l = ResourceList::new();
    l.emit_added(res(10, "A", Status::Created)).unwrap();
    l.emit_added(res(20, "B", Status::Created)).unwrap();
    l.emit_removed(10).unwrap();
    assert_eq!(
        l.events_since(0),
        vec![
            Event::Added(10),
            Event::CountsChanged,
            Event::Added(20),
            Event::CountsChanged,
            Event::Removed(10),
            Event::CountsChanged,
        ]
    );
    let structural: Vec<Event> = l
        .events_since(0)
        .into_iter()
        .filter(|e| *e != Event::CountsChanged)
        .collect();
    assert_eq!(structural, vec![Event::Added(10), Event::Added(20), Event::Removed(10)]);
}

#[test]
fn len_tracks_adds_and_removes() {
    let mut l = ResourceList::new();
    let statuses = [
        Status::Created,
        Status::Running,
        Status::Running,
        Status::Dead,
        Status::Stopping,
        Status::Removing,
    ];
    for (i, st) in statuses.iter().enumerate() {
        l.emit_added(res(i as u64, "x", *st)).unwrap();
    }
    l.emit_removed(1).unwrap();
    l.emit_removed(3).unwrap();
    assert_eq!(l.len(), 6 - 2);
    assert_eq!(counts(&l), [1, 0, 0, 0, 1, 1, 0, 1]);
}

#[test]
fn status_write_emits_one_notification() {
    let mut l = ResourceList::new();
    l.emit_added(res(1, "a", Status::Stopped)).unwrap();
    l.emit_added(res(2, "b", Status::Stopped)).unwrap();
    let mark = l.event_count();
    let before = counts(&l);
    l.set_status(2, Status::Stopping).unwrap();
    assert_eq!(l.events_since(mark), vec![Event::CountsChanged]);
    let after = counts(&l);
    assert_eq!(before, [0, 0, 0, 0, 0, 0, 2, 0]);
    assert_eq!(after, [0, 0, 0, 0, 0, 0, 1, 1]);
    assert_eq!(l.len(), 2);
}

#[test]
fn rename_keeps_counts() {
    let mut l = ResourceList::new();
    l.emit_added(res(5, "web", Status::Running)).unwrap();
    let before = counts(&l);
    let mark = l.event_count();
    l.set_name(5, "web2".to_string()).unwrap();
    assert_eq!(l.events_since(mark), vec![Event::Renamed(5)]);
    assert_eq!(counts(&l), before);
    assert_eq!(l.item_at(0).unwrap().name, "web2");
}

#[test]
fn removed_member_gets_no_more_events() {
    let mut l = ResourceList::new();
    l.emit_added(res(7, "db", Status::Paused)).unwrap();
    let mark = l.event_count();
    assert_eq!(l.emit_removed(7), Ok(()));
    assert_eq!(l.events_since(mark), vec![Event::Removed(7), Event::CountsChanged]);
    assert_eq!(l.paused(), 0);
    assert!(!l.contains(7));
    let mark = l.event_count();
    assert_eq!(l.set_status(7, Status::Running), Err(ListError::NotFound));
    assert_eq!(l.set_name(7, "other".to_string()), Err(ListError::NotFound));
    assert_eq!(l.emit_renamed(7), Err(ListError::NotFound));
    assert_eq!(l.event_count(), mark);
    assert_eq!(l.running(), 0);
}

#[test]
fn duplicate_add_is_refused() {
    let mut l = ResourceList::new();
    l.emit_added(res(1, "a", Status::Running)).unwrap();
    assert_eq!(l.emit_added(res(1, "b", Status::Dead)), Err(ListError::DuplicateId));
    assert_eq!(l.len(), 1);
    assert_eq!(l.dead(), 0);
    assert_eq!(l.event_count(), 2);
}

#[test]
fn remove_without_add_is_refused() {
    let mut l = ResourceList::new();
    assert_eq!(l.emit_removed(3), Err(ListError::NotFound));
    assert_eq!(l.event_count(), 0);
}

#[test]
fn emit_renamed_logs_one_event() {
    let mut l = ResourceList::new();
    l.emit_added(res(4, "n", Status::Unknown)).unwrap();
    assert_eq!(l.emit_renamed(4), Ok(()));
    assert_eq!(l.events_since(2), vec![Event::Renamed(4)]);
    assert_eq!(l.len(), 1);
}

#[test]
fn events_since_past_end_is_empty() {
    let mut l = ResourceList::new();
    l.emit_added(res(1, "a", Status::Configured)).unwrap();
    assert!(l.events_since(2).is_empty());
    assert!(l.events_since(100).is_empty());
    assert_eq!(l.events_since(1), vec![Event::CountsChanged]);
}

#[test]
fn item_at_follows_index_order() {
    let mut l = ResourceList::new();
    l.emit_added(res(1, "a", Status::Created)).unwrap();
    l.emit_added(res(2, "b", Status::Exited)).unwrap();
    l.emit_added(res(3, "c", Status::Dead)).unwrap();
    l.emit_removed(2).unwrap();
    assert_eq!(l.item_at(0).unwrap().id, 1);
    assert_eq!(l.item_at(1).unwrap().id, 3);
    assert!(l.item_at(2).is_none());
    assert_eq!(l.count(Status::Configured), 0);
    assert_eq!(l.count(Status::Dead), 1);
}

#[test]
fn menu_follows_status() {
    assert_eq!(menu_for_status(Status::Running), Some(MenuKind::Running));
    assert_eq!(menu_for_status(Status::Paused), Some(MenuKind::Paused));
    for st in [
        Status::Configured,
        Status::Created,
        Status::Exited,
        Status::Dead,
        Status::Stopped,
    ] {
        assert_eq!(menu_for_status(st), Some(MenuKind::Stopped));
    }
    for st in [Status::Stopping, Status::Removing, Status::Unknown] {
        assert_eq!(menu_for_status(st), None);
    }
}
