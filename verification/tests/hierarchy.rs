use achiet::database::query::{Column, Query, Row};
use achiet::database::value::Value;
use achiet::error::Error;
use achiet::model::tag::Tag;
use achiet::repo::script::Progress;
use achiet::taskqueue::dispatcher::Dispatcher;
use achiet::taskqueue::task::{Linkage, ParentRequest, Task};
use achiet::taskqueue::channel;
use achiet::taskqueue::worker::{Work, Worker};
use achiet::util::Timestamp;

fn text(s: &str) -> Value {
    Value::String(Some(s.to_string()))
}

fn tag_row(tag: &Tag) -> Row {
    Row {
        columns: vec![
            Column("id".to_string(), text(&tag.id)),
            Column("path".to_string(), text(&tag.path)),
            Column("prefix".to_string(), text(&tag.prefix)),
            Column("name".to_string(), text(&tag.name)),
            Column("label".to_string(), Value::String(tag.label.clone())),
            Column("parent_id".to_string(), Value::String(tag.parent_id.clone())),
            Column("depth".to_string(), Value::Unsigned(Some(tag.depth))),
            Column("value_type".to_string(), Value::String(tag.value_type.clone())),
            Column("user_id".to_string(), text(&tag.user_id)),
            Column("created_at".to_string(), Value::DateTime(tag.created_at)),
            Column("updated_at".to_string(), Value::DateTime(tag.updated_at)),
        ],
    }
}

/// A store of tags that answers the statements of the library.
struct Store {
    tags: Vec<Tag>,
    statements: Vec<String>,
}

impl Store {
    fn select(&mut self, query: Query, owner: &str, paths: &[String]) -> Vec<Row> {
        self.statements.push(query.build().0);
        self.tags
            .iter()
            .filter(|t| t.user_id == owner && paths.contains(&t.path))
            .map(tag_row)
            .collect()
    }
}

/// Runs one task against the store, as a worker does.
fn run(task: &Task, store: &mut Store) -> Result<(), Error> {
    let query = match task.read_query() {
        Some(query) => query,
        None => return Ok(()),
    };
    let request = task.parent_request().unwrap();
    let rows = store.select(query, &request.owner, &[request.parent.path.clone()]);
    let done = task.run(&rows, Timestamp { secs: 100, nanos: 0 })?;
    let mut progress = done.script.begin();
    loop {
        match progress {
            Progress::Finished(outcome) => {
                assert_eq!(outcome?, done.linked);
                return Ok(());
            }
            Progress::Execute(query, rest) => {
                let text = query.build().0;
                if text.starts_with("INSERT INTO tag ") {
                    store.tags.extend(done.found.create.iter().cloned());
                } else {
                    let linked = done.linked.clone().unwrap();
                    for stored in store.tags.iter_mut() {
                        if stored.id == linked.id {
                            *stored = linked.clone();
                        }
                    }
                }
                store.statements.push(text);
                progress = rest.resume(true);
            }
        }
    }
}

fn child() -> Tag {
    Tag {
        id: "child".to_string(),
        user_id: "u1".to_string(),
        ..Tag::from_path("/work/project/todo".to_string())
    }
}

#[test]
fn tag_updated_links_the_tag_to_its_parent() {
    let (dispatcher, worker): (Dispatcher, Worker) = channel();
    let mut store = Store { tags: vec![child()], statements: Vec::new() };
    assert_eq!(child().depth, 3);
    assert_eq!(child().parent_id, None);

    assert_eq!(dispatcher.dispatch(Task::TagUpdated(child())), Ok(()));
    let task = match worker.next() {
        Work::Run(task) => task,
        Work::Stop => panic!("the queue held a task"),
    };
    assert_eq!(task, Task::TagUpdated(child()));
    assert_eq!(run(&task, &mut store), Ok(()));

    let parents: Vec<&Tag> =
        store.tags.iter().filter(|t| t.path == "/work/project" && t.user_id == "u1").collect();
    assert_eq!(parents.len(), 1);
    let parent = parents[0];
    assert_eq!(parent.prefix, "/work");
    assert_eq!(parent.name, "project");
    assert_eq!(parent.depth, 2);
    assert_eq!(parent.id.chars().count(), 26);
    // The parent is linked by a task of its own, if ever.
    assert_eq!(parent.parent_id, None);
    assert_eq!(parent.linkage(), Linkage::Unlinked);
    assert!(store.tags.iter().all(|t| t.path != "/work"));

    let linked = store.tags.iter().find(|t| t.id == "child").unwrap();
    assert_eq!(linked.parent_id, Some(parent.id.clone()));
    assert_eq!(linked.linkage(), Linkage::Linked);
    assert_eq!(*linked, Tag { parent_id: Some(parent.id.clone()), ..child() });

    assert_eq!(
        store.statements,
        vec![
            "SELECT * FROM tag WHERE user_id = ? AND path IN (?)".to_string(),
            "INSERT INTO tag (id, path, prefix, name, label, parent_id, depth, value_type, \
             user_id, created_at, updated_at) VALUES (?, ?, ?, ?, ?, ?, ?, ?, ?, ?, ?)"
                .to_string(),
            "UPDATE tag SET path = ?, prefix = ?, name = ?, label = ?, parent_id = ?, \
             depth = ?, value_type = ?, updated_at = ? WHERE id = ?"
                .to_string(),
        ]
    );
}

#[test]
fn tag_updated_uses_a_parent_that_is_stored() {
    let parent = Tag {
        id: "parent".to_string(),
        user_id: "u1".to_string(),
        ..Tag::from_path("/work/project".to_string())
    };
    let mut store = Store { tags: vec![child(), parent.clone()], statements: Vec::new() };
    assert_eq!(run(&Task::TagUpdated(child()), &mut store), Ok(()));
    assert_eq!(store.tags.len(), 2);
    assert_eq!(store.tags[0].parent_id, Some("parent".to_string()));
    assert_eq!(store.tags[1], parent);
    assert_eq!(store.statements.len(), 2);
}

#[test]
fn tag_updated_of_a_top_level_tag_changes_nothing() {
    let top = Tag {
        id: "top".to_string(),
        user_id: "u1".to_string(),
        ..Tag::from_path("/work".to_string())
    };
    assert_eq!(top.depth, 1);
    assert_eq!(top.linkage(), Linkage::TopLevel);
    let (dispatcher, worker) = channel();
    let mut store = Store { tags: vec![top.clone()], statements: Vec::new() };
    dispatcher.dispatch(Task::TagUpdated(top.clone())).unwrap();
    match worker.next() {
        Work::Run(task) => {
            assert_eq!(task.parent_request(), None);
            assert_eq!(task.linked(&vec![child()]), None);
            assert_eq!(run(&task, &mut store), Ok(()));
        }
        Work::Stop => panic!("the queue held a task"),
    }
    assert_eq!(store.tags, vec![top]);
    assert!(store.statements.is_empty());
}

#[test]
fn tag_updated_of_a_linked_tag_changes_nothing() {
    let linked = Tag { parent_id: Some("p".to_string()), ..child() };
    let mut store = Store { tags: vec![linked.clone()], statements: Vec::new() };
    let task = Task::TagUpdated(linked.clone());
    assert_eq!(task.parent_request(), None);
    assert_eq!(run(&task, &mut store), Ok(()));
    assert_eq!(store.tags, vec![linked]);
    assert!(store.statements.is_empty());
}

#[test]
fn empty_task_asks_for_nothing() {
    assert_eq!(Task::Empty.parent_request(), None);
    assert_eq!(Task::Empty.linked(&vec![child()]), None);
    let mut store = Store { tags: Vec::new(), statements: Vec::new() };
    assert_eq!(run(&Task::Empty, &mut store), Ok(()));
    assert!(store.statements.is_empty());
}

#[test]
fn parent_request_names_owner_and_parent_path() {
    let task = Task::TagUpdated(child());
    assert_eq!(
        task.parent_request(),
        Some(ParentRequest {
            owner: "u1".to_string(),
            parent: Tag::from_path("/work/project".to_string()),
        })
    );
    let second = Task::TagUpdated(Tag {
        user_id: "u2".to_string(),
        ..Tag::from_path("/a/b".to_string())
    });
    assert_eq!(
        second.parent_request(),
        Some(ParentRequest { owner: "u2".to_string(), parent: Tag::from_path("/a".to_string()) })
    );
}

#[test]
fn linked_without_resolved_parent_writes_nothing() {
    assert_eq!(Task::TagUpdated(child()).linked(&Vec::new()), None);
}

#[test]
fn link_to_sets_only_the_parent() {
    let parent = Tag { id: "p".to_string(), ..Tag::from_path("/work/project".to_string()) };
    let linked = child().link_to(&parent);
    assert_eq!(linked, Tag { parent_id: Some("p".to_string()), ..child() });
    assert_eq!(linked.link_to(&parent), linked);
}

#[test]
fn dispatch_fails_once_every_worker_is_gone() {
    let (dispatcher, worker) = channel();
    assert_eq!(dispatcher.dispatch(Task::Empty), Ok(()));
    drop(worker);
    assert_eq!(dispatcher.dispatch(Task::Empty), Err(()));
    assert_eq!(
        dispatcher.try_dispatch(Task::TagUpdated(child())),
        Err(Task::TagUpdated(child()))
    );
}

#[test]
fn worker_stops_once_the_queue_is_closed_and_empty() {
    let (dispatcher, worker) = channel();
    dispatcher.dispatch(Task::Empty).unwrap();
    dispatcher.clone().dispatch(Task::TagUpdated(child())).unwrap();
    drop(dispatcher);
    assert_eq!(worker.next(), Work::Run(Task::Empty));
    assert_eq!(worker.take(), Some(Task::TagUpdated(child())));
    assert_eq!(worker.next(), Work::Stop);
    assert_eq!(worker.take(), None);
    assert_eq!(Worker::decide(None), Work::Stop);
    assert_eq!(Worker::decide(Some(Task::Empty)), Work::Run(Task::Empty));
}

#[test]
fn each_task_goes_to_one_worker() {
    let (dispatcher, first) = channel();
    let second = first.clone();
    dispatcher.dispatch(Task::Empty).unwrap();
    dispatcher.dispatch(Task::TagUpdated(child())).unwrap();
    drop(dispatcher);
    assert_eq!(first.take(), Some(Task::Empty));
    assert_eq!(second.take(), Some(Task::TagUpdated(child())));
    assert_eq!(first.take(), None);
    assert_eq!(second.take(), None);
}

#[test]
fn run_of_a_task_with_nothing_to_do_ignores_the_rows() {
    let rows = vec![Row { columns: Vec::new() }];
    let now = Timestamp { secs: 1, nanos: 0 };
    for task in [
        Task::Empty,
        Task::TagUpdated(Tag::from_path("/top".to_string())),
        Task::TagUpdated(Tag { parent_id: Some("p".to_string()), ..child() }),
    ] {
        assert!(task.read_query().is_none());
        let done = task.run(&rows, now).unwrap();
        assert!(done.found.create.is_empty());
        assert!(done.found.tags.is_empty());
        assert_eq!(done.linked, None);
        assert_eq!(done.script.remaining(), 0);
    }
}

#[test]
fn run_fails_on_a_row_that_holds_no_tag() {
    let rows = vec![Row { columns: Vec::new() }];
    let done = Task::TagUpdated(child()).run(&rows, Timestamp { secs: 1, nanos: 0 });
    assert_eq!(done.err(), Some(Error::DecodeFailure));
}

#[test]
fn run_links_to_the_stored_parent_without_an_insert() {
    let parent = Tag {
        id: "parent".to_string(),
        user_id: "u1".to_string(),
        ..Tag::from_path("/work/project".to_string())
    };
    let other = Tag {
        id: "other".to_string(),
        user_id: "u2".to_string(),
        ..Tag::from_path("/work/project".to_string())
    };
    let rows = vec![tag_row(&other), tag_row(&parent)];
    let done = Task::TagUpdated(child()).run(&rows, Timestamp { secs: 1, nanos: 0 }).unwrap();
    assert!(done.found.create.is_empty());
    assert_eq!(done.found.tags, vec![parent]);
    assert_eq!(done.linked, Some(Tag { parent_id: Some("parent".to_string()), ..child() }));
    assert_eq!(done.script.remaining(), 1);
}

#[test]
fn dispatcher_and_worker_use_the_halves_they_were_made_with() {
    let (sx, rx) = crossbeam::channel::unbounded::<Task>();
    let (other_sx, other_rx) = crossbeam::channel::unbounded::<Task>();
    let dispatcher = Dispatcher::new(sx);
    let worker = Worker::new(rx);
    dispatcher.dispatch(Task::TagUpdated(child())).unwrap();
    assert!(other_rx.is_empty());
    other_sx.send(Task::Empty).unwrap();
    assert_eq!(worker.take(), Some(Task::TagUpdated(child())));
    assert_eq!(other_rx.recv(), Ok(Task::Empty));
    drop(dispatcher);
    assert_eq!(worker.next(), Work::Stop);
}

#[test]
fn queue_takes_any_number_of_tasks_without_a_worker_taking() {
    let (dispatcher, worker) = channel();
    for _ in 0..10_000 {
        assert_eq!(dispatcher.dispatch(Task::Empty), Ok(()));
    }
    drop(dispatcher);
    let mut taken = 0;
    while let Work::Run(task) = worker.next() {
        assert_eq!(task, Task::Empty);
        taken += 1;
    }
    assert_eq!(taken, 10_000);
}

#[test]
fn report_forgets_the_task_that_was_handed_back() {
    assert_eq!(Dispatcher::report(Ok(())), Ok(()));
    assert_eq!(Dispatcher::report(Err(Task::Empty)), Err(()));
    assert_eq!(Dispatcher::report(Err(Task::TagUpdated(child()))), Err(()));
}
