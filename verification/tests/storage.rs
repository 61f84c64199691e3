use helm_storage::release::{Info, Release, Status, Timestamp};
use helm_storage::storage::driver::object::Object;
use helm_storage::storage::driver::secrets::Secrets;
use helm_storage::storage::driver::{ApiError, BackendError, Driver, DriverError};
use helm_storage::storage::{
    any_status, is_deployed, is_uninstalled, latest, least_recent, sorted_versions, MaxHistory,
    Storage, HELM_STORAGE_TYPE,
};
use std::cell::RefCell;

const SEP: char = '\u{1f}';

fn time_text(t: &Option<Timestamp>) -> String {
    match t {
        Some(t) => format!("{}.{}", t.seconds, t.nanos),
        None => String::new(),
    }
}

fn text_time(s: &str) -> Option<Timestamp> {
    if s.is_empty() {
        return None;
    }
    let (seconds, nanos) = s.split_once('.').unwrap();
    Some(Timestamp { seconds: seconds.parse().unwrap(), nanos: nanos.parse().unwrap() })
}

/// A document format for these tests: the fields, separated.
fn to_document(rel: &Release) -> Vec<u8> {
    let mut fields = vec![
        rel.name.clone(),
        time_text(&rel.info.first_deployed),
        time_text(&rel.info.last_deployed),
        time_text(&rel.info.deleted),
        rel.info.description.clone(),
        rel.info.status.to_string(),
        rel.info.notes.clone(),
        rel.manifest.clone(),
        rel.version.to_string(),
        rel.namespace.clone(),
    ];
    for (k, v) in rel.config.iter() {
        fields.push(k.clone());
        fields.push(v.clone());
    }
    fields.join(&SEP.to_string()).into_bytes()
}

fn status_of(text: &str) -> Status {
    let all = [
        Status::Unknown,
        Status::Deployed,
        Status::Uninstalled,
        Status::Superseded,
        Status::Failed,
        Status::Uninstalling,
        Status::PendingInstall,
        Status::PendingUpgrade,
        Status::PendingRollback,
    ];
    *all.iter().find(|s| s.to_string() == text).unwrap()
}

fn from_document(doc: Vec<u8>) -> Result<Release, DriverError> {
    let text = String::from_utf8(doc)
        .map_err(|e| DriverError::DecodeError { message: e.to_string() })?;
    let fields: Vec<&str> = text.split(SEP).collect();
    if fields.len() < 10 || fields.len() % 2 != 0 {
        return Err(DriverError::DecodeError { message: "short document".to_string() });
    }
    let mut config = Vec::new();
    let mut i = 10;
    while i < fields.len() {
        config.push((fields[i].to_string(), fields[i + 1].to_string()));
        i += 2;
    }
    Ok(Release {
        name: fields[0].to_string(),
        info: Info {
            first_deployed: text_time(fields[1]),
            last_deployed: text_time(fields[2]),
            deleted: text_time(fields[3]),
            description: fields[4].to_string(),
            status: status_of(fields[5]),
            notes: fields[6].to_string(),
        },
        config,
        manifest: fields[7].to_string(),
        version: fields[8].parse().unwrap(),
        namespace: fields[9].to_string(),
    })
}

fn refused(reason: &str) -> DriverError {
    DriverError::from(BackendError {
        api_error: Some(ApiError {
            status: "Failure".to_string(),
            message: String::new(),
            reason: reason.to_string(),
            code: 0,
        }),
        message: String::new(),
    })
}

/// A backing store in memory that keeps secrets as the library writes them.
struct Memory {
    objects: RefCell<Vec<Object>>,
    /// The keys whose removal the store refuses.
    stuck: Vec<String>,
    /// The keys that `delete` was asked to remove.
    asked: RefCell<Vec<String>>,
    /// Whether every query fails.
    down: bool,
}

impl Memory {
    fn new() -> Self {
        Memory {
            objects: RefCell::new(Vec::new()),
            stuck: Vec::new(),
            asked: RefCell::new(Vec::new()),
            down: false,
        }
    }

    fn label(obj: &Object, key: &str) -> Option<String> {
        obj.labels.iter().rev().find(|l| l.0 == key).map(|l| l.1.clone())
    }

    fn read(obj: &Object) -> Result<Release, DriverError> {
        let stored: Vec<(String, Vec<u8>)> = obj
            .data
            .iter()
            .map(|(k, v)| (k.clone(), base64::decode(v).unwrap()))
            .collect();
        from_document(Secrets::get_document(stored)?)
    }

    fn select<F: Fn(&Release) -> bool>(
        &self,
        labels: &[(String, String)],
        filter: F,
    ) -> Result<Vec<Release>, DriverError> {
        if self.down {
            return Err(refused("ServiceUnavailable"));
        }
        let decoded: Vec<Result<Release, DriverError>> = self
            .objects
            .borrow()
            .iter()
            .filter(|obj| labels.iter().all(|l| Memory::label(obj, &l.0).as_ref() == Some(&l.1)))
            .map(Memory::read)
            .collect();
        Secrets::get_secret_list(decoded, filter)
    }

    fn names(&self) -> Vec<String> {
        let mut names: Vec<String> = self.objects.borrow().iter().map(|o| o.name.clone()).collect();
        names.sort();
        names
    }
}

impl Driver for Memory {
    fn name(&self) -> String {
        "memory".to_string()
    }

    fn create(&self, key: &String, rel: Release) -> Result<(), DriverError> {
        let obj = Secrets::create_object(key, &rel, &to_document(&rel), 1570000000)?;
        if self.objects.borrow().iter().any(|o| &o.name == key) {
            return Err(refused("AlreadyExists"));
        }
        self.objects.borrow_mut().push(obj);
        Ok(())
    }

    fn update(&self, key: &String, rel: Release) -> Result<(), DriverError> {
        let obj = Secrets::update_object(key, &rel, &to_document(&rel), 1570000001)?;
        let mut objects = self.objects.borrow_mut();
        match objects.iter_mut().find(|o| &o.name == key) {
            Some(slot) => {
                *slot = obj;
                Ok(())
            }
            None => Err(refused("NotFound")),
        }
    }

    fn delete(&self, key: &String) -> Result<Release, DriverError> {
        self.asked.borrow_mut().push(key.clone());
        let rel = self.get(key)?;
        if self.stuck.contains(key) {
            return Err(refused("TooManyRequests"));
        }
        self.objects.borrow_mut().retain(|o| &o.name != key);
        Ok(rel)
    }

    fn get(&self, key: &String) -> Result<Release, DriverError> {
        match self.objects.borrow().iter().find(|o| &o.name == key) {
            Some(obj) => Memory::read(obj),
            None => Err(refused("NotFound")),
        }
    }

    fn list<F: Fn(&Release) -> bool>(&self, filter: F) -> Result<Vec<Release>, DriverError> {
        self.select(&[("owner".to_string(), "helm".to_string())], filter)
    }

    fn query(&self, labels: Vec<(String, String)>) -> Result<Vec<Release>, DriverError> {
        self.select(&labels, |_| true)
    }
}

fn release(name: &str, version: usize, status: Status) -> Release {
    Release {
        name: name.to_string(),
        info: Info {
            first_deployed: Some(Timestamp { seconds: 1570000000, nanos: 42 }),
            description: "a release".to_string(),
            status,
            ..Info::default()
        },
        config: vec![("foo".to_string(), "\"bar\"".to_string())],
        manifest: "kind: Foo\napiVersion:bar".to_string(),
        version,
        namespace: "default".to_string(),
    }
}

fn versions(rels: &[Release]) -> Vec<usize> {
    let mut v: Vec<usize> = rels.iter().map(|r| r.version).collect();
    v.sort();
    v
}

fn store_with(history: &[usize], max: MaxHistory) -> Storage<Memory> {
    let fill = Storage::new(Memory::new(), MaxHistory::NoLimit);
    for v in history {
        fill.create(release("hello", *v, Status::Superseded)).unwrap();
    }
    Storage::new(fill.driver, max)
}

#[test]
fn prefix_of_the_keys() {
    assert_eq!(HELM_STORAGE_TYPE, "sh.helm.release.v1");
}

#[test]
fn key_of_a_release() {
    let store = Storage::new(Memory::new(), MaxHistory::NoLimit);
    assert_eq!(store.make_key("hello", &1), "sh.helm.release.v1.hello.v1");
    assert_eq!(store.make_key("my-app", &120), "sh.helm.release.v1.my-app.v120");
    assert_eq!(store.make_key("", &0), "sh.helm.release.v1..v0");
}

#[test]
fn key_is_stable() {
    let store = Storage::new(Memory::new(), MaxHistory::Limit(3));
    let other = Storage::new(Memory::new(), MaxHistory::NoLimit);
    assert_eq!(store.make_key("hello", &7), store.make_key("hello", &7));
    assert_eq!(store.make_key("hello", &7), other.make_key("hello", &7));
    assert_ne!(store.make_key("hello", &7), store.make_key("hello", &8));
    assert_ne!(store.make_key("hello", &7), store.make_key("hallo", &7));
}

#[test]
fn example_scenario() {
    let store = Storage::new(Memory::new(), MaxHistory::NoLimit);
    let rel = release("hello", 1, Status::Unknown);
    store.create(rel.clone()).unwrap();
    assert_eq!(store.driver.names(), vec!["sh.helm.release.v1.hello.v1".to_string()]);

    let mut got = store.get("hello", &1).unwrap();
    assert_eq!(got, rel);

    got.manifest = "kind: Blah\napiVersion:bar".to_string();
    store.update(got.clone()).unwrap();
    let mut got = store.get("hello", &1).unwrap();
    assert_eq!(got.manifest, "kind: Blah\napiVersion:bar");
    assert_eq!(got.name, "hello");
    assert_eq!(got.version, 1);

    got.version = 2;
    got.manifest = "kind: Last\napiVersion:bar".to_string();
    store.create(got).unwrap();
    let history = store.history("hello").unwrap();
    assert_eq!(versions(&history), vec![1, 2]);

    let deleted = store.delete("hello", &1).unwrap();
    assert_eq!(deleted.version, 1);
    assert_eq!(deleted.manifest, "kind: Blah\napiVersion:bar");
    assert_eq!(store.get("hello", &1), Err(DriverError::ReleaseNotExist));
    assert_eq!(store.get("hello", &2).map(|r| r.version), Ok(2));
}

#[test]
fn stored_object_carries_the_labels() {
    let store = Storage::new(Memory::new(), MaxHistory::NoLimit);
    store.create(release("hello", 4, Status::Deployed)).unwrap();
    let objects = store.driver.objects.borrow();
    let obj = &objects[0];
    assert_eq!(obj.kind, "Secret");
    assert_eq!(obj.name, "sh.helm.release.v1.hello.v4");
    assert_eq!(Memory::label(obj, "name"), Some("hello".to_string()));
    assert_eq!(Memory::label(obj, "owner"), Some("helm".to_string()));
    assert_eq!(Memory::label(obj, "status"), Some("deployed".to_string()));
    assert_eq!(Memory::label(obj, "version"), Some("4".to_string()));
    assert_eq!(Memory::label(obj, "createdAt"), Some("1570000000".to_string()));
}

#[test]
fn creating_twice_fails_and_keeps_the_first() {
    let store = Storage::new(Memory::new(), MaxHistory::NoLimit);
    let first = release("hello", 1, Status::Deployed);
    store.create(first.clone()).unwrap();
    let mut second = release("hello", 1, Status::Failed);
    second.manifest = "something else".to_string();
    assert_eq!(store.create(second), Err(DriverError::ReleaseAlreadyExists));
    assert_eq!(store.get("hello", &1), Ok(first));
    assert_eq!(store.driver.objects.borrow().len(), 1);
}

#[test]
fn updating_what_is_not_stored_fails() {
    let store = Storage::new(Memory::new(), MaxHistory::NoLimit);
    assert_eq!(
        store.update(release("hello", 1, Status::Deployed)),
        Err(DriverError::ReleaseNotExist)
    );
    assert!(store.driver.objects.borrow().is_empty());
}

#[test]
fn update_does_not_apply_the_retention_policy() {
    let store = store_with(&[1, 2, 3, 4, 5], MaxHistory::Limit(3));
    store.update(release("hello", 5, Status::Deployed)).unwrap();
    assert_eq!(versions(&store.history("hello").unwrap()), vec![1, 2, 3, 4, 5]);
    assert!(store.driver.asked.borrow().is_empty());
}

#[test]
fn deleting_what_is_not_stored_fails() {
    let store = Storage::new(Memory::new(), MaxHistory::NoLimit);
    assert_eq!(store.delete("hello", &1), Err(DriverError::ReleaseNotExist));
}

#[test]
fn retention_removes_the_lowest_versions() {
    let store = store_with(&[1, 2, 3, 4, 5], MaxHistory::Limit(3));
    assert_eq!(store.remove_least_recent("hello"), Ok(()));
    assert_eq!(versions(&store.history("hello").unwrap()), vec![3, 4, 5]);
    assert_eq!(
        *store.driver.asked.borrow(),
        vec!["sh.helm.release.v1.hello.v1".to_string(), "sh.helm.release.v1.hello.v2".to_string()]
    );
}

#[test]
fn retention_does_not_depend_on_the_order_of_the_history() {
    for order in [[5, 4, 3, 2, 1], [3, 1, 5, 2, 4], [2, 5, 1, 4, 3]] {
        let store = store_with(&order, MaxHistory::Limit(3));
        assert_eq!(store.remove_least_recent("hello"), Ok(()));
        assert_eq!(versions(&store.history("hello").unwrap()), vec![3, 4, 5]);
    }
}

#[test]
fn retention_passes_over_failed_removals() {
    let mut store = store_with(&[1, 2, 3, 4, 5], MaxHistory::Limit(2));
    store.driver.stuck = vec!["sh.helm.release.v1.hello.v2".to_string()];
    assert_eq!(store.remove_least_recent("hello"), Ok(()));
    assert_eq!(versions(&store.history("hello").unwrap()), vec![2, 4, 5]);
    assert_eq!(store.driver.asked.borrow().len(), 3);
    store.driver.stuck.clear();
    assert_eq!(store.remove_least_recent("hello"), Ok(()));
    assert_eq!(versions(&store.history("hello").unwrap()), vec![4, 5]);
}

#[test]
fn retention_within_the_limit_removes_nothing() {
    let store = store_with(&[1, 2, 3], MaxHistory::Limit(3));
    assert_eq!(store.remove_least_recent("hello"), Ok(()));
    assert_eq!(versions(&store.history("hello").unwrap()), vec![1, 2, 3]);
    let store = store_with(&[1, 2], MaxHistory::Limit(3));
    assert_eq!(store.remove_least_recent("hello"), Ok(()));
    assert_eq!(versions(&store.history("hello").unwrap()), vec![1, 2]);
    assert!(store.driver.asked.borrow().is_empty());
}

#[test]
fn retention_without_a_limit_does_nothing() {
    let mut store = store_with(&[1, 2, 3, 4, 5], MaxHistory::NoLimit);
    store.driver.down = true;
    assert_eq!(store.remove_least_recent("hello"), Ok(()));
    assert!(store.driver.asked.borrow().is_empty());
}

#[test]
fn retention_with_limit_zero_removes_all() {
    let store = store_with(&[1, 2, 3], MaxHistory::Limit(0));
    assert_eq!(store.remove_least_recent("hello"), Ok(()));
    assert!(store.history("hello").unwrap().is_empty());
}

#[test]
fn retention_leaves_other_releases_alone() {
    let store = store_with(&[1, 2, 3], MaxHistory::Limit(1));
    store.driver.create(&store.make_key("other", &1), release("other", 1, Status::Deployed)).unwrap();
    assert_eq!(store.remove_least_recent("hello"), Ok(()));
    assert_eq!(versions(&store.history("hello").unwrap()), vec![3]);
    assert_eq!(versions(&store.history("other").unwrap()), vec![1]);
}

#[test]
fn retention_fails_where_the_history_cannot_be_read() {
    let mut store = store_with(&[1, 2, 3], MaxHistory::Limit(1));
    store.driver.down = true;
    assert!(matches!(store.remove_least_recent("hello"), Err(DriverError::KubeError(_))));
    assert!(matches!(
        store.create(release("hello", 4, Status::Deployed)),
        Err(DriverError::KubeError(_))
    ));
    store.driver.down = false;
    assert_eq!(versions(&store.history("hello").unwrap()), vec![1, 2, 3]);
}

#[test]
fn create_applies_the_retention_policy_first() {
    let store = store_with(&[1, 2, 3, 4, 5], MaxHistory::Limit(3));
    store.create(release("hello", 6, Status::Deployed)).unwrap();
    assert_eq!(versions(&store.history("hello").unwrap()), vec![3, 4, 5, 6]);
}

#[test]
fn versions_to_remove() {
    let rels: Vec<Release> =
        [4, 1, 5, 3, 2].iter().map(|v| release("hello", *v, Status::Superseded)).collect();
    assert_eq!(least_recent(&rels, 3), vec![1, 2]);
    assert_eq!(least_recent(&rels, 0), vec![1, 2, 3, 4, 5]);
    assert_eq!(least_recent(&rels, 4), vec![1]);
    assert_eq!(least_recent(&rels, 5), Vec::<usize>::new());
    assert_eq!(least_recent(&rels, 9), Vec::<usize>::new());
    assert_eq!(least_recent(&Vec::new(), 0), Vec::<usize>::new());
}

#[test]
fn versions_in_ascending_order() {
    let rels: Vec<Release> =
        [4, 1, 5, 1, 3, 2].iter().map(|v| release("hello", *v, Status::Superseded)).collect();
    assert_eq!(sorted_versions(&rels), vec![1, 1, 2, 3, 4, 5]);
    assert_eq!(sorted_versions(&Vec::new()), Vec::<usize>::new());
}

#[test]
fn latest_of_a_list() {
    assert_eq!(latest(Vec::new()), Err(DriverError::ReleaseNotExist));
    let rels: Vec<Release> =
        [4, 1, 5, 3, 2].iter().map(|v| release("hello", *v, Status::Superseded)).collect();
    assert_eq!(latest(rels).map(|r| r.version), Ok(5));
}

#[test]
fn last_has_the_highest_version() {
    let store = store_with(&[2, 7, 3], MaxHistory::NoLimit);
    assert_eq!(store.last("hello").map(|r| r.version), Ok(7));
}

#[test]
fn last_of_an_unknown_release_fails() {
    let store = store_with(&[2, 7, 3], MaxHistory::NoLimit);
    assert_eq!(store.last("other"), Err(DriverError::ReleaseNotExist));
}

#[test]
fn last_deployed_has_the_highest_deployed_version() {
    let store = Storage::new(Memory::new(), MaxHistory::NoLimit);
    store.create(release("hello", 1, Status::Deployed)).unwrap();
    store.create(release("hello", 2, Status::Deployed)).unwrap();
    store.create(release("hello", 3, Status::Failed)).unwrap();
    store.create(release("other", 9, Status::Deployed)).unwrap();
    assert_eq!(store.last_deployed("hello").map(|r| r.version), Ok(2));
    assert_eq!(store.last("hello").map(|r| r.version), Ok(3));
    assert_eq!(versions(&store.get_all_deployed("hello").unwrap()), vec![1, 2]);
}

#[test]
fn last_deployed_fails_where_nothing_is_deployed() {
    let store = Storage::new(Memory::new(), MaxHistory::NoLimit);
    store.create(release("hello", 1, Status::Failed)).unwrap();
    assert_eq!(store.last_deployed("hello"), Err(DriverError::ReleaseNotExist));
    assert!(store.get_all_deployed("hello").unwrap().is_empty());
}

#[test]
fn last_passes_on_the_error_of_the_query() {
    let mut store = store_with(&[1], MaxHistory::NoLimit);
    store.driver.down = true;
    assert!(matches!(store.last("hello"), Err(DriverError::KubeError(_))));
    assert!(matches!(store.last_deployed("hello"), Err(DriverError::KubeError(_))));
    assert!(matches!(store.history("hello"), Err(DriverError::KubeError(_))));
}

#[test]
fn lists_by_status() {
    let store = Storage::new(Memory::new(), MaxHistory::NoLimit);
    store.create(release("a", 1, Status::Deployed)).unwrap();
    store.create(release("b", 1, Status::Uninstalled)).unwrap();
    store.create(release("c", 1, Status::Failed)).unwrap();
    store.create(release("d", 2, Status::Deployed)).unwrap();
    store.create(release("e", 1, Status::Uninstalling)).unwrap();

    let mut names: Vec<String> = store.list_all().unwrap().into_iter().map(|r| r.name).collect();
    names.sort();
    assert_eq!(names, vec!["a", "b", "c", "d", "e"]);

    let deployed = store.list_deployed().unwrap();
    assert!(deployed.iter().all(|r| r.info.status == Status::Deployed));
    let mut names: Vec<String> = deployed.into_iter().map(|r| r.name).collect();
    names.sort();
    assert_eq!(names, vec!["a", "d"]);

    let uninstalled = store.list_uninstalled().unwrap();
    let names: Vec<String> = uninstalled.into_iter().map(|r| r.name).collect();
    assert_eq!(names, vec!["b"]);
}

#[test]
fn lists_of_an_empty_store_are_empty() {
    let store = Storage::new(Memory::new(), MaxHistory::NoLimit);
    assert_eq!(store.list_all(), Ok(Vec::new()));
    assert_eq!(store.list_deployed(), Ok(Vec::new()));
    assert_eq!(store.list_uninstalled(), Ok(Vec::new()));
    assert_eq!(store.history("hello"), Ok(Vec::new()));
}

#[test]
fn status_filters() {
    assert!(any_status(&release("a", 1, Status::Failed)));
    assert!(is_deployed(&release("a", 1, Status::Deployed)));
    assert!(!is_deployed(&release("a", 1, Status::Uninstalled)));
    assert!(is_uninstalled(&release("a", 1, Status::Uninstalled)));
    assert!(!is_uninstalled(&release("a", 1, Status::Uninstalling)));
}

#[test]
fn history_holds_every_status() {
    let store = Storage::new(Memory::new(), MaxHistory::NoLimit);
    store.create(release("hello", 1, Status::Superseded)).unwrap();
    store.create(release("hello", 2, Status::Failed)).unwrap();
    store.create(release("hello", 3, Status::Deployed)).unwrap();
    store.create(release("hellooo", 1, Status::Deployed)).unwrap();
    assert_eq!(versions(&store.history("hello").unwrap()), vec![1, 2, 3]);
}

#[test]
fn stored_release_comes_back_field_for_field() {
    let store = Storage::new(Memory::new(), MaxHistory::NoLimit);
    for status in [Status::PendingInstall, Status::PendingUpgrade, Status::PendingRollback] {
        let mut rel = release("hello", 1, status);
        rel.info.last_deployed = Some(Timestamp { seconds: -3, nanos: 999_999_999 });
        rel.info.notes = "notes\nover lines".to_string();
        rel.config.push(("n".to_string(), "{\"a\":[1,2]}".to_string()));
        store.create(rel.clone()).unwrap();
        let got = store.get("hello", &1).unwrap();
        assert_eq!(got, rel);
        assert_eq!(got.info.status.to_string(), status.to_string());
        store.delete("hello", &1).unwrap();
    }
}
