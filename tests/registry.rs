use aftp::file_manager::{FileManager, RegistryError, TFile};

fn b(s: &str) -> Vec<u8> {
    s.as_bytes().to_vec()
}

fn names(files: &[TFile]) -> Vec<Vec<u8>> {
    files.iter().map(|f| f.filename.clone()).collect()
}

#[test]
fn create_then_find() {
    let mut reg = FileManager::initialize();
    assert_eq!(reg.create(b("a"), b("root/a"), b("H1"), 5), Ok(()));
    let f = reg.find(&b("a")).unwrap();
    assert_eq!(f.filename, b("a"));
    assert_eq!(f.path, b("root/a"));
    assert_eq!(f.hash, b("H1"));
    assert_eq!(f.created, 5);
    assert!(!f.locked);
    assert!(reg.find(&b("b")).is_none());
}

#[test]
fn create_refuses_duplicate_name() {
    let mut reg = FileManager::initialize();
    assert_eq!(reg.create(b("a"), b("first"), b("H1"), 1), Ok(()));
    assert_eq!(reg.create(b("a"), b("second"), b("H2"), 2), Err(RegistryError::AlreadyExists));
    assert_eq!(reg.len(), 1);
    assert_eq!(reg.find(&b("a")).unwrap().path, b("first"));
}

#[test]
fn listing_after_creates_and_remove() {
    let mut reg = FileManager::initialize();
    reg.create(b("a"), b("pa"), b("HA"), 1).unwrap();
    reg.create(b("b"), b("pb"), b("HB"), 2).unwrap();
    assert_eq!(names(&reg.list()), vec![b("a"), b("b")]);
    let gone = reg.remove(&b("a")).unwrap();
    assert_eq!(gone.path, b("pa"));
    assert_eq!(names(&reg.list()), vec![b("b")]);
    assert!(reg.find(&b("a")).is_none());
    assert_eq!(reg.remove(&b("a")).map(|f| f.filename), Err(RegistryError::NotFound));
}

#[test]
fn names_unique_after_mixed_operations() {
    let mut reg = FileManager::initialize();
    reg.create(b("x"), b("p"), b("h"), 0).unwrap();
    reg.remove(&b("x")).unwrap();
    reg.create(b("x"), b("second"), b("h2"), 0).unwrap();
    assert!(reg.create(b("x"), b("third"), b("h3"), 0).is_err());
    reg.store(b("x"), b("fourth"), b("h4"), 9);
    let all = reg.list();
    assert_eq!(all.len(), 1);
    assert_eq!(all[0].path, b("fourth"));
    assert_eq!(all[0].created, 9);
}

#[test]
fn try_lock_only_one_wins() {
    let mut reg = FileManager::initialize();
    reg.create(b("f"), b("p"), b("h"), 0).unwrap();
    let outcomes: Vec<Result<(), RegistryError>> = (0..8).map(|_| reg.try_lock(&b("f"))).collect();
    assert_eq!(outcomes.iter().filter(|r| r.is_ok()).count(), 1);
    assert_eq!(outcomes[0], Ok(()));
    for r in &outcomes[1..] {
        assert_eq!(*r, Err(RegistryError::AlreadyLocked));
    }
    assert_eq!(reg.try_lock(&b("missing")), Err(RegistryError::NotFound));
}

#[test]
fn unlock_is_idempotent() {
    let mut reg = FileManager::initialize();
    reg.create(b("f"), b("p"), b("h"), 0).unwrap();
    reg.try_lock(&b("f")).unwrap();
    assert_eq!(reg.unlock(&b("f")), Ok(()));
    assert_eq!(reg.unlock(&b("f")), Ok(()));
    assert!(!reg.find(&b("f")).unwrap().locked);
    assert_eq!(reg.unlock(&b("g")), Err(RegistryError::NotFound));
}

#[test]
fn lock_file_takes_lock_once() {
    let mut reg = FileManager::initialize();
    reg.create(b("f"), b("p"), b("h"), 0).unwrap();
    assert_eq!(reg.lock_file(&b("f"), true), Ok(()));
    assert!(reg.find(&b("f")).unwrap().locked);
    assert_eq!(reg.lock_file(&b("f"), true), Err(RegistryError::AlreadyLocked));
    assert!(reg.find(&b("f")).unwrap().locked);
    assert_eq!(reg.lock_file(&b("f"), false), Ok(()));
    assert!(!reg.find(&b("f")).unwrap().locked);
    assert_eq!(reg.lock_file(&b("none"), true), Err(RegistryError::NotFound));
    assert_eq!(reg.lock_file(&b("none"), false), Err(RegistryError::NotFound));
}

#[test]
fn unlock_all_releases_every_lock() {
    let mut reg = FileManager::initialize();
    for n in ["a", "b", "c"] {
        reg.create(b(n), b(n), b("h"), 0).unwrap();
    }
    reg.try_lock(&b("a")).unwrap();
    reg.try_lock(&b("c")).unwrap();
    reg.unlock_all_files();
    assert!(reg.list().iter().all(|f| !f.locked));
    assert_eq!(reg.len(), 3);
}

#[test]
fn ingest_hashes_contents() {
    let mut reg = FileManager::initialize();
    reg.ingest(b("hello.txt"), b("root/hello.txt"), &b("hello world"), 3).unwrap();
    let f = reg.find(&b("hello.txt")).unwrap();
    assert_eq!(f.hash, b("5EB63BBBE01EEED093CB22BB8F5ACDC3"));
    reg.ingest(b("empty"), b("root/empty"), &Vec::new(), 3).unwrap();
    assert_eq!(reg.find(&b("empty")).unwrap().hash, b("D41D8CD98F00B204E9800998ECF8427E"));
    assert_eq!(
        reg.ingest(b("empty"), b("x"), &b("z"), 4),
        Err(RegistryError::AlreadyExists)
    );
}
