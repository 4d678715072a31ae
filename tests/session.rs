use aftp::file_manager::FileManager;
use aftp::response::get_header;
use aftp::session::{Action, Event, Session, SessionState};

fn b(s: &str) -> Vec<u8> {
    s.as_bytes().to_vec()
}

fn line(s: &str) -> Event {
    Event::Line(b(s))
}

#[test]
fn put_then_get_scenario() {
    let mut reg = FileManager::initialize();
    let mut s = Session::new(b("files"), 7);
    let a = s.step(&mut reg, line("PUT report.txt 11 abc123\n"));
    assert_eq!(a, Action::OpenForWrite(b("files/report.txt~7-0")));
    assert_eq!(s.state(), SessionState::ReceivingBody);
    assert_eq!(s.remaining(), 11);
    let a = s.step(&mut reg, Event::Chunk(11, 100));
    assert_eq!(a, Action::Reply(b("AFTP/1.0 200 OK\n")));
    assert_eq!(s.state(), SessionState::AwaitingCommand);
    let f = reg.find(&b("report.txt")).unwrap();
    assert_eq!(f.hash, b("abc123"));
    assert!(!f.locked);
    let a = s.step(&mut reg, line("GET report.txt\n"));
    assert_eq!(a, Action::SendFile(b("files/report.txt~7-0")));
    assert_eq!(get_header(11), b("AFTP/1.0 200 OK\nContent-Length: 11\nFile-Size: 11\n"));
}

#[test]
fn upload_in_chunks() {
    let mut reg = FileManager::initialize();
    let mut s = Session::new(b("r"), 7);
    s.step(&mut reg, line("PUT big 10000 h"));
    assert_eq!(s.step(&mut reg, Event::Chunk(4096, 1)), Action::Continue);
    assert_eq!(s.remaining(), 5904);
    assert_eq!(s.step(&mut reg, Event::Chunk(4096, 1)), Action::Continue);
    assert_eq!(s.step(&mut reg, Event::Chunk(1808, 2)), Action::Reply(b("AFTP/1.0 200 OK\n")));
    assert_eq!(reg.find(&b("big")).unwrap().created, 2);
}

#[test]
fn empty_upload() {
    let mut reg = FileManager::initialize();
    let mut s = Session::new(b("r"), 7);
    assert_eq!(s.step(&mut reg, line("PUT e 0 h")), Action::OpenForWrite(b("r/e~7-0")));
    assert_eq!(s.step(&mut reg, Event::Chunk(0, 1)), Action::Reply(b("AFTP/1.0 200 OK\n")));
    assert!(reg.find(&b("e")).is_some());
}

#[test]
fn overwrite_replaces_record() {
    let mut reg = FileManager::initialize();
    reg.create(b("f"), b("old"), b("h1"), 1).unwrap();
    let mut s = Session::new(b("r"), 7);
    s.step(&mut reg, line("PUT f 2 h2"));
    assert!(reg.find(&b("f")).unwrap().locked);
    assert_eq!(
        s.step(&mut reg, Event::Chunk(2, 5)),
        Action::Unlink(b("old"), b("AFTP/1.0 200 OK\n"))
    );
    let f = reg.find(&b("f")).unwrap();
    assert_eq!(f.hash, b("h2"));
    assert_eq!(f.path, b("r/f~7-0"));
    assert!(!f.locked);
    assert_eq!(reg.len(), 1);
}

#[test]
fn locked_file_refuses_delete_and_put() {
    let mut reg = FileManager::initialize();
    reg.create(b("f"), b("p"), b("h"), 0).unwrap();
    let mut owner = Session::new(b("r"), 1);
    let mut other = Session::new(b("r"), 2);
    assert_eq!(owner.step(&mut reg, line("LOCK f")), Action::Reply(b("AFTP/1.0 200 OK\n")));
    assert_eq!(other.step(&mut reg, line("DELETE f")), Action::Reply(b("AFTP/1.0 423 Locked\n")));
    assert_eq!(other.step(&mut reg, line("PUT f 3 h")), Action::Reply(b("AFTP/1.0 423 Locked\n")));
    assert_eq!(other.step(&mut reg, line("LOCK f")), Action::Reply(b("AFTP/1.0 423 Locked\n")));
    assert_eq!(other.state(), SessionState::AwaitingCommand);
    assert_eq!(owner.step(&mut reg, line("UNLOCK f")), Action::Reply(b("AFTP/1.0 200 OK\n")));
    assert_eq!(
        other.step(&mut reg, line("DELETE f")),
        Action::Unlink(b("p"), b("AFTP/1.0 200 OK\n"))
    );
    assert!(reg.find(&b("f")).is_none());
}

#[test]
fn missing_files_answer_not_found() {
    let mut reg = FileManager::initialize();
    let mut s = Session::new(b("r"), 7);
    let nf = Action::Reply(b("AFTP/1.0 404 Not Found\n"));
    assert_eq!(s.step(&mut reg, line("GET x")), nf);
    assert_eq!(s.step(&mut reg, line("DELETE x")), nf);
    assert_eq!(s.step(&mut reg, line("LOCK x")), nf);
    assert_eq!(s.step(&mut reg, line("UNLOCK x")), nf);
}

#[test]
fn abort_mid_upload_unlocks_all() {
    let mut reg = FileManager::initialize();
    reg.create(b("f"), b("p"), b("h"), 0).unwrap();
    reg.create(b("g"), b("q"), b("h"), 0).unwrap();
    reg.try_lock(&b("g")).unwrap();
    let mut s = Session::new(b("r"), 7);
    s.step(&mut reg, line("PUT f 100 h"));
    s.step(&mut reg, Event::Chunk(40, 1));
    assert_eq!(s.step(&mut reg, Event::Disconnect), Action::Close);
    assert_eq!(s.state(), SessionState::Closed);
    assert!(reg.list().iter().all(|f| !f.locked));
    assert_eq!(s.step(&mut reg, line("LIST")), Action::Close);
}

#[test]
fn io_error_unlocks_all() {
    let mut reg = FileManager::initialize();
    reg.create(b("f"), b("p"), b("h"), 0).unwrap();
    reg.try_lock(&b("f")).unwrap();
    let mut s = Session::new(b("r"), 7);
    assert_eq!(s.step(&mut reg, Event::IoError), Action::Close);
    assert!(!reg.find(&b("f")).unwrap().locked);
}

#[test]
fn store_failure_leaves_no_record() {
    let mut reg = FileManager::initialize();
    let mut s = Session::new(b("r"), 7);
    s.step(&mut reg, line("PUT n 5 h"));
    assert_eq!(
        s.step(&mut reg, Event::StoreFailed),
        Action::Fail(b("AFTP/1.0 500 Internal Error\n"))
    );
    assert!(reg.find(&b("n")).is_none());
    assert_eq!(s.state(), SessionState::Closed);
}

#[test]
fn malformed_line_closes() {
    let mut reg = FileManager::initialize();
    let mut s = Session::new(b("r"), 7);
    assert_eq!(s.step(&mut reg, line("PUT f abc h")), Action::Close);
    assert_eq!(s.state(), SessionState::Closed);
}

#[test]
fn oversized_chunk_is_a_protocol_error() {
    let mut reg = FileManager::initialize();
    let mut s = Session::new(b("r"), 7);
    s.step(&mut reg, line("PUT f 3 h"));
    assert_eq!(s.step(&mut reg, Event::Chunk(4, 0)), Action::Close);
    assert!(reg.find(&b("f")).is_none());
}

#[test]
fn list_through_session() {
    let mut reg = FileManager::initialize();
    reg.create(b("a"), b("pa"), b("HA"), 1).unwrap();
    let mut s = Session::new(b("r"), 7);
    assert_eq!(
        s.step(&mut reg, line("LIST")),
        Action::Reply(b("AFTP/1.0 200 OK\nContent-Length: 7\na 1 HA\n"))
    );
}

#[test]
fn uploads_get_distinct_paths() {
    let mut reg = FileManager::initialize();
    let mut s1 = Session::new(b("r"), 1);
    let mut s2 = Session::new(b("r"), 2);
    assert_eq!(s1.step(&mut reg, line("PUT n 1 h")), Action::OpenForWrite(b("r/n~1-0")));
    assert_eq!(s2.step(&mut reg, line("PUT n 1 h")), Action::OpenForWrite(b("r/n~2-0")));
    s1.step(&mut reg, Event::Chunk(1, 0));
    assert_eq!(s2.step(&mut reg, Event::Chunk(1, 0)), Action::Unlink(b("r/n~1-0"), b("AFTP/1.0 200 OK\n")));
    assert_eq!(reg.len(), 1);
    assert_eq!(s1.step(&mut reg, line("PUT n 2 h")), Action::OpenForWrite(b("r/n~1-1")));
    assert_eq!(s1.path(), b("r/n~1-1"));
}

#[test]
fn disconnect_between_commands_unlocks_all() {
    let mut reg = FileManager::initialize();
    reg.create(b("f"), b("p"), b("h"), 0).unwrap();
    let mut s = Session::new(b("r"), 3);
    s.step(&mut reg, line("LOCK f"));
    assert!(reg.find(&b("f")).unwrap().locked);
    assert_eq!(s.step(&mut reg, Event::Disconnect), Action::Close);
    assert!(!reg.find(&b("f")).unwrap().locked);
}
