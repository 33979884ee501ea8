use std::collections::HashMap;

use shrekd::api::{create_paste, create_url, get, RecordResponse};
use shrekd::url::accepts_url;
use shrekd::record::key;
use shrekd::settings::RecordSettings;
use shrekd::store::StoreCommand;
use shrekd::{Error, Record};

/// An in-memory backing store: bytes and expiry per key.
#[derive(Default)]
struct MemStore {
    entries: HashMap<String, (Vec<u8>, Option<u64>)>,
}

impl MemStore {
    fn run(&mut self, cmd: StoreCommand) {
        match cmd {
            StoreCommand::Put {
                key,
                value,
                expire_at,
            } => {
                self.entries.insert(key, (value, expire_at));
            }
            StoreCommand::Del { key } => {
                self.entries.remove(&key);
            }
        }
    }

    fn sweep(&mut self, now: u64) {
        self.entries
            .retain(|_, (_, e)| e.map(|t| t > now).unwrap_or(true));
    }

    fn value(&self, slug: &str) -> Option<Vec<u8>> {
        self.entries.get(&key(slug)).map(|(v, _)| v.clone())
    }

    fn fetch(&self, slug: &str) -> Option<Record> {
        Record::fetch(self.value(slug)).unwrap()
    }
}

fn stored(accesses: Option<u16>) -> (MemStore, Record) {
    let mut store = MemStore::default();
    let r = Record::paste("body".to_string(), "slug1".to_string(), accesses, None);
    store.run(r.persist());
    (store, r)
}

#[test]
fn keys_are_namespaced() {
    assert_eq!(key("abc"), "shrekd:abc");
    let r = Record::paste("x".to_string(), "abc".to_string(), None, Some(9));
    match r.persist() {
        StoreCommand::Put { key, expire_at, .. } => {
            assert_eq!(key, "shrekd:abc");
            assert_eq!(expire_at, Some(9));
        }
        other => panic!("unexpected {:?}", other),
    }
    assert_eq!(
        r.delete(),
        StoreCommand::Del {
            key: "shrekd:abc".to_string()
        }
    );
}

#[test]
fn last_access_deletes_the_record() {
    let (mut store, r) = stored(Some(1));
    let cmd = r.consume().expect("a command");
    store.run(cmd);
    assert!(store.value("slug1").is_none());
}

#[test]
fn an_access_is_taken_off_the_count() {
    let (mut store, r) = stored(Some(2));
    store.run(r.consume().expect("a command"));
    let again = store.fetch("slug1").expect("still there");
    assert_eq!(again.accesses(), Some(1));
    assert_eq!(again.slug(), "slug1");
}

#[test]
fn unlimited_records_are_left_alone() {
    let (store, r) = stored(None);
    assert!(r.clone().consume().is_none());
    assert!(store.fetch("slug1") == Some(r));
}

#[test]
fn zero_accesses_left_deletes_too() {
    let (mut store, r) = stored(Some(0));
    store.run(r.consume().expect("a command"));
    assert!(store.value("slug1").is_none());
}

#[test]
fn fetch_of_absent_and_corrupt_values() {
    assert!(matches!(Record::fetch(None), Ok(None)));
    assert!(matches!(
        Record::fetch(Some(vec![9, 9, 9])),
        Err(Error::SerDe(_))
    ));
}

#[test]
fn get_serves_and_consumes() {
    let (mut store, _) = stored(Some(2));
    let (resp, cmd) = get("slug1".to_string(), store.value("slug1")).unwrap();
    assert_eq!(resp, RecordResponse::Paste("body".to_string()));
    store.run(cmd.unwrap());
    let (_, cmd) = get("slug1".to_string(), store.value("slug1")).unwrap();
    store.run(cmd.unwrap());
    assert_eq!(
        get("slug1".to_string(), store.value("slug1")),
        Err(Error::NotFound("slug1".to_string()))
    );
}

#[test]
fn expired_paste_is_not_found() {
    let settings = RecordSettings::new(None, None, Some(0), None, None, None).unwrap();
    let now = 1_000;
    let r = create_paste(b"bye".to_vec(), "gone".to_string(), &settings, now).unwrap();
    assert_eq!(r.expiry(), Some(now));
    let mut store = MemStore::default();
    store.run(r.persist());
    store.sweep(now);
    assert_eq!(
        get("gone".to_string(), store.value("gone")),
        Err(Error::NotFound("gone".to_string()))
    );
}

#[test]
fn paste_must_be_utf8() {
    let settings = RecordSettings::new(Some(3), None, None, None, None, None).unwrap();
    assert!(matches!(
        create_paste(vec![0xc3, 0x28], "s".to_string(), &settings, 0),
        Err(Error::PasteCreation(_))
    ));
    let r = create_paste("ça".as_bytes().to_vec(), "s".to_string(), &settings, 0).unwrap();
    assert_eq!(
        r.data(),
        &shrekd::RecordData::Paste {
            body: "ça".to_string()
        }
    );
    assert_eq!(r.accesses(), Some(3));
    assert_eq!(r.expiry(), None);
}

#[test]
fn redirect_urls_are_checked() {
    let settings = RecordSettings::new(None, Some(77), None, None, None, None).unwrap();
    for ok in [
        "http://a",
        "https://example.com",
        "https://user:pw@example.com:8080/path?q#f",
        "http://a@b/",
        "https://h:1",
    ] {
        assert!(accepts_url(ok), "{}", ok);
    }
    for bad in [
        "",
        "ftp://example.com",
        "http:/example.com",
        "https://",
        "http:///path",
        "https://:8080/",
        "http://user@/x",
        "http://user@:80",
        "HTTP://example.com",
        "http://exämple.com",
        "example.com",
    ] {
        assert!(!accepts_url(bad), "{}", bad);
        assert!(matches!(
            create_url(bad.to_string(), "s".to_string(), &settings, 0),
            Err(Error::UrlCreation(_))
        ));
    }
    let r = create_url("https://x.y/z".to_string(), "s".to_string(), &settings, 5).unwrap();
    assert_eq!(r.expiry(), Some(77));
    assert_eq!(
        get("s".to_string(), Some(shrekd::codec::serialize(&r))).unwrap().0,
        RecordResponse::Url("https://x.y/z".to_string())
    );
}

#[test]
fn errors_map_to_statuses() {
    assert_eq!(Error::NotFound("x".to_string()).status(), 404);
    assert_eq!(Error::FileUpload(String::new()).status(), 422);
    assert_eq!(Error::PasteCreation(String::new()).status(), 422);
    assert_eq!(Error::UrlCreation(String::new()).status(), 422);
    assert_eq!(Error::Redis(String::new()).status(), 503);
    assert_eq!(Error::Intrinsics(String::new()).status(), 500);
    assert_eq!(Error::Config(String::new()).status(), 500);
    assert_eq!(
        Error::Retention(shrekd::retention::Error::BoundDefinition(2, 1)).status(),
        500
    );
    assert_eq!(Error::IO(String::new()).status(), 500);
    assert_eq!(Error::SerDe(String::new()).status(), 500);
}
