use std::hash::Hash;

use pond_cache::cache::DEFAULT_TTL_SECS;
use pond_cache::Cache;
use pond_cache::Error;
use pond_cache::ErrorKind;
use pond_cache::Fault;
use pond_cache::Fetched;
use pond_cache::Identifier;
use pond_cache::Stage;
use pond_cache::Statement;
use pond_cache::TimeToLive;
use pond_cache::Timestamp;
use rusqlite::Connection;
use rusqlite::OptionalExtension;
use serde::de::DeserializeOwned;
use serde::de::MapAccess;
use serde::de::SeqAccess;
use serde::de::Visitor;
use serde::ser::SerializeStruct;
use serde::Deserialize;
use serde::Deserializer;
use serde::Serialize;
use serde::Serializer;
use uuid::Uuid;

#[derive(Clone, Debug, PartialEq)]
struct User {
    id: Uuid,
    name: String,
}

impl Serialize for User {
    fn serialize<S: Serializer>(&self, serializer: S) -> Result<S::Ok, S::Error> {
        let mut state = serializer.serialize_struct("User", 2)?;
        state.serialize_field("id", &self.id)?;
        state.serialize_field("name", &self.name)?;
        state.end()
    }
}

struct UserVisitor;

impl<'de> Visitor<'de> for UserVisitor {
    type Value = User;

    fn expecting(&self, formatter: &mut std::fmt::Formatter) -> std::fmt::Result {
        formatter.write_str("struct User")
    }

    fn visit_seq<A: SeqAccess<'de>>(self, mut seq: A) -> Result<User, A::Error> {
        let id = seq
            .next_element()?
            .ok_or_else(|| serde::de::Error::invalid_length(0, &self))?;
        let name = seq
            .next_element()?
            .ok_or_else(|| serde::de::Error::invalid_length(1, &self))?;
        Ok(User { id, name })
    }

    fn visit_map<A: MapAccess<'de>>(self, mut map: A) -> Result<User, A::Error> {
        let mut id = None;
        let mut name = None;
        while let Some(field) = map.next_key::<String>()? {
            if field == "id" {
                id = Some(map.next_value()?);
            } else if field == "name" {
                name = Some(map.next_value()?);
            } else {
                return Err(serde::de::Error::unknown_field(&field, &["id", "name"]));
            }
        }
        let id = id.ok_or_else(|| serde::de::Error::missing_field("id"))?;
        let name = name.ok_or_else(|| serde::de::Error::missing_field("name"))?;
        Ok(User { id, name })
    }
}

impl<'de> Deserialize<'de> for User {
    fn deserialize<D: Deserializer<'de>>(deserializer: D) -> Result<User, D::Error> {
        deserializer.deserialize_struct("User", &["id", "name"], UserVisitor)
    }
}

/// A cache with its driver: every operation opens the file, runs the one
/// statement that the engine planned, and closes the file again.
struct Pond<T> {
    core: Cache<T>,
}

fn temp_path() -> String {
    format!(
        "/tmp/pond-test-{}-{}.sqlite",
        Uuid::new_v4(),
        rand::random::<u8>()
    )
}

fn run(path: &str, statement: &Statement) -> Result<Option<(String, Vec<u8>)>, Fault> {
    let db = Connection::open(path).map_err(|e| Fault {
        stage: Stage::Open,
        detail: e.to_string(),
    })?;
    let reply = match statement {
        Statement::CreateTable => db.execute(statement.sql(), ()).map(|_| None),
        Statement::Upsert { id, expires, data } => db
            .execute(statement.sql(), (id, expires, data))
            .map(|_| None),
        Statement::Select { id } => db
            .query_row(statement.sql(), [id], |row| Ok((row.get(1)?, row.get(2)?)))
            .optional(),
        Statement::DeleteExpired { before } => {
            db.execute(statement.sql(), (before,)).map(|_| None)
        }
    };
    let reply = reply.map_err(|e| Fault {
        stage: Stage::Execute,
        detail: e.to_string(),
    });
    match db.close() {
        Ok(()) => reply,
        Err((_, e)) => Err(Fault {
            stage: Stage::Execute,
            detail: e.to_string(),
        }),
    }
}

fn encode<T: Serialize>(value: &T) -> Result<Vec<u8>, String> {
    bitcode::serialize(value).map_err(|e| e.to_string())
}

fn decode<T: DeserializeOwned>(row: Option<(String, Vec<u8>)>) -> Option<Fetched<T>> {
    row.map(|(expires, data)| Fetched {
        expires,
        value: bitcode::deserialize(&data).map_err(|e| e.to_string()),
    })
}

impl<T: Serialize + DeserializeOwned + Clone> Pond<T> {
    fn new(path: String) -> Result<Self, Error> {
        let setup = run(&path, &Cache::<T>::schema()).map(|_| ());
        Ok(Pond {
            core: Cache::new(path, setup)?,
        })
    }

    fn with_time_to_live(path: String, ttl: TimeToLive) -> Result<Self, Error> {
        let setup = run(&path, &Cache::<T>::schema()).map(|_| ());
        Ok(Pond {
            core: Cache::with_time_to_live(path, ttl, setup)?,
        })
    }

    fn get<K: Hash>(&self, key: K) -> Result<Option<T>, Error> {
        let statement = self.core.get(&Identifier::hashed(&key));
        let reply = run(self.core.path(), &statement).map(decode);
        self.core.fetched(reply)
    }

    fn get_at<K: Hash>(&self, key: K, now: Timestamp) -> Result<Option<T>, Error> {
        let statement = self.core.get(&Identifier::hashed(&key));
        let reply = run(self.core.path(), &statement).map(decode);
        self.core.fetched_at(reply, now)
    }

    fn store<K: Hash>(&self, key: K, value: T) -> Result<(), Error> {
        let statement = self.core.store(&Identifier::hashed(&key), encode(&value))?;
        statement.settle(run(self.core.path(), &statement).map(|_| ()))
    }

    fn store_with_expiration<K: Hash>(
        &self,
        key: K,
        value: T,
        expiration: Timestamp,
    ) -> Result<(), Error> {
        let statement =
            self.core
                .store_with_expiration(&Identifier::hashed(&key), encode(&value), expiration)?;
        statement.settle(run(self.core.path(), &statement).map(|_| ()))
    }

    fn clean(&self) -> Result<(), Error> {
        let statement = self.core.clean()?;
        statement.settle(run(self.core.path(), &statement).map(|_| ()))
    }
}

fn minutes(count: i64) -> TimeToLive {
    TimeToLive::minutes(count).unwrap()
}

fn hash_of(key: &String) -> u32 {
    match Identifier::hashed(key) {
        Identifier::Hashed(hash) => hash,
        Identifier::Uuid(_) => unreachable!(),
    }
}

/// Writes a row past the cache, binding the identifier as a number.
fn store_manual(path: String, key: String, value: Vec<u8>, expires: Timestamp) -> Result<(), Error> {
    let hash = hash_of(&key);
    let db = Connection::open(&path).unwrap();
    db.execute(
        "INSERT OR REPLACE INTO items (id, expires, data) VALUES (?1, ?2, ?3);",
        (hash, &expires.to_rfc3339().unwrap(), &value),
    )
    .unwrap();
    db.close().unwrap();
    Ok(())
}

/// Reads a row past the cache, whether or not it has expired.
fn get_manual<T: DeserializeOwned>(
    path: String,
    key: String,
) -> Result<Option<(u32, T, Timestamp)>, Error> {
    let hash = hash_of(&key);
    let db = Connection::open(&path).unwrap();
    let row: Option<(String, Vec<u8>)> = db
        .query_row(
            "SELECT id, expires, data FROM items WHERE id = ?1",
            [hash],
            |row| Ok((row.get(1)?, row.get(2)?)),
        )
        .optional()
        .unwrap();
    db.close().unwrap();
    let Some((expires, data)) = row else {
        return Ok(None);
    };
    let expires = Timestamp::parse_from_rfc3339(&expires).unwrap();
    let data: T = bitcode::deserialize(&data).unwrap();
    Ok(Some((hash, data, expires)))
}

#[test]
fn test_new() {
    let filename = temp_path();
    let cache: Pond<String> = Pond::new(filename.clone()).unwrap();
    assert_eq!(*cache.core.path(), filename);
    assert_eq!(cache.core.time_to_live(), minutes(10));
}

#[test]
fn test_load_existing() {
    let filename = temp_path();
    let _: Pond<String> = Pond::new(filename.clone()).unwrap();
    let _: Pond<String> = Pond::new(filename).unwrap();
}

#[test]
fn test_time_to_live() {
    let filename = temp_path();
    let cache: Pond<String> = Pond::with_time_to_live(filename.clone(), minutes(5)).unwrap();
    assert_eq!(*cache.core.path(), filename);
    assert_eq!(cache.core.time_to_live(), minutes(5));
}

#[test]
fn test_store_get() {
    let filename = temp_path();

    let cache = Pond::new(filename).unwrap();

    let key = Uuid::new_v4();
    let value = String::from("Hello, world!");

    cache.store(key, value.clone()).unwrap();
    let result: Option<_> = cache.get(key).unwrap();

    assert_eq!(result, Some(value));
}

#[test]
fn test_store_get_struct() {
    let filename = temp_path();

    let cache = Pond::new(filename).unwrap();

    let key = Uuid::new_v4();
    let value = User {
        id: Uuid::new_v4(),
        name: String::from("Alice"),
    };

    cache.store(key, value.clone()).unwrap();
    let result: Option<_> = cache.get(key).unwrap();

    assert_eq!(result, Some(value));
}

#[test]
fn test_store_existing() {
    let filename = temp_path();

    let cache = Pond::new(filename).unwrap();

    let key = Uuid::new_v4();
    let value = String::from("Hello, world!");

    cache.store(key, value).unwrap();

    let value = String::from("Hello, world! 2");
    cache.store(key, value.clone()).unwrap();
    let result: Option<_> = cache.get(key).unwrap();

    assert_eq!(result, Some(value));
}

#[test]
fn test_get_expired() {
    let filename = temp_path();

    let cache = Pond::new(filename.clone()).unwrap();

    let key = Uuid::new_v4();
    let value = String::from("Hello, world!");

    store_manual(
        filename,
        key.to_string(),
        bitcode::serialize(&value).unwrap(),
        Timestamp::now().checked_add(&minutes(-5)).unwrap(),
    )
    .unwrap();
    let result: Option<String> = cache.get(key).unwrap();

    assert_eq!(result, None);
}

#[test]
fn test_get_nonexistent() {
    let filename = temp_path();

    let cache = Pond::new(filename).unwrap();

    let key = Uuid::new_v4();

    let result: Option<String> = cache.get(key).unwrap();

    assert_eq!(result, None);
}

#[test]
fn test_invalid_path() {
    let cache: Result<Pond<String>, Error> = Pond::new(String::from("invalid/path/db.sqlite"));

    assert!(cache.is_err());
}

#[test]
fn test_clean() {
    let filename = temp_path();

    let cache: Pond<String> = Pond::with_time_to_live(filename.clone(), minutes(5)).unwrap();

    let key = Uuid::new_v4().to_string();
    let value = String::from("Hello, world!");

    store_manual(
        filename.clone(),
        key.clone(),
        bitcode::serialize(&value).unwrap(),
        Timestamp::now().checked_add(&minutes(-5)).unwrap(),
    )
    .unwrap();

    let result: Option<(u32, String, Timestamp)> =
        get_manual(filename.clone(), key.clone()).unwrap();
    if let Some(result) = result {
        assert_eq!(result.1, value);
    } else {
        panic!("Expected result to be Some");
    }

    cache.clean().unwrap();
    let result: Option<(u32, String, Timestamp)> = get_manual(filename, key).unwrap();
    assert!(result.is_none());
}

#[test]
fn test_clean_leaves_unexpired() {
    let filename = temp_path();

    let cache: Pond<String> = Pond::with_time_to_live(filename.clone(), minutes(5)).unwrap();

    let key = Uuid::new_v4().to_string();
    let value = String::from("Hello, world!");

    store_manual(
        filename.clone(),
        key.clone(),
        bitcode::serialize(&value).unwrap(),
        Timestamp::now().checked_add(&minutes(15)).unwrap(),
    )
    .unwrap();

    let result: Option<(u32, String, Timestamp)> =
        get_manual(filename.clone(), key.clone()).unwrap();
    if let Some(result) = result {
        assert_eq!(result.1, value);
    } else {
        panic!("Expected result to be Some");
    }

    cache.clean().unwrap();

    let result: Option<(u32, String, Timestamp)> = get_manual(filename, key).unwrap();
    if let Some(result) = result {
        assert_eq!(result.1, value);
    } else {
        panic!("Expected result to be Some");
    }
}

#[test]
fn test_invalid_path_is_storage_unavailable() {
    let fault = run("invalid/path/db.sqlite", &Cache::<String>::schema()).unwrap_err();
    assert_eq!(fault.stage, Stage::Open);
    let said = String::from(fault.detail.as_str());
    assert!(!said.is_empty());
    let error =
        Cache::<String>::new(String::from("invalid/path/db.sqlite"), Err(fault)).unwrap_err();
    assert_eq!(error.kind, ErrorKind::StorageUnavailable);
    assert_eq!(error.detail, said);
    assert!(Connection::open("invalid/path/db.sqlite").is_err());
}

#[test]
fn test_default_time_to_live_is_ten_minutes() {
    assert_eq!(DEFAULT_TTL_SECS, 600);
    let cache: Cache<String> = Cache::new(String::from("somewhere"), Ok(())).unwrap();
    assert_eq!(cache.time_to_live(), TimeToLive::new(600, 0));
    assert_eq!(cache.path(), "somewhere");
}

#[test]
fn test_scenario_two_keys() {
    let filename = temp_path();
    let cache: Pond<String> = Pond::with_time_to_live(filename.clone(), minutes(5)).unwrap();
    let value = String::from("Hello, world!");
    let t0 = Timestamp::now();

    let k1 = String::from("K1");
    let k2 = String::from("K2");
    cache.store(k1.clone(), value.clone()).unwrap();
    let at_four_minutes = t0.checked_add(&minutes(4)).unwrap();
    assert_eq!(
        cache.get_at(k1.clone(), at_four_minutes).unwrap(),
        Some(value.clone())
    );

    cache
        .store_with_expiration(
            k2.clone(),
            value.clone(),
            t0.checked_add(&minutes(-5)).unwrap(),
        )
        .unwrap();
    assert_eq!(cache.get(k2.clone()).unwrap(), None);
    assert_eq!(cache.get_at(k2.clone(), t0).unwrap(), None);
    assert_eq!(cache.get_at(k2.clone(), at_four_minutes).unwrap(), None);
    assert!(get_manual::<String>(filename.clone(), k2.clone())
        .unwrap()
        .is_some());

    cache.clean().unwrap();
    assert!(get_manual::<String>(filename.clone(), k2)
        .unwrap()
        .is_none());
    let row = get_manual::<String>(filename, k1.clone()).unwrap().unwrap();
    assert_eq!(row.1, value);
    assert_eq!(cache.get(k1).unwrap(), Some(value));
}

#[test]
fn test_entry_expires_after_time_to_live() {
    let filename = temp_path();
    let cache: Pond<String> = Pond::with_time_to_live(filename, minutes(5)).unwrap();
    let key = String::from("key");
    let now = Timestamp::new(1_700_000_000, 250_000_000);
    let statement = cache
        .core
        .store_at(
            &Identifier::hashed(&key),
            encode(&String::from("value")),
            now,
        )
        .unwrap();
    match &statement {
        Statement::Upsert { expires, .. } => {
            assert_eq!(expires, "2023-11-14T22:18:20.250+00:00")
        }
        _ => panic!("a store plans an upsert"),
    }
    statement
        .settle(run(cache.core.path(), &statement).map(|_| ()))
        .unwrap();
    let at_expiry = Timestamp::new(1_700_000_300, 250_000_000);
    let just_after = Timestamp::new(1_700_000_300, 250_000_001);
    assert_eq!(
        cache.get_at(key.clone(), at_expiry).unwrap(),
        Some(String::from("value"))
    );
    assert_eq!(cache.get_at(key, just_after).unwrap(), None);
}

#[test]
fn test_reopen_keeps_entries() {
    let filename = temp_path();
    let first: Pond<String> = Pond::new(filename.clone()).unwrap();
    first
        .store(String::from("kept"), String::from("value"))
        .unwrap();
    let second: Pond<String> = Pond::new(filename).unwrap();
    assert_eq!(
        second.get(String::from("kept")).unwrap(),
        Some(String::from("value"))
    );
}

#[test]
fn test_overwrite_leaves_one_row() {
    let filename = temp_path();
    let cache: Pond<String> = Pond::new(filename.clone()).unwrap();
    let key = String::from("key");
    cache.store(key.clone(), String::from("one")).unwrap();
    cache.store(key.clone(), String::from("two")).unwrap();
    assert_eq!(cache.get(key).unwrap(), Some(String::from("two")));
    let db = Connection::open(&filename).unwrap();
    let rows: i64 = db
        .query_row("SELECT COUNT(*) FROM items", (), |row| row.get(0))
        .unwrap();
    assert_eq!(rows, 1);
}

#[test]
fn test_overwrite_replaces_expired_row() {
    let filename = temp_path();
    let cache: Pond<String> = Pond::new(filename).unwrap();
    let key = String::from("key");
    let past = Timestamp::now().checked_add(&minutes(-1)).unwrap();
    cache
        .store_with_expiration(key.clone(), String::from("old"), past)
        .unwrap();
    assert_eq!(cache.get(key.clone()).unwrap(), None);
    cache.store(key.clone(), String::from("new")).unwrap();
    assert_eq!(cache.get(key).unwrap(), Some(String::from("new")));
}

#[test]
fn test_get_does_not_delete_expired_row() {
    let filename = temp_path();
    let cache: Pond<String> = Pond::new(filename.clone()).unwrap();
    let key = String::from("key");
    let past = Timestamp::now().checked_add(&minutes(-1)).unwrap();
    cache
        .store_with_expiration(key.clone(), String::from("old"), past)
        .unwrap();
    assert_eq!(cache.get(key.clone()).unwrap(), None);
    let row = get_manual::<String>(filename, key).unwrap().unwrap();
    assert_eq!(row.1, "old");
    assert_eq!(row.2, past);
}

#[test]
fn test_clean_is_idempotent() {
    let filename = temp_path();
    let cache: Pond<String> = Pond::new(filename).unwrap();
    let past = Timestamp::now().checked_add(&minutes(-1)).unwrap();
    cache
        .store_with_expiration(String::from("gone"), String::from("old"), past)
        .unwrap();
    cache
        .store(String::from("kept"), String::from("new"))
        .unwrap();
    cache.clean().unwrap();
    cache.clean().unwrap();
    cache.clean().unwrap();
    assert_eq!(cache.get(String::from("gone")).unwrap(), None);
    assert_eq!(
        cache.get(String::from("kept")).unwrap(),
        Some(String::from("new"))
    );
}

#[test]
fn test_clean_keeps_row_that_expires_now() {
    let filename = temp_path();
    let cache: Pond<String> = Pond::new(filename.clone()).unwrap();
    let now = Timestamp::new(1_700_000_000, 0);
    let earlier = Timestamp::new(1_699_999_999, 999_999_999);
    cache
        .store_with_expiration(String::from("now"), String::from("a"), now)
        .unwrap();
    cache
        .store_with_expiration(String::from("earlier"), String::from("b"), earlier)
        .unwrap();
    let sweep = cache.core.clean_at(now).unwrap();
    assert_eq!(
        sweep,
        Statement::DeleteExpired {
            before: String::from("2023-11-14T22:13:20+00:00")
        }
    );
    sweep
        .settle(run(cache.core.path(), &sweep).map(|_| ()))
        .unwrap();
    assert!(get_manual::<String>(filename.clone(), String::from("now"))
        .unwrap()
        .is_some());
    assert!(get_manual::<String>(filename, String::from("earlier"))
        .unwrap()
        .is_none());
}

#[test]
fn test_corrupt_payload_is_decode_error() {
    let filename = temp_path();
    let cache: Pond<User> = Pond::new(filename.clone()).unwrap();
    let key = String::from("key");
    store_manual(
        filename.clone(),
        key.clone(),
        vec![1, 2, 3],
        Timestamp::now().checked_add(&minutes(5)).unwrap(),
    )
    .unwrap();
    let error = cache.get(key.clone()).unwrap_err();
    assert_eq!(error.kind, ErrorKind::Decode);

    store_manual(
        filename,
        key.clone(),
        vec![1, 2, 3],
        Timestamp::now().checked_add(&minutes(-5)).unwrap(),
    )
    .unwrap();
    let error = cache.get(key).unwrap_err();
    assert_eq!(error.kind, ErrorKind::Decode);
}

#[test]
fn test_malformed_expiry_is_query_error() {
    let filename = temp_path();
    let cache: Pond<String> = Pond::new(filename.clone()).unwrap();
    let key = String::from("key");
    let db = Connection::open(&filename).unwrap();
    db.execute(
        "INSERT OR REPLACE INTO items (id, expires, data) VALUES (?1, ?2, ?3);",
        (
            hash_of(&key),
            "next tuesday",
            bitcode::serialize(&String::from("v")).unwrap(),
        ),
    )
    .unwrap();
    db.close().unwrap();
    let error = cache.get(key).unwrap_err();
    assert_eq!(error.kind, ErrorKind::Query);
    assert_eq!(error.detail, "next tuesday");
}

#[test]
fn test_missing_table_is_query_error() {
    let filename = temp_path();
    let cache: Pond<String> = Pond::new(filename.clone()).unwrap();
    let db = Connection::open(&filename).unwrap();
    db.execute("DROP TABLE items", ()).unwrap();
    db.close().unwrap();
    let error = cache
        .store(String::from("key"), String::from("value"))
        .unwrap_err();
    assert_eq!(error.kind, ErrorKind::Query);
    let error = cache.get(String::from("key")).unwrap_err();
    assert_eq!(error.kind, ErrorKind::Query);
    let error = cache.clean().unwrap_err();
    assert_eq!(error.kind, ErrorKind::Query);
    let again: Pond<String> = Pond::new(filename).unwrap();
    assert_eq!(again.get(String::from("key")).unwrap(), None);
}

#[test]
fn test_schema_failure_is_schema_error() {
    let fault = run("/proc/version", &Cache::<String>::schema()).unwrap_err();
    assert_eq!(fault.stage, Stage::Execute);
    let error = Pond::<String>::new(String::from("/proc/version"))
        .err()
        .unwrap();
    assert_eq!(error.kind, ErrorKind::Schema);
    assert_eq!(error.detail, fault.detail);
    assert_eq!(
        error.message(),
        format!("schema error: {}", fault.detail)
    );

    let fault = Fault {
        stage: Stage::Execute,
        detail: String::from("disk full"),
    };
    let error = Cache::<String>::new(String::from("somewhere"), Err(fault)).unwrap_err();
    assert_eq!(error.kind, ErrorKind::Schema);
    assert_eq!(error.detail, "disk full");
    assert_eq!(error.message(), "schema error: disk full");
}

#[test]
fn test_encode_failure_is_encode_error() {
    let cache: Cache<String> = Cache::new(String::from("somewhere"), Ok(())).unwrap();
    let key = Identifier::uuid(7);
    let refused = || -> Result<Vec<u8>, String> { Err(String::from("not encodable")) };
    let error = cache.store(&key, refused()).unwrap_err();
    assert_eq!(error.kind, ErrorKind::Encode);
    assert_eq!(error.detail, "not encodable");
    let error = cache
        .store_with_expiration(&key, refused(), Timestamp::new(0, 0))
        .unwrap_err();
    assert_eq!(error.kind, ErrorKind::Encode);
    assert_eq!(error.detail, "not encodable");
    let error = cache
        .store_at(&key, refused(), Timestamp::new(i64::MAX, 0))
        .unwrap_err();
    assert_eq!(error.kind, ErrorKind::Encode);
    assert_eq!(error.message(), "encode error: not encodable");
}

#[test]
fn test_expiry_without_text_is_timestamp_error() {
    let cache: Cache<String> =
        Cache::with_time_to_live(String::from("somewhere"), minutes(5), Ok(())).unwrap();
    let key = Identifier::uuid(7);
    let year_ten_thousand = Timestamp::new(253_402_300_800, 0);
    let error = cache
        .store_with_expiration(&key, Ok(vec![1]), year_ten_thousand)
        .unwrap_err();
    assert_eq!(error.kind, ErrorKind::Timestamp);
    assert_eq!(error.detail, "the instant has no RFC 3339 text");
    let error = cache
        .store_at(&key, Ok(vec![1]), Timestamp::new(i64::MAX, 0))
        .unwrap_err();
    assert_eq!(error.kind, ErrorKind::Timestamp);
    let error = cache
        .store_at(&key, Ok(vec![1]), Timestamp::new(253_402_300_799, 0))
        .unwrap_err();
    assert_eq!(error.kind, ErrorKind::Timestamp);
    let error = cache.clean_at(year_ten_thousand).unwrap_err();
    assert_eq!(error.kind, ErrorKind::Timestamp);
}

#[test]
fn test_plans() {
    let cache: Cache<String> =
        Cache::with_time_to_live(String::from("somewhere"), minutes(5), Ok(())).unwrap();
    assert_eq!(Cache::<String>::schema(), Statement::CreateTable);
    assert_eq!(
        cache.get(&Identifier::Hashed(42)),
        Statement::Select {
            id: String::from("42")
        }
    );
    assert_eq!(
        cache
            .store_with_expiration(
                &Identifier::Hashed(42),
                Ok(vec![9, 8]),
                Timestamp::new(1_431_648_000, 0)
            )
            .unwrap(),
        Statement::Upsert {
            id: String::from("42"),
            expires: String::from("2015-05-15T00:00:00+00:00"),
            data: vec![9, 8],
        }
    );
    assert_eq!(
        cache
            .store_at(
                &Identifier::uuid(0x0123_4567_89ab_cdef_0123_4567_89ab_cdef),
                Ok(vec![]),
                Timestamp::new(1_431_648_000, 999_999_999)
            )
            .unwrap(),
        Statement::Upsert {
            id: String::from("01234567-89ab-cdef-0123-456789abcdef"),
            expires: String::from("2015-05-15T00:05:00.999999999+00:00"),
            data: vec![],
        }
    );
    assert_eq!(
        cache.clean_at(Timestamp::new(1_431_648_000, 5_000)).unwrap(),
        Statement::DeleteExpired {
            before: String::from("2015-05-15T00:00:00.000005+00:00")
        }
    );
}

#[test]
fn test_sql() {
    assert_eq!(
        Statement::CreateTable.sql(),
        "CREATE TABLE IF NOT EXISTS items (id TEXT PRIMARY KEY, expires TEXT NOT NULL, data BLOB NOT NULL)"
    );
    assert_eq!(
        Statement::Upsert {
            id: String::new(),
            expires: String::new(),
            data: vec![]
        }
        .sql(),
        "INSERT OR REPLACE INTO items (id, expires, data) VALUES (?1, ?2, ?3)"
    );
    assert_eq!(
        Statement::Select { id: String::new() }.sql(),
        "SELECT id, expires, data FROM items WHERE id = ?1"
    );
    assert_eq!(
        Statement::DeleteExpired {
            before: String::new()
        }
        .sql(),
        "DELETE FROM items WHERE expires < ?1"
    );
    assert!(Statement::CreateTable.is_setup());
    assert!(!Statement::Select { id: String::new() }.is_setup());
}

#[test]
fn test_fetched_at() {
    let cache: Cache<u8> = Cache::new(String::from("somewhere"), Ok(())).unwrap();
    let now = Timestamp::new(1_431_648_000, 0);
    let row = |expires: &str, value: Result<u8, String>| Fetched {
        expires: String::from(expires),
        value,
    };
    assert_eq!(cache.fetched_at(Ok(None), now), Ok(None));
    assert_eq!(
        cache.fetched_at(Ok(Some(row("2015-05-15T00:00:00+00:00", Ok(3)))), now),
        Ok(Some(3))
    );
    assert_eq!(
        cache.fetched_at(Ok(Some(row("2015-05-15T00:00:00Z", Ok(3)))), now),
        Ok(Some(3))
    );
    assert_eq!(
        cache.fetched_at(Ok(Some(row("2015-05-15T01:59:59+02:00", Ok(3)))), now),
        Ok(None)
    );
    assert_eq!(
        cache.fetched_at(Ok(Some(row("2015-05-14T23:59:59.999999999+00:00", Ok(3)))), now),
        Ok(None)
    );
    assert_eq!(
        cache.fetched_at(
            Ok(Some(row(
                "2015-05-14T23:59:59+00:00",
                Err(String::from("bad bytes"))
            ))),
            now
        ),
        Err(Error {
            kind: ErrorKind::Decode,
            detail: String::from("bad bytes")
        })
    );
    assert_eq!(
        cache.fetched_at(Ok(Some(row("yesterday", Err(String::from("bad bytes"))))), now),
        Err(Error {
            kind: ErrorKind::Query,
            detail: String::from("yesterday")
        })
    );
    assert_eq!(
        cache.fetched_at(
            Err(Fault {
                stage: Stage::Open,
                detail: String::from("no such file")
            }),
            now
        ),
        Err(Error {
            kind: ErrorKind::StorageUnavailable,
            detail: String::from("no such file")
        })
    );
    assert_eq!(
        cache.fetched_at(
            Err(Fault {
                stage: Stage::Execute,
                detail: String::from("no such table")
            }),
            now
        ),
        Err(Error {
            kind: ErrorKind::Query,
            detail: String::from("no such table")
        })
    );
}

#[test]
fn test_settle() {
    let put = Statement::Select { id: String::new() };
    assert_eq!(put.settle(Ok(())), Ok(()));
    assert_eq!(
        put.settle(Err(Fault {
            stage: Stage::Execute,
            detail: String::from("locked")
        })),
        Err(Error {
            kind: ErrorKind::Query,
            detail: String::from("locked")
        })
    );
    assert_eq!(
        Statement::CreateTable.settle(Err(Fault {
            stage: Stage::Execute,
            detail: String::from("locked")
        })),
        Err(Error {
            kind: ErrorKind::Schema,
            detail: String::from("locked")
        })
    );
    assert_eq!(
        Statement::CreateTable.settle(Err(Fault {
            stage: Stage::Open,
            detail: String::from("denied")
        })),
        Err(Error {
            kind: ErrorKind::StorageUnavailable,
            detail: String::from("denied")
        })
    );
}

#[test]
fn test_uuid_keys_do_not_collide() {
    let filename = temp_path();
    let core: Cache<String> = {
        let setup = run(&filename, &Cache::<String>::schema()).map(|_| ());
        Cache::new(filename, setup).unwrap()
    };
    let first = Uuid::new_v4();
    let second = Uuid::new_v4();
    for (key, value) in [(first, "first"), (second, "second")] {
        let statement = core
            .store(&Identifier::uuid(key.as_u128()), encode(&String::from(value)))
            .unwrap();
        match &statement {
            Statement::Upsert { id, .. } => assert_eq!(*id, key.to_string()),
            _ => panic!("a store plans an upsert"),
        }
        statement
            .settle(run(core.path(), &statement).map(|_| ()))
            .unwrap();
    }
    for (key, value) in [(first, "first"), (second, "second")] {
        let statement = core.get(&Identifier::uuid(key.as_u128()));
        let reply = run(core.path(), &statement).map(decode);
        assert_eq!(core.fetched(reply).unwrap(), Some(String::from(value)));
    }
}

#[test]
fn test_clean_goes_by_the_text_of_the_expiry() {
    let filename = temp_path();
    let cache: Pond<String> = Pond::new(filename.clone()).unwrap();
    let key = String::from("key");
    let db = Connection::open(&filename).unwrap();
    db.execute(
        "INSERT OR REPLACE INTO items (id, expires, data) VALUES (?1, ?2, ?3);",
        (
            hash_of(&key),
            "2023-11-14T22:13:20Z",
            bitcode::serialize(&String::from("v")).unwrap(),
        ),
    )
    .unwrap();
    db.close().unwrap();

    let half_a_second_later = Timestamp::new(1_700_000_000, 500_000_000);
    assert_eq!(cache.get_at(key.clone(), half_a_second_later).unwrap(), None);
    let sweep = cache.core.clean_at(half_a_second_later).unwrap();
    assert_eq!(
        sweep,
        Statement::DeleteExpired {
            before: String::from("2023-11-14T22:13:20.500+00:00")
        }
    );
    sweep
        .settle(run(cache.core.path(), &sweep).map(|_| ()))
        .unwrap();
    assert!(get_manual::<String>(filename.clone(), key.clone())
        .unwrap()
        .is_some());

    let a_second_later = Timestamp::new(1_700_000_001, 0);
    let sweep = cache.core.clean_at(a_second_later).unwrap();
    sweep
        .settle(run(cache.core.path(), &sweep).map(|_| ()))
        .unwrap();
    assert!(get_manual::<String>(filename, key).unwrap().is_none());
}
