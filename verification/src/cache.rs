//! The cache: a location, a default time to live, and the three operations,
//! each planned as one statement and settled from the driver's reply.

use crate::error::Error;
use crate::error::ErrorKind;
use crate::error::ErrorView;
use crate::error::Fault;
use crate::error::failure_kind;
use crate::error::seen;
use crate::key::Identifier;
use crate::statement::Statement;
use crate::statement::StatementView;
use crate::statement::no_text;
use crate::statement::planned;
use crate::time::TimeToLive;
use crate::time::Timestamp;
use std::marker::PhantomData;
use vstd::prelude::*;

verus! {

/// The time that an entry lives where the cache was given no other: ten
/// minutes, in seconds.
pub const DEFAULT_TTL_SECS: i64 = 600;

/// A cache of values of type `T` over the table at one location.
///
/// The cache holds no connection. Each operation yields the one statement
/// that a driver is to run at [`Cache::path`], and what the driver reports
/// goes back into the cache to be settled.
#[derive(Debug)]
pub struct Cache<T> {
    path: String,
    ttl: TimeToLive,
    data: PhantomData<T>,
}

/// A row as a lookup hands it back: the text of its expiry, and what the
/// codec made of its payload.
#[derive(Debug)]
pub struct Fetched<T> {
    pub expires: String,
    pub value: Result<T, String>,
}

/// The plan of a store with a given expiry. A value that did not encode is
/// an encode error with the codec's words; an expiry without text is a
/// timestamp error; else the row is put under the key's text.
pub open spec fn store_plan(
    key: Identifier,
    encoded: Result<Vec<u8>, String>,
    expires_at: Timestamp,
) -> Result<StatementView, ErrorView> {
    match encoded {
        Err(why) => Err(ErrorView { kind: ErrorKind::Encode, detail: why@ }),
        Ok(data) => match expires_at.text() {
            None => Err(ErrorView { kind: ErrorKind::Timestamp, detail: no_text() }),
            Some(expires) => Ok(StatementView::Upsert { id: key.text(), expires, data: data@ }),
        },
    }
}

/// The plan of a store at the instant `now` by a cache with the default
/// time to live `ttl`: the entry expires at `now` plus `ttl`.
pub open spec fn store_plan_at(
    ttl: TimeToLive,
    key: Identifier,
    encoded: Result<Vec<u8>, String>,
    now: Timestamp,
) -> Result<StatementView, ErrorView> {
    match encoded {
        Err(why) => Err(ErrorView { kind: ErrorKind::Encode, detail: why@ }),
        Ok(data) => match now.plus(ttl) {
            None => Err(ErrorView { kind: ErrorKind::Timestamp, detail: no_text() }),
            Some(expires_at) => store_plan(key, encoded, expires_at),
        },
    }
}

/// The plan of a lookup: find the row under the key's text.
pub open spec fn lookup_plan(key: Identifier) -> StatementView {
    StatementView::Select { id: key.text() }
}

/// The plan of a sweep at the instant `now`: remove the rows whose expiry
/// sorts before the text of `now`.
pub open spec fn sweep_plan(now: Timestamp) -> Result<StatementView, ErrorView> {
    match now.text() {
        None => Err(ErrorView { kind: ErrorKind::Timestamp, detail: no_text() }),
        Some(before) => Ok(StatementView::DeleteExpired { before }),
    }
}

/// What a row is to the caller at the instant `now`, given the instant
/// `expires_at` that the text of its expiry stands for, if any.
///
/// A row whose expiry is not RFC 3339 is a query error that quotes the
/// text; a payload that did not decode is a decode error with the codec's
/// words, also where the row has expired. A row that expired before `now`
/// is absence; any other row is its value.
pub open spec fn ruling<T>(row: Fetched<T>, expires_at: Option<Timestamp>, now: Timestamp) -> Result<
    Option<T>,
    ErrorView,
> {
    match expires_at {
        None => Err(ErrorView { kind: ErrorKind::Query, detail: row.expires@ }),
        Some(expires_at) => match row.value {
            Err(why) => Err(ErrorView { kind: ErrorKind::Decode, detail: why@ }),
            Ok(value) => if expires_at.is_before(now) {
                Ok(None)
            } else {
                Ok(Some(value))
            },
        },
    }
}

/// What a lookup returns at the instant `now`, given the driver's reply: a
/// fault is the error that it is for a lookup, no row is absence, and a row
/// is what [`ruling`] makes of it and of the instant that its expiry reads
/// as.
pub open spec fn verdict<T>(reply: Result<Option<Fetched<T>>, Fault>, now: Timestamp) -> Result<
    Option<T>,
    ErrorView,
> {
    match reply {
        Err(fault) => Err(
            ErrorView { kind: failure_kind(false, fault.stage), detail: fault.detail@ },
        ),
        Ok(None) => Ok(None),
        Ok(Some(row)) => ruling(row, Timestamp::of_text(row.expires@), now),
    }
}

impl<T> Fetched<T> {
    /// What the row is to the caller at the instant `now`, given the instant
    /// that its expiry reads as.
    pub fn rule(self, expires_at: Option<Timestamp>, now: Timestamp) -> (value: Result<
        Option<T>,
        Error,
    >)
        ensures
            seen(value) == ruling(self, expires_at, now),
    {
        match expires_at {
            None => Err(Error::new(ErrorKind::Query, self.expires)),
            Some(expires_at) => match self.value {
                Err(why) => Err(Error::new(ErrorKind::Decode, why)),
                Ok(value) => if expires_at.before(&now) {
                    Ok(None)
                } else {
                    Ok(Some(value))
                },
            },
        }
    }
}

impl<T> Cache<T> {
    /// Where the table is.
    pub closed spec fn location(&self) -> Seq<char> {
        self.path@
    }

    /// How long an entry lives that is stored without an expiry of its own.
    pub closed spec fn default_ttl(&self) -> TimeToLive {
        self.ttl
    }

    /// The statement that sets up the table. It is to be run once at the
    /// location before a cache is made there; on a table that is there
    /// already it changes nothing.
    pub fn schema() -> (statement: Statement)
        ensures
            statement@ == StatementView::CreateTable,
    {
        Statement::create_table()
    }

    /// A cache at `path` whose entries live ten minutes, given what the
    /// driver reports of running [`Cache::schema`] there.
    ///
    /// There is a cache exactly where the set-up succeeded; where it failed,
    /// the error is the one that the fault is for the set-up.
    pub fn new(path: String, setup: Result<(), Fault>) -> (cache: Result<Self, Error>)
        ensures
            match setup {
                Ok(()) => cache matches Ok(c) && c.location() == path@ && c.default_ttl() == (
                TimeToLive { secs: DEFAULT_TTL_SECS, nanos: 0 }),
                Err(fault) => cache matches Err(e) && e@ == (ErrorView {
                    kind: failure_kind(true, fault.stage),
                    detail: fault.detail@,
                }),
            },
    {
        Self::with_time_to_live(path, TimeToLive::new(DEFAULT_TTL_SECS, 0), setup)
    }

    /// A cache at `path` whose entries live `ttl`, given what the driver
    /// reports of running [`Cache::schema`] there.
    ///
    /// There is a cache exactly where the set-up succeeded; where it failed,
    /// the error is the one that the fault is for the set-up.
    pub fn with_time_to_live(path: String, ttl: TimeToLive, setup: Result<(), Fault>) -> (cache:
        Result<Self, Error>)
        ensures
            match setup {
                Ok(()) => cache matches Ok(c) && c.location() == path@ && c.default_ttl() == ttl,
                Err(fault) => cache matches Err(e) && e@ == (ErrorView {
                    kind: failure_kind(true, fault.stage),
                    detail: fault.detail@,
                }),
            },
    {
        match setup {
            Ok(()) => Ok(Cache { path, ttl, data: PhantomData }),
            Err(fault) => Err(Error::from_fault(true, fault)),
        }
    }

    /// Where the table is.
    pub fn path(&self) -> (path: &String)
        ensures
            path@ == self.location(),
    {
        &self.path
    }

    /// How long an entry lives that is stored without an expiry of its own.
    pub fn time_to_live(&self) -> (ttl: TimeToLive)
        ensures
            ttl == self.default_ttl(),
    {
        self.ttl
    }

    /// Plans the lookup of `key`.
    pub fn get(&self, key: &Identifier) -> (statement: Statement)
        ensures
            statement@ == lookup_plan(*key),
    {
        Statement::select(key)
    }

    /// Settles a lookup at the instant `now`, given the driver's reply.
    pub fn fetched_at(&self, reply: Result<Option<Fetched<T>>, Fault>, now: Timestamp) -> (value:
        Result<Option<T>, Error>)
        ensures
            seen(value) == verdict(reply, now),
    {
        match reply {
            Err(fault) => Err(Error::from_fault(false, fault)),
            Ok(None) => Ok(None),
            Ok(Some(row)) => {
                let expires_at = Timestamp::parse_from_rfc3339(row.expires.as_str());
                row.rule(expires_at, now)
            },
        }
    }

    /// Settles a lookup at the present instant: what [`Cache::fetched_at`]
    /// returns for the instant that the clock shows.
    pub fn fetched(&self, reply: Result<Option<Fetched<T>>, Fault>) -> (value: Result<
        Option<T>,
        Error,
    >)
        ensures
            exists|now: Timestamp| seen(value) == verdict(reply, now),
    {
        let now = Timestamp::now();
        self.fetched_at(reply, now)
    }

    /// Plans a store of an encoded value under `key`, to expire at
    /// `expires_at`. `encoded` is what the codec made of the value.
    pub fn store_with_expiration(
        &self,
        key: &Identifier,
        encoded: Result<Vec<u8>, String>,
        expires_at: Timestamp,
    ) -> (plan: Result<Statement, Error>)
        ensures
            planned(plan) == store_plan(*key, encoded, expires_at),
    {
        match encoded {
            Err(why) => Err(Error::new(ErrorKind::Encode, why)),
            Ok(data) => Statement::upsert(key, expires_at.to_rfc3339(), data),
        }
    }

    /// Plans a store at the instant `now`, to expire a time to live later.
    pub fn store_at(&self, key: &Identifier, encoded: Result<Vec<u8>, String>, now: Timestamp) -> (plan:
        Result<Statement, Error>)
        ensures
            planned(plan) == store_plan_at(self.default_ttl(), *key, encoded, now),
    {
        match encoded {
            Err(why) => Err(Error::new(ErrorKind::Encode, why)),
            Ok(data) => match now.checked_add(&self.ttl) {
                None => Statement::upsert(key, None, data),
                Some(expires_at) => self.store_with_expiration(key, Ok(data), expires_at),
            },
        }
    }

    /// Plans a store at the present instant: what [`Cache::store_at`] plans
    /// for the instant that the clock shows.
    pub fn store(&self, key: &Identifier, encoded: Result<Vec<u8>, String>) -> (plan: Result<
        Statement,
        Error,
    >)
        ensures
            exists|now: Timestamp|
                planned(plan) == store_plan_at(self.default_ttl(), *key, encoded, now),
    {
        let now = Timestamp::now();
        self.store_at(key, encoded, now)
    }

    /// Plans a sweep of the rows that have expired before the instant `now`.
    pub fn clean_at(&self, now: Timestamp) -> (plan: Result<Statement, Error>)
        ensures
            planned(plan) == sweep_plan(now),
    {
        Statement::delete_expired(now.to_rfc3339())
    }

    /// Plans a sweep at the present instant: what [`Cache::clean_at`] plans
    /// for the instant that the clock shows.
    pub fn clean(&self) -> (plan: Result<Statement, Error>)
        ensures
            exists|now: Timestamp| planned(plan) == sweep_plan(now),
    {
        let now = Timestamp::now();
        self.clean_at(now)
    }
}

} // verus!
