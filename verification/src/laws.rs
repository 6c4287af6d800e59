//! What holds of the operations taken together, over the table as the
//! statements leave it.
//!
//! A table is a map from the text of an identifier to its row. The laws
//! speak of the statements that the operations plan, of the table after
//! them, and of what a lookup returns once a driver has reported the row.

use crate::cache::Fetched;
use crate::cache::lookup_plan;
use crate::cache::store_plan;
use crate::cache::store_plan_at;
use crate::cache::sweep_plan;
use crate::cache::verdict;
use crate::canonical::canonical;
use crate::text_order::lemma_canonical_order;
use crate::error::ErrorKind;
use crate::error::ErrorView;
use crate::error::Fault;
use crate::key::Identifier;
use crate::key::lemma_text_injective;
use crate::table::Row;
use crate::statement::StatementView;
use crate::table::text_before;
use crate::time::TimeToLive;
use crate::time::Timestamp;
use vstd::prelude::*;

verus! {

/// Whether `reply` reports `answer` as a driver should: no row where there
/// is none, and else the row's own expiry with what the codec `decode`
/// makes of its payload, a value or a refusal.
pub open spec fn faithful<T>(
    reply: Result<Option<Fetched<T>>, Fault>,
    answer: Option<Row>,
    decode: spec_fn(Seq<u8>) -> Option<T>,
) -> bool {
    match answer {
        None => reply == Ok::<Option<Fetched<T>>, Fault>(None),
        Some(row) => reply matches Ok(Some(fetched)) && fetched.expires@ == row.expires && (
        match decode(row.data) {
            Some(value) => fetched.value == Ok::<T, String>(value),
            None => fetched.value is Err,
        }),
    }
}

/// The table after a run of statements, one after the other.
pub open spec fn replay(history: Seq<StatementView>, table: Map<Seq<char>, Row>) -> Map<
    Seq<char>,
    Row,
>
    decreases history.len(),
{
    if history.len() == 0 {
        table
    } else {
        history.last().effect(replay(history.drop_last(), table))
    }
}

/// Whether the text of an expiry sorts against the text of `now` as the two
/// instants do.
pub open spec fn sorts_as_instant(expires: Seq<char>, now: Timestamp) -> bool {
    &&& now.text() matches Some(before)
    &&& Timestamp::of_text(expires) matches Some(expires_at)
    &&& text_before(expires, before) <==> expires_at.is_before(now)
}

/// Round trip: once a value is stored under a key, a lookup of that key
/// finds the row that was stored, and returns the value that the payload
/// decodes to, at every instant that is not past the expiry.
pub proof fn law_round_trip<T>(
    table: Map<Seq<char>, Row>,
    key: Identifier,
    data: Vec<u8>,
    expires_at: Timestamp,
    put: StatementView,
    decode: spec_fn(Seq<u8>) -> Option<T>,
    value: T,
    reply: Result<Option<Fetched<T>>, Fault>,
    now: Timestamp,
)
    requires
        store_plan(key, Ok(data), expires_at) == Ok::<_, ErrorView>(put),
        decode(data@) == Some(value),
        !expires_at.is_before(now),
        faithful(reply, lookup_plan(key).answer(put.effect(table)), decode),
    ensures
        expires_at.text() matches Some(expires) && lookup_plan(key).answer(put.effect(table))
            == Some(Row { expires, data: data@ }),
        verdict(reply, now) == Ok::<_, ErrorView>(Some(value)),
{
}

/// An entry that is stored with a time to live that is not negative has not
/// expired at the instant at which it was stored.
pub proof fn law_fresh_entry_is_live(now: Timestamp, ttl: TimeToLive, expires_at: Timestamp)
    requires
        ttl.span() >= 0,
        now.plus(ttl) == Some(expires_at),
    ensures
        !expires_at.is_before(now),
{
}

/// Round trip with the default time to live: a value that a cache stores
/// with a time to live that is not negative is what a lookup at that same
/// instant returns.
pub proof fn law_store_then_get<T>(
    table: Map<Seq<char>, Row>,
    ttl: TimeToLive,
    key: Identifier,
    data: Vec<u8>,
    put: StatementView,
    decode: spec_fn(Seq<u8>) -> Option<T>,
    value: T,
    reply: Result<Option<Fetched<T>>, Fault>,
    now: Timestamp,
)
    requires
        ttl.span() >= 0,
        store_plan_at(ttl, key, Ok(data), now) == Ok::<_, ErrorView>(put),
        decode(data@) == Some(value),
        faithful(reply, lookup_plan(key).answer(put.effect(table)), decode),
    ensures
        verdict(reply, now) == Ok::<_, ErrorView>(Some(value)),
{
    let expires_at = now.plus(ttl).unwrap();
    law_fresh_entry_is_live(now, ttl, expires_at);
    law_round_trip(table, key, data, expires_at, put, decode, value, reply, now);
}

/// Overwrite: of two stores under one key the second alone counts. The
/// table is as if the first had never been, so it holds one row under the
/// key, and a lookup returns the second value.
pub proof fn law_overwrite<T>(
    table: Map<Seq<char>, Row>,
    key: Identifier,
    first: Vec<u8>,
    first_expires_at: Timestamp,
    put_first: StatementView,
    second: Vec<u8>,
    second_expires_at: Timestamp,
    put_second: StatementView,
    decode: spec_fn(Seq<u8>) -> Option<T>,
    value: T,
    reply: Result<Option<Fetched<T>>, Fault>,
    now: Timestamp,
)
    requires
        store_plan(key, Ok(first), first_expires_at) == Ok::<_, ErrorView>(put_first),
        store_plan(key, Ok(second), second_expires_at) == Ok::<_, ErrorView>(put_second),
        decode(second@) == Some(value),
        !second_expires_at.is_before(now),
        faithful(
            reply,
            lookup_plan(key).answer(put_second.effect(put_first.effect(table))),
            decode,
        ),
    ensures
        put_second.effect(put_first.effect(table)) == put_second.effect(table),
        verdict(reply, now) == Ok::<_, ErrorView>(Some(value)),
{
    assert(put_second.effect(put_first.effect(table)) =~= put_second.effect(table));
}

/// A store under one identifier leaves the rows of every other identifier
/// as they were: two identifiers that differ never share a row.
pub proof fn law_store_keeps_other_keys(
    table: Map<Seq<char>, Row>,
    key: Identifier,
    data: Vec<u8>,
    expires_at: Timestamp,
    put: StatementView,
    other: Identifier,
)
    requires
        store_plan(key, Ok(data), expires_at) == Ok::<_, ErrorView>(put),
        other != key,
    ensures
        lookup_plan(other).answer(put.effect(table)) == lookup_plan(other).answer(table),
{
    if other.text() == key.text() {
        lemma_text_injective(other, key);
    }
}

/// Expiry masking: a row whose expiry lies before the instant of a lookup
/// is never returned. The lookup leaves the row in the table.
pub proof fn law_expiry_masking<T>(
    table: Map<Seq<char>, Row>,
    key: Identifier,
    expires_at: Timestamp,
    decode: spec_fn(Seq<u8>) -> Option<T>,
    reply: Result<Option<Fetched<T>>, Fault>,
    now: Timestamp,
)
    requires
        table.dom().contains(key.text()),
        Timestamp::of_text(table[key.text()].expires) == Some(expires_at),
        expires_at.is_before(now),
        faithful(reply, lookup_plan(key).answer(table), decode),
    ensures
        !(verdict(reply, now) matches Ok(Some(_))),
        decode(table[key.text()].data) is Some ==> verdict(reply, now) == Ok::<Option<T>, ErrorView>(
            None,
        ),
        decode(table[key.text()].data) is None ==> (verdict(reply, now) matches Err(e) && e.kind
            == ErrorKind::Decode),
        lookup_plan(key).effect(table) == table,
{
}

/// Clean selectivity, as the table sees it: a sweep removes exactly the
/// rows whose expiry sorts before the text of the instant of the sweep, and
/// leaves every other row as it was.
pub proof fn law_sweep_selectivity(
    table: Map<Seq<char>, Row>,
    now: Timestamp,
    sweep: StatementView,
    id: Seq<char>,
)
    requires
        sweep_plan(now) == Ok::<_, ErrorView>(sweep),
    ensures
        now.text() matches Some(before) && (sweep.effect(table).dom().contains(id)
            <==> table.dom().contains(id) && !text_before(table[id].expires, before)),
        sweep.effect(table).dom().contains(id) ==> sweep.effect(table)[id] == table[id],
{
}

/// Clean selectivity, by the clock: where the expiry of every row sorts
/// against the instant of the sweep as the instants themselves do, the sweep
/// removes exactly the rows that have expired strictly before that instant,
/// and a lookup of any other row finds afterwards what it found before.
pub proof fn law_sweep_removes_the_expired(
    table: Map<Seq<char>, Row>,
    now: Timestamp,
    sweep: StatementView,
    key: Identifier,
)
    requires
        sweep_plan(now) == Ok::<_, ErrorView>(sweep),
        forall|id: Seq<char>|
            table.dom().contains(id) ==> #[trigger] sorts_as_instant(table[id].expires, now),
    ensures
        sweep.effect(table).dom().contains(key.text()) <==> table.dom().contains(key.text()) && (
        Timestamp::of_text(table[key.text()].expires) matches Some(expires_at)
            && !expires_at.is_before(now)),
        sweep.effect(table).dom().contains(key.text()) ==> lookup_plan(key).answer(
            sweep.effect(table),
        ) == lookup_plan(key).answer(table),
{
    if table.dom().contains(key.text()) {
        assert(sorts_as_instant(table[key.text()].expires, now));
    }
}

/// Whether the text of an expiry is as the engine writes it: canonical, and
/// read as the instant that it is canonical for.
pub open spec fn well_formed_expiry(expires: Seq<char>) -> bool {
    canonical(expires) is Some && Timestamp::of_text(expires) == canonical(expires)
}

/// Whether the expiry of every row of a table is as the engine writes it.
pub open spec fn well_formed(table: Map<Seq<char>, Row>) -> bool {
    forall|id: Seq<char>|
        table.dom().contains(id) ==> well_formed_expiry(#[trigger] table[id].expires)
}

/// Whether a statement, if it puts a row, puts one whose expiry is as the
/// engine writes it.
pub open spec fn keeps_form(statement: StatementView) -> bool {
    statement matches StatementView::Upsert { expires, .. } ==> well_formed_expiry(expires)
}

/// The texts of two expiries sort as the two instants do.
pub proof fn law_expiry_texts_sort_by_time(
    first: Timestamp,
    first_text: Seq<char>,
    second: Timestamp,
    second_text: Seq<char>,
)
    requires
        first.text() == Some(first_text),
        second.text() == Some(second_text),
    ensures
        text_before(first_text, second_text) <==> first.is_before(second),
{
    lemma_canonical_order(first_text, second_text);
}

/// Every store that the engine plans puts a row whose expiry is as the
/// engine writes it, and so do its lookups, its sweeps and the set-up.
pub proof fn law_plans_keep_form(
    key: Identifier,
    encoded: Result<Vec<u8>, String>,
    expires_at: Timestamp,
    now: Timestamp,
)
    ensures
        store_plan(key, encoded, expires_at) matches Ok(put) ==> keeps_form(put),
        sweep_plan(now) matches Ok(sweep) ==> keeps_form(sweep),
        keeps_form(lookup_plan(key)),
        keeps_form(StatementView::CreateTable),
{
}

/// A table that the engine alone has written is well formed: it starts
/// empty, and no statement that keeps the form breaks it.
pub proof fn law_own_table_is_well_formed(history: Seq<StatementView>)
    requires
        forall|i: int| 0 <= i < history.len() ==> keeps_form(#[trigger] history[i]),
    ensures
        well_formed(replay(history, Map::empty())),
    decreases history.len(),
{
    if history.len() > 0 {
        let earlier = history.drop_last();
        assert forall|i: int| 0 <= i < earlier.len() implies keeps_form(
            #[trigger] earlier[i],
        ) by {
            assert(earlier[i] == history[i]);
        }
        law_own_table_is_well_formed(earlier);
        assert(keeps_form(history[history.len() - 1]));
    }
}

/// Clean selectivity, by the clock, on a table that is well formed: the
/// sweep removes exactly the rows that have expired strictly before its
/// instant, a lookup of any other row finds afterwards what it found before,
/// and the table is well formed still.
pub proof fn law_sweep_of_well_formed_table(
    table: Map<Seq<char>, Row>,
    now: Timestamp,
    sweep: StatementView,
    key: Identifier,
)
    requires
        sweep_plan(now) == Ok::<_, ErrorView>(sweep),
        well_formed(table),
    ensures
        sweep.effect(table).dom().contains(key.text()) <==> table.dom().contains(key.text()) && (
        Timestamp::of_text(table[key.text()].expires) matches Some(expires_at)
            && !expires_at.is_before(now)),
        sweep.effect(table).dom().contains(key.text()) ==> lookup_plan(key).answer(
            sweep.effect(table),
        ) == lookup_plan(key).answer(table),
        well_formed(sweep.effect(table)),
{
    assert forall|id: Seq<char>| table.dom().contains(id) implies #[trigger] sorts_as_instant(
        table[id].expires,
        now,
    ) by {
        lemma_canonical_order(table[id].expires, now.text().unwrap());
    }
    law_sweep_removes_the_expired(table, now, sweep, key);
}

/// A sweep may be repeated at will: a second sweep for the same instant
/// changes nothing.
pub proof fn law_sweep_idempotent(table: Map<Seq<char>, Row>, now: Timestamp, sweep: StatementView)
    requires
        sweep_plan(now) == Ok::<_, ErrorView>(sweep),
    ensures
        sweep.effect(sweep.effect(table)) == sweep.effect(table),
{
    assert(sweep.effect(sweep.effect(table)) =~= sweep.effect(table));
}

/// Absent key: the lookup of a key under which the table has no row
/// returns absence, and no error.
pub proof fn law_absent_key<T>(
    table: Map<Seq<char>, Row>,
    key: Identifier,
    decode: spec_fn(Seq<u8>) -> Option<T>,
    reply: Result<Option<Fetched<T>>, Fault>,
    now: Timestamp,
)
    requires
        !table.dom().contains(key.text()),
        faithful(reply, lookup_plan(key).answer(table), decode),
    ensures
        verdict(reply, now) == Ok::<Option<T>, ErrorView>(None),
{
}

/// Whether a statement puts a row under the text of `key`.
pub open spec fn puts_under(statement: StatementView, key: Identifier) -> bool {
    statement matches StatementView::Upsert { id, .. } && id == key.text()
}

/// A key that was never stored has no row: however many statements have run
/// on a table that was empty, if none of them put a row under the key, the
/// table has none.
pub proof fn law_never_stored_has_no_row(history: Seq<StatementView>, key: Identifier)
    requires
        forall|i: int| 0 <= i < history.len() ==> !puts_under(#[trigger] history[i], key),
    ensures
        !replay(history, Map::empty()).dom().contains(key.text()),
    decreases history.len(),
{
    if history.len() > 0 {
        let earlier = history.drop_last();
        assert forall|i: int| 0 <= i < earlier.len() implies !puts_under(
            #[trigger] earlier[i],
            key,
        ) by {
            assert(earlier[i] == history[i]);
        }
        law_never_stored_has_no_row(earlier, key);
        assert(!puts_under(history[history.len() - 1], key));
    }
}

/// Idempotent construction: setting up the table where it is already there
/// keeps every row, so a cache that is made a second time at one location
/// finds what the first one stored.
pub proof fn law_setup_keeps_rows(table: Map<Seq<char>, Row>, key: Identifier)
    ensures
        StatementView::CreateTable.effect(table) == table,
        lookup_plan(key).answer(StatementView::CreateTable.effect(table)) == lookup_plan(
            key,
        ).answer(table),
{
}

} // verus!
