//! Laws of the media cache: a read marks a payload as used, a write leaves
//! the cache within its capacity, and what was used most recently stays.

use vstd::prelude::*;
use crate::catalog;
use crate::catalog::MEDIA_CAPACITY;
use crate::laws::writes::law_insert;
use crate::schema::{Table, MEDIA_DATA, MEDIA_LAST_ACCESS, MEDIA_URL};
use crate::facts::{
    lemma_candidate, lemma_find_is, lemma_next_ok, lemma_select_alike, lemma_select_one,
};
use crate::semantics::{
    candidate, collision, equal_at, guard_holds, lacks_value, lemma_oldest, next, oldest, output,
    passes, project, refusal, row_fits, same_key, select, table_ok, touch, trim, Error, Row,
};
use crate::statement::{none_is, Clock, FilterView, Stamp, StatementView};
use crate::value::ValueView;

verus! {

/// A touch stamps the rows that pass its filter with the current time and
/// changes nothing else; what it reads is what a select with the same
/// filter reads.
pub proof fn law_touch(
    table: Table,
    stamp: Stamp,
    filter: FilterView,
    returning: Seq<usize>,
    rows: Seq<Row>,
    args: Row,
    now: u64,
)
    requires
        refusal(StatementView::Touch { table, stamp, filter, returning }, args) is None,
        table_ok(table, rows),
    ensures
        ({
            let stmt = StatementView::Touch { table, stamp, filter, returning };
            let after = next(stmt, rows, args, now);
            &&& after.len() == rows.len()
            &&& forall|i: int|
                0 <= i < rows.len() ==> #[trigger] after[i] == if passes(rows[i], filter, args) {
                    rows[i].update(stamp.column as int, ValueView::Time(now))
                } else {
                    rows[i]
                }
            &&& none_is(returning, stamp.column) ==> output(stmt, rows, args, now) == output(
                StatementView::Select { table, columns: returning, filter },
                rows,
                args,
                now,
            )
        }),
{
    let stmt = StatementView::Touch { table, stamp, filter, returning };
    let after = next(stmt, rows, args, now);
    assert forall|i: int| 0 <= i < rows.len() implies passes(#[trigger] rows[i], filter, args)
        == passes(after[i], filter, args) by {
        assert(row_fits(table, rows[i]));
        lemma_stamp_keeps_passing(table, rows[i], stamp.column, now, filter, args);
    }
    if none_is(returning, stamp.column) {
        assert forall|i: int|
            0 <= i < rows.len() && passes(#[trigger] rows[i], filter, args) implies project(
            rows[i],
            returning,
        ) == project(after[i], returning) by {
            assert(row_fits(table, rows[i]));
            assert(project(rows[i], returning) =~= project(after[i], returning));
        }
        lemma_select_alike(rows, after, filter, args, returning);
        assert(refusal(StatementView::Select { table, columns: returning, filter }, args) is None) by {
            let read = StatementView::Select { table, columns: returning, filter };
            assert forall|i: int| 0 <= i < args.len() implies (#[trigger] args[i]).fits(
                read.param_kind(i),
            ) by {
                assert(args[i].fits(stmt.param_kind(i)));
            }
        }
    }
}

/// Stamping a column that a filter does not look at does not change whether
/// a row passes the filter.
pub proof fn lemma_stamp_keeps_passing(
    table: Table,
    row: Row,
    column: usize,
    now: u64,
    filter: FilterView,
    args: Row,
)
    requires
        row.len() == table.spec_width(),
        column < table.spec_width(),
        filter.wf(table),
        filter.avoids(column),
    ensures
        passes(row.update(column as int, ValueView::Time(now)), filter, args) == passes(
            row,
            filter,
            args,
        ),
{
    let stamped = row.update(column as int, ValueView::Time(now));
    if passes(row, filter, args) {
        assert forall|i: int| 0 <= i < filter.equals.len() implies #[trigger] equal_at(
            stamped,
            filter.equals,
            args,
            i,
        ) by {
            assert(equal_at(row, filter.equals, args, i));
            assert(filter.equals[i] != column);
        }
        assert forall|j: int| 0 <= j < filter.guards.len() implies guard_holds(
            stamped,
            #[trigger] filter.guards[j],
        ) by {
            assert(guard_holds(row, filter.guards[j]));
            assert(filter.guards[j].spec_column() != column);
        }
    }
    if passes(stamped, filter, args) {
        assert forall|i: int| 0 <= i < filter.equals.len() implies #[trigger] equal_at(
            row,
            filter.equals,
            args,
            i,
        ) by {
            assert(equal_at(stamped, filter.equals, args, i));
            assert(filter.equals[i] != column);
        }
        assert forall|j: int| 0 <= j < filter.guards.len() implies guard_holds(
            row,
            #[trigger] filter.guards[j],
        ) by {
            assert(guard_holds(stamped, filter.guards[j]));
            assert(filter.guards[j].spec_column() != column);
        }
    }
}

/// A trim leaves the `keep` rows that rank highest, or all rows if there are
/// no more than `keep`: every row that it leaves was in the table, and no
/// row that it deletes ranks above a row that it leaves. This holds however
/// ties are broken.
pub proof fn law_trim(rows: Seq<Row>, by: usize, keep: usize)
    ensures
        trim(rows, by, keep).len() == if rows.len() <= keep {
            rows.len()
        } else {
            keep as nat
        },
        forall|k: int|
            0 <= k < trim(rows, by, keep).len() ==> rows.contains(
                #[trigger] trim(rows, by, keep)[k],
            ),
        forall|i: int, k: int|
            0 <= i < rows.len() && 0 <= k < trim(rows, by, keep).len() && !trim(
                rows,
                by,
                keep,
            ).contains(#[trigger] rows[i]) ==> rows[i][by as int].stamp() <= (#[trigger] trim(
                rows,
                by,
                keep,
            )[k])[by as int].stamp(),
    decreases rows.len(),
{
    let kept = trim(rows, by, keep);
    if rows.len() <= keep {
        assert forall|k: int| 0 <= k < kept.len() implies rows.contains(#[trigger] kept[k]) by {
            assert(rows[k] == kept[k]);
        }
        assert forall|i: int| 0 <= i < rows.len() implies kept.contains(#[trigger] rows[i]) by {
            assert(kept[i] == rows[i]);
        }
    } else {
        lemma_oldest(rows, by);
        let o = oldest(rows, by);
        let rest = rows.remove(o);
        law_trim(rest, by, keep);
        assert forall|k: int| 0 <= k < kept.len() implies rows.contains(#[trigger] kept[k]) by {
            assert(rest.contains(kept[k]));
            let j = choose|j: int| 0 <= j < rest.len() && rest[j] == kept[k];
            if j < o {
                assert(rows[j] == rest[j]);
            } else {
                assert(rows[j + 1] == rest[j]);
            }
        }
        assert forall|i: int, k: int|
            0 <= i < rows.len() && 0 <= k < kept.len() && !kept.contains(
                #[trigger] rows[i],
            ) implies rows[i][by as int].stamp() <= (#[trigger] kept[k])[by as int].stamp() by {
            if i == o {
                assert(rows.contains(kept[k]));
                let j = choose|j: int| 0 <= j < rows.len() && rows[j] == kept[k];
                assert(rows[o][by as int].stamp() <= rows[j][by as int].stamp());
            } else {
                let j = if i < o { i } else { i - 1 };
                assert(rest[j] == rows[i]);
            }
        }
    }
}

/// How many rows rank at or above `stamp` by column `by`.
pub open spec fn ranked_at_least(rows: Seq<Row>, by: usize, stamp: int) -> nat
    decreases rows.len(),
{
    if rows.len() == 0 {
        0
    } else {
        let rest = ranked_at_least(rows.drop_last(), by, stamp);
        if rows.last()[by as int].stamp() >= stamp {
            rest + 1
        } else {
            rest
        }
    }
}

/// Deleting a row does not raise the number of rows that rank at or above
/// `stamp`, and lowers it by one if the deleted row is one of them.
pub proof fn lemma_ranked_remove(rows: Seq<Row>, by: usize, stamp: int, at: int)
    requires
        0 <= at < rows.len(),
    ensures
        ranked_at_least(rows.remove(at), by, stamp) + (if rows[at][by as int].stamp() >= stamp {
            1nat
        } else {
            0nat
        }) == ranked_at_least(rows, by, stamp),
        ranked_at_least(rows, by, stamp) <= rows.len(),
    decreases rows.len(),
{
    let front = rows.drop_last();
    assert(rows.last() == rows[rows.len() - 1]);
    if at == rows.len() - 1 {
        assert(rows.remove(at) =~= front);
        lemma_ranked_bound(front, by, stamp);
    } else {
        lemma_ranked_remove(front, by, stamp, at);
        assert(rows.remove(at).drop_last() =~= front.remove(at));
        assert(rows.remove(at).last() == rows.last());
        assert(front[at] == rows[at]);
    }
}

/// No more rows rank at or above `stamp` than there are rows; and if every
/// row does, their number is the number of rows.
pub proof fn lemma_ranked_bound(rows: Seq<Row>, by: usize, stamp: int)
    ensures
        ranked_at_least(rows, by, stamp) <= rows.len(),
        (forall|i: int| 0 <= i < rows.len() ==> (#[trigger] rows[i])[by as int].stamp() >= stamp)
            ==> ranked_at_least(rows, by, stamp) == rows.len(),
    decreases rows.len(),
{
    if rows.len() > 0 {
        let front = rows.drop_last();
        lemma_ranked_bound(front, by, stamp);
        assert(rows.last() == rows[rows.len() - 1]);
        if forall|i: int| 0 <= i < rows.len() ==> (#[trigger] rows[i])[by as int].stamp() >= stamp {
            assert forall|i: int| 0 <= i < front.len() implies (#[trigger] front[i])[by as int].stamp()
                >= stamp by {
                assert(front[i] == rows[i]);
            }
        }
    }
}

/// The rows that were used most recently survive a trim: a row is left if
/// no more than `keep` rows, itself among them, rank at or above it. So a
/// payload that was read after most others were last used is not the one
/// that the next write evicts.
pub proof fn law_recent_rows_survive(rows: Seq<Row>, by: usize, keep: usize, at: int)
    requires
        0 <= at < rows.len(),
        ranked_at_least(rows, by, rows[at][by as int].stamp()) <= keep,
    ensures
        trim(rows, by, keep).contains(rows[at]),
    decreases rows.len(),
{
    let kept = trim(rows, by, keep);
    let stamp = rows[at][by as int].stamp();
    if rows.len() <= keep {
        assert(kept[at] == rows[at]);
    } else {
        lemma_oldest(rows, by);
        let o = oldest(rows, by);
        if o == at {
            lemma_ranked_bound(rows, by, stamp);
        }
        let rest = rows.remove(o);
        let j = if at < o { at } else { at - 1 };
        assert(rest[j] == rows[at]);
        lemma_ranked_remove(rows, by, stamp, o);
        law_recent_rows_survive(rest, by, keep, j);
    }
}

/// Every write to the media cache leaves it within its capacity.
///
/// Whatever the cache holds, and be it more than its capacity, after the
/// two statements of a write it holds the payloads that it held and the new
/// one, cut down to the [`MEDIA_CAPACITY`] most recently used; and none
/// that was evicted has been used more recently than one that was kept.
pub proof fn law_media_capacity(
    rows: Seq<Row>,
    url: Seq<char>,
    data: Seq<u8>,
    clock: Clock,
    now: u64,
    later: u64,
)
    requires
        table_ok(Table::Media, rows),
    ensures
        ({
            let args = seq![ValueView::Text(url), ValueView::Blob(data)];
            let inserted = next(catalog::media_insert_1(clock), rows, args, now);
            let after = next(catalog::media_insert_2(), inserted, Seq::empty(), later);
            &&& output(catalog::media_insert_1(clock), rows, args, now) is Ok
            &&& output(catalog::media_insert_2(), inserted, Seq::empty(), later) is Ok
            &&& rows.len() <= inserted.len() <= rows.len() + 1
            &&& after.len() == if inserted.len() <= MEDIA_CAPACITY {
                inserted.len()
            } else {
                MEDIA_CAPACITY as nat
            }
            &&& forall|k: int| 0 <= k < after.len() ==> inserted.contains(#[trigger] after[k])
            &&& forall|i: int, k: int|
                0 <= i < inserted.len() && 0 <= k < after.len() && !after.contains(
                    #[trigger] inserted[i],
                ) ==> inserted[i][MEDIA_LAST_ACCESS as int].stamp() <= (
                #[trigger] after[k])[MEDIA_LAST_ACCESS as int].stamp()
        }),
{
    let write = catalog::media_insert_1(clock);
    let args = seq![ValueView::Text(url), ValueView::Blob(data)];
    let columns = write->Insert_columns;
    let stamp = write->Insert_stamp;
    let conflict = write->Insert_conflict;
    assert(refusal(write, args) is None);
    let row = candidate(Table::Media, columns, stamp, args, now);
    lemma_candidate(Table::Media, columns, stamp, conflict, args, now);
    assert forall|c: int| 0 <= c < 2 implies row[c] == args[c] by {
        assert(row[columns[c] as int] == args[c]);
    }
    assert(!lacks_value(Table::Media, row));
    law_insert(Table::Media, columns, stamp, conflict, rows, args, now);
    let inserted = next(write, rows, args, now);
    assert(refusal(catalog::media_insert_2(), Seq::<ValueView>::empty()) is None);
    law_trim(inserted, MEDIA_LAST_ACCESS, MEDIA_CAPACITY);
}

/// A payload as it is written to the media cache: its locator, its bytes,
/// and the time on the database's clock at which it is written.
pub struct MediaWrite {
    pub url: Seq<char>,
    pub data: Seq<u8>,
    pub at: u64,
}

/// The row that the media cache holds for a payload that was written and
/// not read since.
pub open spec fn media_row(w: MediaWrite) -> Row {
    seq![ValueView::Text(w.url), ValueView::Blob(w.data), ValueView::Time(w.at)]
}

/// The media cache after one write: the insert, then the eviction.
pub open spec fn media_write(rows: Seq<Row>, w: MediaWrite) -> Seq<Row> {
    next(
        catalog::media_insert_2(),
        next(
            catalog::media_insert_1(Clock::Now),
            rows,
            seq![ValueView::Text(w.url), ValueView::Blob(w.data)],
            w.at,
        ),
        Seq::empty(),
        w.at,
    )
}

/// The media cache after the first `n` payloads of a list have been written
/// into an empty cache, one after the other.
pub open spec fn media_writes(ws: Seq<MediaWrite>, n: nat) -> Seq<Row>
    decreases n,
{
    if n == 0 {
        Seq::empty()
    } else {
        media_write(media_writes(ws, (n - 1) as nat), ws[n - 1])
    }
}

/// Whether the row holds the locator of one of the first `n` payloads.
pub open spec fn written_before(ws: Seq<MediaWrite>, n: nat, row: Row) -> bool {
    exists|i: int| 0 <= i < n && row[MEDIA_URL as int] == ValueView::Text((#[trigger] ws[i]).url)
}

/// The least of `n` and the capacity of the media cache.
pub open spec fn capped(n: nat) -> nat {
    if n <= MEDIA_CAPACITY {
        n
    } else {
        MEDIA_CAPACITY as nat
    }
}

/// The last `capped(n)` of the first `n` payloads, each as the row that the
/// cache holds for it, in the order in which they were written.
pub open spec fn last_written(ws: Seq<MediaWrite>, n: nat) -> Seq<Row> {
    Seq::new(capped(n), |i: int| media_row(ws[n - capped(n) + i]))
}

/// What one write does where the cache does not hold the locator: it adds
/// the payload's row at the end, then evicts.
pub proof fn lemma_media_write_new(rows: Seq<Row>, w: MediaWrite)
    requires
        table_ok(Table::Media, rows),
        forall|k: int|
            0 <= k < rows.len() ==> (#[trigger] rows[k])[MEDIA_URL as int] != ValueView::Text(
                w.url,
            ),
    ensures
        table_ok(Table::Media, rows.push(media_row(w))),
        table_ok(Table::Media, media_write(rows, w)),
        media_write(rows, w) == trim(rows.push(media_row(w)), MEDIA_LAST_ACCESS, MEDIA_CAPACITY),
{
    let write = catalog::media_insert_1(Clock::Now);
    let args = seq![ValueView::Text(w.url), ValueView::Blob(w.data)];
    let columns = write->Insert_columns;
    let stamp = write->Insert_stamp;
    let conflict = write->Insert_conflict;
    assert(refusal(write, args) is None);
    let row = candidate(Table::Media, columns, stamp, args, w.at);
    lemma_candidate(Table::Media, columns, stamp, conflict, args, w.at);
    assert forall|c: int| 0 <= c < 2 implies row[c] == args[c] by {
        assert(row[columns[c] as int] == args[c]);
    }
    assert(row =~= media_row(w));
    assert(!lacks_value(Table::Media, row));
    assert forall|k: int| 0 <= k < rows.len() implies !same_key(#[trigger] rows[k], row, 1) by {
        assert(rows[k][MEDIA_URL as int] != row[MEDIA_URL as int]);
    }
    lemma_find_is(rows, row, 1, rows.len() as int);
    law_insert(Table::Media, columns, stamp, conflict, rows, args, w.at);
    let inserted = next(write, rows, args, w.at);
    assert(inserted == rows.push(row));
    assert(refusal(catalog::media_insert_2(), Seq::<ValueView>::empty()) is None);
    lemma_next_ok(catalog::media_insert_2(), inserted, Seq::empty(), w.at);
}

/// What the cache holds after payloads with distinct locators have been
/// written into an empty cache: a state of the table, with one row for each
/// payload up to the capacity, each with the locator of a payload that was
/// written.
pub proof fn lemma_media_writes(ws: Seq<MediaWrite>, n: nat)
    requires
        n <= ws.len(),
        forall|i: int, j: int| 0 <= i < j < n ==> (#[trigger] ws[i]).url != (#[trigger] ws[j]).url,
    ensures
        table_ok(Table::Media, media_writes(ws, n)),
        media_writes(ws, n).len() == capped(n),
        forall|k: int|
            0 <= k < media_writes(ws, n).len() ==> written_before(
                ws,
                n,
                #[trigger] media_writes(ws, n)[k],
            ),
    decreases n,
{
    if n > 0 {
        let m = (n - 1) as nat;
        let before = media_writes(ws, m);
        let w = ws[n - 1];
        lemma_media_writes(ws, m);
        assert forall|k: int| 0 <= k < before.len() implies (#[trigger] before[k])[MEDIA_URL as int]
            != ValueView::Text(w.url) by {
            assert(written_before(ws, m, before[k]));
            let i = choose|i: int|
                0 <= i < m && before[k][MEDIA_URL as int] == ValueView::Text((#[trigger] ws[i]).url);
            assert(ws[i].url != ws[n - 1].url);
        }
        lemma_media_write_new(before, w);
        let inserted = before.push(media_row(w));
        let after = media_writes(ws, n);
        law_trim(inserted, MEDIA_LAST_ACCESS, MEDIA_CAPACITY);
        assert forall|k: int| 0 <= k < after.len() implies written_before(
            ws,
            n,
            #[trigger] after[k],
        ) by {
            assert(inserted.contains(after[k]));
            let x = choose|x: int| 0 <= x < inserted.len() && inserted[x] == after[k];
            if x < before.len() {
                assert(written_before(ws, m, before[x]));
                let i = choose|i: int|
                    0 <= i < m && before[x][MEDIA_URL as int] == ValueView::Text(
                        (#[trigger] ws[i]).url,
                    );
                assert(0 <= i < n && after[k][MEDIA_URL as int] == ValueView::Text(ws[i].url));
            } else {
                assert(after[k][MEDIA_URL as int] == ValueView::Text(ws[n - 1].url));
            }
        }
    }
}

/// The media cache fills up to its capacity and no further: after `n`
/// payloads with distinct locators have been written into an empty cache,
/// it holds `n` rows, or [`MEDIA_CAPACITY`] if `n` is more. This holds
/// whatever the clock shows, and however ties are broken.
pub proof fn law_media_count(ws: Seq<MediaWrite>, n: nat)
    requires
        n <= ws.len(),
        forall|i: int, j: int| 0 <= i < j < n ==> (#[trigger] ws[i]).url != (#[trigger] ws[j]).url,
    ensures
        media_writes(ws, n).len() == if n <= MEDIA_CAPACITY {
            n
        } else {
            MEDIA_CAPACITY as nat
        },
{
    lemma_media_writes(ws, n);
}

/// Among rows whose stamps rise from each row to the next, the first ranks
/// lowest.
pub proof fn lemma_oldest_is_first(rows: Seq<Row>, by: usize)
    requires
        rows.len() > 0,
        forall|i: int, j: int|
            0 <= i < j < rows.len() ==> (#[trigger] rows[i])[by as int].stamp() < (
            #[trigger] rows[j])[by as int].stamp(),
    ensures
        oldest(rows, by) == 0,
{
    lemma_oldest(rows, by);
    let o = oldest(rows, by);
    if o > 0 {
        assert(rows[0][by as int].stamp() < rows[o][by as int].stamp());
        assert(rows[o][by as int].stamp() <= rows[0][by as int].stamp());
    }
}

/// The media cache keeps what was written last: after `n` payloads with
/// distinct locators have been written into an empty cache, each at a later
/// time than the one before, the cache holds exactly the last
/// [`MEDIA_CAPACITY`] of them, or all if they are fewer, in the order in
/// which they were written.
pub proof fn law_media_keeps_the_last(ws: Seq<MediaWrite>, n: nat)
    requires
        n <= ws.len(),
        forall|i: int, j: int|
            0 <= i < j < n ==> (#[trigger] ws[i]).url != (#[trigger] ws[j]).url && ws[i].at
                < ws[j].at,
    ensures
        media_writes(ws, n) == last_written(ws, n),
    decreases n,
{
    if n == 0 {
        assert(media_writes(ws, n) =~= last_written(ws, n));
    } else {
        let m = (n - 1) as nat;
        let before = media_writes(ws, m);
        let w = ws[n - 1];
        law_media_keeps_the_last(ws, m);
        lemma_media_writes(ws, m);
        assert forall|k: int| 0 <= k < before.len() implies (#[trigger] before[k])[MEDIA_URL as int]
            != ValueView::Text(w.url) by {
            assert(before[k] == media_row(ws[m - capped(m) + k]));
            assert(ws[m - capped(m) + k].url != ws[n - 1].url);
        }
        lemma_media_write_new(before, w);
        let inserted = before.push(media_row(w));
        if inserted.len() <= MEDIA_CAPACITY {
            assert(inserted =~= last_written(ws, n));
        } else {
            assert(before.len() == MEDIA_CAPACITY);
            assert forall|i: int, j: int| 0 <= i < j < inserted.len() implies (
            #[trigger] inserted[i])[MEDIA_LAST_ACCESS as int].stamp() < (
            #[trigger] inserted[j])[MEDIA_LAST_ACCESS as int].stamp() by {
                let a = m - capped(m) + i;
                let b = m - capped(m) + j;
                assert(inserted[i] == media_row(ws[a]));
                assert(inserted[j] == media_row(ws[b]));
                assert(ws[a].at < ws[b].at);
            }
            lemma_oldest_is_first(inserted, MEDIA_LAST_ACCESS);
            let rest = inserted.remove(0);
            assert(trim(inserted, MEDIA_LAST_ACCESS, MEDIA_CAPACITY) == trim(
                rest,
                MEDIA_LAST_ACCESS,
                MEDIA_CAPACITY,
            ));
            assert(trim(rest, MEDIA_LAST_ACCESS, MEDIA_CAPACITY) == rest);
            assert(rest =~= last_written(ws, n));
        }
    }
}

/// No more rows rank at or above `stamp` than there are among the rows at
/// positions `a` and `b`, if every other row ranks below it.
pub proof fn lemma_ranked_two(rows: Seq<Row>, by: usize, stamp: int, a: int, b: int)
    requires
        forall|i: int|
            0 <= i < rows.len() && i != a && i != b ==> (#[trigger] rows[i])[by as int].stamp()
                < stamp,
    ensures
        ranked_at_least(rows, by, stamp) <= (if 0 <= a < rows.len() {
            1nat
        } else {
            0nat
        }) + (if 0 <= b < rows.len() && b != a {
            1nat
        } else {
            0nat
        }),
    decreases rows.len(),
{
    if rows.len() > 0 {
        let front = rows.drop_last();
        assert forall|i: int| 0 <= i < front.len() && i != a && i != b implies (
        #[trigger] front[i])[by as int].stamp() < stamp by {
            assert(front[i] == rows[i]);
        }
        lemma_ranked_two(front, by, stamp, a, b);
        assert(rows.last() == rows[rows.len() - 1]);
    }
}

/// A payload that was read survives the next write.
///
/// If a cached payload is read at a time later than every other payload of
/// the cache was last used, then the next write, of whatever payload and at
/// whatever time, does not evict it: the cache still holds its row, marked
/// as used when it was read.
pub proof fn law_read_payload_survives_write(
    rows: Seq<Row>,
    at: int,
    url: Seq<char>,
    now: u64,
    w: MediaWrite,
)
    requires
        table_ok(Table::Media, rows),
        0 <= at < rows.len(),
        rows[at][MEDIA_URL as int] == ValueView::Text(url),
        forall|i: int|
            0 <= i < rows.len() && i != at ==> (#[trigger] rows[i])[MEDIA_LAST_ACCESS as int].stamp()
                < now,
    ensures
        output(catalog::media_load(Clock::Now), rows, seq![ValueView::Text(url)], now) == Ok::<
            Seq<Row>,
            Error,
        >(seq![seq![rows[at][MEDIA_DATA as int]]]),
        media_write(
            next(catalog::media_load(Clock::Now), rows, seq![ValueView::Text(url)], now),
            w,
        ).contains(rows[at].update(MEDIA_LAST_ACCESS as int, ValueView::Time(now))),
{
    let load = catalog::media_load(Clock::Now);
    let key = seq![ValueView::Text(url)];
    let filter = load->Touch_filter;
    let reads = load->returning;
    assert(refusal(load, key) is None);
    assert forall|row: Row| passes(row, filter, key) == (row[MEDIA_URL as int] == ValueView::Text(
        url,
    )) by {
        if row[MEDIA_URL as int] == ValueView::Text(url) {
            assert forall|i: int| 0 <= i < filter.equals.len() implies #[trigger] equal_at(
                row,
                filter.equals,
                key,
                i,
            ) by {}
        }
        if passes(row, filter, key) {
            assert(equal_at(row, filter.equals, key, 0));
        }
    }
    law_touch(Table::Media, load->Touch_stamp, filter, reads, rows, key, now);
    lemma_next_ok(load, rows, key, now);
    let read = next(load, rows, key, now);
    let kept = rows[at].update(MEDIA_LAST_ACCESS as int, ValueView::Time(now));
    assert(row_fits(Table::Media, rows[at]));
    assert forall|i: int| 0 <= i < rows.len() && i != at implies !passes(
        #[trigger] rows[i],
        filter,
        key,
    ) by {
        if passes(rows[i], filter, key) {
            assert(row_fits(Table::Media, rows[i]));
            assert(same_key(rows[i], rows[at], 1));
            if i < at {
                assert(!same_key(rows[i], rows[at], 1));
            } else {
                assert(!same_key(rows[at], rows[i], 1));
                assert(same_key(rows[at], rows[i], 1));
            }
        }
    }
    assert(read[at] == kept);
    // What the read reports.
    assert(none_is(reads, MEDIA_LAST_ACCESS));
    lemma_select_one(rows, filter, key, reads, at);
    assert(project(rows[at], reads) =~= seq![rows[at][MEDIA_DATA as int]]);
    // The write that follows.
    let insert = catalog::media_insert_1(Clock::Now);
    let args = seq![ValueView::Text(w.url), ValueView::Blob(w.data)];
    let columns = insert->Insert_columns;
    let stamp = insert->Insert_stamp;
    let conflict = insert->Insert_conflict;
    assert(refusal(insert, args) is None);
    let row = candidate(Table::Media, columns, stamp, args, w.at);
    lemma_candidate(Table::Media, columns, stamp, conflict, args, w.at);
    assert forall|c: int| 0 <= c < 2 implies row[c] == args[c] by {
        assert(row[columns[c] as int] == args[c]);
    }
    assert(!lacks_value(Table::Media, row));
    law_insert(Table::Media, columns, stamp, conflict, read, args, w.at);
    let inserted = next(insert, read, args, w.at);
    assert(inserted.len() >= read.len());
    assert(inserted[at] == kept) by {
        if collision(Table::Media, read, row) == read.len() {
            assert(inserted == read.push(row));
        } else {
            assert(inserted == read);
        }
    }
    assert forall|i: int|
        0 <= i < inserted.len() && i != at && i != rows.len() implies (
    #[trigger] inserted[i])[MEDIA_LAST_ACCESS as int].stamp() < now by {
        assert(inserted[i] == read[i]);
        assert(read[i] == rows[i]);
    }
    lemma_ranked_two(inserted, MEDIA_LAST_ACCESS, now as int, at, rows.len() as int);
    assert(kept[MEDIA_LAST_ACCESS as int].stamp() == now);
    law_recent_rows_survive(inserted, MEDIA_LAST_ACCESS, MEDIA_CAPACITY, at);
    assert(refusal(catalog::media_insert_2(), Seq::<ValueView>::empty()) is None);
}

} // verus!
