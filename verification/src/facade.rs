//! The query façade: the uniform stats / listing / roster contract shared
//! by every backend kind.
//!
//! Physical stores differ — a key-value store keeps pending jobs in a list
//! and finished jobs in per-state ordered sets, a relational store keeps
//! one status-tagged table — but all of them answer through the same
//! pagination contract (1-indexed pages of a fixed size, newest first, out
//! of range pages empty) and the same snapshot statistics. This module
//! holds that shared arithmetic: page windows, the parameters the
//! relational and sorted-set queries are built from, the assembly of a
//! statistics snapshot from raw per-status counts, and the filter that
//! drops records whose payload does not decode.

use vstd::prelude::*;
use vstd::string::StrSliceExecFns;
use crate::model::{JobState, Stat, Worker};
use crate::registry::{is_prefix_of, str_starts_with};

verus! {

/// Jobs are listed ten per page.
pub const JOB_PAGE_SIZE: usize = 10;

/// Worker rosters are listed twenty per page.
pub const WORKER_PAGE_SIZE: usize = 20;

/// The window of `s` that 1-indexed `page` shows, `size` entries per page:
/// entries `(page-1)*size` up to `page*size` exclusive, clipped to the
/// sequence; any out-of-range page shows the empty window.
pub open spec fn page_window<T>(s: Seq<T>, page: int, size: int) -> Seq<T> {
    if page >= 1 && (page - 1) * size < s.len() {
        s.subrange(
            (page - 1) * size,
            if page * size < s.len() {
                page * size
            } else {
                s.len() as int
            },
        )
    } else {
        Seq::empty()
    }
}

/// The index range of `page` within a sequence of `len` entries, or `None`
/// when the page is out of range and shows nothing.
pub fn page_bounds(page: i32, len: usize, size: usize) -> (r: Option<(usize, usize)>)
    requires
        1 <= size,
    ensures
        match r {
            Some((start, end)) => {
                &&& page >= 1
                &&& start == (page - 1) * size
                &&& start < len
                &&& end == if page * size < len {
                    page * size as int
                } else {
                    len as int
                }
            },
            None => page < 1 || (page - 1) * size >= len,
        },
{
    if page < 1 {
        return None;
    }
    proof {
        assert((page as int - 1) * (size as int) <= 0x80000000 * 0xffffffffffffffff)
            by (nonlinear_arith)
            requires
                1 <= page as int <= 0x80000000,
                0 < size as int <= 0xffffffffffffffff,
        ;
    }
    let start_wide: u128 = (page as u128 - 1) * (size as u128);
    if start_wide >= len as u128 {
        return None;
    }
    let start = start_wide as usize;
    let end = if len - start > size {
        start + size
    } else {
        len
    };
    proof {
        assert((page as int) * (size as int) == (page as int - 1) * (size as int) + size as int)
            by (nonlinear_arith);
    }
    Some((start, end))
}

/// The offset a relational listing query binds for 1-indexed `page`, with
/// its fixed `LIMIT` of [`JOB_PAGE_SIZE`]; `None` for an out-of-range page,
/// which must answer an empty listing without querying.
pub fn sql_list_offset(page: i32) -> (r: Option<i64>)
    ensures
        page >= 1 ==> (r matches Some(o) && o as int == (page - 1) * (JOB_PAGE_SIZE as int)),
        page < 1 ==> r is None,
{
    if page >= 1 {
        Some((page as i64 - 1) * 10)
    } else {
        None
    }
}

/// The inclusive member range a sorted-set range query reads for 1-indexed
/// `page`: exactly one page of [`JOB_PAGE_SIZE`] scores; `None` for an
/// out-of-range page.
pub fn zrange_bounds(page: i32) -> (r: Option<(i64, i64)>)
    ensures
        page >= 1 ==> (r matches Some(b) && b.0 as int == (page - 1) * (JOB_PAGE_SIZE as int)
            && b.1 as int == page * (JOB_PAGE_SIZE as int) - 1),
        page < 1 ==> r is None,
{
    if page >= 1 {
        Some(((page as i64 - 1) * 10, page as i64 * 10 - 1))
    } else {
        None
    }
}

/// The status value a relational store tags its job rows with. The table
/// spells terminal states `Done` and `Killed`; a scheduled job is a pending
/// row whose run time lies ahead.
pub fn sql_status_value(status: &JobState) -> (r: &'static str)
    ensures
        r@ == sql_status_value_spec(*status),
{
    match status {
        JobState::Pending => "Pending",
        JobState::Scheduled => "Pending",
        JobState::Running => "Running",
        JobState::Dead => "Killed",
        JobState::Failed => "Failed",
        JobState::Success => "Done",
    }
}

pub open spec fn sql_status_value_spec(status: JobState) -> Seq<char> {
    match status {
        JobState::Pending => "Pending"@,
        JobState::Scheduled => "Pending"@,
        JobState::Running => "Running"@,
        JobState::Dead => "Killed"@,
        JobState::Failed => "Failed"@,
        JobState::Success => "Done"@,
    }
}

/// Assemble the snapshot statistics from the six raw per-status counts a
/// store reports. `Done` rows are successes, `Killed` rows are dead, and
/// rows awaiting a retry count as failed: their most recent attempt failed.
pub fn stat_from_counts(
    pending: usize,
    running: usize,
    done: usize,
    retry: usize,
    failed: usize,
    killed: usize,
) -> (r: Stat)
    requires
        failed + retry <= usize::MAX,
    ensures
        r == (Stat {
            pending,
            running,
            dead: killed,
            failed: (failed + retry) as usize,
            success: done,
        }),
        r.total_spec() == pending + running + done + retry + failed + killed,
{
    Stat { pending, running, dead: killed, failed: failed + retry, success: done }
}

/// Turn the rows a relational worker query returns — identifier, layer
/// description, last-seen time — into the roster the read API answers,
/// tagged with the stream they were read from.
pub fn workers_from_rows(rows: &Vec<(String, String, i64)>, source: &String) -> (r: Vec<Worker>)
    ensures
        r@.len() == rows@.len(),
        forall|i: int| 0 <= i < rows@.len() ==> {
            let w = #[trigger] r@[i];
            &&& w.worker_id@ == rows@[i].0@
            &&& w.task_kind@ == rows@[i].1@
            &&& w.source@ == source@
            &&& w.layers@.len() == 0
        },
{
    let n = rows.len();
    let mut out: Vec<Worker> = Vec::new();
    let mut i: usize = 0;
    while i < n
        invariant
            i <= n,
            n == rows@.len(),
            out@.len() == i,
            forall|x: int| 0 <= x < i ==> {
                let w = #[trigger] out@[x];
                &&& w.worker_id@ == rows@[x].0@
                &&& w.task_kind@ == rows@[x].1@
                &&& w.source@ == source@
                &&& w.layers@.len() == 0
            },
        decreases n - i,
    {
        let row = &rows[i];
        out.push(Worker::new(row.0.clone(), row.1.clone(), source.clone()));
        i = i + 1;
    }
    out
}

/// A key-value store registers a consumer under its inflight set's name
/// followed by the worker's own identifier; the roster shows the
/// identifier alone. Strips one leading occurrence of the prefix and
/// leaves any other name untouched.
pub fn strip_worker_prefix(member: &String, prefix: &String) -> (r: String)
    ensures
        is_prefix_of(prefix@, member@) ==> r@ == member@.skip(prefix@.len() as int),
        !is_prefix_of(prefix@, member@) ==> r@ == member@,
{
    if str_starts_with(member.as_str(), prefix.as_str()) {
        let plen = prefix.as_str().unicode_len();
        let mlen = member.as_str().unicode_len();
        let rest = member.as_str().substring_char(plen, mlen);
        proof {
            assert(member@.subrange(plen as int, mlen as int) =~= member@.skip(plen as int));
        }
        rest.to_owned()
    } else {
        member.clone()
    }
}

/// Whether a text payload is well-formed for the codec the stores persist
/// with. A function of the payload's characters alone.
pub uninterp spec fn json_well_formed(s: Seq<char>) -> bool;

/// Relies on `serde_json::from_str::<serde_json::Value>`: whether a string
/// parses as a JSON document is decided by its characters alone.
#[verifier::external_body]
fn json_parse_ok(s: &str) -> (r: bool)
    ensures
        r == json_well_formed(s@),
{
    serde_json::from_str::<serde_json::Value>(s).is_ok()
}

/// Whether a payload entry read from a store decodes: it was present and
/// its text is well-formed.
pub open spec fn entry_decodes(e: Option<String>) -> bool {
    e matches Some(s) && json_well_formed(s@)
}

/// The payloads of one batch of entries that decode, in order.
pub open spec fn decoded_entries(batch: Seq<Option<String>>) -> Seq<String> {
    batch.filter(|e: Option<String>| entry_decodes(e)).map_values(|e: Option<String>| e->0)
}

/// Keep the payload entries that decode, in order, and report how many
/// were dropped: a listing never fails on a malformed record, it filters
/// the record out and surfaces the count.
pub fn decode_job_entries(entries: Vec<Option<String>>) -> (r: (Vec<String>, usize))
    ensures
        r.0@ == decoded_entries(entries@),
        r.1 + r.0@.len() == entries@.len(),
{
    let ghost all = entries@;
    let mut rest = entries;
    let total = rest.len();
    proof {
        assert(all.len() == total);
    }
    let mut kept: Vec<String> = Vec::new();
    let mut dropped: usize = 0;
    proof {
        assert(all.subrange(0, 0).filter(|e: Option<String>| entry_decodes(e)) =~= Seq::empty())
            by {
            reveal(Seq::filter);
        }
        assert(kept@ =~= all.subrange(0, 0).filter(|e: Option<String>| entry_decodes(e)).map_values(
            |e: Option<String>| e->0,
        ));
    }
    while rest.len() > 0
        invariant
            all.len() <= usize::MAX,
            kept@.len() + dropped + rest@.len() == all.len(),
            rest@ == all.subrange(all.len() - rest@.len(), all.len() as int),
            kept@ == all.subrange(0, all.len() - rest@.len()).filter(
                |e: Option<String>| entry_decodes(e),
            ).map_values(|e: Option<String>| e->0),
        decreases rest@.len(),
    {
        let ghost k = all.len() - rest@.len();
        let e = rest.remove(0);
        proof {
            assert(all.subrange(k, all.len() as int)[0] == all[k]);
            assert(rest@ =~= all.subrange(k + 1, all.len() as int));
            assert(all.subrange(0, k + 1) =~= all.subrange(0, k).push(all[k]));
            lemma_filter_decodes_push(all.subrange(0, k), all[k]);
        }
        match e {
            Some(s) => {
                if json_parse_ok(s.as_str()) {
                    kept.push(s);
                } else {
                    dropped = dropped + 1;
                }
            },
            None => {
                dropped = dropped + 1;
            },
        }
    }
    proof {
        assert(all.subrange(0, all.len() as int) =~= all);
    }
    (kept, dropped)
}

/// How many entries a sequence of batches holds in all.
pub open spec fn batch_entry_count(bs: Seq<Vec<Option<String>>>) -> int
    decreases bs.len(),
{
    if bs.len() == 0 {
        0
    } else {
        batch_entry_count(bs.drop_last()) + bs.last()@.len()
    }
}

/// Gather the decodable payloads of several batches — one batch of entries
/// per live consumer, as the running-jobs listing reads them — in batch
/// order, with the total count of entries dropped as undecodable.
pub fn decode_job_batches(batches: Vec<Vec<Option<String>>>) -> (r: (Vec<String>, usize))
    requires
        batch_entry_count(batches@) <= usize::MAX,
    ensures
        r.0@ == batches@.map_values(|b: Vec<Option<String>>| decoded_entries(b@)).flatten_alt(),
        r.1 + r.0@.len() == batch_entry_count(batches@),
{
    let ghost all = batches@;
    let mut rest = batches;
    let mut kept: Vec<String> = Vec::new();
    let mut dropped: usize = 0;
    proof {
        lemma_batch_count_prefix(all, 0);
        assert(all.subrange(0, 0) =~= Seq::<Vec<Option<String>>>::empty());
        assert(kept@ =~= all.subrange(0, 0).map_values(
            |b: Vec<Option<String>>| decoded_entries(b@),
        ).flatten_alt());
    }
    while rest.len() > 0
        invariant
            batch_entry_count(all) <= usize::MAX,
            rest@.len() <= all.len(),
            rest@ == all.subrange(all.len() - rest@.len(), all.len() as int),
            kept@ == all.subrange(0, all.len() - rest@.len()).map_values(
                |b: Vec<Option<String>>| decoded_entries(b@),
            ).flatten_alt(),
            dropped + kept@.len() == batch_entry_count(
                all.subrange(0, all.len() - rest@.len()),
            ),
            batch_entry_count(all.subrange(0, all.len() - rest@.len())) <= batch_entry_count(all),
        decreases rest@.len(),
    {
        let ghost k = all.len() - rest@.len();
        let batch = rest.remove(0);
        proof {
            assert(all.subrange(k, all.len() as int)[0] == all[k]);
            assert(rest@ =~= all.subrange(k + 1, all.len() as int));
            assert(all.subrange(0, k + 1) =~= all.subrange(0, k).push(all[k]));
            lemma_batch_step(all, k);
            lemma_batch_count_prefix(all, k + 1);
        }
        let (mut decoded, bad) = decode_job_entries(batch);
        proof {
            assert(dropped + bad + kept@.len() + decoded@.len() == batch_entry_count(
                all.subrange(0, k + 1),
            ));
        }
        dropped = dropped + bad;
        kept.append(&mut decoded);
    }
    proof {
        assert(all.subrange(0, all.len() as int) =~= all);
    }
    (kept, dropped)
}

/// A count of entries is never negative.
proof fn lemma_batch_count_nonneg(bs: Seq<Vec<Option<String>>>)
    ensures
        batch_entry_count(bs) >= 0,
    decreases bs.len(),
{
    if bs.len() > 0 {
        lemma_batch_count_nonneg(bs.drop_last());
    }
}

/// A prefix of the batches holds at most as many entries as all of them.
proof fn lemma_batch_count_prefix(bs: Seq<Vec<Option<String>>>, k: int)
    requires
        0 <= k <= bs.len(),
    ensures
        0 <= batch_entry_count(bs.subrange(0, k)) <= batch_entry_count(bs),
    decreases bs.len() - k,
{
    lemma_batch_count_nonneg(bs.subrange(0, k));
    if k == bs.len() {
        assert(bs.subrange(0, k) =~= bs);
    } else {
        lemma_batch_count_prefix(bs, k + 1);
        lemma_batch_step(bs, k);
    }
}

/// One batch extends the gathered payloads at the end, and its entries
/// extend the count.
proof fn lemma_batch_step(all: Seq<Vec<Option<String>>>, k: int)
    requires
        0 <= k < all.len(),
    ensures
        batch_entry_count(all.subrange(0, k + 1)) == batch_entry_count(all.subrange(0, k))
            + all[k]@.len(),
        all.subrange(0, k + 1).map_values(|b: Vec<Option<String>>| decoded_entries(b@))
            .flatten_alt() == all.subrange(0, k).map_values(
            |b: Vec<Option<String>>| decoded_entries(b@),
        ).flatten_alt() + decoded_entries(all[k]@),
{
    let pre = all.subrange(0, k);
    let ext = all.subrange(0, k + 1);
    assert(ext =~= pre.push(all[k]));
    assert(ext.drop_last() =~= pre);
    assert(ext.last() == all[k]);
    let f = |b: Vec<Option<String>>| decoded_entries(b@);
    assert(ext.map_values(f) =~= pre.map_values(f).push(decoded_entries(all[k]@)));
    assert(pre.map_values(f).push(decoded_entries(all[k]@)).drop_last() =~= pre.map_values(f));
}

proof fn lemma_filter_decodes_push(h: Seq<Option<String>>, e: Option<String>)
    ensures
        h.push(e).filter(|x: Option<String>| entry_decodes(x)) == if entry_decodes(e) {
            h.filter(|x: Option<String>| entry_decodes(x)).push(e)
        } else {
            h.filter(|x: Option<String>| entry_decodes(x))
        },
        entry_decodes(e) ==> h.push(e).filter(|x: Option<String>| entry_decodes(x)).map_values(
            |x: Option<String>| x->0,
        ) =~= h.filter(|x: Option<String>| entry_decodes(x)).map_values(|x: Option<String>| x->0)
            .push(e->0),
        !entry_decodes(e) ==> h.push(e).filter(|x: Option<String>| entry_decodes(x)).map_values(
            |x: Option<String>| x->0,
        ) =~= h.filter(|x: Option<String>| entry_decodes(x)).map_values(|x: Option<String>| x->0),
{
    reveal(Seq::filter);
    assert(h.push(e).drop_last() =~= h);
}

} // verus!
