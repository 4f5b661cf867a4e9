//! Transcription history: newest first, bounded. The entries are loaded
//! and saved by the caller; these functions compute on them.

use vstd::prelude::*;
use crate::ids::{contains_id, has_id, new_id, now_rfc3339};

verus! {

/// Errors of the history store.
pub enum HistoryError {
    IoError(String),
    SerdeError(String),
}

pub struct TranscriptionEntry {
    pub id: String,
    pub text: String,
    pub word_count: u32,
    pub duration_ms: u32,
    pub timestamp: String,
    pub synced: bool,
}

/// Most entries kept.
pub const MAX_ENTRIES: usize = 500;

/// Page size when none is asked for.
pub const DEFAULT_LIMIT: u32 = 50;

/// The plain content of an entry.
pub type HistoryView = (Seq<char>, Seq<char>, u32, u32, Seq<char>, bool);

pub open spec fn hv(e: TranscriptionEntry) -> HistoryView {
    (e.id@, e.text@, e.word_count, e.duration_ms, e.timestamp@, e.synced)
}

pub open spec fn hvs(es: Seq<TranscriptionEntry>) -> Seq<HistoryView> {
    es.map_values(|e: TranscriptionEntry| hv(e))
}

fn copy_entry(e: &TranscriptionEntry) -> (r: TranscriptionEntry)
    ensures
        hv(r) == hv(*e),
{
    TranscriptionEntry {
        id: e.id.clone(),
        text: e.text.clone(),
        word_count: e.word_count,
        duration_ms: e.duration_ms,
        timestamp: e.timestamp.clone(),
        synced: e.synced,
    }
}

/// Record a transcription at the front, with a fresh identifier and the
/// current time, keeping at most `MAX_ENTRIES`.
pub fn add_entry(
    entries: &mut Vec<TranscriptionEntry>,
    text: &str,
    word_count: u32,
    duration_ms: u32,
) -> (r: TranscriptionEntry)
    ensures
        r.text@ == text@,
        r.word_count == word_count,
        r.duration_ms == duration_ms,
        !r.synced,
        hvs(final(entries)@) == (seq![hv(r)] + hvs(old(entries)@)).subrange(
            0,
            vstd::math::min(old(entries)@.len() + 1int, MAX_ENTRIES as int),
        ),
{
    let entry = TranscriptionEntry {
        id: new_id(),
        text: text.to_string(),
        word_count,
        duration_ms,
        timestamp: now_rfc3339(),
        synced: false,
    };
    entries.insert(0, copy_entry(&entry));
    if entries.len() > MAX_ENTRIES {
        entries.truncate(MAX_ENTRIES);
    }
    assert(hvs(entries@) =~= (seq![hv(entry)] + hvs(old(entries)@)).subrange(
        0,
        vstd::math::min(old(entries)@.len() + 1int, MAX_ENTRIES as int),
    ));
    entry
}

/// One page: up to `limit` entries (default 50) from `offset` (default 0).
pub fn get_history(entries: &Vec<TranscriptionEntry>, limit: Option<u32>, offset: Option<u32>) -> (r:
    Vec<TranscriptionEntry>)
    ensures
        ({
            let off = match offset {
                Some(o) => o as int,
                None => 0,
            };
            let lim = match limit {
                Some(l) => l as int,
                None => DEFAULT_LIMIT as int,
            };
            let a = vstd::math::min(off, entries@.len() as int);
            let b = vstd::math::min(a + lim, entries@.len() as int);
            hvs(r@) == hvs(entries@).subrange(a, b)
        }),
{
    let off = match offset {
        Some(o) => o as usize,
        None => 0,
    };
    let lim = match limit {
        Some(l) => l as usize,
        None => DEFAULT_LIMIT as usize,
    };
    let a = if off < entries.len() {
        off
    } else {
        entries.len()
    };
    let b = if entries.len() - a > lim {
        a + lim
    } else {
        entries.len()
    };
    let mut out: Vec<TranscriptionEntry> = Vec::new();
    let mut i = a;
    while i < b
        invariant
            a <= i <= b <= entries@.len(),
            out@.len() == i - a,
            forall|k: int| 0 <= k < i - a ==> hv(#[trigger] out@[k]) == hv(entries@[a + k]),
        decreases b - i,
    {
        out.push(copy_entry(&entries[i]));
        i = i + 1;
    }
    assert(hvs(out@) =~= hvs(entries@).subrange(a as int, b as int));
    out
}

/// The first entry with `id`.
pub fn get_entry(entries: &Vec<TranscriptionEntry>, id: &str) -> (r: Option<TranscriptionEntry>)
    ensures
        match r {
            Some(e) => exists|k: int|
                0 <= k < entries@.len() && hv(e) == hv(#[trigger] entries@[k]) && e.id@ == id@
                    && forall|j: int| 0 <= j < k ==> (#[trigger] entries@[j]).id@ != id@,
            None => forall|k: int| 0 <= k < entries@.len() ==> (#[trigger] entries@[k]).id@ != id@,
        },
{
    let key = id.to_string();
    let mut i: usize = 0;
    while i < entries.len()
        invariant
            i <= entries@.len(),
            key@ == id@,
            forall|k: int| 0 <= k < i ==> (#[trigger] entries@[k]).id@ != id@,
        decreases entries@.len() - i,
    {
        if entries[i].id == key {
            let e = copy_entry(&entries[i]);
            assert(hv(e) == hv(entries@[i as int]));
            return Some(e);
        }
        i = i + 1;
    }
    None
}

/// The entries whose identifier is not `id`, in order.
pub open spec fn without_id(es: Seq<HistoryView>, id: Seq<char>) -> Seq<HistoryView>
    decreases es.len(),
{
    if es.len() == 0 {
        Seq::empty()
    } else if es.last().0 != id {
        without_id(es.drop_last(), id).push(es.last())
    } else {
        without_id(es.drop_last(), id)
    }
}

/// Remove every entry with `id`; reports whether one was removed.
pub fn delete_entry(entries: &mut Vec<TranscriptionEntry>, id: &str) -> (r: bool)
    ensures
        hvs(final(entries)@) == without_id(hvs(old(entries)@), id@),
        r == (final(entries)@.len() < old(entries)@.len()),
{
    let key = id.to_string();
    let mut out: Vec<TranscriptionEntry> = Vec::new();
    let mut i: usize = 0;
    while i < entries.len()
        invariant
            i <= entries@.len(),
            key@ == id@,
            entries@ == old(entries)@,
            hvs(out@) == without_id(hvs(entries@).subrange(0, i as int), id@),
            out@.len() <= i,
        decreases entries@.len() - i,
    {
        assert(hvs(entries@).subrange(0, i + 1).drop_last() =~= hvs(entries@).subrange(0, i as int));
        if entries[i].id != key {
            out.push(copy_entry(&entries[i]));
            assert(hvs(out@) =~= hvs(out@).drop_last().push(hv(entries@[i as int])));
        }
        i = i + 1;
    }
    assert(hvs(entries@).subrange(0, entries@.len() as int) =~= hvs(entries@));
    let removed = out.len() < entries.len();
    *entries = out;
    removed
}

/// Remove all entries.
pub fn clear_history(entries: &mut Vec<TranscriptionEntry>)
    ensures
        final(entries)@.len() == 0,
{
    entries.clear();
}

/// Number of entries.
pub fn get_total_count(entries: &Vec<TranscriptionEntry>) -> (r: usize)
    ensures
        r == entries@.len(),
{
    entries.len()
}

/// Mark the entries whose identifier is in `ids` as synced.
pub fn mark_synced(entries: &mut Vec<TranscriptionEntry>, ids: &[String])
    ensures
        final(entries)@.len() == old(entries)@.len(),
        forall|k: int|
            0 <= k < final(entries)@.len() ==> {
                let o = hv(old(entries)@[k]);
                hv(#[trigger] final(entries)@[k]) == (o.0, o.1, o.2, o.3, o.4, o.5 || has_id(
                    ids@,
                    o.0,
                ))
            },
{
    let mut i: usize = 0;
    while i < entries.len()
        invariant
            i <= entries@.len(),
            entries@.len() == old(entries)@.len(),
            forall|k: int|
                0 <= k < entries@.len() ==> {
                    let o = hv(old(entries)@[k]);
                    hv(#[trigger] entries@[k]) == if k < i {
                        (o.0, o.1, o.2, o.3, o.4, o.5 || has_id(ids@, o.0))
                    } else {
                        o
                    }
                },
        decreases entries@.len() - i,
    {
        if contains_id(ids, &entries[i].id) {
            let mut e = copy_entry(&entries[i]);
            e.synced = true;
            entries[i] = e;
        }
        i = i + 1;
    }
}

} // verus!
