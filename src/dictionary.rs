//! Custom dictionary: vocabulary words that bias recognition, and
//! replacements applied to the final text. The entries are loaded and
//! saved by the caller; these functions compute on them.

use vstd::prelude::*;
use vstd::string::StringExecFns;
use crate::ids::{contains_id, has_id, new_id};
use crate::session::{join_texts, joined};

verus! {

/// Errors of the dictionary store.
pub enum DictionaryError {
    IoError(String),
    SerdeError(String),
    NotFound(String),
}

pub struct DictionaryEntry {
    pub id: String,
    pub phrase: String,
    pub replacement: String,
    pub enabled: bool,
    pub synced: bool,
}

/// The plain content of an entry.
pub type EntryView = (Seq<char>, Seq<char>, Seq<char>, bool, bool);

pub open spec fn ev(e: DictionaryEntry) -> EntryView {
    (e.id@, e.phrase@, e.replacement@, e.enabled, e.synced)
}

pub open spec fn evs(es: Seq<DictionaryEntry>) -> Seq<EntryView> {
    es.map_values(|e: DictionaryEntry| ev(e))
}

fn copy_entry(e: &DictionaryEntry) -> (r: DictionaryEntry)
    ensures
        ev(r) == ev(*e),
{
    DictionaryEntry {
        id: e.id.clone(),
        phrase: e.phrase.clone(),
        replacement: e.replacement.clone(),
        enabled: e.enabled,
        synced: e.synced,
    }
}

/// The entries that `keep` selects, in order.
pub open spec fn kept(es: Seq<EntryView>, keep: spec_fn(EntryView) -> bool) -> Seq<EntryView>
    decreases es.len(),
{
    if es.len() == 0 {
        Seq::empty()
    } else if keep(es.last()) {
        kept(es.drop_last(), keep).push(es.last())
    } else {
        kept(es.drop_last(), keep)
    }
}

/// A copy of all entries.
pub fn get_dictionary(entries: &Vec<DictionaryEntry>) -> (r: Vec<DictionaryEntry>)
    ensures
        evs(r@) == evs(entries@),
{
    let mut out: Vec<DictionaryEntry> = Vec::new();
    let mut i: usize = 0;
    while i < entries.len()
        invariant
            i <= entries@.len(),
            out@.len() == i,
            forall|k: int| 0 <= k < i ==> ev(#[trigger] out@[k]) == ev(entries@[k]),
        decreases entries@.len() - i,
    {
        out.push(copy_entry(&entries[i]));
        i = i + 1;
    }
    assert(evs(out@) =~= evs(entries@));
    out
}

/// Add an enabled, unsynced entry with a fresh identifier.
pub fn add_entry(entries: &mut Vec<DictionaryEntry>, phrase: String, replacement: String) -> (r:
    DictionaryEntry)
    ensures
        r.phrase@ == phrase@,
        r.replacement@ == replacement@,
        r.enabled,
        !r.synced,
        evs(final(entries)@) == evs(old(entries)@).push(ev(r)),
{
    let entry = DictionaryEntry { id: new_id(), phrase, replacement, enabled: true, synced: false };
    entries.push(copy_entry(&entry));
    assert(evs(entries@) =~= evs(old(entries)@).push(ev(entry)));
    entry
}

/// Position of the first entry with `id`, or -1.
pub open spec fn find_id(es: Seq<EntryView>, id: Seq<char>) -> int
    decreases es.len(),
{
    if es.len() == 0 {
        -1
    } else if find_id(es.drop_last(), id) >= 0 {
        find_id(es.drop_last(), id)
    } else if es.last().0 == id {
        es.len() - 1
    } else {
        -1
    }
}

proof fn lemma_find_id_prefix(es: Seq<EntryView>, id: Seq<char>, i: int)
    requires
        0 <= i < es.len(),
        forall|k: int| 0 <= k < i ==> (#[trigger] es[k]).0 != id,
    ensures
        find_id(es.subrange(0, i + 1), id) == (if es[i].0 == id { i } else { -1 }),
    decreases i,
{
    let p = es.subrange(0, i + 1);
    assert(p.drop_last() =~= es.subrange(0, i));
    if i > 0 {
        assert(es[i - 1].0 != id);
        lemma_find_id_prefix(es, id, i - 1);
        assert(es.subrange(0, i) =~= es.subrange(0, i - 1 + 1));
        assert(find_id(es.subrange(0, i), id) == -1);
    } else {
        assert(es.subrange(0, 0).len() == 0);
        assert(find_id(es.subrange(0, 0), id) == -1);
    }
    assert(p.last() == es[i]);
    assert(p.len() - 1 == i);
}

/// Edit the first entry with `id`: new phrase, replacement and flag, and
/// no longer synced. `NotFound` when no entry has that identifier.
pub fn update_entry(
    entries: &mut Vec<DictionaryEntry>,
    id: String,
    phrase: String,
    replacement: String,
    enabled: bool,
) -> (r: Result<DictionaryEntry, DictionaryError>)
    ensures
        find_id(evs(old(entries)@), id@) < 0 ==> r is Err && r->Err_0 is NotFound && evs(
            final(entries)@,
        ) == evs(old(entries)@),
        find_id(evs(old(entries)@), id@) >= 0 ==> {
            let k = find_id(evs(old(entries)@), id@);
            &&& r is Ok
            &&& ev(r->Ok_0) == (id@, phrase@, replacement@, enabled, false)
            &&& evs(final(entries)@) == evs(old(entries)@).update(k, ev(r->Ok_0))
        },
{
    let mut i: usize = 0;
    while i < entries.len()
        invariant
            i <= entries@.len(),
            entries@ == old(entries)@,
            forall|k: int| 0 <= k < i ==> (#[trigger] evs(entries@)[k]).0 != id@,
        decreases entries@.len() - i,
    {
        if entries[i].id == id {
            proof {
                lemma_find_id_prefix(evs(entries@), id@, i as int);
                lemma_find_id_extend(evs(entries@), id@, i as int);
            }
            let updated = DictionaryEntry {
                id: entries[i].id.clone(),
                phrase,
                replacement,
                enabled,
                synced: false,
            };
            entries[i] = copy_entry(&updated);
            assert(evs(entries@) =~= evs(old(entries)@).update(i as int, ev(updated)));
            return Ok(updated);
        }
        i = i + 1;
    }
    proof {
        lemma_find_id_none(evs(entries@), id@);
    }
    Err(DictionaryError::NotFound(id))
}

proof fn lemma_find_id_extend(es: Seq<EntryView>, id: Seq<char>, i: int)
    requires
        0 <= i < es.len(),
        find_id(es.subrange(0, i + 1), id) == i,
    ensures
        find_id(es, id) == i,
    decreases es.len(),
{
    if es.len() == i + 1 {
        assert(es.subrange(0, i + 1) =~= es);
    } else {
        assert(es.drop_last().subrange(0, i + 1) =~= es.subrange(0, i + 1));
        lemma_find_id_extend(es.drop_last(), id, i);
    }
}

proof fn lemma_find_id_none(es: Seq<EntryView>, id: Seq<char>)
    requires
        forall|k: int| 0 <= k < es.len() ==> (#[trigger] es[k]).0 != id,
    ensures
        find_id(es, id) < 0,
    decreases es.len(),
{
    if es.len() > 0 {
        lemma_find_id_none(es.drop_last(), id);
    }
}

/// Remove every entry with `id`; reports whether one was removed.
pub fn remove_entry(entries: &mut Vec<DictionaryEntry>, id: String) -> (r: bool)
    ensures
        evs(final(entries)@) == kept(evs(old(entries)@), |e: EntryView| e.0 != id@),
        r == (final(entries)@.len() < old(entries)@.len()),
{
    let mut out: Vec<DictionaryEntry> = Vec::new();
    let ghost keep = |e: EntryView| e.0 != id@;
    let mut i: usize = 0;
    while i < entries.len()
        invariant
            i <= entries@.len(),
            entries@ == old(entries)@,
            evs(out@) == kept(evs(entries@).subrange(0, i as int), keep),
            out@.len() <= i,
            keep == (|e: EntryView| e.0 != id@),
        decreases entries@.len() - i,
    {
        assert(evs(entries@).subrange(0, i + 1).drop_last() =~= evs(entries@).subrange(0, i as int));
        if entries[i].id != id {
            out.push(copy_entry(&entries[i]));
            assert(evs(out@) =~= evs(out@).drop_last().push(ev(entries@[i as int])));
        }
        i = i + 1;
    }
    assert(evs(entries@).subrange(0, entries@.len() as int) =~= evs(entries@));
    let removed = out.len() < entries.len();
    *entries = out;
    removed
}

/// The enabled entries, in order.
pub fn get_enabled_entries(entries: &Vec<DictionaryEntry>) -> (r: Vec<DictionaryEntry>)
    ensures
        evs(r@) == kept(evs(entries@), |e: EntryView| e.3),
{
    let mut out: Vec<DictionaryEntry> = Vec::new();
    let ghost keep = |e: EntryView| e.3;
    let mut i: usize = 0;
    while i < entries.len()
        invariant
            i <= entries@.len(),
            evs(out@) == kept(evs(entries@).subrange(0, i as int), keep),
            keep == (|e: EntryView| e.3),
        decreases entries@.len() - i,
    {
        assert(evs(entries@).subrange(0, i + 1).drop_last() =~= evs(entries@).subrange(0, i as int));
        if entries[i].enabled {
            out.push(copy_entry(&entries[i]));
            assert(evs(out@) =~= evs(out@).drop_last().push(ev(entries@[i as int])));
        }
        i = i + 1;
    }
    assert(evs(entries@).subrange(0, entries@.len() as int) =~= evs(entries@));
    out
}

/// Phrases of the enabled vocabulary entries (phrase equal to replacement).
pub open spec fn vocabulary(es: Seq<DictionaryEntry>) -> Seq<String>
    decreases es.len(),
{
    if es.len() == 0 {
        Seq::empty()
    } else if es.last().enabled && es.last().phrase@ == es.last().replacement@ {
        vocabulary(es.drop_last()).push(es.last().phrase)
    } else {
        vocabulary(es.drop_last())
    }
}

/// The vocabulary words joined with ", " as a prompt for recognition, or
/// `None` when there are none.
pub fn get_vocabulary_prompt(entries: &Vec<DictionaryEntry>) -> (r: Option<String>)
    ensures
        vocabulary(entries@).len() == 0 ==> r is None,
        vocabulary(entries@).len() > 0 ==> r is Some && r->Some_0@ == joined(
            vocabulary(entries@),
            ", "@,
        ),
{
    let mut words: Vec<String> = Vec::new();
    let mut i: usize = 0;
    while i < entries.len()
        invariant
            i <= entries@.len(),
            words@.len() == vocabulary(entries@.subrange(0, i as int)).len(),
            forall|k: int|
                0 <= k < words@.len() ==> (#[trigger] words@[k])@ == vocabulary(
                    entries@.subrange(0, i as int),
                )[k]@,
        decreases entries@.len() - i,
    {
        assert(entries@.subrange(0, i + 1).drop_last() =~= entries@.subrange(0, i as int));
        if entries[i].enabled && entries[i].phrase == entries[i].replacement {
            words.push(entries[i].phrase.clone());
        }
        i = i + 1;
    }
    assert(entries@.subrange(0, entries@.len() as int) =~= entries@);
    if words.len() == 0 {
        None
    } else {
        let r = join_texts(&words, ", ");
        proof {
            lemma_joined_views(words@, vocabulary(entries@), ", "@);
        }
        Some(r)
    }
}

proof fn lemma_joined_views(a: Seq<String>, b: Seq<String>, sep: Seq<char>)
    requires
        a.len() == b.len(),
        forall|k: int| 0 <= k < a.len() ==> (#[trigger] a[k])@ == b[k]@,
    ensures
        joined(a, sep) == joined(b, sep),
    decreases a.len(),
{
    if a.len() > 1 {
        lemma_joined_views(a.drop_last(), b.drop_last(), sep);
    }
}

/// Mark the entries whose identifier is in `ids` as synced.
pub fn mark_synced(entries: &mut Vec<DictionaryEntry>, ids: &[String])
    ensures
        final(entries)@.len() == old(entries)@.len(),
        forall|k: int|
            0 <= k < final(entries)@.len() ==> {
                let o = ev(old(entries)@[k]);
                ev(#[trigger] final(entries)@[k]) == (o.0, o.1, o.2, o.3, o.4 || has_id(
                    ids@,
                    o.0,
                ))
            },
{
    let mut i: usize = 0;
    while i < entries.len()
        invariant
            i <= entries@.len(),
            entries@.len() == old(entries)@.len(),
            forall|k: int|
                0 <= k < entries@.len() ==> {
                    let o = ev(old(entries)@[k]);
                    ev(#[trigger] entries@[k]) == if k < i {
                        (o.0, o.1, o.2, o.3, o.4 || has_id(ids@, o.0))
                    } else {
                        o
                    }
                },
        decreases entries@.len() - i,
    {
        if contains_id(ids, &entries[i].id) {
            let mut e = copy_entry(&entries[i]);
            e.synced = true;
            entries[i] = e;
        }
        i = i + 1;
    }
}


/// What `regex::escape` makes of a phrase: a pattern matching it literally.
pub uninterp spec fn escaped(s: Seq<char>) -> Seq<char>;

/// What compiling `pattern` with the `regex` crate and replacing every
/// match in `text` by `replacement` gives; `None` when the pattern does not
/// compile.
pub uninterp spec fn regex_replaced(
    pattern: Seq<char>,
    text: Seq<char>,
    replacement: Seq<char>,
) -> Option<Seq<char>>;

/// Relies on `regex::escape`: the result depends on the phrase alone.
#[verifier::external_body]
fn escape_phrase(phrase: &str) -> (r: String)
    ensures
        r@ == escaped(phrase@),
{
    regex::escape(phrase)
}

/// Relies on `regex::Regex::new` and `Regex::replace_all`: the result
/// depends on the pattern, the text and the replacement alone.
#[verifier::external_body]
fn replace_all_matches(pattern: &str, text: &str, replacement: &str) -> (r: Option<String>)
    ensures
        match r {
            Some(t) => regex_replaced(pattern@, text@, replacement@) == Some(t@),
            None => regex_replaced(pattern@, text@, replacement@) is None,
        },
{
    match regex::Regex::new(pattern) {
        Ok(re) => Some(re.replace_all(text, replacement).into_owned()),
        Err(_) => None,
    }
}

/// Case-insensitive whole-word pattern for a phrase.
pub open spec fn word_pattern(phrase: Seq<char>) -> Seq<char> {
    "(?i)\\b"@ + escaped(phrase) + "\\b"@
}

/// The text after the replacements of the enabled entries, applied in
/// order; an entry whose pattern does not compile is skipped.
pub open spec fn replaced_text(text: Seq<char>, es: Seq<DictionaryEntry>) -> Seq<char>
    decreases es.len(),
{
    if es.len() == 0 {
        text
    } else {
        let prev = replaced_text(text, es.drop_last());
        let e = es.last();
        if e.enabled {
            match regex_replaced(word_pattern(e.phrase@), prev, e.replacement@) {
                Some(t) => t,
                None => prev,
            }
        } else {
            prev
        }
    }
}

/// Apply the enabled entries' replacements to the final text:
/// case-insensitive, on word boundaries.
pub fn apply_replacements(text: &str, entries: &Vec<DictionaryEntry>) -> (r: String)
    ensures
        r@ == replaced_text(text@, entries@),
{
    let mut result = text.to_string();
    let mut i: usize = 0;
    while i < entries.len()
        invariant
            i <= entries@.len(),
            result@ == replaced_text(text@, entries@.subrange(0, i as int)),
        decreases entries@.len() - i,
    {
        assert(entries@.subrange(0, i + 1).drop_last() =~= entries@.subrange(0, i as int));
        let e = &entries[i];
        if e.enabled {
            let mut pattern = "(?i)\\b".to_string();
            let esc = escape_phrase(e.phrase.as_str());
            pattern.append(esc.as_str());
            pattern.append("\\b");
            match replace_all_matches(pattern.as_str(), result.as_str(), e.replacement.as_str()) {
                Some(t) => {
                    result = t;
                },
                None => {},
            }
        }
        i = i + 1;
    }
    assert(entries@.subrange(0, entries@.len() as int) =~= entries@);
    result
}

} // verus!
