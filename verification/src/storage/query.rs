//! Listing entries: which entries a query selects, in which order they
//! come, and how many of them.

use vstd::prelude::*;
use vstd::string::StrSliceExecFns;
use crate::feed::types::clone_opt;
use crate::storage::models::{EntryRecord, SourceRecord};
use crate::storage::store::{
    find_source_by_id, lemma_source_by_id, limited, source_by_id, StoredEntry,
};
use crate::text::{chars_of, trim, trimmed};

verus! {

/// The most entries a listing holds where the caller names no limit.
pub const DEFAULT_ENTRY_LIMIT: i64 = 300;

/// The code of a character with the ASCII capitals brought to lower case.
pub open spec fn folded(c: char) -> u32 {
    if 'A' <= c <= 'Z' {
        (c as u32 + 32) as u32
    } else {
        c as u32
    }
}

/// `text` matches `pattern`: `%` stands for any run of characters, `_`
/// for any one character, and any other character for itself, ASCII
/// letters without regard to case.
pub open spec fn like(pattern: Seq<char>, text: Seq<char>) -> bool
    decreases pattern.len() + text.len(),
{
    if pattern.len() == 0 {
        text.len() == 0
    } else if pattern[0] == '%' {
        like(pattern.drop_first(), text) || (text.len() > 0 && like(pattern, text.drop_first()))
    } else if text.len() == 0 {
        false
    } else if pattern[0] == '_' || folded(pattern[0]) == folded(text[0]) {
        like(pattern.drop_first(), text.drop_first())
    } else {
        false
    }
}

/// `text` holds `keyword` somewhere, read as a pattern.
pub open spec fn holds_keyword(text: Seq<char>, keyword: Seq<char>) -> bool {
    like(seq!['%'] + keyword + seq!['%'], text)
}

fn fold(c: char) -> (r: u32)
    ensures
        r == folded(c),
{
    if 'A' <= c && c <= 'Z' {
        c as u32 + 32
    } else {
        c as u32
    }
}

fn like_from(pattern: &Vec<char>, from: usize, text: &Vec<char>, start: usize) -> (r: bool)
    requires
        from <= pattern.len(),
        start <= text.len(),
    ensures
        r == like(pattern@.skip(from as int), text@.skip(start as int)),
    decreases pattern.len() - from,
{
    let mut p: usize = from;
    let mut t: usize = start;
    while p < pattern.len() && pattern[p] != '%'
        invariant
            from <= p <= pattern.len(),
            start <= t <= text.len(),
            like(pattern@.skip(from as int), text@.skip(start as int)) == like(
                pattern@.skip(p as int),
                text@.skip(t as int),
            ),
        decreases pattern.len() - p,
    {
        proof {
            assert(pattern@.skip(p as int)[0] == pattern@[p as int]);
            assert(pattern@.skip(p as int).drop_first() =~= pattern@.skip(p + 1));
            if t < text.len() {
                assert(text@.skip(t as int)[0] == text@[t as int]);
                assert(text@.skip(t as int).drop_first() =~= text@.skip(t + 1));
            }
        }
        if t == text.len() {
            return false;
        }
        if !(pattern[p] == '_' || fold(pattern[p]) == fold(text[t])) {
            return false;
        }
        p += 1;
        t += 1;
    }
    if p == pattern.len() {
        return t == text.len();
    }
    let mut k: usize = t;
    loop
        invariant
            from <= p < pattern.len(),
            pattern@[p as int] == '%',
            t <= k <= text.len(),
            like(pattern@.skip(from as int), text@.skip(start as int)) == like(
                pattern@.skip(p as int),
                text@.skip(t as int),
            ),
            like(pattern@.skip(p as int), text@.skip(t as int)) == like(
                pattern@.skip(p as int),
                text@.skip(k as int),
            ),
        decreases text.len() - k,
    {
        proof {
            assert(pattern@.skip(p as int)[0] == pattern@[p as int]);
            assert(pattern@.skip(p as int).drop_first() =~= pattern@.skip(p + 1));
            if k < text.len() {
                assert(text@.skip(k as int).drop_first() =~= text@.skip(k + 1));
            }
        }
        if like_from(pattern, p + 1, text, k) {
            return true;
        }
        if k == text.len() {
            return false;
        }
        k += 1;
    }
}

/// Tells whether `text` holds `keyword`, read as a pattern.
pub fn contains_keyword(text: &str, keyword: &str) -> (r: bool)
    ensures
        r == holds_keyword(text@, keyword@),
{
    let word = chars_of(keyword);
    let mut pattern: Vec<char> = Vec::new();
    pattern.push('%');
    let mut i: usize = 0;
    while i < word.len()
        invariant
            i <= word.len(),
            pattern@ == seq!['%'] + word@.take(i as int),
        decreases word.len() - i,
    {
        pattern.push(word[i]);
        assert(word@.take(i + 1) =~= word@.take(i as int).push(word@[i as int]));
        i += 1;
    }
    pattern.push('%');
    assert(word@.take(word.len() as int) =~= word@);
    assert(pattern@ =~= seq!['%'] + keyword@ + seq!['%']);
    let chars = chars_of(text);
    assert(pattern@.skip(0) =~= pattern@);
    assert(chars@.skip(0) =~= chars@);
    like_from(&pattern, 0, &chars, 0)
}

/// `a` comes before `b` in the order of the dictionary, character codes
/// compared.
pub open spec fn text_before(a: Seq<char>, b: Seq<char>) -> bool
    decreases a.len(),
{
    if b.len() == 0 {
        false
    } else if a.len() == 0 {
        true
    } else if a[0] != b[0] {
        (a[0] as u32) < (b[0] as u32)
    } else {
        text_before(a.drop_first(), b.drop_first())
    }
}

fn chars_before(x: &Vec<char>, y: &Vec<char>) -> (r: bool)
    ensures
        r == text_before(x@, y@),
{
    let mut i: usize = 0;
    assert(x@.skip(0) =~= x@);
    assert(y@.skip(0) =~= y@);
    loop
        invariant
            i <= x.len(),
            i <= y.len(),
            text_before(x@, y@) == text_before(x@.skip(i as int), y@.skip(i as int)),
        decreases x.len() - i,
    {
        if i == y.len() {
            return false;
        }
        if i == x.len() {
            return true;
        }
        assert(x@.skip(i as int)[0] == x@[i as int]);
        assert(y@.skip(i as int)[0] == y@[i as int]);
        if x[i] != y[i] {
            return (x[i] as u32) < (y[i] as u32);
        }
        assert(x@.skip(i as int).drop_first() =~= x@.skip(i + 1));
        assert(y@.skip(i as int).drop_first() =~= y@.skip(i + 1));
        i += 1;
    }
}

/// Tells whether `a` comes before `b`.
pub fn is_text_before(a: &str, b: &str) -> (r: bool)
    ensures
        r == text_before(a@, b@),
{
    let x = chars_of(a);
    let y = chars_of(b);
    chars_before(&x, &y)
}

/// The text by which entries are ordered: the time of publication, or the
/// time of creation where that is missing.
pub open spec fn sort_key(entry: StoredEntry) -> Seq<char> {
    match entry.published_at {
        Some(p) => p@,
        None => entry.created_at@,
    }
}

/// The entry has the keyword in its title or in its summary.
pub open spec fn has_keyword(entry: StoredEntry, keyword: Seq<char>) -> bool {
    ||| keyword.len() == 0
    ||| holds_keyword(entry.title@, keyword)
    ||| holds_keyword(
        match entry.summary {
            Some(s) => s@,
            None => Seq::empty(),
        },
        keyword,
    )
}

/// The entry is what the query asks for: of the source asked for, with the
/// keyword, unread where only unread entries are wanted, and of a source
/// that is stored.
pub open spec fn is_selected(
    entry: StoredEntry,
    sources: Seq<SourceRecord>,
    source_id: Option<i64>,
    keyword: Seq<char>,
    unread_only: bool,
) -> bool {
    &&& source_by_id(sources, entry.source_id) is Some
    &&& match source_id {
        Some(id) => entry.source_id == id,
        None => true,
    }
    &&& has_keyword(entry, keyword)
    &&& unread_only ==> entry.is_read == 0
}

/// The entries that the query selects, in the order of the table.
pub open spec fn selected(
    entries: Seq<StoredEntry>,
    sources: Seq<SourceRecord>,
    source_id: Option<i64>,
    keyword: Seq<char>,
    unread_only: bool,
) -> Seq<StoredEntry>
    decreases entries.len(),
{
    if entries.len() == 0 {
        Seq::empty()
    } else {
        let before = selected(entries.drop_last(), sources, source_id, keyword, unread_only);
        if is_selected(entries.last(), sources, source_id, keyword, unread_only) {
            before.push(entries.last())
        } else {
            before
        }
    }
}

/// `sorted` with `entry` put in before the first entry whose key comes
/// before its own.
pub open spec fn placed(sorted: Seq<StoredEntry>, entry: StoredEntry) -> Seq<StoredEntry>
    decreases sorted.len(),
{
    if sorted.len() == 0 {
        seq![entry]
    } else if text_before(sort_key(sorted[0]), sort_key(entry)) {
        seq![entry] + sorted
    } else {
        seq![sorted[0]] + placed(sorted.drop_first(), entry)
    }
}

/// The entries with the latest key first; entries with one key keep the
/// order they had.
pub open spec fn newest_first(entries: Seq<StoredEntry>) -> Seq<StoredEntry>
    decreases entries.len(),
{
    if entries.len() == 0 {
        Seq::empty()
    } else {
        placed(newest_first(entries.drop_last()), entries.last())
    }
}

/// What the query lists: the entries it selects, the latest first, and of
/// those no more than the limit.
pub open spec fn listed(
    entries: Seq<StoredEntry>,
    sources: Seq<SourceRecord>,
    source_id: Option<i64>,
    keyword: Seq<char>,
    unread_only: bool,
    limit: i64,
) -> Seq<StoredEntry> {
    limited(newest_first(selected(entries, sources, source_id, keyword, unread_only)), limit)
}

proof fn lemma_front_has(x: StoredEntry, s: Seq<StoredEntry>, e: StoredEntry)
    ensures
        (seq![x] + s).contains(e) <==> (e == x || s.contains(e)),
{
    let out = seq![x] + s;
    if out.contains(e) {
        let k = choose|k: int| 0 <= k < out.len() && out[k] == e;
        if k > 0 {
            assert(s[k - 1] == e);
        }
    }
    if e == x {
        assert(out[0] == e);
    }
    if s.contains(e) {
        let k = choose|k: int| 0 <= k < s.len() && s[k] == e;
        assert(out[k + 1] == e);
    }
}

proof fn lemma_back_has(s: Seq<StoredEntry>, x: StoredEntry, e: StoredEntry)
    ensures
        s.push(x).contains(e) <==> (e == x || s.contains(e)),
{
    let out = s.push(x);
    if out.contains(e) {
        let k = choose|k: int| 0 <= k < out.len() && out[k] == e;
        if k < s.len() {
            assert(s[k] == e);
        }
    }
    if e == x {
        assert(out[s.len() as int] == e);
    }
    if s.contains(e) {
        let k = choose|k: int| 0 <= k < s.len() && s[k] == e;
        assert(out[k] == e);
    }
}

/// Placing an entry adds that entry and no other.
pub proof fn lemma_placed(sorted: Seq<StoredEntry>, entry: StoredEntry, e: StoredEntry)
    ensures
        placed(sorted, entry).len() == sorted.len() + 1,
        placed(sorted, entry).contains(e) <==> (e == entry || sorted.contains(e)),
    decreases sorted.len(),
{
    if sorted.len() == 0 {
        lemma_front_has(entry, sorted, e);
        assert(seq![entry] + sorted =~= seq![entry]);
    } else if text_before(sort_key(sorted[0]), sort_key(entry)) {
        lemma_front_has(entry, sorted, e);
    } else {
        let rest = sorted.drop_first();
        lemma_placed(rest, entry, e);
        lemma_front_has(sorted[0], placed(rest, entry), e);
        lemma_front_has(sorted[0], rest, e);
        assert(seq![sorted[0]] + rest =~= sorted);
    }
}

/// Ordering neither adds nor loses an entry.
pub proof fn lemma_newest_first(entries: Seq<StoredEntry>, e: StoredEntry)
    ensures
        newest_first(entries).len() == entries.len(),
        newest_first(entries).contains(e) <==> entries.contains(e),
    decreases entries.len(),
{
    if entries.len() > 0 {
        let rest = entries.drop_last();
        lemma_newest_first(rest, e);
        lemma_placed(newest_first(rest), entries.last(), e);
        lemma_back_has(rest, entries.last(), e);
        assert(rest.push(entries.last()) =~= entries);
    }
}

/// An entry is selected exactly when it is an entry of the table that the
/// query asks for.
pub proof fn lemma_selected(
    entries: Seq<StoredEntry>,
    sources: Seq<SourceRecord>,
    source_id: Option<i64>,
    keyword: Seq<char>,
    unread_only: bool,
    e: StoredEntry,
)
    ensures
        selected(entries, sources, source_id, keyword, unread_only).len() <= entries.len(),
        selected(entries, sources, source_id, keyword, unread_only).contains(e) <==> (
        entries.contains(e) && is_selected(e, sources, source_id, keyword, unread_only)),
    decreases entries.len(),
{
    if entries.len() > 0 {
        let rest = entries.drop_last();
        let before = selected(rest, sources, source_id, keyword, unread_only);
        lemma_selected(rest, sources, source_id, keyword, unread_only, e);
        lemma_back_has(rest, entries.last(), e);
        lemma_back_has(before, entries.last(), e);
        assert(rest.push(entries.last()) =~= entries);
    }
}

/// A query with a keyword for unread entries lists entries that meet both
/// conditions and no others, and never more than the limit: as many as the
/// limit where at least so many entries meet the conditions, else all that
/// do.
pub proof fn lemma_listing_meets_conditions_and_limit(
    entries: Seq<StoredEntry>,
    sources: Seq<SourceRecord>,
    source_id: Option<i64>,
    keyword: Seq<char>,
    unread_only: bool,
    limit: i64,
)
    ensures
        ({
            let all = selected(entries, sources, source_id, keyword, unread_only);
            let out = listed(entries, sources, source_id, keyword, unread_only, limit);
            &&& forall|i: int|
                0 <= i < out.len() ==> entries.contains(#[trigger] out[i]) && has_keyword(
                    out[i],
                    keyword,
                ) && (unread_only ==> out[i].is_read == 0) && (source_id matches Some(id)
                    ==> out[i].source_id == id)
            &&& out.len() == if limit < 0 || all.len() <= limit {
                all.len()
            } else {
                limit as nat
            }
        }),
{
    let all = selected(entries, sources, source_id, keyword, unread_only);
    let sorted = newest_first(all);
    let out = listed(entries, sources, source_id, keyword, unread_only, limit);
    lemma_selected(entries, sources, source_id, keyword, unread_only, arbitrary());
    lemma_newest_first(all, arbitrary());
    assert forall|i: int| 0 <= i < out.len() implies entries.contains(#[trigger] out[i])
        && has_keyword(out[i], keyword) && (unread_only ==> out[i].is_read == 0) && (
    source_id matches Some(id) ==> out[i].source_id == id) by {
        assert(sorted[i] == out[i]);
        assert(sorted.contains(out[i]));
        lemma_newest_first(all, out[i]);
        lemma_selected(entries, sources, source_id, keyword, unread_only, out[i]);
    }
}

/// The place in `sorted` at which `placed` puts an entry with the key
/// `key`.
proof fn lemma_placed_at(sorted: Seq<StoredEntry>, entry: StoredEntry, at: int)
    requires
        0 <= at <= sorted.len(),
        forall|k: int|
            0 <= k < at ==> !text_before(sort_key(#[trigger] sorted[k]), sort_key(entry)),
        at == sorted.len() || text_before(sort_key(sorted[at]), sort_key(entry)),
    ensures
        placed(sorted, entry) == sorted.insert(at, entry),
    decreases sorted.len(),
{
    if sorted.len() == 0 {
        assert(sorted.insert(0, entry) =~= seq![entry]);
    } else if at == 0 {
        assert(sorted.insert(0, entry) =~= seq![entry] + sorted);
    } else {
        let rest = sorted.drop_first();
        assert(!text_before(sort_key(sorted[0]), sort_key(entry)));
        assert forall|k: int| 0 <= k < at - 1 implies !text_before(
            sort_key(#[trigger] rest[k]),
            sort_key(entry),
        ) by {
            assert(rest[k] == sorted[k + 1]);
        }
        lemma_placed_at(rest, entry, at - 1);
        assert(sorted.insert(at, entry) =~= seq![sorted[0]] + rest.insert(at - 1, entry));
    }
}

/// The entry as a query hands it out: with the title of its source.
pub open spec fn record_of(entry: StoredEntry, sources: Seq<SourceRecord>) -> EntryRecord {
    EntryRecord {
        id: entry.id,
        source_id: entry.source_id,
        source_title: sources[source_by_id(sources, entry.source_id)->Some_0].title,
        guid: entry.guid,
        link: entry.link,
        title: entry.title,
        translated_title: entry.translated_title,
        summary: entry.summary,
        content: entry.content,
        published_at: entry.published_at,
        is_read: entry.is_read,
        is_starred: entry.is_starred,
        created_at: entry.created_at,
    }
}

/// The keyword of a search: the search text trimmed, or nothing.
pub open spec fn keyword_of(search: Option<Seq<char>>) -> Seq<char> {
    match search {
        Some(s) => trimmed(s),
        None => trimmed(Seq::empty()),
    }
}

fn sort_key_of(entry: &StoredEntry) -> (r: &String)
    ensures
        r@ == sort_key(*entry),
{
    match &entry.published_at {
        Some(p) => p,
        None => &entry.created_at,
    }
}

fn selects(
    entry: &StoredEntry,
    sources: &Vec<SourceRecord>,
    source_id: Option<i64>,
    keyword: &str,
    unread_only: bool,
) -> (r: bool)
    ensures
        r == is_selected(*entry, sources@, source_id, keyword@, unread_only),
{
    if find_source_by_id(sources, entry.source_id).is_none() {
        return false;
    }
    match source_id {
        Some(id) => {
            if entry.source_id != id {
                return false;
            }
        },
        None => {},
    }
    if unread_only && entry.is_read != 0 {
        return false;
    }
    if keyword.unicode_len() == 0 {
        return true;
    }
    if contains_keyword(entry.title.as_str(), keyword) {
        return true;
    }
    match &entry.summary {
        Some(s) => contains_keyword(s.as_str(), keyword),
        None => {
            proof {
                reveal_strlit("");
                assert(""@ =~= Seq::<char>::empty());
            }
            contains_keyword("", keyword)
        },
    }
}

/// Selects and orders the entries that a query asks for.
pub fn order_entries(
    entries: &Vec<StoredEntry>,
    sources: &Vec<SourceRecord>,
    source_id: Option<i64>,
    keyword: &str,
    unread_only: bool,
) -> (r: Vec<StoredEntry>)
    ensures
        r@ == newest_first(selected(entries@, sources@, source_id, keyword@, unread_only)),
{
    let mut sorted: Vec<StoredEntry> = Vec::new();
    let mut keys: Vec<Vec<char>> = Vec::new();
    let mut i: usize = 0;
    assert(entries@.take(0) =~= Seq::<StoredEntry>::empty());
    while i < entries.len()
        invariant
            i <= entries.len(),
            keys.len() == sorted.len(),
            forall|k: int| 0 <= k < keys.len() ==> (#[trigger] keys@[k])@ == sort_key(sorted@[k]),
            sorted@ == newest_first(
                selected(entries@.take(i as int), sources@, source_id, keyword@, unread_only),
            ),
        decreases entries.len() - i,
    {
        proof {
            let now = entries@.take(i + 1);
            assert(now.drop_last() =~= entries@.take(i as int));
            assert(now.last() == entries@[i as int]);
        }
        let entry = &entries[i];
        if selects(entry, sources, source_id, keyword, unread_only) {
            let key = chars_of(sort_key_of(entry).as_str());
            let mut at: usize = 0;
            while at < sorted.len() && !chars_before(&keys[at], &key)
                invariant
                    at <= sorted.len() == keys.len(),
                    key@ == sort_key(*entry),
                    forall|k: int|
                        0 <= k < keys.len() ==> (#[trigger] keys@[k])@ == sort_key(sorted@[k]),
                    forall|k: int|
                        0 <= k < at ==> !text_before(
                            sort_key(#[trigger] sorted@[k]),
                            sort_key(*entry),
                        ),
                decreases sorted.len() - at,
            {
                at += 1;
            }
            proof {
                let chosen = selected(
                    entries@.take(i as int),
                    sources@,
                    source_id,
                    keyword@,
                    unread_only,
                );
                assert(chosen.push(*entry).drop_last() =~= chosen);
                lemma_placed_at(sorted@, *entry, at as int);
            }
            sorted.insert(at, entry.clone());
            keys.insert(at, key);
        }
        i += 1;
    }
    assert(entries@.take(entries.len() as int) =~= entries@);
    sorted
}

/// Lists the entries that a query asks for: those that `listed` names, each
/// with the title of its source.
pub fn select_entries(
    entries: &Vec<StoredEntry>,
    sources: &Vec<SourceRecord>,
    source_id: Option<i64>,
    search: Option<&str>,
    unread_only: bool,
    limit: i64,
) -> (r: Vec<EntryRecord>)
    ensures
        ({
            let out = listed(
                entries@,
                sources@,
                source_id,
                keyword_of(
                    match search {
                        Some(s) => Some(s@),
                        None => None,
                    },
                ),
                unread_only,
                limit,
            );
            &&& r@.len() == out.len()
            &&& forall|i: int| 0 <= i < r@.len() ==> #[trigger] r@[i] == record_of(out[i], sources@)
        }),
{
    let keyword = match search {
        Some(s) => trim(s),
        None => {
            proof {
                reveal_strlit("");
                assert(""@ =~= Seq::<char>::empty());
            }
            trim("")
        },
    };
    let sorted = order_entries(entries, sources, source_id, keyword.as_str(), unread_only);
    let ghost all = selected(entries@, sources@, source_id, keyword@, unread_only);
    let count: usize = if limit < 0 || sorted.len() as u64 <= limit as u64 {
        sorted.len()
    } else {
        limit as usize
    };
    proof {
        lemma_newest_first(all, arbitrary());
    }
    let mut out: Vec<EntryRecord> = Vec::new();
    let mut i: usize = 0;
    while i < count
        invariant
            i <= count <= sorted.len(),
            out.len() == i,
            sorted@ == newest_first(all),
            all == selected(entries@, sources@, source_id, keyword@, unread_only),
            forall|k: int| 0 <= k < i ==> #[trigger] out@[k] == record_of(sorted@[k], sources@),
        decreases count - i,
    {
        let entry = &sorted[i];
        proof {
            assert(sorted@.contains(sorted@[i as int]));
            lemma_newest_first(all, *entry);
            lemma_selected(entries@, sources@, source_id, keyword@, unread_only, *entry);
        }
        let place = find_source_by_id(sources, entry.source_id);
        let source_title = match place {
            Some(at) => {
                proof {
                    lemma_source_by_id(sources@, entry.source_id);
                }
                sources[at].title.clone()
            },
            None => String::new(),
        };
        out.push(
            EntryRecord {
                id: entry.id,
                source_id: entry.source_id,
                source_title,
                guid: clone_opt(&entry.guid),
                link: entry.link.clone(),
                title: entry.title.clone(),
                translated_title: clone_opt(&entry.translated_title),
                summary: clone_opt(&entry.summary),
                content: clone_opt(&entry.content),
                published_at: clone_opt(&entry.published_at),
                is_read: entry.is_read,
                is_starred: entry.is_starred,
                created_at: entry.created_at.clone(),
            },
        );
        i += 1;
    }
    out
}

} // verus!
