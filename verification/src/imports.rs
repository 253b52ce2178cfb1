//! Pending batch imports: the parsed rows of an uploaded file, their previews,
//! and the per-file statistics shown before the import is submitted.

use vstd::prelude::*;
use vstd::utf8::{encode_utf8, decode_utf8, is_char_boundary, encode_utf8_valid_utf8, encode_utf8_decode_utf8, is_char_boundary_start_end_of_seq};
use crate::text::{chars_of, str_equals, string_from_chars, lex_lt, text_before, lemma_lex_asym, lemma_lex_trans, lemma_lex_total};
use crate::clock::{now_millis, millis_reading};
use vstd::string::StringSliceAdditionalSpecFns;

verus! {

/// How long a pending import stays valid, in milliseconds (ten minutes).
pub const IMPORT_TTL_MILLIS: i64 = 600_000;

/// The byte length past which a row's preview is cut.
pub const PREVIEW_BYTES: usize = 80;

/// One parsed row of an uploaded batch file.
#[derive(Debug, Clone)]
pub struct ParsedItem {
    pub index: usize,
    pub text: String,
    pub voice: Option<String>,
    pub model: Option<String>,
    pub title: Option<String>,
    pub context: Option<String>,
    /// Why this row failed to parse, if it did.
    pub error: Option<String>,
    /// The file the row came from, in a multi-file upload.
    pub source_filename: Option<String>,
    /// Approximate token count of the text.
    pub token_count: usize,
}

/// A row without its full text and context, for previews.
#[derive(Debug, Clone)]
pub struct ParsedItemSummary {
    pub index: usize,
    pub text_preview: String,
    pub voice: Option<String>,
    pub model: Option<String>,
    pub title: Option<String>,
    pub char_count: usize,
    pub has_error: bool,
    pub error: Option<String>,
    pub source_filename: Option<String>,
    pub token_count: usize,
}

/// Totals for the rows of one file.
#[derive(Debug, Clone)]
pub struct FileStat {
    pub filename: String,
    pub item_count: usize,
    /// Bytes of text.
    pub char_count: usize,
    pub token_count: usize,
}

/// Totals for a pending import; times in milliseconds since the Unix epoch.
#[derive(Debug, Clone)]
pub struct ImportStats {
    pub total_items: usize,
    pub valid_items: usize,
    pub error_items: usize,
    /// Bytes of text over all rows.
    pub total_chars: usize,
    pub total_token_count: usize,
    pub file_stats: Vec<FileStat>,
    pub created_at: i64,
    pub expires_at: i64,
}

/// An uploaded import waiting to be submitted; times in milliseconds since
/// the Unix epoch.
#[derive(Debug, Clone)]
pub struct PendingImport {
    pub token: String,
    pub original_filename: String,
    pub items: Vec<ParsedItem>,
    pub created_at: i64,
    pub expires_at: i64,
    pub submitted: bool,
}

/// The length in bytes of a text's UTF-8 encoding.
pub open spec fn byte_len(s: Seq<char>) -> nat {
    encode_utf8(s).len()
}

/// The largest character boundary of `b` at or below `i`.
pub open spec fn boundary_at_or_before(b: Seq<u8>, i: int) -> int
    decreases i,
{
    if i <= 0 {
        0
    } else if is_char_boundary(b, i) {
        i
    } else {
        boundary_at_or_before(b, i - 1)
    }
}

/// A row's preview: the whole text when its encoding fits in `PREVIEW_BYTES`
/// bytes, else the characters before the last boundary at or below that
/// byte, followed by `...`.
pub open spec fn preview_of(text: Seq<char>) -> Seq<char> {
    let b = encode_utf8(text);
    if b.len() > PREVIEW_BYTES {
        decode_utf8(b.subrange(0, boundary_at_or_before(b, PREVIEW_BYTES as int))) + seq!['.', '.', '.']
    } else {
        text
    }
}

fn clone_opt(o: &Option<String>) -> (r: Option<String>)
    ensures
        r is Some == o is Some,
        r is Some ==> r->0@ == o->0@,
{
    match o {
        Some(s) => Some(s.clone()),
        None => None,
    }
}

fn preview_text(s: &str) -> (r: String)
    ensures
        r@ == preview_of(s@),
{
    proof {
        encode_utf8_valid_utf8(s@);
        is_char_boundary_start_end_of_seq(s.spec_bytes());
    }
    let n = s.as_bytes().len();
    if n > PREVIEW_BYTES {
        let mut end: usize = PREVIEW_BYTES;
        while !s.is_char_boundary(end)
            invariant
                end <= PREVIEW_BYTES,
                PREVIEW_BYTES < s.spec_bytes().len(),
                vstd::utf8::valid_utf8(s.spec_bytes()),
                is_char_boundary(s.spec_bytes(), 0),
                boundary_at_or_before(s.spec_bytes(), PREVIEW_BYTES as int) == boundary_at_or_before(
                    s.spec_bytes(),
                    end as int,
                ),
            decreases end,
        {
            end = end - 1;
        }
        assert(boundary_at_or_before(s.spec_bytes(), end as int) == end as int);
        let (head, _tail) = s.split_at(end);
        proof {
            encode_utf8_decode_utf8(head@);
            assert(head.spec_bytes() == encode_utf8(head@));
        }
        let mut v = chars_of(head);
        v.push('.');
        v.push('.');
        v.push('.');
        string_from_chars(&v)
    } else {
        s.to_owned()
    }
}

impl ParsedItem {
    /// The row's summary: its preview, character count and error flag.
    pub fn to_summary(&self) -> (r: ParsedItemSummary)
        ensures
            r.index == self.index,
            r.text_preview@ == preview_of(self.text@),
            r.char_count == self.text@.len(),
            r.has_error == self.error is Some,
            r.voice is Some == self.voice is Some && (r.voice is Some ==> r.voice->0@ == self.voice->0@),
            r.model is Some == self.model is Some && (r.model is Some ==> r.model->0@ == self.model->0@),
            r.title is Some == self.title is Some && (r.title is Some ==> r.title->0@ == self.title->0@),
            r.error is Some == self.error is Some && (r.error is Some ==> r.error->0@ == self.error->0@),
            r.source_filename is Some == self.source_filename is Some && (r.source_filename is Some
                ==> r.source_filename->0@ == self.source_filename->0@),
            r.token_count == self.token_count,
    {
        let preview = preview_text(self.text.as_str());
        let char_count = chars_of(self.text.as_str()).len();
        ParsedItemSummary {
            index: self.index,
            text_preview: preview,
            voice: clone_opt(&self.voice),
            model: clone_opt(&self.model),
            title: clone_opt(&self.title),
            char_count,
            has_error: self.error.is_some(),
            error: clone_opt(&self.error),
            source_filename: clone_opt(&self.source_filename),
            token_count: self.token_count,
        }
    }
}


/// The file a row is counted under: its source file, or the upload's own
/// name when it has none.
pub open spec fn key_of(it: ParsedItem, default: Seq<char>) -> Seq<char> {
    match it.source_filename {
        Some(f) => f@,
        None => default,
    }
}

/// Number of rows counted under file `k`.
pub open spec fn count_key(items: Seq<ParsedItem>, d: Seq<char>, k: Seq<char>) -> nat
    decreases items.len(),
{
    if items.len() == 0 {
        0
    } else {
        count_key(items.drop_last(), d, k) + if key_of(items.last(), d) == k {
            1nat
        } else {
            0nat
        }
    }
}

/// Bytes of text of the rows counted under file `k`.
pub open spec fn bytes_key(items: Seq<ParsedItem>, d: Seq<char>, k: Seq<char>) -> nat
    decreases items.len(),
{
    if items.len() == 0 {
        0
    } else {
        bytes_key(items.drop_last(), d, k) + if key_of(items.last(), d) == k {
            byte_len(items.last().text@)
        } else {
            0nat
        }
    }
}

/// Tokens of the rows counted under file `k`.
pub open spec fn tokens_key(items: Seq<ParsedItem>, d: Seq<char>, k: Seq<char>) -> nat
    decreases items.len(),
{
    if items.len() == 0 {
        0
    } else {
        tokens_key(items.drop_last(), d, k) + if key_of(items.last(), d) == k {
            items.last().token_count as nat
        } else {
            0nat
        }
    }
}

/// Bytes of text over all rows.
pub open spec fn byte_total(items: Seq<ParsedItem>) -> nat
    decreases items.len(),
{
    if items.len() == 0 {
        0
    } else {
        byte_total(items.drop_last()) + byte_len(items.last().text@)
    }
}

/// Tokens over all rows.
pub open spec fn token_total(items: Seq<ParsedItem>) -> nat
    decreases items.len(),
{
    if items.len() == 0 {
        0
    } else {
        token_total(items.drop_last()) + items.last().token_count as nat
    }
}

/// Number of rows that parsed without error.
pub open spec fn valid_count(items: Seq<ParsedItem>) -> nat
    decreases items.len(),
{
    if items.len() == 0 {
        0
    } else {
        valid_count(items.drop_last()) + if items.last().error is None {
            1nat
        } else {
            0nat
        }
    }
}

/// `st` holds the totals of a file under which some row is counted.
pub open spec fn stat_matches(items: Seq<ParsedItem>, d: Seq<char>, st: FileStat) -> bool {
    &&& count_key(items, d, st.filename@) > 0
    &&& st.item_count == count_key(items, d, st.filename@)
    &&& st.char_count == bytes_key(items, d, st.filename@)
    &&& st.token_count == tokens_key(items, d, st.filename@)
}

/// `stats` is the per-file breakdown of `items`: one entry per file, sorted
/// by file name, each with that file's totals.
pub open spec fn file_stats_of(items: Seq<ParsedItem>, d: Seq<char>, stats: Seq<FileStat>) -> bool {
    &&& forall|i: int, j: int|
        0 <= i < j < stats.len() ==> lex_lt(#[trigger] stats[i].filename@, #[trigger] stats[j].filename@)
    &&& forall|i: int| 0 <= i < stats.len() ==> stat_matches(items, d, #[trigger] stats[i])
    &&& forall|m: int|
        0 <= m < items.len() ==> exists|i: int|
            0 <= i < stats.len() && #[trigger] stats[i].filename@ == key_of(#[trigger] items[m], d)
}

proof fn lemma_key_sums_bounded(items: Seq<ParsedItem>, d: Seq<char>, k: Seq<char>)
    ensures
        count_key(items, d, k) <= items.len(),
        bytes_key(items, d, k) <= byte_total(items),
        tokens_key(items, d, k) <= token_total(items),
    decreases items.len(),
{
    if items.len() > 0 {
        lemma_key_sums_bounded(items.drop_last(), d, k);
    }
}

proof fn lemma_key_absent(items: Seq<ParsedItem>, d: Seq<char>, k: Seq<char>)
    requires
        forall|m: int| 0 <= m < items.len() ==> key_of(#[trigger] items[m], d) != k,
    ensures
        count_key(items, d, k) == 0,
        bytes_key(items, d, k) == 0,
        tokens_key(items, d, k) == 0,
    decreases items.len(),
{
    if items.len() > 0 {
        let p = items.drop_last();
        assert forall|m: int| 0 <= m < p.len() implies key_of(#[trigger] p[m], d) != k by {
            assert(p[m] == items[m]);
        }
        lemma_key_absent(p, d, k);
        assert(key_of(items[items.len() - 1], d) != k);
    }
}

proof fn lemma_totals_prefix(items: Seq<ParsedItem>, i: int)
    requires
        0 <= i <= items.len(),
    ensures
        byte_total(items.take(i)) <= byte_total(items),
        token_total(items.take(i)) <= token_total(items),
    decreases items.len(),
{
    if i < items.len() {
        assert(items.drop_last().take(i) =~= items.take(i));
        lemma_totals_prefix(items.drop_last(), i);
    } else {
        assert(items.take(i) =~= items);
    }
}

fn key_text(it: &ParsedItem, default: &String) -> (r: String)
    ensures
        r@ == key_of(*it, default@),
{
    match &it.source_filename {
        Some(f) => f.clone(),
        None => default.clone(),
    }
}

/// Where `key` stands among sorted stats: `(true, p)` when entry `p` has that
/// name, else `(false, p)` with `p` the position at which to insert it.
fn locate(stats: &Vec<FileStat>, key: &str) -> (r: (bool, usize))
    requires
        forall|i: int, j: int|
            0 <= i < j < stats.len() ==> lex_lt(#[trigger] stats[i].filename@, #[trigger] stats[j].filename@),
    ensures
        r.1 <= stats.len(),
        r.0 ==> r.1 < stats.len() && stats[r.1 as int].filename@ == key@,
        !r.0 ==> forall|q: int| 0 <= q < stats.len() ==> stats[q].filename@ != key@,
        !r.0 ==> forall|q: int| 0 <= q < r.1 ==> lex_lt(#[trigger] stats[q].filename@, key@),
        !r.0 ==> forall|q: int| r.1 <= q < stats.len() ==> lex_lt(key@, #[trigger] stats[q].filename@),
{
    let mut j: usize = 0;
    while j < stats.len()
        invariant
            j <= stats.len(),
            forall|i: int, j: int|
                0 <= i < j < stats.len() ==> lex_lt(#[trigger] stats[i].filename@, #[trigger] stats[j].filename@),
            forall|q: int| 0 <= q < j ==> stats[q].filename@ != key@,
            forall|q: int| 0 <= q < j ==> lex_lt(#[trigger] stats[q].filename@, key@),
        decreases stats.len() - j,
    {
        if str_equals(stats[j].filename.as_str(), key) {
            return (true, j);
        }
        if text_before(key, stats[j].filename.as_str()) {
            proof {
                assert forall|q: int| j <= q < stats.len() implies lex_lt(key@, #[trigger] stats[q].filename@) by {
                    if q > j {
                        lemma_lex_trans(key@, stats[j as int].filename@, stats[q].filename@);
                    }
                }
                assert forall|q: int| 0 <= q < stats.len() implies stats[q].filename@ != key@ by {
                    if q >= j {
                        lemma_lex_asym(key@, key@);
                    }
                }
            }
            return (false, j);
        }
        proof {
            lemma_lex_total(stats[j as int].filename@, key@);
        }
        j = j + 1;
    }
    (false, j)
}

impl PendingImport {
    /// A pending import created at `now`, expiring `IMPORT_TTL_MILLIS` later.
    pub fn new_at(token: String, filename: String, items: Vec<ParsedItem>, now: i64) -> (r: Self)
        requires
            now <= i64::MAX - IMPORT_TTL_MILLIS,
        ensures
            r.token == token && r.original_filename == filename && r.items == items,
            r.created_at == now,
            r.expires_at == now + IMPORT_TTL_MILLIS,
            !r.submitted,
    {
        PendingImport {
            token,
            original_filename: filename,
            items,
            created_at: now,
            expires_at: now + IMPORT_TTL_MILLIS,
            submitted: false,
        }
    }

    /// A pending import created now.
    pub fn new(token: String, filename: String, items: Vec<ParsedItem>) -> (r: Self)
        ensures
            r.token == token && r.original_filename == filename && r.items == items,
            r.expires_at == r.created_at + IMPORT_TTL_MILLIS,
            !r.submitted,
    {
        PendingImport::new_at(token, filename, items, now_millis())
    }

    /// Whether the import has expired at `now`.
    pub fn is_expired_at(&self, now: i64) -> (r: bool)
        ensures
            r == (now > self.expires_at),
    {
        now > self.expires_at
    }

    /// Whether the import has expired by the clock: what `is_expired_at`
    /// answers at the clock's reading.
    pub fn is_expired(&self) -> (r: bool)
        ensures
            exists|t: i64| millis_reading(t) && r == (t > self.expires_at),
    {
        let t = now_millis();
        let r = self.is_expired_at(t);
        assert(millis_reading(t) && r == (t > self.expires_at));
        r
    }

    /// Moves the expiry to `IMPORT_TTL_MILLIS` after `now`.
    pub fn extend_ttl_at(&mut self, now: i64)
        requires
            now <= i64::MAX - IMPORT_TTL_MILLIS,
        ensures
            final(self).expires_at == now + IMPORT_TTL_MILLIS,
            final(self).token == old(self).token && final(self).items == old(self).items,
            final(self).original_filename == old(self).original_filename,
            final(self).created_at == old(self).created_at && final(self).submitted == old(self).submitted,
    {
        self.expires_at = now + IMPORT_TTL_MILLIS;
    }

    /// Moves the expiry to `IMPORT_TTL_MILLIS` after the clock's reading.
    pub fn extend_ttl(&mut self)
        ensures
            exists|t: i64| millis_reading(t) && final(self).expires_at == t + IMPORT_TTL_MILLIS,
            final(self).token == old(self).token && final(self).items == old(self).items,
            final(self).original_filename == old(self).original_filename,
            final(self).created_at == old(self).created_at && final(self).submitted == old(self).submitted,
    {
        let t = now_millis();
        self.extend_ttl_at(t);
        assert(millis_reading(t) && self.expires_at == t + IMPORT_TTL_MILLIS);
    }

    /// The per-file breakdown of the rows, sorted by file name.
    pub fn file_stats(&self) -> (r: Vec<FileStat>)
        requires
            byte_total(self.items@) <= usize::MAX,
            token_total(self.items@) <= usize::MAX,
        ensures
            file_stats_of(self.items@, self.original_filename@, r@),
    {
        let ghost d = self.original_filename@;
        let ghost all = self.items@;
        let mut stats: Vec<FileStat> = Vec::new();
        let mut i: usize = 0;
        while i < self.items.len()
            invariant
                i <= all.len(),
                all == self.items@,
                d == self.original_filename@,
                byte_total(all) <= usize::MAX,
                token_total(all) <= usize::MAX,
                forall|a: int, b: int|
                    0 <= a < b < stats.len() ==> lex_lt(#[trigger] stats[a].filename@, #[trigger] stats[b].filename@),
                forall|q: int| 0 <= q < stats.len() ==> stat_matches(all.take(i as int), d, #[trigger] stats[q]),
                forall|m: int|
                    0 <= m < i ==> exists|q: int|
                        0 <= q < stats.len() && #[trigger] stats[q].filename@ == key_of(#[trigger] all[m], d),
            decreases all.len() - i,
        {
            let ghost p = all.take(i as int);
            let ghost p2 = all.take(i + 1);
            let ghost x = all[i as int];
            proof {
                assert(p2.drop_last() =~= p);
                assert(p2.last() == x);
                lemma_totals_prefix(all, i + 1);
            }
            let item = &self.items[i];
            let key = key_text(item, &self.original_filename);
            let bytes = item.text.as_str().as_bytes().len();
            let (found, pos) = locate(&stats, key.as_str());
            let ghost old_stats = stats@;
            if found {
                let cur = &stats[pos];
                proof {
                    lemma_key_sums_bounded(p2, d, key@);
                    assert(count_key(p2, d, key@) == count_key(p, d, key@) + 1);
                }
                let updated = FileStat {
                    filename: cur.filename.clone(),
                    item_count: cur.item_count + 1,
                    char_count: cur.char_count + bytes,
                    token_count: cur.token_count + item.token_count,
                };
                stats.set(pos, updated);
                proof {
                    assert forall|q: int| 0 <= q < stats.len() implies stat_matches(p2, d, #[trigger] stats[q]) by {
                        assert(stat_matches(p, d, old_stats[q]));
                        if q != pos {
                            assert(stats[q] == old_stats[q]);
                            lemma_lex_asym(key@, key@);
                            if q < pos {
                                assert(lex_lt(old_stats[q].filename@, old_stats[pos as int].filename@));
                            } else {
                                assert(lex_lt(old_stats[pos as int].filename@, old_stats[q].filename@));
                            }
                            assert(key_of(x, d) != old_stats[q].filename@);
                        } else {
                            assert(stats[q].filename@ == key_of(x, d));
                        }
                    }
                    assert forall|m: int| 0 <= m < i + 1 implies exists|q: int|
                        0 <= q < stats.len() && #[trigger] stats[q].filename@ == key_of(#[trigger] all[m], d) by {
                        if m < i {
                            let q = choose|q: int| 0 <= q < old_stats.len() && #[trigger] old_stats[q].filename@ == key_of(all[m], d);
                            assert(stats[q].filename@ == old_stats[q].filename@);
                        } else {
                            assert(stats[pos as int].filename@ == key_of(all[m], d));
                        }
                    }
                }
            } else {
                proof {
                    assert forall|m: int| 0 <= m < p.len() implies key_of(#[trigger] p[m], d) != key@ by {
                        assert(p[m] == all[m]);
                        let q = choose|q: int| 0 <= q < old_stats.len() && #[trigger] old_stats[q].filename@ == key_of(all[m], d);
                    }
                    lemma_key_absent(p, d, key@);
                    lemma_key_sums_bounded(p2, d, key@);
                }
                let fresh = FileStat { filename: key, item_count: 1, char_count: bytes, token_count: item.token_count };
                let ghost fk = fresh.filename@;
                stats.insert(pos, fresh);
                proof {
                    assert forall|a: int, b: int| 0 <= a < b < stats.len() implies lex_lt(
                        #[trigger] stats[a].filename@,
                        #[trigger] stats[b].filename@,
                    ) by {
                        if b < pos {
                            assert(stats[a] == old_stats[a] && stats[b] == old_stats[b]);
                        } else if b == pos {
                            assert(stats[a] == old_stats[a]);
                        } else if a < pos {
                            assert(stats[a] == old_stats[a] && stats[b] == old_stats[b - 1]);
                            lemma_lex_trans(old_stats[a].filename@, fk, old_stats[b - 1].filename@);
                        } else if a == pos {
                            assert(stats[b] == old_stats[b - 1]);
                        } else {
                            assert(stats[a] == old_stats[a - 1] && stats[b] == old_stats[b - 1]);
                        }
                    }
                    assert forall|q: int| 0 <= q < stats.len() implies stat_matches(p2, d, #[trigger] stats[q]) by {
                        if q != pos {
                            let oq = if q < pos { q } else { q - 1 };
                            assert(stats[q] == old_stats[oq]);
                            assert(stat_matches(p, d, old_stats[oq]));
                            let k = old_stats[oq].filename@;
                            assert(key_of(x, d) != k);
                            assert(count_key(p2, d, k) == count_key(p, d, k));
                            assert(stats[q].item_count == count_key(p2, d, stats[q].filename@));
                        } else {
                            assert(stats[q].filename@ == key_of(x, d));
                            assert(stats[q].item_count == 1);
                            assert(count_key(p, d, key_of(x, d)) == 0);
                            assert(count_key(p2, d, key_of(x, d)) == count_key(p, d, key_of(x, d)) + 1);
                            assert(bytes_key(p2, d, key_of(x, d)) == bytes_key(p, d, key_of(x, d)) + byte_len(x.text@));
                            assert(tokens_key(p2, d, key_of(x, d)) == tokens_key(p, d, key_of(x, d)) + x.token_count);
                            assert(stats[q].item_count == count_key(p2, d, stats[q].filename@));
                        }
                    }
                    assert forall|m: int| 0 <= m < i + 1 implies exists|q: int|
                        0 <= q < stats.len() && #[trigger] stats[q].filename@ == key_of(#[trigger] all[m], d) by {
                        if m < i {
                            let q = choose|q: int| 0 <= q < old_stats.len() && #[trigger] old_stats[q].filename@ == key_of(all[m], d);
                            if q < pos {
                                assert(stats[q] == old_stats[q]);
                            } else {
                                assert(stats[q + 1] == old_stats[q]);
                            }
                        } else {
                            assert(stats[pos as int].filename@ == key_of(all[m], d));
                        }
                    }
                }
            }
            i = i + 1;
        }
        assert(all.take(i as int) =~= all);
        stats
    }

    /// Totals over all rows, with the per-file breakdown.
    pub fn stats(&self) -> (r: ImportStats)
        requires
            byte_total(self.items@) <= usize::MAX,
            token_total(self.items@) <= usize::MAX,
        ensures
            r.total_items == self.items@.len(),
            r.valid_items == valid_count(self.items@),
            r.error_items == self.items@.len() - valid_count(self.items@),
            r.total_chars == byte_total(self.items@),
            r.total_token_count == token_total(self.items@),
            file_stats_of(self.items@, self.original_filename@, r.file_stats@),
            r.created_at == self.created_at,
            r.expires_at == self.expires_at,
    {
        let ghost all = self.items@;
        let mut valid: usize = 0;
        let mut chars: usize = 0;
        let mut tokens: usize = 0;
        let mut i: usize = 0;
        while i < self.items.len()
            invariant
                i <= all.len(),
                all == self.items@,
                byte_total(all) <= usize::MAX,
                token_total(all) <= usize::MAX,
                valid == valid_count(all.take(i as int)),
                valid <= i,
                chars == byte_total(all.take(i as int)),
                tokens == token_total(all.take(i as int)),
            decreases all.len() - i,
        {
            proof {
                assert(all.take(i + 1).drop_last() =~= all.take(i as int));
                lemma_totals_prefix(all, i + 1);
            }
            let item = &self.items[i];
            if item.error.is_none() {
                valid = valid + 1;
            }
            chars = chars + item.text.as_str().as_bytes().len();
            tokens = tokens + item.token_count;
            i = i + 1;
        }
        assert(all.take(i as int) =~= all);
        let file_stats = self.file_stats();
        ImportStats {
            total_items: self.items.len(),
            valid_items: valid,
            error_items: self.items.len() - valid,
            total_chars: chars,
            total_token_count: tokens,
            file_stats,
            created_at: self.created_at,
            expires_at: self.expires_at,
        }
    }

    /// Drops every row that came from file `filename` and renumbers the rest
    /// in order; whether any row was dropped.
    pub fn remove_file_by_filename(&mut self, filename: &str) -> (r: bool)
        ensures
            final(self).items@.len() == kept_items(old(self).items@, filename@).len(),
            forall|i: int|
                0 <= i < final(self).items@.len() ==> #[trigger] final(self).items@[i] == renumbered(
                    kept_items(old(self).items@, filename@)[i],
                    i,
                ),
            r == (final(self).items@.len() < old(self).items@.len()),
            final(self).token == old(self).token,
            final(self).original_filename == old(self).original_filename,
            final(self).created_at == old(self).created_at,
            final(self).expires_at == old(self).expires_at,
            final(self).submitted == old(self).submitted,
    {
        let ghost all = self.items@;
        let original_len = self.items.len();
        let mut rest: Vec<ParsedItem> = Vec::new();
        std::mem::swap(&mut rest, &mut self.items);
        let mut out: Vec<ParsedItem> = Vec::new();
        let mut k: usize = 0;
        while rest.len() > 0
            invariant
                k + rest@.len() == all.len(),
                all.len() == original_len,
                rest@ == all.skip(k as int),
                out@.len() == kept_items(all.take(k as int), filename@).len(),
                forall|i: int|
                    0 <= i < out@.len() ==> #[trigger] out@[i] == renumbered(
                        kept_items(all.take(k as int), filename@)[i],
                        i,
                    ),
            decreases rest@.len(),
        {
            let ghost before = all.take(k as int);
            let mut item = rest.remove(0);
            proof {
                assert(all.take(k + 1).drop_last() =~= before);
                assert(all.skip(k as int)[0] == all[k as int]);
                assert(rest@ =~= all.skip(k + 1));
            }
            let drop = match &item.source_filename {
                Some(f) => str_equals(f.as_str(), filename),
                None => false,
            };
            if !drop {
                item.index = out.len();
                out.push(item);
            }
            k = k + 1;
        }
        assert(all.take(k as int) =~= all);
        let removed = out.len() < original_len;
        proof {
            lemma_kept_len(all, filename@);
        }
        self.items = out;
        removed
    }
}

/// Whether a row came from file `f`.
pub open spec fn from_file(it: ParsedItem, f: Seq<char>) -> bool {
    it.source_filename matches Some(s) && s@ == f
}

/// The rows that did not come from file `f`, in order.
pub open spec fn kept_items(items: Seq<ParsedItem>, f: Seq<char>) -> Seq<ParsedItem>
    decreases items.len(),
{
    if items.len() == 0 {
        Seq::empty()
    } else {
        let rest = kept_items(items.drop_last(), f);
        if from_file(items.last(), f) {
            rest
        } else {
            rest.push(items.last())
        }
    }
}

/// A row given position `i`.
pub open spec fn renumbered(it: ParsedItem, i: int) -> ParsedItem {
    ParsedItem { index: i as usize, ..it }
}

proof fn lemma_kept_len(items: Seq<ParsedItem>, f: Seq<char>)
    ensures
        kept_items(items, f).len() <= items.len(),
    decreases items.len(),
{
    if items.len() > 0 {
        lemma_kept_len(items.drop_last(), f);
    }
}

} // verus!

verus! {

/// After a file is removed, no remaining row comes from it, and the rows
/// that remain are rows of the import.
pub proof fn lemma_removed_file_gone(items: Seq<ParsedItem>, f: Seq<char>)
    ensures
        forall|i: int| 0 <= i < kept_items(items, f).len() ==> !from_file(#[trigger] kept_items(items, f)[i], f),
        forall|i: int| 0 <= i < kept_items(items, f).len() ==> items.contains(#[trigger] kept_items(items, f)[i]),
    decreases items.len(),
{
    if items.len() > 0 {
        let p = items.drop_last();
        lemma_removed_file_gone(p, f);
        let rest = kept_items(p, f);
        assert forall|i: int| 0 <= i < kept_items(items, f).len() implies items.contains(
            #[trigger] kept_items(items, f)[i],
        ) by {
            if i < rest.len() {
                let j = choose|j: int| 0 <= j < p.len() && p[j] == rest[i];
                assert(items[j] == p[j]);
            } else {
                assert(items[items.len() - 1] == items.last());
            }
        }
    }
}

} // verus!
