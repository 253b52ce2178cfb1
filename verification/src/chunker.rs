//! Splitting long text into chunks that fit the synthesis API's context:
//! sentence segmentation, token estimates, greedy packing of sentences into
//! chunks, and character-level splitting of oversized sentences.

use vstd::prelude::*;
use crate::error::AppError;
use crate::text::{
    chars_of, is_blank, is_whitespace, is_ws, string_from_chars, trim_chars, trimmed,
};

verus! {

// ── Character classes ────────────────────────────────────────────────

/// CJK unified ideographs (U+4E00..U+9FFF and extension A U+3400..U+4DBF).
pub open spec fn is_cjk(c: char) -> bool {
    (0x4E00 <= c as u32 && c as u32 <= 0x9FFF) || (0x3400 <= c as u32 && c as u32 <= 0x4DBF)
}

/// Characters above U+2E80 (counted as wide by `estimate_tokens`).
pub open spec fn is_wide(c: char) -> bool {
    c as u32 > 0x2E80
}

/// ASCII characters other than ASCII whitespace (space, tab, LF, FF, CR).
pub open spec fn is_ascii_visible(c: char) -> bool {
    (c as u32) < 128 && !(c == ' ' || c == '\t' || c == '\n' || c == '\x0C' || c == '\r')
}

/// Sentence-ending characters of `split_sentences`: 。！？.!? and newline.
pub open spec fn is_sentence_end(c: char) -> bool {
    c == '。' || c == '！' || c == '？' || c == '.' || c == '!' || c == '?' || c == '\n'
}

/// Boundary characters of the local tokenizer: 。！？!? and newline (no '.').
pub open spec fn is_boundary(c: char) -> bool {
    c == '。' || c == '！' || c == '？' || c == '!' || c == '?' || c == '\n'
}

fn cjk(c: char) -> (r: bool)
    ensures
        r == is_cjk(c),
{
    let u = c as u32;
    (0x4E00 <= u && u <= 0x9FFF) || (0x3400 <= u && u <= 0x4DBF)
}

fn sentence_end(c: char) -> (r: bool)
    ensures
        r == is_sentence_end(c),
{
    c == '。' || c == '！' || c == '？' || c == '.' || c == '!' || c == '?' || c == '\n'
}

fn boundary(c: char) -> (r: bool)
    ensures
        r == is_boundary(c),
{
    c == '。' || c == '！' || c == '？' || c == '!' || c == '?' || c == '\n'
}

// ── Token estimates ──────────────────────────────────────────────────

/// `is_cjk` as a predicate value.
pub open spec fn cjk_pred() -> spec_fn(char) -> bool {
    |c: char| is_cjk(c)
}

/// `is_wide` as a predicate value.
pub open spec fn wide_pred() -> spec_fn(char) -> bool {
    |c: char| is_wide(c)
}

/// `is_ascii_visible` as a predicate value.
pub open spec fn ascii_visible_pred() -> spec_fn(char) -> bool {
    |c: char| is_ascii_visible(c)
}

/// The local tokenizer's estimate: CJK characters count 2 tokens, other
/// characters 0.3 tokens (rounded down overall), at least 1.
pub open spec fn token_count_estimate(s: Seq<char>) -> int {
    let cjk_n = s.filter(cjk_pred()).len() as int;
    let other_n = s.len() - cjk_n;
    let e = cjk_n * 2 + other_n * 3 / 10;
    if e >= 1 {
        e
    } else {
        1
    }
}

/// The heuristic estimate: characters above U+2E80 count 1.3 tokens, visible
/// ASCII characters 0.4 tokens, rounded to the nearest integer (halves up).
pub open spec fn heuristic_token_estimate(s: Seq<char>) -> int {
    let wide = s.filter(wide_pred()).len() as int;
    let ascii = s.filter(ascii_visible_pred()).len() as int;
    (wide * 13 + ascii * 4 + 5) / 10
}

/// Texts whose length times three fits in an `i64`: the local estimate
/// multiplies a character count by three in an `i64`, and every count and
/// sum of estimates then fits one too.
pub open spec fn estimable(s: Seq<char>) -> bool {
    3 * s.len() <= i64::MAX
}

/// Counts CJK characters and others, and returns the local tokenizer's estimate.
pub fn estimate_token_count(text: &str) -> (r: i64)
    requires
        estimable(text@),
    ensures
        r == token_count_estimate(text@),
{
    let v = chars_of(text);
    estimate_token_count_chars(&v)
}

fn estimate_token_count_chars(v: &[char]) -> (r: i64)
    requires
        estimable(v@),
    ensures
        r == token_count_estimate(v@),
{
    let ghost pred = cjk_pred();
    let mut chinese: i64 = 0;
    let mut i: usize = 0;
    while i < v.len()
        invariant
            i <= v@.len(),
            estimable(v@),
            pred == cjk_pred(),
            chinese == v@.take(i as int).filter(pred).len(),
            chinese <= i,
        decreases v@.len() - i,
    {
        proof {
            v@.take(i as int).lemma_filter_push(v@[i as int], pred);
            assert(v@.take(i + 1) =~= v@.take(i as int).push(v@[i as int]));
        }
        if cjk(v[i]) {
            chinese = chinese + 1;
        }
        i = i + 1;
    }
    assert(v@.take(v@.len() as int) =~= v@);
    let ascii = (v.len() as i64) - chinese;
    let e = chinese * 2 + ascii * 3 / 10;
    if e >= 1 {
        e
    } else {
        1
    }
}

/// The heuristic estimate of `MimoChunker::estimate_tokens`.
pub fn estimate_tokens_chars(v: &[char]) -> (r: i64)
    requires
        estimable(v@),
    ensures
        r == heuristic_token_estimate(v@),
{
    let ghost pw = wide_pred();
    let ghost pa = ascii_visible_pred();
    let mut wide: i64 = 0;
    let mut ascii: i64 = 0;
    let mut i: usize = 0;
    while i < v.len()
        invariant
            i <= v@.len(),
            estimable(v@),
            pw == wide_pred(),
            pa == ascii_visible_pred(),
            wide == v@.take(i as int).filter(pw).len(),
            ascii == v@.take(i as int).filter(pa).len(),
            wide <= i,
            ascii <= i,
        decreases v@.len() - i,
    {
        proof {
            v@.take(i as int).lemma_filter_push(v@[i as int], pw);
            v@.take(i as int).lemma_filter_push(v@[i as int], pa);
            assert(v@.take(i + 1) =~= v@.take(i as int).push(v@[i as int]));
        }
        let c = v[i];
        let u = c as u32;
        if u > 0x2E80 {
            wide = wide + 1;
        } else if u < 128 && !(c == ' ' || c == '\t' || c == '\n' || c == '\x0C' || c == '\r') {
            ascii = ascii + 1;
        }
        i = i + 1;
    }
    assert(v@.take(v@.len() as int) =~= v@);
    let e: i128 = ((wide as i128) * 13 + (ascii as i128) * 4 + 5) / 10;
    e as i64
}

// ── Sentence segmentation ────────────────────────────────────────────

/// The raw segments of `s`: each ends right after a delimiter, except
/// possibly the last one (built by appending characters one at a time).
pub open spec fn raw_segments(s: Seq<char>, delim: spec_fn(char) -> bool) -> Seq<Seq<char>>
    decreases s.len(),
{
    if s.len() == 0 {
        Seq::empty()
    } else {
        let prev = raw_segments(s.drop_last(), delim);
        if prev.len() == 0 || delim(prev.last().last()) {
            prev.push(seq![s.last()])
        } else {
            prev.drop_last().push(prev.last().push(s.last()))
        }
    }
}

/// The trimmed segments that are not blank, in order.
pub open spec fn trimmed_nonblank(segs: Seq<Seq<char>>) -> Seq<Seq<char>>
    decreases segs.len(),
{
    if segs.len() == 0 {
        Seq::empty()
    } else {
        let rest = trimmed_nonblank(segs.drop_last());
        if trimmed(segs.last()).len() > 0 {
            rest.push(trimmed(segs.last()))
        } else {
            rest
        }
    }
}

/// `is_sentence_end` as a predicate value.
pub open spec fn sentence_end_pred() -> spec_fn(char) -> bool {
    |c: char| is_sentence_end(c)
}

/// `is_boundary` as a predicate value.
pub open spec fn boundary_pred() -> spec_fn(char) -> bool {
    |c: char| is_boundary(c)
}

/// `split_sentences`: the text cut after each of 。！？.!? and newline, each
/// piece trimmed, blank pieces dropped.
pub open spec fn sentences_of(s: Seq<char>) -> Seq<Seq<char>> {
    trimmed_nonblank(raw_segments(s, sentence_end_pred()))
}

proof fn lemma_raw_segments_nonempty(s: Seq<char>, delim: spec_fn(char) -> bool)
    ensures
        forall|k: int| 0 <= k < raw_segments(s, delim).len() ==> #[trigger] raw_segments(s, delim)[k].len() > 0,
    decreases s.len(),
{
    if s.len() > 0 {
        lemma_raw_segments_nonempty(s.drop_last(), delim);
        let prev = raw_segments(s.drop_last(), delim);
        let cur = raw_segments(s, delim);
        assert forall|k: int| 0 <= k < cur.len() implies #[trigger] cur[k].len() > 0 by {
            if prev.len() == 0 || delim(prev.last().last()) {
                if k < prev.len() {
                    assert(cur[k] == prev[k]);
                }
            } else {
                if k < prev.len() - 1 {
                    assert(cur[k] == prev[k]);
                } else {
                    assert(cur[k] == prev.last().push(s.last()));
                }
            }
        }
    }
}

/// Splits text into trimmed, non-blank sentences at 。！？.!? and newline.
pub fn split_sentences(text: &str) -> (r: Vec<String>)
    ensures
        r@.len() == sentences_of(text@).len(),
        forall|k: int| 0 <= k < r@.len() ==> #[trigger] r@[k]@ == sentences_of(text@)[k],
{
    let v = chars_of(text);
    let pieces = split_sentences_chars(&v);
    let mut out: Vec<String> = Vec::new();
    let mut k: usize = 0;
    while k < pieces.len()
        invariant
            k <= pieces@.len(),
            pieces@.len() == sentences_of(v@).len(),
            forall|j: int| 0 <= j < pieces@.len() ==> #[trigger] pieces@[j]@ == sentences_of(v@)[j],
            out@.len() == k,
            forall|j: int| 0 <= j < k ==> #[trigger] out@[j]@ == sentences_of(v@)[j],
        decreases pieces@.len() - k,
    {
        out.push(string_from_chars(pieces[k].as_slice()));
        k = k + 1;
    }
    out
}

/// `split_sentences` on characters.
pub fn split_sentences_chars(v: &[char]) -> (r: Vec<Vec<char>>)
    ensures
        r@.len() == sentences_of(v@).len(),
        forall|k: int| 0 <= k < r@.len() ==> #[trigger] r@[k]@ == sentences_of(v@)[k],
{
    let ghost delim = sentence_end_pred();
    let mut result: Vec<Vec<char>> = Vec::new();
    let mut current: Vec<char> = Vec::new();
    let mut i: usize = 0;
    while i < v.len()
        invariant
            i <= v@.len(),
            delim == sentence_end_pred(),
            ({
                let segs = raw_segments(v@.take(i as int), delim);
                if current@.len() > 0 {
                    &&& segs.len() > 0
                    &&& segs.last() == current@
                    &&& !delim(current@.last())
                    &&& result@.len() == trimmed_nonblank(segs.drop_last()).len()
                    &&& forall|j: int|
                        0 <= j < result@.len() ==> #[trigger] result@[j]@ == trimmed_nonblank(
                            segs.drop_last(),
                        )[j]
                } else {
                    &&& (segs.len() == 0 || delim(segs.last().last()))
                    &&& result@.len() == trimmed_nonblank(segs).len()
                    &&& forall|j: int|
                        0 <= j < result@.len() ==> #[trigger] result@[j]@ == trimmed_nonblank(segs)[j]
                }
            }),
        decreases v@.len() - i,
    {
        let c = v[i];
        let ghost prefix = v@.take(i as int);
        let ghost segs = raw_segments(prefix, delim);
        proof {
            assert(v@.take(i + 1).drop_last() =~= prefix);
            assert(v@.take(i + 1).last() == c);
            lemma_raw_segments_nonempty(prefix, delim);
        }
        current.push(c);
        if sentence_end(c) {
            let ghost closed = raw_segments(v@.take(i + 1), delim);
            proof {
                if segs.len() > 0 && !delim(segs.last().last()) {
                    assert(closed.drop_last() =~= segs.drop_last());
                } else {
                    assert(closed.drop_last() =~= segs);
                }
                assert(closed.last() =~= current@);
                assert(trimmed_nonblank(closed).len() >= 0);
            }
            let t = trim_chars(current.as_slice());
            if t.len() > 0 {
                result.push(t);
            }
            current = Vec::new();
            proof {
                assert(closed.drop_last().push(closed.last()) =~= closed);
            }
        } else {
            proof {
                let nxt = raw_segments(v@.take(i + 1), delim);
                if segs.len() > 0 && !delim(segs.last().last()) {
                    assert(nxt.drop_last() =~= segs.drop_last());
                    assert(nxt.last() =~= current@);
                } else {
                    assert(nxt.drop_last() =~= segs);
                    assert(nxt.last() =~= current@);
                }
            }
        }
        i = i + 1;
    }
    let ghost segs = raw_segments(v@.take(v@.len() as int), delim);
    assert(v@.take(v@.len() as int) =~= v@);
    if current.len() > 0 {
        let t = trim_chars(current.as_slice());
        if t.len() > 0 {
            result.push(t);
        }
        proof {
            assert(segs.drop_last().push(segs.last()) =~= segs);
        }
    }
    result
}

} // verus!

verus! {

// ── Sentences and chunks ─────────────────────────────────────────────

/// A sentence with its token and character counts.
#[derive(Debug, Clone)]
pub struct SentenceInfo {
    pub text: String,
    pub token_count: i64,
    pub char_count: i64,
}

/// A text segment produced by the chunker.
#[derive(Debug, Clone)]
pub struct ChunkSegment {
    pub text: String,
    pub char_count: i64,
    pub token_count: i64,
    /// Optional style/context prefix for this chunk.
    pub context_hint: Option<String>,
}

/// The abstract content of a sentence.
pub struct SentenceModel {
    pub text: Seq<char>,
    pub token_count: i64,
    pub char_count: i64,
}

/// The abstract content of a chunk.
pub struct ChunkModel {
    pub text: Seq<char>,
    pub char_count: i64,
    pub token_count: i64,
    pub context_hint: Option<Seq<char>>,
}

/// The abstract sentence.
pub open spec fn sentence_view(s: SentenceInfo) -> SentenceModel {
    SentenceModel { text: s.text@, token_count: s.token_count, char_count: s.char_count }
}

/// The abstract hint.
pub open spec fn hint_view(h: Option<String>) -> Option<Seq<char>> {
    match h {
        Some(s) => Some(s@),
        None => None,
    }
}

/// The abstract chunk.
pub open spec fn chunk_view(c: ChunkSegment) -> ChunkModel {
    ChunkModel {
        text: c.text@,
        char_count: c.char_count,
        token_count: c.token_count,
        context_hint: hint_view(c.context_hint),
    }
}

/// The abstract chunks of a vector.
pub open spec fn chunks_view(v: Seq<ChunkSegment>) -> Seq<ChunkModel> {
    v.map_values(|c: ChunkSegment| chunk_view(c))
}

/// The abstract sentences of a slice.
pub open spec fn sentences_view(v: Seq<SentenceInfo>) -> Seq<SentenceModel> {
    v.map_values(|s: SentenceInfo| sentence_view(s))
}

/// Chunks of at most `cap_chars` characters cut from `text` starting at
/// `pos`; each gets its share of the sentence's tokens (rounded down) and only
/// the first piece of the sentence carries the hint.
pub open spec fn forced_from(
    text: Seq<char>,
    tokens: int,
    denom: int,
    cap_chars: int,
    pos: int,
    hint: Option<Seq<char>>,
) -> Seq<ChunkModel>
    decreases text.len() - pos,
{
    if pos >= text.len() || cap_chars <= 0 || pos < 0 {
        Seq::empty()
    } else {
        let end = min_int(pos + cap_chars, text.len() as int);
        seq![
            ChunkModel {
                text: text.subrange(pos, end),
                char_count: (end - pos) as i64,
                token_count: ((end - pos) * tokens / denom) as i64,
                context_hint: if pos == 0 {
                    hint
                } else {
                    None
                },
            },
        ] + forced_from(text, tokens, denom, cap_chars, end, hint)
    }
}

/// The smaller of two integers.
pub open spec fn min_int(a: int, b: int) -> int {
    if a <= b {
        a
    } else {
        b
    }
}

/// The character count used as divisor (at least one).
pub open spec fn denom_of(text: Seq<char>) -> int {
    if text.len() >= 1 {
        text.len() as int
    } else {
        1
    }
}

/// Characters per forced piece: as many as fit `hard_cap` tokens at the
/// sentence's tokens-per-character rate, and at least one.
pub open spec fn cap_chars_of(s: SentenceModel, hard_cap: i64) -> int {
    let c = hard_cap * denom_of(s.text) / (s.token_count as int);
    if c >= 1 {
        c
    } else {
        1
    }
}

/// `force_split_sentence`: an oversized sentence cut at character level.
pub open spec fn forced_chunks(s: SentenceModel, hint: Option<Seq<char>>, hard_cap: i64) -> Seq<ChunkModel> {
    forced_from(s.text, s.token_count as int, denom_of(s.text), cap_chars_of(s, hard_cap), 0, hint)
}

/// The greedy packer's state: chunks so far and the open accumulation.
pub struct PackState {
    pub chunks: Seq<ChunkModel>,
    pub text: Seq<char>,
    pub tokens: int,
    pub chars: int,
}

/// Closes the open accumulation as a chunk (trimmed); only the very first
/// chunk carries the hint.
pub open spec fn flush(st: PackState, hint: Option<Seq<char>>) -> PackState {
    PackState {
        chunks: st.chunks.push(
            ChunkModel {
                text: trimmed(st.text),
                char_count: st.chars as i64,
                token_count: st.tokens as i64,
                context_hint: if st.chunks.len() == 0 {
                    hint
                } else {
                    None
                },
            },
        ),
        text: Seq::empty(),
        tokens: 0,
        chars: 0,
    }
}

/// One sentence through the packer: a sentence over `hard_cap` flushes what
/// has accumulated and is force-split at character level; otherwise the
/// accumulation is flushed first when the sentence would take it past
/// `target`, and the sentence joins it (newline-separated).
pub open spec fn pack_step(
    st: PackState,
    s: SentenceModel,
    hint: Option<Seq<char>>,
    target: i64,
    hard_cap: i64,
) -> PackState {
    if s.token_count > hard_cap {
        let st1 = if st.text.len() > 0 {
            flush(st, hint)
        } else {
            st
        };
        PackState { chunks: st1.chunks + forced_chunks(s, hint, hard_cap), ..st1 }
    } else {
        let st1 = if st.text.len() > 0 && st.tokens + s.token_count > target {
            flush(st, hint)
        } else {
            st
        };
        PackState {
            text: (if st1.text.len() > 0 {
                st1.text.push('\n')
            } else {
                st1.text
            }) + s.text,
            tokens: st1.tokens + s.token_count,
            chars: st1.chars + s.char_count,
            ..st1
        }
    }
}

/// The packer after the given sentences.
pub open spec fn pack_all(
    sents: Seq<SentenceModel>,
    hint: Option<Seq<char>>,
    target: i64,
    hard_cap: i64,
) -> PackState
    decreases sents.len(),
{
    if sents.len() == 0 {
        PackState { chunks: Seq::empty(), text: Seq::empty(), tokens: 0, chars: 0 }
    } else {
        pack_step(pack_all(sents.drop_last(), hint, target, hard_cap), sents.last(), hint, target, hard_cap)
    }
}

/// `build_chunks_from_sentences`: the packer's chunks, with the last
/// accumulation flushed.
pub open spec fn packed_chunks(
    sents: Seq<SentenceModel>,
    hint: Option<Seq<char>>,
    target: i64,
    hard_cap: i64,
) -> Seq<ChunkModel> {
    let st = pack_all(sents, hint, target, hard_cap);
    if st.text.len() > 0 {
        flush(st, hint).chunks
    } else {
        st.chunks
    }
}

/// What the packer keeps of its accumulation: whether it holds text, and
/// its token and character sums.
pub struct AccModel {
    pub nonempty: bool,
    pub tokens: int,
    pub chars: int,
}

/// The accumulation after one more sentence (see `pack_step`).
pub open spec fn acc_step(a: AccModel, s: SentenceModel, target: i64, hard_cap: i64) -> AccModel {
    if s.token_count > hard_cap {
        if a.nonempty {
            AccModel { nonempty: false, tokens: 0, chars: 0 }
        } else {
            a
        }
    } else {
        let a1 = if a.nonempty && a.tokens + s.token_count > target {
            AccModel { nonempty: false, tokens: 0, chars: 0 }
        } else {
            a
        };
        AccModel {
            nonempty: a1.nonempty || s.text.len() > 0,
            tokens: a1.tokens + s.token_count,
            chars: a1.chars + s.char_count,
        }
    }
}

/// The accumulation after the given sentences.
pub open spec fn acc_all(sents: Seq<SentenceModel>, target: i64, hard_cap: i64) -> AccModel
    decreases sents.len(),
{
    if sents.len() == 0 {
        AccModel { nonempty: false, tokens: 0, chars: 0 }
    } else {
        acc_step(acc_all(sents.drop_last(), target, hard_cap), sents.last(), target, hard_cap)
    }
}

/// The sums the packer computes when sentence `s` meets accumulation `a`
/// fit an `i64`: the token sum it compares with the target, and the
/// character sum when the sentence joins the accumulation.
pub open spec fn step_sums_fit(a: AccModel, s: SentenceModel, target: i64, hard_cap: i64) -> bool {
    s.token_count > hard_cap || ({
        &&& i64::MIN <= a.tokens + s.token_count <= i64::MAX
        &&& (a.nonempty && a.tokens + s.token_count > target) || (i64::MIN <= a.chars + s.char_count <= i64::MAX)
    })
}

/// Every running sum of token and character counts that the packer computes
/// fits an `i64`.
pub open spec fn pack_sums_fit(sents: Seq<SentenceModel>, target: i64, hard_cap: i64) -> bool {
    forall|i: int|
        0 <= i < sents.len() ==> #[trigger] step_sums_fit(acc_all(sents.take(i), target, hard_cap), sents[i], target, hard_cap)
}

/// Cuts an oversized sentence into pieces of at most `hard_cap` tokens' worth
/// of characters.
pub fn force_split_sentence(sentence: &SentenceInfo, context_hint: Option<&str>, hard_cap_tokens: i64) -> (r: Vec<ChunkSegment>)
    requires
        hard_cap_tokens >= 1,
        sentence.token_count > hard_cap_tokens,
        estimable(sentence.text@),
    ensures
        chunks_view(r@) == forced_chunks(
            sentence_view(*sentence),
            match context_hint {
                Some(h) => Some(h@),
                None => None,
            },
            hard_cap_tokens,
        ),
{
    let ghost hint = match context_hint {
        Some(h) => Some(h@),
        None => None::<Seq<char>>,
    };
    let chars = chars_of(sentence.text.as_str());
    let n = chars.len();
    let denom: u128 = if n >= 1 {
        n as u128
    } else {
        1
    };
    let tc = sentence.token_count as u128;
    proof {
        assert(hard_cap_tokens as u128 * denom <= u64::MAX as u128 * u64::MAX as u128) by (nonlinear_arith)
            requires
                hard_cap_tokens as u128 <= u64::MAX as u128,
                denom <= u64::MAX as u128,
        ;
    }
    let cap_wide: u128 = (hard_cap_tokens as u128) * denom / tc;
    proof {
        assert(cap_wide < denom) by (nonlinear_arith)
            requires
                cap_wide as int == (hard_cap_tokens as int) * (denom as int) / (tc as int),
                (hard_cap_tokens as u128) < tc,
                denom > 0,
        {
            assert((hard_cap_tokens as u128) * denom < tc * denom);
        }
    }
    let cap_chars: usize = if cap_wide >= 1 {
        cap_wide as usize
    } else {
        1
    };
    assert(cap_chars as int == cap_chars_of(sentence_view(*sentence), hard_cap_tokens));
    let mut out: Vec<ChunkSegment> = Vec::new();
    let mut pos: usize = 0;
    let ghost full = forced_chunks(sentence_view(*sentence), hint, hard_cap_tokens);
    while pos < n
        invariant
            n == chars@.len(),
            chars@ == sentence.text@,
            estimable(sentence.text@),
            pos <= n,
            cap_chars >= 1,
            cap_chars <= denom,
            denom as int == denom_of(sentence.text@),
            cap_chars as int == cap_chars_of(sentence_view(*sentence), hard_cap_tokens),
            tc == sentence.token_count,
            tc > 1,
            tc <= i64::MAX,
            hint == (match context_hint {
                Some(h) => Some(h@),
                None => None::<Seq<char>>,
            }),
            full == forced_chunks(sentence_view(*sentence), hint, hard_cap_tokens),
            chunks_view(out@) + forced_from(
                sentence.text@,
                sentence.token_count as int,
                denom as int,
                cap_chars as int,
                pos as int,
                hint,
            ) == full,
        decreases n - pos,
    {
        let end = if cap_chars < n - pos {
            pos + cap_chars
        } else {
            n
        };
        let mut seg: Vec<char> = Vec::new();
        let mut k = pos;
        while k < end
            invariant
                pos <= k <= end <= n,
                n == chars@.len(),
                seg@ == chars@.subrange(pos as int, k as int),
            decreases end - k,
        {
            seg.push(chars[k]);
            k = k + 1;
            assert(chars@.subrange(pos as int, k as int) =~= chars@.subrange(pos as int, (k - 1) as int).push(
                chars@[k - 1],
            ));
        }
        let seg_chars = (end - pos) as u128;
        proof {
            assert((seg_chars as int) * (tc as int) / (denom as int) <= tc as int) by (nonlinear_arith)
                requires
                    seg_chars <= denom,
                    denom > 0,
                    tc > 0,
            {
                assert(seg_chars * tc <= denom * tc);
            }
            assert(seg_chars * tc <= u64::MAX as u128 * u64::MAX as u128) by (nonlinear_arith)
                requires
                    seg_chars <= u64::MAX as u128,
                    tc <= u64::MAX as u128,
            ;
        }
        let seg_tokens = (seg_chars * tc / denom) as i64;
        let context = if pos == 0 {
            match context_hint {
                Some(h) => Some(String::from_str(h)),
                None => None,
            }
        } else {
            None
        };
        let piece = ChunkSegment {
            text: string_from_chars(seg.as_slice()),
            char_count: (end - pos) as i64,
            token_count: seg_tokens,
            context_hint: context,
        };
        let ghost before = chunks_view(out@);
        out.push(piece);
        proof {
            assert(chunks_view(out@) =~= before.push(chunk_view(piece)));
            let rest = forced_from(sentence.text@, sentence.token_count as int, denom as int, cap_chars as int, end as int, hint);
            assert(forced_from(sentence.text@, sentence.token_count as int, denom as int, cap_chars as int, pos as int, hint)
                == seq![chunk_view(piece)] + rest);
            assert(before.push(chunk_view(piece)) + rest =~= before + (seq![chunk_view(piece)] + rest));
        }
        pos = end;
    }
    assert(chunks_view(out@) + Seq::<ChunkModel>::empty() =~= chunks_view(out@));
    out
}

} // verus!

verus! {

proof fn lemma_acc_matches(sents: Seq<SentenceModel>, hint: Option<Seq<char>>, target: i64, hard_cap: i64)
    ensures
        pack_all(sents, hint, target, hard_cap).tokens == acc_all(sents, target, hard_cap).tokens,
        pack_all(sents, hint, target, hard_cap).chars == acc_all(sents, target, hard_cap).chars,
        (pack_all(sents, hint, target, hard_cap).text.len() > 0) == acc_all(sents, target, hard_cap).nonempty,
    decreases sents.len(),
{
    if sents.len() > 0 {
        lemma_acc_matches(sents.drop_last(), hint, target, hard_cap);
        let st = pack_all(sents.drop_last(), hint, target, hard_cap);
        let s = sents.last();
        if s.token_count <= hard_cap {
            let st1 = if st.text.len() > 0 && st.tokens + s.token_count > target {
                flush(st, hint)
            } else {
                st
            };
            let t = (if st1.text.len() > 0 {
                st1.text.push('\n')
            } else {
                st1.text
            }) + s.text;
            assert(t.len() == (if st1.text.len() > 0 { st1.text.len() + 1 } else { 0 }) + s.text.len());
        }
    }
}

/// Wraps an optional hint as an owned string.
fn owned_hint(context_hint: Option<&str>) -> (r: Option<String>)
    ensures
        hint_view(r) == (match context_hint {
            Some(h) => Some(h@),
            None => None::<Seq<char>>,
        }),
{
    match context_hint {
        Some(h) => Some(String::from_str(h)),
        None => None,
    }
}

/// Packs sentences greedily into chunks of about `target_tokens` tokens,
/// force-splitting sentences above `hard_cap_tokens`.
pub fn build_chunks_from_sentences(
    sentences: &[SentenceInfo],
    context_hint: Option<&str>,
    target_tokens: i64,
    hard_cap_tokens: i64,
) -> (r: Vec<ChunkSegment>)
    requires
        hard_cap_tokens >= 1,
        pack_sums_fit(sentences_view(sentences@), target_tokens, hard_cap_tokens),
        forall|i: int| 0 <= i < sentences@.len() ==> estimable(#[trigger] sentences@[i].text@),
    ensures
        chunks_view(r@) == packed_chunks(
            sentences_view(sentences@),
            match context_hint {
                Some(h) => Some(h@),
                None => None::<Seq<char>>,
            },
            target_tokens,
            hard_cap_tokens,
        ),
        r@.len() > 0 ==> hint_view(r@[0].context_hint) == (match context_hint {
            Some(h) => Some(h@),
            None => None::<Seq<char>>,
        }),
        forall|i: int| 0 <= i < r@.len() ==> hint_view((#[trigger] r@[i]).context_hint) is None || hint_view(
            r@[i].context_hint,
        ) == (match context_hint {
            Some(h) => Some(h@),
            None => None::<Seq<char>>,
        }),
{
    let ghost hint = match context_hint {
        Some(h) => Some(h@),
        None => None::<Seq<char>>,
    };
    let ghost sv = sentences_view(sentences@);
    let mut chunks: Vec<ChunkSegment> = Vec::new();
    let mut acc: Vec<char> = Vec::new();
    let mut acc_tokens: i64 = 0;
    let mut acc_chars: i64 = 0;
    let mut i: usize = 0;
    assert(sv.take(0) =~= Seq::<SentenceModel>::empty());
    assert(chunks_view(chunks@) =~= Seq::<ChunkModel>::empty());
    while i < sentences.len()
        invariant
            i <= sentences@.len(),
            sv == sentences_view(sentences@),
            sv.len() == sentences@.len(),
            hard_cap_tokens >= 1,
            pack_sums_fit(sv, target_tokens, hard_cap_tokens),
            forall|j: int| 0 <= j < sentences@.len() ==> estimable(#[trigger] sentences@[j].text@),
            hint == (match context_hint {
                Some(h) => Some(h@),
                None => None::<Seq<char>>,
            }),
            ({
                let st = pack_all(sv.take(i as int), hint, target_tokens, hard_cap_tokens);
                &&& chunks_view(chunks@) == st.chunks
                &&& acc@ == st.text
                &&& acc_tokens == st.tokens
                &&& acc_chars == st.chars
            }),
        decreases sentences@.len() - i,
    {
        let ghost st0 = pack_all(sv.take(i as int), hint, target_tokens, hard_cap_tokens);
        proof {
            lemma_acc_matches(sv.take(i as int), hint, target_tokens, hard_cap_tokens);
            assert(sv.take(i + 1).drop_last() =~= sv.take(i as int));
            assert(sv.take(i + 1).last() == sv[i as int]);
            assert(sv[i as int] == sentence_view(sentences@[i as int]));
            assert(step_sums_fit(acc_all(sv.take(i as int), target_tokens, hard_cap_tokens), sv[i as int], target_tokens, hard_cap_tokens));
        }
        let s = &sentences[i];
        if s.token_count > hard_cap_tokens {
            proof {
                assert(sv[i as int].token_count > hard_cap_tokens);
            }
            if acc.len() > 0 {
                let context = if chunks.len() == 0 {
                    owned_hint(context_hint)
                } else {
                    None
                };
                let t = trim_chars(acc.as_slice());
                let piece = ChunkSegment {
                    text: string_from_chars(t.as_slice()),
                    char_count: acc_chars,
                    token_count: acc_tokens,
                    context_hint: context,
                };
                let ghost before = chunks_view(chunks@);
                chunks.push(piece);
                proof {
                    assert(chunks_view(chunks@) =~= before.push(chunk_view(piece)));
                }
                acc = Vec::new();
                acc_tokens = 0;
                acc_chars = 0;
            }
            let forced = force_split_sentence(s, context_hint, hard_cap_tokens);
            let ghost before = chunks_view(chunks@);
            let mut forced = forced;
            let ghost fv = chunks_view(forced@);
            chunks.append(&mut forced);
            proof {
                assert(chunks_view(chunks@) =~= before + fv);
            }
        } else {
            if acc.len() > 0 && acc_tokens + s.token_count > target_tokens {
                let context = if chunks.len() == 0 {
                    owned_hint(context_hint)
                } else {
                    None
                };
                let t = trim_chars(acc.as_slice());
                let piece = ChunkSegment {
                    text: string_from_chars(t.as_slice()),
                    char_count: acc_chars,
                    token_count: acc_tokens,
                    context_hint: context,
                };
                let ghost before = chunks_view(chunks@);
                chunks.push(piece);
                proof {
                    assert(chunks_view(chunks@) =~= before.push(chunk_view(piece)));
                }
                acc = Vec::new();
                acc_tokens = 0;
                acc_chars = 0;
            }
            let ghost acc1 = acc@;
            if acc.len() > 0 {
                acc.push('\n');
            }
            let ghost acc2 = acc@;
            let sc = chars_of(s.text.as_str());
            let mut k: usize = 0;
            while k < sc.len()
                invariant
                    k <= sc@.len(),
                    acc@ == acc2 + sc@.take(k as int),
                decreases sc@.len() - k,
            {
                acc.push(sc[k]);
                k = k + 1;
                assert(acc2 + sc@.take(k as int) =~= (acc2 + sc@.take((k - 1) as int)).push(sc@[k - 1]));
            }
            assert(sc@.take(sc@.len() as int) =~= sc@);
            acc_tokens = acc_tokens + s.token_count;
            acc_chars = acc_chars + s.char_count;
        }
        i = i + 1;
    }
    assert(sv.take(sentences@.len() as int) =~= sv);
    if acc.len() > 0 {
        let context = if chunks.len() == 0 {
            owned_hint(context_hint)
        } else {
            None
        };
        let t = trim_chars(acc.as_slice());
        let piece = ChunkSegment {
            text: string_from_chars(t.as_slice()),
            char_count: acc_chars,
            token_count: acc_tokens,
            context_hint: context,
        };
        let ghost before = chunks_view(chunks@);
        chunks.push(piece);
        proof {
            assert(chunks_view(chunks@) =~= before.push(chunk_view(piece)));
        }
    }
    proof {
        lemma_first_chunk_carries_hint(sv, hint, target_tokens, hard_cap_tokens);
        let pc = packed_chunks(sv, hint, target_tokens, hard_cap_tokens);
        assert forall|i: int| 0 <= i < chunks@.len() implies hint_view((#[trigger] chunks@[i]).context_hint) is None
            || hint_view(chunks@[i].context_hint) == hint by {
            assert(chunk_view(chunks@[i]) == pc[i]);
        }
        if chunks@.len() > 0 {
            assert(chunk_view(chunks@[0]) == pc[0]);
        }
    }
    chunks
}

} // verus!

verus! {

/// Which characters end a segment.
#[derive(Debug, Clone, Copy, PartialEq, Eq, Structural)]
pub enum Delimiters {
    /// 。！？.!? and newline.
    SentenceEnds,
    /// 。！？!? and newline.
    Boundaries,
}

/// The predicate that a delimiter kind stands for.
pub open spec fn delim_pred(d: Delimiters) -> spec_fn(char) -> bool {
    match d {
        Delimiters::SentenceEnds => sentence_end_pred(),
        Delimiters::Boundaries => boundary_pred(),
    }
}

fn is_delim(d: Delimiters, c: char) -> (r: bool)
    ensures
        r == delim_pred(d)(c),
{
    match d {
        Delimiters::SentenceEnds => sentence_end(c),
        Delimiters::Boundaries => boundary(c),
    }
}

/// The views of a vector of character vectors.
pub open spec fn seqs_view(v: Seq<Vec<char>>) -> Seq<Seq<char>> {
    v.map_values(|x: Vec<char>| x@)
}

/// Cuts characters into raw segments at the given delimiters.
pub fn raw_segments_chars(v: &[char], d: Delimiters) -> (r: Vec<Vec<char>>)
    ensures
        seqs_view(r@) == raw_segments(v@, delim_pred(d)),
{
    let ghost delim = delim_pred(d);
    let mut segs: Vec<Vec<char>> = Vec::new();
    let mut current: Vec<char> = Vec::new();
    let mut i: usize = 0;
    assert(v@.take(0) =~= Seq::<char>::empty());
    assert(seqs_view(segs@) =~= Seq::<Seq<char>>::empty());
    while i < v.len()
        invariant
            i <= v@.len(),
            delim == delim_pred(d),
            ({
                let raw = raw_segments(v@.take(i as int), delim);
                if current@.len() > 0 {
                    &&& raw == seqs_view(segs@).push(current@)
                    &&& !delim(current@.last())
                } else {
                    &&& raw == seqs_view(segs@)
                    &&& (raw.len() == 0 || delim(raw.last().last()))
                }
            }),
        decreases v@.len() - i,
    {
        let c = v[i];
        let ghost prefix = v@.take(i as int);
        let ghost before = seqs_view(segs@);
        proof {
            assert(v@.take(i + 1).drop_last() =~= prefix);
            assert(v@.take(i + 1).last() == c);
            lemma_raw_segments_nonempty(prefix, delim);
            if current@.len() > 0 {
                assert(raw_segments(prefix, delim).drop_last() =~= before);
            }
        }
        let ghost cur_old = current@;
        current.push(c);
        proof {
            let prev = raw_segments(prefix, delim);
            let nxt = raw_segments(v@.take(i + 1), delim);
            if cur_old.len() > 0 {
                assert(prev.drop_last() =~= before);
                assert(prev.last() == cur_old);
                assert(nxt =~= before.push(current@));
            } else {
                assert(cur_old =~= Seq::<char>::empty());
                assert(current@ =~= seq![c]);
                assert(nxt =~= before.push(current@));
            }
        }
        if is_delim(d, c) {
            let done = current;
            current = Vec::new();
            let ghost dv = done@;
            segs.push(done);
            proof {
                assert(seqs_view(segs@) =~= before.push(dv));
            }
        }
        i = i + 1;
    }
    assert(v@.take(v@.len() as int) =~= v@);
    if current.len() > 0 {
        let ghost before = seqs_view(segs@);
        let ghost cv = current@;
        segs.push(current);
        proof {
            assert(seqs_view(segs@) =~= before.push(cv));
        }
    }
    segs
}

/// The non-blank segments, untrimmed, in order.
pub open spec fn nonblank_segments(segs: Seq<Seq<char>>) -> Seq<Seq<char>>
    decreases segs.len(),
{
    if segs.len() == 0 {
        Seq::empty()
    } else {
        let rest = nonblank_segments(segs.drop_last());
        if trimmed(segs.last()).len() > 0 {
            rest.push(segs.last())
        } else {
            rest
        }
    }
}

/// A sentence measured by the local tokenizer.
pub open spec fn measured(s: Seq<char>) -> SentenceModel {
    SentenceModel { text: s, token_count: token_count_estimate(s) as i64, char_count: s.len() as i64 }
}

/// `tokenize_local`: the text cut after each of 。！？!? and newline, blank
/// pieces dropped, each measured; the whole text as one sentence when no
/// piece is left.
pub open spec fn local_sentences(s: Seq<char>) -> Seq<SentenceModel> {
    let pieces = nonblank_segments(raw_segments(s, boundary_pred()));
    if pieces.len() == 0 {
        seq![measured(s)]
    } else {
        measured_all(pieces)
    }
}

/// Each segment measured by the local tokenizer's estimate.
pub open spec fn measured_all(ps: Seq<Seq<char>>) -> Seq<SentenceModel> {
    ps.map_values(|p: Seq<char>| measured(p))
}

proof fn lemma_segments_short(s: Seq<char>, delim: spec_fn(char) -> bool)
    ensures
        forall|k: int| 0 <= k < raw_segments(s, delim).len() ==> #[trigger] raw_segments(s, delim)[k].len() <= s.len(),
    decreases s.len(),
{
    if s.len() > 0 {
        lemma_segments_short(s.drop_last(), delim);
        let prev = raw_segments(s.drop_last(), delim);
        let cur = raw_segments(s, delim);
        assert forall|k: int| 0 <= k < cur.len() implies #[trigger] cur[k].len() <= s.len() by {
            if prev.len() == 0 || delim(prev.last().last()) {
                if k < prev.len() {
                    assert(cur[k] == prev[k]);
                }
            } else {
                if k < prev.len() - 1 {
                    assert(cur[k] == prev[k]);
                } else {
                    assert(cur[k] == prev.last().push(s.last()));
                }
            }
        }
    }
}

fn measure(v: Vec<char>) -> (r: SentenceInfo)
    requires
        estimable(v@),
    ensures
        sentence_view(r) == measured(v@),
{
    let token_count = estimate_token_count_chars(v.as_slice());
    let char_count = v.len() as i64;
    SentenceInfo { text: string_from_chars(v.as_slice()), token_count, char_count }
}

/// The local fallback tokenizer: sentence boundaries and estimated counts.
pub fn tokenize_local(text: &str) -> (r: Vec<SentenceInfo>)
    requires
        estimable(text@),
    ensures
        sentences_view(r@) == local_sentences(text@),
{
    let v = chars_of(text);
    let segs = raw_segments_chars(v.as_slice(), Delimiters::Boundaries);
    let ghost raw = raw_segments(v@, boundary_pred());
    proof {
        lemma_segments_short(v@, boundary_pred());
    }
    let mut out: Vec<SentenceInfo> = Vec::new();
    let mut k: usize = 0;
    let ghost kept: Seq<Seq<char>> = Seq::empty();
    assert(raw.take(0) =~= Seq::<Seq<char>>::empty());
    while k < segs.len()
        invariant
            k <= segs@.len(),
            seqs_view(segs@) == raw,
            raw == raw_segments(v@, boundary_pred()),
            estimable(v@),
            forall|j: int| 0 <= j < raw.len() ==> #[trigger] raw[j].len() <= v@.len(),
            kept == nonblank_segments(raw.take(k as int)),
            sentences_view(out@) == kept.map_values(|p: Seq<char>| measured(p)),
        decreases segs@.len() - k,
    {
        proof {
            assert(raw.take(k + 1).drop_last() =~= raw.take(k as int));
            assert(raw.take(k + 1).last() == raw[k as int]);
            assert(segs@[k as int]@ == raw[k as int]);
        }
        if !is_blank(segs[k].as_slice()) {
            let seg = segs[k].clone();
            let ghost before = sentences_view(out@);
            let info = measure(seg);
            out.push(info);
            proof {
                assert(sentences_view(out@) =~= before.push(sentence_view(info)));
                assert(kept.push(raw[k as int]).map_values(|p: Seq<char>| measured(p)) =~= kept.map_values(
                    |p: Seq<char>| measured(p),
                ).push(measured(raw[k as int])));
                kept = kept.push(raw[k as int]);
            }
        }
        k = k + 1;
    }
    assert(raw.take(segs@.len() as int) =~= raw);
    if out.len() == 0 {
        let whole = measure(v);
        let r = vec![whole];
        assert(sentences_view(r@) =~= seq![measured(text@)]);
        return r;
    }
    out
}

/// `MimoChunker::estimate_tokens`: the heuristic token estimate of a text.
pub fn estimate_tokens(text: &str) -> (r: i64)
    requires
        estimable(text@),
    ensures
        r == heuristic_token_estimate(text@),
{
    let v = chars_of(text);
    estimate_tokens_chars(v.as_slice())
}

} // verus!

verus! {

/// A sentence measured by the heuristic estimate.
pub open spec fn heuristic_measured(p: Seq<char>) -> SentenceModel {
    SentenceModel { text: p, token_count: heuristic_token_estimate(p) as i64, char_count: p.len() as i64 }
}

/// The sentences of `split_heuristic`, measured.
pub open spec fn heuristic_sentences(s: Seq<char>) -> Seq<SentenceModel> {
    heuristic_all(sentences_of(s))
}

/// `split_heuristic`: nothing for blank text; otherwise the sentences of
/// `split_sentences`, measured heuristically, packed into chunks.
pub open spec fn heuristic_chunks(s: Seq<char>, hint: Option<Seq<char>>, target: i64, hard_cap: i64) -> Seq<ChunkModel> {
    if trimmed(s).len() == 0 {
        Seq::empty()
    } else if sentences_of(s).len() == 0 {
        seq![
            ChunkModel {
                text: s,
                char_count: s.len() as i64,
                token_count: heuristic_token_estimate(s) as i64,
                context_hint: hint,
            },
        ]
    } else {
        packed_chunks(heuristic_sentences(s), hint, target, hard_cap)
    }
}

proof fn lemma_trimmed_nonblank_short(segs: Seq<Seq<char>>, bound: int)
    requires
        forall|k: int| 0 <= k < segs.len() ==> #[trigger] segs[k].len() <= bound,
    ensures
        forall|k: int| 0 <= k < trimmed_nonblank(segs).len() ==> #[trigger] trimmed_nonblank(segs)[k].len() <= bound,
        trimmed_nonblank(segs).len() <= segs.len(),
    decreases segs.len(),
{
    if segs.len() > 0 {
        lemma_trimmed_nonblank_short(segs.drop_last(), bound);
        crate::text::lemma_trimmed_shape(segs.last());
        let rest = trimmed_nonblank(segs.drop_last());
        assert forall|k: int| 0 <= k < trimmed_nonblank(segs).len() implies #[trigger] trimmed_nonblank(segs)[k].len() <= bound by {
            if k < rest.len() {
                assert(trimmed_nonblank(segs)[k] == rest[k]);
            }
        }
    }
}

proof fn lemma_sentences_short(s: Seq<char>)
    ensures
        forall|k: int| 0 <= k < sentences_of(s).len() ==> #[trigger] sentences_of(s)[k].len() <= s.len(),
        sentences_of(s).len() <= s.len(),
{
    lemma_segments_short(s, sentence_end_pred());
    lemma_raw_segments_count(s, sentence_end_pred());
    lemma_trimmed_nonblank_short(raw_segments(s, sentence_end_pred()), s.len() as int);
}

proof fn lemma_raw_segments_count(s: Seq<char>, delim: spec_fn(char) -> bool)
    ensures
        raw_segments(s, delim).len() <= s.len(),
    decreases s.len(),
{
    if s.len() > 0 {
        lemma_raw_segments_count(s.drop_last(), delim);
    }
}

proof fn lemma_heuristic_small(p: Seq<char>)
    ensures
        0 <= heuristic_token_estimate(p) <= 2 * p.len() + 1,
        p.len() >= 1 ==> heuristic_token_estimate(p) <= 2 * p.len(),
{
    let w = p.filter(wide_pred()).len() as int;
    let a = p.filter(ascii_visible_pred()).len() as int;
    p.lemma_filter_len(wide_pred());
    p.lemma_filter_len(ascii_visible_pred());
    lemma_wide_ascii_disjoint(p);
}

proof fn lemma_wide_ascii_disjoint(p: Seq<char>)
    ensures
        p.filter(wide_pred()).len() + p.filter(ascii_visible_pred()).len() <= p.len(),
    decreases p.len(),
{
    reveal(Seq::filter);
    if p.len() > 0 {
        lemma_wide_ascii_disjoint(p.drop_last());
    }
}

/// Splits text with the local heuristic (sentence ends and estimated counts)
/// and packs the sentences into chunks.
pub fn split_heuristic(text: &str, context_hint: Option<&str>, target_tokens: i64, hard_cap_tokens: i64) -> (r: Vec<ChunkSegment>)
    requires
        hard_cap_tokens >= 1,
        estimable(text@),
    ensures
        chunks_view(r@) == heuristic_chunks(
            text@,
            match context_hint {
                Some(h) => Some(h@),
                None => None::<Seq<char>>,
            },
            target_tokens,
            hard_cap_tokens,
        ),
{
    let v = chars_of(text);
    if is_blank(v.as_slice()) {
        return Vec::new();
    }
    let raw = split_sentences_chars(v.as_slice());
    if raw.len() == 0 {
        let token_count = estimate_tokens_chars(v.as_slice());
        let r = vec![
            ChunkSegment {
                text: String::from_str(text),
                char_count: v.len() as i64,
                token_count,
                context_hint: owned_hint(context_hint),
            },
        ];
        assert(chunks_view(r@) =~= heuristic_chunks(
            text@,
            match context_hint {
                Some(h) => Some(h@),
                None => None::<Seq<char>>,
            },
            target_tokens,
            hard_cap_tokens,
        ));
        return r;
    }
    proof {
        lemma_sentences_short(v@);
    }
    let ghost hs = heuristic_sentences(v@);
    let mut sentences: Vec<SentenceInfo> = Vec::new();
    let mut k: usize = 0;
    while k < raw.len()
        invariant
            k <= raw@.len(),
            raw@.len() == sentences_of(v@).len(),
            forall|j: int| 0 <= j < raw@.len() ==> #[trigger] raw@[j]@ == sentences_of(v@)[j],
            forall|j: int| 0 <= j < sentences_of(v@).len() ==> #[trigger] sentences_of(v@)[j].len() <= v@.len(),
            estimable(v@),
            hs == heuristic_sentences(v@),
            sentences_view(sentences@) == hs.take(k as int),
        decreases raw@.len() - k,
    {
        let p = &raw[k];
        proof {
            assert(p@ == sentences_of(v@)[k as int]);
            assert(p@.len() <= v@.len());
        }
        let token_count = estimate_tokens_chars(p.as_slice());
        let info = SentenceInfo {
            text: string_from_chars(p.as_slice()),
            token_count,
            char_count: p.len() as i64,
        };
        let ghost before = sentences_view(sentences@);
        sentences.push(info);
        proof {
            lemma_heuristic_small(p@);
            assert(hs[k as int] == heuristic_measured(sentences_of(v@)[k as int]));
            assert(sentence_view(info) == hs[k as int]);
            assert(sentences_view(sentences@) =~= before.push(sentence_view(info)));
            assert(sentences_view(sentences@) =~= hs.take(k + 1));
        }
        k = k + 1;
    }
    proof {
        assert(hs.take(raw@.len() as int) =~= hs);
        assert forall|i: int| 0 <= i < sentences@.len() implies estimable(#[trigger] sentences@[i].text@) by {
            assert(sentence_view(sentences@[i]) == hs[i]);
        }
        lemma_raw_segments_total(v@, sentence_end_pred());
        lemma_trimmed_nonblank_total(raw_segments(v@, sentence_end_pred()));
        lemma_heuristic_totals(sentences_of(v@));
        assert(hs == heuristic_all(sentences_of(v@)));
        assert(counts_nonneg(hs));
        lemma_nonneg_sums_fit(hs, target_tokens, hard_cap_tokens);
    }
    build_chunks_from_sentences(sentences.as_slice(), context_hint, target_tokens, hard_cap_tokens)
}

/// Whether every running sum that packing these sentences computes fits an
/// `i64` (`pack_sums_fit`), the condition `build_chunks_from_sentences`
/// needs.
pub fn pack_sums_check(sentences: &[SentenceInfo], target_tokens: i64, hard_cap_tokens: i64) -> (r: bool)
    ensures
        r == pack_sums_fit(sentences_view(sentences@), target_tokens, hard_cap_tokens),
{
    let ghost sv = sentences_view(sentences@);
    let mut nonempty = false;
    let mut tokens: i64 = 0;
    let mut chars: i64 = 0;
    let mut i: usize = 0;
    assert(sv.take(0) =~= Seq::<SentenceModel>::empty());
    while i < sentences.len()
        invariant
            i <= sentences@.len(),
            sv == sentences_view(sentences@),
            sv.len() == sentences@.len(),
            acc_all(sv.take(i as int), target_tokens, hard_cap_tokens) == (AccModel {
                nonempty,
                tokens: tokens as int,
                chars: chars as int,
            }),
            forall|j: int| 0 <= j < i ==> #[trigger] step_sums_fit(
                acc_all(sv.take(j), target_tokens, hard_cap_tokens),
                sv[j],
                target_tokens,
                hard_cap_tokens,
            ),
        decreases sentences@.len() - i,
    {
        let s = &sentences[i];
        proof {
            assert(sv.take(i + 1).drop_last() =~= sv.take(i as int));
            assert(sv.take(i + 1).last() == sv[i as int]);
            assert(sv[i as int] == sentence_view(sentences@[i as int]));
        }
        if s.token_count > hard_cap_tokens {
            if nonempty {
                nonempty = false;
                tokens = 0;
                chars = 0;
            }
        } else {
            let t: i128 = tokens as i128 + s.token_count as i128;
            if t < i64::MIN as i128 || t > i64::MAX as i128 {
                assert(!step_sums_fit(acc_all(sv.take(i as int), target_tokens, hard_cap_tokens), sv[i as int], target_tokens, hard_cap_tokens));
                return false;
            }
            if nonempty && t > target_tokens as i128 {
                nonempty = false;
                tokens = 0;
                chars = 0;
            } else {
                let c: i128 = chars as i128 + s.char_count as i128;
                if c < i64::MIN as i128 || c > i64::MAX as i128 {
                    assert(!step_sums_fit(acc_all(sv.take(i as int), target_tokens, hard_cap_tokens), sv[i as int], target_tokens, hard_cap_tokens));
                    return false;
                }
            }
            nonempty = nonempty || !s.text.as_str().is_empty();
            tokens = tokens + s.token_count;
            chars = chars + s.char_count;
        }
        i = i + 1;
    }
    assert(sv.take(sentences@.len() as int) =~= sv);
    true
}

/// Sentence `s` is short enough to measure, and if it is above `hard_cap`
/// tokens and not empty, `hard_cap` tokens per character cover it.
pub open spec fn sentence_checks(s: SentenceModel, hard_cap: i64) -> bool {
    &&& estimable(s.text)
    &&& s.token_count > hard_cap && s.text.len() > 0 ==> hard_cap * s.text.len() >= s.token_count
}

/// Whether every sentence is short enough to measure and every oversized
/// one can be cut into pieces that stay within the hard cap (see
/// `lemma_forced_split_lossless`).
pub fn sentences_splittable(sentences: &[SentenceInfo], hard_cap_tokens: i64) -> (r: bool)
    ensures
        r == (forall|i: int| 0 <= i < sentences@.len() ==> #[trigger] sentence_checks(
            sentence_view(sentences@[i]),
            hard_cap_tokens,
        )),
        r ==> forall|i: int| 0 <= i < sentences@.len() ==> estimable(#[trigger] sentences@[i].text@),
{
    let ghost sv = sentences_view(sentences@);
    let mut i: usize = 0;
    while i < sentences.len()
        invariant
            i <= sentences@.len(),
            sv == sentences_view(sentences@),
            forall|j: int| 0 <= j < i ==> estimable(#[trigger] sentences@[j].text@),
            forall|j: int|
                0 <= j < i && #[trigger] sv[j].token_count > hard_cap_tokens && sv[j].text.len() > 0
                    ==> hard_cap_tokens * sv[j].text.len() >= sv[j].token_count,
            forall|j: int| 0 <= j < i ==> #[trigger] sentence_checks(sentence_view(sentences@[j]), hard_cap_tokens),
        decreases sentences@.len() - i,
    {
        let s = &sentences[i];
        let n = crate::text::chars_of(s.text.as_str()).len();
        if n as u128 * 3 > i64::MAX as u128 {
            assert(!sentence_checks(sentence_view(sentences@[i as int]), hard_cap_tokens));
            return false;
        }
        if s.token_count > hard_cap_tokens && n > 0 {
            assert((hard_cap_tokens as i128) * (n as i128) <= 0x4000_0000_0000_0000_0000_0000_0000_0000) by (nonlinear_arith)
                requires
                    -0x8000_0000_0000_0000 <= hard_cap_tokens as i128 <= 0x8000_0000_0000_0000,
                    0 < n as i128 <= 0x8000_0000_0000_0000,
            ;
            assert((hard_cap_tokens as i128) * (n as i128) >= -0x4000_0000_0000_0000_0000_0000_0000_0000) by (nonlinear_arith)
                requires
                    -0x8000_0000_0000_0000 <= hard_cap_tokens as i128 <= 0x8000_0000_0000_0000,
                    0 < n as i128 <= 0x8000_0000_0000_0000,
            ;
            let lhs = (hard_cap_tokens as i128) * (n as i128);
            if lhs < s.token_count as i128 {
                assert(!sentence_checks(sentence_view(sentences@[i as int]), hard_cap_tokens));
                return false;
            }
        }
        assert(sv[i as int] == sentence_view(sentences@[i as int]));
        i = i + 1;
    }
    true
}

} // verus!

verus! {

/// `trim_end_matches('/')`: the text without its trailing slashes.
pub open spec fn strip_trailing_slashes(s: Seq<char>) -> Seq<char>
    decreases s.len(),
{
    if s.len() > 0 && s.last() == '/' {
        strip_trailing_slashes(s.drop_last())
    } else {
        s
    }
}

/// `s.trim_end_matches('/')` as an owned string.
pub fn trim_trailing_slashes(s: &str) -> (r: String)
    ensures
        r@ == strip_trailing_slashes(s@),
{
    let v = chars_of(s);
    let mut end = v.len();
    assert(v@.take(end as int) =~= v@);
    while end > 0 && v[end - 1] == '/'
        invariant
            end <= v@.len(),
            strip_trailing_slashes(v@.take(end as int)) == strip_trailing_slashes(v@),
        decreases end,
    {
        assert(v@.take(end as int).drop_last() =~= v@.take(end - 1));
        end = end - 1;
    }
    let kept = crate::text::prefix(v.as_slice(), end);
    assert(strip_trailing_slashes(v@.take(end as int)) == v@.take(end as int));
    string_from_chars(kept.as_slice())
}

/// The sentences that chunking starts from: none for empty text, the remote
/// tokenizer's answer when it gave one, the local tokenizer's otherwise.
pub open spec fn tokenized(text: Seq<char>, remote: Option<Seq<SentenceModel>>) -> Seq<SentenceModel> {
    if text.len() == 0 {
        Seq::empty()
    } else {
        match remote {
            Some(v) => v,
            None => local_sentences(text),
        }
    }
}

/// The abstract answer of a remote tokenize call (`None` when it failed).
pub open spec fn remote_view(remote: Result<Vec<SentenceInfo>, AppError>) -> Option<Seq<SentenceModel>> {
    match remote {
        Ok(v) => Some(sentences_view(v@)),
        Err(_) => None,
    }
}

/// Splits long text into chunks for the synthesis API. The remote tokenize
/// call is made by the caller, which hands its outcome to `tokenize`/`split`.
pub struct MimoChunker {
    /// The API base URL, without trailing slashes.
    pub base_url: String,
    /// Target tokens per chunk.
    pub target_tokens: i64,
    /// A sentence above this many tokens is split at character level.
    pub hard_cap_tokens: i64,
}

impl MimoChunker {
    /// The API base URL (without trailing slashes).
    pub open spec fn base(&self) -> Seq<char> {
        self.base_url@
    }

    /// A chunker for the API at `base_url` (trailing slashes dropped).
    pub fn new(base_url: &str, target_tokens: i64, hard_cap_tokens: i64) -> (r: Self)
        ensures
            r.base() == strip_trailing_slashes(base_url@),
            r.target_tokens == target_tokens,
            r.hard_cap_tokens == hard_cap_tokens,
    {
        MimoChunker { base_url: trim_trailing_slashes(base_url), target_tokens, hard_cap_tokens }
    }

    /// The remote tokenize endpoint: `{base}/v1/tokenize`.
    pub fn tokenize_url(&self) -> (r: String)
        ensures
            r@ == self.base() + "/v1/tokenize"@,
    {
        let mut s = self.base_url.clone();
        s.append("/v1/tokenize");
        s
    }

    /// Sentence-level breakdown of `text`: the remote tokenizer's answer when
    /// it succeeded, the local fallback otherwise; never an error.
    pub fn tokenize(&self, text: &str, remote: Result<Vec<SentenceInfo>, AppError>) -> (r: Result<Vec<SentenceInfo>, AppError>)
        requires
            estimable(text@),
        ensures
            r matches Ok(v) && sentences_view(v@) == tokenized(text@, remote_view(remote)),
    {
        if text.is_empty() {
            let e: Vec<SentenceInfo> = Vec::new();
            assert(sentences_view(e@) =~= Seq::<SentenceModel>::empty());
            return Ok(e);
        }
        match remote {
            Ok(v) => Ok(v),
            Err(_) => Ok(tokenize_local(text)),
        }
    }

    /// Splits text into chunks along sentence boundaries: nothing for blank
    /// text, otherwise the tokenized sentences packed by the greedy packer.
    pub fn split(
        &self,
        text: &str,
        context_hint: Option<&str>,
        remote: Result<Vec<SentenceInfo>, AppError>,
    ) -> (r: Result<Vec<ChunkSegment>, AppError>)
        requires
            self.hard_cap_tokens >= 1,
            estimable(text@),
            remote_view(remote) matches Some(sv) ==> pack_sums_fit(sv, self.target_tokens, self.hard_cap_tokens)
                && forall|i: int| 0 <= i < sv.len() ==> estimable(#[trigger] sv[i].text),
        ensures
            r matches Ok(c) && chunks_view(c@) == (if trimmed(text@).len() == 0 {
                Seq::<ChunkModel>::empty()
            } else {
                packed_chunks(
                    tokenized(text@, remote_view(remote)),
                    match context_hint {
                        Some(h) => Some(h@),
                        None => None::<Seq<char>>,
                    },
                    self.target_tokens,
                    self.hard_cap_tokens,
                )
            }),
    {
        let v = chars_of(text);
        if is_blank(v.as_slice()) {
            let e: Vec<ChunkSegment> = Vec::new();
            assert(chunks_view(e@) =~= Seq::<ChunkModel>::empty());
            return Ok(e);
        }
        let ghost rv = remote_view(remote);
        let sentences = match self.tokenize(text, remote) {
            Ok(s) => s,
            Err(_) => Vec::new(),
        };
        proof {
            if rv is None {
                lemma_local_sentences_bounded(text@);
                lemma_nonneg_sums_fit(local_sentences(text@), self.target_tokens, self.hard_cap_tokens);
            }
            crate::text::lemma_trimmed_shape(text@);
            assert(text@.len() > 0);
            let sv = sentences_view(sentences@);
            assert(sv == tokenized(text@, rv));
            assert forall|i: int| 0 <= i < sentences@.len() implies estimable(#[trigger] sentences@[i].text@) by {
                assert(sv[i] == sentence_view(sentences@[i]));
                assert(estimable(sv[i].text));
            }
        }
        Ok(build_chunks_from_sentences(sentences.as_slice(), context_hint, self.target_tokens, self.hard_cap_tokens))
    }

    /// Heuristic split with this chunker's targets.
    pub fn split_heuristic(&self, text: &str, context_hint: Option<&str>) -> (r: Vec<ChunkSegment>)
        requires
            self.hard_cap_tokens >= 1,
            estimable(text@),
        ensures
            chunks_view(r@) == heuristic_chunks(
                text@,
                match context_hint {
                    Some(h) => Some(h@),
                    None => None::<Seq<char>>,
                },
                self.target_tokens,
                self.hard_cap_tokens,
            ),
    {
        split_heuristic(text, context_hint, self.target_tokens, self.hard_cap_tokens)
    }

    /// The heuristic token estimate of a text.
    pub fn estimate_tokens(text: &str) -> (r: i64)
        requires
            estimable(text@),
        ensures
            r == heuristic_token_estimate(text@),
    {
        estimate_tokens(text)
    }
}

proof fn lemma_nonblank_segments_short(segs: Seq<Seq<char>>, bound: int)
    requires
        forall|k: int| 0 <= k < segs.len() ==> #[trigger] segs[k].len() <= bound,
    ensures
        forall|k: int| 0 <= k < nonblank_segments(segs).len() ==> #[trigger] nonblank_segments(segs)[k].len() <= bound,
        nonblank_segments(segs).len() <= segs.len(),
    decreases segs.len(),
{
    if segs.len() > 0 {
        lemma_nonblank_segments_short(segs.drop_last(), bound);
        let rest = nonblank_segments(segs.drop_last());
        assert forall|k: int| 0 <= k < nonblank_segments(segs).len() implies #[trigger] nonblank_segments(segs)[k].len() <= bound by {
            if k < rest.len() {
                assert(nonblank_segments(segs)[k] == rest[k]);
            }
        }
    }
}

proof fn lemma_estimate_small(p: Seq<char>)
    ensures
        1 <= token_count_estimate(p) <= 2 * p.len() + 1,
{
    p.lemma_filter_len(cjk_pred());
}

proof fn lemma_measured_totals(ps: Seq<Seq<char>>)
    requires
        forall|k: int| 0 <= k < ps.len() ==> #[trigger] ps[k].len() >= 1,
        3 * len_sum(ps) <= i64::MAX,
    ensures
        0 <= tokens_total(measured_all(ps)) <= 3 * len_sum(ps),
        chars_total(measured_all(ps)) == len_sum(ps),
        forall|k: int| 0 <= k < ps.len() ==> {
            let m = #[trigger] measured_all(ps)[k];
            m.token_count >= 0 && m.char_count >= 0
        },
    decreases ps.len(),
{
    let ms = measured_all(ps);
    if ps.len() > 0 {
        let q = ps.drop_last();
        assert forall|k: int| 0 <= k < q.len() implies #[trigger] q[k].len() >= 1 by {
            assert(q[k] == ps[k]);
        }
        lemma_len_sum_nonneg(q);
        lemma_measured_totals(q);
        assert(ms.drop_last() =~= measured_all(q));
        let p = ps.last();
        lemma_estimate_small(p);
        assert(ms.last() == measured(p));
        assert forall|k: int| 0 <= k < ps.len() implies {
            let m = #[trigger] ms[k];
            m.token_count >= 0 && m.char_count >= 0
        } by {
            lemma_estimate_small(ps[k]);
            lemma_len_sum_part(ps, k);
        }
    }
}

/// The local tokenizer's sentences have no negative count, totals within
/// an `i64`, and short texts.
proof fn lemma_local_sentences_bounded(s: Seq<char>)
    requires
        estimable(s),
    ensures
        counts_nonneg(local_sentences(s)),
        tokens_total(local_sentences(s)) <= i64::MAX,
        chars_total(local_sentences(s)) <= i64::MAX,
        forall|i: int| 0 <= i < local_sentences(s).len() ==> estimable(#[trigger] local_sentences(s)[i].text),
{
    let raw = raw_segments(s, boundary_pred());
    lemma_segments_short(s, boundary_pred());
    lemma_nonblank_segments_short(raw, s.len() as int);
    lemma_raw_segments_total(s, boundary_pred());
    lemma_nonblank_segments_total(raw);
    let pieces = nonblank_segments(raw);
    let ls = local_sentences(s);
    if pieces.len() == 0 {
        lemma_estimate_small(s);
        let one = seq![measured(s)];
        assert(ls == one);
        assert(one.drop_last() =~= Seq::<SentenceModel>::empty());
        assert(one.last() == measured(s));
        assert(measured(s).token_count == token_count_estimate(s));
        assert(measured(s).char_count == s.len());
        assert(tokens_total(one.drop_last()) == 0 && chars_total(one.drop_last()) == 0);
        assert(tokens_total(one) == measured(s).token_count);
        assert(chars_total(one) == measured(s).char_count);
        assert(counts_nonneg(one));
    } else {
        lemma_measured_totals(pieces);
    }
}

} // verus!

verus! {

/// The texts of the chunks, one after another.
pub open spec fn joined_text(cs: Seq<ChunkModel>) -> Seq<char>
    decreases cs.len(),
{
    if cs.len() == 0 {
        Seq::empty()
    } else {
        cs[0].text + joined_text(cs.drop_first())
    }
}

proof fn lemma_piece_tokens(w: int, t: int, d: int, h: int)
    requires
        0 <= w <= (h * d) / t,
        t > 0,
        d > 0,
        h >= 1,
    ensures
        0 <= (w * t) / d <= h,
{
    assert(((h * d) / t) * t <= h * d) by (nonlinear_arith)
        requires
            t > 0,
            h * d >= 0,
    ;
    assert(w * t <= ((h * d) / t) * t) by (nonlinear_arith)
        requires
            0 <= w <= (h * d) / t,
            t > 0,
    ;
    assert(0 <= (w * t) / d <= h) by (nonlinear_arith)
        requires
            0 <= w * t <= h * d,
            d > 0,
    ;
}

proof fn lemma_forced_from(text: Seq<char>, tokens: int, denom: int, cap_chars: int, pos: int, hint: Option<Seq<char>>, hard_cap: int)
    requires
        0 <= pos <= text.len(),
        text.len() <= i64::MAX,
        tokens > 0,
        denom >= 1,
        1 <= hard_cap <= i64::MAX,
        cap_chars >= 1,
    ensures
        joined_text(forced_from(text, tokens, denom, cap_chars, pos, hint)) == text.subrange(pos, text.len() as int),
        forall|i: int|
            0 <= i < forced_from(text, tokens, denom, cap_chars, pos, hint).len() ==> (#[trigger] forced_from(
                text,
                tokens,
                denom,
                cap_chars,
                pos,
                hint,
            )[i]).char_count >= 1,
        cap_chars <= hard_cap * denom / tokens ==> forall|i: int|
            0 <= i < forced_from(text, tokens, denom, cap_chars, pos, hint).len() ==> 0 <= (#[trigger] forced_from(
                text,
                tokens,
                denom,
                cap_chars,
                pos,
                hint,
            )[i]).token_count <= hard_cap,
    decreases text.len() - pos,
{
    let f = forced_from(text, tokens, denom, cap_chars, pos, hint);
    if pos >= text.len() {
        assert(text.subrange(pos, text.len() as int) =~= Seq::<char>::empty());
    } else {
        let end = min_int(pos + cap_chars, text.len() as int);
        let rest = forced_from(text, tokens, denom, cap_chars, end, hint);
        lemma_forced_from(text, tokens, denom, cap_chars, end, hint, hard_cap);
        assert(f.drop_first() =~= rest);
        assert(text.subrange(pos, end) + text.subrange(end, text.len() as int) =~= text.subrange(pos, text.len() as int));
        assert forall|i: int| 0 <= i < f.len() implies (#[trigger] f[i]).char_count >= 1 by {
            if i > 0 {
                assert(f[i] == rest[i - 1]);
            }
        }
        if cap_chars <= hard_cap * denom / tokens {
            lemma_piece_tokens(end - pos, tokens, denom, hard_cap);
            assert forall|i: int| 0 <= i < f.len() implies 0 <= (#[trigger] f[i]).token_count <= hard_cap by {
                if i > 0 {
                    assert(f[i] == rest[i - 1]);
                } else {
                    assert(f[0].token_count == ((end - pos) * tokens / denom) as i64);
                }
            }
        }
    }
}

/// Greedy packing of two sentences within the hard cap: they share one
/// chunk exactly when their tokens together fit the target, and otherwise
/// each makes a chunk of its own, in order.
pub proof fn lemma_two_sentences_pack(
    a: SentenceModel,
    b: SentenceModel,
    hint: Option<Seq<char>>,
    target: i64,
    hard_cap: i64,
)
    requires
        a.text.len() > 0 && b.text.len() > 0,
        0 <= a.token_count <= hard_cap,
        0 <= b.token_count <= hard_cap,
        a.token_count + b.token_count <= i64::MAX,
    ensures
        a.token_count + b.token_count <= target ==> packed_chunks(seq![a, b], hint, target, hard_cap).len() == 1
            && packed_chunks(seq![a, b], hint, target, hard_cap)[0].token_count == a.token_count + b.token_count,
        a.token_count + b.token_count > target ==> packed_chunks(seq![a, b], hint, target, hard_cap).len() == 2
            && packed_chunks(seq![a, b], hint, target, hard_cap)[0].token_count == a.token_count
            && packed_chunks(seq![a, b], hint, target, hard_cap)[1].token_count == b.token_count,
{
    let s2 = seq![a, b];
    assert(s2.drop_last() =~= seq![a]);
    assert(seq![a].drop_last() =~= Seq::<SentenceModel>::empty());
    let st0 = pack_all(Seq::<SentenceModel>::empty(), hint, target, hard_cap);
    let st1 = pack_all(seq![a], hint, target, hard_cap);
    assert(st1 == pack_step(st0, a, hint, target, hard_cap));
    assert(st1.chunks.len() == 0 && st1.text.len() > 0 && st1.tokens == a.token_count);
    let st2 = pack_all(s2, hint, target, hard_cap);
    assert(st2 == pack_step(st1, b, hint, target, hard_cap));
}

/// Whether every chunk carries either no hint or the given one.
pub open spec fn hints_from(chunks: Seq<ChunkModel>, hint: Option<Seq<char>>) -> bool {
    forall|i: int| 0 <= i < chunks.len() ==> (#[trigger] chunks[i]).context_hint is None || chunks[i].context_hint
        == hint
}

proof fn lemma_forced_from_hints(
    text: Seq<char>,
    tokens: int,
    denom: int,
    cap_chars: int,
    pos: int,
    hint: Option<Seq<char>>,
)
    ensures
        hints_from(forced_from(text, tokens, denom, cap_chars, pos, hint), hint),
        pos == 0 && cap_chars > 0 && text.len() > 0 ==> forced_from(text, tokens, denom, cap_chars, pos, hint).len() > 0
            && forced_from(text, tokens, denom, cap_chars, pos, hint)[0].context_hint == hint,
    decreases text.len() - pos,
{
    if !(pos >= text.len() || cap_chars <= 0 || pos < 0) {
        let end = min_int(pos + cap_chars, text.len() as int);
        lemma_forced_from_hints(text, tokens, denom, cap_chars, end, hint);
        let rest = forced_from(text, tokens, denom, cap_chars, end, hint);
        let all = forced_from(text, tokens, denom, cap_chars, pos, hint);
        assert forall|i: int| 0 <= i < all.len() implies (#[trigger] all[i]).context_hint is None || all[i].context_hint
            == hint by {
            if i > 0 {
                assert(all[i] == rest[i - 1]);
            }
        }
    }
}

proof fn lemma_pack_hints(sents: Seq<SentenceModel>, hint: Option<Seq<char>>, target: i64, hard_cap: i64)
    ensures
        hints_from(pack_all(sents, hint, target, hard_cap).chunks, hint),
        pack_all(sents, hint, target, hard_cap).chunks.len() > 0 ==> pack_all(sents, hint, target, hard_cap).chunks[0].context_hint
            == hint,
    decreases sents.len(),
{
    if sents.len() > 0 {
        let st = pack_all(sents.drop_last(), hint, target, hard_cap);
        lemma_pack_hints(sents.drop_last(), hint, target, hard_cap);
        let s = sents.last();
        if s.token_count > hard_cap {
            let st1 = if st.text.len() > 0 {
                flush(st, hint)
            } else {
                st
            };
            lemma_flush_hints(st, hint);
            let f = forced_chunks(s, hint, hard_cap);
            lemma_forced_from_hints(s.text, s.token_count as int, denom_of(s.text), cap_chars_of(s, hard_cap), 0, hint);
            let all = st1.chunks + f;
            assert(all == pack_all(sents, hint, target, hard_cap).chunks);
            assert forall|i: int| 0 <= i < all.len() implies (#[trigger] all[i]).context_hint is None || all[i].context_hint
                == hint by {
                if i < st1.chunks.len() {
                    assert(all[i] == st1.chunks[i]);
                } else {
                    assert(all[i] == f[i - st1.chunks.len()]);
                }
            }
            if all.len() > 0 {
                if st1.chunks.len() > 0 {
                    assert(all[0] == st1.chunks[0]);
                } else {
                    assert(all[0] == f[0]);
                }
            }
        } else {
            lemma_flush_hints(st, hint);
        }
    }
}

proof fn lemma_flush_hints(st: PackState, hint: Option<Seq<char>>)
    requires
        hints_from(st.chunks, hint),
        st.chunks.len() > 0 ==> st.chunks[0].context_hint == hint,
    ensures
        hints_from(flush(st, hint).chunks, hint),
        flush(st, hint).chunks[0].context_hint == hint,
        flush(st, hint).chunks.len() == st.chunks.len() + 1,
{
    let c = flush(st, hint).chunks;
    assert forall|i: int| 0 <= i < c.len() implies (#[trigger] c[i]).context_hint is None || c[i].context_hint == hint by {
        if i < st.chunks.len() {
            assert(c[i] == st.chunks[i]);
        }
    }
    if st.chunks.len() > 0 {
        assert(c[0] == st.chunks[0]);
    }
}

/// The style hint reaches the speech: whenever any chunk is produced, the
/// first chunk carries the given hint, and no chunk carries any hint but the
/// given one.
pub proof fn lemma_first_chunk_carries_hint(
    sents: Seq<SentenceModel>,
    hint: Option<Seq<char>>,
    target: i64,
    hard_cap: i64,
)
    ensures
        packed_chunks(sents, hint, target, hard_cap).len() > 0 ==> packed_chunks(sents, hint, target, hard_cap)[0].context_hint
            == hint,
        forall|i: int|
            0 <= i < packed_chunks(sents, hint, target, hard_cap).len() ==> (#[trigger] packed_chunks(
                sents,
                hint,
                target,
                hard_cap,
            )[i]).context_hint is None || packed_chunks(sents, hint, target, hard_cap)[i].context_hint == hint,
{
    lemma_pack_hints(sents, hint, target, hard_cap);
    let st = pack_all(sents, hint, target, hard_cap);
    if st.text.len() > 0 {
        lemma_flush_hints(st, hint);
    }
}

/// Force-splitting an oversized sentence loses no character and keeps every
/// piece non-empty; when `hard_cap` tokens per character cover the sentence,
/// every piece also stays within `hard_cap` tokens.
pub proof fn lemma_forced_split_lossless(s: SentenceModel, hint: Option<Seq<char>>, hard_cap: i64)
    requires
        hard_cap >= 1,
        s.token_count > hard_cap,
        s.text.len() <= i64::MAX,
    ensures
        joined_text(forced_chunks(s, hint, hard_cap)) == s.text,
        forall|i: int|
            0 <= i < forced_chunks(s, hint, hard_cap).len() ==> (#[trigger] forced_chunks(s, hint, hard_cap)[i]).char_count
                >= 1,
        hard_cap * s.text.len() >= s.token_count ==> forall|i: int|
            0 <= i < forced_chunks(s, hint, hard_cap).len() ==> 0 <= (#[trigger] forced_chunks(
                s,
                hint,
                hard_cap,
            )[i]).token_count <= hard_cap,
{
    let d = denom_of(s.text);
    let t = s.token_count as int;
    if s.text.len() == 0 {
        assert(forced_chunks(s, hint, hard_cap) =~= Seq::<ChunkModel>::empty());
        assert(joined_text(Seq::<ChunkModel>::empty()) =~= s.text);
    } else {
        if hard_cap * s.text.len() >= s.token_count {
            assert(hard_cap * d / t >= 1) by (nonlinear_arith)
                requires
                    hard_cap * d >= t,
                    t > 0,
            ;
        }
        lemma_forced_from(s.text, t, d, cap_chars_of(s, hard_cap), 0, hint, hard_cap as int);
        assert(s.text.subrange(0, s.text.len() as int) =~= s.text);
    }
}

/// Every chunk holds at most `hard_cap` tokens (and none is negative).
pub open spec fn chunks_within(cs: Seq<ChunkModel>, hard_cap: i64) -> bool {
    forall|k: int| 0 <= k < cs.len() ==> 0 <= #[trigger] cs[k].token_count <= hard_cap
}

/// Sentences a tokenizer gives: not empty, counts not negative, short enough
/// to measure, and an oversized one coverable at `hard_cap` tokens per
/// character.
pub open spec fn well_measured(sents: Seq<SentenceModel>, hard_cap: i64) -> bool {
    forall|k: int|
        0 <= k < sents.len() ==> {
            &&& (#[trigger] sents[k]).text.len() > 0
            &&& sents[k].token_count >= 0
            &&& sents[k].char_count >= 0
            &&& sentence_checks(sents[k], hard_cap)
        }
}

proof fn lemma_pack_within(sents: Seq<SentenceModel>, hint: Option<Seq<char>>, target: i64, hard_cap: i64)
    requires
        1 <= hard_cap,
        target <= hard_cap,
        well_measured(sents, hard_cap),
    ensures
        chunks_within(pack_all(sents, hint, target, hard_cap).chunks, hard_cap),
        0 <= pack_all(sents, hint, target, hard_cap).tokens <= hard_cap,
        pack_all(sents, hint, target, hard_cap).text.len() == 0 ==> pack_all(sents, hint, target, hard_cap).tokens
            == 0,
    decreases sents.len(),
{
    if sents.len() > 0 {
        let p = sents.drop_last();
        assert forall|k: int| 0 <= k < p.len() implies {
            &&& (#[trigger] p[k]).text.len() > 0
            &&& p[k].token_count >= 0
            &&& p[k].char_count >= 0
            &&& sentence_checks(p[k], hard_cap)
        } by {
            assert(p[k] == sents[k]);
        }
        lemma_pack_within(p, hint, target, hard_cap);
        let st = pack_all(p, hint, target, hard_cap);
        let s = sents.last();
        assert(s == sents[sents.len() - 1]);
        if s.token_count > hard_cap {
            let st1 = if st.text.len() > 0 {
                flush(st, hint)
            } else {
                st
            };
            assert(chunks_within(st1.chunks, hard_cap)) by {
                if st.text.len() > 0 {
                    assert forall|k: int| 0 <= k < st1.chunks.len() implies 0 <= #[trigger] st1.chunks[k].token_count
                        <= hard_cap by {
                        if k < st.chunks.len() {
                            assert(st1.chunks[k] == st.chunks[k]);
                        }
                    }
                }
            }
            lemma_forced_split_lossless(s, hint, hard_cap);
            let fc = forced_chunks(s, hint, hard_cap);
            let all = st1.chunks + fc;
            assert forall|k: int| 0 <= k < all.len() implies 0 <= #[trigger] all[k].token_count <= hard_cap by {
                if k < st1.chunks.len() {
                    assert(all[k] == st1.chunks[k]);
                } else {
                    assert(all[k] == fc[k - st1.chunks.len()]);
                }
            }
        } else {
            let st1 = if st.text.len() > 0 && st.tokens + s.token_count > target {
                flush(st, hint)
            } else {
                st
            };
            assert(chunks_within(st1.chunks, hard_cap)) by {
                if st.text.len() > 0 && st.tokens + s.token_count > target {
                    assert forall|k: int| 0 <= k < st1.chunks.len() implies 0 <= #[trigger] st1.chunks[k].token_count
                        <= hard_cap by {
                        if k < st.chunks.len() {
                            assert(st1.chunks[k] == st.chunks[k]);
                        }
                    }
                }
            }
            let t = (if st1.text.len() > 0 {
                st1.text.push('\n')
            } else {
                st1.text
            }) + s.text;
            assert(t.len() >= s.text.len());
        }
    }
}

/// Every chunk the packer makes stays within the hard cap, for sentences
/// that are not empty, have no negative count and whose oversized ones can
/// be cut within the cap, when the target does not exceed the cap.
pub proof fn lemma_packed_within_cap(sents: Seq<SentenceModel>, hint: Option<Seq<char>>, target: i64, hard_cap: i64)
    requires
        1 <= hard_cap,
        target <= hard_cap,
        well_measured(sents, hard_cap),
    ensures
        chunks_within(packed_chunks(sents, hint, target, hard_cap), hard_cap),
{
    lemma_pack_within(sents, hint, target, hard_cap);
    let st = pack_all(sents, hint, target, hard_cap);
    if st.text.len() > 0 {
        let f = flush(st, hint).chunks;
        assert forall|k: int| 0 <= k < f.len() implies 0 <= #[trigger] f[k].token_count <= hard_cap by {
            if k < st.chunks.len() {
                assert(f[k] == st.chunks[k]);
            }
        }
    }
}

} // verus!

verus! {

/// Each segment measured by the heuristic estimate.
pub open spec fn heuristic_all(ps: Seq<Seq<char>>) -> Seq<SentenceModel> {
    ps.map_values(|p: Seq<char>| heuristic_measured(p))
}

/// The total length of the segments.
pub open spec fn len_sum(segs: Seq<Seq<char>>) -> int
    decreases segs.len(),
{
    if segs.len() == 0 {
        0
    } else {
        len_sum(segs.drop_last()) + segs.last().len()
    }
}

/// The total token count of the sentences.
pub open spec fn tokens_total(sents: Seq<SentenceModel>) -> int
    decreases sents.len(),
{
    if sents.len() == 0 {
        0
    } else {
        tokens_total(sents.drop_last()) + sents.last().token_count
    }
}

/// The total character count of the sentences.
pub open spec fn chars_total(sents: Seq<SentenceModel>) -> int
    decreases sents.len(),
{
    if sents.len() == 0 {
        0
    } else {
        chars_total(sents.drop_last()) + sents.last().char_count
    }
}

proof fn lemma_raw_segments_total(s: Seq<char>, delim: spec_fn(char) -> bool)
    ensures
        len_sum(raw_segments(s, delim)) == s.len(),
    decreases s.len(),
{
    if s.len() > 0 {
        lemma_raw_segments_total(s.drop_last(), delim);
        let prev = raw_segments(s.drop_last(), delim);
        let cur = raw_segments(s, delim);
        if prev.len() == 0 || delim(prev.last().last()) {
            assert(cur.drop_last() =~= prev);
        } else {
            assert(cur.drop_last() =~= prev.drop_last());
        }
    }
}

proof fn lemma_trimmed_nonblank_total(segs: Seq<Seq<char>>)
    ensures
        len_sum(trimmed_nonblank(segs)) <= len_sum(segs),
        forall|k: int| 0 <= k < trimmed_nonblank(segs).len() ==> #[trigger] trimmed_nonblank(segs)[k].len() >= 1,
    decreases segs.len(),
{
    if segs.len() > 0 {
        lemma_trimmed_nonblank_total(segs.drop_last());
        crate::text::lemma_trimmed_shape(segs.last());
        let rest = trimmed_nonblank(segs.drop_last());
        let cur = trimmed_nonblank(segs);
        if trimmed(segs.last()).len() > 0 {
            assert(cur.drop_last() =~= rest);
            assert forall|k: int| 0 <= k < cur.len() implies #[trigger] cur[k].len() >= 1 by {
                if k < rest.len() {
                    assert(cur[k] == rest[k]);
                }
            }
        }
    }
}

proof fn lemma_nonblank_segments_total(segs: Seq<Seq<char>>)
    ensures
        len_sum(nonblank_segments(segs)) <= len_sum(segs),
        forall|k: int| 0 <= k < nonblank_segments(segs).len() ==> #[trigger] nonblank_segments(segs)[k].len() >= 1,
    decreases segs.len(),
{
    if segs.len() > 0 {
        lemma_nonblank_segments_total(segs.drop_last());
        crate::text::lemma_trimmed_shape(segs.last());
        let rest = nonblank_segments(segs.drop_last());
        let cur = nonblank_segments(segs);
        if trimmed(segs.last()).len() > 0 {
            assert(cur.drop_last() =~= rest);
            assert forall|k: int| 0 <= k < cur.len() implies #[trigger] cur[k].len() >= 1 by {
                if k < rest.len() {
                    assert(cur[k] == rest[k]);
                }
            }
        }
    }
}

proof fn lemma_heuristic_totals(ps: Seq<Seq<char>>)
    requires
        forall|k: int| 0 <= k < ps.len() ==> #[trigger] ps[k].len() >= 1,
        3 * len_sum(ps) <= i64::MAX,
    ensures
        0 <= tokens_total(heuristic_all(ps)) <= 2 * len_sum(ps),
        chars_total(heuristic_all(ps)) == len_sum(ps),
        forall|k: int| 0 <= k < ps.len() ==> {
            let m = #[trigger] heuristic_all(ps)[k];
            m.token_count >= 0 && m.char_count >= 0
        },
    decreases ps.len(),
{
    let ms = heuristic_all(ps);
    if ps.len() > 0 {
        let q = ps.drop_last();
        assert forall|k: int| 0 <= k < q.len() implies #[trigger] q[k].len() >= 1 by {
            assert(q[k] == ps[k]);
        }
        assert(len_sum(q) <= len_sum(ps));
        lemma_heuristic_totals(q);
        assert(ms.drop_last() =~= heuristic_all(q));
        let p = ps.last();
        lemma_heuristic_small(p);
        assert(ms.last() == heuristic_measured(p));
        assert forall|k: int| 0 <= k < ps.len() implies {
            let m = #[trigger] ms[k];
            m.token_count >= 0 && m.char_count >= 0
        } by {
            lemma_heuristic_small(ps[k]);
            assert(ps[k].len() <= len_sum(ps)) by {
                lemma_len_sum_part(ps, k);
            }
        }
    }
}

proof fn lemma_len_sum_part(ps: Seq<Seq<char>>, k: int)
    requires
        0 <= k < ps.len(),
        forall|j: int| 0 <= j < ps.len() ==> #[trigger] ps[j].len() >= 0,
    ensures
        ps[k].len() <= len_sum(ps),
        len_sum(ps) >= 0,
    decreases ps.len(),
{
    lemma_len_sum_nonneg(ps.drop_last());
    if k < ps.len() - 1 {
        assert(ps.drop_last()[k] == ps[k]);
        lemma_len_sum_part(ps.drop_last(), k);
    }
}

proof fn lemma_len_sum_nonneg(ps: Seq<Seq<char>>)
    ensures
        len_sum(ps) >= 0,
    decreases ps.len(),
{
    if ps.len() > 0 {
        lemma_len_sum_nonneg(ps.drop_last());
    }
}

} // verus!

verus! {

/// No sentence has a negative count.
pub open spec fn counts_nonneg(sents: Seq<SentenceModel>) -> bool {
    forall|k: int| 0 <= k < sents.len() ==> (#[trigger] sents[k]).token_count >= 0 && sents[k].char_count >= 0
}

proof fn lemma_totals_prefix_mono(sents: Seq<SentenceModel>, i: int)
    requires
        counts_nonneg(sents),
        0 <= i <= sents.len(),
    ensures
        0 <= tokens_total(sents.take(i)) <= tokens_total(sents),
        0 <= chars_total(sents.take(i)) <= chars_total(sents),
    decreases sents.len(),
{
    if i == sents.len() {
        assert(sents.take(i) =~= sents);
        if sents.len() > 0 {
            let p = sents.drop_last();
            assert(counts_nonneg(p)) by {
                assert forall|k: int| 0 <= k < p.len() implies (#[trigger] p[k]).token_count >= 0 && p[k].char_count
                    >= 0 by {
                    assert(p[k] == sents[k]);
                }
            }
            lemma_totals_prefix_mono(p, p.len() as int);
            assert(p.take(p.len() as int) =~= p);
            assert(sents.last() == sents[sents.len() - 1]);
        }
    } else {
        let p = sents.drop_last();
        assert(counts_nonneg(p)) by {
            assert forall|k: int| 0 <= k < p.len() implies (#[trigger] p[k]).token_count >= 0 && p[k].char_count >= 0 by {
                assert(p[k] == sents[k]);
            }
        }
        lemma_totals_prefix_mono(p, i);
        assert(p.take(i) =~= sents.take(i));
        lemma_totals_prefix_mono(p, p.len() as int);
        assert(p.take(p.len() as int) =~= p);
        assert(sents.last() == sents[sents.len() - 1]);
    }
}

proof fn lemma_acc_within_totals(sents: Seq<SentenceModel>, target: i64, hard_cap: i64, i: int)
    requires
        counts_nonneg(sents),
        0 <= i <= sents.len(),
    ensures
        0 <= acc_all(sents.take(i), target, hard_cap).tokens <= tokens_total(sents.take(i)),
        0 <= acc_all(sents.take(i), target, hard_cap).chars <= chars_total(sents.take(i)),
    decreases i,
{
    if i > 0 {
        lemma_acc_within_totals(sents, target, hard_cap, i - 1);
        lemma_totals_prefix_mono(sents, i - 1);
        assert(sents.take(i).drop_last() =~= sents.take(i - 1));
        assert(sents.take(i).last() == sents[i - 1]);
    }
}

/// Sentences with no negative count whose token and character totals fit
/// an `i64` keep every sum the packer computes within an `i64`.
proof fn lemma_nonneg_sums_fit(sents: Seq<SentenceModel>, target: i64, hard_cap: i64)
    requires
        counts_nonneg(sents),
        tokens_total(sents) <= i64::MAX,
        chars_total(sents) <= i64::MAX,
    ensures
        pack_sums_fit(sents, target, hard_cap),
{
    assert forall|i: int| 0 <= i < sents.len() implies #[trigger] step_sums_fit(
        acc_all(sents.take(i), target, hard_cap),
        sents[i],
        target,
        hard_cap,
    ) by {
        lemma_acc_within_totals(sents, target, hard_cap, i);
        lemma_totals_prefix_mono(sents, i + 1);
        assert(sents.take(i + 1).drop_last() =~= sents.take(i));
        assert(sents.take(i + 1).last() == sents[i]);
    }
}

} // verus!
