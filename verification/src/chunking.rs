//! Splitting documents into overlapping, token-bounded chunks.

use vstd::prelude::*;
use vstd::utf8::encode_utf8;
use crate::text::{
    chars_of, char_is_alphanumeric, char_is_uppercase, is_blank, is_whitespace_char, is_ws,
    join, join_chars, lemma_filter_all, lemma_trim_idempotent, lemma_trim_span, word_of, lemma_char_in_words, lemma_join_contains, lemma_join_chars, lemma_words_of, lemma_words_of_join,
    push_char, push_str, split_whitespace_chars, string_from_chars,
    to_owned_string, trim, trim_string, unicode_is_alphanumeric, unicode_is_uppercase, words,
};
use crate::tokenizer::{cl100k_decode, cl100k_encode, Cl100kTokenizer};

verus! {

/// How documents are cut into chunks (sizes in tokens).
#[derive(Debug, Clone, Copy)]
pub struct ChunkingConfig {
    pub chunk_size: usize,
    pub chunk_overlap: usize,
    pub max_chunk_size: usize,
    pub min_chunk_size: usize,
    pub respect_sentence_boundaries: bool,
    pub respect_paragraph_boundaries: bool,
}

impl Default for ChunkingConfig {
    /// 512-token chunks overlapping by 64, at least 100 tokens, on sentence and paragraph
    /// boundaries.
    fn default() -> (c: Self)
        ensures
            c.chunk_size == 512,
            c.chunk_overlap == 64,
            c.max_chunk_size == 800,
            c.min_chunk_size == 100,
            c.respect_sentence_boundaries,
            c.respect_paragraph_boundaries,
    {
        ChunkingConfig {
            chunk_size: 512,
            chunk_overlap: 64,
            max_chunk_size: 800,
            min_chunk_size: 100,
            respect_sentence_boundaries: true,
            respect_paragraph_boundaries: true,
        }
    }
}

/// A piece of a document with its byte span, token count and position.
#[derive(Debug)]
pub struct TextChunk {
    pub content: String,
    pub start_char: usize,
    pub end_char: usize,
    pub token_count: usize,
    pub chunk_index: usize,
}

/// The mathematical value of a chunk.
pub struct ChunkModel {
    pub content: Seq<char>,
    pub start_char: int,
    pub end_char: int,
    pub token_count: int,
    pub chunk_index: int,
}

impl View for TextChunk {
    type V = ChunkModel;

    open spec fn view(&self) -> ChunkModel {
        ChunkModel {
            content: self.content@,
            start_char: self.start_char as int,
            end_char: self.end_char as int,
            token_count: self.token_count as int,
            chunk_index: self.chunk_index as int,
        }
    }
}

/// The models of a list of chunks.
pub open spec fn chunk_models(v: Seq<TextChunk>) -> Seq<ChunkModel> {
    v.map_values(|c: TextChunk| c@)
}

/// The length in bytes of the UTF-8 encoding of `s` (what `str::len` gives).
pub open spec fn blen(s: Seq<char>) -> int {
    encode_utf8(s).len() as int
}

/// The number of `cl100k_base` tokens of `s`.
pub open spec fn ntok(s: Seq<char>) -> int {
    tokens_of(s).len() as int
}

/// Whether `cl100k_base` can encode `s`.
pub open spec fn encodes(s: Seq<char>) -> bool {
    cl100k_encode(s) is Some
}

/// The `cl100k_base` tokens of `s` (none where it cannot be encoded).
pub open spec fn tokens_of(s: Seq<char>) -> Seq<u32> {
    match cl100k_encode(s) {
        Some(v) => v,
        None => Seq::empty(),
    }
}

/// Whether the token windows of `s` advance: the overlap is shorter than a
/// window, or `s` has no more tokens than one window holds (or cannot be encoded).
pub open spec fn windows_advance(cfg: ChunkingConfig, s: Seq<char>) -> bool {
    cfg.chunk_overlap < cfg.chunk_size || !encodes(s) || ntok(s) <= cfg.chunk_size
}

/// `a + b`, capped at `usize::MAX`.
pub open spec fn sat_add(a: int, b: int) -> int {
    if a + b > usize::MAX {
        usize::MAX as int
    } else {
        a + b
    }
}

/// `a - b`, floored at 0.
pub open spec fn sat_sub(a: int, b: int) -> int {
    if a >= b {
        a - b
    } else {
        0
    }
}

// ----------------------------------------------------------------------------
// Paragraphs and sentences
// ----------------------------------------------------------------------------

/// Scanning `s` left to right, the finished paragraphs and the open one: a newline
/// that follows a newline in the open paragraph closes it (without the pair).
pub open spec fn paragraph_state(s: Seq<char>) -> (Seq<Seq<char>>, Seq<char>)
    decreases s.len(),
{
    if s.len() == 0 {
        (seq![], seq![])
    } else {
        let (done, cur) = paragraph_state(s.drop_last());
        let c = s.last();
        if c == '\n' && cur.len() > 0 && cur.last() == '\n' {
            (done.push(cur.drop_last()), seq![])
        } else {
            (done, cur.push(c))
        }
    }
}

/// The pieces of `s` between occurrences of a blank-line separator `"\n\n"`, found left
/// to right without overlap (what `str::split("\n\n")` gives).
pub open spec fn paragraphs(s: Seq<char>) -> Seq<Seq<char>> {
    paragraph_state(s).0.push(paragraph_state(s).1)
}

/// Whether `c` ends a sentence.
pub open spec fn is_terminal(c: char) -> bool {
    c == '.' || c == '!' || c == '?'
}

/// After the first `k` characters of `s`: the trimmed sentences found and the open
/// one. A terminal mark ends a sentence when the text ends there or the next character
/// is white space or upper case.
pub open spec fn sentence_state(s: Seq<char>, k: nat) -> (Seq<Seq<char>>, Seq<char>)
    decreases k,
{
    if k == 0 || k > s.len() {
        (seq![], seq![])
    } else {
        let (done, cur) = sentence_state(s, (k - 1) as nat);
        let c = s[k - 1];
        let cur2 = cur.push(c);
        if is_terminal(c) && (k == s.len() || is_ws(s[k as int]) || unicode_is_uppercase(
            s[k as int],
        )) {
            (done.push(trim(cur2)), seq![])
        } else {
            (done, cur2)
        }
    }
}

/// Whether a sentence is kept: more than ten bytes long.
pub open spec fn long_enough(x: Seq<char>) -> bool {
    blen(x) > 10
}

/// The sentences of `s` longer than ten bytes, trimmed, in order; trailing text
/// without a terminal mark counts as a sentence.
pub open spec fn sentences(s: Seq<char>) -> Seq<Seq<char>> {
    let (done, cur) = sentence_state(s, s.len());
    let all = if trim(cur).len() > 0 {
        done.push(trim(cur))
    } else {
        done
    };
    all.filter(|x: Seq<char>| long_enough(x))
}

/// The concatenation of a sequence of lists.
pub open spec fn flatten(ss: Seq<Seq<Seq<char>>>) -> Seq<Seq<char>>
    decreases ss.len(),
{
    if ss.len() == 0 {
        seq![]
    } else {
        flatten(ss.drop_last()) + ss.last()
    }
}

/// The units that chunks are built from: the paragraphs (or the whole text), each
/// split into sentences (or kept whole).
pub open spec fn chunk_units(cfg: ChunkingConfig, s: Seq<char>) -> Seq<Seq<char>> {
    let ps = if cfg.respect_paragraph_boundaries {
        paragraphs(s)
    } else {
        seq![s]
    };
    flatten(
        ps.map_values(
            |p: Seq<char>|
                if cfg.respect_sentence_boundaries {
                    sentences(p)
                } else {
                    seq![p]
                },
        ),
    )
}

// ----------------------------------------------------------------------------
// Boundary-respecting chunking
// ----------------------------------------------------------------------------

/// The text that opens the chunk after `chunks`: the last `chunk_overlap` tokens of the
/// last chunk (trimmed), a space, then `new`; just `new` when there is nothing to
/// overlap; `None` when the last chunk cannot be encoded or those tokens do not decode.
pub open spec fn overlap_content(cfg: ChunkingConfig, chunks: Seq<ChunkModel>, new: Seq<char>) -> Option<Seq<char>> {
    if chunks.len() == 0 || cfg.chunk_overlap == 0 {
        Some(new)
    } else if !encodes(chunks.last().content) {
        None
    } else {
        let toks = tokens_of(chunks.last().content);
        let size = if cfg.chunk_overlap < toks.len() {
            cfg.chunk_overlap as int
        } else {
            toks.len() as int
        };
        if size == 0 {
            Some(new)
        } else {
            match cl100k_decode(toks.skip(toks.len() - size)) {
                None => None,
                Some(t) => Some(trim(t) + seq![' '] + new),
            }
        }
    }
}

/// The chunk made of the open text `cur` starting at byte `start`.
pub open spec fn closed_chunk(chunks: Seq<ChunkModel>, cur: Seq<char>, start: int) -> ChunkModel {
    ChunkModel {
        content: trim(cur),
        start_char: start,
        end_char: sat_add(start, blen(cur)),
        token_count: ntok(cur),
        chunk_index: chunks.len() as int,
    }
}

/// The state after adding the unit `u` to (chunks so far, open text, its start byte):
/// when `u` would take the open text past `chunk_size` tokens, the open text is closed
/// (kept only when it has at least `min_chunk_size` tokens) and the next one starts
/// with the overlap; otherwise `u` joins the open text after a space. `None` where
/// `u` or the open text cannot be encoded, or an overlap does not decode.
pub open spec fn chunk_step(
    cfg: ChunkingConfig,
    chunks: Seq<ChunkModel>,
    cur: Seq<char>,
    start: int,
    u: Seq<char>,
) -> Option<(Seq<ChunkModel>, Seq<char>, int)> {
    if !encodes(u) || (cur.len() > 0 && !encodes(cur)) {
        None
    } else {
        chunk_step_encoded(cfg, chunks, cur, start, u)
    }
}

/// `chunk_step` where `u` and the open text can be encoded.
pub open spec fn chunk_step_encoded(
    cfg: ChunkingConfig,
    chunks: Seq<ChunkModel>,
    cur: Seq<char>,
    start: int,
    u: Seq<char>,
) -> Option<(Seq<ChunkModel>, Seq<char>, int)> {
    let ctoks = if cur.len() == 0 {
        0
    } else {
        ntok(cur)
    };
    if ctoks + ntok(u) > cfg.chunk_size && cur.len() > 0 {
        let end = sat_add(start, blen(cur));
        let chunks2 = if ctoks >= cfg.min_chunk_size {
            chunks.push(closed_chunk(chunks, cur, start))
        } else {
            chunks
        };
        match overlap_content(cfg, chunks2, u) {
            None => None,
            Some(next) => Some((chunks2, next, sat_sub(end, sat_sub(blen(next), blen(u))))),
        }
    } else if cur.len() > 0 {
        Some((chunks, cur + seq![' '] + u, start))
    } else {
        Some((chunks, u, start))
    }
}

/// Running the steps over `units[k..]` from the given state.
pub open spec fn chunk_run(
    cfg: ChunkingConfig,
    units: Seq<Seq<char>>,
    k: int,
    chunks: Seq<ChunkModel>,
    cur: Seq<char>,
    start: int,
) -> Option<(Seq<ChunkModel>, Seq<char>, int)>
    decreases units.len() - k,
{
    if k < 0 || k >= units.len() {
        Some((chunks, cur, start))
    } else {
        match chunk_step(cfg, chunks, cur, start, units[k]) {
            None => None,
            Some((c2, cur2, s2)) => chunk_run(cfg, units, k + 1, c2, cur2, s2),
        }
    }
}

/// The chunks that respect sentence and paragraph boundaries, or `None` when a
/// text cannot be encoded or an overlap does not decode.
pub open spec fn intelligent_chunks(cfg: ChunkingConfig, s: Seq<char>) -> Option<Seq<ChunkModel>> {
    match chunk_run(cfg, chunk_units(cfg, s), 0, seq![], seq![], 0) {
        None => None,
        Some((chunks, cur, start)) => if !encodes(cur) {
            None
        } else if trim(cur).len() > 0 && ntok(cur) >= cfg.min_chunk_size {
            Some(chunks.push(closed_chunk(chunks, cur, start)))
        } else {
            Some(chunks)
        },
    }
}

// ----------------------------------------------------------------------------
// Token-window chunking
// ----------------------------------------------------------------------------

/// The byte position in `text` that the first `idx` tokens cover, or `None` when they
/// do not decode.
pub open spec fn char_position(text: Seq<char>, idx: int, toks: Seq<u32>) -> Option<int> {
    if idx == 0 {
        Some(0)
    } else if idx >= toks.len() {
        Some(blen(text))
    } else {
        match cl100k_decode(toks.take(idx)) {
            None => None,
            Some(t) => Some(blen(t)),
        }
    }
}

/// Windows of `chunk_size` tokens from token `start` on, each next one starting
/// `chunk_overlap` tokens before the end of the last; windows that decode to blank text
/// are skipped; `None` when a window or a position does not decode.
pub open spec fn token_chunks_from(
    cfg: ChunkingConfig,
    text: Seq<char>,
    toks: Seq<u32>,
    start: int,
    chunks: Seq<ChunkModel>,
) -> Option<Seq<ChunkModel>>
    decreases toks.len() - start,
{
    if start < 0 || start >= toks.len() {
        Some(chunks)
    } else {
        let end = if start + cfg.chunk_size < toks.len() {
            start + cfg.chunk_size
        } else {
            toks.len() as int
        };
        let next = if end >= toks.len() || cfg.chunk_size <= cfg.chunk_overlap {
            toks.len() as int
        } else {
            end - cfg.chunk_overlap
        };
        match cl100k_decode(toks.subrange(start, end)) {
            None => None,
            Some(t) => if trim(t).len() > 0 {
                match (char_position(text, start, toks), char_position(text, end, toks)) {
                    (Some(a), Some(b)) => token_chunks_from(
                        cfg,
                        text,
                        toks,
                        next,
                        chunks.push(
                            ChunkModel {
                                content: trim(t),
                                start_char: a,
                                end_char: b,
                                token_count: end - start,
                                chunk_index: chunks.len() as int,
                            },
                        ),
                    ),
                    _ => None,
                }
            } else {
                token_chunks_from(cfg, text, toks, next, chunks)
            },
        }
    }
}

/// The token-window chunks of `text` (`None` where it cannot be encoded).
pub open spec fn token_chunks(cfg: ChunkingConfig, text: Seq<char>) -> Option<Seq<ChunkModel>> {
    match cl100k_encode(text) {
        Some(toks) => token_chunks_from(cfg, text, toks, 0, seq![]),
        None => None,
    }
}

/// The chunks of `text`: none for blank text; the boundary-respecting ones when either
/// boundary is respected and they succeed with at least one chunk; the token windows
/// otherwise.
pub open spec fn chunk_text_spec(cfg: ChunkingConfig, text: Seq<char>) -> Option<Seq<ChunkModel>> {
    if trim(text).len() == 0 {
        Some(seq![])
    } else if (cfg.respect_paragraph_boundaries || cfg.respect_sentence_boundaries) && (
    intelligent_chunks(cfg, text) matches Some(c) && c.len() > 0) {
        intelligent_chunks(cfg, text)
    } else {
        token_chunks(cfg, text)
    }
}

// ----------------------------------------------------------------------------
// Executable splitting
// ----------------------------------------------------------------------------

/// The views of a list of strings.
pub open spec fn string_views(v: Seq<String>) -> Seq<Seq<char>> {
    v.map_values(|x: String| x@)
}

/// The paragraphs of `v` (what `str::split("\n\n")` gives).
pub fn split_paragraphs(v: &[char]) -> (r: Vec<String>)
    ensures
        string_views(r@) == paragraphs(v@),
{
    let mut done: Vec<String> = Vec::new();
    let mut cur: Vec<char> = Vec::new();
    let mut i: usize = 0;
    while i < v.len()
        invariant
            i <= v.len(),
            string_views(done@) == paragraph_state(v@.take(i as int)).0,
            cur@ == paragraph_state(v@.take(i as int)).1,
        decreases v.len() - i,
    {
        let c = v[i];
        assert(v@.take(i + 1).drop_last() == v@.take(i as int));
        assert(v@.take(i + 1).last() == c);
        if c == '\n' && cur.len() > 0 && cur[cur.len() - 1] == '\n' {
            let ghost before = string_views(done@);
            let mut piece: Vec<char> = Vec::new();
            let mut j: usize = 0;
            while j + 1 < cur.len()
                invariant
                    j + 1 <= cur.len(),
                    piece@ == cur@.take(j as int),
                decreases cur.len() - j,
            {
                piece.push(cur[j]);
                assert(cur@.take(j + 1) == cur@.take(j as int).push(cur@[j as int]));
                j = j + 1;
            }
            assert(piece@ == cur@.drop_last());
            done.push(string_from_chars(piece.as_slice()));
            assert(string_views(done@) =~= before.push(cur@.drop_last()));
            cur = Vec::new();
        } else {
            cur.push(c);
        }
        i = i + 1;
    }
    assert(v@.take(v.len() as int) == v@);
    let ghost before = string_views(done@);
    done.push(string_from_chars(cur.as_slice()));
    assert(string_views(done@) =~= before.push(cur@));
    done
}

/// The strings of `v` longer than ten bytes, in order.
fn keep_long(v: Vec<String>) -> (r: Vec<String>)
    ensures
        string_views(r@) == string_views(v@).filter(|x: Seq<char>| long_enough(x)),
{
    let ghost f = |x: Seq<char>| long_enough(x);
    let mut r: Vec<String> = Vec::new();
    let mut i: usize = 0;
    while i < v.len()
        invariant
            i <= v.len(),
            f == (|x: Seq<char>| long_enough(x)),
            string_views(r@) == string_views(v@.take(i as int)).filter(f),
        decreases v.len() - i,
    {
        proof {
            reveal_with_fuel(Seq::filter, 1);
            assert(string_views(v@.take(i + 1)).drop_last() == string_views(v@.take(i as int)));
            assert(string_views(v@.take(i + 1)).last() == v@[i as int]@);
        }
        let n: usize = v[i].as_str().as_bytes().len();
        assert(n == blen(v@[i as int]@));
        if n > 10 {
            let ghost before = string_views(r@);
            r.push(v[i].clone());
            assert(f(v@[i as int]@));
            assert(string_views(r@) =~= before.push(v@[i as int]@));
        } else {
            assert(!f(v@[i as int]@));
        }
        assert(string_views(r@) == string_views(v@.take(i + 1)).filter(f));
        i = i + 1;
    }
    assert(v@.take(v.len() as int) == v@);
    r
}

/// The sentences of `text` longer than ten bytes, trimmed, in order.
pub fn sentences_of(text: &str) -> (r: Vec<String>)
    ensures
        string_views(r@) == sentences(text@),
{
    let v = chars_of(text);
    let mut done: Vec<String> = Vec::new();
    let mut cur: Vec<char> = Vec::new();
    let mut k: usize = 0;
    while k < v.len()
        invariant
            k <= v.len(),
            v@ == text@,
            string_views(done@) == sentence_state(v@, k as nat).0,
            cur@ == sentence_state(v@, k as nat).1,
        decreases v.len() - k,
    {
        let c = v[k];
        cur.push(c);
        let ends = (c == '.' || c == '!' || c == '?') && (k + 1 == v.len() || is_whitespace_char(
            v[k + 1],
        ) || char_is_uppercase(v[k + 1]));
        if ends {
            let ghost before = string_views(done@);
            let t = crate::text::trim_chars(cur.as_slice());
            done.push(string_from_chars(t.as_slice()));
            assert(string_views(done@) =~= before.push(crate::text::trim(cur@)));
            cur = Vec::new();
        }
        k = k + 1;
    }
    let t = crate::text::trim_chars(cur.as_slice());
    if t.len() > 0 {
        let ghost before = string_views(done@);
        done.push(string_from_chars(t.as_slice()));
        assert(string_views(done@) =~= before.push(crate::text::trim(cur@)));
    }
    keep_long(done)
}

/// The length of `s` in bytes.
pub fn byte_len(s: &str) -> (n: usize)
    ensures
        n == blen(s@),
{
    s.as_bytes().len()
}

/// The tokens `v[lo..hi]`.
fn copy_range(v: &Vec<u32>, lo: usize, hi: usize) -> (r: Vec<u32>)
    requires
        lo <= hi <= v.len(),
    ensures
        r@ == v@.subrange(lo as int, hi as int),
{
    let mut r: Vec<u32> = Vec::new();
    let mut i: usize = lo;
    while i < hi
        invariant
            lo <= i <= hi,
            hi <= v.len(),
            r@ == v@.subrange(lo as int, i as int),
        decreases hi - i,
    {
        r.push(v[i]);
        assert(v@.subrange(lo as int, i + 1) == v@.subrange(lo as int, i as int).push(v@[i as int]));
        i = i + 1;
    }
    r
}

/// The chunk units of `text` under `cfg`.
fn units_of(cfg: ChunkingConfig, text: &str) -> (r: Vec<String>)
    ensures
        string_views(r@) == chunk_units(cfg, text@),
{
    let v = chars_of(text);
    let ps: Vec<String> = if cfg.respect_paragraph_boundaries {
        split_paragraphs(v.as_slice())
    } else {
        let mut one: Vec<String> = Vec::new();
        one.push(string_from_chars(v.as_slice()));
        assert(string_views(one@) =~= seq![text@]);
        one
    };
    let ghost pv = string_views(ps@);
    let ghost f = |p: Seq<char>|
        if cfg.respect_sentence_boundaries {
            sentences(p)
        } else {
            seq![p]
        };
    let mut out: Vec<String> = Vec::new();
    let mut i: usize = 0;
    while i < ps.len()
        invariant
            i <= ps.len(),
            pv == string_views(ps@),
            f == (|p: Seq<char>|
                if cfg.respect_sentence_boundaries {
                    sentences(p)
                } else {
                    seq![p]
                }),
            string_views(out@) == flatten(pv.take(i as int).map_values(f)),
        decreases ps.len() - i,
    {
        let ghost before = string_views(out@);
        assert(pv.take(i + 1).map_values(f).drop_last() =~= pv.take(i as int).map_values(f));
        assert(pv.take(i + 1).map_values(f).last() == f(ps@[i as int]@));
        let pieces: Vec<String> = if cfg.respect_sentence_boundaries {
            sentences_of(ps[i].as_str())
        } else {
            let mut one: Vec<String> = Vec::new();
            one.push(ps[i].clone());
            assert(string_views(one@) =~= seq![ps@[i as int]@]);
            one
        };
        let mut j: usize = 0;
        while j < pieces.len()
            invariant
                j <= pieces.len(),
                string_views(out@) == before + string_views(pieces@).take(j as int),
            decreases pieces.len() - j,
        {
            let ghost prev = string_views(out@);
            let piece = pieces[j].clone();
            assert(piece@ == pieces@[j as int]@);
            out.push(piece);
            assert(string_views(out@) =~= prev.push(pieces@[j as int]@));
            assert(string_views(pieces@).take(j + 1) =~= string_views(pieces@).take(j as int).push(
                pieces@[j as int]@,
            ));
            assert(string_views(out@) =~= before + string_views(pieces@).take(j + 1));
            j = j + 1;
        }
        assert(string_views(pieces@).take(pieces.len() as int) == string_views(pieces@));
        assert(string_views(out@) =~= flatten(pv.take(i + 1).map_values(f)));
        i = i + 1;
    }
    assert(pv.take(ps.len() as int) == pv);
    out
}

/// A token-aware chunker for documents.
pub struct ChunkingService {
    config: ChunkingConfig,
    tokenizer: Cl100kTokenizer,
}

impl ChunkingService {
    /// The configuration in use.
    pub closed spec fn config_spec(&self) -> ChunkingConfig {
        self.config
    }

    /// A chunker with the given configuration (the default one when `None`); the
    /// bundled tokenizer always loads.
    pub fn new(config: Option<ChunkingConfig>) -> (r: Result<Self, String>)
        ensures
            r is Ok,
            r matches Ok(svc) ==> match config {
                Some(c) => svc.config_spec() == c,
                None => svc.config_spec() == ChunkingConfig {
                    chunk_size: 512,
                    chunk_overlap: 64,
                    max_chunk_size: 800,
                    min_chunk_size: 100,
                    respect_sentence_boundaries: true,
                    respect_paragraph_boundaries: true,
                },
            },
    {
        let config = match config {
            Some(c) => c,
            None => ChunkingConfig::default(),
        };
        match Cl100kTokenizer::load() {
            Ok(tokenizer) => Ok(ChunkingService { config, tokenizer }),
            Err(e) => {
                let mut msg = to_owned_string("Failed to load tokenizer: ");
                push_str(&mut msg, e.as_str());
                Err(msg)
            },
        }
    }

    /// The configuration in use.
    pub fn get_config(&self) -> (c: &ChunkingConfig)
        ensures
            *c == self.config_spec(),
    {
        &self.config
    }

    /// Replaces the configuration.
    pub fn update_config(&mut self, new_config: ChunkingConfig)
        ensures
            final(self).config_spec() == new_config,
    {
        self.config = new_config;
    }

    /// The number of tokens of `text`, or the tokenizer's message where it cannot
    /// encode the text.
    pub fn count_tokens(&self, text: &str) -> (r: Result<usize, String>)
        ensures
            r is Ok <==> encodes(text@),
            r matches Ok(n) ==> n == ntok(text@),
    {
        match self.tokenizer.encode(text) {
            Ok(v) => Ok(v.len()),
            Err(e) => Err(e),
        }
    }

    /// The text that opens the chunk after `existing_chunks`: the last `chunk_overlap`
    /// tokens of the last chunk, trimmed, a space, then `new_content`.
    pub fn create_overlap_content(&self, existing_chunks: &[TextChunk], new_content: &str) -> (r:
        Result<String, String>)
        ensures
            r is Ok <==> overlap_content(
                self.config_spec(),
                chunk_models(existing_chunks@),
                new_content@,
            ) is Some,
            r matches Ok(s) ==> Some(s@) == overlap_content(
                self.config_spec(),
                chunk_models(existing_chunks@),
                new_content@,
            ),
    {
        let ghost models = chunk_models(existing_chunks@);
        if existing_chunks.len() == 0 || self.config.chunk_overlap == 0 {
            return Ok(to_owned_string(new_content));
        }
        let last = &existing_chunks[existing_chunks.len() - 1];
        assert(models.last() == last@);
        let toks = match self.tokenizer.encode(last.content.as_str()) {
            Ok(t) => t,
            Err(e) => {
                return Err(e);
            },
        };
        let size: usize = if self.config.chunk_overlap < toks.len() {
            self.config.chunk_overlap
        } else {
            toks.len()
        };
        if size == 0 {
            return Ok(to_owned_string(new_content));
        }
        let tail = copy_range(&toks, toks.len() - size, toks.len());
        assert(tail@ == toks@.skip(toks@.len() - size));
        match self.tokenizer.decode(tail.as_slice()) {
            Ok(t) => {
                let mut out = trim_string(t.as_str());
                push_char(&mut out, ' ');
                push_str(&mut out, new_content);
                Ok(out)
            },
            Err(e) => {
                let mut msg = to_owned_string("Failed to decode overlap tokens: ");
                push_str(&mut msg, e.as_str());
                Err(msg)
            },
        }
    }

    /// The chunks of `text` that respect sentence and paragraph boundaries.
    pub fn intelligent_chunk(&self, text: &str) -> (r: Result<Vec<TextChunk>, String>)
        ensures
            r is Ok <==> intelligent_chunks(self.config_spec(), text@) is Some,
            r matches Ok(v) ==> Some(chunk_models(v@)) == intelligent_chunks(
                self.config_spec(),
                text@,
            ),
    {
        let cfg = self.config;
        let units = units_of(cfg, text);
        let ghost uv = string_views(units@);
        let mut chunks: Vec<TextChunk> = Vec::new();
        let mut cur = String::new();
        let mut start: usize = 0;
        let mut k: usize = 0;
        assert(chunk_models(chunks@) =~= Seq::<ChunkModel>::empty());
        while k < units.len()
            invariant
                k <= units.len(),
                cfg == self.config_spec(),
                uv == string_views(units@),
                uv == chunk_units(cfg, text@),
                chunks@.len() <= k,
                chunk_run(cfg, uv, 0, seq![], seq![], 0) == chunk_run(
                    cfg,
                    uv,
                    k as int,
                    chunk_models(chunks@),
                    cur@,
                    start as int,
                ),
            decreases units.len() - k,
        {
            let u = &units[k];
            assert(uv[k as int] == u@);
            let stoks: usize = match self.tokenizer.encode(u.as_str()) {
                Ok(t) => t.len(),
                Err(e) => {
                    return Err(e);
                },
            };
            let cur_empty = cur.as_str().is_empty();
            let ctoks: usize = if cur_empty {
                0
            } else {
                match self.tokenizer.encode(cur.as_str()) {
                    Ok(t) => t.len(),
                    Err(e) => {
                        return Err(e);
                    },
                }
            };
            let ghost models = chunk_models(chunks@);
            let ghost cur0 = cur@;
            let ghost start0 = start as int;
            let ghost st = chunk_step(cfg, models, cur0, start0, u@);
            assert(cur_empty == (cur0.len() == 0));
            assert(ctoks == if cur0.len() == 0 { 0 } else { ntok(cur0) });
            if (stoks > cfg.chunk_size || ctoks > cfg.chunk_size - stoks) && !cur_empty {
                let cur_len = byte_len(cur.as_str());
                let end: usize = start.saturating_add(cur_len);
                assert(end == sat_add(start as int, blen(cur@)));
                if ctoks >= cfg.min_chunk_size {
                    let chunk = TextChunk {
                        content: trim_string(cur.as_str()),
                        start_char: start,
                        end_char: end,
                        token_count: ctoks,
                        chunk_index: chunks.len(),
                    };
                    assert(chunk@ == closed_chunk(models, cur@, start as int));
                    chunks.push(chunk);
                    assert(chunk_models(chunks@) =~= models.push(
                        closed_chunk(models, cur@, start as int),
                    ));
                }
                let next = match self.create_overlap_content(chunks.as_slice(), u.as_str()) {
                    Ok(n) => n,
                    Err(e) => {
                        return Err(e);
                    },
                };
                let next_len = byte_len(next.as_str());
                let u_len = byte_len(u.as_str());
                start = end.saturating_sub(next_len.saturating_sub(u_len));
                cur = next;
                assert(st == Some((chunk_models(chunks@), cur@, start as int)));
            } else if !cur_empty {
                push_char(&mut cur, ' ');
                push_str(&mut cur, u.as_str());
                assert(cur@ =~= cur0 + seq![' '] + u@);
                assert(st == Some((chunk_models(chunks@), cur@, start as int)));
            } else {
                cur = u.clone();
                assert(st == Some((chunk_models(chunks@), cur@, start as int)));
            }
            k = k + 1;
        }
        let cur_tokens: usize = match self.tokenizer.encode(cur.as_str()) {
            Ok(t) => t.len(),
            Err(e) => {
                return Err(e);
            },
        };
        if !is_blank(cur.as_str()) && cur_tokens >= cfg.min_chunk_size {
            let ghost models = chunk_models(chunks@);
            let cur_len = byte_len(cur.as_str());
            let chunk = TextChunk {
                content: trim_string(cur.as_str()),
                start_char: start,
                end_char: start.saturating_add(cur_len),
                token_count: cur_tokens,
                chunk_index: chunks.len(),
            };
            chunks.push(chunk);
            assert(chunk_models(chunks@) =~= models.push(
                closed_chunk(models, cur@, start as int),
            ));
        }
        Ok(chunks)
    }

    /// The byte position in `source_text` covered by its first `token_idx` tokens.
    pub fn estimate_char_position(&self, source_text: &str, token_idx: usize, all_tokens: &[u32]) -> (r:
        Result<usize, String>)
        ensures
            r is Ok <==> char_position(source_text@, token_idx as int, all_tokens@) is Some,
            r matches Ok(n) ==> Some(n as int) == char_position(
                source_text@,
                token_idx as int,
                all_tokens@,
            ),
    {
        if token_idx == 0 {
            return Ok(0);
        }
        if token_idx >= all_tokens.len() {
            return Ok(byte_len(source_text));
        }
        let mut prefix: Vec<u32> = Vec::new();
        let mut i: usize = 0;
        while i < token_idx
            invariant
                i <= token_idx,
                token_idx < all_tokens@.len(),
                prefix@ == all_tokens@.take(i as int),
            decreases token_idx - i,
        {
            prefix.push(all_tokens[i]);
            assert(all_tokens@.take(i + 1) == all_tokens@.take(i as int).push(all_tokens@[i as int]));
            i = i + 1;
        }
        match self.tokenizer.decode(prefix.as_slice()) {
            Ok(t) => Ok(byte_len(t.as_str())),
            Err(e) => {
                let mut msg = to_owned_string("Failed to decode tokens for position estimation: ");
                push_str(&mut msg, e.as_str());
                Err(msg)
            },
        }
    }

    /// Windows of `chunk_size` tokens overlapping by `chunk_overlap`, blank ones skipped.
    pub fn token_based_chunk(&self, text: &str) -> (r: Result<Vec<TextChunk>, String>)
        requires
            windows_advance(self.config_spec(), text@),
        ensures
            r is Ok <==> token_chunks(self.config_spec(), text@) is Some,
            r matches Ok(v) ==> Some(chunk_models(v@)) == token_chunks(self.config_spec(), text@),
    {
        let cfg = self.config;
        let toks = match self.tokenizer.encode(text) {
            Ok(t) => t,
            Err(e) => {
                return Err(e);
            },
        };
        let mut chunks: Vec<TextChunk> = Vec::new();
        let mut start: usize = 0;
        assert(chunk_models(chunks@) =~= Seq::<ChunkModel>::empty());
        while start < toks.len()
            invariant
                cfg == self.config_spec(),
                cfg.chunk_overlap < cfg.chunk_size || toks.len() <= cfg.chunk_size,
                cl100k_encode(text@) == Some(toks@),
                start <= toks.len(),
                chunks@.len() <= start,
                token_chunks(cfg, text@) == token_chunks_from(
                    cfg,
                    text@,
                    toks@,
                    start as int,
                    chunk_models(chunks@),
                ),
            decreases toks.len() - start,
        {
            let end: usize = if cfg.chunk_size < toks.len() - start {
                start + cfg.chunk_size
            } else {
                toks.len()
            };
            let piece = copy_range(&toks, start, end);
            let ghost models = chunk_models(chunks@);
            let decoded = match self.tokenizer.decode(piece.as_slice()) {
                Ok(t) => t,
                Err(e) => {
                    let mut msg = to_owned_string("Failed to decode tokens: ");
                    push_str(&mut msg, e.as_str());
                    return Err(msg);
                },
            };
            let next: usize = if end >= toks.len() {
                toks.len()
            } else {
                end - cfg.chunk_overlap
            };
            if !is_blank(decoded.as_str()) {
                let a = match self.estimate_char_position(text, start, toks.as_slice()) {
                    Ok(a) => a,
                    Err(e) => {
                        return Err(e);
                    },
                };
                let b = match self.estimate_char_position(text, end, toks.as_slice()) {
                    Ok(b) => b,
                    Err(e) => {
                        return Err(e);
                    },
                };
                let chunk = TextChunk {
                    content: trim_string(decoded.as_str()),
                    start_char: a,
                    end_char: b,
                    token_count: end - start,
                    chunk_index: chunks.len(),
                };
                chunks.push(chunk);
                assert(chunk_models(chunks@) =~= models.push(
                    ChunkModel {
                        content: trim(decoded@),
                        start_char: a as int,
                        end_char: b as int,
                        token_count: end - start,
                        chunk_index: models.len() as int,
                    },
                ));
            }
            start = next;
        }
        Ok(chunks)
    }

    /// The chunks of `text`: none for blank text; the boundary-respecting ones when
    /// either boundary is respected and they come out non-empty; token windows otherwise.
    pub fn chunk_text(&self, text: &str) -> (r: Result<Vec<TextChunk>, String>)
        requires
            windows_advance(self.config_spec(), text@),
        ensures
            r is Ok <==> chunk_text_spec(self.config_spec(), text@) is Some,
            r matches Ok(v) ==> Some(chunk_models(v@)) == chunk_text_spec(
                self.config_spec(),
                text@,
            ),
    {
        if is_blank(text) {
            let v: Vec<TextChunk> = Vec::new();
            assert(chunk_models(v@) =~= Seq::<ChunkModel>::empty());
            return Ok(v);
        }
        if self.config.respect_paragraph_boundaries || self.config.respect_sentence_boundaries {
            match self.intelligent_chunk(text) {
                Ok(chunks) => {
                    if chunks.len() > 0 {
                        return Ok(chunks);
                    }
                },
                Err(_) => {},
            }
        }
        self.token_based_chunk(text)
    }

    /// `chunk_text` where its token windows advance; `None` where they would
    /// not (the overlap is at least a window and the text has more tokens than
    /// one window), which is where cutting would never end.
    pub fn chunk_text_checked(&self, text: &str) -> (r: Option<Result<Vec<TextChunk>, String>>)
        ensures
            r is Some <==> windows_advance(self.config_spec(), text@),
            r matches Some(x) ==> (x is Ok <==> chunk_text_spec(self.config_spec(), text@) is Some),
            r matches Some(x) ==> (x matches Ok(v) ==> Some(chunk_models(v@)) == chunk_text_spec(
                self.config_spec(),
                text@,
            )),
    {
        if self.config.chunk_overlap < self.config.chunk_size {
            return Some(self.chunk_text(text));
        }
        match self.count_tokens(text) {
            Ok(n) => {
                if n <= self.config.chunk_size {
                    Some(self.chunk_text(text))
                } else {
                    None
                }
            },
            Err(_) => Some(self.chunk_text(text)),
        }
    }

    /// The sentences of `text` longer than ten bytes, trimmed, in order.
    pub fn split_sentences(&self, text: &str) -> (r: Vec<String>)
        ensures
            string_views(r@) == sentences(text@),
    {
        sentences_of(text)
    }
}

// ----------------------------------------------------------------------------
// Cleaning
// ----------------------------------------------------------------------------

/// Whether a character survives cleaning: ASCII, white space or alphanumeric.
pub open spec fn kept_char(c: char) -> bool {
    (c as u32) < 128 || is_ws(c) || unicode_is_alphanumeric(c)
}

/// The cleaned text: the words of `s`, after dropping every character that is neither
/// ASCII, white space nor alphanumeric, joined by single spaces.
pub open spec fn clean_text_spec(s: Seq<char>) -> Seq<char> {
    join(words(s.filter(|c: char| kept_char(c))), seq![' '])
}

/// Normalizes text: keeps only ASCII, white-space and alphanumeric characters, drops
/// blank lines and surrounding white space, and separates the words by single spaces.
pub fn clean_text(text: &str) -> (r: String)
    ensures
        r@ == clean_text_spec(text@),
{
    let v = chars_of(text);
    let ghost f = |c: char| kept_char(c);
    let mut kept: Vec<char> = Vec::new();
    let mut i: usize = 0;
    while i < v.len()
        invariant
            i <= v.len(),
            f == (|c: char| kept_char(c)),
            kept@ == v@.take(i as int).filter(f),
        decreases v.len() - i,
    {
        let c = v[i];
        proof {
            reveal_with_fuel(Seq::filter, 1);
            assert(v@.take(i + 1).drop_last() == v@.take(i as int));
            assert(v@.take(i + 1).last() == c);
        }
        if (c as u32) < 128 || is_whitespace_char(c) || char_is_alphanumeric(c) {
            kept.push(c);
        }
        i = i + 1;
    }
    assert(v@.take(v.len() as int) == v@);
    let ws = split_whitespace_chars(kept.as_slice());
    let sep: Vec<char> = vec![' '];
    let joined = join_chars(&ws, sep.as_slice());
    assert(sep@ =~= seq![' ']);
    string_from_chars(joined.as_slice())
}

/// Cleaning is idempotent: cleaning a cleaned text gives it back unchanged.
pub proof fn law_clean_text_idempotent(s: Seq<char>)
    ensures
        clean_text_spec(clean_text_spec(s)) == clean_text_spec(s),
{
    let p = |c: char| kept_char(c);
    let f = s.filter(p);
    assert forall|i: int| 0 <= i < f.len() implies p(#[trigger] f[i]) by {
        s.lemma_filter_pred(p, i);
    }
    lemma_words_of(f, p);
    let ws = words(f);
    let t = join(ws, seq![' ']);
    assert(p(' '));
    lemma_join_chars(ws, p);
    lemma_filter_all(t, p);
    lemma_words_of_join(ws, p);
}

/// Cleaning keeps letters and digits of any script: words made of
/// alphanumeric characters, separated by single spaces, come back unchanged.
pub proof fn law_clean_text_keeps_alphanumeric_words(ws: Seq<Seq<char>>)
    requires
        forall|k: int|
            0 <= k < ws.len() ==> (#[trigger] ws[k]).len() > 0 && forall|j: int|
                0 <= j < ws[k].len() ==> unicode_is_alphanumeric(#[trigger] ws[k][j]) && !is_ws(ws[k][j]),
    ensures
        clean_text_spec(join(ws, seq![' '])) == join(ws, seq![' ']),
{
    let p = |c: char| unicode_is_alphanumeric(c) || c == ' ';
    assert forall|k: int| 0 <= k < ws.len() implies word_of(#[trigger] ws[k], p) by {
        assert forall|j: int| 0 <= j < ws[k].len() implies !is_ws(#[trigger] ws[k][j]) && p(ws[k][j]) by {}
    }
    let t = join(ws, seq![' ']);
    lemma_join_chars(ws, p);
    let kp = |c: char| kept_char(c);
    assert forall|i: int| 0 <= i < t.len() implies kp(#[trigger] t[i]) by {
        assert(p(t[i]));
    }
    lemma_filter_all(t, kp);
    lemma_words_of_join(ws, p);
}

/// Cleaning never drops a letter or digit: every alphanumeric character of
/// the text, in any script, is in the cleaned text.
pub proof fn law_clean_text_keeps_alphanumerics(s: Seq<char>, i: int)
    requires
        0 <= i < s.len(),
        unicode_is_alphanumeric(s[i]),
        !is_ws(s[i]),
    ensures
        clean_text_spec(s).contains(s[i]),
{
    let p = |c: char| kept_char(c);
    let f = s.filter(p);
    s.lemma_filter_contains(p, i);
    let q = choose|q: int| 0 <= q < f.len() && f[q] == s[i];
    lemma_char_in_words(f, q);
    let ws = words(f);
    let k = choose|k: int| 0 <= k < ws.len() && (#[trigger] ws[k]).contains(f[q]);
    lemma_join_contains(ws, k, s[i]);
}

/// Whether position `j` of `x` ends a sentence inside `x`: a `.`, `!` or `?`
/// followed by white space or an upper-case letter.
pub open spec fn sentence_end_at(x: Seq<char>, j: int) -> bool {
    &&& 0 <= j < x.len() - 1
    &&& (x[j] == '.' || x[j] == '!' || x[j] == '?')
    &&& (is_ws(x[j + 1]) || unicode_is_uppercase(x[j + 1]))
}

/// Whether `x` holds at most one sentence: no `.`, `!` or `?` inside it is
/// followed by white space or an upper-case letter.
pub open spec fn one_sentence(x: Seq<char>) -> bool {
    forall|j: int| !#[trigger] sentence_end_at(x, j)
}

proof fn lemma_one_sentence_subrange(y: Seq<char>, a: int, b: int)
    requires
        one_sentence(y),
        0 <= a <= b <= y.len(),
    ensures
        one_sentence(y.subrange(a, b)),
{
    let x = y.subrange(a, b);
    assert forall|j: int| !#[trigger] sentence_end_at(x, j) by {
        if sentence_end_at(x, j) {
            assert(x[j] == y[a + j]);
            assert(x[j + 1] == y[a + j + 1]);
            assert(sentence_end_at(y, a + j));
        }
    }
}

/// Whether `x` stands in `s` at position `p` and, where it ends with `.`,
/// `!` or `?`, that mark is followed in `s` by the end, white space or an
/// upper-case letter.
pub open spec fn placed_at(s: Seq<char>, x: Seq<char>, p: int) -> bool {
    &&& 0 <= p && p + x.len() <= s.len()
    &&& s.subrange(p, p + x.len()) == x
    &&& (x.len() > 0 && (x.last() == '.' || x.last() == '!' || x.last() == '?')) ==> (p + x.len() == s.len()
        || is_ws(s[p + x.len()]) || unicode_is_uppercase(s[p + x.len()]))
}

/// Whether `x` stands somewhere in `s`, ending only where a sentence may end.
pub open spec fn placed_sentence(s: Seq<char>, x: Seq<char>) -> bool {
    exists|p: int| #[trigger] placed_at(s, x, p)
}

/// The trimmed run `s[p..e]` is placed in `s` where a mark at its end is
/// followed by the end, white space or an upper-case letter, or the run ends
/// in white space.
proof fn lemma_trim_placed(s: Seq<char>, p: int, e: int)
    requires
        0 <= p <= e <= s.len(),
        trim(s.subrange(p, e)).len() > 0 && (trim(s.subrange(p, e)).last() == '.' || trim(s.subrange(p, e)).last()
            == '!' || trim(s.subrange(p, e)).last() == '?') ==> (e == s.len() || is_ws(s[e])
            || unicode_is_uppercase(s[e])),
    ensures
        placed_sentence(s, trim(s.subrange(p, e))),
{
    let y = s.subrange(p, e);
    let r = lemma_trim_span(y);
    let x = trim(y);
    assert(s.subrange(p + r.0, p + r.0 + x.len()) =~= x);
    if r.1 < y.len() {
        assert(is_ws(y[r.1]));
        assert(s[p + r.1] == y[r.1]);
    } else if x.len() > 0 {
        assert(x.last() == y[y.len() - 1]);
    }
    assert(placed_at(s, x, p + r.0));
}

proof fn lemma_sentence_state_split(s: Seq<char>, k: nat)
    requires
        k <= s.len(),
    ensures
        forall|i: int| 0 <= i < sentence_state(s, k).0.len() ==> one_sentence(#[trigger] sentence_state(s, k).0[i]),
        one_sentence(sentence_state(s, k).1),
        ({
            let cur = sentence_state(s, k).1;
            cur.len() > 0 && (cur.last() == '.' || cur.last() == '!' || cur.last() == '?') ==> k < s.len()
                && !is_ws(s[k as int]) && !unicode_is_uppercase(s[k as int])
        }),
        sentence_state(s, k).1.len() <= k,
        sentence_state(s, k).1 == s.subrange(k - sentence_state(s, k).1.len(), k as int),
        forall|i: int|
            0 <= i < sentence_state(s, k).0.len() ==> placed_sentence(s, #[trigger] sentence_state(s, k).0[i]),
    decreases k,
{
    if k > 0 {
        lemma_sentence_state_split(s, (k - 1) as nat);
        let (done, cur) = sentence_state(s, (k - 1) as nat);
        let c = s[k - 1];
        let cur2 = cur.push(c);
        assert forall|j: int| !#[trigger] sentence_end_at(cur2, j) by {
            if sentence_end_at(cur2, j) {
                if j < cur.len() - 1 {
                    assert(cur2[j] == cur[j] && cur2[j + 1] == cur[j + 1]);
                    assert(sentence_end_at(cur, j));
                } else {
                    assert(cur2[j] == cur.last());
                    assert(cur2[j + 1] == c);
                }
            }
        }
        let p0 = k - cur2.len();
        assert(cur2 =~= s.subrange(p0, k as int));
        if is_terminal(c) && (k == s.len() || is_ws(s[k as int]) || unicode_is_uppercase(s[k as int])) {
            let r = lemma_trim_span(cur2);
            lemma_one_sentence_subrange(cur2, r.0, r.1);
            lemma_trim_placed(s, p0, k as int);
            let d2 = done.push(trim(cur2));
            assert forall|i: int| 0 <= i < d2.len() implies one_sentence(#[trigger] d2[i]) by {
                if i < done.len() {
                    assert(d2[i] == done[i]);
                }
            }
            assert forall|i: int| 0 <= i < d2.len() implies placed_sentence(s, #[trigger] d2[i]) by {
                if i < done.len() {
                    assert(d2[i] == done[i]);
                }
            }
            let e: Seq<char> = seq![];
            assert forall|j: int| !#[trigger] sentence_end_at(e, j) by {}
        } else {
            assert(cur2.last() == c);
        }
    } else {
        let e: Seq<char> = seq![];
        assert forall|j: int| !#[trigger] sentence_end_at(e, j) by {}
    }
}

/// A sentence ends exactly where a sentence may end: in no sentence that
/// `split_sentences` gives is a `.`, `!` or `?` followed by white space or an
/// upper-case letter, except at its end; and each sentence stands in the
/// text, where a mark that ends it is followed by the end of the text, white
/// space or an upper-case letter.
pub proof fn law_sentences_end_at_marks(s: Seq<char>)
    ensures
        forall|i: int| 0 <= i < sentences(s).len() ==> one_sentence(#[trigger] sentences(s)[i]),
        forall|i: int| 0 <= i < sentences(s).len() ==> placed_sentence(s, #[trigger] sentences(s)[i]),
{
    lemma_sentence_state_split(s, s.len());
    let (done, cur) = sentence_state(s, s.len());
    let all = if trim(cur).len() > 0 {
        done.push(trim(cur))
    } else {
        done
    };
    if trim(cur).len() > 0 {
        let r = lemma_trim_span(cur);
        lemma_one_sentence_subrange(cur, r.0, r.1);
        lemma_trim_placed(s, s.len() - cur.len(), s.len() as int);
    }
    assert forall|i: int| 0 <= i < all.len() implies one_sentence(#[trigger] all[i]) && placed_sentence(s, all[i]) by {
        if i < done.len() {
            assert(all[i] == done[i]);
        }
    }
    let f = |x: Seq<char>| long_enough(x);
    assert forall|i: int| 0 <= i < sentences(s).len() implies one_sentence(#[trigger] sentences(s)[i])
        && placed_sentence(s, sentences(s)[i]) by {
        let x = sentences(s)[i];
        assert(all.filter(f).contains(x));
        all.lemma_filter_contains_rev(f, x);
        let q = choose|q: int| 0 <= q < all.len() && all[q] == x;
        assert(one_sentence(all[q]) && placed_sentence(s, all[q]));
    }
}

/// The text of a Word document; extraction is not supported, so a fixed notice.
pub fn extract_text_from_docx(content: &[u8]) -> (r: Result<String, String>)
    ensures
        r matches Ok(s) && s@ == "DOCX text extraction not yet implemented"@,
{
    Ok(to_owned_string("DOCX text extraction not yet implemented"))
}

/// The text of a PDF, read by `read_pdf` (the caller's PDF reader); a failure is
/// reported with its cause.
pub fn extract_text_from_pdf<R: Fn(&[u8]) -> Result<String, String>>(content: &[u8], read_pdf: &R) -> (r:
    Result<String, String>)
    requires
        forall|b: &[u8]| #[trigger] call_requires(*read_pdf, (b,)),
    ensures
        exists|p: Result<String, String>|
            crate::files::pdf_reading(*read_pdf, content@, p) && match p {
                Ok(t) => r matches Ok(s) && s@ == t@,
                Err(e) => r matches Err(m) && m@ == "PDF extraction failed: "@ + e@,
            },
{
    let p = read_pdf(content);
    let ghost pv = p;
    assert(crate::files::pdf_reading(*read_pdf, content@, pv));
    match p {
        Ok(s) => Ok(s),
        Err(e) => {
            let mut m = to_owned_string("PDF extraction failed: ");
            push_str(&mut m, e.as_str());
            Err(m)
        },
    }
}

// ----------------------------------------------------------------------------
// Laws
// ----------------------------------------------------------------------------

/// Whether each chunk carries its position as its index.
pub open spec fn indexed(cs: Seq<ChunkModel>) -> bool {
    forall|i: int| 0 <= i < cs.len() ==> (#[trigger] cs[i]).chunk_index == i
}

/// Whether each chunk starts at a byte no later than the one it ends at.
pub open spec fn spans_ordered(cs: Seq<ChunkModel>) -> bool {
    forall|i: int| 0 <= i < cs.len() ==> 0 <= (#[trigger] cs[i]).start_char <= cs[i].end_char
}

/// Whether each chunk's text has no white space at either end.
pub open spec fn contents_trimmed(cs: Seq<ChunkModel>) -> bool {
    forall|i: int| 0 <= i < cs.len() ==> trim((#[trigger] cs[i]).content) == cs[i].content
}

/// Whether each chunk has at least `min` tokens.
pub open spec fn all_at_least(cs: Seq<ChunkModel>, min: int) -> bool {
    forall|i: int| 0 <= i < cs.len() ==> (#[trigger] cs[i]).token_count >= min
}

proof fn lemma_push_closed(chunks: Seq<ChunkModel>, cur: Seq<char>, start: int, min: int)
    requires
        indexed(chunks),
        all_at_least(chunks, min),
        spans_ordered(chunks),
        contents_trimmed(chunks),
        ntok(cur) >= min,
        0 <= start <= usize::MAX,
    ensures
        indexed(chunks.push(closed_chunk(chunks, cur, start))),
        all_at_least(chunks.push(closed_chunk(chunks, cur, start)), min),
        spans_ordered(chunks.push(closed_chunk(chunks, cur, start))),
        contents_trimmed(chunks.push(closed_chunk(chunks, cur, start))),
{
    let c = chunks.push(closed_chunk(chunks, cur, start));
    lemma_trim_idempotent(cur);
    assert forall|i: int| 0 <= i < c.len() implies trim((#[trigger] c[i]).content) == c[i].content by {
        if i < chunks.len() {
            assert(c[i] == chunks[i]);
        }
    }
    assert forall|i: int| 0 <= i < c.len() implies (#[trigger] c[i]).chunk_index == i && c[i].token_count
        >= min && 0 <= c[i].start_char <= c[i].end_char by {
        if i < chunks.len() {
            assert(c[i] == chunks[i]);
        }
    }
}

proof fn lemma_chunk_run(
    cfg: ChunkingConfig,
    units: Seq<Seq<char>>,
    k: int,
    chunks: Seq<ChunkModel>,
    cur: Seq<char>,
    start: int,
)
    requires
        indexed(chunks),
        all_at_least(chunks, cfg.min_chunk_size as int),
        spans_ordered(chunks),
        contents_trimmed(chunks),
        0 <= start <= usize::MAX,
    ensures
        chunk_run(cfg, units, k, chunks, cur, start) matches Some((c, _, s)) ==> indexed(c)
            && all_at_least(c, cfg.min_chunk_size as int) && spans_ordered(c) && contents_trimmed(c)
            && 0 <= s <= usize::MAX,
    decreases units.len() - k,
{
    if 0 <= k < units.len() {
        let u = units[k];
        let ctoks = if cur.len() == 0 {
            0
        } else {
            ntok(cur)
        };
        if ctoks + ntok(u) > cfg.chunk_size && cur.len() > 0 && ctoks >= cfg.min_chunk_size {
            lemma_push_closed(chunks, cur, start, cfg.min_chunk_size as int);
        }
        match chunk_step(cfg, chunks, cur, start, u) {
            None => {},
            Some((c2, cur2, s2)) => {
                lemma_chunk_run(cfg, units, k + 1, c2, cur2, s2);
            },
        }
    }
}

proof fn lemma_token_chunks_from(
    cfg: ChunkingConfig,
    text: Seq<char>,
    toks: Seq<u32>,
    start: int,
    chunks: Seq<ChunkModel>,
)
    requires
        indexed(chunks),
    ensures
        token_chunks_from(cfg, text, toks, start, chunks) matches Some(c) ==> indexed(c),
    decreases toks.len() - start,
{
    if !(start < 0 || start >= toks.len()) {
        let end = if start + cfg.chunk_size < toks.len() {
            start + cfg.chunk_size
        } else {
            toks.len() as int
        };
        let next = if end >= toks.len() || cfg.chunk_size <= cfg.chunk_overlap {
            toks.len() as int
        } else {
            end - cfg.chunk_overlap
        };
        match cl100k_decode(toks.subrange(start, end)) {
            None => {},
            Some(t) => {
                if trim(t).len() > 0 {
                    match (char_position(text, start, toks), char_position(text, end, toks)) {
                        (Some(a), Some(b)) => {
                            let m = ChunkModel {
                                content: trim(t),
                                start_char: a,
                                end_char: b,
                                token_count: end - start,
                                chunk_index: chunks.len() as int,
                            };
                            let c2 = chunks.push(m);
                            assert forall|i: int| 0 <= i < c2.len() implies (#[trigger] c2[i]).chunk_index
                                == i by {
                                if i < chunks.len() {
                                    assert(c2[i] == chunks[i]);
                                }
                            }
                            lemma_token_chunks_from(cfg, text, toks, next, c2);
                        },
                        _ => {},
                    }
                } else {
                    lemma_token_chunks_from(cfg, text, toks, next, chunks);
                }
            },
        }
    }
}

/// The chunks of a text are numbered by their position; chunks cut on sentence
/// and paragraph boundaries are numbered so too, each holds at least the
/// configured minimum of tokens, starts no later than it ends, and has no
/// white space at either end of its text.
pub proof fn law_chunks_are_numbered(cfg: ChunkingConfig, text: Seq<char>)
    ensures
        chunk_text_spec(cfg, text) matches Some(cs) ==> indexed(cs),
        intelligent_chunks(cfg, text) matches Some(cs) ==> indexed(cs) && all_at_least(
            cs,
            cfg.min_chunk_size as int,
        ) && spans_ordered(cs) && contents_trimmed(cs),
{
    let units = chunk_units(cfg, text);
    let e: Seq<ChunkModel> = seq![];
    lemma_chunk_run(cfg, units, 0, e, seq![], 0);
    match chunk_run(cfg, units, 0, e, seq![], 0) {
        None => {},
        Some((chunks, cur, start)) => {
            if trim(cur).len() > 0 && ntok(cur) >= cfg.min_chunk_size {
                lemma_push_closed(chunks, cur, start, cfg.min_chunk_size as int);
            }
        },
    }
    lemma_token_chunks_from(cfg, text, tokens_of(text), 0, e);
}

} // verus!
