//! The translation cache gateway: an in-memory snapshot of the
//! persistent text-to-text translation cache, batch deduplication, and
//! the resolution of a batch against the outcome of one remote
//! translation call, with identity fallback on failure.
//!
//! The gateway itself performs no I/O. A caller loads the cache
//! snapshot, asks [`translation_misses`] which texts need the one
//! remote call, performs that call (with its own retries), and hands
//! whatever came back — or `None` after exhausted retries — to
//! [`translate_batch`], which is verified for every outcome.

use vstd::prelude::*;
use vstd::hash_map::StringHashMap;
use vstd::string::StrSliceExecFns;
use vstd::string::StringExecFns;
use crate::text::lemma_filter_push;
use crate::text::spec_dec;
use crate::text::spec_ends_with;
use crate::text::spec_starts_with;
use crate::text::spec_trim;
use crate::text::has_prefix;
use crate::text::has_suffix;
use crate::text::str_eq;
use crate::text::trim_whitespace;
use crate::text::u32_to_string;

verus! {

/// The in-memory snapshot of the translation cache for one language
/// pair: source text to translated text.
pub struct TranslationCache {
    entries: StringHashMap<String>,
}

impl View for TranslationCache {
    type V = Map<Seq<char>, Seq<char>>;

    closed spec fn view(&self) -> Map<Seq<char>, Seq<char>> {
        self.entries@.map_values(|v: String| v@)
    }
}

/// The cached translation of one text, if the cache has one.
pub open spec fn spec_lookup(m: Map<Seq<char>, Seq<char>>, t: Seq<char>) -> Option<Seq<char>> {
    if m.contains_key(t) {
        Some(m[t])
    } else {
        None
    }
}

impl TranslationCache {
    /// An empty cache snapshot.
    pub fn new() -> (r: TranslationCache)
        ensures
            r@ == Map::<Seq<char>, Seq<char>>::empty(),
    {
        let c = TranslationCache { entries: StringHashMap::new() };
        proof {
            assert(c@ =~= Map::<Seq<char>, Seq<char>>::empty());
        }
        c
    }

    /// Whether the cache holds a translation for this exact text.
    pub fn contains(&self, text: &str) -> (r: bool)
        ensures
            r == self@.contains_key(text@),
    {
        self.entries.contains_key(text)
    }

    /// The cached translation for this exact text, if any.
    pub fn lookup(&self, text: &str) -> (r: Option<String>)
        ensures
            r.deep_view() == spec_lookup(self@, text@),
    {
        match self.entries.get(text) {
            Some(v) => Some(v.clone()),
            None => None,
        }
    }

    /// Record a translation: an insert-or-replace keyed by the source
    /// text.
    pub fn insert(&mut self, source: String, translated: String)
        ensures
            final(self)@ == old(self)@.insert(source@, translated@),
    {
        let ghost before = self@;
        let ghost k = source@;
        let ghost v = translated@;
        self.entries.insert(source, translated);
        proof {
            assert(self@ =~= before.insert(k, v));
        }
    }
}

/// The distinct non-empty texts of a batch, in first-occurrence order.
pub open spec fn spec_dedup_nonempty(ts: Seq<Seq<char>>) -> Seq<Seq<char>>
    decreases ts.len(),
{
    if ts.len() == 0 {
        Seq::empty()
    } else {
        let p = spec_dedup_nonempty(ts.drop_last());
        let t = ts.last();
        if t.len() == 0 || p.contains(t) {
            p
        } else {
            p.push(t)
        }
    }
}

/// The texts of a batch that need the remote call: the distinct
/// non-empty texts, in first-occurrence order, that the cache lacks.
pub open spec fn spec_misses(m: Map<Seq<char>, Seq<char>>, ts: Seq<Seq<char>>) -> Seq<Seq<char>> {
    spec_dedup_nonempty(ts).filter(|t: Seq<char>| !m.contains_key(t))
}

/// The cache extended with one translation per miss, positionally; an
/// empty translation is never recorded.
pub open spec fn spec_extend(
    m: Map<Seq<char>, Seq<char>>,
    ms: Seq<Seq<char>>,
    tr: Seq<Seq<char>>,
) -> Map<Seq<char>, Seq<char>>
    recommends
        ms.len() == tr.len(),
    decreases ms.len(),
{
    if ms.len() == 0 {
        m
    } else {
        let m1 = spec_extend(m, ms.drop_last(), tr.drop_last());
        if tr.last().len() == 0 {
            m1
        } else {
            m1.insert(ms.last(), tr.last())
        }
    }
}

/// What one text resolves to against a cache: its non-empty cached
/// translation where one exists, else the text itself. A translation
/// is never replaced by nothing.
pub open spec fn spec_resolved(m: Map<Seq<char>, Seq<char>>, t: Seq<char>) -> Seq<char> {
    if m.contains_key(t) && m[t].len() > 0 {
        m[t]
    } else {
        t
    }
}

/// What one input text of the batch resolves to, given the cache as it
/// stood, the misses, and the outcome of the remote call: the empty
/// text stays empty; on a successful call whose count matches, texts
/// resolve through the extended cache; otherwise texts resolve through
/// the cache as it stood, so every miss falls back to itself. Either
/// way a non-empty text never resolves to an empty translation.
pub open spec fn spec_batch_entry(
    m: Map<Seq<char>, Seq<char>>,
    ms: Seq<Seq<char>>,
    remote: Option<Seq<Seq<char>>>,
    t: Seq<char>,
) -> Seq<char> {
    if t.len() == 0 {
        Seq::empty()
    } else if remote is Some && remote.unwrap().len() == ms.len() {
        spec_resolved(spec_extend(m, ms, remote.unwrap()), t)
    } else {
        spec_resolved(m, t)
    }
}

/// A batch entry is empty exactly for the empty input text, whatever
/// the cache held and whatever the remote call returned.
pub proof fn lemma_batch_entry_empty_iff(
    m: Map<Seq<char>, Seq<char>>,
    ms: Seq<Seq<char>>,
    remote: Option<Seq<Seq<char>>>,
    t: Seq<char>,
)
    ensures
        (spec_batch_entry(m, ms, remote, t).len() == 0) == (t.len() == 0),
{
}

/// Whether a vector of strings holds this exact text.
fn vec_contains_str(v: &Vec<String>, s: &str) -> (r: bool)
    ensures
        r == v.deep_view().contains(s@),
{
    let n = v.len();
    for i in 0..n
        invariant
            n == v.len(),
            forall|j: int| 0 <= j < i ==> v.deep_view()[j] != s@,
    {
        if str_eq(v[i].as_str(), s) {
            proof {
                assert(v.deep_view()[i as int] == s@);
            }
            return true;
        }
    }
    proof {
        assert forall|j: int| 0 <= j < v.deep_view().len() implies v.deep_view()[j] != s@ by {}
    }
    false
}

/// Look up the cached translations for a sequence of texts: same
/// length and order as the input, each entry the cached translation of
/// that exact text if one exists, else absent.
pub fn lookup_cached_translations(cache: &TranslationCache, texts: &Vec<String>) -> (r: Vec<
    Option<String>,
>)
    ensures
        r.deep_view().len() == texts.deep_view().len(),
        forall|i: int|
            0 <= i < texts.deep_view().len() ==> r.deep_view()[i] == spec_lookup(
                cache@,
                texts.deep_view()[i],
            ),
{
    let mut out: Vec<Option<String>> = Vec::new();
    let n = texts.len();
    for i in 0..n
        invariant
            n == texts.len(),
            out.deep_view().len() == i,
            forall|j: int|
                0 <= j < i ==> out.deep_view()[j] == spec_lookup(cache@, texts.deep_view()[j]),
    {
        let cached = cache.lookup(texts[i].as_str());
        let ghost before = out.deep_view();
        let ghost cv = cached.deep_view();
        out.push(cached);
        proof {
            assert(out.deep_view() =~= before.push(cv));
        }
    }
    out
}

/// The distinct non-empty texts of the batch that the cache lacks, in
/// first-occurrence order: exactly the texts the one remote call must
/// cover.
pub fn translation_misses(cache: &TranslationCache, texts: &Vec<String>) -> (r: Vec<String>)
    ensures
        r.deep_view() == spec_misses(cache@, texts.deep_view()),
{
    let mut uniq: Vec<String> = Vec::new();
    let n = texts.len();
    for i in 0..n
        invariant
            n == texts.len(),
            uniq.deep_view() == spec_dedup_nonempty(texts.deep_view().subrange(0, i as int)),
    {
        let ghost prefix = texts.deep_view().subrange(0, i as int);
        let t = &texts[i];
        proof {
            assert(texts.deep_view().subrange(0, i + 1).drop_last() =~= prefix);
            assert(texts.deep_view().subrange(0, i + 1).last() == t@);
        }
        if !t.as_str().is_empty() && !vec_contains_str(&uniq, t.as_str()) {
            let ghost before = uniq.deep_view();
            uniq.push(t.clone());
            proof {
                assert(uniq.deep_view() =~= before.push(t@));
            }
        }
    }
    proof {
        assert(texts.deep_view().subrange(0, texts.deep_view().len() as int) =~= texts.deep_view());
    }

    let mut misses: Vec<String> = Vec::new();
    let un = uniq.len();
    for i in 0..un
        invariant
            un == uniq.len(),
            misses.deep_view() == uniq.deep_view().subrange(0, i as int).filter(
                |t: Seq<char>| !cache@.contains_key(t),
            ),
    {
        let ghost prefix = uniq.deep_view().subrange(0, i as int);
        let u = &uniq[i];
        proof {
            assert(uniq.deep_view().subrange(0, i + 1) =~= prefix.push(u@));
            lemma_filter_push(prefix, u@, |t: Seq<char>| !cache@.contains_key(t));
        }
        if !cache.contains(u.as_str()) {
            let ghost before = misses.deep_view();
            misses.push(u.clone());
            proof {
                assert(misses.deep_view() =~= before.push(u@));
            }
        }
    }
    proof {
        assert(uniq.deep_view().subrange(0, uniq.deep_view().len() as int) =~= uniq.deep_view());
    }
    misses
}

/// Resolve a batch of texts against the cache and the outcome of the
/// one remote call made for the misses (`None` when the call failed
/// after its retries).
///
/// The result has the same length and order as the input. On success
/// with a matching count, each miss with a non-empty translation is
/// recorded in the cache and every text resolves through the extended
/// cache; on failure, or on a count mismatch, the cache is left
/// untouched and every miss resolves to itself. A non-empty text never
/// comes back empty — an empty cached or returned translation falls
/// back to the source text — and the caller never sees an error:
/// translation is best-effort.
pub fn translate_batch(cache: &mut TranslationCache, texts: &Vec<String>, remote: Option<
    Vec<String>,
>) -> (r: Vec<String>)
    ensures
        ({
            let m0 = old(cache)@;
            let ms = spec_misses(m0, texts.deep_view());
            let rv = remote.deep_view();
            &&& final(cache)@ == (if rv is Some && rv.unwrap().len() == ms.len() {
                spec_extend(m0, ms, rv.unwrap())
            } else {
                m0
            })
            &&& r.deep_view().len() == texts.deep_view().len()
            &&& (forall|i: int|
                0 <= i < texts.deep_view().len() ==> r.deep_view()[i] == spec_batch_entry(
                    m0,
                    ms,
                    rv,
                    texts.deep_view()[i],
                ))
        }),
{
    let ghost m0 = cache@;
    let ghost rv = remote.deep_view();
    let misses = translation_misses(cache, texts);
    let ghost ms = misses.deep_view();

    if let Some(tr) = remote {
        if tr.len() == misses.len() {
            let mn = misses.len();
            for i in 0..mn
                invariant
                    mn == misses.len(),
                    tr.len() == misses.len(),
                    ms == misses.deep_view(),
                    rv == Some(tr.deep_view()),
                    cache@ == spec_extend(
                        m0,
                        ms.subrange(0, i as int),
                        tr.deep_view().subrange(0, i as int),
                    ),
            {
                proof {
                    assert(ms.subrange(0, i + 1).drop_last() =~= ms.subrange(0, i as int));
                    assert(tr.deep_view().subrange(0, i + 1).drop_last() =~= tr.deep_view()
                        .subrange(0, i as int));
                    assert(ms.subrange(0, i + 1).last() == ms[i as int]);
                    assert(tr.deep_view().subrange(0, i + 1).last() == tr.deep_view()[i as int]);
                }
                if !tr[i].as_str().is_empty() {
                    cache.insert(misses[i].clone(), tr[i].clone());
                }
            }
            proof {
                assert(ms.subrange(0, ms.len() as int) =~= ms);
                assert(tr.deep_view().subrange(0, tr.deep_view().len() as int) =~= tr.deep_view());
            }
        }
    }

    let ghost mfinal = cache@;
    let mut out: Vec<String> = Vec::new();
    let n = texts.len();
    for i in 0..n
        invariant
            n == texts.len(),
            cache@ == mfinal,
            mfinal == (if rv is Some && rv.unwrap().len() == ms.len() {
                spec_extend(m0, ms, rv.unwrap())
            } else {
                m0
            }),
            ms == spec_misses(m0, texts.deep_view()),
            out.deep_view().len() == i,
            forall|j: int|
                0 <= j < i ==> out.deep_view()[j] == spec_batch_entry(
                    m0,
                    ms,
                    rv,
                    texts.deep_view()[j],
                ),
    {
        let t = &texts[i];
        let ghost before = out.deep_view();
        if t.as_str().is_empty() {
            out.push(String::new());
            proof {
                assert(out.deep_view() =~= before.push(Seq::<char>::empty()));
                assert(Seq::<char>::empty() =~= spec_batch_entry(m0, ms, rv, texts.deep_view()[i as int]));
            }
        } else {
            match cache.lookup(t.as_str()) {
                Some(v) if !v.as_str().is_empty() => {
                    let ghost vv = v@;
                    out.push(v);
                    proof {
                        assert(out.deep_view() =~= before.push(vv));
                    }
                },
                _ => {
                    out.push(t.clone());
                    proof {
                        assert(out.deep_view() =~= before.push(t@));
                    }
                },
            }
        }
    }
    out
}

/// No sequence element occurs twice.
pub open spec fn spec_distinct(s: Seq<Seq<char>>) -> bool {
    forall|i: int, j: int| 0 <= i < j < s.len() ==> (#[trigger] s[i]) != (#[trigger] s[j])
}

/// The deduplicated batch holds each of its texts once, non-empty and
/// drawn from the batch.
proof fn lemma_dedup_props(ts: Seq<Seq<char>>)
    ensures
        spec_distinct(spec_dedup_nonempty(ts)),
        forall|i: int|
            0 <= i < spec_dedup_nonempty(ts).len() ==> (#[trigger] spec_dedup_nonempty(ts)[i]).len()
                > 0 && ts.contains(spec_dedup_nonempty(ts)[i]),
    decreases ts.len(),
{
    if ts.len() > 0 {
        let dl = ts.drop_last();
        lemma_dedup_props(dl);
        let p = spec_dedup_nonempty(dl);
        let d = spec_dedup_nonempty(ts);
        assert forall|i: int|
            0 <= i < d.len() implies (#[trigger] d[i]).len() > 0 && ts.contains(d[i]) by {
            if i < p.len() {
                let j = choose|j: int| 0 <= j < dl.len() && dl[j] == p[i];
                assert(ts[j] == p[i]);
            } else {
                assert(d[i] == ts.last());
                assert(ts[ts.len() - 1] == ts.last());
            }
        }
    }
}

/// Elements of a filtered sequence come from the sequence.
proof fn lemma_filter_contains_rev(s: Seq<Seq<char>>, pred: spec_fn(Seq<char>) -> bool, x: Seq<char>)
    requires
        s.filter(pred).contains(x),
    ensures
        s.contains(x),
    decreases s.len(),
{
    reveal(Seq::filter);
    if s.len() > 0 {
        let dl = s.drop_last();
        if x == s.last() {
            assert(s[s.len() - 1] == x);
        } else {
            assert(dl.filter(pred).contains(x)) by {
                let j = choose|j: int|
                    0 <= j < s.filter(pred).len() && s.filter(pred)[j] == x;
                if pred(s.last()) {
                    assert(s.filter(pred) == dl.filter(pred).push(s.last()));
                    assert(dl.filter(pred)[j] == x);
                }
            }
            lemma_filter_contains_rev(dl, pred, x);
            let j = choose|j: int| 0 <= j < dl.len() && dl[j] == x;
            assert(s[j] == x);
        }
    }
}

/// A filter of a duplicate-free sequence is duplicate-free.
proof fn lemma_filter_distinct(s: Seq<Seq<char>>, pred: spec_fn(Seq<char>) -> bool)
    requires
        spec_distinct(s),
    ensures
        spec_distinct(s.filter(pred)),
    decreases s.len(),
{
    reveal(Seq::filter);
    if s.len() > 0 {
        let dl = s.drop_last();
        assert(spec_distinct(dl)) by {
            assert forall|i: int, j: int| 0 <= i < j < dl.len() implies (#[trigger] dl[i]) != (#[trigger] dl[j]) by {
                assert(s[i] != s[j]);
            }
        }
        lemma_filter_distinct(dl, pred);
        if pred(s.last()) {
            assert(!dl.filter(pred).contains(s.last())) by {
                if dl.filter(pred).contains(s.last()) {
                    lemma_filter_contains_rev(dl, pred, s.last());
                    let j = choose|j: int| 0 <= j < dl.len() && dl[j] == s.last();
                    assert(s[j] != s[s.len() - 1]);
                }
            }
            let r = dl.filter(pred).push(s.last());
            assert(s.filter(pred) == r);
            assert forall|i: int, j: int| 0 <= i < j < r.len() implies (#[trigger] r[i]) != (#[trigger] r[j]) by {
                if j < r.len() - 1 {
                    assert(dl.filter(pred)[i] != dl.filter(pred)[j]);
                } else {
                    assert(r[i] == dl.filter(pred)[i]);
                    assert(dl.filter(pred).contains(r[i])) by {
                        assert(dl.filter(pred)[i] == r[i]);
                    }
                }
            }
        }
    }
}

/// The misses of a batch name each distinct, non-empty, uncached text
/// of the batch exactly once: the one remote call they describe covers
/// every untranslated text, and no text twice.
pub proof fn lemma_misses_distinct(m: Map<Seq<char>, Seq<char>>, ts: Seq<Seq<char>>)
    ensures
        spec_distinct(spec_misses(m, ts)),
        forall|i: int|
            0 <= i < spec_misses(m, ts).len() ==> (#[trigger] spec_misses(m, ts)[i]).len() > 0
                && ts.contains(spec_misses(m, ts)[i]) && !m.contains_key(spec_misses(m, ts)[i]),
{
    let pred = |t: Seq<char>| !m.contains_key(t);
    let d = spec_dedup_nonempty(ts);
    lemma_dedup_props(ts);
    lemma_filter_distinct(d, pred);
    assert forall|i: int|
        0 <= i < spec_misses(m, ts).len() implies (#[trigger] spec_misses(m, ts)[i]).len() > 0
        && ts.contains(spec_misses(m, ts)[i]) && !m.contains_key(spec_misses(m, ts)[i]) by {
        let x = spec_misses(m, ts)[i];
        d.lemma_filter_pred(pred, i);
        assert(d.filter(pred).contains(x)) by {
            assert(d.filter(pred)[i] == x);
        }
        lemma_filter_contains_rev(d, pred, x);
        let j = choose|j: int| 0 <= j < d.len() && d[j] == x;
    }
}

/// A remote reply with optional markdown code fences removed: the
/// text is trimmed, a leading fence (with or without a language tag)
/// and a trailing fence are stripped, and the rest is trimmed again.
pub open spec fn spec_unfence(s: Seq<char>) -> Seq<char> {
    let t = spec_trim(s);
    let t1 = if spec_starts_with(t, "```json"@) {
        t.subrange("```json"@.len() as int, t.len() as int)
    } else if spec_starts_with(t, "```"@) {
        t.subrange("```"@.len() as int, t.len() as int)
    } else {
        t
    };
    let t2 = if spec_ends_with(t1, "```"@) {
        t1.subrange(0, t1.len() - "```"@.len())
    } else {
        t1
    };
    spec_trim(t2)
}

/// The parse of a text as a JSON array of strings, named here so that
/// contracts can speak of it exactly; what it maps each text to is
/// fixed by the JSON grammar, not stated.
pub uninterp spec fn json_string_array(s: Seq<char>) -> Option<Seq<Seq<char>>>;

/// Relies on serde_json::from_str::<Vec<String>>: whether and how a
/// text parses as a JSON array of strings is a function of the text
/// alone.
#[verifier::external_body]
fn parse_string_array(s: &str) -> (r: Option<Vec<String>>)
    ensures
        r.deep_view() == json_string_array(s@),
{
    serde_json::from_str::<Vec<String>>(s).ok()
}

/// Decode a remote translation reply: strip optional markdown code
/// fences and parse the rest as a JSON array of strings. `None` means
/// the reply was not such an array.
pub fn extract_translations(content: &str) -> (r: Option<Vec<String>>)
    ensures
        r.deep_view() == json_string_array(spec_unfence(content@)),
{
    let t = trim_whitespace(content);
    let tn = t.unicode_len();
    let t1 = if has_prefix(t, "```json") {
        let pl = "```json".unicode_len();
        t.substring_char(pl, tn)
    } else if has_prefix(t, "```") {
        let pl = "```".unicode_len();
        t.substring_char(pl, tn)
    } else {
        t
    };
    let t2 = if has_suffix(t1, "```") {
        let sl = "```".unicode_len();
        let n1 = t1.unicode_len();
        t1.substring_char(0, n1 - sl)
    } else {
        t1
    };
    parse_string_array(trim_whitespace(t2))
}

/// One numbered line per text, most lines ending in a newline
/// separator: the body of the translation prompt from position `i`
/// onward.
pub open spec fn spec_numbered_lines(ts: Seq<Seq<char>>, i: int) -> Seq<char>
    decreases ts.len() - i,
{
    if i < 0 || i >= ts.len() {
        Seq::empty()
    } else {
        let line = spec_dec((i + 1) as u32) + ". "@ + ts[i];
        if i + 1 < ts.len() {
            line + "\n"@ + spec_numbered_lines(ts, i + 1)
        } else {
            line
        }
    }
}

/// The prompt sent with one remote translation batch: a fixed header
/// naming the course context, the number of items, and the numbered
/// items themselves.
pub open spec fn spec_prompt(ts: Seq<Seq<char>>, ctx: Seq<char>) -> Seq<char> {
    "Translate these Chinese items to English for a university course ("@ + ctx
        + "). These are topic descriptions and category names. Return ONLY a JSON array of strings, with exactly "@
        + spec_dec(ts.len() as u32)
        + " elements, in the same order:\n"@ + spec_numbered_lines(ts, 0)
}

/// Append the numbered lines from position `i` onward.
fn push_lines(texts: &Vec<String>, i: usize, out: &mut String)
    requires
        i <= texts.len(),
        texts@.len() < 4294967295,
    ensures
        final(out)@ == old(out)@ + spec_numbered_lines(texts.deep_view(), i as int),
    decreases texts.len() - i,
{
    if i < texts.len() {
        let number = u32_to_string((i + 1) as u32);
        out.append(number.as_str());
        out.append(". ");
        out.append(texts[i].as_str());
        if i + 1 < texts.len() {
            out.append("\n");
            push_lines(texts, i + 1, out);
            proof {
                assert(final(out)@ =~= old(out)@ + spec_numbered_lines(
                    texts.deep_view(),
                    i as int,
                ));
            }
        } else {
            proof {
                assert(final(out)@ =~= old(out)@ + spec_numbered_lines(
                    texts.deep_view(),
                    i as int,
                ));
            }
        }
    } else {
        proof {
            assert(final(out)@ =~= old(out)@ + spec_numbered_lines(texts.deep_view(), i as int));
        }
    }
}

/// Build the prompt for one remote translation batch.
pub fn build_translation_prompt(texts: &Vec<String>, course_context: &str) -> (r: String)
    requires
        texts@.len() < 4294967295,
    ensures
        r@ == spec_prompt(texts.deep_view(), course_context@),
{
    let mut s = String::from_str(
        "Translate these Chinese items to English for a university course (",
    );
    s.append(course_context);
    s.append(
        "). These are topic descriptions and category names. Return ONLY a JSON array of strings, with exactly ",
    );
    let count = u32_to_string(texts.len() as u32);
    s.append(count.as_str());
    s.append(" elements, in the same order:\n");
    push_lines(texts, 0, &mut s);
    proof {
        assert(s@ =~= spec_prompt(texts.deep_view(), course_context@));
    }
    s
}

} // verus!
