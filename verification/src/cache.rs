//! Incremental scan cache for `lint`.
//!
//! Two-tier lookup, to avoid reading files on a hit:
//!
//! 1. Fast path: the file's modification time and size against the entry for
//!    (path, parameters). A hit needs no read.
//! 2. Slow path: the content's hash against the same entry, after the file was
//!    read.
//!
//! Entries expire a day after they were written, and a cap on their number,
//! applied when the cache is written out, keeps the cache from growing without
//! bound. Reading and writing the cache file is the caller's part; what is
//! loaded, kept and written is decided here.

use crate::json::{
    bool_text, json_bool, json_quoted, json_text, lemma_bool_field, lemma_text_field,
};
use crate::scan::{ScanOutput, ScanOutputView};
use crate::text::{append3, same, string_from, texts};
use vstd::hash_map::StringHashMap;
use vstd::prelude::*;
use vstd::utf8::encode_utf8;

verus! {

/// How long an entry lives, in seconds: a day.
pub const DEFAULT_TTL_SECS: u64 = 86400;

/// How many entries the cache keeps when it is written out.
pub const MAX_ENTRIES: usize = 2000;

/// The domain that an entry without one was scanned for.
pub fn default_translationese_domain() -> (r: String)
    ensures
        r@ == "general"@,
{
    string_from("general")
}

/// What the file system says of a file, for the fast path.
#[derive(Clone, Copy, Debug, PartialEq, Eq, Structural)]
pub struct FileMeta {
    pub mtime_secs: u64,
    pub size: u64,
}

/// What a scan depends on besides the file's content.
#[derive(Debug, PartialEq, Eq, Hash)]
pub struct ScanParams {
    pub ruleset_hash: String,
    pub profile: String,
    pub content_type: String,
    pub fix_mode: String,
    pub detect_ai: bool,
    pub detect_translationese: bool,
    pub translationese_domain: String,
    pub ai_threshold: String,
    pub exempt_blockquotes: bool,
    /// Build identity of the scanner itself: the rules' hash does not cover
    /// the passes that interpret them.
    pub engine_version: String,
}

/// What a `ScanParams` holds.
pub ghost struct ParamsView {
    pub ruleset_hash: Seq<char>,
    pub profile: Seq<char>,
    pub content_type: Seq<char>,
    pub fix_mode: Seq<char>,
    pub detect_ai: bool,
    pub detect_translationese: bool,
    pub translationese_domain: Seq<char>,
    pub ai_threshold: Seq<char>,
    pub exempt_blockquotes: bool,
    pub engine_version: Seq<char>,
}

impl View for ScanParams {
    type V = ParamsView;

    open spec fn view(&self) -> ParamsView {
        ParamsView {
            ruleset_hash: self.ruleset_hash@,
            profile: self.profile@,
            content_type: self.content_type@,
            fix_mode: self.fix_mode@,
            detect_ai: self.detect_ai,
            detect_translationese: self.detect_translationese,
            translationese_domain: self.translationese_domain@,
            ai_threshold: self.ai_threshold@,
            exempt_blockquotes: self.exempt_blockquotes,
            engine_version: self.engine_version@,
        }
    }
}

impl Clone for ScanParams {
    fn clone(&self) -> (r: Self)
        ensures
            r@ == self@,
    {
        ScanParams {
            ruleset_hash: self.ruleset_hash.clone(),
            profile: self.profile.clone(),
            content_type: self.content_type.clone(),
            fix_mode: self.fix_mode.clone(),
            detect_ai: self.detect_ai,
            detect_translationese: self.detect_translationese,
            translationese_domain: self.translationese_domain.clone(),
            ai_threshold: self.ai_threshold.clone(),
            exempt_blockquotes: self.exempt_blockquotes,
            engine_version: self.engine_version.clone(),
        }
    }
}

/// One cached scan.
#[derive(Debug)]
pub struct CacheEntry {
    pub file_path: String,
    pub content_hash: String,
    pub file_meta: FileMeta,
    pub params: ScanParams,
    pub output: ScanOutput,
    pub input_was_sc: bool,
    pub text_char_count: usize,
    pub timestamp_secs: u64,
}

/// What a `CacheEntry` holds.
pub ghost struct EntryView {
    pub file_path: Seq<char>,
    pub content_hash: Seq<char>,
    pub file_meta: FileMeta,
    pub params: ParamsView,
    pub output: ScanOutputView,
    pub input_was_sc: bool,
    pub text_char_count: usize,
    pub timestamp_secs: u64,
}

impl View for CacheEntry {
    type V = EntryView;

    open spec fn view(&self) -> EntryView {
        EntryView {
            file_path: self.file_path@,
            content_hash: self.content_hash@,
            file_meta: self.file_meta,
            params: self.params@,
            output: self.output@,
            input_was_sc: self.input_was_sc,
            text_char_count: self.text_char_count,
            timestamp_secs: self.timestamp_secs,
        }
    }
}

impl Clone for CacheEntry {
    fn clone(&self) -> (r: Self)
        ensures
            r@ == self@,
    {
        CacheEntry {
            file_path: self.file_path.clone(),
            content_hash: self.content_hash.clone(),
            file_meta: self.file_meta,
            params: self.params.clone(),
            output: self.output.clone(),
            input_was_sc: self.input_was_sc,
            text_char_count: self.text_char_count,
            timestamp_secs: self.timestamp_secs,
        }
    }
}

/// A cached scan result, with what the report needs beside it.
pub struct CacheHit {
    pub output: ScanOutput,
    pub input_was_sc: bool,
    pub text_char_count: usize,
}

/// What a `CacheHit` holds.
pub ghost struct HitView {
    pub output: ScanOutputView,
    pub input_was_sc: bool,
    pub text_char_count: usize,
}

impl View for CacheHit {
    type V = HitView;

    open spec fn view(&self) -> HitView {
        HitView {
            output: self.output@,
            input_was_sc: self.input_was_sc,
            text_char_count: self.text_char_count,
        }
    }
}

/// The outcome of the fast path.
pub enum CacheResult {
    /// Time and size match: no read needed.
    Hit(Box<CacheHit>),
    /// No entry, or it does not match: read the file and ask `check_content`.
    Miss,
}

impl CacheResult {
    /// The hit, where there is one.
    pub open spec fn hit(self) -> Option<HitView> {
        match self {
            CacheResult::Hit(h) => Some((*h)@),
            CacheResult::Miss => None,
        }
    }

    /// Takes the hit out, or nothing on a miss.
    pub fn into_hit(self) -> (r: Option<CacheHit>)
        ensures
            opt_hit(r) == self.hit(),
    {
        match self {
            CacheResult::Hit(h) => Some(*h),
            CacheResult::Miss => None,
        }
    }
}

/// What an optional hit holds.
pub open spec fn opt_hit(o: Option<CacheHit>) -> Option<HitView> {
    match o {
        Some(h) => Some(h@),
        None => None,
    }
}

// Keys.

/// The BLAKE3 digest of `data` in lower-case hexadecimal.
pub uninterp spec fn blake3_text(data: Seq<u8>) -> Seq<char>;

/// `blake3::hash` and the digest's `to_hex`: a function of the bytes alone, 64
/// digits in lower-case hexadecimal.
#[verifier::external_body]
fn blake3_hex(data: &[u8]) -> (r: String)
    ensures
        r@ == blake3_text(data@),
        r@.len() == 64,
        forall|i: int| 0 <= i < 64 ==> '0' <= #[trigger] r@[i] <= '9' || 'a' <= r@[i] <= 'f',
{
    blake3::hash(data).to_hex().to_string()
}

/// The pair of a path and scan parameters in JSON: an array of the path and an
/// object with every parameter by name.
pub open spec fn key_json(path: Seq<char>, p: ParamsView) -> Seq<char> {
    "["@ + json_quoted(path) + key_json_params(p)
}

/// The parameters' part of the pair.
pub open spec fn key_json_params(p: ParamsView) -> Seq<char> {
    ",{\"ruleset_hash\":"@ + json_quoted(p.ruleset_hash) + (",\"profile\":"@ + json_quoted(
        p.profile,
    ) + (",\"content_type\":"@ + json_quoted(p.content_type) + (",\"fix_mode\":"@ + json_quoted(
        p.fix_mode,
    ) + key_json_flags(p))))
}

/// The part from the detector flags on.
pub open spec fn key_json_flags(p: ParamsView) -> Seq<char> {
    ",\"detect_ai\":"@ + json_bool(p.detect_ai) + (",\"detect_translationese\":"@ + json_bool(
        p.detect_translationese,
    ) + (",\"translationese_domain\":"@ + json_quoted(p.translationese_domain) + (
    ",\"ai_threshold\":"@ + json_quoted(p.ai_threshold) + (",\"exempt_blockquotes\":"@ + json_bool(
        p.exempt_blockquotes,
    ) + (",\"engine_version\":"@ + json_quoted(p.engine_version) + "}]"@)))))
}

/// The lookup key of a path under scan parameters.
pub open spec fn key_text(path: Seq<char>, p: ParamsView) -> Seq<char> {
    blake3_text(encode_utf8(key_json(path, p))).take(32)
}

fn key_document(file_path: &str, params: &ScanParams) -> (r: String)
    ensures
        r@ == key_json(file_path@, params@),
{
    let t = append3(
        ",\"engine_version\":",
        json_text(params.engine_version.as_str()).as_str(),
        "}]",
    );
    let t = append3(",\"exempt_blockquotes\":", bool_text(params.exempt_blockquotes), t.as_str());
    let t = append3(
        ",\"ai_threshold\":",
        json_text(params.ai_threshold.as_str()).as_str(),
        t.as_str(),
    );
    let t = append3(
        ",\"translationese_domain\":",
        json_text(params.translationese_domain.as_str()).as_str(),
        t.as_str(),
    );
    let t = append3(
        ",\"detect_translationese\":",
        bool_text(params.detect_translationese),
        t.as_str(),
    );
    let t = append3(",\"detect_ai\":", bool_text(params.detect_ai), t.as_str());
    assert(t@ == key_json_flags(params@));
    let t = append3(",\"fix_mode\":", json_text(params.fix_mode.as_str()).as_str(), t.as_str());
    let t = append3(
        ",\"content_type\":",
        json_text(params.content_type.as_str()).as_str(),
        t.as_str(),
    );
    let t = append3(",\"profile\":", json_text(params.profile.as_str()).as_str(), t.as_str());
    let t = append3(
        ",{\"ruleset_hash\":",
        json_text(params.ruleset_hash.as_str()).as_str(),
        t.as_str(),
    );
    append3("[", json_text(file_path).as_str(), t.as_str())
}

/// Lookup key combining file path and scan parameters: the first half of the
/// digest of both in JSON. One entry per pair; time and content are checked on
/// lookup.
pub fn fast_key(file_path: &str, params: &ScanParams) -> (r: String)
    ensures
        r@ == key_text(file_path@, params@),
{
    let json = key_document(file_path, params);
    let digest = blake3_hex(json.as_str().as_bytes());
    let key = digest.as_str().substring_char(0, 32);
    assert(key@ =~= digest@.take(32));
    string_from(key)
}

/// Distinct pairs of path and parameters have distinct key documents, so a
/// parameter cannot be left out of the key and two fields cannot run into each
/// other.
pub proof fn law_key_documents_are_distinct(
    path: Seq<char>,
    p: ParamsView,
    other_path: Seq<char>,
    q: ParamsView,
)
    requires
        encode_utf8(key_json(path, p)) == encode_utf8(key_json(other_path, q)),
    ensures
        path == other_path,
        p == q,
{
    vstd::utf8::encode_utf8_decode_utf8(key_json(path, p));
    vstd::utf8::encode_utf8_decode_utf8(key_json(other_path, q));
    lemma_text_field("["@, path, other_path, key_json_params(p), key_json_params(q));
    lemma_params_distinct(p, q);
}

proof fn lemma_params_distinct(p: ParamsView, q: ParamsView)
    requires
        key_json_params(p) == key_json_params(q),
    ensures
        p == q,
{
    let t4 = |v: ParamsView| ",\"fix_mode\":"@ + json_quoted(v.fix_mode) + key_json_flags(v);
    let t3 = |v: ParamsView| ",\"content_type\":"@ + json_quoted(v.content_type) + t4(v);
    let t2 = |v: ParamsView| ",\"profile\":"@ + json_quoted(v.profile) + t3(v);
    lemma_text_field(",{\"ruleset_hash\":"@, p.ruleset_hash, q.ruleset_hash, t2(p), t2(q));
    lemma_text_field(",\"profile\":"@, p.profile, q.profile, t3(p), t3(q));
    lemma_text_field(",\"content_type\":"@, p.content_type, q.content_type, t4(p), t4(q));
    lemma_text_field(
        ",\"fix_mode\":"@,
        p.fix_mode,
        q.fix_mode,
        key_json_flags(p),
        key_json_flags(q),
    );
    lemma_flags_distinct(p, q);
}

proof fn lemma_flags_distinct(p: ParamsView, q: ParamsView)
    requires
        key_json_flags(p) == key_json_flags(q),
    ensures
        p.detect_ai == q.detect_ai,
        p.detect_translationese == q.detect_translationese,
        p.translationese_domain == q.translationese_domain,
        p.ai_threshold == q.ai_threshold,
        p.exempt_blockquotes == q.exempt_blockquotes,
        p.engine_version == q.engine_version,
{
    let t6 = |v: ParamsView| ",\"engine_version\":"@ + json_quoted(v.engine_version) + "}]"@;
    let t5 = |v: ParamsView|
        ",\"exempt_blockquotes\":"@ + json_bool(v.exempt_blockquotes) + t6(v);
    let t4 = |v: ParamsView| ",\"ai_threshold\":"@ + json_quoted(v.ai_threshold) + t5(v);
    let t3 = |v: ParamsView|
        ",\"translationese_domain\":"@ + json_quoted(v.translationese_domain) + t4(v);
    let t2 = |v: ParamsView|
        ",\"detect_translationese\":"@ + json_bool(v.detect_translationese) + t3(v);
    lemma_bool_field(",\"detect_ai\":"@, p.detect_ai, q.detect_ai, t2(p), t2(q));
    lemma_bool_field(
        ",\"detect_translationese\":"@,
        p.detect_translationese,
        q.detect_translationese,
        t3(p),
        t3(q),
    );
    lemma_text_field(
        ",\"translationese_domain\":"@,
        p.translationese_domain,
        q.translationese_domain,
        t4(p),
        t4(q),
    );
    lemma_text_field(",\"ai_threshold\":"@, p.ai_threshold, q.ai_threshold, t5(p), t5(q));
    lemma_bool_field(
        ",\"exempt_blockquotes\":"@,
        p.exempt_blockquotes,
        q.exempt_blockquotes,
        t6(p),
        t6(q),
    );
    lemma_text_field(",\"engine_version\":"@, p.engine_version, q.engine_version, "}]"@, "}]"@);
}

// Entries.

/// Seconds from `then` to `now`, and none where the clock went back.
pub open spec fn age(now: u64, then: u64) -> int {
    if now >= then {
        now - then
    } else {
        0
    }
}

/// An entry is older than the time to live.
pub open spec fn expired(e: EntryView, now: u64, ttl: u64) -> bool {
    age(now, e.timestamp_secs) > ttl
}

fn is_expired(e: &CacheEntry, now: u64, ttl: u64) -> (r: bool)
    ensures
        r == expired(e@, now, ttl),
{
    now.saturating_sub(e.timestamp_secs) > ttl
}

/// The entries that have not expired.
pub open spec fn live(m: Map<Seq<char>, EntryView>, now: u64, ttl: u64) -> Map<
    Seq<char>,
    EntryView,
> {
    m.restrict(Set::new(|k: Seq<char>| m.contains_key(k) && !expired(m[k], now, ttl)))
}

/// Every entry stands under the key of its own path and parameters.
pub open spec fn keyed(m: Map<Seq<char>, EntryView>) -> bool {
    forall|k: Seq<char>| #[trigger]
        m.contains_key(k) ==> k == key_text(m[k].file_path, m[k].params)
}

/// What is left of `before` when the oldest entries had to go: as many as the
/// cap allows, and none of them older than one that went.
pub open spec fn capped(
    before: Map<Seq<char>, EntryView>,
    after: Map<Seq<char>, EntryView>,
    cap: nat,
) -> bool {
    if before.len() <= cap {
        after == before
    } else {
        &&& after.submap_of(before)
        &&& after.len() == cap
        &&& forall|kept: Seq<char>, gone: Seq<char>|
            #![trigger after.contains_key(kept), before.contains_key(gone)]
            after.contains_key(kept) && before.contains_key(gone) && !after.contains_key(gone)
                ==> before[gone].timestamp_secs <= after[kept].timestamp_secs
    }
}

/// The entries by key. The map answers lookups; the list of its keys is what
/// it can be walked by.
struct Entries {
    map: StringHashMap<CacheEntry>,
    keys: Vec<String>,
}

impl View for Entries {
    type V = Map<Seq<char>, EntryView>;

    closed spec fn view(&self) -> Map<Seq<char>, EntryView> {
        self.map@.map_values(|e: CacheEntry| e@)
    }
}

impl Entries {
    spec fn wf(&self) -> bool {
        &&& texts(self.keys@).no_duplicates()
        &&& texts(self.keys@).to_set() == self.map@.dom()
    }

    fn new() -> (r: Self)
        ensures
            r.wf(),
            r@ == Map::<Seq<char>, EntryView>::empty(),
    {
        let r = Entries { map: StringHashMap::new(), keys: Vec::new() };
        assert(texts(r.keys@) =~= seq![]);
        assert(texts(r.keys@).to_set() =~= r.map@.dom());
        assert(r@ =~= Map::empty());
        r
    }

    proof fn lemma_len(&self)
        requires
            self.wf(),
        ensures
            self@.len() == self.keys.len(),
            self@.dom() == texts(self.keys@).to_set(),
            self@.dom().finite(),
    {
        texts(self.keys@).unique_seq_to_set();
        assert(self@.dom() =~= self.map@.dom());
    }

    fn len(&self) -> (n: usize)
        requires
            self.wf(),
        ensures
            n == self@.len(),
    {
        proof {
            self.lemma_len();
        }
        self.keys.len()
    }

    fn get(&self, k: &str) -> (r: Option<&CacheEntry>)
        ensures
            match r {
                Some(e) => self@.contains_key(k@) && self@[k@] == e@,
                None => !self@.contains_key(k@),
            },
    {
        self.map.get(k)
    }

    fn insert(&mut self, k: String, e: CacheEntry)
        requires
            old(self).wf(),
        ensures
            final(self).wf(),
            final(self)@ == old(self)@.insert(k@, e@),
    {
        let ghost before = texts(self.keys@);
        let ghost map_before = self.map@;
        if !self.map.contains_key(k.as_str()) {
            let key = k.clone();
            self.keys.push(key);
            assert(texts(self.keys@) =~= before.push(k@));
            assert(before.push(k@).no_duplicates());
            assert(before.push(k@).to_set() =~= before.to_set().insert(k@)) by {
                assert forall|x: Seq<char>| before.to_set().insert(k@).contains(x) implies #[trigger]
                before.push(k@).to_set().contains(x) by {
                    if x == k@ {
                        assert(before.push(k@)[before.len() as int] == x);
                    } else {
                        let i = choose|i: int| 0 <= i < before.len() && before[i] == x;
                        assert(before.push(k@)[i] == x);
                    }
                }
            }
        }
        self.map.insert(k, e);
        assert(texts(self.keys@).to_set() =~= self.map@.dom());
        assert(self@ =~= map_before.map_values(|e: CacheEntry| e@).insert(k@, e@));
    }

    /// Drops the entry at a position of the key list.
    fn drop_at(&mut self, i: usize) -> (k: String)
        requires
            old(self).wf(),
            i < old(self).keys.len(),
        ensures
            final(self).wf(),
            k@ == old(self).keys@[i as int]@,
            old(self)@.contains_key(k@),
            final(self)@ == old(self)@.remove(k@),
            final(self).keys@ == old(self).keys@.remove(i as int),
    {
        let ghost before = texts(self.keys@);
        let ghost map_before = self.map@;
        let k = self.keys.remove(i);
        self.map.remove(k.as_str());
        proof {
            assert(before[i as int] == k@);
            assert(before.to_set().contains(k@));
            assert(texts(self.keys@) =~= before.remove(i as int));
            assert(before.remove(i as int).no_duplicates());
            assert forall|x: Seq<char>| #[trigger]
                before.remove(i as int).to_set().contains(x) <==> before.to_set().remove(
                    k@,
                ).contains(x) by {
                if before.to_set().remove(k@).contains(x) {
                    let j = choose|j: int| 0 <= j < before.len() && before[j] == x;
                    if j < i {
                        assert(before.remove(i as int)[j] == x);
                    } else {
                        assert(before.remove(i as int)[j - 1] == x);
                    }
                }
                if before.remove(i as int).to_set().contains(x) {
                    let j = choose|j: int|
                        0 <= j < before.remove(i as int).len() && before.remove(i as int)[j] == x;
                    if j < i {
                        assert(before[j] == x);
                    } else {
                        assert(before[j + 1] == x);
                    }
                }
            }
            assert(before.remove(i as int).to_set() =~= before.to_set().remove(k@));
            assert(texts(self.keys@).to_set() =~= self.map@.dom());
            assert(self@ =~= map_before.map_values(|e: CacheEntry| e@).remove(k@));
        }
        k
    }

    /// The entry at a position of the key list.
    fn at(&self, i: usize) -> (e: &CacheEntry)
        requires
            self.wf(),
            i < self.keys.len(),
        ensures
            self@.contains_key(self.keys@[i as int]@),
            self@[self.keys@[i as int]@] == e@,
    {
        proof {
            assert(texts(self.keys@)[i as int] == self.keys@[i as int]@);
            assert(texts(self.keys@).to_set().contains(self.keys@[i as int]@));
        }
        self.map.get(self.keys[i].as_str()).unwrap()
    }
}

impl Entries {
    /// Takes over the entries of another map, which stand over those here.
    fn take_over(&mut self, other: &Entries)
        requires
            old(self).wf(),
            other.wf(),
        ensures
            final(self).wf(),
            final(self)@ == old(self)@.union_prefer_right(other@),
    {
        let ghost base = self@;
        let ghost keys = texts(other.keys@);
        let mut i: usize = 0;
        while i < other.keys.len()
            invariant
                i <= other.keys.len(),
                self.wf(),
                other.wf(),
                keys == texts(other.keys@),
                forall|k: Seq<char>| #[trigger]
                    self@.contains_key(k) <==> base.contains_key(k) || keys.take(
                        i as int,
                    ).contains(k),
                forall|k: Seq<char>|
                    keys.take(i as int).contains(k) ==> #[trigger] self@[k] == other@[k],
                forall|k: Seq<char>|
                    base.contains_key(k) && !keys.take(i as int).contains(k)
                        ==> #[trigger] self@[k] == base[k],
            decreases other.keys.len() - i,
        {
            let ghost head = keys.take(i as int);
            let ghost next = keys.take(i + 1);
            let e = other.at(i).clone();
            self.insert(other.keys[i].clone(), e);
            assert forall|k: Seq<char>| #[trigger] next.contains(k) <==> head.contains(k) || k
                == keys[i as int] by {
                assert(next =~= head.push(keys[i as int]));
                if head.contains(k) {
                    let j = choose|j: int| 0 <= j < head.len() && head[j] == k;
                    assert(next[j] == k);
                }
                if k == keys[i as int] {
                    assert(next[i as int] == k);
                }
                if next.contains(k) {
                    let j = choose|j: int| 0 <= j < next.len() && next[j] == k;
                    if j < i {
                        assert(head[j] == k);
                    }
                }
            }
            i += 1;
        }
        proof {
            other.lemma_len();
            assert(keys.take(i as int) =~= keys);
            assert forall|k: Seq<char>| #[trigger] keys.contains(k) <==> other@.contains_key(k) by {
                assert(keys.to_set().contains(k) <==> other@.dom().contains(k));
            }
            assert(self@ =~= base.union_prefer_right(other@));
        }
    }

    /// Drops the expired entries.
    fn retain_live(&mut self, now: u64, ttl: u64)
        requires
            old(self).wf(),
        ensures
            final(self).wf(),
            final(self)@ == live(old(self)@, now, ttl),
    {
        let ghost m = self@;
        let mut i: usize = 0;
        while i < self.keys.len()
            invariant
                self.wf(),
                i <= self.keys.len(),
                self@.submap_of(m),
                forall|k: Seq<char>| #[trigger]
                    m.contains_key(k) && !self@.contains_key(k) ==> expired(m[k], now, ttl),
                forall|j: int|
                    0 <= j < i ==> !expired(self@[#[trigger] texts(self.keys@)[j]], now, ttl),
            decreases self.keys.len() - i,
        {
            let ghost before = self.keys@;
            if is_expired(self.at(i), now, ttl) {
                let _ = self.drop_at(i);
                assert forall|j: int| 0 <= j < i implies !expired(
                    self@[#[trigger] texts(self.keys@)[j]],
                    now,
                    ttl,
                ) by {
                    assert(texts(self.keys@)[j] == texts(before)[j]);
                    assert(texts(before)[j] != texts(before)[i as int]);
                }
            } else {
                i += 1;
            }
        }
        proof {
            self.lemma_len();
            assert forall|k: Seq<char>| #[trigger] self@.contains_key(k) implies !expired(
                self@[k],
                now,
                ttl,
            ) by {
                assert(texts(self.keys@).to_set().contains(k));
                let j = choose|j: int| 0 <= j < texts(self.keys@).len() && texts(self.keys@)[j] == k;
                assert(texts(self.keys@)[j] == k);
            }
            assert(self@ =~= live(m, now, ttl));
        }
    }

    /// The position of an entry that none is older than.
    fn oldest(&self) -> (r: usize)
        requires
            self.wf(),
            self.keys.len() > 0,
        ensures
            r < self.keys.len(),
            forall|k: Seq<char>| #[trigger]
                self@.contains_key(k) ==> self@[self.keys@[r as int]@].timestamp_secs
                    <= self@[k].timestamp_secs,
    {
        let mut r: usize = 0;
        let mut i: usize = 1;
        while i < self.keys.len()
            invariant
                self.wf(),
                r < i <= self.keys.len(),
                forall|j: int|
                    0 <= j < i ==> self@[self.keys@[r as int]@].timestamp_secs
                        <= self@[#[trigger] texts(self.keys@)[j]].timestamp_secs,
            decreases self.keys.len() - i,
        {
            if self.at(i).timestamp_secs < self.at(r).timestamp_secs {
                r = i;
            }
            i += 1;
        }
        proof {
            self.lemma_len();
            assert forall|k: Seq<char>| #[trigger] self@.contains_key(k) implies self@[self.keys@[r as int]@].timestamp_secs
                <= self@[k].timestamp_secs by {
                assert(texts(self.keys@).to_set().contains(k));
                let j = choose|j: int| 0 <= j < texts(self.keys@).len() && texts(self.keys@)[j] == k;
                assert(texts(self.keys@)[j] == k);
            }
        }
        r
    }

    /// Drops the oldest entries until the cap is met.
    fn evict_to(&mut self, cap: usize)
        requires
            old(self).wf(),
        ensures
            final(self).wf(),
            capped(old(self)@, final(self)@, cap as nat),
    {
        let ghost m = self@;
        proof {
            self.lemma_len();
        }
        while self.keys.len() > cap
            invariant
                self.wf(),
                self@.len() == self.keys.len(),
                self@.submap_of(m),
                m.len() <= cap ==> self@ == m,
                m.len() > cap ==> self@.len() >= cap,
                forall|kept: Seq<char>, gone: Seq<char>|
                    #![trigger self@.contains_key(kept), m.contains_key(gone)]
                    self@.contains_key(kept) && m.contains_key(gone) && !self@.contains_key(gone)
                        ==> m[gone].timestamp_secs <= self@[kept].timestamp_secs,
            decreases self.keys.len(),
        {
            let i = self.oldest();
            let _ = self.drop_at(i);
            proof {
                self.lemma_len();
            }
        }
    }
}

// Lookups and updates, over the entries as a map.

/// What a hit on an entry hands back.
pub open spec fn hit_of(e: EntryView) -> HitView {
    HitView {
        output: e.output,
        input_was_sc: e.input_was_sc,
        text_char_count: e.text_char_count,
    }
}

/// The fast path: the entry of the pair, where it is alive and the file's time
/// and size are those it was written with. An entry of a file that is not
/// empty must know the text's length; those that do not are from before it was
/// recorded.
pub open spec fn fast_lookup(
    m: Map<Seq<char>, EntryView>,
    now: u64,
    ttl: u64,
    path: Seq<char>,
    meta: FileMeta,
    p: ParamsView,
) -> Option<HitView> {
    let k = key_text(path, p);
    if m.contains_key(k) && !expired(m[k], now, ttl) && m[k].file_meta == meta && (meta.size == 0
        || m[k].text_char_count > 0) {
        Some(hit_of(m[k]))
    } else {
        None
    }
}

/// The slow path: the entry of the pair, where it is alive and was written for
/// the same content.
pub open spec fn content_lookup(
    m: Map<Seq<char>, EntryView>,
    now: u64,
    ttl: u64,
    path: Seq<char>,
    content: Seq<u8>,
    p: ParamsView,
) -> Option<HitView> {
    let k = key_text(path, p);
    if m.contains_key(k) && !expired(m[k], now, ttl) && (content.len() == 0
        || m[k].text_char_count > 0) && m[k].content_hash == blake3_text(content) {
        Some(hit_of(m[k]))
    } else {
        None
    }
}

/// The entry that a scan of `content` leaves at time `now`.
pub open spec fn entry_of(
    now: u64,
    path: Seq<char>,
    content: Seq<u8>,
    meta: FileMeta,
    p: ParamsView,
    output: ScanOutputView,
    input_was_sc: bool,
    text_char_count: usize,
) -> EntryView {
    EntryView {
        file_path: path,
        content_hash: blake3_text(content),
        file_meta: meta,
        params: p,
        output,
        input_was_sc,
        text_char_count,
        timestamp_secs: now,
    }
}

/// What a list of stored entries holds.
pub open spec fn entries_view(list: Seq<CacheEntry>) -> Seq<EntryView> {
    Seq::new(list.len(), |i: int| list[i]@)
}

/// The entries that a stored list stands for: those alive, each under its key,
/// a later one in place of an earlier one with the same key.
pub open spec fn loaded_entries(stored: Seq<EntryView>, now: u64, ttl: u64) -> Map<
    Seq<char>,
    EntryView,
>
    decreases stored.len(),
{
    if stored.len() == 0 {
        Map::empty()
    } else {
        let before = loaded_entries(stored.drop_last(), now, ttl);
        let e = stored.last();
        if expired(e, now, ttl) {
            before
        } else {
            before.insert(key_text(e.file_path, e.params), e)
        }
    }
}

/// The entries once a stored list was taken over, unless that was done before:
/// what was put stands over what was stored.
pub open spec fn after_load(
    m: Map<Seq<char>, EntryView>,
    loaded: bool,
    stored: Seq<EntryView>,
    now: u64,
    ttl: u64,
) -> Map<Seq<char>, EntryView> {
    if loaded {
        m
    } else {
        loaded_entries(stored, now, ttl).union_prefer_right(m)
    }
}

fn load_entries(stored: Vec<CacheEntry>, ttl: u64, now: u64) -> (r: Entries)
    ensures
        r.wf(),
        keyed(r@),
        r@ == loaded_entries(entries_view(stored@), now, ttl),
{
    let ghost all = entries_view(stored@);
    let mut r = Entries::new();
    let mut i: usize = 0;
    assert(all.take(0) =~= seq![]);
    while i < stored.len()
        invariant
            i <= stored.len(),
            all == entries_view(stored@),
            r.wf(),
            keyed(r@),
            r@ == loaded_entries(all.take(i as int), now, ttl),
        decreases stored.len() - i,
    {
        let e = stored[i].clone();
        assert(all.take(i + 1).drop_last() =~= all.take(i as int));
        assert(all.take(i + 1).last() == e@);
        if !is_expired(&e, now, ttl) {
            let key = fast_key(e.file_path.as_str(), &e.params);
            r.insert(key, e);
        }
        i += 1;
    }
    assert(all.take(i as int) =~= all);
    r
}

// The clock and the default location.

/// A point in time, as the system's clock gives it.
#[verifier::external_type_specification]
#[verifier::external_body]
pub struct ExSystemTime(std::time::SystemTime);

/// `SystemTime::now`: the clock. Nothing is said of what it shows.
pub assume_specification[ std::time::SystemTime::now ]() -> std::time::SystemTime;

/// `Duration::as_secs`: the whole seconds of a span. Nothing is said of it, as
/// every span here comes from the clock.
pub assume_specification[ core::time::Duration::as_secs ](d: &core::time::Duration) -> u64;

/// `SystemTime::duration_since` with the epoch: how long after it `t` is, and
/// nothing where it is before. What comes back depends on the clock.
#[verifier::external_body]
fn since_epoch(t: std::time::SystemTime) -> (r: Option<core::time::Duration>) {
    t.duration_since(std::time::UNIX_EPOCH).ok()
}

/// Seconds since the epoch, and 0 on a clock before it: `secs_or_zero` of what
/// the clock shows. Nothing is said of the result, which is the time.
fn now_secs() -> u64 {
    let shown = match since_epoch(std::time::SystemTime::now()) {
        Some(d) => Some(d.as_secs()),
        None => None,
    };
    secs_or_zero(shown)
}

/// The seconds from the epoch to a point in time, where it is not before the
/// epoch; else 0.
fn secs_or_zero(since_epoch: Option<u64>) -> (r: u64)
    ensures
        r == match since_epoch {
            Some(secs) => secs,
            None => 0,
        },
{
    match since_epoch {
        Some(secs) => secs,
        None => 0,
    }
}

/// A file's modification time in seconds since the epoch, and 0 where the file
/// system has none or it is before the epoch.
pub fn mtime_secs(since_epoch: Option<u64>) -> (r: u64)
    ensures
        r == match since_epoch {
            Some(secs) => secs,
            None => 0,
        },
{
    secs_or_zero(since_epoch)
}

/// `dirs::cache_dir`: the user's cache directory, where there is one, as the
/// bytes of its name. Which it is depends on the environment.
#[verifier::external_body]
fn user_cache_dir() -> (r: Option<Vec<u8>>) {
    dirs::cache_dir().map(|p| p.into_os_string().into_encoded_bytes())
}

/// A relative name below a directory, in bytes. A slash stands between them,
/// where the directory does not end with one.
pub open spec fn path_below(dir: Seq<u8>, name: Seq<u8>) -> Seq<u8> {
    if dir.len() == 0 {
        name
    } else if dir.last() == 47 {
        dir + name
    } else {
        dir.push(47u8) + name
    }
}

fn join_path(dir: Vec<u8>, name: &str) -> (r: Vec<u8>)
    ensures
        r@ == path_below(dir@, encode_utf8(name@)),
{
    let mut path = dir;
    let n = path.len();
    if n > 0 && path[n - 1] != 47 {
        path.push(47);
    }
    let ghost base = path@;
    path.extend_from_slice(name.as_bytes());
    assert(path@ =~= base + encode_utf8(name@));
    path
}

/// Where the cache file lies: below the user's cache directory, or below /tmp
/// where there is none.
pub open spec fn cache_file(dir: Option<Seq<u8>>) -> Seq<u8> {
    path_below(
        path_below(
            match dir {
                Some(d) => d,
                None => encode_utf8("/tmp"@),
            },
            encode_utf8("zhtw-mcp"@),
        ),
        encode_utf8("scan-cache.json"@),
    )
}

/// The cache file below a cache directory. Both are bytes, since a directory's
/// name need not be text.
pub fn cache_path_in(dir: Option<Vec<u8>>) -> (r: Vec<u8>)
    ensures
        r@ == cache_file(
            match dir {
                Some(d) => Some(d@),
                None => None,
            },
        ),
{
    let base = match dir {
        Some(d) => d,
        None => {
            let mut tmp: Vec<u8> = Vec::new();
            tmp.extend_from_slice("/tmp".as_bytes());
            assert(tmp@ =~= encode_utf8("/tmp"@));
            tmp
        },
    };
    join_path(join_path(base, "zhtw-mcp"), "scan-cache.json")
}

/// What came of taking the lock beside the cache file.
#[derive(Clone, Copy, Debug, PartialEq, Eq, Structural)]
pub enum LockState {
    /// The lock file could not be opened: there is no lock to respect.
    Unavailable,
    /// Another process holds it.
    Held,
    /// It was taken.
    Acquired,
}

impl LockState {
    /// Whether the cache may be written: not while another process does.
    pub fn may_write(self) -> (r: bool)
        ensures
            r == (self != LockState::Held),
    {
        match self {
            LockState::Unavailable | LockState::Acquired => true,
            LockState::Held => false,
        }
    }
}

/// Persistent scan cache, backed by a file that the caller reads and writes.
/// Entries are loaded at the first lookup and not before.
pub struct ScanCache {
    path: Vec<u8>,
    entries: Entries,
    loaded: bool,
    ttl_secs: u64,
    dirty: bool,
}

impl View for ScanCache {
    type V = Map<Seq<char>, EntryView>;

    /// The entries by key. A cache that was not loaded has only what was put
    /// since it was opened.
    closed spec fn view(&self) -> Map<Seq<char>, EntryView> {
        self.entries@
    }
}

impl ScanCache {
    /// The entries are in order, each under its own key.
    pub closed spec fn wf(&self) -> bool {
        self.entries.wf() && keyed(self.entries@)
    }

    /// Where the cache file lies.
    pub closed spec fn path_bytes(&self) -> Seq<u8> {
        self.path@
    }

    /// Whether the stored entries were taken over.
    pub closed spec fn loaded(&self) -> bool {
        self.loaded
    }

    /// How long an entry lives, in seconds.
    pub closed spec fn ttl(&self) -> u64 {
        self.ttl_secs
    }

    /// Whether there is something to write out.
    pub closed spec fn unsaved(&self) -> bool {
        self.dirty
    }

    /// Opens the scan cache at the default location.
    pub fn open_default() -> (r: Self)
        ensures
            r.wf(),
            !r.loaded(),
            !r.unsaved(),
            r.ttl() == DEFAULT_TTL_SECS,
            r@ == Map::<Seq<char>, EntryView>::empty(),
            exists|dir: Option<Seq<u8>>| r.path_bytes() == #[trigger] cache_file(dir),
    {
        let dir = user_cache_dir();
        Self::open(cache_path_in(dir))
    }

    /// Opens the scan cache at a path. Nothing is loaded.
    pub fn open(path: Vec<u8>) -> (r: Self)
        ensures
            r.wf(),
            !r.loaded(),
            !r.unsaved(),
            r.ttl() == DEFAULT_TTL_SECS,
            r@ == Map::<Seq<char>, EntryView>::empty(),
            r.path_bytes() == path@,
    {
        ScanCache {
            path,
            entries: Entries::new(),
            loaded: false,
            ttl_secs: DEFAULT_TTL_SECS,
            dirty: false,
        }
    }

    /// Where the cache file lies, as the bytes of its name.
    pub fn path(&self) -> (r: &[u8])
        ensures
            r@ == self.path_bytes(),
    {
        self.path.as_slice()
    }

    /// Whether the stored entries were taken over.
    pub fn is_loaded(&self) -> (r: bool)
        ensures
            r == self.loaded(),
    {
        self.loaded
    }

    /// Whether there is something to write out.
    pub fn is_dirty(&self) -> (r: bool)
        ensures
            r == self.unsaved(),
    {
        self.dirty
    }

    /// How many entries the cache holds.
    pub fn len(&self) -> (n: usize)
        requires
            self.wf(),
        ensures
            n == self@.len(),
    {
        self.entries.len()
    }

    /// Takes over the entries that the cache file held, unless that was done
    /// before. A missing or unreadable file holds none. What was put since the
    /// cache was opened stands over what the file held.
    pub fn ensure_loaded(&mut self, stored: Vec<CacheEntry>)
        requires
            old(self).wf(),
        ensures
            final(self).wf(),
            final(self).loaded(),
            final(self).unsaved() == old(self).unsaved(),
            final(self).ttl() == old(self).ttl(),
            final(self).path_bytes() == old(self).path_bytes(),
            exists|now: u64|
                final(self)@ == #[trigger] after_load(
                    old(self)@,
                    old(self).loaded(),
                    entries_view(stored@),
                    now,
                    old(self).ttl(),
                ),
    {
        let now: u64 = now_secs();
        let ghost expected = after_load(
            self@,
            self.loaded(),
            entries_view(stored@),
            now,
            self.ttl(),
        );
        self.ensure_loaded_at(now, stored);
        assert(self@ == expected);
    }

    /// As `ensure_loaded`, at time `now`.
    pub fn ensure_loaded_at(&mut self, now: u64, stored: Vec<CacheEntry>)
        requires
            old(self).wf(),
        ensures
            final(self).wf(),
            final(self).loaded(),
            final(self).unsaved() == old(self).unsaved(),
            final(self).ttl() == old(self).ttl(),
            final(self).path_bytes() == old(self).path_bytes(),
            final(self)@ == after_load(
                old(self)@,
                old(self).loaded(),
                entries_view(stored@),
                now,
                old(self).ttl(),
            ),
    {
        if !self.loaded {
            let mut entries = load_entries(stored, self.ttl_secs, now);
            let ghost base = entries@;
            entries.take_over(&self.entries);
            assert(keyed(entries@)) by {
                assert forall|k: Seq<char>| #[trigger] entries@.contains_key(k) implies k
                    == key_text(entries@[k].file_path, entries@[k].params) by {
                    assert(self.entries@.contains_key(k) || base.contains_key(k));
                }
            }
            self.entries = entries;
            self.loaded = true;
        }
    }

    /// Fast-path lookup by the file's modification time and size, in a cache
    /// that was loaded.
    pub fn check_fast(&self, file_path: &str, mtime_secs: u64, size: u64, params: &ScanParams) -> (r:
        CacheResult)
        requires
            self.loaded(),
        ensures
            exists|now: u64|
                r.hit() == #[trigger] fast_lookup(
                    self@,
                    now,
                    self.ttl(),
                    file_path@,
                    FileMeta { mtime_secs, size },
                    params@,
                ),
    {
        let now: u64 = now_secs();
        let r = self.check_fast_at(now, file_path, mtime_secs, size, params);
        assert(r.hit() == fast_lookup(
            self@,
            now,
            self.ttl(),
            file_path@,
            FileMeta { mtime_secs, size },
            params@,
        ));
        r
    }

    /// As `check_fast`, at time `now`.
    pub fn check_fast_at(
        &self,
        now: u64,
        file_path: &str,
        mtime_secs: u64,
        size: u64,
        params: &ScanParams,
    ) -> (r: CacheResult)
        requires
            self.loaded(),
        ensures
            r.hit() == fast_lookup(
                self@,
                now,
                self.ttl(),
                file_path@,
                FileMeta { mtime_secs, size },
                params@,
            ),
    {
        if let Some(entry) = self.entries.get(fast_key(file_path, params).as_str()) {
            if !is_expired(entry, now, self.ttl_secs) && entry.file_meta.mtime_secs == mtime_secs
                && entry.file_meta.size == size && (size == 0 || entry.text_char_count > 0) {
                return CacheResult::Hit(
                    Box::new(
                        CacheHit {
                            output: entry.output.clone(),
                            input_was_sc: entry.input_was_sc,
                            text_char_count: entry.text_char_count,
                        },
                    ),
                );
            }
        }
        CacheResult::Miss
    }

    /// Slow-path lookup by content, once the file was read: a hit where the
    /// time changed but the content did not, as after `touch`. The cache was
    /// loaded.
    pub fn check_content(&self, file_path: &str, content: &[u8], params: &ScanParams) -> (r: Option<
        CacheHit,
    >)
        requires
            self.loaded(),
        ensures
            exists|now: u64|
                opt_hit(r) == #[trigger] content_lookup(
                    self@,
                    now,
                    self.ttl(),
                    file_path@,
                    content@,
                    params@,
                ),
    {
        let now: u64 = now_secs();
        let r = self.check_content_at(now, file_path, content, params);
        assert(opt_hit(r) == content_lookup(
            self@,
            now,
            self.ttl(),
            file_path@,
            content@,
            params@,
        ));
        r
    }

    /// As `check_content`, at time `now`.
    pub fn check_content_at(
        &self,
        now: u64,
        file_path: &str,
        content: &[u8],
        params: &ScanParams,
    ) -> (r: Option<CacheHit>)
        requires
            self.loaded(),
        ensures
            opt_hit(r) == content_lookup(
                self@,
                now,
                self.ttl(),
                file_path@,
                content@,
                params@,
            ),
    {
        let entry = match self.entries.get(fast_key(file_path, params).as_str()) {
            Some(e) => e,
            None => {
                return None;
            },
        };
        if is_expired(entry, now, self.ttl_secs) {
            return None;
        }
        if content.len() != 0 && entry.text_char_count == 0 {
            return None;
        }
        if same(entry.content_hash.as_str(), blake3_hex(content).as_str()) {
            Some(
                CacheHit {
                    output: entry.output.clone(),
                    input_was_sc: entry.input_was_sc,
                    text_char_count: entry.text_char_count,
                },
            )
        } else {
            None
        }
    }

    /// Stores a scan result.
    pub fn put(
        &mut self,
        file_path: &str,
        content: &[u8],
        mtime_secs: u64,
        size: u64,
        params: &ScanParams,
        output: ScanOutput,
        input_was_sc: bool,
        text_char_count: usize,
    )
        requires
            old(self).wf(),
        ensures
            final(self).wf(),
            final(self).loaded() == old(self).loaded(),
            final(self).unsaved(),
            final(self).ttl() == old(self).ttl(),
            final(self).path_bytes() == old(self).path_bytes(),
            exists|now: u64|
                final(self)@ == old(self)@.insert(
                    key_text(file_path@, params@),
                    #[trigger] entry_of(
                        now,
                        file_path@,
                        content@,
                        FileMeta { mtime_secs, size },
                        params@,
                        output@,
                        input_was_sc,
                        text_char_count,
                    ),
                ),
    {
        let now: u64 = now_secs();
        let ghost entry = entry_of(
            now,
            file_path@,
            content@,
            FileMeta { mtime_secs, size },
            params@,
            output@,
            input_was_sc,
            text_char_count,
        );
        self.put_at(
            now,
            file_path,
            content,
            mtime_secs,
            size,
            params,
            output,
            input_was_sc,
            text_char_count,
        );
        assert(self@ == old(self)@.insert(key_text(file_path@, params@), entry));
    }

    /// As `put`, at time `now`.
    pub fn put_at(
        &mut self,
        now: u64,
        file_path: &str,
        content: &[u8],
        mtime_secs: u64,
        size: u64,
        params: &ScanParams,
        output: ScanOutput,
        input_was_sc: bool,
        text_char_count: usize,
    )
        requires
            old(self).wf(),
        ensures
            final(self).wf(),
            final(self).loaded() == old(self).loaded(),
            final(self).unsaved(),
            final(self).ttl() == old(self).ttl(),
            final(self).path_bytes() == old(self).path_bytes(),
            final(self)@ == old(self)@.insert(
                key_text(file_path@, params@),
                entry_of(
                    now,
                    file_path@,
                    content@,
                    FileMeta { mtime_secs, size },
                    params@,
                    output@,
                    input_was_sc,
                    text_char_count,
                ),
            ),
    {
        self.entries.insert(
            fast_key(file_path, params),
            CacheEntry {
                file_path: string_from(file_path),
                content_hash: blake3_hex(content),
                file_meta: FileMeta { mtime_secs, size },
                params: params.clone(),
                output,
                input_was_sc,
                text_char_count,
                timestamp_secs: now,
            },
        );
        self.dirty = true;
    }

    /// Prepares the cache for being written out: expired entries go, and then
    /// the oldest beyond the cap. Where there is nothing to write, nothing
    /// happens, and the answer is false; else the cache was loaded, so that
    /// what the file held is not lost.
    pub fn begin_flush(&mut self) -> (r: bool)
        requires
            old(self).wf(),
            old(self).unsaved() ==> old(self).loaded(),
        ensures
            final(self).wf(),
            r == old(self).unsaved(),
            final(self).unsaved() == old(self).unsaved(),
            final(self).loaded() == old(self).loaded(),
            final(self).ttl() == old(self).ttl(),
            final(self).path_bytes() == old(self).path_bytes(),
            !r ==> final(self)@ == old(self)@,
            r ==> exists|now: u64|
                capped(
                    #[trigger] live(old(self)@, now, old(self).ttl()),
                    final(self)@,
                    MAX_ENTRIES as nat,
                ),
            r ==> final(self)@.len() <= MAX_ENTRIES,
    {
        let now: u64 = now_secs();
        let ghost alive = live(self@, now, self.ttl());
        let r = self.begin_flush_at(now);
        assert(r ==> capped(alive, self@, MAX_ENTRIES as nat));
        r
    }

    /// As `begin_flush`, at time `now`.
    pub fn begin_flush_at(&mut self, now: u64) -> (r: bool)
        requires
            old(self).wf(),
            old(self).unsaved() ==> old(self).loaded(),
        ensures
            final(self).wf(),
            r == old(self).unsaved(),
            final(self).unsaved() == old(self).unsaved(),
            final(self).loaded() == old(self).loaded(),
            final(self).ttl() == old(self).ttl(),
            final(self).path_bytes() == old(self).path_bytes(),
            !r ==> final(self)@ == old(self)@,
            r ==> capped(
                live(old(self)@, now, old(self).ttl()),
                final(self)@,
                MAX_ENTRIES as nat,
            ),
            r ==> final(self)@.len() <= MAX_ENTRIES,
    {
        if !self.dirty {
            return false;
        }
        let ghost before = self@;
        self.entries.retain_live(now, self.ttl_secs);
        let ghost alive = self.entries@;
        self.entries.evict_to(MAX_ENTRIES);
        assert(keyed(self@)) by {
            assert forall|k: Seq<char>| #[trigger] self@.contains_key(k) implies k == key_text(
                self@[k].file_path,
                self@[k].params,
            ) by {
                assert(alive.contains_key(k) && alive[k] == self@[k]);
                assert(before.contains_key(k) && before[k] == alive[k]);
            }
        }
        true
    }

    /// The entries to write out, each once.
    pub fn stored_entries(&self) -> (r: Vec<CacheEntry>)
        requires
            self.wf(),
            self.loaded(),
        ensures
            lists_entries(entries_view(r@), self@),
            keyed(self@),
    {
        let mut out: Vec<CacheEntry> = Vec::new();
        let mut i: usize = 0;
        while i < self.entries.keys.len()
            invariant
                self.entries.wf(),
                i <= self.entries.keys.len(),
                out.len() == i,
                forall|j: int|
                    0 <= j < i ==> (#[trigger] out@[j])@ == self.entries@[texts(
                        self.entries.keys@,
                    )[j]],
            decreases self.entries.keys.len() - i,
        {
            out.push(self.entries.at(i).clone());
            i += 1;
        }
        proof {
            self.entries.lemma_len();
            assert(lists_by(entries_view(out@), texts(self.entries.keys@), self@));
        }
        out
    }

    /// Ends a flush. The cache is clean once it was written; it is written
    /// unless another process holds the lock, and then the next flush tries
    /// again.
    pub fn end_flush(&mut self, lock: LockState, written: bool)
        requires
            old(self).wf(),
        ensures
            final(self).wf(),
            final(self)@ == old(self)@,
            final(self).loaded() == old(self).loaded(),
            final(self).ttl() == old(self).ttl(),
            final(self).path_bytes() == old(self).path_bytes(),
            final(self).unsaved() == (old(self).unsaved() && !(lock != LockState::Held
                && written)),
    {
        if lock.may_write() && written {
            self.dirty = false;
        }
    }
}

/// A list holds the entries of a map in the order of these keys.
pub open spec fn lists_by(
    list: Seq<EntryView>,
    keys: Seq<Seq<char>>,
    m: Map<Seq<char>, EntryView>,
) -> bool {
    &&& keys.no_duplicates()
    &&& keys.to_set() == m.dom()
    &&& list.len() == keys.len()
    &&& forall|i: int| 0 <= i < list.len() ==> list[i] == m[#[trigger] keys[i]]
}

/// A list holds each entry of a map once.
pub open spec fn lists_entries(list: Seq<EntryView>, m: Map<Seq<char>, EntryView>) -> bool {
    exists|keys: Seq<Seq<char>>| lists_by(list, keys, m)
}

/// What was put is found again on the fast path: with the same time and size,
/// within the time to live, the lookup hands back the stored result.
pub proof fn law_put_then_fast_hit(
    m: Map<Seq<char>, EntryView>,
    written: u64,
    now: u64,
    ttl: u64,
    path: Seq<char>,
    content: Seq<u8>,
    meta: FileMeta,
    p: ParamsView,
    output: ScanOutputView,
    input_was_sc: bool,
    text_char_count: usize,
)
    requires
        age(now, written) <= ttl,
        meta.size == 0 || text_char_count > 0,
    ensures
        ({
            let e = entry_of(
                written,
                path,
                content,
                meta,
                p,
                output,
                input_was_sc,
                text_char_count,
            );
            fast_lookup(m.insert(key_text(path, p), e), now, ttl, path, meta, p) == Some(
                HitView { output, input_was_sc, text_char_count },
            )
        }),
{
}

/// What was put is found again by its content, whatever the file's time says.
pub proof fn law_put_then_content_hit(
    m: Map<Seq<char>, EntryView>,
    written: u64,
    now: u64,
    ttl: u64,
    path: Seq<char>,
    content: Seq<u8>,
    meta: FileMeta,
    p: ParamsView,
    output: ScanOutputView,
    input_was_sc: bool,
    text_char_count: usize,
)
    requires
        age(now, written) <= ttl,
        content.len() == 0 || text_char_count > 0,
    ensures
        ({
            let e = entry_of(
                written,
                path,
                content,
                meta,
                p,
                output,
                input_was_sc,
                text_char_count,
            );
            content_lookup(m.insert(key_text(path, p), e), now, ttl, path, content, p) == Some(
                HitView { output, input_was_sc, text_char_count },
            )
        }),
{
}

/// A changed time or size misses on the fast path.
pub proof fn law_changed_file_misses(
    m: Map<Seq<char>, EntryView>,
    now: u64,
    ttl: u64,
    path: Seq<char>,
    meta: FileMeta,
    p: ParamsView,
)
    requires
        m.contains_key(key_text(path, p)),
        m[key_text(path, p)].file_meta != meta,
    ensures
        fast_lookup(m, now, ttl, path, meta, p) is None,
{
}

/// A put under one key answers for no other.
pub proof fn law_other_keys_are_unaffected(
    m: Map<Seq<char>, EntryView>,
    e: EntryView,
    now: u64,
    ttl: u64,
    path: Seq<char>,
    meta: FileMeta,
    content: Seq<u8>,
    p: ParamsView,
)
    requires
        key_text(path, p) != key_text(e.file_path, e.params),
    ensures
        ({
            let after = m.insert(key_text(e.file_path, e.params), e);
            &&& fast_lookup(after, now, ttl, path, meta, p) == fast_lookup(
                m,
                now,
                ttl,
                path,
                meta,
                p,
            )
            &&& content_lookup(after, now, ttl, path, content, p) == content_lookup(
                m,
                now,
                ttl,
                path,
                content,
                p,
            )
        }),
{
}

/// An expired entry misses on both paths.
pub proof fn law_expired_entries_miss(
    m: Map<Seq<char>, EntryView>,
    now: u64,
    ttl: u64,
    path: Seq<char>,
    meta: FileMeta,
    content: Seq<u8>,
    p: ParamsView,
)
    requires
        m.contains_key(key_text(path, p)),
        expired(m[key_text(path, p)], now, ttl),
    ensures
        fast_lookup(m, now, ttl, path, meta, p) is None,
        content_lookup(m, now, ttl, path, content, p) is None,
{
}

/// Dropping expired entries is invisible to lookups at that time.
pub proof fn law_pruning_is_invisible(
    m: Map<Seq<char>, EntryView>,
    now: u64,
    ttl: u64,
    path: Seq<char>,
    meta: FileMeta,
    content: Seq<u8>,
    p: ParamsView,
)
    ensures
        fast_lookup(live(m, now, ttl), now, ttl, path, meta, p) == fast_lookup(
            m,
            now,
            ttl,
            path,
            meta,
            p,
        ),
        content_lookup(live(m, now, ttl), now, ttl, path, content, p) == content_lookup(
            m,
            now,
            ttl,
            path,
            content,
            p,
        ),
{
}

/// A cache that was written out reads back as it was, but for what expired in
/// between.
pub proof fn law_written_cache_reads_back(
    m: Map<Seq<char>, EntryView>,
    written: Seq<EntryView>,
    now: u64,
    ttl: u64,
)
    requires
        keyed(m),
        lists_entries(written, m),
    ensures
        loaded_entries(written, now, ttl) == live(m, now, ttl),
{
    let keys = choose|keys: Seq<Seq<char>>| lists_by(written, keys, m);
    assert forall|i: int| 0 <= i < keys.len() implies m.contains_key(#[trigger] keys[i]) by {
        assert(keys.to_set().contains(keys[i]));
    }
    lemma_reads_back(m, written, keys, now, ttl, written.len() as int);
    assert(written.take(written.len() as int) =~= written);
    assert(loaded_entries(written, now, ttl) =~= live(m, now, ttl)) by {
        assert forall|k: Seq<char>| #[trigger] m.contains_key(k) implies keys.contains(k) by {
            assert(keys.to_set().contains(k));
        }
        assert forall|k: Seq<char>| #[trigger]
            loaded_entries(written, now, ttl).contains_key(k) == live(m, now, ttl).contains_key(
                k,
            ) by {
            if m.contains_key(k) {
                let i = choose|i: int| 0 <= i < keys.len() && keys[i] == k;
                assert(keys[i] == k);
            }
        }
    }
}

proof fn lemma_reads_back(
    m: Map<Seq<char>, EntryView>,
    written: Seq<EntryView>,
    keys: Seq<Seq<char>>,
    now: u64,
    ttl: u64,
    n: int,
)
    requires
        keyed(m),
        lists_by(written, keys, m),
        forall|i: int| 0 <= i < keys.len() ==> m.contains_key(#[trigger] keys[i]),
        0 <= n <= written.len(),
    ensures
        forall|k: Seq<char>| #[trigger]
            loaded_entries(written.take(n), now, ttl).contains_key(k) ==> m.contains_key(k)
                && !expired(m[k], now, ttl) && loaded_entries(written.take(n), now, ttl)[k] == m[k],
        forall|i: int|
            0 <= i < n && !expired(m[#[trigger] keys[i]], now, ttl) ==> loaded_entries(
                written.take(n),
                now,
                ttl,
            ).contains_key(keys[i]),
    decreases n,
{
    if n > 0 {
        lemma_reads_back(m, written, keys, now, ttl, n - 1);
        assert(written.take(n).drop_last() =~= written.take(n - 1));
        let e = written.take(n).last();
        assert(e == m[keys[n - 1]]);
        assert(m.contains_key(keys[n - 1]));
        assert(keys[n - 1] == key_text(e.file_path, e.params));
        let before = loaded_entries(written.take(n - 1), now, ttl);
        let after = loaded_entries(written.take(n), now, ttl);
        assert(after == if expired(e, now, ttl) {
            before
        } else {
            before.insert(keys[n - 1], e)
        });
        assert forall|k: Seq<char>| #[trigger] after.contains_key(k) implies m.contains_key(k)
            && !expired(m[k], now, ttl) && after[k] == m[k] by {
            assert(k == keys[n - 1] || before.contains_key(k));
        }
    } else {
        assert(written.take(n) =~= seq![]);
    }
}

/// It does not matter whether the cache file is read before or after a result
/// is put: the result stands either way.
pub proof fn law_loading_late_changes_nothing(
    stored: Seq<EntryView>,
    put_before: Map<Seq<char>, EntryView>,
    k: Seq<char>,
    e: EntryView,
    now: u64,
    ttl: u64,
)
    ensures
        after_load(put_before.insert(k, e), false, stored, now, ttl) == after_load(
            put_before,
            false,
            stored,
            now,
            ttl,
        ).insert(k, e),
{
    assert(after_load(put_before.insert(k, e), false, stored, now, ttl) =~= after_load(
        put_before,
        false,
        stored,
        now,
        ttl,
    ).insert(k, e));
}

/// The fast path answers exactly where there is an entry for the path and the
/// parameters, no older than the cache keeps entries, for a file with the same
/// time and size; and the answer is that entry's. An entry that counted no
/// characters answers for an empty file only.
pub proof fn law_what_the_fast_path_answers(
    m: Map<Seq<char>, EntryView>,
    now: u64,
    ttl: u64,
    path: Seq<char>,
    meta: FileMeta,
    p: ParamsView,
)
    ensures
        ({
            let k = key_text(path, p);
            let e = m[k];
            let hit = fast_lookup(m, now, ttl, path, meta, p);
            &&& hit is Some <==> {
                &&& m.contains_key(k)
                &&& now <= e.timestamp_secs + ttl
                &&& e.file_meta.mtime_secs == meta.mtime_secs
                &&& e.file_meta.size == meta.size
                &&& meta.size > 0 ==> e.text_char_count > 0
            }
            &&& hit is Some ==> {
                &&& hit->Some_0.output == e.output
                &&& hit->Some_0.input_was_sc == e.input_was_sc
                &&& hit->Some_0.text_char_count == e.text_char_count
            }
        }),
{
}

/// The slow path answers exactly where there is an entry for the path and the
/// parameters, no older than the cache keeps entries, whose digest is that of
/// the content that was read; and the answer is that entry's. The file's time
/// and size do not matter to it.
pub proof fn law_what_the_slow_path_answers(
    m: Map<Seq<char>, EntryView>,
    now: u64,
    ttl: u64,
    path: Seq<char>,
    content: Seq<u8>,
    p: ParamsView,
)
    ensures
        ({
            let k = key_text(path, p);
            let e = m[k];
            let hit = content_lookup(m, now, ttl, path, content, p);
            &&& hit is Some <==> {
                &&& m.contains_key(k)
                &&& now <= e.timestamp_secs + ttl
                &&& e.content_hash == blake3_text(content)
                &&& content.len() > 0 ==> e.text_char_count > 0
            }
            &&& hit is Some ==> {
                &&& hit->Some_0.output == e.output
                &&& hit->Some_0.input_was_sc == e.input_was_sc
                &&& hit->Some_0.text_char_count == e.text_char_count
            }
        }),
{
}

/// A file that was edited is scanned again: after a scan of one content, a
/// content with another digest is not known, at whatever time, and neither is
/// the file by a time or a size other than the scan's.
pub proof fn law_an_edited_file_is_scanned_again(
    m: Map<Seq<char>, EntryView>,
    written: u64,
    now: u64,
    ttl: u64,
    path: Seq<char>,
    content: Seq<u8>,
    edited: Seq<u8>,
    meta: FileMeta,
    other: FileMeta,
    p: ParamsView,
    output: ScanOutputView,
    input_was_sc: bool,
    text_char_count: usize,
)
    requires
        blake3_text(content) != blake3_text(edited),
        meta.mtime_secs != other.mtime_secs || meta.size != other.size,
    ensures
        ({
            let e = entry_of(
                written,
                path,
                content,
                meta,
                p,
                output,
                input_was_sc,
                text_char_count,
            );
            let after = m.insert(key_text(path, p), e);
            &&& content_lookup(after, now, ttl, path, edited, p) is None
            &&& fast_lookup(after, now, ttl, path, other, p) is None
        }),
{
}

/// What a scan leaves says where, when, of what and with which parameters it was
/// made, and what it found.
pub proof fn law_an_entry_records_its_scan(
    now: u64,
    path: Seq<char>,
    content: Seq<u8>,
    meta: FileMeta,
    p: ParamsView,
    output: ScanOutputView,
    input_was_sc: bool,
    text_char_count: usize,
)
    ensures
        ({
            let e = entry_of(now, path, content, meta, p, output, input_was_sc, text_char_count);
            &&& e.file_path == path && e.params == p
            &&& e.content_hash == blake3_text(content)
            &&& e.file_meta.mtime_secs == meta.mtime_secs && e.file_meta.size == meta.size
            &&& e.output == output && e.input_was_sc == input_was_sc
            &&& e.text_char_count == text_char_count
            &&& e.timestamp_secs == now
        }),
{
}

/// Pruning takes away the entries that are older than the cache keeps them, and
/// no others; it changes none. A clock that was set back ages nothing.
pub proof fn law_pruning_takes_what_is_too_old(
    m: Map<Seq<char>, EntryView>,
    now: u64,
    ttl: u64,
    k: Seq<char>,
)
    ensures
        live(m, now, ttl).contains_key(k) <==> m.contains_key(k) && now <= m[k].timestamp_secs
            + ttl,
        live(m, now, ttl).contains_key(k) ==> live(m, now, ttl)[k] == m[k],
{
}

/// The cap on entries keeps as many as it allows, changes none of them, and
/// gives up the oldest: nothing that goes is newer than anything that stays.
pub proof fn law_the_cap_gives_up_the_oldest(
    before: Map<Seq<char>, EntryView>,
    after: Map<Seq<char>, EntryView>,
    cap: nat,
    kept: Seq<char>,
    gone: Seq<char>,
)
    requires
        capped(before, after, cap),
    ensures
        after.len() == if before.len() <= cap {
            before.len()
        } else {
            cap
        },
        after.contains_key(kept) ==> before.contains_key(kept) && after[kept] == before[kept],
        after.contains_key(kept) && before.contains_key(gone) && !after.contains_key(gone)
            ==> before[gone].timestamp_secs <= before[kept].timestamp_secs,
        before.contains_key(gone) && !after.contains_key(gone) ==> before.len() > cap,
{
    if before.len() > cap && after.contains_key(kept) {
        assert(after.submap_of(before));
        assert(after.dom().contains(kept));
        assert(before.dom().contains(kept));
        assert(before[kept] == after[kept]);
        if before.contains_key(gone) && !after.contains_key(gone) {
            assert(before[gone].timestamp_secs <= after[kept].timestamp_secs);
        }
    }
}

/// A stored list is taken over entry by entry: what is too old is left out, each
/// entry stands under the key of its own path and parameters, and a later one in
/// place of an earlier one with the same key.
pub proof fn law_stored_entries_are_taken_over(
    stored: Seq<EntryView>,
    e: EntryView,
    now: u64,
    ttl: u64,
    k: Seq<char>,
)
    ensures
        !loaded_entries(seq![], now, ttl).contains_key(k),
        ({
            let before = loaded_entries(stored, now, ttl);
            let after = loaded_entries(stored.push(e), now, ttl);
            let stands = now <= e.timestamp_secs + ttl && key_text(e.file_path, e.params) == k;
            &&& stands ==> after.contains_key(k) && after[k] == e
            &&& !stands ==> (after.contains_key(k) <==> before.contains_key(k))
            &&& !stands && before.contains_key(k) ==> after[k] == before[k]
        }),
{
    assert(stored.push(e).drop_last() =~= stored);
    assert(stored.push(e).last() == e);
}

/// Loading adds what was stored to what was put, and what was put stands over
/// it. It happens once: a cache that was loaded stays as it is.
pub proof fn law_loading_adds_what_was_stored(
    m: Map<Seq<char>, EntryView>,
    stored: Seq<EntryView>,
    now: u64,
    ttl: u64,
    k: Seq<char>,
)
    ensures
        after_load(m, true, stored, now, ttl) == m,
        ({
            let from_file = loaded_entries(stored, now, ttl);
            let after = after_load(m, false, stored, now, ttl);
            &&& after.contains_key(k) <==> m.contains_key(k) || from_file.contains_key(k)
            &&& m.contains_key(k) ==> after[k] == m[k]
            &&& !m.contains_key(k) && from_file.contains_key(k) ==> after[k] == from_file[k]
        }),
{
}

/// A key is the first half of the digest of the path and all the parameters: two
/// scans share one exactly where those halves are the same.
pub proof fn law_a_key_is_half_a_digest(
    path: Seq<char>,
    p: ParamsView,
    other_path: Seq<char>,
    q: ParamsView,
)
    ensures
        key_text(path, p) == key_text(other_path, q) <==> blake3_text(
            encode_utf8(key_json(path, p)),
        ).take(32) == blake3_text(encode_utf8(key_json(other_path, q))).take(32),
{
}

/// The cache file lies in a directory of the program's own below the user's
/// cache directory, with one slash between two names, and below the system's
/// directory for temporary files where the user has none.
pub proof fn law_where_the_cache_lies(dir: Seq<u8>)
    ensures
        dir.len() > 0 && dir.last() != 47 ==> {
            &&& cache_file(Some(dir)) == dir + encode_utf8("/zhtw-mcp/scan-cache.json"@)
            &&& cache_file(Some(dir.push(47u8))) == dir + encode_utf8("/zhtw-mcp/scan-cache.json"@)
        },
        cache_file(None) == encode_utf8("/tmp/zhtw-mcp/scan-cache.json"@),
{
    reveal_strlit("/zhtw-mcp/scan-cache.json");
    reveal_strlit("/tmp/zhtw-mcp/scan-cache.json");
    reveal_strlit("/tmp");
    reveal_strlit("zhtw-mcp");
    reveal_strlit("scan-cache.json");
    vstd::utf8::is_ascii_chars_encode_utf8("/zhtw-mcp/scan-cache.json"@);
    vstd::utf8::is_ascii_chars_encode_utf8("/tmp/zhtw-mcp/scan-cache.json"@);
    vstd::utf8::is_ascii_chars_encode_utf8("/tmp"@);
    vstd::utf8::is_ascii_chars_encode_utf8("zhtw-mcp"@);
    vstd::utf8::is_ascii_chars_encode_utf8("scan-cache.json"@);
    let own = encode_utf8("zhtw-mcp"@);
    let file = encode_utf8("scan-cache.json"@);
    let both = seq![47u8] + own + seq![47u8] + file;
    assert(own.last() == 'p' as u8);
    assert(both =~= encode_utf8("/zhtw-mcp/scan-cache.json"@));
    let tmp = encode_utf8("/tmp"@);
    assert(tmp.last() == 'p' as u8);
    assert(tmp + both =~= encode_utf8("/tmp/zhtw-mcp/scan-cache.json"@));
    if dir.len() > 0 && dir.last() != 47 {
        assert(cache_file(Some(dir)) =~= dir + both);
        assert(cache_file(Some(dir.push(47u8))) =~= dir + both);
    }
    assert(cache_file(None) =~= tmp + both);
}

/// A lookup by content that answers does so from an entry whose digest is that
/// of the content that was read, at the time that was given.
pub proof fn law_a_content_hit_has_the_same_digest(
    cache: &ScanCache,
    now: u64,
    path: &str,
    content: &[u8],
    params: &ScanParams,
    r: Option<CacheHit>,
)
    requires
        call_ensures(ScanCache::check_content_at, (cache, now, path, content, params), r),
    ensures
        ({
            let e = cache@[key_text(path@, params@)];
            &&& r is Some <==> {
                &&& cache@.contains_key(key_text(path@, params@))
                &&& e.content_hash == blake3_text(content@)
                &&& now <= e.timestamp_secs + cache.ttl()
                &&& content@.len() > 0 ==> e.text_char_count > 0
            }
            &&& r is Some ==> r->Some_0@.output == e.output && r->Some_0@.input_was_sc
                == e.input_was_sc && r->Some_0@.text_char_count == e.text_char_count
        }),
{
}

/// A lookup by time and size that answers does so from an entry with that time
/// and that size.
pub proof fn law_a_fast_hit_has_the_same_time_and_size(
    cache: &ScanCache,
    now: u64,
    path: &str,
    mtime: u64,
    size: u64,
    params: &ScanParams,
    r: CacheResult,
)
    requires
        call_ensures(ScanCache::check_fast_at, (cache, now, path, mtime, size, params), r),
    ensures
        ({
            let e = cache@[key_text(path@, params@)];
            &&& r is Hit <==> {
                &&& cache@.contains_key(key_text(path@, params@))
                &&& e.file_meta.mtime_secs == mtime && e.file_meta.size == size
                &&& now <= e.timestamp_secs + cache.ttl()
                &&& size > 0 ==> e.text_char_count > 0
            }
            &&& r is Hit ==> ({
                let hit = (*r->Hit_0)@;
                hit.output == e.output && hit.input_was_sc == e.input_was_sc && hit.text_char_count
                    == e.text_char_count
            })
        }),
{
}

/// Whatever the clock says, the two lookups never answer for another content, or
/// for another time or size.
pub proof fn law_no_clock_makes_a_changed_file_known(
    cache: &ScanCache,
    path: &str,
    content: &[u8],
    mtime: u64,
    size: u64,
    params: &ScanParams,
    by_content: Option<CacheHit>,
    by_meta: CacheResult,
)
    requires
        call_ensures(ScanCache::check_content, (cache, path, content, params), by_content),
        call_ensures(ScanCache::check_fast, (cache, path, mtime, size, params), by_meta),
    ensures
        ({
            let e = cache@[key_text(path@, params@)];
            &&& by_content is Some ==> e.content_hash == blake3_text(content@)
            &&& by_meta is Hit ==> e.file_meta.mtime_secs == mtime && e.file_meta.size == size
        }),
{
}

/// What is put is found again under its path and parameters, and nothing else in
/// the cache changes.
pub proof fn law_putting_changes_one_entry(
    cache: &mut ScanCache,
    now: u64,
    path: &str,
    content: &[u8],
    mtime: u64,
    size: u64,
    params: &ScanParams,
    output: ScanOutput,
    input_was_sc: bool,
    text_char_count: usize,
    k: Seq<char>,
)
    requires
        call_ensures(
            ScanCache::put_at,
            (
                cache,
                now,
                path,
                content,
                mtime,
                size,
                params,
                output,
                input_was_sc,
                text_char_count,
            ),
            (),
        ),
    ensures
        ({
            let own = key_text(path@, params@);
            let e = final(cache)@[own];
            &&& final(cache)@.contains_key(own)
            &&& e.content_hash == blake3_text(content@)
            &&& e.file_meta.mtime_secs == mtime && e.file_meta.size == size
            &&& e.output == output@ && e.input_was_sc == input_was_sc
            &&& e.text_char_count == text_char_count && e.timestamp_secs == now
            &&& e.file_path == path@ && e.params == params@
            &&& k != own ==> (final(cache)@.contains_key(k) <==> old(cache)@.contains_key(k))
            &&& k != own && old(cache)@.contains_key(k) ==> final(cache)@[k] == old(cache)@[k]
            &&& final(cache).unsaved()
        }),
{
}

/// Loading keeps all that was put, and adds what the file held and is not too
/// old.
pub proof fn law_loading_keeps_what_was_put(
    cache: &mut ScanCache,
    now: u64,
    stored: Vec<CacheEntry>,
    k: Seq<char>,
)
    requires
        call_ensures(ScanCache::ensure_loaded_at, (cache, now, stored), ()),
    ensures
        final(cache).loaded(),
        old(cache)@.contains_key(k) ==> final(cache)@.contains_key(k) && final(cache)@[k] == old(cache)@[k],
        old(cache).loaded() ==> final(cache)@ == old(cache)@,
        !old(cache).loaded() ==> (final(cache)@.contains_key(k) <==> old(cache)@.contains_key(k)
            || loaded_entries(entries_view(stored@), now, old(cache).ttl()).contains_key(k)),
{
}

/// A flush writes where something was put since the last one. It keeps what is
/// not too old, and of that the newest two thousand.
pub proof fn law_what_a_flush_keeps(cache: &mut ScanCache, now: u64, r: bool, k: Seq<char>)
    requires
        call_ensures(ScanCache::begin_flush_at, (cache, now), r),
    ensures
        r <==> old(cache).unsaved(),
        !r ==> final(cache)@ == old(cache)@,
        r ==> final(cache)@.len() <= 2000,
        r && final(cache)@.contains_key(k) ==> old(cache)@.contains_key(k) && final(cache)@[k]
            == old(cache)@[k] && now <= old(cache)@[k].timestamp_secs + old(cache).ttl(),
        r && live(old(cache)@, now, old(cache).ttl()).len() <= 2000 && old(cache)@.contains_key(k)
            && now <= old(cache)@[k].timestamp_secs + old(cache).ttl() ==> final(cache)@.contains_key(k),
{
    let kept = live(old(cache)@, now, old(cache).ttl());
    if r {
        if final(cache)@.contains_key(k) {
            assert(kept.contains_key(k));
        }
        law_pruning_takes_what_is_too_old(old(cache)@, now, old(cache).ttl(), k);
    }
}

/// What was put is unsaved until it was written: a lock that another process
/// holds keeps it for the next flush. A lock that cannot be had is no reason not
/// to write.
pub proof fn law_what_stays_unsaved(
    cache: &mut ScanCache,
    lock: LockState,
    written: bool,
    may: bool,
)
    ensures
        call_ensures(ScanCache::end_flush, (cache, lock, written), ()) ==> {
            &&& final(cache)@ == old(cache)@
            &&& written && lock != LockState::Held ==> !final(cache).unsaved()
            &&& !written || lock == LockState::Held ==> final(cache).unsaved() == old(cache).unsaved()
        },
        call_ensures(LockState::may_write, (lock,), may) ==> (may <==> lock
            == LockState::Unavailable || lock == LockState::Acquired),
{
}

/// A cache is opened empty, keeps its entries for a day, and reads its file
/// first.
pub proof fn law_how_a_cache_is_opened(path: Vec<u8>, r: ScanCache)
    requires
        call_ensures(ScanCache::open, (path,), r),
    ensures
        r.path_bytes() == path@,
        r@.dom() == Set::<Seq<char>>::empty(),
        !r.loaded() && !r.unsaved(),
        r.ttl() == 86400,
{
}

/// A file's time is given in seconds, and is zero where it is before the epoch.
pub proof fn law_a_files_time(since_epoch: Option<u64>, r: u64)
    requires
        call_ensures(mtime_secs, (since_epoch,), r),
    ensures
        since_epoch is Some ==> r == since_epoch->Some_0,
        since_epoch is None ==> r == 0,
{
}

} // verus!
