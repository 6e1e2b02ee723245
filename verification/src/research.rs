//! News research helpers: HTML clean-up, the minimal JSON field reader, and the
//! Naver News / RSS response parsers.
use vstd::prelude::*;
use crate::calendar::epoch_date_text;
use crate::project::{is_alphanumeric, slug_of, today_str, topic_to_slug};
use crate::scan::{json_objects, split_objects};
use crate::tracking::{safe_char, strip_trail, strip_trail_exec, trim_char, trim_char_exec};
use crate::text::{
    boundary_exec, boundary_index, byte_boundary, byte_len, byte_len_exceeds, eq_exec, split_str, split_str_exec, find_char_from, find_from, find_from_exec, last_index, push_str, starts_with, starts_with_exec, trim, trim_vec, last_index_exec, lemma_somes_push, somes,
    chars_of, char_is_ws, find, find_exec, lemma_find_from, matches_at, push_all, replace_all, replace_exec,
    slice_of, string_of, trim_start,
};

verus! {

// ───────────────────────── HTML ─────────────────────────

/// Reading `s` with tags dropped: whether a tag is open, and the kept text.
pub open spec fn untag_state(s: Seq<char>) -> (bool, Seq<char>)
    decreases s.len(),
{
    if s.len() == 0 {
        (false, seq![])
    } else {
        let (in_tag, out) = untag_state(s.drop_last());
        let c = s.last();
        if c == '<' {
            (true, out)
        } else if c == '>' {
            (false, out)
        } else if !in_tag {
            (in_tag, out.push(c))
        } else {
            (in_tag, out)
        }
    }
}

/// `s` with every `<...>` tag removed (an unclosed tag runs to the end).
pub open spec fn untag(s: Seq<char>) -> Seq<char> {
    untag_state(s).1
}

/// The entities `&amp;`, `&lt;`, `&gt;`, `&quot;`, `&apos;` decoded in one
/// pass from left to right, each occurrence once (`&amp;lt;` gives `&lt;`).
pub open spec fn entity_decode(s: Seq<char>) -> Seq<char>
    decreases s.len(),
{
    if s.len() == 0 {
        seq![]
    } else if starts_with(s, seq!['&', 'a', 'm', 'p', ';']) {
        seq!['&'] + entity_decode(s.skip(5))
    } else if starts_with(s, seq!['&', 'l', 't', ';']) {
        seq!['<'] + entity_decode(s.skip(4))
    } else if starts_with(s, seq!['&', 'g', 't', ';']) {
        seq!['>'] + entity_decode(s.skip(4))
    } else if starts_with(s, seq!['&', 'q', 'u', 'o', 't', ';']) {
        seq!['"'] + entity_decode(s.skip(6))
    } else if starts_with(s, seq!['&', 'a', 'p', 'o', 's', ';']) {
        seq!['\''] + entity_decode(s.skip(6))
    } else {
        seq![s[0]] + entity_decode(s.drop_first())
    }
}

/// What `strip_html_tags` returns: tags removed, then the common entities
/// decoded once each.
pub open spec fn strip_html(s: Seq<char>) -> Seq<char> {
    entity_decode(untag(s))
}

proof fn lemma_untag_shorter(s: Seq<char>)
    ensures
        untag_state(s).1.len() <= s.len(),
    decreases s.len(),
{
    if s.len() > 0 {
        lemma_untag_shorter(s.drop_last());
    }
}

proof fn lemma_entity_decode_shorter(s: Seq<char>)
    ensures
        entity_decode(s).len() <= s.len(),
    decreases s.len(),
{
    if s.len() > 0 {
        if starts_with(s, seq!['&', 'a', 'm', 'p', ';']) {
            lemma_entity_decode_shorter(s.skip(5));
        } else if starts_with(s, seq!['&', 'l', 't', ';']) {
            lemma_entity_decode_shorter(s.skip(4));
        } else if starts_with(s, seq!['&', 'g', 't', ';']) {
            lemma_entity_decode_shorter(s.skip(4));
        } else if starts_with(s, seq!['&', 'q', 'u', 'o', 't', ';']) {
            lemma_entity_decode_shorter(s.skip(6));
        } else if starts_with(s, seq!['&', 'a', 'p', 'o', 's', ';']) {
            lemma_entity_decode_shorter(s.skip(6));
        } else {
            lemma_entity_decode_shorter(s.drop_first());
        }
    }
}

/// Removing tags and decoding entities never lengthens a text.
pub proof fn lemma_strip_html_shorter(s: Seq<char>)
    ensures
        strip_html(s).len() <= s.len(),
{
    lemma_untag_shorter(s);
    lemma_entity_decode_shorter(untag(s));
}

fn untag_exec(s: &[char]) -> (r: Vec<char>)
    ensures
        r@ == untag(s@),
{
    let mut out: Vec<char> = Vec::new();
    let mut in_tag = false;
    let mut i: usize = 0;
    assert(s@.take(0) =~= Seq::<char>::empty());
    while i < s.len()
        invariant
            i <= s@.len(),
            (in_tag, out@) == untag_state(s@.take(i as int)),
        decreases s@.len() - i,
    {
        let c = s[i];
        assert(s@.take(i + 1).drop_last() =~= s@.take(i as int));
        assert(s@.take(i + 1).last() == c);
        if c == '<' {
            in_tag = true;
        } else if c == '>' {
            in_tag = false;
        } else if !in_tag {
            out.push(c);
        }
        i += 1;
    }
    assert(s@.take(s@.len() as int) =~= s@);
    out
}

fn replace_lit(s: &[char], from: &str, to: &str) -> (r: Vec<char>)
    requires
        from@.len() > 0,
    ensures
        r@ == replace_all(s@, from@, to@),
{
    let f = chars_of(from);
    let t = chars_of(to);
    replace_exec(s, f.as_slice(), t.as_slice())
}

fn entity_decode_exec(v: &[char]) -> (r: Vec<char>)
    ensures
        r@ == entity_decode(v@),
{
    let amp: Vec<char> = vec!['&', 'a', 'm', 'p', ';'];
    let lt: Vec<char> = vec!['&', 'l', 't', ';'];
    let gt: Vec<char> = vec!['&', 'g', 't', ';'];
    let quot: Vec<char> = vec!['&', 'q', 'u', 'o', 't', ';'];
    let apos: Vec<char> = vec!['&', 'a', 'p', 'o', 's', ';'];
    assert(amp@ =~= seq!['&', 'a', 'm', 'p', ';']);
    assert(lt@ =~= seq!['&', 'l', 't', ';']);
    assert(gt@ =~= seq!['&', 'g', 't', ';']);
    assert(quot@ =~= seq!['&', 'q', 'u', 'o', 't', ';']);
    assert(apos@ =~= seq!['&', 'a', 'p', 'o', 's', ';']);
    let mut out: Vec<char> = Vec::new();
    let mut i: usize = 0;
    assert(v@.skip(0) =~= v@);
    while i < v.len()
        invariant
            i <= v@.len(),
            amp@ == seq!['&', 'a', 'm', 'p', ';'],
            lt@ == seq!['&', 'l', 't', ';'],
            gt@ == seq!['&', 'g', 't', ';'],
            quot@ == seq!['&', 'q', 'u', 'o', 't', ';'],
            apos@ == seq!['&', 'a', 'p', 'o', 's', ';'],
            entity_decode(v@) == out@ + entity_decode(v@.skip(i as int)),
        decreases v@.len() - i,
    {
        let ghost t = v@.skip(i as int);
        let ghost before = out@;
        proof {
            assert forall|p: Seq<char>| #[trigger] matches_at(v@, p, i as int) == starts_with(t, p) by {
                if p.len() <= t.len() {
                    assert(v@.subrange(i as int, i + p.len()) =~= t.take(p.len() as int));
                }
            }
        }
        let (c, k): (char, usize) = if crate::text::matches_at_exec(v, amp.as_slice(), i) {
            ('&', 5)
        } else if crate::text::matches_at_exec(v, lt.as_slice(), i) {
            ('<', 4)
        } else if crate::text::matches_at_exec(v, gt.as_slice(), i) {
            ('>', 4)
        } else if crate::text::matches_at_exec(v, quot.as_slice(), i) {
            ('"', 6)
        } else if crate::text::matches_at_exec(v, apos.as_slice(), i) {
            ('\'', 6)
        } else {
            (v[i], 1)
        };
        out.push(c);
        assert(t.skip(k as int) =~= v@.skip(i + k));
        assert(t.drop_first() =~= v@.skip(i + 1));
        assert(entity_decode(t) == seq![c] + entity_decode(t.skip(k as int)));
        assert(out@ =~= before + seq![c]);
        i += k;
    }
    assert(v@.skip(v@.len() as int) =~= Seq::<char>::empty());
    assert(out@ =~= out@ + entity_decode(Seq::<char>::empty()));
    out
}

pub(crate) fn strip_html_chars(s: &[char]) -> (r: Vec<char>)
    ensures
        r@ == strip_html(s@),
{
    let a = untag_exec(s);
    entity_decode_exec(a.as_slice())
}

/// Strip HTML tags and decode common HTML entities.
pub fn strip_html_tags(s: &str) -> (r: String)
    ensures
        r@ == strip_html(s@),
{
    let v = chars_of(s);
    let out = strip_html_chars(v.as_slice());
    string_of(out.as_slice())
}

// ───────────────────────── JSON field reader ─────────────────────────

/// Whether the character before index `k` of `v` opened an escape
/// (`\` not itself escaped).
pub open spec fn escaped_before(v: Seq<char>, k: int) -> bool
    decreases k,
{
    if k <= 0 {
        false
    } else if escaped_before(v, k - 1) {
        false
    } else {
        v[k - 1] == '\\'
    }
}

/// `v[i]` is a `"` that is not escaped.
pub open spec fn closing_quote(v: Seq<char>, i: int) -> bool {
    0 <= i < v.len() && v[i] == '"' && !escaped_before(v, i)
}

/// The index of the first unescaped `"` in `v`.
pub open spec fn closing_quote_from(v: Seq<char>, i: int) -> Option<int>
    decreases v.len() - i,
{
    if i < 0 || i >= v.len() {
        None
    } else if closing_quote(v, i) {
        Some(i)
    } else {
        closing_quote_from(v, i + 1)
    }
}

/// What `json_extract_string(obj, key)` returns: the raw text of the string
/// value that follows the first `"key"` and a colon (escapes left as written).
pub open spec fn json_extract(obj: Seq<char>, key: Seq<char>) -> Option<Seq<char>> {
    let pat = seq!['"'] + key + seq!['"'];
    match find(obj, pat) {
        None => None,
        Some(kp) => {
            let a = trim_start(obj.skip(kp + pat.len()));
            if a.len() == 0 || a[0] != ':' {
                None
            } else {
                let b = trim_start(a.drop_first());
                if b.len() == 0 || b[0] != '"' {
                    None
                } else {
                    match closing_quote_from(b.drop_first(), 0) {
                        Some(e) => Some(b.subrange(1, 1 + e)),
                        None => None,
                    }
                }
            }
        },
    }
}

/// The value `json_extract` gives, or the empty text (`unwrap_or_default`).
pub open spec fn json_field(obj: Seq<char>, key: Seq<char>) -> Seq<char> {
    match json_extract(obj, key) {
        Some(v) => v,
        None => seq![],
    }
}

fn closing_quote_exec(s: &[char], from: usize) -> (r: Option<usize>)
    requires
        from <= s@.len(),
    ensures
        match r {
            Some(e) => from <= e < s@.len() && closing_quote_from(s@.skip(from as int), 0) == Some(
                e - from,
            ),
            None => closing_quote_from(s@.skip(from as int), 0) is None,
        },
{
    let ghost v = s@.skip(from as int);
    let mut escaped = false;
    let mut i = from;
    while i < s.len()
        invariant
            from <= i <= s@.len(),
            v == s@.skip(from as int),
            escaped == escaped_before(v, i - from),
            closing_quote_from(v, 0) == closing_quote_from(v, i - from),
        decreases s@.len() - i,
    {
        let c = s[i];
        assert(v[i - from] == c);
        if escaped {
            escaped = false;
        } else if c == '\\' {
            escaped = true;
        } else if c == '"' {
            return Some(i);
        }
        i += 1;
    }
    None
}

/// Extract a field value from a JSON object string (simple key-value parsing).
pub(crate) fn json_extract_chars(obj: &[char], key: &[char]) -> (r: Option<Vec<char>>)
    ensures
        match r {
            Some(v) => json_extract(obj@, key@) == Some(v@),
            None => json_extract(obj@, key@) is None,
        },
{
    let mut pat: Vec<char> = Vec::new();
    pat.push('"');
    push_all(&mut pat, key);
    pat.push('"');
    assert(pat@ =~= seq!['"'] + key@ + seq!['"']);
    let kp = match find_exec(obj, pat.as_slice()) {
        Some(k) => k,
        None => return None,
    };
    proof {
        lemma_find_from(obj@, pat@, 0);
        assert(matches_at(obj@, pat@, kp as int));
    }
    let n = obj.len();
    assert(kp + pat@.len() <= n);
    let after = kp + pat.len();
    let a = skip_ws_from(obj, after);
    if a == obj.len() || obj[a] != ':' {
        return None;
    }
    let b = skip_ws_from(obj, a + 1);
    proof {
        assert(obj@.skip(a as int).drop_first() =~= obj@.skip(a + 1));
    }
    if b == obj.len() || obj[b] != '"' {
        return None;
    }
    proof {
        assert(obj@.skip(b as int).drop_first() =~= obj@.skip(b + 1));
    }
    match closing_quote_exec(obj, b + 1) {
        Some(e) => {
            let v = slice_of(obj, b + 1, e);
            assert(v@ =~= obj@.skip(b as int).subrange(1, 1 + (e - (b + 1))));
            Some(v)
        },
        None => None,
    }
}

/// Index where `trim_start(s[from..])` begins.
fn skip_ws_from(s: &[char], from: usize) -> (r: usize)
    requires
        from <= s@.len(),
    ensures
        from <= r <= s@.len(),
        trim_start(s@.skip(from as int)) == s@.skip(r as int),
{
    let mut i = from;
    while i < s.len() && char_is_ws(s[i])
        invariant
            from <= i <= s@.len(),
            trim_start(s@.skip(from as int)) == trim_start(s@.skip(i as int)),
        decreases s@.len() - i,
    {
        assert(s@.skip(i as int).drop_first() =~= s@.skip(i + 1));
        i += 1;
    }
    i
}

/// The index of the first non-digit of `s` from `i` on (its length when
/// there is none).
pub open spec fn digit_end(s: Seq<char>, i: int) -> int
    decreases s.len() - i,
{
    if 0 <= i < s.len() && crate::text::is_digit(s[i]) {
        digit_end(s, i + 1)
    } else {
        i
    }
}

/// The unquoted number that follows the first `"key"` and a colon: the run
/// of ASCII digits the value starts with, read as `u64`.
pub open spec fn json_number(obj: Seq<char>, key: Seq<char>) -> Option<nat> {
    let pat = seq!['"'] + key + seq!['"'];
    match find(obj, pat) {
        None => None,
        Some(kp) => {
            let a = trim_start(obj.skip(kp + pat.len()));
            if a.len() == 0 || a[0] != ':' {
                None
            } else {
                let b = trim_start(a.drop_first());
                crate::text::parse_digits(b.take(digit_end(b, 0)), u64::MAX as nat)
            }
        },
    }
}

/// Read the unquoted number value of `"key"` in a JSON object text.
pub(crate) fn json_number_chars(obj: &[char], key: &[char]) -> (r: Option<u64>)
    ensures
        match r {
            Some(v) => json_number(obj@, key@) == Some(v as nat),
            None => json_number(obj@, key@) is None,
        },
{
    let mut pat: Vec<char> = Vec::new();
    pat.push('"');
    push_all(&mut pat, key);
    pat.push('"');
    assert(pat@ =~= seq!['"'] + key@ + seq!['"']);
    let kp = match find_exec(obj, pat.as_slice()) {
        Some(k) => k,
        None => return None,
    };
    proof {
        lemma_find_from(obj@, pat@, 0);
        assert(matches_at(obj@, pat@, kp as int));
    }
    let n = obj.len();
    assert(kp + pat@.len() <= n);
    let after = kp + pat.len();
    let a = skip_ws_from(obj, after);
    if a == obj.len() || obj[a] != ':' {
        return None;
    }
    let b = skip_ws_from(obj, a + 1);
    proof {
        assert(obj@.skip(a as int).drop_first() =~= obj@.skip(a + 1));
    }
    let ghost v = obj@.skip(b as int);
    let mut j = b;
    while j < obj.len() && '0' <= obj[j] && obj[j] <= '9'
        invariant
            b <= j <= obj@.len(),
            v == obj@.skip(b as int),
            digit_end(v, 0) == digit_end(v, j - b),
        decreases obj@.len() - j,
    {
        assert(v[j - b] == obj@[j as int]);
        j += 1;
    }
    proof {
        if j < obj.len() {
            assert(v[j - b] == obj@[j as int]);
        }
    }
    let digits = slice_of(obj, b, j);
    assert(digits@ =~= v.take(digit_end(v, 0)));
    crate::text::parse_digits_exec(digits.as_slice(), u64::MAX)
}

/// `json_extract_chars(..).unwrap_or_default()` for a literal key.
pub(crate) fn json_field_lit(obj: &[char], key: &str) -> (r: Vec<char>)
    ensures
        r@ == json_field(obj@, key@),
{
    let k = chars_of(key);
    match json_extract_chars(obj, k.as_slice()) {
        Some(v) => v,
        None => Vec::new(),
    }
}

/// Extract a field value from a JSON object string (simple key-value parsing):
/// the raw text of the string value after the first `"key":`.
pub fn json_extract_string(obj: &str, key: &str) -> (r: Option<String>)
    ensures
        match r {
            Some(v) => json_extract(obj@, key@) == Some(v@),
            None => json_extract(obj@, key@) is None,
        },
{
    let o = chars_of(obj);
    let k = chars_of(key);
    match json_extract_chars(o.as_slice(), k.as_slice()) {
        Some(v) => Some(string_of(v.as_slice())),
        None => None,
    }
}

// ───────────────────────── news items ─────────────────────────

/// A single news search result.
#[derive(Debug, Clone)]
pub struct NewsItem {
    pub title: String,
    pub link: String,
    pub description: String,
    pub pub_date: String,
}

pub struct NewsItemV {
    pub title: Seq<char>,
    pub link: Seq<char>,
    pub description: Seq<char>,
    pub pub_date: Seq<char>,
}

impl View for NewsItem {
    type V = NewsItemV;

    open spec fn view(&self) -> NewsItemV {
        NewsItemV {
            title: self.title@,
            link: self.link@,
            description: self.description@,
            pub_date: self.pub_date@,
        }
    }
}

pub open spec fn news_view(items: Seq<NewsItem>) -> Seq<NewsItemV> {
    items.map_values(|x: NewsItem| x@)
}

/// One Naver News object: its fields, with tags stripped from the title and
/// the description; none when it has neither title nor link.
pub open spec fn news_item(obj: Seq<char>) -> Option<NewsItemV> {
    let title = json_field(obj, "title"@);
    let link = json_field(obj, "link"@);
    if title.len() == 0 && link.len() == 0 {
        None
    } else {
        Some(
            NewsItemV {
                title: strip_html(title),
                link,
                description: strip_html(json_field(obj, "description"@)),
                pub_date: json_field(obj, "pubDate"@),
            },
        )
    }
}

fn news_item_exec(obj: &[char]) -> (r: Option<NewsItem>)
    ensures
        match r {
            Some(it) => news_item(obj@) == Some(it@),
            None => news_item(obj@) is None,
        },
{
    let title = json_field_lit(obj, "title");
    let link = json_field_lit(obj, "link");
    if title.len() == 0 && link.len() == 0 {
        return None;
    }
    let description = json_field_lit(obj, "description");
    let pub_date = json_field_lit(obj, "pubDate");
    Some(
        NewsItem {
            title: string_of(strip_html_chars(title.as_slice()).as_slice()),
            link: string_of(link.as_slice()),
            description: string_of(strip_html_chars(description.as_slice()).as_slice()),
            pub_date: string_of(pub_date.as_slice()),
        },
    )
}

/// The `items` array of a Naver News response: from the first `[` after
/// `"items"` to the last `]` after it.
pub open spec fn naver_array(json: Seq<char>) -> Option<Seq<char>> {
    match find(json, "\"items\""@) {
        None => None,
        Some(d) => match find_from(json, seq!['['], d) {
            None => None,
            Some(a) => {
                let rest = json.skip(a);
                match last_index(rest, ']') {
                    None => None,
                    Some(e) => Some(rest.take(e + 1)),
                }
            },
        },
    }
}

/// What `parse_naver_news_json` returns: the news objects of the `items`
/// array (cut by braces alone) that have a title or a link.
pub open spec fn naver_items(json: Seq<char>) -> Seq<NewsItemV> {
    match naver_array(json) {
        None => seq![],
        Some(arr) => somes(json_objects(arr, false).map_values(|o: Seq<char>| news_item(o))),
    }
}

fn naver_array_exec(json: &[char]) -> (r: Option<Vec<char>>)
    ensures
        match r {
            Some(v) => naver_array(json@) == Some(v@),
            None => naver_array(json@) is None,
        },
{
    let m = chars_of("\"items\"");
    let d = match find_exec(json, m.as_slice()) {
        Some(d) => d,
        None => return None,
    };
    proof {
        lemma_find_from(json@, m@, 0);
    }
    let a = match find_char_from(json, '[', d) {
        Some(a) => a,
        None => return None,
    };
    proof {
        lemma_find_from(json@, seq!['['], d as int);
    }
    let rest = slice_of(json, a, json.len());
    assert(rest@ =~= json@.skip(a as int));
    match last_index_exec(rest.as_slice(), ']') {
        None => None,
        Some(e) => {
            let r = slice_of(rest.as_slice(), 0, e + 1);
            assert(r@ =~= rest@.take(e + 1));
            Some(r)
        },
    }
}

fn news_items_exec(arr: &[char]) -> (r: Vec<NewsItem>)
    ensures
        news_view(r@) == somes(json_objects(arr@, false).map_values(|o: Seq<char>| news_item(o))),
{
    let objs = split_objects(arr, false);
    let ghost ov = objs.deep_view();
    let ghost f = |o: Seq<char>| news_item(o);
    let mut results: Vec<NewsItem> = Vec::new();
    let mut j: usize = 0;
    assert(ov.take(0).map_values(f) =~= Seq::<Option<NewsItemV>>::empty());
    assert(news_view(results@) =~= Seq::<NewsItemV>::empty());
    while j < objs.len()
        invariant
            j <= objs@.len(),
            ov == objs.deep_view(),
            ov == json_objects(arr@, false),
            f == (|o: Seq<char>| news_item(o)),
            news_view(results@) == somes(ov.take(j as int).map_values(f)),
        decreases objs@.len() - j,
    {
        let item = news_item_exec(objs[j].as_slice());
        assert(objs[j as int]@ == ov[j as int]);
        assert(ov.take(j + 1).map_values(f) =~= ov.take(j as int).map_values(f).push(f(ov[j as int])));
        proof {
            lemma_somes_push(ov.take(j as int).map_values(f), f(ov[j as int]));
        }
        let ghost before = results@;
        match item {
            Some(it) => {
                results.push(it);
                assert(news_view(results@) =~= news_view(before).push(it@));
            },
            None => {},
        }
        j += 1;
    }
    assert(ov.take(objs@.len() as int) =~= ov);
    results
}

/// Parse Naver News API JSON response into a list of `NewsItem`.
pub fn parse_naver_news_json(json: &str) -> (r: Vec<NewsItem>)
    ensures
        news_view(r@) == naver_items(json@),
{
    let j = chars_of(json);
    match naver_array_exec(j.as_slice()) {
        Some(arr) => news_items_exec(arr.as_slice()),
        None => {
            let r: Vec<NewsItem> = Vec::new();
            assert(news_view(r@) =~= Seq::<NewsItemV>::empty());
            r
        },
    }
}

// ───────────────────────── RSS ─────────────────────────

/// What `xml_extract_tag(xml, tag)` returns: the text after the first
/// `<tag` (and the `>` that ends it) up to `</tag>`, trimmed, and taken out
/// of a `<![CDATA[...]]>` section when it starts one.
pub open spec fn xml_tag(xml: Seq<char>, tag: Seq<char>) -> Option<Seq<char>> {
    let open = seq!['<'] + tag;
    let close = "</"@ + tag + seq!['>'];
    match find(xml, open) {
        None => None,
        Some(p) => {
            let after = xml.skip(p + open.len());
            match find(after, seq!['>']) {
                None => None,
                Some(g) => {
                    let content = after.skip(g + 1);
                    match find(content, close) {
                        None => None,
                        Some(e) => {
                            let raw = trim(content.take(e));
                            if starts_with(raw, "<![CDATA["@) {
                                let cd = raw.skip(9);
                                match find(cd, "]]>"@) {
                                    Some(k) => Some(cd.take(k)),
                                    None => Some(raw),
                                }
                            } else {
                                Some(raw)
                            }
                        },
                    }
                },
            }
        },
    }
}

/// The text of `xml_tag`, or nothing (`unwrap_or_default`).
pub open spec fn xml_tag_or_empty(xml: Seq<char>, tag: Seq<char>) -> Seq<char> {
    match xml_tag(xml, tag) {
        Some(v) => v,
        None => seq![],
    }
}

/// `s[from..]` as a vector.
fn tail_from(s: &[char], from: usize) -> (r: Vec<char>)
    requires
        from <= s@.len(),
    ensures
        r@ == s@.skip(from as int),
{
    let r = slice_of(s, from, s.len());
    assert(r@ =~= s@.skip(from as int));
    r
}

fn find_lit(s: &[char], p: &str) -> (r: Option<usize>)
    ensures
        match r {
            Some(k) => find(s@, p@) == Some(k as int) && k + p@.len() <= s@.len(),
            None => find(s@, p@) is None,
        },
{
    let pv = chars_of(p);
    proof {
        lemma_find_from(s@, p@, 0);
    }
    find_exec(s, pv.as_slice())
}

/// Extract text content between `<tag>...</tag>` or `<tag><![CDATA[...]]></tag>`.
pub fn xml_extract_tag(xml: &str, tag: &str) -> (r: Option<String>)
    ensures
        match r {
            Some(v) => xml_tag(xml@, tag@) == Some(v@),
            None => xml_tag(xml@, tag@) is None,
        },
{
    let xv = chars_of(xml);
    match xml_tag_chars(xv.as_slice(), tag) {
        Some(v) => Some(string_of(v.as_slice())),
        None => None,
    }
}

pub(crate) fn xml_tag_chars(x: &[char], tag: &str) -> (r: Option<Vec<char>>)
    ensures
        match r {
            Some(v) => xml_tag(x@, tag@) == Some(v@),
            None => xml_tag(x@, tag@) is None,
        },
{
    let mut open: Vec<char> = Vec::new();
    open.push('<');
    push_str(&mut open, tag);
    let mut close: Vec<char> = Vec::new();
    push_str(&mut close, "</");
    push_str(&mut close, tag);
    close.push('>');
    assert(open@ =~= seq!['<'] + tag@);
    assert(close@ =~= "</"@ + tag@ + seq!['>']);
    proof {
        lemma_find_from(x@, open@, 0);
    }
    let p = match find_exec(x, open.as_slice()) {
        Some(p) => p,
        None => return None,
    };
    let xn = x.len();
    assert(p + open@.len() <= xn);
    let after = tail_from(x, p + open.len());
    let g = match find_char_from(after.as_slice(), '>', 0) {
        Some(g) => g,
        None => return None,
    };
    proof {
        lemma_find_from(after@, seq!['>'], 0);
    }
    let an = after.len();
    assert(g + 1 <= an);
    let content = tail_from(after.as_slice(), g + 1);
    proof {
        lemma_find_from(content@, close@, 0);
    }
    let e = match find_exec(content.as_slice(), close.as_slice()) {
        Some(e) => e,
        None => return None,
    };
    let head = slice_of(content.as_slice(), 0, e);
    assert(head@ =~= content@.take(e as int));
    let raw = trim_vec(head.as_slice());
    let cdo = chars_of("<![CDATA[");
    proof {
        reveal_strlit("<![CDATA[");
    }
    if starts_with_exec(raw.as_slice(), cdo.as_slice()) {
        let cd = tail_from(raw.as_slice(), 9);
        match find_lit(cd.as_slice(), "]]>") {
            Some(k) => {
                let v = slice_of(cd.as_slice(), 0, k);
                assert(v@ =~= cd@.take(k as int));
                Some(v)
            },
            None => Some(raw),
        }
    } else {
        Some(raw)
    }
}

fn xml_tag_or_empty_exec(x: &[char], tag: &str) -> (r: Vec<char>)
    ensures
        r@ == xml_tag_or_empty(x@, tag@),
{
    match xml_tag_chars(x, tag) {
        Some(v) => v,
        None => Vec::new(),
    }
}

/// One `<item>` of an RSS feed: its fields trimmed, tags stripped from the
/// title and description; none when it has neither title nor link.
pub open spec fn rss_item(item: Seq<char>) -> Option<NewsItemV> {
    let title = xml_tag_or_empty(item, "title"@);
    let link = xml_tag_or_empty(item, "link"@);
    if title.len() == 0 && link.len() == 0 {
        None
    } else {
        Some(
            NewsItemV {
                title: trim(strip_html(title)),
                link: trim(link),
                description: trim(strip_html(xml_tag_or_empty(item, "description"@))),
                pub_date: trim(xml_tag_or_empty(item, "pubDate"@)),
            },
        )
    }
}

/// Where the next item starts: the first `<item>` at or after `from`, or
/// failing that the first `<item `.
pub open spec fn item_start_from(xml: Seq<char>, from: int) -> Option<int> {
    match find_from(xml, "<item>"@, from) {
        Some(k) => Some(k),
        None => find_from(xml, "<item "@, from),
    }
}

/// The items of `xml` read from `from` on: each runs from its start to the
/// end of the next `</item>`.
pub open spec fn rss_items_from(xml: Seq<char>, from: int) -> Seq<NewsItemV>
    decreases xml.len() - from,
{
    if from < 0 || from > xml.len() {
        seq![]
    } else {
        match item_start_from(xml, from) {
            None => seq![],
            Some(st) => match find_from(xml, "</item>"@, st) {
                None => seq![],
                Some(e0) => {
                    let e = e0 + 7;
                    if e <= from || e > xml.len() || st < from {
                        seq![]
                    } else {
                        let rest = rss_items_from(xml, e);
                        match rss_item(xml.subrange(st, e)) {
                            Some(it) => seq![it] + rest,
                            None => rest,
                        }
                    }
                },
            },
        }
    }
}

fn rss_item_exec(item: &[char]) -> (r: Option<NewsItem>)
    ensures
        match r {
            Some(it) => rss_item(item@) == Some(it@),
            None => rss_item(item@) is None,
        },
{
    let title = xml_tag_or_empty_exec(item, "title");
    let link = xml_tag_or_empty_exec(item, "link");
    if title.len() == 0 && link.len() == 0 {
        return None;
    }
    let description = xml_tag_or_empty_exec(item, "description");
    let pub_date = xml_tag_or_empty_exec(item, "pubDate");
    let t = strip_html_chars(title.as_slice());
    let d = strip_html_chars(description.as_slice());
    Some(
        NewsItem {
            title: string_of(trim_vec(t.as_slice()).as_slice()),
            link: string_of(trim_vec(link.as_slice()).as_slice()),
            description: string_of(trim_vec(d.as_slice()).as_slice()),
            pub_date: string_of(trim_vec(pub_date.as_slice()).as_slice()),
        },
    )
}

fn find_lit_from(s: &[char], p: &str, from: usize) -> (r: Option<usize>)
    requires
        from <= s@.len(),
    ensures
        match r {
            Some(k) => find_from(s@, p@, from as int) == Some(k as int) && from <= k && k + p@.len()
                <= s@.len(),
            None => find_from(s@, p@, from as int) is None,
        },
{
    let pv = chars_of(p);
    proof {
        lemma_find_from(s@, p@, from as int);
    }
    find_from_exec(s, pv.as_slice(), from)
}

/// Parse RSS XML content into a list of `NewsItem`.
/// Extracts `<title>`, `<link>`, `<description>`, and `<pubDate>` from each `<item>`.
pub fn parse_rss_items(xml: &str) -> (r: Vec<NewsItem>)
    ensures
        news_view(r@) == rss_items_from(xml@, 0),
{
    let x = chars_of(xml);
    let xn = x.len();
    let mut results: Vec<NewsItem> = Vec::new();
    let mut from: usize = 0;
    proof {
        reveal_strlit("</item>");
    }
    assert(news_view(results@) =~= Seq::<NewsItemV>::empty());
    loop
        invariant
            from <= x@.len(),
            xn == x@.len(),
            x@ == xml@,
            rss_items_from(xml@, 0) == news_view(results@) + rss_items_from(xml@, from as int),
        ensures
            rss_items_from(xml@, 0) == news_view(results@),
        decreases x@.len() - from,
    {
        proof {
            reveal_strlit("</item>");
        }
        let st = match find_lit_from(x.as_slice(), "<item>", from) {
            Some(k) => k,
            None => match find_lit_from(x.as_slice(), "<item ", from) {
                Some(k) => k,
                None => {
                    assert(rss_items_from(xml@, from as int) =~= Seq::<NewsItemV>::empty());
                    assert(news_view(results@) + Seq::<NewsItemV>::empty() =~= news_view(results@));
                    break;
                },
            },
        };
        assert(item_start_from(xml@, from as int) == Some(st as int));
        let e0 = match find_lit_from(x.as_slice(), "</item>", st) {
            Some(e0) => e0,
            None => {
                assert(news_view(results@) + Seq::<NewsItemV>::empty() =~= news_view(results@));
                break;
            },
        };
        assert("</item>"@.len() == 7);
        assert(e0 + 7 <= xn);
        let e = e0 + 7;
        let item = slice_of(x.as_slice(), st, e);
        let ghost before = news_view(results@);
        match rss_item_exec(item.as_slice()) {
            Some(it) => {
                let ghost iv = it@;
                results.push(it);
                assert(news_view(results@) =~= before.push(iv));
                assert(before + (seq![iv] + rss_items_from(xml@, e as int)) =~= before.push(iv)
                    + rss_items_from(xml@, e as int));
            },
            None => {},
        }
        from = e;
    }
    assert(rss_items_from(xml@, 0) == news_view(results@));
    results
}

// ───────────────────────── press releases ─────────────────────────

/// A single press release item parsed from the API response.
#[derive(Debug, Clone)]
pub struct PressRelease {
    pub title: String,
    pub ministry: String,
    pub date: String,
    pub link: String,
    pub summary: String,
}

pub struct PressReleaseV {
    pub title: Seq<char>,
    pub ministry: Seq<char>,
    pub date: Seq<char>,
    pub link: Seq<char>,
    pub summary: Seq<char>,
}

impl View for PressRelease {
    type V = PressReleaseV;

    open spec fn view(&self) -> PressReleaseV {
        PressReleaseV {
            title: self.title@,
            ministry: self.ministry@,
            date: self.date@,
            link: self.link@,
            summary: self.summary@,
        }
    }
}

pub open spec fn press_view(items: Seq<PressRelease>) -> Seq<PressReleaseV> {
    items.map_values(|x: PressRelease| x@)
}

/// `str::ends_with`.
pub open spec fn ends_with(s: Seq<char>, p: Seq<char>) -> bool {
    p.len() <= s.len() && s.skip(s.len() - p.len()) == p
}

/// What `extract_xml_tag(xml, tag)` returns: the text between the first
/// `<tag>` and the `</tag>` after it, trimmed, unwrapped from a whole
/// `<![CDATA[...]]>` section, with tags stripped.
pub open spec fn press_tag(xml: Seq<char>, tag: Seq<char>) -> Option<Seq<char>> {
    let open = seq!['<'] + tag + seq!['>'];
    let close = "</"@ + tag + seq!['>'];
    match find(xml, open) {
        None => None,
        Some(st) => {
            let after = xml.skip(st + open.len());
            match find(after, close) {
                None => None,
                Some(e) => {
                    let c = trim(after.take(e));
                    let inner = if starts_with(c, "<![CDATA["@) && ends_with(c, "]]>"@) {
                        c.subrange(9, c.len() - 3)
                    } else {
                        c
                    };
                    Some(strip_html(inner))
                },
            }
        },
    }
}

/// The first of the tags that `press_tag` finds, or nothing.
pub open spec fn press_field(item: Seq<char>, tags: Seq<Seq<char>>) -> Seq<char>
    decreases tags.len(),
{
    if tags.len() == 0 {
        seq![]
    } else {
        match press_tag(item, tags[0]) {
            Some(v) => v,
            None => press_field(item, tags.drop_first()),
        }
    }
}

/// One `<item>` piece of the press release feed: none without a title.
pub open spec fn press_release(item: Seq<char>) -> Option<PressReleaseV> {
    let title = press_field(item, seq!["title"@]);
    if title.len() == 0 {
        None
    } else {
        Some(
            PressReleaseV {
                title,
                ministry: press_field(item, seq!["SubName1"@, "Ministry"@]),
                date: press_field(item, seq!["ModDate"@, "Date"@]),
                link: press_field(item, seq!["DetailUrl"@, "Link"@, "OriginalUrl"@]),
                summary: press_field(item, seq!["SubContent1"@, "Description"@]),
            },
        )
    }
}

/// What `parse_press_xml` returns: the releases of the pieces that follow
/// each `<item>`.
pub open spec fn press_items(xml: Seq<char>) -> Seq<PressReleaseV> {
    somes(split_str(xml, "<item>"@).skip(1).map_values(|it: Seq<char>| press_release(it)))
}

proof fn lemma_cdata_len(c: Seq<char>)
    requires
        starts_with(c, "<![CDATA["@),
        ends_with(c, "]]>"@),
    ensures
        c.len() >= 12,
{
    reveal_strlit("<![CDATA[");
    reveal_strlit("]]>");
    if c.len() < 12 {
        let k = c.len() - 3;
        assert(c.skip(k)[0] == ']');
        assert(c.take(9)[k] == c[k]);
    }
}

fn press_tag_chars(x: &[char], tag: &str) -> (r: Option<Vec<char>>)
    ensures
        match r {
            Some(v) => press_tag(x@, tag@) == Some(v@),
            None => press_tag(x@, tag@) is None,
        },
{
    let mut open: Vec<char> = Vec::new();
    open.push('<');
    push_str(&mut open, tag);
    open.push('>');
    let mut close: Vec<char> = Vec::new();
    push_str(&mut close, "</");
    push_str(&mut close, tag);
    close.push('>');
    assert(open@ =~= seq!['<'] + tag@ + seq!['>']);
    assert(close@ =~= "</"@ + tag@ + seq!['>']);
    proof {
        lemma_find_from(x@, open@, 0);
    }
    let st = match find_exec(x, open.as_slice()) {
        Some(p) => p,
        None => return None,
    };
    let xn = x.len();
    assert(st + open@.len() <= xn);
    let after = tail_from(x, st + open.len());
    proof {
        lemma_find_from(after@, close@, 0);
    }
    let e = match find_exec(after.as_slice(), close.as_slice()) {
        Some(e) => e,
        None => return None,
    };
    let head = slice_of(after.as_slice(), 0, e);
    assert(head@ =~= after@.take(e as int));
    let c = trim_vec(head.as_slice());
    let cdo = chars_of("<![CDATA[");
    let cdc = chars_of("]]>");
    let cn = c.len();
    let is_cdata = starts_with_exec(c.as_slice(), cdo.as_slice()) && cn >= 3 && eq_exec(
        slice_of(c.as_slice(), cn - 3, cn).as_slice(),
        cdc.as_slice(),
    );
    proof {
        reveal_strlit("]]>");
        if cn >= 3 {
            assert(c@.subrange(cn - 3, cn as int) =~= c@.skip(cn - 3));
        }
    }
    assert(is_cdata == (starts_with(c@, "<![CDATA["@) && ends_with(c@, "]]>"@)));
    if is_cdata {
        proof {
            lemma_cdata_len(c@);
        }
        let inner = slice_of(c.as_slice(), 9, cn - 3);
        Some(strip_html_chars(inner.as_slice()))
    } else {
        Some(strip_html_chars(c.as_slice()))
    }
}

/// Extract text content between XML tags, e.g. `<tag>content</tag>`.
pub fn extract_xml_tag(xml: &str, tag: &str) -> (r: Option<String>)
    ensures
        match r {
            Some(v) => press_tag(xml@, tag@) == Some(v@),
            None => press_tag(xml@, tag@) is None,
        },
{
    let xv = chars_of(xml);
    match press_tag_chars(xv.as_slice(), tag) {
        Some(v) => Some(string_of(v.as_slice())),
        None => None,
    }
}

fn press_field1(item: &[char], a: &str) -> (r: Vec<char>)
    ensures
        r@ == press_field(item@, seq![a@]),
{
    match press_tag_chars(item, a) {
        Some(v) => v,
        None => {
            assert(seq![a@].drop_first() =~= Seq::<Seq<char>>::empty());
            assert(press_field(item@, Seq::<Seq<char>>::empty()) == Seq::<char>::empty());
            let r: Vec<char> = Vec::new();
            assert(r@ =~= Seq::<char>::empty());
            r
        },
    }
}

fn press_field2(item: &[char], a: &str, b: &str) -> (r: Vec<char>)
    ensures
        r@ == press_field(item@, seq![a@, b@]),
{
    match press_tag_chars(item, a) {
        Some(v) => v,
        None => {
            assert(seq![a@, b@].drop_first() =~= seq![b@]);
            press_field1(item, b)
        },
    }
}

fn press_field3(item: &[char], a: &str, b: &str, c: &str) -> (r: Vec<char>)
    ensures
        r@ == press_field(item@, seq![a@, b@, c@]),
{
    match press_tag_chars(item, a) {
        Some(v) => v,
        None => {
            assert(seq![a@, b@, c@].drop_first() =~= seq![b@, c@]);
            press_field2(item, b, c)
        },
    }
}

fn press_release_exec(item: &[char]) -> (r: Option<PressRelease>)
    ensures
        match r {
            Some(it) => press_release(item@) == Some(it@),
            None => press_release(item@) is None,
        },
{
    let title = press_field1(item, "title");
    if title.len() == 0 {
        return None;
    }
    let ministry = press_field2(item, "SubName1", "Ministry");
    let date = press_field2(item, "ModDate", "Date");
    let link = press_field3(item, "DetailUrl", "Link", "OriginalUrl");
    let summary = press_field2(item, "SubContent1", "Description");
    Some(
        PressRelease {
            title: string_of(title.as_slice()),
            ministry: string_of(ministry.as_slice()),
            date: string_of(date.as_slice()),
            link: string_of(link.as_slice()),
            summary: string_of(summary.as_slice()),
        },
    )
}

/// Parse the XML response from the press release API.
/// The API returns XML with <item> elements containing <title>, <Ministry>, <ModDate>, <Link>, <Description>.
pub fn parse_press_xml(xml: &str) -> (r: Vec<PressRelease>)
    ensures
        press_view(r@) == press_items(xml@),
{
    let x = chars_of(xml);
    let pat = chars_of("<item>");
    proof {
        reveal_strlit("<item>");
    }
    let pieces = split_str_exec(x.as_slice(), pat.as_slice());
    let ghost pv = pieces.deep_view().skip(1);
    let ghost f = |it: Seq<char>| press_release(it);
    let mut results: Vec<PressRelease> = Vec::new();
    let mut j: usize = 1;
    assert(pv.take(0).map_values(f) =~= Seq::<Option<PressReleaseV>>::empty());
    assert(press_view(results@) =~= Seq::<PressReleaseV>::empty());
    while j < pieces.len()
        invariant
            1 <= j <= pieces@.len() || (j == 1 && pieces@.len() == 0),
            pv == pieces.deep_view().skip(1),
            f == (|it: Seq<char>| press_release(it)),
            press_view(results@) == somes(pv.take(j - 1).map_values(f)),
        decreases pieces@.len() - j,
    {
        let item = press_release_exec(pieces[j].as_slice());
        assert(pieces[j as int]@ == pv[j - 1]);
        assert(pv.take(j as int).map_values(f) =~= pv.take(j - 1).map_values(f).push(f(pv[j - 1])));
        proof {
            lemma_somes_push(pv.take(j - 1).map_values(f), f(pv[j - 1]));
        }
        let ghost before = results@;
        match item {
            Some(it) => {
                results.push(it);
                assert(press_view(results@) =~= press_view(before).push(it@));
            },
            None => {},
        }
        j += 1;
    }
    if pieces.len() > 0 {
        assert(pv.take(pieces@.len() - 1) =~= pv);
    } else {
        assert(pv =~= Seq::<Seq<char>>::empty());
        assert(pv.take(0) =~= pv);
    }
    results
}

// ───────────────────────── where results are kept ─────────────────────────

/// Directory for cached research results.
pub const RESEARCH_DIR: &'static str = ".journalist/research";

/// Directory for cached factcheck results.
pub const FACTCHECK_DIR: &'static str = ".journalist/factcheck";

/// Directory where clipped articles are saved.
pub const CLIPS_DIR: &'static str = ".journalist/clips";

/// Trends directory under .journalist/.
pub const TRENDS_DIR: &'static str = ".journalist/trends";

/// Where SNS results are cached.
pub const SNS_CACHE_DIR: &'static str = ".journalist/sns";

/// RSS feed URLs for major Korean wire services.
pub const WIRE_FEEDS: [(&'static str, &'static str); 3] = [
    ("연합뉴스", "https://www.yna.co.kr/rss/news.xml"),
    ("뉴시스", "https://newsis.com/rss/all_rss.xml"),
    ("뉴스1", "https://www.news1.kr/rss/latest"),
];

/// `<dir>/<date>_<slug>.md`, with `fallback` for an empty slug.
pub open spec fn dated_file(dir: Seq<char>, date: Seq<char>, slug: Seq<char>, fallback: Seq<char>) -> Seq<char> {
    dir + "/"@ + date + "_"@ + (if slug.len() == 0 {
        fallback
    } else {
        slug
    }) + ".md"@
}

fn dated_file_exec(dir: &str, date: &str, slug: &str, fallback: &str) -> (r: String)
    ensures
        r@ == dated_file(dir@, date@, slug@, fallback@),
{
    let mut v = chars_of(dir);
    push_str(&mut v, "/");
    push_str(&mut v, date);
    push_str(&mut v, "_");
    let sv = chars_of(slug);
    if sv.len() == 0 {
        push_str(&mut v, fallback);
    } else {
        push_all(&mut v, sv.as_slice());
    }
    push_str(&mut v, ".md");
    assert(v@ =~= dated_file(dir@, date@, slug@, fallback@));
    string_of(v.as_slice())
}

/// Build the research file path with an explicit date string:
/// `.journalist/research/YYYY-MM-DD_<slug>.md`.
pub fn research_file_path_with_date(topic: &str, date: &str) -> (r: String)
    ensures
        r@ == dated_file(RESEARCH_DIR@, date@, slug_of(topic@, 50), "research"@),
{
    let slug = topic_to_slug(topic, 50);
    dated_file_exec(RESEARCH_DIR, date, slug.as_str(), "research")
}

/// Build the factcheck file path with an explicit date string.
pub fn factcheck_file_path_with_date(claim: &str, date: &str) -> (r: String)
    ensures
        r@ == dated_file(FACTCHECK_DIR@, date@, slug_of(claim@, 50), "factcheck"@),
{
    let slug = topic_to_slug(claim, 50);
    dated_file_exec(FACTCHECK_DIR, date, slug.as_str(), "factcheck")
}

/// Build the trend file path with an explicit date string.
pub fn trend_file_path_with_date(keyword: &str, date: &str) -> (r: String)
    ensures
        r@ == dated_file(TRENDS_DIR@, date@, slug_of(keyword@, 50), "trend"@),
{
    let slug = topic_to_slug(keyword, 50);
    dated_file_exec(TRENDS_DIR, date, slug.as_str(), "trend")
}

/// `str::trim_start_matches(p)`: `s` without any number of leading `p`s.
pub open spec fn strip_prefixes(s: Seq<char>, p: Seq<char>) -> Seq<char>
    decreases s.len(),
{
    if p.len() > 0 && starts_with(s, p) {
        strip_prefixes(s.skip(p.len() as int), p)
    } else {
        s
    }
}

pub(crate) fn strip_prefixes_exec(s: &[char], p: &str) -> (r: Vec<char>)
    ensures
        r@ == strip_prefixes(s@, p@),
{
    let pv = chars_of(p);
    let mut i: usize = 0;
    assert(s@.skip(0) =~= s@);
    while pv.len() > 0 && i <= s.len() && starts_with_exec(tail_from(s, i).as_slice(), pv.as_slice())
        invariant
            i <= s@.len(),
            pv@ == p@,
            strip_prefixes(s@, p@) == strip_prefixes(s@.skip(i as int), p@),
        decreases s@.len() - i,
    {
        let ghost t = s@.skip(i as int);
        assert(t.skip(pv@.len() as int) =~= s@.skip(i + pv@.len()));
        i += pv.len();
    }
    tail_from(s, i)
}

/// A URL character kept in a clip name, or `-` for a separator.
pub open spec fn url_slug_char(c: char) -> char {
    if c == '/' || c == '?' || c == '&' || c == '=' || c == '#' || c == '%' || c == ':' || c == '.' {
        '-'
    } else {
        c
    }
}

/// The slug of a clip's URL before it is cut: the scheme dropped,
/// separators as `-`, no `-` at either end.
pub open spec fn clip_slug_full(url: Seq<char>) -> Seq<char> {
    trim_char(
        strip_prefixes(strip_prefixes(url, "https://"@), "http://"@).map_values(
            |c: char| url_slug_char(c),
        ),
        '-',
    )
}

/// The slug cut to its first 80 bytes (without trailing `-`).
pub open spec fn clip_slug(url: Seq<char>) -> Seq<char> {
    let s = clip_slug_full(url);
    if byte_len(s) > 80 {
        strip_trail(s.take(boundary_index(s, 80)), '-')
    } else {
        s
    }
}

/// Cutting the slug at 80 bytes falls between characters.
pub open spec fn clip_cut_ok(url: Seq<char>) -> bool {
    byte_len(clip_slug_full(url)) > 80 ==> byte_boundary(clip_slug_full(url), 80)
}

/// `.journalist/clips/<date>_<slug>.md`.
pub open spec fn clip_path_text(url: Seq<char>, date: Seq<char>) -> Seq<char> {
    CLIPS_DIR@ + "/"@ + date + "_"@ + clip_slug(url) + ".md"@
}

fn clip_slug_full_exec(url: &str) -> (r: Vec<char>)
    ensures
        r@ == clip_slug_full(url@),
{
    let uv = chars_of(url);
    let a = strip_prefixes_exec(uv.as_slice(), "https://");
    let b = strip_prefixes_exec(a.as_slice(), "http://");
    let mut m: Vec<char> = Vec::new();
    let mut i: usize = 0;
    while i < b.len()
        invariant
            i <= b@.len(),
            m@ == b@.take(i as int).map_values(|c: char| url_slug_char(c)),
        decreases b@.len() - i,
    {
        let c = b[i];
        let d = if c == '/' || c == '?' || c == '&' || c == '=' || c == '#' || c == '%' || c == ':'
            || c == '.' {
            '-'
        } else {
            c
        };
        m.push(d);
        assert(b@.take(i + 1).map_values(|c: char| url_slug_char(c)) =~= b@.take(i as int).map_values(
            |c: char| url_slug_char(c),
        ).push(url_slug_char(c)));
        i += 1;
    }
    assert(b@.take(b@.len() as int) =~= b@);
    trim_char_exec(m.as_slice(), '-')
}

fn clip_path_from(full: Vec<char>, date: &str, k: Option<usize>) -> (r: String)
    requires
        byte_len(full@) > 80 ==> (k matches Some(x) && byte_boundary(full@, 80) && x == boundary_index(full@, 80)),
    ensures
        r@ == CLIPS_DIR@ + "/"@ + date@ + "_"@ + (if byte_len(full@) > 80 {
            strip_trail(full@.take(boundary_index(full@, 80)), '-')
        } else {
            full@
        }) + ".md"@,
{
    let slug = if byte_len_exceeds(full.as_slice(), 80) {
        let k = match k {
            Some(k) => k,
            None => 0,
        };
        let cut = slice_of(full.as_slice(), 0, k);
        assert(cut@ =~= full@.take(k as int));
        strip_trail_exec(cut.as_slice(), '-')
    } else {
        full
    };
    let mut v = chars_of(CLIPS_DIR);
    push_str(&mut v, "/");
    push_str(&mut v, date);
    push_str(&mut v, "_");
    push_all(&mut v, slug.as_slice());
    push_str(&mut v, ".md");
    string_of(v.as_slice())
}

/// Build the file path for a clip from a URL and date.
pub fn clip_file_path(url: &str, date: &str) -> (r: String)
    requires
        clip_cut_ok(url@),
    ensures
        r@ == clip_path_text(url@, date@),
{
    let full = clip_slug_full_exec(url);
    let k = boundary_exec(full.as_slice(), 80);
    clip_path_from(full, date, k)
}

/// The clip path of `url`, when its slug can be cut at 80 bytes between
/// characters (`None` where cutting there would split a character).
pub fn try_clip_file_path(url: &str, date: &str) -> (r: Option<String>)
    ensures
        match r {
            Some(p) => clip_cut_ok(url@) && p@ == clip_path_text(url@, date@),
            None => !clip_cut_ok(url@),
        },
{
    let full = clip_slug_full_exec(url);
    let k = boundary_exec(full.as_slice(), 80);
    if byte_len_exceeds(full.as_slice(), 80) && k.is_none() {
        return None;
    }
    Some(clip_path_from(full, date, k))
}

/// Generate file path for saving a news item as a clip.
pub fn news_clip_path(item: &NewsItem, date: &str) -> (r: String)
    requires
        clip_cut_ok(item@.link),
    ensures
        r@ == clip_path_text(item@.link, date@),
{
    clip_file_path(item.link.as_str(), date)
}

/// What `rss_cache_filename(url)` returns: the slug (at most 60
/// characters) of the URL without its scheme, or `feed`.
pub open spec fn rss_cache_name(url: Seq<char>) -> Seq<char> {
    let slug = slug_of(strip_prefixes(strip_prefixes(url, "https://"@), "http://"@), 60);
    if slug.len() == 0 {
        "feed"@
    } else {
        slug
    }
}

/// Derive a cache filename from a feed URL.
pub fn rss_cache_filename(url: &str) -> (r: String)
    ensures
        r@ == rss_cache_name(url@),
{
    let uv = chars_of(url);
    let a = strip_prefixes_exec(uv.as_slice(), "https://");
    let b = strip_prefixes_exec(a.as_slice(), "http://");
    let bs = string_of(b.as_slice());
    let slug = topic_to_slug(bs.as_str(), 60);
    let sv = chars_of(slug.as_str());
    if sv.len() == 0 {
        string_of(chars_of("feed").as_slice())
    } else {
        slug
    }
}

/// `.journalist/sns/<subcmd>_<keyword with unsafe characters as _>_<date>.md`.
pub open spec fn sns_cache_text(subcmd: Seq<char>, keyword: Seq<char>, date: Seq<char>) -> Seq<char> {
    SNS_CACHE_DIR@ + "/"@ + subcmd + "_"@ + keyword.map_values(|c: char| safe_char(c)) + "_"@ + date
        + ".md"@
}

/// The cache file of an SNS result on a given day.
pub fn sns_cache_path_on(subcmd: &str, keyword: &str, date: &str) -> (r: String)
    ensures
        r@ == sns_cache_text(subcmd@, keyword@, date@),
{
    let kv = chars_of(keyword);
    let mut m: Vec<char> = Vec::new();
    let mut i: usize = 0;
    while i < kv.len()
        invariant
            i <= kv@.len(),
            m@ == kv@.take(i as int).map_values(|c: char| safe_char(c)),
        decreases kv@.len() - i,
    {
        let c = kv[i];
        let keep = is_alphanumeric(c) || c == '_' || c == '-';
        m.push(if keep {
            c
        } else {
            '_'
        });
        assert(kv@.take(i + 1).map_values(|c: char| safe_char(c)) =~= kv@.take(i as int).map_values(
            |c: char| safe_char(c),
        ).push(safe_char(c)));
        i += 1;
    }
    assert(kv@.take(kv@.len() as int) =~= kv@);
    let mut v = chars_of(SNS_CACHE_DIR);
    push_str(&mut v, "/");
    push_str(&mut v, subcmd);
    push_str(&mut v, "_");
    push_all(&mut v, m.as_slice());
    push_str(&mut v, "_");
    push_str(&mut v, date);
    push_str(&mut v, ".md");
    string_of(v.as_slice())
}

/// Build the cache file path for a given subcommand and keyword, dated
/// today (whatever day the clock reads).
pub fn sns_cache_path(subcmd: &str, keyword: &str) -> (r: String)
    ensures
        exists|days: int| 0 <= days && r@ == sns_cache_text(subcmd@, keyword@, epoch_date_text(days)),
{
    let today = today_str();
    sns_cache_path_on(subcmd, keyword, today.as_str())
}

/// Return the cache directory path for SNS results.
pub fn sns_cache_dir() -> (r: String)
    ensures
        r@ == SNS_CACHE_DIR@,
{
    string_of(chars_of(SNS_CACHE_DIR).as_slice())
}

/// What `/sns <args>` asks for.
#[derive(Debug, Clone, PartialEq, Eq)]
pub enum SnsRequest {
    /// `/sns trend`: the real-time trend keywords.
    Trend,
    /// `/sns search <keyword>` (`None`: no keyword given).
    Search(Option<String>),
    /// `/sns buzz <keyword>` (`None`: no keyword given).
    Buzz(Option<String>),
    /// `/sns` or `/sns help`.
    Help,
    /// Any other first word.
    Unknown(String),
}

pub enum SnsRequestV {
    Trend,
    Search(Option<Seq<char>>),
    Buzz(Option<Seq<char>>),
    Help,
    Unknown(Seq<char>),
}

impl View for SnsRequest {
    type V = SnsRequestV;

    open spec fn view(&self) -> SnsRequestV {
        match self {
            SnsRequest::Trend => SnsRequestV::Trend,
            SnsRequest::Search(k) => SnsRequestV::Search(crate::editorial::opt_view(*k)),
            SnsRequest::Buzz(k) => SnsRequestV::Buzz(crate::editorial::opt_view(*k)),
            SnsRequest::Help => SnsRequestV::Help,
            SnsRequest::Unknown(w) => SnsRequestV::Unknown(w@),
        }
    }
}

/// The keyword after the subcommand word `sub`, when there is one.
pub open spec fn sns_keyword(args: Seq<char>, sub: Seq<char>) -> Option<Seq<char>> {
    let k = crate::text::command_arg(args, sub);
    if k.len() == 0 {
        None
    } else {
        Some(k)
    }
}

/// What `/sns <args>` asks for: routed by the first word after `/sns`
/// (`help` when there is none).
pub open spec fn sns_request_of(input: Seq<char>) -> SnsRequestV {
    let args = crate::text::command_arg(input, "/sns"@);
    let ws = crate::text::words(args);
    let sub = if ws.len() > 0 {
        ws[0]
    } else {
        "help"@
    };
    if sub == "trend"@ {
        SnsRequestV::Trend
    } else if sub == "search"@ {
        SnsRequestV::Search(sns_keyword(args, "search"@))
    } else if sub == "buzz"@ {
        SnsRequestV::Buzz(sns_keyword(args, "buzz"@))
    } else if sub == "help"@ {
        SnsRequestV::Help
    } else {
        SnsRequestV::Unknown(sub)
    }
}

fn sns_keyword_exec(args: &[char], sub: &str) -> (r: Option<String>)
    ensures
        crate::editorial::opt_view(r) == sns_keyword(args@, sub@),
{
    let a = string_of(args);
    let k = crate::text::command_arg_exec(a.as_str(), sub);
    if k.len() == 0 {
        None
    } else {
        Some(string_of(k.as_slice()))
    }
}

/// Read what `/sns <args>` asks for.
pub fn sns_request(input: &str) -> (r: SnsRequest)
    ensures
        r@ == sns_request_of(input@),
{
    let args = crate::text::command_arg_exec(input, "/sns");
    let ws = crate::text::split_ws(args.as_slice());
    let sub = if ws.len() > 0 {
        slice_of(ws[0].as_slice(), 0, ws[0].len())
    } else {
        chars_of("help")
    };
    assert(sub@ == (if ws@.len() > 0 { crate::text::words(args@)[0] } else { "help"@ }));
    if crate::text::eq_str(sub.as_slice(), "trend") {
        SnsRequest::Trend
    } else if crate::text::eq_str(sub.as_slice(), "search") {
        SnsRequest::Search(sns_keyword_exec(args.as_slice(), "search"))
    } else if crate::text::eq_str(sub.as_slice(), "buzz") {
        SnsRequest::Buzz(sns_keyword_exec(args.as_slice(), "buzz"))
    } else if crate::text::eq_str(sub.as_slice(), "help") {
        SnsRequest::Help
    } else {
        SnsRequest::Unknown(string_of(sub.as_slice()))
    }
}

// ───────────────────────── Naver search headlines ─────────────────────────

/// HTML entities decoded in a headline.
pub open spec fn decode_entities(t: Seq<char>) -> Seq<char> {
    replace_all(
        replace_all(
            replace_all(
                replace_all(replace_all(t, "&amp;"@, "&"@), "&lt;"@, "<"@),
                "&gt;"@,
                ">"@,
            ),
            "&quot;"@,
            "\""@,
        ),
        "&#39;"@,
        "'"@,
    )
}

/// The headline of a piece after `class="news_tit"`: the non-empty
/// `title="..."` value, decoded.
pub open spec fn chunk_title(chunk: Seq<char>) -> Option<Seq<char>> {
    match find(chunk, "title=\""@) {
        None => None,
        Some(ts) => {
            let after = chunk.skip(ts + 7);
            match find(after, seq!['"']) {
                None => None,
                Some(e) => {
                    let title = after.take(e);
                    if title.len() == 0 {
                        None
                    } else {
                        Some(decode_entities(title))
                    }
                },
            }
        },
    }
}

/// The headlines of the pieces, stopping once `max` are found.
pub open spec fn headlines_of(chunks: Seq<Seq<char>>, max: nat) -> Seq<Seq<char>>
    decreases chunks.len(),
{
    if chunks.len() == 0 {
        seq![]
    } else {
        let acc = headlines_of(chunks.drop_last(), max);
        if acc.len() >= max {
            acc
        } else {
            match chunk_title(chunks.last()) {
                Some(t) => acc.push(t),
                None => acc,
            }
        }
    }
}

fn chunk_title_exec(chunk: &[char]) -> (r: Option<Vec<char>>)
    ensures
        match r {
            Some(t) => chunk_title(chunk@) == Some(t@),
            None => chunk_title(chunk@) is None,
        },
{
    proof {
        reveal_strlit("title=\"");
        reveal_strlit("&amp;");
        reveal_strlit("&lt;");
        reveal_strlit("&gt;");
        reveal_strlit("&quot;");
        reveal_strlit("&#39;");
    }
    let ts = match find_lit(chunk, "title=\"") {
        Some(ts) => ts,
        None => return None,
    };
    let cn = chunk.len();
    assert(ts + 7 <= cn);
    let after = tail_from(chunk, ts + 7);
    let e = match find_char_from(after.as_slice(), '"', 0) {
        Some(e) => e,
        None => return None,
    };
    proof {
        lemma_find_from(after@, seq!['"'], 0);
    }
    let title = slice_of(after.as_slice(), 0, e);
    assert(title@ =~= after@.take(e as int));
    if title.len() == 0 {
        return None;
    }
    let a = replace_lit(title.as_slice(), "&amp;", "&");
    let b = replace_lit(a.as_slice(), "&lt;", "<");
    let c = replace_lit(b.as_slice(), "&gt;", ">");
    let d = replace_lit(c.as_slice(), "&quot;", "\"");
    let f = replace_lit(d.as_slice(), "&#39;", "'");
    Some(f)
}

/// Extract news headlines from Naver search HTML.
pub fn extract_naver_news_headlines(html: &str, max: usize) -> (r: Vec<String>)
    ensures
        r@.map_values(|t: String| t@) == headlines_of(
            split_str(html@, "class=\"news_tit\""@),
            max as nat,
        ),
{
    let hv = chars_of(html);
    let pat = chars_of("class=\"news_tit\"");
    proof {
        reveal_strlit("class=\"news_tit\"");
    }
    let chunks = split_str_exec(hv.as_slice(), pat.as_slice());
    let ghost cv = chunks.deep_view();
    let mut out: Vec<String> = Vec::new();
    let mut i: usize = 0;
    assert(cv.take(0) =~= Seq::<Seq<char>>::empty());
    assert(out@.map_values(|t: String| t@) =~= Seq::<Seq<char>>::empty());
    while i < chunks.len()
        invariant
            i <= chunks@.len(),
            cv == chunks.deep_view(),
            out@.map_values(|t: String| t@) == headlines_of(cv.take(i as int), max as nat),
        decreases chunks@.len() - i,
    {
        assert(cv.take(i + 1).drop_last() =~= cv.take(i as int));
        assert(cv.take(i + 1).last() == chunks[i as int]@);
        if out.len() < max {
            match chunk_title_exec(chunks[i].as_slice()) {
                Some(t) => {
                    let ghost before = out@.map_values(|t: String| t@);
                    let ts = string_of(t.as_slice());
                    out.push(ts);
                    assert(out@.map_values(|t: String| t@) =~= before.push(t@));
                },
                None => {},
            }
        }
        i += 1;
    }
    assert(cv.take(chunks@.len() as int) =~= cv);
    out
}

} // verus!
