//! Korean public data API response handling: BIG KINDS news search and
//! trends, DART disclosures, National Assembly bills, URL encoding.
use vstd::prelude::*;
use vstd::utf8::encode_utf8;
use crate::research::{json_extract, json_extract_chars, json_field, json_field_lit, strip_html, strip_html_chars};
use crate::scan::{close_index, json_objects, matching_bracket_index, split_objects};
use crate::text::{
    all_digits, boundary_exec, boundary_index, byte_boundary, byte_len, byte_len_exceeds, chars_of,
    dec, find, find_char_from, find_exec, find_from, find_from_exec, is_digit, lemma_find_from,
    lemma_somes_push, matches_at, parse_uint, parse_uint_exec, push_all, push_dec, push_repeat,
    push_str, repeat, slice_of, somes, string_of, trim, trim_vec,
};

verus! {

// ───────────────────────── array location ─────────────────────────

/// The JSON array that follows the first `marker`: from the first `[` after
/// the marker to the bracket that closes it (or to the end of the text).
pub open spec fn array_after(json: Seq<char>, marker: Seq<char>) -> Option<Seq<char>> {
    match find(json, marker) {
        None => None,
        Some(d) => match find_from(json, seq!['['], d) {
            None => None,
            Some(a) => {
                let arr = json.skip(a);
                Some(arr.take(close_index(arr) + 1))
            },
        },
    }
}

fn array_after_exec(json: &[char], marker: &str) -> (r: Option<Vec<char>>)
    ensures
        match r {
            Some(v) => array_after(json@, marker@) == Some(v@),
            None => array_after(json@, marker@) is None,
        },
{
    let m = chars_of(marker);
    let d = match find_exec(json, m.as_slice()) {
        Some(d) => d,
        None => return None,
    };
    let a = match find_char_from(json, '[', d) {
        Some(a) => a,
        None => return None,
    };
    proof {
        lemma_find_from(json@, seq!['['], d as int);
    }
    let arr = slice_of(json, a, json.len());
    assert(arr@ =~= json@.skip(a as int));
    let e = match matching_bracket_index(arr.as_slice()) {
        Some(e) => e,
        None => arr.len() - 1,
    };
    Some(slice_of(arr.as_slice(), 0, e + 1))
}

// ───────────────────────── BIG KINDS ─────────────────────────

/// A single BIG KINDS search result.
#[derive(Debug, Clone)]
pub struct BigKindsItem {
    pub title: String,
    pub provider: String,
    pub date: String,
    pub url: String,
    pub summary: String,
}

pub struct BigKindsItemV {
    pub title: Seq<char>,
    pub provider: Seq<char>,
    pub date: Seq<char>,
    pub url: Seq<char>,
    pub summary: Seq<char>,
}

impl View for BigKindsItem {
    type V = BigKindsItemV;

    open spec fn view(&self) -> BigKindsItemV {
        BigKindsItemV {
            title: self.title@,
            provider: self.provider@,
            date: self.date@,
            url: self.url@,
            summary: self.summary@,
        }
    }
}

/// A trend data point for BIG KINDS trend analysis.
#[derive(Debug, Clone)]
pub struct BigKindsTrend {
    pub date: String,
    pub count: u64,
}

pub struct BigKindsTrendV {
    pub date: Seq<char>,
    pub count: u64,
}

impl View for BigKindsTrend {
    type V = BigKindsTrendV;

    open spec fn view(&self) -> BigKindsTrendV {
        BigKindsTrendV { date: self.date@, count: self.count }
    }
}

/// A related keyword of BIG KINDS: the keyword and its weight as the
/// response writes it (a decimal text; empty when absent).
#[derive(Debug, Clone)]
pub struct BigKindsRelated {
    pub keyword: String,
    pub weight: String,
}

pub struct BigKindsRelatedV {
    pub keyword: Seq<char>,
    pub weight: Seq<char>,
}

impl View for BigKindsRelated {
    type V = BigKindsRelatedV;

    open spec fn view(&self) -> BigKindsRelatedV {
        BigKindsRelatedV { keyword: self.keyword@, weight: self.weight@ }
    }
}

/// The first 200 characters of `c`, with `…` added when `c` is longer than
/// 200 bytes.
pub open spec fn summary_of(c: Seq<char>) -> Seq<char> {
    let t = if c.len() > 200 {
        c.take(200)
    } else {
        c
    };
    if byte_len(c) > 200 {
        t + "…"@
    } else {
        t
    }
}

/// What `parse_single_bigkinds_item` gives for one document object.
pub open spec fn bigkinds_item(obj: Seq<char>) -> Option<BigKindsItemV> {
    let title = json_field(obj, "TITLE"@);
    let summary = match json_extract(obj, "CONTENT"@) {
        Some(c) => summary_of(c),
        None => seq![],
    };
    if title.len() == 0 {
        None
    } else {
        Some(
            BigKindsItemV {
                title: strip_html(title),
                provider: json_field(obj, "PROVIDER"@),
                date: json_field(obj, "DATE"@),
                url: json_field(obj, "PROVIDER_LINK_PAGE"@),
                summary: strip_html(summary),
            },
        )
    }
}

fn summary_exec(c: &[char]) -> (r: Vec<char>)
    ensures
        r@ == summary_of(c@),
{
    let mut t = if c.len() > 200 {
        slice_of(c, 0, 200)
    } else {
        slice_of(c, 0, c.len())
    };
    assert(c@.subrange(0, c@.len() as int) =~= c@);
    assert(c@.len() > 200 ==> c@.subrange(0, 200) =~= c@.take(200));
    if byte_len_exceeds(c, 200) {
        push_str(&mut t, "…");
    }
    t
}

fn bigkinds_item_chars(obj: &[char]) -> (r: Option<BigKindsItem>)
    ensures
        match r {
            Some(it) => bigkinds_item(obj@) == Some(it@),
            None => bigkinds_item(obj@) is None,
        },
{
    let title = json_field_lit(obj, "TITLE");
    let provider = json_field_lit(obj, "PROVIDER");
    let date = json_field_lit(obj, "DATE");
    let url = json_field_lit(obj, "PROVIDER_LINK_PAGE");
    let key = chars_of("CONTENT");
    let summary = match json_extract_chars(obj, key.as_slice()) {
        Some(c) => summary_exec(c.as_slice()),
        None => Vec::new(),
    };
    if title.len() == 0 {
        return None;
    }
    let t = strip_html_chars(title.as_slice());
    let s = strip_html_chars(summary.as_slice());
    Some(
        BigKindsItem {
            title: string_of(t.as_slice()),
            provider: string_of(provider.as_slice()),
            date: string_of(date.as_slice()),
            url: string_of(url.as_slice()),
            summary: string_of(s.as_slice()),
        },
    )
}

/// Parse a single BIG KINDS document JSON object; `None` when it has no title.
pub fn parse_single_bigkinds_item(obj: &str) -> (r: Option<BigKindsItem>)
    ensures
        match r {
            Some(it) => bigkinds_item(obj@) == Some(it@),
            None => bigkinds_item(obj@) is None,
        },
{
    let o = chars_of(obj);
    bigkinds_item_chars(o.as_slice())
}

/// The items of an array of BIG KINDS documents.
pub open spec fn bigkinds_items(arr: Seq<char>) -> Seq<BigKindsItemV> {
    somes(json_objects(arr, true).map_values(|o: Seq<char>| bigkinds_item(o)))
}

/// A BIG KINDS summary is at most 201 characters: the content cut to its
/// first 200 characters, at most one "…" added, and tags and entities then
/// removed, which never lengthens it.
pub proof fn lemma_bigkinds_summary_short(arr: Seq<char>)
    ensures
        forall|j: int| 0 <= j < bigkinds_items(arr).len() ==> #[trigger] bigkinds_items(arr)[j].summary.len() <= 201,
{
    let objs = json_objects(arr, true).map_values(|o: Seq<char>| bigkinds_item(o));
    assert forall|j: int| 0 <= j < bigkinds_items(arr).len() implies #[trigger] bigkinds_items(arr)[j].summary.len()
        <= 201 by {
        crate::text::lemma_somes_from(objs, j);
        let i = choose|i: int| 0 <= i < objs.len() && objs[i] == Some(somes(objs)[j]);
        let o = json_objects(arr, true)[i];
        let c = match json_extract(o, "CONTENT"@) {
            Some(c) => summary_of(c),
            None => seq![],
        };
        crate::research::lemma_strip_html_shorter(c);
        reveal_strlit("…");
    }
}

fn bigkinds_items_exec(arr: &[char]) -> (r: Vec<BigKindsItem>)
    ensures
        r@.map_values(|x: BigKindsItem| x@) == bigkinds_items(arr@),
{
    let objs = split_objects(arr, true);
    let ghost ov = objs.deep_view();
    let ghost f = |o: Seq<char>| bigkinds_item(o);
    let mut results: Vec<BigKindsItem> = Vec::new();
    let mut j: usize = 0;
    assert(ov.take(0).map_values(f) =~= Seq::<Option<BigKindsItemV>>::empty());
    assert(results@.map_values(|x: BigKindsItem| x@) =~= Seq::<BigKindsItemV>::empty());
    while j < objs.len()
        invariant
            j <= objs@.len(),
            ov == objs.deep_view(),
            ov == json_objects(arr@, true),
            f == (|o: Seq<char>| bigkinds_item(o)),
            results@.map_values(|x: BigKindsItem| x@) == somes(ov.take(j as int).map_values(f)),
        decreases objs@.len() - j,
    {
        let item = bigkinds_item_chars(objs[j].as_slice());
        assert(objs[j as int]@ == ov[j as int]);
        assert(ov.take(j + 1).map_values(f) =~= ov.take(j as int).map_values(f).push(f(ov[j as int])));
        proof {
            lemma_somes_push(ov.take(j as int).map_values(f), f(ov[j as int]));
        }
        let ghost before = results@;
        match item {
            Some(it) => {
                results.push(it);
                assert(results@.map_values(|x: BigKindsItem| x@) =~= before.map_values(
                    |x: BigKindsItem| x@,
                ).push(it@));
            },
            None => {},
        }
        j += 1;
    }
    assert(ov.take(objs@.len() as int) =~= ov);
    results
}

/// Parse BIG KINDS search response JSON into items: the documents of the
/// array after `"docs"` that have a title.
pub fn parse_bigkinds_search(json: &str) -> (r: Vec<BigKindsItem>)
    ensures
        r@.map_values(|x: BigKindsItem| x@) == match array_after(json@, "\"docs\""@) {
            Some(arr) => bigkinds_items(arr),
            None => seq![],
        },
        array_after(json@, "\"docs\""@) matches Some(arr) ==> forall|j: int|
            0 <= j < r@.len() ==> exists|i: int|
                0 <= i < json_objects(arr, true).len() && bigkinds_item_from(
                    #[trigger] bigkinds_view(r@)[j],
                    json_objects(arr, true)[i],
                ),
{
    proof {
        if let Some(arr) = array_after(json@, "\"docs\""@) {
            lemma_bigkinds_fields(arr);
        }
    }
    let j = chars_of(json);
    match array_after_exec(j.as_slice(), "\"docs\"") {
        Some(arr) => bigkinds_items_exec(arr.as_slice()),
        None => {
            let r: Vec<BigKindsItem> = Vec::new();
            assert(r@.map_values(|x: BigKindsItem| x@) =~= Seq::<BigKindsItemV>::empty());
            r
        },
    }
}

/// The trend point read from one `{...}` of a timeline.
/// A quoted count is read as `u64` text, a plain JSON number by its
/// digits; 0 when there is none or it does not fit.
pub open spec fn trend_count(obj: Seq<char>) -> u64 {
    match json_extract(obj, "count"@) {
        Some(c) => match parse_uint(c, u64::MAX as nat) {
            Some(v) => v as u64,
            None => 0,
        },
        None => match crate::research::json_number(obj, "count"@) {
            Some(v) => v as u64,
            None => 0,
        },
    }
}

/// The trend points of the timeline array `arr`, reading from index `from`:
/// each `{` up to the next `}` is one point, kept when it has a date.
pub open spec fn trend_points(arr: Seq<char>, from: int) -> Seq<BigKindsTrendV>
    decreases arr.len() - from,
{
    if from < 0 || from > arr.len() {
        seq![]
    } else {
        match find_from(arr, seq!['{'], from) {
            None => seq![],
            Some(a) => match find_from(arr, seq!['}'], a) {
                None => seq![],
                Some(b) => {
                    proof {
                        lemma_find_from(arr, seq!['{'], from);
                        lemma_find_from(arr, seq!['}'], a);
                    }
                    let obj = arr.subrange(a, b + 1);
                    let date = json_field(obj, "date"@);
                    let rest = trend_points(arr, b + 1);
                    if date.len() > 0 {
                        seq![BigKindsTrendV { date, count: trend_count(obj) }] + rest
                    } else {
                        rest
                    }
                },
            },
        }
    }
}

/// Parse BIG KINDS trend response JSON into trend data points.
pub fn parse_bigkinds_trend(json: &str) -> (r: Vec<BigKindsTrend>)
    ensures
        r@.map_values(|x: BigKindsTrend| x@) == match array_after(json@, "\"timeline\""@) {
            Some(arr) => trend_points(arr, 0),
            None => seq![],
        },
{
    let j = chars_of(json);
    let arr = match array_after_exec(j.as_slice(), "\"timeline\"") {
        Some(a) => a,
        None => {
            let r: Vec<BigKindsTrend> = Vec::new();
            assert(r@.map_values(|x: BigKindsTrend| x@) =~= Seq::<BigKindsTrendV>::empty());
            return r;
        },
    };
    let mut results: Vec<BigKindsTrend> = Vec::new();
    let mut search_from: usize = 0;
    assert(results@.map_values(|x: BigKindsTrend| x@) =~= Seq::<BigKindsTrendV>::empty());
    loop
        invariant
            search_from <= arr@.len(),
            array_after(json@, "\"timeline\""@) == Some(arr@),
            results@.map_values(|x: BigKindsTrend| x@) + trend_points(arr@, search_from as int)
                == trend_points(arr@, 0),
        decreases arr@.len() - search_from,
    {
        let a = match find_char_from(arr.as_slice(), '{', search_from) {
            Some(a) => a,
            None => {
                assert(results@.map_values(|x: BigKindsTrend| x@) =~= results@.map_values(
                    |x: BigKindsTrend| x@,
                ) + Seq::<BigKindsTrendV>::empty());
                return results;
            },
        };
        proof {
            lemma_find_from(arr@, seq!['{'], search_from as int);
        }
        let b = match find_char_from(arr.as_slice(), '}', a) {
            Some(b) => b,
            None => {
                assert(results@.map_values(|x: BigKindsTrend| x@) =~= results@.map_values(
                    |x: BigKindsTrend| x@,
                ) + Seq::<BigKindsTrendV>::empty());
                return results;
            },
        };
        proof {
            lemma_find_from(arr@, seq!['}'], a as int);
        }
        let n = arr.len();
        assert(matches_at(arr@, seq!['}'], b as int));
        assert(b + 1 <= n);
        let obj = slice_of(arr.as_slice(), a, b + 1);
        let date = json_field_lit(obj.as_slice(), "date");
        let key = chars_of("count");
        let count: u64 = match json_extract_chars(obj.as_slice(), key.as_slice()) {
            Some(c) => match parse_uint_exec(c.as_slice(), u64::MAX) {
                Some(v) => v,
                None => 0,
            },
            None => match crate::research::json_number_chars(obj.as_slice(), key.as_slice()) {
                Some(v) => v,
                None => 0,
            },
        };
        let ghost before = results@.map_values(|x: BigKindsTrend| x@);
        if date.len() > 0 {
            let p = BigKindsTrend { date: string_of(date.as_slice()), count };
            results.push(p);
            assert(results@.map_values(|x: BigKindsTrend| x@) =~= before.push(p@));
            assert(before.push(p@) + trend_points(arr@, b + 1) =~= before + (seq![p@]
                + trend_points(arr@, b + 1)));
        }
        search_from = b + 1;
    }
}

/// The related keywords of the node array `arr`, reading from index `from`:
/// each `{` up to the next `}` is one node, kept when it has a name.
pub open spec fn related_nodes(arr: Seq<char>, from: int) -> Seq<BigKindsRelatedV>
    decreases arr.len() - from,
{
    if from < 0 || from > arr.len() {
        seq![]
    } else {
        match find_from(arr, seq!['{'], from) {
            None => seq![],
            Some(a) => match find_from(arr, seq!['}'], a) {
                None => seq![],
                Some(b) => {
                    proof {
                        lemma_find_from(arr, seq!['{'], from);
                        lemma_find_from(arr, seq!['}'], a);
                    }
                    let obj = arr.subrange(a, b + 1);
                    let name = json_field(obj, "name"@);
                    let rest = related_nodes(arr, b + 1);
                    if name.len() > 0 {
                        seq![BigKindsRelatedV { keyword: name, weight: json_field(obj, "weight"@) }] + rest
                    } else {
                        rest
                    }
                },
            },
        }
    }
}

/// Parse BIG KINDS related keywords response. The weight stays the text the
/// response gives; reading it as a number is left to the caller.
pub fn parse_bigkinds_related(json: &str) -> (r: Vec<BigKindsRelated>)
    ensures
        r@.map_values(|x: BigKindsRelated| x@) == match array_after(json@, "\"nodes\""@) {
            Some(arr) => related_nodes(arr, 0),
            None => seq![],
        },
{
    let j = chars_of(json);
    let arr = match array_after_exec(j.as_slice(), "\"nodes\"") {
        Some(a) => a,
        None => {
            let r: Vec<BigKindsRelated> = Vec::new();
            assert(r@.map_values(|x: BigKindsRelated| x@) =~= Seq::<BigKindsRelatedV>::empty());
            return r;
        },
    };
    let mut results: Vec<BigKindsRelated> = Vec::new();
    let mut search_from: usize = 0;
    assert(results@.map_values(|x: BigKindsRelated| x@) =~= Seq::<BigKindsRelatedV>::empty());
    loop
        invariant
            search_from <= arr@.len(),
            array_after(json@, "\"nodes\""@) == Some(arr@),
            results@.map_values(|x: BigKindsRelated| x@) + related_nodes(arr@, search_from as int)
                == related_nodes(arr@, 0),
        decreases arr@.len() - search_from,
    {
        let a = match find_char_from(arr.as_slice(), '{', search_from) {
            Some(a) => a,
            None => {
                assert(results@.map_values(|x: BigKindsRelated| x@) =~= results@.map_values(
                    |x: BigKindsRelated| x@,
                ) + Seq::<BigKindsRelatedV>::empty());
                return results;
            },
        };
        proof {
            lemma_find_from(arr@, seq!['{'], search_from as int);
        }
        let b = match find_char_from(arr.as_slice(), '}', a) {
            Some(b) => b,
            None => {
                assert(results@.map_values(|x: BigKindsRelated| x@) =~= results@.map_values(
                    |x: BigKindsRelated| x@,
                ) + Seq::<BigKindsRelatedV>::empty());
                return results;
            },
        };
        proof {
            lemma_find_from(arr@, seq!['}'], a as int);
        }
        let n = arr.len();
        assert(matches_at(arr@, seq!['}'], b as int));
        assert(b + 1 <= n);
        let obj = slice_of(arr.as_slice(), a, b + 1);
        let name = json_field_lit(obj.as_slice(), "name");
        let weight = json_field_lit(obj.as_slice(), "weight");
        let ghost before = results@.map_values(|x: BigKindsRelated| x@);
        if name.len() > 0 {
            let p = BigKindsRelated { keyword: string_of(name.as_slice()), weight: string_of(weight.as_slice()) };
            results.push(p);
            assert(results@.map_values(|x: BigKindsRelated| x@) =~= before.push(p@));
            assert(before.push(p@) + related_nodes(arr@, b + 1) =~= before + (seq![p@]
                + related_nodes(arr@, b + 1)));
        }
        search_from = b + 1;
    }
}

/// The largest count, or 1 when all are zero (`max().unwrap_or(1).max(1)`).
pub open spec fn max_count(ts: Seq<BigKindsTrendV>) -> nat
    decreases ts.len(),
{
    if ts.len() == 0 {
        1
    } else {
        let m = max_count(ts.drop_last());
        if ts.last().count > m {
            ts.last().count as nat
        } else {
            m
        }
    }
}

/// The filled part of a bar: `count / max` of 30 cells, rounded down.
pub open spec fn bar_len(count: u64, max: nat) -> nat {
    (count as nat * 30) / max
}

/// One chart line: `  <date>   <bar><pad> (<count>건)`.
pub open spec fn chart_line(t: BigKindsTrendV, max: nat) -> Seq<char> {
    "  "@ + t.date + "   "@ + repeat('█', bar_len(t.count, max)) + repeat(
        '░',
        (30 - bar_len(t.count, max)) as nat,
    ) + " ("@ + dec(t.count as nat) + "건)\n"@
}

pub open spec fn chart_lines(ts: Seq<BigKindsTrendV>, max: nat) -> Seq<char>
    decreases ts.len(),
{
    if ts.len() == 0 {
        seq![]
    } else {
        chart_lines(ts.drop_last(), max) + chart_line(ts.last(), max)
    }
}

/// What `format_trend_chart` draws.
pub open spec fn trend_chart(ts: Seq<BigKindsTrendV>) -> Seq<char> {
    if ts.len() == 0 {
        "  데이터 없음"@
    } else {
        chart_lines(ts, max_count(ts))
    }
}

proof fn lemma_max_count(ts: Seq<BigKindsTrendV>)
    ensures
        max_count(ts) >= 1,
        forall|i: int| 0 <= i < ts.len() ==> #[trigger] ts[i].count <= max_count(ts),
        max_count(ts) <= u64::MAX,
    decreases ts.len(),
{
    if ts.len() > 0 {
        lemma_max_count(ts.drop_last());
        assert forall|i: int| 0 <= i < ts.len() implies #[trigger] ts[i].count <= max_count(ts) by {
            if i < ts.len() - 1 {
                assert(ts[i] == ts.drop_last()[i]);
            }
        }
    }
}

proof fn lemma_bar_len(c: nat, d: nat, m: nat)
    requires
        1 <= m,
        c <= d <= m,
    ensures
        (c * 30) / m <= (d * 30) / m <= 30,
        d == m ==> (d * 30) / m == 30,
{
    assert(c * 30 <= d * 30) by (nonlinear_arith)
        requires
            c <= d,
    ;
    assert(d * 30 <= m * 30) by (nonlinear_arith)
        requires
            d <= m,
    ;
    vstd::arithmetic::div_mod::lemma_div_is_ordered((c * 30) as int, (d * 30) as int, m as int);
    vstd::arithmetic::div_mod::lemma_div_is_ordered((d * 30) as int, (m * 30) as int, m as int);
    assert((m * 30) / m == 30) by (nonlinear_arith)
        requires
            1 <= m,
    ;
}

/// The bars of a trend chart: each is at most 30 blocks, so bar and padding
/// make 30 together; the largest count gets the full 30; and a larger count
/// never gets a shorter bar.
pub proof fn lemma_trend_bars(ts: Seq<BigKindsTrendV>)
    ensures
        forall|i: int| 0 <= i < ts.len() ==> #[trigger] bar_len(ts[i].count, max_count(ts)) <= 30,
        forall|i: int| 0 <= i < ts.len() && ts[i].count == max_count(ts) ==> #[trigger] bar_len(ts[i].count, max_count(ts)) == 30,
        forall|i: int, j: int|
            0 <= i < ts.len() && 0 <= j < ts.len() && ts[i].count <= ts[j].count ==> #[trigger] bar_len(ts[i].count, max_count(ts))
                <= #[trigger] bar_len(ts[j].count, max_count(ts)),
{
    lemma_max_count(ts);
    let m = max_count(ts);
    assert forall|i: int| 0 <= i < ts.len() implies #[trigger] bar_len(ts[i].count, m) <= 30 && (ts[i].count == m ==> bar_len(ts[i].count, m) == 30) by {
        lemma_bar_len(ts[i].count as nat, ts[i].count as nat, m);
    }
    assert forall|i: int, j: int|
        0 <= i < ts.len() && 0 <= j < ts.len() && ts[i].count <= ts[j].count implies #[trigger] bar_len(ts[i].count, m)
            <= #[trigger] bar_len(ts[j].count, m) by {
        lemma_bar_len(ts[i].count as nat, ts[j].count as nat, m);
    }
}

/// Format trend data as a simple bar chart.
pub fn format_trend_chart(trends: &[BigKindsTrend]) -> (r: String)
    ensures
        r@ == trend_chart(trends@.map_values(|x: BigKindsTrend| x@)),
{
    let ghost tv = trends@.map_values(|x: BigKindsTrend| x@);
    if trends.len() == 0 {
        let v = chars_of("  데이터 없음");
        return string_of(v.as_slice());
    }
    let mut max_c: u64 = 1;
    let mut i: usize = 0;
    assert(tv.take(0) =~= Seq::<BigKindsTrendV>::empty());
    while i < trends.len()
        invariant
            i <= trends@.len(),
            tv == trends@.map_values(|x: BigKindsTrend| x@),
            max_c as nat == max_count(tv.take(i as int)),
        decreases trends@.len() - i,
    {
        assert(tv.take(i + 1).drop_last() =~= tv.take(i as int));
        if trends[i].count > max_c {
            max_c = trends[i].count;
        }
        i += 1;
    }
    assert(tv.take(trends@.len() as int) =~= tv);
    proof {
        lemma_max_count(tv);
    }
    let mut out: Vec<char> = Vec::new();
    let mut k: usize = 0;
    assert(tv.take(0) =~= Seq::<BigKindsTrendV>::empty());
    while k < trends.len()
        invariant
            k <= trends@.len(),
            tv == trends@.map_values(|x: BigKindsTrend| x@),
            max_c as nat == max_count(tv),
            max_c >= 1,
            forall|m: int| 0 <= m < tv.len() ==> #[trigger] tv[m].count <= max_c,
            out@ == chart_lines(tv.take(k as int), max_c as nat),
        decreases trends@.len() - k,
    {
        let t = &trends[k];
        assert(tv[k as int] == t@);
        assert(tv.take(k + 1).drop_last() =~= tv.take(k as int));
        let bl: u128 = (t.count as u128) * 30 / (max_c as u128);
        assert(tv[k as int].count <= max_c);
        assert(bl as int == (t.count as int) * 30 / (max_c as int));
        assert((t.count as int) * 30 / (max_c as int) <= 30) by (nonlinear_arith)
            requires
                t.count <= max_c,
                max_c >= 1,
        ;
        let bl = bl as usize;
        let ghost before = out@;
        push_str(&mut out, "  ");
        let dv = crate::text::chars_of(t.date.as_str());
        push_all(&mut out, dv.as_slice());
        push_str(&mut out, "   ");
        push_repeat(&mut out, '█', bl);
        push_repeat(&mut out, '░', 30 - bl);
        push_str(&mut out, " (");
        push_dec(&mut out, t.count);
        push_str(&mut out, "건)\n");
        assert(out@ =~= before + chart_line(t@, max_c as nat));
        k += 1;
    }
    assert(tv.take(trends@.len() as int) =~= tv);
    string_of(out.as_slice())
}

// ───────────────────────── DART ─────────────────────────

/// A single DART disclosure item.
#[derive(Debug, Clone)]
pub struct DartItem {
    pub corp_name: String,
    pub report_nm: String,
    pub rcept_no: String,
    pub rcept_dt: String,
    pub flr_nm: String,
}

pub struct DartItemV {
    pub corp_name: Seq<char>,
    pub report_nm: Seq<char>,
    pub rcept_no: Seq<char>,
    pub rcept_dt: Seq<char>,
    pub flr_nm: Seq<char>,
}

impl View for DartItem {
    type V = DartItemV;

    open spec fn view(&self) -> DartItemV {
        DartItemV {
            corp_name: self.corp_name@,
            report_nm: self.report_nm@,
            rcept_no: self.rcept_no@,
            rcept_dt: self.rcept_dt@,
            flr_nm: self.flr_nm@,
        }
    }
}

/// What `parse_single_dart_item` gives: the five fields, unless both the
/// company name and the report name are empty.
pub open spec fn dart_item(obj: Seq<char>) -> Option<DartItemV> {
    let corp_name = json_field(obj, "corp_name"@);
    let report_nm = json_field(obj, "report_nm"@);
    if corp_name.len() == 0 && report_nm.len() == 0 {
        None
    } else {
        Some(
            DartItemV {
                corp_name,
                report_nm,
                rcept_no: json_field(obj, "rcept_no"@),
                rcept_dt: json_field(obj, "rcept_dt"@),
                flr_nm: json_field(obj, "flr_nm"@),
            },
        )
    }
}

fn dart_item_chars(obj: &[char]) -> (r: Option<DartItem>)
    ensures
        match r {
            Some(it) => dart_item(obj@) == Some(it@),
            None => dart_item(obj@) is None,
        },
{
    let corp_name = json_field_lit(obj, "corp_name");
    let report_nm = json_field_lit(obj, "report_nm");
    let rcept_no = json_field_lit(obj, "rcept_no");
    let rcept_dt = json_field_lit(obj, "rcept_dt");
    let flr_nm = json_field_lit(obj, "flr_nm");
    if corp_name.len() == 0 && report_nm.len() == 0 {
        return None;
    }
    Some(
        DartItem {
            corp_name: string_of(corp_name.as_slice()),
            report_nm: string_of(report_nm.as_slice()),
            rcept_no: string_of(rcept_no.as_slice()),
            rcept_dt: string_of(rcept_dt.as_slice()),
            flr_nm: string_of(flr_nm.as_slice()),
        },
    )
}

/// Parse a single DART disclosure JSON object.
pub fn parse_single_dart_item(obj: &str) -> (r: Option<DartItem>)
    ensures
        match r {
            Some(it) => dart_item(obj@) == Some(it@),
            None => dart_item(obj@) is None,
        },
{
    let o = chars_of(obj);
    dart_item_chars(o.as_slice())
}

/// The disclosures of an array of DART objects.
pub open spec fn dart_items(arr: Seq<char>) -> Seq<DartItemV> {
    somes(json_objects(arr, true).map_values(|o: Seq<char>| dart_item(o)))
}

fn dart_items_exec(arr: &[char]) -> (r: Vec<DartItem>)
    ensures
        r@.map_values(|x: DartItem| x@) == dart_items(arr@),
{
    let objs = split_objects(arr, true);
    let ghost ov = objs.deep_view();
    let ghost f = |o: Seq<char>| dart_item(o);
    let mut results: Vec<DartItem> = Vec::new();
    let mut j: usize = 0;
    assert(ov.take(0).map_values(f) =~= Seq::<Option<DartItemV>>::empty());
    assert(results@.map_values(|x: DartItem| x@) =~= Seq::<DartItemV>::empty());
    while j < objs.len()
        invariant
            j <= objs@.len(),
            ov == objs.deep_view(),
            ov == json_objects(arr@, true),
            f == (|o: Seq<char>| dart_item(o)),
            results@.map_values(|x: DartItem| x@) == somes(ov.take(j as int).map_values(f)),
        decreases objs@.len() - j,
    {
        let item = dart_item_chars(objs[j].as_slice());
        assert(objs[j as int]@ == ov[j as int]);
        assert(ov.take(j + 1).map_values(f) =~= ov.take(j as int).map_values(f).push(f(ov[j as int])));
        proof {
            lemma_somes_push(ov.take(j as int).map_values(f), f(ov[j as int]));
        }
        let ghost before = results@;
        match item {
            Some(it) => {
                results.push(it);
                assert(results@.map_values(|x: DartItem| x@) =~= before.map_values(
                    |x: DartItem| x@,
                ).push(it@));
            },
            None => {},
        }
        j += 1;
    }
    assert(ov.take(objs@.len() as int) =~= ov);
    results
}

/// Parse DART disclosure list JSON into items: the objects of the array after
/// `"list"` that name a company or a report.
pub fn parse_dart_list(json: &str) -> (r: Vec<DartItem>)
    ensures
        r@.map_values(|x: DartItem| x@) == match array_after(json@, "\"list\""@) {
            Some(arr) => dart_items(arr),
            None => seq![],
        },
        array_after(json@, "\"list\""@) matches Some(arr) ==> forall|j: int|
            0 <= j < r@.len() ==> exists|i: int|
                0 <= i < json_objects(arr, true).len() && dart_item_from(
                    #[trigger] dart_view(r@)[j],
                    json_objects(arr, true)[i],
                ),
{
    proof {
        if let Some(arr) = array_after(json@, "\"list\""@) {
            lemma_dart_fields(arr);
        }
    }
    let j = chars_of(json);
    match array_after_exec(j.as_slice(), "\"list\"") {
        Some(arr) => dart_items_exec(arr.as_slice()),
        None => {
            let r: Vec<DartItem> = Vec::new();
            assert(r@.map_values(|x: DartItem| x@) =~= Seq::<DartItemV>::empty());
            r
        },
    }
}

/// What `format_dart_date` returns: an 8-byte `YYYYMMDD` becomes
/// `YYYY-MM-DD` (split at bytes 4 and 6); anything else is unchanged.
pub open spec fn dart_date(raw: Seq<char>) -> Seq<char> {
    if byte_len(raw) == 8 {
        let k4 = boundary_index(raw, 4);
        let k6 = boundary_index(raw, 6);
        raw.take(k4) + seq!['-'] + raw.subrange(k4, k6) + seq!['-'] + raw.skip(k6)
    } else {
        raw
    }
}

/// Format DART date from "YYYYMMDD" to "YYYY-MM-DD".
pub fn format_dart_date(raw: &str) -> (r: String)
    requires
        byte_len(raw@) == 8 ==> byte_boundary(raw@, 4) && byte_boundary(raw@, 6),
    ensures
        r@ == dart_date(raw@),
{
    let v = chars_of(raw);
    let s = v.as_slice();
    if byte_len_exceeds(s, 7) && !byte_len_exceeds(s, 8) {
        let k4 = match boundary_exec(s, 4) {
            Some(k) => k,
            None => return string_of(s),
        };
        let k6 = match boundary_exec(s, 6) {
            Some(k) => k,
            None => return string_of(s),
        };
        proof {
            if k6 < k4 {
                crate::text::lemma_byte_len_take_mono(s@, k6 as int, k4 as int);
            }
        }
        let mut out = slice_of(s, 0, k4);
        out.push('-');
        let mid = slice_of(s, k4, k6);
        push_all(&mut out, mid.as_slice());
        out.push('-');
        let tail = slice_of(s, k6, s.len());
        push_all(&mut out, tail.as_slice());
        assert(out@ =~= dart_date(raw@));
        string_of(out.as_slice())
    } else {
        string_of(s)
    }
}

// ───────────────────────── URL encoding ─────────────────────────

/// Bytes that stay as they are: `A-Z a-z 0-9 - _ . ~`.
pub open spec fn unreserved(b: u8) -> bool {
    (65 <= b <= 90) || (97 <= b <= 122) || (48 <= b <= 57) || b == 45 || b == 95 || b == 46 || b
        == 126
}

/// An upper-case hexadecimal digit.
pub open spec fn hex_digit(d: nat) -> char {
    if d < 10 {
        crate::text::digit_char(d)
    } else if d == 10 {
        'A'
    } else if d == 11 {
        'B'
    } else if d == 12 {
        'C'
    } else if d == 13 {
        'D'
    } else if d == 14 {
        'E'
    } else {
        'F'
    }
}

fn hex_digit_exec(d: u8) -> (r: char)
    requires
        d < 16,
    ensures
        r == hex_digit(d as nat),
{
    if d < 10 {
        if d == 0 { '0' }
        else if d == 1 { '1' }
        else if d == 2 { '2' }
        else if d == 3 { '3' }
        else if d == 4 { '4' }
        else if d == 5 { '5' }
        else if d == 6 { '6' }
        else if d == 7 { '7' }
        else if d == 8 { '8' }
        else { '9' }
    } else if d == 10 {
        'A'
    } else if d == 11 {
        'B'
    } else if d == 12 {
        'C'
    } else if d == 13 {
        'D'
    } else if d == 14 {
        'E'
    } else {
        'F'
    }
}

/// How one byte is written: itself when unreserved, else `%XX`.
pub open spec fn enc_byte(b: u8) -> Seq<char> {
    if unreserved(b) {
        seq![b as char]
    } else {
        seq!['%', hex_digit((b / 16) as nat), hex_digit((b % 16) as nat)]
    }
}

/// The percent-encoding of a byte string.
pub open spec fn url_enc(bs: Seq<u8>) -> Seq<char>
    decreases bs.len(),
{
    if bs.len() == 0 {
        seq![]
    } else {
        url_enc(bs.drop_last()) + enc_byte(bs.last())
    }
}

/// How many bytes of `bs` are written as `%XX`.
pub open spec fn reserved_count(bs: Seq<u8>) -> nat
    decreases bs.len(),
{
    if bs.len() == 0 {
        0
    } else {
        reserved_count(bs.drop_last()) + if unreserved(bs.last()) {
            0nat
        } else {
            1nat
        }
    }
}

proof fn lemma_hex_digit_ascii(d: nat)
    ensures
        (hex_digit(d) as u32) < 128,
{
}

/// The percent-encoding of a byte string is ASCII, and each reserved byte
/// takes three characters where an unreserved one takes one.
pub proof fn lemma_url_enc_ascii(bs: Seq<u8>)
    ensures
        url_enc(bs).len() == bs.len() + 2 * reserved_count(bs),
        forall|i: int| 0 <= i < url_enc(bs).len() ==> (#[trigger] url_enc(bs)[i] as u32) < 128,
    decreases bs.len(),
{
    if bs.len() > 0 {
        let b = bs.last();
        lemma_url_enc_ascii(bs.drop_last());
        lemma_hex_digit_ascii((b / 16) as nat);
        lemma_hex_digit_ascii((b % 16) as nat);
        let pre = url_enc(bs.drop_last());
        assert forall|i: int| 0 <= i < url_enc(bs).len() implies (#[trigger] url_enc(bs)[i] as u32) < 128 by {
            if i >= pre.len() {
                assert(url_enc(bs)[i] == enc_byte(b)[i - pre.len()]);
            } else {
                assert(url_enc(bs)[i] == pre[i]);
            }
        }
    }
}

/// The value of an upper-case hexadecimal digit.
pub open spec fn hex_value(c: char) -> nat {
    if '0' <= c && c <= '9' {
        (c as int - '0' as int) as nat
    } else if 'A' <= c && c <= 'F' {
        (c as int - 'A' as int + 10) as nat
    } else {
        0
    }
}

/// Percent-decoding: `%XX` gives the byte `XX`, any other character its
/// code as a byte.
pub open spec fn url_dec(cs: Seq<char>) -> Seq<u8>
    decreases cs.len(),
{
    if cs.len() == 0 {
        seq![]
    } else if cs[0] == '%' && cs.len() >= 3 {
        seq![(hex_value(cs[1]) * 16 + hex_value(cs[2])) as u8] + url_dec(cs.skip(3))
    } else {
        seq![cs[0] as u8] + url_dec(cs.drop_first())
    }
}

proof fn lemma_url_enc_front(b: u8, bs: Seq<u8>)
    ensures
        url_enc(seq![b] + bs) == enc_byte(b) + url_enc(bs),
    decreases bs.len(),
{
    if bs.len() == 0 {
        assert((seq![b] + bs).drop_last() =~= Seq::<u8>::empty());
        assert((seq![b] + bs).last() == b);
        assert(url_enc(Seq::<u8>::empty()) =~= Seq::<char>::empty());
        assert(url_enc(bs) =~= Seq::<char>::empty());
        assert(url_enc(seq![b] + bs) =~= enc_byte(b) + url_enc(bs));
    } else {
        lemma_url_enc_front(b, bs.drop_last());
        assert((seq![b] + bs).drop_last() =~= seq![b] + bs.drop_last());
        assert((seq![b] + bs).last() == bs.last());
        assert(url_enc(seq![b] + bs) =~= enc_byte(b) + url_enc(bs));
    }
}

proof fn lemma_hex_roundtrip(d: nat)
    requires
        d < 16,
    ensures
        hex_value(hex_digit(d)) == d,
        hex_digit(d) != '%',
{
}

proof fn lemma_url_dec_byte(b: u8, rest: Seq<char>)
    ensures
        url_dec(enc_byte(b) + rest) == seq![b] + url_dec(rest),
{
    let e = enc_byte(b) + rest;
    if unreserved(b) {
        assert(e[0] == b as char);
        assert(e.drop_first() =~= rest);
    } else {
        lemma_hex_roundtrip((b / 16) as nat);
        lemma_hex_roundtrip((b % 16) as nat);
        assert(e[0] == '%');
        assert(e[1] == hex_digit((b / 16) as nat));
        assert(e[2] == hex_digit((b % 16) as nat));
        assert(e.skip(3) =~= rest);
        assert((b / 16) * 16 + b % 16 == b);
    }
}

/// Percent-decoding the encoding of a byte string gives the bytes back.
pub proof fn lemma_url_enc_decodes(bs: Seq<u8>)
    ensures
        url_dec(url_enc(bs)) == bs,
    decreases bs.len(),
{
    if bs.len() > 0 {
        let b = bs[0];
        let tail = bs.drop_first();
        assert(bs =~= seq![b] + tail);
        lemma_url_enc_front(b, tail);
        lemma_url_dec_byte(b, url_enc(tail));
        lemma_url_enc_decodes(tail);
    } else {
        assert(url_enc(bs) =~= Seq::<char>::empty());
    }
}

/// Simple URL encoding for Korean text: every byte of the UTF-8 form that is
/// not unreserved is written `%XX`.
pub fn url_encode(s: &str) -> (r: String)
    ensures
        r@ == url_enc(encode_utf8(s@)),
{
    let bytes = s.as_bytes();
    let mut out: Vec<char> = Vec::new();
    let mut i: usize = 0;
    assert(bytes@.take(0) =~= Seq::<u8>::empty());
    while i < bytes.len()
        invariant
            i <= bytes@.len(),
            bytes@ == encode_utf8(s@),
            out@ == url_enc(bytes@.take(i as int)),
        decreases bytes@.len() - i,
    {
        let b = bytes[i];
        assert(bytes@.take(i + 1).drop_last() =~= bytes@.take(i as int));
        if (b >= 65 && b <= 90) || (b >= 97 && b <= 122) || (b >= 48 && b <= 57) || b == 45 || b
            == 95 || b == 46 || b == 126 {
            out.push(b as char);
        } else {
            out.push('%');
            out.push(hex_digit_exec(b / 16));
            out.push(hex_digit_exec(b % 16));
        }
        i += 1;
    }
    assert(bytes@.take(bytes@.len() as int) =~= bytes@);
    string_of(out.as_slice())
}

// ───────────────────────── National Assembly ─────────────────────────

/// A single National Assembly bill item.
#[derive(Debug, Clone)]
pub struct AssemblyBill {
    pub bill_id: String,
    pub bill_no: String,
    pub bill_name: String,
    pub proposer: String,
    pub propose_dt: String,
    pub committee: String,
    pub proc_result: String,
}

pub struct AssemblyBillV {
    pub bill_id: Seq<char>,
    pub bill_no: Seq<char>,
    pub bill_name: Seq<char>,
    pub proposer: Seq<char>,
    pub propose_dt: Seq<char>,
    pub committee: Seq<char>,
    pub proc_result: Seq<char>,
}

impl View for AssemblyBill {
    type V = AssemblyBillV;

    open spec fn view(&self) -> AssemblyBillV {
        AssemblyBillV {
            bill_id: self.bill_id@,
            bill_no: self.bill_no@,
            bill_name: self.bill_name@,
            proposer: self.proposer@,
            propose_dt: self.propose_dt@,
            committee: self.committee@,
            proc_result: self.proc_result@,
        }
    }
}

/// What `xml_extract(xml, tag)` returns: the trimmed text between the first
/// `<tag>` and the `</tag>` after it, or the empty text.
pub open spec fn xml_field(xml: Seq<char>, tag: Seq<char>) -> Seq<char> {
    let open = seq!['<'] + tag + seq!['>'];
    let close = seq!['<', '/'] + tag + seq!['>'];
    match find(xml, open) {
        None => seq![],
        Some(p) => match find_from(xml, close, p + open.len()) {
            None => seq![],
            Some(e) => trim(xml.subrange(p + open.len(), e)),
        },
    }
}

fn xml_field_exec(xml: &[char], tag: &[char]) -> (r: Vec<char>)
    ensures
        r@ == xml_field(xml@, tag@),
{
    let mut open: Vec<char> = Vec::new();
    open.push('<');
    push_all(&mut open, tag);
    open.push('>');
    let mut close: Vec<char> = Vec::new();
    close.push('<');
    close.push('/');
    push_all(&mut close, tag);
    close.push('>');
    assert(open@ =~= seq!['<'] + tag@ + seq!['>']);
    assert(close@ =~= seq!['<', '/'] + tag@ + seq!['>']);
    let p = match find_exec(xml, open.as_slice()) {
        Some(p) => p,
        None => return Vec::new(),
    };
    proof {
        lemma_find_from(xml@, open@, 0);
    }
    let n = xml.len();
    assert(p + open@.len() <= n);
    let start = p + open.len();
    let e = match find_from_exec(xml, close.as_slice(), start) {
        Some(e) => e,
        None => return Vec::new(),
    };
    proof {
        lemma_find_from(xml@, close@, start as int);
    }
    let inner = slice_of(xml, start, e);
    trim_vec(inner.as_slice())
}

/// Extract text content from an XML tag. Returns empty string if not found.
pub fn xml_extract(xml: &str, tag: &str) -> (r: String)
    ensures
        r@ == xml_field(xml@, tag@),
{
    let x = chars_of(xml);
    let t = chars_of(tag);
    let v = xml_field_exec(x.as_slice(), t.as_slice());
    string_of(v.as_slice())
}

/// The bill one `<row>...</row>` describes.
pub open spec fn bill_of(row: Seq<char>) -> AssemblyBillV {
    AssemblyBillV {
        bill_id: xml_field(row, "BILL_ID"@),
        bill_no: xml_field(row, "BILL_NO"@),
        bill_name: xml_field(row, "BILL_NAME"@),
        proposer: xml_field(row, "PROPOSER"@),
        propose_dt: xml_field(row, "PROPOSE_DT"@),
        committee: xml_field(row, "COMMITTEE"@),
        proc_result: xml_field(row, "PROC_RESULT"@),
    }
}

/// The bills of `xml` from index `from` on: each `<row>` up to the next
/// `</row>`, kept when it names a bill.
pub open spec fn assembly_rows(xml: Seq<char>, from: int) -> Seq<AssemblyBillV>
    decreases xml.len() - from,
{
    if from < 0 || from > xml.len() {
        seq![]
    } else {
        match find_from(xml, "<row>"@, from) {
            None => seq![],
            Some(rs) => match find_from(xml, "</row>"@, rs) {
                None => seq![],
                Some(p) => {
                    proof {
                        lemma_find_from(xml, "<row>"@, from);
                        lemma_find_from(xml, "</row>"@, rs);
                        reveal_strlit("</row>");
                    }
                    let re = p + "</row>"@.len();
                    let bill = bill_of(xml.subrange(rs, re));
                    let rest = assembly_rows(xml, re);
                    if bill.bill_name.len() > 0 {
                        seq![bill] + rest
                    } else {
                        rest
                    }
                },
            },
        }
    }
}

fn bill_of_exec(row: &[char]) -> (r: AssemblyBill)
    ensures
        r@ == bill_of(row@),
{
    let f1 = chars_of("BILL_ID");
    let f2 = chars_of("BILL_NO");
    let f3 = chars_of("BILL_NAME");
    let f4 = chars_of("PROPOSER");
    let f5 = chars_of("PROPOSE_DT");
    let f6 = chars_of("COMMITTEE");
    let f7 = chars_of("PROC_RESULT");
    let v1 = xml_field_exec(row, f1.as_slice());
    let v2 = xml_field_exec(row, f2.as_slice());
    let v3 = xml_field_exec(row, f3.as_slice());
    let v4 = xml_field_exec(row, f4.as_slice());
    let v5 = xml_field_exec(row, f5.as_slice());
    let v6 = xml_field_exec(row, f6.as_slice());
    let v7 = xml_field_exec(row, f7.as_slice());
    AssemblyBill {
        bill_id: string_of(v1.as_slice()),
        bill_no: string_of(v2.as_slice()),
        bill_name: string_of(v3.as_slice()),
        proposer: string_of(v4.as_slice()),
        propose_dt: string_of(v5.as_slice()),
        committee: string_of(v6.as_slice()),
        proc_result: string_of(v7.as_slice()),
    }
}

/// Parse National Assembly bill list XML into items: one per
/// `<row>...</row>` that has a bill name.
pub fn parse_assembly_list(xml: &str) -> (r: Vec<AssemblyBill>)
    ensures
        r@.map_values(|x: AssemblyBill| x@) == assembly_rows(xml@, 0),
        forall|j: int|
            0 <= j < r@.len() ==> exists|a: int, b: int|
                0 <= a <= b <= xml@.len() && bill_from_row(
                    #[trigger] bills_view(r@)[j],
                    xml@.subrange(a, b),
                ),
{
    let x = chars_of(xml);
    let xs = x.as_slice();
    let open = chars_of("<row>");
    let close = chars_of("</row>");
    proof {
        reveal_strlit("</row>");
    }
    let mut results: Vec<AssemblyBill> = Vec::new();
    let mut search_from: usize = 0;
    assert(results@.map_values(|x: AssemblyBill| x@) =~= Seq::<AssemblyBillV>::empty());
    loop
        invariant
            search_from <= xs@.len(),
            xs@ == xml@,
            open@ == "<row>"@,
            close@ == "</row>"@,
            close@.len() == 6,
            results@.map_values(|x: AssemblyBill| x@) + assembly_rows(xs@, search_from as int)
                == assembly_rows(xs@, 0),
        decreases xs@.len() - search_from,
    {
        let rs = match find_from_exec(xs, open.as_slice(), search_from) {
            Some(p) => p,
            None => {
                assert(results@.map_values(|x: AssemblyBill| x@) =~= results@.map_values(
                    |x: AssemblyBill| x@,
                ) + Seq::<AssemblyBillV>::empty());
                proof {
                    lemma_assembly_fields(xml@, 0);
                }
                return results;
            },
        };
        proof {
            lemma_find_from(xs@, open@, search_from as int);
        }
        let p = match find_from_exec(xs, close.as_slice(), rs) {
            Some(p) => p,
            None => {
                assert(results@.map_values(|x: AssemblyBill| x@) =~= results@.map_values(
                    |x: AssemblyBill| x@,
                ) + Seq::<AssemblyBillV>::empty());
                proof {
                    lemma_assembly_fields(xml@, 0);
                }
                return results;
            },
        };
        proof {
            lemma_find_from(xs@, close@, rs as int);
        }
        let n = xs.len();
        assert(matches_at(xs@, close@, p as int));
        assert(p + 6 <= n);
        let re = p + 6;
        let row = slice_of(xs, rs, re);
        let bill = bill_of_exec(row.as_slice());
        let ghost before = results@.map_values(|x: AssemblyBill| x@);
        if !bill.bill_name.as_str().is_empty() {
            let ghost bv = bill@;
            results.push(bill);
            assert(results@.map_values(|x: AssemblyBill| x@) =~= before.push(bv));
            assert(before.push(bv) + assembly_rows(xs@, re as int) =~= before + (seq![bv]
                + assembly_rows(xs@, re as int)));
        }
        search_from = re;
    }
}

/// What `format_assembly_date` returns: eight ASCII digits become
/// `YYYY-MM-DD`; anything else is unchanged.
pub open spec fn assembly_date(raw: Seq<char>) -> Seq<char> {
    if raw.len() == 8 && all_digits(raw) {
        raw.take(4) + seq!['-'] + raw.subrange(4, 6) + seq!['-'] + raw.skip(6)
    } else {
        raw
    }
}

/// Format assembly date from "YYYY-MM-DD" or "YYYYMMDD" to display format.
pub fn format_assembly_date(raw: &str) -> (r: String)
    ensures
        r@ == assembly_date(raw@),
{
    let v = chars_of(raw);
    let s = v.as_slice();
    if s.len() == 8 {
        let mut i: usize = 0;
        while i < 8
            invariant
                i <= 8,
                s@.len() == 8,
                s@ == raw@,
                forall|k: int| 0 <= k < i ==> is_digit(#[trigger] s@[k]),
            decreases 8 - i,
        {
            if !(s[i] >= '0' && s[i] <= '9') {
                assert(!is_digit(s@[i as int]));
                assert(!all_digits(raw@)) by {
                    assert(raw@[i as int] == s@[i as int]);
                }
                return string_of(s);
            }
            i += 1;
        }
        let mut out = slice_of(s, 0, 4);
        out.push('-');
        let mid = slice_of(s, 4, 6);
        push_all(&mut out, mid.as_slice());
        out.push('-');
        let tail = slice_of(s, 6, 8);
        push_all(&mut out, tail.as_slice());
        assert(s@.skip(6) =~= s@.subrange(6, 8));
        assert(out@ =~= assembly_date(raw@));
        string_of(out.as_slice())
    } else {
        string_of(s)
    }
}

pub open spec fn bigkinds_view(v: Seq<BigKindsItem>) -> Seq<BigKindsItemV> {
    v.map_values(|x: BigKindsItem| x@)
}

pub open spec fn dart_view(v: Seq<DartItem>) -> Seq<DartItemV> {
    v.map_values(|x: DartItem| x@)
}

pub open spec fn bills_view(v: Seq<AssemblyBill>) -> Seq<AssemblyBillV> {
    v.map_values(|x: AssemblyBill| x@)
}

// ───────────────────────── where each parsed field comes from ─────────────────────────

/// A BIG KINDS item read from document object `obj`: the title is the
/// `TITLE` text (tags and entities removed, and not empty), the provider,
/// date and link are the `PROVIDER`, `DATE` and `PROVIDER_LINK_PAGE` texts,
/// and the summary is cut from the `CONTENT` text.
pub open spec fn bigkinds_item_from(x: BigKindsItemV, obj: Seq<char>) -> bool {
    &&& json_field(obj, "TITLE"@).len() > 0
    &&& x.title == strip_html(json_field(obj, "TITLE"@))
    &&& x.provider == json_field(obj, "PROVIDER"@)
    &&& x.date == json_field(obj, "DATE"@)
    &&& x.url == json_field(obj, "PROVIDER_LINK_PAGE"@)
    &&& x.summary == strip_html(
        match json_extract(obj, "CONTENT"@) {
            Some(c) => summary_of(c),
            None => seq![],
        },
    )
}

/// Every article `parse_bigkinds_search` gives comes from one of the
/// documents of the array, field by field: its link is that document's
/// `PROVIDER_LINK_PAGE`, its date its `DATE`, and so on.
pub proof fn lemma_bigkinds_fields(arr: Seq<char>)
    ensures
        forall|j: int|
            0 <= j < bigkinds_items(arr).len() ==> exists|i: int|
                0 <= i < json_objects(arr, true).len() && bigkinds_item_from(
                    #[trigger] bigkinds_items(arr)[j],
                    json_objects(arr, true)[i],
                ),
{
    let objs = json_objects(arr, true).map_values(|o: Seq<char>| bigkinds_item(o));
    assert forall|j: int| 0 <= j < bigkinds_items(arr).len() implies exists|i: int|
        0 <= i < json_objects(arr, true).len() && bigkinds_item_from(
            #[trigger] bigkinds_items(arr)[j],
            json_objects(arr, true)[i],
        ) by {
        crate::text::lemma_somes_from(objs, j);
        let i = choose|i: int| 0 <= i < objs.len() && objs[i] == Some(somes(objs)[j]);
        assert(bigkinds_item(json_objects(arr, true)[i]) == Some(bigkinds_items(arr)[j]));
        assert(bigkinds_item_from(bigkinds_items(arr)[j], json_objects(arr, true)[i]));
    }
}

/// A DART filing read from list object `obj`: it names a company or a
/// report, and each field is the object's field of the same name.
pub open spec fn dart_item_from(x: DartItemV, obj: Seq<char>) -> bool {
    &&& x.corp_name.len() > 0 || x.report_nm.len() > 0
    &&& x.corp_name == json_field(obj, "corp_name"@)
    &&& x.report_nm == json_field(obj, "report_nm"@)
    &&& x.rcept_no == json_field(obj, "rcept_no"@)
    &&& x.rcept_dt == json_field(obj, "rcept_dt"@)
    &&& x.flr_nm == json_field(obj, "flr_nm"@)
}

/// Every filing `parse_dart_list` gives comes from one of the objects of
/// the list, field by field: its receipt date is that object's `rcept_dt`,
/// its receipt number its `rcept_no`, and so on.
pub proof fn lemma_dart_fields(arr: Seq<char>)
    ensures
        forall|j: int|
            0 <= j < dart_items(arr).len() ==> exists|i: int|
                0 <= i < json_objects(arr, true).len() && dart_item_from(
                    #[trigger] dart_items(arr)[j],
                    json_objects(arr, true)[i],
                ),
{
    let objs = json_objects(arr, true).map_values(|o: Seq<char>| dart_item(o));
    assert forall|j: int| 0 <= j < dart_items(arr).len() implies exists|i: int|
        0 <= i < json_objects(arr, true).len() && dart_item_from(
            #[trigger] dart_items(arr)[j],
            json_objects(arr, true)[i],
        ) by {
        crate::text::lemma_somes_from(objs, j);
        let i = choose|i: int| 0 <= i < objs.len() && objs[i] == Some(somes(objs)[j]);
        assert(dart_item(json_objects(arr, true)[i]) == Some(dart_items(arr)[j]));
        assert(dart_item_from(dart_items(arr)[j], json_objects(arr, true)[i]));
    }
}

/// A bill read from the text `row` of one `<row>` element: it has a name,
/// and each field is the trimmed text of the element of the same name.
pub open spec fn bill_from_row(x: AssemblyBillV, row: Seq<char>) -> bool {
    &&& x.bill_name.len() > 0
    &&& x.bill_id == xml_field(row, "BILL_ID"@)
    &&& x.bill_no == xml_field(row, "BILL_NO"@)
    &&& x.bill_name == xml_field(row, "BILL_NAME"@)
    &&& x.proposer == xml_field(row, "PROPOSER"@)
    &&& x.propose_dt == xml_field(row, "PROPOSE_DT"@)
    &&& x.committee == xml_field(row, "COMMITTEE"@)
    &&& x.proc_result == xml_field(row, "PROC_RESULT"@)
}

/// Every bill `parse_assembly_list` gives comes from a `<row>` element of
/// the text, field by field: its result is that row's `<PROC_RESULT>`, its
/// committee its `<COMMITTEE>`, and so on.
pub proof fn lemma_assembly_fields(xml: Seq<char>, from: int)
    ensures
        forall|j: int|
            0 <= j < assembly_rows(xml, from).len() ==> exists|a: int, b: int|
                0 <= a <= b <= xml.len() && bill_from_row(
                    #[trigger] assembly_rows(xml, from)[j],
                    xml.subrange(a, b),
                ),
    decreases xml.len() - from,
{
    if 0 <= from <= xml.len() {
        match find_from(xml, "<row>"@, from) {
            None => {},
            Some(rs) => match find_from(xml, "</row>"@, rs) {
                None => {},
                Some(p) => {
                    lemma_find_from(xml, "<row>"@, from);
                    lemma_find_from(xml, "</row>"@, rs);
                    reveal_strlit("</row>");
                    let re = p + "</row>"@.len();
                    let bill = bill_of(xml.subrange(rs, re));
                    let rest = assembly_rows(xml, re);
                    lemma_assembly_fields(xml, re);
                    let all = assembly_rows(xml, from);
                    assert forall|j: int| 0 <= j < all.len() implies exists|a: int, b: int|
                        0 <= a <= b <= xml.len() && bill_from_row(#[trigger] all[j], xml.subrange(a, b)) by {
                        if bill.bill_name.len() > 0 {
                            assert(all == seq![bill] + rest);
                            if j == 0 {
                                assert(bill_from_row(all[0], xml.subrange(rs, re)));
                            } else {
                                assert(all[j] == rest[j - 1]);
                                let (a, b) = choose|a: int, b: int|
                                    0 <= a <= b <= xml.len() && bill_from_row(#[trigger] rest[j - 1], xml.subrange(a, b));
                                assert(bill_from_row(all[j], xml.subrange(a, b)));
                            }
                        } else {
                            assert(all == rest);
                            let (a, b) = choose|a: int, b: int|
                                0 <= a <= b <= xml.len() && bill_from_row(#[trigger] rest[j], xml.subrange(a, b));
                            assert(bill_from_row(all[j], xml.subrange(a, b)));
                        }
                    }
                },
            },
        }
    }
}

} // verus!
