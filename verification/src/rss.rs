//! `/rss`: the user's own RSS subscriptions, the cache of items fetched from
//! them, and searching that cache.
use vstd::prelude::*;
use crate::research::{
    news_view, rss_cache_filename, strip_prefixes, strip_prefixes_exec, NewsItem, NewsItemV,
};
use crate::style::{BOLD, DIM, GREEN, RESET, YELLOW};
use crate::text::{
    chars_of, contains, contains_exec, dec, eq_exec, lower_text, parse_uint, parse_uint_exec,
    push_all, push_dec, push_str, slice_of, split_char, split_on, split_once_ws,
    split_once_ws_exec, split_ws, starts_with, starts_with_exec, string_of, to_lower, trim,
    trim_vec, words, all_ascii, ascii_lowered,
};

verus! {

/// The file listing the subscribed feeds.
pub const RSS_FEEDS_FILE: &'static str = ".journalist/rss/feeds.json";

/// Directory storing cached items per feed.
pub const RSS_CACHE_DIR: &'static str = ".journalist/rss/cache";

/// How many items of one feed the cache keeps.
pub const RSS_CACHE_LIMIT: usize = 200;

/// A single RSS feed subscription entry.
#[derive(Debug, Clone)]
pub struct RssFeed {
    pub url: String,
    pub name: String,
    pub added: String,
}

pub struct RssFeedV {
    pub url: Seq<char>,
    pub name: Seq<char>,
    pub added: Seq<char>,
}

impl View for RssFeed {
    type V = RssFeedV;

    open spec fn view(&self) -> RssFeedV {
        RssFeedV { url: self.url@, name: self.name@, added: self.added@ }
    }
}

pub open spec fn feeds_view(v: Seq<RssFeed>) -> Seq<RssFeedV> {
    v.map_values(|f: RssFeed| f@)
}

/// Why an `/rss` request was refused.
#[derive(Debug, Clone, Copy, PartialEq, Eq, Structural)]
pub enum RssError {
    /// The URL does not start with `http://` or `https://`.
    InvalidUrl,
    /// A feed with that URL is already subscribed.
    Duplicate,
    /// The number is not a whole number from 1 up.
    InvalidNumber,
    /// No feed is subscribed.
    NoFeeds,
    /// The number is beyond the last feed.
    OutOfRange,
}

/// The name a feed is shown by: its name, or its URL when it has none.
pub open spec fn feed_label(f: RssFeedV) -> Seq<char> {
    if f.name.len() == 0 {
        f.url
    } else {
        f.name
    }
}

/// The name a feed is shown by.
pub fn rss_feed_label(feed: &RssFeed) -> (r: String)
    ensures
        r@ == feed_label(feed@),
{
    if chars_of(feed.name.as_str()).len() == 0 {
        string_of(chars_of(feed.url.as_str()).as_slice())
    } else {
        string_of(chars_of(feed.name.as_str()).as_slice())
    }
}

/// The URL and the optional name of `/rss add <URL> [이름]`.
pub open spec fn rss_add_parts(rest: Seq<char>) -> (Seq<char>, Seq<char>) {
    match split_once_ws(rest) {
        Some((a, b)) => (trim(a), trim(b)),
        None => (trim(rest), seq![]),
    }
}

/// The host part of a URL: what precedes the first `/` once the scheme is
/// stripped.
pub open spec fn url_domain(url: Seq<char>) -> Seq<char> {
    split_on(strip_prefixes(strip_prefixes(url, "https://"@), "http://"@), '/')[0]
}

/// Some subscribed feed has this URL.
pub open spec fn has_url(v: Seq<RssFeedV>, url: Seq<char>) -> bool {
    exists|i: int| 0 <= i < v.len() && (#[trigger] v[i]).url == url
}

/// The feed `/rss add <rest>` subscribes, added at `added`.
pub open spec fn rss_added(v: Seq<RssFeedV>, rest: Seq<char>, added: Seq<char>) -> Result<RssFeedV, RssError> {
    let (url, name) = rss_add_parts(rest);
    if !starts_with(url, "http://"@) && !starts_with(url, "https://"@) {
        Err(RssError::InvalidUrl)
    } else if has_url(v, url) {
        Err(RssError::Duplicate)
    } else {
        Ok(
            RssFeedV {
                url,
                name: if name.len() == 0 {
                    url_domain(url)
                } else {
                    name
                },
                added,
            },
        )
    }
}

pub open spec fn feed_result_view(r: Result<RssFeed, RssError>) -> Result<RssFeedV, RssError> {
    match r {
        Ok(f) => Ok(f@),
        Err(e) => Err(e),
    }
}

fn find_url(feeds: &Vec<RssFeed>, url: &[char]) -> (r: bool)
    ensures
        r == has_url(feeds_view(feeds@), url@),
{
    let ghost v = feeds_view(feeds@);
    let mut i: usize = 0;
    while i < feeds.len()
        invariant
            i <= feeds@.len(),
            v == feeds_view(feeds@),
            forall|j: int| 0 <= j < i ==> v[j].url != url@,
        decreases feeds@.len() - i,
    {
        let u = chars_of(feeds[i].url.as_str());
        if eq_exec(u.as_slice(), url) {
            assert(v[i as int].url == url@);
            return true;
        }
        i += 1;
    }
    false
}

/// The subscription `/rss add <rest>` makes at time `added`: the URL, and
/// the given name or else the URL's host.
pub fn new_rss_feed(feeds: &Vec<RssFeed>, rest: &str, added: &str) -> (r: Result<RssFeed, RssError>)
    ensures
        feed_result_view(r) == rss_added(feeds_view(feeds@), rest@, added@),
{
    let rv = chars_of(rest);
    let (url, name) = match split_once_ws_exec(rv.as_slice()) {
        Some((a, b)) => (trim_vec(a.as_slice()), trim_vec(b.as_slice())),
        None => (trim_vec(rv.as_slice()), Vec::new()),
    };
    assert((url@, name@) == rss_add_parts(rest@));
    let http = chars_of("http://");
    let https = chars_of("https://");
    if !starts_with_exec(url.as_slice(), http.as_slice()) && !starts_with_exec(url.as_slice(), https.as_slice()) {
        return Err(RssError::InvalidUrl);
    }
    if find_url(feeds, url.as_slice()) {
        return Err(RssError::Duplicate);
    }
    let feed_name = if name.len() == 0 {
        let a = strip_prefixes_exec(url.as_slice(), "https://");
        let b = strip_prefixes_exec(a.as_slice(), "http://");
        let parts = split_char(b.as_slice(), '/');
        assert(split_on(b@, '/').len() > 0);
        assert(parts.deep_view().len() == parts@.len());
        assert(parts.deep_view()[0] == parts@[0]@);
        string_of(parts[0].as_slice())
    } else {
        string_of(name.as_slice())
    };
    Ok(
        RssFeed {
            url: string_of(url.as_slice()),
            name: feed_name,
            added: string_of(chars_of(added).as_slice()),
        },
    )
}

/// What `/rss remove <num>` does to the feeds `v`.
pub open spec fn rss_removed(v: Seq<RssFeedV>, num: Seq<char>) -> Result<Seq<RssFeedV>, RssError> {
    match parse_uint(trim(num), usize::MAX as nat) {
        None => Err(RssError::InvalidNumber),
        Some(n) => if n < 1 {
            Err(RssError::InvalidNumber)
        } else if v.len() == 0 {
            Err(RssError::NoFeeds)
        } else if n > v.len() {
            Err(RssError::OutOfRange)
        } else {
            Ok(v.remove(n - 1))
        },
    }
}

/// Unsubscribe the feed numbered `num`; returns it.
pub fn remove_rss_feed(feeds: &mut Vec<RssFeed>, num: &str) -> (r: Result<RssFeed, RssError>)
    ensures
        match rss_removed(feeds_view(old(feeds)@), num@) {
            Ok(v) => r matches Ok(f) && feeds_view(final(feeds)@) == v && f@ == feeds_view(
                old(feeds)@,
            )[parse_uint(trim(num@), usize::MAX as nat)->0 - 1],
            Err(e) => r == Err::<RssFeed, RssError>(e) && final(feeds)@ == old(feeds)@,
        },
{
    let t = trim_vec(chars_of(num).as_slice());
    let n = match parse_uint_exec(t.as_slice(), usize::MAX as u64) {
        Some(n) => n,
        None => return Err(RssError::InvalidNumber),
    };
    if n < 1 {
        return Err(RssError::InvalidNumber);
    }
    if feeds.len() == 0 {
        return Err(RssError::NoFeeds);
    }
    if n > feeds.len() as u64 {
        return Err(RssError::OutOfRange);
    }
    let ghost before = feeds_view(feeds@);
    let f = feeds.remove((n - 1) as usize);
    assert(feeds_view(feeds@) =~= before.remove(n - 1));
    Ok(f)
}

/// The cache file of a feed: `.journalist/rss/cache/<rss_cache_filename>.json`.
pub fn rss_cache_path(url: &str) -> (r: String)
    ensures
        r@ == RSS_CACHE_DIR@ + "/"@ + crate::research::rss_cache_name(url@) + ".json"@,
{
    let mut out = chars_of(RSS_CACHE_DIR);
    push_str(&mut out, "/");
    let f = rss_cache_filename(url);
    push_str(&mut out, f.as_str());
    push_str(&mut out, ".json");
    string_of(out.as_slice())
}

pub(crate) fn copy_news(it: &NewsItem) -> (r: NewsItem)
    ensures
        r@ == it@,
{
    NewsItem {
        title: string_of(chars_of(it.title.as_str()).as_slice()),
        link: string_of(chars_of(it.link.as_str()).as_slice()),
        description: string_of(chars_of(it.description.as_str()).as_slice()),
        pub_date: string_of(chars_of(it.pub_date.as_str()).as_slice()),
    }
}

/// Some item of `v` has this link.
pub open spec fn has_link(v: Seq<NewsItemV>, link: Seq<char>) -> bool {
    exists|i: int| 0 <= i < v.len() && (#[trigger] v[i]).link == link
}

fn find_link(v: &Vec<NewsItem>, link: &[char]) -> (r: bool)
    ensures
        r == has_link(news_view(v@), link@),
{
    let ghost nv = news_view(v@);
    let mut i: usize = 0;
    while i < v.len()
        invariant
            i <= v@.len(),
            nv == news_view(v@),
            forall|j: int| 0 <= j < i ==> nv[j].link != link@,
        decreases v@.len() - i,
    {
        let l = chars_of(v[i].link.as_str());
        if eq_exec(l.as_slice(), link) {
            assert(nv[i as int].link == link@);
            return true;
        }
        i += 1;
    }
    false
}

/// The indices, among the first `n` fetched items, of those that are new: a
/// link that is not empty and not in the cache.
pub open spec fn fresh_items(items: Seq<NewsItemV>, cached: Seq<NewsItemV>, n: int) -> Seq<usize>
    decreases n,
{
    if n <= 0 {
        seq![]
    } else if items[n - 1].link.len() > 0 && !has_link(cached, items[n - 1].link) {
        fresh_items(items, cached, n - 1).push((n - 1) as usize)
    } else {
        fresh_items(items, cached, n - 1)
    }
}

/// Which fetched items are new against the cached ones.
pub fn new_rss_items(items: &Vec<NewsItem>, cached: &Vec<NewsItem>) -> (r: Vec<usize>)
    ensures
        r@ == fresh_items(news_view(items@), news_view(cached@), items@.len() as int),
{
    let ghost iv = news_view(items@);
    let mut out: Vec<usize> = Vec::new();
    let mut i: usize = 0;
    while i < items.len()
        invariant
            i <= items@.len(),
            iv == news_view(items@),
            out@ == fresh_items(iv, news_view(cached@), i as int),
        decreases items@.len() - i,
    {
        let l = chars_of(items[i].link.as_str());
        if l.len() > 0 && !find_link(cached, l.as_slice()) {
            out.push(i);
        }
        i += 1;
    }
    out
}

/// The fetched items followed by the first `k` cached items whose link is
/// not already there.
pub open spec fn merge_cached(items: Seq<NewsItemV>, cached: Seq<NewsItemV>, k: int) -> Seq<NewsItemV>
    decreases k,
{
    if k <= 0 {
        items
    } else {
        let m = merge_cached(items, cached, k - 1);
        if has_link(m, cached[k - 1].link) {
            m
        } else {
            m.push(cached[k - 1])
        }
    }
}

/// The cache after a fetch: the fetched items, then the cached items whose
/// link they do not have, cut to the first 200.
pub open spec fn merged_cache(items: Seq<NewsItemV>, cached: Seq<NewsItemV>) -> Seq<NewsItemV> {
    let m = merge_cached(items, cached, cached.len() as int);
    if m.len() > RSS_CACHE_LIMIT {
        m.take(RSS_CACHE_LIMIT as int)
    } else {
        m
    }
}

/// Merge fetched items into a feed's cache, newest first, at most 200.
pub fn merge_rss_cache(items: Vec<NewsItem>, cached: &Vec<NewsItem>) -> (r: Vec<NewsItem>)
    ensures
        news_view(r@) == merged_cache(news_view(items@), news_view(cached@)),
{
    let ghost iv = news_view(items@);
    let ghost cv = news_view(cached@);
    let mut merged = items;
    let mut k: usize = 0;
    while k < cached.len()
        invariant
            k <= cached@.len(),
            cv == news_view(cached@),
            news_view(merged@) == merge_cached(iv, cv, k as int),
        decreases cached@.len() - k,
    {
        let l = chars_of(cached[k].link.as_str());
        if !find_link(&merged, l.as_slice()) {
            let ghost before = news_view(merged@);
            let c = copy_news(&cached[k]);
            merged.push(c);
            assert(news_view(merged@) =~= before.push(cv[k as int]));
        }
        k += 1;
    }
    if merged.len() > RSS_CACHE_LIMIT {
        let ghost before = news_view(merged@);
        merged.truncate(RSS_CACHE_LIMIT);
        assert(news_view(merged@) =~= before.take(RSS_CACHE_LIMIT as int));
    }
    merged
}

proof fn lemma_merge_prefix(items: Seq<NewsItemV>, cached: Seq<NewsItemV>, k: int)
    ensures
        merge_cached(items, cached, k).len() >= items.len(),
        forall|i: int| 0 <= i < items.len() ==> #[trigger] merge_cached(items, cached, k)[i] == items[i],
    decreases k,
{
    if k > 0 {
        lemma_merge_prefix(items, cached, k - 1);
    }
}

proof fn lemma_none_fresh(items: Seq<NewsItemV>, cache: Seq<NewsItemV>, n: int)
    requires
        n <= items.len(),
        cache.len() >= items.len(),
        forall|i: int| 0 <= i < items.len() ==> #[trigger] cache[i] == items[i],
    ensures
        fresh_items(items, cache, n) == Seq::<usize>::empty(),
    decreases n,
{
    if n > 0 {
        lemma_none_fresh(items, cache, n - 1);
        assert(cache[n - 1] == items[n - 1]);
        assert(has_link(cache, items[n - 1].link));
    }
}

/// Checking a feed twice in a row finds nothing new the second time: once
/// fetched items are merged into the cache, none of them counts as new
/// against it (for a fetch of at most 200 items, all of which the cache keeps).
pub proof fn lemma_recheck_finds_nothing_new(items: Seq<NewsItemV>, cached: Seq<NewsItemV>)
    requires
        items.len() <= RSS_CACHE_LIMIT,
    ensures
        fresh_items(items, merged_cache(items, cached), items.len() as int) == Seq::<usize>::empty(),
{
    let m = merge_cached(items, cached, cached.len() as int);
    lemma_merge_prefix(items, cached, cached.len() as int);
    let c = merged_cache(items, cached);
    assert forall|i: int| 0 <= i < items.len() implies #[trigger] c[i] == items[i] by {
        assert(m[i] == items[i]);
    }
    lemma_none_fresh(items, c, items.len() as int);
}

/// The search words of `/rss search <keyword>`: the lower-cased keyword
/// split at whitespace.
pub open spec fn rss_keywords(keyword: Seq<char>) -> Seq<Seq<char>> {
    words(lower_text(keyword))
}

/// An item matches when every search word occurs in its lower-cased title
/// or description.
pub open spec fn rss_item_matches(kws: Seq<Seq<char>>, it: NewsItemV) -> bool {
    forall|j: int|
        0 <= j < kws.len() ==> contains(lower_text(it.title), #[trigger] kws[j]) || contains(
            lower_text(it.description),
            kws[j],
        )
}

pub(crate) fn item_matches(kws: &Vec<Vec<char>>, it: &NewsItem) -> (r: bool)
    ensures
        r == rss_item_matches(kws.deep_view(), it@),
        all_ascii(it@.title) && all_ascii(it@.description) ==> r == forall|j: int|
            0 <= j < kws.deep_view().len() ==> contains(ascii_lowered(it@.title), #[trigger] kws.deep_view()[j])
                || contains(ascii_lowered(it@.description), kws.deep_view()[j]),
{
    let tl = to_lower(it.title.as_str());
    let dl = to_lower(it.description.as_str());
    proof {
        if all_ascii(it@.title) && all_ascii(it@.description) {
            assert(tl@ =~= ascii_lowered(it@.title));
            assert(dl@ =~= ascii_lowered(it@.description));
        }
    }
    let tv = chars_of(tl.as_str());
    let dv = chars_of(dl.as_str());
    let ghost kv = kws.deep_view();
    let mut j: usize = 0;
    while j < kws.len()
        invariant
            j <= kws@.len(),
            kv == kws.deep_view(),
            tv@ == lower_text(it@.title),
            dv@ == lower_text(it@.description),
            all_ascii(it@.title) && all_ascii(it@.description) ==> tv@ == ascii_lowered(it@.title)
                && dv@ == ascii_lowered(it@.description),
            forall|q: int|
                0 <= q < j ==> contains(tv@, #[trigger] kv[q]) || contains(dv@, kv[q]),
        decreases kws@.len() - j,
    {
        assert(kws@[j as int]@ == kv[j as int]);
        if !contains_exec(tv.as_slice(), kws[j].as_slice()) && !contains_exec(dv.as_slice(), kws[j].as_slice()) {
            assert(!(contains(tv@, kv[j as int]) || contains(dv@, kv[j as int])));
            return false;
        }
        j += 1;
    }
    true
}

pub struct RssHitV {
    pub source: Seq<char>,
    pub item: NewsItemV,
}

/// The hits of the cached items `c` of feed `f`, among the first `n`.
pub open spec fn feed_hits(f: RssFeedV, c: Seq<NewsItemV>, kws: Seq<Seq<char>>, n: int) -> Seq<RssHitV>
    decreases n,
{
    if n <= 0 {
        seq![]
    } else if rss_item_matches(kws, c[n - 1]) {
        feed_hits(f, c, kws, n - 1).push(RssHitV { source: feed_label(f), item: c[n - 1] })
    } else {
        feed_hits(f, c, kws, n - 1)
    }
}

/// The hits over the first `n` feeds, each with its cache, in order.
pub open spec fn all_hits(fs: Seq<RssFeedV>, cs: Seq<Seq<NewsItemV>>, kws: Seq<Seq<char>>, n: int) -> Seq<RssHitV>
    decreases n,
{
    if n <= 0 {
        seq![]
    } else {
        all_hits(fs, cs, kws, n - 1) + feed_hits(fs[n - 1], cs[n - 1], kws, cs[n - 1].len() as int)
    }
}

pub open spec fn hits_view(v: Seq<(String, NewsItem)>) -> Seq<RssHitV> {
    v.map_values(|h: (String, NewsItem)| RssHitV { source: h.0@, item: h.1@ })
}

pub open spec fn caches_view(v: Seq<Vec<NewsItem>>) -> Seq<Seq<NewsItemV>> {
    v.map_values(|c: Vec<NewsItem>| news_view(c@))
}

/// Search the feeds' cached items: each item every word of `keyword` occurs
/// in (title or description, ignoring case), with the feed it came from.
pub fn rss_search_results(keyword: &str, feeds: &Vec<RssFeed>, caches: &Vec<Vec<NewsItem>>) -> (r: Vec<(String, NewsItem)>)
    requires
        caches@.len() == feeds@.len(),
    ensures
        hits_view(r@) == all_hits(
            feeds_view(feeds@),
            caches_view(caches@),
            rss_keywords(keyword@),
            feeds@.len() as int,
        ),
        all_ascii(keyword@) ==> hits_view(r@) == all_hits(
            feeds_view(feeds@),
            caches_view(caches@),
            words(ascii_lowered(keyword@)),
            feeds@.len() as int,
        ),
{
    let kl = to_lower(keyword);
    proof {
        if all_ascii(keyword@) {
            assert(kl@ =~= ascii_lowered(keyword@));
        }
    }
    let kws = split_ws(chars_of(kl.as_str()).as_slice());
    let ghost kv = kws.deep_view();
    let ghost fv = feeds_view(feeds@);
    let ghost cv = caches_view(caches@);
    let mut out: Vec<(String, NewsItem)> = Vec::new();
    assert(hits_view(out@) =~= Seq::<RssHitV>::empty());
    let mut i: usize = 0;
    while i < feeds.len()
        invariant
            i <= feeds@.len(),
            caches@.len() == feeds@.len(),
            fv == feeds_view(feeds@),
            cv == caches_view(caches@),
            kv == kws.deep_view(),
            kv == rss_keywords(keyword@),
            hits_view(out@) == all_hits(fv, cv, kv, i as int),
        decreases feeds@.len() - i,
    {
        let label = rss_feed_label(&feeds[i]);
        let c = &caches[i];
        assert(news_view(c@) == cv[i as int]);
        let ghost base = hits_view(out@);
        let mut k: usize = 0;
        while k < c.len()
            invariant
                k <= c@.len(),
                i < feeds@.len(),
                label@ == feed_label(fv[i as int]),
                news_view(c@) == cv[i as int],
                kv == kws.deep_view(),
                hits_view(out@) == base + feed_hits(fv[i as int], cv[i as int], kv, k as int),
            decreases c@.len() - k,
        {
            if item_matches(&kws, &c[k]) {
                let ghost before = hits_view(out@);
                let lab = string_of(chars_of(label.as_str()).as_slice());
                let it = copy_news(&c[k]);
                out.push((lab, it));
                assert(hits_view(out@) =~= before.push(RssHitV { source: label@, item: cv[i as int][k as int] }));
            }
            k += 1;
        }
        assert(hits_view(out@) == all_hits(fv, cv, kv, i + 1));
        i += 1;
    }
    out
}

/// A description as `/rss search` shows it: its first 100 characters and
/// `…` when it is longer.
pub open spec fn short_desc(d: Seq<char>) -> Seq<char> {
    if d.len() > 100 {
        d.take(100) + "…"@
    } else {
        d
    }
}

/// The block `/rss search` prints for hit number `n` from feed `source`.
pub open spec fn rss_hit_text(n: nat, source: Seq<char>, it: NewsItemV) -> Seq<char> {
    "  "@ + BOLD@ + YELLOW@ + "["@ + dec(n) + "]"@ + RESET@ + " "@ + BOLD@ + it.title + RESET@
        + "\n"@ + "     "@ + DIM@ + "["@ + source + "] "@ + it.pub_date + RESET@ + "\n"@ + (if it.description.len()
        > 0 {
        "     "@ + DIM@ + short_desc(it.description) + RESET@ + "\n"@
    } else {
        seq![]
    }) + (if it.link.len() > 0 {
        "     "@ + DIM@ + it.link + RESET@ + "\n"@
    } else {
        seq![]
    }) + "\n"@
}

/// The block `/rss search` prints for one hit.
pub fn rss_hit_block(n: usize, source: &str, item: &NewsItem) -> (r: String)
    ensures
        r@ == rss_hit_text(n as nat, source@, item@),
{
    let mut out = chars_of("  ");
    push_str(&mut out, BOLD);
    push_str(&mut out, YELLOW);
    push_str(&mut out, "[");
    push_dec(&mut out, n as u64);
    push_str(&mut out, "]");
    push_str(&mut out, RESET);
    push_str(&mut out, " ");
    push_str(&mut out, BOLD);
    push_str(&mut out, item.title.as_str());
    push_str(&mut out, RESET);
    push_str(&mut out, "\n");
    push_str(&mut out, "     ");
    push_str(&mut out, DIM);
    push_str(&mut out, "[");
    push_str(&mut out, source);
    push_str(&mut out, "] ");
    push_str(&mut out, item.pub_date.as_str());
    push_str(&mut out, RESET);
    push_str(&mut out, "\n");
    let d = chars_of(item.description.as_str());
    if d.len() > 0 {
        push_str(&mut out, "     ");
        push_str(&mut out, DIM);
        if d.len() > 100 {
            let t = slice_of(d.as_slice(), 0, 100);
            assert(t@ =~= d@.take(100));
            push_all(&mut out, t.as_slice());
            push_str(&mut out, "…");
        } else {
            push_all(&mut out, d.as_slice());
        }
        push_str(&mut out, RESET);
        push_str(&mut out, "\n");
    }
    let l = chars_of(item.link.as_str());
    if l.len() > 0 {
        push_str(&mut out, "     ");
        push_str(&mut out, DIM);
        push_all(&mut out, l.as_slice());
        push_str(&mut out, RESET);
        push_str(&mut out, "\n");
    }
    push_str(&mut out, "\n");
    assert(out@ =~= rss_hit_text(n as nat, source@, item@));
    string_of(out.as_slice())
}

/// The line (and registration date) `/rss list` prints for feed number `n`.
pub open spec fn feed_line_head(n: nat, f: RssFeedV) -> Seq<char> {
    DIM@ + "  "@ + dec(n) + ". "@ + feed_label(f) + RESET@ + "  "@ + DIM@ + f.url + RESET@ + "\n"@
}

pub open spec fn feed_line_added(f: RssFeedV) -> Seq<char> {
    if f.added.len() > 0 {
        DIM@ + "     등록: "@ + f.added + RESET@ + "\n"@
    } else {
        seq![]
    }
}

pub open spec fn feed_line_text(n: nat, f: RssFeedV) -> Seq<char> {
    feed_line_head(n, f) + feed_line_added(f)
}

pub open spec fn feed_lines(fs: Seq<RssFeedV>, k: int) -> Seq<char>
    decreases k,
{
    if k <= 0 {
        seq![]
    } else {
        feed_lines(fs, k - 1) + feed_line_text(k as nat, fs[k - 1])
    }
}

/// What `/rss list` prints for a non-empty list of feeds.
pub open spec fn rss_list_text_of(fs: Seq<RssFeedV>) -> Seq<char> {
    BOLD@ + "  RSS 구독 목록 ("@ + dec(fs.len()) + " 개)"@ + RESET@ + "\n"@ + DIM@
        + "  ─────────────────────────────"@ + RESET@ + "\n"@ + feed_lines(fs, fs.len() as int) + "\n"@
}

fn push_feed_line(out: &mut Vec<char>, n: usize, f: &RssFeed)
    ensures
        final(out)@ == old(out)@ + feed_line_text(n as nat, f@),
{
    let ghost start = out@;
    push_str(out, DIM);
    push_str(out, "  ");
    push_dec(out, n as u64);
    push_str(out, ". ");
    let label = rss_feed_label(f);
    push_str(out, label.as_str());
    push_str(out, RESET);
    push_str(out, "  ");
    push_str(out, DIM);
    push_str(out, f.url.as_str());
    push_str(out, RESET);
    push_str(out, "\n");
    assert(out@ =~= start + feed_line_head(n as nat, f@));
    let ghost mid = out@;
    if chars_of(f.added.as_str()).len() > 0 {
        push_str(out, DIM);
        push_str(out, "     등록: ");
        push_str(out, f.added.as_str());
        push_str(out, RESET);
        push_str(out, "\n");
    }
    assert(out@ =~= mid + feed_line_added(f@));
    assert(out@ =~= start + feed_line_text(n as nat, f@));
}

/// What `/rss list` prints for the subscribed feeds (when there are some).
pub fn rss_list_text(feeds: &Vec<RssFeed>) -> (r: String)
    ensures
        r@ == rss_list_text_of(feeds_view(feeds@)),
{
    let ghost fv = feeds_view(feeds@);
    let mut out: Vec<char> = Vec::new();
    push_str(&mut out, BOLD);
    push_str(&mut out, "  RSS 구독 목록 (");
    push_dec(&mut out, feeds.len() as u64);
    push_str(&mut out, " 개)");
    push_str(&mut out, RESET);
    push_str(&mut out, "\n");
    push_str(&mut out, DIM);
    push_str(&mut out, "  ─────────────────────────────");
    push_str(&mut out, RESET);
    push_str(&mut out, "\n");
    let ghost head = out@;
    let mut i: usize = 0;
    while i < feeds.len()
        invariant
            i <= feeds@.len(),
            fv == feeds_view(feeds@),
            out@ == head + feed_lines(fv, i as int),
        decreases feeds@.len() - i,
    {
        push_feed_line(&mut out, i + 1, &feeds[i]);
        assert(out@ =~= head + feed_lines(fv, i + 1));
        i += 1;
    }
    push_str(&mut out, "\n");
    assert(out@ =~= rss_list_text_of(fv));
    string_of(out.as_slice())
}

/// One new item as `/rss check` lists it.
pub open spec fn fresh_line_text(it: NewsItemV) -> Seq<char> {
    "    "@ + YELLOW@ + "•"@ + RESET@ + " "@ + BOLD@ + it.title + RESET@ + "\n"@ + if it.pub_date.len()
        > 0 {
        "      "@ + DIM@ + it.pub_date + RESET@ + "\n"@
    } else {
        seq![]
    }
}

pub open spec fn fresh_lines(items: Seq<NewsItemV>, fresh: Seq<usize>, k: int) -> Seq<char>
    decreases k,
{
    if k <= 0 {
        seq![]
    } else {
        fresh_lines(items, fresh, k - 1) + fresh_line_text(items[fresh[k - 1] as int])
    }
}

/// What `/rss check` prints after a feed's label once it is fetched: the
/// item count, the new count, the first five new items and how many more.
pub open spec fn fetch_summary_text(items: Seq<NewsItemV>, fresh: Seq<usize>) -> Seq<char> {
    " "@ + GREEN@ + dec(items.len()) + " 건"@ + RESET@ + " (새 "@ + dec(fresh.len()) + " 건)\n"@
        + fresh_lines(items, fresh, if fresh.len() > 5 { 5 } else { fresh.len() as int }) + if fresh.len()
        > 5 {
        "    "@ + DIM@ + "... 외 "@ + dec((fresh.len() - 5) as nat) + " 건"@ + RESET@ + "\n"@
    } else {
        seq![]
    }
}

fn push_fresh_line(out: &mut Vec<char>, it: &NewsItem)
    ensures
        final(out)@ == old(out)@ + fresh_line_text(it@),
{
    let ghost start = out@;
    push_str(out, "    ");
    push_str(out, YELLOW);
    push_str(out, "•");
    push_str(out, RESET);
    push_str(out, " ");
    push_str(out, BOLD);
    push_str(out, it.title.as_str());
    push_str(out, RESET);
    push_str(out, "\n");
    if chars_of(it.pub_date.as_str()).len() > 0 {
        push_str(out, "      ");
        push_str(out, DIM);
        push_str(out, it.pub_date.as_str());
        push_str(out, RESET);
        push_str(out, "\n");
    }
    assert(out@ =~= start + fresh_line_text(it@));
}

/// What `/rss check` prints for a fetched feed, given which items are new.
pub fn rss_fetch_summary(items: &Vec<NewsItem>, fresh: &Vec<usize>) -> (r: String)
    requires
        forall|k: int| 0 <= k < fresh@.len() ==> (#[trigger] fresh@[k]) < items@.len(),
    ensures
        r@ == fetch_summary_text(news_view(items@), fresh@),
{
    let ghost iv = news_view(items@);
    let mut out = chars_of(" ");
    push_str(&mut out, GREEN);
    push_dec(&mut out, items.len() as u64);
    push_str(&mut out, " 건");
    push_str(&mut out, RESET);
    push_str(&mut out, " (새 ");
    push_dec(&mut out, fresh.len() as u64);
    push_str(&mut out, " 건)\n");
    let ghost head = out@;
    let shown: usize = if fresh.len() > 5 { 5 } else { fresh.len() };
    let mut k: usize = 0;
    while k < shown
        invariant
            k <= shown,
            shown <= fresh@.len(),
            iv == news_view(items@),
            forall|q: int| 0 <= q < fresh@.len() ==> (#[trigger] fresh@[q]) < items@.len(),
            out@ == head + fresh_lines(iv, fresh@, k as int),
        decreases shown - k,
    {
        let x = fresh[k];
        push_fresh_line(&mut out, &items[x]);
        assert(out@ =~= head + fresh_lines(iv, fresh@, k + 1));
        k += 1;
    }
    if fresh.len() > 5 {
        push_str(&mut out, "    ");
        push_str(&mut out, DIM);
        push_str(&mut out, "... 외 ");
        push_dec(&mut out, (fresh.len() - 5) as u64);
        push_str(&mut out, " 건");
        push_str(&mut out, RESET);
        push_str(&mut out, "\n");
    }
    assert(out@ =~= fetch_summary_text(iv, fresh@));
    string_of(out.as_slice())
}

} // verus!
