//! `/news`: a news search through the Naver API or, without API keys, a
//! web search whose result page is read here; what is shown, and what
//! `/news save` writes.
use vstd::prelude::*;
use crate::research::{news_view, strip_html, strip_html_chars, NewsItem, NewsItemV};
use crate::style::{BOLD, DIM, RESET, YELLOW};
use crate::text::{
    chars_of, contains, contains_exec, dec, find, find_char_from, find_exec, last_index,
    last_index_exec, lemma_find_from, lines, lines_exec, matches_at, parse_uint, parse_uint_exec,
    push_all, push_dec, push_str, replace_all, replace_exec, slice_of, string_of, trim, trim_vec,
};

verus! {

/// The Naver news search API query for `keyword` (spaces as `%20`).
pub open spec fn naver_news_url_text(keyword: Seq<char>, display: nat) -> Seq<char> {
    "https://openapi.naver.com/v1/search/news.json?query="@ + replace_all(keyword, " "@, "%20"@)
        + "&display="@ + dec(display) + "&sort=date"@
}

/// The Naver news search API query for `keyword`, newest first.
pub fn naver_news_url(keyword: &str, display: u32) -> (r: String)
    ensures
        r@ == naver_news_url_text(keyword@, display as nat),
{
    let sp = chars_of(" ");
    let enc = chars_of("%20");
    proof {
        reveal_strlit(" ");
    }
    let e = replace_exec(chars_of(keyword).as_slice(), sp.as_slice(), enc.as_slice());
    let mut out = chars_of("https://openapi.naver.com/v1/search/news.json?query=");
    push_all(&mut out, e.as_slice());
    push_str(&mut out, "&display=");
    push_dec(&mut out, display as u64);
    push_str(&mut out, "&sort=date");
    string_of(out.as_slice())
}

/// The web search used without API keys (spaces as `+`).
pub open spec fn web_news_url_text(keyword: Seq<char>) -> Seq<char> {
    "https://lite.duckduckgo.com/lite/?q="@ + replace_all(keyword, " "@, "+"@)
        + "+site:news.naver.com&kl=kr-kr"@
}

/// The web search for `keyword` used without API keys.
pub fn web_news_url(keyword: &str) -> (r: String)
    ensures
        r@ == web_news_url_text(keyword@),
{
    let sp = chars_of(" ");
    let plus = chars_of("+");
    proof {
        reveal_strlit(" ");
    }
    let e = replace_exec(chars_of(keyword).as_slice(), sp.as_slice(), plus.as_slice());
    let mut out = chars_of("https://lite.duckduckgo.com/lite/?q=");
    push_all(&mut out, e.as_slice());
    push_str(&mut out, "+site:news.naver.com&kl=kr-kr");
    string_of(out.as_slice())
}

/// The news item a result-page line names, if any: the `href="..."` link
/// when it points at Naver news, titled by the text after the line's last
/// `>` (up to the next `<`), without tags and trimmed, when that is not blank.
pub open spec fn web_result(line: Seq<char>) -> Option<NewsItemV> {
    match find(line, "href=\""@) {
        None => None,
        Some(h) => {
            let after = line.skip(h + 6);
            match find(after, "\""@) {
                None => None,
                Some(e) => {
                    let link = after.take(e);
                    if contains(link, "news.naver.com"@) || contains(link, "n.news.naver.com"@) {
                        let title = match last_index(line, '>') {
                            Some(g) => {
                                let rest = line.skip(g + 1);
                                match find(rest, "<"@) {
                                    Some(l) => strip_html(rest.take(l)),
                                    None => strip_html(rest),
                                }
                            },
                            None => seq![],
                        };
                        if trim(title).len() > 0 {
                            Some(NewsItemV { title: trim(title), link, description: seq![], pub_date: seq![] })
                        } else {
                            None
                        }
                    } else {
                        None
                    }
                },
            }
        },
    }
}

/// Reading the result page's lines from `i` on with `acc` found so far:
/// each line may add one item, and reading stops once `display` are found
/// (checked after each line).
pub open spec fn web_scan(ls: Seq<Seq<char>>, i: int, acc: Seq<NewsItemV>, display: nat) -> Seq<NewsItemV>
    decreases ls.len() - i,
{
    if i < 0 || i >= ls.len() {
        acc
    } else {
        let acc2 = match web_result(ls[i]) {
            Some(it) => acc.push(it),
            None => acc,
        };
        if acc2.len() >= display {
            acc2
        } else {
            web_scan(ls, i + 1, acc2, display)
        }
    }
}

fn web_result_exec(line: &[char]) -> (r: Option<NewsItem>)
    ensures
        match web_result(line@) {
            Some(it) => r matches Some(x) && x@ == it,
            None => r is None,
        },
{
    let pat = chars_of("href=\"");
    let quote = chars_of("\"");
    let lt = chars_of("<");
    let n1 = chars_of("news.naver.com");
    let n2 = chars_of("n.news.naver.com");
    proof {
        reveal_strlit("href=\"");
        lemma_find_from(line@, pat@, 0);
    }
    let h = match find_exec(line, pat.as_slice()) {
        Some(h) => h,
        None => return None,
    };
    let n = line.len();
    assert(matches_at(line@, pat@, h as int));
    let after = slice_of(line, h + 6, n);
    assert(after@ =~= line@.skip(h + 6));
    let e = match find_exec(after.as_slice(), quote.as_slice()) {
        Some(e) => e,
        None => return None,
    };
    proof {
        lemma_find_from(after@, quote@, 0);
    }
    let link = slice_of(after.as_slice(), 0, e);
    assert(link@ =~= after@.take(e as int));
    if !contains_exec(link.as_slice(), n1.as_slice()) && !contains_exec(link.as_slice(), n2.as_slice()) {
        return None;
    }
    let title: Vec<char> = match last_index_exec(line, '>') {
        Some(g) => {
            let rest = slice_of(line, g + 1, n);
            assert(rest@ =~= line@.skip(g + 1));
            match find_exec(rest.as_slice(), lt.as_slice()) {
                Some(l) => {
                    proof {
                        lemma_find_from(rest@, lt@, 0);
                    }
                    let head = slice_of(rest.as_slice(), 0, l);
                    assert(head@ =~= rest@.take(l as int));
                    strip_html_chars(head.as_slice())
                },
                None => strip_html_chars(rest.as_slice()),
            }
        },
        None => Vec::new(),
    };
    let t = trim_vec(title.as_slice());
    if t.len() == 0 {
        return None;
    }
    let e1: Vec<char> = Vec::new();
    let e2: Vec<char> = Vec::new();
    Some(
        NewsItem {
            title: string_of(t.as_slice()),
            link: string_of(link.as_slice()),
            description: string_of(e1.as_slice()),
            pub_date: string_of(e2.as_slice()),
        },
    )
}

/// The news items read from a web search result page: at most `display`
/// (reading stops once that many are found).
pub fn parse_web_news(body: &str, display: u32) -> (r: Vec<NewsItem>)
    ensures
        news_view(r@) == web_scan(lines(body@), 0, seq![], display as nat),
{
    let ls = lines_exec(chars_of(body).as_slice());
    let ghost lv = ls.deep_view();
    let mut results: Vec<NewsItem> = Vec::new();
    assert(news_view(results@) =~= Seq::<NewsItemV>::empty());
    let mut i: usize = 0;
    while i < ls.len()
        invariant
            i <= ls@.len(),
            lv == ls.deep_view(),
            lv == lines(body@),
            web_scan(lv, 0, seq![], display as nat) == web_scan(lv, i as int, news_view(results@), display as nat),
        decreases ls@.len() - i,
    {
        assert(ls@[i as int]@ == lv[i as int]);
        let ghost before = news_view(results@);
        match web_result_exec(ls[i].as_slice()) {
            Some(it) => {
                let ghost iv = it@;
                results.push(it);
                assert(news_view(results@) =~= before.push(iv));
            },
            None => {},
        }
        if results.len() >= display as usize {
            return results;
        }
        i += 1;
    }
    results
}

/// What `/news <args>` asks for.
#[derive(Debug, Clone, Copy, PartialEq, Eq)]
pub enum NewsRequest {
    /// Show how to use `/news`.
    Help,
    /// Save result number `n` of the last search (`None`: not a number from 1 up).
    Save(Option<usize>),
    /// Search for the text.
    Search,
}

/// What `/news <args>` asks for (`args` already trimmed).
pub open spec fn news_request_of(args: Seq<char>) -> NewsRequest {
    if args.len() == 0 || args == "help"@ {
        NewsRequest::Help
    } else if args.len() >= 4 && args.take(4) == "save"@ {
        NewsRequest::Save(
            match parse_uint(trim(args.skip(4)), usize::MAX as nat) {
                Some(n) => if n >= 1 {
                    Some(n as usize)
                } else {
                    None
                },
                None => None,
            },
        )
    } else {
        NewsRequest::Search
    }
}

/// Read what `/news <args>` asks for.
pub fn news_request(args: &str) -> (r: NewsRequest)
    ensures
        r == news_request_of(args@),
{
    let a = chars_of(args);
    let help = chars_of("help");
    if a.len() == 0 || crate::text::eq_exec(a.as_slice(), help.as_slice()) {
        return NewsRequest::Help;
    }
    let save = chars_of("save");
    proof {
        reveal_strlit("save");
    }
    if a.len() >= 4 && crate::text::starts_with_exec(a.as_slice(), save.as_slice()) {
        let rest = slice_of(a.as_slice(), 4, a.len());
        assert(rest@ =~= a@.skip(4));
        let t = trim_vec(rest.as_slice());
        let n = match parse_uint_exec(t.as_slice(), usize::MAX as u64) {
            Some(n) => if n >= 1 {
                Some(n as usize)
            } else {
                None
            },
            None => None,
        };
        return NewsRequest::Save(n);
    }
    NewsRequest::Search
}

/// What `/news save <n>` and `/wire save <n>` pick from the last list shown.
#[derive(Debug, Clone, Copy, PartialEq, Eq)]
pub enum SavePick {
    /// The argument is not a number from 1 up.
    BadNumber,
    /// Nothing has been listed yet.
    NoResults,
    /// The number is past the end of the list.
    OutOfRange,
    /// The item at this index (0-based) of the list.
    Item(usize),
}

/// Which item of a list of `count` a save request picks: the number is checked
/// first, then that there is a list, then that the number is within it.
pub open spec fn save_pick_of(choice: Option<usize>, count: nat) -> SavePick {
    match choice {
        None => SavePick::BadNumber,
        Some(n) => if n < 1 {
            SavePick::BadNumber
        } else if count == 0 {
            SavePick::NoResults
        } else if n > count {
            SavePick::OutOfRange
        } else {
            SavePick::Item((n - 1) as usize)
        },
    }
}

/// Pick the item that `/news save <n>` or `/wire save <n>` refers to.
pub fn save_pick(choice: Option<usize>, count: usize) -> (r: SavePick)
    ensures
        r == save_pick_of(choice, count as nat),
        r matches SavePick::Item(i) ==> i < count,
{
    match choice {
        None => SavePick::BadNumber,
        Some(n) => if n < 1 {
            SavePick::BadNumber
        } else if count == 0 {
            SavePick::NoResults
        } else if n > count {
            SavePick::OutOfRange
        } else {
            SavePick::Item(n - 1)
        },
    }
}

/// What `/news save` writes for an item.
pub open spec fn news_clip_text(it: NewsItemV) -> Seq<char> {
    "# "@ + it.title + "\n\n- 날짜: "@ + it.pub_date + "\n- 링크: "@ + it.link + "\n\n"@ + it.description + "\n"@
}

/// What `/news save` writes for an item.
pub fn news_clip_content(item: &NewsItem) -> (r: String)
    ensures
        r@ == news_clip_text(item@),
{
    let mut out = chars_of("# ");
    push_str(&mut out, item.title.as_str());
    push_str(&mut out, "\n\n- 날짜: ");
    push_str(&mut out, item.pub_date.as_str());
    push_str(&mut out, "\n- 링크: ");
    push_str(&mut out, item.link.as_str());
    push_str(&mut out, "\n\n");
    push_str(&mut out, item.description.as_str());
    push_str(&mut out, "\n");
    string_of(out.as_slice())
}

/// The block shown for search result number `n`.
pub open spec fn news_block_text(n: nat, it: NewsItemV) -> Seq<char> {
    "  "@ + BOLD@ + YELLOW@ + "["@ + dec(n) + "]"@ + RESET@ + " "@ + BOLD@ + it.title + RESET@ + "\n"@
        + opt_line(it.pub_date) + opt_line(it.description) + detail_line(it.link) + "\n"@
}

/// An indented, dimmed detail line.
pub open spec fn detail_line(s: Seq<char>) -> Seq<char> {
    "  "@ + DIM@ + "    "@ + s + RESET@ + "\n"@
}

/// A detail line, shown only for a non-empty text.
pub open spec fn opt_line(s: Seq<char>) -> Seq<char> {
    if s.len() > 0 {
        detail_line(s)
    } else {
        seq![]
    }
}

fn push_detail(out: &mut Vec<char>, s: &str, always: bool)
    ensures
        final(out)@ == old(out)@ + if always {
            detail_line(s@)
        } else {
            opt_line(s@)
        },
{
    let ghost start = out@;
    if always || chars_of(s).len() > 0 {
        push_str(out, "  ");
        push_str(out, DIM);
        push_str(out, "    ");
        push_str(out, s);
        push_str(out, RESET);
        push_str(out, "\n");
        assert(out@ =~= start + detail_line(s@));
    } else {
        assert(out@ =~= start + opt_line(s@));
    }
}

fn push_news_block(out: &mut Vec<char>, n: usize, it: &NewsItem)
    ensures
        final(out)@ == old(out)@ + news_block_text(n as nat, it@),
{
    let ghost start = out@;
    push_str(out, "  ");
    push_str(out, BOLD);
    push_str(out, YELLOW);
    push_str(out, "[");
    push_dec(out, n as u64);
    push_str(out, "]");
    push_str(out, RESET);
    push_str(out, " ");
    push_str(out, BOLD);
    push_str(out, it.title.as_str());
    push_str(out, RESET);
    push_str(out, "\n");
    push_detail(out, it.pub_date.as_str(), false);
    push_detail(out, it.description.as_str(), false);
    push_detail(out, it.link.as_str(), true);
    push_str(out, "\n");
    assert(out@ =~= start + news_block_text(n as nat, it@));
}

pub open spec fn news_blocks(v: Seq<NewsItemV>, k: int) -> Seq<char>
    decreases k,
{
    if k <= 0 {
        seq![]
    } else {
        news_blocks(v, k - 1) + news_block_text(k as nat, v[k - 1])
    }
}

/// What is shown for a list of news search results.
pub fn news_results_text(items: &Vec<NewsItem>) -> (r: String)
    ensures
        r@ == "\n"@ + news_blocks(news_view(items@), items@.len() as int),
{
    let ghost v = news_view(items@);
    let mut out = chars_of("\n");
    let ghost head = out@;
    let mut i: usize = 0;
    while i < items.len()
        invariant
            i <= items@.len(),
            v == news_view(items@),
            out@ == head + news_blocks(v, i as int),
        decreases items@.len() - i,
    {
        push_news_block(&mut out, i + 1, &items[i]);
        assert(out@ =~= head + news_blocks(v, i + 1));
        i += 1;
    }
    string_of(out.as_slice())
}

/// What the assistant is asked when the news search fails.
pub open spec fn news_fallback_prompt_text(keyword: Seq<char>) -> Seq<char> {
    "'"@ + keyword + "'에 대한 최신 뉴스를 검색해서 정리해줘. 제목, 날짜, 요약, 출처 링크를 포함해서 목록으로 보여줘."@
}

/// What the assistant is asked when the news search fails.
pub fn news_fallback_prompt(keyword: &str) -> (r: String)
    ensures
        r@ == news_fallback_prompt_text(keyword@),
{
    let mut out = chars_of("'");
    push_str(&mut out, keyword);
    push_str(&mut out, "'에 대한 최신 뉴스를 검색해서 정리해줘. 제목, 날짜, 요약, 출처 링크를 포함해서 목록으로 보여줘.");
    string_of(out.as_slice())
}

} // verus!
