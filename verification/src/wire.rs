//! `/wire`: the wire services' RSS feeds: tagging their items with the
//! service, filtering by keyword, what is shown and what `/wire save` writes.
use vstd::prelude::*;
use crate::research::{news_view, NewsItem, NewsItemV};
use crate::rss::{copy_news, item_matches, rss_item_matches, rss_keywords};
use crate::style::{BOLD, DIM, RESET, YELLOW};
use crate::text::{
    byte_len, byte_len_exceeds, chars_of, dec, parse_uint, parse_uint_exec, push_all, push_dec,
    push_str, slice_of, split_char, split_on, split_ws, string_of, to_lower, trim, trim_vec,
    all_ascii, ascii_lowered, words,
};
use crate::tracking::strip_lead;

verus! {

/// How many items `/wire` shows at most.
pub const WIRE_MAX_ITEMS: usize = 20;

/// An item's description once tagged with its wire service: `[<name>] `
/// before it, or `[<name>]` alone when it had none.
pub open spec fn tagged_desc(name: Seq<char>, d: Seq<char>) -> Seq<char> {
    if d.len() > 0 {
        "["@ + name + "] "@ + d
    } else {
        "["@ + name + "]"@
    }
}

pub open spec fn tag_item(name: Seq<char>, it: NewsItemV) -> NewsItemV {
    NewsItemV { description: tagged_desc(name, it.description), ..it }
}

/// Tag each item read from a wire service's feed with the service's name.
pub fn tag_wire_items(name: &str, items: Vec<NewsItem>) -> (r: Vec<NewsItem>)
    ensures
        news_view(r@) == news_view(items@).map_values(|it: NewsItemV| tag_item(name@, it)),
{
    let ghost iv = news_view(items@);
    let mut out: Vec<NewsItem> = Vec::new();
    let mut i: usize = 0;
    while i < items.len()
        invariant
            i <= items@.len(),
            iv == news_view(items@),
            news_view(out@) == iv.take(i as int).map_values(|it: NewsItemV| tag_item(name@, it)),
        decreases items@.len() - i,
    {
        let it = &items[i];
        let mut d = chars_of("[");
        push_str(&mut d, name);
        if chars_of(it.description.as_str()).len() > 0 {
            push_str(&mut d, "] ");
            push_str(&mut d, it.description.as_str());
        } else {
            push_str(&mut d, "]");
        }
        let t = NewsItem {
            title: string_of(chars_of(it.title.as_str()).as_slice()),
            link: string_of(chars_of(it.link.as_str()).as_slice()),
            description: string_of(d.as_slice()),
            pub_date: string_of(chars_of(it.pub_date.as_str()).as_slice()),
        };
        let ghost before = news_view(out@);
        out.push(t);
        assert(t@ == tag_item(name@, iv[i as int]));
        assert(news_view(out@) =~= before.push(t@));
        assert(iv.take(i + 1).map_values(|it: NewsItemV| tag_item(name@, it)) =~= iv.take(i as int).map_values(
            |it: NewsItemV| tag_item(name@, it),
        ).push(tag_item(name@, iv[i as int])));
        i += 1;
    }
    assert(iv.take(items@.len() as int) =~= iv);
    out
}

/// The items among the first `k` that every word of the keyword matches.
pub open spec fn keyword_hits(v: Seq<NewsItemV>, kws: Seq<Seq<char>>, k: int) -> Seq<NewsItemV>
    decreases k,
{
    if k <= 0 {
        seq![]
    } else if rss_item_matches(kws, v[k - 1]) {
        keyword_hits(v, kws, k - 1).push(v[k - 1])
    } else {
        keyword_hits(v, kws, k - 1)
    }
}

/// The items `/wire` shows: those matching every word of the keyword
/// (all of them without one), at most `max`.
pub open spec fn wire_selection(v: Seq<NewsItemV>, keyword: Option<Seq<char>>, max: nat) -> Seq<NewsItemV> {
    let kept = match keyword {
        Some(k) => keyword_hits(v, rss_keywords(k), v.len() as int),
        None => v,
    };
    if kept.len() > max {
        kept.take(max as int)
    } else {
        kept
    }
}

/// Filter the wire items by keyword (ignoring case) and keep the first `max`.
pub fn select_wire_items(items: &Vec<NewsItem>, keyword: Option<&str>, max: usize) -> (r: Vec<NewsItem>)
    ensures
        news_view(r@) == wire_selection(
            news_view(items@),
            match keyword {
                Some(k) => Some(k@),
                None => None,
            },
            max as nat,
        ),
        keyword matches Some(k) ==> all_ascii(k@) ==> news_view(r@) == ({
            let kept = keyword_hits(news_view(items@), words(ascii_lowered(k@)), items@.len() as int);
            if kept.len() > max {
                kept.take(max as int)
            } else {
                kept
            }
        }),
{
    let ghost iv = news_view(items@);
    let mut kept: Vec<NewsItem> = Vec::new();
    let mut i: usize = 0;
    match keyword {
        Some(k) => {
            let kl = to_lower(k);
            proof {
                if all_ascii(k@) {
                    assert(kl@ =~= ascii_lowered(k@));
                }
            }
            let kws = split_ws(chars_of(kl.as_str()).as_slice());
            assert(news_view(kept@) =~= Seq::<NewsItemV>::empty());
            while i < items.len()
                invariant
                    i <= items@.len(),
                    iv == news_view(items@),
                    kws.deep_view() == rss_keywords(k@),
                    news_view(kept@) == keyword_hits(iv, kws.deep_view(), i as int),
                decreases items@.len() - i,
            {
                if item_matches(&kws, &items[i]) {
                    let ghost before = news_view(kept@);
                    kept.push(copy_news(&items[i]));
                    assert(news_view(kept@) =~= before.push(iv[i as int]));
                }
                i += 1;
            }
        },
        None => {
            while i < items.len()
                invariant
                    i <= items@.len(),
                    iv == news_view(items@),
                    news_view(kept@) == iv.take(i as int),
                decreases items@.len() - i,
            {
                let ghost before = news_view(kept@);
                kept.push(copy_news(&items[i]));
                assert(news_view(kept@) =~= before.push(iv[i as int]));
                assert(iv.take(i + 1) =~= iv.take(i as int).push(iv[i as int]));
                i += 1;
            }
            assert(iv.take(items@.len() as int) =~= iv);
        },
    }
    if kept.len() > max {
        let ghost before = news_view(kept@);
        kept.truncate(max);
        assert(news_view(kept@) =~= before.take(max as int));
    }
    kept
}

/// A description as `/wire` shows it: when longer than 120 bytes, its
/// first 120 characters (or all of them) and `…`.
pub open spec fn wire_desc(d: Seq<char>) -> Seq<char> {
    if byte_len(d) > 120 {
        (if d.len() > 120 {
            d.take(120)
        } else {
            d
        }) + "…"@
    } else {
        d
    }
}

/// The block shown for wire item number `n`.
pub open spec fn wire_block_text(n: nat, it: NewsItemV) -> Seq<char> {
    item_head(n, it.title) + wire_line(it.pub_date) + wire_line(wire_desc(it.description)) + wire_line(it.link) + "\n"@
}

/// The numbered title line of an item.
pub open spec fn item_head(n: nat, title: Seq<char>) -> Seq<char> {
    "  "@ + BOLD@ + YELLOW@ + "["@ + dec(n) + "]"@ + RESET@ + " "@ + BOLD@ + title + RESET@ + "\n"@
}

fn push_item_head(out: &mut Vec<char>, n: usize, title: &str)
    ensures
        final(out)@ == old(out)@ + item_head(n as nat, title@),
{
    let ghost start = out@;
    push_str(out, "  ");
    push_str(out, BOLD);
    push_str(out, YELLOW);
    push_str(out, "[");
    push_dec(out, n as u64);
    push_str(out, "]");
    push_str(out, RESET);
    push_str(out, " ");
    push_str(out, BOLD);
    push_str(out, title);
    push_str(out, RESET);
    push_str(out, "\n");
    assert(out@ =~= start + item_head(n as nat, title@));
}

/// A detail line, shown only for a non-empty text.
pub open spec fn wire_line(s: Seq<char>) -> Seq<char> {
    if s.len() > 0 {
        "     "@ + DIM@ + s + RESET@ + "\n"@
    } else {
        seq![]
    }
}

fn push_wire_line(out: &mut Vec<char>, s: &[char])
    ensures
        final(out)@ == old(out)@ + wire_line(s@),
{
    let ghost start = out@;
    if s.len() > 0 {
        push_str(out, "     ");
        push_str(out, DIM);
        push_all(out, s);
        push_str(out, RESET);
        push_str(out, "\n");
    }
    assert(out@ =~= start + wire_line(s@));
}

fn wire_desc_exec(d: &[char]) -> (r: Vec<char>)
    ensures
        r@ == wire_desc(d@),
{
    if byte_len_exceeds(d, 120) {
        let mut out = if d.len() > 120 {
            let t = slice_of(d, 0, 120);
            assert(t@ =~= d@.take(120));
            t
        } else {
            slice_of(d, 0, d.len())
        };
        push_str(&mut out, "…");
        out
    } else {
        slice_of(d, 0, d.len())
    }
}

fn push_wire_block(out: &mut Vec<char>, n: usize, it: &NewsItem)
    ensures
        final(out)@ == old(out)@ + wire_block_text(n as nat, it@),
{
    let ghost start = out@;
    push_item_head(out, n, it.title.as_str());
    push_wire_line(out, chars_of(it.pub_date.as_str()).as_slice());
    let d = wire_desc_exec(chars_of(it.description.as_str()).as_slice());
    push_wire_line(out, d.as_slice());
    push_wire_line(out, chars_of(it.link.as_str()).as_slice());
    push_str(out, "\n");
    assert(out@ =~= start + wire_block_text(n as nat, it@));
}

pub open spec fn wire_blocks(v: Seq<NewsItemV>, k: int) -> Seq<char>
    decreases k,
{
    if k <= 0 {
        seq![]
    } else {
        wire_blocks(v, k - 1) + wire_block_text(k as nat, v[k - 1])
    }
}

/// What is shown for the wire items.
pub fn wire_results_text(items: &Vec<NewsItem>) -> (r: String)
    ensures
        r@ == "\n"@ + wire_blocks(news_view(items@), items@.len() as int),
{
    let ghost v = news_view(items@);
    let mut out = chars_of("\n");
    let ghost head = out@;
    let mut i: usize = 0;
    while i < items.len()
        invariant
            i <= items@.len(),
            v == news_view(items@),
            out@ == head + wire_blocks(v, i as int),
        decreases items@.len() - i,
    {
        push_wire_block(&mut out, i + 1, &items[i]);
        assert(out@ =~= head + wire_blocks(v, i + 1));
        i += 1;
    }
    string_of(out.as_slice())
}

/// The wire service an item came from: its description up to the first
/// `]`, without the leading `[`.
pub open spec fn wire_source(d: Seq<char>) -> Seq<char> {
    strip_lead(split_on(d, ']')[0], '[')
}

/// What `/wire save` writes for an item.
pub open spec fn wire_clip_text(it: NewsItemV) -> Seq<char> {
    "# "@ + it.title + "\n\n- 날짜: "@ + it.pub_date + "\n- 링크: "@ + it.link + "\n- 출처: "@ + wire_source(
        it.description,
    ) + "\n\n"@ + it.description + "\n"@
}

/// What `/wire save` writes for an item.
pub fn wire_clip_content(item: &NewsItem) -> (r: String)
    ensures
        r@ == wire_clip_text(item@),
{
    let d = chars_of(item.description.as_str());
    let parts = split_char(d.as_slice(), ']');
    assert(split_on(d@, ']').len() > 0);
    assert(parts.deep_view().len() == parts@.len());
    assert(parts.deep_view()[0] == parts@[0]@);
    let first = &parts[0];
    let mut i: usize = 0;
    assert(first@.skip(0) =~= first@);
    while i < first.len() && first[i] == '['
        invariant
            i <= first@.len(),
            strip_lead(first@, '[') == strip_lead(first@.skip(i as int), '['),
        decreases first@.len() - i,
    {
        assert(first@.skip(i as int).drop_first() =~= first@.skip(i + 1));
        i += 1;
    }
    let src = slice_of(first.as_slice(), i, first.len());
    assert(src@ =~= first@.skip(i as int));
    let mut out = chars_of("# ");
    push_str(&mut out, item.title.as_str());
    push_str(&mut out, "\n\n- 날짜: ");
    push_str(&mut out, item.pub_date.as_str());
    push_str(&mut out, "\n- 링크: ");
    push_str(&mut out, item.link.as_str());
    push_str(&mut out, "\n- 출처: ");
    push_all(&mut out, src.as_slice());
    push_str(&mut out, "\n\n");
    push_all(&mut out, d.as_slice());
    push_str(&mut out, "\n");
    assert(out@ =~= wire_clip_text(item@));
    string_of(out.as_slice())
}

/// What `/wire <args>` asks for.
#[derive(Debug, Clone, Copy, PartialEq, Eq)]
pub enum WireRequest {
    /// Show how to use `/wire`.
    Help,
    /// Save item number `n` of the last list (`None`: not a number from 1 up).
    Save(Option<usize>),
    /// Show the latest items, filtered by the text when it is not empty.
    Latest,
}

/// What `/wire <args>` asks for (`args` already trimmed).
pub open spec fn wire_request_of(args: Seq<char>) -> WireRequest {
    if args == "help"@ {
        WireRequest::Help
    } else if args.len() >= 4 && args.take(4) == "save"@ {
        WireRequest::Save(
            match parse_uint(trim(args.skip(4)), usize::MAX as nat) {
                Some(n) => if n >= 1 {
                    Some(n as usize)
                } else {
                    None
                },
                None => None,
            },
        )
    } else {
        WireRequest::Latest
    }
}

/// Read what `/wire <args>` asks for.
pub fn wire_request(args: &str) -> (r: WireRequest)
    ensures
        r == wire_request_of(args@),
{
    let a = chars_of(args);
    let help = chars_of("help");
    if crate::text::eq_exec(a.as_slice(), help.as_slice()) {
        return WireRequest::Help;
    }
    let save = chars_of("save");
    proof {
        reveal_strlit("save");
    }
    if a.len() >= 4 && crate::text::starts_with_exec(a.as_slice(), save.as_slice()) {
        let rest = slice_of(a.as_slice(), 4, a.len());
        assert(rest@ =~= a@.skip(4));
        let t = trim_vec(rest.as_slice());
        let n = match parse_uint_exec(t.as_slice(), usize::MAX as u64) {
            Some(n) => if n >= 1 {
                Some(n as usize)
            } else {
                None
            },
            None => None,
        };
        return WireRequest::Save(n);
    }
    WireRequest::Latest
}

} // verus!
