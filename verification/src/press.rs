//! `/press`: government press releases: the request, the API query, the
//! cached copies, and what is shown.
use vstd::prelude::*;
use crate::editorial::opt_view;
use crate::research::{extract_xml_tag, press_tag, PressRelease, PressReleaseV};
use crate::style::{BOLD, CYAN, DIM, RESET};
use crate::text::{
    chars_of, contains, contains_exec, dec, find, find_exec, lemma_dec_len, lemma_find_from,
    lines, lines_exec, matches_at, parse_uint, parse_uint_exec, push_all, push_dec, push_repeat,
    push_str, repeat, replace_all, replace_exec, slice_of, string_of, trim, trim_vec,
};

verus! {

/// Where fetched press releases are cached.
pub const PRESS_DIR: &'static str = ".journalist/press";

/// `str::split_once(' ')` with the rest trimmed; the whole text and nothing
/// when it has no space.
pub open spec fn space_split(args: Seq<char>) -> (Seq<char>, Seq<char>) {
    match find(args, " "@) {
        Some(i) => (args.take(i), trim(args.skip(i + 1))),
        None => (args, seq![]),
    }
}

/// Split a command's arguments at the first space.
pub fn split_at_space(args: &str) -> (r: (String, String))
    ensures
        (r.0@, r.1@) == space_split(args@),
{
    let a = chars_of(args);
    let sp = chars_of(" ");
    proof {
        reveal_strlit(" ");
        lemma_find_from(a@, sp@, 0);
    }
    match find_exec(a.as_slice(), sp.as_slice()) {
        Some(i) => {
            let n = a.len();
            assert(matches_at(a@, sp@, i as int));
            let head = slice_of(a.as_slice(), 0, i);
            let tail = slice_of(a.as_slice(), i + 1, n);
            assert(head@ =~= a@.take(i as int));
            assert(tail@ =~= a@.skip(i + 1));
            (string_of(head.as_slice()), string_of(trim_vec(tail.as_slice()).as_slice()))
        },
        None => {
            let e: Vec<char> = Vec::new();
            (string_of(a.as_slice()), string_of(e.as_slice()))
        },
    }
}

/// What `/press <args>` asks for.
#[derive(Debug, Clone, PartialEq, Eq)]
pub enum PressCommand {
    /// Show how to use `/press`.
    Usage,
    /// `search` without a keyword.
    SearchUsage,
    /// Search the releases for a keyword.
    Search(String),
    /// The latest releases, this many (1 to 30).
    Latest(u32),
    /// `view` without a number.
    ViewUsage,
    /// `view` with something that is not a number from 1 up.
    ViewInvalid,
    /// Show cached release number `n`.
    View(usize),
}

pub enum PressCommandV {
    Usage,
    SearchUsage,
    Search(Seq<char>),
    Latest(u32),
    ViewUsage,
    ViewInvalid,
    View(usize),
}

impl View for PressCommand {
    type V = PressCommandV;

    open spec fn view(&self) -> PressCommandV {
        match self {
            PressCommand::Usage => PressCommandV::Usage,
            PressCommand::SearchUsage => PressCommandV::SearchUsage,
            PressCommand::Search(k) => PressCommandV::Search(k@),
            PressCommand::Latest(n) => PressCommandV::Latest(*n),
            PressCommand::ViewUsage => PressCommandV::ViewUsage,
            PressCommand::ViewInvalid => PressCommandV::ViewInvalid,
            PressCommand::View(n) => PressCommandV::View(*n),
        }
    }
}

/// How many latest releases `/press latest <n>` asks for: the number (5
/// when it is not one), kept within 1 to 30.
pub open spec fn latest_count(rest: Seq<char>) -> u32 {
    let n: nat = match parse_uint(rest, u32::MAX as nat) {
        Some(n) => n,
        None => 5,
    };
    if n < 1 {
        1
    } else if n > 30 {
        30
    } else {
        n as u32
    }
}

/// What `/press <args>` asks for (`args` already trimmed).
pub open spec fn press_command_of(args: Seq<char>) -> PressCommandV {
    if args.len() == 0 {
        PressCommandV::Usage
    } else {
        let (sub, rest) = space_split(args);
        if sub == "search"@ {
            if rest.len() == 0 {
                PressCommandV::SearchUsage
            } else {
                PressCommandV::Search(rest)
            }
        } else if sub == "latest"@ {
            PressCommandV::Latest(latest_count(rest))
        } else if sub == "view"@ {
            if rest.len() == 0 {
                PressCommandV::ViewUsage
            } else {
                match parse_uint(rest, usize::MAX as nat) {
                    Some(n) => if n >= 1 {
                        PressCommandV::View(n as usize)
                    } else {
                        PressCommandV::ViewInvalid
                    },
                    None => PressCommandV::ViewInvalid,
                }
            }
        } else {
            PressCommandV::Usage
        }
    }
}

/// Read what `/press <args>` asks for.
pub fn press_command(args: &str) -> (r: PressCommand)
    ensures
        r@ == press_command_of(args@),
{
    if chars_of(args).len() == 0 {
        return PressCommand::Usage;
    }
    let (sub, rest) = split_at_space(args);
    let sv = chars_of(sub.as_str());
    let rv = chars_of(rest.as_str());
    if crate::text::eq_str(sv.as_slice(), "search") {
        if rv.len() == 0 {
            PressCommand::SearchUsage
        } else {
            PressCommand::Search(rest)
        }
    } else if crate::text::eq_str(sv.as_slice(), "latest") {
        let n: u64 = match parse_uint_exec(rv.as_slice(), u32::MAX as u64) {
            Some(n) => n,
            None => 5,
        };
        let c: u32 = if n < 1 {
            1
        } else if n > 30 {
            30
        } else {
            n as u32
        };
        PressCommand::Latest(c)
    } else if crate::text::eq_str(sv.as_slice(), "view") {
        if rv.len() == 0 {
            PressCommand::ViewUsage
        } else {
            match parse_uint_exec(rv.as_slice(), usize::MAX as u64) {
                Some(n) => if n >= 1 {
                    PressCommand::View(n as usize)
                } else {
                    PressCommand::ViewInvalid
                },
                None => PressCommand::ViewInvalid,
            }
        }
    } else {
        PressCommand::Usage
    }
}

/// The press release API query: the key and keyword with spaces as `%20`.
pub open spec fn press_api_url_text(key: Seq<char>, keyword: Option<Seq<char>>, count: nat) -> Seq<char> {
    "https://apis.data.go.kr/1371000/pressReleaseService/pressReleaseList?serviceKey="@ + replace_all(
        key,
        " "@,
        "%20"@,
    ) + "&numOfRows="@ + dec(count) + "&pageNo=1"@ + match keyword {
        Some(k) => "&keyword="@ + replace_all(k, " "@, "%20"@),
        None => seq![],
    }
}

/// The press release API query for `count` releases, by keyword or latest.
pub fn press_api_url(key: &str, keyword: Option<&str>, count: u32) -> (r: String)
    ensures
        r@ == press_api_url_text(
            key@,
            match keyword {
                Some(k) => Some(k@),
                None => None,
            },
            count as nat,
        ),
{
    let sp = chars_of(" ");
    let enc = chars_of("%20");
    proof {
        reveal_strlit(" ");
    }
    let mut out = chars_of("https://apis.data.go.kr/1371000/pressReleaseService/pressReleaseList?serviceKey=");
    let k = replace_exec(chars_of(key).as_slice(), sp.as_slice(), enc.as_slice());
    push_all(&mut out, k.as_slice());
    push_str(&mut out, "&numOfRows=");
    push_dec(&mut out, count as u64);
    push_str(&mut out, "&pageNo=1");
    match keyword {
        Some(kw) => {
            push_str(&mut out, "&keyword=");
            let e = replace_exec(chars_of(kw).as_slice(), sp.as_slice(), enc.as_slice());
            push_all(&mut out, e.as_slice());
        },
        None => {},
    }
    string_of(out.as_slice())
}

/// The error a data.go.kr API reply reports, if it is one: the
/// authentication message when given, else a general error.
pub open spec fn api_error_text(body: Seq<char>) -> Option<Seq<char>> {
    if contains(body, "<returnReasonCode>"@) {
        Some(
            match press_tag(body, "returnAuthMsg"@) {
                Some(m) => "API 인증 오류: "@ + m,
                None => "API 응답 오류"@,
            },
        )
    } else {
        None
    }
}

/// The error a data.go.kr API reply reports, if it is one.
pub fn api_error(body: &str) -> (r: Option<String>)
    ensures
        opt_view(r) == api_error_text(body@),
{
    let pat = chars_of("<returnReasonCode>");
    if !contains_exec(chars_of(body).as_slice(), pat.as_slice()) {
        return None;
    }
    match extract_xml_tag(body, "returnAuthMsg") {
        Some(m) => {
            let mut out = chars_of("API 인증 오류: ");
            push_str(&mut out, m.as_str());
            Some(string_of(out.as_slice()))
        },
        None => Some(string_of(chars_of("API 응답 오류").as_slice())),
    }
}

/// The cache file of result number `idx`: `.journalist/press/press_<idx>.json`.
pub fn press_cache_path(idx: usize) -> (r: String)
    ensures
        r@ == PRESS_DIR@ + "/press_"@ + dec(idx as nat) + ".json"@,
{
    let mut out = chars_of(PRESS_DIR);
    push_str(&mut out, "/press_");
    push_dec(&mut out, idx as u64);
    push_str(&mut out, ".json");
    string_of(out.as_slice())
}

/// A number right-aligned in three columns (`{:>3}`).
pub open spec fn pad3(n: nat) -> Seq<char> {
    if dec(n).len() < 3 {
        repeat(' ', (3 - dec(n).len()) as nat) + dec(n)
    } else {
        dec(n)
    }
}

pub(crate) fn push_pad3(out: &mut Vec<char>, n: usize)
    ensures
        final(out)@ == old(out)@ + pad3(n as nat),
{
    let mut d: Vec<char> = Vec::new();
    push_dec(&mut d, n as u64);
    assert(d@ == dec(n as nat));
    if d.len() < 3 {
        push_repeat(out, ' ', 3 - d.len());
    }
    push_all(out, d.as_slice());
}

/// A text cut to its first `k` characters, with `…` when it was longer.
pub open spec fn preview_chars(s: Seq<char>, k: nat) -> Seq<char> {
    if s.len() > k {
        s.take(k as int) + "…"@
    } else {
        s
    }
}

pub(crate) fn push_preview(out: &mut Vec<char>, s: &str, k: usize)
    ensures
        final(out)@ == old(out)@ + preview_chars(s@, k as nat),
{
    let v = chars_of(s);
    if v.len() > k {
        let t = slice_of(v.as_slice(), 0, k);
        assert(t@ =~= v@.take(k as int));
        push_all(out, t.as_slice());
        push_str(out, "…");
    } else {
        push_all(out, v.as_slice());
    }
}

/// The ministry after a release's title, when there is one.
pub open spec fn ministry_part(m: Seq<char>) -> Seq<char> {
    if m.len() == 0 {
        seq![]
    } else {
        " ["@ + CYAN@ + m + RESET@ + "]"@
    }
}

/// The date after a release's title, when there is one.
pub open spec fn date_part(d: Seq<char>) -> Seq<char> {
    if d.len() == 0 {
        seq![]
    } else {
        "  "@ + DIM@ + d + RESET@
    }
}

/// The summary line under a release, when it has a summary.
pub open spec fn summary_part(s: Seq<char>) -> Seq<char> {
    if s.len() > 0 {
        "       "@ + DIM@ + preview_chars(s, 80) + RESET@ + "\n"@
    } else {
        seq![]
    }
}

/// The lines shown for release number `n`.
pub open spec fn press_item_text(n: nat, it: PressReleaseV) -> Seq<char> {
    "  "@ + BOLD@ + pad3(n) + "."@ + RESET@ + " "@ + it.title + ministry_part(it.ministry) + date_part(
        it.date,
    ) + "\n"@ + summary_part(it.summary)
}

fn push_ministry(out: &mut Vec<char>, m: &str)
    ensures
        final(out)@ == old(out)@ + ministry_part(m@),
{
    let ghost start = out@;
    if chars_of(m).len() > 0 {
        push_str(out, " [");
        push_str(out, CYAN);
        push_str(out, m);
        push_str(out, RESET);
        push_str(out, "]");
    }
    assert(out@ =~= start + ministry_part(m@));
}

fn push_date(out: &mut Vec<char>, d: &str)
    ensures
        final(out)@ == old(out)@ + date_part(d@),
{
    let ghost start = out@;
    if chars_of(d).len() > 0 {
        push_str(out, "  ");
        push_str(out, DIM);
        push_str(out, d);
        push_str(out, RESET);
    }
    assert(out@ =~= start + date_part(d@));
}

fn push_summary_part(out: &mut Vec<char>, s: &str)
    ensures
        final(out)@ == old(out)@ + summary_part(s@),
{
    let ghost start = out@;
    if chars_of(s).len() > 0 {
        push_str(out, "       ");
        push_str(out, DIM);
        push_preview(out, s, 80);
        push_str(out, RESET);
        push_str(out, "\n");
    }
    assert(out@ =~= start + summary_part(s@));
}

fn push_press_item(out: &mut Vec<char>, n: usize, it: &PressRelease)
    ensures
        final(out)@ == old(out)@ + press_item_text(n as nat, it@),
{
    let ghost start = out@;
    push_str(out, "  ");
    push_str(out, BOLD);
    push_pad3(out, n);
    push_str(out, ".");
    push_str(out, RESET);
    push_str(out, " ");
    push_str(out, it.title.as_str());
    push_ministry(out, it.ministry.as_str());
    push_date(out, it.date.as_str());
    push_str(out, "\n");
    push_summary_part(out, it.summary.as_str());
    assert(out@ =~= start + press_item_text(n as nat, it@));
}

pub open spec fn press_items(v: Seq<PressReleaseV>, k: int) -> Seq<char>
    decreases k,
{
    if k <= 0 {
        seq![]
    } else {
        press_items(v, k - 1) + press_item_text(k as nat, v[k - 1])
    }
}

/// What `/press search` and `/press latest` show for the releases found.
pub open spec fn press_results_text_of(v: Seq<PressReleaseV>) -> Seq<char> {
    if v.len() == 0 {
        DIM@ + "  검색 결과가 없습니다."@ + RESET@ + "\n\n"@
    } else {
        "\n"@ + BOLD@ + "  📢 정부 보도자료 ("@ + dec(v.len()) + " 건)"@ + RESET@ + "\n\n"@ + press_items(
            v,
            v.len() as int,
        ) + "\n"@ + DIM@ + "  상세 보기: /press view <번호>"@ + RESET@ + "\n\n"@
    }
}

/// What `/press search` and `/press latest` show for the releases found.
pub fn press_results_text(results: &Vec<PressRelease>) -> (r: String)
    ensures
        r@ == press_results_text_of(results@.map_values(|x: PressRelease| x@)),
{
    let ghost v = results@.map_values(|x: PressRelease| x@);
    let mut out: Vec<char> = Vec::new();
    if results.len() == 0 {
        push_str(&mut out, DIM);
        push_str(&mut out, "  검색 결과가 없습니다.");
        push_str(&mut out, RESET);
        push_str(&mut out, "\n\n");
        assert(out@ =~= press_results_text_of(v));
        return string_of(out.as_slice());
    }
    push_str(&mut out, "\n");
    push_str(&mut out, BOLD);
    push_str(&mut out, "  📢 정부 보도자료 (");
    push_dec(&mut out, results.len() as u64);
    push_str(&mut out, " 건)");
    push_str(&mut out, RESET);
    push_str(&mut out, "\n\n");
    let ghost head = out@;
    let mut i: usize = 0;
    while i < results.len()
        invariant
            i <= results@.len(),
            v == results@.map_values(|x: PressRelease| x@),
            out@ == head + press_items(v, i as int),
        decreases results@.len() - i,
    {
        push_press_item(&mut out, i + 1, &results[i]);
        assert(out@ =~= head + press_items(v, i + 1));
        i += 1;
    }
    push_str(&mut out, "\n");
    push_str(&mut out, DIM);
    push_str(&mut out, "  상세 보기: /press view <번호>");
    push_str(&mut out, RESET);
    push_str(&mut out, "\n\n");
    assert(out@ =~= press_results_text_of(v));
    string_of(out.as_slice())
}

/// A cached release as read back: each field's text, or `None` when the
/// cached entry has no text under that name.
#[derive(Debug, Clone)]
pub struct PressCacheItem {
    pub title: Option<String>,
    pub ministry: Option<String>,
    pub date: Option<String>,
    pub link: Option<String>,
    pub summary: Option<String>,
}

/// The entry of a cached release as `press_cache_path` stores it.
pub fn press_cache_item(item: &PressRelease) -> (r: PressCacheItem)
    ensures
        opt_view(r.title) == Some(item.title@),
        opt_view(r.ministry) == Some(item.ministry@),
        opt_view(r.date) == Some(item.date@),
        opt_view(r.link) == Some(item.link@),
        opt_view(r.summary) == Some(item.summary@),
{
    PressCacheItem {
        title: Some(string_of(chars_of(item.title.as_str()).as_slice())),
        ministry: Some(string_of(chars_of(item.ministry.as_str()).as_slice())),
        date: Some(string_of(chars_of(item.date.as_str()).as_slice())),
        link: Some(string_of(chars_of(item.link.as_str()).as_slice())),
        summary: Some(string_of(chars_of(item.summary.as_str()).as_slice())),
    }
}

/// A labelled detail line, for a field that is present and (unless
/// `even_empty`) not empty.
pub open spec fn detail_text(label: Seq<char>, o: Option<Seq<char>>, even_empty: bool) -> Seq<char> {
    match o {
        Some(v) => if even_empty || v.len() > 0 {
            "  "@ + BOLD@ + label + RESET@ + " "@ + v + "\n"@
        } else {
            seq![]
        },
        None => seq![],
    }
}

pub open spec fn summary_lines(ls: Seq<Seq<char>>, k: int) -> Seq<char>
    decreases k,
{
    if k <= 0 {
        seq![]
    } else {
        summary_lines(ls, k - 1) + "  "@ + ls[k - 1] + "\n"@
    }
}

/// What `/press view <n>` shows for a cached release.
pub open spec fn press_view_text_of(title: Option<Seq<char>>, ministry: Option<Seq<char>>, date: Option<Seq<char>>, link: Option<Seq<char>>, summary: Option<Seq<char>>) -> Seq<char> {
    "\n"@ + BOLD@ + "  ── 보도자료 상세 ──"@ + RESET@ + "\n\n"@ + detail_text("제목:"@, title, true)
        + detail_text("부처:"@, ministry, false) + detail_text("날짜:"@, date, false) + detail_text(
        "링크:"@,
        link,
        false,
    ) + (match summary {
        Some(s) => if s.len() > 0 {
            "\n  "@ + BOLD@ + "요약:"@ + RESET@ + "\n"@ + summary_lines(lines(s), lines(s).len() as int)
        } else {
            seq![]
        },
        None => seq![],
    }) + "\n"@
}

fn push_detail(out: &mut Vec<char>, label: &str, o: &Option<String>, even_empty: bool)
    ensures
        final(out)@ == old(out)@ + detail_text(label@, opt_view(*o), even_empty),
{
    let ghost start = out@;
    match o {
        Some(v) => {
            if even_empty || chars_of(v.as_str()).len() > 0 {
                push_str(out, "  ");
                push_str(out, BOLD);
                push_str(out, label);
                push_str(out, RESET);
                push_str(out, " ");
                push_str(out, v.as_str());
                push_str(out, "\n");
            }
        },
        None => {},
    }
    assert(out@ =~= start + detail_text(label@, opt_view(*o), even_empty));
}

fn push_summary(out: &mut Vec<char>, summary: &Option<String>)
    ensures
        final(out)@ == old(out)@ + match opt_view(*summary) {
            Some(s) => if s.len() > 0 {
                "\n  "@ + BOLD@ + "요약:"@ + RESET@ + "\n"@ + summary_lines(lines(s), lines(s).len() as int)
            } else {
                seq![]
            },
            None => seq![],
        },
{
    let ghost start = out@;
    match summary {
        Some(s) => {
            let sv = chars_of(s.as_str());
            if sv.len() > 0 {
                push_str(out, "\n  ");
                push_str(out, BOLD);
                push_str(out, "요약:");
                push_str(out, RESET);
                push_str(out, "\n");
                let ghost mid = out@;
                let ls = lines_exec(sv.as_slice());
                let ghost lv = ls.deep_view();
                let mut i: usize = 0;
                while i < ls.len()
                    invariant
                        i <= ls@.len(),
                        lv == ls.deep_view(),
                        out@ == mid + summary_lines(lv, i as int),
                    decreases ls@.len() - i,
                {
                    assert(ls@[i as int]@ == lv[i as int]);
                    push_str(out, "  ");
                    push_all(out, ls[i].as_slice());
                    push_str(out, "\n");
                    assert(out@ =~= mid + summary_lines(lv, i + 1));
                    i += 1;
                }
            }
            assert(out@ =~= start + match opt_view(*summary) {
                Some(s) => if s.len() > 0 {
                    "\n  "@ + BOLD@ + "요약:"@ + RESET@ + "\n"@ + summary_lines(lines(s), lines(s).len() as int)
                } else {
                    seq![]
                },
                None => seq![],
            });
        },
        None => {},
    }
}

/// What `/press view <n>` shows for a cached release.
pub fn press_view_text(item: &PressCacheItem) -> (r: String)
    ensures
        r@ == press_view_text_of(
            opt_view(item.title),
            opt_view(item.ministry),
            opt_view(item.date),
            opt_view(item.link),
            opt_view(item.summary),
        ),
{
    let mut out = chars_of("\n");
    push_str(&mut out, BOLD);
    push_str(&mut out, "  ── 보도자료 상세 ──");
    push_str(&mut out, RESET);
    push_str(&mut out, "\n\n");
    push_detail(&mut out, "제목:", &item.title, true);
    push_detail(&mut out, "부처:", &item.ministry, false);
    push_detail(&mut out, "날짜:", &item.date, false);
    push_detail(&mut out, "링크:", &item.link, false);
    push_summary(&mut out, &item.summary);
    push_str(&mut out, "\n");
    string_of(out.as_slice())
}

} // verus!
