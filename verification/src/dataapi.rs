//! `/bigkinds`, `/dart` and `/assembly`: what each command asks for, the
//! requests sent to the public data services, how their results are shown,
//! and the DART watch list.
use vstd::prelude::*;
use crate::data::{assembly_date, dart_date, format_assembly_date, format_dart_date, AssemblyBill, BigKindsItem, DartItem};
use crate::editorial::opt_view;
use crate::style::{BOLD, DIM, RESET, YELLOW};
use crate::research::{strip_html, strip_html_tags};
use crate::text::{byte_boundary, byte_len, join, join_exec, lines, lines_exec, split_char, split_on, str_byte_len};
use crate::tracking::{trim_char, trim_char_exec};
use vstd::utf8::encode_utf8;
use crate::data::{url_enc, url_encode};
use crate::project::{slug_of, topic_to_slug};
use crate::research::{json_extract, json_extract_string};
use crate::text::{
    chars_of, command_arg, command_arg_exec, dec, eq_str, push_all, push_dec, push_str, replace_all, replace_exec,
    slice_of, starts_with, starts_with_exec, string_of, trim, trim_vec,
};

verus! {

/// The text after `sub` at the start of `args`, trimmed, when `args`
/// starts with it (`str::strip_prefix` then `trim`).
pub open spec fn sub_rest(args: Seq<char>, sub: Seq<char>) -> Option<Seq<char>> {
    if starts_with(args, sub) {
        Some(trim(args.skip(sub.len() as int)))
    } else {
        None
    }
}

/// A text, or nothing when it is empty.
pub open spec fn nonempty(s: Seq<char>) -> Option<Seq<char>> {
    if s.len() == 0 {
        None
    } else {
        Some(s)
    }
}

fn sub_rest_exec(args: &[char], sub: &str) -> (r: Option<Vec<char>>)
    ensures
        match sub_rest(args@, sub@) {
            Some(t) => r matches Some(v) && v@ == t,
            None => r is None,
        },
{
    let p = chars_of(sub);
    if starts_with_exec(args, p.as_slice()) {
        let rest = slice_of(args, p.len(), args.len());
        assert(rest@ =~= args@.skip(sub@.len() as int));
        Some(trim_vec(rest.as_slice()))
    } else {
        None
    }
}

fn nonempty_exec(v: Vec<char>) -> (r: Option<String>)
    ensures
        opt_view(r) == nonempty(v@),
{
    if v.len() == 0 {
        None
    } else {
        Some(string_of(v.as_slice()))
    }
}

/// The arguments of `/<cmd> <args>` and whether they ask for the usage.
pub open spec fn asks_help(args: Seq<char>) -> bool {
    args.len() == 0 || args == "help"@
}

// ───────────────────────── /bigkinds ─────────────────────────

/// What `/bigkinds <args>` asks for; a subcommand's text is `None` when it
/// was not given.
#[derive(Debug, Clone, PartialEq, Eq)]
pub enum BigKindsRequest {
    Help,
    Search(Option<String>),
    Trend(Option<String>),
    Related(Option<String>),
}

pub enum BigKindsRequestV {
    Help,
    Search(Option<Seq<char>>),
    Trend(Option<Seq<char>>),
    Related(Option<Seq<char>>),
}

impl View for BigKindsRequest {
    type V = BigKindsRequestV;

    open spec fn view(&self) -> BigKindsRequestV {
        match self {
            BigKindsRequest::Help => BigKindsRequestV::Help,
            BigKindsRequest::Search(k) => BigKindsRequestV::Search(opt_view(*k)),
            BigKindsRequest::Trend(k) => BigKindsRequestV::Trend(opt_view(*k)),
            BigKindsRequest::Related(k) => BigKindsRequestV::Related(opt_view(*k)),
        }
    }
}

/// What `/bigkinds <args>` asks for: `search`, `trend` or `related` when
/// the arguments start with one of them (in that order), a search for the
/// whole text otherwise.
pub open spec fn bigkinds_request_of(input: Seq<char>) -> BigKindsRequestV {
    let args = command_arg(input, "/bigkinds"@);
    if asks_help(args) {
        BigKindsRequestV::Help
    } else if let Some(k) = sub_rest(args, "search"@) {
        BigKindsRequestV::Search(nonempty(k))
    } else if let Some(k) = sub_rest(args, "trend"@) {
        BigKindsRequestV::Trend(nonempty(k))
    } else if let Some(k) = sub_rest(args, "related"@) {
        BigKindsRequestV::Related(nonempty(k))
    } else {
        BigKindsRequestV::Search(Some(args))
    }
}

/// Read what `/bigkinds <args>` asks for.
pub fn bigkinds_request(input: &str) -> (r: BigKindsRequest)
    ensures
        r@ == bigkinds_request_of(input@),
{
    let args = command_arg_exec(input, "/bigkinds");
    if args.len() == 0 || eq_str(args.as_slice(), "help") {
        return BigKindsRequest::Help;
    }
    if let Some(k) = sub_rest_exec(args.as_slice(), "search") {
        return BigKindsRequest::Search(nonempty_exec(k));
    }
    if let Some(k) = sub_rest_exec(args.as_slice(), "trend") {
        return BigKindsRequest::Trend(nonempty_exec(k));
    }
    if let Some(k) = sub_rest_exec(args.as_slice(), "related") {
        return BigKindsRequest::Related(nonempty_exec(k));
    }
    BigKindsRequest::Search(Some(string_of(args.as_slice())))
}

// ───────────────────────── /dart ─────────────────────────

/// What `/dart <args>` asks for; a subcommand's text is `None` when it was
/// not given (for `watch`: show the watch list).
#[derive(Debug, Clone, PartialEq, Eq)]
pub enum DartRequest {
    Help,
    Search(Option<String>),
    Report(Option<String>),
    Watch(Option<String>),
}

pub enum DartRequestV {
    Help,
    Search(Option<Seq<char>>),
    Report(Option<Seq<char>>),
    Watch(Option<Seq<char>>),
}

impl View for DartRequest {
    type V = DartRequestV;

    open spec fn view(&self) -> DartRequestV {
        match self {
            DartRequest::Help => DartRequestV::Help,
            DartRequest::Search(k) => DartRequestV::Search(opt_view(*k)),
            DartRequest::Report(k) => DartRequestV::Report(opt_view(*k)),
            DartRequest::Watch(k) => DartRequestV::Watch(opt_view(*k)),
        }
    }
}

/// What `/dart <args>` asks for: `search`, `report` or `watch` when the
/// arguments start with one of them (in that order), a search for the
/// whole text otherwise.
pub open spec fn dart_request_of(input: Seq<char>) -> DartRequestV {
    let args = command_arg(input, "/dart"@);
    if asks_help(args) {
        DartRequestV::Help
    } else if let Some(k) = sub_rest(args, "search"@) {
        DartRequestV::Search(nonempty(k))
    } else if let Some(k) = sub_rest(args, "report"@) {
        DartRequestV::Report(nonempty(k))
    } else if let Some(k) = sub_rest(args, "watch"@) {
        DartRequestV::Watch(nonempty(k))
    } else {
        DartRequestV::Search(Some(args))
    }
}

/// Read what `/dart <args>` asks for.
pub fn dart_request(input: &str) -> (r: DartRequest)
    ensures
        r@ == dart_request_of(input@),
{
    let args = command_arg_exec(input, "/dart");
    if args.len() == 0 || eq_str(args.as_slice(), "help") {
        return DartRequest::Help;
    }
    if let Some(k) = sub_rest_exec(args.as_slice(), "search") {
        return DartRequest::Search(nonempty_exec(k));
    }
    if let Some(k) = sub_rest_exec(args.as_slice(), "report") {
        return DartRequest::Report(nonempty_exec(k));
    }
    if let Some(k) = sub_rest_exec(args.as_slice(), "watch") {
        return DartRequest::Watch(nonempty_exec(k));
    }
    DartRequest::Search(Some(string_of(args.as_slice())))
}

/// A DART receipt number is written in ASCII digits only.
pub open spec fn all_ascii_digits(s: Seq<char>) -> bool {
    forall|i: int| 0 <= i < s.len() ==> '0' <= #[trigger] s[i] <= '9'
}

/// Whether every character is an ASCII digit (true for the empty text).
pub fn is_ascii_digits(s: &str) -> (r: bool)
    ensures
        r == all_ascii_digits(s@),
{
    let v = chars_of(s);
    let mut i: usize = 0;
    while i < v.len()
        invariant
            i <= v@.len(),
            v@ == s@,
            forall|j: int| 0 <= j < i ==> '0' <= #[trigger] v@[j] <= '9',
        decreases v@.len() - i,
    {
        if !('0' <= v[i] && v[i] <= '9') {
            return false;
        }
        i += 1;
    }
    true
}

// ───────────────────────── /assembly ─────────────────────────

/// What `/assembly <args>` asks for; a subcommand's text is `None` when it
/// was not given.
#[derive(Debug, Clone, PartialEq, Eq)]
pub enum AssemblyRequest {
    Help,
    Search(Option<String>),
    Recent,
    Bill(Option<String>),
}

pub enum AssemblyRequestV {
    Help,
    Search(Option<Seq<char>>),
    Recent,
    Bill(Option<Seq<char>>),
}

impl View for AssemblyRequest {
    type V = AssemblyRequestV;

    open spec fn view(&self) -> AssemblyRequestV {
        match self {
            AssemblyRequest::Help => AssemblyRequestV::Help,
            AssemblyRequest::Search(k) => AssemblyRequestV::Search(opt_view(*k)),
            AssemblyRequest::Recent => AssemblyRequestV::Recent,
            AssemblyRequest::Bill(k) => AssemblyRequestV::Bill(opt_view(*k)),
        }
    }
}

/// What `/assembly <args>` asks for: `search <keyword>`, `recent` (the
/// word alone or followed by a space), `bill <number>`, in that order; a
/// search for the whole text otherwise.
pub open spec fn assembly_request_of(input: Seq<char>) -> AssemblyRequestV {
    let args = command_arg(input, "/assembly"@);
    if asks_help(args) {
        AssemblyRequestV::Help
    } else if let Some(k) = sub_rest(args, "search"@) {
        AssemblyRequestV::Search(nonempty(k))
    } else if args == "recent"@ || starts_with(args, "recent "@) {
        AssemblyRequestV::Recent
    } else if let Some(k) = sub_rest(args, "bill"@) {
        AssemblyRequestV::Bill(nonempty(k))
    } else {
        AssemblyRequestV::Search(Some(args))
    }
}

/// Read what `/assembly <args>` asks for.
pub fn assembly_request(input: &str) -> (r: AssemblyRequest)
    ensures
        r@ == assembly_request_of(input@),
{
    let args = command_arg_exec(input, "/assembly");
    if args.len() == 0 || eq_str(args.as_slice(), "help") {
        return AssemblyRequest::Help;
    }
    if let Some(k) = sub_rest_exec(args.as_slice(), "search") {
        return AssemblyRequest::Search(nonempty_exec(k));
    }
    let recent_sp = chars_of("recent ");
    if eq_str(args.as_slice(), "recent") || starts_with_exec(args.as_slice(), recent_sp.as_slice()) {
        return AssemblyRequest::Recent;
    }
    if let Some(k) = sub_rest_exec(args.as_slice(), "bill") {
        return AssemblyRequest::Bill(nonempty_exec(k));
    }
    AssemblyRequest::Search(Some(string_of(args.as_slice())))
}

// ───────────────────────── requests ─────────────────────────

/// Where BIG KINDS news searches are sent.
pub const BIGKINDS_URL: &'static str = "https://tools.kinds.or.kr:8443/search/news";

/// A keyword as a JSON string body: each `"` written `\"`.
pub open spec fn json_quoted(s: Seq<char>) -> Seq<char> {
    replace_all(s, "\""@, "\\\""@)
}

/// The BIG KINDS request body for `keyword` between the dates `from` and
/// `until`: a news search returning `count` items newest first, or (with
/// no count) the plain query that trend and related-word analysis send.
pub open spec fn bigkinds_body_text(key: Seq<char>, keyword: Seq<char>, from: Seq<char>, until: Seq<char>, count: Option<nat>) -> Seq<char> {
    "{\"access_key\":\""@ + key + "\",\"argument\":{\"query\":\""@ + json_quoted(keyword)
        + "\",\"published_at\":{\"from\":\""@ + from + "\",\"until\":\""@ + until + "\"},\"provider\":[]"@
        + match count {
        Some(n) => ",\"category\":[],\"sort\":{\"date\":\"desc\"},\"hilight\":200,\"return_from\":0,\"return_size\":"@
            + dec(n) + "}}"@,
        None => "}}"@,
    }
}

/// The BIG KINDS request body (see `bigkinds_body_text`).
pub fn bigkinds_body(key: &str, keyword: &str, from: &str, until: &str, count: Option<u32>) -> (r: String)
    ensures
        r@ == bigkinds_body_text(
            key@,
            keyword@,
            from@,
            until@,
            match count {
                Some(n) => Some(n as nat),
                None => None,
            },
        ),
{
    let q = chars_of("\"");
    let eq = chars_of("\\\"");
    proof {
        reveal_strlit("\"");
    }
    let kw = replace_exec(chars_of(keyword).as_slice(), q.as_slice(), eq.as_slice());
    let mut out = chars_of("{\"access_key\":\"");
    push_str(&mut out, key);
    push_str(&mut out, "\",\"argument\":{\"query\":\"");
    push_all(&mut out, kw.as_slice());
    push_str(&mut out, "\",\"published_at\":{\"from\":\"");
    push_str(&mut out, from);
    push_str(&mut out, "\",\"until\":\"");
    push_str(&mut out, until);
    push_str(&mut out, "\"},\"provider\":[]");
    match count {
        Some(n) => {
            push_str(
                &mut out,
                ",\"category\":[],\"sort\":{\"date\":\"desc\"},\"hilight\":200,\"return_from\":0,\"return_size\":",
            );
            push_dec(&mut out, n as u64);
            push_str(&mut out, "}}");
        },
        None => {
            push_str(&mut out, "}}");
        },
    }
    string_of(out.as_slice())
}

/// A date with its dashes taken out (`YYYYMMDD`).
pub open spec fn compact_date(d: Seq<char>) -> Seq<char> {
    replace_all(d, "-"@, seq![])
}

fn compact_date_exec(d: &str) -> (r: Vec<char>)
    ensures
        r@ == compact_date(d@),
{
    let dash = chars_of("-");
    let none: Vec<char> = Vec::new();
    proof {
        reveal_strlit("-");
    }
    replace_exec(chars_of(d).as_slice(), dash.as_slice(), none.as_slice())
}

/// The DART disclosure list query for a company between two dates.
pub open spec fn dart_list_url_text(key: Seq<char>, corp: Seq<char>, from: Seq<char>, until: Seq<char>) -> Seq<char> {
    "https://opendart.fss.or.kr/api/list.json?crtfc_key="@ + key + "&corp_name="@ + url_enc(
        encode_utf8(corp),
    ) + "&bgn_de="@ + compact_date(from) + "&end_de="@ + compact_date(until)
        + "&page_count=20&sort=date&sort_mth=desc"@
}

/// The DART disclosure list query for `corp` from `from` to `until`
/// (dates as `YYYY-MM-DD`).
pub fn dart_list_url(key: &str, corp: &str, from: &str, until: &str) -> (r: String)
    ensures
        r@ == dart_list_url_text(key@, corp@, from@, until@),
{
    let mut out = chars_of("https://opendart.fss.or.kr/api/list.json?crtfc_key=");
    push_str(&mut out, key);
    push_str(&mut out, "&corp_name=");
    let e = url_encode(corp);
    push_str(&mut out, e.as_str());
    push_str(&mut out, "&bgn_de=");
    push_all(&mut out, compact_date_exec(from).as_slice());
    push_str(&mut out, "&end_de=");
    push_all(&mut out, compact_date_exec(until).as_slice());
    push_str(&mut out, "&page_count=20&sort=date&sort_mth=desc");
    string_of(out.as_slice())
}

/// The DART document query for a receipt number.
pub fn dart_report_url(key: &str, rcept_no: &str) -> (r: String)
    ensures
        r@ == "https://opendart.fss.or.kr/api/document.xml?crtfc_key="@ + key@ + "&rcept_no="@ + rcept_no@,
{
    let mut out = chars_of("https://opendart.fss.or.kr/api/document.xml?crtfc_key=");
    push_str(&mut out, key);
    push_str(&mut out, "&rcept_no=");
    push_str(&mut out, rcept_no);
    string_of(out.as_slice())
}

/// The error a DART list reply reports: its `status` when that is neither
/// `000` (normal) nor `013` (no data), with its `message`.
pub open spec fn dart_status_error_text(body: Seq<char>) -> Option<Seq<char>> {
    match json_extract(body, "status"@) {
        Some(s) => if s != "000"@ && s != "013"@ {
            Some(
                "DART API 오류 ("@ + s + "): "@ + match json_extract(body, "message"@) {
                    Some(m) => m,
                    None => seq![],
                },
            )
        } else {
            None
        },
        None => None,
    }
}

/// The error a DART list reply reports, if any.
pub fn dart_status_error(body: &str) -> (r: Option<String>)
    ensures
        opt_view(r) == dart_status_error_text(body@),
{
    match json_extract_string(body, "status") {
        Some(s) => {
            let sv = chars_of(s.as_str());
            if !eq_str(sv.as_slice(), "000") && !eq_str(sv.as_slice(), "013") {
                let mut out = chars_of("DART API 오류 (");
                push_all(&mut out, sv.as_slice());
                push_str(&mut out, "): ");
                match json_extract_string(body, "message") {
                    Some(m) => push_str(&mut out, m.as_str()),
                    None => {},
                }
                Some(string_of(out.as_slice()))
            } else {
                None
            }
        },
        None => None,
    }
}

/// The start of every National Assembly bill query.
pub const ASSEMBLY_URL: &'static str = "https://open.assembly.go.kr/portal/openapi/nzmimeepazxkubdpn?KEY=";

/// The National Assembly bill query: bills named like `keyword`, the
/// latest bills of the 22nd Assembly, or one bill by number.
pub open spec fn assembly_url_text(key: Seq<char>, query: AssemblyQuery) -> Seq<char> {
    ASSEMBLY_URL@ + key + match query {
        AssemblyQuery::Name(k) => "&Type=xml&pSize=20&BILL_NAME="@ + url_enc(encode_utf8(k)),
        AssemblyQuery::Recent => "&Type=xml&pSize=20&AGE=22"@,
        AssemblyQuery::Number(n) => "&Type=xml&pSize=5&BILL_NO="@ + url_enc(encode_utf8(n)),
    }
}

/// Which bills a National Assembly query asks for.
pub enum AssemblyQuery {
    Name(Seq<char>),
    Recent,
    Number(Seq<char>),
}

/// The query for bills whose name contains `keyword`.
pub fn assembly_search_url(key: &str, keyword: &str) -> (r: String)
    ensures
        r@ == assembly_url_text(key@, AssemblyQuery::Name(keyword@)),
{
    let mut out = chars_of(ASSEMBLY_URL);
    push_str(&mut out, key);
    push_str(&mut out, "&Type=xml&pSize=20&BILL_NAME=");
    let e = url_encode(keyword);
    push_str(&mut out, e.as_str());
    string_of(out.as_slice())
}

/// The query for the latest bills.
pub fn assembly_recent_url(key: &str) -> (r: String)
    ensures
        r@ == assembly_url_text(key@, AssemblyQuery::Recent),
{
    let mut out = chars_of(ASSEMBLY_URL);
    push_str(&mut out, key);
    push_str(&mut out, "&Type=xml&pSize=20&AGE=22");
    string_of(out.as_slice())
}

/// The query for the bill numbered `bill_no`.
pub fn assembly_bill_url(key: &str, bill_no: &str) -> (r: String)
    ensures
        r@ == assembly_url_text(key@, AssemblyQuery::Number(bill_no@)),
{
    let mut out = chars_of(ASSEMBLY_URL);
    push_str(&mut out, key);
    push_str(&mut out, "&Type=xml&pSize=5&BILL_NO=");
    let e = url_encode(bill_no);
    push_str(&mut out, e.as_str());
    string_of(out.as_slice())
}

/// The file a BIG KINDS or DART reply is cached in on `date`:
/// `<date>_<subcommand>_<keyword slug, at most 30>.json`.
pub open spec fn cache_file_text(date: Seq<char>, sub: Seq<char>, keyword: Seq<char>) -> Seq<char> {
    date + "_"@ + sub + "_"@ + slug_of(keyword, 30) + ".json"@
}

/// The cache file name of a reply.
pub fn data_cache_name(date: &str, sub: &str, keyword: &str) -> (r: String)
    ensures
        r@ == cache_file_text(date@, sub@, keyword@),
{
    let mut out = chars_of(date);
    push_str(&mut out, "_");
    push_str(&mut out, sub);
    push_str(&mut out, "_");
    let slug = topic_to_slug(keyword, 30);
    push_str(&mut out, slug.as_str());
    push_str(&mut out, ".json");
    string_of(out.as_slice())
}

// ───────────────────────── result texts ─────────────────────────

/// Two pieces of metadata joined by ` | `, leaving out an empty one.
pub open spec fn meta_join(a: Seq<char>, b: Seq<char>) -> Seq<char> {
    if a.len() > 0 && b.len() > 0 {
        a + " | "@ + b
    } else if a.len() > 0 {
        a
    } else {
        b
    }
}

fn meta_join_exec(a: &[char], b: &[char]) -> (r: Vec<char>)
    ensures
        r@ == meta_join(a@, b@),
{
    let mut out = slice_of(a, 0, a.len());
    assert(out@ =~= a@);
    if a.len() > 0 && b.len() > 0 {
        push_str(&mut out, " | ");
        push_all(&mut out, b);
    } else if a.len() == 0 {
        out = slice_of(b, 0, b.len());
        assert(out@ =~= b@);
    }
    out
}

/// A dimmed, indented detail line; nothing for an empty text.
pub open spec fn detail_line(t: Seq<char>) -> Seq<char> {
    if t.len() > 0 {
        "  "@ + DIM@ + "    "@ + t + RESET@ + "\n"@
    } else {
        seq![]
    }
}

fn push_detail(out: &mut Vec<char>, t: &[char])
    ensures
        final(out)@ == old(out)@ + detail_line(t@),
{
    if t.len() > 0 {
        let ghost start = out@;
        push_str(out, "  ");
        push_str(out, DIM);
        push_str(out, "    ");
        push_all(out, t);
        push_str(out, RESET);
        push_str(out, "\n");
        assert(out@ =~= start + detail_line(t@));
    } else {
        assert(old(out)@ + detail_line(t@) =~= old(out)@);
    }
}

/// The numbered, bold headline of a result.
pub open spec fn headline(n: nat, title: Seq<char>) -> Seq<char> {
    "  "@ + BOLD@ + YELLOW@ + "["@ + dec(n) + "]"@ + RESET@ + " "@ + BOLD@ + title + RESET@ + "\n"@
}

fn push_headline(out: &mut Vec<char>, n: usize, title: &str)
    ensures
        final(out)@ == old(out)@ + headline(n as nat, title@),
{
    let ghost start = out@;
    push_str(out, "  ");
    push_str(out, BOLD);
    push_str(out, YELLOW);
    push_str(out, "[");
    push_dec(out, n as u64);
    push_str(out, "]");
    push_str(out, RESET);
    push_str(out, " ");
    push_str(out, BOLD);
    push_str(out, title);
    push_str(out, RESET);
    push_str(out, "\n");
    assert(out@ =~= start + headline(n as nat, title@));
}

/// How BIG KINDS search result number `n` is shown: the title, the press
/// and date, the summary and the link (each line only when it has text),
/// then a blank line.
pub open spec fn bigkinds_item_text(n: nat, it: crate::data::BigKindsItemV) -> Seq<char> {
    headline(n, it.title) + detail_line(meta_join(it.provider, it.date)) + detail_line(it.summary)
        + detail_line(it.url) + "\n"@
}

/// How BIG KINDS search result number `n` is shown.
pub fn bigkinds_item_block(n: usize, item: &BigKindsItem) -> (r: String)
    ensures
        r@ == bigkinds_item_text(n as nat, item@),
{
    let mut out: Vec<char> = Vec::new();
    push_headline(&mut out, n, item.title.as_str());
    let meta = meta_join_exec(chars_of(item.provider.as_str()).as_slice(), chars_of(item.date.as_str()).as_slice());
    push_detail(&mut out, meta.as_slice());
    push_detail(&mut out, chars_of(item.summary.as_str()).as_slice());
    push_detail(&mut out, chars_of(item.url.as_str()).as_slice());
    push_str(&mut out, "\n");
    assert(out@ =~= bigkinds_item_text(n as nat, item@));
    string_of(out.as_slice())
}

/// An eight-byte receipt date can be cut after its year and its month.
pub open spec fn dart_date_cuttable(raw: Seq<char>) -> bool {
    byte_len(raw) == 8 ==> byte_boundary(raw, 4) && byte_boundary(raw, 6)
}

/// How DART disclosure number `n` is shown: the report name, the company,
/// date and filer, and the receipt number, then a blank line.
pub open spec fn dart_item_text(n: nat, it: crate::data::DartItemV) -> Seq<char> {
    headline(n, it.report_nm) + detail_line(meta_join(meta_join(it.corp_name, dart_date(it.rcept_dt)), it.flr_nm))
        + "  "@ + DIM@ + "    공시번호: "@ + it.rcept_no + RESET@ + "\n"@ + "\n"@
}

/// How DART disclosure number `n` is shown.
pub fn dart_item_block(n: usize, item: &DartItem) -> (r: String)
    requires
        dart_date_cuttable(item.rcept_dt@),
    ensures
        r@ == dart_item_text(n as nat, item@),
{
    let mut out: Vec<char> = Vec::new();
    push_headline(&mut out, n, item.report_nm.as_str());
    let d = format_dart_date(item.rcept_dt.as_str());
    let m1 = meta_join_exec(chars_of(item.corp_name.as_str()).as_slice(), chars_of(d.as_str()).as_slice());
    let meta = meta_join_exec(m1.as_slice(), chars_of(item.flr_nm.as_str()).as_slice());
    push_detail(&mut out, meta.as_slice());
    let ghost mid = out@;
    push_str(&mut out, "  ");
    push_str(&mut out, DIM);
    push_str(&mut out, "    공시번호: ");
    push_str(&mut out, item.rcept_no.as_str());
    push_str(&mut out, RESET);
    push_str(&mut out, "\n");
    push_str(&mut out, "\n");
    assert(out@ =~= dart_item_text(n as nat, item@));
    string_of(out.as_slice())
}

/// The proposal date as shown: formatted, or nothing when there is none.
pub open spec fn shown_date(raw: Seq<char>) -> Seq<char> {
    if raw.len() > 0 {
        assembly_date(raw)
    } else {
        seq![]
    }
}

/// A labelled line of the bill list, when the value has text.
pub open spec fn labelled(label: Seq<char>, v: Seq<char>) -> Seq<char> {
    if v.len() > 0 {
        "  "@ + DIM@ + "    "@ + label + v + RESET@ + "\n"@
    } else {
        seq![]
    }
}

fn push_labelled(out: &mut Vec<char>, label: &str, v: &str)
    ensures
        final(out)@ == old(out)@ + labelled(label@, v@),
{
    if chars_of(v).len() > 0 {
        let ghost start = out@;
        push_str(out, "  ");
        push_str(out, DIM);
        push_str(out, "    ");
        push_str(out, label);
        push_str(out, v);
        push_str(out, RESET);
        push_str(out, "\n");
        assert(out@ =~= start + labelled(label@, v@));
    } else {
        assert(old(out)@ + labelled(label@, v@) =~= old(out)@);
    }
}

/// How bill number `n` of a list is shown: its name, the proposer,
/// proposal date and committee, its status and its number, then a blank
/// line.
pub open spec fn assembly_bill_text(n: nat, b: crate::data::AssemblyBillV) -> Seq<char> {
    headline(n, b.bill_name) + detail_line(meta_join(meta_join(b.proposer, shown_date(b.propose_dt)), b.committee))
        + labelled("처리상태: "@, b.proc_result) + labelled("의안번호: "@, b.bill_no) + "\n"@
}

/// How bill number `n` of a list is shown.
pub fn assembly_bill_block(n: usize, bill: &AssemblyBill) -> (r: String)
    ensures
        r@ == assembly_bill_text(n as nat, bill@),
{
    let mut out: Vec<char> = Vec::new();
    push_headline(&mut out, n, bill.bill_name.as_str());
    let d: Vec<char> = if chars_of(bill.propose_dt.as_str()).len() > 0 {
        let f = format_assembly_date(bill.propose_dt.as_str());
        chars_of(f.as_str())
    } else {
        Vec::new()
    };
    let m1 = meta_join_exec(chars_of(bill.proposer.as_str()).as_slice(), d.as_slice());
    let meta = meta_join_exec(m1.as_slice(), chars_of(bill.committee.as_str()).as_slice());
    push_detail(&mut out, meta.as_slice());
    push_labelled(&mut out, "처리상태: ", bill.proc_result.as_str());
    push_labelled(&mut out, "의안번호: ", bill.bill_no.as_str());
    push_str(&mut out, "\n");
    assert(out@ =~= assembly_bill_text(n as nat, bill@));
    string_of(out.as_slice())
}

/// A bold-labelled line of the bill details, when the value has text.
pub open spec fn field_line(label: Seq<char>, gap: Seq<char>, v: Seq<char>) -> Seq<char> {
    if v.len() > 0 {
        "  "@ + BOLD@ + label + RESET@ + gap + v + "\n"@
    } else {
        seq![]
    }
}

fn push_field(out: &mut Vec<char>, label: &str, gap: &str, v: &[char])
    ensures
        final(out)@ == old(out)@ + field_line(label@, gap@, v@),
{
    if v.len() > 0 {
        let ghost start = out@;
        push_str(out, "  ");
        push_str(out, BOLD);
        push_str(out, label);
        push_str(out, RESET);
        push_str(out, gap);
        push_all(out, v);
        push_str(out, "\n");
        assert(out@ =~= start + field_line(label@, gap@, v@));
    } else {
        assert(old(out)@ + field_line(label@, gap@, v@) =~= old(out)@);
    }
}

/// What `/assembly bill <number>` shows for the bill found.
pub open spec fn assembly_detail_text(b: crate::data::AssemblyBillV) -> Seq<char> {
    "\n  "@ + BOLD@ + "법안 상세 정보 (의안번호: "@ + b.bill_no + ")"@ + RESET@ + "\n\n"@ + "  "@ + BOLD@
        + "법안명:"@ + RESET@ + "   "@ + b.bill_name + "\n"@ + field_line("발의자:"@, "   "@, b.proposer)
        + field_line("발의일:"@, "   "@, shown_date(b.propose_dt)) + field_line("소관위:"@, "   "@, b.committee)
        + field_line("처리상태:"@, " "@, b.proc_result) + field_line(
        "상세URL:"@,
        "  "@,
        if b.bill_id.len() > 0 {
            "https://likms.assembly.go.kr/bill/billDetail.do?billId="@ + b.bill_id
        } else {
            seq![]
        },
    ) + "\n"@
}

/// What `/assembly bill <number>` shows for the bill found.
pub fn assembly_detail(bill: &AssemblyBill) -> (r: String)
    ensures
        r@ == assembly_detail_text(bill@),
{
    let mut out = chars_of("\n  ");
    push_str(&mut out, BOLD);
    push_str(&mut out, "법안 상세 정보 (의안번호: ");
    push_str(&mut out, bill.bill_no.as_str());
    push_str(&mut out, ")");
    push_str(&mut out, RESET);
    push_str(&mut out, "\n\n");
    push_str(&mut out, "  ");
    push_str(&mut out, BOLD);
    push_str(&mut out, "법안명:");
    push_str(&mut out, RESET);
    push_str(&mut out, "   ");
    push_str(&mut out, bill.bill_name.as_str());
    push_str(&mut out, "\n");
    push_field(&mut out, "발의자:", "   ", chars_of(bill.proposer.as_str()).as_slice());
    let d: Vec<char> = if chars_of(bill.propose_dt.as_str()).len() > 0 {
        let f = format_assembly_date(bill.propose_dt.as_str());
        chars_of(f.as_str())
    } else {
        Vec::new()
    };
    push_field(&mut out, "발의일:", "   ", d.as_slice());
    push_field(&mut out, "소관위:", "   ", chars_of(bill.committee.as_str()).as_slice());
    push_field(&mut out, "처리상태:", " ", chars_of(bill.proc_result.as_str()).as_slice());
    let u: Vec<char> = if chars_of(bill.bill_id.as_str()).len() > 0 {
        let mut u = chars_of("https://likms.assembly.go.kr/bill/billDetail.do?billId=");
        push_str(&mut u, bill.bill_id.as_str());
        u
    } else {
        Vec::new()
    };
    push_field(&mut out, "상세URL:", "  ", u.as_slice());
    push_str(&mut out, "\n");
    assert(out@ =~= assembly_detail_text(bill@));
    string_of(out.as_slice())
}

// ───────────────────────── DART watch list ─────────────────────────

/// The names in the pieces of a watch list: each trimmed, its quotes
/// stripped, and dropped when nothing is left.
pub open spec fn watch_names(ps: Seq<Seq<char>>) -> Seq<Seq<char>>
    decreases ps.len(),
{
    if ps.len() == 0 {
        seq![]
    } else {
        let r = watch_names(ps.drop_last());
        let t = trim_char(trim(ps.last()), '"');
        if t.len() > 0 {
            r.push(t)
        } else {
            r
        }
    }
}

/// The companies a watch list file names: the comma-separated entries
/// between its opening `[` and its last character (nothing when it does
/// not start with `[`).
pub open spec fn watchlist_of(content: Seq<char>) -> Seq<Seq<char>> {
    let t = trim(content);
    if t.len() > 0 && t[0] == '[' {
        watch_names(split_on(t.subrange(1, t.len() - 1), ','))
    } else {
        seq![]
    }
}

/// A file that starts with `[` has a last character after it, of one
/// byte, where the list is cut.
pub open spec fn watchlist_readable(content: Seq<char>) -> bool {
    let t = trim(content);
    (t.len() > 0 && t[0] == '[') ==> (t.len() >= 2 && t.last() <= '\x7f')
}

/// Read the DART watch list from the text of its file.
pub fn parse_watchlist(content: &str) -> (r: Vec<String>)
    requires
        watchlist_readable(content@),
    ensures
        r@.map_values(|s: String| s@) == watchlist_of(content@),
{
    let t = trim_vec(chars_of(content).as_slice());
    let mut out: Vec<String> = Vec::new();
    if !(t.len() > 0 && t[0] == '[') {
        assert(out@.map_values(|s: String| s@) =~= Seq::<Seq<char>>::empty());
        return out;
    }
    let inner = slice_of(t.as_slice(), 1, t.len() - 1);
    let ps = split_char(inner.as_slice(), ',');
    let ghost pv = ps.deep_view();
    let mut i: usize = 0;
    assert(out@.map_values(|s: String| s@) =~= watch_names(pv.take(0)));
    while i < ps.len()
        invariant
            i <= ps@.len(),
            pv == ps.deep_view(),
            out@.map_values(|s: String| s@) == watch_names(pv.take(i as int)),
        decreases ps@.len() - i,
    {
        assert(pv.take(i + 1).drop_last() =~= pv.take(i as int));
        assert(ps[i as int]@ == pv[i as int]);
        let tr = trim_vec(ps[i].as_slice());
        let name = trim_char_exec(tr.as_slice(), '"');
        let ghost before = out@.map_values(|s: String| s@);
        if name.len() > 0 {
            out.push(string_of(name.as_slice()));
            assert(out@.map_values(|s: String| s@) =~= before.push(name@));
        }
        i += 1;
    }
    assert(pv.take(ps@.len() as int) =~= pv);
    out
}

/// The watch list as its file holds it: `["name1","name2"]`.
pub open spec fn watchlist_text(names: Seq<Seq<char>>) -> Seq<char> {
    "["@ + join(names.map_values(|n: Seq<char>| "\""@ + n + "\""@), ","@) + "]"@
}

/// Write the DART watch list as the text of its file.
pub fn watchlist_json(names: &Vec<String>) -> (r: String)
    ensures
        r@ == watchlist_text(names@.map_values(|s: String| s@)),
{
    let ghost nv = names@.map_values(|s: String| s@);
    let mut quoted: Vec<Vec<char>> = Vec::new();
    let mut i: usize = 0;
    while i < names.len()
        invariant
            i <= names@.len(),
            nv == names@.map_values(|s: String| s@),
            quoted.deep_view() == nv.take(i as int).map_values(|n: Seq<char>| "\""@ + n + "\""@),
        decreases names@.len() - i,
    {
        let mut q = chars_of("\"");
        push_str(&mut q, names[i].as_str());
        push_str(&mut q, "\"");
        assert(nv[i as int] == names@[i as int]@);
        assert(q@ == "\""@ + nv[i as int] + "\""@);
        crate::text::push_word(&mut quoted, q);
        assert(nv.take(i + 1).map_values(|n: Seq<char>| "\""@ + n + "\""@) =~= nv.take(i as int).map_values(
            |n: Seq<char>| "\""@ + n + "\""@,
        ).push("\""@ + nv[i as int] + "\""@));
        i += 1;
    }
    assert(nv.take(names@.len() as int) =~= nv);
    let mut out = chars_of("[");
    let comma = chars_of(",");
    let body = join_exec(&quoted, comma.as_slice());
    push_all(&mut out, body.as_slice());
    push_str(&mut out, "]");
    string_of(out.as_slice())
}

/// The first position, from `i` on, holding `name`.
pub open spec fn watch_index(v: Seq<Seq<char>>, name: Seq<char>, i: int) -> Option<int>
    decreases v.len() - i,
{
    if i < 0 || i >= v.len() {
        None
    } else if v[i] == name {
        Some(i)
    } else {
        watch_index(v, name, i + 1)
    }
}

/// The watch list after `/dart watch <name>`: the name taken out where it
/// is listed (its first place), added at the end where it is not.
pub open spec fn watch_toggled(v: Seq<Seq<char>>, name: Seq<char>) -> Seq<Seq<char>> {
    match watch_index(v, name, 0) {
        Some(k) => v.remove(k),
        None => v.push(name),
    }
}

/// Register `name` on the watch list, or take it off when it is there;
/// returns whether it was added.
pub fn toggle_watch(list: &mut Vec<String>, name: &str) -> (r: bool)
    ensures
        final(list)@.map_values(|s: String| s@) == watch_toggled(old(list)@.map_values(|s: String| s@), name@),
        r == (watch_index(old(list)@.map_values(|s: String| s@), name@, 0) is None),
{
    let ghost v = list@.map_values(|s: String| s@);
    let nv = chars_of(name);
    let mut i: usize = 0;
    while i < list.len()
        invariant
            i <= list@.len(),
            v == list@.map_values(|s: String| s@),
            list@ == old(list)@,
            nv@ == name@,
            watch_index(v, name@, 0) == watch_index(v, name@, i as int),
        decreases list@.len() - i,
    {
        let item = chars_of(list[i].as_str());
        if crate::text::eq_exec(item.as_slice(), nv.as_slice()) {
            assert(v[i as int] == name@);
            assert(watch_index(v, name@, i as int) == Some(i as int));
            list.remove(i);
            assert(list@.map_values(|s: String| s@) =~= v.remove(i as int));
            return false;
        }
        assert(v[i as int] != name@);
        i += 1;
    }
    list.push(string_of(nv.as_slice()));
    assert(list@.map_values(|s: String| s@) =~= v.push(name@));
    true
}

proof fn lemma_watch_index_push(v: Seq<Seq<char>>, name: Seq<char>, i: int)
    requires
        0 <= i <= v.len(),
        watch_index(v, name, i) is None,
    ensures
        watch_index(v.push(name), name, i) == Some(v.len() as int),
    decreases v.len() - i,
{
    if i < v.len() {
        lemma_watch_index_push(v, name, i + 1);
    }
}

/// Registering a company that is not on the watch list and then taking it
/// off again leaves the list as it was.
pub proof fn lemma_watch_toggle_twice(v: Seq<Seq<char>>, name: Seq<char>)
    requires
        watch_index(v, name, 0) is None,
    ensures
        watch_toggled(watch_toggled(v, name), name) == v,
{
    lemma_watch_index_push(v, name, 0);
    assert(v.push(name).remove(v.len() as int) =~= v);
}

// ───────────────────────── DART report ─────────────────────────

/// The trimmed, non-empty lines among the first `k`.
pub open spec fn kept_lines(ls: Seq<Seq<char>>, k: int) -> Seq<Seq<char>>
    decreases k,
{
    if k <= 0 {
        seq![]
    } else if trim(ls[k - 1]).len() > 0 {
        kept_lines(ls, k - 1).push(trim(ls[k - 1]))
    } else {
        kept_lines(ls, k - 1)
    }
}

/// What `/dart report` shows of a document: nothing when its text (tags
/// taken out) is empty; else the trimmed, non-empty lines among the first
/// 80 lines of its first 3000 characters, and whether the document is
/// longer than 3000 bytes.
pub open spec fn dart_report_view_of(content: Seq<char>) -> Option<(Seq<Seq<char>>, bool)> {
    let text = strip_html(content);
    let t = if text.len() > 3000 {
        text.take(3000)
    } else {
        text
    };
    if t.len() == 0 {
        None
    } else {
        let ls = lines(t);
        Some(
            (
                kept_lines(
                    ls,
                    if ls.len() > 80 {
                        80
                    } else {
                        ls.len() as int
                    },
                ),
                byte_len(content) > 3000,
            ),
        )
    }
}

/// What `/dart report` shows of a document (see `dart_report_view_of`).
pub fn dart_report_view(content: &str) -> (r: Option<(Vec<String>, bool)>)
    ensures
        match dart_report_view_of(content@) {
            Some((ls, more)) => r matches Some(p) && p.0@.map_values(|s: String| s@) == ls && p.1 == more,
            None => r is None,
        },
{
    let text = strip_html_tags(content);
    let tv = chars_of(text.as_str());
    let n = if tv.len() > 3000 {
        3000
    } else {
        tv.len()
    };
    let t = slice_of(tv.as_slice(), 0, n);
    assert(t@ =~= (if tv@.len() > 3000 { tv@.take(3000) } else { tv@ }));
    if t.len() == 0 {
        return None;
    }
    let ls = lines_exec(t.as_slice());
    let ghost lv = ls.deep_view();
    let k = if ls.len() > 80 {
        80
    } else {
        ls.len()
    };
    let mut out: Vec<String> = Vec::new();
    let mut i: usize = 0;
    while i < k
        invariant
            i <= k <= ls@.len(),
            lv == ls.deep_view(),
            out@.map_values(|s: String| s@) == kept_lines(lv, i as int),
        decreases k - i,
    {
        assert(ls[i as int]@ == lv[i as int]);
        let tr = trim_vec(ls[i].as_slice());
        let ghost before = out@.map_values(|s: String| s@);
        if tr.len() > 0 {
            out.push(string_of(tr.as_slice()));
            assert(out@.map_values(|s: String| s@) =~= before.push(tr@));
        }
        i += 1;
    }
    let more = str_byte_len(content) > 3000;
    Some((out, more))
}

// ───────────────────────── BIG KINDS trend ─────────────────────────

/// The sum of the counts of the first `k` trend points.
pub open spec fn trend_sum(v: Seq<crate::data::BigKindsTrendV>, k: int) -> nat
    decreases k,
{
    if k <= 0 {
        0
    } else {
        (trend_sum(v, k - 1) + v[k - 1].count) as nat
    }
}

/// The total count of the trend points, when it fits in `u64`.
pub fn trend_total(trends: &Vec<crate::data::BigKindsTrend>) -> (r: Option<u64>)
    ensures
        match r {
            Some(t) => t == trend_sum(trends@.map_values(|x: crate::data::BigKindsTrend| x@), trends@.len() as int),
            None => trend_sum(trends@.map_values(|x: crate::data::BigKindsTrend| x@), trends@.len() as int) > u64::MAX,
        },
{
    let ghost v = trends@.map_values(|x: crate::data::BigKindsTrend| x@);
    let mut total: u64 = 0;
    let mut i: usize = 0;
    while i < trends.len()
        invariant
            i <= trends@.len(),
            v == trends@.map_values(|x: crate::data::BigKindsTrend| x@),
            total == trend_sum(v, i as int),
        decreases trends@.len() - i,
    {
        assert(v[i as int].count == trends[i as int].count);
        match total.checked_add(trends[i].count) {
            Some(t) => {
                total = t;
            },
            None => {
                proof {
                    lemma_trend_sum_grows(v, i as int + 1, trends@.len() as int);
                }
                return None;
            },
        }
        i += 1;
    }
    Some(total)
}

proof fn lemma_trend_sum_grows(v: Seq<crate::data::BigKindsTrendV>, a: int, b: int)
    requires
        0 <= a <= b <= v.len(),
    ensures
        trend_sum(v, a) <= trend_sum(v, b),
    decreases b - a,
{
    if a < b {
        lemma_trend_sum_grows(v, a, b - 1);
    }
}

} // verus!
