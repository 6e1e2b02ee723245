//! `/clip`: saving a web article. What a request asks for, how the page is
//! fetched, what the assistant is asked, and how a saved clip is written
//! and read back.
use vstd::prelude::*;
use crate::order::{key_order, keys_view, order_by_key};
use crate::text::{
    chars_of, lines, lines_exec, push_all, push_str, replace_all, replace_exec,
    slice_of, split_ws, starts_with, starts_with_exec, string_of, words,
};

verus! {

/// What `/clip <args>` asks for.
#[derive(Debug, Clone, PartialEq, Eq)]
pub enum ClipRequest {
    /// Show how to use `/clip`.
    Help,
    /// List the saved clips.
    List,
    /// Fetch and save the article at this URL.
    Fetch(String),
    /// The first word is not an `http://` or `https://` URL.
    InvalidUrl(String),
}

pub enum ClipRequestV {
    Help,
    List,
    Fetch(Seq<char>),
    InvalidUrl(Seq<char>),
}

impl View for ClipRequest {
    type V = ClipRequestV;

    open spec fn view(&self) -> ClipRequestV {
        match self {
            ClipRequest::Help => ClipRequestV::Help,
            ClipRequest::List => ClipRequestV::List,
            ClipRequest::Fetch(u) => ClipRequestV::Fetch(u@),
            ClipRequest::InvalidUrl(u) => ClipRequestV::InvalidUrl(u@),
        }
    }
}

/// The URL of `/clip <args>`: its first word (all of it when it has none).
pub open spec fn clip_url(args: Seq<char>) -> Seq<char> {
    if words(args).len() > 0 {
        words(args)[0]
    } else {
        args
    }
}

/// What `/clip <args>` asks for (`args` already trimmed).
pub open spec fn clip_request_of(args: Seq<char>) -> ClipRequestV {
    if args.len() == 0 || args == "help"@ {
        ClipRequestV::Help
    } else if args == "list"@ {
        ClipRequestV::List
    } else {
        let url = clip_url(args);
        if starts_with(url, "http://"@) || starts_with(url, "https://"@) {
            ClipRequestV::Fetch(url)
        } else {
            ClipRequestV::InvalidUrl(url)
        }
    }
}

/// Read what `/clip <args>` asks for.
pub fn clip_request(args: &str) -> (r: ClipRequest)
    ensures
        r@ == clip_request_of(args@),
{
    let a = chars_of(args);
    let help = chars_of("help");
    let list = chars_of("list");
    if a.len() == 0 || crate::text::eq_exec(a.as_slice(), help.as_slice()) {
        return ClipRequest::Help;
    }
    if crate::text::eq_exec(a.as_slice(), list.as_slice()) {
        return ClipRequest::List;
    }
    let ws = split_ws(a.as_slice());
    let url = if ws.len() > 0 {
        assert(ws.deep_view()[0] == ws@[0]@);
        slice_of(ws[0].as_slice(), 0, ws[0].len())
    } else {
        slice_of(a.as_slice(), 0, a.len())
    };
    assert(url@ =~= clip_url(args@));
    let http = chars_of("http://");
    let https = chars_of("https://");
    if starts_with_exec(url.as_slice(), http.as_slice()) || starts_with_exec(url.as_slice(), https.as_slice()) {
        ClipRequest::Fetch(string_of(url.as_slice()))
    } else {
        ClipRequest::InvalidUrl(string_of(url.as_slice()))
    }
}

/// The shell pipeline that fetches a page as text: the URL single-quoted
/// (each `'` written `'\''`), tags stripped, at most 50000 bytes.
pub open spec fn clip_fetch_command_text(url: Seq<char>) -> Seq<char> {
    "curl -sL --max-time 15 '"@ + replace_all(url, "'"@, "'\\''"@)
        + "' | sed 's/<[^>]*>//g' | head -c 50000"@
}

/// The shell pipeline that fetches the page at `url` as text.
pub fn clip_fetch_command(url: &str) -> (r: String)
    ensures
        r@ == clip_fetch_command_text(url@),
{
    let mut out = chars_of("curl -sL --max-time 15 '");
    let q = chars_of("'");
    proof {
        reveal_strlit("'");
    }
    let esc = chars_of("'\\''");
    let e = replace_exec(chars_of(url).as_slice(), q.as_slice(), esc.as_slice());
    push_all(&mut out, e.as_slice());
    push_str(&mut out, "' | sed 's/<[^>]*>//g' | head -c 50000");
    string_of(out.as_slice())
}

/// What the assistant is asked to make of a fetched page.
pub open spec fn clip_prompt_text(url: Seq<char>, raw: Seq<char>) -> Seq<char> {
    "다음은 웹 페이지에서 HTML 태그를 제거한 텍스트입니다. 여기서 **기사 본문만** 추출해주세요. 광고, 메뉴, 푸터, 관련기사 목록 등은 모두 제외하세요.\n제목이 있으면 맨 위에 # 제목 형식으로 포함하세요.\n날짜, 기자명이 보이면 제목 아래에 메타 정보로 포함하세요.\n본문은 원문 그대로 유지하되, 깨끗하게 정리해주세요.\n\n출처 URL: "@
        + url + "\n\n---\n\n"@ + raw
}

/// The request to extract the article body from the text of a fetched page.
pub fn clip_prompt(url: &str, raw: &str) -> (r: String)
    ensures
        r@ == clip_prompt_text(url@, raw@),
{
    let mut out = chars_of(
        "다음은 웹 페이지에서 HTML 태그를 제거한 텍스트입니다. 여기서 **기사 본문만** 추출해주세요. 광고, 메뉴, 푸터, 관련기사 목록 등은 모두 제외하세요.\n제목이 있으면 맨 위에 # 제목 형식으로 포함하세요.\n날짜, 기자명이 보이면 제목 아래에 메타 정보로 포함하세요.\n본문은 원문 그대로 유지하되, 깨끗하게 정리해주세요.\n\n출처 URL: ",
    );
    push_str(&mut out, url);
    push_str(&mut out, "\n\n---\n\n");
    push_str(&mut out, raw);
    string_of(out.as_slice())
}

/// A saved clip: a comment naming the source, a blank line, the article.
pub open spec fn clip_file_text(url: Seq<char>, content: Seq<char>) -> Seq<char> {
    "<!-- source: "@ + url + " -->\n\n"@ + content
}

/// The text a clip is saved as.
pub fn clip_file_content(url: &str, content: &str) -> (r: String)
    ensures
        r@ == clip_file_text(url@, content@),
{
    let mut out = chars_of("<!-- source: ");
    push_str(&mut out, url);
    push_str(&mut out, " -->\n\n");
    push_str(&mut out, content);
    string_of(out.as_slice())
}

/// The source URL a saved clip names on its first line, or nothing.
pub open spec fn clip_source_text(content: Seq<char>) -> Seq<char> {
    let ls = lines(content);
    if ls.len() > 0 && starts_with(ls[0], "<!-- source: "@) {
        let rest = ls[0].skip(13);
        if rest.len() >= 4 && rest.skip(rest.len() - 4) == " -->"@ {
            rest.take(rest.len() - 4)
        } else {
            seq![]
        }
    } else {
        seq![]
    }
}

/// The source URL a saved clip names on its first line (empty when it
/// names none).
pub fn clip_source(content: &str) -> (r: String)
    ensures
        r@ == clip_source_text(content@),
{
    let ls = lines_exec(chars_of(content).as_slice());
    let pre = chars_of("<!-- source: ");
    proof {
        reveal_strlit("<!-- source: ");
        reveal_strlit(" -->");
    }
    if ls.len() == 0 {
        let e: Vec<char> = Vec::new();
        return string_of(e.as_slice());
    }
    assert(ls.deep_view()[0] == ls@[0]@);
    if !starts_with_exec(ls[0].as_slice(), pre.as_slice()) {
        let e: Vec<char> = Vec::new();
        return string_of(e.as_slice());
    }
    let rest = slice_of(ls[0].as_slice(), 13, ls[0].len());
    assert(rest@ =~= ls@[0]@.skip(13));
    let n = rest.len();
    if n >= 4 {
        let tail = slice_of(rest.as_slice(), n - 4, n);
        assert(tail@ =~= rest@.skip(n - 4));
        if crate::text::eq_str(tail.as_slice(), " -->") {
            let body = slice_of(rest.as_slice(), 0, n - 4);
            assert(body@ =~= rest@.take(n - 4));
            return string_of(body.as_slice());
        }
    }
    let e: Vec<char> = Vec::new();
    string_of(e.as_slice())
}

/// The clips' file names newest first: sorted by name, then reversed.
pub open spec fn newest_first(names: Seq<Seq<char>>, r: Seq<usize>) -> bool {
    key_order(names, r.reverse())
}

/// The order `/clip list` shows the saved clips in (indices into `names`):
/// by file name, descending (the names start with the date).
pub fn clip_list_order(names: &Vec<String>) -> (r: Vec<usize>)
    ensures
        newest_first(keys_view(names@), r@),
{
    let asc = order_by_key(names);
    let mut out: Vec<usize> = Vec::new();
    let mut k: usize = asc.len();
    while k > 0
        invariant
            k <= asc@.len(),
            out@ == asc@.skip(k as int).reverse(),
        decreases k,
    {
        k -= 1;
        let ghost before = out@;
        out.push(asc[k]);
        assert(asc@.skip(k as int).reverse() =~= before.push(asc@[k as int]));
    }
    assert(asc@.skip(0) =~= asc@);
    assert(out@.reverse() =~= asc@);
    out
}

} // verus!
