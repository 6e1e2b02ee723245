//! `/law`: legal terminology from the 법제처 API: the request, the query,
//! reading the terms out of the reply's items, and what is shown.
use vstd::prelude::*;
use crate::editorial::opt_view;
use crate::press::{pad3, preview_chars, push_pad3, push_preview, space_split, split_at_space};
use crate::style::{BOLD, CYAN, DIM, RESET};
use crate::text::{
    chars_of, dec, push_all, push_dec, push_str, replace_all, replace_exec, string_of,
};

verus! {

/// One entry of the reply's item list: the texts the terminology API may
/// give under each name (`None` where the entry has no text under it).
#[derive(Debug, Clone)]
pub struct LawItem {
    pub term_nm: Option<String>,
    pub lgl_trm_nm: Option<String>,
    pub term_df: Option<String>,
    pub lgl_trm_dfn: Option<String>,
    pub rl_lw_nm: Option<String>,
    pub law_nm: Option<String>,
}

pub struct LawItemV {
    pub term_nm: Option<Seq<char>>,
    pub lgl_trm_nm: Option<Seq<char>>,
    pub term_df: Option<Seq<char>>,
    pub lgl_trm_dfn: Option<Seq<char>>,
    pub rl_lw_nm: Option<Seq<char>>,
    pub law_nm: Option<Seq<char>>,
}

impl View for LawItem {
    type V = LawItemV;

    open spec fn view(&self) -> LawItemV {
        LawItemV {
            term_nm: opt_view(self.term_nm),
            lgl_trm_nm: opt_view(self.lgl_trm_nm),
            term_df: opt_view(self.term_df),
            lgl_trm_dfn: opt_view(self.lgl_trm_dfn),
            rl_lw_nm: opt_view(self.rl_lw_nm),
            law_nm: opt_view(self.law_nm),
        }
    }
}

/// A single legal terminology result.
#[derive(Debug, Clone)]
pub struct LawTerm {
    pub term: String,
    pub definition: String,
    pub law_name: String,
}

pub struct LawTermV {
    pub term: Seq<char>,
    pub definition: Seq<char>,
    pub law_name: Seq<char>,
}

impl View for LawTerm {
    type V = LawTermV;

    open spec fn view(&self) -> LawTermV {
        LawTermV { term: self.term@, definition: self.definition@, law_name: self.law_name@ }
    }
}

/// The first of two alternative texts that is present, or nothing.
pub open spec fn either(a: Option<Seq<char>>, b: Option<Seq<char>>) -> Seq<char> {
    match a {
        Some(x) => x,
        None => match b {
            Some(y) => y,
            None => seq![],
        },
    }
}

/// The term an item gives, if it names one.
pub open spec fn law_term_of(it: LawItemV) -> Option<LawTermV> {
    let term = either(it.term_nm, it.lgl_trm_nm);
    if term.len() > 0 {
        Some(
            LawTermV {
                term,
                definition: either(it.term_df, it.lgl_trm_dfn),
                law_name: either(it.rl_lw_nm, it.law_nm),
            },
        )
    } else {
        None
    }
}

pub open spec fn law_terms_of(v: Seq<LawItemV>, k: int) -> Seq<LawTermV>
    decreases k,
{
    if k <= 0 {
        seq![]
    } else {
        match law_term_of(v[k - 1]) {
            Some(t) => law_terms_of(v, k - 1).push(t),
            None => law_terms_of(v, k - 1),
        }
    }
}

fn either_exec(a: &Option<String>, b: &Option<String>) -> (r: String)
    ensures
        r@ == either(opt_view(*a), opt_view(*b)),
{
    match a {
        Some(x) => string_of(chars_of(x.as_str()).as_slice()),
        None => match b {
            Some(y) => string_of(chars_of(y.as_str()).as_slice()),
            None => {
                let e: Vec<char> = Vec::new();
                string_of(e.as_slice())
            },
        },
    }
}

/// The terms named by the reply's items, in order: the term (`termNm`, else
/// `lglTrmNm`), its definition (`termDf`, else `lglTrmDfn`) and law
/// (`rlLwNm`, else `lawNm`), for each item that names a term.
pub fn law_terms_from_items(items: &Vec<LawItem>) -> (r: Vec<LawTerm>)
    ensures
        r@.map_values(|t: LawTerm| t@) == law_terms_of(
            items@.map_values(|i: LawItem| i@),
            items@.len() as int,
        ),
{
    let ghost v = items@.map_values(|i: LawItem| i@);
    let mut out: Vec<LawTerm> = Vec::new();
    assert(out@.map_values(|t: LawTerm| t@) =~= Seq::<LawTermV>::empty());
    let mut i: usize = 0;
    while i < items.len()
        invariant
            i <= items@.len(),
            v == items@.map_values(|i: LawItem| i@),
            out@.map_values(|t: LawTerm| t@) == law_terms_of(v, i as int),
        decreases items@.len() - i,
    {
        let it = &items[i];
        assert(it@ == v[i as int]);
        let term = either_exec(&it.term_nm, &it.lgl_trm_nm);
        if chars_of(term.as_str()).len() > 0 {
            let t = LawTerm {
                term,
                definition: either_exec(&it.term_df, &it.lgl_trm_dfn),
                law_name: either_exec(&it.rl_lw_nm, &it.law_nm),
            };
            let ghost before = out@.map_values(|t: LawTerm| t@);
            let ghost tv = t@;
            out.push(t);
            assert(out@.map_values(|t: LawTerm| t@) =~= before.push(tv));
        }
        i += 1;
    }
    out
}

/// The terminology search query: key and query with spaces as `%20`.
pub open spec fn law_api_url_text(key: Seq<char>, query: Seq<char>) -> Seq<char> {
    "https://apis.data.go.kr/1170000/legal-terminology/lglTrmSrch?serviceKey="@ + replace_all(
        key,
        " "@,
        "%20"@,
    ) + "&query="@ + replace_all(query, " "@, "%20"@) + "&numOfRows=10&pageNo=1&type=json"@
}

/// The terminology search query (both `term` and `search` use the same
/// endpoint).
pub fn law_api_url(key: &str, query: &str) -> (r: String)
    ensures
        r@ == law_api_url_text(key@, query@),
{
    let sp = chars_of(" ");
    let enc = chars_of("%20");
    proof {
        reveal_strlit(" ");
    }
    let mut out = chars_of("https://apis.data.go.kr/1170000/legal-terminology/lglTrmSrch?serviceKey=");
    let k = replace_exec(chars_of(key).as_slice(), sp.as_slice(), enc.as_slice());
    push_all(&mut out, k.as_slice());
    push_str(&mut out, "&query=");
    let q = replace_exec(chars_of(query).as_slice(), sp.as_slice(), enc.as_slice());
    push_all(&mut out, q.as_slice());
    push_str(&mut out, "&numOfRows=10&pageNo=1&type=json");
    string_of(out.as_slice())
}

/// What `/law <args>` asks for.
#[derive(Debug, Clone, PartialEq, Eq)]
pub enum LawCommand {
    /// Show how to use `/law`.
    Usage,
    /// `term` or `search` without text (which of them, as given).
    MissingQuery(String),
    /// Look up the text (`term` or `search`, and the text).
    Lookup(String, String),
}

pub enum LawCommandV {
    Usage,
    MissingQuery(Seq<char>),
    Lookup(Seq<char>, Seq<char>),
}

impl View for LawCommand {
    type V = LawCommandV;

    open spec fn view(&self) -> LawCommandV {
        match self {
            LawCommand::Usage => LawCommandV::Usage,
            LawCommand::MissingQuery(s) => LawCommandV::MissingQuery(s@),
            LawCommand::Lookup(s, q) => LawCommandV::Lookup(s@, q@),
        }
    }
}

/// What `/law <args>` asks for (`args` already trimmed).
pub open spec fn law_command_of(args: Seq<char>) -> LawCommandV {
    if args.len() == 0 {
        LawCommandV::Usage
    } else {
        let (sub, rest) = space_split(args);
        if sub == "term"@ || sub == "search"@ {
            if rest.len() == 0 {
                LawCommandV::MissingQuery(sub)
            } else {
                LawCommandV::Lookup(sub, rest)
            }
        } else {
            LawCommandV::Usage
        }
    }
}

/// Read what `/law <args>` asks for.
pub fn law_command(args: &str) -> (r: LawCommand)
    ensures
        r@ == law_command_of(args@),
{
    if chars_of(args).len() == 0 {
        return LawCommand::Usage;
    }
    let (sub, rest) = split_at_space(args);
    let sv = chars_of(sub.as_str());
    if crate::text::eq_str(sv.as_slice(), "term") || crate::text::eq_str(sv.as_slice(), "search") {
        if chars_of(rest.as_str()).len() == 0 {
            LawCommand::MissingQuery(sub)
        } else {
            LawCommand::Lookup(sub, rest)
        }
    } else {
        LawCommand::Usage
    }
}

pub open spec fn law_item_head(n: nat, t: LawTermV) -> Seq<char> {
    "  "@ + BOLD@ + pad3(n) + "."@ + RESET@ + " "@ + t.term + law_name_part(t) + "\n"@
}

pub open spec fn law_name_part(t: LawTermV) -> Seq<char> {
    if t.law_name.len() == 0 {
        seq![]
    } else {
        " ["@ + CYAN@ + t.law_name + RESET@ + "]"@
    }
}

pub open spec fn law_item_definition(t: LawTermV) -> Seq<char> {
    if t.definition.len() > 0 {
        "       "@ + DIM@ + preview_chars(t.definition, 100) + RESET@ + "\n"@
    } else {
        seq![]
    }
}

/// The lines shown for term number `n`.
pub open spec fn law_item_text(n: nat, t: LawTermV) -> Seq<char> {
    law_item_head(n, t) + law_item_definition(t)
}

fn push_law_item(out: &mut Vec<char>, n: usize, t: &LawTerm)
    ensures
        final(out)@ == old(out)@ + law_item_text(n as nat, t@),
{
    let ghost start = out@;
    push_str(out, "  ");
    push_str(out, BOLD);
    push_pad3(out, n);
    push_str(out, ".");
    push_str(out, RESET);
    push_str(out, " ");
    push_str(out, t.term.as_str());
    let ghost m1 = out@;
    assert(m1 =~= start + ("  "@ + BOLD@ + pad3(n as nat) + "."@ + RESET@ + " "@ + t@.term));
    if chars_of(t.law_name.as_str()).len() > 0 {
        push_str(out, " [");
        push_str(out, CYAN);
        push_str(out, t.law_name.as_str());
        push_str(out, RESET);
        push_str(out, "]");
    }
    assert(out@ =~= m1 + law_name_part(t@));
    push_str(out, "\n");
    assert(out@ =~= start + law_item_head(n as nat, t@));
    let ghost mid2 = out@;
    if chars_of(t.definition.as_str()).len() > 0 {
        push_str(out, "       ");
        push_str(out, DIM);
        push_preview(out, t.definition.as_str(), 100);
        push_str(out, RESET);
        push_str(out, "\n");
    }
    assert(out@ =~= mid2 + law_item_definition(t@));
    assert(out@ =~= start + law_item_text(n as nat, t@));
}

pub open spec fn law_items(v: Seq<LawTermV>, k: int) -> Seq<char>
    decreases k,
{
    if k <= 0 {
        seq![]
    } else {
        law_items(v, k - 1) + law_item_text(k as nat, v[k - 1])
    }
}

/// What `/law` shows for the terms found.
pub open spec fn law_results_text_of(v: Seq<LawTermV>) -> Seq<char> {
    if v.len() == 0 {
        DIM@ + "  검색 결과가 없습니다."@ + RESET@ + "\n\n"@
    } else {
        "\n"@ + BOLD@ + "  ⚖ 법령용어 검색 결과 ("@ + dec(v.len()) + " 건)"@ + RESET@ + "\n\n"@ + law_items(
            v,
            v.len() as int,
        ) + "\n"@
    }
}

/// What `/law` shows for the terms found.
pub fn law_results_text(terms: &Vec<LawTerm>) -> (r: String)
    ensures
        r@ == law_results_text_of(terms@.map_values(|t: LawTerm| t@)),
{
    let ghost v = terms@.map_values(|t: LawTerm| t@);
    let mut out: Vec<char> = Vec::new();
    if terms.len() == 0 {
        push_str(&mut out, DIM);
        push_str(&mut out, "  검색 결과가 없습니다.");
        push_str(&mut out, RESET);
        push_str(&mut out, "\n\n");
        assert(out@ =~= law_results_text_of(v));
        return string_of(out.as_slice());
    }
    push_str(&mut out, "\n");
    push_str(&mut out, BOLD);
    push_str(&mut out, "  ⚖ 법령용어 검색 결과 (");
    push_dec(&mut out, terms.len() as u64);
    push_str(&mut out, " 건)");
    push_str(&mut out, RESET);
    push_str(&mut out, "\n\n");
    let ghost head = out@;
    let mut i: usize = 0;
    while i < terms.len()
        invariant
            i <= terms@.len(),
            v == terms@.map_values(|t: LawTerm| t@),
            out@ == head + law_items(v, i as int),
        decreases terms@.len() - i,
    {
        push_law_item(&mut out, i + 1, &terms[i]);
        assert(out@ =~= head + law_items(v, i + 1));
        i += 1;
    }
    push_str(&mut out, "\n");
    assert(out@ =~= law_results_text_of(v));
    string_of(out.as_slice())
}

} // verus!
