//! Article drafting: the `/article` arguments, the draft file, the related
//! research, and the prompt for each type of article.
use vstd::prelude::*;
use crate::project::{slug_of, topic_to_slug};
use crate::research::dated_file;
use crate::text::{
    chars_of, contains, contains_exec, eq_str, join, join_exec, lower_text, push_all, push_str,
    split_ws, string_of, to_lower, trim, trim_vec, words,
};

verus! {

/// Drafts directory for saved articles.
pub const DRAFTS_DIR: &'static str = ".journalist/drafts";

/// What `/article` answers without a topic: the structure and the article types.
pub const ARTICLE_GUIDE: &'static str = "기사 작성을 도와드리겠습니다. 어떤 주제로 기사를 작성하시겠습니까? \
             주제를 알려주시면 다음 구조로 초안을 제안합니다:\n\
             1. 리드 (핵심 요약)\n\
             2. 본문 (배경, 맥락, 상세)\n\
             3. 인용 (관계자 코멘트)\n\
             4. 맺음 (전망, 의미)\n\n\
             💡 `--type` 옵션으로 기사 유형을 지정할 수 있습니다:\n\
             - `straight` — 스트레이트 (역피라미드, 기본값)\n\
             - `feature` — 피처 (도입부+에피소드+본문+맺음)\n\
             - `analysis` — 해설 (배경+분석+전망)\n\
             - `planning` — 기획 (문제제기+현황+원인+대안)\n\
             - `interview` — 인터뷰 (도입부+인터뷰이 소개+Q&A+핵심 발언+맺음)\n\
             - `column` — 칼럼 (문제 제기+논거 전개+반론 검토+결론/제언)\n\
             - `editorial` — 사설 (사안 제시+논점 분석+주장+근거+제언)";

/// The structure of a feature article.
pub const STRUCTURE_FEATURE: &'static str = "1. **도입부** — 독자의 관심을 끄는 장면 묘사 또는 일화 (1-2문단)\n\
                 2. **에피소드** — 핵심 인물/사건의 구체적 이야기 (2-3문단)\n\
                 3. **본문** — 배경 설명, 맥락, 의미 부여 (3-5문단)\n\
                 4. **인용** — 관계자·전문가 코멘트 위치 표시 (\"[이름/직함] 인용 필요\")\n\
                 5. **맺음** — 여운을 남기는 마무리, 도입부와 호응 (1-2문단)";

/// The structure of an analysis article.
pub const STRUCTURE_ANALYSIS: &'static str = "1. **핵심 요약** — 무엇이 왜 중요한지 한 문단 정리\n\
                 2. **배경** — 이 이슈가 나온 경위, 역사적 맥락 (2-3문단)\n\
                 3. **분석** — 원인, 이해관계, 쟁점별 심층 분석 (3-5문단)\n\
                 4. **전망** — 향후 시나리오와 예상 영향 (1-2문단)\n\
                 5. **인용** — 전문가·관계자 코멘트 위치 표시 (\"[이름/직함] 인용 필요\")";

/// The structure of a planning (series) article.
pub const STRUCTURE_PLANNING: &'static str = "1. **문제제기** — 왜 이 주제를 다루는지, 독자가 관심 가질 이유 (1-2문단)\n\
                 2. **현황** — 현재 상황, 관련 데이터와 사례 (2-3문단)\n\
                 3. **원인** — 문제의 구조적 원인 분석 (2-3문단)\n\
                 4. **대안** — 해결 방안, 해외 사례, 전문가 제안 (2-3문단)\n\
                 5. **인용** — 관계자·전문가 코멘트 위치 표시 (\"[이름/직함] 인용 필요\")\n\
                 6. **맺음** — 정리 및 향후 과제 (1문단)";

/// The structure of an interview article.
pub const STRUCTURE_INTERVIEW: &'static str = "1. **도입부** — 인터뷰 배경과 만남의 상황 묘사 (1-2문단)\n\
                 2. **인터뷰이 소개** — 인물 약력, 현재 직함, 전문 분야 (1문단)\n\
                 3. **Q&A** — 핵심 질문과 답변 5-7개 (질문은 굵게, 답변은 일반체)\n\
                 4. **핵심 발언** — 가장 인상적인 발언 1-2개 인용 블록으로 강조\n\
                 5. **맺음** — 인터뷰 소감, 향후 계획 또는 전망 (1문단)";

/// The structure of a column.
pub const STRUCTURE_COLUMN: &'static str = "1. **문제 제기** — 독자의 관심을 끄는 도입, 이슈의 핵심 질문 (1-2문단)\n\
                 2. **논거 전개** — 주장을 뒷받침하는 근거, 사례, 데이터 (2-3문단)\n\
                 3. **반론 검토** — 예상되는 반론과 이에 대한 재반박 (1-2문단)\n\
                 4. **결론/제언** — 필자의 최종 입장과 독자에게 던지는 메시지 (1문단)\n\
                 ※ 칼럼은 필자의 관점이 드러나는 글입니다. 1인칭 사용 가능.";

/// The structure of an editorial.
pub const STRUCTURE_EDITORIAL: &'static str = "1. **사안 제시** — 다루는 사안의 개요와 시의성 (1문단)\n\
                 2. **논점 분석** — 사안의 핵심 쟁점을 다각도로 분석 (2-3문단)\n\
                 3. **주장** — 신문사의 입장을 명확히 제시 (1문단)\n\
                 4. **근거** — 주장을 뒷받침하는 논리적 근거와 사례 (2-3문단)\n\
                 5. **제언** — 관련 주체(정부, 기업, 시민 등)에 대한 구체적 제언 (1문단)\n\
                 ※ 사설은 신문사의 공식 입장입니다. 권위 있고 절제된 논조를 유지하세요.";

/// The structure of a straight news article (inverted pyramid).
pub const STRUCTURE_STRAIGHT: &'static str = "1. **리드** — 역피라미드 구조: 육하원칙(누가, 언제, 어디서, 무엇을, 어떻게, 왜)을 포함한 핵심 요약 (1-2문장)\n\
                 2. **본문** — 배경, 맥락, 상세 내용 (3-5문단)\n\
                 3. **인용** — 관계자 코멘트가 들어갈 위치 표시 (\"[관계자 이름/직함] 인용 필요\")\n\
                 4. **맺음** — 향후 전망 또는 의미 (1-2문장)";

/// The article prompt before the topic.
pub const ARTICLE_ASK: &'static str = "다음 주제로 한국 신문 기사 초안을 작성해주세요: ";

/// The article prompt between the topic and the type label.
pub const ARTICLE_TYPE: &'static str = "\n\n\
             📰 기사 유형: **";

/// The article prompt between the type label and the structure.
pub const ARTICLE_STRUCTURE: &'static str = "**\n\n\
             다음 구조를 따라주세요:\n\
             ";

/// The article prompt after the structure.
pub const ARTICLE_NOTES: &'static str = "\n\n\
             주의사항:\n\
             - 사실 확인이 필요한 부분은 [확인 필요]로 표시\n\
             - 추가 취재가 필요한 부분은 [취재 필요]로 표시\n\
             - 객관적이고 중립적인 톤 유지";

/// The heading of the related research material.
pub const RESEARCH_MATERIAL: &'static str = "\n\n---\n\n📎 **관련 리서치 자료** (기사 작성 시 참고하세요):\n";

/// Build the draft file path with an explicit date string:
/// `.journalist/drafts/YYYY-MM-DD_<slug>.md`.
pub fn draft_file_path_with_date(topic: &str, date: &str) -> (r: String)
    ensures
        r@ == dated_file(DRAFTS_DIR@, date@, slug_of(topic@, 50), "draft"@),
{
    let slug = topic_to_slug(topic, 50);
    let mut v = chars_of(DRAFTS_DIR);
    push_str(&mut v, "/");
    push_str(&mut v, date);
    push_str(&mut v, "_");
    let sv = chars_of(slug.as_str());
    if sv.len() == 0 {
        push_str(&mut v, "draft");
    } else {
        push_all(&mut v, sv.as_slice());
    }
    push_str(&mut v, ".md");
    assert(v@ =~= dated_file(DRAFTS_DIR@, date@, slug_of(topic@, 50), "draft"@));
    string_of(v.as_slice())
}

/// Reading the words of `/article` from word `i`: `--type` takes the next
/// word as the type (a trailing `--type` is dropped); other words make the
/// topic.
pub open spec fn article_scan(
    toks: Seq<Seq<char>>,
    i: int,
    ty: Option<Seq<char>>,
    topic: Seq<Seq<char>>,
) -> (Option<Seq<char>>, Seq<Seq<char>>)
    decreases toks.len() - i,
{
    if i < 0 || i >= toks.len() {
        (ty, topic)
    } else if toks[i] == "--type"@ {
        if i + 1 < toks.len() {
            article_scan(toks, i + 2, Some(toks[i + 1]), topic)
        } else {
            article_scan(toks, i + 1, ty, topic)
        }
    } else {
        article_scan(toks, i + 1, ty, topic.push(toks[i]))
    }
}

/// What `parse_article_args` returns: the article type, and the other
/// words joined by single spaces.
pub open spec fn article_args(args: Seq<char>) -> (Option<Seq<char>>, Seq<char>) {
    let (ty, topic) = article_scan(words(trim(args)), 0, None, seq![]);
    (ty, join(topic, seq![' ']))
}

pub open spec fn opt_str_view(o: Option<String>) -> Option<Seq<char>> {
    match o {
        Some(s) => Some(s@),
        None => None,
    }
}

/// Parse `/article` arguments, extracting `--type <type>` if present.
/// Returns (article_type, remaining_topic).
pub fn parse_article_args(args: &str) -> (r: (Option<String>, String))
    ensures
        (opt_str_view(r.0), r.1@) == article_args(args@),
{
    let v = chars_of(args);
    let t = trim_vec(v.as_slice());
    let toks = split_ws(t.as_slice());
    let ghost tv = toks.deep_view();
    let mut ty: Option<String> = None;
    let mut topic: Vec<Vec<char>> = Vec::new();
    let mut i: usize = 0;
    proof {
        reveal_strlit("--type");
    }
    assert(topic.deep_view() =~= Seq::<Seq<char>>::empty());
    while i < toks.len()
        invariant
            i <= toks@.len() + 1,
            tv == toks.deep_view(),
            article_scan(tv, 0, None, seq![]) == article_scan(tv, i as int, opt_str_view(ty), topic.deep_view()),
        decreases toks@.len() + 1 - i,
    {
        assert(toks[i as int]@ == tv[i as int]);
        if eq_str(toks[i].as_slice(), "--type") {
            if i + 1 < toks.len() {
                assert(toks[i + 1]@ == tv[i + 1]);
                ty = Some(string_of(toks[i + 1].as_slice()));
                i += 2;
            } else {
                i += 1;
            }
        } else {
            let w = crate::text::slice_of(toks[i].as_slice(), 0, toks[i].len());
            assert(w@ =~= tv[i as int]);
            crate::text::push_word(&mut topic, w);
            i += 1;
        }
    }
    let joined = join_exec(&topic, &[' ']);
    assert(seq![' '] =~= [' ']@);
    (ty, string_of(joined.as_slice()))
}

/// The kinds of article the prompt knows.
#[derive(Debug, Clone, Copy, PartialEq, Eq, Structural)]
pub enum ArticleKind {
    Straight,
    Feature,
    Analysis,
    Planning,
    Interview,
    Column,
    Editorial,
}

/// The kind named by the `--type` value, in English or Korean; a straight
/// article for none or an unknown name.
pub open spec fn article_kind(t: Option<Seq<char>>) -> ArticleKind {
    let s = match t {
        Some(x) => x,
        None => "straight"@,
    };
    if s == "feature"@ || s == "피처"@ {
        ArticleKind::Feature
    } else if s == "analysis"@ || s == "해설"@ {
        ArticleKind::Analysis
    } else if s == "planning"@ || s == "기획"@ {
        ArticleKind::Planning
    } else if s == "interview"@ || s == "인터뷰"@ {
        ArticleKind::Interview
    } else if s == "column"@ || s == "칼럼"@ {
        ArticleKind::Column
    } else if s == "editorial"@ || s == "사설"@ {
        ArticleKind::Editorial
    } else {
        ArticleKind::Straight
    }
}

/// The structure a kind of article follows.
pub open spec fn kind_structure(k: ArticleKind) -> Seq<char> {
    match k {
        ArticleKind::Straight => STRUCTURE_STRAIGHT@,
        ArticleKind::Feature => STRUCTURE_FEATURE@,
        ArticleKind::Analysis => STRUCTURE_ANALYSIS@,
        ArticleKind::Planning => STRUCTURE_PLANNING@,
        ArticleKind::Interview => STRUCTURE_INTERVIEW@,
        ArticleKind::Column => STRUCTURE_COLUMN@,
        ArticleKind::Editorial => STRUCTURE_EDITORIAL@,
    }
}

/// The Korean name of a kind of article.
pub open spec fn kind_label(k: ArticleKind) -> Seq<char> {
    match k {
        ArticleKind::Straight => "스트레이트"@,
        ArticleKind::Feature => "피처"@,
        ArticleKind::Analysis => "해설"@,
        ArticleKind::Planning => "기획"@,
        ArticleKind::Interview => "인터뷰"@,
        ArticleKind::Column => "칼럼"@,
        ArticleKind::Editorial => "사설"@,
    }
}

/// Which kind of article `--type <t>` asks for.
pub fn article_kind_of(t: Option<&str>) -> (r: ArticleKind)
    ensures
        r == article_kind(match t {
            Some(x) => Some(x@),
            None => None,
        }),
{
    let v = match t {
        Some(x) => chars_of(x),
        None => chars_of("straight"),
    };
    let s = v.as_slice();
    if eq_str(s, "feature") || eq_str(s, "피처") {
        ArticleKind::Feature
    } else if eq_str(s, "analysis") || eq_str(s, "해설") {
        ArticleKind::Analysis
    } else if eq_str(s, "planning") || eq_str(s, "기획") {
        ArticleKind::Planning
    } else if eq_str(s, "interview") || eq_str(s, "인터뷰") {
        ArticleKind::Interview
    } else if eq_str(s, "column") || eq_str(s, "칼럼") {
        ArticleKind::Column
    } else if eq_str(s, "editorial") || eq_str(s, "사설") {
        ArticleKind::Editorial
    } else {
        ArticleKind::Straight
    }
}

fn structure_of(k: ArticleKind) -> (r: &'static str)
    ensures
        r@ == kind_structure(k),
{
    match k {
        ArticleKind::Straight => STRUCTURE_STRAIGHT,
        ArticleKind::Feature => STRUCTURE_FEATURE,
        ArticleKind::Analysis => STRUCTURE_ANALYSIS,
        ArticleKind::Planning => STRUCTURE_PLANNING,
        ArticleKind::Interview => STRUCTURE_INTERVIEW,
        ArticleKind::Column => STRUCTURE_COLUMN,
        ArticleKind::Editorial => STRUCTURE_EDITORIAL,
    }
}

fn label_of(k: ArticleKind) -> (r: &'static str)
    ensures
        r@ == kind_label(k),
{
    match k {
        ArticleKind::Straight => "스트레이트",
        ArticleKind::Feature => "피처",
        ArticleKind::Analysis => "해설",
        ArticleKind::Planning => "기획",
        ArticleKind::Interview => "인터뷰",
        ArticleKind::Column => "칼럼",
        ArticleKind::Editorial => "사설",
    }
}

/// One research file appended to the prompt.
pub open spec fn research_entry(name: Seq<char>, content: Seq<char>) -> Seq<char> {
    "\n### 📄 "@ + name + "\n"@ + content + "\n"@
}

pub open spec fn research_entries(ctx: Seq<(Seq<char>, Seq<char>)>) -> Seq<char>
    decreases ctx.len(),
{
    if ctx.len() == 0 {
        seq![]
    } else {
        research_entries(ctx.drop_last()) + research_entry(ctx.last().0, ctx.last().1)
    }
}

pub open spec fn pairs_view(ctx: Seq<(String, String)>) -> Seq<(Seq<char>, Seq<char>)> {
    ctx.map_values(|p: (String, String)| (p.0@, p.1@))
}

/// What `build_article_prompt(topic, research, type)` returns: the guide
/// and `false` without a topic; otherwise the drafting request for the kind
/// of article, with the related research appended, and `true`.
pub open spec fn article_prompt(
    topic: Seq<char>,
    ctx: Seq<(Seq<char>, Seq<char>)>,
    t: Option<Seq<char>>,
) -> (Seq<char>, bool) {
    if topic.len() == 0 {
        (ARTICLE_GUIDE@, false)
    } else {
        let k = article_kind(t);
        (
            ARTICLE_ASK@ + topic + ARTICLE_TYPE@ + kind_label(k) + ARTICLE_STRUCTURE@
                + kind_structure(k) + ARTICLE_NOTES@ + (if ctx.len() == 0 {
                seq![]
            } else {
                RESEARCH_MATERIAL@ + research_entries(ctx)
            }),
            true,
        )
    }
}

/// Build the article prompt for a given topic.
/// Returns (prompt_text, has_topic).
/// `research_context` contains (filename, content) pairs of related research files.
/// `article_type` selects the template: "straight" (default), "feature", "analysis", "planning".
pub fn build_article_prompt(
    topic: &str,
    research_context: &[(String, String)],
    article_type: Option<&str>,
) -> (r: (String, bool))
    ensures
        (r.0@, r.1) == article_prompt(
            topic@,
            pairs_view(research_context@),
            match article_type {
                Some(x) => Some(x@),
                None => None,
            },
        ),
{
    let tv = chars_of(topic);
    if tv.len() == 0 {
        return (string_of(chars_of(ARTICLE_GUIDE).as_slice()), false);
    }
    let k = article_kind_of(article_type);
    let mut out = chars_of(ARTICLE_ASK);
    push_all(&mut out, tv.as_slice());
    push_str(&mut out, ARTICLE_TYPE);
    push_str(&mut out, label_of(k));
    push_str(&mut out, ARTICLE_STRUCTURE);
    push_str(&mut out, structure_of(k));
    push_str(&mut out, ARTICLE_NOTES);
    let ghost head = out@;
    let ghost cv = pairs_view(research_context@);
    if research_context.len() > 0 {
        push_str(&mut out, RESEARCH_MATERIAL);
        let ghost head2 = out@;
        let mut i: usize = 0;
        assert(cv.take(0) =~= Seq::<(Seq<char>, Seq<char>)>::empty());
        while i < research_context.len()
            invariant
                i <= research_context@.len(),
                cv == pairs_view(research_context@),
                out@ == head2 + research_entries(cv.take(i as int)),
            decreases research_context@.len() - i,
        {
            assert(cv.take(i + 1).drop_last() =~= cv.take(i as int));
            assert(cv.take(i + 1).last() == (research_context[i as int].0@, research_context[i as int].1@));
            push_str(&mut out, "\n### 📄 ");
            push_str(&mut out, research_context[i].0.as_str());
            push_str(&mut out, "\n");
            push_str(&mut out, research_context[i].1.as_str());
            push_str(&mut out, "\n");
            i += 1;
            assert(out@ =~= head2 + research_entries(cv.take(i as int)));
        }
        assert(cv.take(research_context@.len() as int) =~= cv);
    }
    assert(out@ =~= article_prompt(
        topic@,
        cv,
        match article_type {
            Some(x) => Some(x@),
            None => None,
        },
    ).0);
    (string_of(out.as_slice()), true)
}

/// Whether a research file belongs to a topic: some word of the topic,
/// lower-cased, occurs in the lower-cased file name.
pub open spec fn research_related(filename: Seq<char>, topic: Seq<char>) -> bool {
    exists|i: int|
        0 <= i < words(topic).len() && contains(lower_text(filename), lower_text(#[trigger] words(topic)[i]))
}

/// Test one research file name against the words of a topic.
pub fn is_related_research(filename: &str, topic: &str) -> (r: bool)
    ensures
        r == research_related(filename@, topic@),
{
    let fl = to_lower(filename);
    let fv = chars_of(fl.as_str());
    let tv = chars_of(topic);
    let ws = split_ws(tv.as_slice());
    let ghost wv = ws.deep_view();
    let mut i: usize = 0;
    while i < ws.len()
        invariant
            i <= ws@.len(),
            wv == ws.deep_view(),
            wv == words(topic@),
            fv@ == lower_text(filename@),
            forall|j: int| 0 <= j < i ==> !contains(lower_text(filename@), lower_text(#[trigger] wv[j])),
        decreases ws@.len() - i,
    {
        let ws_i = string_of(ws[i].as_slice());
        assert(ws_i@ == wv[i as int]);
        let kl = to_lower(ws_i.as_str());
        let kv = chars_of(kl.as_str());
        if contains_exec(fv.as_slice(), kv.as_slice()) {
            return true;
        }
        i += 1;
    }
    false
}

} // verus!
