//! The prompts the assistant sends to the model: research, fact-checking,
//! trends, social media, and source suggestions, with the context blocks
//! built from news items, sources and contact logs.
use vstd::prelude::*;
use crate::research::{news_view, NewsItem, NewsItemV};
use crate::sources::{ov, sources_view, text_or_empty, Source, SourceV};
use crate::text::{
    chars_of, dec, push_all, push_dec, push_str, replace_all, replace_exec, string_of,
};
use crate::tracking::ContactLog;

verus! {

/// The research prompt before the topic.
pub const RESEARCH_ASK: &'static str = "다음 주제에 대해 웹 리서치를 수행해주세요: ";

/// The research prompt between the topic and the DuckDuckGo query.
pub const RESEARCH_DDG_QUERY: &'static str = "\n\n\
         다음 단계를 따라주세요:\n\
         1. DuckDuckGo로 검색: curl -s \"https://lite.duckduckgo.com/lite?q=";

/// The research prompt between the two queries.
pub const RESEARCH_NAVER_QUERY: &'static str = "\" | sed 's/<[^>]*>//g' | head -80\n\
         2. 네이버 뉴스 검색: curl -s \"https://search.naver.com/search.naver?where=news&query=";

/// The research prompt after the Naver query.
pub const RESEARCH_STEPS: &'static str = "\" | sed 's/<[^>]*>//g' | head -80\n\
         3. 검색 결과를 종합하여 다음을 정리:\n\
            - **핵심 사실** — 확인된 주요 정보\n\
            - **주요 출처** — 신뢰할 수 있는 출처 목록\n\
            - **쟁점** — 다른 시각이나 논란\n\
            - **추가 취재 제안** — 더 파고들 수 있는 방향\n\n\
         모든 정보에 출처를 명시하고, 확인되지 않은 내용은 명확히 표시하세요.";


/// The fact-check prompt before the claim.
pub const FACTCHECK_ASK: &'static str = "다음 주장/사실에 대한 팩트체크를 수행해주세요: \"";

/// The fact-check prompt between the two mentions of the claim.
pub const FACTCHECK_FORMAT: &'static str = "\"\n\n\
         다음 단계를 따라주세요:\n\
         1. 여러 소스에서 관련 정보를 검색 (DuckDuckGo, 네이버 등)\n\
         2. 교차검증 전략을 적용하세요:\n\
         - 공공데이터포털(data.go.kr) 등 정부·공공 통계로 수치 확인\n\
         - 관련 기관의 공식 보도자료와 대조\n\
         - 시계열 데이터를 비교하여 추세와 맥락 파악\n\
         3. 검증 과정을 단계별로 보여주세요 (\"Show Me the Work\" 원칙 — 기자는 근거 없는 판정을 쓸 수 없습니다):\n\
         - 어떤 소스를 확인했는지\n\
         - 각 소스에서 무엇을 발견했는지\n\
         - 소스 간 일치/불일치 여부\n\
         4. 다음 형식으로 결과를 정리:\n\n\
         **주장:** ";

/// The fact-check prompt after the claim.
pub const FACTCHECK_RULES: &'static str = "\n\
         **판정:** [사실 / 대체로 사실 / 절반의 사실 / 대체로 거짓 / 거짓 / 판단 불가]\n\
         **검증 과정:**\n\
         - [단계 1]: [확인한 소스와 발견 내용]\n\
         - [단계 2]: [확인한 소스와 발견 내용]\n\
         - [단계 3]: [소스 간 교차 대조 결과]\n\
         **근거:**\n\
         - 출처 1: [내용]\n\
         - 출처 2: [내용]\n\
         **맥락:** [주장의 배경이나 누락된 맥락]\n\
         **결론:** [기자가 기사에 반영할 때 주의할 점]\n\n\
         주의: 확인할 수 없는 경우 '판단 불가'로 표시하고 그 이유를 설명하세요.\n\
         절대로 사실을 만들어내지 마세요.";

/// The trend prompt before the keyword.
pub const TREND_ASK: &'static str = "키워드 '";

/// The trend prompt after the keyword, before the news context.
pub const TREND_SECTIONS: &'static str = "'에 대한 뉴스 트렌드를 분석해주세요.\n\n\
         다음 항목을 포함해 분석해주세요:\n\n\
         ## 1. 보도량 추이\n\
         최근 보도량이 과열/보통/미개척 중 어디에 해당하는지 판단하고, 근거를 설명하세요.\n\n\
         ## 2. 주요 프레임·논조 분석\n\
         이 키워드가 어떤 프레임(각도)으로 보도되고 있는지 분석하세요. \
         긍정/부정/중립 논조 비율도 추정해주세요.\n\n\
         ## 3. 아직 안 다뤄진 각도(angle) 제안\n\
         기존 보도에서 빠져 있거나 충분히 다뤄지지 않은 취재 각도를 3~5개 제안하세요. \
         각 제안에 왜 독자에게 가치가 있는지 한 줄로 설명하세요.\n\n\
         ## 4. 취재 타이밍 판단\n\
         \"지금 쓸 만한가?\" — 이 주제를 지금 기사화하는 것이 적절한 시점인지 판단하세요. \
         너무 이른지, 적기인지, 이미 늦었는지 판단 근거와 함께 제시하세요.\n\n\
         ## 5. 종합 제안\n\
         기자에게 구체적으로 어떤 앵글로, 언제, 어떻게 쓰면 좋을지 요약해주세요.\
         ";


/// The prompt for the trending topics of social media.
pub const SNS_TREND_PROMPT: &'static str = "현재 한국 소셜미디어(X/Twitter, 네이버, 커뮤니티 등)에서 \
     실시간으로 화제가 되고 있는 트렌드 키워드를 분석해주세요.\n\n\
     다음 형식으로 정리해주세요:\n\n\
     ## 실시간 트렌드 키워드 (상위 10개)\n\
     각 키워드마다:\n\
     - **키워드**: 이름\n\
     - **맥락**: 왜 화제인지 1~2문장\n\
     - **뉴스 가치**: 기사화 가능성 (높음/보통/낮음)\n\
     - **추천 앵글**: 기자가 접근할 수 있는 취재 각도\n\n\
     ## 종합 판단\n\
     오늘 SNS에서 가장 기사 가치가 높은 주제 1~2개를 추천하고 이유를 설명하세요.";

/// The social-media opinion prompt before the keyword.
pub const SNS_SEARCH_ASK: &'static str = "키워드 '";

/// The social-media opinion prompt after the keyword.
pub const SNS_SEARCH_SECTIONS: &'static str = "'에 대한 SNS 여론을 분석해주세요.\n\n\
         다음 항목을 포함해 분석해주세요:\n\n\
         ## 1. 여론 동향\n\
         이 키워드에 대해 사람들이 어떤 반응을 보이고 있는지 분석하세요.\n\
         긍정/부정/중립 비율을 추정하고, 대표적인 의견 유형을 정리하세요.\n\n\
         ## 2. 주요 논점\n\
         SNS에서 이 키워드를 둘러싼 주요 쟁점이나 논쟁 포인트를 정리하세요.\n\n\
         ## 3. 영향력 있는 목소리\n\
         이 주제에 대해 영향력 있는 의견을 내고 있는 그룹이나 커뮤니티를 파악하세요.\n\n\
         ## 4. 기자를 위한 시사점\n\
         이 여론 동향이 기사 작성에 어떤 시사점을 주는지, \
         독자 반응을 고려한 앵글 제안을 해주세요.";

/// The buzz prompt before the keyword.
pub const SNS_BUZZ_ASK: &'static str = "키워드 '";

/// The buzz prompt after the keyword.
pub const SNS_BUZZ_SECTIONS: &'static str = "'의 화제성을 종합 분석해주세요.\n\n\
         최근 뉴스 보도와 SNS 반응을 종합해서 다음 항목을 분석해주세요:\n\n\
         ## 1. 화제성 지수\n\
         이 키워드의 현재 화제성을 5단계로 평가하세요: \
         🔥🔥🔥🔥🔥 폭발적 / 🔥🔥🔥🔥 높음 / 🔥🔥🔥 보통 / 🔥🔥 낮음 / 🔥 미미\n\
         판단 근거를 구체적으로 설명하세요.\n\n\
         ## 2. 확산 경로\n\
         이 키워드가 어디서 시작해서 어떻게 확산되고 있는지 추정하세요.\n\
         (예: 커뮤니티 → SNS → 언론 / 언론 → SNS 확산 등)\n\n\
         ## 3. 뉴스와 SNS 온도차\n\
         언론 보도의 논조와 SNS 여론 사이에 차이가 있는지 분석하세요.\n\
         온도차가 있다면 그것 자체가 기사 소재가 될 수 있습니다.\n\n\
         ## 4. 지속성 전망\n\
         이 화제가 일시적 이슈인지, 장기적 관심사로 이어질지 판단하세요.\n\n\
         ## 5. 기사화 추천\n\
         지금 기사로 쓸 가치가 있는지, 있다면 어떤 앵글이 좋을지 제안하세요.";

/// The network prompt before the topic.
pub const NETWORK_ASK: &'static str = "당신은 기자의 취재원 네트워크 전략 어드바이저입니다.\n\n\
         주제: ";

/// The network prompt between the topic and the distribution.
pub const NETWORK_STATUS: &'static str = "\n\n\
         현재 취재원 네트워크 현황: ";

/// The network prompt after the distribution.
pub const NETWORK_REQUEST: &'static str = "\n\n\
         위 주제를 취재하기 위해 필요한 취재원 유형을 제안하세요:\n\
         1. 어떤 분야/직종의 취재원이 필요한지 (최소 3~5개 유형)\n\
         2. 각 유형별 역할 (왜 필요한지)\n\
         3. 현재 네트워크에서 이미 보유한 유형과 부족한 유형 식별\n\
         4. 취재원 접근 전략 (어떻게 연결할 수 있는지)\n\n\
         한국어로 답변하세요. 구체적이고 실용적인 제안을 해주세요.";

/// The source-suggestion prompt before the topic.
pub const CONTACT_ASK: &'static str = "다음 주제에 대해 취재할 때 연락할 만한 취재원을 추천해주세요.\n\n\
         ## 취재 주제\n";

/// The source-suggestion prompt between the topic and the sources.
pub const CONTACT_SOURCES: &'static str = "\n\n\
         ## 현재 보유 취재원\n";

/// The source-suggestion prompt between the sources and the recent contacts.
pub const CONTACT_HISTORY: &'static str = "\n\
         ## 최근 접촉 이력\n";

/// The source-suggestion prompt after the recent contacts.
pub const CONTACT_REQUEST: &'static str = "\n\
         ## 요청사항:\n\
         1. 현재 취재원 중 이 주제에 연락할 만한 사람 우선 추천\n\
         2. 보유하고 있지 않다면 어떤 유형의 취재원이 필요한지 제안\n\
         3. 접근 전략 (어떻게 연결할 수 있는지)\n\
         4. 인터뷰 시 핵심 질문 3개\n\n\
         한국어로 답변하세요. 구체적이고 실용적인 제안을 해주세요.";

/// The heading of the news context block.
pub const NEWS_CONTEXT_HEADER: &'static str = "\n\n[네이버 뉴스 API 검색 결과 — 아래 뉴스를 참고하여 리서치하세요]\n";

/// One news item of the context block, numbered `n`.
pub open spec fn news_entry(n: nat, it: NewsItemV) -> Seq<char> {
    dec(n) + ". "@ + it.title + (if it.pub_date.len() > 0 {
        " ("@ + it.pub_date + ")"@
    } else {
        seq![]
    }) + "\n"@ + (if it.link.len() > 0 {
        "   링크: "@ + it.link + "\n"@
    } else {
        seq![]
    }) + (if it.description.len() > 0 {
        "   요약: "@ + it.description + "\n"@
    } else {
        seq![]
    })
}

/// The numbered entries of `items`.
pub open spec fn news_entries(items: Seq<NewsItemV>) -> Seq<char>
    decreases items.len(),
{
    if items.len() == 0 {
        seq![]
    } else {
        news_entries(items.drop_last()) + news_entry(items.len(), items.last())
    }
}

/// What `build_news_context(items)` returns: nothing for no items, else the
/// heading and one numbered entry per item.
pub open spec fn news_context_text(items: Seq<NewsItemV>) -> Seq<char> {
    if items.len() == 0 {
        seq![]
    } else {
        NEWS_CONTEXT_HEADER@ + news_entries(items)
    }
}

fn push_news_entry(out: &mut Vec<char>, n: usize, it: &NewsItem)
    ensures
        final(out)@ == old(out)@ + news_entry(n as nat, it@),
{
    push_dec(out, n as u64);
    push_str(out, ". ");
    push_str(out, it.title.as_str());
    let pv = chars_of(it.pub_date.as_str());
    if pv.len() > 0 {
        push_str(out, " (");
        push_all(out, pv.as_slice());
        push_str(out, ")");
    }
    push_str(out, "\n");
    let lv = chars_of(it.link.as_str());
    if lv.len() > 0 {
        push_str(out, "   링크: ");
        push_all(out, lv.as_slice());
        push_str(out, "\n");
    }
    let dv = chars_of(it.description.as_str());
    if dv.len() > 0 {
        push_str(out, "   요약: ");
        push_all(out, dv.as_slice());
        push_str(out, "\n");
    }
    assert(final(out)@ =~= old(out)@ + news_entry(n as nat, it@));
}

/// Format a list of `NewsItem`s into a context block for the research prompt.
pub fn build_news_context(items: &[NewsItem]) -> (r: String)
    ensures
        r@ == news_context_text(news_view(items@)),
{
    let ghost iv = news_view(items@);
    if items.len() == 0 {
        let e: Vec<char> = Vec::new();
        return string_of(e.as_slice());
    }
    let mut out = chars_of(NEWS_CONTEXT_HEADER);
    let ghost head = out@;
    let mut i: usize = 0;
    assert(iv.take(0) =~= Seq::<NewsItemV>::empty());
    while i < items.len()
        invariant
            i <= items@.len(),
            iv == news_view(items@),
            out@ == head + news_entries(iv.take(i as int)),
        decreases items@.len() - i,
    {
        assert(iv.take(i + 1).drop_last() =~= iv.take(i as int));
        assert(iv.take(i + 1).last() == items[i as int]@);
        push_news_entry(&mut out, i + 1, &items[i]);
        i += 1;
        assert(out@ =~= head + news_entries(iv.take(i as int)));
    }
    assert(iv.take(items@.len() as int) =~= iv);
    string_of(out.as_slice())
}

/// What `build_research_prompt(topic, news)` returns: the research
/// instructions for `topic`, with search queries of the topic with `+` for
/// spaces, followed by the news context.
pub open spec fn research_prompt(topic: Seq<char>, news: Seq<char>) -> Seq<char> {
    let encoded = replace_all(topic, seq![' '], seq!['+']);
    RESEARCH_ASK@ + topic + RESEARCH_DDG_QUERY@ + encoded + RESEARCH_NAVER_QUERY@ + encoded
        + RESEARCH_STEPS@ + news
}

/// Build the full research prompt, optionally injecting news API results.
pub fn build_research_prompt(topic: &str, news_context: &str) -> (r: String)
    ensures
        r@ == research_prompt(topic@, news_context@),
{
    let tv = chars_of(topic);
    let encoded = replace_exec(tv.as_slice(), &[' '], &['+']);
    assert([' ']@ =~= seq![' ']);
    assert(['+']@ =~= seq!['+']);
    let mut out = chars_of(RESEARCH_ASK);
    push_all(&mut out, tv.as_slice());
    push_str(&mut out, RESEARCH_DDG_QUERY);
    push_all(&mut out, encoded.as_slice());
    push_str(&mut out, RESEARCH_NAVER_QUERY);
    push_all(&mut out, encoded.as_slice());
    push_str(&mut out, RESEARCH_STEPS);
    push_str(&mut out, news_context);
    string_of(out.as_slice())
}

/// What `build_factcheck_prompt(claim)` returns: none for an empty claim,
/// else the verification instructions quoting the claim twice.
pub open spec fn factcheck_prompt(claim: Seq<char>) -> Option<Seq<char>> {
    if claim.len() == 0 {
        None
    } else {
        Some(FACTCHECK_ASK@ + claim + FACTCHECK_FORMAT@ + claim + FACTCHECK_RULES@)
    }
}

/// Build the factcheck prompt for a given claim.
/// Returns None if the claim is empty (should be rejected).
pub fn build_factcheck_prompt(claim: &str) -> (r: Option<String>)
    ensures
        match r {
            Some(p) => factcheck_prompt(claim@) == Some(p@),
            None => factcheck_prompt(claim@) is None,
        },
{
    let cv = chars_of(claim);
    if cv.len() == 0 {
        return None;
    }
    let mut out = chars_of(FACTCHECK_ASK);
    push_all(&mut out, cv.as_slice());
    push_str(&mut out, FACTCHECK_FORMAT);
    push_all(&mut out, cv.as_slice());
    push_str(&mut out, FACTCHECK_RULES);
    Some(string_of(out.as_slice()))
}

/// What `build_trend_prompt(keyword, news)` returns.
pub open spec fn trend_prompt(keyword: Seq<char>, news: Seq<char>) -> Seq<char> {
    TREND_ASK@ + keyword + TREND_SECTIONS@ + news
}

/// Build the AI prompt for trend analysis.
pub fn build_trend_prompt(keyword: &str, news_context: &str) -> (r: String)
    ensures
        r@ == trend_prompt(keyword@, news_context@),
{
    let mut out = chars_of(TREND_ASK);
    push_str(&mut out, keyword);
    push_str(&mut out, TREND_SECTIONS);
    push_str(&mut out, news_context);
    string_of(out.as_slice())
}

/// Build the AI prompt for SNS trend (real-time trending topics).
pub fn sns_trend_prompt() -> (r: String)
    ensures
        r@ == SNS_TREND_PROMPT@,
{
    string_of(chars_of(SNS_TREND_PROMPT).as_slice())
}

/// Build the AI prompt for SNS keyword search (public opinion analysis).
pub fn sns_search_prompt(keyword: &str) -> (r: String)
    ensures
        r@ == SNS_SEARCH_ASK@ + keyword@ + SNS_SEARCH_SECTIONS@,
{
    let mut out = chars_of(SNS_SEARCH_ASK);
    push_str(&mut out, keyword);
    push_str(&mut out, SNS_SEARCH_SECTIONS);
    string_of(out.as_slice())
}

/// Build the AI prompt for SNS buzz analysis (virality assessment).
pub fn sns_buzz_prompt(keyword: &str) -> (r: String)
    ensures
        r@ == SNS_BUZZ_ASK@ + keyword@ + SNS_BUZZ_SECTIONS@,
{
    let mut out = chars_of(SNS_BUZZ_ASK);
    push_str(&mut out, keyword);
    push_str(&mut out, SNS_BUZZ_SECTIONS);
    string_of(out.as_slice())
}

/// Build the prompt for network suggest.
pub fn network_suggest_prompt(topic: &str, dist_summary: &str) -> (r: String)
    ensures
        r@ == NETWORK_ASK@ + topic@ + NETWORK_STATUS@ + dist_summary@ + NETWORK_REQUEST@,
{
    let mut out = chars_of(NETWORK_ASK);
    push_str(&mut out, topic);
    push_str(&mut out, NETWORK_STATUS);
    push_str(&mut out, dist_summary);
    push_str(&mut out, NETWORK_REQUEST);
    string_of(out.as_slice())
}

/// A field's text, or `?` when the source has none.
pub open spec fn text_or_mark(o: Option<Seq<char>>) -> Seq<char> {
    match o {
        Some(s) => s,
        None => "?"@,
    }
}

/// One source line of the suggestion prompt.
pub open spec fn source_line(s: SourceV) -> Seq<char> {
    "- "@ + text_or_mark(s.name) + " | "@ + text_or_empty(s.org) + " | beat: "@ + text_or_empty(
        s.beat,
    ) + " | "@ + text_or_empty(s.note) + "\n"@
}

pub open spec fn source_lines(ss: Seq<SourceV>) -> Seq<char>
    decreases ss.len(),
{
    if ss.len() == 0 {
        seq![]
    } else {
        source_lines(ss.drop_last()) + source_line(ss.last())
    }
}

/// The sources block of the suggestion prompt.
pub open spec fn sources_summary(ss: Seq<SourceV>) -> Seq<char> {
    if ss.len() == 0 {
        "(등록된 취재원 없음)\n"@
    } else {
        source_lines(ss)
    }
}

pub struct ContactLogV {
    pub name: Seq<char>,
    pub summary: Seq<char>,
    pub timestamp: Seq<char>,
}

pub open spec fn logs_view(ls: Seq<ContactLog>) -> Seq<ContactLogV> {
    ls.map_values(|l: ContactLog| ContactLogV { name: l.name@, summary: l.summary@, timestamp: l.timestamp@ })
}

/// One contact line: `- name [timestamp]: summary`.
pub open spec fn log_line(l: ContactLogV) -> Seq<char> {
    "- "@ + l.name + " ["@ + l.timestamp + "]: "@ + l.summary + "\n"@
}

/// The lines of the last (up to) 20 logs, newest first: log `k` counted
/// from the end.
pub open spec fn recent_lines(ls: Seq<ContactLogV>, k: nat) -> Seq<char>
    decreases k,
{
    if k == 0 {
        seq![]
    } else {
        recent_lines(ls, (k - 1) as nat) + log_line(ls[ls.len() - k])
    }
}

/// The recent-contacts block of the suggestion prompt.
pub open spec fn recent_summary(ls: Seq<ContactLogV>) -> Seq<char> {
    if ls.len() == 0 {
        "(최근 접촉 기록 없음)\n"@
    } else {
        recent_lines(ls, if ls.len() < 20 { ls.len() } else { 20 })
    }
}

/// What `contact_suggest_prompt(topic, sources, logs)` returns: nothing for
/// an empty topic; otherwise the request with the sources and the latest
/// contact logs.
pub open spec fn contact_prompt(topic: Seq<char>, ss: Seq<SourceV>, ls: Seq<ContactLogV>) -> Seq<char> {
    if topic.len() == 0 {
        seq![]
    } else {
        CONTACT_ASK@ + topic + CONTACT_SOURCES@ + sources_summary(ss) + CONTACT_HISTORY@
            + recent_summary(ls) + CONTACT_REQUEST@
    }
}

fn opt_text_exec(o: &Option<String>, dflt: &str) -> (r: Vec<char>)
    ensures
        r@ == match ov(*o) {
            Some(s) => s,
            None => dflt@,
        },
{
    match o {
        Some(s) => chars_of(s.as_str()),
        None => chars_of(dflt),
    }
}

fn push_source_line(out: &mut Vec<char>, s: &Source)
    ensures
        final(out)@ == old(out)@ + source_line(s@),
{
    push_str(out, "- ");
    push_all(out, opt_text_exec(&s.name, "?").as_slice());
    push_str(out, " | ");
    push_all(out, opt_text_exec(&s.org, "").as_slice());
    push_str(out, " | beat: ");
    push_all(out, opt_text_exec(&s.beat, "").as_slice());
    push_str(out, " | ");
    push_all(out, opt_text_exec(&s.note, "").as_slice());
    push_str(out, "\n");
    proof {
        reveal_strlit("");
    }
    assert(final(out)@ =~= old(out)@ + source_line(s@));
}

fn push_log_line(out: &mut Vec<char>, l: &ContactLog)
    ensures
        final(out)@ == old(out)@ + log_line(ContactLogV { name: l.name@, summary: l.summary@, timestamp: l.timestamp@ }),
{
    push_str(out, "- ");
    push_str(out, l.name.as_str());
    push_str(out, " [");
    push_str(out, l.timestamp.as_str());
    push_str(out, "]: ");
    push_str(out, l.summary.as_str());
    push_str(out, "\n");
    assert(final(out)@ =~= old(out)@ + log_line(ContactLogV { name: l.name@, summary: l.summary@, timestamp: l.timestamp@ }));
}

/// Build a prompt for AI-powered source suggestion based on topic, from the
/// stored sources and contact logs (empty when no topic is given).
pub fn contact_suggest_prompt(topic: &str, sources: &Vec<Source>, logs: &Vec<ContactLog>) -> (r: String)
    ensures
        r@ == contact_prompt(topic@, sources_view(sources@), logs_view(logs@)),
{
    let tv = chars_of(topic);
    if tv.len() == 0 {
        return string_of(tv.as_slice());
    }
    let ghost ss = sources_view(sources@);
    let ghost ls = logs_view(logs@);
    let mut out = chars_of(CONTACT_ASK);
    push_all(&mut out, tv.as_slice());
    push_str(&mut out, CONTACT_SOURCES);
    let ghost head = out@;
    if sources.len() == 0 {
        push_str(&mut out, "(등록된 취재원 없음)\n");
    } else {
        let mut i: usize = 0;
        assert(ss.take(0) =~= Seq::<SourceV>::empty());
        while i < sources.len()
            invariant
                i <= sources@.len(),
                ss == sources_view(sources@),
                out@ == head + source_lines(ss.take(i as int)),
            decreases sources@.len() - i,
        {
            assert(ss.take(i + 1).drop_last() =~= ss.take(i as int));
            assert(ss.take(i + 1).last() == sources[i as int]@);
            push_source_line(&mut out, &sources[i]);
            i += 1;
            assert(out@ =~= head + source_lines(ss.take(i as int)));
        }
        assert(ss.take(sources@.len() as int) =~= ss);
    }
    push_str(&mut out, CONTACT_HISTORY);
    let ghost head2 = out@;
    let n = logs.len();
    if n == 0 {
        push_str(&mut out, "(최근 접촉 기록 없음)\n");
    } else {
        let m: usize = if n < 20 {
            n
        } else {
            20
        };
        let mut k: usize = 0;
        while k < m
            invariant
                k <= m <= n,
                n == logs@.len(),
                ls == logs_view(logs@),
                out@ == head2 + recent_lines(ls, k as nat),
            decreases m - k,
        {
            k += 1;
            assert(ls[n - k] == ContactLogV {
                name: logs@[n - k].name@,
                summary: logs@[n - k].summary@,
                timestamp: logs@[n - k].timestamp@,
            });
            push_log_line(&mut out, &logs[n - k]);
        }
    }
    push_str(&mut out, CONTACT_REQUEST);
    assert(out@ =~= contact_prompt(topic@, ss, ls));
    string_of(out.as_slice())
}

} // verus!
