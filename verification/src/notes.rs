//! `/note`: the reporter's notes: adding one, listing them by topic,
//! searching them, and gathering those on a topic for an article.
use vstd::prelude::*;
use crate::editorial::opt_view;
use crate::style::{DIM, GREEN, RESET};
use crate::text::{
    chars_of, contains, contains_exec, dec, find, find_exec, lemma_find_from, lower_text,
    push_dec, push_str, slice_of, string_of, to_lower, trim, trim_vec, all_ascii, ascii_lowered,
};
use crate::tracking::{extract_flag_value, flag_value, note_add_args, parse_note_add_args, Note};

verus! {

pub struct NoteV {
    pub content: Seq<char>,
    pub source: Option<Seq<char>>,
    pub topic: Option<Seq<char>>,
    pub timestamp: Seq<char>,
}

impl View for Note {
    type V = NoteV;

    open spec fn view(&self) -> NoteV {
        NoteV {
            content: self.content@,
            source: opt_view(self.source),
            topic: opt_view(self.topic),
            timestamp: self.timestamp@,
        }
    }
}

pub open spec fn notes_view(v: Seq<Note>) -> Seq<NoteV> {
    v.map_values(|n: Note| n@)
}

/// Why a `/note add` was refused.
#[derive(Debug, Clone, Copy, PartialEq, Eq, Structural)]
pub enum NoteError {
    /// No arguments were given.
    Usage,
    /// The note has no text once its flags are taken out.
    EmptyContent,
}

/// What `/note add <args>` records at time `now`.
pub open spec fn note_added(args: Seq<char>, now: Seq<char>) -> Result<NoteV, NoteError> {
    if args.len() == 0 {
        Err(NoteError::Usage)
    } else {
        let (content, source, topic) = note_add_args(args);
        if content.len() == 0 {
            Err(NoteError::EmptyContent)
        } else {
            Ok(NoteV { content, source, topic, timestamp: now })
        }
    }
}

/// The note `/note add <args>` records at time `now`.
pub fn new_note(args: &str, now: &str) -> (r: Result<Note, NoteError>)
    ensures
        match note_added(args@, now@) {
            Ok(n) => r matches Ok(x) && x@ == n,
            Err(e) => r matches Err(x) && x == e,
        },
{
    if chars_of(args).len() == 0 {
        return Err(NoteError::Usage);
    }
    let (content, source, topic) = parse_note_add_args(args);
    if chars_of(content.as_str()).len() == 0 {
        return Err(NoteError::EmptyContent);
    }
    Ok(Note { content, source, topic, timestamp: string_of(chars_of(now).as_slice()) })
}

/// The `--topic` filter of `/note list`: the flag's value, when there is one.
pub open spec fn topic_filter(args: Seq<char>) -> Option<Seq<char>> {
    match find(args, "--topic"@) {
        Some(p) => {
            let after = trim(args.skip(p + 7));
            if after.len() == 0 {
                None
            } else {
                let (val, _rest) = flag_value(after);
                if val.len() == 0 {
                    None
                } else {
                    Some(val)
                }
            }
        },
        None => None,
    }
}

/// Read the `--topic` filter of `/note list`.
pub fn note_topic_filter(args: &str) -> (r: Option<String>)
    ensures
        opt_view(r) == topic_filter(args@),
{
    let a = chars_of(args);
    let pat = chars_of("--topic");
    proof {
        reveal_strlit("--topic");
        lemma_find_from(a@, pat@, 0);
    }
    match find_exec(a.as_slice(), pat.as_slice()) {
        Some(p) => {
            assert(pat@.len() == 7);
            assert(crate::text::matches_at(a@, pat@, p as int));
            let n = a.len();
            let tail = slice_of(a.as_slice(), p + 7, n);
            assert(tail@ =~= a@.skip(p + 7));
            let after = trim_vec(tail.as_slice());
            if after.len() == 0 {
                None
            } else {
                let (val, _rest) = extract_flag_value(string_of(after.as_slice()).as_str());
                if chars_of(val.as_str()).len() == 0 {
                    None
                } else {
                    Some(val)
                }
            }
        },
        None => None,
    }
}

/// Whether an optional field, lower-cased, contains `q` (already lower-cased).
pub open spec fn opt_contains(o: Option<Seq<char>>, q: Seq<char>) -> bool {
    match o {
        Some(t) => contains(lower_text(t), q),
        None => false,
    }
}

fn opt_contains_exec(o: &Option<String>, q: &[char]) -> (r: bool)
    ensures
        r == opt_contains(opt_view(*o), q@),
{
    match o {
        Some(t) => {
            let l = to_lower(t.as_str());
            contains_exec(chars_of(l.as_str()).as_slice(), q)
        },
        None => false,
    }
}

fn text_contains(t: &str, q: &[char]) -> (r: bool)
    ensures
        r == contains(lower_text(t@), q@),
        all_ascii(t@) ==> r == contains(ascii_lowered(t@), q@),
{
    let l = to_lower(t);
    contains_exec(chars_of(l.as_str()).as_slice(), q)
}

/// Which notes `/note list`, `/note search` and `/note export` pick.
#[derive(Debug, Clone, Copy, PartialEq, Eq, Structural)]
pub enum NoteQuery {
    /// Notes whose topic contains the text.
    Topic,
    /// Notes whose content, source or topic contains the text.
    Search,
    /// Notes whose topic or content contains the text.
    Export,
}

/// A note is picked by `query` for the text whose lower-cased form is `q`.
pub open spec fn note_picked(n: NoteV, query: NoteQuery, q: Seq<char>) -> bool {
    match query {
        NoteQuery::Topic => opt_contains(n.topic, q),
        NoteQuery::Search => contains(lower_text(n.content), q) || opt_contains(n.source, q)
            || opt_contains(n.topic, q),
        NoteQuery::Export => opt_contains(n.topic, q) || contains(lower_text(n.content), q),
    }
}

/// The indices, in order, of the notes among the first `k` that `query` picks.
pub open spec fn picked(v: Seq<NoteV>, query: NoteQuery, q: Seq<char>, k: int) -> Seq<usize>
    decreases k,
{
    if k <= 0 {
        seq![]
    } else if note_picked(v[k - 1], query, q) {
        picked(v, query, q, k - 1).push((k - 1) as usize)
    } else {
        picked(v, query, q, k - 1)
    }
}

/// The notes (by index, in order) that `query` picks for `text`, ignoring case.
pub fn pick_notes(notes: &Vec<Note>, query: NoteQuery, text: &str) -> (r: Vec<usize>)
    ensures
        r@ == picked(notes_view(notes@), query, lower_text(text@), notes@.len() as int),
        all_ascii(text@) && query != NoteQuery::Topic ==> forall|i: int|
            0 <= i < notes@.len() && all_ascii((#[trigger] notes@[i]).content@) && contains(
                ascii_lowered(notes@[i].content@),
                ascii_lowered(text@),
            ) ==> r@.contains(i as usize),
{
    let ql = to_lower(text);
    let q = chars_of(ql.as_str());
    let ghost v = notes_view(notes@);
    let mut out: Vec<usize> = Vec::new();
    let mut i: usize = 0;
    while i < notes.len()
        invariant
            i <= notes@.len(),
            v == notes_view(notes@),
            q@ == lower_text(text@),
            all_ascii(text@) ==> q@ == ascii_lowered(text@),
            out@ == picked(v, query, q@, i as int),
            query != NoteQuery::Topic ==> forall|m: int|
                0 <= m < i && all_ascii((#[trigger] notes@[m]).content@) && contains(
                    ascii_lowered(notes@[m].content@),
                    q@,
                ) ==> out@.contains(m as usize),
        decreases notes@.len() - i,
    {
        let ghost before = out@;
        let n = &notes[i];
        assert(n@ == v[i as int]);
        let hit = match query {
            NoteQuery::Topic => opt_contains_exec(&n.topic, q.as_slice()),
            NoteQuery::Search => text_contains(n.content.as_str(), q.as_slice()) || opt_contains_exec(
                &n.source,
                q.as_slice(),
            ) || opt_contains_exec(&n.topic, q.as_slice()),
            NoteQuery::Export => opt_contains_exec(&n.topic, q.as_slice()) || text_contains(
                n.content.as_str(),
                q.as_slice(),
            ),
        };
        if hit {
            out.push(i);
            assert(out@[out@.len() - 1] == i);
        }
        assert forall|m: int| 0 <= m <= i && #[trigger] before.contains(m as usize) implies out@.contains(m as usize) by {
            let k = choose|k: int| 0 <= k < before.len() && before[k] == m as usize;
            assert(out@[k] == before[k]);
        }
        i += 1;
    }
    out
}

/// The line `/note list` and `/note search` print for note number `num`.
pub open spec fn note_line_text(num: nat, n: NoteV) -> Seq<char> {
    "  "@ + DIM@ + n.timestamp + RESET@ + " "@ + GREEN@ + "#"@ + dec(num) + RESET@ + (match n.source {
        Some(s) => " ["@ + s + "]"@,
        None => seq![],
    }) + (match n.topic {
        Some(t) => " #"@ + t,
        None => seq![],
    }) + " "@ + n.content
}

/// The line `/note list` and `/note search` print for note number `num`.
pub fn note_line(num: usize, note: &Note) -> (r: String)
    ensures
        r@ == note_line_text(num as nat, note@),
{
    let mut out = chars_of("  ");
    push_str(&mut out, DIM);
    push_str(&mut out, note.timestamp.as_str());
    push_str(&mut out, RESET);
    push_str(&mut out, " ");
    push_str(&mut out, GREEN);
    push_str(&mut out, "#");
    push_dec(&mut out, num as u64);
    push_str(&mut out, RESET);
    match &note.source {
        Some(s) => {
            push_str(&mut out, " [");
            push_str(&mut out, s.as_str());
            push_str(&mut out, "]");
        },
        None => {},
    }
    match &note.topic {
        Some(t) => {
            push_str(&mut out, " #");
            push_str(&mut out, t.as_str());
        },
        None => {},
    }
    push_str(&mut out, " ");
    push_str(&mut out, note.content.as_str());
    assert(out@ =~= note_line_text(num as nat, note@));
    string_of(out.as_slice())
}

/// The `/note add` confirmation's tail: the source and topic, when given.
pub open spec fn note_meta_text(n: NoteV) -> Seq<char> {
    (match n.source {
        Some(s) => " [취재원: "@ + s + "]"@,
        None => seq![],
    }) + match n.topic {
        Some(t) => " [주제: "@ + t + "]"@,
        None => seq![],
    }
}

/// The `/note add` confirmation's tail: the source and topic, when given.
pub fn note_meta(note: &Note) -> (r: String)
    ensures
        r@ == note_meta_text(note@),
{
    let mut out: Vec<char> = Vec::new();
    match &note.source {
        Some(s) => {
            push_str(&mut out, " [취재원: ");
            push_str(&mut out, s.as_str());
            push_str(&mut out, "]");
        },
        None => {},
    }
    match &note.topic {
        Some(t) => {
            push_str(&mut out, " [주제: ");
            push_str(&mut out, t.as_str());
            push_str(&mut out, "]");
        },
        None => {},
    }
    assert(out@ =~= note_meta_text(note@));
    string_of(out.as_slice())
}

/// One note in the export prompt: `- [<time>] (취재원: <source>): <content>`.
pub open spec fn export_line(n: NoteV) -> Seq<char> {
    "- ["@ + n.timestamp + "]"@ + (match n.source {
        Some(s) => " (취재원: "@ + s + ")"@,
        None => seq![],
    }) + ": "@ + n.content + "\n"@
}

pub open spec fn export_lines(v: Seq<NoteV>, picks: Seq<usize>, k: int) -> Seq<char>
    decreases k,
{
    if k <= 0 {
        seq![]
    } else {
        export_lines(v, picks, k - 1) + export_line(v[picks[k - 1] as int])
    }
}

/// The request to organise the notes on `topic` for an article.
pub open spec fn export_prompt_text(topic: Seq<char>, collected: Seq<char>) -> Seq<char> {
    "다음은 \""@ + topic
        + "\" 주제 관련 취재 노트입니다. 이 노트들을 기사 작성에 활용할 수 있도록 체계적으로 정리해주세요.\n\n## 정리 요청사항:\n1. 시간순으로 핵심 내용 요약\n2. 취재원별 발언 정리\n3. 기사에 활용할 수 있는 핵심 팩트 추출\n4. 추가 취재가 필요한 사항\n\n## 취재 노트:\n"@
        + collected
}

/// The export request for the picked notes (`picks`, indices into `notes`) on `topic`.
pub fn note_export_prompt(topic: &str, notes: &Vec<Note>, picks: &Vec<usize>) -> (r: String)
    requires
        forall|k: int| 0 <= k < picks@.len() ==> (#[trigger] picks@[k]) < notes@.len(),
    ensures
        r@ == export_prompt_text(topic@, export_lines(notes_view(notes@), picks@, picks@.len() as int)),
{
    let ghost v = notes_view(notes@);
    let mut collected: Vec<char> = Vec::new();
    let mut k: usize = 0;
    while k < picks.len()
        invariant
            k <= picks@.len(),
            v == notes_view(notes@),
            forall|q: int| 0 <= q < picks@.len() ==> (#[trigger] picks@[q]) < notes@.len(),
            collected@ == export_lines(v, picks@, k as int),
        decreases picks@.len() - k,
    {
        let n = &notes[picks[k]];
        assert(n@ == v[picks@[k as int] as int]);
        push_str(&mut collected, "- [");
        push_str(&mut collected, n.timestamp.as_str());
        push_str(&mut collected, "]");
        match &n.source {
            Some(s) => {
                push_str(&mut collected, " (취재원: ");
                push_str(&mut collected, s.as_str());
                push_str(&mut collected, ")");
            },
            None => {},
        }
        push_str(&mut collected, ": ");
        push_str(&mut collected, n.content.as_str());
        push_str(&mut collected, "\n");
        assert(collected@ =~= export_lines(v, picks@, k + 1));
        k += 1;
    }
    let mut out = chars_of("다음은 \"");
    push_str(&mut out, topic);
    push_str(
        &mut out,
        "\" 주제 관련 취재 노트입니다. 이 노트들을 기사 작성에 활용할 수 있도록 체계적으로 정리해주세요.\n\n## 정리 요청사항:\n1. 시간순으로 핵심 내용 요약\n2. 취재원별 발언 정리\n3. 기사에 활용할 수 있는 핵심 팩트 추출\n4. 추가 취재가 필요한 사항\n\n## 취재 노트:\n",
    );
    let ghost before = out@;
    crate::text::push_all(&mut out, collected.as_slice());
    assert(out@ =~= export_prompt_text(topic@, collected@));
    string_of(out.as_slice())
}

} // verus!
