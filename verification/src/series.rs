//! Series (연재기사) bookkeeping: slugs, new series, installments, story
//! links, and their display text.
use vstd::prelude::*;
use crate::editorial::opt_view;
use crate::project::{slug_of, topic_to_slug};
use crate::order::{keys_view, order_by_two_keys, two_key_order};
use crate::style::{BOLD, RESET};
use crate::text::{
    chars_of, chars_of_string, dec, push_all, push_dec, push_str, string_of, trim, trim_vec,
};

verus! {

/// Base directory for series workspaces.
pub const SERIES_DIR: &'static str = ".journalist/series";

/// The base directory of the series workspaces.
pub fn series_dir() -> (r: String)
    ensures
        r@ == SERIES_DIR@,
{
    string_of(chars_of(SERIES_DIR).as_slice())
}

/// The metadata file of the series `slug` under `base`: `base/slug/series.json`.
pub fn series_meta_path(base: &str, slug: &str) -> (r: String)
    ensures
        r@ == base@ + "/"@ + slug@ + "/series.json"@,
{
    let mut out = chars_of(base);
    push_str(&mut out, "/");
    push_str(&mut out, slug);
    push_str(&mut out, "/series.json");
    string_of(out.as_slice())
}

/// Subcommand names for `/series <Tab>` completion.
pub const SERIES_SUBCOMMANDS: [&'static str; 6] = ["new", "list", "add", "status", "recap", "link"];

/// Valid series statuses.
pub const SERIES_STATUSES: [&'static str; 3] = ["진행중", "휴재", "완결"];

/// Metadata for a series installment.
#[derive(Debug, Clone)]
pub struct SeriesInstallment {
    pub number: u32,
    pub title: String,
    pub added_date: String,
    pub story_slug: Option<String>,
}

/// Metadata for a series.
#[derive(Debug, Clone)]
pub struct SeriesMeta {
    pub title: String,
    pub slug: String,
    pub status: String,
    pub created: String,
    pub installments: Vec<SeriesInstallment>,
}

pub struct SeriesInstallmentV {
    pub number: u32,
    pub title: Seq<char>,
    pub added_date: Seq<char>,
    pub story_slug: Option<Seq<char>>,
}

pub struct SeriesMetaV {
    pub title: Seq<char>,
    pub slug: Seq<char>,
    pub status: Seq<char>,
    pub created: Seq<char>,
    pub installments: Seq<SeriesInstallmentV>,
}

impl View for SeriesInstallment {
    type V = SeriesInstallmentV;

    open spec fn view(&self) -> SeriesInstallmentV {
        SeriesInstallmentV {
            number: self.number,
            title: self.title@,
            added_date: self.added_date@,
            story_slug: opt_view(self.story_slug),
        }
    }
}

impl View for SeriesMeta {
    type V = SeriesMetaV;

    open spec fn view(&self) -> SeriesMetaV {
        SeriesMetaV {
            title: self.title@,
            slug: self.slug@,
            status: self.status@,
            created: self.created@,
            installments: self.installments@.map_values(|i: SeriesInstallment| i@),
        }
    }
}

/// Generate a slug for series names.
pub fn series_slug(title: &str) -> (r: String)
    ensures
        r@ == slug_of(title@, 50),
{
    topic_to_slug(title, 50)
}

/// The view of a result that carries a value or an error message.
pub open spec fn result_view<T: View>(r: Result<T, String>) -> Result<T::V, Seq<char>> {
    match r {
        Ok(v) => Ok(v@),
        Err(e) => Err(e@),
    }
}

/// What `create_series(title, taken, date)` builds: a new series in progress
/// with no installments, or the error for an empty title, an empty slug, or
/// a slug already taken by a stored series.
pub open spec fn new_series(title: Seq<char>, taken: bool, date: Seq<char>) -> Result<SeriesMetaV, Seq<char>> {
    if trim(title).len() == 0 {
        Err("시리즈 제목을 입력하세요"@)
    } else if slug_of(title, 50).len() == 0 {
        Err("유효한 제목을 입력하세요"@)
    } else if taken {
        Err("이미 존재하는 시리즈입니다: "@ + slug_of(title, 50))
    } else {
        Ok(
            SeriesMetaV {
                title,
                slug: slug_of(title, 50),
                status: "진행중"@,
                created: date,
                installments: seq![],
            },
        )
    }
}

fn lit(s: &str) -> (r: String)
    ensures
        r@ == s@,
{
    let v = chars_of(s);
    string_of(v.as_slice())
}

/// Create a new series. `taken` says whether a series is already stored
/// under `series_slug(title)`; storing the new one is the caller's part.
pub fn create_series(title: &str, taken: bool, date: &str) -> (r: Result<SeriesMeta, String>)
    ensures
        result_view(r) == new_series(title@, taken, date@),
{
    let tv = chars_of(title);
    let tt = trim_vec(tv.as_slice());
    if tt.len() == 0 {
        return Err(lit("시리즈 제목을 입력하세요"));
    }
    let slug = series_slug(title);
    if slug.as_str().is_empty() {
        return Err(lit("유효한 제목을 입력하세요"));
    }
    if taken {
        let mut msg = chars_of("이미 존재하는 시리즈입니다: ");
        push_str(&mut msg, slug.as_str());
        return Err(string_of(msg.as_slice()));
    }
    let meta = SeriesMeta {
        title: lit(title),
        slug,
        status: lit("진행중"),
        created: lit(date),
        installments: Vec::new(),
    };
    assert(meta@.installments =~= Seq::<SeriesInstallmentV>::empty());
    Ok(meta)
}

/// The largest installment number, or 0.
pub open spec fn max_number(ins: Seq<SeriesInstallmentV>) -> nat
    decreases ins.len(),
{
    if ins.len() == 0 {
        0
    } else {
        let m = max_number(ins.drop_last());
        if ins.last().number > m {
            ins.last().number as nat
        } else {
            m
        }
    }
}

/// What `add_series_installment` does: the error for an empty title or a
/// missing series; otherwise the series with a new installment numbered one
/// past the largest number, and that number.
pub open spec fn added_installment(
    slug: Seq<char>,
    inst_title: Seq<char>,
    stored: Option<SeriesMetaV>,
    date: Seq<char>,
) -> Result<(SeriesMetaV, nat), Seq<char>> {
    if trim(inst_title).len() == 0 {
        Err("회차 제목을 입력하세요"@)
    } else {
        match stored {
            None => Err("시리즈를 찾을 수 없습니다: "@ + slug),
            Some(m) => {
                let n = max_number(m.installments) + 1;
                Ok(
                    (
                        SeriesMetaV {
                            installments: m.installments.push(
                                SeriesInstallmentV {
                                    number: n as u32,
                                    title: inst_title,
                                    added_date: date,
                                    story_slug: None,
                                },
                            ),
                            ..m
                        },
                        n,
                    ),
                )
            },
        }
    }
}

pub open spec fn meta_opt_view(o: Option<SeriesMeta>) -> Option<SeriesMetaV> {
    match o {
        Some(m) => Some(m@),
        None => None,
    }
}

pub open spec fn pair_result_view(r: Result<(SeriesMeta, u32), String>) -> Result<
    (SeriesMetaV, nat),
    Seq<char>,
> {
    match r {
        Ok((m, n)) => Ok((m@, n as nat)),
        Err(e) => Err(e@),
    }
}

fn not_found(slug: &str) -> (r: String)
    ensures
        r@ == "시리즈를 찾을 수 없습니다: "@ + slug@,
{
    let mut v = chars_of("시리즈를 찾을 수 없습니다: ");
    push_str(&mut v, slug);
    string_of(v.as_slice())
}

fn max_number_exec(ins: &Vec<SeriesInstallment>) -> (r: u32)
    ensures
        r as nat == max_number(ins@.map_values(|i: SeriesInstallment| i@)),
{
    let ghost iv = ins@.map_values(|i: SeriesInstallment| i@);
    let mut m: u32 = 0;
    let mut k: usize = 0;
    assert(iv.take(0) =~= Seq::<SeriesInstallmentV>::empty());
    while k < ins.len()
        invariant
            k <= ins@.len(),
            iv == ins@.map_values(|i: SeriesInstallment| i@),
            m as nat == max_number(iv.take(k as int)),
        decreases ins@.len() - k,
    {
        assert(iv.take(k + 1).drop_last() =~= iv.take(k as int));
        assert(iv[k as int] == ins[k as int]@);
        if ins[k].number > m {
            m = ins[k].number;
        }
        k += 1;
    }
    assert(iv.take(ins@.len() as int) =~= iv);
    m
}

/// Add an installment to a series loaded from storage (`None` when it was
/// not found). Returns the updated series and the assigned number.
pub fn add_series_installment(
    slug: &str,
    inst_title: &str,
    stored: Option<SeriesMeta>,
    date: &str,
) -> (r: Result<(SeriesMeta, u32), String>)
    requires
        trim(inst_title@).len() > 0 ==> (meta_opt_view(stored) matches Some(m) ==> max_number(
            m.installments,
        ) < u32::MAX),
    ensures
        pair_result_view(r) == added_installment(slug@, inst_title@, meta_opt_view(stored), date@),
{
    let tv = chars_of(inst_title);
    let tt = trim_vec(tv.as_slice());
    if tt.len() == 0 {
        return Err(lit("회차 제목을 입력하세요"));
    }
    let mut meta = match stored {
        Some(m) => m,
        None => return Err(not_found(slug)),
    };
    let ghost before = meta@;
    let next_number = max_number_exec(&meta.installments) + 1;
    let inst = SeriesInstallment {
        number: next_number,
        title: lit(inst_title),
        added_date: lit(date),
        story_slug: None,
    };
    let ghost iv = inst@;
    meta.installments.push(inst);
    assert(meta@.installments =~= before.installments.push(iv));
    Ok((meta, next_number))
}

/// The last index `k < n` of an installment without a story, if any
/// (`rposition`).
pub open spec fn last_unlinked(ins: Seq<SeriesInstallmentV>, n: int) -> Option<int>
    decreases n,
{
    if n <= 0 {
        None
    } else if ins[n - 1].story_slug is None {
        Some(n - 1)
    } else {
        last_unlinked(ins, n - 1)
    }
}

/// What `link_story_to_series` does: the error for a missing series or one
/// without installments; otherwise `story` is attached to the last
/// installment without a story (the last installment when all have one).
pub open spec fn linked_story(
    series: Seq<char>,
    story: Seq<char>,
    stored: Option<SeriesMetaV>,
) -> Result<(SeriesMetaV, nat), Seq<char>> {
    match stored {
        None => Err("시리즈를 찾을 수 없습니다: "@ + series),
        Some(m) => if m.installments.len() == 0 {
            Err("회차가 없습니다. /series add로 먼저 추가하세요"@)
        } else {
            let idx = match last_unlinked(m.installments, m.installments.len() as int) {
                Some(k) => k,
                None => m.installments.len() - 1,
            };
            let old = m.installments[idx];
            Ok(
                (
                    SeriesMetaV {
                        installments: m.installments.update(
                            idx,
                            SeriesInstallmentV { story_slug: Some(story), ..old },
                        ),
                        ..m
                    },
                    old.number as nat,
                ),
            )
        },
    }
}

/// Link a story slug to a series installment (latest if no number specified).
pub fn link_story_to_series(
    series_slug_str: &str,
    story_slug_str: &str,
    stored: Option<SeriesMeta>,
) -> (r: Result<(SeriesMeta, u32), String>)
    ensures
        pair_result_view(r) == linked_story(
            series_slug_str@,
            story_slug_str@,
            meta_opt_view(stored),
        ),
{
    let mut meta = match stored {
        Some(m) => m,
        None => return Err(not_found(series_slug_str)),
    };
    let len = meta.installments.len();
    if len == 0 {
        return Err(lit("회차가 없습니다. /series add로 먼저 추가하세요"));
    }
    let ghost before = meta@;
    let ghost iv = before.installments;
    let mut j = len;
    let mut found: Option<usize> = None;
    while j > 0
        invariant_except_break
            j <= len,
            len == meta.installments@.len(),
            iv == meta@.installments,
            found is None,
            last_unlinked(iv, len as int) == last_unlinked(iv, j as int),
        ensures
            found matches Some(k) ==> last_unlinked(iv, len as int) == Some(k as int) && k < len,
            found is None ==> last_unlinked(iv, len as int) is None,
            len == meta.installments@.len(),
            iv == meta@.installments,
        decreases j,
    {
        assert(iv[j - 1] == meta.installments[j - 1]@);
        if meta.installments[j - 1].story_slug.is_none() {
            found = Some(j - 1);
            break;
        }
        j -= 1;
    }
    let idx = match found {
        Some(k) => k,
        None => len - 1,
    };
    assert(idx as int == match last_unlinked(iv, len as int) {
        Some(k) => k,
        None => len - 1,
    });
    let mut inst = meta.installments.remove(idx);
    let number = inst.number;
    let ghost oldv = inst@;
    assert(oldv == iv[idx as int]);
    inst.story_slug = Some(lit(story_slug_str));
    let ghost newv = inst@;
    meta.installments.insert(idx, inst);
    assert(meta@.installments =~= iv.update(idx as int, newv));
    Ok((meta, number))
}

/// `[status] title — created (N회, M개 연결)`.
pub open spec fn series_status_text(m: SeriesMetaV) -> Seq<char> {
    "["@ + m.status + "] "@ + m.title + " — "@ + m.created + " ("@ + dec(m.installments.len())
        + "회, "@ + dec(linked_count(m.installments)) + "개 연결)"@
}

/// How many installments have a story attached.
pub open spec fn linked_count(ins: Seq<SeriesInstallmentV>) -> nat
    decreases ins.len(),
{
    if ins.len() == 0 {
        0
    } else {
        linked_count(ins.drop_last()) + if ins.last().story_slug is Some {
            1nat
        } else {
            0nat
        }
    }
}

proof fn lemma_linked_count_bound(ins: Seq<SeriesInstallmentV>)
    ensures
        linked_count(ins) <= ins.len(),
    decreases ins.len(),
{
    if ins.len() > 0 {
        lemma_linked_count_bound(ins.drop_last());
    }
}

/// Format series status for display.
pub fn format_series_status(meta: &SeriesMeta) -> (r: String)
    ensures
        r@ == series_status_text(meta@),
{
    let ghost iv = meta@.installments;
    let total = meta.installments.len();
    let mut linked: usize = 0;
    let mut k: usize = 0;
    assert(iv.take(0) =~= Seq::<SeriesInstallmentV>::empty());
    while k < total
        invariant
            k <= total,
            total == meta.installments@.len(),
            iv == meta@.installments,
            linked as nat == linked_count(iv.take(k as int)),
            linked <= k,
        decreases total - k,
    {
        assert(iv.take(k + 1).drop_last() =~= iv.take(k as int));
        assert(iv[k as int] == meta.installments[k as int]@);
        if meta.installments[k].story_slug.is_some() {
            linked += 1;
        }
        k += 1;
    }
    assert(iv.take(total as int) =~= iv);
    let mut out: Vec<char> = Vec::new();
    push_str(&mut out, "[");
    push_str(&mut out, meta.status.as_str());
    push_str(&mut out, "] ");
    push_str(&mut out, meta.title.as_str());
    push_str(&mut out, " — ");
    push_str(&mut out, meta.created.as_str());
    push_str(&mut out, " (");
    push_dec(&mut out, total as u64);
    push_str(&mut out, "회, ");
    push_dec(&mut out, linked as u64);
    push_str(&mut out, "개 연결)");
    assert(out@ =~= series_status_text(meta@));
    string_of(out.as_slice())
}

/// One installment line of the detail view.
pub open spec fn installment_line(i: SeriesInstallmentV) -> Seq<char> {
    "    "@ + dec(i.number as nat) + "회: "@ + i.title + " ("@ + i.added_date + ")"@ + match i.story_slug {
        Some(s) => " → "@ + s,
        None => seq![],
    } + "\n"@
}

pub open spec fn installment_lines(ins: Seq<SeriesInstallmentV>) -> Seq<char>
    decreases ins.len(),
{
    if ins.len() == 0 {
        seq![]
    } else {
        installment_lines(ins.drop_last()) + installment_line(ins.last())
    }
}

/// The detail view of a series.
pub open spec fn series_detail_text(m: SeriesMetaV) -> Seq<char> {
    "📚 "@ + m.title + " ("@ + m.slug + ")\n  상태: "@ + m.status + " | 생성: "@ + m.created + "\n"@
        + if m.installments.len() == 0 {
        "  회차 없음\n"@
    } else {
        "  회차:\n"@ + installment_lines(m.installments)
    }
}

/// Format detailed series info for display.
pub fn format_series_detail(meta: &SeriesMeta) -> (r: String)
    ensures
        r@ == series_detail_text(meta@),
{
    let ghost iv = meta@.installments;
    let mut out: Vec<char> = Vec::new();
    push_str(&mut out, "📚 ");
    push_str(&mut out, meta.title.as_str());
    push_str(&mut out, " (");
    push_str(&mut out, meta.slug.as_str());
    push_str(&mut out, ")\n  상태: ");
    push_str(&mut out, meta.status.as_str());
    push_str(&mut out, " | 생성: ");
    push_str(&mut out, meta.created.as_str());
    push_str(&mut out, "\n");
    let ghost head = out@;
    if meta.installments.len() == 0 {
        push_str(&mut out, "  회차 없음\n");
        assert(out@ =~= series_detail_text(meta@));
        return string_of(out.as_slice());
    }
    push_str(&mut out, "  회차:\n");
    let ghost head2 = out@;
    let mut k: usize = 0;
    assert(iv.take(0) =~= Seq::<SeriesInstallmentV>::empty());
    assert(out@ =~= head2 + installment_lines(iv.take(0)));
    while k < meta.installments.len()
        invariant
            k <= meta.installments@.len(),
            iv == meta@.installments,
            out@ == head2 + installment_lines(iv.take(k as int)),
        decreases meta.installments@.len() - k,
    {
        assert(iv.take(k + 1).drop_last() =~= iv.take(k as int));
        let inst = &meta.installments[k];
        assert(iv[k as int] == inst@);
        let ghost before = out@;
        push_str(&mut out, "    ");
        push_dec(&mut out, inst.number as u64);
        push_str(&mut out, "회: ");
        push_str(&mut out, inst.title.as_str());
        push_str(&mut out, " (");
        push_str(&mut out, inst.added_date.as_str());
        push_str(&mut out, ")");
        match &inst.story_slug {
            Some(s) => {
                push_str(&mut out, " → ");
                push_str(&mut out, s.as_str());
            },
            None => {},
        }
        push_str(&mut out, "\n");
        assert(out@ =~= before + installment_line(inst@));
        k += 1;
    }
    assert(iv.take(meta.installments@.len() as int) =~= iv);
    assert(out@ =~= series_detail_text(meta@));
    string_of(out.as_slice())
}

/// No two installments share a number.
pub open spec fn distinct_numbers(ins: Seq<SeriesInstallmentV>) -> bool {
    forall|i: int, j: int|
        0 <= i < ins.len() && 0 <= j < ins.len() && i != j ==> #[trigger] ins[i].number
            != #[trigger] ins[j].number
}

proof fn lemma_max_number_bounds(ins: Seq<SeriesInstallmentV>)
    ensures
        forall|i: int| 0 <= i < ins.len() ==> #[trigger] ins[i].number <= max_number(ins),
    decreases ins.len(),
{
    if ins.len() > 0 {
        lemma_max_number_bounds(ins.drop_last());
        assert forall|i: int| 0 <= i < ins.len() implies #[trigger] ins[i].number <= max_number(
            ins,
        ) by {
            if i < ins.len() - 1 {
                assert(ins.drop_last()[i] == ins[i]);
            }
        }
    }
}

/// A new installment gets a number above every number already in the
/// series and is appended after them, so the numbers stay distinct.
pub proof fn lemma_installment_numbering(
    slug: Seq<char>,
    inst_title: Seq<char>,
    stored: SeriesMetaV,
    date: Seq<char>,
)
    requires
        max_number(stored.installments) < u32::MAX,
    ensures
        added_installment(slug, inst_title, Some(stored), date) matches Ok((m, n)) ==> {
            &&& m.installments.len() == stored.installments.len() + 1
            &&& m.installments.last().number == n
            &&& m.installments.drop_last() == stored.installments
            &&& forall|i: int|
                0 <= i < stored.installments.len() ==> #[trigger] stored.installments[i].number
                    < n
            &&& distinct_numbers(stored.installments) ==> distinct_numbers(m.installments)
        },
{
    lemma_max_number_bounds(stored.installments);
    if let Ok((m, n)) = added_installment(slug, inst_title, Some(stored), date) {
        let old = stored.installments;
        assert(m.installments.drop_last() =~= old);
        if distinct_numbers(old) {
            assert forall|i: int, j: int|
                0 <= i < m.installments.len() && 0 <= j < m.installments.len() && i != j
                    implies #[trigger] m.installments[i].number
                    != #[trigger] m.installments[j].number by {
                if i < old.len() {
                    assert(m.installments[i] == old[i]);
                }
                if j < old.len() {
                    assert(m.installments[j] == old[j]);
                }
            }
        }
    }
}

proof fn lemma_linked_count_update(ins: Seq<SeriesInstallmentV>, k: int, v: SeriesInstallmentV)
    requires
        0 <= k < ins.len(),
        v.story_slug is Some,
    ensures
        linked_count(ins.update(k, v)) == linked_count(ins) + if ins[k].story_slug is None {
            1nat
        } else {
            0nat
        },
    decreases ins.len(),
{
    let u = ins.update(k, v);
    if k == ins.len() - 1 {
        assert(u.drop_last() =~= ins.drop_last());
    } else {
        lemma_linked_count_update(ins.drop_last(), k, v);
        assert(u.drop_last() =~= ins.drop_last().update(k, v));
    }
}

proof fn lemma_last_unlinked(ins: Seq<SeriesInstallmentV>, n: int)
    requires
        0 <= n <= ins.len(),
    ensures
        last_unlinked(ins, n) matches Some(k) ==> {
            &&& 0 <= k < n
            &&& ins[k].story_slug is None
            &&& forall|j: int| k < j < n ==> (#[trigger] ins[j]).story_slug is Some
        },
        last_unlinked(ins, n) is None ==> forall|j: int|
            0 <= j < n ==> (#[trigger] ins[j]).story_slug is Some,
    decreases n,
{
    if n > 0 {
        lemma_last_unlinked(ins, n - 1);
    }
}

/// Linking a story touches one installment only: the last one without a
/// story (or the last one when all have stories). Numbers, titles and dates
/// stay, and the count of linked installments grows by one exactly when an
/// installment was still without a story.
pub proof fn lemma_link_story(series: Seq<char>, story: Seq<char>, stored: SeriesMetaV)
    ensures
        linked_story(series, story, Some(stored)) matches Ok((m, num)) ==> {
            let old = stored.installments;
            &&& m.installments.len() == old.len()
            &&& exists|k: int|
                0 <= k < old.len() && #[trigger] m.installments[k].story_slug == Some(story)
                    && num == old[k].number && (forall|j: int|
                    0 <= j < old.len() && j != k ==> #[trigger] m.installments[j] == old[j]) && (
                forall|j: int| k < j < old.len() ==> (#[trigger] old[j]).story_slug is Some)
            &&& forall|j: int|
                0 <= j < old.len() ==> (#[trigger] m.installments[j]).number == old[j].number
                    && m.installments[j].title == old[j].title && m.installments[j].added_date
                    == old[j].added_date
            &&& linked_count(m.installments) == linked_count(old) + if exists|j: int|
                0 <= j < old.len() && (#[trigger] old[j]).story_slug is None {
                1nat
            } else {
                0nat
            }
        },
{
    let old = stored.installments;
    if old.len() > 0 {
        lemma_last_unlinked(old, old.len() as int);
        let idx = match last_unlinked(old, old.len() as int) {
            Some(k) => k,
            None => old.len() - 1,
        };
        let v = SeriesInstallmentV { story_slug: Some(story), ..old[idx] };
        let newi = old.update(idx, v);
        lemma_linked_count_update(old, idx, v);
        assert(newi[idx].story_slug == Some(story));
        if let Ok((m, num)) = linked_story(series, story, Some(stored)) {
            assert(m.installments == newi);
        }
    }
}

/// The series' statuses and creation dates, in stored order.
pub open spec fn series_statuses(ms: Seq<SeriesMetaV>) -> Seq<Seq<char>> {
    ms.map_values(|m: SeriesMetaV| m.status)
}

pub open spec fn series_created(ms: Seq<SeriesMetaV>) -> Seq<Seq<char>> {
    ms.map_values(|m: SeriesMetaV| m.created)
}

pub open spec fn metas_view(ms: Seq<SeriesMeta>) -> Seq<SeriesMetaV> {
    ms.map_values(|m: SeriesMeta| m@)
}

/// How many series have status `st`.
pub open spec fn status_count(ms: Seq<SeriesMetaV>, st: Seq<char>) -> nat
    decreases ms.len(),
{
    if ms.len() == 0 {
        0
    } else {
        status_count(ms.drop_last(), st) + if ms.last().status == st {
            1nat
        } else {
            0nat
        }
    }
}

/// The lines of `/series list` for the first `k` series in the order `r`:
/// a heading with the count before each new status, then one line per series.
pub open spec fn series_list_body(ms: Seq<SeriesMetaV>, r: Seq<usize>, k: int) -> Seq<char>
    decreases k,
{
    if k <= 0 {
        seq![]
    } else {
        let m = ms[r[k - 1] as int];
        series_list_body(ms, r, k - 1) + series_entry_text(
            m,
            k == 1 || ms[r[k - 2] as int].status != m.status,
            status_count(ms, m.status),
        )
    }
}

/// One series in the listing, after its status heading (with the count of
/// series of that status) when it opens a group.
pub open spec fn series_entry_text(m: SeriesMetaV, head: bool, count: nat) -> Seq<char> {
    (if head {
        "  "@ + BOLD@ + m.status + RESET@ + " ("@ + dec(count) + "):\n"@
    } else {
        seq![]
    }) + "    • "@ + series_status_text(m) + "\n"@
}

fn push_series_entry(out: &mut Vec<char>, m: &SeriesMeta, head: bool, count: usize)
    ensures
        final(out)@ == old(out)@ + series_entry_text(m@, head, count as nat),
{
    let ghost start = out@;
    if head {
        push_str(out, "  ");
        push_str(out, BOLD);
        push_str(out, m.status.as_str());
        push_str(out, RESET);
        push_str(out, " (");
        push_dec(out, count as u64);
        push_str(out, "):\n");
    }
    push_str(out, "    • ");
    let line = format_series_status(m);
    push_str(out, line.as_str());
    push_str(out, "\n");
    assert(out@ =~= start + series_entry_text(m@, head, count as nat));
}

/// What `/series list` prints for a non-empty set of series shown in the order `r`.
pub open spec fn series_list_text_of(ms: Seq<SeriesMetaV>, r: Seq<usize>) -> Seq<char> {
    BOLD@ + "  📚 연재 시리즈"@ + RESET@ + "\n"@ + series_list_body(ms, r, r.len() as int)
}

fn count_status(metas: &Vec<SeriesMeta>, st: &[char]) -> (r: usize)
    ensures
        r == status_count(metas_view(metas@), st@),
{
    let ghost mv = metas_view(metas@);
    let mut c: usize = 0;
    let mut i: usize = 0;
    while i < metas.len()
        invariant
            i <= metas@.len(),
            mv == metas_view(metas@),
            c == status_count(mv.take(i as int), st@),
            c <= i,
        decreases metas@.len() - i,
    {
        assert(mv.take(i + 1).drop_last() =~= mv.take(i as int));
        let sv = chars_of(metas[i].status.as_str());
        if crate::text::eq_exec(sv.as_slice(), st) {
            c += 1;
        }
        i += 1;
    }
    assert(mv.take(metas@.len() as int) =~= mv);
    c
}

/// The text of `/series list` for a non-empty set of series: grouped by
/// status (in text order), each group by creation date.
pub fn series_list_text(metas: &Vec<SeriesMeta>) -> (r: String)
    ensures
        exists|order: Seq<usize>|
            two_key_order(series_statuses(metas_view(metas@)), series_created(metas_view(metas@)), order)
                && r@ == series_list_text_of(metas_view(metas@), order),
{
    let ghost mv = metas_view(metas@);
    let mut statuses: Vec<String> = Vec::new();
    let mut created: Vec<String> = Vec::new();
    let mut i: usize = 0;
    while i < metas.len()
        invariant
            i <= metas@.len(),
            mv == metas_view(metas@),
            statuses@.len() == i,
            created@.len() == i,
            forall|j: int| 0 <= j < i ==> (#[trigger] statuses@[j])@ == mv[j].status,
            forall|j: int| 0 <= j < i ==> (#[trigger] created@[j])@ == mv[j].created,
        decreases metas@.len() - i,
    {
        statuses.push(string_of(chars_of(metas[i].status.as_str()).as_slice()));
        created.push(string_of(chars_of(metas[i].created.as_str()).as_slice()));
        i += 1;
    }
    assert(keys_view(statuses@) =~= series_statuses(mv));
    assert(keys_view(created@) =~= series_created(mv));
    let order = order_by_two_keys(&statuses, &created);
    let mut out: Vec<char> = Vec::new();
    push_str(&mut out, BOLD);
    push_str(&mut out, "  📚 연재 시리즈");
    push_str(&mut out, RESET);
    push_str(&mut out, "\n");
    let ghost head = out@;
    let mut k: usize = 0;
    while k < order.len()
        invariant
            k <= order@.len(),
            mv == metas_view(metas@),
            two_key_order(series_statuses(mv), series_created(mv), order@),
            out@ == head + series_list_body(mv, order@, k as int),
        decreases order@.len() - k,
    {
        let x = order[k];
        assert(x < mv.len());
        let sv = chars_of(metas[x].status.as_str());
        let new_group = if k == 0 {
            true
        } else {
            let y = order[k - 1];
            assert(y < mv.len());
            let pv = chars_of(metas[y].status.as_str());
            !crate::text::eq_exec(pv.as_slice(), sv.as_slice())
        };
        let n = count_status(metas, sv.as_slice());
        assert(metas@[x as int]@ == mv[x as int]);
        push_series_entry(&mut out, &metas[x], new_group, n);
        assert(out@ =~= head + series_list_body(mv, order@, k + 1));
        k += 1;
    }
    assert(out@ == series_list_text_of(mv, order@));
    string_of(out.as_slice())
}

} // verus!
