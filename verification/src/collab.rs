//! Collaborative reporting projects: where they are kept, starting, noting
//! and closing them, and how they are listed and shown.
use vstd::prelude::*;
use crate::editorial::{
    collab_start_args, parse_collab_start_args, strings_view, CollabNote, CollabProject,
    CollabStatus, COLLABORATE_DIR,
};
use crate::style::{DIM, RESET};
use crate::text::{
    chars_of, dec, join, join_exec, push_all, push_dec, push_str, split_ws, string_of, words,
};

verus! {

pub struct CollabNoteV {
    pub reporter: Seq<char>,
    pub content: Seq<char>,
    pub timestamp: Seq<char>,
}

impl View for CollabNote {
    type V = CollabNoteV;

    open spec fn view(&self) -> CollabNoteV {
        CollabNoteV { reporter: self.reporter@, content: self.content@, timestamp: self.timestamp@ }
    }
}

pub open spec fn notes_view(ns: Seq<CollabNote>) -> Seq<CollabNoteV> {
    ns.map_values(|n: CollabNote| n@)
}

pub struct CollabProjectV {
    pub name: Seq<char>,
    pub reporters: Seq<Seq<char>>,
    pub notes: Seq<CollabNoteV>,
    pub status: CollabStatus,
    pub created_at: Seq<char>,
}

impl View for CollabProject {
    type V = CollabProjectV;

    open spec fn view(&self) -> CollabProjectV {
        CollabProjectV {
            name: self.name@,
            reporters: strings_view(self.reporters@),
            notes: notes_view(self.notes@),
            status: self.status,
            created_at: self.created_at@,
        }
    }
}

/// Why a `/collaborate` request was refused.
#[derive(Debug, Clone, Copy, PartialEq, Eq, Structural)]
pub enum CollabError {
    /// Required arguments are missing.
    Usage,
    /// No project name was given.
    EmptyName,
    /// An active project of that name exists.
    AlreadyActive,
    /// The project is closed.
    Closed,
}

/// `<dir>/<name>.json`.
pub open spec fn project_file(dir: Seq<char>, name: Seq<char>) -> Seq<char> {
    dir + "/"@ + name + ".json"@
}

/// Where the project `name` is kept under `dir`.
pub fn collab_project_path_in(dir: &str, project_name: &str) -> (r: String)
    ensures
        r@ == project_file(dir@, project_name@),
{
    let mut v = chars_of(dir);
    push_str(&mut v, "/");
    push_str(&mut v, project_name);
    push_str(&mut v, ".json");
    string_of(v.as_slice())
}

/// Where the project `name` is kept.
pub fn collab_project_path(project_name: &str) -> (r: String)
    ensures
        r@ == project_file(COLLABORATE_DIR@, project_name@),
{
    collab_project_path_in(COLLABORATE_DIR, project_name)
}

/// The project named by `/collaborate view|close <args>`: its first word.
pub open spec fn project_target(args: Seq<char>) -> Seq<char> {
    if words(args).len() > 0 {
        words(args)[0]
    } else {
        seq![]
    }
}

/// The first word of the arguments (`split_whitespace().next()`).
pub fn collab_target(args: &str) -> (r: String)
    ensures
        r@ == project_target(args@),
{
    let v = chars_of(args);
    let ws = split_ws(v.as_slice());
    if ws.len() > 0 {
        assert(ws[0]@ == ws.deep_view()[0]);
        string_of(ws[0].as_slice())
    } else {
        string_of(&[])
    }
}

/// What `/collaborate start <args>` creates at `now`, given the stored
/// project of that name if any.
pub open spec fn started(args: Seq<char>, existing: Option<CollabProjectV>, now: Seq<char>) -> Result<CollabProjectV, CollabError> {
    if args.len() == 0 {
        Err(CollabError::Usage)
    } else {
        let (name, reporters) = collab_start_args(args);
        if name.len() == 0 {
            Err(CollabError::EmptyName)
        } else if existing matches Some(p) && p.status == CollabStatus::Active {
            Err(CollabError::AlreadyActive)
        } else {
            Ok(
                CollabProjectV {
                    name,
                    reporters,
                    notes: seq![],
                    status: CollabStatus::Active,
                    created_at: now,
                },
            )
        }
    }
}

pub open spec fn project_opt_view(o: Option<&CollabProject>) -> Option<CollabProjectV> {
    match o {
        Some(p) => Some(p@),
        None => None,
    }
}

/// Start a project from `/collaborate start <args>`. `existing` is the
/// stored project under the same name, if any.
pub fn start_collab(args: &str, existing: Option<&CollabProject>, now: &str) -> (r: Result<CollabProject, CollabError>)
    ensures
        match r {
            Ok(p) => started(args@, project_opt_view(existing), now@) == Ok::<CollabProjectV, CollabError>(p@),
            Err(e) => started(args@, project_opt_view(existing), now@) == Err::<CollabProjectV, CollabError>(e),
        },
{
    let av = chars_of(args);
    if av.len() == 0 {
        return Err(CollabError::Usage);
    }
    let (name, reporters) = parse_collab_start_args(args);
    let nv = chars_of(name.as_str());
    if nv.len() == 0 {
        return Err(CollabError::EmptyName);
    }
    match existing {
        Some(p) => {
            if p.status == CollabStatus::Active {
                return Err(CollabError::AlreadyActive);
            }
        },
        None => {},
    }
    let p = CollabProject {
        name,
        reporters,
        notes: Vec::new(),
        status: CollabStatus::Active,
        created_at: string_of(chars_of(now).as_slice()),
    };
    assert(p@.notes =~= Seq::<CollabNoteV>::empty());
    Ok(p)
}

/// Add a note to a project; a closed project takes none.
pub fn add_collab_note(project: &mut CollabProject, reporter: &str, content: &str, now: &str) -> (r: Result<(), CollabError>)
    ensures
        old(project)@.status == CollabStatus::Closed ==> r == Err::<(), CollabError>(CollabError::Closed) && final(project)@ == old(project)@,
        old(project)@.status == CollabStatus::Active ==> r is Ok && final(project)@ == (CollabProjectV {
            notes: old(project)@.notes.push(CollabNoteV { reporter: reporter@, content: content@, timestamp: now@ }),
            ..old(project)@
        }),
{
    if project.status == CollabStatus::Closed {
        return Err(CollabError::Closed);
    }
    let ghost before = project@.notes;
    let note = CollabNote {
        reporter: string_of(chars_of(reporter).as_slice()),
        content: string_of(chars_of(content).as_slice()),
        timestamp: string_of(chars_of(now).as_slice()),
    };
    let ghost nv = note@;
    project.notes.push(note);
    assert(project@.notes =~= before.push(nv));
    Ok(())
}

/// Close a project; returns how many notes it keeps.
pub fn close_collab(project: &mut CollabProject) -> (r: Result<usize, CollabError>)
    ensures
        old(project)@.status == CollabStatus::Closed ==> r == Err::<usize, CollabError>(CollabError::Closed) && final(project)@ == old(project)@,
        old(project)@.status == CollabStatus::Active ==> r == Ok::<usize, CollabError>(old(project)@.notes.len() as usize) && final(project)@ == (CollabProjectV {
            status: CollabStatus::Closed,
            ..old(project)@
        }),
{
    if project.status == CollabStatus::Closed {
        return Err(CollabError::Closed);
    }
    project.status = CollabStatus::Closed;
    Ok(project.notes.len())
}

/// Who wrote a note: the reporter, or `익명` when none was given.
pub open spec fn note_author(r: Seq<char>) -> Seq<char> {
    if r.len() == 0 {
        "익명"@
    } else {
        r
    }
}

/// The display name of a note's reporter.
pub fn reporter_display(reporter: &str) -> (r: String)
    ensures
        r@ == note_author(reporter@),
{
    let v = chars_of(reporter);
    if v.len() == 0 {
        string_of(chars_of("익명").as_slice())
    } else {
        string_of(v.as_slice())
    }
}

/// A line of `/collaborate list`: number, name, reporters and note count.
pub open spec fn collab_line_text(num: nat, p: CollabProjectV) -> Seq<char> {
    DIM@ + "  "@ + dec(num) + ". "@ + p.name + (if p.reporters.len() == 0 {
        seq![]
    } else {
        " ["@ + join(p.reporters, ", "@) + "]"@
    }) + " — 메모 "@ + dec(p.notes.len()) + "건"@ + RESET@
}

/// The line `/collaborate list` prints for project number `num`.
pub fn collab_line(num: usize, p: &CollabProject) -> (r: String)
    ensures
        r@ == collab_line_text(num as nat, p@),
{
    let mut out = chars_of(DIM);
    push_str(&mut out, "  ");
    push_dec(&mut out, num as u64);
    push_str(&mut out, ". ");
    push_str(&mut out, p.name.as_str());
    if p.reporters.len() > 0 {
        push_str(&mut out, " [");
        let rs = reporters_chars(&p.reporters);
        let sep = chars_of(", ");
        let j = join_exec(&rs, sep.as_slice());
        push_all(&mut out, j.as_slice());
        push_str(&mut out, "]");
    }
    push_str(&mut out, " — 메모 ");
    push_dec(&mut out, p.notes.len() as u64);
    push_str(&mut out, "건");
    push_str(&mut out, RESET);
    assert(out@ =~= collab_line_text(num as nat, p@));
    string_of(out.as_slice())
}

fn reporters_chars(rs: &Vec<String>) -> (r: Vec<Vec<char>>)
    ensures
        r.deep_view() == strings_view(rs@),
{
    let mut out: Vec<Vec<char>> = Vec::new();
    let mut i: usize = 0;
    assert(out.deep_view() =~= strings_view(rs@).take(0));
    while i < rs.len()
        invariant
            i <= rs@.len(),
            out.deep_view() == strings_view(rs@).take(i as int),
        decreases rs@.len() - i,
    {
        let c = chars_of(rs[i].as_str());
        crate::text::push_word(&mut out, c);
        assert(strings_view(rs@).take(i + 1) =~= strings_view(rs@).take(i as int).push(rs[i as int]@));
        i += 1;
    }
    assert(strings_view(rs@).take(rs@.len() as int) =~= strings_view(rs@));
    out
}

/// The status word of a project.
pub open spec fn status_word(s: CollabStatus) -> Seq<char> {
    match s {
        CollabStatus::Active => "활성"@,
        CollabStatus::Closed => "종료"@,
    }
}

/// One note line of `/collaborate view`.
pub open spec fn note_line(num: nat, n: CollabNoteV) -> Seq<char> {
    DIM@ + "  "@ + dec(num) + ". ["@ + note_author(n.reporter) + "] "@ + n.content + " — "@
        + n.timestamp + RESET@ + "\n"@
}

pub open spec fn note_lines(ns: Seq<CollabNoteV>) -> Seq<char>
    decreases ns.len(),
{
    if ns.len() == 0 {
        seq![]
    } else {
        note_lines(ns.drop_last()) + note_line(ns.len(), ns.last())
    }
}

/// The title line of `/collaborate view`.
pub open spec fn title_line(p: CollabProjectV) -> Seq<char> {
    DIM@ + "  ── "@ + p.name + " ("@ + status_word(p.status) + ") ──"@ + RESET@ + "\n"@
}

/// The reporters line of `/collaborate view` (none without reporters).
pub open spec fn reporters_line(p: CollabProjectV) -> Seq<char> {
    if p.reporters.len() == 0 {
        seq![]
    } else {
        DIM@ + "  참여 기자: "@ + join(p.reporters, ", "@) + RESET@ + "\n"@
    }
}

/// The heading lines of `/collaborate view`: name and status, reporters,
/// creation time.
pub open spec fn collab_view_head(p: CollabProjectV) -> Seq<char> {
    title_line(p) + reporters_line(p) + DIM@ + "  생성: "@ + p.created_at + RESET@ + "\n"@
}

/// The note lines of `/collaborate view`.
pub open spec fn collab_view_notes(p: CollabProjectV) -> Seq<char> {
    if p.notes.len() == 0 {
        DIM@ + "  (메모 없음)"@ + RESET@ + "\n"@
    } else {
        DIM@ + "  ── 메모 ("@ + dec(p.notes.len()) + ") ──"@ + RESET@ + "\n"@ + note_lines(p.notes)
    }
}

/// What `/collaborate view` prints for a project, line by line.
pub open spec fn collab_view_text(p: CollabProjectV) -> Seq<char> {
    collab_view_head(p) + collab_view_notes(p) + "\n"@
}

fn push_note_line(out: &mut Vec<char>, num: usize, n: &CollabNote)
    ensures
        final(out)@ == old(out)@ + note_line(num as nat, n@),
{
    push_str(out, DIM);
    push_str(out, "  ");
    push_dec(out, num as u64);
    push_str(out, ". [");
    let a = reporter_display(n.reporter.as_str());
    push_str(out, a.as_str());
    push_str(out, "] ");
    push_str(out, n.content.as_str());
    push_str(out, " — ");
    push_str(out, n.timestamp.as_str());
    push_str(out, RESET);
    push_str(out, "\n");
    assert(final(out)@ =~= old(out)@ + note_line(num as nat, n@));
}

fn push_title_line(out: &mut Vec<char>, p: &CollabProject)
    ensures
        final(out)@ == old(out)@ + title_line(p@),
{
    push_str(out, DIM);
    push_str(out, "  ── ");
    push_str(out, p.name.as_str());
    push_str(out, " (");
    match p.status {
        CollabStatus::Active => push_str(out, "활성"),
        CollabStatus::Closed => push_str(out, "종료"),
    }
    push_str(out, ") ──");
    push_str(out, RESET);
    push_str(out, "\n");
    assert(final(out)@ =~= old(out)@ + title_line(p@));
}

fn push_reporters_line(out: &mut Vec<char>, p: &CollabProject)
    ensures
        final(out)@ == old(out)@ + reporters_line(p@),
{
    if p.reporters.len() > 0 {
        push_str(out, DIM);
        push_str(out, "  참여 기자: ");
        let rs = reporters_chars(&p.reporters);
        let sep = chars_of(", ");
        let j = join_exec(&rs, sep.as_slice());
        push_all(out, j.as_slice());
        push_str(out, RESET);
        push_str(out, "\n");
    }
    assert(final(out)@ =~= old(out)@ + reporters_line(p@));
}

fn push_view_head(out: &mut Vec<char>, p: &CollabProject)
    ensures
        final(out)@ == old(out)@ + collab_view_head(p@),
{
    push_title_line(out, p);
    push_reporters_line(out, p);
    push_str(out, DIM);
    push_str(out, "  생성: ");
    push_str(out, p.created_at.as_str());
    push_str(out, RESET);
    push_str(out, "\n");
    assert(final(out)@ =~= old(out)@ + collab_view_head(p@));
}

fn push_view_notes(out: &mut Vec<char>, p: &CollabProject)
    ensures
        final(out)@ == old(out)@ + collab_view_notes(p@),
{
    let ghost nv = p@.notes;
    if p.notes.len() == 0 {
        push_str(out, DIM);
        push_str(out, "  (메모 없음)");
        push_str(out, RESET);
        push_str(out, "\n");
        assert(final(out)@ =~= old(out)@ + collab_view_notes(p@));
    } else {
        push_str(out, DIM);
        push_str(out, "  ── 메모 (");
        push_dec(out, p.notes.len() as u64);
        push_str(out, ") ──");
        push_str(out, RESET);
        push_str(out, "\n");
        let ghost head2 = out@;
        let mut i: usize = 0;
        assert(nv.take(0) =~= Seq::<CollabNoteV>::empty());
        while i < p.notes.len()
            invariant
                i <= p.notes@.len(),
                nv == p@.notes,
                out@ == head2 + note_lines(nv.take(i as int)),
            decreases p.notes@.len() - i,
        {
            assert(nv.take(i + 1).drop_last() =~= nv.take(i as int));
            assert(nv.take(i + 1).last() == p.notes[i as int]@);
            push_note_line(out, i + 1, &p.notes[i]);
            i += 1;
            assert(out@ =~= head2 + note_lines(nv.take(i as int)));
        }
        assert(nv.take(p.notes@.len() as int) =~= nv);
        assert(final(out)@ =~= old(out)@ + collab_view_notes(p@));
    }
}

/// The text `/collaborate view` prints for a project.
pub fn collab_view(p: &CollabProject) -> (r: String)
    ensures
        r@ == collab_view_text(p@),
{
    let mut out: Vec<char> = Vec::new();
    push_view_head(&mut out, p);
    push_view_notes(&mut out, p);
    push_str(&mut out, "\n");
    assert(out@ =~= collab_view_text(p@));
    string_of(out.as_slice())
}

} // verus!
