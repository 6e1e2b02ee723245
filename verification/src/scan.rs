//! Bracket matching and object splitting over JSON text, the way the API
//! response parsers read it: characters inside string literals are skipped,
//! and a backslash escapes the next character of a string.
use vstd::prelude::*;
use crate::text::{byte_len, byte_offset, chars_of, lemma_byte_len_take, str_byte_len};

verus! {

/// Where a left-to-right reader stands: nesting depth, whether it is inside a
/// string literal, and whether the previous character was an escaping `\`.
pub struct ScanState {
    pub depth: int,
    pub in_str: bool,
    pub esc: bool,
}

/// One character of bracket scanning for the pair `open`/`close`.
pub open spec fn scan_step(st: ScanState, c: char, open: char, close: char) -> ScanState {
    if st.esc {
        ScanState { depth: st.depth, in_str: st.in_str, esc: false }
    } else if c == '\\' && st.in_str {
        ScanState { depth: st.depth, in_str: st.in_str, esc: true }
    } else if c == '"' {
        ScanState { depth: st.depth, in_str: !st.in_str, esc: false }
    } else if st.in_str {
        st
    } else if c == open {
        ScanState { depth: st.depth + 1, in_str: false, esc: false }
    } else if c == close {
        ScanState { depth: st.depth - 1, in_str: false, esc: false }
    } else {
        st
    }
}

/// The state after reading `s[..k]`, counting `[` and `]`.
pub open spec fn bracket_scan(s: Seq<char>, k: int) -> ScanState
    decreases k,
{
    if k <= 0 {
        ScanState { depth: 0, in_str: false, esc: false }
    } else {
        scan_step(bracket_scan(s, k - 1), s[k - 1], '[', ']')
    }
}

/// `s[i]` is a `]` outside any string that brings the depth back to zero.
pub open spec fn closes_at(s: Seq<char>, i: int) -> bool {
    let st = bracket_scan(s, i);
    0 <= i < s.len() && !st.esc && !st.in_str && s[i] == ']' && st.depth == 1
}

/// The first index at or after `i` where the outer bracket closes.
pub open spec fn first_close_from(s: Seq<char>, i: int) -> Option<int>
    decreases s.len() - i,
{
    if i < 0 || i >= s.len() {
        None
    } else if closes_at(s, i) {
        Some(i)
    } else {
        first_close_from(s, i + 1)
    }
}

/// The index of the `]` that closes the array that `s` starts with.
pub open spec fn first_close(s: Seq<char>) -> Option<int> {
    first_close_from(s, 0)
}

/// The character index `find_matching_bracket` stands for: the closing `]`,
/// or the last character when there is none.
pub open spec fn close_index(s: Seq<char>) -> int {
    match first_close(s) {
        Some(i) => i,
        None => s.len() - 1,
    }
}

/// The index of the closing bracket, in characters.
pub(crate) fn matching_bracket_index(s: &[char]) -> (r: Option<usize>)
    ensures
        match r {
            Some(i) => i < s@.len() && first_close(s@) == Some(i as int),
            None => first_close(s@) is None,
        },
{
    let mut depth: i128 = 0;
    let mut in_string = false;
    let mut escape_next = false;
    let mut i: usize = 0;
    while i < s.len()
        invariant
            i <= s@.len(),
            -(i as int) <= depth <= i,
            bracket_scan(s@, i as int) == (ScanState {
                depth: depth as int,
                in_str: in_string,
                esc: escape_next,
            }),
            first_close(s@) == first_close_from(s@, i as int),
        decreases s@.len() - i,
    {
        let ch = s[i];
        if escape_next {
            escape_next = false;
        } else if ch == '\\' && in_string {
            escape_next = true;
        } else if ch == '"' {
            in_string = !in_string;
        } else if in_string {
        } else if ch == '[' {
            depth = depth + 1;
        } else if ch == ']' {
            if depth == 1 {
                return Some(i);
            }
            depth = depth - 1;
        }
        i += 1;
    }
    None
}

proof fn lemma_first_close_from(s: Seq<char>, i: int)
    ensures
        first_close_from(s, i) matches Some(j) ==> closes_at(s, j),
    decreases s.len() - i,
{
    if 0 <= i < s.len() && !closes_at(s, i) {
        lemma_first_close_from(s, i + 1);
    }
}

/// What `find_matching_bracket` returns is a byte offset inside a non-empty
/// text, the byte after it starts a character (so the text can be cut just
/// after it), and, where the array closes, that byte is the closing `]`.
pub proof fn lemma_matching_bracket_bytes(s: Seq<char>)
    requires
        s.len() > 0,
    ensures
        ({
            let r = match first_close(s) {
                Some(i) => byte_len(s.take(i)),
                None => (byte_len(s) - 1) as nat,
            };
            &&& r < byte_len(s)
            &&& crate::text::byte_boundary(s, r + 1)
            &&& first_close(s) matches Some(i) ==> s[i] == ']' && byte_len(s.take(i)) == r
        }),
{
    lemma_first_close_from(s, 0);
    match first_close(s) {
        Some(i) => {
            crate::text::lemma_byte_len_take(s, i);
            crate::text::lemma_byte_len_take(s, i + 1);
            assert(crate::text::utf8_width(s[i]) == 1);
            assert(byte_len(s.take(i + 1)) == byte_len(s.take(i)) + 1);
        },
        None => {
            crate::text::lemma_byte_len_take_mono(s, 0, s.len() as int);
            assert(s.take(0) =~= Seq::<char>::empty());
            assert(s.take(s.len() as int) =~= s);
        },
    }
}

/// Find the position of the closing bracket for an array string starting with
/// '[': the byte offset of the `]` that returns the nesting depth to zero
/// (brackets inside string literals do not count), or the offset of the last
/// byte when there is none.
pub fn find_matching_bracket(s: &str) -> (r: usize)
    ensures
        r == (match first_close(s@) {
            Some(i) => byte_len(s@.take(i)),
            None => if byte_len(s@) == 0 {
                0
            } else {
                (byte_len(s@) - 1) as nat
            },
        }),
{
    let v = chars_of(s);
    let n = str_byte_len(s);
    match matching_bracket_index(v.as_slice()) {
        Some(i) => byte_offset(v.as_slice(), i),
        None => if n == 0 {
            0
        } else {
            n - 1
        },
    }
}

// ───────────────────────── object splitting ─────────────────────────

/// A reader that cuts the top-level `{...}` objects out of an array.
pub struct ObjState {
    pub depth: int,
    pub start: Option<int>,
    pub in_str: bool,
    pub esc: bool,
    pub objs: Seq<Seq<char>>,
}

/// One character (`s[i]`) of object splitting. `aware` readers skip string
/// literals and forget an object's start once it closes; the plain reader
/// looks at braces only.
pub open spec fn obj_step(st: ObjState, s: Seq<char>, i: int, aware: bool) -> ObjState {
    let c = s[i];
    if aware && st.esc {
        ObjState { esc: false, ..st }
    } else if aware && c == '\\' && st.in_str {
        ObjState { esc: true, ..st }
    } else if aware && c == '"' {
        ObjState { in_str: !st.in_str, ..st }
    } else if aware && st.in_str {
        st
    } else if c == '{' {
        ObjState {
            start: if st.depth == 0 {
                Some(i)
            } else {
                st.start
            },
            depth: st.depth + 1,
            ..st
        }
    } else if c == '}' {
        if st.depth - 1 == 0 {
            ObjState {
                depth: 0,
                objs: match st.start {
                    Some(a) => st.objs.push(s.subrange(a, i + 1)),
                    None => st.objs,
                },
                start: if aware {
                    None
                } else {
                    st.start
                },
                ..st
            }
        } else {
            ObjState { depth: st.depth - 1, ..st }
        }
    } else {
        st
    }
}

/// The state after reading `s[..k]`.
pub open spec fn obj_scan(s: Seq<char>, k: int, aware: bool) -> ObjState
    decreases k,
{
    if k <= 0 {
        ObjState { depth: 0, start: None, in_str: false, esc: false, objs: seq![] }
    } else {
        obj_step(obj_scan(s, k - 1, aware), s, k - 1, aware)
    }
}

/// The top-level objects of `s`, in order.
pub open spec fn json_objects(s: Seq<char>, aware: bool) -> Seq<Seq<char>> {
    obj_scan(s, s.len() as int, aware).objs
}

proof fn lemma_obj_start_bound(s: Seq<char>, k: int, aware: bool)
    requires
        0 <= k <= s.len(),
    ensures
        obj_scan(s, k, aware).start matches Some(a) ==> 0 <= a < k,
        -k <= obj_scan(s, k, aware).depth <= k,
    decreases k,
{
    if k > 0 {
        lemma_obj_start_bound(s, k - 1, aware);
    }
}

/// Cuts `s` into its top-level objects.
pub(crate) fn split_objects(s: &[char], aware: bool) -> (r: Vec<Vec<char>>)
    ensures
        r.deep_view() == json_objects(s@, aware),
{
    let mut objs: Vec<Vec<char>> = Vec::new();
    let mut depth: i128 = 0;
    let mut obj_start: Option<usize> = None;
    let mut in_string = false;
    let mut escape_next = false;
    let mut i: usize = 0;
    assert(objs.deep_view() =~= Seq::<Seq<char>>::empty());
    while i < s.len()
        invariant
            i <= s@.len(),
            -(i as int) <= depth <= i,
            obj_start matches Some(a) ==> a < i,
            obj_scan(s@, i as int, aware) == (ObjState {
                depth: depth as int,
                start: match obj_start {
                    Some(a) => Some(a as int),
                    None => None,
                },
                in_str: in_string,
                esc: escape_next,
                objs: objs.deep_view(),
            }),
        decreases s@.len() - i,
    {
        let ch = s[i];
        if aware && escape_next {
            escape_next = false;
        } else if aware && ch == '\\' && in_string {
            escape_next = true;
        } else if aware && ch == '"' {
            in_string = !in_string;
        } else if aware && in_string {
        } else if ch == '{' {
            if depth == 0 {
                obj_start = Some(i);
            }
            depth = depth + 1;
        } else if ch == '}' {
            depth = depth - 1;
            if depth == 0 {
                if let Some(a) = obj_start {
                    let o = crate::text::slice_of(s, a, i + 1);
                    let ghost before = objs.deep_view();
                    let ghost ov = o@;
                    objs.push(o);
                    assert(objs.deep_view() =~= before.push(ov)) by {
                        assert(objs@[objs@.len() - 1].deep_view() =~= ov);
                    }
                }
                if aware {
                    obj_start = None;
                }
            }
        }
        i += 1;
    }
    objs
}

} // verus!
