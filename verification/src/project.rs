//! Shared project utilities: topic slugs and today's date.
use vstd::prelude::*;
use crate::calendar::{epoch_date_text, epoch_date_vec, unix_now_secs};
use crate::text::{ascii_lower, ascii_lower_exec, chars_of, string_of};

verus! {

/// `char::is_alphanumeric` beyond ASCII: whether `c` has the Unicode
/// `Alphabetic` or `Numeric` property.
pub uninterp spec fn unicode_alnum(c: char) -> bool;

/// `char::is_alphanumeric`: the ASCII letters and digits, and beyond ASCII
/// what the Unicode tables say.
pub open spec fn alnum(c: char) -> bool {
    if (c as u32) < 128 {
        ascii_alnum(c)
    } else {
        unicode_alnum(c)
    }
}

/// An ASCII letter or digit.
pub open spec fn ascii_alnum(c: char) -> bool {
    ('a' <= c && c <= 'z') || ('A' <= c && c <= 'Z') || ('0' <= c && c <= '9')
}

/// `char::is_alphanumeric`. For an ASCII character it holds exactly of the
/// letters and digits (as its documentation says, `Alphabetic` or `Numeric`);
/// beyond ASCII the Unicode tables decide, which the name `unicode_alnum`
/// stands for.
#[verifier::external_body]
pub(crate) fn is_alphanumeric(c: char) -> (r: bool)
    ensures
        (c as u32) < 128 ==> r == ascii_alnum(c),
        (c as u32) >= 128 ==> r == unicode_alnum(c),
{
    c.is_alphanumeric()
}

/// Reading a topic into a slug: the slug so far, and whether it ends in a
/// hyphen (or is still empty).
pub open spec fn slug_state(s: Seq<char>) -> (Seq<char>, bool)
    decreases s.len(),
{
    if s.len() == 0 {
        (seq![], true)
    } else {
        let (out, last_hyphen) = slug_state(s.drop_last());
        let c = s.last();
        if alnum(c) {
            (out.push(if (c as u32) < 128 { ascii_lower(c) } else { c }), false)
        } else if !last_hyphen {
            (out.push('-'), true)
        } else {
            (out, last_hyphen)
        }
    }
}

/// `s` without trailing hyphens (`trim_end_matches('-')`).
pub open spec fn trim_hyphens(s: Seq<char>) -> Seq<char>
    decreases s.len(),
{
    if s.len() > 0 && s.last() == '-' {
        trim_hyphens(s.drop_last())
    } else {
        s
    }
}

/// What `topic_to_slug(topic, max_len)` returns: alphanumeric characters
/// kept (ASCII ones lower-cased), every other run of characters turned into
/// one hyphen (none at the start or end), cut to `max_len` characters.
pub open spec fn slug_of(topic: Seq<char>, max_len: nat) -> Seq<char> {
    let t = trim_hyphens(slug_state(topic).0);
    if t.len() > max_len {
        trim_hyphens(t.take(max_len as int))
    } else {
        t
    }
}

/// What a slug looks like: only hyphens and alphanumeric characters with
/// no ASCII capitals, no hyphen first, and no two hyphens in a row.
pub open spec fn slug_shaped(s: Seq<char>) -> bool {
    &&& forall|i: int|
        0 <= i < s.len() ==> (#[trigger] s[i] == '-' || (alnum(s[i]) && !('A' <= s[i] && s[i] <= 'Z')))
    &&& s.len() > 0 ==> s[0] != '-'
    &&& forall|i: int| 0 < i < s.len() && #[trigger] s[i] == '-' ==> s[i - 1] != '-'
}

/// A finished slug: shaped as above, and not ending in a hyphen.
pub open spec fn slug_clean(s: Seq<char>) -> bool {
    slug_shaped(s) && (s.len() > 0 ==> s.last() != '-')
}

proof fn lemma_slug_state_shaped(s: Seq<char>)
    ensures
        slug_shaped(slug_state(s).0),
        slug_state(s).1 <==> (slug_state(s).0.len() == 0 || slug_state(s).0.last() == '-'),
    decreases s.len(),
{
    if s.len() > 0 {
        lemma_slug_state_shaped(s.drop_last());
        let prev = slug_state(s.drop_last()).0;
        let out = slug_state(s).0;
        assert forall|i: int| 0 <= i < prev.len() implies out[i] == prev[i] by {}
    }
}

proof fn lemma_shaped_prefix(s: Seq<char>, k: int)
    requires
        slug_shaped(s),
        0 <= k <= s.len(),
    ensures
        slug_shaped(s.take(k)),
{
    let t = s.take(k);
    assert forall|i: int| 0 <= i < t.len() implies t[i] == s[i] by {}
}

proof fn lemma_trim_hyphens(s: Seq<char>)
    ensures
        trim_hyphens(s).len() <= s.len(),
        trim_hyphens(s) == s.take(trim_hyphens(s).len() as int),
        trim_hyphens(s).len() > 0 ==> trim_hyphens(s).last() != '-',
    decreases s.len(),
{
    if s.len() > 0 && s.last() == '-' {
        lemma_trim_hyphens(s.drop_last());
        let t = trim_hyphens(s.drop_last());
        assert(s.drop_last().take(t.len() as int) =~= s.take(t.len() as int));
    } else {
        assert(s.take(s.len() as int) =~= s);
    }
}

proof fn lemma_trim_clean(s: Seq<char>)
    requires
        slug_shaped(s),
    ensures
        slug_clean(trim_hyphens(s)),
{
    lemma_trim_hyphens(s);
    lemma_shaped_prefix(s, trim_hyphens(s).len() as int);
}

/// A shaped slug reads back as itself.
proof fn lemma_slug_state_of_shaped(s: Seq<char>)
    requires
        slug_shaped(s),
    ensures
        slug_state(s).0 == s,
        slug_state(s).1 <==> (s.len() == 0 || s.last() == '-'),
    decreases s.len(),
{
    if s.len() > 0 {
        lemma_shaped_prefix(s, s.len() - 1);
        assert(s.take(s.len() - 1) =~= s.drop_last());
        lemma_slug_state_of_shaped(s.drop_last());
        let c = s.last();
        assert(c == s[s.len() - 1]);
        if c == '-' {
            assert(!alnum(c));
            if s.len() > 1 {
                assert(s.drop_last().last() == s[s.len() - 2]);
            }
        } else {
            assert(alnum(c));
        }
        assert(s.drop_last().push(c) =~= s);
    }
}

/// A slug is clean and no longer than asked: only lower-case ASCII letters,
/// digits, other alphanumeric characters and single hyphens between them,
/// and slugging it again changes nothing.
pub proof fn lemma_slug_laws(topic: Seq<char>, max_len: nat)
    ensures
        slug_clean(slug_of(topic, max_len)),
        slug_of(topic, max_len).len() <= max_len,
        slug_of(slug_of(topic, max_len), max_len) == slug_of(topic, max_len),
{
    lemma_slug_state_shaped(topic);
    let st = slug_state(topic).0;
    lemma_trim_clean(st);
    lemma_trim_hyphens(st);
    let t = trim_hyphens(st);
    let r = slug_of(topic, max_len);
    if t.len() > max_len {
        lemma_shaped_prefix(t, max_len as int);
        lemma_trim_clean(t.take(max_len as int));
        lemma_trim_hyphens(t.take(max_len as int));
    }
    lemma_slug_state_of_shaped(r);
    if r.len() > 0 {
        assert(trim_hyphens(r) == r);
    } else {
        assert(trim_hyphens(r) == r);
    }
}

fn trim_hyphens_len(s: &[char], n: usize) -> (r: usize)
    requires
        n <= s@.len(),
    ensures
        r <= n,
        trim_hyphens(s@.take(n as int)) == s@.take(r as int),
{
    let mut j = n;
    while j > 0 && s[j - 1] == '-'
        invariant
            j <= n <= s@.len(),
            trim_hyphens(s@.take(n as int)) == trim_hyphens(s@.take(j as int)),
        decreases j,
    {
        assert(s@.take(j as int).drop_last() =~= s@.take(j - 1));
        j -= 1;
    }
    j
}

/// Generate a slug from a topic string: lowercase, ASCII-safe, hyphen-separated.
/// Non-ASCII characters (e.g. Korean) are kept as-is; only ASCII is lowercased.
/// Whitespace and punctuation become hyphens; consecutive hyphens are collapsed.
/// The slug is truncated to at most `max_len` characters.
pub fn topic_to_slug(topic: &str, max_len: usize) -> (r: String)
    ensures
        r@ == slug_of(topic@, max_len as nat),
{
    let v = chars_of(topic);
    let mut slug: Vec<char> = Vec::new();
    let mut last_was_hyphen = true;
    let mut i: usize = 0;
    assert(v@.take(0) =~= Seq::<char>::empty());
    while i < v.len()
        invariant
            i <= v@.len(),
            (slug@, last_was_hyphen) == slug_state(v@.take(i as int)),
        decreases v@.len() - i,
    {
        let ch = v[i];
        assert(v@.take(i + 1).drop_last() =~= v@.take(i as int));
        assert(v@.take(i + 1).last() == ch);
        if is_alphanumeric(ch) {
            if (ch as u32) < 128 {
                slug.push(ascii_lower_exec(ch));
            } else {
                slug.push(ch);
            }
            last_was_hyphen = false;
        } else if !last_was_hyphen {
            slug.push('-');
            last_was_hyphen = true;
        }
        i += 1;
    }
    assert(v@.take(v@.len() as int) =~= v@);
    let n = trim_hyphens_len(slug.as_slice(), slug.len());
    assert(slug@.take(slug@.len() as int) =~= slug@);
    if n > max_len {
        let m = trim_hyphens_len(slug.as_slice(), max_len);
        assert(slug@.take(n as int).take(max_len as int) =~= slug@.take(max_len as int));
        string_of(crate::text::slice_of(slug.as_slice(), 0, m).as_slice())
    } else {
        string_of(crate::text::slice_of(slug.as_slice(), 0, n).as_slice())
    }
}

/// Today's date (UTC) as `YYYY-MM-DD`, from the day of the system clock.
pub fn today_str() -> (r: String)
    ensures
        exists|days: int| 0 <= days && r@ == epoch_date_text(days),
{
    let secs = unix_now_secs();
    let v = epoch_date_vec(secs / 86400);
    string_of(v.as_slice())
}

} // verus!
