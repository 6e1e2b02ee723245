//! Session command arguments: bookmark names and subagent tasks.
use vstd::prelude::*;
use crate::order::{key_order, keys_view, order_by_key};
use crate::text::{chars_of, command_arg, command_arg_exec, eq_exec, string_of, trim, trim_vec};

verus! {

/// What follows `prefix`, trimmed, when there is any.
pub open spec fn nonempty_arg(input: Seq<char>, prefix: Seq<char>) -> Option<Seq<char>> {
    let a = command_arg(input, prefix);
    if a.len() == 0 {
        None
    } else {
        Some(a)
    }
}

pub open spec fn opt_text(o: Option<String>) -> Option<Seq<char>> {
    match o {
        Some(s) => Some(s@),
        None => None,
    }
}

/// Parse a bookmark name from input like "/mark name" or "/jump name".
pub fn parse_bookmark_name(input: &str, prefix: &str) -> (r: Option<String>)
    ensures
        opt_text(r) == nonempty_arg(input@, prefix@),
{
    let a = command_arg_exec(input, prefix);
    if a.len() == 0 {
        None
    } else {
        Some(string_of(a.as_slice()))
    }
}

/// Parse the task from "/spawn <task>".
pub fn parse_spawn_task(input: &str) -> (r: Option<String>)
    ensures
        opt_text(r) == nonempty_arg(input@, "/spawn"@),
{
    parse_bookmark_name(input, "/spawn")
}

/// Where `/save` and `/load` keep a session by default.
pub const DEFAULT_SESSION_PATH: &'static str = "yoyo-session.json";

/// Where a session is saved on exit, for `--continue`.
pub const AUTO_SAVE_SESSION_PATH: &'static str = ".yoyo/last-session.json";

/// The file `/save [path]` or `/load [path]` uses: the path given, or the
/// default session file.
pub open spec fn session_path_of(input: Seq<char>, prefix: Seq<char>) -> Seq<char> {
    let a = command_arg(input, prefix);
    if a.len() == 0 {
        DEFAULT_SESSION_PATH@
    } else {
        a
    }
}

/// The file `/save [path]` or `/load [path]` uses.
pub fn session_path(input: &str, prefix: &str) -> (r: String)
    ensures
        r@ == session_path_of(input@, prefix@),
{
    let a = command_arg_exec(input, prefix);
    if a.len() == 0 {
        string_of(chars_of(DEFAULT_SESSION_PATH).as_slice())
    } else {
        string_of(a.as_slice())
    }
}

/// The session `--continue` loads: the one saved on exit when it exists,
/// else the default session file.
pub fn continue_session_path(last_session_exists: bool) -> (r: &'static str)
    ensures
        r@ == if last_session_exists {
            AUTO_SAVE_SESSION_PATH@
        } else {
            DEFAULT_SESSION_PATH@
        },
{
    if last_session_exists {
        AUTO_SAVE_SESSION_PATH
    } else {
        DEFAULT_SESSION_PATH
    }
}

/// The query of `/search <query>` (`None`: show the usage).
pub open spec fn search_query_of(input: Seq<char>) -> Option<Seq<char>> {
    if input == "/search"@ {
        None
    } else {
        let q = trim(crate::research::strip_prefixes(input, "/search "@));
        if q.len() == 0 {
            None
        } else {
            Some(q)
        }
    }
}

/// Read the query of `/search <query>`.
pub fn search_query(input: &str) -> (r: Option<String>)
    ensures
        opt_text(r) == search_query_of(input@),
{
    let v = chars_of(input);
    if crate::text::eq_str(v.as_slice(), "/search") {
        return None;
    }
    let s = crate::research::strip_prefixes_exec(v.as_slice(), "/search ");
    let q = trim_vec(s.as_slice());
    if q.len() == 0 {
        None
    } else {
        Some(string_of(q.as_slice()))
    }
}

/// Conversation bookmarks: named snapshots of the message list, each name
/// at most once.
pub struct Bookmarks {
    entries: Vec<(String, String)>,
}

impl Bookmarks {
    /// The names, in the order they were first saved.
    pub closed spec fn names(&self) -> Seq<Seq<char>> {
        self.entries@.map_values(|e: (String, String)| e.0@)
    }

    /// Each name is saved once.
    pub closed spec fn wf(&self) -> bool {
        forall|i: int, j: int|
            0 <= i < j < self.entries@.len() ==> (#[trigger] self.entries@[i]).0@ != (#[trigger] self.entries@[j]).0@
    }

    /// The bookmarks as a map from name to saved snapshot.
    pub closed spec fn map(&self) -> Map<Seq<char>, Seq<char>> {
        Map::new(
            |k: Seq<char>| exists|i: int| 0 <= i < self.entries@.len() && (#[trigger] self.entries@[i]).0@ == k,
            |k: Seq<char>|
                {
                    let i = choose|i: int| 0 <= i < self.entries@.len() && (#[trigger] self.entries@[i]).0@ == k;
                    self.entries@[i].1@
                },
        )
    }
}

impl View for Bookmarks {
    type V = Map<Seq<char>, Seq<char>>;

    open spec fn view(&self) -> Map<Seq<char>, Seq<char>> {
        self.map()
    }
}

impl Bookmarks {
    /// No bookmarks.
    pub fn new() -> (r: Bookmarks)
        ensures
            r.wf(),
            r@ == Map::<Seq<char>, Seq<char>>::empty(),
    {
        let b = Bookmarks { entries: Vec::new() };
        assert(b.map() =~= Map::<Seq<char>, Seq<char>>::empty());
        b
    }

    fn position(&self, name: &str) -> (r: Option<usize>)
        requires
            self.wf(),
        ensures
            match r {
                Some(i) => i < self.entries@.len() && self.entries@[i as int].0@ == name@,
                None => forall|i: int| 0 <= i < self.entries@.len() ==> (#[trigger] self.entries@[i]).0@ != name@,
            },
    {
        let nv = chars_of(name);
        let mut i: usize = 0;
        while i < self.entries.len()
            invariant
                i <= self.entries@.len(),
                nv@ == name@,
                forall|j: int| 0 <= j < i ==> (#[trigger] self.entries@[j]).0@ != name@,
            decreases self.entries@.len() - i,
        {
            if eq_exec(chars_of(self.entries[i].0.as_str()).as_slice(), nv.as_slice()) {
                return Some(i);
            }
            i += 1;
        }
        None
    }

    /// Whether a bookmark has this name.
    pub fn contains(&self, name: &str) -> (r: bool)
        requires
            self.wf(),
        ensures
            r == self@.contains_key(name@),
    {
        match self.position(name) {
            Some(i) => {
                assert(self.map().dom().contains(name@));
                true
            },
            None => false,
        }
    }

    /// The snapshot saved under `name`, if any.
    pub fn get(&self, name: &str) -> (r: Option<String>)
        requires
            self.wf(),
        ensures
            match r {
                Some(v) => self@.contains_key(name@) && self@[name@] == v@,
                None => !self@.contains_key(name@),
            },
    {
        match self.position(name) {
            Some(i) => {
                proof {
                    assert(self.map().dom().contains(name@));
                    let k = choose|k: int| 0 <= k < self.entries@.len() && (#[trigger] self.entries@[k]).0@ == name@;
                    if k != i as int {
                        if k < i as int {
                            assert(self.entries@[k].0@ != self.entries@[i as int].0@);
                        } else {
                            assert(self.entries@[i as int].0@ != self.entries@[k].0@);
                        }
                    }
                    assert(k == i as int);
                }
                Some(string_of(chars_of(self.entries[i].1.as_str()).as_slice()))
            },
            None => None,
        }
    }

    /// Save `snapshot` under `name`; returns whether it replaced an earlier
    /// bookmark of that name.
    pub fn insert(&mut self, name: &str, snapshot: &str) -> (r: bool)
        requires
            old(self).wf(),
        ensures
            final(self).wf(),
            r == old(self)@.contains_key(name@),
            final(self)@ == old(self)@.insert(name@, snapshot@),
    {
        let n = string_of(chars_of(name).as_slice());
        let v = string_of(chars_of(snapshot).as_slice());
        let ghost old_entries = self.entries@;
        match self.position(name) {
            Some(i) => {
                assert(self.map().dom().contains(name@));
                self.entries.set(i, (n, v));
                assert(self.wf()) by {
                    assert forall|a: int, b: int| 0 <= a < b < self.entries@.len() implies (#[trigger] self.entries@[a]).0@
                        != (#[trigger] self.entries@[b]).0@ by {
                        assert(old_entries[a].0@ != old_entries[b].0@);
                    }
                }
                assert(self.map() =~= old(self).map().insert(name@, snapshot@)) by {
                    assert forall|k: Seq<char>| #[trigger] self.map().dom().contains(k) implies self.map()[k]
                        == old(self).map().insert(name@, snapshot@)[k] by {
                        let w = choose|w: int| 0 <= w < self.entries@.len() && (#[trigger] self.entries@[w]).0@ == k;
                        if k == name@ {
                            if w != i as int {
                                if w < i as int {
                                    assert(old_entries[w].0@ != old_entries[i as int].0@);
                                } else {
                                    assert(old_entries[i as int].0@ != old_entries[w].0@);
                                }
                            }
                        } else {
                            assert(old_entries[w].0@ == k);
                            assert(old(self).map().dom().contains(k));
                            let w2 = choose|w2: int| 0 <= w2 < old_entries.len() && (#[trigger] old_entries[w2]).0@ == k;
                            if w2 != w {
                                if w2 < w {
                                    assert(old_entries[w2].0@ != old_entries[w].0@);
                                } else {
                                    assert(old_entries[w].0@ != old_entries[w2].0@);
                                }
                            }
                        }
                    }
                    assert forall|k: Seq<char>| #[trigger] old(self).map().insert(name@, snapshot@).dom().contains(k)
                        implies self.map().dom().contains(k) by {
                        if k != name@ {
                            let w2 = choose|w2: int| 0 <= w2 < old_entries.len() && (#[trigger] old_entries[w2]).0@ == k;
                            assert(self.entries@[w2].0@ == k);
                        } else {
                            assert(self.entries@[i as int].0@ == k);
                        }
                    }
                }
                true
            },
            None => {
                self.entries.push((n, v));
                let ghost last = old_entries.len() as int;
                assert(self.wf()) by {
                    assert forall|a: int, b: int| 0 <= a < b < self.entries@.len() implies (#[trigger] self.entries@[a]).0@
                        != (#[trigger] self.entries@[b]).0@ by {
                        if b < last {
                            assert(old_entries[a].0@ != old_entries[b].0@);
                        } else {
                            assert(old_entries[a].0@ != name@);
                        }
                    }
                }
                assert(self.map() =~= old(self).map().insert(name@, snapshot@)) by {
                    assert forall|k: Seq<char>| #[trigger] self.map().dom().contains(k) implies self.map()[k]
                        == old(self).map().insert(name@, snapshot@)[k] by {
                        let w = choose|w: int| 0 <= w < self.entries@.len() && (#[trigger] self.entries@[w]).0@ == k;
                        if k == name@ {
                            if w != last {
                                assert(old_entries[w].0@ != name@);
                            }
                        } else {
                            assert(w != last);
                            assert(old_entries[w].0@ == k);
                            assert(old(self).map().dom().contains(k));
                            let w2 = choose|w2: int| 0 <= w2 < old_entries.len() && (#[trigger] old_entries[w2]).0@ == k;
                            if w2 != w {
                                if w2 < w {
                                    assert(old_entries[w2].0@ != old_entries[w].0@);
                                } else {
                                    assert(old_entries[w].0@ != old_entries[w2].0@);
                                }
                            }
                        }
                    }
                    assert forall|k: Seq<char>| #[trigger] old(self).map().insert(name@, snapshot@).dom().contains(k)
                        implies self.map().dom().contains(k) by {
                        if k != name@ {
                            let w2 = choose|w2: int| 0 <= w2 < old_entries.len() && (#[trigger] old_entries[w2]).0@ == k;
                            assert(self.entries@[w2].0@ == k);
                        } else {
                            assert(self.entries@[last].0@ == k);
                        }
                    }
                }
                false
            },
        }
    }

    /// How many bookmarks there are.
    pub fn len(&self) -> (r: usize)
        requires
            self.wf(),
        ensures
            r == self@.dom().len(),
    {
        proof {
            self.lemma_dom_len();
        }
        self.entries.len()
    }

    proof fn lemma_dom_len(&self)
        requires
            self.wf(),
        ensures
            self@.dom().len() == self.entries@.len(),
            self@.dom().finite(),
    {
        let ns = self.names();
        assert(self.map().dom() =~= ns.to_set()) by {
            assert forall|k: Seq<char>| self.map().dom().contains(k) implies ns.to_set().contains(k) by {
                let w = choose|w: int| 0 <= w < self.entries@.len() && (#[trigger] self.entries@[w]).0@ == k;
                assert(ns[w] == k);
            }
            assert forall|k: Seq<char>| ns.to_set().contains(k) implies self.map().dom().contains(k) by {
                let w = choose|w: int| 0 <= w < ns.len() && ns[w] == k;
                assert(self.entries@[w].0@ == k);
            }
        }
        assert(ns.no_duplicates()) by {
            assert forall|a: int, b: int| 0 <= a < ns.len() && 0 <= b < ns.len() && a != b implies ns[a] != ns[b] by {
                if a < b {
                    assert(self.entries@[a].0@ != self.entries@[b].0@);
                } else {
                    assert(self.entries@[b].0@ != self.entries@[a].0@);
                }
            }
        }
        ns.unique_seq_to_set();
    }

    /// The bookmark names in text order (what `/marks` lists).
    pub fn sorted_names(&self) -> (r: Vec<String>)
        requires
            self.wf(),
        ensures
            r@.map_values(|s: String| s@).to_set() == self@.dom(),
            forall|i: int, j: int|
                0 <= i < j < r@.len() ==> crate::text::lex_le(#[trigger] r@[i]@, #[trigger] r@[j]@) && r@[i]@ != r@[j]@,
    {
        let mut keys: Vec<String> = Vec::new();
        let mut i: usize = 0;
        while i < self.entries.len()
            invariant
                i <= self.entries@.len(),
                keys@.len() == i,
                forall|j: int| 0 <= j < i ==> (#[trigger] keys@[j])@ == self.entries@[j].0@,
            decreases self.entries@.len() - i,
        {
            keys.push(string_of(chars_of(self.entries[i].0.as_str()).as_slice()));
            i += 1;
        }
        let ghost kv = keys_view(keys@);
        assert(kv =~= self.names());
        let order = order_by_key(&keys);
        let mut out: Vec<String> = Vec::new();
        let mut k: usize = 0;
        while k < order.len()
            invariant
                k <= order@.len(),
                kv == keys_view(keys@),
                key_order(kv, order@),
                out@.len() == k,
                forall|j: int| 0 <= j < k ==> (#[trigger] out@[j])@ == kv[order@[j] as int],
            decreases order@.len() - k,
        {
            let x = order[k];
            out.push(string_of(chars_of(keys[x].as_str()).as_slice()));
            k += 1;
        }
        assert forall|a: int, b: int| 0 <= a < b < out@.len() implies crate::text::lex_le(#[trigger] out@[a]@, #[trigger] out@[b]@)
            && out@[a]@ != out@[b]@ by {
            let x = order@[a] as int;
            let y = order@[b] as int;
            assert(crate::order::key_before(kv, x, y));
            if kv[x] == kv[y] {
                assert(x != y);
                if x < y {
                    assert(self.entries@[x].0@ != self.entries@[y].0@);
                } else {
                    assert(self.entries@[y].0@ != self.entries@[x].0@);
                }
            }
        }
        let ghost ov = out@.map_values(|s: String| s@);
        assert(ov.to_set() =~= self.map().dom()) by {
            assert forall|s: Seq<char>| ov.to_set().contains(s) implies self.map().dom().contains(s) by {
                let w = choose|w: int| 0 <= w < ov.len() && ov[w] == s;
                assert(self.entries@[order@[w] as int].0@ == s);
            }
            assert forall|s: Seq<char>| self.map().dom().contains(s) implies ov.to_set().contains(s) by {
                let w = choose|w: int| 0 <= w < self.entries@.len() && (#[trigger] self.entries@[w]).0@ == s;
                assert(order@.contains(w as usize));
                let q = choose|q: int| 0 <= q < order@.len() && order@[q] == w as usize;
                assert(ov[q] == s);
            }
        }
        out
    }
}

/// Reading a bookmark gives back what was last saved under its name, and
/// saving under one name leaves every other bookmark as it was.
pub proof fn lemma_bookmark_read_after_write(m: Map<Seq<char>, Seq<char>>, name: Seq<char>, snapshot: Seq<char>, other: Seq<char>)
    requires
        other != name,
    ensures
        m.insert(name, snapshot).contains_key(name),
        m.insert(name, snapshot)[name] == snapshot,
        m.insert(name, snapshot).contains_key(other) == m.contains_key(other),
        m.contains_key(other) ==> m.insert(name, snapshot)[other] == m[other],
{
}

} // verus!
