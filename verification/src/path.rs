//! Where the trace store lives: a location derived from the primary store's.
//!
//! A path is read as components between `/` separators. Repeated separators,
//! a trailing separator and `.` components after the first count for nothing.

use crate::text::{chars_of, push_range, string_of};
use vstd::prelude::*;

verus! {

/// The character between the components of a path.
pub const SEPARATOR: char = '/';

/// The location that an engine reports for a store that no file backs.
pub const IN_MEMORY: &'static str = ":memory:";

/// Where the trace store of an in-memory primary store goes: a file of this
/// name in the working directory.
pub const IN_MEMORY_TRACE_DB: &'static str = ":memory:.trace.db";

/// What a trace store's file name ends in.
pub const TRACE_SUFFIX: &'static str = ".trace.db";

/// Whether `p` begins at the root directory.
pub open spec fn has_root(p: Seq<char>) -> bool {
    p.len() > 0 && p[0] == SEPARATOR
}

/// Whether `p` begins with a `.` component, which names the current directory.
pub open spec fn starts_in_current_dir(p: Seq<char>) -> bool {
    p.len() > 0 && p[0] == '.' && (p.len() == 1 || p[1] == SEPARATOR)
}

/// The length of what stands before the named components of `p`: the root
/// separator or the leading `.`, if there is one.
pub open spec fn lead_len(p: Seq<char>) -> int {
    if has_root(p) || starts_in_current_dir(p) {
        1
    } else {
        0
    }
}

/// Where the last component of `p[lead..end]` ends: the separators and `.`
/// components behind it are passed over. It is `lead` where no component is
/// left.
pub open spec fn components_end(p: Seq<char>, lead: int, end: int) -> int
    decreases end - lead,
{
    if end <= lead || end > p.len() || lead < 0 {
        end
    } else if p[end - 1] == SEPARATOR {
        components_end(p, lead, end - 1)
    } else if p[end - 1] == '.' && end - 1 == lead {
        lead
    } else if p[end - 1] == '.' && p[end - 2] == SEPARATOR {
        components_end(p, lead, end - 2)
    } else {
        end
    }
}

/// Where the component that ends at `end` begins: behind the last separator
/// of `p[lead..end]`, or at `lead`.
pub open spec fn component_start(p: Seq<char>, lead: int, end: int) -> int
    decreases end - lead,
{
    if end <= lead || end > p.len() || lead < 0 {
        end
    } else if p[end - 1] == SEPARATOR {
        end
    } else {
        component_start(p, lead, end - 1)
    }
}

/// The last component of `p`, if it names a file or directory: none for an
/// empty path, for one that ends at the root or at a leading `.`, and for one
/// whose last component is `..`.
pub open spec fn file_name(p: Seq<char>) -> Option<Seq<char>> {
    let lead = lead_len(p);
    let end = components_end(p, lead, p.len() as int);
    let name = p.subrange(component_start(p, lead, end), end);
    if end <= lead || name == seq!['.', '.'] {
        None
    } else {
        Some(name)
    }
}

/// The index of the last `c` in `s`, or -1 where `s` holds none.
pub open spec fn last_index_of(s: Seq<char>, c: char) -> int
    decreases s.len(),
{
    if s.len() == 0 {
        -1
    } else if s.last() == c {
        s.len() - 1
    } else {
        last_index_of(s.drop_last(), c)
    }
}

/// A file name without its final extension: what stands before the last dot,
/// unless the name holds no dot or only begins with one.
pub open spec fn file_stem(name: Seq<char>) -> Seq<char> {
    let dot = last_index_of(name, '.');
    if 0 < dot <= name.len() {
        name.take(dot)
    } else {
        name
    }
}

/// The directory that holds the last component of `p`: `p` without that
/// component and what separates it from the one before. Empty where `p` is a
/// single relative component; none where `p` is empty or ends at the root.
pub open spec fn parent(p: Seq<char>) -> Option<Seq<char>> {
    let lead = lead_len(p);
    let end = components_end(p, lead, p.len() as int);
    if end <= lead {
        if starts_in_current_dir(p) {
            Some(Seq::empty())
        } else {
            None
        }
    } else {
        let start = component_start(p, lead, end);
        let cut = if start > lead {
            start - 1
        } else {
            lead
        };
        Some(p.take(components_end(p, lead, cut)))
    }
}

/// The file `name` inside the directory `dir`; an empty `dir` is the working
/// directory.
pub open spec fn join(dir: Seq<char>, name: Seq<char>) -> Seq<char> {
    if dir.len() > 0 && dir.last() != SEPARATOR {
        dir + seq![SEPARATOR] + name
    } else {
        dir + name
    }
}

/// The stem of the file name of `p`, or nothing where `p` has no file name.
pub open spec fn stem_of(p: Seq<char>) -> Seq<char> {
    match file_name(p) {
        Some(name) => file_stem(name),
        None => Seq::empty(),
    }
}

/// The file name of the trace store that belongs to the primary store at `p`:
/// the stem of `p`'s file name, or nothing where it has none, and the suffix.
pub open spec fn trace_file_name(p: Seq<char>) -> Seq<char> {
    stem_of(p) + TRACE_SUFFIX@
}

/// The trace store's location for a file-backed primary store at `p`: the
/// trace file name, in the directory of `p` where `p` names one.
pub open spec fn sibling_trace_path(p: Seq<char>) -> Seq<char> {
    match parent(p) {
        Some(dir) => join(dir, trace_file_name(p)),
        None => trace_file_name(p),
    }
}

/// The trace store's location for the primary store at `p`.
pub open spec fn trace_db_path(p: Seq<char>) -> Seq<char> {
    if p == IN_MEMORY@ {
        IN_MEMORY_TRACE_DB@
    } else {
        sibling_trace_path(p)
    }
}

/// Whether a component of `p` ends at `end`: nothing ends there that
/// `components_end` would pass over.
spec fn settled(p: Seq<char>, lead: int, end: int) -> bool {
    end <= lead || (p[end - 1] != SEPARATOR && !(p[end - 1] == '.' && (end - 1 == lead || p[end
        - 2] == SEPARATOR)))
}

/// `components_end` stays within its bounds and stops where a component ends.
proof fn lemma_components_end(p: Seq<char>, lead: int, end: int)
    requires
        0 <= lead <= end <= p.len(),
    ensures
        lead <= components_end(p, lead, end) <= end,
        settled(p, lead, components_end(p, lead, end)),
    decreases end - lead,
{
    if end <= lead {
    } else if p[end - 1] == SEPARATOR {
        lemma_components_end(p, lead, end - 1);
    } else if p[end - 1] == '.' && end - 1 == lead {
    } else if p[end - 1] == '.' && p[end - 2] == SEPARATOR {
        lemma_components_end(p, lead, end - 2);
    } else {
    }
}

/// `component_start` stays within its bounds; no separator stands in the
/// component, and one stands before it unless it begins at `lead`.
proof fn lemma_component_start(p: Seq<char>, lead: int, end: int)
    requires
        0 <= lead <= end <= p.len(),
    ensures
        lead <= component_start(p, lead, end) <= end,
        forall|i: int| component_start(p, lead, end) <= i < end ==> p[i] != SEPARATOR,
        component_start(p, lead, end) > lead ==> p[component_start(p, lead, end) - 1]
            == SEPARATOR,
    decreases end - lead,
{
    if end > lead && p[end - 1] != SEPARATOR {
        lemma_component_start(p, lead, end - 1);
    }
}

/// A run without separators that begins at `lead` or behind a separator is
/// one component.
proof fn lemma_component_start_of_plain(p: Seq<char>, lead: int, start: int, end: int)
    requires
        0 <= lead <= start <= end <= p.len(),
        forall|i: int| start <= i < end ==> p[i] != SEPARATOR,
        start == lead || p[start - 1] == SEPARATOR,
    ensures
        component_start(p, lead, end) == start,
    decreases end - start,
{
    if end > start {
        lemma_component_start_of_plain(p, lead, start, end - 1);
    }
}

/// The stem of a file name is the beginning of the name.
proof fn lemma_file_stem_is_prefix(name: Seq<char>)
    ensures
        file_stem(name).len() <= name.len(),
        file_stem(name) == name.take(file_stem(name).len() as int),
{
    lemma_last_index_of(name, '.');
    let dot = last_index_of(name, '.');
    if 0 < dot <= name.len() {
        assert(name.take(dot).take(dot) =~= name.take(dot));
    } else {
        assert(name.take(name.len() as int) =~= name);
    }
}

/// `last_index_of` is an index of `s`, or -1.
proof fn lemma_last_index_of(s: Seq<char>, c: char)
    ensures
        -1 <= last_index_of(s, c) < s.len(),
    decreases s.len(),
{
    if s.len() > 0 && s.last() != c {
        lemma_last_index_of(s.drop_last(), c);
    }
}

/// The trace store lies beside the primary store. The file name of its
/// location is the trace file name; and where the primary store's location
/// names a directory, that directory is the trace store's as well.
#[verifier::rlimit(50)]
pub proof fn lemma_trace_store_is_a_sibling(p: Seq<char>)
    ensures
        file_name(sibling_trace_path(p)) == Some(trace_file_name(p)),
        parent(p) is Some ==> parent(sibling_trace_path(p)) == parent(p),
{
    reveal_strlit(".trace.db");
    let lead = lead_len(p);
    let end = components_end(p, lead, p.len() as int);
    lemma_components_end(p, lead, p.len() as int);
    let start = component_start(p, lead, end);
    lemma_component_start(p, lead, end);
    let stem = stem_of(p);
    let name = trace_file_name(p);
    let n = name.len() as int;
    assert(name == stem + TRACE_SUFFIX@);
    assert(TRACE_SUFFIX@.len() == 9);
    assert(forall|i: int| 0 <= i < 9 ==> TRACE_SUFFIX@[i] != SEPARATOR);
    assert(TRACE_SUFFIX@[0] == '.' && TRACE_SUFFIX@[1] == 't' && TRACE_SUFFIX@[8] == 'b');
    assert forall|i: int| 0 <= i < stem.len() implies stem[i] != SEPARATOR by {
        if file_name(p) is Some {
            let whole = p.subrange(start, end);
            lemma_file_stem_is_prefix(whole);
            assert(stem[i] == whole.take(stem.len() as int)[i]);
            assert(whole[i] == p[start + i]);
        }
    }
    assert forall|i: int| 0 <= i < n implies name[i] != SEPARATOR by {
        if i >= stem.len() {
            assert(name[i] == TRACE_SUFFIX@[i - stem.len()]);
        }
    }
    assert(name[n - 1] == 'b');
    assert(n >= 9);
    assert(name != seq!['.', '.']);
    let r = sibling_trace_path(p);
    let dir: Seq<char> = match parent(p) {
        Some(dir) => dir,
        None => Seq::empty(),
    };
    let d = dir.len() as int;
    if end > lead {
        let cut = if start > lead {
            start - 1
        } else {
            lead
        };
        lemma_components_end(p, lead, cut);
        assert(d == components_end(p, lead, cut));
        assert(settled(p, lead, d));
    } else {
        assert(d == 0);
    }
    if d == 0 {
        assert(r =~= name);
        assert(lead_len(r) == 0);
        lemma_component_start_of_plain(r, 0, 0, n);
        assert(r.subrange(0, n) =~= r);
        assert(r.take(0) =~= Seq::<char>::empty());
        if parent(p) is Some {
            assert(dir =~= Seq::<char>::empty());
        }
    } else if dir.last() == SEPARATOR {
        assert(dir =~= seq![SEPARATOR]);
        assert(r =~= seq![SEPARATOR] + name);
        assert(lead_len(r) == 1);
        assert forall|i: int| 1 <= i < r.len() implies r[i] != SEPARATOR by {
            assert(r[i] == name[i - 1]);
        }
        lemma_component_start_of_plain(r, 1, 1, r.len() as int);
        assert(r.subrange(1, r.len() as int) =~= name);
        assert(r.take(1) =~= dir);
    } else {
        assert(r =~= dir + seq![SEPARATOR] + name);
        assert(r[d] == SEPARATOR);
        assert forall|i: int| 0 <= i < d implies r[i] == p[i] by {
            assert(r[i] == dir[i]);
        }
        assert(lead_len(r) == lead);
        assert forall|i: int| d + 1 <= i < r.len() implies r[i] != SEPARATOR by {
            assert(r[i] == name[i - d - 1]);
        }
        lemma_component_start_of_plain(r, lead, d + 1, r.len() as int);
        assert(r.subrange(d + 1, r.len() as int) =~= name);
        assert(settled(r, lead, d));
        assert(r.take(d) =~= dir);
    }
}

/// `components_end` of `chars[lead..end]`.
fn find_components_end(chars: &Vec<char>, lead: usize, end: usize) -> (r: usize)
    requires
        lead <= end <= chars.len(),
    ensures
        lead <= r <= end,
        r == components_end(chars@, lead as int, end as int),
{
    let mut r: usize = end;
    loop
        invariant
            lead <= r <= end <= chars.len(),
            components_end(chars@, lead as int, end as int) == components_end(
                chars@,
                lead as int,
                r as int,
            ),
        ensures
            lead <= r <= end,
            r == components_end(chars@, lead as int, end as int),
        decreases r - lead,
    {
        if r <= lead {
            break ;
        } else if chars[r - 1] == SEPARATOR {
            r -= 1;
        } else if chars[r - 1] == '.' && r - 1 == lead {
            r = lead;
            break ;
        } else if chars[r - 1] == '.' && chars[r - 2] == SEPARATOR {
            r -= 2;
        } else {
            break ;
        }
    }
    r
}

/// `component_start` of `chars[lead..end]`.
fn find_component_start(chars: &Vec<char>, lead: usize, end: usize) -> (r: usize)
    requires
        lead <= end <= chars.len(),
    ensures
        lead <= r <= end,
        r == component_start(chars@, lead as int, end as int),
{
    let mut r: usize = end;
    while r > lead && chars[r - 1] != SEPARATOR
        invariant
            lead <= r <= end <= chars.len(),
            component_start(chars@, lead as int, end as int) == component_start(
                chars@,
                lead as int,
                r as int,
            ),
        decreases r - lead,
    {
        r -= 1;
    }
    r
}

/// Where the stem of the file name `chars[start..end]` ends.
fn find_stem_end(chars: &Vec<char>, start: usize, end: usize) -> (r: usize)
    requires
        start <= end <= chars.len(),
    ensures
        start <= r <= end,
        chars@.subrange(start as int, r as int) == file_stem(
            chars@.subrange(start as int, end as int),
        ),
{
    let ghost name = chars@.subrange(start as int, end as int);
    let mut i: usize = end;
    while i > start && chars[i - 1] != '.'
        invariant
            start <= i <= end <= chars.len(),
            name == chars@.subrange(start as int, end as int),
            last_index_of(name, '.') == last_index_of(chars@.subrange(start as int, i as int), '.'),
        decreases i - start,
    {
        assert(chars@.subrange(start as int, i as int).drop_last() == chars@.subrange(
            start as int,
            i - 1,
        ));
        i -= 1;
    }
    if i - start > 1 {
        assert(name.take(i - 1 - start) == chars@.subrange(start as int, i - 1));
        i - 1
    } else {
        end
    }
}

/// `lead_len` of `chars`.
fn find_lead_len(chars: &Vec<char>) -> (lead: usize)
    ensures
        lead <= chars.len(),
        lead == lead_len(chars@),
{
    let n = chars.len();
    let rooted = n > 0 && chars[0] == SEPARATOR;
    let dotted = n > 0 && chars[0] == '.' && (n == 1 || chars[1] == SEPARATOR);
    if rooted || dotted {
        1
    } else {
        0
    }
}

/// Where the parent of the path `chars` ends, if the path has one.
#[verifier::rlimit(50)]
fn find_parent_end(chars: &Vec<char>) -> (r: Option<usize>)
    ensures
        (match r {
            Some(end) => end <= chars.len() && parent(chars@) == Some(chars@.take(end as int)),
            None => parent(chars@) is None,
        }),
{
    let lead = find_lead_len(chars);
    let end = find_components_end(chars, lead, chars.len());
    if end > lead {
        let start = find_component_start(chars, lead, end);
        let cut: usize = if start > lead {
            start - 1
        } else {
            lead
        };
        Some(find_components_end(chars, lead, cut))
    } else if lead == 1 && chars[0] == '.' {
        assert(chars@.take(0) == Seq::<char>::empty());
        Some(0)
    } else {
        None
    }
}

/// The bounds of the stem of the path's file name; empty where it has none.
#[verifier::rlimit(50)]
fn find_stem(chars: &Vec<char>) -> (r: (usize, usize))
    ensures
        r.0 <= r.1 <= chars.len(),
        chars@.subrange(r.0 as int, r.1 as int) == stem_of(chars@),
{
    let ghost p = chars@;
    let lead = find_lead_len(chars);
    let end = find_components_end(chars, lead, chars.len());
    let start = find_component_start(chars, lead, end);
    let named = end > lead && !(end - start == 2 && chars[start] == '.' && chars[start + 1] == '.');
    proof {
        let name = p.subrange(start as int, end as int);
        if end - start == 2 && p[start as int] == '.' && p[start + 1] == '.' {
            assert(name =~= seq!['.', '.']);
        }
        if name == seq!['.', '.'] {
            assert(name.len() == 2);
            assert(name[0] == '.');
            assert(name[1] == '.');
        }
    }
    if named {
        (start, find_stem_end(chars, start, end))
    } else {
        assert(p.subrange(0, 0) == Seq::<char>::empty());
        (0, 0)
    }
}

/// The location of the trace store that belongs to the primary store at
/// `main_db_path`.
#[verifier::rlimit(50)]
pub fn create_trace_db_path(main_db_path: &str) -> (out: String)
    ensures
        out@ == trace_db_path(main_db_path@),
{
    if String::from_str(main_db_path) == String::from_str(IN_MEMORY) {
        return String::from_str(IN_MEMORY_TRACE_DB);
    }
    let chars = chars_of(main_db_path);
    let ghost p = chars@;
    let mut out: Vec<char> = Vec::new();
    match find_parent_end(&chars) {
        Some(dir_end) => {
            push_range(&mut out, &chars, 0, dir_end);
            if dir_end > 0 && chars[dir_end - 1] != SEPARATOR {
                out.push(SEPARATOR);
            }
            assert(out@ == join(p.take(dir_end as int), Seq::empty()));
        },
        None => {},
    }
    let ghost dir_part = out@;
    let (start, stem_end) = find_stem(&chars);
    push_range(&mut out, &chars, start, stem_end);
    let mut text = string_of(&out, 0, out.len());
    text.append(TRACE_SUFFIX);
    proof {
        let stem = p.subrange(start as int, stem_end as int);
        assert(out@.subrange(0, out@.len() as int) == out@);
        assert(text@ == dir_part + stem + TRACE_SUFFIX@);
        match parent(p) {
            Some(dir) => {
                assert(join(dir, Seq::empty()) + stem + TRACE_SUFFIX@ == join(
                    dir,
                    stem + TRACE_SUFFIX@,
                ));
            },
            None => {
                assert(Seq::<char>::empty() + stem + TRACE_SUFFIX@ == stem + TRACE_SUFFIX@);
            },
        }
    }
    text
}

} // verus!
