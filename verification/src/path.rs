//! Paths as texts with `/` between their components.
use vstd::prelude::*;

use crate::text::{
    chars_of, decimal, decimal_of, decimal_wide, join, join2, join3, join_of, piece, same, split,
    split_of, strip_prefix, strip_prefix_of,
};

verus! {

/// Whether `p` starts at the root.
pub open spec fn absolute(p: Seq<char>) -> bool {
    p.len() > 0 && p[0] == '/'
}

/// `p` seen from the directory `base`: `p` itself where it is absolute, otherwise the two with one
/// `/` between them.
pub open spec fn joined(base: Seq<char>, p: Seq<char>) -> Seq<char> {
    if absolute(p) {
        p
    } else if base.len() == 0 || base.last() == '/' {
        base + p
    } else {
        base.push('/') + p
    }
}

pub fn is_absolute(p: &str) -> (r: bool)
    ensures
        r == absolute(p@),
{
    let chars = chars_of(p);
    chars.len() > 0 && chars[0] == '/'
}

pub fn join_path(base: &str, p: &str) -> (r: String)
    ensures
        r@ == joined(base@, p@),
{
    if is_absolute(p) {
        return p.to_owned();
    }
    let chars = chars_of(base);
    if chars.len() == 0 || chars[chars.len() - 1] == '/' {
        return join2(base, p);
    }
    proof {
        reveal_strlit("/");
        assert("/"@ == seq!['/']);
        assert(base@ + "/"@ == base@.push('/'));
    }
    join3(base, "/", p)
}

/// `p` with a leading `~` standing for the home directory.
pub open spec fn user_path(p: Seq<char>, home: Seq<char>) -> Seq<char> {
    if p == "~"@ {
        home
    } else {
        match strip_prefix_of(p, "~/"@) {
            Some(rest) => joined(home, rest),
            None => p,
        }
    }
}

/// `p` with a leading `~` standing for the home directory `home_dir`.
pub fn expand_user_path_from(p: &str, home_dir: &str) -> (r: String)
    ensures
        r@ == user_path(p@, home_dir@),
{
    if same(p, "~") {
        return home_dir.to_owned();
    }
    match strip_prefix(p, "~/") {
        Some(rest) => join_path(home_dir, rest.as_str()),
        None => p.to_owned(),
    }
}

// ---------------------------------------------------------------------------------------------
// Components
// ---------------------------------------------------------------------------------------------
/// The parts that name something: neither empty nor a single dot.
pub open spec fn named_parts(parts: Seq<Seq<char>>) -> Seq<Seq<char>>
    decreases parts.len(),
{
    if parts.len() == 0 {
        seq![]
    } else {
        let front = named_parts(parts.drop_last());
        if parts.last().len() == 0 || parts.last() == "."@ {
            front
        } else {
            front.push(parts.last())
        }
    }
}

/// The components of a path: `/` for the root of an absolute path, `.` where a relative path starts
/// with it, and the parts that name something.
pub open spec fn components_of(p: Seq<char>) -> Seq<Seq<char>> {
    let parts = split_of(p, '/');
    let head = if absolute(p) {
        seq!["/"@]
    } else if parts[0] == "."@ {
        seq!["."@]
    } else {
        seq![]
    };
    head + named_parts(parts)
}

/// Whether `p` starts with all of `head`.
pub open spec fn starts_with_all(p: Seq<Seq<char>>, head: Seq<Seq<char>>) -> bool {
    head.len() <= p.len() && p.subrange(0, head.len() as int) == head
}

/// How much of a path stands before its names: the `/` of the root, or a `.` that it starts with.
pub open spec fn lead(p: Seq<char>) -> int {
    if absolute(p) || (p.len() > 0 && p[0] == '.' && (p.len() == 1 || p[1] == '/')) {
        1
    } else {
        0
    }
}

/// Whether a part of a path names nothing: it is empty or a single dot.
pub open spec fn nameless(part: Seq<char>) -> bool {
    part.len() == 0 || part == seq!['.']
}

/// Where the last part of `t` begins, which is not before `from`.
pub open spec fn last_part(t: Seq<char>, from: int) -> int
    decreases t.len(),
{
    if t.len() == 0 || t.len() <= from {
        from
    } else if t.last() == '/' {
        t.len() as int
    } else {
        last_part(t.drop_last(), from)
    }
}

/// `t` without its last part and the `/` before it; what stands before `from` stays.
pub open spec fn cut(t: Seq<char>, from: int) -> Seq<char> {
    let i = last_part(t, from);
    t.take(
        if i > from {
            i - 1
        } else {
            from
        },
    )
}

/// `t` without the parts at its end that name nothing; what stands before `from` stays.
pub open spec fn trimmed_end(t: Seq<char>, from: int) -> Seq<char>
    decreases t.len(),
{
    if 0 <= from < t.len() && nameless(t.skip(last_part(t, from))) {
        proof {
            lemma_last_part(t, from);
        }
        trimmed_end(cut(t, from), from)
    } else {
        t
    }
}

pub proof fn lemma_last_part(t: Seq<char>, from: int)
    requires
        0 <= from <= t.len(),
    ensures
        from <= last_part(t, from) <= t.len(),
    decreases t.len(),
{
    if from < t.len() && t.last() != '/' {
        lemma_last_part(t.drop_last(), from);
    }
}

/// How long the first part of `t` is.
pub open spec fn first_part(t: Seq<char>) -> int
    decreases t.len(),
{
    if t.len() == 0 || t[0] == '/' {
        0
    } else {
        1 + first_part(t.drop_first())
    }
}

/// `t` without its first part and the `/` behind it.
pub open spec fn behind(t: Seq<char>) -> Seq<char> {
    if first_part(t) < t.len() {
        t.skip(first_part(t) + 1)
    } else {
        seq![]
    }
}

/// `t` without the parts at its beginning that name nothing.
pub open spec fn trimmed_start(t: Seq<char>) -> Seq<char>
    decreases t.len(),
{
    if t.len() > 0 && nameless(t.take(first_part(t))) {
        proof {
            lemma_first_part(t);
        }
        trimmed_start(behind(t))
    } else {
        t
    }
}

pub proof fn lemma_first_part(t: Seq<char>)
    ensures
        0 <= first_part(t) <= t.len(),
    decreases t.len(),
{
    if t.len() > 0 && t[0] != '/' {
        lemma_first_part(t.drop_first());
    }
}

/// `t` without its first `n` names.
pub open spec fn without_names(t: Seq<char>, n: nat) -> Seq<char>
    decreases n,
{
    if n == 0 {
        t
    } else {
        without_names(behind(trimmed_start(t)), (n - 1) as nat)
    }
}

/// What is left of a path behind its first `n` components, as it is written there.
pub open spec fn rest_of(p: Seq<char>, n: nat) -> Seq<char> {
    if n == 0 {
        trimmed_end(p, lead(p))
    } else {
        trimmed_end(
            trimmed_start(without_names(p.skip(lead(p)), (n - lead(p)) as nat)),
            0,
        )
    }
}

/// `p` as seen from `base`, where `p` lies below `base`.
pub open spec fn relative_to(p: Seq<char>, base: Seq<char>) -> Option<Seq<char>> {
    let head = components_of(base);
    if starts_with_all(components_of(p), head) {
        Some(rest_of(p, head.len()))
    } else {
        None
    }
}

/// The last component, where it names a file or directory.
pub open spec fn file_name_of(p: Seq<char>) -> Option<Seq<char>> {
    let c = components_of(p);
    if c.len() > 0 && c.last() != "/"@ && c.last() != "."@ && c.last() != ".."@ {
        Some(c.last())
    } else {
        None
    }
}

/// The path without its last component, as it is written; none for the root and for an empty path.
pub open spec fn parent_of(p: Seq<char>) -> Option<Seq<char>> {
    let t = trimmed_end(p, lead(p));
    if t.len() > lead(p) {
        Some(trimmed_end(cut(t, lead(p)), lead(p)))
    } else if t.len() > 0 && !absolute(p) {
        Some(seq![])
    } else {
        None
    }
}

/// The path with another last component.
pub open spec fn renamed_file(p: Seq<char>, name: Seq<char>) -> Seq<char> {
    match (file_name_of(p), parent_of(p)) {
        (Some(_), Some(dir)) => joined(dir, name),
        _ => joined(p, name),
    }
}

proof fn lemma_trimmed_end(t: Seq<char>, from: int)
    requires
        0 <= from <= t.len(),
    ensures
        from <= trimmed_end(t, from).len() <= t.len(),
        t.take(trimmed_end(t, from).len() as int) == trimmed_end(t, from),
    decreases t.len(),
{
    lemma_last_part(t, from);
    if from < t.len() && nameless(t.skip(last_part(t, from))) {
        let next = cut(t, from);
        lemma_trimmed_end(next, from);
        let n = trimmed_end(next, from).len() as int;
        assert(next.take(n) == t.take(n));
    } else {
        assert(t.take(t.len() as int) == t);
    }
}

/// The path without its last component is the beginning of the path, and shorter.
pub proof fn a_parent_is_a_shorter_beginning(p: Seq<char>)
    ensures
        parent_of(p) matches Some(dir) ==> dir.len() < p.len() && p.take(dir.len() as int) == dir,
{
    let from = lead(p);
    lemma_trimmed_end(p, from);
    let t = trimmed_end(p, from);
    if t.len() > from {
        lemma_last_part(t, from);
        let next = cut(t, from);
        lemma_trimmed_end(next, from);
        let n = trimmed_end(next, from).len() as int;
        assert(next.take(n) == t.take(n));
        assert(t.take(n) == p.take(n));
    } else {
        assert(p.take(0) == Seq::<char>::empty());
    }
}

/// The directories above a path, the nearest first.
pub open spec fn above(p: Seq<char>) -> Seq<Seq<char>>
    decreases p.len(),
{
    match parent_of(p) {
        Some(dir) => {
            proof {
                a_parent_is_a_shorter_beginning(p);
            }
            seq![dir] + above(dir)
        },
        None => seq![],
    }
}

/// The components of a path.
pub fn components(p: &str) -> (r: Vec<String>)
    ensures
        r.deep_view() == components_of(p@),
{
    let parts = split(p, '/');
    let ghost all = parts.deep_view();
    let mut out: Vec<String> = Vec::new();
    assert(all[0] == parts@[0]@);
    if is_absolute(p) {
        out.push("/".to_owned());
    } else if same(parts[0].as_str(), ".") {
        out.push(".".to_owned());
    }
    let ghost head = out.deep_view();
    assert(head == (if absolute(p@) {
        seq!["/"@]
    } else if all[0] == "."@ {
        seq!["."@]
    } else {
        seq![]
    }));
    let mut i: usize = 0;
    assert(head + named_parts(all.take(0)) == head);
    while i < parts.len()
        invariant
            i <= parts.len(),
            all == parts.deep_view(),
            out.deep_view() == head + named_parts(all.take(i as int)),
        decreases parts.len() - i,
    {
        let ghost before = out.deep_view();
        let ghost front = named_parts(all.take(i as int));
        assert(all[i as int] == parts@[i as int]@);
        assert(all.take(i + 1).drop_last() == all.take(i as int));
        assert(all.take(i + 1).last() == all[i as int]);
        if !parts[i].as_str().is_empty() && !same(parts[i].as_str(), ".") {
            out.push(parts[i].clone());
            assert(out.deep_view() == before.push(all[i as int]));
            assert((head + front).push(all[i as int]) == head + front.push(all[i as int]));
        }
        i = i + 1;
    }
    assert(all.take(i as int) == all);
    out
}

fn lead_len(chars: &Vec<char>) -> (r: usize)
    ensures
        r == lead(chars@),
        r <= chars@.len(),
{
    let n = chars.len();
    if n > 0 && (chars[0] == '/' || (chars[0] == '.' && (n == 1 || chars[1] == '/'))) {
        1
    } else {
        0
    }
}

fn is_nameless(chars: &Vec<char>, from: usize, to: usize) -> (r: bool)
    requires
        from <= to <= chars@.len(),
    ensures
        r == nameless(chars@.subrange(from as int, to as int)),
{
    let ghost part = chars@.subrange(from as int, to as int);
    if to - from == 1 {
        assert(chars@[from as int] == '.' ==> part == seq!['.']);
        assert(part[0] == chars@[from as int]);
        chars[from] == '.'
    } else {
        to == from
    }
}

/// Where the last part of the first `to` characters begins.
fn last_part_at(chars: &Vec<char>, from: usize, to: usize) -> (r: usize)
    requires
        from <= to <= chars@.len(),
    ensures
        r == last_part(chars@.take(to as int), from as int),
        from <= r <= to,
{
    let mut i: usize = to;
    while i > from && chars[i - 1] != '/'
        invariant
            from <= i <= to <= chars@.len(),
            last_part(chars@.take(to as int), from as int) == last_part(
                chars@.take(i as int),
                from as int,
            ),
        decreases i,
    {
        assert(chars@.take(i as int).drop_last() == chars@.take(i - 1));
        i = i - 1;
    }
    i
}

/// How much of the first `to` characters is left without the parts at the end that name nothing.
fn trim_end(chars: &Vec<char>, from: usize, to: usize) -> (r: usize)
    requires
        from <= to <= chars@.len(),
    ensures
        from <= r <= to,
        chars@.take(r as int) == trimmed_end(chars@.take(to as int), from as int),
{
    let mut n: usize = to;
    while n > from
        invariant
            from <= n <= to <= chars@.len(),
            trimmed_end(chars@.take(to as int), from as int) == trimmed_end(
                chars@.take(n as int),
                from as int,
            ),
        decreases n,
    {
        let ghost t = chars@.take(n as int);
        let i = last_part_at(chars, from, n);
        assert(t.skip(i as int) == chars@.subrange(i as int, n as int));
        if !is_nameless(chars, i, n) {
            return n;
        }
        let next: usize = if i > from {
            i - 1
        } else {
            from
        };
        assert(cut(t, from as int) == chars@.take(next as int));
        n = next;
    }
    n
}

/// Where the part that begins at `at` ends.
fn part_end(chars: &Vec<char>, at: usize) -> (r: usize)
    requires
        at <= chars@.len(),
    ensures
        at <= r <= chars@.len(),
        r == at + first_part(chars@.skip(at as int)),
{
    let mut i: usize = at;
    while i < chars.len() && chars[i] != '/'
        invariant
            at <= i <= chars@.len(),
            at + first_part(chars@.skip(at as int)) == i + first_part(chars@.skip(i as int)),
        decreases chars@.len() - i,
    {
        assert(chars@.skip(i as int).drop_first() == chars@.skip(i + 1));
        i = i + 1;
    }
    i
}

/// Where what stands behind the part that begins at `at` begins.
fn behind_at(chars: &Vec<char>, at: usize) -> (r: usize)
    requires
        at <= chars@.len(),
    ensures
        at <= r <= chars@.len(),
        at < chars@.len() ==> at < r,
        chars@.skip(r as int) == behind(chars@.skip(at as int)),
{
    let end = part_end(chars, at);
    if end < chars.len() {
        assert(chars@.skip(at as int).skip(end - at + 1) == chars@.skip(end + 1));
        end + 1
    } else {
        assert(chars@.skip(end as int) == Seq::<char>::empty());
        end
    }
}

/// Where the first part from `at` on that names something begins.
fn trim_start(chars: &Vec<char>, at: usize) -> (r: usize)
    requires
        at <= chars@.len(),
    ensures
        at <= r <= chars@.len(),
        chars@.skip(r as int) == trimmed_start(chars@.skip(at as int)),
{
    let mut i: usize = at;
    while i < chars.len()
        invariant
            at <= i <= chars@.len(),
            trimmed_start(chars@.skip(at as int)) == trimmed_start(chars@.skip(i as int)),
        decreases chars@.len() - i,
    {
        let ghost t = chars@.skip(i as int);
        let end = part_end(chars, i);
        assert(t.take(end - i) == chars@.subrange(i as int, end as int));
        if !is_nameless(chars, i, end) {
            return i;
        }
        i = behind_at(chars, i);
    }
    i
}

/// What is left of a path behind its first `n` components.
fn path_rest(p: &str, n: usize) -> (r: String)
    requires
        n > 0 ==> n >= lead(p@),
    ensures
        r@ == rest_of(p@, n as nat),
{
    let chars = chars_of(p);
    let from = lead_len(&chars);
    if n == 0 {
        let end = trim_end(&chars, from, chars.len());
        assert(chars@.take(chars@.len() as int) == chars@);
        assert(chars@.take(end as int) == chars@.subrange(0, end as int));
        return piece(&chars, 0, end);
    }
    let mut at: usize = from;
    let mut left: usize = n - from;
    while left > 0
        invariant
            at <= chars@.len(),
            without_names(chars@.skip(from as int), (n - from) as nat) == without_names(
                chars@.skip(at as int),
                left as nat,
            ),
        decreases left,
    {
        let start = trim_start(&chars, at);
        at = behind_at(&chars, start);
        left = left - 1;
    }
    let start = trim_start(&chars, at);
    let tail = piece(&chars, start, chars.len());
    let rest = chars_of(tail.as_str());
    assert(rest@ == chars@.skip(start as int));
    let end = trim_end(&rest, 0, rest.len());
    assert(rest@.take(rest@.len() as int) == rest@);
    assert(rest@.take(end as int) == rest@.subrange(0, end as int));
    piece(&rest, 0, end)
}

/// `p` as seen from `base`, where `p` lies below `base`.
pub fn strip_base(p: &str, base: &str) -> (r: Option<String>)
    ensures
        r.deep_view() == relative_to(p@, base@),
{
    let whole = components(p);
    let head = components(base);
    let ghost w = whole.deep_view();
    let ghost h = head.deep_view();
    if head.len() > whole.len() {
        return None;
    }
    let mut i: usize = 0;
    while i < head.len()
        invariant
            i <= head.len() <= whole.len(),
            w == whole.deep_view(),
            h == head.deep_view(),
            w == components_of(p@),
            h == components_of(base@),
            forall|j: int| 0 <= j < i ==> w[j] == h[j],
        decreases head.len() - i,
    {
        assert(w[i as int] == whole@[i as int]@ && h[i as int] == head@[i as int]@);
        if !same(whole[i].as_str(), head[i].as_str()) {
            assert(w.subrange(0, h.len() as int)[i as int] != h[i as int]);
            return None;
        }
        i = i + 1;
    }
    assert(w.subrange(0, h.len() as int) == h);
    Some(path_rest(p, head.len()))
}

/// The last component, where it names a file or directory.
pub fn file_name(p: &str) -> (r: Option<String>)
    ensures
        r.deep_view() == file_name_of(p@),
{
    let c = components(p);
    if c.len() == 0 {
        return None;
    }
    let last = c.len() - 1;
    assert(c.deep_view().last() == c@[last as int]@);
    if same(c[last].as_str(), "/") || same(c[last].as_str(), ".") || same(c[last].as_str(), "..") {
        return None;
    }
    Some(c[last].clone())
}

/// The path without its last component, as it is written; none for the root and for an empty path.
pub fn parent(p: &str) -> (r: Option<String>)
    ensures
        r.deep_view() == parent_of(p@),
{
    let chars = chars_of(p);
    let from = lead_len(&chars);
    assert(chars@.take(chars@.len() as int) == chars@);
    let end = trim_end(&chars, from, chars.len());
    if end > from {
        let ghost t = chars@.take(end as int);
        let i = last_part_at(&chars, from, end);
        let next: usize = if i > from {
            i - 1
        } else {
            from
        };
        assert(cut(t, from as int) == chars@.take(next as int));
        let n = trim_end(&chars, from, next);
        assert(chars@.take(n as int) == chars@.subrange(0, n as int));
        Some(piece(&chars, 0, n))
    } else if end > 0 && chars[0] != '/' {
        let empty = "".to_owned();
        proof {
            reveal_strlit("");
            assert(empty@ == Seq::<char>::empty());
        }
        Some(empty)
    } else {
        None
    }
}

/// The path with another last component.
pub fn with_file_name(p: &str, name: &str) -> (r: String)
    ensures
        r@ == renamed_file(p@, name@),
{
    match file_name(p) {
        Some(_) => match parent(p) {
            Some(dir) => join_path(dir.as_str(), name),
            None => join_path(p, name),
        },
        None => join_path(p, name),
    }
}

/// Where a file that lies at `p` is kept below a backup directory: relative to the home directory,
/// or else by the names on the way from the root.
pub open spec fn backup_path_of(p: Seq<char>, home: Seq<char>) -> Seq<char> {
    match relative_to(p, home) {
        Some(relative) => relative,
        None => if absolute(p) {
            join_of(plain_names(components_of(p)), "/"@)
        } else {
            p
        },
    }
}

/// The components that are neither the root nor a step up.
pub open spec fn plain_names(components: Seq<Seq<char>>) -> Seq<Seq<char>>
    decreases components.len(),
{
    if components.len() == 0 {
        seq![]
    } else {
        let front = plain_names(components.drop_last());
        if components.last() == "/"@ || components.last() == ".."@ {
            front
        } else {
            front.push(components.last())
        }
    }
}

pub fn backup_relative_path(p: &str, home_dir: &str) -> (r: String)
    ensures
        r@ == backup_path_of(p@, home_dir@),
{
    match strip_base(p, home_dir) {
        Some(relative) => {
            return relative;
        },
        None => {},
    }
    if !is_absolute(p) {
        return p.to_owned();
    }
    let c = components(p);
    let ghost all = c.deep_view();
    let mut names: Vec<String> = Vec::new();
    let mut i: usize = 0;
    while i < c.len()
        invariant
            i <= c.len(),
            all == c.deep_view(),
            names.deep_view() == plain_names(all.take(i as int)),
        decreases c.len() - i,
    {
        let ghost before = names.deep_view();
        assert(all[i as int] == c@[i as int]@);
        assert(all.take(i + 1).drop_last() == all.take(i as int));
        assert(all.take(i + 1).last() == all[i as int]);
        if !same(c[i].as_str(), "/") && !same(c[i].as_str(), "..") {
            names.push(c[i].clone());
            assert(names.deep_view() == before.push(all[i as int]));
        }
        i = i + 1;
    }
    assert(all.take(i as int) == all);
    join(&names, "/")
}

/// A name beside `p` for a file on its way: the name of `p`, a label, the process and the time.
pub open spec fn temp_sibling(p: Seq<char>, label: Seq<char>, pid: nat, nanos: nat) -> Seq<char> {
    let stem = match file_name_of(p) {
        Some(name) => name,
        None => "path"@,
    };
    renamed_file(
        p,
        stem + "."@ + label + "."@ + decimal_of(pid) + "."@ + decimal_of(nanos),
    )
}

pub fn temp_sibling_path(p: &str, label: &str, pid: u32, nanos: u128) -> (r: String)
    ensures
        r@ == temp_sibling(p@, label@, pid as nat, nanos as nat),
{
    let stem = match file_name(p) {
        Some(name) => name,
        None => "path".to_owned(),
    };
    let mut name = join3(stem.as_str(), ".", label);
    name.append(".");
    name.append(decimal(pid as u64).as_str());
    name.append(".");
    name.append(decimal_wide(nanos).as_str());
    with_file_name(p, name.as_str())
}

} // verus!
