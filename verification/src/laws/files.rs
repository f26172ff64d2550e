//! Files: how paths are put together and taken apart, where things are kept, and what is read and
//! written there.
use vstd::prelude::*;

use crate::json::{
    JsonView, SegmentView, at_pointer, entry_of, field_of, item_of, prepend, segments_of, walk,
};
use crate::laws::texts::{free_of, what_is_joined_is_split_again, what_is_split_is_joined_again};
use crate::path::{
    above, absolute, backup_path_of, components_of, cut, file_name_of, joined, last_part, lead,
    named_parts, nameless, parent_of, plain_names, relative_to, renamed_file, temp_sibling,
    trimmed_end, user_path,
};
use crate::paths::{AswitchPaths, duration_text, made, thousandths};
use crate::plugin::{AuxFile, CredentialStore, CredentialStoreKind, Manifest, Platform};
use crate::registry::{
    AccountView, LoadedView, ReadView, RegistryView, account_of, active_alias, loaded, with_account,
    with_active,
};
use crate::session::{
    AuxStepView, activation_of, aux_step_of, codex_activation, link_of, runtime_home_of,
};
use crate::store::keychain::{
    NOT_FOUND_STATUS, BackendView, KeychainRequest, attributes_text, is_command_failure,
    request_words, without_newline,
};
use crate::store::{ResolveProblem, StoreError, StoreView, store_for, store_on};
use crate::switch::{FILE_MODE, LOCK_TIMEOUT_MS, account_dir_of};
use crate::text::{decimal_of, join_of, signed_decimal_of, split_of, trim_of};
use crate::text_map::sorted_items;

verus! {

// ---------------------------------------------------------------------------------------------
// Paths
// ---------------------------------------------------------------------------------------------
/// A path that starts at the root stands by itself; another is put behind its base, with one slash
/// between the two where the base does not end in one.
pub proof fn a_path_is_put_behind_its_base(base: Seq<char>, p: Seq<char>)
    ensures
        p.len() > 0 && p[0] == '/' ==> joined(base, p) == p,
        !(p.len() > 0 && p[0] == '/') && base.len() > 0 && base.last() != '/' ==> joined(base, p)
            == base + seq!['/'] + p,
        !(p.len() > 0 && p[0] == '/') && (base.len() == 0 || base.last() == '/') ==> joined(base, p)
            == base + p,
{
    assert(base.push('/') == base + seq!['/']);
}

/// A path that starts with a tilde and a slash lies in the home directory; a tilde alone is the home
/// directory, and any other path is what it is.
pub proof fn a_tilde_is_the_home_directory(p: Seq<char>, home: Seq<char>, rest: Seq<char>)
    ensures
        user_path(seq!['~'], home) == home,
        user_path(seq!['~', '/'] + rest, home) == joined(home, rest),
        p.len() == 0 || p[0] != '~' ==> user_path(p, home) == p,
        p.len() > 1 && p[1] != '/' ==> user_path(p, home) == p,
{
    reveal_strlit("~");
    reveal_strlit("~/");
    assert("~"@ == seq!['~']);
    assert("~/"@ == seq!['~', '/']);
    crate::laws::texts::what_follows_a_beginning("~/"@, rest, p);
    let q = seq!['~', '/'] + rest;
    assert(q != "~"@) by {
        assert(q.len() >= 2);
    }
    if p.len() > 1 && p.subrange(0, 2) == "~/"@ {
        assert(p[0] == p.subrange(0, 2)[0]);
        assert(p[1] == p.subrange(0, 2)[1]);
    }
}

proof fn lemma_join_all(x: Seq<Seq<char>>, y: Seq<Seq<char>>, sep: Seq<char>)
    requires
        x.len() > 0,
        y.len() > 0,
    ensures
        join_of(x + y, sep) == join_of(x, sep) + sep + join_of(y, sep),
    decreases y.len(),
{
    let all = x + y;
    assert(all.last() == y.last());
    if y.len() == 1 {
        assert(all.drop_last() == x);
        assert(join_of(all, sep) == join_of(x, sep) + sep + y[0]);
    } else {
        lemma_join_all(x, y.drop_last(), sep);
        assert(all.drop_last() == x + y.drop_last());
        assert(join_of(all, sep) == join_of(x, sep) + sep + join_of(y.drop_last(), sep) + sep
            + y.last());
        assert(join_of(y, sep) == join_of(y.drop_last(), sep) + sep + y.last());
        assert(join_of(x, sep) + sep + join_of(y.drop_last(), sep) + sep + y.last() == join_of(
            x,
            sep,
        ) + sep + (join_of(y.drop_last(), sep) + sep + y.last()));
    }
}

proof fn lemma_split_at(a: Seq<char>, c: char, b: Seq<char>)
    ensures
        split_of(a + seq![c] + b, c) == split_of(a, c) + split_of(b, c),
{
    what_is_split_is_joined_again(a, c);
    what_is_split_is_joined_again(b, c);
    let parts = split_of(a, c) + split_of(b, c);
    lemma_join_all(split_of(a, c), split_of(b, c), seq![c]);
    assert(free_of(parts, c)) by {
        assert forall|k: int| 0 <= k < parts.len() implies !(#[trigger] parts[k]).contains(c) by {
            if k < split_of(a, c).len() {
                assert(parts[k] == split_of(a, c)[k]);
            } else {
                assert(parts[k] == split_of(b, c)[k - split_of(a, c).len()]);
            }
        }
    }
    what_is_joined_is_split_again(parts, c);
}

proof fn lemma_split_one(s: Seq<char>, c: char)
    requires
        !s.contains(c),
    ensures
        split_of(s, c) == seq![s],
{
    let parts = seq![s];
    assert(free_of(parts, c)) by {
        assert(parts[0] == s);
    }
    what_is_joined_is_split_again(parts, c);
}

proof fn lemma_named_parts(x: Seq<Seq<char>>, y: Seq<Seq<char>>)
    ensures
        named_parts(x + y) == named_parts(x) + named_parts(y),
    decreases y.len(),
{
    if y.len() == 0 {
        assert(x + y == x);
    } else {
        lemma_named_parts(x, y.drop_last());
        assert((x + y).drop_last() == x + y.drop_last());
        assert((x + y).last() == y.last());
    }
}

/// Whether a text is the plain name of a file.
pub open spec fn plain_name(name: Seq<char>) -> bool {
    name.len() > 0 && !name.contains('/') && name != seq!['.'] && name != seq!['.', '.']
}

proof fn lemma_dot()
    ensures
        "."@ == seq!['.'],
        ".."@ == seq!['.', '.'],
        "/"@ == seq!['/'],
{
    reveal_strlit(".");
    reveal_strlit("..");
    reveal_strlit("/");
    assert("."@ == seq!['.']);
    assert(".."@ == seq!['.', '.']);
    assert("/"@ == seq!['/']);
}

proof fn lemma_one_name(name: Seq<char>)
    requires
        plain_name(name),
    ensures
        split_of(name, '/') == seq![name],
        named_parts(seq![name]) == seq![name],
        !absolute(name),
{
    lemma_dot();
    lemma_split_one(name, '/');
    if absolute(name) {
        assert(name.contains(name[0]));
    }
    assert(seq![name].drop_last() == Seq::<Seq<char>>::empty());
    assert(named_parts(Seq::<Seq<char>>::empty()) == Seq::<Seq<char>>::empty());
    assert(named_parts(seq![name]) == Seq::<Seq<char>>::empty().push(name));
    assert(Seq::<Seq<char>>::empty().push(name) == seq![name]);
}

/// The components of a path that starts at `d` and goes on behind a slash.
proof fn lemma_components_behind(d: Seq<char>, part: Seq<char>)
    requires
        !part.contains('/'),
        d.len() > 0,
    ensures
        components_of(d + seq!['/'] + part) == components_of(d) + named_parts(seq![part]),
{
    let p = d + seq!['/'] + part;
    lemma_split_at(d, '/', part);
    lemma_split_one(part, '/');
    what_is_split_is_joined_again(d, '/');
    lemma_named_parts(split_of(d, '/'), seq![part]);
    assert(split_of(p, '/')[0] == split_of(d, '/')[0]);
    assert(p[0] == d[0]);
    let head = if absolute(d) {
        seq!["/"@]
    } else if split_of(d, '/')[0] == "."@ {
        seq!["."@]
    } else {
        seq![]
    };
    assert(components_of(p) == head + (named_parts(split_of(d, '/')) + named_parts(seq![part])));
    assert(components_of(d) == head + named_parts(split_of(d, '/')));
    assert(head + (named_parts(split_of(d, '/')) + named_parts(seq![part])) == head + named_parts(
        split_of(d, '/'),
    ) + named_parts(seq![part]));
}

proof fn lemma_components_of_root(part: Seq<char>)
    requires
        !part.contains('/'),
    ensures
        components_of(seq!['/'] + part) == seq!["/"@] + named_parts(seq![part]),
{
    let none = Seq::<char>::empty();
    let p = seq!['/'] + part;
    assert(p == none + seq!['/'] + part);
    lemma_split_at(none, '/', part);
    lemma_split_one(none, '/');
    lemma_split_one(part, '/');
    assert(split_of(p, '/') == seq![none] + seq![part]);
    lemma_named_parts(seq![none], seq![part]);
    assert(seq![none].drop_last() == Seq::<Seq<char>>::empty());
    assert(named_parts(Seq::<Seq<char>>::empty()) == Seq::<Seq<char>>::empty());
    assert(seq![none].last() == none);
    assert(named_parts(seq![none]) == Seq::<Seq<char>>::empty());
    assert(named_parts(seq![none]) + named_parts(seq![part]) == named_parts(seq![part]));
}

proof fn lemma_nothing_named(part: Seq<char>)
    requires
        nameless(part),
    ensures
        named_parts(seq![part]) == Seq::<Seq<char>>::empty(),
        !part.contains('/'),
{
    lemma_dot();
    assert(seq![part].drop_last() == Seq::<Seq<char>>::empty());
    assert(named_parts(Seq::<Seq<char>>::empty()) == Seq::<Seq<char>>::empty());
    assert(seq![part].last() == part);
    if part.contains('/') {
        let k = choose|k: int| 0 <= k < part.len() && part[k] == '/';
        assert(part[0] == '.');
    }
}

/// Putting the name of a file behind a directory adds that name, and nothing else, to the components.
pub proof fn joining_adds_one_component(dir: Seq<char>, name: Seq<char>)
    requires
        plain_name(name),
    ensures
        components_of(joined(dir, name)) == components_of(dir).push(name),
        components_of(Seq::<char>::empty()) == Seq::<Seq<char>>::empty(),
        components_of(seq!['/']) == seq!["/"@],
{
    lemma_dot();
    lemma_one_name(name);
    let none = Seq::<char>::empty();
    lemma_split_one(none, '/');
    lemma_nothing_named(none);
    assert(components_of(none) == Seq::<Seq<char>>::empty());
    lemma_components_of_root(none);
    assert(seq!['/'] + none == seq!['/']);
    assert(components_of(seq!['/']) == seq!["/"@]);
    let p = joined(dir, name);
    if dir.len() == 0 {
        assert(dir == none);
        assert(p == name);
        assert(components_of(name) == seq![name]);
        assert(seq![name] == Seq::<Seq<char>>::empty().push(name));
    } else if dir.last() != '/' {
        assert(p == dir + seq!['/'] + name);
        lemma_components_behind(dir, name);
        assert(components_of(dir) + seq![name] == components_of(dir).push(name));
    } else {
        let d = dir.drop_last();
        assert(dir == d + seq!['/']);
        assert(p == d + seq!['/'] + name);
        if d.len() == 0 {
            assert(dir == seq!['/']);
            assert(p == seq!['/'] + name);
            lemma_components_of_root(name);
            assert(seq!["/"@] + seq![name] == components_of(dir).push(name));
        } else {
            lemma_components_behind(d, name);
            lemma_components_behind(d, none);
            assert(d + seq!['/'] + none == dir);
            assert(components_of(d) + Seq::<Seq<char>>::empty() == components_of(d));
            assert(components_of(d) + seq![name] == components_of(d).push(name));
        }
    }
}

/// The name of a file in a directory is the name that was put behind the directory.
pub proof fn the_name_of_a_file_comes_last(dir: Seq<char>, name: Seq<char>)
    requires
        plain_name(name),
    ensures
        file_name_of(joined(dir, name)) == Some(name),
{
    lemma_dot();
    joining_adds_one_component(dir, name);
    let c = components_of(joined(dir, name));
    assert(c.last() == name);
    if name == "/"@ {
        assert(name[0] == '/');
        assert(name.contains('/'));
    }
}

proof fn lemma_last_part_is_last(t: Seq<char>, from: int)
    requires
        0 <= from <= t.len(),
    ensures
        ({
            let i = last_part(t, from);
            &&& from <= i <= t.len()
            &&& i > from ==> t[i - 1] == '/'
            &&& forall|k: int| i <= k < t.len() ==> t[k] != '/'
        }),
    decreases t.len(),
{
    if from < t.len() && t.last() != '/' {
        let rest = t.drop_last();
        lemma_last_part_is_last(rest, from);
        let i = last_part(rest, from);
        assert forall|k: int| i <= k < t.len() implies t[k] != '/' by {
            if k < rest.len() {
                assert(rest[k] == t[k]);
            }
        }
        if i > from {
            assert(rest[i - 1] == t[i - 1]);
        }
    }
}

proof fn lemma_trimming_keeps_components(t: Seq<char>)
    ensures
        components_of(trimmed_end(t, lead(t))) == components_of(t),
        lead(trimmed_end(t, lead(t))) == lead(t) || t.len() < lead(t),
    decreases t.len(),
{
    let from = lead(t);
    lemma_dot();
    if from <= t.len() {
        lemma_last_part_is_last(t, from);
        let i = last_part(t, from);
        let part = t.skip(i);
        if from < t.len() && nameless(part) {
            lemma_nothing_named(part);
            let next = cut(t, from);
            if i > from {
                assert(next == t.take(i - 1));
                assert(t == next + seq!['/'] + part);
                if next.len() == 0 {
                    assert(t[0] == '/');
                }
                lemma_components_behind(next, part);
                assert(components_of(next) + Seq::<Seq<char>>::empty() == components_of(next));
                assert(next[0] == t[0]);
                if next.len() > 1 {
                    assert(next[1] == t[1]);
                }
                assert(lead(next) == from);
            } else {
                assert(next == t.take(from));
                assert(part == t.skip(from));
                if from == 0 {
                    assert(part == t);
                    assert(t == seq!['.']);
                    assert(false);
                }
                if absolute(t) {
                    assert(t == seq!['/'] + part);
                    lemma_components_of_root(part);
                    let none = Seq::<char>::empty();
                    lemma_nothing_named(none);
                    lemma_components_of_root(none);
                    assert(next == seq!['/'] + none);
                    assert(lead(next) == 1);
                } else {
                    assert(t[1] == '/');
                    assert(false);
                }
            }
            lemma_trimming_keeps_components(next);
        }
    }
}

/// The directory above a file in a directory is that directory: it has the same components.
pub proof fn the_parent_of_a_file_is_its_directory(dir: Seq<char>, name: Seq<char>)
    requires
        plain_name(name),
    ensures
        parent_of(joined(dir, name)) is Some,
        components_of(parent_of(joined(dir, name))->0) == components_of(dir),
{
    lemma_dot();
    lemma_one_name(name);
    let p = joined(dir, name);
    let from = lead(p);
    let none = Seq::<char>::empty();
    joining_adds_one_component(dir, name);
    let d = if dir.len() > 0 && dir.last() == '/' {
        dir.drop_last()
    } else {
        dir
    };
    if dir.len() == 0 {
        assert(p == name);
        if from == 1 {
            if name.len() > 1 {
                assert(name.contains(name[1]));
            } else {
                assert(name == seq!['.']);
            }
        }
        lemma_last_part_is_last(p, 0);
        let i = last_part(p, 0);
        if i > 0 {
            assert(name.contains(name[i - 1]));
        }
        assert(p.skip(0) == p);
        assert(!nameless(p.skip(i)));
        assert(trimmed_end(p, 0) == p);
        assert(cut(p, 0) == none);
        assert(trimmed_end(none, 0) == none);
        assert(dir == none);
    } else {
        if dir.last() == '/' {
            assert(dir == d + seq!['/']);
        }
        assert(p == d + seq!['/'] + name);
        lemma_last_part_is_last(p, from);
        let i = last_part(p, from);
        let n = d.len() as int;
        assert(p[n] == '/');
        assert forall|k: int| n < k < p.len() implies p[k] != '/' by {
            assert(p[k] == name[k - n - 1]);
            if p[k] == '/' {
                assert(name.contains(name[k - n - 1]));
            }
        }
        assert(i == n + 1);
        assert(p.skip(i) == name);
        assert(!nameless(name));
        assert(trimmed_end(p, from) == p);
        if d.len() == 0 {
            assert(p[0] == '/');
            assert(from == 1);
            assert(cut(p, from) == seq!['/']);
            assert(trimmed_end(seq!['/'], 1) == seq!['/']);
            assert(dir == seq!['/']);
        } else {
            assert(cut(p, from) == d);
            assert(d[0] == p[0]);
            assert(lead(d) == from) by {
                if d.len() > 1 {
                    assert(d[1] == p[1]);
                }
            }
            lemma_trimming_keeps_components(d);
            if dir.last() == '/' {
                lemma_nothing_named(none);
                lemma_components_behind(d, none);
                assert(d + seq!['/'] + none == dir);
                assert(components_of(d) + Seq::<Seq<char>>::empty() == components_of(d));
            }
        }
    }
}

/// Renaming a file puts another name in its place and leaves it in its directory.
pub proof fn a_renamed_file_stays_in_its_directory(dir: Seq<char>, old_name: Seq<char>, name: Seq<char>)
    requires
        plain_name(old_name),
        plain_name(name),
    ensures
        components_of(renamed_file(joined(dir, old_name), name)) == components_of(dir).push(name),
{
    the_name_of_a_file_comes_last(dir, old_name);
    the_parent_of_a_file_is_its_directory(dir, old_name);
    joining_adds_one_component(parent_of(joined(dir, old_name))->0, name);
}

/// A path lies below a base exactly where its components start with those of the base.
pub proof fn a_path_below_a_base_starts_with_it(p: Seq<char>, base: Seq<char>)
    ensures
        relative_to(p, base) is Some <==> components_of(base).len() <= components_of(p).len() && (
        forall|i: int|
            0 <= i < components_of(base).len() ==> #[trigger] components_of(p)[i] == components_of(
                base,
            )[i]),
{
    let a = components_of(p);
    let b = components_of(base);
    if relative_to(p, base) is Some {
        assert forall|i: int| 0 <= i < b.len() implies #[trigger] a[i] == b[i] by {
            assert(a.subrange(0, b.len() as int)[i] == a[i]);
        }
    }
    if b.len() <= a.len() && (forall|i: int| 0 <= i < b.len() ==> #[trigger] a[i] == b[i]) {
        assert(a.subrange(0, b.len() as int) =~= b);
    }
}

/// A backup lies where its file lies below the home directory; of another file from the root on all
/// names count, and a path from elsewhere is kept.
pub proof fn backups_lie_as_their_files_do(p: Seq<char>, home: Seq<char>)
    ensures
        relative_to(p, home) matches Some(below) ==> backup_path_of(p, home) == below,
        relative_to(p, home) is None && p.len() > 0 && p[0] == '/' ==> backup_path_of(p, home)
            == join_of(plain_names(components_of(p)), seq!['/']),
        relative_to(p, home) is None && !(p.len() > 0 && p[0] == '/') ==> backup_path_of(p, home)
            == p,
{
    lemma_dot();
}

/// The names of a path are its components but for the root and the ways up.
pub proof fn names_are_no_ways_up(components: Seq<Seq<char>>, x: Seq<char>)
    ensures
        plain_names(components).contains(x) <==> components.contains(x) && x != seq!['/'] && x
            != seq!['.', '.'],
    decreases components.len(),
{
    lemma_dot();
    if components.len() > 0 {
        let front = components.drop_last();
        names_are_no_ways_up(front, x);
        let before = plain_names(front);
        let all = plain_names(components);
        assert(components[components.len() - 1] == components.last());
        if before.contains(x) {
            let k = choose|k: int| 0 <= k < before.len() && before[k] == x;
            assert(all[k] == x);
        }
        if front.contains(x) {
            let k = choose|k: int| 0 <= k < front.len() && front[k] == x;
            assert(components[k] == x);
        }
        if all.contains(x) {
            let k = choose|k: int| 0 <= k < all.len() && all[k] == x;
            if k < before.len() {
                assert(before[k] == x);
            }
        }
        if components.contains(x) {
            let k = choose|k: int| 0 <= k < components.len() && components[k] == x;
            if k < front.len() {
                assert(front[k] == x);
            } else if x != seq!['/'] && x != seq!['.', '.'] {
                assert(all[all.len() - 1] == x);
            }
        }
    }
}

/// A sibling for the time being has the name of its file, what it is for, and two numbers.
pub proof fn a_sibling_is_named_after_its_file(
    dir: Seq<char>,
    name: Seq<char>,
    label: Seq<char>,
    pid: nat,
    nanos: nat,
)
    requires
        plain_name(name),
    ensures
        temp_sibling(joined(dir, name), label, pid, nanos) == renamed_file(
            joined(dir, name),
            name + "."@ + label + "."@ + decimal_of(pid) + "."@ + decimal_of(nanos),
        ),
{
    the_name_of_a_file_comes_last(dir, name);
}

// ---------------------------------------------------------------------------------------------
// Where things are kept
// ---------------------------------------------------------------------------------------------
/// Accounts and the homes of shells are kept by plugin and then by alias.
pub proof fn accounts_are_kept_by_plugin_and_alias(
    root: Seq<char>,
    plugin: Seq<char>,
    alias: Seq<char>,
)
    requires
        plain_name(plugin),
        plain_name(alias),
    ensures
        components_of(account_dir_of(root, plugin, alias)) == components_of(root).push(plugin).push(
            alias,
        ),
        components_of(runtime_home_of(root, plugin, alias)) == components_of(root).push(
            "runtime"@,
        ).push(plugin).push(alias),
        FILE_MODE == 0o600,
        LOCK_TIMEOUT_MS == 5000,
{
    reveal_strlit("runtime");
    let r = "runtime"@;
    assert(r.len() == 7 && r[0] == 'r' && r[1] == 'u' && r[2] == 'n' && r[3] == 't' && r[4] == 'i'
        && r[5] == 'm' && r[6] == 'e');
    if r.contains('/') {
        let k = choose|k: int| 0 <= k < r.len() && r[k] == '/';
        assert(false);
    }
    assert(plain_name(r));
    joining_adds_one_component(root, plugin);
    joining_adds_one_component(joined(root, plugin), alias);
    joining_adds_one_component(root, r);
    joining_adds_one_component(joined(root, r), plugin);
    joining_adds_one_component(joined(joined(root, r), plugin), alias);
}

/// A time is told in the largest of three units that it fills.
pub proof fn a_time_is_told_in_its_unit(ms: nat)
    ensures
        duration_text(0) == "0ns"@,
        0 < ms < 1000 ==> duration_text(ms) == decimal_of(ms) + "ms"@,
        ms >= 1000 && ms % 1000 == 0 ==> duration_text(ms) == decimal_of(ms / 1000) + ""@ + "s"@,
        ms >= 1000 && ms % 1000 == 500 ==> duration_text(ms) == decimal_of(ms / 1000) + ("."@
            + decimal_of(5)) + "s"@,
{
}

/// Making a directory makes those above it too, and nothing else.
pub proof fn making_a_directory_makes_those_above(
    present: Set<Seq<char>>,
    dir: Seq<char>,
    p: Seq<char>,
)
    ensures
        made(present, dir).contains(p) <==> present.contains(p) || (p.len() > 0 && (p == dir || above(
            dir,
        ).contains(p))),
{
}

// ---------------------------------------------------------------------------------------------
// The registry
// ---------------------------------------------------------------------------------------------
/// A registry that is not there or cannot be read is an empty one, and only the latter is reset.
pub proof fn only_an_unreadable_registry_is_reset(registry: RegistryView)
    ensures
        loaded(ReadView::Parsed(registry)) == (LoadedView { registry, reset: false }),
        !loaded(ReadView::Missing).reset,
        loaded(ReadView::Corrupt).reset,
        loaded(ReadView::Missing).registry == loaded(ReadView::Corrupt).registry,
        loaded(ReadView::Missing).registry.version == 1,
        forall|p: Seq<char>| !(#[trigger] loaded(
            ReadView::Missing,
        ).registry.accounts.contains_key(p)),
        forall|p: Seq<char>| !(#[trigger] loaded(ReadView::Missing).registry.active.contains_key(p)),
{
}

/// An account that is entered is found under its plugin and its alias; the others, and what is active,
/// stay as they are.
pub proof fn an_entered_account_is_found(
    r: RegistryView,
    plugin: Seq<char>,
    account: AccountView,
    p: Seq<char>,
    alias: Seq<char>,
)
    ensures
        account_of(with_account(r, plugin, account), plugin, account.alias) == Some(account),
        p != plugin || alias != account.alias ==> account_of(with_account(r, plugin, account), p, alias)
            == account_of(r, p, alias),
        with_account(r, plugin, account).active == r.active,
        with_account(r, plugin, account).version == r.version,
{
}

/// Making an account active is for its plugin alone, and leaves the accounts as they are.
pub proof fn making_active_is_for_one_plugin(
    r: RegistryView,
    plugin: Seq<char>,
    alias: Option<Seq<char>>,
    p: Seq<char>,
)
    ensures
        active_alias(with_active(r, plugin, alias), plugin) == alias,
        p != plugin ==> active_alias(with_active(r, plugin, alias), p) == active_alias(r, p),
        with_active(r, plugin, alias).accounts == r.accounts,
        with_active(r, plugin, alias).version == r.version,
{
}

// ---------------------------------------------------------------------------------------------
// The home of a shell
// ---------------------------------------------------------------------------------------------
/// What a manifest says of the home of a shell counts; one plugin has a home without saying so.
pub proof fn what_the_manifest_says_of_the_home_counts(m: Manifest)
    ensures
        m.session_activation matches Some(c) ==> activation_of(m) == Some(c.deep_view())
            && activation_of(m)->0.env_var == c.env_var@ && activation_of(m)->0.default_home
            == c.default_home@,
        m.session_activation is None && m.id@ == "codex"@ ==> activation_of(m) is Some
            && activation_of(m)->0.env_var == "CODEX_HOME"@ && activation_of(m)->0.default_home
            == "~/.codex"@,
        m.session_activation is None && m.id@ != "codex"@ ==> activation_of(m) is None,
{
}

/// A shared path is linked from the usual home into the home of the shell, under the same name.
pub proof fn shared_paths_are_linked_into_the_home(
    relative: Seq<char>,
    usual: Seq<char>,
    own: Seq<char>,
)
    ensures
        link_of(relative, usual, own).source == joined(usual, relative),
        link_of(relative, usual, own).destination == joined(own, relative),
        link_of(relative, usual, own).parent == parent_of(joined(own, relative)),
{
}

/// A file of an account is copied from its backup into the home of the shell to where it lies in the
/// usual home; one that lies elsewhere is left out.
pub proof fn files_are_copied_to_where_they_lie(
    file: AuxFile,
    home: Seq<char>,
    usual: Seq<char>,
    own: Seq<char>,
    account: Seq<char>,
)
    ensures
        ({
            let path = user_path(file.path@, home);
            match aux_step_of(file, home, usual, own, account) {
                AuxStepView::Copy { backup_path, destination, kind, required } => {
                    &&& relative_to(path, usual) is Some
                    &&& backup_path == joined(joined(account, "aux"@), backup_path_of(path, home))
                    &&& destination == joined(own, relative_to(path, usual)->0)
                    &&& kind == file.kind
                    &&& required == file.required
                },
                AuxStepView::Outside { aux_path } => relative_to(path, usual) is None && aux_path
                    == path,
            }
        }),
{
}

// ---------------------------------------------------------------------------------------------
// Where credentials are kept
// ---------------------------------------------------------------------------------------------
/// A credential in a file is at the path of the manifest, with its permissions, on every platform.
pub proof fn a_credential_file_is_where_the_manifest_says(
    s: CredentialStore,
    platform: Platform,
    home: Seq<char>,
)
    requires
        s.kind == CredentialStoreKind::File,
    ensures
        store_on(s, platform, home) matches Ok(found) ==> s.path is Some && s.permissions is Some
            && found == (StoreView::File {
            path: user_path(s.path->0@, home),
            permissions: s.permissions->0,
        }),
        s.path is None ==> store_on(s, platform, home) == Err::<StoreView, ResolveProblem>(
            ResolveProblem::MissingField("credential_store.path"@),
        ),
        s.path is Some && s.permissions is None ==> store_on(s, platform, home) == Err::<
            StoreView,
            ResolveProblem,
        >(ResolveProblem::MissingField("credential_store.permissions"@)),
        s.path is Some && s.permissions is Some ==> store_on(s, platform, home) is Ok,
{
}

/// A credential in a keychain is under the service and the account of the manifest on the one platform,
/// and under the schema and the attributes on the other, unless a file stands in for it there. There is
/// none on the third.
pub proof fn a_credential_in_a_keychain_is_under_its_names(s: CredentialStore, home: Seq<char>)
    requires
        s.kind == CredentialStoreKind::Keychain,
    ensures
        s.macos_service is Some && s.macos_account is Some ==> store_on(s, Platform::Macos, home)
            == Ok::<StoreView, ResolveProblem>(
            StoreView::Keychain {
                backend: BackendView::Macos {
                    service: s.macos_service->0@,
                    account: s.macos_account->0@,
                },
                allow_empty_active: s.allow_empty_active,
            },
        ),
        s.macos_service is None ==> store_on(s, Platform::Macos, home) == Err::<
            StoreView,
            ResolveProblem,
        >(ResolveProblem::MissingField("credential_store.macos_service"@)),
        s.macos_service is Some && s.macos_account is None ==> store_on(s, Platform::Macos, home)
            == Err::<StoreView, ResolveProblem>(
            ResolveProblem::MissingField("credential_store.macos_account"@),
        ),
        s.linux_fallback_kind == Some(CredentialStoreKind::File) && s.linux_fallback_path is Some
            && s.linux_fallback_permissions is Some ==> store_on(s, Platform::Linux, home) == Ok::<
            StoreView,
            ResolveProblem,
        >(
            StoreView::File {
                path: user_path(s.linux_fallback_path->0@, home),
                permissions: s.linux_fallback_permissions->0,
            },
        ),
        s.linux_fallback_kind is None && s.linux_schema is Some && s.linux_attributes.deep_view()
            != Map::<Seq<char>, Seq<char>>::empty() ==> store_on(s, Platform::Linux, home) == Ok::<
            StoreView,
            ResolveProblem,
        >(
            StoreView::Keychain {
                backend: BackendView::Linux {
                    schema: s.linux_schema->0@,
                    attributes: s.linux_attributes.deep_view(),
                },
                allow_empty_active: s.allow_empty_active,
            },
        ),
        s.linux_fallback_kind is None && s.linux_schema is None ==> store_on(
            s,
            Platform::Linux,
            home,
        ) == Err::<StoreView, ResolveProblem>(
            ResolveProblem::MissingField("credential_store.linux_schema"@),
        ),
        store_on(s, Platform::Windows, home) == Err::<StoreView, ResolveProblem>(
            ResolveProblem::UnsupportedPlatform,
        ),
{
}

/// Without a home directory, or on another system, no place for a credential is known.
pub proof fn a_place_needs_a_home_and_a_platform(
    s: CredentialStore,
    os: Seq<char>,
    home: Seq<char>,
)
    ensures
        store_for(s, os, None) == Err::<StoreView, ResolveProblem>(ResolveProblem::NoHome),
        os == "macos"@ ==> store_for(s, os, Some(home)) == store_on(s, Platform::Macos, home),
        os == "linux"@ ==> store_for(s, os, Some(home)) == store_on(s, Platform::Linux, home),
        os == "windows"@ ==> store_for(s, os, Some(home)) == store_on(s, Platform::Windows, home),
        os != "macos"@ && os != "linux"@ && os != "windows"@ ==> store_for(s, os, Some(home))
            == Err::<StoreView, ResolveProblem>(ResolveProblem::UnsupportedPlatform),
{
    reveal_strlit("macos");
    reveal_strlit("linux");
    reveal_strlit("windows");
    assert("macos"@[0] == 'm' && "linux"@[0] == 'l' && "windows"@[0] == 'w');
}

/// What the keychain is asked: to find an entry or to delete it, by service and account, and for the
/// password itself only where it is read.
pub proof fn the_keychain_is_asked_by_service_and_account(
    request: KeychainRequest,
    service: Seq<char>,
    account: Seq<char>,
)
    ensures
        ({
            let words = request_words(request, service, account);
            let n = words.len() as int;
            &&& words[n - 4] == "-s"@ && words[n - 3] == service && words[n - 2] == "-a"@ && words[n
                - 1] == account
            &&& request == KeychainRequest::Read ==> n == 6 && words[0] == "find-generic-password"@
                && words[1] == "-w"@
            &&& request == KeychainRequest::Exists ==> n == 5 && words[0]
                == "find-generic-password"@
            &&& request == KeychainRequest::Delete ==> n == 5 && words[0]
                == "delete-generic-password"@
        }),
        NOT_FOUND_STATUS == 44,
{
}

/// One line end comes off what the keychain prints, of either kind, and nothing else.
pub proof fn one_line_end_comes_off(bytes: Seq<u8>)
    ensures
        without_newline(bytes.push(10)) == if bytes.len() > 0 && bytes.last() == 13 {
            bytes.drop_last()
        } else {
            bytes
        },
        bytes.len() == 0 || bytes.last() != 10 ==> without_newline(bytes) == bytes,
{
    assert(bytes.push(10).drop_last() == bytes);
}

/// A failed command of the keychain is told with what was to be done, with which entry, with its status
/// and with what it said, without the space around that.
pub proof fn a_failed_command_is_told(
    e: StoreError,
    action: Seq<char>,
    service: Seq<char>,
    account: Seq<char>,
    status: Option<i32>,
    stderr: Seq<char>,
)
    requires
        is_command_failure(e, action, service, account, status, stderr),
    ensures
        e matches StoreError::CommandFailure {
            program,
            action: a,
            service: s,
            account: c,
            status: t,
            stderr: m,
        } && program@ == "/usr/bin/security"@ && a@ == action && s@ == service && c@ == account
            && m@ == trim_of(stderr) && (status matches Some(code) ==> t@ == signed_decimal_of(
            code as int,
        )) && (status is None ==> t@ == "terminated by signal"@),
{
}

/// Attributes are told in the order of their names, each with its value behind an equals sign.
pub proof fn attributes_are_told_in_order(attributes: Map<Seq<char>, Seq<char>>, words: Seq<Seq<char>>)
    requires
        words.len() == sorted_items(attributes).len(),
        forall|i: int|
            0 <= i < words.len() ==> #[trigger] words[i] == sorted_items(attributes)[i].0 + "="@
                + sorted_items(attributes)[i].1,
    ensures
        attributes_text(attributes) == join_of(words, ", "@),
{
    assert(sorted_items(attributes).map_values(|e: (Seq<char>, Seq<char>)| e.0 + "="@ + e.1)
        == words);
}

// ---------------------------------------------------------------------------------------------
// JSON
// ---------------------------------------------------------------------------------------------
/// A field is the first entry of an object that has its name; nothing else has fields.
pub proof fn a_field_is_the_first_of_its_name(entries: Seq<(Seq<char>, JsonView)>, name: Seq<char>)
    ensures
        match entry_of(entries, name) {
            Some(value) => exists|i: int|
                0 <= i < entries.len() && #[trigger] entries[i] == (name, value) && forall|j: int|
                    0 <= j < i ==> (#[trigger] entries[j]).0 != name,
            None => forall|j: int| 0 <= j < entries.len() ==> (#[trigger] entries[j]).0 != name,
        },
    decreases entries.len(),
{
    if entries.len() > 0 {
        if entries[0].0 == name {
            assert(entries[0] == (name, entries[0].1));
        } else {
            let rest = entries.drop_first();
            a_field_is_the_first_of_its_name(rest, name);
            match entry_of(rest, name) {
                Some(value) => {
                    let i = choose|i: int|
                        0 <= i < rest.len() && #[trigger] rest[i] == (name, value) && forall|j: int|
                            0 <= j < i ==> (#[trigger] rest[j]).0 != name;
                    assert(entries[i + 1] == (name, value));
                    assert forall|j: int| 0 <= j < i + 1 implies (#[trigger] entries[j]).0
                        != name by {
                        if j > 0 {
                            assert(rest[j - 1] == entries[j]);
                        }
                    }
                },
                None => {
                    assert forall|j: int| 0 <= j < entries.len() implies (#[trigger] entries[j]).0
                        != name by {
                        if j > 0 {
                            assert(rest[j - 1] == entries[j]);
                        }
                    }
                },
            }
        }
    }
}

/// An item is counted from zero on; nothing but a list has items, and nothing but an object has fields.
pub proof fn items_are_counted_from_zero(value: JsonView, name: Seq<char>, i: nat)
    ensures
        !(value is Object) ==> field_of(value, name) is None,
        !(value is Array) ==> item_of(value, i) is None,
        value matches JsonView::Array { items, .. } ==> (i < items.len() ==> item_of(value, i) == Some(
            items[i as int],
        )) && (i >= items.len() ==> item_of(value, i) is None),
{
}

/// A pointer first means a field of its very name, and only then a way by fields and items. An empty
/// one means the value itself.
pub proof fn a_pointer_first_means_a_field(value: JsonView, pointer: Seq<char>)
    ensures
        at_pointer(value, Seq::<char>::empty()) == Some(value),
        pointer.len() > 0 && field_of(value, pointer) is Some ==> at_pointer(value, pointer)
            == field_of(value, pointer),
        pointer.len() > 0 && field_of(value, pointer) is None && segments_of(pointer) is None
            ==> at_pointer(value, pointer) is None,
        pointer.len() > 0 && field_of(value, pointer) is None && segments_of(pointer) is Some
            ==> at_pointer(value, pointer) == walk(value, segments_of(pointer)->0),
{
}

/// A way goes step by step, and leads nowhere where a step does.
pub proof fn a_way_goes_step_by_step(value: JsonView, step: SegmentView, rest: Seq<SegmentView>)
    ensures
        walk(value, Seq::<SegmentView>::empty()) == Some(value),
        ({
            let next = match step {
                SegmentView::Field(name) => field_of(value, name),
                SegmentView::Index(i) => item_of(value, i),
            };
            &&& next is None ==> walk(value, seq![step] + rest) is None
            &&& next is Some ==> walk(value, seq![step] + rest) == walk(next->0, rest)
        }),
{
    assert((seq![step] + rest).drop_first() == rest);
}

proof fn lemma_field_end(s: Seq<char>, k: int, i: int)
    requires
        0 <= i <= k <= s.len(),
        forall|j: int| i <= j < k ==> s[j] != '.' && s[j] != '[',
        k == s.len() || s[k] == '.' || s[k] == '[',
    ensures
        crate::json::field_end(s, i) == k,
    decreases k - i,
{
    if i < k {
        lemma_field_end(s, k, i + 1);
    }
}

/// A dot separates two steps, and a name without dots and brackets is one step.
pub proof fn a_dot_separates_steps(name: Seq<char>, rest: Seq<char>)
    requires
        name.len() > 0,
        !name.contains('.'),
        !name.contains('['),
    ensures
        segments_of(name) == Some(seq![SegmentView::Field(name)]),
        segments_of(name + seq!['.'] + rest) == prepend(
            seq![SegmentView::Field(name)],
            segments_of(rest),
        ),
{
    assert forall|j: int| 0 <= j < name.len() implies name[j] != '.' && name[j] != '[' by {
        assert(name.contains(name[j]));
    }
    lemma_field_end(name, name.len() as int, 0);
    let s = name + seq!['.'] + rest;
    let k = name.len() as int;
    assert(s[k] == '.');
    assert forall|j: int| 0 <= j < k implies s[j] != '.' && s[j] != '[' by {
        assert(s[j] == name[j]);
    }
    lemma_field_end(s, k, 0);
    assert(s.subrange(0, k) == name);
    assert(s.subrange(k + 1, s.len() as int) == rest);
}

// ---------------------------------------------------------------------------------------------
// The directory of the program
// ---------------------------------------------------------------------------------------------
/// Everything of the program lies in its directory, under fixed names.
pub proof fn everything_lies_in_one_directory(paths: AswitchPaths, pid: u32)
    requires
        paths.laid_out(),
    ensures
        ({
            let root = paths.root@;
            &&& paths.plugins_dir@ == joined(root, "plugins"@)
            &&& paths.accounts_dir@ == joined(root, "accounts"@)
            &&& paths.usage_cache_dir@ == joined(root, "usage_cache"@)
            &&& paths.logs_dir@ == joined(root, "logs"@)
            &&& paths.registry_file@ == joined(root, "registry.json"@)
            &&& paths.lock_file@ == joined(root, ".lock"@)
            &&& paths.log_file@ == joined(joined(root, "logs"@), "aswitch.log"@)
            &&& paths.temp_path(pid) == joined(root, "registry.json.tmp."@ + decimal_of(pid as nat))
            &&& paths.directories() == seq![
                root,
                paths.plugins_dir@,
                paths.accounts_dir@,
                paths.usage_cache_dir@,
                paths.logs_dir@,
            ]
        }),
{
}

/// Parts of a second are told without zeros at their end, and with those that stand before them.
pub proof fn parts_of_a_second_are_told(ms: nat)
    ensures
        thousandths(0) == ""@,
        0 < ms < 10 && ms % 10 != 0 ==> thousandths(ms) == ".00"@ + decimal_of(ms),
        10 <= ms < 100 && ms % 10 != 0 ==> thousandths(ms) == ".0"@ + decimal_of(ms),
        100 <= ms < 1000 && ms % 10 != 0 ==> thousandths(ms) == "."@ + decimal_of(ms),
        0 < ms < 100 && ms % 10 == 0 ==> thousandths(ms) == ".0"@ + decimal_of(ms / 10),
        100 <= ms < 1000 && ms % 10 == 0 && ms % 100 != 0 ==> thousandths(ms) == "."@ + decimal_of(
            ms / 10,
        ),
        0 < ms < 1000 && ms % 100 == 0 ==> thousandths(ms) == "."@ + decimal_of(ms / 100),
        ms >= 1000 ==> duration_text(ms) == decimal_of(ms / 1000) + thousandths(ms % 1000) + "s"@,
{
}

/// The plugin that has a home without saying so shares its settings with the usual home, and no more.
pub proof fn settings_are_shared_with_the_usual_home()
    ensures
        codex_activation().shared_paths == seq![
            "config.toml"@,
            "skills"@,
            "rules"@,
            "memories"@,
            "vendor_imports"@,
            "installation_id"@,
            "version.json"@,
        ],
{
}

} // verus!
