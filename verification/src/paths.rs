//! Paths as text, by the rules of Unix: with `/` between components.

use crate::text::chars_of;
use vstd::prelude::*;
use vstd::string::*;

verus! {

/// `name` below `base`: `name` alone where it starts at the root, else both with a single
/// separator added where `base` needs one.
pub open spec fn joined(base: Seq<char>, name: Seq<char>) -> Seq<char> {
    if name.len() > 0 && name[0] == '/' {
        name
    } else if base.len() == 0 || base.last() == '/' {
        base + name
    } else {
        base.push('/') + name
    }
}

/// `path` without what follows its last component: separators, and `.` after a separator.
pub open spec fn stripped(path: Seq<char>) -> Seq<char>
    decreases path.len(),
{
    if path.len() > 0 && path.last() == '/' {
        stripped(path.drop_last())
    } else if path.len() > 1 && path.last() == '.' && path[path.len() - 2] == '/' {
        stripped(path.drop_last())
    } else {
        path
    }
}

/// Where the text after the last separator of `path` starts.
pub open spec fn tail_start(path: Seq<char>) -> int
    decreases path.len(),
{
    if path.len() == 0 || path.last() == '/' {
        path.len() as int
    } else {
        tail_start(path.drop_last())
    }
}

/// The last component of `path`, which is empty where `path` has none.
pub open spec fn last_component(path: Seq<char>) -> Seq<char> {
    stripped(path).skip(tail_start(stripped(path)))
}

/// Whether `path` ends in the name of a file or folder: not in the root, `.` or `..`.
pub open spec fn has_file_name(path: Seq<char>) -> bool {
    let last = last_component(path);
    last.len() > 0 && last != seq!['.'] && last != seq!['.', '.']
}

/// `path` without its last component. The root and the empty path have no parent.
pub open spec fn parent(path: Seq<char>) -> Option<Seq<char>> {
    let whole = stripped(path);
    if whole.len() == 0 {
        None
    } else {
        let head = whole.take(tail_start(whole));
        if head.len() > 0 && stripped(head).len() == 0 {
            Some(seq!['/'])
        } else {
            Some(stripped(head))
        }
    }
}

/// The ending of files that are not complete yet.
pub open spec fn part_ending() -> Seq<char> {
    seq!['.', 'p', 'a', 'r', 't']
}

/// Where the content of `path` is put until it is complete: beside `path`, with one more ending.
/// A path without a file name stays as it is.
pub open spec fn part_path(path: Seq<char>) -> Seq<char> {
    if has_file_name(path) {
        stripped(path) + part_ending()
    } else {
        path
    }
}

/// `name` below `base`.
pub fn join_path(base: &str, name: &str) -> (res: String)
    ensures
        res@ == joined(base@, name@),
{
    let above = chars_of(base);
    let below = chars_of(name);
    if below.len() > 0 && below[0] == '/' {
        return name.to_owned();
    }
    let mut path = base.to_owned();
    if above.len() > 0 && above[above.len() - 1] != '/' {
        path.push('/');
    }
    path.append(name);
    path
}

fn stripped_len(path: &Vec<char>, end: usize) -> (res: usize)
    requires
        end <= path@.len(),
    ensures
        res <= end,
        stripped(path@.take(end as int)) == path@.take(res as int),
{
    let mut len: usize = end;
    while len > 0 && (path[len - 1] == '/' || (len > 1 && path[len - 1] == '.' && path[len - 2]
        == '/'))
        invariant
            len <= end <= path@.len(),
            stripped(path@.take(end as int)) == stripped(path@.take(len as int)),
        decreases len,
    {
        proof {
            assert(path@.take(len as int).drop_last() =~= path@.take(len - 1));
        }
        len = len - 1;
    }
    len
}

fn tail_start_of(path: &Vec<char>, end: usize) -> (res: usize)
    requires
        end <= path@.len(),
    ensures
        res <= end,
        res == tail_start(path@.take(end as int)),
{
    let mut start: usize = end;
    while start > 0 && path[start - 1] != '/'
        invariant
            start <= end <= path@.len(),
            tail_start(path@.take(end as int)) == tail_start(path@.take(start as int)),
        decreases start,
    {
        proof {
            assert(path@.take(start as int).drop_last() =~= path@.take(start - 1));
        }
        start = start - 1;
    }
    start
}

/// `path` without its last component, if it has one.
pub fn parent_dir(path: &str) -> (res: Option<String>)
    ensures
        res is Some == parent(path@) is Some,
        res matches Some(dir) ==> Some(dir@) == parent(path@),
{
    let chars = chars_of(path);
    assert(chars@.take(chars@.len() as int) =~= chars@);
    let whole: usize = stripped_len(&chars, chars.len());
    if whole == 0 {
        return None;
    }
    let start: usize = tail_start_of(&chars, whole);
    assert(chars@.take(whole as int).take(start as int) =~= chars@.take(start as int));
    let len: usize = stripped_len(&chars, start);
    if start > 0 && len == 0 {
        let mut root = String::new();
        root.push('/');
        assert(root@ =~= seq!['/']);
        Some(root)
    } else {
        assert(chars@.take(len as int) =~= path@.subrange(0, len as int));
        Some(path.substring_char(0, len).to_owned())
    }
}

/// The path under which the content of `path` is written until it is complete.
pub fn part_destination(path: &str) -> (res: String)
    ensures
        res@ == part_path(path@),
{
    let chars = chars_of(path);
    assert(chars@.take(chars@.len() as int) =~= chars@);
    let whole: usize = stripped_len(&chars, chars.len());
    let start: usize = tail_start_of(&chars, whole);
    let size: usize = whole - start;
    let ghost last = last_component(path@);
    assert(last =~= chars@.subrange(start as int, whole as int));
    let single_dot = size == 1 && chars[start] == '.';
    let double_dot = size == 2 && chars[start] == '.' && chars[start + 1] == '.';
    proof {
        if single_dot {
            assert(last =~= seq!['.']);
        } else if double_dot {
            assert(last =~= seq!['.', '.']);
        } else if last == seq!['.'] {
            assert(last[0] == '.');
        } else if last == seq!['.', '.'] {
            assert(last[0] == '.' && last[1] == '.');
        }
    }
    if size == 0 || single_dot || double_dot {
        return path.to_owned();
    }
    assert(chars@.take(whole as int) =~= path@.subrange(0, whole as int));
    let mut part = path.substring_char(0, whole).to_owned();
    part.push('.');
    part.push('p');
    part.push('a');
    part.push('r');
    part.push('t');
    assert(part@ =~= part_path(path@));
    part
}

/// An incomplete file lies in the same folder as the complete one, under another name: moving it
/// into place is a renaming within that folder.
pub proof fn law_part_file_is_beside(path: Seq<char>)
    requires
        has_file_name(path),
    ensures
        part_path(path) != stripped(path),
        has_file_name(part_path(path)),
        parent(part_path(path)) == parent(path),
{
    let whole = stripped(path);
    let part = part_path(path);
    assert(part.len() == whole.len() + 5);
    assert(stripped(part) == part);
    lemma_tail_start_bounds(whole);
    lemma_tail_start_extend(whole, part_ending());
    let start = tail_start(whole);
    assert(part.take(start) =~= whole.take(start));
    assert(part.skip(start).len() >= 5);
}

proof fn lemma_tail_start_bounds(path: Seq<char>)
    ensures
        0 <= tail_start(path) <= path.len(),
    decreases path.len(),
{
    if path.len() > 0 && path.last() != '/' {
        lemma_tail_start_bounds(path.drop_last());
    }
}

proof fn lemma_tail_start_extend(path: Seq<char>, more: Seq<char>)
    requires
        forall|i: int| 0 <= i < more.len() ==> more[i] != '/',
    ensures
        tail_start(path + more) == tail_start(path),
    decreases more.len(),
{
    if more.len() == 0 {
        assert(path + more =~= path);
    } else {
        assert((path + more).drop_last() =~= path + more.drop_last());
        lemma_tail_start_extend(path, more.drop_last());
    }
}

/// A path that is joined starts with `base` and ends with `name`, with one separator between them
/// where `base` does not end in one; a name from the root stands alone, and nothing goes before a
/// name below the empty path.
pub proof fn law_joining_puts_one_after_the_other(base: Seq<char>, name: Seq<char>)
    ensures
        name.len() > 0 && name[0] == '/' ==> joined(base, name) == name,
        name.len() == 0 || name[0] != '/' ==> ({
            let path = joined(base, name);
            let between = path.len() - base.len() - name.len();
            &&& path.take(base.len() as int) == base
            &&& path.skip(path.len() - name.len()) == name
            &&& 0 <= between <= 1
            &&& between == 1 ==> path[base.len() as int] == '/'
            &&& between == 1 <==> base.len() > 0 && base[base.len() - 1] != '/'
        }),
{
    if name.len() == 0 || name[0] != '/' {
        let path = joined(base, name);
        assert(path.take(base.len() as int) =~= base);
        assert(path.skip(path.len() - name.len()) =~= name);
    }
}

/// The parent of a component below `dir` is `dir`; that of a component at the root is the root, and
/// that of a component alone is the empty path. The empty path and the root have none.
pub proof fn law_parent_drops_the_last_component(dir: Seq<char>, name: Seq<char>)
    requires
        name.len() > 0,
        !name.contains('/'),
    ensures
        parent(name) == Some(""@),
        parent(""@) is None,
        parent("/"@) is None,
        name != "."@ ==> parent("/"@ + name) == Some("/"@),
        name != "."@ && dir.len() > 0 && dir.last() != '/' && !(dir.len() > 1 && dir[dir.len() - 2]
            == '/' && dir.last() == '.') ==> parent(dir + "/"@ + name) == Some(dir),
{
    reveal_strlit("");
    reveal_strlit("/");
    reveal_strlit(".");
    assert(""@ =~= Seq::<char>::empty());
    assert("/"@ =~= seq!['/']);
    assert("."@ =~= seq!['.']);
    assert forall|i: int| 0 <= i < name.len() implies name[i] != '/' by {
        if name[i] == '/' {
            assert(name.contains('/'));
        }
    }
    // A component alone.
    assert(stripped(name) == name);
    lemma_tail_start_extend(Seq::empty(), name);
    assert(Seq::<char>::empty() + name =~= name);
    assert(tail_start(name) == 0);
    assert(name.take(0) =~= Seq::<char>::empty());
    assert(stripped(Seq::<char>::empty()) == Seq::<char>::empty());
    // The root.
    assert(seq!['/'].drop_last() =~= Seq::<char>::empty());
    assert(stripped(seq!['/']) == Seq::<char>::empty());
    if name != "."@ {
        if name.len() == 1 && name[0] == '.' {
            assert(name =~= seq!['.']);
        }
        lemma_parent_of_joined(seq!['/'], name);
        assert(parent("/"@ + name) == Some(seq!['/']));
        let head = dir + "/"@;
        if dir.len() > 0 {
            lemma_parent_of_joined(head, name);
            assert(head.drop_last() =~= dir);
            assert(stripped(head) == stripped(dir));
            if dir.last() != '/' && !(dir.len() > 1 && dir[dir.len() - 2] == '/' && dir.last()
                == '.') {
                assert(stripped(dir) == dir);
            }
        }
    }
}

/// What follows the last component of a path plays no part in its parent: separators, and `.` after
/// a separator. Nor do separators and `.` in front of the last component.
pub proof fn law_parent_skips_what_names_nothing(path: Seq<char>, name: Seq<char>)
    requires
        name.len() > 0 && !name.contains('/') && name != "."@,
    ensures
        parent(path + "/"@) == parent(path),
        parent(path + "/."@) == parent(path),
        parent(path + "//"@ + name) == parent(path + "/"@ + name),
        parent(path + "/./"@ + name) == parent(path + "/"@ + name),
{
    reveal_strlit("/");
    reveal_strlit("/.");
    reveal_strlit("//");
    reveal_strlit("/./");
    reveal_strlit(".");
    assert("/"@ =~= seq!['/']);
    assert("."@ =~= seq!['.']);
    let once = path + "/"@;
    let twice = path + "//"@;
    let dotted = path + "/."@;
    let around = path + "/./"@;
    assert(once.drop_last() =~= path);
    assert(stripped(once) == stripped(path));
    assert(dotted.drop_last() =~= once);
    assert(stripped(dotted) == stripped(once));
    assert(twice.drop_last() =~= once);
    assert(stripped(twice) == stripped(once));
    assert(around.drop_last() =~= dotted);
    assert(stripped(around) == stripped(dotted));
    assert forall|i: int| 0 <= i < name.len() implies name[i] != '/' by {
        if name[i] == '/' {
            assert(name.contains('/'));
        }
    }
    if name.len() == 1 && name[0] == '.' {
        assert(name =~= seq!['.']);
    }
    lemma_parent_of_joined(once, name);
    lemma_parent_of_joined(twice, name);
    lemma_parent_of_joined(around, name);
}

/// The parent of a component after a path that ends in a separator.
proof fn lemma_parent_of_joined(head: Seq<char>, name: Seq<char>)
    requires
        head.len() > 0,
        head.last() == '/',
        name.len() > 0,
        name != seq!['.'],
        forall|i: int| 0 <= i < name.len() ==> name[i] != '/',
    ensures
        stripped(head + name) == head + name,
        tail_start(head + name) == head.len(),
        parent(head + name) == Some(
            if stripped(head).len() == 0 {
                seq!['/']
            } else {
                stripped(head)
            },
        ),
{
    let path = head + name;
    assert(path.last() == name.last());
    if name.len() == 1 {
        assert(name =~= seq![name[0]]);
    } else {
        assert(path[path.len() - 2] == name[name.len() - 2]);
    }
    assert(stripped(path) == path);
    lemma_tail_start_extend(head, name);
    assert(path.take(head.len() as int) =~= head);
}

/// The path of an incomplete file is that of the complete one with `.part` after it, whatever the
/// folder and the name are.
pub proof fn law_part_file_has_one_more_ending(folder: Seq<char>, name: Seq<char>)
    requires
        folder.len() == 0 || folder.last() == '/',
        name.len() > 0 && !name.contains('/') && name != "."@ && name != ".."@,
    ensures
        part_path(folder + name) == folder + name + ".part"@,
        part_path(folder + name + "/"@) == folder + name + ".part"@,
{
    reveal_strlit("/");
    reveal_strlit(".");
    reveal_strlit("..");
    reveal_strlit(".part");
    assert("/"@ =~= seq!['/']);
    assert("."@ =~= seq!['.']);
    assert(".."@ =~= seq!['.', '.']);
    assert(".part"@ =~= part_ending());
    assert forall|i: int| 0 <= i < name.len() implies name[i] != '/' by {
        if name[i] == '/' {
            assert(name.contains('/'));
        }
    }
    let path = folder + name;
    if folder.len() > 0 {
        lemma_parent_of_joined(folder, name);
    } else {
        assert(path =~= name);
        assert(stripped(name) == name);
        lemma_tail_start_extend(folder, name);
    }
    assert(path.skip(folder.len() as int) =~= name);
    assert(last_component(path) == name);
    let more = path + "/"@;
    assert(more.drop_last() =~= path);
    assert(stripped(more) == stripped(path));
}

/// A path that names no file stays as it is: the empty path, and one that ends in `..`.
pub proof fn law_no_part_file_without_a_name(folder: Seq<char>)
    requires
        folder.len() == 0 || folder.last() == '/',
    ensures
        part_path(""@) == ""@,
        part_path("/"@) == "/"@,
        part_path(folder + ".."@) == folder + ".."@,
{
    reveal_strlit("");
    reveal_strlit("/");
    reveal_strlit("..");
    assert(""@ =~= Seq::<char>::empty());
    assert("/"@ =~= seq!['/']);
    assert(".."@ =~= seq!['.', '.']);
    let none = Seq::<char>::empty();
    assert(stripped(none) == none);
    assert(seq!['/'].drop_last() =~= none);
    assert(stripped(seq!['/']) == none);
    assert(last_component(none).len() == 0 && last_component(seq!['/']).len() == 0);
    let up = seq!['.', '.'];
    let path = folder + up;
    if folder.len() > 0 {
        lemma_parent_of_joined(folder, up);
    } else {
        assert(path =~= up);
        assert(stripped(up) == up);
        lemma_tail_start_extend(folder, up);
    }
    assert(path.skip(folder.len() as int) =~= up);
}

} // verus!
