//! What holds of every list of downloads.

use crate::content::{
    child_map, listed, listed_children, local_name, name_of, ordered, Content, ItemView,
};
use crate::names::{law_sanitized_name_is_safe, reserved, safe_component};
use crate::paths::joined;
use crate::text::{lemma_text_before_strict, text_before};
use vstd::prelude::*;

verus! {

/// The path that leads from `base` down through `names`.
pub open spec fn descend(base: Seq<char>, names: Seq<Seq<char>>) -> Seq<char>
    decreases names.len(),
{
    if names.len() == 0 {
        base
    } else {
        joined(descend(base, names.drop_last()), names.last())
    }
}

/// Whether every name is a single component of a path.
pub open spec fn all_safe(names: Seq<Seq<char>>) -> bool {
    forall|i: int| 0 <= i < names.len() ==> safe_component(#[trigger] names[i])
}

/// Whether `path` is `base`, or leads from `base` down through safe names.
pub open spec fn below(base: Seq<char>, path: Seq<char>) -> bool {
    exists|names: Seq<Seq<char>>| all_safe(names) && path == #[trigger] descend(base, names)
}

/// The local name of every entry is safe.
pub proof fn lemma_local_name_is_safe(id: Seq<char>, name: Option<Seq<char>>)
    ensures
        safe_component(local_name(id, name)),
{
    law_sanitized_name_is_safe(id);
    if let Some(name) = name {
        law_sanitized_name_is_safe(name);
    }
}

proof fn lemma_descend_first(base: Seq<char>, first: Seq<char>, names: Seq<Seq<char>>)
    ensures
        descend(base, seq![first] + names) == descend(joined(base, first), names),
    decreases names.len(),
{
    let all = seq![first] + names;
    if names.len() == 0 {
        assert(all.drop_last() =~= Seq::<Seq<char>>::empty());
        assert(descend(base, all.drop_last()) == base);
        assert(all.last() == first);
    } else {
        assert(all.drop_last() =~= seq![first] + names.drop_last());
        assert(all.last() == names.last());
        lemma_descend_first(base, first, names.drop_last());
    }
}

proof fn lemma_below_one_more(base: Seq<char>, name: Seq<char>, path: Seq<char>)
    requires
        safe_component(name),
        below(joined(base, name), path),
    ensures
        below(base, path),
{
    let names = choose|names: Seq<Seq<char>>|
        all_safe(names) && path == #[trigger] descend(joined(base, name), names);
    let all = seq![name] + names;
    lemma_descend_first(base, name, names);
    assert forall|i: int| 0 <= i < all.len() implies safe_component(#[trigger] all[i]) by {
        if i > 0 {
            assert(all[i] == names[i - 1]);
        }
    }
    assert(path == descend(base, all));
}

/// Every download goes below the folder that the listing starts from, through names that are
/// single components: no shared name, however it is written, leads out of it.
pub proof fn law_downloads_stay_below_the_root(content: Content, base: Seq<char>)
    ensures
        forall|i: int|
            0 <= i < listed(content, base).len() ==> below(
                base,
                (#[trigger] listed(content, base)[i]).relative_path,
            ),
    decreases content, 0nat,
{
    if content.is_file_spec() {
        assert(descend(base, Seq::empty()) == base);
        assert(all_safe(Seq::empty()));
        assert(below(base, base));
    } else {
        lemma_children_stay_below(content.children@, base);
    }
}

proof fn lemma_children_stay_below(children: Seq<(String, Content)>, base: Seq<char>)
    ensures
        forall|i: int|
            0 <= i < listed_children(children, base).len() ==> below(
                base,
                (#[trigger] listed_children(children, base)[i]).relative_path,
            ),
    decreases children, 1nat,
{
    if children.len() > 0 {
        let (id, child) = children.last();
        let name = local_name(id@, name_of(child));
        let head = listed_children(children.drop_last(), base);
        let tail = listed(child, joined(base, name));
        lemma_children_stay_below(children.drop_last(), base);
        law_downloads_stay_below_the_root(child, joined(base, name));
        lemma_local_name_is_safe(id@, name_of(child));
        let all = listed_children(children, base);
        assert(all =~= head + tail);
        assert forall|i: int| 0 <= i < all.len() implies below(
            base,
            (#[trigger] all[i]).relative_path,
        ) by {
            if i < head.len() {
                assert(all[i] == head[i]);
            } else {
                assert(all[i] == tail[i - head.len()]);
                lemma_below_one_more(base, name, all[i].relative_path);
            }
        }
    }
}

/// A path below `base` starts with `base`, and goes on with a separator where `base` does not end
/// in one.
pub proof fn law_below_extends_the_base(base: Seq<char>, path: Seq<char>)
    requires
        below(base, path),
    ensures
        base.len() <= path.len(),
        path.take(base.len() as int) == base,
        path != base && base.len() > 0 && base.last() != '/' ==> path[base.len() as int] == '/',
{
    let names = choose|names: Seq<Seq<char>>|
        all_safe(names) && path == #[trigger] descend(base, names);
    lemma_descend_extends(base, names);
}

proof fn lemma_descend_extends(base: Seq<char>, names: Seq<Seq<char>>)
    requires
        all_safe(names),
    ensures
        ({
            let path = descend(base, names);
            &&& base.len() <= path.len()
            &&& path.take(base.len() as int) == base
            &&& path != base && base.len() > 0 && base.last() != '/' ==> path[base.len() as int]
                == '/'
        }),
    decreases names.len(),
{
    let path = descend(base, names);
    if names.len() == 0 {
        assert(path.take(base.len() as int) =~= base);
    } else {
        let above = descend(base, names.drop_last());
        let name = names.last();
        assert(safe_component(names[names.len() - 1]));
        assert(all_safe(names.drop_last())) by {
            assert forall|i: int| 0 <= i < names.drop_last().len() implies safe_component(
                #[trigger] names.drop_last()[i],
            ) by {
                assert(names.drop_last()[i] == names[i]);
            }
        }
        lemma_descend_extends(base, names.drop_last());
        assert(path.take(base.len() as int) =~= above.take(base.len() as int));
    }
}

/// The links and sizes of the files in `content` that have a link, depth first.
pub open spec fn linked_files(content: Content) -> Seq<(Seq<char>, Option<u64>)>
    decreases content, 0nat,
{
    if content.is_file_spec() {
        match content.link {
            Some(url) => seq![(url@, content.size)],
            None => seq![],
        }
    } else {
        linked_children(content.children@)
    }
}

/// The links and sizes of the files in `children` that have a link, entry after entry.
pub open spec fn linked_children(children: Seq<(String, Content)>) -> Seq<
    (Seq<char>, Option<u64>),
>
    decreases children, 1nat,
{
    if children.len() == 0 {
        seq![]
    } else {
        linked_children(children.drop_last()) + linked_files(children.last().1)
    }
}

/// The link and size of a download.
pub open spec fn source(item: ItemView) -> (Seq<char>, Option<u64>) {
    (item.url, item.size)
}

/// Every file with a link is listed exactly once, with its link and size, wherever the listing
/// starts from; folders and files without a link are not.
pub proof fn law_every_linked_file_is_listed_once(content: Content, base: Seq<char>)
    ensures
        listed(content, base).map_values(|item: ItemView| source(item)) == linked_files(content),
    decreases content, 0nat,
{
    if content.is_file_spec() {
        assert(listed(content, base).map_values(|item: ItemView| source(item)) =~= linked_files(
            content,
        ));
    } else {
        lemma_children_are_listed_once(content.children@, base);
    }
}

proof fn lemma_children_are_listed_once(children: Seq<(String, Content)>, base: Seq<char>)
    ensures
        listed_children(children, base).map_values(|item: ItemView| source(item))
            == linked_children(children),
    decreases children, 1nat,
{
    if children.len() > 0 {
        let (id, child) = children.last();
        let place = joined(base, local_name(id@, name_of(child)));
        lemma_children_are_listed_once(children.drop_last(), base);
        law_every_linked_file_is_listed_once(child, place);
        let head = listed_children(children.drop_last(), base);
        let tail = listed(child, place);
        assert((head + tail).map_values(|item: ItemView| source(item)) =~= head.map_values(
            |item: ItemView| source(item),
        ) + tail.map_values(|item: ItemView| source(item)));
    } else {
        assert(listed_children(children, base).map_values(|item: ItemView| source(item))
            =~= linked_children(children));
    }
}

/// Sorted entries without the last one are sorted.
proof fn lemma_ordered_without_last(children: Seq<(String, Content)>)
    requires
        ordered(children),
        children.len() > 0,
    ensures
        ordered(children.drop_last()),
{
    let rest = children.drop_last();
    assert forall|i: int, j: int| 0 <= i < j < rest.len() implies text_before(
        (#[trigger] rest[i]).0@,
        (#[trigger] rest[j]).0@,
    ) by {
        assert(rest[i] == children[i] && rest[j] == children[j]);
    }
}

proof fn lemma_child_map_lookup(children: Seq<(String, Content)>)
    requires
        ordered(children),
    ensures
        forall|id: Seq<char>| #[trigger]
            child_map(children).contains_key(id) ==> exists|i: int|
                0 <= i < children.len() && (#[trigger] children[i]).0@ == id,
        forall|i: int|
            0 <= i < children.len() ==> child_map(children).contains_key(
                (#[trigger] children[i]).0@,
            ) && child_map(children)[children[i].0@] == children[i].1,
    decreases children.len(),
{
    if children.len() > 0 {
        let rest = children.drop_last();
        let last = children.len() - 1;
        lemma_ordered_without_last(children);
        lemma_child_map_lookup(rest);
        assert forall|id: Seq<char>| #[trigger] child_map(children).contains_key(
            id,
        ) implies exists|i: int| 0 <= i < children.len() && (#[trigger] children[i]).0@ == id by {
            if id == children[last].0@ {
            } else {
                assert(child_map(rest).contains_key(id));
                let i = choose|i: int| 0 <= i < rest.len() && (#[trigger] rest[i]).0@ == id;
                assert(children[i].0@ == id);
            }
        }
        assert forall|i: int| 0 <= i < children.len() implies child_map(children).contains_key(
            (#[trigger] children[i]).0@,
        ) && child_map(children)[children[i].0@] == children[i].1 by {
            if i < last {
                assert(rest[i] == children[i]);
                lemma_text_before_strict(children[i].0@, children[last].0@);
            }
        }
    }
}

/// Sorted entries are determined by the map that they stand for.
proof fn lemma_same_map_same_entries(a: Seq<(String, Content)>, b: Seq<(String, Content)>)
    requires
        ordered(a),
        ordered(b),
        child_map(a) == child_map(b),
    ensures
        a.len() == b.len(),
        forall|i: int|
            0 <= i < a.len() ==> (#[trigger] a[i]).0@ == (#[trigger] b[i]).0@ && a[i].1 == b[i].1,
    decreases a.len(),
{
    lemma_child_map_lookup(a);
    lemma_child_map_lookup(b);
    if a.len() == 0 {
        if b.len() > 0 {
            assert(child_map(b).contains_key(b[0].0@));
        }
    } else {
        let top = a.len() - 1;
        assert(child_map(b).contains_key(a[top].0@));
        let at = choose|i: int| 0 <= i < b.len() && (#[trigger] b[i]).0@ == a[top].0@;
        let end = b.len() - 1;
        assert(child_map(a).contains_key(b[end].0@));
        let from = choose|i: int| 0 <= i < a.len() && (#[trigger] a[i]).0@ == b[end].0@;
        if at < end {
            assert(text_before(b[at].0@, b[end].0@));
            lemma_text_before_strict(b[at].0@, b[end].0@);
            if from < top {
                assert(text_before(a[from].0@, a[top].0@));
            }
        }
        assert(at == end);
        let less_a = a.drop_last();
        let less_b = b.drop_last();
        lemma_ordered_without_last(a);
        lemma_ordered_without_last(b);
        lemma_without_last(a);
        lemma_without_last(b);
        assert(child_map(less_a) == child_map(less_b));
        lemma_same_map_same_entries(less_a, less_b);
        assert forall|i: int| 0 <= i < a.len() implies (#[trigger] a[i]).0@ == (
        #[trigger] b[i]).0@ && a[i].1 == b[i].1 by {
            if i < top {
                assert(less_a[i] == a[i] && less_b[i] == b[i]);
            }
        }
    }
}

proof fn lemma_without_last(children: Seq<(String, Content)>)
    requires
        ordered(children),
        children.len() > 0,
    ensures
        child_map(children.drop_last()) == child_map(children).remove(children.last().0@),
{
    let rest = children.drop_last();
    let last = children.len() - 1;
    lemma_ordered_without_last(children);
    lemma_child_map_lookup(rest);
    if child_map(rest).contains_key(children.last().0@) {
        let i = choose|i: int|
            0 <= i < rest.len() && (#[trigger] rest[i]).0@ == children.last().0@;
        assert(rest[i] == children[i]);
        lemma_text_before_strict(children[i].0@, children[last].0@);
    }
    assert(child_map(rest) =~= child_map(children).remove(children.last().0@));
}

proof fn lemma_same_entries_same_listing(
    a: Seq<(String, Content)>,
    b: Seq<(String, Content)>,
    base: Seq<char>,
)
    requires
        a.len() == b.len(),
        forall|i: int|
            0 <= i < a.len() ==> (#[trigger] a[i]).0@ == (#[trigger] b[i]).0@ && a[i].1 == b[i].1,
    ensures
        listed_children(a, base) == listed_children(b, base),
    decreases a.len(),
{
    if a.len() > 0 {
        let less_a = a.drop_last();
        let less_b = b.drop_last();
        assert forall|i: int| 0 <= i < less_a.len() implies (#[trigger] less_a[i]).0@ == (
        #[trigger] less_b[i]).0@ && less_a[i].1 == less_b[i].1 by {
            assert(less_a[i] == a[i] && less_b[i] == b[i]);
        }
        lemma_same_entries_same_listing(less_a, less_b, base);
        assert(a[a.len() - 1].0@ == b[b.len() - 1].0@);
    }
}

/// Two folders with the same entries under the same identifiers are listed alike: the order in
/// which the entries arrived plays no part.
pub proof fn law_listing_follows_the_identifiers(a: Content, b: Content, base: Seq<char>)
    requires
        a.well_formed(),
        b.well_formed(),
        !a.is_file_spec(),
        !b.is_file_spec(),
        child_map(a.children@) == child_map(b.children@),
    ensures
        listed(a, base) == listed(b, base),
{
    lemma_same_map_same_entries(a.children@, b.children@);
    lemma_same_entries_same_listing(a.children@, b.children@, base);
}

/// Whether no folder in `content` has two entries with the same local name.
pub open spec fn distinct_names(content: Content) -> bool
    decreases content,
{
    &&& forall|i: int, j: int|
        0 <= i < j < content.children@.len() ==> entry_local_name(
            #[trigger] content.children@[i],
        ) != entry_local_name(#[trigger] content.children@[j])
    &&& forall|i: int|
        0 <= i < content.children@.len() ==> distinct_names((#[trigger] content.children@[i]).1)
}

/// The local name of an entry of a folder.
pub open spec fn entry_local_name(entry: (String, Content)) -> Seq<char> {
    local_name(entry.0@, name_of(entry.1))
}

/// Whether no two downloads go to the same place.
pub open spec fn distinct_paths(items: Seq<ItemView>) -> bool {
    forall|i: int, j: int|
        0 <= i < j < items.len() ==> (#[trigger] items[i]).relative_path != (
        #[trigger] items[j]).relative_path
}

/// What lies below one name lies below no other name of the same folder.
proof fn lemma_names_part_ways(
    base: Seq<char>,
    one: Seq<char>,
    other: Seq<char>,
    path: Seq<char>,
)
    requires
        safe_component(one),
        safe_component(other),
        below(joined(base, one), path),
        below(joined(base, other), path),
        one.len() <= other.len(),
    ensures
        one == other,
{
    let left = joined(base, one);
    let right = joined(base, other);
    law_below_extends_the_base(left, path);
    law_below_extends_the_base(right, path);
    let start = left.len() - one.len();
    assert(right.len() - other.len() == start);
    assert forall|i: int| 0 <= i < one.len() implies one[i] == other[i] by {
        assert(left[start + i] == one[i]);
        assert(right[start + i] == other[i]);
        assert(path.take(left.len() as int)[start + i] == path[start + i]);
        assert(path.take(right.len() as int)[start + i] == path[start + i]);
    }
    assert(left.last() == one.last());
    if one.len() < other.len() {
        let next = one.len() as int;
        assert(right[start + next] == other[next]);
        assert(path.take(right.len() as int)[start + next] == path[start + next]);
        assert(path[left.len() as int] == '/');
        assert(reserved(other[next]));
    }
    assert(one =~= other);
}

/// Where no folder has two entries with the same local name, no two downloads go to the same
/// place.
pub proof fn law_distinct_names_give_distinct_paths(content: Content, base: Seq<char>)
    requires
        distinct_names(content),
    ensures
        distinct_paths(listed(content, base)),
    decreases content, 0nat,
{
    if !content.is_file_spec() {
        lemma_distinct_children(content.children@, base);
    }
}

proof fn lemma_distinct_children(children: Seq<(String, Content)>, base: Seq<char>)
    requires
        forall|i: int, j: int|
            0 <= i < j < children.len() ==> entry_local_name(#[trigger] children[i])
                != entry_local_name(#[trigger] children[j]),
        forall|i: int| 0 <= i < children.len() ==> distinct_names((#[trigger] children[i]).1),
    ensures
        distinct_paths(listed_children(children, base)),
    decreases children, 1nat,
{
    if children.len() > 0 {
        let rest = children.drop_last();
        let end = children.len() - 1;
        let (id, child) = children.last();
        let name = entry_local_name(children.last());
        let head = listed_children(rest, base);
        let tail = listed(child, joined(base, name));
        assert forall|i: int, j: int| 0 <= i < j < rest.len() implies entry_local_name(
            #[trigger] rest[i],
        ) != entry_local_name(#[trigger] rest[j]) by {
            assert(rest[i] == children[i] && rest[j] == children[j]);
        }
        assert forall|i: int| 0 <= i < rest.len() implies distinct_names(
            (#[trigger] rest[i]).1,
        ) by {
            assert(rest[i] == children[i]);
        }
        lemma_distinct_children(rest, base);
        assert(distinct_names(children[end].1));
        law_distinct_names_give_distinct_paths(child, joined(base, name));
        law_downloads_stay_below_the_root(child, joined(base, name));
        let all = listed_children(children, base);
        assert(all =~= head + tail);
        assert forall|i: int, j: int| 0 <= i < j < all.len() implies (
        #[trigger] all[i]).relative_path != (#[trigger] all[j]).relative_path by {
            if j < head.len() {
                assert(all[i] == head[i] && all[j] == head[j]);
            } else if i >= head.len() {
                assert(all[i] == tail[i - head.len()] && all[j] == tail[j - head.len()]);
            } else {
                assert(all[i] == head[i] && all[j] == tail[j - head.len()]);
                let k = lemma_listed_below_some_entry(rest, base, i);
                let other = entry_local_name(rest[k]);
                assert(rest[k] == children[k]);
                assert(entry_local_name(children[k]) != entry_local_name(children[end]));
                lemma_local_name_is_safe(id@, name_of(child));
                lemma_local_name_is_safe(rest[k].0@, name_of(rest[k].1));
                if all[i].relative_path == all[j].relative_path {
                    if name.len() <= other.len() {
                        lemma_names_part_ways(base, name, other, all[i].relative_path);
                    } else {
                        lemma_names_part_ways(base, other, name, all[i].relative_path);
                    }
                }
            }
        }
    }
}

proof fn lemma_listed_below_some_entry(
    children: Seq<(String, Content)>,
    base: Seq<char>,
    at: int,
) -> (k: int)
    requires
        0 <= at < listed_children(children, base).len(),
    ensures
        0 <= k < children.len(),
        below(
            joined(base, entry_local_name(children[k])),
            listed_children(children, base)[at].relative_path,
        ),
    decreases children.len(),
{
    let rest = children.drop_last();
    let (id, child) = children.last();
    let place = joined(base, entry_local_name(children.last()));
    let head = listed_children(rest, base);
    if at < head.len() {
        let k = lemma_listed_below_some_entry(rest, base, at);
        assert(rest[k] == children[k]);
        k
    } else {
        law_downloads_stay_below_the_root(child, place);
        assert(listed_children(children, base)[at] == listed(child, place)[at - head.len()]);
        children.len() - 1
    }
}

/// Where `trail` leads from `content`, one position among the entries after the other, and the
/// local names on the way; nothing where it does not lead through folders.
pub open spec fn follow(content: Content, trail: Seq<int>) -> Option<(Content, Seq<Seq<char>>)>
    decreases trail.len(),
{
    if trail.len() == 0 {
        Some((content, seq![]))
    } else if content.is_file_spec() || !(0 <= trail[0] < content.children@.len()) {
        None
    } else {
        let entry = content.children@[trail[0]];
        match follow(entry.1, trail.skip(1)) {
            Some((end, names)) => Some((end, seq![entry_local_name(entry)] + names)),
            None => None,
        }
    }
}

/// The download of `file`, if it goes to `path`.
pub open spec fn download_of(file: Content, path: Seq<char>) -> ItemView {
    ItemView { url: file.link->0@, relative_path: path, size: file.size }
}

/// Files keep their places: one that lies in folders within folders goes below the same folders,
/// under their local names.
pub proof fn law_files_keep_their_places(content: Content, base: Seq<char>, trail: Seq<int>)
    requires
        follow(content, trail) matches Some((file, names)) && file.is_file_spec()
            && file.link is Some,
    ensures
        follow(content, trail) matches Some((file, names)) && listed(content, base).contains(
            download_of(file, descend(base, names)),
        ),
    decreases trail.len(),
{
    let (file, names) = follow(content, trail)->0;
    if trail.len() == 0 {
        assert(descend(base, names) == base);
        assert(listed(content, base)[0] == download_of(file, base));
    } else {
        let at = trail[0];
        let entry = content.children@[at];
        let place = joined(base, entry_local_name(entry));
        let (end, rest) = follow(entry.1, trail.skip(1))->0;
        law_files_keep_their_places(entry.1, place, trail.skip(1));
        lemma_descend_first(base, entry_local_name(entry), rest);
        lemma_entry_is_listed(content.children@, base, at, download_of(file, descend(base, names)));
    }
}

proof fn lemma_entry_is_listed(
    children: Seq<(String, Content)>,
    base: Seq<char>,
    at: int,
    item: ItemView,
)
    requires
        0 <= at < children.len(),
        listed(children[at].1, joined(base, entry_local_name(children[at]))).contains(item),
    ensures
        listed_children(children, base).contains(item),
    decreases children.len(),
{
    let rest = children.drop_last();
    let head = listed_children(rest, base);
    let tail = listed(
        children.last().1,
        joined(base, entry_local_name(children.last())),
    );
    let all = listed_children(children, base);
    assert(all =~= head + tail);
    if at < rest.len() {
        assert(rest[at] == children[at]);
        lemma_entry_is_listed(rest, base, at, item);
        let i = choose|i: int| 0 <= i < head.len() && head[i] == item;
        assert(all[i] == item);
    } else {
        let i = choose|i: int| 0 <= i < tail.len() && tail[i] == item;
        assert(all[head.len() + i] == item);
    }
}

/// Nothing else is listed: every download is that of a file with a link, at the place that its
/// folders give it.
pub proof fn law_every_download_is_a_file_in_its_place(
    content: Content,
    base: Seq<char>,
    at: int,
) -> (trail: Seq<int>)
    requires
        0 <= at < listed(content, base).len(),
    ensures
        follow(content, trail) matches Some((file, names)) && file.is_file_spec()
            && file.link is Some && listed(content, base)[at] == download_of(
            file,
            descend(base, names),
        ),
    decreases content, 0nat,
{
    if content.is_file_spec() {
        let trail = Seq::<int>::empty();
        assert(descend(base, seq![]) == base);
        trail
    } else {
        let (k, rest) = lemma_listed_from_entry(content.children@, base, at);
        let entry = content.children@[k];
        let trail = seq![k] + rest;
        assert(trail.skip(1) =~= rest);
        let (file, names) = follow(entry.1, rest)->0;
        lemma_descend_first(base, entry_local_name(entry), names);
        trail
    }
}

proof fn lemma_listed_from_entry(
    children: Seq<(String, Content)>,
    base: Seq<char>,
    at: int,
) -> (found: (int, Seq<int>))
    requires
        0 <= at < listed_children(children, base).len(),
    ensures
        0 <= found.0 < children.len(),
        follow(children[found.0].1, found.1) matches Some((file, names)) && file.is_file_spec()
            && file.link is Some && listed_children(children, base)[at] == download_of(
            file,
            descend(joined(base, entry_local_name(children[found.0])), names),
        ),
    decreases children, 1nat,
{
    let rest = children.drop_last();
    let place = joined(base, entry_local_name(children.last()));
    let head = listed_children(rest, base);
    if at < head.len() {
        let found = lemma_listed_from_entry(rest, base, at);
        assert(rest[found.0] == children[found.0]);
        assert(listed_children(children, base)[at] == head[at]);
        found
    } else {
        let tail = listed(children.last().1, place);
        assert(listed_children(children, base)[at] == tail[at - head.len()]);
        let trail = law_every_download_is_a_file_in_its_place(
            children.last().1,
            place,
            at - head.len(),
        );
        (children.len() - 1, trail)
    }
}

} // verus!
