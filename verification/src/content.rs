//! The tree of shared folders and files, and the list of downloads in it.

use crate::names::{sanitize_component, sanitized};
use crate::paths::{join_path, joined};
use crate::text::{
    blank, is_before, is_blank, lemma_text_before_strict, lemma_text_before_total,
    lemma_text_before_transitive, same_text, text_before, white_space,
};
use vstd::prelude::*;
use vstd::string::*;

verus! {

/// A shared folder or file.
#[derive(Debug)]
pub struct Content {
    /// The identifier of the entry.
    pub id: Option<String>,
    /// The short code of a folder.
    pub code: Option<String>,
    /// The name that the share gives to the entry.
    pub name: Option<String>,
    /// `file` for a file; anything else is taken for a folder.
    pub kind: Option<String>,
    /// The size of a file in bytes.
    pub size: Option<u64>,
    /// Where a file can be downloaded.
    pub link: Option<String>,
    /// The entries of a folder with their identifiers, in the order of the identifiers.
    pub children: Vec<(String, Content)>,
    /// Whether the entry is open to this visitor.
    pub can_access: Option<bool>,
    /// What became of the password that was given.
    pub password_status: Option<String>,
}

/// A file to download.
#[derive(Debug)]
pub struct DownloadItem {
    /// Where the file can be downloaded.
    pub url: String,
    /// Where the file goes, below the output directory.
    pub relative_path: String,
    /// The size of the file in bytes, where it is known.
    pub size: Option<u64>,
}

/// The model of a file to download.
#[verifier::ext_equal]
pub struct ItemView {
    pub url: Seq<char>,
    pub relative_path: Seq<char>,
    pub size: Option<u64>,
}

impl View for DownloadItem {
    type V = ItemView;

    open spec fn view(&self) -> ItemView {
        ItemView { url: self.url@, relative_path: self.relative_path@, size: self.size }
    }
}

impl Clone for DownloadItem {
    fn clone(&self) -> (res: Self)
        ensures
            res@ == self@,
    {
        DownloadItem {
            url: self.url.clone(),
            relative_path: self.relative_path.clone(),
            size: self.size,
        }
    }
}

/// The models of a list of files.
pub open spec fn item_views(items: Seq<DownloadItem>) -> Seq<ItemView> {
    items.map_values(|item: DownloadItem| item@)
}

/// Whether the identifiers of `children` rise strictly, as those of a sorted map do.
pub open spec fn ordered(children: Seq<(String, Content)>) -> bool {
    forall|i: int, j: int|
        0 <= i < j < children.len() ==> text_before(
            (#[trigger] children[i]).0@,
            (#[trigger] children[j]).0@,
        )
}

/// The entries of a folder by identifier.
pub open spec fn child_map(children: Seq<(String, Content)>) -> Map<Seq<char>, Content>
    decreases children.len(),
{
    if children.len() == 0 {
        Map::empty()
    } else {
        child_map(children.drop_last()).insert(children.last().0@, children.last().1)
    }
}

impl Content {
    /// Every folder of the tree holds its entries in the order of their identifiers.
    pub open spec fn well_formed(self) -> bool
        decreases self,
    {
        &&& ordered(self.children@)
        &&& forall|i: int|
            0 <= i < self.children@.len() ==> (#[trigger] self.children@[i]).1.well_formed()
    }

    /// Whether the entry is a file.
    pub open spec fn is_file_spec(self) -> bool {
        self.kind matches Some(kind) && kind@ == seq!['f', 'i', 'l', 'e']
    }
}

/// The local name of an entry: its shared name, or its identifier where the name is missing or
/// blank.
pub open spec fn local_name(id: Seq<char>, name: Option<Seq<char>>) -> Seq<char> {
    match name {
        Some(name) if !blank(name) => sanitized(name),
        _ => sanitized(id),
    }
}

/// The shared name of an entry.
pub open spec fn name_of(content: Content) -> Option<Seq<char>> {
    match content.name {
        Some(name) => Some(name@),
        None => None,
    }
}

/// The downloads in `content` if it lies at `base`: the file itself where it has a link, else
/// those of the entries, each below `base` under its local name.
pub open spec fn listed(content: Content, base: Seq<char>) -> Seq<ItemView>
    decreases content, 0nat,
{
    if content.is_file_spec() {
        match content.link {
            Some(url) => seq![ItemView { url: url@, relative_path: base, size: content.size }],
            None => seq![],
        }
    } else {
        listed_children(content.children@, base)
    }
}

/// The downloads in the entries of a folder at `base`, entry after entry.
pub open spec fn listed_children(children: Seq<(String, Content)>, base: Seq<char>) -> Seq<
    ItemView,
>
    decreases children, 1nat,
{
    if children.len() == 0 {
        seq![]
    } else {
        listed_children(children.drop_last(), base) + listed(
            children.last().1,
            joined(base, local_name(children.last().0@, name_of(children.last().1))),
        )
    }
}

impl Default for Content {
    /// An entry of which nothing is known, with no entries of its own.
    fn default() -> (res: Self)
        ensures
            res.id is None && res.code is None && res.name is None && res.kind is None,
            res.size is None && res.link is None,
            res.can_access is None && res.password_status is None,
            res.children@.len() == 0,
            res.well_formed(),
    {
        Content {
            id: None,
            code: None,
            name: None,
            kind: None,
            size: None,
            link: None,
            children: Vec::new(),
            can_access: None,
            password_status: None,
        }
    }
}

impl Content {
    /// Puts `child` under `id` among the entries, in place of an entry that is there already.
    pub fn insert_child(&mut self, id: String, child: Content)
        requires
            old(self).well_formed(),
            child.well_formed(),
        ensures
            final(self).well_formed(),
            child_map(final(self).children@) == child_map(old(self).children@).insert(id@, child),
            *final(self) == (Content { children: final(self).children, ..*old(self) }),
    {
        let ghost before = self.children@;
        let mut at: usize = 0;
        while at < self.children.len() && is_before(self.children[at].0.as_str(), id.as_str())
            invariant
                self.children@ == before,
                *self == *old(self),
                at <= before.len(),
                forall|i: int| 0 <= i < at ==> text_before((#[trigger] before[i]).0@, id@),
            decreases before.len() - at,
        {
            at = at + 1;
        }
        if at < self.children.len() && same_text(self.children[at].0.as_str(), id.as_str()) {
            proof {
                lemma_ordered_distinct(before);
                lemma_child_map_update(before, at as int, (id, child));
            }
            self.children.set(at, (id, child));
            proof {
                assert(ordered(self.children@)) by {
                    lemma_ordered_update(before, at as int, (id, child));
                }
                assert forall|i: int| 0 <= i < self.children@.len() implies (
                #[trigger] self.children@[i]).1.well_formed() by {
                    if i != at {
                        assert(self.children@[i] == before[i]);
                    }
                }
            }
        } else {
            proof {
                lemma_insertion_place(before, at as int, id@);
                lemma_child_map_insert(before, at as int, (id, child));
                lemma_ordered_insert(before, at as int, (id, child));
            }
            self.children.insert(at, (id, child));
            proof {
                assert forall|i: int| 0 <= i < self.children@.len() implies (
                #[trigger] self.children@[i]).1.well_formed() by {
                    if i < at {
                        assert(self.children@[i] == before[i]);
                    } else if i > at {
                        assert(self.children@[i] == before[i - 1]);
                    }
                }
            }
        }
    }

    /// Whether the entry is a file.
    pub fn is_file(&self) -> (res: bool)
        ensures
            res == self.is_file_spec(),
    {
        match &self.kind {
            Some(kind) => {
                proof {
                    reveal_strlit("file");
                    assert("file"@ =~= seq!['f', 'i', 'l', 'e']);
                }
                same_text(kind.as_str(), "file")
            },
            None => false,
        }
    }
}

/// The identifiers of ordered entries are distinct.
proof fn lemma_ordered_distinct(children: Seq<(String, Content)>)
    requires
        ordered(children),
    ensures
        forall|i: int, j: int|
            0 <= i < children.len() && 0 <= j < children.len() && i != j ==> (
            #[trigger] children[i]).0@ != (#[trigger] children[j]).0@,
{
    assert forall|i: int, j: int|
        0 <= i < children.len() && 0 <= j < children.len() && i != j implies (
    #[trigger] children[i]).0@ != (#[trigger] children[j]).0@ by {
        lemma_text_before_strict(children[i].0@, children[j].0@);
        lemma_text_before_strict(children[j].0@, children[i].0@);
    }
}

/// The first entry that is neither before `id` nor `id` itself comes after it, and so do all that
/// follow.
proof fn lemma_insertion_place(children: Seq<(String, Content)>, at: int, id: Seq<char>)
    requires
        ordered(children),
        0 <= at <= children.len(),
        forall|i: int| 0 <= i < at ==> text_before((#[trigger] children[i]).0@, id),
        at < children.len() ==> !text_before(children[at].0@, id) && children[at].0@ != id,
    ensures
        forall|i: int| at <= i < children.len() ==> text_before(id, (#[trigger] children[i]).0@),
        forall|i: int| 0 <= i < children.len() ==> (#[trigger] children[i]).0@ != id,
{
    assert forall|i: int| at <= i < children.len() implies text_before(
        id,
        (#[trigger] children[i]).0@,
    ) by {
        lemma_text_before_total(children[at].0@, id);
        if i > at {
            lemma_text_before_transitive(id, children[at].0@, children[i].0@);
        }
    }
    assert forall|i: int| 0 <= i < children.len() implies (#[trigger] children[i]).0@ != id by {
        lemma_text_before_strict(children[i].0@, id);
        lemma_text_before_strict(id, children[i].0@);
    }
}

proof fn lemma_ordered_insert(children: Seq<(String, Content)>, at: int, entry: (String, Content))
    requires
        ordered(children),
        0 <= at <= children.len(),
        forall|i: int| 0 <= i < at ==> text_before((#[trigger] children[i]).0@, entry.0@),
        forall|i: int|
            at <= i < children.len() ==> text_before(entry.0@, (#[trigger] children[i]).0@),
    ensures
        ordered(children.insert(at, entry)),
{
    let after = children.insert(at, entry);
    assert forall|i: int, j: int| 0 <= i < j < after.len() implies text_before(
        (#[trigger] after[i]).0@,
        (#[trigger] after[j]).0@,
    ) by {
        let left = if i < at {
            i
        } else {
            i - 1
        };
        let right = if j < at {
            j
        } else {
            j - 1
        };
        if i != at {
            assert(after[i] == children[left]);
        }
        if j != at {
            assert(after[j] == children[right]);
        }
    }
}

proof fn lemma_ordered_update(children: Seq<(String, Content)>, at: int, entry: (String, Content))
    requires
        ordered(children),
        0 <= at < children.len(),
        children[at].0@ == entry.0@,
    ensures
        ordered(children.update(at, entry)),
{
    let after = children.update(at, entry);
    assert forall|i: int, j: int| 0 <= i < j < after.len() implies text_before(
        (#[trigger] after[i]).0@,
        (#[trigger] after[j]).0@,
    ) by {
        assert(after[i].0@ == children[i].0@);
        assert(after[j].0@ == children[j].0@);
    }
}

proof fn lemma_child_map_insert(
    children: Seq<(String, Content)>,
    at: int,
    entry: (String, Content),
)
    requires
        0 <= at <= children.len(),
        forall|i: int| 0 <= i < children.len() ==> (#[trigger] children[i]).0@ != entry.0@,
    ensures
        child_map(children.insert(at, entry)) == child_map(children).insert(entry.0@, entry.1),
    decreases children.len(),
{
    let after = children.insert(at, entry);
    if at == children.len() {
        assert(after.drop_last() =~= children);
    } else {
        let rest = children.drop_last();
        assert forall|i: int| 0 <= i < rest.len() implies (#[trigger] rest[i]).0@ != entry.0@ by {
            assert(rest[i] == children[i]);
        }
        lemma_child_map_insert(rest, at, entry);
        assert(after.drop_last() =~= rest.insert(at, entry));
        assert(after.last() == children.last());
        assert(children.last() == children[children.len() - 1]);
        assert(child_map(after) =~= child_map(children).insert(entry.0@, entry.1));
    }
}

proof fn lemma_child_map_update(
    children: Seq<(String, Content)>,
    at: int,
    entry: (String, Content),
)
    requires
        0 <= at < children.len(),
        children[at].0@ == entry.0@,
        forall|i: int, j: int|
            0 <= i < children.len() && 0 <= j < children.len() && i != j ==> (
            #[trigger] children[i]).0@ != (#[trigger] children[j]).0@,
    ensures
        child_map(children.update(at, entry)) == child_map(children).insert(entry.0@, entry.1),
    decreases children.len(),
{
    let after = children.update(at, entry);
    let rest = children.drop_last();
    if at == children.len() - 1 {
        assert(after.drop_last() =~= rest);
        assert(child_map(after) =~= child_map(children).insert(entry.0@, entry.1));
    } else {
        assert forall|i: int, j: int|
            0 <= i < rest.len() && 0 <= j < rest.len() && i != j implies (
        #[trigger] rest[i]).0@ != (#[trigger] rest[j]).0@ by {
            assert(rest[i] == children[i]);
            assert(rest[j] == children[j]);
        }
        lemma_child_map_update(rest, at, entry);
        assert(after.drop_last() =~= rest.update(at, entry));
        assert(after.last() == children.last());
        assert(children.last().0@ != children[at].0@);
        assert(child_map(after) =~= child_map(children).insert(entry.0@, entry.1));
    }
}

/// The local name of an entry.
pub fn entry_name(id: &str, name: &Option<String>) -> (res: String)
    ensures
        res@ == local_name(
            id@,
            match *name {
                Some(name) => Some(name@),
                None => None,
            },
        ),
{
    match name {
        Some(name) => if is_blank(name.as_str()) {
            sanitize_component(id)
        } else {
            sanitize_component(name.as_str())
        },
        None => sanitize_component(id),
    }
}

/// Appends the downloads in `content`, which lies at `base`, to `items`.
pub fn collect_downloads(content: &Content, base: String, items: &mut Vec<DownloadItem>)
    ensures
        item_views(final(items)@) == item_views(old(items)@) + listed(*content, base@),
    decreases content,
{
    let ghost before = item_views(items@);
    if content.is_file() {
        if let Some(url) = &content.link {
            items.push(
                DownloadItem { url: url.clone(), relative_path: base, size: content.size },
            );
        }
        assert(item_views(items@) =~= before + listed(*content, base@));
        return;
    }
    let mut i: usize = 0;
    assert(item_views(items@) =~= before + listed_children(content.children@.take(0), base@));
    while i < content.children.len()
        invariant
            i <= content.children@.len(),
            item_views(items@) == before + listed_children(
                content.children@.take(i as int),
                base@,
            ),
        decreases content.children@.len() - i,
    {
        let id = &content.children[i].0;
        let child = &content.children[i].1;
        let name = entry_name(id.as_str(), &child.name);
        let ghost done = content.children@.take(i as int);
        let ghost next = content.children@.take(i + 1);
        assert(decreases_to!(content => content.children@[i as int].1));
        collect_downloads(child, join_path(base.as_str(), name.as_str()), items);
        proof {
            assert(next.drop_last() =~= done);
            assert(next.last() == content.children@[i as int]);
            assert(item_views(items@) =~= before + listed_children(next, base@));
        }
        i = i + 1;
    }
    assert(content.children@.take(i as int) =~= content.children@);
}

/// The downloads in the tree under `root`, which lies at `root_path`.
pub fn list_downloads_from_content(root: Content, root_path: String) -> (items: Vec<DownloadItem>)
    ensures
        item_views(items@) == listed(root, root_path@),
{
    let mut items: Vec<DownloadItem> = Vec::new();
    assert(item_views(items@) =~= Seq::empty());
    collect_downloads(&root, root_path, &mut items);
    assert(Seq::<ItemView>::empty() + listed(root, root_path@) =~= listed(root, root_path@));
    items
}

/// Whether an entry is a file depends on its kind alone: it is one exactly where the kind is the
/// text `file`, whatever else is known of it.
pub proof fn law_kind_alone_makes_a_file(content: Content)
    ensures
        content.kind is None ==> !content.is_file_spec(),
        content.kind matches Some(kind) ==> (content.is_file_spec() <==> kind@ == "file"@),
{
    reveal_strlit("file");
    assert("file"@ =~= seq!['f', 'i', 'l', 'e']);
}

/// A file with a link is the one download of itself, at the place where it lies, with its link and
/// its size; without a link there is none. Its name, its identifiers and its entries play no part.
pub proof fn law_file_is_its_own_download(content: Content, base: Seq<char>)
    requires
        content.kind matches Some(kind) && kind@ == "file"@,
    ensures
        content.link is None ==> listed(content, base).len() == 0,
        content.link matches Some(url) ==> listed(content, base).len() == 1 && listed(
            content,
            base,
        )[0].url == url@ && listed(content, base)[0].relative_path == base && listed(
            content,
            base,
        )[0].size == content.size,
{
    law_kind_alone_makes_a_file(content);
}

/// A folder is walked whole: one more entry adds the downloads of that entry after those of the
/// others, one level below under its local name, and changes nothing else. A folder without entries
/// has no downloads. Only the kind and the entries of a folder count.
pub proof fn law_entries_add_their_downloads(
    folder: Content,
    larger: Content,
    entry: (String, Content),
    base: Seq<char>,
)
    requires
        folder.kind matches Some(kind) ==> kind@ != "file"@,
        larger.kind matches Some(kind) ==> kind@ != "file"@,
        larger.children@ == folder.children@.push(entry),
    ensures
        folder.children@.len() == 0 ==> listed(folder, base).len() == 0,
        listed(larger, base) == listed(folder, base) + listed(
            entry.1,
            joined(base, local_name(entry.0@, name_of(entry.1))),
        ),
{
    law_kind_alone_makes_a_file(folder);
    law_kind_alone_makes_a_file(larger);
    assert(larger.children@.drop_last() =~= folder.children@);
    assert(larger.children@.last() == entry);
}

/// The local name of an entry is its shared name, sanitized, if that has a character that is not
/// white space; else it is the identifier, sanitized.
pub proof fn law_name_goes_before_identifier(id: Seq<char>, name: Seq<char>, content: Content)
    ensures
        (exists|i: int| 0 <= i < name.len() && !white_space(#[trigger] name[i])) ==> local_name(
            id,
            Some(name),
        ) == sanitized(name),
        (forall|i: int| 0 <= i < name.len() ==> white_space(#[trigger] name[i])) ==> local_name(
            id,
            Some(name),
        ) == sanitized(id),
        local_name(id, None) == sanitized(id),
        content.name is None ==> name_of(content) is None,
        content.name matches Some(text) ==> name_of(content) == Some(text@),
{
}

/// The map of sorted entries holds exactly the entries, each under its identifier.
pub proof fn law_map_holds_the_entries(children: Seq<(String, Content)>, id: Seq<char>)
    requires
        forall|i: int, j: int|
            0 <= i < children.len() && 0 <= j < children.len() && i != j ==> (
            #[trigger] children[i]).0@ != (#[trigger] children[j]).0@,
    ensures
        child_map(children).contains_key(id) <==> exists|i: int|
            0 <= i < children.len() && (#[trigger] children[i]).0@ == id,
        forall|i: int|
            0 <= i < children.len() && (#[trigger] children[i]).0@ == id ==> child_map(children)[id]
                == children[i].1,
    decreases children.len(),
{
    if children.len() > 0 {
        let rest = children.drop_last();
        let last = children.len() - 1;
        assert forall|i: int, j: int| 0 <= i < rest.len() && 0 <= j < rest.len() && i != j implies (
        #[trigger] rest[i]).0@ != (#[trigger] rest[j]).0@ by {
            assert(rest[i] == children[i] && rest[j] == children[j]);
        }
        law_map_holds_the_entries(rest, id);
        assert(children.last() == children[last]);
        if child_map(children).contains_key(id) {
            if id == children[last].0@ {
            } else {
                let i = choose|i: int| 0 <= i < rest.len() && (#[trigger] rest[i]).0@ == id;
                assert(children[i] == rest[i]);
            }
        }
        assert forall|i: int| 0 <= i < children.len() && (#[trigger] children[i]).0@ == id implies
            child_map(children).contains_key(id) && child_map(children)[id] == children[i].1 by {
            if i < last {
                assert(rest[i] == children[i]);
            }
        }
    }
}

/// In a well-formed tree the identifiers in every folder rise, and every entry is well-formed; that
/// is all there is to it.
pub proof fn law_well_formed_trees_are_sorted(content: Content)
    ensures
        content.well_formed() <==> (forall|i: int, j: int|
            0 <= i < j < content.children@.len() ==> text_before(
                (#[trigger] content.children@[i]).0@,
                (#[trigger] content.children@[j]).0@,
            )) && (forall|i: int|
            0 <= i < content.children@.len() ==> (
            #[trigger] content.children@[i]).1.well_formed()),
{
}

/// The models of downloads show all that they hold, each at its place.
pub proof fn law_models_of_downloads(items: Seq<DownloadItem>, i: int)
    requires
        0 <= i < items.len(),
    ensures
        item_views(items).len() == items.len(),
        item_views(items)[i].url == items[i].url@,
        item_views(items)[i].relative_path == items[i].relative_path@,
        item_views(items)[i].size == items[i].size,
        item_views(items)[i] == items[i]@,
{
}

} // verus!
