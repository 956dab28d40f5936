//! Edits of a project document: folder records and resource entries.

use vstd::prelude::*;
use crate::json::{
    all_unique_keys, distinct_keys, find_member, has_key, is_first_key, key_index, lemma_array_view,
    lemma_field_unique, lemma_first_key, lemma_object_view, lemma_with_field_unique,
    member_views, unique_keys, views, DocumentError, Json, JsonView,
};
use crate::text::{chars_of, string_of};

verus! {

/// One folder record of a project's folder list.
#[derive(Debug, Clone)]
pub struct GMFolder {
    pub gm_folder: String,
    pub name_field: String,
    pub folder_path: String,
    pub name: String,
    pub resource_type: String,
    pub resource_version: String,
}

/// The record that a project keeps for the folder with display name `name`
/// at `folder_path`.
pub open spec fn folder_record(name: Seq<char>, folder_path: Seq<char>) -> JsonView {
    JsonView::Object(
        seq![
            ("$GMFolder"@, JsonView::Text(Seq::empty())),
            ("%Name"@, JsonView::Text(name)),
            ("folderPath"@, JsonView::Text(folder_path)),
            ("name"@, JsonView::Text(name)),
            ("resourceType"@, JsonView::Text("GMFolder"@)),
            ("resourceVersion"@, JsonView::Text("2.0"@)),
        ],
    )
}

/// The entry that a project keeps for the resource `name` whose descriptor
/// lies at `path`.
pub open spec fn resource_record(name: Seq<char>, path: Seq<char>) -> JsonView {
    JsonView::Object(
        seq![
            (
                "id"@,
                JsonView::Object(seq![("name"@, JsonView::Text(name)), ("path"@, JsonView::Text(path))]),
            ),
        ],
    )
}

/// The path by which a folder record is recognised.
pub open spec fn folder_path_of(entry: JsonView) -> Option<Seq<char>> {
    entry.text_field("folderPath"@)
}

/// The name by which a resource entry is recognised.
pub open spec fn resource_name(entry: JsonView) -> Option<Seq<char>> {
    match entry.get("id"@) {
        Some(id) => id.text_field("name"@),
        None => None,
    }
}

/// Some record of the list is the folder at `path`.
pub open spec fn has_folder(folders: Seq<JsonView>, path: Seq<char>) -> bool {
    exists|i: int| 0 <= i < folders.len() && folder_path_of(#[trigger] folders[i]) == Some(path)
}

/// The pieces of `s` between occurrences of `sep`. There is always at least
/// one piece, and a piece may be empty.
pub open spec fn split(s: Seq<char>, sep: char) -> Seq<Seq<char>>
    decreases s.len(),
{
    if s.len() == 0 {
        seq![Seq::empty()]
    } else if s.last() == sep {
        split(s.drop_last(), sep).push(Seq::empty())
    } else {
        let before = split(s.drop_last(), sep);
        before.drop_last().push(before.last().push(s.last()))
    }
}

/// The first `n` segments joined by `/`; leading empty segments leave no trace.
pub open spec fn joined_path(parts: Seq<Seq<char>>, n: int) -> Seq<char>
    decreases n,
{
    if n <= 0 {
        Seq::empty()
    } else {
        let before = joined_path(parts, n - 1);
        if before.len() == 0 {
            parts[n - 1]
        } else {
            before + seq!['/'] + parts[n - 1]
        }
    }
}

/// The descriptor path of the folder that the joined segments name.
pub open spec fn folder_file(joined: Seq<char>) -> Seq<char> {
    "folders/"@ + joined + ".yy"@
}

/// The folder list once the folders named by the first `n` segments exist:
/// each missing one is appended, parent before child.
pub open spec fn with_folders(folders: Seq<JsonView>, parts: Seq<Seq<char>>, n: int) -> Seq<
    JsonView,
>
    decreases n,
{
    if n <= 0 {
        folders
    } else {
        let before = with_folders(folders, parts, n - 1);
        let file = folder_file(joined_path(parts, n));
        if has_folder(before, file) {
            before
        } else {
            before.push(folder_record(parts[n - 1], file))
        }
    }
}

/// The folder list once every folder on the way to `path` exists.
pub open spec fn with_folder_chain(folders: Seq<JsonView>, path: Seq<char>) -> Seq<JsonView> {
    with_folders(folders, split(path, '/'), split(path, '/').len() as int)
}

/// The entries that are not named `name`, in their order.
pub open spec fn without_named(entries: Seq<JsonView>, name: Seq<char>) -> Seq<JsonView>
    decreases entries.len(),
{
    if entries.len() == 0 {
        Seq::empty()
    } else if resource_name(entries.last()) == Some(name) {
        without_named(entries.drop_last(), name)
    } else {
        without_named(entries.drop_last(), name).push(entries.last())
    }
}

/// How many entries are named `name`.
pub open spec fn count_named(entries: Seq<JsonView>, name: Seq<char>) -> nat
    decreases entries.len(),
{
    if entries.len() == 0 {
        0
    } else if resource_name(entries.last()) == Some(name) {
        count_named(entries.drop_last(), name) + 1
    } else {
        count_named(entries.drop_last(), name)
    }
}

/// The resource list with `entry` in place of whatever was named `name`:
/// those entries are gone and `entry` stands at the end.
pub open spec fn upserted(entries: Seq<JsonView>, name: Seq<char>, entry: JsonView) -> Seq<
    JsonView,
> {
    without_named(entries, name).push(entry)
}

/// A folder record is recognised by the path it was made with.
pub proof fn lemma_folder_record_path(name: Seq<char>, folder_path: Seq<char>)
    ensures
        folder_path_of(folder_record(name, folder_path)) == Some(folder_path),
{
    reveal_strlit("$GMFolder");
    reveal_strlit("%Name");
    reveal_strlit("folderPath");
    let pairs = folder_record(name, folder_path)->Object_0;
    assert(pairs[0].0.len() == 9);
    assert(pairs[1].0.len() == 5);
    assert(pairs[2].0.len() == 10);
    assert(is_first_key(pairs, "folderPath"@, 2));
    lemma_first_key(pairs, "folderPath"@, 2);
}

/// A resource entry is recognised by the name it was made with.
pub proof fn lemma_resource_record_name(name: Seq<char>, path: Seq<char>)
    ensures
        resource_name(resource_record(name, path)) == Some(name),
{
    let outer = resource_record(name, path)->Object_0;
    assert(is_first_key(outer, "id"@, 0));
    lemma_first_key(outer, "id"@, 0);
    let inner = outer[0].1->Object_0;
    assert(is_first_key(inner, "name"@, 0));
    lemma_first_key(inner, "name"@, 0);
}

/// The six members of a folder record have six different keys.
pub proof fn lemma_folder_record_unique(name: Seq<char>, folder_path: Seq<char>)
    ensures
        unique_keys(folder_record(name, folder_path)),
{
    reveal_strlit("$GMFolder");
    reveal_strlit("%Name");
    reveal_strlit("folderPath");
    reveal_strlit("name");
    reveal_strlit("resourceType");
    reveal_strlit("resourceVersion");
    let pairs = folder_record(name, folder_path)->Object_0;
    assert(pairs[0].0.len() == 9);
    assert(pairs[1].0.len() == 5);
    assert(pairs[2].0.len() == 10);
    assert(pairs[3].0.len() == 4);
    assert(pairs[4].0.len() == 12);
    assert(pairs[5].0.len() == 15);
    assert(pairs.len() == 6);
    assert(distinct_keys(pairs));
    assert forall|i: int| 0 <= i < pairs.len() implies unique_keys((#[trigger] pairs[i]).1) by {
        assert(pairs[i].1 is Text);
    }
}

/// The members of a resource entry, and those of its `id`, have different keys.
pub proof fn lemma_resource_record_unique(name: Seq<char>, path: Seq<char>)
    ensures
        unique_keys(resource_record(name, path)),
{
    reveal_strlit("name");
    reveal_strlit("path");
    let outer = resource_record(name, path)->Object_0;
    let inner = outer[0].1->Object_0;
    assert(inner[0].0[0] == 'n');
    assert(inner[1].0[0] == 'p');
    assert(inner.len() == 2);
    assert(distinct_keys(inner));
    assert forall|i: int| 0 <= i < inner.len() implies unique_keys((#[trigger] inner[i]).1) by {
        assert(inner[i].1 is Text);
    }
    assert(unique_keys(outer[0].1));
    assert(outer.len() == 1);
    assert(distinct_keys(outer));
}

/// Ensuring folders adds folder records only: a list of documents with
/// unique keys stays one.
pub proof fn lemma_with_folders_unique(folders: Seq<JsonView>, parts: Seq<Seq<char>>, n: int)
    requires
        all_unique_keys(folders),
    ensures
        all_unique_keys(with_folders(folders, parts, n)),
    decreases n,
{
    if n > 0 {
        lemma_with_folders_unique(folders, parts, n - 1);
        let before = with_folders(folders, parts, n - 1);
        let file = folder_file(joined_path(parts, n));
        if !has_folder(before, file) {
            lemma_folder_record_unique(parts[n - 1], file);
            let after = before.push(folder_record(parts[n - 1], file));
            assert forall|i: int| 0 <= i < after.len() implies unique_keys(#[trigger] after[i]) by {
                if i < before.len() {
                    assert(after[i] == before[i]);
                }
            }
        }
    }
}

/// Removing entries leaves a list of documents with unique keys one.
pub proof fn lemma_without_named_unique(entries: Seq<JsonView>, name: Seq<char>)
    requires
        all_unique_keys(entries),
    ensures
        all_unique_keys(without_named(entries, name)),
    decreases entries.len(),
{
    if entries.len() > 0 {
        let rest = entries.drop_last();
        assert forall|i: int| 0 <= i < rest.len() implies unique_keys(#[trigger] rest[i]) by {
            assert(rest[i] == entries[i]);
        }
        lemma_without_named_unique(rest, name);
        let kept = without_named(rest, name);
        if resource_name(entries.last()) != Some(name) {
            let after = kept.push(entries.last());
            assert(unique_keys(entries[entries.len() - 1]));
            assert forall|i: int| 0 <= i < after.len() implies unique_keys(#[trigger] after[i]) by {
                if i < kept.len() {
                    assert(after[i] == kept[i]);
                }
            }
        }
    }
}

/// A project document whose objects keep their keys apart still does so
/// once a folder chain is ensured in it.
pub proof fn lemma_folder_chain_keeps_unique(doc: JsonView, path: Seq<char>)
    requires
        unique_keys(doc),
        doc.array_field("Folders"@) is Some,
    ensures
        unique_keys(
            doc.with_field(
                "Folders"@,
                JsonView::Array(with_folder_chain(doc.array_field("Folders"@)->0, path)),
            ),
        ),
{
    let folders = doc.array_field("Folders"@)->0;
    lemma_field_unique(doc, "Folders"@);
    let parts = split(path, '/');
    lemma_with_folders_unique(folders, parts, parts.len() as int);
    let after = JsonView::Array(with_folder_chain(folders, path));
    assert(unique_keys(after));
    lemma_with_field_unique(doc, "Folders"@, after);
}

/// A project document whose objects keep their keys apart still does so
/// once a resource entry is replaced in it.
pub proof fn lemma_upsert_keeps_unique(doc: JsonView, name: Seq<char>, path: Seq<char>)
    requires
        unique_keys(doc),
        doc.array_field("resources"@) is Some,
    ensures
        unique_keys(
            doc.with_field(
                "resources"@,
                JsonView::Array(
                    upserted(doc.array_field("resources"@)->0, name, resource_record(name, path)),
                ),
            ),
        ),
{
    let entries = doc.array_field("resources"@)->0;
    lemma_field_unique(doc, "resources"@);
    lemma_without_named_unique(entries, name);
    lemma_resource_record_unique(name, path);
    let kept = without_named(entries, name);
    let after = kept.push(resource_record(name, path));
    assert forall|i: int| 0 <= i < after.len() implies unique_keys(#[trigger] after[i]) by {
        if i < kept.len() {
            assert(after[i] == kept[i]);
        }
    }
    assert(unique_keys(JsonView::Array(after)));
    lemma_with_field_unique(doc, "resources"@, JsonView::Array(after));
}

/// After the entries named `name` are removed, none is named `name`, and
/// removing them again changes nothing.
pub proof fn lemma_without_named(entries: Seq<JsonView>, name: Seq<char>)
    ensures
        count_named(without_named(entries, name), name) == 0,
        without_named(without_named(entries, name), name) == without_named(entries, name),
        count_named(entries, name) == 0 ==> without_named(entries, name) == entries,
    decreases entries.len(),
{
    if entries.len() > 0 {
        let rest = entries.drop_last();
        lemma_without_named(rest, name);
        if resource_name(entries.last()) != Some(name) {
            let kept = without_named(rest, name);
            assert(kept.push(entries.last()).drop_last() == kept);
            assert(kept.push(entries.last()).last() == entries.last());
            if count_named(entries, name) == 0 {
                assert(rest.push(entries.last()) == entries);
            }
        }
    }
}

/// However often a resource of one name was listed before, after an upsert
/// the list holds exactly one entry of that name: the new one, at the end.
pub proof fn lemma_upsert_leaves_one(entries: Seq<JsonView>, name: Seq<char>, path: Seq<char>)
    ensures
        count_named(upserted(entries, name, resource_record(name, path)), name) == 1,
        upserted(entries, name, resource_record(name, path)).last() == resource_record(name, path),
{
    let entry = resource_record(name, path);
    let kept = without_named(entries, name);
    lemma_resource_record_name(name, path);
    lemma_without_named(entries, name);
    assert(kept.push(entry).drop_last() == kept);
}

/// Two upserts of one name leave what the second alone would have left, with
/// exactly one entry of that name.
pub proof fn lemma_upsert_twice(
    entries: Seq<JsonView>,
    name: Seq<char>,
    first: Seq<char>,
    second: Seq<char>,
)
    ensures
        upserted(
            upserted(entries, name, resource_record(name, first)),
            name,
            resource_record(name, second),
        ) == upserted(entries, name, resource_record(name, second)),
        count_named(
            upserted(
                upserted(entries, name, resource_record(name, first)),
                name,
                resource_record(name, second),
            ),
            name,
        ) == 1,
{
    let kept = without_named(entries, name);
    let once = kept.push(resource_record(name, first));
    lemma_resource_record_name(name, first);
    lemma_without_named(entries, name);
    assert(once.drop_last() == kept);
    assert(without_named(once, name) == kept);
    lemma_upsert_leaves_one(entries, name, second);
}

/// Once the folders of the first `n` segments exist, the list has a record
/// for each of them, and everything it had before is still in place.
pub proof fn lemma_with_folders_has(folders: Seq<JsonView>, parts: Seq<Seq<char>>, n: int)
    ensures
        folders.len() <= with_folders(folders, parts, n).len(),
        forall|i: int| 0 <= i < folders.len() ==> with_folders(folders, parts, n)[i] == folders[i],
        forall|k: int|
            1 <= k <= n ==> has_folder(
                with_folders(folders, parts, n),
                folder_file(#[trigger] joined_path(parts, k)),
            ),
    decreases n,
{
    if n > 0 {
        lemma_with_folders_has(folders, parts, n - 1);
        let before = with_folders(folders, parts, n - 1);
        let after = with_folders(folders, parts, n);
        let file = folder_file(joined_path(parts, n));
        assert forall|k: int| 1 <= k <= n implies has_folder(
            after,
            folder_file(#[trigger] joined_path(parts, k)),
        ) by {
            let wanted = folder_file(joined_path(parts, k));
            if k < n {
                let i = choose|i: int|
                    0 <= i < before.len() && folder_path_of(#[trigger] before[i]) == Some(wanted);
                assert(after[i] == before[i]);
            } else if !has_folder(before, file) {
                lemma_folder_record_path(parts[n - 1], file);
                assert(after[after.len() - 1] == folder_record(parts[n - 1], file));
            }
        }
    }
}

/// A list that has a record for each of the first `n` segments' folders is
/// left as it is.
pub proof fn lemma_with_folders_keeps(folders: Seq<JsonView>, parts: Seq<Seq<char>>, n: int)
    requires
        forall|k: int|
            1 <= k <= n ==> has_folder(folders, folder_file(#[trigger] joined_path(parts, k))),
    ensures
        with_folders(folders, parts, n) == folders,
    decreases n,
{
    if n > 0 {
        lemma_with_folders_keeps(folders, parts, n - 1);
        assert(has_folder(folders, folder_file(joined_path(parts, n))));
    }
}

/// Ensuring the same folder chain a second time adds nothing: no folder gets
/// a second record.
pub proof fn lemma_folder_chain_idempotent(folders: Seq<JsonView>, path: Seq<char>)
    ensures
        with_folder_chain(with_folder_chain(folders, path), path) == with_folder_chain(
            folders,
            path,
        ),
{
    let parts = split(path, '/');
    lemma_with_folders_has(folders, parts, parts.len() as int);
    lemma_with_folders_keeps(with_folder_chain(folders, path), parts, parts.len() as int);
}

impl GMFolder {
    /// A folder record with display name `name` at `folder_path`.
    pub fn new(name: &str, folder_path: &str) -> (f: Self)
        ensures
            f.gm_folder@ == Seq::<char>::empty(),
            f.name_field@ == name@,
            f.folder_path@ == folder_path@,
            f.name@ == name@,
            f.resource_type@ == "GMFolder"@,
            f.resource_version@ == "2.0"@,
    {
        GMFolder {
            gm_folder: String::new(),
            name_field: name.to_owned(),
            folder_path: folder_path.to_owned(),
            name: name.to_owned(),
            resource_type: "GMFolder".to_owned(),
            resource_version: "2.0".to_owned(),
        }
    }

    /// The record as it stands in a project document.
    pub open spec fn record(&self) -> JsonView {
        JsonView::Object(
            seq![
                ("$GMFolder"@, JsonView::Text(self.gm_folder@)),
                ("%Name"@, JsonView::Text(self.name_field@)),
                ("folderPath"@, JsonView::Text(self.folder_path@)),
                ("name"@, JsonView::Text(self.name@)),
                ("resourceType"@, JsonView::Text(self.resource_type@)),
                ("resourceVersion"@, JsonView::Text(self.resource_version@)),
            ],
        )
    }

    /// The record as a document, its members in the order of the fields.
    pub fn to_json(&self) -> (j: Json)
        ensures
            j@ == self.record(),
            j.wf(),
    {
        proof {
            reveal_strlit("$GMFolder");
            reveal_strlit("%Name");
            reveal_strlit("folderPath");
            reveal_strlit("name");
            reveal_strlit("resourceType");
            reveal_strlit("resourceVersion");
            let pairs = self.record()->Object_0;
            assert(pairs[0].0.len() == 9);
            assert(pairs[1].0.len() == 5);
            assert(pairs[2].0.len() == 10);
            assert(pairs[3].0.len() == 4);
            assert(pairs[4].0.len() == 12);
            assert(pairs[5].0.len() == 15);
            assert(pairs.len() == 6);
            assert(distinct_keys(pairs));
            assert forall|i: int| 0 <= i < pairs.len() implies unique_keys(
                (#[trigger] pairs[i]).1,
            ) by {
                assert(pairs[i].1 is Text);
            }
        }
        let mut pairs: Vec<(String, Json)> = Vec::new();
        pairs.push(("$GMFolder".to_owned(), Json::text(self.gm_folder.as_str())));
        pairs.push(("%Name".to_owned(), Json::text(self.name_field.as_str())));
        pairs.push(("folderPath".to_owned(), Json::text(self.folder_path.as_str())));
        pairs.push(("name".to_owned(), Json::text(self.name.as_str())));
        pairs.push(("resourceType".to_owned(), Json::text(self.resource_type.as_str())));
        pairs.push(("resourceVersion".to_owned(), Json::text(self.resource_version.as_str())));
        proof {
            lemma_object_view(pairs);
            assert(member_views(pairs@) =~= self.record()->Object_0);
        }
        Json::Object(pairs)
    }
}

/// The entry for the resource `name` whose descriptor lies at `path`.
pub fn resource_entry(name: &str, path: &str) -> (j: Json)
    ensures
        j@ == resource_record(name@, path@),
        j.wf(),
{
    proof {
        lemma_resource_record_unique(name@, path@);
    }
    let mut id: Vec<(String, Json)> = Vec::new();
    id.push(("name".to_owned(), Json::text(name)));
    id.push(("path".to_owned(), Json::text(path)));
    proof {
        lemma_object_view(id);
        assert(member_views(id@) =~= seq![
            ("name"@, JsonView::Text(name@)),
            ("path"@, JsonView::Text(path@)),
        ]);
    }
    let mut pairs: Vec<(String, Json)> = Vec::new();
    pairs.push(("id".to_owned(), Json::Object(id)));
    proof {
        lemma_object_view(pairs);
        assert(member_views(pairs@) =~= resource_record(name@, path@)->Object_0);
    }
    Json::Object(pairs)
}

/// The views of a list of strings.
pub open spec fn string_views(v: Seq<String>) -> Seq<Seq<char>> {
    Seq::new(v.len(), |i: int| v[i]@)
}

/// Cuts `s` at every occurrence of `sep`.
pub fn split_on(s: &str, sep: char) -> (parts: Vec<String>)
    ensures
        string_views(parts@) == split(s@, sep),
        parts@.len() >= 1,
{
    let chars = chars_of(s);
    let mut parts: Vec<String> = Vec::new();
    let mut start: usize = 0;
    let mut i: usize = 0;
    proof {
        assert(chars@.take(0).len() == 0);
        assert(string_views(parts@).push(chars@.subrange(0, 0)) =~~= seq![Seq::<char>::empty()]);
    }
    while i < chars.len()
        invariant
            start <= i <= chars.len(),
            chars@ == s@,
            split(chars@.take(i as int), sep) == string_views(parts@).push(
                chars@.subrange(start as int, i as int),
            ),
        decreases chars.len() - i,
    {
        let ghost before = string_views(parts@);
        let ghost cur = chars@.subrange(start as int, i as int);
        proof {
            let next = chars@.take(i + 1);
            assert(next.drop_last() == chars@.take(i as int));
            assert(before.push(cur).drop_last() == before);
        }
        if chars[i] == sep {
            let piece = string_of(&chars, start, i);
            parts.push(piece);
            start = i + 1;
            proof {
                assert(string_views(parts@) == before.push(cur));
                assert(chars@.subrange(start as int, i + 1) == Seq::<char>::empty());
            }
        } else {
            proof {
                assert(cur.push(chars@[i as int]) == chars@.subrange(start as int, i + 1));
            }
        }
        i += 1;
    }
    let piece = string_of(&chars, start, i);
    let ghost before = string_views(parts@);
    parts.push(piece);
    proof {
        assert(chars@.take(chars@.len() as int) == chars@);
        assert(string_views(parts@) == before.push(chars@.subrange(start as int, i as int)));
    }
    parts
}

/// Whether some record of the list is the folder at `file`.
pub fn has_folder_record(folders: &Vec<Json>, file: &String) -> (b: bool)
    ensures
        b == has_folder(views(folders@), file@),
{
    let mut i: usize = 0;
    while i < folders.len()
        invariant
            i <= folders.len(),
            forall|j: int|
                0 <= j < i ==> folder_path_of(#[trigger] views(folders@)[j]) != Some(file@),
        decreases folders.len() - i,
    {
        if folders[i].text_field_is("folderPath", file) {
            assert(folder_path_of(views(folders@)[i as int]) == Some(file@));
            return true;
        }
        i += 1;
    }
    false
}

/// Appends a record for each folder on the way to `gm_folder_path` that the
/// list does not have yet, parent before child.
pub fn add_folder_chain(folders: &mut Vec<Json>, gm_folder_path: &str)
    ensures
        views(final(folders)@) == with_folder_chain(views(old(folders)@), gm_folder_path@),
{
    let parts = split_on(gm_folder_path, '/');
    let ghost segs = split(gm_folder_path@, '/');
    let ghost start = views(folders@);
    let mut accumulated = String::new();
    let mut n: usize = 0;
    while n < parts.len()
        invariant
            n <= parts.len(),
            string_views(parts@) == segs,
            accumulated@ == joined_path(segs, n as int),
            views(folders@) == with_folders(start, segs, n as int),
        decreases parts.len() - n,
    {
        let part = &parts[n];
        assert(part@ == segs[n as int]) by {
            assert(string_views(parts@)[n as int] == parts@[n as int]@);
        }
        if accumulated.as_str().is_empty() {
            accumulated = part.clone();
        } else {
            accumulated.append("/");
            accumulated.append(part.as_str());
            proof {
                reveal_strlit("/");
                assert("/"@ =~= seq!['/']);
            }
        }
        let mut file = "folders/".to_owned();
        file.append(accumulated.as_str());
        file.append(".yy");
        assert(file@ == folder_file(joined_path(segs, n + 1)));
        if !has_folder_record(folders, &file) {
            let ghost before = views(folders@);
            let record = GMFolder::new(part.as_str(), file.as_str()).to_json();
            assert(record@ == folder_record(part@, file@));
            folders.push(record);
            assert(views(folders@) == before.push(record@));
        }
        n += 1;
    }
}

/// Moves every entry that is not named `name` to the front, in order, and
/// drops the others.
pub fn remove_named(entries: &mut Vec<Json>, name: &String)
    ensures
        views(final(entries)@) == without_named(views(old(entries)@), name@),
{
    let ghost start = views(entries@);
    let ghost mut seen: int = 0;
    let mut i: usize = 0;
    while i < entries.len()
        invariant
            0 <= seen <= start.len(),
            i <= entries.len(),
            entries@.len() - i == start.len() - seen,
            views(entries@).take(i as int) == without_named(start.take(seen), name@),
            views(entries@).skip(i as int) == start.skip(seen),
        decreases entries.len() - i,
    {
        let ghost before = views(entries@);
        proof {
            assert(before[i as int] == before.skip(i as int)[0]);
            assert(start[seen] == start.skip(seen)[0]);
            assert(start.take(seen + 1).drop_last() == start.take(seen));
            assert(start.take(seen + 1).last() == start[seen]);
        }
        let named = match entries[i].get("id") {
            Some(id) => id.text_field_is("name", name),
            None => false,
        };
        assert(named == (resource_name(start[seen]) == Some(name@)));
        if named {
            entries.remove(i);
            proof {
                assert(views(entries@) == before.remove(i as int));
                assert(views(entries@).take(i as int) == before.take(i as int));
                assert(views(entries@).skip(i as int) == before.skip(i as int).skip(1));
                assert(start.skip(seen).skip(1) == start.skip(seen + 1));
            }
        } else {
            proof {
                assert(before.take(i + 1) == before.take(i as int).push(before[i as int]));
                assert(before.skip(i as int).skip(1) == before.skip(i + 1));
                assert(start.skip(seen).skip(1) == start.skip(seen + 1));
            }
            i += 1;
        }
        proof {
            seen = seen + 1;
        }
    }
    proof {
        assert(start.take(start.len() as int) == start);
        assert(views(entries@).take(entries@.len() as int) == views(entries@));
    }
}

/// The array under `key` of an object, for reading and changing in place.
pub fn array_field_mut<'a>(doc: &'a mut Json, key: &str) -> (r: Option<&'a mut Vec<Json>>)
    ensures
        r matches Some(items) ==> old(doc)@.array_field(key@) == Some(views(items@)),
        r matches Some(items) ==> final(doc)@ == old(doc)@.with_field(
            key@,
            JsonView::Array(views(final(items)@)),
        ),
        r is None ==> old(doc)@.array_field(key@) is None,
        r is None ==> *final(doc) == *old(doc),
{
    match doc {
        Json::Object(pairs) => {
            proof {
                lemma_object_view(*pairs);
            }
            match find_member(pairs, key) {
                Some(i) => {
                    let ghost before = *pairs;
                    if !pairs[i].1.is_array() {
                        return None;
                    }
                    let entry = &mut pairs[i];
                    match &mut entry.1 {
                        Json::Array(items) => {
                            proof {
                                lemma_array_view(*items);
                                lemma_array_view(*final(items));
                                let was = member_views(before@);
                                let put = (before@[i as int].0, Json::Array(*final(items)));
                                assert forall|after: Vec<(String, Json)>|
                                    after@ == before@.update(i as int, put) implies #[trigger] Json::Object(
                                    after,
                                )@ == Json::Object(before)@.with_field(
                                    key@,
                                    JsonView::Array(views(final(items)@)),
                                ) by {
                                    lemma_object_view(after);
                                    assert(member_views(after@) =~= was.update(
                                        i as int,
                                        (key@, JsonView::Array(views(final(items)@))),
                                    ));
                                }
                            }
                            Some(items)
                        },
                        _ => None,
                    }
                },
                None => None,
            }
        },
        _ => None,
    }
}

/// Makes sure that the project has a folder record for every folder on the
/// way to `gm_folder_path`: for `A/B/C` those at `A`, `A/B` and `A/B/C`.
/// Records that exist are left alone; missing ones are appended, parent
/// before child.
pub fn ensure_folder_chain(doc: &mut Json, gm_folder_path: &str) -> (r: Result<(), DocumentError>)
    ensures
        match r {
            Ok(_) => {
                let before = old(doc)@;
                &&& before.array_field("Folders"@) is Some
                &&& final(doc)@ == before.with_field(
                    "Folders"@,
                    JsonView::Array(
                        with_folder_chain(before.array_field("Folders"@)->0, gm_folder_path@),
                    ),
                )
            },
            Err(e) => {
                &&& e is MissingFolders
                &&& old(doc)@.array_field("Folders"@) is None
                &&& *final(doc) == *old(doc)
            },
        },
        old(doc).wf() ==> final(doc).wf(),
{
    proof {
        if unique_keys(doc@) && doc@.array_field("Folders"@) is Some {
            lemma_folder_chain_keeps_unique(doc@, gm_folder_path@);
        }
    }
    match array_field_mut(doc, "Folders") {
        Some(folders) => {
            add_folder_chain(folders, gm_folder_path);
            Ok(())
        },
        None => Err(DocumentError::MissingFolders),
    }
}

/// Replaces the project's entry for the resource `name`: every entry of that
/// name is removed and one that points at `path` is appended.
pub fn upsert_resource(doc: &mut Json, name: &str, path: &str) -> (r: Result<(), DocumentError>)
    ensures
        match r {
            Ok(_) => {
                let before = old(doc)@;
                &&& before.array_field("resources"@) is Some
                &&& final(doc)@ == before.with_field(
                    "resources"@,
                    JsonView::Array(
                        upserted(
                            before.array_field("resources"@)->0,
                            name@,
                            resource_record(name@, path@),
                        ),
                    ),
                )
            },
            Err(e) => {
                &&& e is MissingResources
                &&& old(doc)@.array_field("resources"@) is None
                &&& *final(doc) == *old(doc)
            },
        },
        old(doc).wf() ==> final(doc).wf(),
{
    proof {
        if unique_keys(doc@) && doc@.array_field("resources"@) is Some {
            lemma_upsert_keeps_unique(doc@, name@, path@);
        }
    }
    match array_field_mut(doc, "resources") {
        Some(resources) => {
            let wanted = name.to_owned();
            remove_named(resources, &wanted);
            let ghost kept = views(resources@);
            let entry = resource_entry(name, path);
            resources.push(entry);
            assert(views(resources@) == kept.push(resource_record(name@, path@)));
            Ok(())
        },
        None => Err(DocumentError::MissingResources),
    }
}

} // verus!
