//! The scanner: from what a directory holds to the sorted list of its
//! images.

use crate::order::{
    comes_no_later, lemma_name_le_reflexive, lemma_name_le_total, lemma_name_le_transitive,
    lemma_name_order_is_total, name_le, name_order,
};
use crate::text::{chars_of, lowercase, spells, to_lower};
use vstd::prelude::*;
use vstd::relations::sorted_by;
use vstd::seq_lib::{
    lemma_multiset_commutative, lemma_sorted_unique, to_multiset_build, to_multiset_insert,
    to_multiset_remove,
};

verus! {

/// Why a directory could not be listed.
#[derive(Clone, Copy, Debug, PartialEq, Eq, Structural)]
pub enum ScanError {
    /// The directory could not be opened.
    Open,
    /// The directory was opened, but one of its entries could not be read.
    Read,
}

/// One entry of a directory.
#[derive(Debug)]
pub struct Entry {
    /// The entry's file name; `None` where the name is no valid text.
    pub name: Option<String>,
    /// Whether the entry is a regular file.
    pub is_file: bool,
}

/// An entry as text.
pub struct EntryText {
    pub name: Option<Seq<char>>,
    pub is_file: bool,
}

impl View for Entry {
    type V = EntryText;

    open spec fn view(&self) -> EntryText {
        EntryText {
            name: match self.name {
                Some(name) => Some(name@),
                None => None,
            },
            is_file: self.is_file,
        }
    }
}

/// What was read of a directory, as text.
pub open spec fn read_as(scan: Result<Vec<Entry>, ScanError>) -> Result<Seq<EntryText>, ScanError> {
    match scan {
        Ok(entries) => Ok(entries@.map_values(|entry: Entry| entry@)),
        Err(e) => Err(e),
    }
}

/// The place of the last `.` in `name`, and `-1` where it has none.
pub open spec fn last_dot(name: Seq<char>) -> int
    decreases name.len(),
{
    if name.len() == 0 {
        -1
    } else if name.last() == '.' {
        name.len() - 1
    } else {
        last_dot(name.drop_last())
    }
}

/// The extension of the file name `name`: what follows its last `.`. A name
/// without `.`, or whose only `.` is its first character, has none.
pub open spec fn extension(name: Seq<char>) -> Option<Seq<char>> {
    let dot = last_dot(name);
    if dot <= 0 {
        None
    } else {
        Some(name.skip(dot + 1))
    }
}

/// The extensions of the images, in lower case.
pub open spec fn allowed_extension(ext: Seq<char>) -> bool {
    ext == "jpg"@ || ext == "jpeg"@ || ext == "png"@ || ext == "gif"@ || ext == "webp"@
}

/// `name` is the name of an image: it has an extension which, in ASCII
/// lower case, is one of the allowed ones.
pub open spec fn is_image_name(name: Seq<char>) -> bool {
    match extension(name) {
        Some(ext) => allowed_extension(lowercase(ext)),
        None => false,
    }
}

/// `entry` is an image: a regular file whose name is text and is the name of
/// an image.
pub open spec fn is_image(entry: EntryText) -> bool {
    entry.is_file && entry.name is Some && is_image_name(entry.name.unwrap())
}

/// The names of the images among `entries`, in the order of the entries.
pub open spec fn image_names(entries: Seq<EntryText>) -> Seq<Seq<char>>
    decreases entries.len(),
{
    if entries.len() == 0 {
        Seq::empty()
    } else if is_image(entries.last()) {
        image_names(entries.drop_last()).push(entries.last().name.unwrap())
    } else {
        image_names(entries.drop_last())
    }
}

/// The list of images of a directory that holds `entries`: the names of its
/// images, sorted.
pub open spec fn listed(entries: Seq<EntryText>) -> Seq<Seq<char>> {
    image_names(entries).sort_by(name_order())
}

/// The list of images of a directory read as `scan`, and the error of the
/// reading where it could not be read.
pub open spec fn listing(scan: Result<Seq<EntryText>, ScanError>) -> Result<
    Seq<Seq<char>>,
    ScanError,
> {
    match scan {
        Ok(entries) => Ok(listed(entries)),
        Err(e) => Err(e),
    }
}

/// The text of each of `names`.
pub open spec fn texts(names: Seq<String>) -> Seq<Seq<char>> {
    names.map_values(|name: String| name@)
}

/// Whether `name` is the name of an image.
pub fn has_image_extension(name: &str) -> (image: bool)
    ensures
        image == is_image_name(name@),
{
    let chars = chars_of(name);
    let mut start: usize = chars.len();
    assert(chars@.take(start as int) == chars@);
    while start > 0 && chars[start - 1] != '.'
        invariant
            start <= chars@.len(),
            last_dot(chars@) == last_dot(chars@.take(start as int)),
        decreases start,
    {
        assert(chars@.take(start as int).drop_last() == chars@.take(start - 1));
        start -= 1;
    }
    if start <= 1 {
        return false;
    }
    let mut ext: Vec<char> = Vec::new();
    let mut i: usize = start;
    while i < chars.len()
        invariant
            start <= i <= chars@.len(),
            ext@ == lowercase(chars@.subrange(start as int, i as int)),
        decreases chars@.len() - i,
    {
        ext.push(to_lower(chars[i]));
        assert(chars@.subrange(start as int, i + 1) == chars@.subrange(start as int, i as int).push(
            chars@[i as int],
        ));
        i += 1;
    }
    assert(chars@.subrange(start as int, chars@.len() as int) == chars@.skip(start as int));
    spells(&ext, "jpg") || spells(&ext, "jpeg") || spells(&ext, "png") || spells(&ext, "gif")
        || spells(&ext, "webp")
}

/// Puts `name` into the sorted list `names`, at its place.
fn insert_in_order(names: &mut Vec<String>, name: String)
    requires
        sorted_by(texts(old(names)@), name_order()),
    ensures
        sorted_by(texts(final(names)@), name_order()),
        texts(final(names)@).to_multiset() == texts(old(names)@).to_multiset().insert(name@),
{
    let ghost before = texts(names@);
    let mut at: usize = 0;
    while at < names.len() && comes_no_later(names[at].as_str(), name.as_str())
        invariant
            at <= names@.len(),
            texts(names@) == before,
            forall|j: int| 0 <= j < at ==> name_le(before[j], name@),
        decreases names@.len() - at,
    {
        at += 1;
    }
    proof {
        assert forall|j: int| at <= j < before.len() implies name_le(name@, before[j]) by {
            lemma_name_le_total(before[at as int], name@);
            if at < j {
                assert(name_order()(before[at as int], before[j]));
            } else {
                lemma_name_le_reflexive(before[j]);
            }
            lemma_name_le_transitive(name@, before[at as int], before[j]);
        }
    }
    names.insert(at, name);
    proof {
        let after = texts(names@);
        assert(after =~= before.insert(at as int, name@));
        to_multiset_insert(before, at as int, name@);
        assert forall|i: int, j: int| 0 <= i < j < after.len() implies #[trigger] name_order()(
            after[i],
            after[j],
        ) by {
            if j < at {
                assert(name_order()(before[i], before[j]));
            } else if i > at {
                assert(name_order()(before[i - 1], before[j - 1]));
            } else if i < at && j > at {
                assert(name_order()(before[i], before[j - 1]));
            }
        }
    }
}

/// The images of a directory: of the entries that were read, the names of
/// the regular files with the extension of an image, sorted. A directory that
/// could not be read gives the error of the reading.
pub fn list_images(scan: &Result<Vec<Entry>, ScanError>) -> (images: Result<
    Vec<String>,
    ScanError,
>)
    ensures
        match listing(read_as(*scan)) {
            Ok(listed) => images matches Ok(names) && texts(names@) == listed,
            Err(e) => images == Err::<Vec<String>, ScanError>(e),
        },
        images matches Ok(names) ==> sorted_by(texts(names@), name_order()),
{
    match scan {
        Err(e) => Err(*e),
        Ok(entries) => {
            let ghost read = entries@.map_values(|entry: Entry| entry@);
            let mut names: Vec<String> = Vec::new();
            let mut i: usize = 0;
            assert(texts(names@) =~= Seq::<Seq<char>>::empty());
            assert(read.take(0) =~= Seq::<EntryText>::empty());
            while i < entries.len()
                invariant
                    i <= entries@.len(),
                    sorted_by(texts(names@), name_order()),
                    read == entries@.map_values(|entry: Entry| entry@),
                    texts(names@).to_multiset() == image_names(read.take(i as int)).to_multiset(),
                decreases entries@.len() - i,
            {
                let entry = &entries[i];
                proof {
                    assert(read.take(i + 1).drop_last() == read.take(i as int));
                    assert(read.take(i + 1).last() == entry@);
                }
                if entry.is_file {
                    if let Some(name) = &entry.name {
                        if has_image_extension(name.as_str()) {
                            proof {
                                to_multiset_build(image_names(read.take(i as int)), name@);
                            }
                            insert_in_order(&mut names, name.clone());
                        }
                    }
                }
                i += 1;
            }
            proof {
                assert(read.take(read.len() as int) == read);
                lemma_name_order_is_total();
                image_names(read).lemma_sort_by_ensures(name_order());
                lemma_sorted_unique(texts(names@), listed(read), name_order());
            }
            Ok(names)
        },
    }
}

/// The name of each of `entries`.
pub open spec fn entry_names(entries: Seq<EntryText>) -> Seq<Seq<char>> {
    entries.map_values(|entry: EntryText| entry.name.unwrap())
}

/// The names of the images of two runs of entries, one after the other,
/// are those of the first run followed by those of the second.
pub proof fn lemma_image_names_concat(a: Seq<EntryText>, b: Seq<EntryText>)
    ensures
        image_names(a + b) == image_names(a) + image_names(b),
    decreases b.len(),
{
    if b.len() == 0 {
        assert(a + b =~= a);
        assert(image_names(a) + image_names(b) =~= image_names(a));
    } else {
        assert((a + b).drop_last() =~= a + b.drop_last());
        lemma_image_names_concat(a, b.drop_last());
        assert(image_names(a + b) =~= image_names(a) + image_names(b));
    }
}

/// Each name among the names of the images is the name of an entry that is
/// an image.
pub proof fn lemma_image_names_are_of_images(entries: Seq<EntryText>, name: Seq<char>)
    requires
        image_names(entries).contains(name),
    ensures
        exists|i: int|
            0 <= i < entries.len() && is_image(#[trigger] entries[i]) && entries[i].name == Some(
                name,
            ),
    decreases entries.len(),
{
    let k = choose|k: int| 0 <= k < image_names(entries).len() && image_names(entries)[k] == name;
    let rest = entries.drop_last();
    if is_image(entries.last()) && k == image_names(rest).len() {
        assert(entries[entries.len() - 1].name == Some(name));
    } else {
        assert(image_names(rest)[k] == name);
        lemma_image_names_are_of_images(rest, name);
        let i = choose|i: int|
            0 <= i < rest.len() && is_image(#[trigger] rest[i]) && rest[i].name == Some(name);
        assert(entries[i] == rest[i]);
    }
}

/// The list of images is sorted, and holds the name of each image among the
/// entries as often as the entries do: none is left out, none is added, none
/// is doubled.
pub proof fn lemma_listed_is_sorted_selection(entries: Seq<EntryText>)
    ensures
        sorted_by(listed(entries), name_order()),
        listed(entries).to_multiset() == image_names(entries).to_multiset(),
        listed(entries).len() == image_names(entries).len(),
{
    lemma_name_order_is_total();
    image_names(entries).lemma_sort_by_ensures(name_order());
    image_names(entries).to_multiset_ensures();
    listed(entries).to_multiset_ensures();
}

/// Of a directory that holds images only, the list holds every name, as
/// often as the directory does, in sorted order.
pub proof fn lemma_directory_of_images_is_listed_whole(entries: Seq<EntryText>)
    requires
        forall|i: int| 0 <= i < entries.len() ==> is_image(#[trigger] entries[i]),
    ensures
        sorted_by(listed(entries), name_order()),
        listed(entries).to_multiset() == entry_names(entries).to_multiset(),
        listed(entries).len() == entries.len(),
{
    lemma_all_images_are_named(entries);
    lemma_listed_is_sorted_selection(entries);
}

/// Where every entry is an image, the names of the images are the names of
/// the entries.
proof fn lemma_all_images_are_named(entries: Seq<EntryText>)
    requires
        forall|i: int| 0 <= i < entries.len() ==> is_image(#[trigger] entries[i]),
    ensures
        image_names(entries) == entry_names(entries),
    decreases entries.len(),
{
    if entries.len() == 0 {
        assert(image_names(entries) =~= entry_names(entries));
    } else {
        let rest = entries.drop_last();
        assert forall|i: int| 0 <= i < rest.len() implies is_image(#[trigger] rest[i]) by {
            assert(rest[i] == entries[i]);
        }
        lemma_all_images_are_named(rest);
        assert(is_image(entries[entries.len() - 1]));
        assert(image_names(entries) =~= entry_names(entries));
    }
}

/// Each name in the list is the name of an entry that is an image: what is
/// no regular file, has no readable name or has another extension is not
/// listed.
pub proof fn lemma_listed_names_are_of_images(entries: Seq<EntryText>, name: Seq<char>)
    requires
        listed(entries).contains(name),
    ensures
        exists|i: int|
            0 <= i < entries.len() && is_image(#[trigger] entries[i]) && entries[i].name == Some(
                name,
            ),
{
    lemma_listed_is_sorted_selection(entries);
    image_names(entries).to_multiset_ensures();
    listed(entries).to_multiset_ensures();
    assert(listed(entries).to_multiset().count(name) > 0);
    assert(image_names(entries).to_multiset().count(name) > 0);
    lemma_image_names_are_of_images(entries, name);
}

/// The same entries in another order hold the same images, each as often.
pub proof fn lemma_image_names_ignore_order(a: Seq<EntryText>, b: Seq<EntryText>)
    requires
        a.to_multiset() == b.to_multiset(),
    ensures
        image_names(a).to_multiset() == image_names(b).to_multiset(),
    decreases a.len(),
{
    a.to_multiset_ensures();
    b.to_multiset_ensures();
    if a.len() == 0 {
        assert(b.len() == 0);
    } else {
        let last = a.last();
        let rest = a.drop_last();
        assert(a =~= rest.push(last));
        to_multiset_build(rest, last);
        assert(a.contains(last));
        assert(b.to_multiset().count(last) > 0);
        let i = choose|i: int| 0 <= i < b.len() && b[i] == last;
        let others = b.remove(i);
        to_multiset_remove(b, i);
        assert(rest.to_multiset() =~= others.to_multiset());
        lemma_image_names_ignore_order(rest, others);

        let before = b.subrange(0, i);
        let one = seq![last];
        let after = b.subrange(i + 1, b.len() as int);
        assert(b =~= before + one + after);
        assert(others =~= before + after);
        assert(rest + one =~= a);
        lemma_image_names_concat(rest, one);
        lemma_image_names_concat(before, one);
        lemma_image_names_concat(before + one, after);
        lemma_image_names_concat(before, after);
        lemma_multiset_commutative(image_names(rest), image_names(one));
        lemma_multiset_commutative(image_names(before), image_names(one));
        lemma_multiset_commutative(image_names(before) + image_names(one), image_names(after));
        lemma_multiset_commutative(image_names(before), image_names(after));
        assert(image_names(a).to_multiset() =~= image_names(b).to_multiset());
    }
}

/// The list of images does not depend on the order in which the entries
/// were read: the same entries, each as often, give the same list.
pub proof fn lemma_listed_ignores_order(a: Seq<EntryText>, b: Seq<EntryText>)
    requires
        a.to_multiset() == b.to_multiset(),
    ensures
        listed(a) == listed(b),
{
    lemma_image_names_ignore_order(a, b);
    lemma_listed_is_sorted_selection(a);
    lemma_listed_is_sorted_selection(b);
    lemma_name_order_is_total();
    lemma_sorted_unique(listed(a), listed(b), name_order());
}

/// An entry that is no image leaves no trace: the list is the same with it
/// and without it.
pub proof fn lemma_other_entries_are_ignored(entries: Seq<EntryText>, i: int)
    requires
        0 <= i < entries.len(),
        !is_image(entries[i]),
    ensures
        listed(entries.remove(i)) == listed(entries),
{
    let before = entries.subrange(0, i);
    let one = seq![entries[i]];
    let after = entries.subrange(i + 1, entries.len() as int);
    assert(entries =~= before + one + after);
    assert(entries.remove(i) =~= before + after);
    assert(one.drop_last() =~= Seq::<EntryText>::empty());
    assert(image_names(one.drop_last()) =~= Seq::<Seq<char>>::empty());
    assert(image_names(one) =~= Seq::<Seq<char>>::empty());
    lemma_image_names_concat(before, one);
    lemma_image_names_concat(before + one, after);
    lemma_image_names_concat(before, after);
    assert(image_names(entries) =~= image_names(entries.remove(i)));
}

} // verus!
