use vstd::prelude::*;
use vstd::string::StrSliceExecFns;

use crate::lookup::{assoc_first, lemma_assoc_first_found, lemma_assoc_first_none, str_eq};

verus! {

/// The path segment that marks a locale bundle: the prefix before it is
/// the locale identifier, the suffix after it is the resource's logical
/// path within that locale.
pub const LOCALE_MARKER: &'static str = ".lproj/";

#[verifier::external_type_specification]
#[verifier::external_body]
#[verifier::reject_recursive_types(R)]
pub struct ExZipArchive<R>(zip::ZipArchive<R>);

#[verifier::external_type_specification]
#[verifier::external_body]
#[verifier::reject_recursive_types(T)]
pub struct ExCursor<T>(std::io::Cursor<T>);

/// The byte source over which an in-memory archive was opened.
pub uninterp spec fn archive_source(a: zip::ZipArchive<std::io::Cursor<Vec<u8>>>) -> Seq<u8>;

/// The entry list that the zip crate reads from a byte sequence: `None`
/// when the bytes are not an archive it accepts; otherwise one pair per
/// distinct entry name, in the order names first appear in the central
/// directory (a later entry of the same name replaces the earlier
/// content), holding the name and the decompressed content (`None` for
/// an entry whose content cannot be read). The outcome depends on the
/// bytes alone.
pub uninterp spec fn zip_entries_of(bytes: Seq<u8>) -> Option<
    Seq<(Seq<char>, Option<Seq<u8>>)>,
>;

/// Relies on zip::ZipArchive::new over an in-memory cursor: parses the
/// archive's central directory, failing exactly when the bytes are not
/// a readable archive.
#[verifier::external_body]
fn zip_open(bytes: &Vec<u8>) -> (r: Option<zip::ZipArchive<std::io::Cursor<Vec<u8>>>>)
    ensures
        r is Some <==> zip_entries_of(bytes@) is Some,
        r matches Some(a) ==> archive_source(a) == bytes@,
{
    zip::ZipArchive::new(std::io::Cursor::new(bytes.clone())).ok()
}

/// Relies on zip::ZipArchive::len: the number of entries the central
/// directory lists.
#[verifier::external_body]
fn zip_len(a: &zip::ZipArchive<std::io::Cursor<Vec<u8>>>) -> (n: usize)
    requires
        zip_entries_of(archive_source(*a)) is Some,
    ensures
        n == zip_entries_of(archive_source(*a)).unwrap().len(),
{
    a.len()
}

/// Relies on zip::ZipArchive::by_index and std::io::Read::read_to_end:
/// yields the indexed entry's name and full decompressed content,
/// failing exactly when that content cannot be read.
#[verifier::external_body]
fn zip_entry(a: &mut zip::ZipArchive<std::io::Cursor<Vec<u8>>>, i: usize) -> (r: Option<
    (String, Vec<u8>),
>)
    requires
        zip_entries_of(archive_source(*old(a))) matches Some(es) && i < es.len(),
    ensures
        archive_source(*final(a)) == archive_source(*old(a)),
        ({
            let es = zip_entries_of(archive_source(*old(a))).unwrap();
            match r {
                Some(p) => es[i as int].0 == p.0@ && es[i as int].1 == Some(p.1@),
                None => es[i as int].1 is None,
            }
        }),
{
    let mut file = match a.by_index(i) {
        Ok(f) => f,
        Err(_) => return None,
    };
    let name = file.name().to_owned();
    let mut data = Vec::new();
    match std::io::Read::read_to_end(&mut file, &mut data) {
        Ok(_) => Some((name, data)),
        Err(_) => None,
    }
}

/// The marker occurs in `name` at position `i`.
pub open spec fn marker_at(name: Seq<char>, marker: Seq<char>, i: int) -> bool {
    0 <= i && i + marker.len() <= name.len() && name.subrange(i, i + marker.len()) == marker
}

/// The first position at or after `i` where the marker occurs.
pub open spec fn first_marker_from(name: Seq<char>, marker: Seq<char>, i: int) -> Option<int>
    decreases name.len() + 1 - i,
{
    if i < 0 || i + marker.len() > name.len() {
        None
    } else if marker_at(name, marker, i) {
        Some(i)
    } else {
        first_marker_from(name, marker, i + 1)
    }
}

/// Splits an entry name at the first locale-bundle marker into the
/// locale identifier and the resource path; `None` when the name holds
/// no marker and so belongs to no locale bundle.
pub open spec fn spec_marker_split(name: Seq<char>) -> Option<(Seq<char>, Seq<char>)> {
    match first_marker_from(name, LOCALE_MARKER@, 0) {
        Some(i) => Some(
            (name.subrange(0, i), name.subrange(i + LOCALE_MARKER@.len(), name.len() as int)),
        ),
        None => None,
    }
}

/// The marker occurs exactly at `i`, checked character by character.
fn match_at(name: &str, marker: &str, i: usize, name_len: usize, marker_len: usize) -> (r: bool)
    requires
        name_len == name@.len(),
        marker_len == marker@.len(),
        i + marker_len <= name_len,
    ensures
        r == marker_at(name@, marker@, i as int),
{
    let mut j: usize = 0;
    while j < marker_len
        invariant
            name_len == name@.len(),
            marker_len == marker@.len(),
            i + marker_len <= name_len,
            j <= marker_len,
            forall|k: int| 0 <= k < j ==> name@[i + k] == marker@[k],
        decreases marker_len - j,
    {
        if name.get_char(i + j) != marker.get_char(j) {
            assert(name@.subrange(i as int, i + marker@.len())[j as int] != marker@[j as int]);
            return false;
        }
        j += 1;
    }
    assert(name@.subrange(i as int, i + marker@.len()) =~= marker@);
    true
}

/// A prefix with no occurrence does not change the first occurrence.
proof fn lemma_first_marker_skip(name: Seq<char>, marker: Seq<char>, i: int)
    requires
        0 <= i,
        forall|k: int| 0 <= k < i ==> !marker_at(name, marker, k),
    ensures
        first_marker_from(name, marker, 0) == first_marker_from(name, marker, i),
    decreases i,
{
    if i > 0 {
        lemma_first_marker_skip(name, marker, i - 1);
    }
}

/// Finds the first occurrence of the locale marker in `name`.
fn find_marker(name: &str) -> (r: Option<usize>)
    ensures
        match r {
            Some(i) => first_marker_from(name@, LOCALE_MARKER@, 0) == Some(i as int),
            None => first_marker_from(name@, LOCALE_MARKER@, 0) is None,
        },
{
    proof {
        reveal_strlit(".lproj/");
    }
    let n = name.unicode_len();
    let m = LOCALE_MARKER.unicode_len();
    if m > n {
        return None;
    }
    let mut i: usize = 0;
    while i <= n - m
        invariant
            n == name@.len(),
            m == LOCALE_MARKER@.len(),
            1 <= m <= n,
            i <= n - m + 1,
            forall|k: int| 0 <= k < i ==> !marker_at(name@, LOCALE_MARKER@, k),
        decreases n - i,
    {
        if match_at(name, LOCALE_MARKER, i, n, m) {
            proof {
                lemma_first_marker_skip(name@, LOCALE_MARKER@, i as int);
            }
            return Some(i);
        }
        i += 1;
    }
    proof {
        lemma_first_marker_skip(name@, LOCALE_MARKER@, (n - m + 1) as int);
    }
    None
}

/// Splits an entry name at the first locale-bundle marker.
pub fn split_entry_name(name: &str) -> (r: Option<(String, String)>)
    ensures
        match r {
            Some(p) => spec_marker_split(name@) == Some((p.0@, p.1@)),
            None => spec_marker_split(name@) is None,
        },
{
    let i = match find_marker(name) {
        Some(i) => i,
        None => {
            return None;
        },
    };
    let n = name.unicode_len();
    let m = LOCALE_MARKER.unicode_len();
    assert(marker_at(name@, LOCALE_MARKER@, i as int)) by {
        assert(first_marker_from(name@, LOCALE_MARKER@, 0) == Some(i as int));
        lemma_first_marker_found_is_at(name@, LOCALE_MARKER@, 0, i as int);
    }
    let lang = name.substring_char(0, i).to_owned();
    let path = name.substring_char(i + m, n).to_owned();
    Some((lang, path))
}

/// A found first occurrence is an occurrence.
proof fn lemma_first_marker_found_is_at(name: Seq<char>, marker: Seq<char>, i: int, f: int)
    requires
        first_marker_from(name, marker, i) == Some(f),
    ensures
        marker_at(name, marker, f),
        i <= f,
    decreases name.len() + 1 - i,
{
    if !(i < 0 || i + marker.len() > name.len()) && !marker_at(name, marker, i) {
        lemma_first_marker_found_is_at(name, marker, i + 1, f);
    }
}

/// Why a container cannot be opened.
#[derive(Debug, Clone, Copy, PartialEq, Eq, Structural)]
pub enum ContainerError {
    /// The bytes are not a readable archive.
    Unreadable,
    /// The entry at this index cannot be read in full.
    EntryUnreadable(usize),
}

/// An opened container: every archive entry by path, plus the derived
/// locale map grouping the resources of each locale bundle.
#[derive(Debug)]
pub struct Container {
    /// Every entry of the archive, in archive order: path and content.
    pub entries: Vec<(String, Vec<u8>)>,
    /// One pair per locale identifier, each with that locale's
    /// resources (logical path and content) in entry order.
    pub locales: Vec<(String, Vec<(String, Vec<u8>)>)>,
}

/// The character/byte views of a path-to-content list.
pub open spec fn entry_views(entries: Seq<(String, Vec<u8>)>) -> Seq<(Seq<char>, Seq<u8>)> {
    Seq::new(entries.len(), |i: int| (entries[i].0@, entries[i].1@))
}

/// The locale identifier of an entry, when its path holds the marker.
pub open spec fn lang_of(ev: (Seq<char>, Seq<u8>)) -> Option<Seq<char>> {
    match spec_marker_split(ev.0) {
        Some(sp) => Some(sp.0),
        None => None,
    }
}

/// The resources of one locale, in entry order: for every entry whose
/// path splits into this locale, its resource path and content.
pub open spec fn locale_resources(evs: Seq<(Seq<char>, Seq<u8>)>, lang: Seq<char>) -> Seq<
    (Seq<char>, Seq<u8>),
>
    decreases evs.len(),
{
    if evs.len() == 0 {
        Seq::empty()
    } else {
        let init = locale_resources(evs.drop_last(), lang);
        match spec_marker_split(evs.last().0) {
            Some(sp) => if sp.0 == lang {
                init.push((sp.1, evs.last().1))
            } else {
                init
            },
            None => init,
        }
    }
}

/// The derived locale map is exactly the locale-bundle grouping of the
/// entry list: locales are distinct, each maps to precisely its
/// resources, and a locale is present if and only if some entry path
/// splits into it.
/// Some entry path splits into locale `lang`.
pub open spec fn lang_present(evs: Seq<(Seq<char>, Seq<u8>)>, lang: Seq<char>) -> bool {
    exists|e: int| 0 <= e < evs.len() && lang_of(#[trigger] evs[e]) == Some(lang)
}

/// The locale map lists `lang`.
pub open spec fn lang_listed(
    locales: Seq<(String, Vec<(String, Vec<u8>)>)>,
    lang: Seq<char>,
) -> bool {
    exists|i: int| 0 <= i < locales.len() && #[trigger] locales[i].0@ == lang
}

pub open spec fn locales_wf(
    evs: Seq<(Seq<char>, Seq<u8>)>,
    locales: Seq<(String, Vec<(String, Vec<u8>)>)>,
) -> bool {
    &&& forall|i: int, j: int| 0 <= i < j < locales.len() ==> locales[i].0@ != locales[j].0@
    &&& forall|i: int|
        0 <= i < locales.len() ==> entry_views(#[trigger] locales[i].1@) == locale_resources(
            evs,
            locales[i].0@,
        )
    &&& forall|i: int| 0 <= i < locales.len() ==> lang_present(evs, #[trigger] locales[i].0@)
    &&& forall|e: int|
        0 <= e < evs.len() && lang_of(#[trigger] evs[e]) is Some ==> lang_listed(
            locales,
            lang_of(evs[e]).unwrap(),
        )
}

/// Copies a byte vector.
fn copy_bytes(src: &Vec<u8>) -> (r: Vec<u8>)
    ensures
        r@ == src@,
{
    let mut out: Vec<u8> = Vec::new();
    let n = src.len();
    let mut i: usize = 0;
    while i < n
        invariant
            n == src.len(),
            i <= n,
            out@ == src@.take(i as int),
        decreases n - i,
    {
        out.push(src[i]);
        assert(out@ =~= src@.take(i + 1));
        i += 1;
    }
    assert(src@.take(n as int) =~= src@);
    out
}

/// Collects the resources of one locale out of the entry list.
fn collect_locale(entries: &Vec<(String, Vec<u8>)>, lang: &str) -> (r: Vec<(String, Vec<u8>)>)
    ensures
        entry_views(r@) == locale_resources(entry_views(entries@), lang@),
{
    let n = entries.len();
    let mut out: Vec<(String, Vec<u8>)> = Vec::new();
    let mut e: usize = 0;
    while e < n
        invariant
            n == entries.len(),
            e <= n,
            entry_views(out@) == locale_resources(entry_views(entries@).take(e as int), lang@),
        decreases n - e,
    {
        let ghost evs = entry_views(entries@);
        proof {
            assert(evs.take(e + 1).drop_last() =~= evs.take(e as int));
            assert(evs.take(e + 1).last() == evs[e as int]);
        }
        match split_entry_name(entries[e].0.as_str()) {
            Some(p) => {
                if str_eq(p.0.as_str(), lang) {
                    let data = copy_bytes(&entries[e].1);
                    out.push((p.1, data));
                    proof {
                        assert(entry_views(out@) =~= locale_resources(
                            evs.take(e + 1),
                            lang@,
                        ));
                    }
                } else {
                    assert(entry_views(out@) == locale_resources(evs.take(e + 1), lang@));
                }
            },
            None => {
                assert(entry_views(out@) == locale_resources(evs.take(e + 1), lang@));
            },
        }
        e += 1;
    }
    proof {
        assert(entry_views(entries@).take(n as int) =~= entry_views(entries@));
    }
    out
}

/// Whether the locale map already holds `lang`.
fn contains_lang(locales: &Vec<(String, Vec<(String, Vec<u8>)>)>, lang: &str) -> (r: bool)
    ensures
        r == lang_listed(locales@, lang@),
{
    let n = locales.len();
    let mut i: usize = 0;
    while i < n
        invariant
            n == locales.len(),
            i <= n,
            forall|j: int| 0 <= j < i ==> #[trigger] locales@[j].0@ != lang@,
        decreases n - i,
    {
        if str_eq(locales[i].0.as_str(), lang) {
            proof {
                assert(0 <= i < locales@.len() && locales@[i as int].0@ == lang@);
            }
            return true;
        }
        i += 1;
    }
    false
}

impl Container {
    /// Builds the container from an already-read entry list: keeps the
    /// flat entry map as given and derives the locale-bundle map, with
    /// locales in order of first appearance.
    pub fn from_entries(entries: Vec<(String, Vec<u8>)>) -> (c: Container)
        ensures
            c.entries@ == entries@,
            locales_wf(entry_views(entries@), c.locales@),
    {
        let ghost evs = entry_views(entries@);
        let n = entries.len();
        let mut locales: Vec<(String, Vec<(String, Vec<u8>)>)> = Vec::new();
        let mut e: usize = 0;
        while e < n
            invariant
                n == entries.len(),
                e <= n,
                evs == entry_views(entries@),
                forall|i: int, j: int| 0 <= i < j < locales@.len() ==> locales@[i].0@ != locales@[j].0@,
                forall|i: int|
                    0 <= i < locales@.len() ==> entry_views(#[trigger] locales@[i].1@)
                        == locale_resources(evs, locales@[i].0@),
                forall|i: int|
                    0 <= i < locales@.len() ==> lang_present(evs, #[trigger] locales@[i].0@),
                forall|k: int|
                    0 <= k < e && lang_of(#[trigger] evs[k]) is Some ==> lang_listed(
                        locales@,
                        lang_of(evs[k]).unwrap(),
                    ),
            decreases n - e,
        {
            proof {
                assert(evs[e as int] == (entries@[e as int].0@, entries@[e as int].1@));
            }
            match split_entry_name(entries[e].0.as_str()) {
                Some(p) => {
                    let ghost lang_view = p.0@;
                    proof {
                        assert(lang_of(evs[e as int]) == Some(lang_view));
                    }
                    if !contains_lang(&locales, p.0.as_str()) {
                        let res = collect_locale(&entries, p.0.as_str());
                        let ghost prev = locales@;
                        locales.push((p.0, res));
                        proof {
                            let last = locales@.len() - 1;
                            assert(locales@[last].0@ == lang_view);
                            assert(forall|i: int| 0 <= i < last ==> locales@[i] == prev[i]);
                            assert forall|i: int, j: int|
                                0 <= i < j < locales@.len() implies locales@[i].0@
                                != locales@[j].0@ by {
                                if j == last {
                                    assert(locales@[i] == prev[i]);
                                    if locales@[i].0@ == lang_view {
                                        assert(0 <= i < prev.len() && prev[i].0@ == lang_view);
                                        assert(lang_listed(prev, lang_view));
                                    }
                                } else {
                                    assert(locales@[i] == prev[i]);
                                    assert(locales@[j] == prev[j]);
                                }
                            }
                            assert forall|i: int|
                                0 <= i < locales@.len() implies entry_views(
                                #[trigger] locales@[i].1@,
                            ) == locale_resources(evs, locales@[i].0@) by {
                                if i < last {
                                    assert(locales@[i] == prev[i]);
                                    assert(entry_views(prev[i].1@) == locale_resources(
                                        evs,
                                        prev[i].0@,
                                    ));
                                }
                            }
                            assert forall|i: int|
                                0 <= i < locales@.len() implies lang_present(
                                evs,
                                #[trigger] locales@[i].0@,
                            ) by {
                                if i < last {
                                    assert(locales@[i] == prev[i]);
                                    assert(lang_present(evs, prev[i].0@));
                                } else {
                                    assert(0 <= e < evs.len() && lang_of(evs[e as int]) == Some(
                                        lang_view,
                                    ));
                                }
                            }
                            assert forall|k: int|
                                0 <= k < e + 1 && lang_of(#[trigger] evs[k]) is Some implies
                                lang_listed(locales@, lang_of(evs[k]).unwrap()) by {
                                if k == e {
                                    assert(0 <= last < locales@.len() && locales@[last].0@
                                        == lang_of(evs[k]).unwrap());
                                } else {
                                    assert(lang_listed(prev, lang_of(evs[k]).unwrap()));
                                    let w = choose|i: int|
                                        0 <= i < prev.len() && #[trigger] prev[i].0@ == lang_of(
                                            evs[k],
                                        ).unwrap();
                                    assert(locales@[w] == prev[w]);
                                    assert(0 <= w < locales@.len() && locales@[w].0@ == lang_of(
                                        evs[k],
                                    ).unwrap());
                                }
                            }
                        }
                    } else {
                        proof {
                            assert(lang_listed(locales@, lang_view));
                            assert forall|k: int|
                                0 <= k < e + 1 && lang_of(#[trigger] evs[k]) is Some implies
                                lang_listed(locales@, lang_of(evs[k]).unwrap()) by {
                                if k == e {
                                    assert(lang_of(evs[k]).unwrap() == lang_view);
                                }
                            }
                        }
                    }
                },
                None => {
                    proof {
                        assert(lang_of(evs[e as int]) is None);
                    }
                },
            }
            e += 1;
        }
        Container { entries, locales }
    }

    /// The content of the first entry stored under `path`, if any.
    pub fn entry_data<'a>(&'a self, path: &str) -> (r: Option<&'a Vec<u8>>)
        ensures
            match r {
                Some(d) => assoc_first(entry_views(self.entries@), path@) == Some(d@),
                None => assoc_first(entry_views(self.entries@), path@) is None,
            },
    {
        let n = self.entries.len();
        let mut i: usize = 0;
        while i < n
            invariant
                n == self.entries.len(),
                i <= n,
                forall|j: int| 0 <= j < i ==> self.entries@[j].0@ != path@,
            decreases n - i,
        {
            if str_eq(self.entries[i].0.as_str(), path) {
                proof {
                    lemma_assoc_first_found(entry_views(self.entries@), path@, i as int);
                }
                return Some(&self.entries[i].1);
            }
            i += 1;
        }
        proof {
            lemma_assoc_first_none(entry_views(self.entries@), path@);
        }
        None
    }
}

/// Reads a container out of archive bytes: opens the archive, reads
/// every entry in full, and derives the locale map. An unreadable
/// entry is named by its index.
pub fn read_container(bytes: &Vec<u8>) -> (r: Result<Container, ContainerError>)
    ensures
        match r {
            Ok(c) => zip_entries_of(bytes@) matches Some(es) && es.len() == c.entries@.len()
                && (forall|i: int|
                0 <= i < es.len() ==> #[trigger] es[i] == (
                    c.entries@[i].0@,
                    Some(c.entries@[i].1@),
                )) && locales_wf(entry_views(c.entries@), c.locales@),
            Err(bad) => match bad {
                ContainerError::Unreadable => zip_entries_of(bytes@) is None,
                ContainerError::EntryUnreadable(k) => zip_entries_of(bytes@) matches Some(es)
                    && k < es.len() && es[k as int].1 is None && (forall|j: int|
                    0 <= j < k ==> (#[trigger] es[j]).1 is Some),
            },
        },
{
    let ghost bs = bytes@;
    let mut archive = match zip_open(bytes) {
        Some(a) => a,
        None => {
            return Err(ContainerError::Unreadable);
        },
    };
    let n = zip_len(&archive);
    let ghost es = zip_entries_of(bs).unwrap();
    let mut entries: Vec<(String, Vec<u8>)> = Vec::new();
    let mut i: usize = 0;
    while i < n
        invariant
            bs == bytes@,
            archive_source(archive) == bs,
            zip_entries_of(bs) == Some(es),
            n == es.len(),
            i <= n,
            entries@.len() == i,
            forall|j: int|
                0 <= j < i ==> #[trigger] es[j] == (entries@[j].0@, Some(entries@[j].1@)),
        decreases n - i,
    {
        match zip_entry(&mut archive, i) {
            Some(p) => {
                entries.push(p);
            },
            None => {
                proof {
                    assert(es[i as int].1 is None);
                    assert(forall|j: int| 0 <= j < i ==> (#[trigger] es[j]).1 is Some);
                }
                return Err(ContainerError::EntryUnreadable(i));
            },
        }
        i += 1;
    }
    Ok(Container::from_entries(entries))
}

} // verus!
