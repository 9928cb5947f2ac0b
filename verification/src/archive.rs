//! The archive multiplexer: resolves a logical file name to its content by
//! searching a sequence of opened ZIP archives, each with an ordered list of
//! internal path prefixes, in declared order — first match wins.
//!
//! An archive is modeled as a map from entry name to the entry's
//! decompressed content; the ZIP container itself is handled by the `zip`
//! crate behind trusted wrappers, and every entry is read eagerly into an
//! owned buffer.

use vstd::prelude::*;
use vstd::string::StringExecFns;

use crate::errors::Error;

verus! {

#[verifier::external_type_specification]
#[verifier::external_body]
#[verifier::reject_recursive_types(R)]
pub struct ExZipArchive<R>(zip::ZipArchive<R>);

#[verifier::external_type_specification]
#[verifier::external_body]
#[verifier::reject_recursive_types(T)]
pub struct ExCursor<T>(std::io::Cursor<T>);

/// What an opened archive holds: each entry name mapped to the entry's
/// decompressed content, for the entries whose content decompresses without
/// error.
pub uninterp spec fn archive_entries(
    a: zip::ZipArchive<std::io::Cursor<Vec<u8>>>,
) -> Map<Seq<char>, Seq<u8>>;

/// What opening a byte string as a ZIP archive yields: its entry map, or
/// nothing when the bytes are not a valid ZIP container. Opening depends on
/// the bytes alone.
pub uninterp spec fn zip_entries(bytes: Seq<u8>) -> Option<Map<Seq<char>, Seq<u8>>>;

/// Relies on zip::ZipArchive::new over an in-memory cursor: it succeeds
/// exactly when the bytes hold a readable ZIP central directory, and the
/// resulting archive's entries are a function of the bytes alone.
#[verifier::external_body]
fn open_archive(bytes: Vec<u8>) -> (r: Option<zip::ZipArchive<std::io::Cursor<Vec<u8>>>>)
    ensures
        r is Some <==> zip_entries(bytes@) is Some,
        r matches Some(a) ==> zip_entries(bytes@) == Some(archive_entries(a)),
{
    zip::ZipArchive::new(std::io::Cursor::new(bytes)).ok()
}

/// Relies on zip::ZipArchive::by_name (an exact lookup of the full entry
/// name) and on reading the returned entry to its end: `Some` is the entry's
/// complete decompressed content, and reading moves only the reader's cursor,
/// never the set of entries.
#[verifier::external_body]
fn read_at(
    archives: &mut Vec<(zip::ZipArchive<std::io::Cursor<Vec<u8>>>, Vec<String>)>,
    i: usize,
    key: &str,
) -> (r: Option<Vec<u8>>)
    requires
        i < old(archives)@.len(),
    ensures
        final(archives)@.len() == old(archives)@.len(),
        forall|t: int|
            0 <= t < old(archives)@.len() && t != i ==> final(archives)@[t] == old(archives)@[t],
        final(archives)@[i as int].1 == old(archives)@[i as int].1,
        archive_entries(final(archives)@[i as int].0) == archive_entries(
            old(archives)@[i as int].0,
        ),
        match r {
            Some(v) => archive_entries(old(archives)@[i as int].0).contains_key(key@) && v@
                == archive_entries(old(archives)@[i as int].0)[key@],
            None => !archive_entries(old(archives)@[i as int].0).contains_key(key@),
        },
{
    let archive = &mut archives[i].0;
    match archive.by_name(key) {
        Ok(mut entry) => {
            let mut content: Vec<u8> = Vec::new();
            match std::io::Read::read_to_end(&mut entry, &mut content) {
                Ok(_) => Some(content),
                Err(_) => None,
            }
        },
        Err(_) => None,
    }
}

/// The internal entry name searched for a prefix and a logical name:
/// `prefix/name`.
pub open spec fn full_name(prefix: Seq<char>, name: Seq<char>) -> Seq<char> {
    prefix + seq!['/'] + name
}

/// The first match for `name` among the prefixes of one archive, starting at
/// prefix `j`.
pub open spec fn find_in_from(
    entries: Map<Seq<char>, Seq<u8>>,
    prefixes: Seq<Seq<char>>,
    j: int,
    name: Seq<char>,
) -> Option<Seq<u8>>
    decreases prefixes.len() - j,
{
    if j < 0 || j >= prefixes.len() {
        None
    } else if entries.contains_key(full_name(prefixes[j], name)) {
        Some(entries[full_name(prefixes[j], name)])
    } else {
        find_in_from(entries, prefixes, j + 1, name)
    }
}

/// The first match for `name` over the archives, in declared order, starting
/// at archive `i`: for each archive every prefix is tried in order before
/// the next archive is searched.
pub open spec fn find_from(
    view: Seq<(Map<Seq<char>, Seq<u8>>, Seq<Seq<char>>)>,
    i: int,
    name: Seq<char>,
) -> Option<Seq<u8>>
    decreases view.len() - i,
{
    if i < 0 || i >= view.len() {
        None
    } else {
        match find_in_from(view[i].0, view[i].1, 0, name) {
            Some(content) => Some(content),
            None => find_from(view, i + 1, name),
        }
    }
}

/// The content `find` resolves a logical name to: the first (archive,
/// prefix) pair, in declared order, whose archive holds `prefix/name`.
pub open spec fn find_spec(
    view: Seq<(Map<Seq<char>, Seq<u8>>, Seq<Seq<char>>)>,
    name: Seq<char>,
) -> Option<Seq<u8>> {
    find_from(view, 0, name)
}

/// A collection of opened archives, each tagged with the ordered list of
/// internal path prefixes to search.
pub struct Multiplexer {
    pub archives: Vec<(zip::ZipArchive<std::io::Cursor<Vec<u8>>>, Vec<String>)>,
}

impl View for Multiplexer {
    type V = Seq<(Map<Seq<char>, Seq<u8>>, Seq<Seq<char>>)>;

    /// Each opened archive as (entry map, prefix list), in declared order.
    open spec fn view(&self) -> Seq<(Map<Seq<char>, Seq<u8>>, Seq<Seq<char>>)> {
        self.archives@.map(
            |t: int, e: (zip::ZipArchive<std::io::Cursor<Vec<u8>>>, Vec<String>)|
                (archive_entries(e.0), e.1.deep_view()),
        )
    }
}

impl Multiplexer {
    /// Opens every named archive from its raw bytes, in order — all or
    /// nothing. Fails with `ArchiveOpen`, naming the first offending file,
    /// when some bytes are not a valid ZIP container.
    pub fn open(sources: Vec<(String, Vec<u8>, Vec<String>)>) -> (r: Result<Multiplexer, Error>)
        ensures
            match r {
                Ok(m) => {
                    &&& m@.len() == sources@.len()
                    &&& forall|t: int|
                        0 <= t < sources@.len() ==> zip_entries((#[trigger] sources@[t]).1@)
                            == Some(m@[t].0)
                    &&& forall|t: int|
                        0 <= t < sources@.len() ==> (#[trigger] m@[t]).1
                            == sources@[t].2.deep_view()
                },
                Err(e) => {
                    &&& e matches Error::ArchiveOpen(n)
                    &&& exists|t: int|
                        0 <= t < sources@.len() && zip_entries((#[trigger] sources@[t]).1@)
                            is None && n@ == sources@[t].0@ && (forall|u: int|
                            0 <= u < t ==> zip_entries((#[trigger] sources@[u]).1@) is Some)
                },
            },
    {
        let ghost src0 = sources@;
        let mut rest = sources;
        let mut opened: Vec<(zip::ZipArchive<std::io::Cursor<Vec<u8>>>, Vec<String>)> =
            Vec::new();
        while rest.len() > 0
            invariant
                src0 == sources@,
                opened@.len() + rest@.len() == src0.len(),
                forall|t: int| 0 <= t < rest@.len() ==> #[trigger] rest@[t] == src0[
                    opened@.len() + t],
                forall|t: int|
                    0 <= t < opened@.len() ==> zip_entries((#[trigger] src0[t]).1@) == Some(
                        archive_entries(opened@[t].0),
                    ),
                forall|t: int|
                    0 <= t < opened@.len() ==> (#[trigger] opened@[t]).1 == src0[t].2,
            decreases rest@.len(),
        {
            let (name, bytes, prefixes) = rest.remove(0);
            let ghost k = opened@.len() as int;
            proof {
                assert(src0[k].1 == bytes);
            }
            match open_archive(bytes) {
                Some(archive) => {
                    opened.push((archive, prefixes));
                },
                None => {
                    proof {
                        assert(name == src0[k].0);
                        assert(zip_entries(src0[k].1@) is None);
                        assert(forall|u: int|
                            0 <= u < k ==> zip_entries((#[trigger] src0[u]).1@) is Some);
                    }
                    return Err(Error::ArchiveOpen(name));
                },
            }
        }
        let m = Multiplexer { archives: opened };
        proof {
            assert forall|t: int| 0 <= t < src0.len() implies zip_entries(
                (#[trigger] src0[t]).1@,
            ) == Some(m@[t].0) && m@[t].1 == src0[t].2.deep_view() by {
                assert(m@[t].0 == archive_entries(opened@[t].0));
                assert(opened@[t].1 == src0[t].2);
            }
        }
        Ok(m)
    }

    /// Resolves a logical file name to its content: for each archive in
    /// declared order, for each of its prefixes in declared order, the first
    /// archive entry at `prefix/name` wins. `None` when no (archive, prefix)
    /// pair holds the name.
    pub fn find(&mut self, name: &str) -> (r: Option<Vec<u8>>)
        ensures
            final(self)@ == old(self)@,
            match r {
                Some(v) => find_spec(old(self)@, name@) == Some(v@),
                None => find_spec(old(self)@, name@) is None,
            },
    {
        let ghost v0 = self@;
        let mut i: usize = 0;
        while i < self.archives.len()
            invariant
                v0 == old(self)@,
                self@ == v0,
                self.archives@.len() == v0.len(),
                i <= v0.len(),
                find_spec(v0, name@) == find_from(v0, i as int, name@),
            decreases v0.len() - i,
        {
            let plen = self.archives[i].1.len();
            proof {
                assert(v0[i as int].1 == self.archives@[i as int].1.deep_view());
            }
            let mut j: usize = 0;
            while j < plen
                invariant
                    v0 == old(self)@,
                    self@ == v0,
                    self.archives@.len() == v0.len(),
                    i < v0.len(),
                    plen == v0[i as int].1.len(),
                    j <= plen,
                    find_spec(v0, name@) == find_from(v0, i as int, name@),
                    find_in_from(v0[i as int].0, v0[i as int].1, 0, name@) == find_in_from(
                        v0[i as int].0,
                        v0[i as int].1,
                        j as int,
                        name@,
                    ),
                decreases plen - j,
            {
                let key = self.archives[i].1[j].clone().concat("/").concat(name);
                proof {
                    reveal_strlit("/");
                    assert(key@ =~= full_name(v0[i as int].1[j as int], name@));
                }
                let found = read_at(&mut self.archives, i, key.as_str());
                proof {
                    assert forall|t: int| 0 <= t < v0.len() implies self@[t] == v0[t] by {
                    }
                    assert(self@ =~= v0);
                }
                match found {
                    Some(content) => {
                        proof {
                            assert(find_in_from(v0[i as int].0, v0[i as int].1, j as int, name@)
                                == Some(content@));
                            assert(find_from(v0, i as int, name@) == Some(content@));
                        }
                        return Some(content);
                    },
                    None => {
                        proof {
                            assert(find_in_from(v0[i as int].0, v0[i as int].1, j as int, name@)
                                == find_in_from(
                                v0[i as int].0,
                                v0[i as int].1,
                                j as int + 1,
                                name@,
                            ));
                        }
                    },
                }
                j = j + 1;
            }
            proof {
                assert(find_in_from(v0[i as int].0, v0[i as int].1, plen as int, name@)
                    is None);
                assert(find_from(v0, i as int, name@) == find_from(v0, i as int + 1, name@));
            }
            i = i + 1;
        }
        proof {
            assert(find_from(v0, i as int, name@) is None);
        }
        None
    }
}

/// A lookup misses exactly when no (archive, prefix) pair holds the name:
/// `find_spec` is `None` if and only if, for every archive and every one of
/// its declared prefixes, the archive has no entry at `prefix/name`.
pub proof fn lemma_find_none(view: Seq<(Map<Seq<char>, Seq<u8>>, Seq<Seq<char>>)>, name: Seq<char>)
    ensures
        find_spec(view, name) is None <==> (forall|i: int, j: int|
            0 <= i < view.len() && 0 <= j < (#[trigger] view[i]).1.len()
                ==> !view[i].0.contains_key(full_name(#[trigger] view[i].1[j], name))),
{
    lemma_find_from_none(view, 0, name);
}

proof fn lemma_find_in_from_none(
    entries: Map<Seq<char>, Seq<u8>>,
    prefixes: Seq<Seq<char>>,
    j: int,
    name: Seq<char>,
)
    requires
        0 <= j <= prefixes.len(),
    ensures
        find_in_from(entries, prefixes, j, name) is None <==> (forall|u: int|
            j <= u < prefixes.len() ==> !entries.contains_key(
                full_name(#[trigger] prefixes[u], name),
            )),
    decreases prefixes.len() - j,
{
    if j < prefixes.len() {
        lemma_find_in_from_none(entries, prefixes, j + 1, name);
    }
}

proof fn lemma_find_from_none(
    view: Seq<(Map<Seq<char>, Seq<u8>>, Seq<Seq<char>>)>,
    i: int,
    name: Seq<char>,
)
    requires
        0 <= i <= view.len(),
    ensures
        find_from(view, i, name) is None <==> (forall|t: int, j: int|
            i <= t < view.len() && 0 <= j < (#[trigger] view[t]).1.len()
                ==> !view[t].0.contains_key(full_name(#[trigger] view[t].1[j], name))),
    decreases view.len() - i,
{
    if i < view.len() {
        lemma_find_in_from_none(view[i].0, view[i].1, 0, name);
        lemma_find_from_none(view, i + 1, name);
    }
}

} // verus!
