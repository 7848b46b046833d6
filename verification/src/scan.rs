//! Finding the proto files of a directory tree.
use vstd::prelude::*;

use crate::proto_parser::ProtoParseError;
use crate::text::{chars_of, concat, concat3, ends_with, has_prefix, has_suffix, starts_with};

verus! {

/// An entry of a directory, as listed.
pub enum FsEntry {
    Dir { name: String, listing: DirListing },
    File { name: String },
}

/// The entries of a directory in listing order, and the error that stopped the
/// listing, if one did (a directory that cannot be read lists nothing).
pub struct DirListing {
    pub entries: Vec<FsEntry>,
    pub error: Option<String>,
}

/// Names starting with a dot are hidden.
pub open spec fn hidden(name: Seq<char>) -> bool {
    name.len() > 0 && name[0] == '.'
}

/// A file with the `proto` extension.
pub open spec fn is_proto_file(name: Seq<char>) -> bool {
    has_suffix(name, ".proto"@)
}

/// Path of `name` inside the directory at relative path `prefix`.
pub open spec fn join(prefix: Seq<char>, name: Seq<char>) -> Seq<char> {
    if prefix.len() == 0 {
        name
    } else {
        prefix + "/"@ + name
    }
}

pub open spec fn opt_v(o: Option<String>) -> Option<Seq<char>> {
    match o {
        Some(s) => Some(s@),
        None => None,
    }
}

/// Relative paths of the proto files under `entries`, depth first in listing
/// order, hidden entries skipped; the walk stops at the first listing error.
pub open spec fn scan_entries(prefix: Seq<char>, entries: Seq<FsEntry>) -> (Seq<Seq<char>>, Option<Seq<char>>)
    decreases entries, 1nat,
{
    if entries.len() == 0 {
        (Seq::empty(), None)
    } else {
        let (f, e) = scan_entries(prefix, entries.drop_last());
        if e is Some {
            (f, e)
        } else {
            match entries.last() {
                FsEntry::Dir { name, listing } => if hidden(name@) {
                    (f, None)
                } else {
                    proof {
                        assert(decreases_to!(entries => entries[entries.len() - 1]));
                    }
                    let (g, e2) = scan_listing(join(prefix, name@), listing);
                    (f + g, e2)
                },
                FsEntry::File { name } => if hidden(name@) || !is_proto_file(name@) {
                    (f, None)
                } else {
                    (f.push(join(prefix, name@)), None)
                },
            }
        }
    }
}

pub open spec fn scan_listing(prefix: Seq<char>, l: DirListing) -> (Seq<Seq<char>>, Option<Seq<char>>)
    decreases l, 0nat,
{
    let (f, e) = scan_entries(prefix, l.entries@);
    if e is Some {
        (f, e)
    } else {
        (f, opt_v(l.error))
    }
}

/// Walks a listed directory: the relative paths of the proto
/// files to read, in order, and the listing error that ended the walk, if any.
pub fn scan_proto_dir(prefix: &str, listing: &DirListing) -> (r: (Vec<String>, Option<String>))
    ensures
        (crate::config::strings_v(r.0@), opt_v(r.1)) == scan_listing(prefix@, *listing),
    decreases listing, 0nat,
{
    let mut files: Vec<String> = Vec::new();
    let mut i: usize = 0;
    let entries = &listing.entries;
    proof {
        assert(entries@.take(0) =~= Seq::<FsEntry>::empty());
        assert(crate::config::strings_v(files@) =~= Seq::empty());
    }
    while i < entries.len()
        invariant
            i <= entries@.len(),
            *entries == listing.entries,
            (crate::config::strings_v(files@), None::<Seq<char>>) == scan_entries(prefix@, entries@.take(i as int)),
        decreases entries.len() - i,
    {
        proof {
            assert(entries@.take(i + 1).drop_last() =~= entries@.take(i as int));
            assert(entries@.take(i + 1).last() == entries@[i as int]);
        }
        let ghost f0 = crate::config::strings_v(files@);
        match &entries[i] {
            FsEntry::Dir { name, listing: sub } => {
                if !starts_with_dot(name.as_str()) {
                    let path = join_exec(prefix, name.as_str());
                    proof {
                        assert(decreases_to!(*listing => listing.entries));
                        assert(decreases_to!(listing.entries => listing.entries@));
                        assert(decreases_to!(listing.entries@ => listing.entries@[i as int]));
                        assert(decreases_to!(listing.entries@[i as int] => listing.entries@[i as int]->Dir_listing));
                    }
                    let (g, e) = scan_proto_dir(path.as_str(), sub);
                    let ghost before = files@;
                    let mut g = g;
                    files.append(&mut g);
                    proof {
                        assert(crate::config::strings_v(files@) =~= f0 + crate::config::strings_v(
                            before.subrange(before.len() as int, before.len() as int),
                        ) + crate::config::strings_v(files@.subrange(before.len() as int, files@.len() as int)));
                    }
                    match e {
                        Some(err) => {
                            proof {
                                assert(crate::config::strings_v(files@) =~= f0 + crate::config::strings_v(
                                    files@.subrange(before.len() as int, files@.len() as int),
                                ));
                                assert(entries@.take(i + 1) =~= entries@.take(i as int).push(entries@[i as int]));
                                lemma_scan_prefix_stops(prefix@, entries@, i as int + 1);
                                assert(entries@.take(entries@.len() as int) =~= entries@);
                            }
                            return (files, Some(err));
                        },
                        None => {},
                    }
                }
            },
            FsEntry::File { name } => {
                if !starts_with_dot(name.as_str()) && proto_name(name.as_str()) {
                    files.push(join_exec(prefix, name.as_str()));
                    proof {
                        assert(crate::config::strings_v(files@) =~= f0.push(join(prefix@, name@)));
                    }
                }
            },
        }
        i = i + 1;
    }
    proof {
        assert(entries@.take(entries@.len() as int) =~= entries@);
    }
    match &listing.error {
        Some(e) => (files, Some(e.clone())),
        None => (files, None),
    }
}

/// Once the walk of a prefix of `entries` has stopped, the walk of all of them
/// stops at the same place.
proof fn lemma_scan_prefix_stops(prefix: Seq<char>, entries: Seq<FsEntry>, k: int)
    requires
        0 <= k <= entries.len(),
        scan_entries(prefix, entries.take(k)).1 is Some,
    ensures
        scan_entries(prefix, entries) == scan_entries(prefix, entries.take(k)),
    decreases entries.len() - k,
{
    if k < entries.len() {
        assert(entries.take(k + 1).drop_last() =~= entries.take(k));
        lemma_scan_prefix_stops(prefix, entries, k + 1);
    } else {
        assert(entries.take(k) =~= entries);
    }
}

fn starts_with_dot(name: &str) -> (r: bool)
    ensures
        r == hidden(name@),
{
    let v = chars_of(name);
    v.len() > 0 && v[0] == '.'
}

fn proto_name(name: &str) -> (r: bool)
    ensures
        r == is_proto_file(name@),
{
    let v = chars_of(name);
    let p = chars_of(".proto");
    ends_with(v.as_slice(), p.as_slice())
}

fn join_exec(prefix: &str, name: &str) -> (r: String)
    ensures
        r@ == join(prefix@, name@),
{
    if prefix.is_empty() {
        crate::text::owned(name)
    } else {
        concat3(prefix, "/", name)
    }
}

pub open spec fn contents_v(c: Seq<Result<String, String>>) -> Seq<Result<Seq<char>, Seq<char>>> {
    c.map_values(|x: Result<String, String>| match x {
        Ok(s) => Ok(s@),
        Err(e) => Err(e@),
    })
}

/// Position of the first failed read.
pub open spec fn first_failed(c: Seq<Result<Seq<char>, Seq<char>>>) -> Option<int> {
    if exists|i: int| 0 <= i < c.len() && c[i] is Err {
        Some(choose|i: int| 0 <= i < c.len() && c[i] is Err && forall|j: int| 0 <= j < i ==> c[j] is Ok)
    } else {
        None
    }
}

/// The outcome of a scan, given whether the path
/// is a directory (its listing), and the reads of the files the walk found.
pub open spec fn discovery_outcome(
    dir_path: Seq<char>,
    root: Option<DirListing>,
    contents: Seq<Result<Seq<char>, Seq<char>>>,
) -> Result<(Seq<(Seq<char>, Seq<char>)>, Seq<char>), (nat, Seq<char>)> {
    match root {
        None => Err((0, "path is not a valid directory: "@ + dir_path)),
        Some(l) => {
            let (files, err) = scan_listing(Seq::empty(), l);
            match first_failed(contents) {
                Some(k) => Err((2, contents[k]->Err_0)),
                None => match err {
                    Some(e) => Err((2, e)),
                    None => if files.len() == 0 {
                        Err((0, "no .proto files found in directory"@))
                    } else {
                        Ok(
                            (
                                Seq::new(files.len(), |i: int| (files[i], contents[i]->Ok_0)),
                                dir_path,
                            ),
                        )
                    },
                },
            }
        },
    }
}

/// The view of a scan error: its kind (0 parse, 1 missing files, 2 I/O) and text.
pub open spec fn parse_error_v(e: ProtoParseError) -> (nat, Seq<char>) {
    match e {
        ProtoParseError::ParseError(s) => (0, s@),
        ProtoParseError::MissingFiles(_) => (1, Seq::empty()),
        ProtoParseError::IoError(s) => (2, s@),
    }
}

/// Collects the proto files of a directory tree:
/// `root` is the listing of `dir_path` (`None` when it is not a directory) and
/// `contents` the reads of the files that `scan_proto_dir` found, in its order.
pub fn discover_proto_files_in_dir(
    dir_path: &str,
    root: Option<&DirListing>,
    contents: Vec<Result<String, String>>,
) -> (r: Result<(Vec<(String, String)>, String), ProtoParseError>)
    requires
        root matches Some(l) ==> contents@.len() == scan_listing(Seq::empty(), *l).0.len(),
    ensures
        match r {
            Ok((files, p)) => discovery_outcome(
                dir_path@,
                match root { Some(l) => Some(*l), None => None },
                contents_v(contents@),
            ) == Ok::<(Seq<(Seq<char>, Seq<char>)>, Seq<char>), (nat, Seq<char>)>((crate::call::str_pairs_v(files@), p@)),
            Err(e) => discovery_outcome(
                dir_path@,
                match root { Some(l) => Some(*l), None => None },
                contents_v(contents@),
            ) == Err::<(Seq<(Seq<char>, Seq<char>)>, Seq<char>), (nat, Seq<char>)>(parse_error_v(e)),
        },
{
    let l = match root {
        Some(l) => l,
        None => {
            return Err(ProtoParseError::ParseError(concat("path is not a valid directory: ", dir_path)));
        },
    };
    let (files, err) = scan_proto_dir("", l);
    proof {
        reveal_strlit("");
        assert(""@ =~= Seq::<char>::empty());
    }
    let ghost cv = contents_v(contents@);
    let mut k: usize = 0;
    while k < contents.len()
        invariant
            k <= contents@.len(),
            root == Some(l),
            cv == contents_v(contents@),
            forall|j: int| 0 <= j < k ==> cv[j] is Ok,
        decreases contents.len() - k,
    {
        match &contents[k] {
            Err(e) => {
                proof {
                    assert(cv[k as int] is Err);
                    let w = choose|w: int| 0 <= w < cv.len() && cv[w] is Err && forall|j: int| 0 <= j < w ==> cv[j] is Ok;
                    if w < k {
                    } else if w > k {
                    }
                    assert(first_failed(cv) == Some(k as int));
                    assert(cv[k as int]->Err_0 == e@);
                }
                return Err(ProtoParseError::IoError(e.clone()));
            },
            Ok(_) => {
                proof {
                    assert(cv[k as int] is Ok);
                }
            },
        }
        k = k + 1;
    }
    proof {
        assert(first_failed(cv) is None);
    }
    match err {
        Some(e) => {
            return Err(ProtoParseError::IoError(e));
        },
        None => {},
    }
    if files.len() == 0 {
        return Err(ProtoParseError::ParseError(crate::text::owned("no .proto files found in directory")));
    }
    let mut out: Vec<(String, String)> = Vec::new();
    let ghost fv = crate::config::strings_v(files@);
    let n = files.len();
    let mut i: usize = 0;
    while i < n
        invariant
            i <= n,
            n == files@.len(),
            n == contents@.len(),
            fv == crate::config::strings_v(files@),
            cv == contents_v(contents@),
            forall|j: int| 0 <= j < n ==> cv[j] is Ok,
            crate::call::str_pairs_v(out@) == Seq::new(i as nat, |q: int| (fv[q], cv[q]->Ok_0)),
        decreases n - i,
    {
        let text = match &contents[i] {
            Ok(t) => t.clone(),
            Err(_) => String::new(),
        };
        proof {
            assert(cv[i as int] is Ok);
            assert(text@ == cv[i as int]->Ok_0);
        }
        let fname = files[i].clone();
        let ghost before = out@;
        proof {
            assert(fname@ == fv[i as int]);
        }
        out.push((fname, text));
        proof {
            assert(crate::call::str_pairs_v(out@) =~= crate::call::str_pairs_v(before).push((fv[i as int], cv[i as int]->Ok_0)));
            assert(crate::call::str_pairs_v(out@) =~= Seq::new((i + 1) as nat, |q: int| (fv[q], cv[q]->Ok_0)));
        }
        i = i + 1;
    }
    Ok((out, crate::text::owned(dir_path)))
}

} // verus!
