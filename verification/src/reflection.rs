//! Service discovery through the server reflection protocol (v1 first, then
//! v1alpha): what each reply of the server means, which files are kept, which
//! dependencies are still to be asked for, and when to give up.
use vstd::prelude::*;

use crate::text::{concat, concat3, str_eq};

verus! {

/// Version of the reflection protocol.
#[derive(Debug, PartialEq, Eq, Structural, Clone, Copy)]
pub enum ReflectionVersion {
    V1,
    V1Alpha,
}

/// What came back for one reflection request.
pub enum ReflectionReply {
    /// No reply within the time limit.
    TimedOut,
    /// Reading the stream failed.
    Broken(String),
    /// The server closed the stream.
    Closed,
    /// The names of the services (answer to `ListServices`).
    Services(Vec<String>),
    /// Encoded file descriptors.
    Files(Vec<Vec<u8>>),
    /// An error answer of the server.
    ServerError(String),
    /// Any other answer.
    Other,
}

/// The two reflection services themselves, left out of every listing.
pub open spec fn is_reflection_service_spec(name: Seq<char>) -> bool {
    name == "grpc.reflection.v1.ServerReflection"@ || name == "grpc.reflection.v1alpha.ServerReflection"@
}

/// Whether a service is the reflection service.
pub fn is_reflection_service(name: &str) -> (r: bool)
    ensures
        r == is_reflection_service_spec(name@),
{
    str_eq(name, "grpc.reflection.v1.ServerReflection") || str_eq(name, "grpc.reflection.v1alpha.ServerReflection")
}

/// The business services of a listing, in order.
pub open spec fn business_services(names: Seq<Seq<char>>) -> Seq<Seq<char>>
    decreases names.len(),
{
    if names.len() == 0 {
        Seq::empty()
    } else if is_reflection_service_spec(names.last()) {
        business_services(names.drop_last())
    } else {
        business_services(names.drop_last()).push(names.last())
    }
}

/// Drops the reflection services from a listing.
pub fn filter_services(services: Vec<String>) -> (r: Vec<String>)
    ensures
        crate::config::strings_v(r@) == business_services(crate::config::strings_v(services@)),
{
    let ghost all = crate::config::strings_v(services@);
    let mut r: Vec<String> = Vec::new();
    let mut i: usize = 0;
    proof {
        assert(crate::config::strings_v(r@) =~= business_services(all.take(0)));
    }
    while i < services.len()
        invariant
            i <= services@.len(),
            all == crate::config::strings_v(services@),
            crate::config::strings_v(r@) == business_services(all.take(i as int)),
        decreases services.len() - i,
    {
        proof {
            assert(all.take(i + 1).drop_last() =~= all.take(i as int));
            assert(all.take(i + 1).last() == services@[i as int]@);
        }
        let ghost before = r@;
        if !is_reflection_service(services[i].as_str()) {
            r.push(services[i].clone());
            proof {
                assert(crate::config::strings_v(r@) =~= crate::config::strings_v(before).push(services@[i as int]@));
            }
        }
        i = i + 1;
    }
    proof {
        assert(all.take(services@.len() as int) =~= all);
    }
    r
}

/// Whether a failed v1 attempt falls back to v1alpha: always.
pub fn is_fallback_eligible_error(error: &str) -> (r: bool)
    ensures
        r,
{
    true
}

/// The error of a discovery whose v1alpha fallback failed too.
pub fn fallback_failure(error: &str) -> (r: String)
    ensures
        r@ == "Server Reflection failed (tried v1 and v1alpha): "@ + error@,
{
    concat("Server Reflection failed (tried v1 and v1alpha): ", error)
}

pub open spec fn business_none_message() -> Seq<char> {
    "server does not expose any business gRPC services (only reflection service found)"@
}

/// What the answer to `ListServices` means: the business services to query, or
/// the error that ends the discovery.
pub open spec fn listing_outcome(v: ReflectionVersion, reply: ReflectionReply) -> Result<Seq<Seq<char>>, Seq<char>> {
    let v1 = v == ReflectionVersion::V1;
    match reply {
        ReflectionReply::TimedOut => Err(
            if v1 { "ListServices v1 response timed out"@ } else { "ListServices response timed out (server may not support Reflection)"@ },
        ),
        ReflectionReply::Broken(e) => Err(
            (if v1 { "failed to read ListServices v1 response: "@ } else { "failed to read ListServices response: "@ }) + e@,
        ),
        ReflectionReply::Closed => Err(
            if v1 { "Server Reflection v1 returned no service list response"@ } else { "Server Reflection returned no service list response"@ },
        ),
        ReflectionReply::Services(names) => {
            let b = business_services(crate::config::strings_v(names@));
            if b.len() == 0 {
                Err(business_none_message())
            } else {
                Ok(b)
            }
        },
        ReflectionReply::ServerError(e) => Err(
            (if v1 { "Server Reflection v1 Error: "@ } else { "Server Reflection Error: "@ }) + e@,
        ),
        _ => Err(
            if v1 { "Server Reflection v1 returned an unexpected response type"@ } else { "Server Reflection returned an unexpected response type"@ },
        ),
    }
}

/// Reads the answer to `ListServices`.
pub fn service_names_from_reply(v: ReflectionVersion, reply: ReflectionReply) -> (r: Result<Vec<String>, String>)
    ensures
        match r {
            Ok(n) => listing_outcome(v, reply) == Ok::<Seq<Seq<char>>, Seq<char>>(crate::config::strings_v(n@)),
            Err(e) => listing_outcome(v, reply) == Err::<Seq<Seq<char>>, Seq<char>>(e@),
        },
{
    let v1 = v == ReflectionVersion::V1;
    match reply {
        ReflectionReply::TimedOut => Err(crate::text::owned(
            if v1 { "ListServices v1 response timed out" } else { "ListServices response timed out (server may not support Reflection)" },
        )),
        ReflectionReply::Broken(e) => Err(concat(
            if v1 { "failed to read ListServices v1 response: " } else { "failed to read ListServices response: " },
            e.as_str(),
        )),
        ReflectionReply::Closed => Err(crate::text::owned(
            if v1 { "Server Reflection v1 returned no service list response" } else { "Server Reflection returned no service list response" },
        )),
        ReflectionReply::Services(names) => {
            let b = filter_services(names);
            if b.len() == 0 {
                Err(crate::text::owned("server does not expose any business gRPC services (only reflection service found)"))
            } else {
                Ok(b)
            }
        },
        ReflectionReply::ServerError(e) => Err(concat(
            if v1 { "Server Reflection v1 Error: " } else { "Server Reflection Error: " },
            e.as_str(),
        )),
        _ => Err(crate::text::owned(
            if v1 { "Server Reflection v1 returned an unexpected response type" } else { "Server Reflection returned an unexpected response type" },
        )),
    }
}

// ---------------------------------------------------------------------------
// File descriptors
// ---------------------------------------------------------------------------

/// What decoding an encoded `FileDescriptorProto` gives: its file name and the
/// names of the files it imports, or the decoder's error text.
pub uninterp spec fn decoded_descriptor(bytes: Seq<u8>) -> Result<(Option<Seq<char>>, Seq<Seq<char>>), Seq<char>>;

/// A decoded file descriptor (`prost_types::FileDescriptorProto`), carried
/// through to the schema; its contents are not read here.
#[verifier::external_type_specification]
#[verifier::external_body]
pub struct ExFileDescriptorProto(prost_types::FileDescriptorProto);

pub open spec fn header_v(r: Result<(Option<String>, Vec<String>, prost_types::FileDescriptorProto), String>) -> Result<(Option<Seq<char>>, Seq<Seq<char>>), Seq<char>> {
    match r {
        Ok((n, d, _)) => Ok(
            (
                match n {
                    Some(s) => Some(s@),
                    None => None,
                },
                crate::config::strings_v(d@),
            ),
        ),
        Err(e) => Err(e@),
    }
}

/// Decodes an encoded file descriptor (`prost::Message::decode` of
/// `prost_types::FileDescriptorProto`) and hands back its `name` and
/// `dependency` fields with the descriptor itself, or the decoder's error as
/// text. The contract ties the name, the dependencies and the error to the
/// bytes through `decoded_descriptor`; of the descriptor it says nothing.
#[verifier::external_body]
fn decode_descriptor_header(bytes: &[u8]) -> (r: Result<(Option<String>, Vec<String>, prost_types::FileDescriptorProto), String>)
    ensures
        header_v(r) == decoded_descriptor(bytes@),
{
    match <prost_types::FileDescriptorProto as prost::Message>::decode(bytes) {
        Ok(fd) => Ok((fd.name.clone(), fd.dependency.clone(), fd)),
        Err(e) => Err(e.to_string()),
    }
}

/// A file descriptor kept for the schema.
pub struct FetchedFile {
    pub name: String,
    pub dependencies: Vec<String>,
    /// The encoded descriptor, as the server sent it.
    pub bytes: Vec<u8>,
    /// The descriptor decoded from `bytes`.
    pub descriptor: prost_types::FileDescriptorProto,
}

pub open spec fn file_v(f: FetchedFile) -> (Seq<char>, Seq<Seq<char>>, Seq<u8>) {
    (f.name@, crate::config::strings_v(f.dependencies@), f.bytes@)
}

/// The files fetched so far and the file names already settled.
pub struct ReflectionCollector {
    files: Vec<FetchedFile>,
    seen: Vec<String>,
}

pub open spec fn seen_set(v: Seq<String>) -> Set<Seq<char>> {
    Set::new(|n: Seq<char>| exists|i: int| 0 <= i < v.len() && v[i]@ == n)
}

proof fn lemma_seen_push(v: Seq<String>, x: String)
    ensures
        seen_set(v.push(x)) == seen_set(v).insert(x@),
{
    assert forall|n: Seq<char>| seen_set(v.push(x)).contains(n) implies seen_set(v).insert(x@).contains(n) by {
        let i = choose|i: int| 0 <= i < v.push(x).len() && v.push(x)[i]@ == n;
        if i < v.len() {
            assert(v[i]@ == n);
        }
    }
    assert forall|n: Seq<char>| seen_set(v).insert(x@).contains(n) implies seen_set(v.push(x)).contains(n) by {
        if n == x@ {
            assert(v.push(x)[v.len() as int]@ == n);
        } else {
            let i = choose|i: int| 0 <= i < v.len() && v[i]@ == n;
            assert(v.push(x)[i]@ == n);
        }
    }
    assert(seen_set(v.push(x)) =~= seen_set(v).insert(x@));
}

proof fn lemma_first_error_extends(list: Seq<Seq<u8>>, k: int)
    requires
        0 <= k <= list.len(),
        first_decode_error(list.take(k)) is Some,
    ensures
        first_decode_error(list) == first_decode_error(list.take(k)),
    decreases list.len() - k,
{
    if k < list.len() {
        assert(list.take(k + 1).drop_last() =~= list.take(k));
        lemma_first_error_extends(list, k + 1);
    } else {
        assert(list.take(k) =~= list);
    }
}

/// Keeps the files of `list` whose name is new, in order (the common step of
/// both file queries): a file without a name is dropped.
pub open spec fn add_files(
    files: Seq<(Seq<char>, Seq<Seq<char>>, Seq<u8>)>,
    seen: Set<Seq<char>>,
    list: Seq<Seq<u8>>,
) -> Option<(Seq<(Seq<char>, Seq<Seq<char>>, Seq<u8>)>, Set<Seq<char>>)>
    decreases list.len(),
{
    if list.len() == 0 {
        Some((files, seen))
    } else {
        match add_files(files, seen, list.drop_last()) {
            None => None,
            Some((f, s)) => match decoded_descriptor(list.last()) {
                Err(_) => None,
                Ok((None, _)) => Some((f, s)),
                Ok((Some(n), deps)) => if s.contains(n) {
                    Some((f, s))
                } else {
                    Some((f.push((n, deps, list.last())), s.insert(n)))
                },
            },
        }
    }
}

/// The first decoding error among `list`, when a file fails to decode.
pub open spec fn first_decode_error(list: Seq<Seq<u8>>) -> Option<Seq<char>>
    decreases list.len(),
{
    if list.len() == 0 {
        None
    } else {
        match first_decode_error(list.drop_last()) {
            Some(e) => Some(e),
            None => match decoded_descriptor(list.last()) {
                Err(e) => Some(e),
                Ok(_) => None,
            },
        }
    }
}

/// The names of `d` that are not settled, in order.
pub open spec fn unsettled(d: Seq<Seq<char>>, seen: Set<Seq<char>>) -> Seq<Seq<char>>
    decreases d.len(),
{
    if d.len() == 0 {
        Seq::empty()
    } else if seen.contains(d.last()) {
        unsettled(d.drop_last(), seen)
    } else {
        unsettled(d.drop_last(), seen).push(d.last())
    }
}

/// Dependencies of the fetched files that are not settled, in order, repeats kept.
pub open spec fn missing_of(files: Seq<(Seq<char>, Seq<Seq<char>>, Seq<u8>)>, seen: Set<Seq<char>>) -> Seq<Seq<char>>
    decreases files.len(),
{
    if files.len() == 0 {
        Seq::empty()
    } else {
        missing_of(files.drop_last(), seen) + unsettled(files.last().1, seen)
    }
}

/// Rounds of dependency queries before the resolution gives up.
pub const MAX_DEPENDENCY_ROUNDS: u32 = 49;

impl ReflectionCollector {
    pub closed spec fn files(&self) -> Seq<(Seq<char>, Seq<Seq<char>>, Seq<u8>)> {
        self.files@.map_values(|f: FetchedFile| file_v(f))
    }

    pub closed spec fn seen(&self) -> Set<Seq<char>> {
        seen_set(self.seen@)
    }

    /// No file is kept twice, and every kept file is settled.
    pub closed spec fn wf(&self) -> bool {
        &&& forall|i: int, j: int|
            0 <= i < self.files().len() && 0 <= j < self.files().len() && i != j ==> self.files()[i].0
                != self.files()[j].0
        &&& forall|i: int| 0 <= i < self.files().len() ==> self.seen().contains(#[trigger] self.files()[i].0)
    }

    /// No file is fetched twice, and every fetched file counts as settled, so it
    /// is never asked for again.
    pub proof fn law_files_kept_once(&self, i: int, j: int)
        requires
            self.wf(),
            0 <= i < self.files().len(),
            0 <= j < self.files().len(),
        ensures
            i != j ==> self.files()[i].0 != self.files()[j].0,
            self.seen().contains(self.files()[i].0),
    {
    }

    pub fn new() -> (r: Self)
        ensures
            r.wf(),
            r.files().len() == 0,
            r.seen() == Set::<Seq<char>>::empty(),
    {
        let r = ReflectionCollector { files: Vec::new(), seen: Vec::new() };
        proof {
            assert(crate::config::strings_v(r.seen@) =~= Seq::empty());
            assert(seen_set(r.seen@) =~= Set::empty());
            assert(r.files() =~= Seq::empty());
        }
        r
    }

    fn is_seen(&self, name: &str) -> (r: bool)
        ensures
            r == self.seen().contains(name@),
    {
        let ghost s = crate::config::strings_v(self.seen@);
        let mut i: usize = 0;
        while i < self.seen.len()
            invariant
                i <= self.seen@.len(),
                s == crate::config::strings_v(self.seen@),
                forall|j: int| 0 <= j < i ==> s[j] != name@,
            decreases self.seen.len() - i,
        {
            if str_eq(self.seen[i].as_str(), name) {
                proof {
                    assert(s[i as int] == name@);
                }
                return true;
            }
            i = i + 1;
        }
        proof {
            if seen_set(self.seen@).contains(name@) {
                let k = choose|k: int| 0 <= k < self.seen@.len() && self.seen@[k]@ == name@;
                assert(s[k] == name@);
            }
        }
        false
    }

    fn settle(&mut self, name: String)
        requires
            old(self).wf(),
        ensures
            final(self).wf(),
            final(self).files() == old(self).files(),
            final(self).seen() == old(self).seen().insert(name@),
    {
        let ghost before = self.seen@;
        self.seen.push(name);
        proof {
            lemma_seen_push(before, name);
            assert(self.files() == old(self).files());
            assert forall|i: int| 0 <= i < self.files().len() implies self.seen().contains(#[trigger] self.files()[i].0) by {
                assert(self.files()[i] == old(self).files()[i]);
                assert(old(self).seen().contains(old(self).files()[i].0));
            }
        }
    }

    /// Keeps the new files of `list`; the first file that fails to decode ends
    /// the step with its decoding error.
    fn add(&mut self, list: Vec<Vec<u8>>) -> (r: Result<(), String>)
        requires
            old(self).wf(),
        ensures
            final(self).wf(),
            match r {
                Ok(_) => first_decode_error(list@.map_values(|b: Vec<u8>| b@)) is None && add_files(
                    old(self).files(),
                    old(self).seen(),
                    list@.map_values(|b: Vec<u8>| b@),
                ) == Some((final(self).files(), final(self).seen())),
                Err(e) => first_decode_error(list@.map_values(|b: Vec<u8>| b@)) == Some(e@),
            },
    {
        let ghost all = list@.map_values(|b: Vec<u8>| b@);
        let ghost f0 = self.files();
        let ghost s0 = self.seen();
        let mut i: usize = 0;
        proof {
            assert(all.take(0) =~= Seq::<Seq<u8>>::empty());
        }
        while i < list.len()
            invariant
                i <= list@.len(),
                all == list@.map_values(|b: Vec<u8>| b@),
                self.wf(),
                first_decode_error(all.take(i as int)) is None,
                add_files(f0, s0, all.take(i as int)) == Some((self.files(), self.seen())),
            decreases list.len() - i,
        {
            proof {
                assert(all.take(i + 1).drop_last() =~= all.take(i as int));
                assert(all.take(i + 1).last() == list@[i as int]@);
            }
            match decode_descriptor_header(list[i].as_slice()) {
                Err(e) => {
                    proof {
                        assert(first_decode_error(all.take(i + 1)) == Some(e@));
                        lemma_first_error_extends(all, i + 1);
                    }
                    return Err(e);
                },
                Ok((None, _, _)) => {},
                Ok((Some(name), deps, fd)) => {
                    if !self.is_seen(name.as_str()) {
                        let ghost fb = self.files();
                        let ghost s1 = self.seen();
                        let file = FetchedFile { name: name.clone(), dependencies: deps, bytes: copy_bytes(&list[i]), descriptor: fd };
                        self.settle(name);
                        self.files.push(file);
                        proof {
                            assert(self.files() =~= fb.push((name@, crate::config::strings_v(deps@), list@[i as int]@)));
                            assert forall|a: int| 0 <= a < fb.len() implies fb[a].0 != name@ by {
                                assert(s1.contains(fb[a].0));
                            }
                        }
                    }
                },
            }
            i = i + 1;
        }
        proof {
            assert(all.take(list@.len() as int) =~= all);
        }
        Ok(())
    }

    /// Applies the reply to `FileContainingSymbol` for service `service`:
    /// files are kept, error and unexpected answers
    /// are skipped, and a timeout, a broken or closed stream or an undecodable
    /// file ends the discovery.
    pub fn on_service_reply(&mut self, v: ReflectionVersion, service: &str, reply: ReflectionReply) -> (r: Result<(), String>)
        requires
            old(self).wf(),
        ensures
            final(self).wf(),
            match reply {
                ReflectionReply::TimedOut => r matches Err(e) && e@ == "timed out querying file descriptors for service '"@
                    + service@ + "'"@,
                ReflectionReply::Broken(m) => r matches Err(e) && e@ == "failed to query file descriptors for service '"@
                    + service@ + "': "@ + m@,
                ReflectionReply::Closed => r matches Err(e) && e@ == (if v == ReflectionVersion::V1 {
                    "Server Reflection v1 closed the stream while querying service '"@
                } else {
                    "Server Reflection closed the stream while querying service '"@
                }) + service@ + "'"@,
                ReflectionReply::Files(list) => match r {
                    Ok(_) => add_files(old(self).files(), old(self).seen(), list@.map_values(|b: Vec<u8>| b@)) == Some(
                        (final(self).files(), final(self).seen()),
                    ),
                    Err(e) => first_decode_error(list@.map_values(|b: Vec<u8>| b@)) matches Some(d) && e@
                        == "failed to decode FileDescriptorProto: "@ + d,
                },
                _ => r is Ok && final(self).files() == old(self).files() && final(self).seen() == old(self).seen(),
            },
    {
        match reply {
            ReflectionReply::TimedOut => Err(concat3("timed out querying file descriptors for service '", service, "'")),
            ReflectionReply::Broken(m) => {
                let mut e = concat3("failed to query file descriptors for service '", service, "': ");
                e.append(m.as_str());
                Err(e)
            },
            ReflectionReply::Closed => Err(concat3(
                if v == ReflectionVersion::V1 {
                    "Server Reflection v1 closed the stream while querying service '"
                } else {
                    "Server Reflection closed the stream while querying service '"
                },
                service,
                "'",
            )),
            ReflectionReply::Files(list) => match self.add(list) {
                Ok(()) => Ok(()),
                Err(d) => Err(concat("failed to decode FileDescriptorProto: ", d.as_str())),
            },
            _ => Ok(()),
        }
    }

    /// Dependencies that are still to be asked for, in order, repeats kept.
    pub fn missing_dependencies(&self) -> (r: Vec<String>)
        ensures
            crate::config::strings_v(r@) == missing_of(self.files(), self.seen()),
    {
        let ghost fs = self.files();
        let mut r: Vec<String> = Vec::new();
        let mut i: usize = 0;
        proof {
            assert(fs.take(0) =~= Seq::<(Seq<char>, Seq<Seq<char>>, Seq<u8>)>::empty());
            assert(crate::config::strings_v(r@) =~= Seq::empty());
        }
        while i < self.files.len()
            invariant
                i <= self.files@.len(),
                fs == self.files(),
                crate::config::strings_v(r@) == missing_of(fs.take(i as int), self.seen()),
            decreases self.files.len() - i,
        {
            proof {
                assert(fs.take(i + 1).drop_last() =~= fs.take(i as int));
                assert(fs.take(i + 1).last() == file_v(self.files@[i as int]));
            }
            let deps = &self.files[i].dependencies;
            let ghost dv = crate::config::strings_v(deps@);
            let ghost r0 = crate::config::strings_v(r@);
            let mut j: usize = 0;
            proof {
                assert(dv.take(0) =~= Seq::<Seq<char>>::empty());
                assert(r0 + unsettled(dv.take(0), self.seen()) =~= r0);
            }
            while j < deps.len()
                invariant
                    j <= deps@.len(),
                    dv == crate::config::strings_v(deps@),
                    crate::config::strings_v(r@) == r0 + unsettled(dv.take(j as int), self.seen()),
                decreases deps.len() - j,
            {
                proof {
                    assert(dv.take(j + 1).drop_last() =~= dv.take(j as int));
                    assert(dv.take(j + 1).last() == dv[j as int]);
                }
                let ghost before = r@;
                if !self.is_seen(deps[j].as_str()) {
                    r.push(deps[j].clone());
                    proof {
                        assert(crate::config::strings_v(r@) =~= crate::config::strings_v(before).push(dv[j as int]));
                        assert(r0 + unsettled(dv.take(j + 1), self.seen()) =~= (r0 + unsettled(dv.take(j as int), self.seen())).push(dv[j as int]));
                    }
                }
                j = j + 1;
            }
            proof {
                assert(dv.take(deps@.len() as int) =~= dv);
            }
            i = i + 1;
        }
        proof {
            assert(fs.take(self.files@.len() as int) =~= fs);
        }
        r
    }

    /// The dependencies to ask for in round `round` (counting from 0), or `None`
    /// when the resolution is over: nothing is missing or the rounds are spent.
    pub fn next_dependency_round(&self, round: u32) -> (r: Option<Vec<String>>)
        ensures
            match r {
                Some(m) => round < MAX_DEPENDENCY_ROUNDS && crate::config::strings_v(m@) == missing_of(self.files(), self.seen())
                    && m@.len() > 0,
                None => round >= MAX_DEPENDENCY_ROUNDS || missing_of(self.files(), self.seen()).len() == 0,
            },
    {
        if round >= MAX_DEPENDENCY_ROUNDS {
            return None;
        }
        let m = self.missing_dependencies();
        if m.len() == 0 {
            None
        } else {
            Some(m)
        }
    }

    /// Applies the reply to `FileByFilename` for dependency `dep`:
    /// files are kept; a broken or closed stream, an
    /// error or an unexpected answer settles the dependency unanswered; a
    /// timeout or an undecodable file ends the discovery.
    pub fn on_dependency_reply(&mut self, dep: &str, reply: ReflectionReply) -> (r: Result<(), String>)
        requires
            old(self).wf(),
        ensures
            final(self).wf(),
            match reply {
                ReflectionReply::TimedOut => r matches Err(e) && e@ == "timed out querying dependency file '"@ + dep@
                    + "'"@,
                ReflectionReply::Files(list) => match r {
                    Ok(_) => add_files(old(self).files(), old(self).seen(), list@.map_values(|b: Vec<u8>| b@)) == Some(
                        (final(self).files(), final(self).seen()),
                    ),
                    Err(e) => first_decode_error(list@.map_values(|b: Vec<u8>| b@)) matches Some(d) && e@
                        == "failed to decode dependency FileDescriptorProto: "@ + d,
                },
                _ => r is Ok && final(self).files() == old(self).files() && final(self).seen() == old(self).seen().insert(dep@),
            },
    {
        match reply {
            ReflectionReply::TimedOut => Err(concat3("timed out querying dependency file '", dep, "'")),
            ReflectionReply::Files(list) => match self.add(list) {
                Ok(()) => Ok(()),
                Err(d) => Err(concat("failed to decode dependency FileDescriptorProto: ", d.as_str())),
            },
            _ => {
                self.settle(crate::text::owned(dep));
                Ok(())
            },
        }
    }

    /// The kept files, for building the schema: an
    /// error when the server gave none.
    pub fn into_files(self) -> (r: Result<Vec<FetchedFile>, String>)
        ensures
            match r {
                Ok(f) => f@.map_values(|x: FetchedFile| file_v(x)) == self.files() && f@.len() > 0,
                Err(e) => self.files().len() == 0 && e@ == "Server Reflection returned no file descriptors"@,
            },
    {
        if self.files.len() == 0 {
            Err(crate::text::owned("Server Reflection returned no file descriptors"))
        } else {
            Ok(self.files)
        }
    }
}

/// Builds a descriptor pool from decoded file descriptors
/// (`prost_reflect::DescriptorPool::from_file_descriptor_set`), or hands back
/// the builder's error as text. The pool and the error depend on the contents
/// of the descriptors, which this library carries without reading: nothing is
/// stated of them.
#[verifier::external_body]
fn pool_from_descriptors(files: Vec<prost_types::FileDescriptorProto>) -> (r: Result<prost_reflect::DescriptorPool, String>) {
    prost_reflect::DescriptorPool::from_file_descriptor_set(prost_types::FileDescriptorSet { file: files }).map_err(
        |e| e.to_string(),
    )
}

/// The schema of the kept files: their descriptors, in the order they were
/// kept, built into one pool; a failure of the builder is reported as
/// `failed to build DescriptorPool from reflection data: ` and its error.
pub fn build_descriptor_pool(files: Vec<FetchedFile>) -> (r: Result<prost_reflect::DescriptorPool, String>)
    ensures
        r matches Err(e) ==> exists|d: Seq<char>| e@ == "failed to build DescriptorPool from reflection data: "@ + d,
{
    let mut files = files;
    let mut reversed: Vec<prost_types::FileDescriptorProto> = Vec::new();
    while files.len() > 0
        decreases files.len(),
    {
        match files.pop() {
            Some(f) => reversed.push(f.descriptor),
            None => {},
        }
    }
    let mut descriptors: Vec<prost_types::FileDescriptorProto> = Vec::new();
    while reversed.len() > 0
        decreases reversed.len(),
    {
        match reversed.pop() {
            Some(d) => descriptors.push(d),
            None => {},
        }
    }
    match pool_from_descriptors(descriptors) {
        Ok(pool) => Ok(pool),
        Err(e) => {
            let m = concat("failed to build DescriptorPool from reflection data: ", e.as_str());
            proof {
                assert(m@ == "failed to build DescriptorPool from reflection data: "@ + e@);
            }
            Err(m)
        },
    }
}

fn copy_bytes(b: &Vec<u8>) -> (r: Vec<u8>)
    ensures
        r@ == b@,
{
    let mut r: Vec<u8> = Vec::new();
    let mut i: usize = 0;
    while i < b.len()
        invariant
            i <= b@.len(),
            r@ == b@.take(i as int),
        decreases b.len() - i,
    {
        r.push(b[i]);
        proof {
            assert(r@ =~= b@.take(i + 1));
        }
        i = i + 1;
    }
    proof {
        assert(b@.take(b@.len() as int) =~= b@);
    }
    r
}

/// Error of a reflection stream that could not be opened: `None` for a timeout.
pub fn connection_failure(v: ReflectionVersion, error: Option<&str>) -> (r: String)
    ensures
        r@ == match error {
            None => if v == ReflectionVersion::V1 {
                "Server Reflection v1 connection timed out"@
            } else {
                "Server Reflection v1alpha connection timed out (server may not support Reflection)"@
            },
            Some(e) => if v == ReflectionVersion::V1 {
                "Server Reflection v1 connection failed: "@ + e@
            } else {
                "Server Reflection v1alpha connection failed: "@ + e@ + " (server may not support Reflection)"@
            },
        },
{
    match error {
        None => crate::text::owned(
            if v == ReflectionVersion::V1 {
                "Server Reflection v1 connection timed out"
            } else {
                "Server Reflection v1alpha connection timed out (server may not support Reflection)"
            },
        ),
        Some(e) => if v == ReflectionVersion::V1 {
            concat("Server Reflection v1 connection failed: ", e)
        } else {
            concat3("Server Reflection v1alpha connection failed: ", e, " (server may not support Reflection)")
        },
    }
}

} // verus!
