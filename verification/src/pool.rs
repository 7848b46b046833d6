//! The connection pool of the plugin process: connections keyed by
//! (execution id, connection id), the cancellation tokens of running streaming
//! calls, and the tokens of in-flight executions keyed by request id.
//!
//! A connection's transport handle `C` and the cancellation token type `T` are
//! opaque here: the pool decides what is stored, found, replaced and dropped.
use vstd::prelude::*;

use crate::keyed::{
    has_key, lemma_to_map_empty, lemma_to_map_index, lemma_to_map_push, lemma_to_map_remove,
    lemma_to_map_update, to_map, unique_keys,
};
use crate::schema::{unique_message_names, ProtoSchema};
use crate::services::{service_report, services_from_pool};
use crate::text::{concat3, str_eq};
use crate::types::{service_v, GrpcServiceInfo};

verus! {

/// A live connection.
pub struct GrpcConnection<C, T> {
    /// Transport handle of the connection.
    pub handle: C,
    /// Schema of the services reachable over it.
    pub schema: ProtoSchema,
    pub url: String,
    pub default_metadata: Vec<(String, String)>,
    pub compression_encoding: Option<String>,
    /// Cancellation tokens of the streaming calls running on it, by call id.
    pub active_calls: Vec<(String, T)>,
    /// Retry defaults of the connection; a call may override them.
    pub max_retries: u32,
    pub initial_backoff_ms: u64,
}

pub open spec fn calls_v<T>(v: Seq<(String, T)>) -> Seq<(Seq<char>, T)> {
    v.map_values(|p: (String, T)| (p.0@, p.1))
}

impl<C, T> GrpcConnection<C, T> {
    /// The running calls of the connection, by call id.
    pub open spec fn calls(&self) -> Map<Seq<char>, T> {
        to_map(calls_v(self.active_calls@))
    }

    pub open spec fn wf(&self) -> bool {
        &&& unique_keys(calls_v(self.active_calls@))
        &&& unique_message_names(self.schema)
    }
}

pub open spec fn conn_key(e: Seq<char>, c: Seq<char>) -> (Seq<char>, Seq<char>) {
    (e, c)
}

pub open spec fn conns_v<C, T>(v: Seq<((String, String), GrpcConnection<C, T>)>) -> Seq<
    ((Seq<char>, Seq<char>), GrpcConnection<C, T>),
> {
    v.map_values(|p: ((String, String), GrpcConnection<C, T>)| ((p.0.0@, p.0.1@), p.1))
}

/// Two entries of one connection that differ at most in their running calls.
pub open spec fn same_connection<C, T>(a: GrpcConnection<C, T>, b: GrpcConnection<C, T>) -> bool {
    &&& a.handle == b.handle
    &&& a.schema == b.schema
    &&& a.url == b.url
    &&& a.default_metadata == b.default_metadata
    &&& a.compression_encoding == b.compression_encoding
    &&& a.max_retries == b.max_retries
    &&& a.initial_backoff_ms == b.initial_backoff_ms
}

/// Message of a lookup that finds no connection.
pub open spec fn missing_connection(c: Seq<char>) -> Seq<char> {
    "connection '"@ + c + "' does not exist"@
}

/// Message of a cancellation that finds no running call.
pub open spec fn missing_call(call_id: Seq<char>) -> Seq<char> {
    "call '"@ + call_id + "' does not exist or already finished"@
}

/// The connection pool.
pub struct GrpcPool<C, T> {
    connections: Vec<((String, String), GrpcConnection<C, T>)>,
    in_flight: Vec<(u64, T)>,
}

impl<C, T> GrpcPool<C, T> {
    /// Connections by (execution id, connection id).
    pub closed spec fn view(&self) -> Map<(Seq<char>, Seq<char>), GrpcConnection<C, T>> {
        to_map(conns_v(self.connections@))
    }

    /// Tokens of in-flight executions by request id.
    pub closed spec fn in_flight(&self) -> Map<u64, T> {
        to_map(self.in_flight@)
    }

    pub closed spec fn wf(&self) -> bool {
        &&& unique_keys(conns_v(self.connections@))
        &&& unique_keys(self.in_flight@)
        &&& forall|i: int| 0 <= i < self.connections@.len() ==> (#[trigger] self.connections@[i]).1.wf()
    }

    /// Every stored connection is well formed.
    pub proof fn lemma_entries_wf(&self, k: (Seq<char>, Seq<char>))
        requires
            self.wf(),
            self@.contains_key(k),
        ensures
            self@[k].wf(),
    {
        let s = conns_v(self.connections@);
        let i = choose|i: int| 0 <= i < s.len() && s[i].0 == k;
        lemma_to_map_index(s, i);
        assert(s[i].1 == self.connections@[i].1);
    }

    /// An empty pool.
    pub fn new() -> (r: Self)
        ensures
            r.wf(),
            r@ == Map::<(Seq<char>, Seq<char>), GrpcConnection<C, T>>::empty(),
            r.in_flight() == Map::<u64, T>::empty(),
    {
        let r = GrpcPool { connections: Vec::new(), in_flight: Vec::new() };
        proof {
            assert(conns_v(r.connections@) =~= Seq::empty());
            lemma_to_map_empty::<(Seq<char>, Seq<char>), GrpcConnection<C, T>>();
            lemma_to_map_empty::<u64, T>();
        }
        r
    }

    fn find(&self, execution_id: &str, connection_id: &str) -> (r: Option<usize>)
        requires
            self.wf(),
        ensures
            match r {
                Some(i) => i < self.connections@.len() && conns_v(self.connections@)[i as int].0 == conn_key(
                    execution_id@,
                    connection_id@,
                ),
                None => !has_key(conns_v(self.connections@), conn_key(execution_id@, connection_id@)),
            },
    {
        let ghost s = conns_v(self.connections@);
        let mut i: usize = 0;
        while i < self.connections.len()
            invariant
                i <= self.connections@.len(),
                s == conns_v(self.connections@),
                forall|j: int| 0 <= j < i ==> s[j].0 != conn_key(execution_id@, connection_id@),
            decreases self.connections.len() - i,
        {
            let k = &self.connections[i].0;
            if str_eq(k.0.as_str(), execution_id) && str_eq(k.1.as_str(), connection_id) {
                return Some(i);
            }
            i = i + 1;
        }
        None
    }

    /// First connection with the given connection id, whatever its execution.
    fn find_any(&self, connection_id: &str) -> (r: Option<usize>)
        requires
            self.wf(),
        ensures
            match r {
                Some(i) => i < self.connections@.len() && conns_v(self.connections@)[i as int].0.1 == connection_id@,
                None => forall|k: (Seq<char>, Seq<char>)| #[trigger] self@.contains_key(k) ==> k.1 != connection_id@,
            },
    {
        let ghost s = conns_v(self.connections@);
        let mut i: usize = 0;
        while i < self.connections.len()
            invariant
                i <= self.connections@.len(),
                s == conns_v(self.connections@),
                forall|j: int| 0 <= j < i ==> s[j].0.1 != connection_id@,
            decreases self.connections.len() - i,
        {
            if str_eq(self.connections[i].0.1.as_str(), connection_id) {
                return Some(i);
            }
            i = i + 1;
        }
        proof {
            assert forall|k: (Seq<char>, Seq<char>)| #[trigger] self@.contains_key(k) implies k.1 != connection_id@ by {
                let j = choose|j: int| 0 <= j < s.len() && s[j].0 == k;
            }
        }
        None
    }

    /// Looks a connection up: by key, or by connection id alone when the
    /// execution id is empty (callers that do not know the execution).
    fn locate(&self, execution_id: &str, connection_id: &str) -> (r: Option<usize>)
        requires
            self.wf(),
        ensures
            match r {
                Some(i) => i < self.connections@.len() && self@.contains_key(conns_v(self.connections@)[i as int].0)
                    && self@[conns_v(self.connections@)[i as int].0] == self.connections@[i as int].1
                    && if execution_id@.len() == 0 {
                    conns_v(self.connections@)[i as int].0.1 == connection_id@
                } else {
                    conns_v(self.connections@)[i as int].0 == conn_key(execution_id@, connection_id@)
                },
                None => if execution_id@.len() == 0 {
                    forall|k: (Seq<char>, Seq<char>)| #[trigger] self@.contains_key(k) ==> k.1 != connection_id@
                } else {
                    !self@.contains_key(conn_key(execution_id@, connection_id@))
                },
            },
    {
        let r = if execution_id.is_empty() {
            self.find_any(connection_id)
        } else {
            self.find(execution_id, connection_id)
        };
        proof {
            let s = conns_v(self.connections@);
            match r {
                Some(i) => {
                    lemma_to_map_index(s, i as int);
                    assert(s[i as int].1 == self.connections@[i as int].1);
                },
                None => {},
            }
        }
        r
    }

    /// Stores a connection under (execution id, connection id), replacing any
    /// connection stored there before (the last step of `connect`).
    pub fn insert_connection(&mut self, execution_id: &str, connection_id: &str, conn: GrpcConnection<C, T>)
        requires
            old(self).wf(),
            conn.wf(),
        ensures
            final(self).wf(),
            final(self)@ == old(self)@.insert(conn_key(execution_id@, connection_id@), conn),
            final(self).in_flight() == old(self).in_flight(),
    {
        let ghost s = conns_v(self.connections@);
        let key = (crate::text::owned(execution_id), crate::text::owned(connection_id));
        match self.find(execution_id, connection_id) {
            Some(i) => {
                let ghost before = self.connections@;
                self.connections.set(i, (key, conn));
                proof {
                    assert(conns_v(self.connections@) =~= s.update(i as int, (s[i as int].0, conn)));
                    lemma_to_map_update(s, i as int, conn);
                    assert forall|j: int| 0 <= j < self.connections@.len() implies (#[trigger] self.connections@[j]).1.wf() by {
                        if j != i {
                            assert(self.connections@[j] == before[j]);
                        }
                    }
                }
            },
            None => {
                let ghost before = self.connections@;
                self.connections.push((key, conn));
                proof {
                    assert(conns_v(self.connections@) =~= s.push((conn_key(execution_id@, connection_id@), conn)));
                    lemma_to_map_push(s, conn_key(execution_id@, connection_id@), conn);
                    assert forall|j: int| 0 <= j < self.connections@.len() implies (#[trigger] self.connections@[j]).1.wf() by {
                        if j < before.len() {
                            assert(self.connections@[j] == before[j]);
                        }
                    }
                }
            },
        }
    }

    /// The connection stored under (execution id, connection id).
    pub fn snapshot(&self, execution_id: &str, connection_id: &str) -> (r: Result<&GrpcConnection<C, T>, String>)
        requires
            self.wf(),
        ensures
            match r {
                Ok(c) => self@.contains_key(conn_key(execution_id@, connection_id@)) && *c == self@[conn_key(
                    execution_id@,
                    connection_id@,
                )],
                Err(e) => !self@.contains_key(conn_key(execution_id@, connection_id@)) && e@ == missing_connection(
                    connection_id@,
                ),
            },
    {
        match self.find(execution_id, connection_id) {
            Some(i) => {
                proof {
                    let s = conns_v(self.connections@);
                    lemma_to_map_index(s, i as int);
                    assert(s[i as int].1 == self.connections@[i as int].1);
                }
                Ok(&self.connections[i].1)
            },
            None => Err(concat3("connection '", connection_id, "' does not exist")),
        }
    }

    /// The connection found by `locate` rules: by key, or by connection id alone
    /// when the execution id is empty.
    pub fn lookup(&self, execution_id: &str, connection_id: &str) -> (r: Result<&GrpcConnection<C, T>, String>)
        requires
            self.wf(),
        ensures
            match r {
                Ok(c) => exists|k: (Seq<char>, Seq<char>)|
                    #![trigger self@[k]]
                    self@.contains_key(k) && self@[k] == *c && if execution_id@.len() == 0 {
                        k.1 == connection_id@
                    } else {
                        k == conn_key(execution_id@, connection_id@)
                    },
                Err(e) => e@ == missing_connection(connection_id@) && if execution_id@.len() == 0 {
                    forall|k: (Seq<char>, Seq<char>)| #[trigger] self@.contains_key(k) ==> k.1 != connection_id@
                } else {
                    !self@.contains_key(conn_key(execution_id@, connection_id@))
                },
            },
    {
        match self.locate(execution_id, connection_id) {
            Some(i) => {
                proof {
                    let k = conns_v(self.connections@)[i as int].0;
                    assert(self@[k] == self.connections@[i as int].1);
                }
                Ok(&self.connections[i].1)
            },
            None => Err(concat3("connection '", connection_id, "' does not exist")),
        }
    }

    /// Services of a connection with their message definitions;
    /// `None` when no connection is stored under the key.
    pub fn list_services(&self, execution_id: &str, connection_id: &str) -> (r: Option<Vec<GrpcServiceInfo>>)
        requires
            self.wf(),
        ensures
            match r {
                Some(v) => self@.contains_key(conn_key(execution_id@, connection_id@)) && {
                    let s = self@[conn_key(execution_id@, connection_id@)].schema;
                    &&& v@.len() == s.services@.len()
                    &&& forall|i: int| 0 <= i < v@.len() ==> service_v(#[trigger] v@[i]) == service_report(s, s.services@[i])
                },
                None => !self@.contains_key(conn_key(execution_id@, connection_id@)),
            },
    {
        match self.snapshot(execution_id, connection_id) {
            Ok(c) => {
                proof {
                    self.lemma_entries_wf(conn_key(execution_id@, connection_id@));
                }
                Some(services_from_pool(&c.schema))
            },
            Err(_) => None,
        }
    }

    /// Retry defaults of a connection: its own values, or
    /// no retries and a 1000 ms backoff when no connection is stored under the key.
    pub fn get_retry_defaults(&self, execution_id: &str, connection_id: &str) -> (r: (u32, u64))
        requires
            self.wf(),
        ensures
            r == retry_defaults(self@, conn_key(execution_id@, connection_id@)),
    {
        match self.snapshot(execution_id, connection_id) {
            Ok(c) => (c.max_retries, c.initial_backoff_ms),
            Err(_) => (0, 1000),
        }
    }

    /// Drops a connection; an error when none is stored under the key.
    pub fn close(&mut self, execution_id: &str, connection_id: &str) -> (r: Result<(), String>)
        requires
            old(self).wf(),
        ensures
            final(self).wf(),
            final(self).in_flight() == old(self).in_flight(),
            r is Ok <==> old(self)@.contains_key(conn_key(execution_id@, connection_id@)),
            final(self)@ == old(self)@.remove(conn_key(execution_id@, connection_id@)),
            match r {
                Ok(_) => true,
                Err(e) => e@ == missing_connection(connection_id@),
            },
    {
        let ghost s = conns_v(self.connections@);
        match self.find(execution_id, connection_id) {
            Some(i) => {
                let ghost before = self.connections@;
                self.connections.remove(i);
                proof {
                    assert(conns_v(self.connections@) =~= s.remove(i as int));
                    lemma_to_map_remove(s, i as int);
                    lemma_to_map_index(s, i as int);
                    assert forall|j: int| 0 <= j < self.connections@.len() implies (#[trigger] self.connections@[j]).1.wf() by {
                        if j < i {
                            assert(self.connections@[j] == before[j]);
                        } else {
                            assert(self.connections@[j] == before[j + 1]);
                        }
                    }
                }
                Ok(())
            },
            None => {
                proof {
                    assert(self@ =~= self@.remove(conn_key(execution_id@, connection_id@)));
                }
                Err(concat3("connection '", connection_id, "' does not exist"))
            },
        }
    }

    /// Drops every connection of an execution; the others stay.
    pub fn close_all(&mut self, execution_id: &str)
        requires
            old(self).wf(),
        ensures
            final(self).wf(),
            final(self).in_flight() == old(self).in_flight(),
            final(self)@ == without_execution(old(self)@, execution_id@),
    {
        let ghost s0 = conns_v(self.connections@);
        let ghost m0 = self@;
        let mut i: usize = 0;
        while i < self.connections.len()
            invariant
                i <= self.connections@.len(),
                self.wf(),
                self.in_flight() == old(self).in_flight(),
                m0 == old(self)@,
                forall|j: int| 0 <= j < i ==> (#[trigger] conns_v(self.connections@)[j]).0.0 != execution_id@,
                forall|k: (Seq<char>, Seq<char>)|
                    #[trigger] self@.contains_key(k) ==> m0.contains_key(k) && self@[k] == m0[k],
                forall|k: (Seq<char>, Seq<char>)|
                    #[trigger] m0.contains_key(k) && k.0 != execution_id@ ==> self@.contains_key(k),
            decreases self.connections.len() - i,
        {
            let ghost s = conns_v(self.connections@);
            let ghost mprev = self@;
            if str_eq(self.connections[i].0.0.as_str(), execution_id) {
                let ghost before = self.connections@;
                self.connections.remove(i);
                proof {
                    assert(conns_v(self.connections@) =~= s.remove(i as int));
                    lemma_to_map_remove(s, i as int);
                    assert forall|j: int| 0 <= j < self.connections@.len() implies (#[trigger] self.connections@[j]).1.wf() by {
                        if j < i {
                            assert(self.connections@[j] == before[j]);
                        } else {
                            assert(self.connections@[j] == before[j + 1]);
                        }
                    }
                    assert forall|j: int| 0 <= j < i implies (#[trigger] conns_v(self.connections@)[j]).0.0 != execution_id@ by {
                        assert(conns_v(self.connections@)[j] == s[j]);
                    }
                    assert(self@ == mprev.remove(s[i as int].0));
                    assert forall|k: (Seq<char>, Seq<char>)| #[trigger] self@.contains_key(k) implies m0.contains_key(k) && self@[k] == m0[k] by {
                        assert(mprev.contains_key(k));
                    }
                    assert forall|k: (Seq<char>, Seq<char>)| #[trigger] m0.contains_key(k) && k.0 != execution_id@ implies self@.contains_key(k) by {
                        assert(mprev.contains_key(k));
                    }
                }
            } else {
                i = i + 1;
            }
        }
        proof {
            let m1 = self@;
            let want = without_execution(m0, execution_id@);
            assert forall|k: (Seq<char>, Seq<char>)| m1.contains_key(k) implies k.0 != execution_id@ by {
                let s = conns_v(self.connections@);
                let j = choose|j: int| 0 <= j < s.len() && s[j].0 == k;
                assert(s[j].0.0 != execution_id@);
            }
            assert(m1 =~= want);
        }
    }

    /// Registers the token of a streaming call on its connection.
    pub fn register_call(&mut self, execution_id: &str, connection_id: &str, call_id: &str, token: T) -> (r: Result<(), String>)
        requires
            old(self).wf(),
        ensures
            final(self).wf(),
            final(self).in_flight() == old(self).in_flight(),
            r is Ok <==> old(self)@.contains_key(conn_key(execution_id@, connection_id@)),
            match r {
                Ok(_) => {
                    let k = conn_key(execution_id@, connection_id@);
                    &&& final(self)@.dom() == old(self)@.dom()
                    &&& forall|x: (Seq<char>, Seq<char>)| #[trigger] final(self)@.contains_key(x) && x != k ==> final(self)@[x] == old(self)@[x]
                    &&& final(self)@[k].calls() == old(self)@[k].calls().insert(call_id@, token)
                    &&& same_connection(final(self)@[k], old(self)@[k])
                },
                Err(e) => final(self)@ == old(self)@ && e@ == missing_connection(connection_id@),
            },
    {
        match self.find(execution_id, connection_id) {
            Some(i) => {
                let ghost s = conns_v(self.connections@);
                let ghost before = self.connections@;
                let (key, mut conn) = self.connections.remove(i);
                let ghost oc = conn;
                proof {
                    lemma_to_map_index(s, i as int);
                    assert(before[i as int].1.wf());
                }
                set_call(&mut conn.active_calls, call_id, token);
                self.connections.insert(i, (key, conn));
                proof {
                    assert(conns_v(self.connections@) =~= s.update(i as int, (s[i as int].0, conn)));
                    lemma_to_map_update(s, i as int, conn);
                    assert forall|j: int| 0 <= j < self.connections@.len() implies (#[trigger] self.connections@[j]).1.wf() by {
                        if j != i {
                            assert(self.connections@[j] == before[j]);
                        }
                    }
                }
                Ok(())
            },
            None => Err(concat3("connection '", connection_id, "' does not exist")),
        }
    }

    /// Forgets the token of a finished streaming call; a no-op when the
    /// connection or the call is gone.
    pub fn finish_call(&mut self, execution_id: &str, connection_id: &str, call_id: &str)
        requires
            old(self).wf(),
        ensures
            final(self).wf(),
            final(self).in_flight() == old(self).in_flight(),
            final(self)@.dom() == old(self)@.dom(),
            forall|x: (Seq<char>, Seq<char>)|
                #[trigger] final(self)@.contains_key(x) && x != conn_key(execution_id@, connection_id@) ==> final(self)@[x]
                    == old(self)@[x],
            old(self)@.contains_key(conn_key(execution_id@, connection_id@)) ==> final(self)@[conn_key(
                execution_id@,
                connection_id@,
            )].calls() == old(self)@[conn_key(execution_id@, connection_id@)].calls().remove(call_id@) && same_connection(
                final(self)@[conn_key(execution_id@, connection_id@)],
                old(self)@[conn_key(execution_id@, connection_id@)],
            ),
    {
        match self.find(execution_id, connection_id) {
            Some(i) => {
                let ghost s = conns_v(self.connections@);
                let ghost before = self.connections@;
                let (key, mut conn) = self.connections.remove(i);
                proof {
                    lemma_to_map_index(s, i as int);
                    assert(before[i as int].1.wf());
                }
                let _ = take_call(&mut conn.active_calls, call_id);
                self.connections.insert(i, (key, conn));
                proof {
                    assert(conns_v(self.connections@) =~= s.update(i as int, (s[i as int].0, conn)));
                    lemma_to_map_update(s, i as int, conn);
                    assert forall|j: int| 0 <= j < self.connections@.len() implies (#[trigger] self.connections@[j]).1.wf() by {
                        if j != i {
                            assert(self.connections@[j] == before[j]);
                        }
                    }
                }
            },
            None => {},
        }
    }

    /// Cancels a running streaming call: removes its token from
    /// the connection found by `lookup` rules and hands it back for cancelling.
    pub fn cancel_stream(&mut self, execution_id: &str, connection_id: &str, call_id: &str) -> (r: Result<T, String>)
        requires
            old(self).wf(),
        ensures
            final(self).wf(),
            final(self).in_flight() == old(self).in_flight(),
            final(self)@.dom() == old(self)@.dom(),
            match r {
                Ok(t) => exists|k: (Seq<char>, Seq<char>)|
                    #![trigger old(self)@[k]]
                    old(self)@.contains_key(k) && (if execution_id@.len() == 0 {
                        k.1 == connection_id@
                    } else {
                        k == conn_key(execution_id@, connection_id@)
                    }) && old(self)@[k].calls().contains_key(call_id@) && old(self)@[k].calls()[call_id@] == t
                        && final(self)@[k].calls() == old(self)@[k].calls().remove(call_id@) && same_connection(
                        final(self)@[k],
                        old(self)@[k],
                    ) && forall|
                        x: (Seq<char>, Seq<char>),
                    |
                        #[trigger] final(self)@.contains_key(x) && x != k ==> final(self)@[x] == old(self)@[x],
                Err(e) => final(self)@ == old(self)@ && ((e@ == missing_call(call_id@) && exists|k: (Seq<char>, Seq<char>)|
                    #![trigger old(self)@[k]]
                    old(self)@.contains_key(k) && (if execution_id@.len() == 0 {
                        k.1 == connection_id@
                    } else {
                        k == conn_key(execution_id@, connection_id@)
                    }) && !old(self)@[k].calls().contains_key(call_id@)) || (e@ == missing_connection(
                    connection_id@,
                ) && if execution_id@.len() == 0 {
                    forall|k: (Seq<char>, Seq<char>)| #[trigger] old(self)@.contains_key(k) ==> k.1 != connection_id@
                } else {
                    !old(self)@.contains_key(conn_key(execution_id@, connection_id@))
                })),
            },
    {
        match self.locate(execution_id, connection_id) {
            Some(i) => {
                let ghost s = conns_v(self.connections@);
                let ghost before = self.connections@;
                proof {
                    lemma_to_map_index(s, i as int);
                    assert(before[i as int].1.wf());
                }
                let found = find_call(&self.connections[i].1.active_calls, call_id);
                if found.is_none() {
                    proof {
                        let k = s[i as int].0;
                        assert(old(self)@[k] == before[i as int].1);
                        assert(!old(self)@[k].calls().contains_key(call_id@));
                    }
                    return Err(concat3("call '", call_id, "' does not exist or already finished"));
                }
                let ghost j: int = match found {
                    Some(j) => j as int,
                    None => 0,
                };
                let (key, mut conn) = self.connections.remove(i);
                let taken = take_call(&mut conn.active_calls, call_id);
                self.connections.insert(i, (key, conn));
                proof {
                    assert(self.connections@ =~= before.update(i as int, (key, conn)));
                    assert(conns_v(self.connections@) =~= s.update(i as int, (s[i as int].0, conn)));
                    lemma_to_map_update(s, i as int, conn);
                    assert forall|j: int| 0 <= j < self.connections@.len() implies (#[trigger] self.connections@[j]).1.wf() by {
                        if j != i {
                            assert(self.connections@[j] == before[j]);
                        }
                    }
                }
                match taken {
                    Some(t) => Ok(t),
                    None => {
                        proof {
                            assert(calls_v(before[i as int].1.active_calls@)[j].0 == call_id@);
                            assert(has_key(calls_v(before[i as int].1.active_calls@), call_id@));
                        }
                        Err(concat3("call '", call_id, "' does not exist or already finished"))
                    },
                }
            },
            None => Err(concat3("connection '", connection_id, "' does not exist")),
        }
    }

    /// Registers the token of an in-flight execution when its request id is known.
    pub fn register_in_flight(&mut self, request_id: Option<u64>, token: T)
        requires
            old(self).wf(),
        ensures
            final(self).wf(),
            final(self)@ == old(self)@,
            final(self).in_flight() == match request_id {
                Some(id) => old(self).in_flight().insert(id, token),
                None => old(self).in_flight(),
            },
    {
        match request_id {
            Some(id) => {
                let ghost s = self.in_flight@;
                match find_id(&self.in_flight, id) {
                    Some(i) => {
                        self.in_flight.set(i, (id, token));
                        proof {
                            lemma_to_map_update(s, i as int, token);
                        }
                    },
                    None => {
                        self.in_flight.push((id, token));
                        proof {
                            lemma_to_map_push(s, id, token);
                        }
                    },
                }
            },
            None => {},
        }
    }

    /// Forgets the token of an in-flight execution.
    pub fn unregister_in_flight(&mut self, request_id: Option<u64>)
        requires
            old(self).wf(),
        ensures
            final(self).wf(),
            final(self)@ == old(self)@,
            final(self).in_flight() == match request_id {
                Some(id) => old(self).in_flight().remove(id),
                None => old(self).in_flight(),
            },
    {
        match request_id {
            Some(id) => {
                let ghost s = self.in_flight@;
                match find_id(&self.in_flight, id) {
                    Some(i) => {
                        self.in_flight.remove(i);
                        proof {
                            lemma_to_map_remove(s, i as int);
                            lemma_to_map_index(s, i as int);
                        }
                    },
                    None => {
                        proof {
                            assert(self.in_flight() =~= self.in_flight().remove(id));
                        }
                    },
                }
            },
            None => {},
        }
    }

    /// The token of an in-flight execution; `None` when the
    /// execution is not (or no longer) registered.
    pub fn cancel_request(&self, request_id: u64) -> (r: Option<&T>)
        requires
            self.wf(),
        ensures
            match r {
                Some(t) => self.in_flight().contains_key(request_id) && *t == self.in_flight()[request_id],
                None => !self.in_flight().contains_key(request_id),
            },
    {
        match find_id(&self.in_flight, request_id) {
            Some(i) => {
                proof {
                    lemma_to_map_index(self.in_flight@, i as int);
                }
                Some(&self.in_flight[i].1)
            },
            None => None,
        }
    }
}

/// The connections of every execution but `e`.
pub open spec fn without_execution<C, T>(m: Map<(Seq<char>, Seq<char>), GrpcConnection<C, T>>, e: Seq<char>) -> Map<
    (Seq<char>, Seq<char>),
    GrpcConnection<C, T>,
> {
    m.restrict(m.dom().filter(|k: (Seq<char>, Seq<char>)| k.0 != e))
}

/// Retry defaults for a key: the connection's, or (0, 1000) without one.
pub open spec fn retry_defaults<C, T>(m: Map<(Seq<char>, Seq<char>), GrpcConnection<C, T>>, k: (Seq<char>, Seq<char>)) -> (u32, u64) {
    if m.contains_key(k) {
        (m[k].max_retries, m[k].initial_backoff_ms)
    } else {
        (0u32, 1000u64)
    }
}

fn find_id<T>(v: &Vec<(u64, T)>, id: u64) -> (r: Option<usize>)
    ensures
        match r {
            Some(i) => i < v@.len() && v@[i as int].0 == id,
            None => !has_key(v@, id),
        },
{
    let mut i: usize = 0;
    while i < v.len()
        invariant
            i <= v@.len(),
            forall|j: int| 0 <= j < i ==> v@[j].0 != id,
        decreases v.len() - i,
    {
        if v[i].0 == id {
            return Some(i);
        }
        i = i + 1;
    }
    None
}

fn find_call<T>(v: &Vec<(String, T)>, call_id: &str) -> (r: Option<usize>)
    ensures
        match r {
            Some(i) => i < v@.len() && calls_v(v@)[i as int].0 == call_id@,
            None => !has_key(calls_v(v@), call_id@),
        },
{
    let ghost s = calls_v(v@);
    let mut i: usize = 0;
    while i < v.len()
        invariant
            i <= v@.len(),
            s == calls_v(v@),
            forall|j: int| 0 <= j < i ==> s[j].0 != call_id@,
        decreases v.len() - i,
    {
        if str_eq(v[i].0.as_str(), call_id) {
            return Some(i);
        }
        i = i + 1;
    }
    None
}

/// Sets the token of a call, replacing an earlier one under the same id.
fn set_call<T>(v: &mut Vec<(String, T)>, call_id: &str, token: T)
    requires
        unique_keys(calls_v(old(v)@)),
    ensures
        unique_keys(calls_v(final(v)@)),
        to_map(calls_v(final(v)@)) == to_map(calls_v(old(v)@)).insert(call_id@, token),
{
    let ghost s = calls_v(v@);
    match find_call(v, call_id) {
        Some(i) => {
            v.set(i, (crate::text::owned(call_id), token));
            proof {
                assert(calls_v(v@) =~= s.update(i as int, (s[i as int].0, token)));
                lemma_to_map_update(s, i as int, token);
            }
        },
        None => {
            v.push((crate::text::owned(call_id), token));
            proof {
                assert(calls_v(v@) =~= s.push((call_id@, token)));
                lemma_to_map_push(s, call_id@, token);
            }
        },
    }
}

/// Removes the token of a call and hands it back.
fn take_call<T>(v: &mut Vec<(String, T)>, call_id: &str) -> (r: Option<T>)
    requires
        unique_keys(calls_v(old(v)@)),
    ensures
        unique_keys(calls_v(final(v)@)),
        to_map(calls_v(final(v)@)) == to_map(calls_v(old(v)@)).remove(call_id@),
        match r {
            Some(t) => to_map(calls_v(old(v)@)).contains_key(call_id@) && to_map(calls_v(old(v)@))[call_id@] == t,
            None => !to_map(calls_v(old(v)@)).contains_key(call_id@) && final(v)@ == old(v)@,
        },
{
    let ghost s = calls_v(v@);
    match find_call(v, call_id) {
        Some(i) => {
            let (_, t) = v.remove(i);
            proof {
                assert(calls_v(v@) =~= s.remove(i as int));
                lemma_to_map_remove(s, i as int);
                lemma_to_map_index(s, i as int);
            }
            Some(t)
        },
        None => {
            proof {
                assert(to_map(s) =~= to_map(s).remove(call_id@));
            }
            None
        },
    }
}

} // verus!
