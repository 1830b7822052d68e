//! Filter registry: maps filter type names to their factories.

use vstd::prelude::*;
use crate::pipeline::ProtocolKind;
use crate::text::{push_str, str_eq};

verus! {

/// The built-in filter types.
#[derive(Debug, Clone, Copy, PartialEq, Eq, Structural)]
pub enum BuiltinFilter {
    /// Structured access log (`access_log`).
    AccessLog,
    /// Header manipulation (`headers`).
    Headers,
    /// Forwarded-header injection (`forwarded_headers`).
    ForwardedHeaders,
    /// IP access control (`ip_acl`).
    IpAcl,
    /// Upstream endpoint selection (`load_balancer`).
    LoadBalancer,
    /// Request correlation IDs (`request_id`).
    RequestId,
    /// Path/host routing (`router`).
    Router,
    /// Fixed responses (`static_response`).
    StaticResponse,
    /// TCP connection log (`tcp_access_log`).
    TcpAccessLog,
    /// Request timeouts (`timeout`).
    Timeout,
    /// JSON body field promotion (`json_body_field`).
    JsonBodyField,
}

/// How a registered filter type is instantiated: a built-in, or a custom
/// HTTP or TCP factory identified by a number the host assigns.
#[derive(Debug, Clone, Copy, PartialEq, Eq, Structural)]
pub enum FilterFactory {
    /// One of the built-in filters.
    Builtin(BuiltinFilter),
    /// A custom HTTP filter factory.
    Http(u32),
    /// A custom TCP filter factory.
    Tcp(u32),
}

impl FilterFactory {
    /// The protocol level of filters this factory creates.
    pub open spec fn spec_protocol(self) -> ProtocolKind {
        match self {
            FilterFactory::Builtin(BuiltinFilter::TcpAccessLog) => ProtocolKind::Tcp,
            FilterFactory::Builtin(_) => ProtocolKind::Http,
            FilterFactory::Http(_) => ProtocolKind::Http,
            FilterFactory::Tcp(_) => ProtocolKind::Tcp,
        }
    }

    /// The protocol level of filters this factory creates.
    pub fn protocol(&self) -> (r: ProtocolKind)
        ensures
            r == self.spec_protocol(),
    {
        match self {
            FilterFactory::Builtin(BuiltinFilter::TcpAccessLog) => ProtocolKind::Tcp,
            FilterFactory::Builtin(_) => ProtocolKind::Http,
            FilterFactory::Http(_) => ProtocolKind::Http,
            FilterFactory::Tcp(_) => ProtocolKind::Tcp,
        }
    }
}

/// Error for a filter type name that is not registered.
#[derive(Debug)]
pub struct UnknownFilter {
    /// The requested name.
    pub name: String,
}

impl UnknownFilter {
    /// The error message.
    pub fn to_string(&self) -> (r: String)
        ensures
            r@ == "unknown filter type: '"@ + self.name@ + "'"@,
    {
        let mut s = String::new();
        push_str(&mut s, "unknown filter type: '");
        push_str(&mut s, self.name.as_str());
        push_str(&mut s, "'");
        s
    }
}

/// Error for registering a name that is already taken.
#[derive(Debug)]
pub struct DuplicateFilter {
    /// The name that was already registered.
    pub name: String,
}

impl DuplicateFilter {
    /// The error's message.
    pub fn to_string(&self) -> (r: String)
        ensures
            r@ == "duplicate filter name: '"@ + self.name@ + "'"@,
    {
        let mut s = String::new();
        push_str(&mut s, "duplicate filter name: '");
        push_str(&mut s, self.name.as_str());
        push_str(&mut s, "'");
        s
    }
}

/// The factory registered under `name` in `es`, if any.
pub open spec fn lookup(es: Seq<(Seq<char>, FilterFactory)>, name: Seq<char>) -> Option<FilterFactory>
    decreases es.len(),
{
    if es.len() == 0 {
        None
    } else if es.last().0 == name {
        Some(es.last().1)
    } else {
        lookup(es.drop_last(), name)
    }
}

/// The built-in registrations, in registration order.
pub open spec fn builtin_entries() -> Seq<(Seq<char>, FilterFactory)> {
    seq![
        ("access_log"@, FilterFactory::Builtin(BuiltinFilter::AccessLog)),
        ("headers"@, FilterFactory::Builtin(BuiltinFilter::Headers)),
        ("forwarded_headers"@, FilterFactory::Builtin(BuiltinFilter::ForwardedHeaders)),
        ("ip_acl"@, FilterFactory::Builtin(BuiltinFilter::IpAcl)),
        ("load_balancer"@, FilterFactory::Builtin(BuiltinFilter::LoadBalancer)),
        ("request_id"@, FilterFactory::Builtin(BuiltinFilter::RequestId)),
        ("router"@, FilterFactory::Builtin(BuiltinFilter::Router)),
        ("static_response"@, FilterFactory::Builtin(BuiltinFilter::StaticResponse)),
        ("tcp_access_log"@, FilterFactory::Builtin(BuiltinFilter::TcpAccessLog)),
        ("timeout"@, FilterFactory::Builtin(BuiltinFilter::Timeout)),
        ("json_body_field"@, FilterFactory::Builtin(BuiltinFilter::JsonBodyField)),
    ]
}

/// Registry of available filter types.
#[derive(Debug)]
pub struct FilterRegistry {
    factories: Vec<(String, FilterFactory)>,
}

impl View for FilterRegistry {
    type V = Seq<(Seq<char>, FilterFactory)>;

    closed spec fn view(&self) -> Seq<(Seq<char>, FilterFactory)> {
        self.factories@.map_values(|e: (String, FilterFactory)| (e.0@, e.1))
    }
}

impl FilterRegistry {
    /// The factory registered under `name`, if any.
    pub open spec fn factory(&self, name: Seq<char>) -> Option<FilterFactory> {
        lookup(self@, name)
    }

    /// Whether `name` is registered.
    pub open spec fn has(&self, name: Seq<char>) -> bool {
        self.factory(name) is Some
    }

    /// The registered names, in registration order.
    pub open spec fn names(&self) -> Seq<Seq<char>> {
        self@.map_values(|e: (Seq<char>, FilterFactory)| e.0)
    }

    /// No name is registered twice.
    pub open spec fn wf(&self) -> bool {
        forall|i: int, j: int| 0 <= i < j < self@.len() ==> self@[i].0 != self@[j].0
    }

    fn find(&self, name: &str) -> (r: Option<usize>)
        ensures
            r matches Some(i) ==> i < self@.len() && self@[i as int].0 == name@,
            r is None ==> forall|i: int| 0 <= i < self@.len() ==> self@[i].0 != name@,
    {
        let mut i: usize = 0;
        while i < self.factories.len()
            invariant
                i <= self@.len(),
                self@.len() == self.factories@.len(),
                forall|j: int| 0 <= j < i ==> self@[j].0 != name@,
            decreases self@.len() - i,
        {
            if str_eq(self.factories[i].0.as_str(), name) {
                return Some(i);
            }
            i = i + 1;
        }
        None
    }

    /// Create a registry with only the built-in filters.
    pub fn with_builtins() -> (r: Self)
        ensures
            r.wf(),
            r@ == builtin_entries(),
    {
        proof {
            reveal_strlit("access_log");
            reveal_strlit("headers");
            reveal_strlit("forwarded_headers");
            reveal_strlit("ip_acl");
            reveal_strlit("load_balancer");
            reveal_strlit("request_id");
            reveal_strlit("router");
            reveal_strlit("static_response");
            reveal_strlit("tcp_access_log");
            reveal_strlit("timeout");
            reveal_strlit("json_body_field");
        }
        let mut factories: Vec<(String, FilterFactory)> = Vec::new();
        factories.push(("access_log".to_owned(), FilterFactory::Builtin(BuiltinFilter::AccessLog)));
        factories.push(("headers".to_owned(), FilterFactory::Builtin(BuiltinFilter::Headers)));
        factories.push(
            ("forwarded_headers".to_owned(), FilterFactory::Builtin(BuiltinFilter::ForwardedHeaders)),
        );
        factories.push(("ip_acl".to_owned(), FilterFactory::Builtin(BuiltinFilter::IpAcl)));
        factories.push(("load_balancer".to_owned(), FilterFactory::Builtin(BuiltinFilter::LoadBalancer)));
        factories.push(("request_id".to_owned(), FilterFactory::Builtin(BuiltinFilter::RequestId)));
        factories.push(("router".to_owned(), FilterFactory::Builtin(BuiltinFilter::Router)));
        factories.push(
            ("static_response".to_owned(), FilterFactory::Builtin(BuiltinFilter::StaticResponse)),
        );
        factories.push(("tcp_access_log".to_owned(), FilterFactory::Builtin(BuiltinFilter::TcpAccessLog)));
        factories.push(("timeout".to_owned(), FilterFactory::Builtin(BuiltinFilter::Timeout)));
        factories.push(("json_body_field".to_owned(), FilterFactory::Builtin(BuiltinFilter::JsonBodyField)));
        let r = FilterRegistry { factories };
        assert(r@ =~= builtin_entries());
        assert forall|i: int, j: int| 0 <= i < j < r@.len() implies r@[i].0 != r@[j].0 by {
            assert(r@[i].0.len() != r@[j].0.len() || r@[i].0[0] != r@[j].0[0] || r@[i].0[1] != r@[j].0[1]);
        }
        r
    }

    /// Register a filter factory under a new name. A name that is already
    /// taken is refused, and the registry is left unchanged.
    pub fn register(&mut self, name: &str, factory: FilterFactory) -> (r: Result<(), DuplicateFilter>)
        requires
            old(self).wf(),
        ensures
            final(self).wf(),
            r is Err <==> old(self).has(name@),
            r matches Err(e) ==> e.name@ == name@ && final(self)@ == old(self)@,
            r is Ok ==> final(self)@ == old(self)@.push((name@, factory)),
            r is Ok ==> forall|n: Seq<char>| #[trigger] final(self).factory(n) == if n == name@ {
                Some(factory)
            } else {
                old(self).factory(n)
            },
    {
        proof { lemma_lookup_index(self@, name@); }
        if self.find(name).is_some() {
            return Err(DuplicateFilter { name: name.to_owned() });
        }
        let ghost pre = self@;
        self.factories.push((name.to_owned(), factory));
        assert(self@ =~= pre.push((name@, factory)));
        assert(self@.drop_last() =~= pre);
        Ok(())
    }

    /// Set the factory of `name`, replacing the one registered under it if
    /// there is one.
    pub fn replace(&mut self, name: &str, factory: FilterFactory)
        requires
            old(self).wf(),
        ensures
            final(self).wf(),
            forall|n: Seq<char>| #[trigger] final(self).factory(n) == if n == name@ {
                Some(factory)
            } else {
                old(self).factory(n)
            },
    {
        proof { lemma_lookup_index(self@, name@); }
        match self.find(name) {
            Some(i) => {
                let ghost pre = self@;
                self.factories.set(i, (name.to_owned(), factory));
                proof {
                    assert(self@ =~= pre.update(i as int, (name@, factory)));
                    assert forall|n: Seq<char>| #[trigger] lookup(self@, n) == if n == name@ {
                        Some(factory)
                    } else {
                        lookup(pre, n)
                    } by {
                        lemma_lookup_update(pre, i as int, name@, factory, n);
                    }
                }
            },
            None => {
                let ghost pre = self@;
                self.factories.push((name.to_owned(), factory));
                assert(self@ =~= pre.push((name@, factory)));
                assert(self@.drop_last() =~= pre);
            },
        }
    }

    /// Look up the factory for a filter type name.
    pub fn create(&self, name: &str) -> (r: Result<FilterFactory, UnknownFilter>)
        requires
            self.wf(),
        ensures
            r matches Ok(f) ==> self.factory(name@) == Some(f),
            r matches Err(e) ==> self.factory(name@) is None && e.name@ == name@,
    {
        proof { lemma_lookup_index(self@, name@); }
        match self.find(name) {
            Some(i) => Ok(self.factories[i].1),
            None => Err(UnknownFilter { name: name.to_owned() }),
        }
    }

    /// A registry with the built-in filters and then each custom
    /// registration in order. The first custom name that is already taken
    /// (by a built-in or an earlier custom registration) is refused.
    pub fn with_custom(custom: &Vec<(String, FilterFactory)>) -> (r: Result<Self, DuplicateFilter>)
        ensures
            ({
                let cv = custom@.map_values(|e: (String, FilterFactory)| (e.0@, e.1));
                &&& r matches Ok(reg) ==> reg.wf() && reg@ == builtin_entries() + cv
                &&& r matches Err(e) ==> exists|k: int| 0 <= k < cv.len() && e.name@ == cv[k].0
                    && lookup(builtin_entries() + cv.subrange(0, k), cv[k].0) is Some
                    && forall|j: int| 0 <= j < k ==> #[trigger] lookup(builtin_entries() + cv.subrange(0, j), cv[j].0) is None
                &&& r is Err <==> exists|k: int| 0 <= k < cv.len()
                    && #[trigger] lookup(builtin_entries() + cv.subrange(0, k), cv[k].0) is Some
            }),
    {
        let mut registry = Self::with_builtins();
        let ghost cv = custom@.map_values(|e: (String, FilterFactory)| (e.0@, e.1));
        let mut i: usize = 0;
        proof {
            assert(builtin_entries() + cv.subrange(0, 0) =~= builtin_entries());
        }
        while i < custom.len()
            invariant
                i <= custom@.len(),
                cv == custom@.map_values(|e: (String, FilterFactory)| (e.0@, e.1)),
                registry.wf(),
                registry@ == builtin_entries() + cv.subrange(0, i as int),
                forall|j: int| 0 <= j < i ==> #[trigger] lookup(builtin_entries() + cv.subrange(0, j), cv[j].0) is None,
            decreases custom@.len() - i,
        {
            let ghost pre = registry@;
            match registry.register(custom[i].0.as_str(), custom[i].1) {
                Ok(()) => {
                    proof {
                        let post = builtin_entries() + cv.subrange(0, i + 1);
                        assert(post =~= pre.push((custom@[i as int].0@, custom@[i as int].1)));
                    }
                },
                Err(e) => {
                    proof {
                        assert(cv[i as int].0 == custom@[i as int].0@);
                    }
                    return Err(e);
                },
            }
            i = i + 1;
        }
        proof {
            assert(cv.subrange(0, custom@.len() as int) =~= cv);
        }
        Ok(registry)
    }

    /// Look up the factories for a pipeline's filter type names in order,
    /// stopping at the first unknown name.
    pub fn resolve_all(&self, names: &Vec<String>) -> (r: Result<Vec<FilterFactory>, UnknownFilter>)
        requires
            self.wf(),
        ensures
            r matches Ok(v) ==> v@.len() == names@.len()
                && forall|i: int| 0 <= i < names@.len() ==> self.factory((#[trigger] names@[i])@) == Some(v@[i]),
            r matches Err(e) ==> exists|k: int| 0 <= k < names@.len()
                && (#[trigger] names@[k])@ == e.name@ && self.factory(names@[k]@) is None
                && forall|j: int| 0 <= j < k ==> (#[trigger] self.factory(names@[j]@)) is Some,
            r is Err <==> exists|k: int| 0 <= k < names@.len() && (#[trigger] self.factory(names@[k]@)) is None,
    {
        let mut out: Vec<FilterFactory> = Vec::new();
        let mut i: usize = 0;
        while i < names.len()
            invariant
                self.wf(),
                i <= names@.len(),
                out@.len() == i,
                forall|j: int| 0 <= j < i ==> self.factory((#[trigger] names@[j])@) == Some(out@[j]),
            decreases names@.len() - i,
        {
            match self.create(names[i].as_str()) {
                Ok(f) => {
                    out.push(f);
                },
                Err(e) => {
                    proof {
                        assert forall|j: int| 0 <= j < i implies (#[trigger] self.factory(names@[j]@)) is Some by {
                            assert(self.factory(names@[j]@) == Some(out@[j]));
                        }
                    }
                    return Err(e);
                },
            }
            i = i + 1;
        }
        proof {
            assert forall|k: int| 0 <= k < names@.len() implies (#[trigger] self.factory(names@[k]@)) is Some by {
                assert(self.factory(names@[k]@) == Some(out@[k]));
            }
        }
        Ok(out)
    }

    /// Returns the names of all registered filter types.
    pub fn available_filters(&self) -> (r: Vec<&str>)
        ensures
            r@.map_values(|s: &str| s@) == self.names(),
    {
        let mut out: Vec<&str> = Vec::new();
        let mut i: usize = 0;
        while i < self.factories.len()
            invariant
                i <= self@.len(),
                self@.len() == self.factories@.len(),
                out@.map_values(|s: &str| s@) == self.names().subrange(0, i as int),
            decreases self@.len() - i,
        {
            let ghost before = out@.map_values(|s: &str| s@);
            out.push(self.factories[i].0.as_str());
            assert(out@.map_values(|s: &str| s@) =~= before.push(self.names()[i as int]));
            assert(self.names().subrange(0, i + 1) =~= self.names().subrange(0, i as int).push(
                self.names()[i as int],
            ));
            i = i + 1;
        }
        assert(self.names().subrange(0, self@.len() as int) =~= self.names());
        out
    }
}

/// In a registry without duplicate names, lookup finds exactly the entry
/// holding the name.
pub proof fn lemma_lookup_index(es: Seq<(Seq<char>, FilterFactory)>, name: Seq<char>)
    requires
        forall|i: int, j: int| 0 <= i < j < es.len() ==> es[i].0 != es[j].0,
    ensures
        (forall|i: int| 0 <= i < es.len() ==> es[i].0 != name) ==> lookup(es, name) is None,
        forall|i: int| 0 <= i < es.len() && es[i].0 == name ==> lookup(es, name) == Some(es[i].1),
    decreases es.len(),
{
    if es.len() > 0 {
        let d = es.drop_last();
        lemma_lookup_index(d, name);
        assert forall|i: int| 0 <= i < es.len() && es[i].0 == name implies lookup(es, name) == Some(
            es[i].1,
        ) by {
            if i < es.len() - 1 {
                assert(d[i] == es[i]);
            }
        }
    }
}

/// Replacing the entry at `i` (holding `name`) changes lookup only for `name`.
pub proof fn lemma_lookup_update(
    es: Seq<(Seq<char>, FilterFactory)>,
    i: int,
    name: Seq<char>,
    f: FilterFactory,
    n: Seq<char>,
)
    requires
        0 <= i < es.len(),
        es[i].0 == name,
        forall|a: int, b: int| 0 <= a < b < es.len() ==> es[a].0 != es[b].0,
    ensures
        lookup(es.update(i, (name, f)), n) == if n == name {
            Some(f)
        } else {
            lookup(es, n)
        },
    decreases es.len(),
{
    let u = es.update(i, (name, f));
    if i == es.len() - 1 {
        assert(u.drop_last() =~= es.drop_last());
    } else {
        assert(u.drop_last() =~= es.drop_last().update(i, (name, f)));
        lemma_lookup_update(es.drop_last(), i, name, f, n);
        if n == name {
            assert(es.last().0 != name);
        }
    }
}

/// The registrations after registering `regs` in turn into `es`, each
/// name that is already taken being refused.
pub open spec fn after_registrations(
    es: Seq<(Seq<char>, FilterFactory)>,
    regs: Seq<(Seq<char>, FilterFactory)>,
) -> Seq<(Seq<char>, FilterFactory)>
    decreases regs.len(),
{
    if regs.len() == 0 {
        es
    } else {
        let prev = after_registrations(es, regs.drop_last());
        if lookup(prev, regs.last().0) is Some {
            prev
        } else {
            prev.push(regs.last())
        }
    }
}

/// Some registration in `es` is under `n`.
pub open spec fn lists_name(es: Seq<(Seq<char>, FilterFactory)>, n: Seq<char>) -> bool {
    exists|i: int| 0 <= i < es.len() && es[i].0 == n
}

proof fn lemma_lookup_some(es: Seq<(Seq<char>, FilterFactory)>, n: Seq<char>)
    ensures
        lookup(es, n) is Some <==> lists_name(es, n),
    decreases es.len(),
{
    if es.len() > 0 {
        let d = es.drop_last();
        lemma_lookup_some(d, n);
        if lists_name(d, n) {
            let i = choose|i: int| 0 <= i < d.len() && d[i].0 == n;
            assert(es[i] == d[i]);
        }
        if lists_name(es, n) {
            let i = choose|i: int| 0 <= i < es.len() && es[i].0 == n;
            if i < es.len() - 1 {
                assert(d[i] == es[i]);
            }
        }
    }
}

/// Registering names in turn after the built-ins lists every name once,
/// and the listed names are exactly the built-in ones and the registered
/// ones.
pub proof fn registrations_list_each_name_once(regs: Seq<(Seq<char>, FilterFactory)>)
    ensures
        forall|i: int, j: int|
            0 <= i < j < after_registrations(builtin_entries(), regs).len() ==> after_registrations(
                builtin_entries(),
                regs,
            )[i].0 != after_registrations(builtin_entries(), regs)[j].0,
        forall|n: Seq<char>|
            #[trigger] lists_name(after_registrations(builtin_entries(), regs), n) <==> (lists_name(
                builtin_entries(),
                n,
            ) || lists_name(regs, n)),
    decreases regs.len(),
{
    let b = builtin_entries();
    if regs.len() == 0 {
        assert forall|i: int, j: int| 0 <= i < j < b.len() implies b[i].0 != b[j].0 by {
            reveal_strlit("access_log");
            reveal_strlit("headers");
            reveal_strlit("forwarded_headers");
            reveal_strlit("ip_acl");
            reveal_strlit("load_balancer");
            reveal_strlit("request_id");
            reveal_strlit("router");
            reveal_strlit("static_response");
            reveal_strlit("tcp_access_log");
            reveal_strlit("timeout");
            reveal_strlit("json_body_field");
            assert(b[i].0.len() != b[j].0.len() || b[i].0[0] != b[j].0[0] || b[i].0[1] != b[j].0[1]);
        }
    } else {
        let d = regs.drop_last();
        registrations_list_each_name_once(d);
        let prev = after_registrations(b, d);
        let x = regs.last();
        let v = after_registrations(b, regs);
        lemma_lookup_some(prev, x.0);
        if lookup(prev, x.0) is None {
            assert(v == prev.push(x));
            assert forall|i: int, j: int| 0 <= i < j < v.len() implies v[i].0 != v[j].0 by {
                if j == v.len() - 1 {
                    assert(v[i] == prev[i]);
                } else {
                    assert(v[i] == prev[i] && v[j] == prev[j]);
                }
            }
        }
        assert forall|n: Seq<char>| #[trigger] lists_name(v, n) <==> (lists_name(b, n) || lists_name(regs, n)) by {
            if lists_name(d, n) {
                let k = choose|k: int| 0 <= k < d.len() && d[k].0 == n;
                assert(regs[k] == d[k]);
            }
            if lists_name(regs, n) {
                let k = choose|k: int| 0 <= k < regs.len() && regs[k].0 == n;
                if k < regs.len() - 1 {
                    assert(d[k] == regs[k]);
                    assert(lists_name(d, n));
                } else if lookup(prev, x.0) is None {
                    assert(v[prev.len() as int] == x);
                }
            }
            if lists_name(v, n) {
                let i = choose|i: int| 0 <= i < v.len() && v[i].0 == n;
                if i < prev.len() {
                    assert(v[i] == prev[i]);
                    assert(lists_name(prev, n));
                } else {
                    assert(regs[regs.len() - 1].0 == n);
                }
            }
            if lists_name(prev, n) {
                let i = choose|i: int| 0 <= i < prev.len() && prev[i].0 == n;
                assert(v[i] == prev[i]);
            }
        }
    }
}

} // verus!
