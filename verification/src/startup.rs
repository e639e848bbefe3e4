//! The route table and the per-request dispatch.
//!
//! The table is assembled once at startup by `run` and never changed
//! while serving.  A pattern is a list of segments, each a literal or a
//! named parameter capturing one path segment; resolution walks the
//! table in registration order and the first match wins.

use vstd::prelude::*;
use crate::http::{bytes_eq, Method, Request, Response, STATUS_BAD_REQUEST, STATUS_NOT_FOUND, STATUS_OK};
use crate::routes::greets::{default_name, greet, hello_prefix, name_param};
use crate::routes::health_check::health_check;
use crate::routes::subscriptions::{
    accepts_form_content_type,
    form_view,
    is_form_content_type,
    parse_form,
    subscribe,
    NewSubscriber,
};
use crate::urlencoded::{
    first_val,
    lemma_split_sep_no_sep,
    lemma_split_sep_one_sep,
    split_on,
    split_sep,
    subvec,
};

verus! {

pub const SLASH: u8 = 0x2f;

/// Which handler a route leads to.
#[derive(Clone, Copy, PartialEq, Eq, Structural, Debug)]
pub enum Target {
    HealthEndpoint,
    GreetEndpoint,
    SubscribeEndpoint,
}

/// One pattern segment: an exact literal, or a named parameter that
/// captures whatever stands in its place.
pub enum Segment {
    Lit(Vec<u8>),
    Param(Vec<u8>),
}

/// The mathematical shape of a pattern segment.
pub enum SegmentModel {
    Lit(Seq<u8>),
    Param(Seq<u8>),
}

impl View for Segment {
    type V = SegmentModel;

    open spec fn view(&self) -> SegmentModel {
        match self {
            Segment::Lit(b) => SegmentModel::Lit(b@),
            Segment::Param(n) => SegmentModel::Param(n@),
        }
    }
}

/// One entry of the table: method, pattern, handler.
pub struct Route {
    pub method: Method,
    pub pattern: Vec<Segment>,
    pub target: Target,
}

/// The mathematical shape of a route.
pub struct RouteModel {
    pub method: Method,
    pub pattern: Seq<SegmentModel>,
    pub target: Target,
}

impl View for Route {
    type V = RouteModel;

    open spec fn view(&self) -> RouteModel {
        RouteModel {
            method: self.method,
            pattern: self.pattern@.map_values(|s: Segment| s@),
            target: self.target,
        }
    }
}

/// The route table: the registered routes in registration order.
pub struct Router {
    pub routes: Vec<Route>,
}

impl View for Router {
    type V = Seq<RouteModel>;

    open spec fn view(&self) -> Seq<RouteModel> {
        self.routes@.map_values(|r: Route| r@)
    }
}

/// Whether a pattern matches the path parts: same number of segments,
/// and every literal equal to its part.
pub open spec fn pattern_matches(pat: Seq<SegmentModel>, parts: Seq<Seq<u8>>) -> bool {
    &&& pat.len() == parts.len()
    &&& forall|i: int|
        0 <= i < pat.len() ==> ((#[trigger] pat[i]) matches SegmentModel::Lit(l) ==> l
            == parts[i])
}

/// The parameters a matching pattern captures, in order: one pair of
/// parameter name and path part for each parameter segment.
pub open spec fn captures(pat: Seq<SegmentModel>, parts: Seq<Seq<u8>>) -> Seq<(Seq<u8>, Seq<u8>)>
    recommends
        pattern_matches(pat, parts),
    decreases pat.len(),
{
    if pat.len() == 0 {
        Seq::empty()
    } else {
        match pat[0] {
            SegmentModel::Lit(_) => captures(pat.skip(1), parts.skip(1)),
            SegmentModel::Param(n) => seq![
                (
                    n,
                    if parts.len() > 0 {
                        parts[0]
                    } else {
                        Seq::empty()
                    },
                ),
            ] + captures(pat.skip(1), parts.skip(1)),
        }
    }
}

/// The parts of a request path: what stands between the slashes, after
/// the leading one.  A path without a leading slash has no parts.
pub open spec fn path_parts(path: Seq<u8>) -> Option<Seq<Seq<u8>>> {
    if path.len() >= 1 && path[0] == SLASH {
        Some(split_sep(path.skip(1), SLASH))
    } else {
        None
    }
}

/// The first route of the table that matches, with what it captures.
pub open spec fn resolve_spec(routes: Seq<RouteModel>, method: Method, parts: Seq<Seq<u8>>) -> Option<
    (Target, Seq<(Seq<u8>, Seq<u8>)>),
>
    decreases routes.len(),
{
    if routes.len() == 0 {
        None
    } else if routes[0].method == method && pattern_matches(routes[0].pattern, parts) {
        Some((routes[0].target, captures(routes[0].pattern, parts)))
    } else {
        resolve_spec(routes.skip(1), method, parts)
    }
}

/// Resolution over the raw path: nothing for a path without a leading
/// slash, else `resolve_spec` over its parts.
pub open spec fn resolve_path_spec(
    routes: Seq<RouteModel>,
    method: Method,
    path: Seq<u8>,
) -> Option<(Target, Seq<(Seq<u8>, Seq<u8>)>)> {
    match path_parts(path) {
        Some(parts) => resolve_spec(routes, method, parts),
        None => None,
    }
}

/// Whether the pattern matches the parts, decided segment by segment.
fn pattern_matches_exec(pat: &Vec<Segment>, parts: &Vec<Vec<u8>>) -> (r: bool)
    ensures
        r == pattern_matches(
            pat@.map_values(|s: Segment| s@),
            parts@.map_values(|v: Vec<u8>| v@),
        ),
{
    let ghost pm = pat@.map_values(|s: Segment| s@);
    let ghost qm = parts@.map_values(|v: Vec<u8>| v@);
    if pat.len() != parts.len() {
        return false;
    }
    let mut i: usize = 0;
    while i < pat.len()
        invariant
            i <= pat.len(),
            pm.len() == qm.len(),
            pm == pat@.map_values(|s: Segment| s@),
            qm == parts@.map_values(|v: Vec<u8>| v@),
            pat@.len() == parts@.len(),
            forall|k: int|
                0 <= k < i ==> ((#[trigger] pm[k]) matches SegmentModel::Lit(l) ==> l == qm[k]),
        decreases pat.len() - i,
    {
        match &pat[i] {
            Segment::Lit(l) => {
                if !bytes_eq(l, &parts[i]) {
                    proof {
                        assert(pm[i as int] matches SegmentModel::Lit(x) && x == l@);
                        assert(qm[i as int] == parts@[i as int]@);
                    }
                    return false;
                }
            },
            Segment::Param(_) => {},
        }
        i = i + 1;
    }
    true
}

/// Collects what the pattern captures from the parts.
fn captures_exec(pat: &Vec<Segment>, parts: &Vec<Vec<u8>>) -> (r: Vec<(Vec<u8>, Vec<u8>)>)
    requires
        pat@.len() == parts@.len(),
    ensures
        r@.map_values(|kv: (Vec<u8>, Vec<u8>)| (kv.0@, kv.1@)) == captures(
            pat@.map_values(|s: Segment| s@),
            parts@.map_values(|v: Vec<u8>| v@),
        ),
{
    let ghost pm = pat@.map_values(|s: Segment| s@);
    let ghost qm = parts@.map_values(|v: Vec<u8>| v@);
    let mut out: Vec<(Vec<u8>, Vec<u8>)> = Vec::new();
    let mut i: usize = 0;
    proof {
        assert(pm.skip(0) =~= pm);
        assert(qm.skip(0) =~= qm);
        assert(out@.map_values(|kv: (Vec<u8>, Vec<u8>)| (kv.0@, kv.1@)) + captures(pm, qm)
            =~= captures(pm, qm));
    }
    while i < pat.len()
        invariant
            i <= pat.len(),
            pm.len() == qm.len(),
            pm == pat@.map_values(|s: Segment| s@),
            qm == parts@.map_values(|v: Vec<u8>| v@),
            pat@.len() == parts@.len(),
            out@.map_values(|kv: (Vec<u8>, Vec<u8>)| (kv.0@, kv.1@)) + captures(
                pm.skip(i as int),
                qm.skip(i as int),
            ) == captures(pm, qm),
        decreases pat.len() - i,
    {
        let ghost tail_p = pm.skip(i as int);
        let ghost tail_q = qm.skip(i as int);
        proof {
            assert(tail_p[0] == pm[i as int]);
            assert(tail_q[0] == qm[i as int]);
            assert(tail_p.skip(1) =~= pm.skip(i as int + 1));
            assert(tail_q.skip(1) =~= qm.skip(i as int + 1));
        }
        match &pat[i] {
            Segment::Lit(_) => {},
            Segment::Param(n) => {
                let ghost before = out@.map_values(|kv: (Vec<u8>, Vec<u8>)| (kv.0@, kv.1@));
                let name = subvec(n, 0, n.len());
                let value = subvec(&parts[i], 0, parts[i].len());
                proof {
                    assert(name@ =~= n@);
                    assert(value@ =~= parts@[i as int]@);
                }
                out.push((name, value));
                proof {
                    assert(out@.map_values(|kv: (Vec<u8>, Vec<u8>)| (kv.0@, kv.1@)) =~= before
                        + seq![(n@, qm[i as int])]);
                    assert(before + seq![(n@, qm[i as int])] + captures(
                        pm.skip(i as int + 1),
                        qm.skip(i as int + 1),
                    ) =~= before + (seq![(n@, qm[i as int])] + captures(
                        pm.skip(i as int + 1),
                        qm.skip(i as int + 1),
                    )));
                }
            },
        }
        i = i + 1;
    }
    proof {
        assert(pm.skip(i as int) =~= Seq::<SegmentModel>::empty());
        assert(out@.map_values(|kv: (Vec<u8>, Vec<u8>)| (kv.0@, kv.1@)) + captures(
            pm.skip(i as int),
            qm.skip(i as int),
        ) =~= out@.map_values(|kv: (Vec<u8>, Vec<u8>)| (kv.0@, kv.1@)));
    }
    out
}

impl Router {
    /// An empty table.
    pub fn new() -> (r: Router)
        ensures
            r@ == Seq::<RouteModel>::empty(),
    {
        let r = Router { routes: Vec::new() };
        proof {
            assert(r@ =~= Seq::<RouteModel>::empty());
        }
        r
    }

    /// Registers one route at the end of the table.  Called only during
    /// startup; the table is immutable once the server accepts traffic.
    pub fn register(&mut self, method: Method, pattern: Vec<Segment>, target: Target)
        ensures
            final(self)@ == old(self)@.push(
                RouteModel {
                    method,
                    pattern: pattern@.map_values(|s: Segment| s@),
                    target,
                },
            ),
    {
        let ghost pm = pattern@.map_values(|s: Segment| s@);
        self.routes.push(Route { method, pattern, target });
        proof {
            assert(self@ =~= old(self)@.push(RouteModel { method, pattern: pm, target }));
        }
    }

    /// Resolves method and raw path to the first matching route and what
    /// it captures, or nothing when no route matches.
    pub fn resolve(&self, method: Method, path: &Vec<u8>) -> (r: Option<
        (Target, Vec<(Vec<u8>, Vec<u8>)>),
    >)
        ensures
            r is Some <==> resolve_path_spec(self@, method, path@) is Some,
            r matches Some(p) ==> resolve_path_spec(self@, method, path@) matches Some(q) && p.0
                == q.0 && p.1@.map_values(|kv: (Vec<u8>, Vec<u8>)| (kv.0@, kv.1@)) == q.1,
    {
        if path.len() == 0 {
            return None;
        }
        if path[0] != SLASH {
            return None;
        }
        let tail = subvec(path, 1, path.len());
        proof {
            assert(tail@ =~= path@.skip(1));
        }
        let parts = split_on(&tail, SLASH);
        let ghost parts_m = split_sep(path@.skip(1), SLASH);
        let mut j: usize = 0;
        proof {
            assert(self@.skip(0) =~= self@);
        }
        while j < self.routes.len()
            invariant
                j <= self.routes.len(),
                parts@.map_values(|v: Vec<u8>| v@) == parts_m,
                path_parts(path@) == Some(parts_m),
                resolve_spec(self@.skip(j as int), method, parts_m) == resolve_spec(
                    self@,
                    method,
                    parts_m,
                ),
                self@.len() == self.routes@.len(),
            decreases self.routes.len() - j,
        {
            let ghost tail_r = self@.skip(j as int);
            proof {
                assert(tail_r[0] == self@[j as int]);
                assert(tail_r.skip(1) =~= self@.skip(j as int + 1));
                assert(self@[j as int] == self.routes@[j as int]@);
            }
            let route = &self.routes[j];
            if method_eq(route.method, method) && pattern_matches_exec(&route.pattern, &parts) {
                let params = captures_exec(&route.pattern, &parts);
                return Some((route.target, params));
            }
            j = j + 1;
        }
        proof {
            assert(self@.skip(j as int) =~= Seq::<RouteModel>::empty());
        }
        None
    }
}

/// Whether two methods are the same.
fn method_eq(a: Method, b: Method) -> (r: bool)
    ensures
        r == (a == b),
{
    match (a, b) {
        (Method::Get, Method::Get) => true,
        (Method::Post, Method::Post) => true,
        _ => false,
    }
}


/// The bytes of the literal `health_check`.
pub open spec fn health_lit() -> Seq<u8> {
    seq![104u8, 101u8, 97u8, 108u8, 116u8, 104u8, 95u8, 99u8, 104u8, 101u8, 99u8, 107u8]
}

/// The bytes of the literal `greet`.
pub open spec fn greet_lit() -> Seq<u8> {
    seq![103u8, 114u8, 101u8, 101u8, 116u8]
}

/// The bytes of the literal `subscription`.
pub open spec fn subscription_lit() -> Seq<u8> {
    seq![115u8, 117u8, 98u8, 115u8, 99u8, 114u8, 105u8, 112u8, 116u8, 105u8, 111u8, 110u8]
}

/// The path `/health_check`.
pub open spec fn health_path() -> Seq<u8> {
    seq![SLASH] + health_lit()
}

/// The path `/greet`.
pub open spec fn greet_path() -> Seq<u8> {
    seq![SLASH] + greet_lit()
}

/// The path `/greet/{name}` for a given captured segment.
pub open spec fn greet_named_path(n: Seq<u8>) -> Seq<u8> {
    greet_path() + seq![SLASH] + n
}

/// The path `/subscription`.
pub open spec fn subscription_path() -> Seq<u8> {
    seq![SLASH] + subscription_lit()
}

/// Whether a path segment holds no slash.
pub open spec fn no_slash(n: Seq<u8>) -> bool {
    forall|i: int| 0 <= i < n.len() ==> n[i] != SLASH
}

/// The table the service serves: the four routes, in registration order.
pub open spec fn standard_routes() -> Seq<RouteModel> {
    seq![
        RouteModel {
            method: Method::Get,
            pattern: seq![SegmentModel::Lit(health_lit())],
            target: Target::HealthEndpoint,
        },
        RouteModel {
            method: Method::Get,
            pattern: seq![SegmentModel::Lit(greet_lit())],
            target: Target::GreetEndpoint,
        },
        RouteModel {
            method: Method::Get,
            pattern: seq![SegmentModel::Lit(greet_lit()), SegmentModel::Param(name_param())],
            target: Target::GreetEndpoint,
        },
        RouteModel {
            method: Method::Post,
            pattern: seq![SegmentModel::Lit(subscription_lit())],
            target: Target::SubscribeEndpoint,
        },
    ]
}

/// The literal `health_check` as a vector.
fn health_lit_vec() -> (r: Vec<u8>)
    ensures
        r@ == health_lit(),
{
    let mut v: Vec<u8> = Vec::new();
    v.push(104);
    v.push(101);
    v.push(97);
    v.push(108);
    v.push(116);
    v.push(104);
    v.push(95);
    v.push(99);
    v.push(104);
    v.push(101);
    v.push(99);
    v.push(107);
    proof {
        assert(v@ =~= health_lit());
    }
    v
}

/// The literal `greet` as a vector.
fn greet_lit_vec() -> (r: Vec<u8>)
    ensures
        r@ == greet_lit(),
{
    let mut v: Vec<u8> = Vec::new();
    v.push(103);
    v.push(114);
    v.push(101);
    v.push(101);
    v.push(116);
    proof {
        assert(v@ =~= greet_lit());
    }
    v
}

/// The literal `subscription` as a vector.
fn subscription_lit_vec() -> (r: Vec<u8>)
    ensures
        r@ == subscription_lit(),
{
    let mut v: Vec<u8> = Vec::new();
    v.push(115);
    v.push(117);
    v.push(98);
    v.push(115);
    v.push(99);
    v.push(114);
    v.push(105);
    v.push(112);
    v.push(116);
    v.push(105);
    v.push(111);
    v.push(110);
    proof {
        assert(v@ =~= subscription_lit());
    }
    v
}

/// The parameter name `name` as a vector.
fn name_param_vec() -> (r: Vec<u8>)
    ensures
        r@ == name_param(),
{
    let mut v: Vec<u8> = Vec::new();
    v.push(110);
    v.push(97);
    v.push(109);
    v.push(101);
    proof {
        assert(v@ =~= name_param());
    }
    v
}

/// Assembles the route table the service serves.  Called once at
/// startup, before any connection is accepted.
pub fn run() -> (r: Router)
    ensures
        r@ == standard_routes(),
{
    let mut router = Router::new();
    let mut p1: Vec<Segment> = Vec::new();
    p1.push(Segment::Lit(health_lit_vec()));
    proof {
        assert(p1@.map_values(|s: Segment| s@) =~= seq![SegmentModel::Lit(health_lit())]);
    }
    router.register(Method::Get, p1, Target::HealthEndpoint);
    let mut p2: Vec<Segment> = Vec::new();
    p2.push(Segment::Lit(greet_lit_vec()));
    proof {
        assert(p2@.map_values(|s: Segment| s@) =~= seq![SegmentModel::Lit(greet_lit())]);
    }
    router.register(Method::Get, p2, Target::GreetEndpoint);
    let mut p3: Vec<Segment> = Vec::new();
    p3.push(Segment::Lit(greet_lit_vec()));
    p3.push(Segment::Param(name_param_vec()));
    proof {
        assert(p3@.map_values(|s: Segment| s@) =~= seq![
            SegmentModel::Lit(greet_lit()),
            SegmentModel::Param(name_param()),
        ]);
    }
    router.register(Method::Get, p3, Target::GreetEndpoint);
    let mut p4: Vec<Segment> = Vec::new();
    p4.push(Segment::Lit(subscription_lit_vec()));
    proof {
        assert(p4@.map_values(|s: Segment| s@) =~= seq![SegmentModel::Lit(subscription_lit())]);
    }
    router.register(Method::Post, p4, Target::SubscribeEndpoint);
    proof {
        assert(router@ =~= standard_routes());
    }
    router
}

/// Resolution of `GET /health_check`: the liveness route, no captures.
pub proof fn lemma_resolve_health()
    ensures
        resolve_path_spec(standard_routes(), Method::Get, health_path()) == Some(
            (Target::HealthEndpoint, Seq::<(Seq<u8>, Seq<u8>)>::empty()),
        ),
{
    reveal_with_fuel(captures, 4);
    let path = health_path();
    let routes = standard_routes();
    assert(path[0] == SLASH);
    assert(path.skip(1) =~= health_lit());
    lemma_split_sep_no_sep(health_lit(), SLASH);
    let parts = seq![health_lit()];
    assert(path_parts(path) == Some(parts));
    let pat = routes[0].pattern;
    assert(pattern_matches(pat, parts));
    assert(pat.skip(1) =~= Seq::<SegmentModel>::empty());
    assert(parts.skip(1) =~= Seq::<Seq<u8>>::empty());
    assert(captures(pat, parts) =~= Seq::<(Seq<u8>, Seq<u8>)>::empty());
}

/// Resolution of `GET /greet`: the greeting route, no captures.
pub proof fn lemma_resolve_greet_bare()
    ensures
        resolve_path_spec(standard_routes(), Method::Get, greet_path()) == Some(
            (Target::GreetEndpoint, Seq::<(Seq<u8>, Seq<u8>)>::empty()),
        ),
{
    reveal_with_fuel(captures, 4);
    let path = greet_path();
    let routes = standard_routes();
    assert(path[0] == SLASH);
    assert(path.skip(1) =~= greet_lit());
    lemma_split_sep_no_sep(greet_lit(), SLASH);
    let parts = seq![greet_lit()];
    assert(path_parts(path) == Some(parts));
    assert(health_lit().len() != greet_lit().len());
    assert(routes[0].pattern[0] matches SegmentModel::Lit(l) && l != parts[0]);
    assert(!pattern_matches(routes[0].pattern, parts));
    assert(routes.skip(1)[0] == routes[1]);
    let pat = routes[1].pattern;
    assert(pattern_matches(pat, parts));
    assert(pat.skip(1) =~= Seq::<SegmentModel>::empty());
    assert(parts.skip(1) =~= Seq::<Seq<u8>>::empty());
    assert(captures(pat, parts) =~= Seq::<(Seq<u8>, Seq<u8>)>::empty());
    assert(resolve_spec(routes, Method::Get, parts) == resolve_spec(
        routes.skip(1),
        Method::Get,
        parts,
    ));
}

/// Resolution of `GET /greet/{name}`: the named greeting route, one
/// captured parameter.
pub proof fn lemma_resolve_greet_named(n: Seq<u8>)
    requires
        no_slash(n),
    ensures
        resolve_path_spec(standard_routes(), Method::Get, greet_named_path(n)) == Some(
            (Target::GreetEndpoint, seq![(name_param(), n)]),
        ),
{
    reveal_with_fuel(captures, 4);
    let path = greet_named_path(n);
    let routes = standard_routes();
    assert(path[0] == SLASH);
    assert(path.skip(1) =~= greet_lit() + seq![SLASH] + n);
    lemma_split_sep_one_sep(greet_lit(), n, SLASH);
    let parts = seq![greet_lit(), n];
    assert(path_parts(path) == Some(parts));
    assert(routes[0].pattern.len() != parts.len());
    assert(!pattern_matches(routes[0].pattern, parts));
    assert(routes[1].pattern.len() != parts.len());
    assert(!pattern_matches(routes[1].pattern, parts));
    assert(routes.skip(1)[0] == routes[1]);
    assert(routes.skip(1).skip(1) =~= routes.skip(2));
    assert(routes.skip(2)[0] == routes[2]);
    let pat = routes[2].pattern;
    assert(pattern_matches(pat, parts));
    assert(pat.skip(1) =~= seq![SegmentModel::Param(name_param())]);
    assert(parts.skip(1) =~= seq![n]);
    assert(pat.skip(1).skip(1) =~= Seq::<SegmentModel>::empty());
    assert(parts.skip(1).skip(1) =~= Seq::<Seq<u8>>::empty());
    assert(captures(pat.skip(1), parts.skip(1)) =~= seq![(name_param(), n)]);
    assert(captures(pat, parts) =~= seq![(name_param(), n)]);
    assert(resolve_spec(routes, Method::Get, parts) == resolve_spec(
        routes.skip(1),
        Method::Get,
        parts,
    ));
    assert(resolve_spec(routes.skip(1), Method::Get, parts) == resolve_spec(
        routes.skip(2),
        Method::Get,
        parts,
    ));
}

/// Resolution of `POST /subscription`: the write route, no captures.
pub proof fn lemma_resolve_subscription()
    ensures
        resolve_path_spec(standard_routes(), Method::Post, subscription_path()) == Some(
            (Target::SubscribeEndpoint, Seq::<(Seq<u8>, Seq<u8>)>::empty()),
        ),
{
    reveal_with_fuel(captures, 4);
    let path = subscription_path();
    let routes = standard_routes();
    assert(path[0] == SLASH);
    assert(path.skip(1) =~= subscription_lit());
    lemma_split_sep_no_sep(subscription_lit(), SLASH);
    let parts = seq![subscription_lit()];
    assert(path_parts(path) == Some(parts));
    assert(routes.skip(1)[0] == routes[1]);
    assert(routes.skip(1).skip(1) =~= routes.skip(2));
    assert(routes.skip(2)[0] == routes[2]);
    assert(routes.skip(2).skip(1) =~= routes.skip(3));
    assert(routes.skip(3)[0] == routes[3]);
    let pat = routes[3].pattern;
    assert(pattern_matches(pat, parts));
    assert(pat.skip(1) =~= Seq::<SegmentModel>::empty());
    assert(parts.skip(1) =~= Seq::<Seq<u8>>::empty());
    assert(captures(pat, parts) =~= Seq::<(Seq<u8>, Seq<u8>)>::empty());
    assert(resolve_spec(routes, Method::Post, parts) == resolve_spec(
        routes.skip(1),
        Method::Post,
        parts,
    ));
    assert(resolve_spec(routes.skip(1), Method::Post, parts) == resolve_spec(
        routes.skip(2),
        Method::Post,
        parts,
    ));
    assert(resolve_spec(routes.skip(2), Method::Post, parts) == resolve_spec(
        routes.skip(3),
        Method::Post,
        parts,
    ));
}

/// What the server does for one request: answer at once, or hand one row
/// to the store and answer from the write outcome.
pub enum Outcome {
    Done(Response),
    Insert(NewSubscriber),
}

/// Runs one request through the table and the matched handler.
///
/// A subscription request with the form content type and a decodable
/// body leads to `Insert`; everything else is answered directly, and a
/// wrong content type or an undecodable body is rejected before any row
/// is built.
pub fn handle_request(router: &Router, req: &Request) -> (out: Outcome)
    requires
        router@ == standard_routes(),
    ensures
        req.method == Method::Get && req.path@ == health_path() ==> (out matches Outcome::Done(r)
            && r.status == STATUS_OK && r.body@ == Seq::<u8>::empty()),
        req.method == Method::Get && req.path@ == greet_path() ==> (out matches Outcome::Done(r)
            && r.status == STATUS_OK && r.body@ == hello_prefix() + default_name()),
        forall|n: Seq<u8>|
            no_slash(n) && req.method == Method::Get && req.path@ == greet_named_path(n) ==> (out
                matches Outcome::Done(r) && r.status == STATUS_OK && r.body@ == hello_prefix()
                + n),
        req.method == Method::Post && req.path@ == subscription_path() && is_form_content_type(
            req.content_type@,
        ) && form_view(req.body@) is Some ==> (out matches Outcome::Insert(ns) && Some(
            (ns.email@, ns.name@),
        ) == form_view(req.body@)),
        req.method == Method::Post && req.path@ == subscription_path() && !(is_form_content_type(
            req.content_type@,
        ) && form_view(req.body@) is Some) ==> (out matches Outcome::Done(r) && r.status
            == STATUS_BAD_REQUEST && r.body@ == Seq::<u8>::empty()),
        resolve_path_spec(standard_routes(), req.method, req.path@) is None ==> (out matches
            Outcome::Done(r) && r.status == STATUS_NOT_FOUND && r.body@ == Seq::<u8>::empty()),
        out matches Outcome::Insert(ns) ==> is_form_content_type(req.content_type@) && form_view(
            req.body@,
        ) == Some((ns.email@, ns.name@)),
{
    proof {
        lemma_resolve_health();
        lemma_resolve_greet_bare();
        lemma_resolve_subscription();
        assert forall|n: Seq<u8>| no_slash(n) implies #[trigger] resolve_path_spec(
            standard_routes(),
            Method::Get,
            greet_named_path(n),
        ) == Some((Target::GreetEndpoint, seq![(name_param(), n)])) by {
            lemma_resolve_greet_named(n);
        }
    }
    let resolved = router.resolve(req.method, &req.path);
    match resolved {
        None => Outcome::Done(Response::not_found()),
        Some((target, params)) => {
            match target {
                Target::HealthEndpoint => Outcome::Done(health_check()),
                Target::GreetEndpoint => {
                    let resp = greet(&params);
                    proof {
                        let pv = params@.map_values(|kv: (Vec<u8>, Vec<u8>)| (kv.0@, kv.1@));
                        if req.method == Method::Get && req.path@ == greet_path() {
                            assert(first_val(pv, name_param()) is None);
                        }
                        assert forall|n: Seq<u8>|
                            no_slash(n) && req.method == Method::Get && req.path@
                                == greet_named_path(n) implies resp.body@ == hello_prefix()
                            + n by {
                            reveal_with_fuel(first_val, 3);
                            assert(pv == seq![(name_param(), n)]);
                            assert(pv.drop_last() =~= Seq::<(Seq<u8>, Seq<u8>)>::empty());
                            assert(first_val(pv, name_param()) == Some(n));
                        }
                    }
                    Outcome::Done(resp)
                },
                Target::SubscribeEndpoint => {
                    if !accepts_form_content_type(&req.content_type) {
                        Outcome::Done(Response::bad_request())
                    } else {
                        match parse_form(&req.body) {
                            None => Outcome::Done(Response::bad_request()),
                            Some(form) => Outcome::Insert(subscribe(form)),
                        }
                    }
                },
            }
        },
    }
}

} // verus!
