//! The request pipeline's decisions: the header snapshot handed to the
//! guest, the header patches planned from the guest's answer, the choice of
//! upstream base, the final forward URI, and the synthesised error responses.

use vstd::prelude::*;

use crate::config::ProxyConfig;
use crate::guest::{pairs_view, strings_view, WasmOutput, WasmOutputModel};
use crate::outside::{
    check_header_name, check_header_value, check_uri, header_name_ok, header_value_ok,
    lossy_decode, lossy_utf8, uri_ok, utf8_to_string,
};
use crate::rewrite::{compose_target_uri, rewritten_path_and_query, spec_composed, spec_rewritten};
use crate::strutil::{ascii_lower, lower_ascii_str, str_eq};
use vstd::utf8::{decode_utf8, valid_utf8};

verus! {

/// A synthesised response: a status code and a plain-text body. Every error
/// a request can hit is answered with one of these; the transport never sees
/// an error.
#[derive(Debug, Clone)]
pub struct ErrorResponse {
    pub status: u16,
    pub body: String,
}

/// The `404` answer for a path no rule matches.
pub fn not_found_response() -> (r: ErrorResponse)
    ensures
        r.status == 404,
        r.body@ == "Not Found"@,
{
    ErrorResponse { status: 404, body: "Not Found".to_owned() }
}

/// The `500` answer when the request body cannot be read.
pub fn body_read_error_response() -> (r: ErrorResponse)
    ensures
        r.status == 500,
        r.body@ == "Error reading request body."@,
{
    ErrorResponse { status: 500, body: "Error reading request body.".to_owned() }
}

/// The `500` answer when the override component fails in any way.
pub fn wasm_failure_response() -> (r: ErrorResponse)
    ensures
        r.status == 500,
        r.body@ == "Wasm override module failed."@,
{
    ErrorResponse { status: 500, body: "Wasm override module failed.".to_owned() }
}

/// The `500` answer when the final URI does not parse.
pub fn uri_error_response() -> (r: ErrorResponse)
    ensures
        r.status == 500,
        r.body@ == "Error constructing target URL."@,
{
    ErrorResponse { status: 500, body: "Error constructing target URL.".to_owned() }
}

/// The `502` answer when the upstream cannot be reached.
pub fn upstream_error_response() -> (r: ErrorResponse)
    ensures
        r.status == 502,
        r.body@ == "Error connecting to upstream service."@,
{
    ErrorResponse { status: 502, body: "Error connecting to upstream service.".to_owned() }
}

/// True when some collapsed header already carries this name.
pub open spec fn has_header_name(hs: Seq<(Seq<char>, Seq<char>)>, name: Seq<char>) -> bool {
    exists|k: int| 0 <= k < hs.len() && hs[k].0 == name
}

/// The header snapshot the guest sees: names lowercased, only the first
/// UTF-8-decodable value of each name kept, in first-appearance order.
pub open spec fn collapsed_headers(raw: Seq<(Seq<char>, Seq<u8>)>) -> Seq<(Seq<char>, Seq<char>)>
    decreases raw.len(),
{
    if raw.len() == 0 {
        Seq::empty()
    } else {
        let prev = collapsed_headers(raw.drop_last());
        let name = ascii_lower(raw.last().0);
        let value = raw.last().1;
        if valid_utf8(value) && !has_header_name(prev, name) {
            prev.push((name, decode_utf8(value)))
        } else {
            prev
        }
    }
}

/// The characters and bytes of raw header pairs.
pub open spec fn raw_pairs_view(v: Seq<(String, Vec<u8>)>) -> Seq<(Seq<char>, Seq<u8>)> {
    v.map_values(|p: (String, Vec<u8>)| (p.0@, p.1@))
}

/// Tests whether a name is already in the snapshot.
fn has_name(hs: &Vec<(String, String)>, name: &str) -> (r: bool)
    ensures
        r == has_header_name(pairs_view(hs@), name@),
{
    let n = hs.len();
    let mut i: usize = 0;
    while i < n
        invariant
            n == hs@.len(),
            0 <= i <= n,
            forall|k: int| 0 <= k < i ==> pairs_view(hs@)[k].0 != name@,
        decreases n - i,
    {
        if str_eq(hs[i].0.as_str(), name) {
            proof {
                assert(pairs_view(hs@)[i as int].0 == name@);
            }
            return true;
        }
        i += 1;
    }
    false
}

/// Builds the guest's header snapshot from the raw request headers.
pub fn collapse_headers(raw: &Vec<(String, Vec<u8>)>) -> (r: Vec<(String, String)>)
    ensures
        pairs_view(r@) == collapsed_headers(raw_pairs_view(raw@)),
{
    let n = raw.len();
    let mut acc: Vec<(String, String)> = Vec::new();
    let mut i: usize = 0;
    proof {
        assert(raw_pairs_view(raw@).take(0) =~= Seq::<(Seq<char>, Seq<u8>)>::empty());
        assert(pairs_view(acc@) =~= collapsed_headers(raw_pairs_view(raw@).take(0)));
    }
    while i < n
        invariant
            n == raw@.len(),
            0 <= i <= n,
            pairs_view(acc@) == collapsed_headers(raw_pairs_view(raw@).take(i as int)),
        decreases n - i,
    {
        let ghost rv = raw_pairs_view(raw@);
        let ghost prev = pairs_view(acc@);
        let name = lower_ascii_str(raw[i].0.as_str());
        match utf8_to_string(&raw[i].1) {
            Some(value) => {
                if !has_name(&acc, name.as_str()) {
                    let ghost nm = name@;
                    let ghost vl = value@;
                    acc.push((name, value));
                    proof {
                        assert(pairs_view(acc@) =~= prev.push((nm, vl)));
                    }
                }
            },
            None => {},
        }
        proof {
            assert(rv.take(i + 1).drop_last() =~= rv.take(i as int));
            assert(rv.take(i + 1).last() == rv[i as int]);
            assert(pairs_view(acc@) =~= collapsed_headers(rv.take(i + 1)));
        }
        i += 1;
    }
    proof {
        assert(raw_pairs_view(raw@).take(n as int) =~= raw_pairs_view(raw@));
    }
    acc
}

/// One patch the pipeline applies to the outgoing request's headers.
pub enum HeaderOpModel {
    Put(Seq<char>, Seq<char>),
    Remove(Seq<char>),
}

/// One patch, executable form.
#[derive(Debug, Clone)]
pub enum HeaderOp {
    Put(String, String),
    Remove(String),
}

impl View for HeaderOp {
    type V = HeaderOpModel;

    open spec fn view(&self) -> HeaderOpModel {
        match self {
            HeaderOp::Put(k, v) => HeaderOpModel::Put(k@, v@),
            HeaderOp::Remove(k) => HeaderOpModel::Remove(k@),
        }
    }
}

/// The patches of a patch vector.
pub open spec fn ops_view(v: Seq<HeaderOp>) -> Seq<HeaderOpModel> {
    v.map_values(|o: HeaderOp| o@)
}

/// The `Put` patches planned from the guest's updates: one per pair whose
/// name and value the header grammar accepts, in order; invalid pairs are
/// skipped.
pub open spec fn set_ops(hs: Seq<(Seq<char>, Seq<char>)>) -> Seq<HeaderOpModel>
    decreases hs.len(),
{
    if hs.len() == 0 {
        Seq::empty()
    } else {
        let rest = set_ops(hs.drop_last());
        if header_name_ok(hs.last().0) && header_value_ok(hs.last().1) {
            rest.push(HeaderOpModel::Put(hs.last().0, hs.last().1))
        } else {
            rest
        }
    }
}

/// The `Remove` patches planned from the guest's removals: one per name the
/// header grammar accepts, in order; invalid names are skipped.
pub open spec fn remove_ops(names: Seq<Seq<char>>) -> Seq<HeaderOpModel>
    decreases names.len(),
{
    if names.len() == 0 {
        Seq::empty()
    } else {
        let rest = remove_ops(names.drop_last());
        if header_name_ok(names.last()) {
            rest.push(HeaderOpModel::Remove(names.last()))
        } else {
            rest
        }
    }
}

/// All patches planned from one guest answer: every valid update, then every
/// valid removal, each list in the guest's order.
pub open spec fn planned_ops(o: WasmOutputModel) -> Seq<HeaderOpModel> {
    set_ops(o.headers_to_update) + remove_ops(o.headers_to_remove)
}

/// Plans the header patches for one guest answer.
pub fn plan_header_ops(out: &WasmOutput) -> (r: Vec<HeaderOp>)
    ensures
        ops_view(r@) == planned_ops(out@),
{
    let mut ops: Vec<HeaderOp> = Vec::new();
    let nu = out.headers_to_update.len();
    let mut i: usize = 0;
    proof {
        assert(pairs_view(out.headers_to_update@).take(0) =~= Seq::<(Seq<char>, Seq<char>)>::empty());
        assert(ops_view(ops@) =~= set_ops(pairs_view(out.headers_to_update@).take(0)));
    }
    while i < nu
        invariant
            nu == out.headers_to_update@.len(),
            0 <= i <= nu,
            ops_view(ops@) == set_ops(pairs_view(out.headers_to_update@).take(i as int)),
        decreases nu - i,
    {
        let ghost uv = pairs_view(out.headers_to_update@);
        let ghost prev = ops_view(ops@);
        let k = &out.headers_to_update[i].0;
        let v = &out.headers_to_update[i].1;
        if check_header_name(k.as_str()) && check_header_value(v.as_str()) {
            ops.push(HeaderOp::Put(k.clone(), v.clone()));
            proof {
                assert(ops_view(ops@) =~= prev.push(HeaderOpModel::Put(uv[i as int].0, uv[i as int].1)));
            }
        }
        proof {
            assert(uv.take(i + 1).drop_last() =~= uv.take(i as int));
            assert(uv.take(i + 1).last() == uv[i as int]);
            assert(ops_view(ops@) =~= set_ops(uv.take(i + 1)));
        }
        i += 1;
    }
    proof {
        assert(pairs_view(out.headers_to_update@).take(nu as int) =~= pairs_view(
            out.headers_to_update@,
        ));
    }
    let nr = out.headers_to_remove.len();
    let mut j: usize = 0;
    proof {
        assert(strings_view(out.headers_to_remove@).take(0) =~= Seq::<Seq<char>>::empty());
        assert(remove_ops(strings_view(out.headers_to_remove@).take(0)) =~= Seq::<
            HeaderOpModel,
        >::empty());
        assert(ops_view(ops@) =~= set_ops(pairs_view(out.headers_to_update@)) + remove_ops(
            strings_view(out.headers_to_remove@).take(0),
        ));
    }
    while j < nr
        invariant
            nr == out.headers_to_remove@.len(),
            0 <= j <= nr,
            ops_view(ops@) == set_ops(pairs_view(out.headers_to_update@)) + remove_ops(
                strings_view(out.headers_to_remove@).take(j as int),
            ),
        decreases nr - j,
    {
        let ghost rv = strings_view(out.headers_to_remove@);
        let ghost prev = ops_view(ops@);
        let k = &out.headers_to_remove[j];
        if check_header_name(k.as_str()) {
            ops.push(HeaderOp::Remove(k.clone()));
            proof {
                assert(ops_view(ops@) =~= prev.push(HeaderOpModel::Remove(rv[j as int])));
            }
        }
        proof {
            assert(rv.take(j + 1).drop_last() =~= rv.take(j as int));
            assert(rv.take(j + 1).last() == rv[j as int]);
            assert(ops_view(ops@) =~= set_ops(pairs_view(out.headers_to_update@)) + remove_ops(
                rv.take(j + 1),
            ));
        }
        j += 1;
    }
    proof {
        assert(strings_view(out.headers_to_remove@).take(nr as int) =~= strings_view(
            out.headers_to_remove@,
        ));
    }
    ops
}

/// The upstream base after the guest's say: its override when it gave one,
/// the configured base otherwise.
pub open spec fn chosen_base(app_uri: Seq<char>, o: WasmOutputModel) -> Seq<char> {
    match o.app_url {
        Some(u) => u,
        None => app_uri,
    }
}

/// Picks the upstream base for one request.
pub fn select_target_base(app_uri: &String, out: &WasmOutput) -> (r: String)
    ensures
        r@ == chosen_base(app_uri@, out@),
{
    match &out.app_url {
        Some(u) => u.clone(),
        None => app_uri.clone(),
    }
}

/// The final URI: the base with trailing slashes trimmed, then the
/// path-and-query after the rewrite mode had its say.
pub open spec fn forward_uri(
    base: Seq<char>,
    rewrite: Seq<char>,
    rule_path: Seq<char>,
    pq: Seq<char>,
) -> Seq<char> {
    spec_composed(base, spec_rewritten(rewrite, rule_path, pq))
}

/// Builds the final URI string for one request.
pub fn build_forward_uri(base: &str, rewrite: &str, rule_path: &str, pq: &str) -> (r: String)
    ensures
        r@ == forward_uri(base@, rewrite@, rule_path@, pq@),
{
    let tail = rewritten_path_and_query(rewrite, rule_path, pq);
    compose_target_uri(base, tail.as_str())
}

/// Builds and vets the final URI: the composed string when the URI grammar
/// accepts it, the `500` answer otherwise.
pub fn finish_forward_uri(base: &str, rewrite: &str, rule_path: &str, pq: &str) -> (r: Result<
    String,
    ErrorResponse,
>)
    ensures
        match r {
            Ok(u) => u@ == forward_uri(base@, rewrite@, rule_path@, pq@) && uri_ok(u@),
            Err(e) => !uri_ok(forward_uri(base@, rewrite@, rule_path@, pq@)) && e.status == 500
                && e.body@ == "Error constructing target URL."@,
        },
{
    let uri = build_forward_uri(base, rewrite, rule_path, pq);
    if check_uri(uri.as_str()) {
        Ok(uri)
    } else {
        Err(uri_error_response())
    }
}

/// Plans the forwarding of one matched request: the upstream base (the
/// guest's override when it answered, the configured base otherwise), the
/// header patches in guest order, and the vetted final URI. Order follows
/// the pipeline: URL override, header updates, header removals, path
/// rewrite, URI assembly.
pub fn plan_request_forward(proxy: &ProxyConfig, out: Option<&WasmOutput>, pq: &str) -> (r: Result<
    (String, Vec<HeaderOp>),
    ErrorResponse,
>)
    ensures
        ({
            let base = match out {
                Some(o) => chosen_base(proxy.app_uri@, o@),
                None => proxy.app_uri@,
            };
            let uri = forward_uri(base, proxy.rewrite@, proxy.rule.path@, pq@);
            match r {
                Ok(plan) => plan.0@ == uri && uri_ok(uri) && ops_view(plan.1@) == (match out {
                    Some(o) => planned_ops(o@),
                    None => Seq::<HeaderOpModel>::empty(),
                }),
                Err(e) => !uri_ok(uri) && e.status == 500 && e.body@
                    == "Error constructing target URL."@,
            }
        }),
{
    let (base, ops) = match out {
        Some(o) => (select_target_base(&proxy.app_uri, o), plan_header_ops(o)),
        None => (proxy.app_uri.clone(), Vec::new()),
    };
    match finish_forward_uri(
        base.as_str(),
        proxy.rewrite.as_str(),
        proxy.rule.path.as_str(),
        pq,
    ) {
        Ok(uri) => {
            proof {
                if out is None {
                    assert(ops_view(Seq::<HeaderOp>::empty()) =~= Seq::<HeaderOpModel>::empty());
                }
            }
            Ok((uri, ops))
        },
        Err(e) => Err(e),
    }
}

/// The body text the guest sees: the exact bytes, decoded leniently. The
/// upstream still receives the original bytes.
pub fn guest_body_text(body: &Vec<u8>) -> (r: String)
    ensures
        r@ == lossy_decode(body@),
        valid_utf8(body@) ==> r@ == decode_utf8(body@),
{
    lossy_utf8(body.as_slice())
}

} // verus!
