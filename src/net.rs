use vstd::prelude::*;

verus! {

#[verifier::external_type_specification]
#[verifier::external_body]
pub struct ExJsonValue(serde_json::Value);

/// Whether `s` is one complete JSON value.
pub uninterp spec fn json_parses(s: Seq<char>) -> bool;

/// Relies on serde_json::from_str into a Value: it succeeds exactly on a
/// text that holds one JSON value.
#[verifier::external_body]
fn parse_json(s: &str) -> (r: Option<serde_json::Value>)
    ensures
        r is Some <==> json_parses(s@),
{
    serde_json::from_str::<serde_json::Value>(s).ok()
}

/// The HTTP method of a request.
#[derive(Clone, Copy, Debug, PartialEq, Eq, Structural)]
pub enum Method {
    Get,
    Post,
}

/// What a request carries after its headers.
pub enum RequestBody {
    Empty,
    Text(String),
    Json(Vec<(String, serde_json::Value)>),
}

/// A request as the client sends it.
pub struct Request {
    pub method: Method,
    pub url: String,
    pub headers: Vec<(String, String)>,
    pub body: RequestBody,
}

/// The names of the pairs, in order.
pub open spec fn names_of<V>(pairs: Seq<(String, V)>) -> Seq<Seq<char>> {
    pairs.map_values(|p: (String, V)| p.0@)
}

/// The names of the parameters whose values are JSON, in order.
pub open spec fn json_param_names(params: Seq<(String, String)>) -> Seq<Seq<char>> {
    names_of(params.filter(|p: (String, String)| json_parses(p.1@)))
}

/// The parameters whose values parse as JSON, with the parsed values, in
/// order; the others are dropped.
pub fn json_params(params: &Vec<(String, String)>) -> (r: Vec<(String, serde_json::Value)>)
    ensures
        names_of(r@) == json_param_names(params@),
{
    let mut r: Vec<(String, serde_json::Value)> = Vec::new();
    let mut i: usize = 0;
    while i < params.len()
        invariant
            i <= params@.len(),
            names_of(r@) == json_param_names(params@.subrange(0, i as int)),
        decreases params@.len() - i,
    {
        let ghost keep = |p: (String, String)| json_parses(p.1@);
        proof {
            assert(params@.subrange(0, i + 1) =~= params@.subrange(0, i as int).push(params@[i as int]));
            params@.subrange(0, i as int).lemma_filter_push(params@[i as int], keep);
        }
        match parse_json(params[i].1.as_str()) {
            Some(v) => {
                let ghost before = r@;
                r.push((params[i].0.clone(), v));
                proof {
                    let f = params@.subrange(0, i as int).filter(keep);
                    assert(names_of(f.push(params@[i as int])) =~= names_of(f).push(params@[i as int].0@));
                    assert(names_of(r@) =~= names_of(before).push(params@[i as int].0@));
                }
            },
            None => {},
        }
        i = i + 1;
    }
    assert(params@.subrange(0, params@.len() as int) =~= params@);
    r
}

/// A GET request: the headers in order, and the body when one is given.
pub fn plan_get(url: String, headers: Vec<(String, String)>, body: Option<String>) -> (r: Request)
    ensures
        r.method == Method::Get,
        r.url == url,
        r.headers == headers,
        match body {
            Some(b) => r.body matches RequestBody::Text(t) && t == b,
            None => r.body is Empty,
        },
{
    let body = match body {
        Some(b) => RequestBody::Text(b),
        None => RequestBody::Empty,
    };
    Request { method: Method::Get, url, headers, body }
}

/// A POST request. Parameters, when given, are sent as a JSON object of
/// those whose values are JSON and take the place of any text body;
/// otherwise the text body is sent when one is given.
pub fn plan_post(
    url: String,
    headers: Vec<(String, String)>,
    body: Option<String>,
    params: Option<Vec<(String, String)>>,
) -> (r: Request)
    ensures
        r.method == Method::Post,
        r.url == url,
        r.headers == headers,
        match params {
            Some(ps) => r.body matches RequestBody::Json(fields) && names_of(fields@)
                == json_param_names(ps@),
            None => match body {
                Some(b) => r.body matches RequestBody::Text(t) && t == b,
                None => r.body is Empty,
            },
        },
{
    let body = match params {
        Some(ps) => RequestBody::Json(json_params(&ps)),
        None => match body {
            Some(b) => RequestBody::Text(b),
            None => RequestBody::Empty,
        },
    };
    Request { method: Method::Post, url, headers, body }
}

} // verus!
