use praxis::actions::FilterAction;
use praxis::context::HttpFilterContext;
use praxis::message::{HeaderMap, Request, Response};
use praxis::transform::{HeaderFilter, StaticResponseFilter};

fn pairs(v: &[(&str, &str)]) -> Vec<(String, String)> {
    v.iter().map(|(a, b)| (a.to_string(), b.to_string())).collect()
}

fn ctx_with_response(headers: &[(&str, &str)]) -> HttpFilterContext {
    let mut h = HeaderMap::new();
    for (k, v) in headers {
        h.append(k, v);
    }
    let mut ctx = HttpFilterContext::new(Request::new("GET", "/"));
    ctx.response_header = Some(Response { status: 200, headers: h });
    ctx
}

#[test]
fn request_add_populates_extra_headers() {
    let f = HeaderFilter::new(pairs(&[("X-Forwarded-By", "praxis")]), vec![], vec![], vec![]);
    let mut ctx = HttpFilterContext::new(Request::new("GET", "/"));
    f.on_request(&mut ctx);
    assert_eq!(ctx.extra_request_headers, pairs(&[("X-Forwarded-By", "praxis")]));
}

#[test]
fn response_set_overwrites_header() {
    let f = HeaderFilter::new(vec![], vec![], vec![], pairs(&[("server", "praxis")]));
    let mut ctx = ctx_with_response(&[("server", "nginx")]);
    f.on_response(&mut ctx);
    let resp = ctx.response_header.unwrap();
    assert_eq!(resp.headers.get_all("server"), vec!["praxis".to_string()]);
}

#[test]
fn response_remove_deletes_header() {
    let f = HeaderFilter::new(vec![], vec![], vec!["x-backend-server".to_string()], vec![]);
    let mut ctx = ctx_with_response(&[("x-backend-server", "internal")]);
    f.on_response(&mut ctx);
    assert!(!ctx.response_header.unwrap().headers.contains_key("x-backend-server"));
}

#[test]
fn response_add_appends_without_overwriting() {
    let f = HeaderFilter::new(vec![], pairs(&[("x-custom", "second")]), vec![], vec![]);
    let mut ctx = ctx_with_response(&[("x-custom", "first")]);
    f.on_response(&mut ctx);
    assert_eq!(ctx.response_header.unwrap().headers.get_all("x-custom"), vec!["first".to_string(), "second".to_string()]);
}

#[test]
fn invalid_names_and_values_are_skipped() {
    let f = HeaderFilter::new(vec![], pairs(&[("bad name", "v"), ("ok", "bad\u{7f}")]), vec![], vec![]);
    let mut ctx = ctx_with_response(&[]);
    f.on_response(&mut ctx);
    assert_eq!(ctx.response_header.unwrap().headers.len(), 0);
}

#[test]
fn no_response_is_noop() {
    let f = HeaderFilter::new(vec![], pairs(&[("a", "b")]), vec![], vec![]);
    let mut ctx = HttpFilterContext::new(Request::new("GET", "/"));
    assert!(matches!(f.on_response(&mut ctx), FilterAction::Continue));
    assert!(ctx.response_header.is_none());
}

#[test]
fn returns_configured_response() {
    let f = StaticResponseFilter::new(418, pairs(&[("X-Custom", "teapot")]), Some("I'm a teapot"));
    match f.on_request() {
        FilterAction::Reject(r) => {
            assert_eq!(r.status, 418);
            assert_eq!(r.headers.len(), 1);
            assert_eq!(r.headers[0].0, "X-Custom");
            assert_eq!(r.headers[0].1, "teapot");
            assert_eq!(r.body.unwrap(), b"I'm a teapot".to_vec());
        },
        _ => panic!("expected reject"),
    }
}

#[test]
fn static_response_without_body() {
    let f = StaticResponseFilter::new(204, vec![], None);
    assert!(matches!(f.on_request(), FilterAction::Reject(r) if r.status == 204 && r.body.is_none()));
    assert_eq!(f.name(), "static_response");
}
