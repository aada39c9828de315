use blog_backend::cookie::auth_cookie;
use blog_backend::envelope::{handle_rejection, response, wrap_json_data, wrap_json_err, Envelope};
use blog_backend::error::{map_transport_rejection, ErrorKind, Rejection};
use blog_backend::model::{Post, User};

#[test]
fn success_envelope_has_status_zero() {
    let e = response::<u64>(Ok(5));
    assert_eq!(e.status, 0);
    assert!(e.error.is_none());
    assert_eq!(e.data, Some(5));
    assert_eq!(wrap_json_data("x".to_string()).data, Some("x".to_string()));
}

#[test]
fn failure_envelopes_carry_kind_status_and_detail() {
    let cases = vec![
        (ErrorKind::NotFound, 404, "Not found"),
        (ErrorKind::BadRequest, 400, "Bad request"),
        (ErrorKind::MethodNotAllowed, 405, "Method not allowed"),
        (ErrorKind::BusinessException("no such post".to_string()), 400, "no such post"),
        (ErrorKind::InternalServerError, 500, "Internal server error"),
    ];
    for (kind, status, detail) in cases {
        let e: Envelope<u64> = response(Err(kind.clone()));
        assert_eq!(e.status, status);
        assert!(e.data.is_none());
        let er = e.error.unwrap();
        assert_eq!(er.code, kind);
        assert_eq!(er.detail, detail);
        assert_eq!(kind.http_status(), status);
    }
}

#[test]
fn wrap_err_keeps_the_given_status() {
    let e: Envelope<String> = wrap_json_err(418, ErrorKind::BadRequest);
    assert_eq!(e.status, 418);
    assert_eq!(e.error.unwrap().detail, "Bad request");
}

#[test]
fn rejections_map_to_fixed_kinds() {
    assert_eq!(map_transport_rejection(Rejection::UnknownPath), ErrorKind::NotFound);
    assert_eq!(map_transport_rejection(Rejection::MalformedBody), ErrorKind::BadRequest);
    assert_eq!(map_transport_rejection(Rejection::UnsupportedMethod), ErrorKind::MethodNotAllowed);
    assert_eq!(
        map_transport_rejection(Rejection::Business("m".to_string())),
        ErrorKind::BusinessException("m".to_string())
    );
    assert_eq!(map_transport_rejection(Rejection::Unrecognized), ErrorKind::InternalServerError);
}

#[test]
fn malformed_body_is_bad_request() {
    let (status, e) = handle_rejection(Rejection::MalformedBody);
    assert_eq!(status, 400);
    assert_eq!(e.status, 400);
    assert_eq!(e.error.unwrap().code, ErrorKind::BadRequest);
    assert!(e.data.is_none());
}

#[test]
fn unrouted_path_is_not_found() {
    let (status, e) = handle_rejection(Rejection::UnknownPath);
    assert_eq!(status, 404);
    assert_eq!(e.error.unwrap().code, ErrorKind::NotFound);
}

#[test]
fn unsupported_verb_and_unknown_failure() {
    assert_eq!(handle_rejection(Rejection::UnsupportedMethod).0, 405);
    let (status, e) = handle_rejection(Rejection::Unrecognized);
    assert_eq!(status, 500);
    assert_eq!(e.error.unwrap().detail, "Internal server error");
}

#[test]
fn cookie_binds_token_for_the_session() {
    assert_eq!(auth_cookie("abc123"), "X-Auth-Token=abc123; HttpOnly; Path=/");
    assert_eq!(auth_cookie(""), "X-Auth-Token=; HttpOnly; Path=/");
}

#[test]
fn user_info_drops_the_password() {
    let u = User {
        id: 3,
        email: "a@b.c".to_string(),
        password: "hash".to_string(),
        created_at: 1,
    };
    let info = u.to_user_info();
    assert_eq!(info.id, 3);
    assert_eq!(info.email, "a@b.c");
}

#[test]
fn post_detail_shows_rendered_content_without_tags() {
    let p = Post {
        id: 9,
        title: "t".to_string(),
        markdown_content: "# t".to_string(),
        rendered_content: "<h1>t</h1>".to_string(),
        created_at: 5,
        updated_at: Some(6),
    };
    let d = p.to_detail();
    assert_eq!(d.id, 9);
    assert_eq!(d.title, "t");
    assert_eq!(d.content, "<h1>t</h1>");
    assert_eq!(d.tags, None);
    assert_eq!(d.created_at, 5);
    assert_eq!(d.updated_at, Some(6));
}
