//! Tests of target validation, sanitization, query-string parsing, paging,
//! sessions and the small parsers around the services.

use fb_web_server::claims::{Claims, Session};
use fb_web_server::claims::evaluate_session;
use fb_web_server::file_service::{parse_range, ServiceConfig as FileConfig};
use fb_web_server::hierarchy::{resolve_parent_kind, validate_target, ParentKind};
use fb_web_server::http_util::{
    build_http_result, get_paging_options, get_param, parse_query_string, HttpError,
};
use fb_web_server::adapters::AdapterError;
use fb_web_server::pojos::{
    get_type_char, get_type_game, get_type_move, parse_status, status_name, AnyDocument,
    Attribute, Document, Game, Media, ProposalStatus,
};
use fb_web_server::strutil::{parse_u16, parse_u64, str_eq, trim_str};
use fb_web_server::upload_service::parse_content_length;

fn bad_request_text(e: HttpError) -> String {
    match e {
        HttpError::BadRequest(m) => String::from_utf8(m).unwrap(),
        _ => panic!("expected a bad request"),
    }
}

#[test]
fn valid_child_target_is_accepted() {
    assert!(validate_target("game1-charA", Some("game1")).is_ok());
}

#[test]
fn child_of_another_game_is_rejected() {
    let err = validate_target("game2-charA", Some("game1")).err().unwrap();
    assert_eq!(
        bad_request_text(err),
        "The target name does not start with the parent's id"
    );
}

#[test]
fn target_validation_edges() {
    // No parent: word characters and hyphens only, non-empty.
    assert!(validate_target("sf6", None).is_ok());
    assert!(validate_target("sf6-char_A-2", None).is_ok());
    assert_eq!(bad_request_text(validate_target("", None).err().unwrap()), "Invalid target name");
    assert_eq!(
        bad_request_text(validate_target("bad!name", None).err().unwrap()),
        "Invalid target name"
    );
    // With a parent: the separator is required and the segment non-empty.
    assert!(validate_target("game1-", Some("game1")).is_err());
    assert!(validate_target("game1charA", Some("game1")).is_err());
    assert!(validate_target("game1-char!", Some("game1")).is_err());
    assert!(validate_target("game1-c", Some("game1")).is_ok());
}

#[test]
fn parent_kind_follows_the_document_type() {
    assert_eq!(resolve_parent_kind("game"), ParentKind::NoParent);
    assert_eq!(resolve_parent_kind("character"), ParentKind::Game);
    assert_eq!(resolve_parent_kind("move"), ParentKind::Character);
    assert_eq!(resolve_parent_kind("anything-else"), ParentKind::Character);
}

#[test]
fn sanitize_trims_dedupes_and_drops_empty_names() {
    let mut doc = Game {
        title: "  Spaced Title  ".to_string(),
        attributes: vec![Attribute {
            title: " speed ".to_string(),
            value: " fast\t".to_string(),
            sentiment: " up ".to_string(),
        }],
        names: vec![" Foo ".to_string(), "foo".to_string(), "".to_string(), "  ".to_string()],
        media: Media { file_name: None, preview_data: None },
    };
    doc.sanitize();
    assert_eq!(doc.title, "Spaced Title");
    assert_eq!(doc.attributes[0].title, "speed");
    assert_eq!(doc.attributes[0].value, "fast");
    assert_eq!(doc.attributes[0].sentiment, "up");
    // Deduplication is case-sensitive on the trimmed name: a different case
    // is a different name.
    assert_eq!(doc.names, vec!["Foo".to_string(), "foo".to_string()]);
}

#[test]
fn sanitize_keeps_first_of_equal_trimmed_names() {
    let mut doc = Game {
        title: "t".to_string(),
        attributes: Vec::new(),
        names: vec![" Foo ".to_string(), "Foo".to_string(), "".to_string(), "  ".to_string()],
        media: Media { file_name: None, preview_data: None },
    };
    doc.sanitize();
    assert_eq!(doc.names, vec!["Foo".to_string()]);
}

#[test]
fn sanitize_dispatches_through_the_document_trait() {
    let mut doc = AnyDocument::Game(Game {
        title: " padded ".to_string(),
        attributes: Vec::new(),
        names: vec![" a ".to_string(), "a".to_string()],
        media: Media { file_name: None, preview_data: None },
    });
    assert_eq!(doc.get_type(), "game");
    assert!(doc.get_parent().is_none());
    doc.sanitize();
    match doc {
        AnyDocument::Game(g) => {
            assert_eq!(g.title, "padded");
            assert_eq!(g.names, vec!["a".to_string()]);
        }
        _ => unreachable!(),
    }
}

#[test]
fn trim_strips_ascii_whitespace() {
    assert_eq!(trim_str("  a b \t\r\n"), "a b");
    assert_eq!(trim_str(""), "");
    assert_eq!(trim_str("   "), "");
    assert_eq!(trim_str("x"), "x");
}

#[test]
fn string_equality_and_digit_parsing() {
    assert!(str_eq("abc", "abc"));
    assert!(!str_eq("abc", "abd"));
    assert_eq!(parse_u64("0"), Some(0));
    assert_eq!(parse_u64("18446744073709551615"), Some(u64::MAX));
    assert_eq!(parse_u64("18446744073709551616"), None);
    assert_eq!(parse_u64(""), None);
    assert_eq!(parse_u64("12a"), None);
    assert_eq!(parse_u16("65535"), Some(65535));
    assert_eq!(parse_u16("65536"), None);
}

#[test]
fn query_strings_parse_into_parameters() {
    let params = parse_query_string("status=pending&target=sf6");
    assert_eq!(params.len(), 2);
    assert_eq!(params[0], ("status".to_string(), "pending".to_string()));
    assert_eq!(params[1], ("target".to_string(), "sf6".to_string()));
    // Malformed segments are dropped; values may hold '='.
    let params = parse_query_string("a=b=c&broken&=x&y=&k=v");
    assert_eq!(params.len(), 2);
    assert_eq!(params[0], ("a=b".to_string(), "c".to_string()));
    assert_eq!(params[1], ("k".to_string(), "v".to_string()));
    // The last occurrence of a parameter wins on lookup.
    let params = parse_query_string("x=1&x=2");
    assert_eq!(get_param(&params, "x").unwrap(), "2");
    assert!(get_param(&params, "y").is_none());
    assert!(parse_query_string("").is_empty());
}

#[test]
fn paging_defaults_and_cap() {
    let none: Vec<(String, String)> = Vec::new();
    assert_eq!(get_paging_options(&none), Ok((0, 10)));
    let params = parse_query_string("offset=3&limit=7");
    assert_eq!(get_paging_options(&params), Ok((3, 7)));
    // The limit is capped at 50.
    let params = parse_query_string("limit=1000");
    assert_eq!(get_paging_options(&params), Ok((0, 50)));
    // A bad integer names the parameter.
    let params = parse_query_string("offset=zz");
    assert_eq!(
        get_paging_options(&params).err().unwrap(),
        "Invalid integer for parameter 'offset'"
    );
    let params = parse_query_string("limit=-1");
    assert_eq!(
        get_paging_options(&params).err().unwrap(),
        "Invalid integer for parameter 'limit'"
    );
}

#[test]
fn status_names_round_trip() {
    for st in [
        ProposalStatus::Pending,
        ProposalStatus::Approved,
        ProposalStatus::Rejected,
        ProposalStatus::Cancelled,
    ] {
        assert_eq!(parse_status(status_name(st)), Some(st));
    }
    assert_eq!(parse_status("parked"), None);
    assert_eq!(status_name(ProposalStatus::Cancelled), "cancelled");
}

#[test]
fn type_tags_are_fixed() {
    assert_eq!(get_type_game(), "game");
    assert_eq!(get_type_char(), "character");
    assert_eq!(get_type_move(), "move");
}

#[test]
fn sessions_follow_the_expiry_windows() {
    let claims = || {
        Claims::new(
            "hash".to_string(),
            "example.test".to_string(),
            "u:2".to_string(),
            "writer".to_string(),
            false,
            1000,
        )
    };
    assert!(matches!(evaluate_session(claims(), "hash", 500), Session::Valid(_)));
    assert!(matches!(evaluate_session(claims(), "hash", 1000), Session::Valid(_)));
    assert!(matches!(evaluate_session(claims(), "hash", 1001), Session::Expired(_)));
    assert!(matches!(evaluate_session(claims(), "hash", 1000 + 86400), Session::Expired(_)));
    assert!(matches!(evaluate_session(claims(), "hash", 1001 + 86400), Session::Invalid));
    assert!(matches!(evaluate_session(claims(), "other-hash", 500), Session::Invalid));
    let c = claims();
    assert_eq!(c.sub(), "u:2");
    assert_eq!(c.screen_name(), "writer");
    assert_eq!(*c.exp(), 1000);
    assert!(!c.is_admin());
    assert_eq!(c.nonce(), "hash");
    let session = Session::Valid(claims());
    assert!(session.authenticated_claims().is_some());
    assert!(Session::Absent.authenticated_claims().is_none());
}

#[test]
fn adapter_errors_map_to_http_errors() {
    let ok: Result<u8, AdapterError> = Ok(7);
    assert_eq!(build_http_result(ok).unwrap(), 7);
    let not_found: Result<u8, AdapterError> = Err(AdapterError::DocumentNotFound);
    assert!(matches!(build_http_result(not_found), Err(HttpError::NotFound(_))));
    let internal: Result<u8, AdapterError> = Err(AdapterError::InternalError);
    assert!(matches!(build_http_result(internal), Err(HttpError::InternalError(_))));
    let precondition: Result<u8, AdapterError> = Err(AdapterError::PreconditionFailed);
    assert_eq!(
        bad_request_text(build_http_result(precondition).err().unwrap()),
        "The proposal is not pending"
    );
}

#[test]
fn http_errors_carry_status_codes_and_bodies() {
    let (body, code) = HttpError::BadRequest(b"oops".to_vec()).to_response_parts();
    assert_eq!((body.as_slice(), code), (b"oops".as_slice(), 400));
    let (body, code) = HttpError::InternalError(None).to_response_parts();
    assert_eq!((body.as_slice(), code), (b"Internal server error".as_slice(), 500));
    let (body, code) = HttpError::Unauthorized(None).to_response_parts();
    assert_eq!((body.as_slice(), code), (b"Unauthorized".as_slice(), 401));
    let (body, code) = HttpError::NotFound(None).to_response_parts();
    assert_eq!(
        (body.as_slice(), code),
        (b"The requested resource is not available".as_slice(), 404),
    );
}

#[test]
fn range_headers_parse_to_bounds() {
    let range = parse_range("bytes=10-200").unwrap();
    assert_eq!((range.start, range.end), (10, 200));
    assert!(parse_range("bytes=10-").is_none());
    assert!(parse_range("bytes=-200").is_none());
    assert!(parse_range("10-200").is_none());
    assert!(parse_range("bytes=1-2-3").is_none());
    assert!(parse_range("bytes=a-2").is_none());
}

#[test]
fn mime_types_follow_the_extension_table() {
    let config = FileConfig::new(
        "/content".to_string(),
        "/uploads".to_string(),
        "404.html".to_string(),
    );
    assert_eq!(config.get_mime_type("html"), "text/html; charset=utf-8");
    assert_eq!(config.get_mime_type("jpg"), "image/jpeg");
    assert_eq!(config.get_mime_type("webm"), "video/webm");
    assert_eq!(config.get_mime_type("xyz"), "text/plain; charset=utf-8");
    assert_eq!(config.content_dir(), "/content");
    assert_eq!(config.uploads_dir(), "/uploads");
    assert_eq!(config.not_found_file(), "404.html");
}

#[test]
fn content_length_values_parse_to_u32() {
    assert_eq!(parse_content_length("1024").unwrap(), 1024);
    assert_eq!(parse_content_length("4294967295").unwrap(), u32::MAX);
    assert_eq!(
        bad_request_text(parse_content_length("4294967296").err().unwrap()),
        "Invalid Content-Length value"
    );
    assert!(parse_content_length("12kb").is_err());
    assert!(parse_content_length("").is_err());
}
