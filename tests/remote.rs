use repo_analyzer::error::ConnectorError;
use repo_analyzer::remote::{
    check_response, content_from_field, decode_file_response, text_of_decoded, GithubConnector,
    GithubFileIterator, RepoWalk,
};

#[test]
fn url_without_repository_segment_is_refused() {
    assert!(matches!(
        GithubConnector::new("https://github.com/owner".to_string(), None),
        Err(ConnectorError::InvalidUrl)
    ));
    assert!(matches!(
        GithubConnector::new("not a url".to_string(), None),
        Err(ConnectorError::InvalidUrl)
    ));
    assert!(matches!(
        GithubConnector::new("mailto:someone@example.com".to_string(), None),
        Err(ConnectorError::InvalidUrl)
    ));
}

#[test]
fn url_names_owner_and_repository() {
    let c = GithubConnector::new("https://github.com/acme/widgets".to_string(), None).unwrap();
    assert_eq!(c.owner(), "acme");
    assert_eq!(c.repo(), "widgets");
    assert_eq!(
        c.contents_url("src/index.js"),
        "https://api.github.com/repos/acme/widgets/contents/src/index.js"
    );
    assert_eq!(c.contents_url(""), "https://api.github.com/repos/acme/widgets/contents/");
    assert_eq!(
        c.manifest_url(),
        "https://api.github.com/repos/acme/widgets/contents/package.json"
    );
    assert_eq!(c.authorization(), None);
    let deeper =
        GithubConnector::new("https://github.com/acme/widgets/tree/main".to_string(), None)
            .unwrap();
    assert_eq!(deeper.repo(), "widgets");
}

#[test]
fn token_becomes_authorization_header() {
    let c = GithubConnector::new("https://github.com/a/b".to_string(), Some("SECRET-REDACTED".to_string()))
        .unwrap();
    assert_eq!(c.authorization(), Some("token SECRET-REDACTED".to_string()));
}

#[test]
fn responses_are_classified() {
    assert_eq!(check_response(200, "[]"), Ok(()));
    assert_eq!(check_response(204, ""), Ok(()));
    assert_eq!(
        check_response(404, "{\"message\":\"Not Found\"}"),
        Err(ConnectorError::RepositoryNotFound)
    );
    assert_eq!(check_response(404, "gone"), Err(ConnectorError::PathNotFound));
    assert_eq!(
        check_response(403, "{\"message\":\"API rate limit exceeded\"}"),
        Err(ConnectorError::RateLimited)
    );
    assert_eq!(check_response(403, "Forbidden"), Err(ConnectorError::AccessDenied));
    assert_eq!(
        check_response(500, "boom"),
        Err(ConnectorError::Api { status: 500, body: "boom".to_string() })
    );
    assert_eq!(
        check_response(301, ""),
        Err(ConnectorError::Api { status: 301, body: String::new() })
    );
}

#[test]
fn file_answers_are_decoded() {
    assert_eq!(
        decode_file_response("{\"content\":\"ZXZh\\nbCgp\\n\",\"encoding\":\"base64\"}"),
        Ok("eval()".to_string())
    );
    assert_eq!(decode_file_response("{\"name\":\"a.js\"}"), Err(ConnectorError::NoContent));
    assert_eq!(decode_file_response("{\"content\":12}"), Err(ConnectorError::NoContent));
    assert_eq!(decode_file_response("not json"), Err(ConnectorError::InvalidResponse));
    assert_eq!(
        decode_file_response("{\"content\":\"@@@\"}"),
        Err(ConnectorError::InvalidEncoding)
    );
    assert_eq!(decode_file_response("{\"content\":\"/w==\"}"), Err(ConnectorError::InvalidUtf8));
}

#[test]
fn decoding_steps() {
    assert_eq!(content_from_field(None), Err(ConnectorError::NoContent));
    assert_eq!(content_from_field(Some("aGk=".to_string())), Ok("hi".to_string()));
    assert_eq!(content_from_field(Some(String::new())), Ok(String::new()));
    assert_eq!(text_of_decoded(None), Err(ConnectorError::InvalidEncoding));
    assert_eq!(text_of_decoded(Some(vec![104, 105])), Ok("hi".to_string()));
    assert_eq!(text_of_decoded(Some(vec![0xc3])), Err(ConnectorError::InvalidUtf8));
}

#[test]
fn walk_visits_tree_depth_first() {
    let mut w = RepoWalk::new();
    assert_eq!(w.next_directory(), Some(String::new()));
    let root = "[{\"type\":\"file\",\"path\":\"index.js\",\"name\":\"index.js\"},\
                {\"type\":\"dir\",\"path\":\"lib\"},\
                {\"type\":\"dir\",\"path\":\"test\"},\
                {\"type\":\"symlink\",\"path\":\"link\"},\
                {\"path\":\"untyped\"}]";
    assert_eq!(w.on_listing(200, root), Ok(vec!["index.js".to_string()]));
    assert_eq!(w.next_directory(), Some("test".to_string()));
    assert_eq!(w.on_listing(200, "[]"), Ok(vec![]));
    assert_eq!(w.next_directory(), Some("lib".to_string()));
    let lib = "[{\"type\":\"file\",\"path\":\"lib/a.js\"},{\"type\":\"file\",\"path\":\"lib/b.ts\"}]";
    assert_eq!(
        w.on_listing(200, lib),
        Ok(vec!["lib/a.js".to_string(), "lib/b.ts".to_string()])
    );
    assert_eq!(w.next_directory(), None);
    assert_eq!(w.finish(), Ok(()));
}

#[test]
fn walk_without_files_fails() {
    let mut w = RepoWalk::new();
    assert_eq!(w.next_directory(), Some(String::new()));
    assert_eq!(w.on_listing(200, "[{\"type\":\"dir\",\"path\":\"empty\"}]"), Ok(vec![]));
    assert_eq!(w.next_directory(), Some("empty".to_string()));
    assert_eq!(w.on_listing(200, "[]"), Ok(vec![]));
    assert_eq!(w.next_directory(), None);
    assert_eq!(w.finish(), Err(ConnectorError::NoFiles));
}

#[test]
fn walk_stops_on_failed_or_malformed_listing() {
    let mut w = RepoWalk::new();
    w.next_directory();
    assert_eq!(
        w.on_listing(403, "API rate limit exceeded for 1.2.3.4"),
        Err(ConnectorError::RateLimited)
    );
    assert_eq!(w.on_listing(200, "{\"message\":\"x\"}"), Err(ConnectorError::InvalidResponse));
    assert_eq!(w.next_directory(), None);
}

#[test]
fn file_iterator_hands_out_files_in_order() {
    let mut it = GithubFileIterator::new(vec!["a.js".to_string(), "b.ts".to_string()]);
    assert_eq!(it.next(), Some("a.js".to_string()));
    assert_eq!(it.next(), Some("b.ts".to_string()));
    assert_eq!(it.next(), None);
    assert_eq!(it.next(), None);
}

#[test]
fn path_segments_name_owner_and_repository() {
    let c = GithubConnector::from_path_segments(
        Some(vec!["acme".to_string(), "widgets".to_string(), "tree".to_string()]),
        None,
    )
    .unwrap();
    assert_eq!(c.owner(), "acme");
    assert_eq!(c.repo(), "widgets");
    assert!(matches!(
        GithubConnector::from_path_segments(Some(vec!["acme".to_string()]), None),
        Err(ConnectorError::InvalidUrl)
    ));
    assert!(matches!(
        GithubConnector::from_path_segments(None, None),
        Err(ConnectorError::InvalidUrl)
    ));
}
