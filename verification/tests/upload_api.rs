use rustpic::api::{
    auth_header_value, contents_url, create_repo_request, create_repo_url, delete_message,
    interpret_identity, interpret_repo_exists, interpret_write_outcome, is_success_status,
    repo_url, upload_message, user_url,
};
use rustpic::listing::{interpret_listing, FileInfo};
use rustpic::errors::{AuthError, RemoteError, ValidationError};
use rustpic::repo::{pages_repo_name, resolve_delete_target, resolve_repository};
use rustpic::upload::{
    build_upload_result, dashboard_pages_link, pages_site_url, plan_upload, validate_payload,
    CDN_LIMIT_BYTES, MAX_UPLOAD_BYTES,
};

fn b(s: &str) -> Vec<u8> {
    s.as_bytes().to_vec()
}

fn t(s: &str) -> String {
    String::from_utf8(s.as_bytes().to_vec()).unwrap()
}

fn text(v: &[u8]) -> String {
    String::from_utf8(v.to_vec()).unwrap()
}

#[test]
fn payload_cap_is_50_mib() {
    assert_eq!(MAX_UPLOAD_BYTES, 52428800);
    assert_eq!(CDN_LIMIT_BYTES, 20971520);
}

#[test]
fn empty_content_rejected() {
    let r = validate_payload(&b(""), &b("photo.png"));
    assert_eq!(r, Err(ValidationError::EmptyContent));
}

#[test]
fn empty_filename_rejected() {
    let r = validate_payload(&b("data"), &b(""));
    assert_eq!(r, Err(ValidationError::EmptyFilename));
}

#[test]
fn oversized_payload_rejected_before_any_remote_call() {
    let content = vec![0u8; 50 * 1024 * 1024 + 1];
    let r = validate_payload(&content, &b("big.bin"));
    assert_eq!(r, Err(ValidationError::PayloadTooLarge));
    let plan = plan_upload(&b("alice"), &None, &b(""), &b("big.bin"), &content, 1);
    assert_eq!(plan.err(), Some(ValidationError::PayloadTooLarge));
}

#[test]
fn payload_at_cap_accepted() {
    let content = vec![0u8; 50 * 1024 * 1024];
    assert_eq!(validate_payload(&content, &b("big.bin")), Ok(()));
}

#[test]
fn plan_defaults_to_pages_repository() {
    let plan = plan_upload(&b("alice"), &None, &b(""), &b("photo.png"), &b("hello"), 7).unwrap();
    assert_eq!(text(&plan.owner), t("alice"));
    assert_eq!(text(&plan.repo), t("alice.github.io"));
    assert_eq!(text(&plan.path), t("photo_7.png"));
    assert_eq!(plan.size, 5);
}

#[test]
fn plan_encodes_payload_as_base64() {
    let plan = plan_upload(&b("alice"), &None, &b(""), &b("a.txt"), &b("abc"), 7).unwrap();
    assert_eq!(text(&plan.content_b64), t("YWJj"));
    let plan2 = plan_upload(&b("alice"), &None, &b(""), &b("a.txt"), &b("hello"), 7).unwrap();
    assert_eq!(text(&plan2.content_b64), t("aGVsbG8="));
}

#[test]
fn plan_takes_explicit_owner_and_name() {
    let plan =
        plan_upload(&b("alice"), &Some(b("bob/pics")), &b("x"), &b("a.png"), &b("z"), 2).unwrap();
    assert_eq!(text(&plan.owner), t("bob"));
    assert_eq!(text(&plan.repo), t("pics"));
    assert_eq!(text(&plan.path), t("x/a_2.png"));
}

#[test]
fn plan_rejects_bare_repo_name() {
    // An explicit target must itself be an owner/name pair.
    let r = plan_upload(&b("alice"), &Some(b("pics")), &b(""), &b("a.png"), &b("z"), 2);
    assert_eq!(r.err(), Some(ValidationError::BadRepoFormat));
}

#[test]
fn plan_rejects_malformed_repo() {
    let r = plan_upload(&b("alice"), &Some(b("a/b/c")), &b(""), &b("a.png"), &b("z"), 2);
    assert_eq!(r.err(), Some(ValidationError::BadRepoFormat));
    let r2 = plan_upload(&b("alice"), &Some(b("")), &b(""), &b("a.png"), &b("z"), 2);
    assert_eq!(r2.err(), Some(ValidationError::BadRepoFormat));
    let r3 = plan_upload(&b("alice"), &Some(b("bob/")), &b(""), &b("a.png"), &b("z"), 2);
    assert_eq!(r3.err(), Some(ValidationError::BadRepoFormat));
}

#[test]
fn resolve_rejects_empty_owner() {
    let r = resolve_repository(&b("alice"), &Some(b("/pics")));
    assert_eq!(r.err(), Some(ValidationError::BadRepoFormat));
}

#[test]
fn cdn_link_at_threshold() {
    let r = build_upload_result(&b("alice"), &b("pics"), &b("a_1.png"), 20 * 1024 * 1024, false);
    assert_eq!(text(&r.cdn_link), t("https://cdn.jsdelivr.net/gh/alice/pics/a_1.png"));
}

#[test]
fn raw_link_above_threshold() {
    let r =
        build_upload_result(&b("alice"), &b("pics"), &b("a_1.png"), 20 * 1024 * 1024 + 1, false);
    assert_eq!(
        text(&r.cdn_link),
        t("https://raw.githubusercontent.com/alice/pics/main/a_1.png")
    );
}

#[test]
fn pages_link_only_for_existing_pages_repository() {
    let on_pages =
        build_upload_result(&b("alice"), &b("alice.github.io"), &b("a_1.png"), 10, true);
    assert_eq!(
        on_pages.pages_link.as_deref().map(text),
        Some(t("https://alice.github.io/a_1.png"))
    );
    let missing = build_upload_result(&b("alice"), &b("alice.github.io"), &b("a_1.png"), 10, false);
    assert_eq!(missing.pages_link, None);
    let elsewhere = build_upload_result(&b("alice"), &b("pics"), &b("a_1.png"), 10, true);
    assert_eq!(elsewhere.pages_link, None);
}

#[test]
fn write_outcome_ok_iff_2xx() {
    assert_eq!(interpret_write_outcome(201, b("")), Ok(()));
    let refused = interpret_write_outcome(422, b("name already exists")).unwrap_err();
    assert_eq!(refused.status, 422);
    assert_eq!(text(&refused.body), t("name already exists"));
}

fn listing_entry(name: &str) -> FileInfo {
    FileInfo {
        name: b(name),
        path: b(name),
        sha: b("0000"),
        size: 1,
        download_url: None,
    }
}

#[test]
fn listing_failures_read_as_empty() {
    assert_eq!(interpret_listing(None, None, 100), vec![]);
    assert_eq!(
        interpret_listing(Some(404), Some(vec![listing_entry("a_1.png")]), 100),
        vec![]
    );
    assert_eq!(interpret_listing(Some(200), None, 100), vec![]);
}

#[test]
fn listing_answer_is_ordered_and_truncated() {
    let entries = vec![
        listing_entry("a_100.png"),
        listing_entry("b_200.png"),
        listing_entry("c_300.png"),
    ];
    let shown = interpret_listing(Some(200), Some(entries), 2);
    let names: Vec<String> = shown.iter().map(|f| text(&f.name)).collect();
    assert_eq!(names, vec![t("c_300.png"), t("b_200.png")]);
}

#[test]
fn relay_keys_are_fixed() {
    assert_eq!(rustpic::relay::session_token_key(), "gh_token");
    assert_eq!(rustpic::relay::upload_result_key(), "upload_result");
    assert_eq!(rustpic::relay::upload_error_key(), "upload_error");
    assert_eq!(rustpic::relay::cdn_link_field(), "cdn_link");
    assert_eq!(rustpic::relay::pages_link_field(), "pages_link");
}

#[test]
fn repo_exists_false_on_network_failure() {
    assert!(!interpret_repo_exists(None));
}

#[test]
fn repo_exists_tracks_success_statuses() {
    assert!(interpret_repo_exists(Some(200)));
    assert!(interpret_repo_exists(Some(299)));
    assert!(!interpret_repo_exists(Some(300)));
    assert!(!interpret_repo_exists(Some(404)));
    assert!(!interpret_repo_exists(Some(500)));
}

#[test]
fn success_statuses_are_the_2xx_range() {
    assert!(!is_success_status(199));
    assert!(is_success_status(200));
    assert!(is_success_status(204));
    assert!(!is_success_status(301));
}

#[test]
fn identity_read_from_successful_answer() {
    let r = interpret_identity(Some(200), Some(b("alice")));
    assert_eq!(r.map(|l| text(&l)), Ok(t("alice")));
}

#[test]
fn identity_refused_otherwise() {
    assert_eq!(interpret_identity(Some(401), Some(b("alice"))), Err(AuthError));
    assert_eq!(interpret_identity(Some(200), None), Err(AuthError));
    assert_eq!(interpret_identity(None, Some(b("alice"))), Err(AuthError));
}

#[test]
fn identity_idempotent_across_repeated_validation() {
    let first = interpret_identity(Some(200), Some(b("alice")));
    let second = interpret_identity(Some(200), Some(b("alice")));
    assert_eq!(first, second);
}

#[test]
fn endpoint_urls() {
    assert_eq!(text(&user_url()), t("https://api.github.com/user"));
    assert_eq!(text(&create_repo_url()), t("https://api.github.com/user/repos"));
    assert_eq!(
        text(&repo_url(&b("alice"), &b("pics"))),
        t("https://api.github.com/repos/alice/pics")
    );
    assert_eq!(
        text(&contents_url(&b("alice"), &b("pics"), &b("x/a_1.png"))),
        t("https://api.github.com/repos/alice/pics/contents/x/a_1.png")
    );
}

#[test]
fn auth_header_carries_token() {
    assert_eq!(text(&auth_header_value(&b("tok123"))), t("token tok123"));
}

#[test]
fn commit_messages_name_tool_and_path() {
    assert_eq!(text(&upload_message(&b("a_1.png"))), t("Upload a_1.png via RustPic"));
    assert_eq!(text(&delete_message(&b("a_1.png"))), t("Delete a_1.png via RustPic"));
}

#[test]
fn repo_creation_always_asks_for_initial_commit() {
    let req = create_repo_request(&b("pics"), &b("Image Storage via RustPic"));
    assert!(req.auto_init);
    assert_eq!(text(&req.name), t("pics"));
    assert_eq!(text(&req.description), t("Image Storage via RustPic"));
}

#[test]
fn delete_target_split_or_verbatim() {
    let split = resolve_delete_target(&b("alice"), &b("bob/pics"));
    assert_eq!(text(&split.owner), t("bob"));
    assert_eq!(text(&split.name), t("pics"));
    let own = resolve_delete_target(&b("alice"), &b("pics"));
    assert_eq!(text(&own.owner), t("alice"));
    assert_eq!(text(&own.name), t("pics"));
    let odd = resolve_delete_target(&b("alice"), &b("a/b/c"));
    assert_eq!(text(&odd.owner), t("alice"));
    assert_eq!(text(&odd.name), t("a/b/c"));
}

#[test]
fn pages_names_and_site() {
    assert_eq!(text(&pages_repo_name(&b("alice"))), t("alice.github.io"));
    assert_eq!(text(&pages_site_url(&b("alice"))), t("https://alice.github.io"));
}

#[test]
fn dashboard_link_prefers_relayed_result() {
    let relayed = dashboard_pages_link(Some(b("https://x/y.png")), &b("alice"));
    assert_eq!(text(&relayed), t("https://x/y.png"));
    let fallback = dashboard_pages_link(None, &b("alice"));
    assert_eq!(text(&fallback), t("https://alice.github.io"));
}

#[test]
fn error_messages() {
    assert_eq!(
        text(&ValidationError::EmptyContent.message()),
        t("Failed to read file content. The file may be empty or corrupted.")
    );
    assert_eq!(text(&ValidationError::EmptyFilename.message()), t("No file selected."));
    assert_eq!(
        text(&ValidationError::PayloadTooLarge.message()),
        t("File too large. Maximum size is 50MB.")
    );
    assert_eq!(
        text(&ValidationError::BadRepoFormat.message()),
        t("Invalid repository format. Use user/repo")
    );
    assert_eq!(text(&AuthError.message()), t("Invalid GitHub Token"));
}

#[test]
fn remote_error_texts_wrap_the_raw_body() {
    let e = RemoteError { status: 422, body: b("name already exists") };
    assert_eq!(text(&e.upload_failed_text()), t("Upload failed: name already exists"));
    assert_eq!(text(&e.creation_failed_text()), t("Repo creation failed: name already exists"));
    assert_eq!(text(&e.delete_failed_text()), t("Delete failed: name already exists"));
}
