//! End-to-end tests of the proposal workflow: submission, moderation and
//! publish.

use fb_web_server::adapters::{QueryExecutor, QueryStore};
use fb_web_server::claims::Claims;
use fb_web_server::documents::Documents;
use fb_web_server::handlers::Proposal as ProposalHandler;
use fb_web_server::http_util::HttpError;
use fb_web_server::indexes::NameSets;
use fb_web_server::pojos::{AnyDocument, Game, Media, ProposalRequest, ProposalStatus};
use fb_web_server::proposals::Proposals;
use fb_web_server::store::{DocKind, Store};

fn full_catalog() -> QueryStore {
    let names = [
        "proposals/get_list_asc",
        "proposals/get_list_desc",
        "proposals/get_list_for_target_asc",
        "proposals/get_list_for_target_desc",
        "proposals/get_list_for_author_asc",
        "proposals/get_list_for_author_desc",
        "proposals/get_last_approved",
        "proposals/get_latest_authors",
        "proposals/close",
        "documents/get_game",
        "documents/get_char",
        "documents/get_move",
        "documents/get_game_list",
        "documents/get_char_list",
        "documents/get_move_list",
        "name_sets/update_game",
        "name_sets/update_game_chars",
        "name_sets/update_game_moves",
        "name_sets/update_char",
        "name_sets/update_char_moves",
        "name_sets/update_move",
        "tagsets/update_game",
        "tagsets/update_game_chars",
        "tagsets/update_game_moves",
        "tagsets/update_char",
        "tagsets/update_char_moves",
        "tagsets/update_move",
    ];
    let mut entries: Vec<(String, String)> = Vec::new();
    for name in names.iter() {
        entries.push((name.to_string(), format!("SELECT /* {} */", name)));
    }
    QueryStore::new(entries)
}

fn new_exec() -> QueryExecutor {
    QueryExecutor::new(Store::new(), full_catalog())
}

fn handler() -> ProposalHandler {
    ProposalHandler::new(Proposals::new(), Documents::new(), NameSets::new())
}

fn admin() -> Claims {
    Claims::new(
        "nonce-hash".to_string(),
        "example.test".to_string(),
        "u:1".to_string(),
        "mod-one".to_string(),
        true,
        1000,
    )
}

fn author() -> Claims {
    Claims::new(
        "nonce-hash".to_string(),
        "example.test".to_string(),
        "u:2".to_string(),
        "writer-two".to_string(),
        false,
        1000,
    )
}

fn other_user() -> Claims {
    Claims::new(
        "nonce-hash".to_string(),
        "example.test".to_string(),
        "u:3".to_string(),
        "reader-three".to_string(),
        false,
        1000,
    )
}

fn game_doc(title: &str) -> AnyDocument {
    AnyDocument::Game(Game {
        title: title.to_string(),
        attributes: Vec::new(),
        names: Vec::new(),
        media: Media { file_name: None, preview_data: None },
    })
}

fn game_request(target: &str) -> ProposalRequest<AnyDocument> {
    ProposalRequest {
        target: target.to_string(),
        import_as: None,
        document: game_doc("A Game"),
    }
}

fn is_bad_request(e: &HttpError) -> bool {
    matches!(e, HttpError::BadRequest(_))
}

fn is_unauthorized(e: &HttpError) -> bool {
    matches!(e, HttpError::Unauthorized(_))
}

#[test]
fn submit_creates_pending_proposal_with_version_one() {
    let mut exec = new_exec();
    let h = handler();
    let (target, version) = h
        .submit_proposal(&mut exec, &author(), game_request("sf6"), 100)
        .expect("submission should be accepted");
    assert_eq!(target, "sf6");
    assert_eq!(version, 1);
    let props = Proposals::new();
    let rec = props.get(&exec, "sf6", 1).expect("stored");
    assert_eq!(rec.version, 1);
    assert_eq!(rec.proposal.status, ProposalStatus::Pending);
    assert_eq!(rec.proposal.author_id, "u:2");
    assert_eq!(rec.proposal.author_name, "writer-two");
    assert_eq!(rec.proposal.created, 100);
    assert!(rec.closed.is_none());
}

#[test]
fn versions_increase_per_target() {
    let mut exec = new_exec();
    let h = handler();
    let (_, v1) = h.submit_proposal(&mut exec, &author(), game_request("sf6"), 100).unwrap();
    let (_, v2) = h.submit_proposal(&mut exec, &author(), game_request("sf6"), 101).unwrap();
    let (_, v3) = h.submit_proposal(&mut exec, &author(), game_request("tk8"), 102).unwrap();
    assert_eq!((v1, v2, v3), (1, 2, 1));
}

#[test]
fn end_to_end_approval_publishes_canonical_document() {
    let mut exec = new_exec();
    let h = handler();
    let (_, version) = h.submit_proposal(&mut exec, &author(), game_request("sf6"), 100).unwrap();
    assert_eq!(version, 1);

    let closed = h
        .close_proposal(&mut exec, "sf6", 1, "approved", &admin(), 200)
        .expect("approval by a privileged identity should succeed");
    assert_eq!(closed.proposal.status, ProposalStatus::Approved);
    assert_eq!(closed.closed, Some(200));

    // The canonical document now exists and carries the author attribution.
    let docs = Documents::new();
    assert!(docs.game_exists(&exec, "sf6").unwrap());
    let canonical = docs.get_game(&exec, "sf6").expect("published");
    assert_eq!(canonical.kind, DocKind::Game);
    assert_eq!(canonical.latest_authors.len(), 1);
    assert_eq!(canonical.latest_authors[0].id, "u:2");
    assert_eq!(canonical.latest_authors[0].name, "writer-two");

    // The index cascade for a game ran all three updates.
    let store = exec.store_ref();
    assert_eq!(store.index_len(), 3);
    assert_eq!(store.index_at(0).query, "name_sets/update_game");
    assert_eq!(store.index_at(1).query, "name_sets/update_game_chars");
    assert_eq!(store.index_at(2).query, "name_sets/update_game_moves");
    assert_eq!(store.index_at(0).target, "sf6");

    // A later read pairs the proposal with the newly approved version.
    let (rec, previous) = h.get_proposal(&exec, "sf6", 1, 300).expect("readable");
    assert_eq!(rec.proposal.status, ProposalStatus::Approved);
    let prev = previous.expect("an approved version exists at its close time");
    assert_eq!(prev.version, 1);
    assert_eq!(prev.proposal.status, ProposalStatus::Approved);
}

#[test]
fn close_already_approved_fails_with_precondition_error() {
    let mut exec = new_exec();
    let h = handler();
    h.submit_proposal(&mut exec, &author(), game_request("sf6"), 100).unwrap();
    h.close_proposal(&mut exec, "sf6", 1, "approved", &admin(), 200).unwrap();

    // Regardless of the caller's identity the close is refused as a
    // precondition failure, not as a permission failure.
    let again_admin = h.close_proposal(&mut exec, "sf6", 1, "approved", &admin(), 300);
    match again_admin {
        Err(HttpError::BadRequest(m)) => {
            assert_eq!(String::from_utf8(m).unwrap(), "The proposal is not pending");
        }
        other => panic!("expected a precondition error, got {:?}", other.is_ok()),
    }
    let again_user = h.close_proposal(&mut exec, "sf6", 1, "cancelled", &other_user(), 300);
    assert!(matches!(again_user, Err(HttpError::BadRequest(_))));
}

#[test]
fn cancel_by_non_author_fails_and_leaves_state_unchanged() {
    let mut exec = new_exec();
    let h = handler();
    h.submit_proposal(&mut exec, &author(), game_request("sf6"), 100).unwrap();

    let refused = h.close_proposal(&mut exec, "sf6", 1, "cancelled", &other_user(), 200);
    assert!(is_unauthorized(&refused.err().expect("must be refused")));

    // The proposal is still pending.
    let props = Proposals::new();
    let rec = props.get(&exec, "sf6", 1).unwrap();
    assert_eq!(rec.proposal.status, ProposalStatus::Pending);
    assert!(rec.closed.is_none());

    // The same request from the author succeeds and the proposal ends in
    // the terminal cancelled state.
    let closed = h.close_proposal(&mut exec, "sf6", 1, "cancelled", &author(), 250).unwrap();
    assert_eq!(closed.proposal.status, ProposalStatus::Cancelled);
    assert_eq!(closed.closed, Some(250));
    let rec = props.get(&exec, "sf6", 1).unwrap();
    assert_eq!(rec.proposal.status, ProposalStatus::Cancelled);
}

#[test]
fn approve_and_reject_require_privilege() {
    let mut exec = new_exec();
    let h = handler();
    h.submit_proposal(&mut exec, &author(), game_request("sf6"), 100).unwrap();
    let approve = h.close_proposal(&mut exec, "sf6", 1, "approved", &author(), 200);
    assert!(is_unauthorized(&approve.err().unwrap()));
    let reject = h.close_proposal(&mut exec, "sf6", 1, "rejected", &other_user(), 200);
    assert!(is_unauthorized(&reject.err().unwrap()));
    let rejected = h.close_proposal(&mut exec, "sf6", 1, "rejected", &admin(), 200).unwrap();
    assert_eq!(rejected.proposal.status, ProposalStatus::Rejected);
}

#[test]
fn unknown_status_name_is_an_invalid_request() {
    let mut exec = new_exec();
    let h = handler();
    h.submit_proposal(&mut exec, &author(), game_request("sf6"), 100).unwrap();
    let result = h.close_proposal(&mut exec, "sf6", 1, "parked", &admin(), 200);
    match result {
        Err(HttpError::BadRequest(m)) => {
            assert_eq!(String::from_utf8(m).unwrap(), "Invalid proposal status 'parked'");
        }
        other => panic!("expected an invalid-status error, got {:?}", other.is_ok()),
    }
}

#[test]
fn close_of_absent_proposal_is_not_found() {
    let mut exec = new_exec();
    let h = handler();
    let result = h.close_proposal(&mut exec, "sf6", 7, "approved", &admin(), 200);
    assert!(matches!(result, Err(HttpError::NotFound(_))));
}

#[test]
fn import_as_is_reserved_to_privileged_identities() {
    let mut exec = new_exec();
    let h = handler();
    let mut request = game_request("sf6");
    request.import_as = Some("legacy-author".to_string());
    let refused = h.submit_proposal(&mut exec, &author(), request, 100);
    assert!(is_unauthorized(&refused.err().unwrap()));

    let mut request = game_request("sf6");
    request.import_as = Some("legacy-author".to_string());
    h.submit_proposal(&mut exec, &admin(), request, 100).unwrap();
    let props = Proposals::new();
    let rec = props.get(&exec, "sf6", 1).unwrap();
    assert_eq!(rec.proposal.author_id, "i:legacy-author");
    assert_eq!(rec.proposal.author_name, "legacy-author");
}

#[test]
fn character_needs_an_existing_parent_game() {
    let mut exec = new_exec();
    let h = handler();
    let character = AnyDocument::Character(fb_web_server::pojos::Character {
        title: "Char A".to_string(),
        game: "game1".to_string(),
        attributes: Vec::new(),
        names: Vec::new(),
        media: Media { file_name: None, preview_data: None },
    });
    let request = ProposalRequest {
        target: "game1-charA".to_string(),
        import_as: None,
        document: character,
    };
    let refused = h.submit_proposal(&mut exec, &author(), request, 100);
    match refused {
        Err(HttpError::BadRequest(m)) => {
            assert_eq!(String::from_utf8(m).unwrap(), "The specified parent does not exist");
        }
        other => panic!("expected a missing-parent error, got {:?}", other.is_ok()),
    }

    // Publish the game, then the character is accepted.
    h.submit_proposal(&mut exec, &author(), game_request("game1"), 100).unwrap();
    h.close_proposal(&mut exec, "game1", 1, "approved", &admin(), 150).unwrap();
    let character = AnyDocument::Character(fb_web_server::pojos::Character {
        title: "Char A".to_string(),
        game: "game1".to_string(),
        attributes: Vec::new(),
        names: Vec::new(),
        media: Media { file_name: None, preview_data: None },
    });
    let request = ProposalRequest {
        target: "game1-charA".to_string(),
        import_as: None,
        document: character,
    };
    let (target, version) = h.submit_proposal(&mut exec, &author(), request, 200).unwrap();
    assert_eq!((target.as_str(), version), ("game1-charA", 1));
}

#[test]
fn latest_authors_are_distinct_most_recent_first() {
    let mut exec = new_exec();
    let h = handler();
    let first = author();
    let second = other_user();
    // Two approvals by the first author, one by the second, on one target.
    for (who, now) in [(&first, 100u64), (&second, 200), (&first, 300)] {
        let (_, v) = h.submit_proposal(&mut exec, who, game_request("sf6"), now).unwrap();
        h.close_proposal(&mut exec, "sf6", v, "approved", &admin(), now + 10).unwrap();
    }
    let props = Proposals::new();
    let authors = props.get_latest_authors(&exec, "sf6", 9).unwrap();
    assert_eq!(authors.len(), 2);
    assert_eq!(authors[0].id, "u:2");
    assert_eq!(authors[1].id, "u:3");
    // A limit of one keeps only the most recent author.
    let capped = props.get_latest_authors(&exec, "sf6", 1).unwrap();
    assert_eq!(capped.len(), 1);
    assert_eq!(capped[0].id, "u:2");
}

#[test]
fn previous_is_absent_before_any_approval() {
    let mut exec = new_exec();
    let h = handler();
    h.submit_proposal(&mut exec, &author(), game_request("sf6"), 100).unwrap();
    let (rec, previous) = h.get_proposal(&exec, "sf6", 1, 500).unwrap();
    assert_eq!(rec.proposal.status, ProposalStatus::Pending);
    assert!(previous.is_none());
}

#[test]
fn get_of_absent_proposal_is_not_found() {
    let exec = new_exec();
    let h = handler();
    let result = h.get_proposal(&exec, "sf6", 1, 100);
    assert!(matches!(result, Err(HttpError::NotFound(_))));
}

#[test]
fn listing_filters_sorts_and_pages() {
    let mut exec = new_exec();
    let h = handler();
    for (target, now) in [("alpha", 300u64), ("beta", 100), ("gamma", 200)] {
        h.submit_proposal(&mut exec, &author(), game_request(target), now).unwrap();
    }
    // Ascending by creation time.
    let page = h.list_proposals(&exec, 0, 10, true, "pending", None, None).unwrap();
    let targets: Vec<&str> = page.items.iter().map(|r| r.proposal.target.as_str()).collect();
    assert_eq!(targets, vec!["beta", "gamma", "alpha"]);
    // Descending, offset and limit.
    let page = h.list_proposals(&exec, 1, 1, false, "pending", None, None).unwrap();
    let targets: Vec<&str> = page.items.iter().map(|r| r.proposal.target.as_str()).collect();
    assert_eq!(targets, vec!["gamma"]);
    // Filter by target.
    let page = h.list_proposals(&exec, 0, 10, true, "pending", Some("beta"), None).unwrap();
    assert_eq!(page.items.len(), 1);
    assert_eq!(page.items[0].proposal.target, "beta");
    // Filter by author: nothing by an unknown author.
    let page = h.list_proposals(&exec, 0, 10, true, "pending", None, Some("u:9")).unwrap();
    assert!(page.items.is_empty());
    // An unknown status matches nothing.
    let page = h.list_proposals(&exec, 0, 10, true, "parked", None, None).unwrap();
    assert!(page.items.is_empty());
}

#[test]
fn query_string_listing_applies_defaults() {
    let mut exec = new_exec();
    let h = handler();
    h.submit_proposal(&mut exec, &author(), game_request("sf6"), 100).unwrap();
    h.close_proposal(&mut exec, "sf6", 1, "approved", &admin(), 150).unwrap();
    h.submit_proposal(&mut exec, &author(), game_request("sf6"), 200).unwrap();
    // The default status is approved.
    let page = h.handle_query_request(&exec, "").unwrap();
    assert_eq!(page.items.len(), 1);
    assert_eq!(page.items[0].version, 1);
    // Explicit parameters.
    let page = h.handle_query_request(&exec, "status=pending&target=sf6").unwrap();
    assert_eq!(page.items.len(), 1);
    assert_eq!(page.items[0].version, 2);
    // A bad paging parameter is the caller's fault.
    let result = h.handle_query_request(&exec, "offset=abc");
    match result {
        Err(HttpError::BadRequest(m)) => {
            assert_eq!(String::from_utf8(m).unwrap(), "Invalid integer for parameter 'offset'");
        }
        other => panic!("expected a paging error, got {:?}", other.is_ok()),
    }
}

#[test]
fn missing_index_query_fails_publish_but_canonical_changed() {
    // A catalog without the game cascade's last query: the canonical write
    // succeeds, the index update fails, the proposal stays pending.
    let names = [
        "proposals/get_latest_authors",
        "name_sets/update_game",
        "name_sets/update_game_chars",
    ];
    let mut entries: Vec<(String, String)> = Vec::new();
    for name in names.iter() {
        entries.push((name.to_string(), "SELECT 1".to_string()));
    }
    let mut exec = QueryExecutor::new(Store::new(), QueryStore::new(entries));
    let h = handler();
    h.submit_proposal(&mut exec, &author(), game_request("sf6"), 100).unwrap();
    let result = h.close_proposal(&mut exec, "sf6", 1, "approved", &admin(), 200);
    assert!(matches!(result, Err(HttpError::InternalError(_))));
    // The canonical document has already changed: the documented
    // eventual-consistency gap.
    let docs = Documents::new();
    assert!(docs.game_exists(&exec, "sf6").unwrap());
    // The proposal was not closed.
    let props = Proposals::new();
    let rec = props.get(&exec, "sf6", 1).unwrap();
    assert_eq!(rec.proposal.status, ProposalStatus::Pending);
    // Only the first two index updates ran.
    assert_eq!(exec.store_ref().index_len(), 2);
}
