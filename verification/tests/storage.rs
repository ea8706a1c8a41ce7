//! Tests of the record store and the data-access adapters: the version
//! counter's compare-and-swap discipline, keyed upserts, and the document
//! listings.

use fb_web_server::adapters::{AdapterError, QueryExecutor, QueryStore};
use fb_web_server::document_service::Document as DocumentHandler;
use fb_web_server::documents::Documents;
use fb_web_server::http_service::ServiceRouter;
use fb_web_server::http_util::HttpError;
use fb_web_server::indexes::{NameSets, TagSets};
use fb_web_server::pojos::{
    AnyDocument, Character, Game, Media, Move, Proposal, ProposalStatus,
};
use fb_web_server::proposals::Proposals;
use fb_web_server::store::{InsertOutcome, ReplaceOutcome, Store};

fn catalog(names: &[&str]) -> QueryStore {
    let mut entries: Vec<(String, String)> = Vec::new();
    for name in names.iter() {
        entries.push((name.to_string(), "SELECT 1".to_string()));
    }
    QueryStore::new(entries)
}

fn plain_game(title: &str) -> AnyDocument {
    AnyDocument::Game(Game {
        title: title.to_string(),
        attributes: Vec::new(),
        names: Vec::new(),
        media: Media { file_name: None, preview_data: None },
    })
}

fn envelope(target: &str, created: u64) -> Proposal<AnyDocument> {
    Proposal {
        target: target.to_string(),
        created,
        last_updated: created,
        status: ProposalStatus::Pending,
        author_id: "u:2".to_string(),
        author_name: "writer-two".to_string(),
        document: plain_game("A Game"),
    }
}

#[test]
fn counter_increments_are_contiguous_from_one() {
    let mut exec = QueryExecutor::new(Store::new(), catalog(&[]));
    let props = Proposals::new();
    let mut values = Vec::new();
    for _ in 0..5 {
        values.push(props.increment_counter(&mut exec, "sf6").unwrap());
    }
    assert_eq!(values, vec![1, 2, 3, 4, 5]);
    // No duplicates.
    for i in 0..values.len() {
        for j in (i + 1)..values.len() {
            assert_ne!(values[i], values[j]);
        }
    }
}

#[test]
fn counters_are_independent_per_target() {
    let mut exec = QueryExecutor::new(Store::new(), catalog(&[]));
    let props = Proposals::new();
    assert_eq!(props.increment_counter(&mut exec, "sf6").unwrap(), 1);
    assert_eq!(props.increment_counter(&mut exec, "tk8").unwrap(), 1);
    assert_eq!(props.increment_counter(&mut exec, "sf6").unwrap(), 2);
    assert_eq!(props.increment_counter(&mut exec, "tk8").unwrap(), 2);
}

#[test]
fn stale_stamp_is_refused_by_replace() {
    let mut store = Store::new();
    assert_eq!(store.counter_insert("sf6", 1), InsertOutcome::Inserted);
    let (value, stale_stamp) = store.counter_get("sf6").unwrap();
    assert_eq!(value, 1);
    // Another writer moves the counter: the stamp changes.
    let outcome = store.counter_replace("sf6", 2, stale_stamp);
    assert_eq!(outcome, ReplaceOutcome::Replaced);
    // The stamp read before that write no longer matches.
    let outcome = store.counter_replace("sf6", 3, stale_stamp);
    assert_eq!(outcome, ReplaceOutcome::Conflict);
    let (value, fresh_stamp) = store.counter_get("sf6").unwrap();
    assert_eq!(value, 2);
    assert_ne!(fresh_stamp, stale_stamp);
    // The fresh stamp is accepted.
    assert_eq!(store.counter_replace("sf6", 3, fresh_stamp), ReplaceOutcome::Replaced);
}

#[test]
fn counter_insert_refuses_an_existing_target() {
    let mut store = Store::new();
    assert_eq!(store.counter_insert("sf6", 1), InsertOutcome::Inserted);
    assert_eq!(store.counter_insert("sf6", 1), InsertOutcome::AlreadyExists);
    assert_eq!(store.counter_get("sf6").unwrap().0, 1);
}

#[test]
fn replace_of_an_absent_counter_conflicts() {
    let mut store = Store::new();
    assert_eq!(store.counter_replace("sf6", 1, 1), ReplaceOutcome::Conflict);
}

#[test]
fn proposal_upsert_replaces_by_key() {
    let mut exec = QueryExecutor::new(Store::new(), catalog(&[]));
    let props = Proposals::new();
    props.upsert(&mut exec, "sf6", 1, envelope("sf6", 100)).unwrap();
    props.upsert(&mut exec, "sf6", 1, envelope("sf6", 777)).unwrap();
    props.upsert(&mut exec, "sf6", 2, envelope("sf6", 200)).unwrap();
    assert_eq!(exec.store_ref().proposals_len(), 2);
    let rec = props.get(&exec, "sf6", 1).unwrap();
    assert_eq!(rec.proposal.created, 777);
}

#[test]
fn proposal_get_of_absent_key_is_document_not_found() {
    let exec = QueryExecutor::new(Store::new(), catalog(&[]));
    let props = Proposals::new();
    let result = props.get(&exec, "sf6", 1);
    assert_eq!(result.err(), Some(AdapterError::DocumentNotFound));
}

#[test]
fn close_of_non_pending_record_is_a_precondition_failure() {
    let mut exec = QueryExecutor::new(Store::new(), catalog(&[]));
    let props = Proposals::new();
    props.upsert(&mut exec, "sf6", 1, envelope("sf6", 100)).unwrap();
    props.close(&mut exec, "sf6", 1, ProposalStatus::Rejected, 200).unwrap();
    let result = props.close(&mut exec, "sf6", 1, ProposalStatus::Approved, 300);
    assert_eq!(result.err(), Some(AdapterError::PreconditionFailed));
    // The record kept its first close.
    let rec = props.get(&exec, "sf6", 1).unwrap();
    assert_eq!(rec.proposal.status, ProposalStatus::Rejected);
    assert_eq!(rec.closed, Some(200));
}

#[test]
fn get_last_approved_picks_the_latest_at_or_before() {
    let mut exec = QueryExecutor::new(Store::new(), catalog(&["proposals/get_last_approved"]));
    let props = Proposals::new();
    for (version, created) in [(1u64, 100u64), (2, 200), (3, 300)] {
        props.upsert(&mut exec, "sf6", version, envelope("sf6", created)).unwrap();
        props.close(&mut exec, "sf6", version, ProposalStatus::Approved, created + 50).unwrap();
    }
    let latest = props.get_last_approved(&exec, "sf6", 275).unwrap().unwrap();
    assert_eq!(latest.version, 2);
    let latest = props.get_last_approved(&exec, "sf6", 1000).unwrap().unwrap();
    assert_eq!(latest.version, 3);
    // No approved proposal that early: absent, not an error.
    assert!(props.get_last_approved(&exec, "sf6", 10).unwrap().is_none());
}

#[test]
fn missing_catalog_query_is_an_internal_error() {
    let exec = QueryExecutor::new(Store::new(), catalog(&[]));
    let props = Proposals::new();
    assert_eq!(
        props.get_list(&exec, 0, 10, true, "pending").err(),
        Some(AdapterError::InternalError)
    );
    assert_eq!(
        props.get_last_approved(&exec, "sf6", 100).err(),
        Some(AdapterError::InternalError)
    );
    assert_eq!(
        props.get_latest_authors(&exec, "sf6", 9).err(),
        Some(AdapterError::InternalError)
    );
    let docs = Documents::new();
    assert_eq!(docs.get_game(&exec, "sf6").err(), Some(AdapterError::InternalError));
}

#[test]
fn canonical_documents_are_keyed_by_kind_and_target() {
    let mut exec = QueryExecutor::new(
        Store::new(),
        catalog(&["documents/get_game", "documents/get_char"]),
    );
    let docs = Documents::new();
    docs.upsert_game(&mut exec, "sf6", plain_game("Game One"), Vec::new()).unwrap();
    let character = AnyDocument::Character(Character {
        title: "Char".to_string(),
        game: "sf6".to_string(),
        attributes: Vec::new(),
        names: Vec::new(),
        media: Media { file_name: None, preview_data: None },
    });
    docs.upsert_char(&mut exec, "sf6", character, Vec::new()).unwrap();
    // The same target exists under two kinds.
    assert!(docs.game_exists(&exec, "sf6").unwrap());
    assert!(docs.char_exists(&exec, "sf6").unwrap());
    assert_eq!(exec.store_ref().documents_len(), 2);
    // An upsert under an existing key replaces the document.
    docs.upsert_game(&mut exec, "sf6", plain_game("Game One, revised"), Vec::new()).unwrap();
    assert_eq!(exec.store_ref().documents_len(), 2);
    let rec = docs.get_game(&exec, "sf6").unwrap();
    match &rec.document {
        AnyDocument::Game(g) => assert_eq!(g.title, "Game One, revised"),
        _ => panic!("expected a game"),
    }
}

#[test]
fn document_listings_filter_by_kind_and_parent() {
    let mut exec = QueryExecutor::new(
        Store::new(),
        catalog(
            &["documents/get_game_list", "documents/get_char_list", "documents/get_move_list"],
        ),
    );
    let docs = Documents::new();
    docs.upsert_game(&mut exec, "sf6", plain_game("One"), Vec::new()).unwrap();
    docs.upsert_game(&mut exec, "tk8", plain_game("Two"), Vec::new()).unwrap();
    let chr = |game: &str, title: &str| {
        AnyDocument::Character(Character {
            title: title.to_string(),
            game: game.to_string(),
            attributes: Vec::new(),
            names: Vec::new(),
            media: Media { file_name: None, preview_data: None },
        })
    };
    docs.upsert_char(&mut exec, "sf6-a", chr("sf6", "A"), Vec::new()).unwrap();
    docs.upsert_char(&mut exec, "sf6-b", chr("sf6", "B"), Vec::new()).unwrap();
    docs.upsert_char(&mut exec, "tk8-c", chr("tk8", "C"), Vec::new()).unwrap();
    let mv = AnyDocument::Move(Move {
        title: "Fireball".to_string(),
        character: "sf6-a".to_string(),
        attributes: Vec::new(),
        names: Vec::new(),
        media: Media { file_name: None, preview_data: None },
    });
    docs.upsert_move(&mut exec, "sf6-a-fb", mv, Vec::new()).unwrap();

    let games = docs.get_game_list(&exec, 0, 10).unwrap();
    assert_eq!(games.len(), 2);
    let chars = docs.get_char_list(&exec, "sf6", 0, 10).unwrap();
    assert_eq!(chars.len(), 2);
    assert_eq!(chars[0].target, "sf6-a");
    assert_eq!(chars[1].target, "sf6-b");
    let paged = docs.get_char_list(&exec, "sf6", 1, 10).unwrap();
    assert_eq!(paged.len(), 1);
    assert_eq!(paged[0].target, "sf6-b");
    let moves = docs.get_move_list(&exec, "sf6-a", 0, 10).unwrap();
    assert_eq!(moves.len(), 1);
    assert_eq!(moves[0].target, "sf6-a-fb");
    let none = docs.get_move_list(&exec, "tk8-c", 0, 10).unwrap();
    assert!(none.is_empty());
}

#[test]
fn name_set_cascades_stop_at_a_missing_query() {
    let mut exec = QueryExecutor::new(
        Store::new(),
        catalog(&["name_sets/update_char", "tagsets/update_char", "tagsets/update_char_moves"]),
    );
    let name_sets = NameSets::new();
    // The character cascade's second query is missing: the first ran.
    let result = name_sets.update_char(&mut exec, "sf6-a");
    assert_eq!(result.err(), Some(AdapterError::InternalError));
    assert_eq!(exec.store_ref().index_len(), 1);
    assert_eq!(exec.store_ref().index_at(0).query, "name_sets/update_char");
    // The tag-set cascade is complete and appends both updates.
    let tag_sets = TagSets::new();
    tag_sets.update_char(&mut exec, "sf6-a").unwrap();
    assert_eq!(exec.store_ref().index_len(), 3);
    assert_eq!(exec.store_ref().index_at(1).query, "tagsets/update_char");
    assert_eq!(exec.store_ref().index_at(2).query, "tagsets/update_char_moves");
}

#[test]
fn query_store_looks_up_named_queries() {
    let store = catalog(&["proposals/close"]);
    assert_eq!(store.get_query("proposals/close"), Some("SELECT 1"));
    assert!(store.get_query("proposals/missing").is_none());
    assert!(store.has_query("proposals/close"));
}

#[test]
fn document_handler_reads_by_id_and_lists() {
    let mut exec = QueryExecutor::new(
        Store::new(),
        catalog(&["documents/get_game", "documents/get_game_list"]),
    );
    let docs = Documents::new();
    docs.upsert_game(&mut exec, "sf6", plain_game("One"), Vec::new()).unwrap();
    let handler = DocumentHandler::new(Documents::new());
    let rec = handler.handle_id_request(&exec, "sf6", "games").unwrap();
    assert_eq!(rec.target, "sf6");
    let missing = handler.handle_id_request(&exec, "tk8", "games");
    assert!(matches!(missing, Err(HttpError::NotFound(_))));
    let invalid = handler.handle_id_request(&exec, "sf6", "players");
    match invalid {
        Err(HttpError::BadRequest(m)) => assert_eq!(
            String::from_utf8(m).unwrap(),
            "Invalid doc-api path 'players' for the specified method"
        ),
        other => panic!("expected an invalid-path error, got {:?}", other.is_ok()),
    }
    let listed = handler.handle_query_request(&exec, "limit=5", "games").unwrap();
    assert_eq!(listed.len(), 1);
    let missing_param = handler.handle_query_request(&exec, "", "moves");
    match missing_param {
        Err(HttpError::BadRequest(m)) => {
            assert_eq!(String::from_utf8(m).unwrap(), "Missing expected parameter 'char'")
        }
        other => panic!("expected a missing-parameter error, got {:?}", other.is_ok()),
    }
}

#[test]
fn router_rejects_unknown_paths_with_the_path_named() {
    let error = ServiceRouter::build_invalid_path_error("nope");
    match error {
        HttpError::BadRequest(m) => assert_eq!(
            String::from_utf8(m).unwrap(),
            "Invalid path 'nope' for the specified method"
        ),
        _ => panic!("expected a bad request"),
    }
}
