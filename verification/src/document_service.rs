//! The document api: reads of canonical documents by id and by listing, and
//! the service that owns the document and proposal handlers.

use vstd::prelude::*;
use vstd::string::StringSliceAdditionalSpecFns;

use crate::adapters::QueryExecutor;
use crate::documents::{doc_filter_fn, page_of, Documents};
use crate::handlers::Proposal;
use crate::http_util::{
    is_bad_request, is_internal, is_not_found, lookup_param, parse_query_string, qs_pairs,
    HttpError, DEFAULT_LIMIT, DEFAULT_OFFSET, MAX_LIMIT,
};
use crate::indexes::NameSets;
use crate::proposals::Proposals;
use crate::store::{find_document, CanonicalRecord, DocKind};
use crate::strutil::digits_value;

verus! {

/// The message a request with an unsupported document-api path is rejected
/// with.
pub open spec fn invalid_path_message(path: Seq<char>) -> Seq<u8> {
    vstd::utf8::encode_utf8("Invalid doc-api path '"@ + path + "' for the specified method"@)
}

/// Builds the rejection of an unsupported document-api path.
pub fn build_invalid_path_error(path: &str) -> (r: HttpError)
    ensures
        is_bad_request(r, invalid_path_message(path@)),
{
    let mut message = "Invalid doc-api path '".to_owned();
    message.append(path);
    message.append("' for the specified method");
    let bytes = message.as_str().as_bytes_vec();
    proof {
        assert(bytes@ == invalid_path_message(path@));
    }
    HttpError::BadRequest(bytes)
}

/// Builds the rejection of a malformed document-api path.
pub fn build_invalid_format_error() -> (r: HttpError)
    ensures
        is_bad_request(r, "Invalid doc-api path format".spec_bytes()),
{
    HttpError::BadRequest(crate::http_util::msg_bytes("Invalid doc-api path format"))
}

/// What a by-id document read returned: the canonical record under the key
/// when the backing query exists and the record is present, and the exact
/// error otherwise.
pub open spec fn id_request_post(
    exec: QueryExecutor,
    kind: DocKind,
    query: Seq<char>,
    id: Seq<char>,
    r: Result<CanonicalRecord, HttpError>,
) -> bool {
    if !exec.catalog_spec().has_query_spec(query) {
        r is Err && is_internal(r->Err_0)
    } else {
        match find_document(exec.store_spec().documents_view(), kind, id) {
            Some(i) => r is Ok && r->Ok_0@ == exec.store_spec().documents_view()[i],
            None => r is Err && is_not_found(r->Err_0),
        }
    }
}

/// What a document listing returned: the page of canonical records of the
/// kind (and parent, where one is required), in publication order.
pub open spec fn doc_list_post(
    exec: QueryExecutor,
    kind: DocKind,
    query: Seq<char>,
    parent: Option<Seq<char>>,
    offset: u16,
    limit: u16,
    r: Result<Vec<CanonicalRecord>, HttpError>,
) -> bool {
    if !exec.catalog_spec().has_query_spec(query) {
        r is Err && is_internal(r->Err_0)
    } else {
        r is Ok && r->Ok_0.deep_view() == page_of(
            exec.store_spec().documents_view().filter(doc_filter_fn(kind, parent)),
            offset,
            limit,
        )
    }
}

/// Handles document reads against the canonical store.
pub struct Document {
    docs_adapter: Documents,
}

impl Document {
    pub fn new(docs_adapter: Documents) -> (r: Document) {
        Document { docs_adapter }
    }

    /// Handles a by-id document request for a document type named in the
    /// path (`games`, `chars` or `moves`).
    pub fn handle_id_request(&self, exec: &QueryExecutor, doc_id: &str, doc_type: &str) -> (r:
        Result<CanonicalRecord, HttpError>)
        requires
            exec.wf(),
        ensures
            if doc_type@ == "games"@ {
                id_request_post(*exec, DocKind::Game, "documents/get_game"@, doc_id@, r)
            } else if doc_type@ == "moves"@ {
                id_request_post(*exec, DocKind::Move, "documents/get_move"@, doc_id@, r)
            } else if doc_type@ == "chars"@ {
                id_request_post(*exec, DocKind::Character, "documents/get_char"@, doc_id@, r)
            } else {
                r is Err && is_bad_request(r->Err_0, invalid_path_message(doc_type@))
            },
    {
        let result = if crate::strutil::str_eq(doc_type, "games") {
            self.docs_adapter.get_game(exec, doc_id)
        } else if crate::strutil::str_eq(doc_type, "moves") {
            self.docs_adapter.get_move(exec, doc_id)
        } else if crate::strutil::str_eq(doc_type, "chars") {
            self.docs_adapter.get_char(exec, doc_id)
        } else {
            return Err(build_invalid_path_error(doc_type));
        };
        match result {
            Ok(rec) => Ok(rec.clone()),
            Err(crate::adapters::AdapterError::DocumentNotFound) => Err(HttpError::NotFound(None)),
            Err(_) => Err(HttpError::InternalError(None)),
        }
    }

    /// Handles a document listing request for a document type named in the
    /// path, from its query string: `games` lists games, `chars` the
    /// characters of the game named by the `game` parameter, `moves` the
    /// moves of the character named by the `char` parameter.
    pub fn handle_query_request(&self, exec: &QueryExecutor, query: &str, doc_type: &str) -> (r:
        Result<Vec<CanonicalRecord>, HttpError>)
        requires
            exec.wf(),
        ensures
            ({
                let pairs = qs_pairs(query@);
                let off = lookup_param(pairs, "offset"@);
                let lim = lookup_param(pairs, "limit"@);
                if off is Some && !crate::http_util::is_u16_value(off->0) {
                    r is Err && is_bad_request(
                        r->Err_0,
                        "Invalid integer for parameter 'offset'".spec_bytes(),
                    )
                } else if lim is Some && !crate::http_util::is_u16_value(lim->0) {
                    r is Err && is_bad_request(
                        r->Err_0,
                        "Invalid integer for parameter 'limit'".spec_bytes(),
                    )
                } else {
                    let offset = (match off {
                        Some(v) => digits_value(v) as u16,
                        None => DEFAULT_OFFSET,
                    });
                    let limit = (match lim {
                        Some(v) => {
                            if digits_value(v) <= MAX_LIMIT {
                                digits_value(v) as u16
                            } else {
                                MAX_LIMIT
                            }
                        },
                        None => DEFAULT_LIMIT,
                    });
                    if doc_type@ == "games"@ {
                        doc_list_post(
                            *exec,
                            DocKind::Game,
                            "documents/get_game_list"@,
                            None,
                            offset,
                            limit,
                            r,
                        )
                    } else if doc_type@ == "moves"@ {
                        match lookup_param(pairs, "char"@) {
                            Some(char_id) => doc_list_post(
                                *exec,
                                DocKind::Move,
                                "documents/get_move_list"@,
                                Some(char_id),
                                offset,
                                limit,
                                r,
                            ),
                            None => r is Err && is_bad_request(
                                r->Err_0,
                                "Missing expected parameter 'char'".spec_bytes(),
                            ),
                        }
                    } else if doc_type@ == "chars"@ {
                        match lookup_param(pairs, "game"@) {
                            Some(game_id) => doc_list_post(
                                *exec,
                                DocKind::Character,
                                "documents/get_char_list"@,
                                Some(game_id),
                                offset,
                                limit,
                                r,
                            ),
                            None => r is Err && is_bad_request(
                                r->Err_0,
                                "Missing expected parameter 'game'".spec_bytes(),
                            ),
                        }
                    } else {
                        r is Err && is_bad_request(r->Err_0, invalid_path_message(doc_type@))
                    }
                }
            }),
    {
        let query_params = parse_query_string(query);
        let (offset, limit) = match crate::http_util::get_paging_options(&query_params) {
            Ok(pair) => pair,
            Err(message) => {
                let bytes = message.as_str().as_bytes_vec();
                return Err(HttpError::BadRequest(bytes));
            },
        };
        let result = if crate::strutil::str_eq(doc_type, "games") {
            self.docs_adapter.get_game_list(exec, offset, limit)
        } else if crate::strutil::str_eq(doc_type, "moves") {
            let char_id = match crate::http_util::get_param(&query_params, "char") {
                Some(v) => v.as_str(),
                None => {
                    return Err(HttpError::BadRequest(crate::http_util::msg_bytes(
                        "Missing expected parameter 'char'",
                    )));
                },
            };
            self.docs_adapter.get_move_list(exec, char_id, offset, limit)
        } else if crate::strutil::str_eq(doc_type, "chars") {
            let game_id = match crate::http_util::get_param(&query_params, "game") {
                Some(v) => v.as_str(),
                None => {
                    return Err(HttpError::BadRequest(crate::http_util::msg_bytes(
                        "Missing expected parameter 'game'",
                    )));
                },
            };
            self.docs_adapter.get_char_list(exec, game_id, offset, limit)
        } else {
            return Err(build_invalid_path_error(doc_type));
        };
        match result {
            Ok(items) => Ok(items),
            Err(_) => Err(HttpError::InternalError(None)),
        }
    }
}

/// The document service: owns the handlers for document reads and for
/// proposal submission and moderation.
pub struct Service {
    pub document_handler: Document,
    pub proposal_handler: Proposal,
}

impl Service {
    /// Creates a new instance of the service.
    pub fn new(
        docs_adapter: Documents,
        props_adapter: Proposals,
        name_sets_adapter: NameSets,
    ) -> (r: Service) {
        Service {
            document_handler: Document::new(Documents::new()),
            proposal_handler: Proposal::new(props_adapter, docs_adapter, name_sets_adapter),
        }
    }
}

} // verus!
