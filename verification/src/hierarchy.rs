//! Target identity and hierarchy rules. A target names a document in the
//! corpus; a child target's string is its parent's target, a separator, and
//! a non-empty local segment of word characters and hyphens.

use vstd::prelude::*;
use vstd::string::StringSliceAdditionalSpecFns;

use crate::http_util::HttpError;
use crate::strutil::{is_word, is_word_char, starts_with_spec, starts_with_str};

verus! {

/// The kind of parent a document type requires: games have none, characters
/// belong to a game, moves belong to a character.
#[derive(Clone, Copy, PartialEq, Eq, Structural, Debug)]
pub enum ParentKind {
    NoParent,
    Game,
    Character,
}

/// A valid local segment: non-empty, word characters and hyphens only.
pub open spec fn valid_segment(s: Seq<char>) -> bool {
    s.len() > 0 && forall|i: int|
        0 <= i < s.len() ==> is_word_char(#[trigger] s[i]) || s[i] == '-'
}

/// Whether `target` is its parent's target followed by the separator and at
/// least one more character.
pub open spec fn parent_prefix_ok(target: Seq<char>, parent: Seq<char>) -> bool {
    &&& target.len() >= parent.len() + 2
    &&& starts_with_spec(target, parent)
    &&& target[parent.len() as int] == '-'
}

/// A valid target: with no parent, the whole string is one valid segment;
/// with a parent, the parent's target, the separator, and a valid segment.
pub open spec fn valid_target_spec(target: Seq<char>, parent: Option<Seq<char>>) -> bool {
    match parent {
        None => valid_segment(target),
        Some(p) => parent_prefix_ok(target, p) && valid_segment(target.skip(p.len() + 1 as int)),
    }
}

/// Whether an error is the rejection of a target failing the parent-prefix
/// rule.
pub open spec fn is_prefix_error(e: HttpError) -> bool {
    crate::http_util::is_bad_request(
        e,
        "The target name does not start with the parent's id".spec_bytes(),
    )
}

/// Whether an error is the rejection of a target with an invalid local
/// segment.
pub open spec fn is_segment_error(e: HttpError) -> bool {
    crate::http_util::is_bad_request(e, "Invalid target name".spec_bytes())
}

/// Whether every character of `s` from `from` on is a word character or a
/// hyphen.
fn valid_segment_chars(s: &str, from: usize) -> (r: bool)
    requires
        from <= s@.len(),
    ensures
        r == valid_segment(s@.skip(from as int)),
{
    let n = s.unicode_len();
    if from == n {
        assert(s@.skip(from as int) =~= Seq::<char>::empty());
        return false;
    }
    let mut i: usize = from;
    while i < n
        invariant
            from <= i <= n,
            n == s@.len(),
            forall|j: int|
                from <= j < i ==> is_word_char(#[trigger] s@[j]) || s@[j] == '-',
        decreases n - i,
    {
        let c = s.get_char(i);
        if !(is_word(c) || c == '-') {
            assert(s@.skip(from as int)[i - from] == s@[i as int]);
            return false;
        }
        i = i + 1;
    }
    proof {
        assert forall|k: int| 0 <= k < s@.skip(from as int).len() implies is_word_char(
            #[trigger] s@.skip(from as int)[k],
        ) || s@.skip(from as int)[k] == '-' by {
            assert(s@.skip(from as int)[k] == s@[k + from]);
        }
    }
    true
}

/// Validates a target against its optional parent: the target must be the
/// parent's target followed by the separator, and its local segment (the
/// whole string when there is no parent) must be a non-empty run of word
/// characters and hyphens.
pub fn validate_target(target: &str, parent_target: Option<&str>) -> (r: Result<(), HttpError>)
    ensures
        r is Ok <==> valid_target_spec(
            target@,
            match parent_target {
                Some(p) => Some(p@),
                None => None,
            },
        ),
        match parent_target {
            Some(p) => {
                if !parent_prefix_ok(target@, p@) {
                    r is Err && is_prefix_error(r->Err_0)
                } else if !valid_segment(target@.skip(p@.len() + 1 as int)) {
                    r is Err && is_segment_error(r->Err_0)
                } else {
                    r is Ok
                }
            },
            None => {
                if !valid_segment(target@) {
                    r is Err && is_segment_error(r->Err_0)
                } else {
                    r is Ok
                }
            },
        },
{
    match parent_target {
        Some(parent) => {
            let tl = target.unicode_len();
            let pl = parent.unicode_len();
            let prefix_ok = tl >= 2 && pl <= tl - 2 && starts_with_str(target, parent)
                && target.get_char(pl) == '-';
            if !prefix_ok {
                return Err(HttpError::BadRequest(crate::http_util::msg_bytes(
                    "The target name does not start with the parent's id",
                )));
            }
            if !valid_segment_chars(target, pl + 1) {
                return Err(HttpError::BadRequest(crate::http_util::msg_bytes(
                    "Invalid target name",
                )));
            }
            Ok(())
        },
        None => {
            if !valid_segment_chars(target, 0) {
                proof {
                    assert(target@.skip(0) =~= target@);
                }
                return Err(HttpError::BadRequest(crate::http_util::msg_bytes(
                    "Invalid target name",
                )));
            }
            proof {
                assert(target@.skip(0) =~= target@);
            }
            Ok(())
        },
    }
}

/// The parent kind a document type requires: a game has no parent, a
/// character belongs to a game, and any other type belongs to a character.
pub open spec fn resolve_parent_kind_spec(document_type: Seq<char>) -> ParentKind {
    if document_type == "game"@ {
        ParentKind::NoParent
    } else if document_type == "character"@ {
        ParentKind::Game
    } else {
        ParentKind::Character
    }
}

/// Selects which existence check to issue for a document's parent before a
/// proposal is accepted.
pub fn resolve_parent_kind(document_type: &str) -> (r: ParentKind)
    ensures
        r == resolve_parent_kind_spec(document_type@),
{
    if crate::strutil::str_eq(document_type, "game") {
        ParentKind::NoParent
    } else if crate::strutil::str_eq(document_type, "character") {
        ParentKind::Game
    } else {
        ParentKind::Character
    }
}

} // verus!
