//! Document payload types for the corpus (games, characters, moves), the
//! shared `Document` capability surface, and the proposal envelope.
//!
//! Every document carries a title, free-form attributes, a collection of
//! alternate names and an optional media reference. On every mutation the
//! document is sanitized: whitespace is stripped from the title and the
//! attribute fields, and the names collection is reduced to the distinct,
//! trimmed, non-empty names.

use vstd::prelude::*;

use crate::strutil::{strings_contain, trim_spec, trim_str};

verus! {

/// Free-form attribute of a document: a title/value/sentiment triple.
pub struct Attribute {
    pub title: String,
    pub value: String,
    pub sentiment: String,
}

/// Mathematical view of an [`Attribute`].
pub struct AttributeView {
    pub title: Seq<char>,
    pub value: Seq<char>,
    pub sentiment: Seq<char>,
}

impl View for Attribute {
    type V = AttributeView;

    open spec fn view(&self) -> AttributeView {
        AttributeView { title: self.title@, value: self.value@, sentiment: self.sentiment@ }
    }
}

impl Clone for Attribute {
    fn clone(&self) -> (res: Self)
        ensures
            res == *self,
    {
        Attribute {
            title: self.title.clone(),
            value: self.value.clone(),
            sentiment: self.sentiment.clone(),
        }
    }
}

/// The attribute with whitespace stripped from every field.
pub open spec fn trimmed_attribute(a: AttributeView) -> AttributeView {
    AttributeView {
        title: trim_spec(a.title),
        value: trim_spec(a.value),
        sentiment: trim_spec(a.sentiment),
    }
}

/// Media reference attached to a document.
pub struct Media {
    pub file_name: Option<String>,
    pub preview_data: Option<String>,
}

/// Mathematical view of a [`Media`].
pub struct MediaView {
    pub file_name: Option<Seq<char>>,
    pub preview_data: Option<Seq<char>>,
}

impl View for Media {
    type V = MediaView;

    open spec fn view(&self) -> MediaView {
        MediaView {
            file_name: match self.file_name {
                Some(ref s) => Some(s@),
                None => None,
            },
            preview_data: match self.preview_data {
                Some(ref s) => Some(s@),
                None => None,
            },
        }
    }
}

impl Clone for Media {
    fn clone(&self) -> (res: Self)
        ensures
            res@ == self@,
    {
        Media { file_name: self.file_name.clone(), preview_data: self.preview_data.clone() }
    }
}

/// Uniform mathematical view of any document variant.
pub struct DocView {
    pub kind: Seq<char>,
    pub parent: Option<Seq<char>>,
    pub title: Seq<char>,
    pub attributes: Seq<AttributeView>,
    pub names: Seq<Seq<char>>,
    pub media: MediaView,
}

/// The view of a vector of attributes.
pub open spec fn attrs_view(v: Seq<Attribute>) -> Seq<AttributeView> {
    v.map_values(|a: Attribute| a@)
}

/// The sanitized form of a names collection: names are trimmed, empties are
/// dropped, and of several occurrences of the same trimmed name only the
/// first is kept.
pub open spec fn sanitize_names_spec(names: Seq<Seq<char>>) -> Seq<Seq<char>>
    decreases names.len(),
{
    if names.len() == 0 {
        Seq::empty()
    } else {
        let rest = sanitize_names_spec(names.drop_last());
        let t = trim_spec(names.last());
        if t.len() > 0 && !rest.contains(t) {
            rest.push(t)
        } else {
            rest
        }
    }
}

/// Law: the sanitized names collection holds no empty name and no duplicate,
/// and holds a name exactly when it is the trimmed form of some submitted
/// name and is non-empty.
pub proof fn lemma_sanitize_names_law(names: Seq<Seq<char>>)
    ensures
        forall|i: int|
            0 <= i < sanitize_names_spec(names).len()
                ==> (#[trigger] sanitize_names_spec(names)[i]).len() > 0,
        forall|i: int, j: int|
            0 <= i < j < sanitize_names_spec(names).len()
                ==> sanitize_names_spec(names)[i] != sanitize_names_spec(names)[j],
        forall|x: Seq<char>|
            #[trigger] sanitize_names_spec(names).contains(x)
                <==> (x.len() > 0 && exists|i: int|
                0 <= i < names.len() && trim_spec(#[trigger] names[i]) == x),
    decreases names.len(),
{
    if names.len() > 0 {
        let rest = sanitize_names_spec(names.drop_last());
        let t = trim_spec(names.last());
        let out = sanitize_names_spec(names);
        lemma_sanitize_names_law(names.drop_last());
        assert forall|x: Seq<char>| #[trigger] out.contains(x) implies (x.len() > 0 && exists|i: int|
            0 <= i < names.len() && trim_spec(#[trigger] names[i]) == x) by {
            if rest.contains(x) {
                let i = choose|i: int|
                    0 <= i < names.drop_last().len() && trim_spec(#[trigger] names.drop_last()[i])
                        == x;
                assert(names[i] == names.drop_last()[i]);
            } else {
                let k = choose|k: int| 0 <= k < out.len() && out[k] == x;
                assert(out == rest.push(t));
                assert(x == t);
                assert(trim_spec(names[names.len() - 1]) == x);
            }
        }
        assert forall|x: Seq<char>|
            (x.len() > 0 && exists|i: int|
                0 <= i < names.len() && trim_spec(#[trigger] names[i]) == x) implies out.contains(
            x,
        ) by {
            let i = choose|i: int| 0 <= i < names.len() && trim_spec(#[trigger] names[i]) == x;
            if i < names.len() - 1 {
                assert(names.drop_last()[i] == names[i]);
                assert(rest.contains(x));
                if t.len() > 0 && !rest.contains(t) {
                    let k = choose|k: int| 0 <= k < rest.len() && rest[k] == x;
                    assert(out[k] == x);
                } else {
                    assert(out == rest);
                }
            } else {
                assert(x == t);
                if rest.contains(t) {
                    assert(out == rest);
                } else {
                    assert(out == rest.push(t));
                    assert(out[out.len() - 1] == t);
                }
            }
        }
        if t.len() > 0 && !rest.contains(t) {
            assert forall|i: int, j: int| 0 <= i < j < out.len() implies out[i] != out[j] by {
                assert(out == rest.push(t));
                if j < out.len() - 1 {
                    assert(out[i] == rest[i] && out[j] == rest[j]);
                } else {
                    assert(out[j] == t);
                    assert(rest.contains(rest[i]));
                }
            }
        }
    }
}

/// The sanitized form of a whole document: title and attributes trimmed,
/// names sanitized; kind, parent and media are untouched.
pub open spec fn sanitize_doc_spec(d: DocView) -> DocView {
    DocView {
        kind: d.kind,
        parent: d.parent,
        title: trim_spec(d.title),
        attributes: d.attributes.map_values(|a: AttributeView| trimmed_attribute(a)),
        names: sanitize_names_spec(d.names),
        media: d.media,
    }
}

/// Shared capability surface of the document variants.
pub trait Document: Sized {
    /// The uniform view of the document.
    spec fn doc_view(&self) -> DocView;

    /// The target of the document's parent, if its kind has one.
    fn get_parent(&self) -> (r: Option<&str>)
        ensures
            match r {
                Some(p) => self.doc_view().parent == Some(p@),
                None => self.doc_view().parent is None,
            },
    ;

    /// The document's type tag.
    fn get_type(&self) -> (r: &str)
        ensures
            r@ == self.doc_view().kind,
    ;

    /// Sanitizes the document in place.
    fn sanitize(&mut self)
        ensures
            final(self).doc_view() == sanitize_doc_spec(old(self).doc_view()),
    ;
}

/// Trims every field of every attribute in place.
fn sanitize_attributes(attrs: &mut Vec<Attribute>)
    ensures
        attrs_view(final(attrs)@) == attrs_view(old(attrs)@).map_values(
            |a: AttributeView| trimmed_attribute(a),
        ),
{
    let ghost orig = attrs@;
    let mut i: usize = 0;
    while i < attrs.len()
        invariant
            0 <= i <= attrs.len(),
            attrs@.len() == orig.len(),
            forall|j: int| 0 <= j < i ==> (#[trigger] attrs@[j])@ == trimmed_attribute(orig[j]@),
            forall|j: int| i <= j < orig.len() ==> attrs@[j] == orig[j],
        decreases attrs.len() - i,
    {
        let a = &attrs[i];
        let replacement = Attribute {
            title: trim_str(a.title.as_str()),
            value: trim_str(a.value.as_str()),
            sentiment: trim_str(a.sentiment.as_str()),
        };
        attrs.set(i, replacement);
        i = i + 1;
    }
    proof {
        assert(attrs_view(attrs@) =~= attrs_view(orig).map_values(
            |a: AttributeView| trimmed_attribute(a),
        ));
    }
}

/// Replaces a names collection by its sanitized form.
fn sanitize_name_list(names: &Vec<String>) -> (r: Vec<String>)
    ensures
        r.deep_view() == sanitize_names_spec(names.deep_view()),
{
    let mut result: Vec<String> = Vec::new();
    let mut i: usize = 0;
    while i < names.len()
        invariant
            0 <= i <= names.len(),
            result.deep_view() == sanitize_names_spec(names.deep_view().take(i as int)),
        decreases names.len() - i,
    {
        let t = trim_str(names[i].as_str());
        proof {
            assert(names.deep_view().take(i as int + 1).drop_last() =~= names.deep_view().take(
                i as int,
            ));
            assert(names.deep_view().take(i as int + 1).last() == names.deep_view()[i as int]);
        }
        if t.unicode_len() > 0 && !strings_contain(&result, t.as_str()) {
            let ghost before = result.deep_view();
            result.push(t);
            proof {
                assert(result.deep_view() =~= before.push(trim_spec(names.deep_view()[i as int])));
            }
        }
        i = i + 1;
    }
    proof {
        assert(names.deep_view().take(names@.len() as int) =~= names.deep_view());
    }
    result
}

/// A game document.
pub struct Game {
    pub title: String,
    pub attributes: Vec<Attribute>,
    pub names: Vec<String>,
    pub media: Media,
}

/// A character document; its parent is the game it belongs to.
pub struct Character {
    pub title: String,
    pub game: String,
    pub attributes: Vec<Attribute>,
    pub names: Vec<String>,
    pub media: Media,
}

/// A move document; its parent is the character it belongs to.
pub struct Move {
    pub title: String,
    pub character: String,
    pub attributes: Vec<Attribute>,
    pub names: Vec<String>,
    pub media: Media,
}

impl Document for Game {
    open spec fn doc_view(&self) -> DocView {
        DocView {
            kind: "game"@,
            parent: None,
            title: self.title@,
            attributes: attrs_view(self.attributes@),
            names: self.names.deep_view(),
            media: self.media@,
        }
    }

    fn get_parent(&self) -> (r: Option<&str>) {
        None
    }

    fn get_type(&self) -> (r: &str) {
        "game"
    }

    fn sanitize(&mut self) {
        self.title = trim_str(self.title.as_str());
        sanitize_attributes(&mut self.attributes);
        self.names = sanitize_name_list(&self.names);
    }
}

impl Document for Character {
    open spec fn doc_view(&self) -> DocView {
        DocView {
            kind: "character"@,
            parent: Some(self.game@),
            title: self.title@,
            attributes: attrs_view(self.attributes@),
            names: self.names.deep_view(),
            media: self.media@,
        }
    }

    fn get_parent(&self) -> (r: Option<&str>) {
        Some(self.game.as_str())
    }

    fn get_type(&self) -> (r: &str) {
        "character"
    }

    fn sanitize(&mut self) {
        self.title = trim_str(self.title.as_str());
        sanitize_attributes(&mut self.attributes);
        self.names = sanitize_name_list(&self.names);
    }
}

impl Document for Move {
    open spec fn doc_view(&self) -> DocView {
        DocView {
            kind: "move"@,
            parent: Some(self.character@),
            title: self.title@,
            attributes: attrs_view(self.attributes@),
            names: self.names.deep_view(),
            media: self.media@,
        }
    }

    fn get_parent(&self) -> (r: Option<&str>) {
        Some(self.character.as_str())
    }

    fn get_type(&self) -> (r: &str) {
        "move"
    }

    fn sanitize(&mut self) {
        self.title = trim_str(self.title.as_str());
        sanitize_attributes(&mut self.attributes);
        self.names = sanitize_name_list(&self.names);
    }
}

/// Tagged union over the document variants; the stored and published form.
pub enum AnyDocument {
    Game(Game),
    Character(Character),
    Move(Move),
}

impl Document for AnyDocument {
    open spec fn doc_view(&self) -> DocView {
        match self {
            AnyDocument::Game(g) => g.doc_view(),
            AnyDocument::Character(c) => c.doc_view(),
            AnyDocument::Move(m) => m.doc_view(),
        }
    }

    fn get_parent(&self) -> (r: Option<&str>) {
        match self {
            AnyDocument::Game(g) => g.get_parent(),
            AnyDocument::Character(c) => c.get_parent(),
            AnyDocument::Move(m) => m.get_parent(),
        }
    }

    fn get_type(&self) -> (r: &str) {
        match self {
            AnyDocument::Game(g) => g.get_type(),
            AnyDocument::Character(c) => c.get_type(),
            AnyDocument::Move(m) => m.get_type(),
        }
    }

    fn sanitize(&mut self) {
        match self {
            AnyDocument::Game(g) => g.sanitize(),
            AnyDocument::Character(c) => c.sanitize(),
            AnyDocument::Move(m) => m.sanitize(),
        }
    }
}

fn clone_attributes(attrs: &Vec<Attribute>) -> (r: Vec<Attribute>)
    ensures
        r@ == attrs@,
{
    let mut result: Vec<Attribute> = Vec::new();
    let mut i: usize = 0;
    while i < attrs.len()
        invariant
            0 <= i <= attrs.len(),
            result@ == attrs@.take(i as int),
        decreases attrs.len() - i,
    {
        result.push(attrs[i].clone());
        proof {
            assert(result@ =~= attrs@.take(i as int + 1));
        }
        i = i + 1;
    }
    proof {
        assert(attrs@.take(attrs@.len() as int) =~= attrs@);
    }
    result
}

fn clone_strings(v: &Vec<String>) -> (r: Vec<String>)
    ensures
        r@ == v@,
{
    let mut result: Vec<String> = Vec::new();
    let mut i: usize = 0;
    while i < v.len()
        invariant
            0 <= i <= v.len(),
            result@ == v@.take(i as int),
        decreases v.len() - i,
    {
        result.push(v[i].clone());
        proof {
            assert(result@ =~= v@.take(i as int + 1));
        }
        i = i + 1;
    }
    proof {
        assert(v@.take(v@.len() as int) =~= v@);
    }
    result
}

impl Clone for Game {
    fn clone(&self) -> (res: Self)
        ensures
            res.doc_view() == self.doc_view(),
    {
        let res = Game {
            title: self.title.clone(),
            attributes: clone_attributes(&self.attributes),
            names: clone_strings(&self.names),
            media: self.media.clone(),
        };
        proof {
            assert(res.doc_view() =~= self.doc_view());
        }
        res
    }
}

impl Clone for Character {
    fn clone(&self) -> (res: Self)
        ensures
            res.doc_view() == self.doc_view(),
    {
        let res = Character {
            title: self.title.clone(),
            game: self.game.clone(),
            attributes: clone_attributes(&self.attributes),
            names: clone_strings(&self.names),
            media: self.media.clone(),
        };
        proof {
            assert(res.doc_view() =~= self.doc_view());
        }
        res
    }
}

impl Clone for Move {
    fn clone(&self) -> (res: Self)
        ensures
            res.doc_view() == self.doc_view(),
    {
        let res = Move {
            title: self.title.clone(),
            character: self.character.clone(),
            attributes: clone_attributes(&self.attributes),
            names: clone_strings(&self.names),
            media: self.media.clone(),
        };
        proof {
            assert(res.doc_view() =~= self.doc_view());
        }
        res
    }
}

impl Clone for AnyDocument {
    fn clone(&self) -> (res: Self)
        ensures
            res.doc_view() == self.doc_view(),
    {
        match self {
            AnyDocument::Game(g) => AnyDocument::Game(g.clone()),
            AnyDocument::Character(c) => AnyDocument::Character(c.clone()),
            AnyDocument::Move(m) => AnyDocument::Move(m.clone()),
        }
    }
}

/// Status of a proposal in the moderation workflow. `Pending` is the initial
/// state; the other three are terminal.
#[derive(Clone, Copy, PartialEq, Eq, Structural, Debug)]
pub enum ProposalStatus {
    Pending,
    Approved,
    Rejected,
    Cancelled,
}

/// The wire name of a status.
pub open spec fn status_name_spec(st: ProposalStatus) -> Seq<char> {
    match st {
        ProposalStatus::Pending => "pending"@,
        ProposalStatus::Approved => "approved"@,
        ProposalStatus::Rejected => "rejected"@,
        ProposalStatus::Cancelled => "cancelled"@,
    }
}

/// The status denoted by a wire name, if any.
pub open spec fn parse_status_spec(s: Seq<char>) -> Option<ProposalStatus> {
    if s == "pending"@ {
        Some(ProposalStatus::Pending)
    } else if s == "approved"@ {
        Some(ProposalStatus::Approved)
    } else if s == "rejected"@ {
        Some(ProposalStatus::Rejected)
    } else if s == "cancelled"@ {
        Some(ProposalStatus::Cancelled)
    } else {
        None
    }
}

pub fn status_name(st: ProposalStatus) -> (r: &'static str)
    ensures
        r@ == status_name_spec(st),
{
    match st {
        ProposalStatus::Pending => "pending",
        ProposalStatus::Approved => "approved",
        ProposalStatus::Rejected => "rejected",
        ProposalStatus::Cancelled => "cancelled",
    }
}

pub fn parse_status(s: &str) -> (r: Option<ProposalStatus>)
    ensures
        r == parse_status_spec(s@),
{
    if crate::strutil::str_eq(s, "pending") {
        Some(ProposalStatus::Pending)
    } else if crate::strutil::str_eq(s, "approved") {
        Some(ProposalStatus::Approved)
    } else if crate::strutil::str_eq(s, "rejected") {
        Some(ProposalStatus::Rejected)
    } else if crate::strutil::str_eq(s, "cancelled") {
        Some(ProposalStatus::Cancelled)
    } else {
        None
    }
}

/// Whether a status is terminal: a proposal in it can no longer change.
pub open spec fn is_terminal_status(st: ProposalStatus) -> bool {
    st == ProposalStatus::Approved || st == ProposalStatus::Rejected || st
        == ProposalStatus::Cancelled
}

/// An item that proposes an edit against a target.
pub trait Proposed {
    /// The target the proposal is about.
    spec fn target_spec(&self) -> Seq<char>;

    fn target(&self) -> (r: &str)
        ensures
            r@ == self.target_spec(),
    ;
}

/// A versioned, author-attributed candidate edit awaiting or having received
/// a moderation decision.
pub struct Proposal<D> {
    pub target: String,
    pub created: u64,
    pub last_updated: u64,
    pub status: ProposalStatus,
    pub author_id: String,
    pub author_name: String,
    pub document: D,
}

impl<D: Document> Proposed for Proposal<D> {
    open spec fn target_spec(&self) -> Seq<char> {
        self.target@
    }

    fn target(&self) -> (r: &str) {
        self.target.as_str()
    }
}

/// A request to create a proposal, as handed in by a caller.
pub struct ProposalRequest<D> {
    pub target: String,
    pub import_as: Option<String>,
    pub document: D,
}

/// Reference to an author, used for attribution on published documents.
pub struct AuthorRef {
    pub id: String,
    pub name: String,
}

/// Mathematical view of an [`AuthorRef`].
pub struct AuthorRefView {
    pub id: Seq<char>,
    pub name: Seq<char>,
}

impl View for AuthorRef {
    type V = AuthorRefView;

    open spec fn view(&self) -> AuthorRefView {
        AuthorRefView { id: self.id@, name: self.name@ }
    }
}

impl DeepView for AuthorRef {
    type V = AuthorRefView;

    open spec fn deep_view(&self) -> AuthorRefView {
        self.view()
    }
}

impl Clone for AuthorRef {
    fn clone(&self) -> (res: Self)
        ensures
            res == *self,
    {
        AuthorRef { id: self.id.clone(), name: self.name.clone() }
    }
}

/// The type tag of game documents.
pub fn get_type_game() -> (r: String)
    ensures
        r@ == "game"@,
{
    "game".to_owned()
}

/// The type tag of character documents.
pub fn get_type_char() -> (r: String)
    ensures
        r@ == "character"@,
{
    "character".to_owned()
}

/// The type tag of move documents.
pub fn get_type_move() -> (r: String)
    ensures
        r@ == "move"@,
{
    "move".to_owned()
}

} // verus!
