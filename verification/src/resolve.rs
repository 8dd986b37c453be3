//! Resolving a name to an artist of the catalogue.
//!
//! The caller sends the search that [`search_request`] describes and hands the
//! reply to [`resolve`], which takes the first match.

use vstd::prelude::*;
use crate::catalog::ArtistMatch;
use crate::transport::{CatalogError, HttpReply, reply_result};

verus! {

/// How many matches a search asks for.
pub const SEARCH_LIMIT: usize = 3;

/// An artist of the catalogue.
#[derive(Debug)]
pub struct Artist {
    /// Canonical name of the artist.
    pub name: String,
    /// Identifier of the artist.
    pub id: u128,
    /// The name that was searched for. Kept so that the operator can see how
    /// far the match lies from what was asked.
    pub search_string: String,
    /// Name under which the catalogue sorts the artist.
    pub sort_name: String,
}

/// An artist as plain values.
pub struct ArtistView {
    pub name: Seq<char>,
    pub id: u128,
    pub search_string: Seq<char>,
    pub sort_name: Seq<char>,
}

impl View for Artist {
    type V = ArtistView;

    open spec fn view(&self) -> ArtistView {
        ArtistView {
            name: self.name@,
            id: self.id,
            search_string: self.search_string@,
            sort_name: self.sort_name@,
        }
    }
}

impl Clone for Artist {
    fn clone(&self) -> (r: Artist)
        ensures
            r@ == self@,
    {
        Artist {
            name: self.name.clone(),
            id: self.id,
            search_string: self.search_string.clone(),
            sort_name: self.sort_name.clone(),
        }
    }
}

/// A search for artists by name.
#[derive(Debug)]
pub struct SearchRequest {
    /// The name to search for.
    pub query: String,
    /// How many matches to send at most.
    pub limit: usize,
}

/// The identifier that `uuid::Uuid::parse_str` reads from `text`, as the 128
/// bits of the identifier with the first byte highest; `None` where it
/// rejects the text.
pub uninterp spec fn uuid_value(text: Seq<char>) -> Option<u128>;

/// Calls `uuid::Uuid::parse_str` on `text` and `uuid::Uuid::as_u128` on the
/// identifier read.
///
/// Trusted: the result is the named value `uuid_value`, a function of the
/// text alone.
#[verifier::external_body]
fn parse_uuid(text: &str) -> (r: Option<u128>)
    ensures
        r == uuid_value(text@),
{
    match uuid::Uuid::parse_str(text) {
        Ok(id) => Some(id.as_u128()),
        Err(_) => None,
    }
}

/// The artist that a match stands for, given what reading its identifier
/// came to.
pub open spec fn matched_artist(
    name: Seq<char>,
    found: ArtistMatch,
    id: Option<u128>,
) -> Result<ArtistView, CatalogError> {
    match id {
        Some(id) => Ok(
            ArtistView { name: found.name@, id, search_string: name, sort_name: found.sort_name@ },
        ),
        None => Err(CatalogError::Decode),
    }
}

/// What resolving `name` comes to, given the reply to the search.
pub open spec fn resolved(
    name: Seq<char>,
    reply: HttpReply<Vec<ArtistMatch>>,
) -> Result<ArtistView, CatalogError> {
    match reply_result(reply) {
        Err(error) => Err(error),
        Ok(matches) => if matches@.len() == 0 {
            Err(CatalogError::NotFound)
        } else {
            matched_artist(name, matches@[0], uuid_value(matches@[0].id@))
        },
    }
}

/// The view of the outcome of a resolution.
pub open spec fn resolution_view(r: Result<Artist, CatalogError>) -> Result<
    ArtistView,
    CatalogError,
> {
    match r {
        Ok(artist) => Ok(artist@),
        Err(error) => Err(error),
    }
}

/// The search to send for `name`.
pub fn search_request(name: &str) -> (request: SearchRequest)
    ensures
        request.query@ == name@,
        request.limit == SEARCH_LIMIT,
{
    SearchRequest { query: name.to_owned(), limit: SEARCH_LIMIT }
}

/// Reads the identifier of a match.
pub fn match_id(found: &ArtistMatch) -> (r: Option<u128>)
    ensures
        r == uuid_value(found.id@),
{
    parse_uuid(found.id.as_str())
}

/// Makes the artist that a match stands for, given what reading its
/// identifier came to: a match without a readable identifier is a decoding
/// failure.
pub fn artist_from_match(name: &str, found: &ArtistMatch, id: Option<u128>) -> (r: Result<
    Artist,
    CatalogError,
>)
    ensures
        resolution_view(r) == matched_artist(name@, *found, id),
{
    match id {
        Some(id) => Ok(
            Artist {
                name: found.name.clone(),
                id,
                search_string: name.to_owned(),
                sort_name: found.sort_name.clone(),
            },
        ),
        None => Err(CatalogError::Decode),
    }
}

/// Resolves `name` from the reply to its search: the first match is taken,
/// and a search without matches fails with `NotFound`.
pub fn resolve(name: &str, reply: HttpReply<Vec<ArtistMatch>>) -> (r: Result<Artist, CatalogError>)
    ensures
        resolution_view(r) == resolved(name@, reply),
{
    match reply.into_result() {
        Err(error) => Err(error),
        Ok(matches) => {
            if matches.len() == 0 {
                Err(CatalogError::NotFound)
            } else {
                let id = match_id(&matches[0]);
                artist_from_match(name, &matches[0], id)
            }
        },
    }
}

} // verus!
