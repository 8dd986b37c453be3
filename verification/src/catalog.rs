//! What the catalogue service sends, as decoded by the caller.

use vstd::prelude::*;
use crate::release::ReleaseType;

verus! {

/// One release group as the catalogue lists it.
#[derive(Debug)]
pub struct RawRelease {
    /// Identifier of the release group.
    pub id: u128,
    /// Title of the release group.
    pub title: String,
    /// Primary classification; `None` where the catalogue gives none, or one
    /// that this library does not know.
    pub primary_type: Option<ReleaseType>,
    /// Day of first release as the catalogue writes it.
    pub first_release_date: Option<String>,
    /// Secondary classifications, in the catalogue's order.
    pub secondary_types: Vec<ReleaseType>,
}

/// A raw record as plain values.
pub struct RawReleaseView {
    pub id: u128,
    pub title: Seq<char>,
    pub primary_type: Option<ReleaseType>,
    pub first_release_date: Option<Seq<char>>,
    pub secondary_types: Seq<ReleaseType>,
}

impl View for RawRelease {
    type V = RawReleaseView;

    open spec fn view(&self) -> RawReleaseView {
        RawReleaseView {
            id: self.id,
            title: self.title@,
            primary_type: self.primary_type,
            first_release_date: match self.first_release_date {
                Some(text) => Some(text@),
                None => None,
            },
            secondary_types: self.secondary_types@,
        }
    }
}

/// One page of a release listing.
#[derive(Debug)]
pub struct Page {
    /// How many records the catalogue says the whole listing has.
    pub count_hint: Option<usize>,
    /// The records of this page.
    pub records: Vec<RawRelease>,
}

/// One match of an artist search.
#[derive(Debug)]
pub struct ArtistMatch {
    /// Identifier of the artist, as text.
    pub id: String,
    /// Canonical name of the artist.
    pub name: String,
    /// Name under which the catalogue sorts the artist.
    pub sort_name: String,
}

} // verus!
