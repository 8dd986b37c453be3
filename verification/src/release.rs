//! Canonical releases and the orders they are listed in.

use vstd::prelude::*;
use crate::arrange::{Arrangement, arranged, is_arrangement, lemma_arrangement_unique, views};
use crate::day::{Day, date_rank, day_view, rank_dates};
use crate::rank::{Rank, int_rank, rank_u128};
use crate::text::{
    lemma_text_rank_flip, lemma_text_rank_same, lemma_text_rank_transitive, rank_str, same_text,
    text_rank,
};

verus! {

/// Classification of a release in the catalogue.
#[derive(Clone, Copy, Debug, PartialEq, Eq, Structural)]
pub enum ReleaseType {
    Untyped,
    EP,
    Album,
    Single,
    Other,
    Broadcast,
    Compilation,
    Spokenword,
    Interview,
    Soundtrack,
    Audiobook,
    DJMix,
    Mixtape,
    Live,
    Remix,
    Demo,
    AudioDrama,
}

impl ReleaseType {
    /// Position of the classification in the order of its declaration.
    pub open spec fn index(self) -> int {
        match self {
            ReleaseType::Untyped => 0,
            ReleaseType::EP => 1,
            ReleaseType::Album => 2,
            ReleaseType::Single => 3,
            ReleaseType::Other => 4,
            ReleaseType::Broadcast => 5,
            ReleaseType::Compilation => 6,
            ReleaseType::Spokenword => 7,
            ReleaseType::Interview => 8,
            ReleaseType::Soundtrack => 9,
            ReleaseType::Audiobook => 10,
            ReleaseType::DJMix => 11,
            ReleaseType::Mixtape => 12,
            ReleaseType::Live => 13,
            ReleaseType::Remix => 14,
            ReleaseType::Demo => 15,
            ReleaseType::AudioDrama => 16,
        }
    }

    /// Executable form of [`ReleaseType::index`].
    pub fn position(self) -> (n: u8)
        ensures
            n == self.index(),
    {
        match self {
            ReleaseType::Untyped => 0,
            ReleaseType::EP => 1,
            ReleaseType::Album => 2,
            ReleaseType::Single => 3,
            ReleaseType::Other => 4,
            ReleaseType::Broadcast => 5,
            ReleaseType::Compilation => 6,
            ReleaseType::Spokenword => 7,
            ReleaseType::Interview => 8,
            ReleaseType::Soundtrack => 9,
            ReleaseType::Audiobook => 10,
            ReleaseType::DJMix => 11,
            ReleaseType::Mixtape => 12,
            ReleaseType::Live => 13,
            ReleaseType::Remix => 14,
            ReleaseType::Demo => 15,
            ReleaseType::AudioDrama => 16,
        }
    }

    /// The classification that the catalogue writes as `name`, if any.
    pub open spec fn named(name: Seq<char>) -> Option<ReleaseType> {
        if name == "None"@ {
            Some(ReleaseType::Untyped)
        } else if name == "EP"@ {
            Some(ReleaseType::EP)
        } else if name == "Album"@ {
            Some(ReleaseType::Album)
        } else if name == "Single"@ {
            Some(ReleaseType::Single)
        } else if name == "Other"@ {
            Some(ReleaseType::Other)
        } else if name == "Broadcast"@ {
            Some(ReleaseType::Broadcast)
        } else if name == "Compilation"@ {
            Some(ReleaseType::Compilation)
        } else if name == "Spokenword"@ {
            Some(ReleaseType::Spokenword)
        } else if name == "Interview"@ {
            Some(ReleaseType::Interview)
        } else if name == "Soundtrack"@ {
            Some(ReleaseType::Soundtrack)
        } else if name == "Audiobook"@ {
            Some(ReleaseType::Audiobook)
        } else if name == "DJ-mix"@ {
            Some(ReleaseType::DJMix)
        } else if name == "Mixtape/Street"@ {
            Some(ReleaseType::Mixtape)
        } else if name == "Live"@ {
            Some(ReleaseType::Live)
        } else if name == "Remix"@ {
            Some(ReleaseType::Remix)
        } else if name == "Demo"@ {
            Some(ReleaseType::Demo)
        } else if name == "Audio drama"@ {
            Some(ReleaseType::AudioDrama)
        } else {
            None
        }
    }

    /// Reads a classification as the catalogue writes it. A name that the
    /// catalogue has added since gives `None`.
    pub fn from_name(name: &str) -> (r: Option<ReleaseType>)
        ensures
            r == ReleaseType::named(name@),
    {
        if same_text(name, "None") {
            Some(ReleaseType::Untyped)
        } else if same_text(name, "EP") {
            Some(ReleaseType::EP)
        } else if same_text(name, "Album") {
            Some(ReleaseType::Album)
        } else if same_text(name, "Single") {
            Some(ReleaseType::Single)
        } else if same_text(name, "Other") {
            Some(ReleaseType::Other)
        } else if same_text(name, "Broadcast") {
            Some(ReleaseType::Broadcast)
        } else if same_text(name, "Compilation") {
            Some(ReleaseType::Compilation)
        } else if same_text(name, "Spokenword") {
            Some(ReleaseType::Spokenword)
        } else if same_text(name, "Interview") {
            Some(ReleaseType::Interview)
        } else if same_text(name, "Soundtrack") {
            Some(ReleaseType::Soundtrack)
        } else if same_text(name, "Audiobook") {
            Some(ReleaseType::Audiobook)
        } else if same_text(name, "DJ-mix") {
            Some(ReleaseType::DJMix)
        } else if same_text(name, "Mixtape/Street") {
            Some(ReleaseType::Mixtape)
        } else if same_text(name, "Live") {
            Some(ReleaseType::Live)
        } else if same_text(name, "Remix") {
            Some(ReleaseType::Remix)
        } else if same_text(name, "Demo") {
            Some(ReleaseType::Demo)
        } else if same_text(name, "Audio drama") {
            Some(ReleaseType::AudioDrama)
        } else {
            None
        }
    }

    /// Reads a secondary classification as the catalogue writes it; a name
    /// that the catalogue has added since counts as `Other`.
    pub fn from_name_or_other(name: &str) -> (r: ReleaseType)
        ensures
            r == match ReleaseType::named(name@) {
                Some(known) => known,
                None => ReleaseType::Other,
            },
    {
        match ReleaseType::from_name(name) {
            Some(known) => known,
            None => ReleaseType::Other,
        }
    }

    /// The label under which the classification is shown to the operator.
    pub open spec fn label_text(self) -> Seq<char> {
        match self {
            ReleaseType::Untyped => "None"@,
            ReleaseType::EP => "EP"@,
            ReleaseType::Album => "Album"@,
            ReleaseType::Single => "Single"@,
            ReleaseType::Other => "Other"@,
            ReleaseType::Broadcast => "Broadcast"@,
            ReleaseType::Compilation => "Compilation"@,
            ReleaseType::Spokenword => "Spokenword"@,
            ReleaseType::Interview => "Interview"@,
            ReleaseType::Soundtrack => "Soundtrack"@,
            ReleaseType::Audiobook => "Audiobook"@,
            ReleaseType::DJMix => "DJMix"@,
            ReleaseType::Mixtape => "Mixtape"@,
            ReleaseType::Live => "Live"@,
            ReleaseType::Remix => "Remix"@,
            ReleaseType::Demo => "Demo"@,
            ReleaseType::AudioDrama => "AudioDrama"@,
        }
    }

    /// Executable form of [`ReleaseType::label_text`].
    pub fn label(self) -> (s: &'static str)
        ensures
            s@ == self.label_text(),
    {
        match self {
            ReleaseType::Untyped => "None",
            ReleaseType::EP => "EP",
            ReleaseType::Album => "Album",
            ReleaseType::Single => "Single",
            ReleaseType::Other => "Other",
            ReleaseType::Broadcast => "Broadcast",
            ReleaseType::Compilation => "Compilation",
            ReleaseType::Spokenword => "Spokenword",
            ReleaseType::Interview => "Interview",
            ReleaseType::Soundtrack => "Soundtrack",
            ReleaseType::Audiobook => "Audiobook",
            ReleaseType::DJMix => "DJMix",
            ReleaseType::Mixtape => "Mixtape",
            ReleaseType::Live => "Live",
            ReleaseType::Remix => "Remix",
            ReleaseType::Demo => "Demo",
            ReleaseType::AudioDrama => "AudioDrama",
        }
    }
}

/// A canonical release.
#[derive(Debug)]
pub struct Album {
    /// Identifier of the release in the catalogue.
    pub id: u128,
    /// Display name of the artist.
    pub artist: String,
    /// Title of the release.
    pub title: String,
    /// Day of first release, where known.
    pub date: Option<Day>,
    /// Classification of the release.
    pub release_type: ReleaseType,
}

/// What a release is, as plain values.
pub struct AlbumView {
    pub id: u128,
    pub artist: Seq<char>,
    pub title: Seq<char>,
    pub date: Option<int>,
    pub release_type: ReleaseType,
}

impl View for Album {
    type V = AlbumView;

    open spec fn view(&self) -> AlbumView {
        AlbumView {
            id: self.id,
            artist: self.artist@,
            title: self.title@,
            date: day_view(self.date),
            release_type: self.release_type,
        }
    }
}

impl Clone for Album {
    fn clone(&self) -> (r: Album)
        ensures
            r@ == self@,
    {
        Album {
            id: self.id,
            artist: self.artist.clone(),
            title: self.title.clone(),
            date: self.date,
            release_type: self.release_type,
        }
    }
}

/// The views of a sequence of releases, in the same order.
pub open spec fn album_views(albums: Seq<Album>) -> Seq<AlbumView> {
    views(albums)
}

/// Rank of two releases in display order: by artist, then day of release,
/// then title; the identifier and the classification settle what is left.
#[verifier::opaque]
pub open spec fn display_rank(a: AlbumView, b: AlbumView) -> Rank {
    text_rank(a.artist, b.artist).or(date_rank(a.date, b.date)).or(text_rank(a.title, b.title)).or(
        int_rank(a.id as int, b.id as int),
    ).or(int_rank(a.release_type.index(), b.release_type.index()))
}

/// `a` is listed before `b`, or they are the same release.
pub open spec fn display_le(a: AlbumView, b: AlbumView) -> bool {
    display_rank(a, b) != Rank::After
}

/// Rank of two releases by title, display order settling equal titles.
#[verifier::opaque]
pub open spec fn title_rank(a: AlbumView, b: AlbumView) -> Rank {
    text_rank(a.title, b.title).or(display_rank(a, b))
}

/// `a` stands before `b` by title, or they are the same release.
pub open spec fn title_le(a: AlbumView, b: AlbumView) -> bool {
    title_rank(a, b) != Rank::After
}

/// Two releases rank `Same` in display order exactly when they agree in
/// every field.
pub proof fn lemma_display_rank_same(a: AlbumView, b: AlbumView)
    ensures
        display_rank(a, b) == Rank::Same <==> a == b,
{
    reveal(display_rank);
    lemma_text_rank_same(a.artist, b.artist);
    lemma_text_rank_same(a.title, b.title);
}

/// Swapping two releases flips their display rank.
pub proof fn lemma_display_rank_flip(a: AlbumView, b: AlbumView)
    ensures
        display_rank(b, a) == display_rank(a, b).flipped(),
{
    reveal(display_rank);
    lemma_text_rank_flip(a.artist, b.artist);
    lemma_text_rank_flip(a.title, b.title);
}

/// Display order is transitive.
pub proof fn lemma_display_le_transitive(a: AlbumView, b: AlbumView, c: AlbumView)
    requires
        display_le(a, b),
        display_le(b, c),
    ensures
        display_le(a, c),
{
    reveal(display_rank);
    lemma_text_rank_same(a.artist, b.artist);
    lemma_text_rank_same(b.artist, c.artist);
    lemma_text_rank_same(a.artist, c.artist);
    lemma_text_rank_same(a.title, b.title);
    lemma_text_rank_same(b.title, c.title);
    lemma_text_rank_same(a.title, c.title);
    lemma_text_rank_transitive(a.artist, b.artist, c.artist);
    if a.artist == b.artist && b.artist == c.artist && a.date == b.date && b.date == c.date {
        lemma_text_rank_transitive(a.title, b.title, c.title);
    }
}

/// Swapping two releases flips their rank by title.
pub proof fn lemma_title_rank_flip(a: AlbumView, b: AlbumView)
    ensures
        title_rank(b, a) == title_rank(a, b).flipped(),
{
    reveal(title_rank);
    lemma_text_rank_flip(a.title, b.title);
    lemma_display_rank_flip(a, b);
}

/// Order by title is transitive.
pub proof fn lemma_title_le_transitive(a: AlbumView, b: AlbumView, c: AlbumView)
    requires
        title_le(a, b),
        title_le(b, c),
    ensures
        title_le(a, c),
{
    reveal(title_rank);
    lemma_text_rank_same(a.title, b.title);
    lemma_text_rank_same(b.title, c.title);
    lemma_text_rank_same(a.title, c.title);
    lemma_text_rank_transitive(a.title, b.title, c.title);
    if a.title == b.title && b.title == c.title {
        lemma_display_le_transitive(a, b, c);
    }
}

/// Rank of two releases by artist, day of release and title alone.
pub open spec fn key_rank(a: AlbumView, b: AlbumView) -> Rank {
    text_rank(a.artist, b.artist).or(date_rank(a.date, b.date)).or(text_rank(a.title, b.title))
}

/// What display order accepts is in order by artist, day of release and
/// title.
pub proof fn lemma_display_le_key(a: AlbumView, b: AlbumView)
    requires
        display_le(a, b),
    ensures
        key_rank(a, b) != Rank::After,
{
    reveal(display_rank);
}

/// In a listing in display order, each release and the next are in order by
/// artist, day of release and title.
pub proof fn lemma_listing_in_order(listing: Seq<AlbumView>, i: int)
    requires
        arranged::<Album, ByDisplay>(listing),
        0 <= i,
        i + 1 < listing.len(),
    ensures
        key_rank(listing[i], listing[i + 1]) != Rank::After,
{
    assert(ByDisplay::le(listing[i], listing[i + 1]));
    lemma_display_le_key(listing[i], listing[i + 1]);
}

/// What order by title accepts is in order of its titles, and in display
/// order where the titles are equal.
pub proof fn lemma_title_le_parts(a: AlbumView, b: AlbumView)
    requires
        title_le(a, b),
    ensures
        text_rank(a.title, b.title) != Rank::After,
        a.title == b.title ==> display_le(a, b),
{
    reveal(title_rank);
    lemma_text_rank_same(a.title, b.title);
}

/// Two releases rank `Same` by title exactly when they agree in every
/// field.
pub proof fn lemma_title_rank_same(a: AlbumView, b: AlbumView)
    ensures
        title_rank(a, b) == Rank::Same <==> a == b,
{
    reveal(title_rank);
    lemma_text_rank_same(a.title, b.title);
    lemma_display_rank_same(a, b);
}

/// A release whose title stands before that of another stands before it in
/// the order by title.
pub proof fn lemma_title_before(a: AlbumView, b: AlbumView)
    requires
        text_rank(a.title, b.title) == Rank::Before,
    ensures
        title_le(a, b),
{
    reveal(title_rank);
}

/// Order by title leaves no choice: two listings of the same releases in
/// that order are the same listing.
pub proof fn lemma_title_arrangement_unique(
    items: Seq<AlbumView>,
    first: Seq<AlbumView>,
    second: Seq<AlbumView>,
)
    requires
        is_arrangement::<Album, ByTitle>(items, first),
        is_arrangement::<Album, ByTitle>(items, second),
    ensures
        first == second,
{
    assert forall|a: AlbumView, b: AlbumView| #[trigger] ByTitle::le(a, b) && #[trigger]
        ByTitle::le(b, a) implies a == b by {
        lemma_title_rank_flip(a, b);
        lemma_title_rank_same(a, b);
    }
    lemma_arrangement_unique::<Album, ByTitle>(items, first, second);
}

/// Swapping two releases flips their rank by artist, day of release and
/// title.
pub proof fn lemma_key_rank_flip(a: AlbumView, b: AlbumView)
    ensures
        key_rank(b, a) == key_rank(a, b).flipped(),
{
    lemma_text_rank_flip(a.artist, b.artist);
    lemma_text_rank_flip(a.title, b.title);
}

/// Two releases rank `Same` by artist, day of release and title exactly when
/// they agree in the three; the identifier and the classification play no
/// part.
pub proof fn lemma_key_rank_same(a: AlbumView, b: AlbumView)
    ensures
        key_rank(a, b) == Rank::Same <==> a.artist == b.artist && a.date == b.date && a.title
            == b.title,
{
    lemma_text_rank_same(a.artist, b.artist);
    lemma_text_rank_same(a.title, b.title);
}

impl Album {
    /// Whether this release has the `Album` classification.
    pub fn is_album(&self) -> (r: bool)
        ensures
            r == (self@.release_type == ReleaseType::Album),
    {
        self.release_type == ReleaseType::Album
    }

    /// Whether `other` is the same release: releases are told apart by
    /// their identifier alone.
    pub fn same_release(&self, other: &Album) -> (r: bool)
        ensures
            r == (self@.id == other@.id),
    {
        self.id == other.id
    }

    /// Rank of this release relative to `other` by artist, then day of
    /// release, then title: the order in which releases are compared. An
    /// absent day stands before every day; the identifier and the
    /// classification play no part.
    pub fn key_rank(&self, other: &Album) -> (r: Rank)
        ensures
            r == key_rank(self@, other@),
    {
        let by_artist = rank_str(self.artist.as_str(), other.artist.as_str());
        let by_date = rank_dates(self.date, other.date);
        let by_title = rank_str(self.title.as_str(), other.title.as_str());
        by_artist.or_else(by_date).or_else(by_title)
    }

    /// Rank of this release relative to `other` in display order, the order
    /// that listings are sorted by: the order by artist, day of release and
    /// title, with the identifier and then the classification settling what
    /// that order leaves equal, so that a listing is determined by what it
    /// holds.
    pub fn display_rank(&self, other: &Album) -> (r: Rank)
        ensures
            r == display_rank(self@, other@),
    {
        proof {
            reveal(display_rank);
        }
        let by_artist = rank_str(self.artist.as_str(), other.artist.as_str());
        let by_date = rank_dates(self.date, other.date);
        let by_title = rank_str(self.title.as_str(), other.title.as_str());
        let by_id = rank_u128(self.id, other.id);
        let by_type = rank_u128(
            self.release_type.position() as u128,
            other.release_type.position() as u128,
        );
        by_artist.or_else(by_date).or_else(by_title).or_else(by_id).or_else(by_type)
    }

    /// Rank of this release relative to `other` by title.
    pub fn title_rank(&self, other: &Album) -> (r: Rank)
        ensures
            r == title_rank(self@, other@),
    {
        proof {
            reveal(title_rank);
        }
        let by_title = rank_str(self.title.as_str(), other.title.as_str());
        by_title.or_else(self.display_rank(other))
    }
}

/// Display order: by artist, day of release and title.
pub struct ByDisplay;

impl Arrangement<Album> for ByDisplay {
    open spec fn le(a: AlbumView, b: AlbumView) -> bool {
        display_le(a, b)
    }

    proof fn lemma_total(a: AlbumView, b: AlbumView) {
        lemma_display_rank_flip(a, b);
    }

    proof fn lemma_transitive(a: AlbumView, b: AlbumView, c: AlbumView) {
        lemma_display_le_transitive(a, b, c);
    }

    fn precedes(a: &Album, b: &Album) -> (r: bool) {
        a.display_rank(b) != Rank::After
    }
}

/// Order by title, display order settling equal titles.
pub struct ByTitle;

impl Arrangement<Album> for ByTitle {
    open spec fn le(a: AlbumView, b: AlbumView) -> bool {
        title_le(a, b)
    }

    proof fn lemma_total(a: AlbumView, b: AlbumView) {
        lemma_title_rank_flip(a, b);
    }

    proof fn lemma_transitive(a: AlbumView, b: AlbumView, c: AlbumView) {
        lemma_title_le_transitive(a, b, c);
    }

    fn precedes(a: &Album, b: &Album) -> (r: bool) {
        a.title_rank(b) != Rank::After
    }
}

/// Display order leaves no choice: two listings of the same releases in
/// display order are the same listing.
pub proof fn lemma_display_arrangement_unique(
    items: Seq<AlbumView>,
    first: Seq<AlbumView>,
    second: Seq<AlbumView>,
)
    requires
        is_arrangement::<Album, ByDisplay>(items, first),
        is_arrangement::<Album, ByDisplay>(items, second),
    ensures
        first == second,
{
    assert forall|a: AlbumView, b: AlbumView| #[trigger] ByDisplay::le(a, b) && #[trigger]
        ByDisplay::le(b, a) implies a == b by {
        lemma_display_rank_flip(a, b);
        lemma_display_rank_same(a, b);
    }
    lemma_arrangement_unique::<Album, ByDisplay>(items, first, second);
}

} // verus!
