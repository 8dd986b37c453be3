//! One run over the roster: what each artist brought is gathered, what went
//! wrong for an artist is noted, and no failure ends the run.

use vstd::prelude::*;
use crate::arrange::{is_arrangement, views};
use crate::day::Day;
use crate::pipeline::{Partition, album_type_only, other_types_only};
use crate::release::{Album, ByDisplay, album_views};
use crate::resolve::{Artist, ArtistView};
use crate::roster::{ByName, add_artist, knows_id, list_by_name};
use crate::transport::CatalogError;
use crate::watermark::{discover, released_since};

verus! {

/// What went wrong for one artist.
#[derive(Debug)]
pub struct Failure {
    /// The artist, by the name that the run knew it by.
    pub artist: String,
    /// What went wrong.
    pub error: CatalogError,
}

/// A failure as plain values.
pub struct FailureView {
    pub artist: Seq<char>,
    pub error: CatalogError,
}

impl View for Failure {
    type V = FailureView;

    open spec fn view(&self) -> FailureView {
        FailureView { artist: self.artist@, error: self.error }
    }
}

/// A discovery run in progress.
#[derive(Debug)]
pub struct Run {
    /// The releases gathered so far, in the order in which they came.
    pub gathered: Vec<Album>,
    /// The failures so far, in the order in which they came.
    pub failures: Vec<Failure>,
}

/// What a discovery run came to.
#[derive(Debug)]
pub struct Report {
    /// The new releases, split by classification, each part in display order.
    pub found: Partition,
    /// The artists for which nothing could be fetched, and why.
    pub failures: Vec<Failure>,
}

impl Run {
    /// A run that has seen no artist yet.
    pub fn new() -> (run: Run)
        ensures
            run.gathered@.len() == 0,
            run.failures@.len() == 0,
    {
        Run { gathered: Vec::new(), failures: Vec::new() }
    }

    /// Takes in what fetching the releases of one artist came to: the
    /// releases are added to those gathered, a failure is noted under the
    /// artist's name.
    pub fn record(self, artist: &str, outcome: Result<Vec<Album>, CatalogError>) -> (next: Run)
        ensures
            match outcome {
                Ok(albums) => {
                    &&& album_views(next.gathered@) == album_views(self.gathered@) + album_views(
                        albums@,
                    )
                    &&& next.failures == self.failures
                },
                Err(error) => {
                    &&& next.gathered == self.gathered
                    &&& views(next.failures@) == views(self.failures@).push(
                        FailureView { artist: artist@, error },
                    )
                },
            },
    {
        let Run { gathered, failures } = self;
        match outcome {
            Ok(albums) => {
                let mut gathered = gathered;
                let mut albums = albums;
                let ghost before = album_views(gathered@);
                let ghost added = album_views(albums@);
                gathered.append(&mut albums);
                assert(album_views(gathered@) =~= before + added);
                Run { gathered, failures }
            },
            Err(error) => {
                let mut failures = failures;
                let ghost before = views(failures@);
                failures.push(Failure { artist: artist.to_owned(), error });
                assert(views(failures@) =~= before.push(FailureView { artist: artist@, error }));
                Run { gathered, failures }
            },
        }
    }

    /// Ends the run: of the releases gathered, those that are new relative to
    /// `watermark` are reported, together with the failures noted.
    pub fn report(self, watermark: Day) -> (report: Report)
        ensures
            is_arrangement::<Album, ByDisplay>(
                album_type_only(released_since(album_views(self.gathered@), watermark@)),
                album_views(report.found.albums@),
            ),
            is_arrangement::<Album, ByDisplay>(
                other_types_only(released_since(album_views(self.gathered@), watermark@)),
                album_views(report.found.others@),
            ),
            report.failures == self.failures,
    {
        let found = discover(&self.gathered, watermark);
        Report { found, failures: self.failures }
    }
}

/// The artists that a roster holds once resolving one name has come to
/// `outcome`: an artist whose identifier the roster does not have yet joins
/// it; anything else leaves it as it is.
pub open spec fn enrolled(
    roster: Seq<ArtistView>,
    outcome: Result<Artist, CatalogError>,
) -> Seq<ArtistView> {
    match outcome {
        Ok(artist) => if knows_id(roster, artist@.id) {
            roster
        } else {
            roster.push(artist@)
        },
        Err(_) => roster,
    }
}

/// The failures that are noted once resolving `name` has come to `outcome`.
pub open spec fn noted(
    failures: Seq<FailureView>,
    name: Seq<char>,
    outcome: Result<Artist, CatalogError>,
) -> Seq<FailureView> {
    match outcome {
        Ok(_) => failures,
        Err(error) => failures.push(FailureView { artist: name, error }),
    }
}

/// Takes in what resolving one name came to: an artist that the roster does
/// not have yet is added to it, a failure is noted under the name. Whatever
/// came of it, the roster is handed back listed by name.
pub fn enroll(
    roster: Vec<Artist>,
    failures: Vec<Failure>,
    name: &str,
    outcome: Result<Artist, CatalogError>,
) -> (r: (Vec<Artist>, Vec<Failure>))
    ensures
        is_arrangement::<Artist, ByName>(enrolled(views(roster@), outcome), views(r.0@)),
        views(r.1@) == noted(views(failures@), name@, outcome),
{
    match outcome {
        Ok(artist) => {
            let (grown, added) = add_artist(roster, artist);
            if added {
                (grown, failures)
            } else {
                (list_by_name(grown), failures)
            }
        },
        Err(error) => {
            let mut failures = failures;
            let ghost before = views(failures@);
            failures.push(Failure { artist: name.to_owned(), error });
            assert(views(failures@) =~= before.push(FailureView { artist: name@, error }));
            (list_by_name(roster), failures)
        },
    }
}

} // verus!
