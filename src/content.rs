//! The content tree: a movie, or a show made of seasons made of episodes.

use vstd::prelude::*;

verus! {

/// A movie: its name and the site-relative link of its file.
#[derive(Debug, PartialEq, Eq)]
pub struct Movie {
    pub name: String,
    pub link: String,
}

/// One episode; `season` repeats the number of the season that holds it.
#[derive(Debug, PartialEq, Eq)]
pub struct Episode {
    pub season: u32,
    pub number: u32,
    pub name: String,
    pub link: String,
}

/// A season and its episodes.
#[derive(Debug, PartialEq, Eq)]
pub struct Season {
    pub number: u32,
    pub episodes: Vec<Episode>,
}

/// A show and its seasons.
#[derive(Debug, PartialEq, Eq)]
pub struct Show {
    pub name: String,
    pub seasons: Vec<Season>,
}

/// What a run downloads: a movie or a whole show.
#[derive(Debug, PartialEq, Eq)]
pub enum Content {
    Movie(Movie),
    Show(Show),
}

pub struct MovieView {
    pub name: Seq<char>,
    pub link: Seq<char>,
}

pub struct EpisodeView {
    pub season: u32,
    pub number: u32,
    pub name: Seq<char>,
    pub link: Seq<char>,
}

pub struct SeasonView {
    pub number: u32,
    pub episodes: Seq<EpisodeView>,
}

pub struct ShowView {
    pub name: Seq<char>,
    pub seasons: Seq<SeasonView>,
}

impl View for Movie {
    type V = MovieView;

    open spec fn view(&self) -> MovieView {
        MovieView { name: self.name@, link: self.link@ }
    }
}

impl View for Episode {
    type V = EpisodeView;

    open spec fn view(&self) -> EpisodeView {
        EpisodeView { season: self.season, number: self.number, name: self.name@, link: self.link@ }
    }
}

pub open spec fn episode_views(es: Seq<Episode>) -> Seq<EpisodeView> {
    es.map_values(|e: Episode| e@)
}

impl View for Season {
    type V = SeasonView;

    open spec fn view(&self) -> SeasonView {
        SeasonView { number: self.number, episodes: episode_views(self.episodes@) }
    }
}

pub open spec fn season_views(ss: Seq<Season>) -> Seq<SeasonView> {
    ss.map_values(|s: Season| s@)
}

impl View for Show {
    type V = ShowView;

    open spec fn view(&self) -> ShowView {
        ShowView { name: self.name@, seasons: season_views(self.seasons@) }
    }
}

/// Every episode of the season carries the season's number.
pub open spec fn episodes_carry_number(s: SeasonView) -> bool {
    forall|j: int| 0 <= j < s.episodes.len() ==> (#[trigger] s.episodes[j]).season == s.number
}

/// Seasons strictly ascending by number, and episodes strictly ascending by
/// number within each season.
pub open spec fn ascending(show: ShowView) -> bool {
    &&& forall|i: int, j: int|
        0 <= i < j < show.seasons.len() ==> show.seasons[i].number < show.seasons[j].number
    &&& forall|k: int, i: int, j: int|
        0 <= k < show.seasons.len() && 0 <= i < j < show.seasons[k].episodes.len()
            ==> show.seasons[k].episodes[i].number < show.seasons[k].episodes[j].number
}

} // verus!
