//! Extraction of movies and shows from video-site pages, and the decisions
//! of the resumable download pipeline that walks them.
//!
//! A page is read into a node table (`document`), from which `extract`
//! builds the content tree (`content`). `download` plans the files of a tree
//! in ascending season and episode order, names them (`naming`), and decides
//! each fetch and prefetch; the transfers themselves are the caller's.

pub mod content;
pub mod document;
pub mod download;
pub mod error;
pub mod extract;
pub mod naming;
pub mod text;

pub use content::{Content, Episode, Movie, Season, Show};
pub use document::{Document, Node, NodeData, Selector};
pub use download::{
    download_file_name, plan_fetch, prefetch_wait_secs, FetchAction, FetchJob, Transfer, PREFETCH_COOLDOWN_SECS,
};
pub use error::Error;
pub use extract::{parse_movie, parse_show};
pub use naming::{episode_file_name, login_cookie, movie_page_path, path_segment, season_dir_name, show_page_path};
pub use text::same_text;
