//! Catalogue data model: quality levels, images and the response shapes of
//! the streaming service's API.

use std::collections::HashSet;
use vstd::prelude::*;
use crate::text::str_eq;

verus! {

/// Audio quality format (the numeric ids match the Qobuz API format ids).
#[derive(Debug, Clone, Copy, PartialEq, Eq, Structural, PartialOrd, Ord, Hash)]
pub enum Quality {
    Mp3,
    Lossless,
    HiRes,
    UltraHiRes,
}

/// The API format id of each quality level.
pub open spec fn quality_id(q: Quality) -> u32 {
    match q {
        Quality::Mp3 => 5,
        Quality::Lossless => 6,
        Quality::HiRes => 7,
        Quality::UltraHiRes => 27,
    }
}

impl Quality {
    /// The quality level with API format id `id`, if there is one.
    pub fn from_id(id: u32) -> (r: Option<Quality>)
        ensures
            r matches Some(q) ==> quality_id(q) == id,
            r is None <==> (id != 5 && id != 6 && id != 7 && id != 27),
    {
        match id {
            5 => Some(Quality::Mp3),
            6 => Some(Quality::Lossless),
            7 => Some(Quality::HiRes),
            27 => Some(Quality::UltraHiRes),
            _ => None,
        }
    }

    /// The API format id of this quality level.
    pub fn id(&self) -> (r: u32)
        ensures
            r == quality_id(*self),
    {
        match self {
            Quality::Mp3 => 5,
            Quality::Lossless => 6,
            Quality::HiRes => 7,
            Quality::UltraHiRes => 27,
        }
    }

    /// A human-readable description of the format.
    pub fn label(&self) -> (r: &'static str)
        ensures
            r@ == quality_label(*self)@,
    {
        match self {
            Quality::Mp3 => "MP3 320kbps",
            Quality::Lossless => "FLAC 16-bit/44.1kHz",
            Quality::HiRes => "FLAC 24-bit/\u{2264}96kHz",
            Quality::UltraHiRes => "FLAC 24-bit/>96kHz",
        }
    }

    /// All quality levels, best first: the order in which a stream falls back.
    pub fn fallback_order() -> (r: Vec<Quality>)
        ensures
            r@ == seq![Quality::UltraHiRes, Quality::HiRes, Quality::Lossless, Quality::Mp3],
    {
        vec![Quality::UltraHiRes, Quality::HiRes, Quality::Lossless, Quality::Mp3]
    }

    /// The next lower quality level, `None` at the lowest (`Mp3`).
    pub fn lower(&self) -> (r: Option<Quality>)
        ensures
            r == quality_lower(*self),
    {
        match self {
            Quality::UltraHiRes => Some(Quality::HiRes),
            Quality::HiRes => Some(Quality::Lossless),
            Quality::Lossless => Some(Quality::Mp3),
            Quality::Mp3 => None,
        }
    }
}

/// The label of each quality level.
pub open spec fn quality_label(q: Quality) -> &'static str {
    match q {
        Quality::Mp3 => "MP3 320kbps",
        Quality::Lossless => "FLAC 16-bit/44.1kHz",
        Quality::HiRes => "FLAC 24-bit/\u{2264}96kHz",
        Quality::UltraHiRes => "FLAC 24-bit/>96kHz",
    }
}

/// The next lower quality level.
pub open spec fn quality_lower(q: Quality) -> Option<Quality> {
    match q {
        Quality::UltraHiRes => Some(Quality::HiRes),
        Quality::HiRes => Some(Quality::Lossless),
        Quality::Lossless => Some(Quality::Mp3),
        Quality::Mp3 => None,
    }
}

/// The rank of a quality level in `fallback_order` (0 = best).
pub open spec fn fallback_rank(q: Quality) -> int {
    match q {
        Quality::UltraHiRes => 0,
        Quality::HiRes => 1,
        Quality::Lossless => 2,
        Quality::Mp3 => 3,
    }
}

/// Stepping down with `lower` walks `fallback_order` one place at a time, and
/// stops only at its last entry.
pub proof fn lemma_lower_follows_fallback_order(q: Quality)
    ensures
        quality_lower(q) matches Some(l) ==> fallback_rank(l) == fallback_rank(q) + 1,
        quality_lower(q) is None <==> fallback_rank(q) == 3,
{
}

/// A quality level's id round-trips through `from_id`.
pub proof fn lemma_id_round_trip(q: Quality)
    ensures
        quality_id(q) == 5 || quality_id(q) == 6 || quality_id(q) == 7 || quality_id(q) == 27,
        forall|p: Quality| quality_id(p) == quality_id(q) ==> p == q,
{
}

impl Default for Quality {
    fn default() -> (r: Self)
        ensures
            r == Quality::Lossless,
    {
        Quality::Lossless
    }
}

/// User credentials and session info.
#[derive(Debug, Clone)]
pub struct UserSession {
    pub user_auth_token: String,
    pub user_id: u64,
    pub email: String,
    pub display_name: String,
    pub subscription_label: String,
    pub subscription_valid_until: Option<String>,
}

/// A restriction attached to a stream.
#[derive(Debug, Clone)]
pub struct StreamRestriction {
    pub code: String,
}

/// Response to starting a segmented-streaming session.
#[derive(Debug, Clone)]
pub struct SessionStartResponse {
    pub session_id: String,
    pub expires_at: u64,
    pub infos: Option<String>,
}

/// Image URLs at several resolutions.
#[derive(Debug, Clone)]
pub struct ImageSet {
    pub small: Option<String>,
    pub thumbnail: Option<String>,
    pub large: Option<String>,
    pub extralarge: Option<String>,
    pub mega: Option<String>,
    pub back: Option<String>,
}

/// The largest image present: mega, then extralarge, large, thumbnail, small.
pub open spec fn best_image(i: ImageSet) -> Option<String> {
    if i.mega is Some {
        i.mega
    } else if i.extralarge is Some {
        i.extralarge
    } else if i.large is Some {
        i.large
    } else if i.thumbnail is Some {
        i.thumbnail
    } else {
        i.small
    }
}

impl ImageSet {
    /// The largest image present (`back` is never chosen).
    pub fn best(&self) -> (r: Option<&String>)
        ensures
            r matches Some(s) ==> best_image(*self) == Some(*s),
            r is None <==> best_image(*self) is None,
    {
        if let Some(s) = &self.mega {
            Some(s)
        } else if let Some(s) = &self.extralarge {
            Some(s)
        } else if let Some(s) = &self.large {
            Some(s)
        } else if let Some(s) = &self.thumbnail {
            Some(s)
        } else if let Some(s) = &self.small {
            Some(s)
        } else {
            None
        }
    }
}

impl Default for ImageSet {
    fn default() -> (r: Self)
        ensures
            r.small is None && r.thumbnail is None && r.large is None,
            r.extralarge is None && r.mega is None && r.back is None,
    {
        ImageSet { small: None, thumbnail: None, large: None, extralarge: None, mega: None, back: None }
    }
}

/// Album summary embedded in track responses.
#[derive(Debug, Clone)]
pub struct AlbumSummary {
    pub id: String,
    pub title: String,
    pub image: ImageSet,
    pub label: Option<Label>,
}

/// An album contributor (main artist or featured artist) with its roles.
#[derive(Debug, Clone)]
pub struct AlbumArtist {
    pub id: u64,
    pub name: String,
    pub roles: Option<Vec<String>>,
}

/// A downloadable extra bundled with an album (such as a PDF booklet).
#[derive(Debug, Clone)]
pub struct Goody {
    pub id: u64,
    pub name: String,
    pub url: String,
    /// Original (full-size) URL.
    pub original_url: String,
    /// File format id (21 for PDF).
    pub file_format_id: Option<u32>,
    pub description: Option<String>,
}

/// Artist biography content.
#[derive(Debug, Clone)]
pub struct ArtistBiography {
    pub summary: Option<String>,
    pub content: Option<String>,
    pub source: Option<String>,
}

/// The owner of a playlist.
#[derive(Debug, Clone)]
pub struct PlaylistOwner {
    pub id: u64,
    pub name: String,
}

/// A genre attached to a playlist.
#[derive(Debug, Clone)]
pub struct PlaylistGenre {
    pub id: u64,
    pub name: String,
    pub slug: Option<String>,
}

/// A playlist with its track ids only.
#[derive(Debug, Clone)]
pub struct PlaylistWithTrackIds {
    pub id: u64,
    pub name: String,
    pub description: Option<String>,
    pub owner: PlaylistOwner,
    pub images: Option<Vec<String>>,
    pub tracks_count: u32,
    pub duration: u32,
    pub is_public: bool,
    pub track_ids: Vec<u64>,
    pub genres: Option<Vec<PlaylistGenre>>,
    pub images150: Option<Vec<String>>,
    pub images300: Option<Vec<String>>,
    pub slug: Option<String>,
    pub users_count: Option<u32>,
}

/// Result of checking a playlist for duplicate tracks.
#[derive(Debug)]
pub struct PlaylistDuplicateResult {
    pub total_tracks: usize,
    pub duplicate_count: usize,
    pub duplicate_track_ids: HashSet<u64>,
}

/// A record label.
#[derive(Debug, Clone)]
pub struct Label {
    pub id: u64,
    pub name: String,
}

/// The magazine or publisher behind a press award.
#[derive(Debug, Clone)]
pub struct AwardMagazine {
    pub id: Option<String>,
    pub name: Option<String>,
    pub image: Option<String>,
}

/// A page of a label's albums, playlists or artists.
#[derive(Debug, Clone)]
pub struct LabelListPage<T> {
    pub has_more: Option<bool>,
    pub items: Vec<T>,
    pub total: Option<u32>,
    pub offset: Option<u32>,
    pub limit: Option<u32>,
}

/// A genre.
#[derive(Debug, Clone)]
pub struct Genre {
    pub id: u64,
    pub name: String,
}

/// A genre with its full details.
#[derive(Debug, Clone)]
pub struct GenreInfo {
    pub id: u64,
    pub name: String,
    pub color: Option<String>,
    pub slug: Option<String>,
    pub path: Option<Vec<u64>>,
}

/// Response listing the genres.
#[derive(Debug, Clone)]
pub struct GenreListResponse {
    pub genres: GenreListContainer,
}

/// The genres of a genre list response.
#[derive(Debug, Clone)]
pub struct GenreListContainer {
    pub items: Vec<GenreInfo>,
}

/// One page of search results.
#[derive(Debug, Clone)]
pub struct SearchResultsPage<T> {
    pub items: Vec<T>,
    pub total: u32,
    pub offset: u32,
    pub limit: u32,
}

/// A container of the discover index.
#[derive(Debug, Clone)]
pub struct DiscoverContainer<T> {
    pub id: String,
    pub data: DiscoverData<T>,
}

/// The items of a discover container.
#[derive(Debug, Clone)]
pub struct DiscoverData<T> {
    pub has_more: bool,
    pub items: Vec<T>,
}

/// A playlist from the discover index.
#[derive(Debug, Clone)]
pub struct DiscoverPlaylist {
    pub id: u64,
    pub name: String,
    pub owner: PlaylistOwner,
    pub image: DiscoverPlaylistImage,
    pub description: Option<String>,
    pub duration: u32,
    pub tracks_count: u32,
    pub genres: Option<Vec<PlaylistGenre>>,
    pub tags: Option<Vec<PlaylistTag>>,
}

/// The image of a discover playlist.
#[derive(Debug, Clone)]
pub struct DiscoverPlaylistImage {
    pub rectangle: Option<String>,
    pub covers: Option<Vec<String>>,
}

/// A playlist tag, used for filtering.
#[derive(Debug, Clone)]
pub struct PlaylistTag {
    pub id: u64,
    pub slug: String,
    pub name: String,
}

/// A playlist tag as the tag listing returns it.
#[derive(Debug, Clone)]
pub struct RawPlaylistTag {
    pub slug: String,
    pub name_json: String,
    pub position: Option<String>,
    pub is_discover: Option<String>,
    pub featured_tag_id: Option<String>,
}

/// Response listing the playlist tags.
#[derive(Debug, Clone)]
pub struct PlaylistTagsResponse {
    pub tags: Vec<RawPlaylistTag>,
}

/// Response listing discover playlists.
#[derive(Debug, Clone)]
pub struct DiscoverPlaylistsResponse {
    pub has_more: bool,
    pub items: Vec<DiscoverPlaylist>,
}

/// The image of a discover album.
#[derive(Debug, Clone)]
pub struct DiscoverAlbumImage {
    pub small: Option<String>,
    pub thumbnail: Option<String>,
    pub large: Option<String>,
}

/// An artist of a discover album.
#[derive(Debug, Clone)]
pub struct DiscoverArtist {
    pub id: u64,
    pub name: String,
    pub roles: Option<Vec<String>>,
}

/// The dates of a discover album.
#[derive(Debug, Clone)]
pub struct DiscoverAlbumDates {
    pub download: Option<String>,
    pub original: Option<String>,
    pub stream: Option<String>,
}

/// An artist's display name on the artist page.
#[derive(Debug, Clone)]
pub struct PageArtistName {
    pub display: String,
}

/// The images of an artist page.
#[derive(Debug, Clone)]
pub struct PageArtistImages {
    pub portrait: Option<PageArtistPortrait>,
}

/// An artist portrait reference.
#[derive(Debug, Clone)]
pub struct PageArtistPortrait {
    pub hash: String,
    pub format: String,
}

/// Similar artists on an artist page.
#[derive(Debug, Clone)]
pub struct PageArtistSimilar {
    pub has_more: bool,
    pub items: Vec<PageArtistSimilarItem>,
}

/// One similar artist.
#[derive(Debug, Clone)]
pub struct PageArtistSimilarItem {
    pub id: u64,
    pub name: PageArtistName,
    pub images: Option<PageArtistImages>,
}

/// The main artist of a release.
#[derive(Debug, Clone)]
pub struct PageArtistReleaseArtist {
    pub id: u64,
    pub name: PageArtistName,
}

/// A contributor to a release, with roles.
#[derive(Debug, Clone)]
pub struct PageArtistReleaseContributor {
    pub id: u64,
    pub name: String,
    pub roles: Option<Vec<String>>,
}

/// The rights of a release or track.
#[derive(Debug, Clone)]
pub struct PageArtistRights {
    pub streamable: Option<bool>,
    pub hires_streamable: Option<bool>,
    pub hires_purchasable: Option<bool>,
    pub purchasable: Option<bool>,
    pub downloadable: Option<bool>,
    pub previewable: Option<bool>,
    pub sampleable: Option<bool>,
}

/// An award on an artist-page release.
#[derive(Debug, Clone)]
pub struct PageArtistAward {
    pub id: u64,
    pub name: String,
    pub awarded_at: Option<String>,
}

/// An award attached to an album; the id is kept as text.
#[derive(Debug, Clone)]
pub struct AlbumAward {
    pub id: Option<String>,
    pub name: String,
    pub awarded_at: Option<String>,
}

/// Disc and track number of a track.
#[derive(Debug, Clone)]
pub struct PageArtistPhysicalSupport {
    pub media_number: Option<u32>,
    pub track_number: Option<u32>,
}

/// The album of a track on an artist page.
#[derive(Debug, Clone)]
pub struct PageArtistTrackAlbum {
    pub id: String,
    pub title: String,
    pub version: Option<String>,
    pub image: Option<ImageSet>,
    pub label: Option<Label>,
    pub genre: Option<Genre>,
}

/// Playlists on an artist page.
#[derive(Debug, Clone)]
pub struct PageArtistPlaylists {
    pub has_more: bool,
    pub items: Vec<PageArtistPlaylist>,
}

/// One playlist on an artist page.
#[derive(Debug, Clone)]
pub struct PageArtistPlaylist {
    pub id: u64,
    pub title: Option<String>,
    pub description: Option<String>,
    pub owner: Option<PageArtistPlaylistOwner>,
    pub tracks_count: Option<u32>,
    pub duration: Option<u32>,
    pub images: Option<PageArtistPlaylistImages>,
}

/// The owner of an artist-page playlist.
#[derive(Debug, Clone)]
pub struct PageArtistPlaylistOwner {
    pub id: u64,
    pub name: Option<String>,
}

/// The images of an artist-page playlist.
#[derive(Debug, Clone)]
pub struct PageArtistPlaylistImages {
    pub rectangle: Option<Vec<String>>,
}

/// The restriction codes that prevent playback of a stream.
pub open spec fn is_blocking_restriction(code: Seq<char>) -> bool {
    code == "FormatRestrictedByFormatAvailability"@ || code == "SampleRestrictedByRightHolders"@
}

/// Whether any of a stream's restrictions prevents playback (the format is
/// not available, or the rights holders restrict it to a sample).
pub fn has_blocking_restriction(restrictions: &Vec<StreamRestriction>) -> (r: bool)
    ensures
        r == exists|i: int| 0 <= i < restrictions@.len() && is_blocking_restriction(#[trigger] restrictions@[i].code@),
{
    let mut i: usize = 0;
    while i < restrictions.len()
        invariant
            0 <= i <= restrictions@.len(),
            forall|k: int| 0 <= k < i ==> !is_blocking_restriction(#[trigger] restrictions@[k].code@),
        decreases restrictions@.len() - i,
    {
        let code = restrictions[i].code.as_str();
        if str_eq(code, "FormatRestrictedByFormatAvailability") || str_eq(code, "SampleRestrictedByRightHolders") {
            return true;
        }
        i += 1;
    }
    false
}

} // verus!
