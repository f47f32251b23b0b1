//! Metadata by convention: a target that lies at
//! `<artist>/<album>/<number> <title>.<extension>` carries its tags in its
//! path.

use crate::errors::{required, text_or_error, ErrorView, TaggingFailure, WavToFlacError};
use crate::paths::{
    extension, file_stem, parent, path_extension, path_file_stem, path_parent,
};
use crate::text::{
    find_char, first_index, lemma_first_index, parse_u16, parse_u16_text, trim, trimmed,
};
use vstd::prelude::*;
use vstd::string::*;

verus! {

/// The tags that a target's path implies.
#[derive(Debug, Clone, PartialEq, Eq)]
pub struct DerivedTags {
    pub artist: String,
    pub album: String,
    pub track_number: u16,
    pub title: String,
}

/// Tags as contracts see them.
pub struct TagsView {
    pub artist: Seq<char>,
    pub album: Seq<char>,
    pub track_number: u16,
    pub title: Seq<char>,
}

impl View for DerivedTags {
    type V = TagsView;

    open spec fn view(&self) -> TagsView {
        TagsView {
            artist: self.artist@,
            album: self.album@,
            track_number: self.track_number,
            title: self.title@,
        }
    }
}

/// The image types that can be embedded as album art.
#[derive(Debug, Copy, Clone, PartialEq, Eq, Structural)]
pub enum MimeType {
    Jpeg,
    Bmp,
    Gif,
    Png,
    Tiff,
}

/// The directory that `path` lies in.
pub fn parent_directory(path: &str) -> (directory: Result<String, WavToFlacError>)
    ensures
        text_or_error(directory) == required(
            path_parent(path@),
            TaggingFailure::MissingParent,
            path@,
        ),
{
    match parent(path) {
        Some(directory) => Ok(directory),
        None => Err(
            WavToFlacError::TaggingError(TaggingFailure::MissingParent, String::from_str(path)),
        ),
    }
}

/// The name of the file or directory at `path`, without its extension.
pub fn extract_file_name(path: &str) -> (name: Result<String, WavToFlacError>)
    ensures
        text_or_error(name) == required(
            path_file_stem(path@),
            TaggingFailure::MissingFileName,
            path@,
        ),
{
    match file_stem(path) {
        Some(name) => Ok(name),
        None => Err(
            WavToFlacError::TaggingError(TaggingFailure::MissingFileName, String::from_str(path)),
        ),
    }
}

/// The track number and the title that a file stem holds: the number
/// before the first space, the title after it, trimmed. `path` is the path
/// that an error names.
pub open spec fn track_info(stem: Seq<char>, path: Seq<char>) -> Result<
    (u16, Seq<char>),
    ErrorView,
> {
    let space = first_index(stem, ' ');
    if space == stem.len() {
        Err(ErrorView::TaggingError(TaggingFailure::MissingSpace, path))
    } else {
        match parse_u16(stem.take(space)) {
            None => Err(ErrorView::TaggingError(TaggingFailure::InvalidTrackNumber, path)),
            Some(number) => Ok((number, trimmed(stem.skip(space)))),
        }
    }
}

/// A track number with a title, or an error, as contracts see it.
pub open spec fn track_or_error(result: Result<(u16, String), WavToFlacError>) -> Result<
    (u16, Seq<char>),
    ErrorView,
> {
    match result {
        Ok((number, title)) => Ok((number, title@)),
        Err(error) => Err(error@),
    }
}

/// Splits a file stem into track number and title.
pub fn split_track_info(stem: &str, path: &str) -> (info: Result<(u16, String), WavToFlacError>)
    ensures
        track_or_error(info) == track_info(stem@, path@),
{
    proof {
        lemma_first_index(stem@, ' ');
    }
    match find_char(stem, ' ') {
        None => Err(
            WavToFlacError::TaggingError(TaggingFailure::MissingSpace, String::from_str(path)),
        ),
        Some(space) => {
            let length = stem.unicode_len();
            let number = stem.substring_char(0, space);
            let rest = stem.substring_char(space, length);
            assert(number@ =~= stem@.take(space as int));
            assert(rest@ =~= stem@.skip(space as int));
            match parse_u16_text(number) {
                None => Err(
                    WavToFlacError::TaggingError(
                        TaggingFailure::InvalidTrackNumber,
                        String::from_str(path),
                    ),
                ),
                Some(track_number) => Ok((track_number, trim(rest))),
            }
        },
    }
}

/// What the file name at `path` says of the track.
pub open spec fn track_info_of(path: Seq<char>) -> Result<(u16, Seq<char>), ErrorView> {
    match path_file_stem(path) {
        None => Err(ErrorView::TaggingError(TaggingFailure::MissingFileName, path)),
        Some(stem) => track_info(stem, path),
    }
}

/// Reads track number and title off the file name at `path`.
pub fn extract_track_info(path: &str) -> (info: Result<(u16, String), WavToFlacError>)
    ensures
        track_or_error(info) == track_info_of(path@),
{
    match extract_file_name(path) {
        Err(error) => Err(error),
        Ok(stem) => split_track_info(stem.as_str(), path),
    }
}

/// The tags that `path` implies: the album is the name of its directory,
/// the artist the name of the directory above, number and title come from
/// its own name. The first of these that cannot be had is the error.
pub open spec fn tags_of(path: Seq<char>) -> Result<TagsView, ErrorView> {
    match path_parent(path) {
        None => Err(ErrorView::TaggingError(TaggingFailure::MissingParent, path)),
        Some(album_directory) => match path_parent(album_directory) {
            None => Err(ErrorView::TaggingError(TaggingFailure::MissingParent, album_directory)),
            Some(artist_directory) => match path_file_stem(album_directory) {
                None => Err(
                    ErrorView::TaggingError(TaggingFailure::MissingFileName, album_directory),
                ),
                Some(album) => match path_file_stem(artist_directory) {
                    None => Err(
                        ErrorView::TaggingError(
                            TaggingFailure::MissingFileName,
                            artist_directory,
                        ),
                    ),
                    Some(artist) => match track_info_of(path) {
                        Err(error) => Err(error),
                        Ok((track_number, title)) => Ok(
                            TagsView { artist, album, track_number, title },
                        ),
                    },
                },
            },
        },
    }
}

/// Tags or an error, as contracts see it.
pub open spec fn tags_or_error(result: Result<DerivedTags, WavToFlacError>) -> Result<
    TagsView,
    ErrorView,
> {
    match result {
        Ok(tags) => Ok(tags@),
        Err(error) => Err(error@),
    }
}

/// Derives artist, album, track number and title from a target's path.
pub fn derive_tags(target_path: &str) -> (tags: Result<DerivedTags, WavToFlacError>)
    ensures
        tags_or_error(tags) == tags_of(target_path@),
{
    let album_directory = match parent_directory(target_path) {
        Ok(directory) => directory,
        Err(error) => {
            return Err(error);
        },
    };
    let artist_directory = match parent_directory(album_directory.as_str()) {
        Ok(directory) => directory,
        Err(error) => {
            return Err(error);
        },
    };
    let album = match extract_file_name(album_directory.as_str()) {
        Ok(name) => name,
        Err(error) => {
            return Err(error);
        },
    };
    let artist = match extract_file_name(artist_directory.as_str()) {
        Ok(name) => name,
        Err(error) => {
            return Err(error);
        },
    };
    match extract_track_info(target_path) {
        Err(error) => Err(error),
        Ok((track_number, title)) => Ok(DerivedTags { artist, album, track_number, title }),
    }
}

/// The image type that an extension stands for, among those that can be
/// embedded.
pub open spec fn mime_type_of(extension: Seq<char>) -> Option<MimeType> {
    if extension == "jpg"@ {
        Some(MimeType::Jpeg)
    } else if extension == "bmp"@ {
        Some(MimeType::Bmp)
    } else if extension == "gif"@ {
        Some(MimeType::Gif)
    } else if extension == "png"@ {
        Some(MimeType::Png)
    } else if extension == "tiff"@ {
        Some(MimeType::Tiff)
    } else {
        None
    }
}

/// Looks an extension up among the image types that can be embedded.
pub fn mime_type_for(extension: &str) -> (mime_type: Option<MimeType>)
    ensures
        mime_type == mime_type_of(extension@),
{
    let extension = String::from_str(extension);
    if extension == String::from_str("jpg") {
        Some(MimeType::Jpeg)
    } else if extension == String::from_str("bmp") {
        Some(MimeType::Bmp)
    } else if extension == String::from_str("gif") {
        Some(MimeType::Gif)
    } else if extension == String::from_str("png") {
        Some(MimeType::Png)
    } else if extension == String::from_str("tiff") {
        Some(MimeType::Tiff)
    } else {
        None
    }
}

/// The image type of the cover at `path`, by its extension; the error where
/// it has none, or one that cannot be embedded.
pub open spec fn cover_type_of(path: Seq<char>) -> Result<MimeType, ErrorView> {
    match path_extension(path) {
        None => Err(ErrorView::TaggingError(TaggingFailure::MissingExtension, path)),
        Some(extension) => match mime_type_of(extension) {
            Some(mime_type) => Ok(mime_type),
            None => Err(ErrorView::TaggingError(TaggingFailure::UnsupportedExtension, extension)),
        },
    }
}

/// An image type or an error, as contracts see it.
pub open spec fn type_or_error(result: Result<MimeType, WavToFlacError>) -> Result<
    MimeType,
    ErrorView,
> {
    match result {
        Ok(mime_type) => Ok(mime_type),
        Err(error) => Err(error@),
    }
}

/// Tells the image type of a cover from the extension of its path.
pub fn cover_mime_type(cover_path: &str) -> (mime_type: Result<MimeType, WavToFlacError>)
    ensures
        type_or_error(mime_type) == cover_type_of(cover_path@),
{
    match extension(cover_path) {
        None => Err(
            WavToFlacError::TaggingError(
                TaggingFailure::MissingExtension,
                String::from_str(cover_path),
            ),
        ),
        Some(extension) => match mime_type_for(extension.as_str()) {
            Some(mime_type) => Ok(mime_type),
            None => Err(
                WavToFlacError::TaggingError(TaggingFailure::UnsupportedExtension, extension),
            ),
        },
    }
}

/// What is done about album art when a file is tagged.
#[derive(Debug, Clone, PartialEq, Eq)]
pub enum CoverChoice {
    /// There is no cover to embed.
    Absent,
    /// The image at `path` is embedded, as one of type `mime_type`.
    Embed { path: String, mime_type: MimeType },
    /// There is a cover, and it cannot be embedded: the tags are written
    /// without it, and the error is reported.
    Refused(WavToFlacError),
}

/// A choice about album art as contracts see it.
pub enum CoverChoiceView {
    Absent,
    Embed { path: Seq<char>, mime_type: MimeType },
    Refused(ErrorView),
}

impl View for CoverChoice {
    type V = CoverChoiceView;

    open spec fn view(&self) -> CoverChoiceView {
        match self {
            CoverChoice::Absent => CoverChoiceView::Absent,
            CoverChoice::Embed { path, mime_type } => CoverChoiceView::Embed {
                path: path@,
                mime_type: *mime_type,
            },
            CoverChoice::Refused(error) => CoverChoiceView::Refused(error@),
        }
    }
}

/// What is to be written into a converted file.
#[derive(Debug, Clone, PartialEq, Eq)]
pub struct TagRequest {
    pub tags: DerivedTags,
    pub cover: CoverChoice,
}

/// A tag request as contracts see it.
pub struct TagRequestView {
    pub tags: TagsView,
    pub cover: CoverChoiceView,
}

impl View for TagRequest {
    type V = TagRequestView;

    open spec fn view(&self) -> TagRequestView {
        TagRequestView { tags: self.tags@, cover: self.cover@ }
    }
}

/// What is done about the cover that may lie at `cover_path`.
pub open spec fn cover_choice_of(cover_path: Option<Seq<char>>) -> CoverChoiceView {
    match cover_path {
        None => CoverChoiceView::Absent,
        Some(path) => match cover_type_of(path) {
            Ok(mime_type) => CoverChoiceView::Embed { path, mime_type },
            Err(error) => CoverChoiceView::Refused(error),
        },
    }
}

/// What tagging the file at `target` writes, given the cover that was found
/// beside it. Without tags nothing is written, whatever the cover.
pub open spec fn tag_request_of(target: Seq<char>, cover_path: Option<Seq<char>>) -> Result<
    TagRequestView,
    ErrorView,
> {
    match tags_of(target) {
        Err(error) => Err(error),
        Ok(tags) => Ok(TagRequestView { tags, cover: cover_choice_of(cover_path) }),
    }
}

/// A tag request or an error, as contracts see it.
pub open spec fn request_or_error(result: Result<TagRequest, WavToFlacError>) -> Result<
    TagRequestView,
    ErrorView,
> {
    match result {
        Ok(request) => Ok(request@),
        Err(error) => Err(error@),
    }
}

/// Decides what is done about a cover.
pub fn choose_cover(cover_path: Option<String>) -> (choice: CoverChoice)
    ensures
        choice@ == cover_choice_of(crate::paths::text_of(cover_path)),
{
    match cover_path {
        None => CoverChoice::Absent,
        Some(path) => match cover_mime_type(path.as_str()) {
            Ok(mime_type) => CoverChoice::Embed { path, mime_type },
            Err(error) => CoverChoice::Refused(error),
        },
    }
}

/// Prepares the tagging of a converted file: the tags that its path
/// implies, and the cover to embed where one was found beside it.
pub fn tag_file(target_path: &str, cover_path: Option<String>) -> (request: Result<
    TagRequest,
    WavToFlacError,
>)
    ensures
        request_or_error(request) == tag_request_of(
            target_path@,
            crate::paths::text_of(cover_path),
        ),
{
    match derive_tags(target_path) {
        Err(error) => Err(error),
        Ok(tags) => Ok(TagRequest { tags, cover: choose_cover(cover_path) }),
    }
}

} // verus!
