//! The parts of a message that is more than text. They say what a part is and
//! where its data are, and nothing of any vendor's wire format.

use vstd::prelude::*;
use vstd::string::*;

use crate::json::{Number, NumberView};

verus! {

/// Where the data of a medium are.
#[derive(Debug, PartialEq, Eq)]
pub enum MediaSource {
    /// At a public address.
    Url { url: String },
    /// Here, in base 64, with their MIME type.
    Base64 { mime: String, data: String },
    /// In a file that the vendor holds.
    FileId { file_id: String },
}

pub enum MediaSourceView {
    Url(Seq<char>),
    Base64(Seq<char>, Seq<char>),
    FileId(Seq<char>),
}

impl DeepView for MediaSource {
    type V = MediaSourceView;

    open spec fn deep_view(&self) -> MediaSourceView {
        match *self {
            MediaSource::Url { url } => MediaSourceView::Url(url@),
            MediaSource::Base64 { mime, data } => MediaSourceView::Base64(mime@, data@),
            MediaSource::FileId { file_id } => MediaSourceView::FileId(file_id@),
        }
    }
}

impl Clone for MediaSource {
    fn clone(&self) -> (r: Self)
        ensures
            r.deep_view() == self.deep_view(),
    {
        match self {
            MediaSource::Url { url } => MediaSource::Url { url: url.clone() },
            MediaSource::Base64 { mime, data } => MediaSource::Base64 {
                mime: mime.clone(),
                data: data.clone(),
            },
            MediaSource::FileId { file_id } => MediaSource::FileId { file_id: file_id.clone() },
        }
    }
}

/// The resolution at which the frames of a video are read.
#[derive(Debug, Clone, Copy, PartialEq, Eq, Structural)]
pub enum MediaResolution {
    Default,
    Max,
}

/// How closely a picture is looked at.
#[derive(Debug, Clone, Copy, PartialEq, Eq, Structural)]
pub enum ImageDetail {
    Low,
    High,
    Original,
    Auto,
}

/// How a video is read. The frames per second are a number in JSON.
#[derive(Debug, PartialEq, Eq)]
pub struct VideoParams {
    pub fps: Option<Number>,
    pub media_resolution: Option<MediaResolution>,
}

pub struct VideoParamsView {
    pub fps: Option<NumberView>,
    pub media_resolution: Option<MediaResolution>,
}

impl DeepView for VideoParams {
    type V = VideoParamsView;

    open spec fn deep_view(&self) -> VideoParamsView {
        VideoParamsView {
            fps: self.fps.deep_view(),
            media_resolution: self.media_resolution,
        }
    }
}

impl Clone for VideoParams {
    fn clone(&self) -> (r: Self)
        ensures
            r.deep_view() == self.deep_view(),
    {
        VideoParams {
            fps: match &self.fps {
                Some(n) => Some(n.clone()),
                None => None,
            },
            media_resolution: self.media_resolution,
        }
    }
}

impl VideoParams {
    /// Nothing asked for: the vendor's own defaults.
    pub fn default_() -> (r: VideoParams)
        ensures
            r.deep_view() == (VideoParamsView { fps: None, media_resolution: None }),
    {
        VideoParams { fps: None, media_resolution: None }
    }
}

/// One part of a message.
#[derive(Debug, PartialEq, Eq)]
pub enum ContentPart {
    Text { text: String },
    Image { source: MediaSource, detail: Option<ImageDetail> },
    Audio { source: MediaSource },
    Video { source: MediaSource, params: VideoParams },
}

pub enum ContentPartView {
    Text(Seq<char>),
    Image(MediaSourceView, Option<ImageDetail>),
    Audio(MediaSourceView),
    Video(MediaSourceView, VideoParamsView),
}

impl DeepView for ContentPart {
    type V = ContentPartView;

    open spec fn deep_view(&self) -> ContentPartView {
        match *self {
            ContentPart::Text { text } => ContentPartView::Text(text@),
            ContentPart::Image { source, detail } => ContentPartView::Image(
                source.deep_view(),
                detail,
            ),
            ContentPart::Audio { source } => ContentPartView::Audio(source.deep_view()),
            ContentPart::Video { source, params } => ContentPartView::Video(
                source.deep_view(),
                params.deep_view(),
            ),
        }
    }
}

impl Clone for ContentPart {
    fn clone(&self) -> (r: Self)
        ensures
            r.deep_view() == self.deep_view(),
    {
        match self {
            ContentPart::Text { text } => ContentPart::Text { text: text.clone() },
            ContentPart::Image { source, detail } => ContentPart::Image {
                source: source.clone(),
                detail: *detail,
            },
            ContentPart::Audio { source } => ContentPart::Audio { source: source.clone() },
            ContentPart::Video { source, params } => ContentPart::Video {
                source: source.clone(),
                params: params.clone(),
            },
        }
    }
}

impl ContentPart {
    pub fn text(s: &str) -> (r: ContentPart)
        ensures
            r.deep_view() == ContentPartView::Text(s@),
    {
        ContentPart::Text { text: s.to_owned() }
    }

    /// A picture, looked at as closely as the vendor sees fit.
    pub fn image(src: MediaSource) -> (r: ContentPart)
        ensures
            r.deep_view() == ContentPartView::Image(src.deep_view(), None),
    {
        ContentPart::Image { source: src, detail: None }
    }

    pub fn image_with_detail(src: MediaSource, detail: ImageDetail) -> (r: ContentPart)
        ensures
            r.deep_view() == ContentPartView::Image(src.deep_view(), Some(detail)),
    {
        ContentPart::Image { source: src, detail: Some(detail) }
    }

    pub fn audio(src: MediaSource) -> (r: ContentPart)
        ensures
            r.deep_view() == ContentPartView::Audio(src.deep_view()),
    {
        ContentPart::Audio { source: src }
    }

    pub fn video(src: MediaSource, params: VideoParams) -> (r: ContentPart)
        ensures
            r.deep_view() == ContentPartView::Video(src.deep_view(), params.deep_view()),
    {
        ContentPart::Video { source: src, params }
    }
}

} // verus!
