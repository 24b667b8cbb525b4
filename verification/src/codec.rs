//! The JSON form in which messages are kept and passed on, and back.
//!
//! A field that is absent and one that is null say the same; a field of another
//! type than expected makes the whole unreadable.

use vstd::prelude::*;
use vstd::string::*;

use crate::json::{find, Json, JsonView, Number, NumberView};
use crate::provider::content::{
    ContentPart, ContentPartView, ImageDetail, MediaResolution, MediaSource, MediaSourceView,
    VideoParams, VideoParamsView,
};
use crate::provider::openai_compat::{parse_role, role_name, role_of, role_str};
use crate::provider::{
    Message, MessageContent, MessageContentView, MessageView, TokenUsage, ToolCall,
    ToolCallFunction, ToolCallView,
};
use crate::text::same;

verus! {

broadcast use vstd::string::group_string_axioms;

// ---------------------------------------------------------------------------
// Fields

/// An object with a field that may be absent.
pub open spec fn with_opt(j: JsonView, key: Seq<char>, value: Option<JsonView>) -> JsonView {
    match value {
        Some(v) => j.plus(key, v),
        None => j,
    }
}

/// An object with a field that may be absent.
pub fn add_opt(j: Json, key: &str, value: Option<Json>) -> (r: Json)
    ensures
        r.deep_view() == with_opt(j.deep_view(), key@, value.deep_view()),
{
    match value {
        Some(v) => j.plus(key, v),
        None => j,
    }
}

/// What a field behind others gives.
pub proof fn lemma_find_push(
    fields: Seq<(Seq<char>, JsonView)>,
    key: Seq<char>,
    value: JsonView,
    other: Seq<char>,
)
    ensures
        find(fields.push((key, value)), other) == (match find(fields, other) {
            Some(v) => Some(v),
            None => if other == key {
                Some(value)
            } else {
                None
            },
        }),
    decreases fields.len(),
{
    let after = fields.push((key, value));
    if fields.len() == 0 {
        assert(find(after.drop_first(), other) is None);
    } else {
        lemma_find_push(fields.drop_first(), key, value, other);
        assert(after.drop_first() =~= fields.drop_first().push((key, value)));
    }
}

/// Looking a field up in an object that got another one.
pub broadcast proof fn lemma_get_plus(
    j: JsonView,
    key: Seq<char>,
    value: JsonView,
    other: Seq<char>,
)
    requires
        j is Object,
    ensures
        #[trigger] j.plus(key, value).get(other) == (match j.get(other) {
            Some(v) => Some(v),
            None => if other == key {
                Some(value)
            } else {
                None
            },
        }),
{
    lemma_find_push(j->Object_0, key, value, other);
}

/// An object without fields.
pub open spec fn empty_object() -> JsonView {
    JsonView::Object(Seq::empty())
}

/// A text as a value, where there is one.
pub open spec fn opt_text(s: Option<Seq<char>>) -> Option<JsonView> {
    match s {
        Some(t) => Some(JsonView::Text(t)),
        None => None,
    }
}

fn text_opt(s: &Option<String>) -> (r: Option<Json>)
    ensures
        r.deep_view() == opt_text(s.deep_view()),
{
    match s {
        Some(t) => Some(Json::text(t.as_str())),
        None => None,
    }
}

/// A count as a value.
pub open spec fn count_json(n: usize) -> JsonView {
    JsonView::Number(NumberView::Unsigned(n as u64))
}

/// A count as a value, where there is one.
pub open spec fn opt_count(n: Option<usize>) -> Option<JsonView> {
    match n {
        Some(x) => Some(count_json(x)),
        None => None,
    }
}

fn count_opt(n: Option<usize>) -> (r: Option<Json>)
    ensures
        r.deep_view() == opt_count(n),
{
    match n {
        Some(x) => Some(Json::unsigned(x as u64)),
        None => None,
    }
}

/// The text of a field that may be absent; nothing where the field is no text.
pub open spec fn read_opt_text(j: JsonView, key: Seq<char>) -> Option<Option<Seq<char>>> {
    match j.get(key) {
        None => Some(None),
        Some(JsonView::Null) => Some(None),
        Some(JsonView::Text(s)) => Some(Some(s)),
        Some(_) => None,
    }
}

pub fn get_opt_text(j: &Json, key: &str) -> (r: Option<Option<String>>)
    ensures
        r.deep_view() == read_opt_text(j.deep_view(), key@),
{
    match j.get(key) {
        None => Some(None),
        Some(Json::Null) => Some(None),
        Some(Json::Text(s)) => Some(Some(s.clone())),
        Some(_) => None,
    }
}

/// The count of a value that is one.
pub open spec fn as_count(v: JsonView) -> Option<usize> {
    match v {
        JsonView::Number(NumberView::Unsigned(n)) => if n <= usize::MAX {
            Some(n as usize)
        } else {
            None
        },
        _ => None,
    }
}

/// The count of a field that may be absent; nothing where the field is no
/// count.
pub open spec fn read_opt_count(j: JsonView, key: Seq<char>) -> Option<Option<usize>> {
    match j.get(key) {
        None => Some(None),
        Some(JsonView::Null) => Some(None),
        Some(v) => match as_count(v) {
            Some(n) => Some(Some(n)),
            None => None,
        },
    }
}

pub fn get_opt_count(j: &Json, key: &str) -> (r: Option<Option<usize>>)
    ensures
        r == read_opt_count(j.deep_view(), key@),
{
    match j.get(key) {
        None => Some(None),
        Some(Json::Null) => Some(None),
        Some(Json::Number(Number::Unsigned(n))) => if *n <= usize::MAX as u64 {
            Some(Some(*n as usize))
        } else {
            None
        },
        Some(_) => None,
    }
}

/// The count of a field that has to be there.
pub open spec fn read_count(j: JsonView, key: Seq<char>) -> Option<usize> {
    match j.get(key) {
        Some(v) => as_count(v),
        None => None,
    }
}

pub fn get_count(j: &Json, key: &str) -> (r: Option<usize>)
    ensures
        r == read_count(j.deep_view(), key@),
{
    match j.get(key) {
        Some(Json::Number(Number::Unsigned(n))) => if *n <= usize::MAX as u64 {
            Some(*n as usize)
        } else {
            None
        },
        _ => None,
    }
}

// ---------------------------------------------------------------------------
// Media

/// The form of a media source.
pub open spec fn source_json(s: MediaSourceView) -> JsonView {
    match s {
        MediaSourceView::Url(url) => empty_object().plus("source"@, JsonView::Text("url"@)).plus(
            "url"@,
            JsonView::Text(url),
        ),
        MediaSourceView::Base64(mime, data) => empty_object().plus(
            "data"@,
            JsonView::Text(data),
        ).plus("mime"@, JsonView::Text(mime)).plus("source"@, JsonView::Text("base64"@)),
        MediaSourceView::FileId(id) => empty_object().plus("file_id"@, JsonView::Text(id)).plus(
            "source"@,
            JsonView::Text("file_id"@),
        ),
    }
}

/// The media source of a form.
pub open spec fn read_source(j: JsonView) -> Option<MediaSourceView> {
    match j.str_at("source"@) {
        Some(kind) => if kind == "url"@ {
            match j.str_at("url"@) {
                Some(url) => Some(MediaSourceView::Url(url)),
                None => None,
            }
        } else if kind == "base64"@ {
            match (j.str_at("mime"@), j.str_at("data"@)) {
                (Some(mime), Some(data)) => Some(MediaSourceView::Base64(mime, data)),
                _ => None,
            }
        } else if kind == "file_id"@ {
            match j.str_at("file_id"@) {
                Some(id) => Some(MediaSourceView::FileId(id)),
                None => None,
            }
        } else {
            None
        },
        None => None,
    }
}

pub fn source_to_json(s: &MediaSource) -> (r: Json)
    ensures
        r.deep_view() == source_json(s.deep_view()),
{
    match s {
        MediaSource::Url { url } => Json::object().plus("source", Json::text("url")).plus(
            "url",
            Json::text(url.as_str()),
        ),
        MediaSource::Base64 { mime, data } => Json::object().plus(
            "data",
            Json::text(data.as_str()),
        ).plus("mime", Json::text(mime.as_str())).plus("source", Json::text("base64")),
        MediaSource::FileId { file_id } => Json::object().plus(
            "file_id",
            Json::text(file_id.as_str()),
        ).plus("source", Json::text("file_id")),
    }
}

pub fn source_from_json(j: &Json) -> (r: Option<MediaSource>)
    ensures
        r.deep_view() == read_source(j.deep_view()),
{
    let kind = match j.str_at("source") {
        Some(k) => k,
        None => {
            return None;
        },
    };
    if same(kind.as_str(), "url") {
        match j.str_at("url") {
            Some(url) => Some(MediaSource::Url { url }),
            None => None,
        }
    } else if same(kind.as_str(), "base64") {
        match (j.str_at("mime"), j.str_at("data")) {
            (Some(mime), Some(data)) => Some(MediaSource::Base64 { mime, data }),
            _ => None,
        }
    } else if same(kind.as_str(), "file_id") {
        match j.str_at("file_id") {
            Some(file_id) => Some(MediaSource::FileId { file_id }),
            None => None,
        }
    } else {
        None
    }
}

/// A media source is read back as it was written.
pub proof fn law_source(s: MediaSourceView)
    ensures
        read_source(source_json(s)) == Some(s),
{
    broadcast use lemma_get_plus;

    reveal_strlit("source");
    reveal_strlit("url");
    reveal_strlit("base64");
    reveal_strlit("file_id");
    reveal_strlit("mime");
    reveal_strlit("data");
    assert("source"@.len() == 6 && "url"@.len() == 3 && "base64"@.len() == 6);
    assert("base64"@[0] != "source"@[0]);
    assert("mime"@[0] != "data"@[0]);
    assert(empty_object().get("source"@) is None);
    assert(empty_object().get("url"@) is None);
    assert(empty_object().get("mime"@) is None);
    assert(empty_object().get("data"@) is None);
    assert(empty_object().get("file_id"@) is None);
}

/// The name of a detail.
pub open spec fn detail_name(d: ImageDetail) -> Seq<char> {
    match d {
        ImageDetail::Low => "low"@,
        ImageDetail::High => "high"@,
        ImageDetail::Original => "original"@,
        ImageDetail::Auto => "auto"@,
    }
}

/// The detail of a name.
pub open spec fn read_detail(s: Seq<char>) -> Option<ImageDetail> {
    if s == "low"@ {
        Some(ImageDetail::Low)
    } else if s == "high"@ {
        Some(ImageDetail::High)
    } else if s == "original"@ {
        Some(ImageDetail::Original)
    } else if s == "auto"@ {
        Some(ImageDetail::Auto)
    } else {
        None
    }
}

fn detail_str(d: ImageDetail) -> (r: &'static str)
    ensures
        r@ == detail_name(d),
{
    match d {
        ImageDetail::Low => "low",
        ImageDetail::High => "high",
        ImageDetail::Original => "original",
        ImageDetail::Auto => "auto",
    }
}

fn detail_of(s: &str) -> (r: Option<ImageDetail>)
    ensures
        r == read_detail(s@),
{
    if same(s, "low") {
        Some(ImageDetail::Low)
    } else if same(s, "high") {
        Some(ImageDetail::High)
    } else if same(s, "original") {
        Some(ImageDetail::Original)
    } else if same(s, "auto") {
        Some(ImageDetail::Auto)
    } else {
        None
    }
}

/// A detail is read back as it was written.
pub proof fn law_detail(d: ImageDetail)
    ensures
        read_detail(detail_name(d)) == Some(d),
{
    reveal_strlit("low");
    reveal_strlit("high");
    reveal_strlit("original");
    reveal_strlit("auto");
    assert("high"@[0] != "auto"@[0]);
    assert("low"@.len() == 3 && "high"@.len() == 4 && "original"@.len() == 8);
}

/// The name of a resolution.
pub open spec fn resolution_name(r: MediaResolution) -> Seq<char> {
    match r {
        MediaResolution::Default => "default"@,
        MediaResolution::Max => "max"@,
    }
}

/// The form of the parameters of a video.
pub open spec fn params_json(p: VideoParamsView) -> JsonView {
    empty_object().plus(
        "fps"@,
        match p.fps {
            Some(n) => JsonView::Number(n),
            None => JsonView::Null,
        },
    ).plus(
        "media_resolution"@,
        match p.media_resolution {
            Some(r) => JsonView::Text(resolution_name(r)),
            None => JsonView::Null,
        },
    )
}

/// The frames per second of a form.
pub open spec fn read_fps(j: JsonView) -> Option<Option<NumberView>> {
    match j.get("fps"@) {
        None => Some(None),
        Some(JsonView::Null) => Some(None),
        Some(JsonView::Number(n)) => Some(Some(n)),
        Some(_) => None,
    }
}

/// The resolution of a form.
pub open spec fn read_resolution(j: JsonView) -> Option<Option<MediaResolution>> {
    match read_opt_text(j, "media_resolution"@) {
        Some(None) => Some(None),
        Some(Some(s)) => if s == "default"@ {
            Some(Some(MediaResolution::Default))
        } else if s == "max"@ {
            Some(Some(MediaResolution::Max))
        } else {
            None
        },
        None => None,
    }
}

/// The parameters of a form.
pub open spec fn read_params(j: JsonView) -> Option<VideoParamsView> {
    match (j, read_fps(j), read_resolution(j)) {
        (JsonView::Object(_), Some(fps), Some(media_resolution)) => Some(
            VideoParamsView { fps, media_resolution },
        ),
        _ => None,
    }
}

pub fn params_to_json(p: &VideoParams) -> (r: Json)
    ensures
        r.deep_view() == params_json(p.deep_view()),
{
    let fps = match &p.fps {
        Some(n) => Json::Number(n.clone()),
        None => Json::Null,
    };
    let res = match p.media_resolution {
        Some(MediaResolution::Default) => Json::text("default"),
        Some(MediaResolution::Max) => Json::text("max"),
        None => Json::Null,
    };
    Json::object().plus("fps", fps).plus("media_resolution", res)
}

pub fn params_from_json(j: &Json) -> (r: Option<VideoParams>)
    ensures
        r.deep_view() == read_params(j.deep_view()),
{
    match j {
        Json::Object(_) => {},
        _ => {
            return None;
        },
    }
    let fps = match j.get("fps") {
        None => None,
        Some(Json::Null) => None,
        Some(Json::Number(n)) => Some(n.clone()),
        Some(_) => {
            return None;
        },
    };
    let media_resolution = match get_opt_text(j, "media_resolution") {
        Some(None) => None,
        Some(Some(s)) => if same(s.as_str(), "default") {
            Some(MediaResolution::Default)
        } else if same(s.as_str(), "max") {
            Some(MediaResolution::Max)
        } else {
            return None;
        },
        None => {
            return None;
        },
    };
    Some(VideoParams { fps, media_resolution })
}

/// Parameters are read back as they were written.
pub proof fn law_params(p: VideoParamsView)
    ensures
        read_params(params_json(p)) == Some(p),
{
    broadcast use lemma_get_plus;

    reveal_strlit("fps");
    reveal_strlit("media_resolution");
    reveal_strlit("default");
    reveal_strlit("max");
    assert("fps"@.len() == 3 && "media_resolution"@.len() == 16);
    assert("default"@.len() == 7 && "max"@.len() == 3);
    assert(empty_object().get("fps"@) is None);
    assert(empty_object().get("media_resolution"@) is None);
}

// ---------------------------------------------------------------------------
// Parts

/// The form of a part of a message.
pub open spec fn part_json(p: ContentPartView) -> JsonView {
    match p {
        ContentPartView::Text(text) => empty_object().plus("text"@, JsonView::Text(text)).plus(
            "type"@,
            JsonView::Text("text"@),
        ),
        ContentPartView::Image(source, detail) => with_opt(
            empty_object(),
            "detail"@,
            match detail {
                Some(d) => Some(JsonView::Text(detail_name(d))),
                None => None,
            },
        ).plus("source"@, source_json(source)).plus("type"@, JsonView::Text("image"@)),
        ContentPartView::Audio(source) => empty_object().plus("source"@, source_json(source)).plus(
            "type"@,
            JsonView::Text("audio"@),
        ),
        ContentPartView::Video(source, params) => empty_object().plus(
            "params"@,
            params_json(params),
        ).plus("source"@, source_json(source)).plus("type"@, JsonView::Text("video"@)),
    }
}

/// The source in a form.
pub open spec fn read_source_at(j: JsonView) -> Option<MediaSourceView> {
    match j.get("source"@) {
        Some(s) => read_source(s),
        None => None,
    }
}

/// The part of a form.
pub open spec fn read_part(j: JsonView) -> Option<ContentPartView> {
    match j.str_at("type"@) {
        Some(kind) => if kind == "text"@ {
            match j.str_at("text"@) {
                Some(text) => Some(ContentPartView::Text(text)),
                None => None,
            }
        } else if kind == "image"@ {
            match (read_source_at(j), read_opt_text(j, "detail"@)) {
                (Some(source), Some(None)) => Some(ContentPartView::Image(source, None)),
                (Some(source), Some(Some(d))) => match read_detail(d) {
                    Some(detail) => Some(ContentPartView::Image(source, Some(detail))),
                    None => None,
                },
                _ => None,
            }
        } else if kind == "audio"@ {
            match read_source_at(j) {
                Some(source) => Some(ContentPartView::Audio(source)),
                None => None,
            }
        } else if kind == "video"@ {
            match (read_source_at(j), j.get("params"@)) {
                (Some(source), None) => Some(
                    ContentPartView::Video(
                        source,
                        VideoParamsView { fps: None, media_resolution: None },
                    ),
                ),
                (Some(source), Some(p)) => match read_params(p) {
                    Some(params) => Some(ContentPartView::Video(source, params)),
                    None => None,
                },
                _ => None,
            }
        } else {
            None
        },
        None => None,
    }
}

/// The form of a part of a message.
pub fn part_to_json(p: &ContentPart) -> (r: Json)
    ensures
        r.deep_view() == part_json(p.deep_view()),
{
    match p {
        ContentPart::Text { text } => Json::object().plus("text", Json::text(text.as_str())).plus(
            "type",
            Json::text("text"),
        ),
        ContentPart::Image { source, detail } => {
            let d = match detail {
                Some(d) => Some(Json::text(detail_str(*d))),
                None => None,
            };
            add_opt(Json::object(), "detail", d).plus("source", source_to_json(source)).plus(
                "type",
                Json::text("image"),
            )
        },
        ContentPart::Audio { source } => Json::object().plus("source", source_to_json(source)).plus(
            "type",
            Json::text("audio"),
        ),
        ContentPart::Video { source, params } => Json::object().plus(
            "params",
            params_to_json(params),
        ).plus("source", source_to_json(source)).plus("type", Json::text("video")),
    }
}

fn source_at(j: &Json) -> (r: Option<MediaSource>)
    ensures
        r.deep_view() == read_source_at(j.deep_view()),
{
    match j.get("source") {
        Some(s) => source_from_json(s),
        None => None,
    }
}

/// The part of a form.
pub fn part_from_json(j: &Json) -> (r: Option<ContentPart>)
    ensures
        r.deep_view() == read_part(j.deep_view()),
{
    let kind = match j.str_at("type") {
        Some(k) => k,
        None => {
            return None;
        },
    };
    if same(kind.as_str(), "text") {
        match j.str_at("text") {
            Some(text) => Some(ContentPart::Text { text }),
            None => None,
        }
    } else if same(kind.as_str(), "image") {
        match (source_at(j), get_opt_text(j, "detail")) {
            (Some(source), Some(None)) => Some(ContentPart::Image { source, detail: None }),
            (Some(source), Some(Some(d))) => match detail_of(d.as_str()) {
                Some(detail) => Some(ContentPart::Image { source, detail: Some(detail) }),
                None => None,
            },
            _ => None,
        }
    } else if same(kind.as_str(), "audio") {
        match source_at(j) {
            Some(source) => Some(ContentPart::Audio { source }),
            None => None,
        }
    } else if same(kind.as_str(), "video") {
        let source = match source_at(j) {
            Some(s) => s,
            None => {
                return None;
            },
        };
        match j.get("params") {
            None => Some(
                ContentPart::Video { source, params: VideoParams { fps: None, media_resolution: None } },
            ),
            Some(p) => match params_from_json(p) {
                Some(params) => Some(ContentPart::Video { source, params }),
                None => None,
            },
        }
    } else {
        None
    }
}

/// A part is read back as it was written.
pub proof fn law_part(p: ContentPartView)
    ensures
        read_part(part_json(p)) == Some(p),
{
    broadcast use lemma_get_plus;

    reveal_strlit("type");
    reveal_strlit("text");
    reveal_strlit("source");
    reveal_strlit("detail");
    reveal_strlit("params");
    reveal_strlit("image");
    reveal_strlit("audio");
    reveal_strlit("video");
    assert("type"@[1] != "text"@[1]);
    assert("source"@[0] != "detail"@[0] && "source"@[0] != "params"@[0] && "detail"@[0]
        != "params"@[0]);
    assert("image"@[0] != "audio"@[0] && "image"@[0] != "video"@[0] && "audio"@[0]
        != "video"@[0]);
    assert("type"@.len() == 4 && "source"@.len() == 6 && "image"@.len() == 5);
    assert(empty_object().get("type"@) is None);
    assert(empty_object().get("text"@) is None);
    assert(empty_object().get("source"@) is None);
    assert(empty_object().get("detail"@) is None);
    assert(empty_object().get("params"@) is None);
    match p {
        ContentPartView::Text(_) => {},
        ContentPartView::Image(source, detail) => {
            law_source(source);
            if let Some(d) = detail {
                law_detail(d);
            }
        },
        ContentPartView::Audio(source) => {
            law_source(source);
        },
        ContentPartView::Video(source, params) => {
            law_source(source);
            law_params(params);
        },
    }
}

/// The forms of parts.
pub open spec fn parts_json(ps: Seq<ContentPartView>) -> Seq<JsonView> {
    ps.map_values(|p: ContentPartView| part_json(p))
}

/// The parts of forms.
pub open spec fn read_parts(js: Seq<JsonView>) -> Option<Seq<ContentPartView>>
    decreases js.len(),
{
    if js.len() == 0 {
        Some(Seq::empty())
    } else {
        match (read_parts(js.drop_last()), read_part(js.last())) {
            (Some(before), Some(p)) => Some(before.push(p)),
            _ => None,
        }
    }
}

pub fn parts_to_json(ps: &Vec<ContentPart>) -> (r: Vec<Json>)
    ensures
        r.deep_view() == parts_json(ps.deep_view()),
{
    let ghost wanted = parts_json(ps.deep_view());
    let mut out: Vec<Json> = Vec::new();
    let mut i: usize = 0;
    proof {
        assert(out.deep_view() =~= wanted.take(0));
    }
    while i < ps.len()
        invariant
            i <= ps@.len(),
            wanted == parts_json(ps.deep_view()),
            out.deep_view() == wanted.take(i as int),
        decreases ps@.len() - i,
    {
        let ghost before = out.deep_view();
        let j = part_to_json(&ps[i]);
        let ghost jv = j.deep_view();
        out.push(j);
        proof {
            assert(out.deep_view() =~= before.push(jv));
            assert(wanted.take(i + 1) =~= wanted.take(i as int).push(wanted[i as int]));
        }
        i = i + 1;
    }
    proof {
        assert(wanted.take(wanted.len() as int) =~= wanted);
    }
    out
}

/// Parts of which one cannot be read cannot be read.
proof fn lemma_read_parts_none(js: Seq<JsonView>, n: int)
    requires
        0 <= n <= js.len(),
        read_parts(js.take(n)) is None,
    ensures
        read_parts(js) is None,
    decreases js.len() - n,
{
    if n == js.len() {
        assert(js.take(n) =~= js);
    } else {
        assert(js.take(n + 1).drop_last() =~= js.take(n));
        lemma_read_parts_none(js, n + 1);
    }
}

pub fn parts_from_json(js: &Vec<Json>) -> (r: Option<Vec<ContentPart>>)
    ensures
        r.deep_view() == read_parts(js.deep_view()),
{
    let ghost all = js.deep_view();
    let mut out: Vec<ContentPart> = Vec::new();
    let mut i: usize = 0;
    proof {
        assert(out.deep_view() =~= Seq::empty());
        assert(all.take(0) =~= Seq::empty());
    }
    while i < js.len()
        invariant
            i <= js@.len(),
            all == js.deep_view(),
            read_parts(all.take(i as int)) == Some(out.deep_view()),
        decreases js@.len() - i,
    {
        let ghost before = out.deep_view();
        proof {
            assert(all.take(i + 1).drop_last() =~= all.take(i as int));
            assert(all.take(i + 1).last() == all[i as int]);
        }
        match part_from_json(&js[i]) {
            Some(p) => {
                let ghost pv = p.deep_view();
                out.push(p);
                proof {
                    assert(out.deep_view() =~= before.push(pv));
                }
            },
            None => {
                proof {
                    lemma_read_parts_none(all, i + 1);
                }
                return None;
            },
        }
        i = i + 1;
    }
    proof {
        assert(all.take(all.len() as int) =~= all);
    }
    Some(out)
}

/// Parts are read back as they were written.
pub proof fn law_parts(ps: Seq<ContentPartView>)
    ensures
        read_parts(parts_json(ps)) == Some(ps),
    decreases ps.len(),
{
    if ps.len() == 0 {
        assert(ps =~= Seq::empty());
    } else {
        let js = parts_json(ps);
        law_parts(ps.drop_last());
        law_part(ps.last());
        assert(js.drop_last() =~= parts_json(ps.drop_last()));
        assert(ps.drop_last().push(ps.last()) =~= ps);
    }
}

// ---------------------------------------------------------------------------
// Tool calls and token counts

/// The form of a tool call.
pub open spec fn call_json(c: ToolCallView) -> JsonView {
    empty_object().plus(
        "function"@,
        empty_object().plus("arguments"@, JsonView::Text(c.arguments)).plus(
            "name"@,
            JsonView::Text(c.name),
        ),
    ).plus("id"@, JsonView::Text(c.id))
}

/// The tool call of a form.
pub open spec fn read_call(j: JsonView) -> Option<ToolCallView> {
    match (j.str_at("id"@), j.get("function"@)) {
        (Some(id), Some(f)) => match (f.str_at("name"@), f.str_at("arguments"@)) {
            (Some(name), Some(arguments)) => Some(ToolCallView { id, name, arguments }),
            _ => None,
        },
        _ => None,
    }
}

pub fn call_to_json(c: &ToolCall) -> (r: Json)
    ensures
        r.deep_view() == call_json(c.deep_view()),
{
    let f = Json::object().plus("arguments", Json::text(c.function.arguments.as_str())).plus(
        "name",
        Json::text(c.function.name.as_str()),
    );
    Json::object().plus("function", f).plus("id", Json::text(c.id.as_str()))
}

pub fn call_from_json(j: &Json) -> (r: Option<ToolCall>)
    ensures
        r.deep_view() == read_call(j.deep_view()),
{
    match (j.str_at("id"), j.get("function")) {
        (Some(id), Some(f)) => match (f.str_at("name"), f.str_at("arguments")) {
            (Some(name), Some(arguments)) => Some(
                ToolCall { id, function: ToolCallFunction { name, arguments } },
            ),
            _ => None,
        },
        _ => None,
    }
}

/// A tool call is read back as it was written.
pub proof fn law_call(c: ToolCallView)
    ensures
        read_call(call_json(c)) == Some(c),
{
    broadcast use lemma_get_plus;

    reveal_strlit("id");
    reveal_strlit("function");
    reveal_strlit("name");
    reveal_strlit("arguments");
    assert("id"@.len() == 2 && "function"@.len() == 8);
    assert("name"@.len() == 4 && "arguments"@.len() == 9);
    assert(empty_object().get("id"@) is None);
    assert(empty_object().get("function"@) is None);
    assert(empty_object().get("name"@) is None);
    assert(empty_object().get("arguments"@) is None);
}

/// The forms of tool calls.
pub open spec fn calls_json(cs: Seq<ToolCallView>) -> Seq<JsonView> {
    cs.map_values(|c: ToolCallView| call_json(c))
}

/// The tool calls of forms.
pub open spec fn read_calls(js: Seq<JsonView>) -> Option<Seq<ToolCallView>>
    decreases js.len(),
{
    if js.len() == 0 {
        Some(Seq::empty())
    } else {
        match (read_calls(js.drop_last()), read_call(js.last())) {
            (Some(before), Some(c)) => Some(before.push(c)),
            _ => None,
        }
    }
}

pub fn calls_to_json(cs: &Vec<ToolCall>) -> (r: Vec<Json>)
    ensures
        r.deep_view() == calls_json(cs.deep_view()),
{
    let ghost wanted = calls_json(cs.deep_view());
    let mut out: Vec<Json> = Vec::new();
    let mut i: usize = 0;
    proof {
        assert(out.deep_view() =~= wanted.take(0));
    }
    while i < cs.len()
        invariant
            i <= cs@.len(),
            wanted == calls_json(cs.deep_view()),
            out.deep_view() == wanted.take(i as int),
        decreases cs@.len() - i,
    {
        let ghost before = out.deep_view();
        let j = call_to_json(&cs[i]);
        let ghost jv = j.deep_view();
        out.push(j);
        proof {
            assert(out.deep_view() =~= before.push(jv));
            assert(wanted.take(i + 1) =~= wanted.take(i as int).push(wanted[i as int]));
        }
        i = i + 1;
    }
    proof {
        assert(wanted.take(wanted.len() as int) =~= wanted);
    }
    out
}

/// Calls of which one cannot be read cannot be read.
proof fn lemma_read_calls_none(js: Seq<JsonView>, n: int)
    requires
        0 <= n <= js.len(),
        read_calls(js.take(n)) is None,
    ensures
        read_calls(js) is None,
    decreases js.len() - n,
{
    if n == js.len() {
        assert(js.take(n) =~= js);
    } else {
        assert(js.take(n + 1).drop_last() =~= js.take(n));
        lemma_read_calls_none(js, n + 1);
    }
}

pub fn calls_from_json(js: &Vec<Json>) -> (r: Option<Vec<ToolCall>>)
    ensures
        r.deep_view() == read_calls(js.deep_view()),
{
    let ghost all = js.deep_view();
    let mut out: Vec<ToolCall> = Vec::new();
    let mut i: usize = 0;
    proof {
        assert(out.deep_view() =~= Seq::empty());
        assert(all.take(0) =~= Seq::empty());
    }
    while i < js.len()
        invariant
            i <= js@.len(),
            all == js.deep_view(),
            read_calls(all.take(i as int)) == Some(out.deep_view()),
        decreases js@.len() - i,
    {
        let ghost before = out.deep_view();
        proof {
            assert(all.take(i + 1).drop_last() =~= all.take(i as int));
            assert(all.take(i + 1).last() == all[i as int]);
        }
        match call_from_json(&js[i]) {
            Some(c) => {
                let ghost cv = c.deep_view();
                out.push(c);
                proof {
                    assert(out.deep_view() =~= before.push(cv));
                }
            },
            None => {
                proof {
                    lemma_read_calls_none(all, i + 1);
                }
                return None;
            },
        }
        i = i + 1;
    }
    proof {
        assert(all.take(all.len() as int) =~= all);
    }
    Some(out)
}

/// Tool calls are read back as they were written.
pub proof fn law_calls(cs: Seq<ToolCallView>)
    ensures
        read_calls(calls_json(cs)) == Some(cs),
    decreases cs.len(),
{
    if cs.len() == 0 {
        assert(cs =~= Seq::empty());
    } else {
        let js = calls_json(cs);
        law_calls(cs.drop_last());
        law_call(cs.last());
        assert(js.drop_last() =~= calls_json(cs.drop_last()));
        assert(cs.drop_last().push(cs.last()) =~= cs);
    }
}

/// The form of token counts.
pub open spec fn usage_json(u: TokenUsage) -> JsonView {
    let j = with_opt(empty_object(), "cache_read_tokens"@, opt_count(u.cache_read_tokens));
    let j = with_opt(j, "cache_write_tokens"@, opt_count(u.cache_write_tokens));
    let j = j.plus("completion_tokens"@, count_json(u.completion_tokens));
    let j = with_opt(j, "prompt_cache_hit_tokens"@, opt_count(u.prompt_cache_hit_tokens));
    let j = with_opt(j, "prompt_cache_miss_tokens"@, opt_count(u.prompt_cache_miss_tokens));
    let j = j.plus("prompt_tokens"@, count_json(u.prompt_tokens));
    let j = with_opt(j, "reasoning_tokens"@, opt_count(u.reasoning_tokens));
    j.plus("total_tokens"@, count_json(u.total_tokens))
}

/// The token counts of a form.
pub open spec fn read_usage(j: JsonView) -> Option<TokenUsage> {
    match (
        read_count(j, "prompt_tokens"@),
        read_count(j, "completion_tokens"@),
        read_count(j, "total_tokens"@),
        read_opt_count(j, "reasoning_tokens"@),
        read_opt_count(j, "prompt_cache_hit_tokens"@),
        read_opt_count(j, "prompt_cache_miss_tokens"@),
        read_opt_count(j, "cache_read_tokens"@),
        read_opt_count(j, "cache_write_tokens"@),
    ) {
        (Some(p), Some(c), Some(t), Some(r), Some(hit), Some(miss), Some(read), Some(write)) => {
            Some(
                TokenUsage {
                    prompt_tokens: p,
                    completion_tokens: c,
                    total_tokens: t,
                    reasoning_tokens: r,
                    prompt_cache_hit_tokens: hit,
                    prompt_cache_miss_tokens: miss,
                    cache_read_tokens: read,
                    cache_write_tokens: write,
                },
            )
        },
        _ => None,
    }
}

pub fn usage_to_json(u: &TokenUsage) -> (r: Json)
    ensures
        r.deep_view() == usage_json(*u),
{
    let j = add_opt(Json::object(), "cache_read_tokens", count_opt(u.cache_read_tokens));
    let j = add_opt(j, "cache_write_tokens", count_opt(u.cache_write_tokens));
    let j = j.plus("completion_tokens", Json::unsigned(u.completion_tokens as u64));
    let j = add_opt(j, "prompt_cache_hit_tokens", count_opt(u.prompt_cache_hit_tokens));
    let j = add_opt(j, "prompt_cache_miss_tokens", count_opt(u.prompt_cache_miss_tokens));
    let j = j.plus("prompt_tokens", Json::unsigned(u.prompt_tokens as u64));
    let j = add_opt(j, "reasoning_tokens", count_opt(u.reasoning_tokens));
    j.plus("total_tokens", Json::unsigned(u.total_tokens as u64))
}

pub fn usage_from_json(j: &Json) -> (r: Option<TokenUsage>)
    ensures
        r == read_usage(j.deep_view()),
{
    match (
        get_count(j, "prompt_tokens"),
        get_count(j, "completion_tokens"),
        get_count(j, "total_tokens"),
        get_opt_count(j, "reasoning_tokens"),
        get_opt_count(j, "prompt_cache_hit_tokens"),
        get_opt_count(j, "prompt_cache_miss_tokens"),
        get_opt_count(j, "cache_read_tokens"),
        get_opt_count(j, "cache_write_tokens"),
    ) {
        (Some(p), Some(c), Some(t), Some(r), Some(hit), Some(miss), Some(read), Some(write)) => {
            Some(
                TokenUsage {
                    prompt_tokens: p,
                    completion_tokens: c,
                    total_tokens: t,
                    reasoning_tokens: r,
                    prompt_cache_hit_tokens: hit,
                    prompt_cache_miss_tokens: miss,
                    cache_read_tokens: read,
                    cache_write_tokens: write,
                },
            )
        },
        _ => None,
    }
}

/// An object has the fields that it was given.
pub broadcast proof fn lemma_get_with_opt(
    j: JsonView,
    key: Seq<char>,
    value: Option<JsonView>,
    other: Seq<char>,
)
    requires
        j is Object,
    ensures
        #[trigger] with_opt(j, key, value).get(other) == (match j.get(other) {
            Some(v) => Some(v),
            None => if other == key {
                value
            } else {
                None
            },
        }),
        with_opt(j, key, value) is Object,
{
    if let Some(v) = value {
        lemma_get_plus(j, key, v, other);
    }
}

/// Token counts are read back as they were written.
pub proof fn law_usage(u: TokenUsage)
    ensures
        read_usage(usage_json(u)) == Some(u),
{
    broadcast use {lemma_get_plus, lemma_get_with_opt};

    reveal_strlit("prompt_tokens");
    reveal_strlit("completion_tokens");
    reveal_strlit("total_tokens");
    reveal_strlit("reasoning_tokens");
    reveal_strlit("prompt_cache_hit_tokens");
    reveal_strlit("prompt_cache_miss_tokens");
    reveal_strlit("cache_read_tokens");
    reveal_strlit("cache_write_tokens");
    assert("prompt_tokens"@.len() == 13);
    assert("completion_tokens"@.len() == 17);
    assert("total_tokens"@.len() == 12);
    assert("reasoning_tokens"@.len() == 16);
    assert("prompt_cache_hit_tokens"@.len() == 23);
    assert("prompt_cache_miss_tokens"@.len() == 24);
    assert("cache_read_tokens"@.len() == 17);
    assert("cache_write_tokens"@.len() == 18);
    assert("completion_tokens"@[1] != "cache_read_tokens"@[1]);
    assert(empty_object().get("prompt_tokens"@) is None);
    assert(empty_object().get("completion_tokens"@) is None);
    assert(empty_object().get("total_tokens"@) is None);
    assert(empty_object().get("reasoning_tokens"@) is None);
    assert(empty_object().get("prompt_cache_hit_tokens"@) is None);
    assert(empty_object().get("prompt_cache_miss_tokens"@) is None);
    assert(empty_object().get("cache_read_tokens"@) is None);
    assert(empty_object().get("cache_write_tokens"@) is None);
}

// ---------------------------------------------------------------------------
// Messages

/// The form of the content of a message.
pub open spec fn content_json(c: MessageContentView) -> JsonView {
    match c {
        MessageContentView::Text(s) => JsonView::Text(s),
        MessageContentView::Multimodal(ps) => JsonView::List(parts_json(ps)),
    }
}

/// The content of a form.
pub open spec fn read_content(j: JsonView) -> Option<MessageContentView> {
    match j {
        JsonView::Text(s) => Some(MessageContentView::Text(s)),
        JsonView::List(js) => match read_parts(js) {
            Some(ps) => Some(MessageContentView::Multimodal(ps)),
            None => None,
        },
        _ => None,
    }
}

/// The form of a message.
pub open spec fn message_json(m: MessageView) -> JsonView {
    let j = empty_object().plus("content"@, content_json(m.content));
    let j = with_opt(j, "reasoning_content"@, opt_text(m.reasoning_content));
    let j = j.plus("role"@, JsonView::Text(role_name(m.role)));
    let j = with_opt(j, "tool_call_id"@, opt_text(m.tool_call_id));
    let j = with_opt(
        j,
        "tool_calls"@,
        if m.tool_calls.len() > 0 {
            Some(JsonView::List(calls_json(m.tool_calls)))
        } else {
            None
        },
    );
    with_opt(
        j,
        "usage"@,
        match m.usage {
            Some(u) => Some(usage_json(u)),
            None => None,
        },
    )
}

/// The role in a form.
pub open spec fn read_role_at(j: JsonView) -> Option<crate::provider::Role> {
    match j.str_at("role"@) {
        Some(s) => role_of(s),
        None => None,
    }
}

/// The content in a form.
pub open spec fn read_content_at(j: JsonView) -> Option<MessageContentView> {
    match j.get("content"@) {
        Some(c) => read_content(c),
        None => None,
    }
}

/// The tool calls in a form.
pub open spec fn read_calls_at(j: JsonView) -> Option<Seq<ToolCallView>> {
    match j.get("tool_calls"@) {
        None => Some(Seq::empty()),
        Some(JsonView::List(js)) => read_calls(js),
        Some(_) => None,
    }
}

/// The token counts in a form.
pub open spec fn read_usage_at(j: JsonView) -> Option<Option<TokenUsage>> {
    match j.get("usage"@) {
        None => Some(None),
        Some(JsonView::Null) => Some(None),
        Some(u) => match read_usage(u) {
            Some(x) => Some(Some(x)),
            None => None,
        },
    }
}

/// The message of a form.
pub open spec fn read_message(j: JsonView) -> Option<MessageView> {
    match (
        read_role_at(j),
        read_content_at(j),
        read_opt_text(j, "reasoning_content"@),
        read_calls_at(j),
        read_opt_text(j, "tool_call_id"@),
        read_usage_at(j),
    ) {
        (
            Some(role),
            Some(content),
            Some(reasoning_content),
            Some(tool_calls),
            Some(tool_call_id),
            Some(usage),
        ) => Some(
            MessageView { role, content, reasoning_content, tool_calls, tool_call_id, usage },
        ),
        _ => None,
    }
}

/// The form of a message.
pub fn message_to_json(m: &Message) -> (r: Json)
    ensures
        r.deep_view() == message_json(m.deep_view()),
{
    let content = match &m.content {
        MessageContent::Text(s) => Json::text(s.as_str()),
        MessageContent::Multimodal(ps) => Json::list(parts_to_json(ps)),
    };
    let j = Json::object().plus("content", content);
    let j = add_opt(j, "reasoning_content", text_opt(&m.reasoning_content));
    let j = j.plus("role", Json::text(role_str(m.role)));
    let j = add_opt(j, "tool_call_id", text_opt(&m.tool_call_id));
    let calls = if m.tool_calls.len() > 0 {
        Some(Json::list(calls_to_json(&m.tool_calls)))
    } else {
        None
    };
    let j = add_opt(j, "tool_calls", calls);
    let usage = match &m.usage {
        Some(u) => Some(usage_to_json(u)),
        None => None,
    };
    add_opt(j, "usage", usage)
}

/// The message of a form.
pub fn message_from_json(j: &Json) -> (r: Option<Message>)
    ensures
        r.deep_view() == read_message(j.deep_view()),
{
    broadcast use crate::json::lemma_list_view;

    let role = match j.str_at("role") {
        Some(s) => match parse_role(s.as_str()) {
            Some(r) => r,
            None => {
                return None;
            },
        },
        None => {
            return None;
        },
    };
    let content = match j.get("content") {
        Some(Json::Text(s)) => MessageContent::Text(s.clone()),
        Some(Json::List(js)) => match parts_from_json(js) {
            Some(ps) => MessageContent::Multimodal(ps),
            None => {
                return None;
            },
        },
        _ => {
            return None;
        },
    };
    let reasoning_content = match get_opt_text(j, "reasoning_content") {
        Some(t) => t,
        None => {
            return None;
        },
    };
    let tool_calls = match j.get("tool_calls") {
        None => {
            let none: Vec<ToolCall> = Vec::new();
            proof {
                assert(none.deep_view() =~= Seq::empty());
            }
            none
        },
        Some(Json::List(js)) => match calls_from_json(js) {
            Some(cs) => cs,
            None => {
                return None;
            },
        },
        Some(_) => {
            return None;
        },
    };
    let tool_call_id = match get_opt_text(j, "tool_call_id") {
        Some(t) => t,
        None => {
            return None;
        },
    };
    let usage = match j.get("usage") {
        None => None,
        Some(Json::Null) => None,
        Some(u) => match usage_from_json(u) {
            Some(x) => Some(x),
            None => {
                return None;
            },
        },
    };
    Some(Message { role, content, reasoning_content, tool_calls, tool_call_id, usage })
}

/// A message is read back as it was written.
pub proof fn law_message(m: MessageView)
    ensures
        read_message(message_json(m)) == Some(m),
{
    broadcast use {lemma_get_plus, lemma_get_with_opt};

    reveal_strlit("role");
    reveal_strlit("content");
    reveal_strlit("reasoning_content");
    reveal_strlit("tool_calls");
    reveal_strlit("tool_call_id");
    reveal_strlit("usage");
    assert("role"@.len() == 4 && "content"@.len() == 7 && "reasoning_content"@.len() == 17);
    assert("tool_calls"@.len() == 10 && "tool_call_id"@.len() == 12 && "usage"@.len() == 5);
    assert(empty_object().get("role"@) is None);
    assert(empty_object().get("content"@) is None);
    assert(empty_object().get("reasoning_content"@) is None);
    assert(empty_object().get("tool_calls"@) is None);
    assert(empty_object().get("tool_call_id"@) is None);
    assert(empty_object().get("usage"@) is None);
    crate::provider::openai_compat::law_role_roundtrip(m.role);
    law_calls(m.tool_calls);
    if m.tool_calls.len() == 0 {
        assert(m.tool_calls =~= Seq::empty());
    }
    if let MessageContentView::Multimodal(ps) = m.content {
        law_parts(ps);
    }
    if let Some(u) = m.usage {
        law_usage(u);
    }
}

} // verus!
