//! The texts of the video pages and of the playback position answer.
use vstd::prelude::*;

use crate::controller::{file_type_of, file_type_spec};
use crate::escape::{decode_html_entities, decoded_html_entities};
use crate::text::{decimal, decimal_string, push_char, push_decimal, push_str, replace, replace_all};

verus! {

/// A media type as the `mime` crate holds it.
#[verifier::external_type_specification]
#[verifier::external_body]
pub struct ExMime(mime::Mime);

/// What the `mime` crate's parser makes of a text: the media type parsed,
/// or `None` when the text is not a media type.
pub uninterp spec fn mime_parsed(text: Seq<char>) -> Option<mime::Mime>;

/// `str::parse::<mime::Mime>` (`<mime::Mime as FromStr>::from_str`): its
/// result, with the error dropped, is named by `mime_parsed` of the text.
/// The grammar of media types is not stated.
#[verifier::external_body]
fn parse_mime(text: &str) -> (r: Option<mime::Mime>)
    ensures
        r == mime_parsed(text@),
{
    text.parse::<mime::Mime>().ok()
}

/// The media type text of a video of the given file type: `video/{type}`.
pub open spec fn video_type_text(file_type: Seq<char>) -> Seq<char> {
    "video/"@ + file_type
}

/// The media type parsed from `video/{type}` for a video of the given file
/// type; `None` when that text is not a media type.
pub fn video_mime(file_type: &str) -> (r: Option<mime::Mime>)
    ensures
        r == mime_parsed(video_type_text(file_type@)),
{
    let mut text = String::new();
    push_str(&mut text, "video/");
    push_str(&mut text, file_type);
    parse_mime(text.as_str())
}

/// The page of a stored video: `{title}` replaced by its title, then
/// `{videoId}` by its identifier.
pub fn render_video_page(template: &str, title: &str, id: u32) -> (r: String)
    ensures
        r@ == replace_all(
            replace_all(template@, "{title}"@, title@),
            "{videoId}"@,
            decimal(id as nat),
        ),
{
    let t = replace(template, "{title}", title);
    let id_text = decimal_string(id as u64);
    replace(t.as_str(), "{videoId}", id_text.as_str())
}

/// The playback position answer for a video without a stored position:
/// `{"timestamp":0, "id":{id}}`.
pub fn default_timestamp_json(id: u32) -> (r: String)
    ensures
        r@ == "{\"timestamp\":0, \"id\":"@ + decimal(id as nat) + seq!['}'],
{
    let mut s = String::new();
    push_str(&mut s, "{\"timestamp\":0, \"id\":");
    push_decimal(&mut s, id as u64);
    push_char(&mut s, '}');
    s
}

/// The file that an uncategorized video request names: the path segment
/// with `%2E` turned into `.` and HTML entities decoded; and its type, the
/// piece after the first `.` (`None` when there is none).
pub fn uncategorized_video_target(file_name: &str) -> (r: (String, Option<String>))
    ensures
        r.0@ == decoded_html_entities(replace_all(file_name@, "%2E"@, "."@)),
        match file_type_spec(r.0@) {
            Some(t) => r.1 matches Some(s) && s@ == t,
            None => r.1 is None,
        },
{
    let dotted = replace(file_name, "%2E", ".");
    let decoded = decode_html_entities(dotted.as_str());
    let file_type = file_type_of(decoded.as_str());
    (decoded, file_type)
}

} // verus!
