//! The media item model: what one piece of content is, which of its two
//! encodings is downloaded, and the derived quality score that drives the
//! dedup store's upgrade rule.

use vstd::prelude::*;

verus! {

/// Format of one encoding: adaptive streaming or a direct file.
#[derive(Debug, Clone, Copy, PartialEq, Eq, Structural)]
pub enum MediaFormat {
    Hls,
    Mp4,
}

/// Identity of a recording. Two items are the same logical video exactly
/// when these three fields agree; resource URLs change over time and are
/// not part of the identity.
#[derive(Debug, Clone)]
pub struct TrackerData {
    pub id: String,
    pub air_time: Option<String>,
    pub title: String,
}

/// One download target: a format tag, the video URL, and the optional
/// sign-language and audio-description variants.
#[derive(Debug, Clone)]
pub struct MediaResource {
    pub media_format: MediaFormat,
    pub video: String,
    /// Sign-language variant of the video, when present.
    pub sl_video: Option<String>,
    /// Audio-description variant, when present.
    pub ad_video: Option<String>,
}

/// Caption resources attached to an item.
#[derive(Debug, Clone)]
pub struct Captions {
    pub srt: Option<String>,
}

/// The two alternative encodings of one item plus its caption resources.
#[derive(Debug, Clone)]
pub struct MediaResources {
    pub preview_image: Option<String>,
    pub dflt: MediaResource,
    pub alt: MediaResource,
    pub captions_hash: Captions,
}

/// One item to publish: identity plus resources.
#[derive(Debug, Clone)]
pub struct WdrMedia {
    pub tracker_data: TrackerData,
    pub media_resource: MediaResources,
}

/// The characters of an optional string.
pub open spec fn opt_view(o: Option<String>) -> Option<Seq<char>> {
    match o {
        Option::Some(s) => Option::Some(s@),
        Option::None => Option::None,
    }
}

/// Two identities agree: same source id, air time and title.
pub open spec fn same_identity(a: TrackerData, b: TrackerData) -> bool {
    a.id@ == b.id@ && opt_view(a.air_time) == opt_view(b.air_time) && a.title@ == b.title@
}

/// The quality score: one point for captions, one for a sign-language
/// variant on the default encoding. Always 0, 1 or 2.
pub open spec fn spec_score(r: MediaResources) -> int {
    (if r.captions_hash.srt is Some {
        1int
    } else {
        0int
    }) + (if r.dflt.sl_video is Some {
        1int
    } else {
        0int
    })
}

/// The URL that is downloaded: the alternate encoding when it is a direct
/// file, else the default encoding.
pub open spec fn spec_video(r: MediaResources) -> Seq<char> {
    if r.alt.media_format is Mp4 {
        r.alt.video@
    } else {
        r.dflt.video@
    }
}

/// The sign-language URL of the selected encoding, when present.
pub open spec fn spec_sl_video(r: MediaResources) -> Option<Seq<char>> {
    if r.alt.media_format is Mp4 {
        opt_view(r.alt.sl_video)
    } else {
        opt_view(r.dflt.sl_video)
    }
}

impl TrackerData {
    /// Exact identity comparison, field by field.
    pub fn same_identity_as(&self, other: &TrackerData) -> (r: bool)
        ensures
            r == same_identity(*self, *other),
    {
        let air_eq = match (&self.air_time, &other.air_time) {
            (Option::None, Option::None) => true,
            (Option::Some(a), Option::Some(b)) => *a == *b,
            _ => false,
        };
        air_eq && self.id == other.id && self.title == other.title
    }
}

impl MediaResources {
    /// The quality score of these resources.
    pub fn score(&self) -> (s: usize)
        ensures
            s == spec_score(*self),
            0 <= spec_score(*self) <= 2,
    {
        let mut score: usize = 0;
        if self.captions_hash.srt.is_some() {
            score += 1;
        }
        if self.dflt.sl_video.is_some() {
            score += 1;
        }
        score
    }

    /// The URL to download, preferring the direct-file encoding.
    pub fn get_video(&self) -> (v: &String)
        ensures
            v@ == spec_video(*self),
    {
        if matches!(self.alt.media_format, MediaFormat::Mp4) {
            &self.alt.video
        } else {
            &self.dflt.video
        }
    }

    /// The sign-language URL of the selected encoding, when present.
    pub fn get_sl_video(&self) -> (v: Option<&String>)
        ensures
            match v {
                Option::Some(s) => spec_sl_video(*self) == Option::Some(s@),
                Option::None => spec_sl_video(*self) is None,
            },
    {
        if matches!(self.alt.media_format, MediaFormat::Mp4) {
            self.alt.sl_video.as_ref()
        } else {
            self.dflt.sl_video.as_ref()
        }
    }
}

/// Adding captions to resources that have none raises the score by exactly
/// one; in particular it never lowers it.
pub proof fn lemma_score_captions_added(r: MediaResources, srt: String)
    requires
        r.captions_hash.srt is None,
    ensures
        spec_score(
            MediaResources { captions_hash: Captions { srt: Option::Some(srt) }, ..r },
        ) == spec_score(r) + 1,
{
}

/// Adding a sign-language variant to the default encoding when it has none
/// raises the score by exactly one; in particular it never lowers it.
pub proof fn lemma_score_sign_language_added(r: MediaResources, sl: String)
    requires
        r.dflt.sl_video is None,
    ensures
        spec_score(
            MediaResources {
                dflt: MediaResource { sl_video: Option::Some(sl), ..r.dflt },
                ..r
            },
        ) == spec_score(r) + 1,
{
}

/// The score never leaves {0, 1, 2}.
pub proof fn lemma_score_range(r: MediaResources)
    ensures
        0 <= spec_score(r) <= 2,
{
}

/// A protocol-relative URL with the https scheme put in front; anything
/// else unchanged. Source documents write their resource URLs both ways.
pub open spec fn spec_normalized_url(s: Seq<char>) -> Seq<char> {
    if s.len() >= 2 && s[0] == '/' && s[1] == '/' {
        "https:"@ + s
    } else {
        s
    }
}

pub fn normalize_url(s: &str) -> (r: String)
    ensures
        r@ == spec_normalized_url(s@),
{
    let n = s.unicode_len();
    if n >= 2 && s.get_char(0) == '/' && s.get_char(1) == '/' {
        let mut r = String::from_str("https:");
        r.append(s);
        r
    } else {
        s.to_owned()
    }
}

} // verus!
