//! What the publish workflow computes before it talks to the outside: the
//! public caption text, the rule that drops a placeholder caption
//! resource, and the retry policy for the announcement-update call.

use vstd::prelude::*;

use crate::scrape::Topic;
use crate::text::spec_ends_with;
use crate::text::str_ends_with;

verus! {

/// What `url_path` returns: the path component of the URL, if it parses.
pub uninterp spec fn url_path_of(url: Seq<char>) -> Option<Seq<char>>;

/// Relies on the url crate (`Url::parse`, `Url::path`): the path component
/// of the parsed URL, as text. The result depends on the string alone.
#[verifier::external_body]
fn url_path(u: &str) -> (r: Option<String>)
    ensures
        r.deep_view() == url_path_of(u@),
{
    match url::Url::parse(u) {
        Ok(parsed) => Some(parsed.path().to_string()),
        Err(_) => None,
    }
}

/// A caption resource is usable unless its path ends in `deleted`: the
/// source marks withdrawn captions that way instead of removing the link.
pub open spec fn spec_caption_usable(u: Seq<char>) -> bool {
    match url_path_of(u) {
        Option::Some(p) => !spec_ends_with(p, "deleted"@),
        Option::None => true,
    }
}

pub open spec fn spec_usable_caption(srt: Option<String>) -> Option<String> {
    match srt {
        Option::Some(u) => if spec_caption_usable(u@) {
            Option::Some(u)
        } else {
            Option::None
        },
        Option::None => Option::None,
    }
}

/// Drops a caption URL whose path ends in `deleted`; keeps anything else.
pub fn usable_caption(srt: Option<String>) -> (r: Option<String>)
    ensures
        r == spec_usable_caption(srt),
{
    match srt {
        Option::Some(u) => {
            let deleted = match url_path(u.as_str()) {
                Option::Some(p) => str_ends_with(p.as_str(), "deleted"),
                Option::None => false,
            };
            if deleted {
                Option::None
            } else {
                Option::Some(u)
            }
        },
        Option::None => Option::None,
    }
}

/// The public caption: the title, then on a second line the air time when
/// there is one, and the topic as a tag.
pub open spec fn spec_public_caption(
    title: Seq<char>,
    air_time: Option<Seq<char>>,
    topic: Topic,
) -> Seq<char> {
    match air_time {
        Option::Some(a) => title + "\n"@ + a + " #"@ + topic.spec_name(),
        Option::None => title + "\n#"@ + topic.spec_name(),
    }
}

pub fn public_caption(title: &str, air_time: &Option<String>, topic: Topic) -> (r: String)
    ensures
        r@ == spec_public_caption(title@, crate::media::opt_view(*air_time), topic),
{
    let mut r = title.to_owned();
    match air_time {
        Option::Some(a) => {
            r.append("\n");
            r.append(a.as_str());
            r.append(" #");
        },
        Option::None => {
            r.append("\n#");
        },
    }
    r.append(topic.name());
    proof {
        assert(r@ =~= spec_public_caption(
            title@,
            crate::media::opt_view(*air_time),
            topic,
        ));
    }
    r
}

/// A retry policy: how many further attempts after a failed call, and the
/// fixed delay before each.
#[derive(Debug, Clone, Copy, PartialEq, Eq, Structural)]
pub struct RetryPolicy {
    pub extra_attempts: u32,
    pub delay_millis: u64,
}

impl RetryPolicy {
    /// The policy for the announcement-update call: two further attempts,
    /// one minute apart.
    pub fn announcement_update() -> (r: RetryPolicy)
        ensures
            r.extra_attempts == 2,
            r.delay_millis == 60000,
    {
        RetryPolicy { extra_attempts: 2, delay_millis: 60000 }
    }

    /// Whether one more attempt is allowed after `retries_done` failed
    /// retries.
    pub fn should_retry(&self, retries_done: u32) -> (r: bool)
        ensures
            r == (retries_done < self.extra_attempts),
    {
        retries_done < self.extra_attempts
    }
}

} // verus!
