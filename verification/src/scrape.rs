//! The scrape pipeline: discovery of linked sub-pages from an index page,
//! the cursor over the discovered (topic, link) pairs, and per-page
//! extraction planning. Pages are visited in reverse order of discovery
//! (the cursor pops from the end of the list). Fetching itself is I/O and
//! stays with the caller; this module decides what to fetch and what a
//! fetched page yields.

use vstd::prelude::*;

use crate::media::WdrMedia;

verus! {

/// The classification tag of a source page.
#[derive(Debug, Clone, Copy, PartialEq, Eq, Structural)]
pub enum Topic {
    AktuelleSendung,
    Sachgeschichte,
    Zukunft,
}

impl Topic {
    pub open spec fn spec_name(self) -> Seq<char> {
        match self {
            Topic::AktuelleSendung => "AktuelleSendung"@,
            Topic::Sachgeschichte => "Sachgeschichte"@,
            Topic::Zukunft => "Zukunft"@,
        }
    }

    /// The tag as text, as it appears in captions.
    pub fn name(&self) -> (r: &'static str)
        ensures
            r@ == self.spec_name(),
    {
        match self {
            Topic::AktuelleSendung => "AktuelleSendung",
            Topic::Sachgeschichte => "Sachgeschichte",
            Topic::Zukunft => "Zukunft",
        }
    }
}

/// Why a page, or a whole pipeline, yielded nothing.
#[derive(Debug, Clone, Copy, PartialEq, Eq, Structural)]
pub enum ScrapeError {
    /// An index page's link discovery found no linked video pages: a hard
    /// failure for the whole pipeline.
    NoLinkedPages,
    /// A visited page had no fully extractable video container.
    NoVideos,
    /// The page fetcher could not retrieve the page at all; reported by the
    /// caller that performs the fetch.
    Fetch,
}

/// One item found on a page: preview image plus the item itself.
#[derive(Debug, Clone)]
pub struct Scraperesult {
    pub topic: Topic,
    pub img: String,
    pub media: WdrMedia,
}

/// What `select_link_hrefs` returns: the `href` of every element matching
/// `.links a` in the page, in document order.
pub uninterp spec fn link_hrefs_of(body: Seq<char>) -> Seq<Seq<char>>;

/// What `select_video_containers` returns: the inner markup of every
/// element matching `.videocontainer, .item.video`, in document order.
pub uninterp spec fn containers_of(body: Seq<char>) -> Seq<Seq<char>>;

/// What `find_img_src` returns: the `src` of the first `img` element in
/// the container markup, if any.
pub uninterp spec fn img_src_of(container: Seq<char>) -> Option<Seq<char>>;

/// What `find_media_object_url` returns: the leftmost match of the fixed
/// media-descriptor URL pattern in the container markup, if any.
pub uninterp spec fn media_object_url_of(container: Seq<char>) -> Option<Seq<char>>;

/// What `join_url` returns: `href` resolved as a reference against `base`,
/// if both parse.
pub uninterp spec fn joined_url(base: Seq<char>, href: Seq<char>) -> Option<Seq<char>>;

/// Relies on scraper (`Html::parse_document`, `Selector::parse`, `select`,
/// `ElementRef::attr`): the `href` attributes of the `.links a` elements.
/// The selector is a fixed valid one, so `Selector::parse` cannot fail, and
/// the result depends on the page text alone.
#[verifier::external_body]
fn select_link_hrefs(body: &str) -> (r: Vec<String>)
    ensures
        r.deep_view() == link_hrefs_of(body@),
{
    let selector = scraper::Selector::parse(".links a").unwrap();
    let html = scraper::Html::parse_document(body);
    html.select(&selector)
        .filter_map(|elem| elem.value().attr("href"))
        .map(|href| href.to_string())
        .collect()
}

/// Relies on scraper (`Html::parse_document`, `Selector::parse`, `select`,
/// `ElementRef::inner_html`): the inner markup of every video container.
/// The selector is fixed and valid; the result depends on the page text
/// alone.
#[verifier::external_body]
fn select_video_containers(body: &str) -> (r: Vec<String>)
    ensures
        r.deep_view() == containers_of(body@),
{
    let selector = scraper::Selector::parse(".videocontainer, .item.video").unwrap();
    let html = scraper::Html::parse_document(body);
    html.select(&selector).map(|elem| elem.inner_html()).collect()
}

/// Relies on scraper (`Html::parse_fragment`, `Selector::parse`, `select`,
/// `ElementRef::attr`): the `src` of the first `img` in the container
/// markup. The selector is fixed and valid; the result depends on the
/// markup alone.
#[verifier::external_body]
fn find_img_src(container: &str) -> (r: Option<String>)
    ensures
        r.deep_view() == img_src_of(container@),
{
    let selector = scraper::Selector::parse("img").unwrap();
    let html = scraper::Html::parse_fragment(container);
    html.select(&selector).find_map(|elem| elem.value().attr("src")).map(|s| s.to_string())
}

/// Relies on the regex engine re-exported by lazy-regex: the leftmost match
/// of the fixed pattern `https?:[^'"]+\d+\.(?:js|assetjsonp)` that locates
/// the embedded media-descriptor URL. The pattern is a fixed valid one, so
/// `Regex::new` cannot fail, and the match depends on the markup alone.
#[verifier::external_body]
fn find_media_object_url(container: &str) -> (r: Option<String>)
    ensures
        r.deep_view() == media_object_url_of(container@),
{
    let re = lazy_regex::Regex::new(r#"https?:[^'"]+\d+\.(?:js|assetjsonp)"#).unwrap();
    re.find(container).map(|m| m.as_str().to_string())
}

/// Relies on the url crate (`Url::parse`, `Url::join`): `href` resolved
/// against `base` by RFC 3986 reference resolution, as text. The result
/// depends on the two strings alone.
#[verifier::external_body]
fn join_url(base: &str, href: &str) -> (r: Option<String>)
    ensures
        r.deep_view() == joined_url(base@, href@),
{
    let base = match url::Url::parse(base) {
        Ok(b) => b,
        Err(_) => return None,
    };
    match base.join(href) {
        Ok(u) => Some(u.to_string()),
        Err(_) => None,
    }
}

/// The discovered hrefs that resolve against the base, in discovery order.
pub open spec fn spec_joined_links(base: Seq<char>, hrefs: Seq<Seq<char>>) -> Seq<Seq<char>>
    decreases hrefs.len(),
{
    if hrefs.len() == 0 {
        Seq::empty()
    } else {
        let rest = spec_joined_links(base, hrefs.drop_first());
        match joined_url(base, hrefs.first()) {
            Option::Some(u) => seq![u] + rest,
            Option::None => rest,
        }
    }
}

/// The pre-computed, reversed list of pages still to visit. Popping from
/// the end visits the last-discovered link first.
#[derive(Debug)]
pub struct Scrape {
    pub links: Vec<(Topic, String)>,
}

impl Scrape {
    /// The single-page pipeline over the current-episode page.
    pub fn get_aktuell() -> (r: Scrape)
        ensures
            r.links@.len() == 1,
            r.links@[0].0 == Topic::AktuelleSendung,
            r.links@[0].1@ == "https://www.wdrmaus.de/aktuelle-sendung/"@,
    {
        let url = String::from_str("https://www.wdrmaus.de/aktuelle-sendung/");
        let mut links: Vec<(Topic, String)> = Vec::new();
        links.push((Topic::AktuelleSendung, url));
        Scrape { links }
    }

    /// A pipeline over an explicit link list.
    pub fn from_links(links: Vec<(Topic, String)>) -> (r: Scrape)
        ensures
            r.links == links,
    {
        Scrape { links }
    }

    /// One pipeline visiting `a`'s pages, then `b`'s.
    pub fn concat(a: Scrape, b: Scrape) -> (r: Scrape)
        ensures
            r.links@ == a.links@ + b.links@,
    {
        let mut links = a.links;
        let mut rest = b.links;
        links.append(&mut rest);
        Scrape { links }
    }

    /// How many pages are still to visit.
    pub fn len(&self) -> (n: usize)
        ensures
            n == self.links@.len(),
    {
        self.links.len()
    }

    /// The next page to visit: the last-discovered remaining link.
    pub fn pop_next(&mut self) -> (r: Option<(Topic, String)>)
        ensures
            old(self).links@.len() == 0 ==> r is None && final (self).links@ == old(self).links@,
            old(self).links@.len() > 0 ==> r == Option::Some(old(self).links@.last())
                && final (self).links@ == old(self).links@.drop_last(),
    {
        self.links.pop()
    }
}

/// The index pages of the linked-page pipeline, each with its topic, in
/// the order their link lists are concatenated.
pub fn index_sources() -> (r: Vec<(Topic, String)>)
    ensures
        r@.len() == 2,
        r@[0].0 == Topic::Sachgeschichte,
        r@[0].1@ == "https://www.wdrmaus.de/filme/sachgeschichten/index.php5?filter=alle"@,
        r@[1].0 == Topic::Zukunft,
        r@[1].1@ == "https://www.wdrmaus.de/extras/mausthemen/zukunft/"@,
{
    let mut r: Vec<(Topic, String)> = Vec::new();
    r.push(
        (
            Topic::Sachgeschichte,
            String::from_str("https://www.wdrmaus.de/filme/sachgeschichten/index.php5?filter=alle"),
        ),
    );
    r.push((Topic::Zukunft, String::from_str("https://www.wdrmaus.de/extras/mausthemen/zukunft/")));
    r
}

/// Link discovery over one fetched index page: every `.links a` href that
/// resolves against `base` becomes a page to visit, tagged with `topic`
/// and reversed so that the cursor visits the last-discovered link first.
/// Zero discovered links is a hard failure: there is nothing to iterate.
pub fn discover_links(topic: Topic, base: &str, body: &str) -> (r: Result<Scrape, ScrapeError>)
    ensures
        match r {
            Result::Ok(s) => {
                let found = spec_joined_links(base@, link_hrefs_of(body@));
                found.len() > 0 && s.links@.len() == found.len() && forall|i: int|
                    0 <= i < found.len() ==> (#[trigger] s.links@[i]).0 == topic
                        && s.links@[i].1@ == found[found.len() - 1 - i]
            },
            Result::Err(e) => e == ScrapeError::NoLinkedPages && spec_joined_links(
                base@,
                link_hrefs_of(body@),
            ).len() == 0,
        },
{
    let hrefs = select_link_hrefs(body);
    let ghost all = link_hrefs_of(body@);
    let n = hrefs.len();
    let mut joined: Vec<String> = Vec::new();
    let mut i: usize = 0;
    proof {
        assert(all.skip(0) =~= all);
    }
    while i < n
        invariant
            i <= n,
            n == hrefs@.len(),
            hrefs.deep_view() == all,
            joined.deep_view() + spec_joined_links(base@, all.skip(i as int)) =~= spec_joined_links(
                base@,
                all,
            ),
        decreases n - i,
    {
        let ghost before = joined.deep_view();
        let href = &hrefs[i];
        proof {
            assert(all.skip(i as int).first() == href@);
            assert(all.skip(i as int).drop_first() =~= all.skip(i + 1));
        }
        match join_url(base, href.as_str()) {
            Option::Some(u) => {
                joined.push(u);
                proof {
                    assert(joined.deep_view() =~= before.push(joined@.last()@));
                    assert(before.push(joined@.last()@) + spec_joined_links(
                        base@,
                        all.skip(i + 1),
                    ) =~= before + (seq![joined@.last()@] + spec_joined_links(
                        base@,
                        all.skip(i + 1),
                    )));
                }
            },
            Option::None => {
            },
        }
        i += 1;
    }
    let ghost found = spec_joined_links(base@, all);
    proof {
        assert(all.skip(n as int) =~= Seq::<Seq<char>>::empty());
        assert(joined.deep_view() + Seq::<Seq<char>>::empty() =~= joined.deep_view());
        assert(joined.deep_view() =~= found);
    }
    let m = joined.len();
    let mut links: Vec<(Topic, String)> = Vec::new();
    while joined.len() > 0
        invariant
            links@.len() + joined@.len() == m,
            m == found.len(),
            joined.deep_view() =~= found.take(joined@.len() as int),
            forall|k: int|
                0 <= k < links@.len() ==> (#[trigger] links@[k]).0 == topic && links@[k].1@
                    == found[m - 1 - k],
        decreases joined@.len(),
    {
        let ghost jb = joined.deep_view();
        let u = joined.pop().unwrap();
        proof {
            assert(jb[jb.len() - 1] == u@);
            assert(found.take(jb.len() as int)[jb.len() - 1] == found[jb.len() - 1]);
            assert(joined.deep_view() =~= found.take(joined@.len() as int));
        }
        links.push((topic, u));
    }
    if links.len() == 0 {
        Result::Err(ScrapeError::NoLinkedPages)
    } else {
        Result::Ok(Scrape { links })
    }
}

/// One fully extractable container on a page: the resolved preview image
/// and the media-descriptor URL still to fetch.
#[derive(Debug, Clone)]
pub struct ItemPlan {
    pub img: String,
    pub media_url: String,
}

pub open spec fn plan_view(p: ItemPlan) -> (Seq<char>, Seq<char>) {
    (p.img@, p.media_url@)
}

/// What one container yields: its image reference resolved against the
/// page URL plus its media-descriptor URL, or nothing when either part is
/// missing.
pub open spec fn spec_plan_of(base: Seq<char>, container: Seq<char>) -> Option<
    (Seq<char>, Seq<char>),
> {
    match img_src_of(container) {
        Option::Some(src) => match joined_url(base, src) {
            Option::Some(img) => match media_object_url_of(container) {
                Option::Some(murl) => Option::Some((img, murl)),
                Option::None => Option::None,
            },
            Option::None => Option::None,
        },
        Option::None => Option::None,
    }
}

/// The fully extractable containers of a page, in document order.
pub open spec fn spec_plans(base: Seq<char>, containers: Seq<Seq<char>>) -> Seq<
    (Seq<char>, Seq<char>),
>
    decreases containers.len(),
{
    if containers.len() == 0 {
        Seq::empty()
    } else {
        let rest = spec_plans(base, containers.drop_first());
        match spec_plan_of(base, containers.first()) {
            Option::Some(p) => seq![p] + rest,
            Option::None => rest,
        }
    }
}

/// Per-page extraction planning: every fully extractable container yields
/// a plan; a container missing its image or its media-descriptor URL is
/// skipped. A page where nothing can be extracted is that page's failure.
pub fn plan_page(base: &str, body: &str) -> (r: Result<Vec<ItemPlan>, ScrapeError>)
    ensures
        match r {
            Result::Ok(v) => {
                let plans = spec_plans(base@, containers_of(body@));
                plans.len() > 0 && v@.map_values(|p: ItemPlan| plan_view(p)) == plans
            },
            Result::Err(e) => e == ScrapeError::NoVideos && spec_plans(
                base@,
                containers_of(body@),
            ).len() == 0,
        },
{
    let containers = select_video_containers(body);
    let ghost all = containers_of(body@);
    let n = containers.len();
    let mut plans: Vec<ItemPlan> = Vec::new();
    let mut i: usize = 0;
    proof {
        assert(all.skip(0) =~= all);
        assert(plans@.map_values(|p: ItemPlan| plan_view(p)) =~= Seq::<
            (Seq<char>, Seq<char>),
        >::empty());
    }
    while i < n
        invariant
            i <= n,
            n == containers@.len(),
            containers.deep_view() == all,
            plans@.map_values(|p: ItemPlan| plan_view(p)) + spec_plans(base@, all.skip(i as int))
                =~= spec_plans(base@, all),
        decreases n - i,
    {
        let ghost before = plans@.map_values(|p: ItemPlan| plan_view(p));
        let container = &containers[i];
        proof {
            assert(all.skip(i as int).first() == container@);
            assert(all.skip(i as int).drop_first() =~= all.skip(i + 1));
        }
        let extracted = match find_img_src(container.as_str()) {
            Option::Some(src) => match join_url(base, src.as_str()) {
                Option::Some(img) => match find_media_object_url(container.as_str()) {
                    Option::Some(murl) => Option::Some(ItemPlan { img, media_url: murl }),
                    Option::None => Option::None,
                },
                Option::None => Option::None,
            },
            Option::None => Option::None,
        };
        match extracted {
            Option::Some(plan) => {
                proof {
                    assert(spec_plan_of(base@, container@) == Option::Some(plan_view(plan)));
                }
                plans.push(plan);
                proof {
                    assert(plans@.map_values(|p: ItemPlan| plan_view(p)) =~= before.push(
                        plan_view(plans@.last()),
                    ));
                    assert(before.push(plan_view(plans@.last())) + spec_plans(
                        base@,
                        all.skip(i + 1),
                    ) =~= before + (seq![plan_view(plans@.last())] + spec_plans(
                        base@,
                        all.skip(i + 1),
                    )));
                }
            },
            Option::None => {
                proof {
                    assert(spec_plan_of(base@, container@) is None);
                }
            },
        }
        i += 1;
    }
    proof {
        assert(all.skip(n as int) =~= Seq::<Seq<char>>::empty());
        assert(plans@.map_values(|p: ItemPlan| plan_view(p)) + Seq::<
            (Seq<char>, Seq<char>),
        >::empty() =~= plans@.map_values(|p: ItemPlan| plan_view(p)));
    }
    if plans.len() == 0 {
        proof {
            assert(spec_plans(base@, all).len() == 0);
        }
        Result::Err(ScrapeError::NoVideos)
    } else {
        Result::Ok(plans)
    }
}

/// The pairs whose media descriptor could be fetched and parsed, in order.
pub open spec fn spec_kept(pairs: Seq<(ItemPlan, Option<WdrMedia>)>) -> Seq<(ItemPlan, WdrMedia)>
    decreases pairs.len(),
{
    if pairs.len() == 0 {
        Seq::empty()
    } else {
        let rest = spec_kept(pairs.drop_first());
        match pairs.first().1 {
            Option::Some(m) => seq![(pairs.first().0, m)] + rest,
            Option::None => rest,
        }
    }
}

/// Closes one page's extraction: plans whose media descriptor arrived
/// become items; a page where none arrived is that page's failure.
pub fn assemble_page(topic: Topic, pairs: Vec<(ItemPlan, Option<WdrMedia>)>) -> (r: Result<
    Vec<Scraperesult>,
    ScrapeError,
>)
    ensures
        match r {
            Result::Ok(v) => {
                let kept = spec_kept(pairs@);
                kept.len() > 0 && v@.len() == kept.len() && forall|i: int|
                    0 <= i < kept.len() ==> (#[trigger] v@[i]).topic == topic && v@[i].img == (
                    kept[i].0).img && v@[i].media == kept[i].1
            },
            Result::Err(e) => e == ScrapeError::NoVideos && spec_kept(pairs@).len() == 0,
        },
{
    let ghost orig = pairs@;
    let ghost kept = spec_kept(orig);
    let mut rest = pairs;
    let mut out: Vec<Scraperesult> = Vec::new();
    proof {
        assert(orig.skip(0) =~= orig);
    }
    while rest.len() > 0
        invariant
            rest@.len() <= orig.len(),
            rest@ =~= orig.skip(orig.len() - rest@.len()),
            out@.len() + spec_kept(rest@).len() == kept.len(),
            forall|i: int|
                0 <= i < out@.len() ==> (#[trigger] out@[i]).topic == topic && out@[i].img == (
                kept[i].0).img && out@[i].media == kept[i].1,
            forall|i: int|
                0 <= i < spec_kept(rest@).len() ==> spec_kept(rest@)[i] == kept[out@.len() + i],
        decreases rest@.len(),
    {
        let ghost rb = rest@;
        let (plan, m) = rest.remove(0);
        proof {
            assert(rest@ =~= rb.drop_first());
            assert(rb.first() == (plan, m));
            let k = orig.len() - rb.len();
            assert forall|t: int| 0 <= t < rb.drop_first().len() implies rb.drop_first()[t]
                == orig.skip(k + 1)[t] by {
                assert(rb.drop_first()[t] == rb[t + 1]);
                assert(rb[t + 1] == orig.skip(k)[t + 1]);
                assert(orig.skip(k)[t + 1] == orig[k + t + 1]);
                assert(orig.skip(k + 1)[t] == orig[k + 1 + t]);
            }
            assert(rb.drop_first() =~= orig.skip(k + 1));
        }
        match m {
            Option::Some(media) => {
                let ghost out_before = out@;
                proof {
                    assert(spec_kept(rb) =~= seq![(plan, media)] + spec_kept(rb.drop_first()));
                    assert(spec_kept(rb)[0] == ((plan, media)));
                    assert(kept[out@.len() as int] == ((plan, media)));
                }
                out.push(Scraperesult { topic, img: plan.img, media });
                proof {
                    assert forall|i: int| 0 <= i < spec_kept(rest@).len() implies spec_kept(
                        rest@,
                    )[i] == kept[out@.len() + i] by {
                        assert(spec_kept(rb)[i + 1] == (seq![(plan, media)] + spec_kept(
                            rb.drop_first(),
                        ))[i + 1]);
                        assert((seq![(plan, media)] + spec_kept(rb.drop_first()))[i + 1]
                            == spec_kept(rb.drop_first())[i]);
                        assert(spec_kept(rb)[i + 1] == kept[out_before.len() + i + 1]);
                    }
                }
            },
            Option::None => {
                proof {
                    assert(spec_kept(rb) =~= spec_kept(rb.drop_first()));
                }
            },
        }
    }
    proof {
        assert(spec_kept(rest@).len() == 0);
    }
    if out.len() == 0 {
        Result::Err(ScrapeError::NoVideos)
    } else {
        Result::Ok(out)
    }
}

/// The media-descriptor payload inside a fetched resource: everything from
/// the first opening brace on (from the start, when there is none), with
/// any trailing wrapper characters of a JSONP response removed.
pub open spec fn spec_trim_tail(s: Seq<char>) -> Seq<char>
    decreases s.len(),
{
    if s.len() > 0 && (s.last() == ')' || s.last() == ';') {
        spec_trim_tail(s.drop_last())
    } else {
        s
    }
}

/// The index of the first opening brace, if any.
pub open spec fn spec_first_brace(s: Seq<char>) -> Option<int>
    decreases s.len(),
{
    if s.len() == 0 {
        Option::None
    } else if s.first() == '{' {
        Option::Some(0int)
    } else {
        match spec_first_brace(s.drop_first()) {
            Option::Some(i) => Option::Some(i + 1),
            Option::None => Option::None,
        }
    }
}

pub open spec fn spec_payload(s: Seq<char>) -> Seq<char> {
    let start = match spec_first_brace(s) {
        Option::Some(i) => i,
        Option::None => 0int,
    };
    spec_trim_tail(s.skip(start))
}

/// Cuts the JSON payload out of a fetched media-descriptor resource.
pub fn json_payload(s: &str) -> (r: String)
    ensures
        r@ == spec_payload(s@),
{
    let n = s.unicode_len();
    let mut begin: usize = 0;
    let mut found = false;
    let mut i: usize = 0;
    proof {
        assert(s@.skip(0) =~= s@);
    }
    while i < n && !found
        invariant
            i <= n,
            n == s@.len(),
            !found ==> begin == 0 && spec_first_brace_from(s@, i as int) == spec_first_brace(s@),
            found ==> begin < n && spec_first_brace(s@) == Option::Some(begin as int),
        decreases n - i + (if found {
            0int
        } else {
            1int
        }),
    {
        if s.get_char(i) == '{' {
            found = true;
            begin = i;
            proof {
                lemma_first_brace_from_hit(s@, i as int);
            }
        } else {
            proof {
                lemma_first_brace_from_step(s@, i as int);
            }
            i += 1;
        }
    }
    proof {
        if !found {
            lemma_first_brace_from_end(s@, n as int);
        }
    }
    let mut end: usize = n;
    proof {
        assert(s@.skip(begin as int).subrange(0, (end - begin) as int) =~= s@.skip(begin as int));
    }
    loop
        invariant
            begin <= end <= n,
            n == s@.len(),
            spec_trim_tail(s@.skip(begin as int)) == spec_trim_tail(
                s@.skip(begin as int).subrange(0, (end - begin) as int),
            ),
        ensures
            begin <= end <= n,
            spec_trim_tail(s@.skip(begin as int)) == s@.subrange(begin as int, end as int),
        decreases end,
    {
        proof {
            let cur = s@.skip(begin as int).subrange(0, (end - begin) as int);
            assert(cur =~= s@.subrange(begin as int, end as int));
            if end > begin {
                assert(cur.last() == s@[end - 1]);
            }
        }
        if end == begin {
            break ;
        }
        let c = s.get_char(end - 1);
        if !(c == ')' || c == ';') {
            break ;
        }
        proof {
            let cur = s@.skip(begin as int).subrange(0, (end - begin) as int);
            assert(cur.last() == s@[end - 1]);
            assert(cur.drop_last() =~= s@.skip(begin as int).subrange(0, (end - 1 - begin) as int));
        }
        end = end - 1;
    }
    proof {
        match spec_first_brace(s@) {
            Option::Some(i) => {
                assert(begin as int == i);
            },
            Option::None => {
                assert(begin == 0);
            },
        }
    }
    s.substring_char(begin, end).to_owned()
}

/// The first brace at or after position `i`.
pub open spec fn spec_first_brace_from(s: Seq<char>, i: int) -> Option<int> {
    match spec_first_brace(s.skip(i)) {
        Option::Some(j) => Option::Some(i + j),
        Option::None => Option::None,
    }
}

proof fn lemma_first_brace_from_hit(s: Seq<char>, i: int)
    requires
        0 <= i < s.len(),
        s[i] == '{',
    ensures
        spec_first_brace_from(s, i) == Option::Some(i),
{
    assert(s.skip(i).first() == s[i]);
}

proof fn lemma_first_brace_from_step(s: Seq<char>, i: int)
    requires
        0 <= i < s.len(),
        s[i] != '{',
    ensures
        spec_first_brace_from(s, i) == spec_first_brace_from(s, i + 1),
{
    assert(s.skip(i).first() == s[i]);
    assert(s.skip(i).drop_first() =~= s.skip(i + 1));
}

proof fn lemma_first_brace_from_end(s: Seq<char>, n: int)
    requires
        n == s.len(),
    ensures
        spec_first_brace_from(s, n) is None,
{
    assert(s.skip(n) =~= Seq::<char>::empty());
}

} // verus!
