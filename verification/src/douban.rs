//! The description of a show as the metadata provider gives it: where to ask
//! for it, what comes back, and the name under which its picture is kept.

use std::collections::hash_map::DefaultHasher;
use std::hash::Hasher;
use vstd::prelude::*;
use vstd::std_specs::hash::DefaultHasherAdditionalSpecFns;
use vstd::string::*;
use crate::model::Rating;
use crate::text::decimal;
use crate::text::to_decimal;

verus! {

pub const BASE_URL: &'static str = "https://www.douban.com";

pub const SEARCH: &'static str = "/search";

pub const DETAIL: &'static str = "/subject/";

/// The agent that requests to the provider name themselves as.
pub const DEFAULT_USER_AGENT: &'static str =
    "Mozilla/5.0 (Windows NT 10.0; Win64; x64) AppleWebKit/537.36 (KHTML, like Gecko) Chrome/103.0.0.0 Safari/537.36";

/// The message of the failure to find a subject's link on the result page.
pub const NO_LINK: &'static str = "Failed to get link of subject";

/// A failure while the provider is asked.
#[derive(Debug)]
pub struct DoubanError {
    pub message: String,
}

impl DoubanError {
    /// A failure with the given message.
    pub fn new(message: &str) -> (r: Self)
        ensures
            r.message@ == message@,
    {
        DoubanError { message: String::from_str(message) }
    }

    /// The message of the failure.
    pub fn text(&self) -> (r: String)
        ensures
            r@ == self.message@,
    {
        self.message.clone()
    }
}

/// What the provider says of a show.
#[derive(Debug)]
pub struct Subject {
    pub pic: String,
    pub directors: String,
    pub writers: String,
    pub actors: String,
    pub types: String,
    pub released_at: String,
    pub summary: String,
    pub rating: Rating,
}

pub struct SubjectView {
    pub pic: Seq<char>,
    pub directors: Seq<char>,
    pub writers: Seq<char>,
    pub actors: Seq<char>,
    pub types: Seq<char>,
    pub released_at: Seq<char>,
    pub summary: Seq<char>,
    pub rating: rusqlite::types::Value,
}

impl View for Subject {
    type V = SubjectView;

    open spec fn view(&self) -> SubjectView {
        SubjectView {
            pic: self.pic@,
            directors: self.directors@,
            writers: self.writers@,
            actors: self.actors@,
            types: self.types@,
            released_at: self.released_at@,
            summary: self.summary@,
            rating: self.rating.value,
        }
    }
}

/// The address of the provider's search for `keyword`.
pub open spec fn search_address(keyword: Seq<char>) -> Seq<char> {
    BASE_URL@ + SEARCH@ + "?cat=1002&q="@ + keyword
}

/// The address to ask for the shows that match `keyword`.
pub fn search_url(keyword: &str) -> (r: String)
    ensures
        r@ == search_address(keyword@),
{
    let mut url = String::from_str(BASE_URL);
    url.append(SEARCH);
    url.append("?cat=1002&q=");
    url.append(keyword);
    url
}

/// One pair of a query string.
#[derive(Debug)]
pub struct Pair {
    pub key: String,
    pub value: String,
}

pub struct PairView {
    pub key: Seq<char>,
    pub value: Seq<char>,
}

impl View for Pair {
    type V = PairView;

    open spec fn view(&self) -> PairView {
        PairView { key: self.key@, value: self.value@ }
    }
}

impl DeepView for Pair {
    type V = PairView;

    open spec fn deep_view(&self) -> PairView {
        self@
    }
}

/// What this crate reads of an address: its path and the pairs of its query
/// string, decoded, in their order.
#[derive(Debug)]
pub struct UrlParts {
    pub path: String,
    pub pairs: Vec<Pair>,
}

pub struct UrlPartsView {
    pub path: Seq<char>,
    pub pairs: Seq<PairView>,
}

impl View for UrlParts {
    type V = UrlPartsView;

    open spec fn view(&self) -> UrlPartsView {
        UrlPartsView { path: self.path@, pairs: self.pairs.deep_view() }
    }
}

/// The parts of the address that `text` is, or nothing where `text` is no
/// absolute address.
pub uninterp spec fn url_parts(text: Seq<char>) -> Option<UrlPartsView>;

/// `Url::parse`, and of the address parsed `Url::path` and
/// `Url::query_pairs`: the parts of the address that `text` is, or the text
/// of the parser's error where `text` is no absolute address.
#[verifier::external_body]
fn dissect(text: &str) -> (r: Result<UrlParts, String>)
    ensures
        match r {
            Ok(parts) => url_parts(text@) == Some(parts@),
            Err(_) => url_parts(text@) is None,
        },
{
    let url = reqwest::Url::parse(text).map_err(|error| error.to_string())?;
    let pairs = url.query_pairs().map(
        |(key, value)| Pair { key: key.into_owned(), value: value.into_owned() },
    ).collect();
    Ok(UrlParts { path: url.path().to_string(), pairs })
}

/// The index of the first slash of `s`, or its length where it has none.
pub open spec fn slash_at(s: Seq<char>) -> int
    decreases s.len(),
{
    if s.len() == 0 || s[0] == '/' {
        0
    } else {
        1 + slash_at(s.drop_first())
    }
}

/// The piece with index `n` of `s` cut at its slashes, if it has that many
/// pieces.
pub open spec fn segment(s: Seq<char>, n: nat) -> Option<Seq<char>>
    decreases n,
{
    let k = slash_at(s);
    if n == 0 {
        Some(s.take(k))
    } else if k < s.len() {
        segment(s.skip(k + 1), (n - 1) as nat)
    } else {
        None
    }
}

proof fn lemma_slash_at(s: Seq<char>, k: int)
    requires
        0 <= k <= s.len(),
        forall|j: int| 0 <= j < k ==> s[j] != '/',
        k == s.len() || s[k] == '/',
    ensures
        slash_at(s) == k,
    decreases s.len(),
{
    if k > 0 {
        let rest = s.drop_first();
        lemma_slash_at(rest, k - 1);
    }
}

/// The piece with index `n` of `path` cut at its slashes.
pub fn segment_of(path: &str, n: usize) -> (r: Option<String>)
    ensures
        match r {
            Some(piece) => segment(path@, n as nat) == Some(piece@),
            None => segment(path@, n as nat) is None,
        },
{
    let len = path.unicode_len();
    let mut start: usize = 0;
    let mut left: usize = n;
    assert(path@.skip(0) =~= path@);
    loop
        invariant
            len == path@.len(),
            start <= len,
            left <= n,
            segment(path@, n as nat) == segment(path@.skip(start as int), left as nat),
        decreases left,
    {
        let mut end: usize = start;
        while end < len && path.get_char(end) != '/'
            invariant
                len == path@.len(),
                start <= end <= len,
                forall|j: int| start <= j < end ==> path@[j] != '/',
            decreases len - end,
        {
            end = end + 1;
        }
        proof {
            let rest = path@.skip(start as int);
            lemma_slash_at(rest, end - start);
        }
        if left == 0 {
            let piece = String::from_str(path.substring_char(start, end));
            return Some(piece);
        }
        if end == len {
            return None;
        }
        assert(path@.skip(start as int).skip(end - start + 1) =~= path@.skip(end + 1));
        start = end + 1;
        left = left - 1;
    }
}

/// The address of the page of the subject that `path` leads to: the third
/// piece of the path is the subject's id.
pub open spec fn detail_link(path: Seq<char>) -> Option<Seq<char>> {
    match segment(path, 2) {
        Some(id) => Some(BASE_URL@ + DETAIL@ + id),
        None => None,
    }
}

/// The address of the subject's page, where `path` names a subject.
pub fn link_of_path(path: &str) -> (r: Option<String>)
    ensures
        match r {
            Some(link) => detail_link(path@) == Some(link@),
            None => detail_link(path@) is None,
        },
{
    match segment_of(path, 2) {
        Some(id) => {
            let mut link = String::from_str(BASE_URL);
            link.append(DETAIL);
            link.append(id.as_str());
            Some(link)
        },
        None => None,
    }
}

/// What a search for the subject's link among the pairs of a query string
/// ends with.
pub enum Found {
    /// The link, or the empty text where no pair leads to a subject.
    Link(Seq<char>),
    /// A pair named `url` holds no address.
    Broken,
}

/// Searches the pairs in order for one named `url` whose value is an address
/// with a subject's id in its path.
pub open spec fn link_among(pairs: Seq<PairView>) -> Found
    decreases pairs.len(),
{
    if pairs.len() == 0 {
        Found::Link(Seq::empty())
    } else if pairs[0].key == "url"@ {
        match url_parts(pairs[0].value) {
            None => Found::Broken,
            Some(inner) => match detail_link(inner.path) {
                Some(link) => Found::Link(link),
                None => link_among(pairs.drop_first()),
            },
        }
    } else {
        link_among(pairs.drop_first())
    }
}

/// The link of the subject that the first result of a search points to:
/// `href` is the target of that result, which passes the subject's address
/// on in the pair `url` of its query string.
pub open spec fn subject_link(href: Option<Seq<char>>) -> Found {
    match href {
        None => Found::Broken,
        Some(target) => match url_parts(target) {
            None => Found::Broken,
            Some(parts) => link_among(parts.pairs),
        },
    }
}

/// The address of the subject's page, from the target of the first result
/// of the provider's search.
///
/// It fails where there is no target, where the target is no address, and
/// where a pair named `url` that is looked at holds no address. It is the
/// empty text where the target names no subject.
pub fn get_subject_url(href: Option<&str>) -> (r: Result<String, DoubanError>)
    ensures
        match r {
            Ok(link) => subject_link(
                match href {
                    Some(target) => Some(target@),
                    None => None,
                },
            ) == Found::Link(link@),
            Err(_) => subject_link(
                match href {
                    Some(target) => Some(target@),
                    None => None,
                },
            ) is Broken,
        },
        href is None ==> r is Err && r->Err_0.message@ == NO_LINK@,
{
    let target = match href {
        Some(target) => target,
        None => {
            return Err(DoubanError::new(NO_LINK));
        },
    };
    let parts = match dissect(target) {
        Ok(parts) => parts,
        Err(message) => {
            return Err(DoubanError { message });
        },
    };
    let ghost all = parts@.pairs;
    let wanted = String::from_str("url");
    let mut i: usize = 0;
    assert(all.skip(0) =~= all);
    while i < parts.pairs.len()
        invariant
            i <= parts.pairs.len(),
            all == parts.pairs.deep_view(),
            wanted@ == "url"@,
            href == Some(target),
            url_parts(target@) == Some(parts@),
            link_among(all) == link_among(all.skip(i as int)),
        decreases parts.pairs.len() - i,
    {
        let pair = &parts.pairs[i];
        proof {
            let rest = all.skip(i as int);
            assert(rest.drop_first() =~= all.skip(i + 1));
        }
        if pair.key == wanted {
            match dissect(pair.value.as_str()) {
                Err(message) => {
                    return Err(DoubanError { message });
                },
                Ok(inner) => {
                    match link_of_path(inner.path.as_str()) {
                        Some(link) => {
                            return Ok(link);
                        },
                        None => {},
                    }
                },
            }
        }
        i = i + 1;
    }
    Ok(String::new())
}

/// The names joined by slashes.
pub open spec fn joined(names: Seq<Seq<char>>) -> Seq<char>
    decreases names.len(),
{
    if names.len() == 0 {
        Seq::empty()
    } else if names.len() == 1 {
        names[0]
    } else {
        joined(names.drop_last()) + "/"@ + names.last()
    }
}

/// The names of a list of people or genres as one text, separated by
/// slashes.
pub fn join_names(names: &Vec<String>) -> (r: String)
    ensures
        r@ == joined(names.deep_view()),
{
    let ghost all = names.deep_view();
    let mut out = String::new();
    let mut i: usize = 0;
    while i < names.len()
        invariant
            i <= names.len(),
            all == names.deep_view(),
            out@ == joined(all.take(i as int)),
        decreases names.len() - i,
    {
        proof {
            let next = all.take(i + 1);
            assert(next.drop_last() =~= all.take(i as int));
        }
        if i > 0 {
            out.append("/");
        }
        out.append(names[i].as_str());
        i = i + 1;
    }
    assert(all.take(i as int) =~= all);
    out
}

/// What a subject's page shows in its main block.
#[derive(Debug)]
pub struct Wrap {
    /// The address of the poster, where the block shows one.
    pub pic: Option<String>,
    pub directors: Vec<String>,
    pub writers: Vec<String>,
    pub actors: Vec<String>,
    pub types: Vec<String>,
    /// The first release, where the block names one.
    pub released_at: Option<String>,
    /// The rating, where the block shows one that reads as a number.
    pub rating: Option<Rating>,
}

pub struct WrapView {
    pub pic: Option<Seq<char>>,
    pub directors: Seq<Seq<char>>,
    pub writers: Seq<Seq<char>>,
    pub actors: Seq<Seq<char>>,
    pub types: Seq<Seq<char>>,
    pub released_at: Option<Seq<char>>,
    pub rating: Option<rusqlite::types::Value>,
}

/// The text, where there is one.
pub open spec fn shown(text: Option<String>) -> Option<Seq<char>> {
    match text {
        Some(text) => Some(text@),
        None => None,
    }
}

impl View for Wrap {
    type V = WrapView;

    open spec fn view(&self) -> WrapView {
        WrapView {
            pic: shown(self.pic),
            directors: self.directors.deep_view(),
            writers: self.writers.deep_view(),
            actors: self.actors.deep_view(),
            types: self.types.deep_view(),
            released_at: shown(self.released_at),
            rating: match self.rating {
                Some(rating) => Some(rating.value),
                None => None,
            },
        }
    }
}

/// What is read off a subject's page: its main block, where the page has
/// one, and the summary, where the page has one.
#[derive(Debug)]
pub struct Page {
    pub wrap: Option<Wrap>,
    pub summary: Option<String>,
}

pub struct PageView {
    pub wrap: Option<WrapView>,
    pub summary: Option<Seq<char>>,
}

impl View for Page {
    type V = PageView;

    open spec fn view(&self) -> PageView {
        PageView {
            wrap: match self.wrap {
                Some(wrap) => Some(wrap@),
                None => None,
            },
            summary: shown(self.summary),
        }
    }
}

/// The text, or the empty text where there is none.
pub open spec fn or_empty(text: Option<Seq<char>>) -> Seq<char> {
    match text {
        Some(text) => text,
        None => Seq::empty(),
    }
}

/// The description that a page gives: the lists of its main block joined by
/// slashes, what the page does not show left empty, and a page without a
/// rating rated `unrated`.
pub open spec fn subject_of(page: PageView, unrated: rusqlite::types::Value) -> SubjectView {
    match page.wrap {
        Some(wrap) => SubjectView {
            pic: or_empty(wrap.pic),
            directors: joined(wrap.directors),
            writers: joined(wrap.writers),
            actors: joined(wrap.actors),
            types: joined(wrap.types),
            released_at: or_empty(wrap.released_at),
            summary: or_empty(page.summary),
            rating: match wrap.rating {
                Some(rating) => rating,
                None => unrated,
            },
        },
        None => SubjectView {
            pic: Seq::empty(),
            directors: Seq::empty(),
            writers: Seq::empty(),
            actors: Seq::empty(),
            types: Seq::empty(),
            released_at: Seq::empty(),
            summary: or_empty(page.summary),
            rating: unrated,
        },
    }
}

fn text_or_empty(text: Option<String>) -> (r: String)
    ensures
        r@ == or_empty(shown(text)),
{
    match text {
        Some(text) => text,
        None => String::new(),
    }
}

/// The description of a show, from what was read off its page.
pub fn get_subject(page: Page, unrated: Rating) -> (r: Subject)
    ensures
        r@ == subject_of(page@, unrated.value),
{
    let summary = text_or_empty(page.summary);
    match page.wrap {
        Some(wrap) => Subject {
            pic: text_or_empty(wrap.pic),
            directors: join_names(&wrap.directors),
            writers: join_names(&wrap.writers),
            actors: join_names(&wrap.actors),
            types: join_names(&wrap.types),
            released_at: text_or_empty(wrap.released_at),
            summary,
            rating: match wrap.rating {
                Some(rating) => rating,
                None => unrated,
            },
        },
        None => Subject {
            pic: String::new(),
            directors: String::new(),
            writers: String::new(),
            actors: String::new(),
            types: String::new(),
            released_at: String::new(),
            summary,
            rating: unrated,
        },
    }
}

/// The name under which the picture fetched from `src` is kept: the decimal
/// numeral of the hash of the address, with the extension `.webp`.
pub open spec fn picture_name(src: &str) -> Seq<char> {
    decimal(DefaultHasher::spec_finish(seq![src.spec_bytes()]) as nat) + ".webp"@
}

/// The name of the file that holds the picture fetched from `src`. The same
/// address always gives the same name.
pub fn image_name(src: &str) -> (r: String)
    ensures
        r@ == picture_name(src),
{
    let mut hasher = DefaultHasher::new();
    hasher.write(src.as_bytes());
    let mut name = to_decimal(hasher.finish());
    name.append(".webp");
    name
}

} // verus!
