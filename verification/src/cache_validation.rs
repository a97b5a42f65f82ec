//! Entity tags and the decision of a conditional `GET`: whether a response
//! may be answered with `304 Not Modified`.

use vstd::prelude::*;
use vstd::string::*;
use vstd::utf8::is_ascii_chars;
use crate::clock::{Instant, instant_le, rfc2822_parse, parse_rfc2822};

verus! {

/// An entity tag: whether it is weak, and the opaque text between its quotes.
pub struct ETag {
    pub weak: bool,
    pub tag: String,
}

/// An entity tag as values.
pub struct ETagView {
    pub weak: bool,
    pub tag: Seq<char>,
}

impl View for ETag {
    type V = ETagView;

    open spec fn view(&self) -> ETagView {
        ETagView { weak: self.weak, tag: self.tag@ }
    }
}

/// The header text of an entity tag: `W/"tag"` when weak, `"tag"` otherwise.
pub open spec fn etag_text(e: ETagView) -> Seq<char> {
    (if e.weak {
        "W/\""@
    } else {
        "\""@
    }) + e.tag + "\""@
}

/// The largest tag that the `etag` crate holds, in bytes.
pub const MAX_TAG_LEN: usize = 62;

/// An entity tag with the given weakness and text, when the text is ASCII
/// and fits the `etag` crate's buffer.
pub open spec fn checked_etag(weak: bool, tag: Seq<char>) -> Option<ETagView> {
    if is_ascii_chars(tag) && tag.len() <= MAX_TAG_LEN {
        Some(ETagView { weak, tag })
    } else {
        None
    }
}

/// How `<etag::EntityTag as FromStr>::from_str` reads a header: the text ends
/// with a quote and is at least two long; `"tag"` is strong and `W/"tag"` weak.
pub open spec fn etag_parse(s: Seq<char>) -> Option<ETagView> {
    let n = s.len();
    if n < 2 || s[n - 1] != '"' {
        None
    } else if s[0] == '"' {
        checked_etag(false, s.subrange(1, n - 1))
    } else if n >= 4 && s[0] == 'W' && s[1] == '/' && s[2] == '"' {
        checked_etag(true, s.subrange(3, n - 1))
    } else {
        None
    }
}

/// The entity tag of an optional header, as values.
pub open spec fn option_etag_view(e: Option<ETag>) -> Option<ETagView> {
    match e {
        Some(e) => Some(e@),
        None => None,
    }
}

/// The tag text that `etag::EntityTag::from_data` computes for `bytes`
/// (`<length>-<xxh3-128 hash>`, both in decimal).
pub uninterp spec fn etag_data_tag(bytes: Seq<u8>) -> Seq<char>;

/// Reads an entity tag with `<etag::EntityTag as FromStr>::from_str`, whose
/// whole behaviour is `etag_parse`.
#[verifier::external_body]
pub(crate) fn parse_entity_tag(text: &str) -> (r: Option<ETag>)
    ensures
        option_etag_view(r) == etag_parse(text@),
{
    match text.parse::<etag::EntityTag>() {
        Ok(t) => Some(ETag { weak: t.weak, tag: t.tag().to_string() }),
        Err(_) => None,
    }
}

/// `etag::EntityTag::from_data`: a strong tag computed from `bytes`.
#[verifier::external_body]
pub(crate) fn entity_tag_from_data(bytes: &[u8]) -> (r: ETag)
    ensures
        r@ == (ETagView { weak: false, tag: etag_data_tag(bytes@) }),
{
    let t = etag::EntityTag::from_data(bytes);
    ETag { weak: t.weak, tag: t.tag().to_string() }
}

impl ETag {
    /// The text of the `ETag` header (how `etag::EntityTag` displays).
    pub fn header_value(&self) -> (s: String)
        ensures
            s@ == etag_text(self@),
    {
        let mut s = if self.weak {
            String::from_str("W/\"")
        } else {
            String::from_str("\"")
        };
        s.append(self.tag.as_str());
        s.append("\"");
        s
    }

    /// Weak comparison: the tags match, whatever their weakness
    /// (`etag::EntityTag::weak_eq`).
    pub fn weak_eq(&self, other: &ETag) -> (r: bool)
        ensures
            r == (self.tag@ == other.tag@),
    {
        self.tag == other.tag
    }
}

/// The entity tag that a response already carries in its `ETag` header, if
/// the header is there and well formed.
pub fn existing_etag(header: Option<&str>) -> (r: Option<ETag>)
    ensures
        option_etag_view(r) == match header {
            Some(h) => etag_parse(h@),
            None => None,
        },
{
    match header {
        Some(h) => parse_entity_tag(h),
        None => None,
    }
}

/// The entity tag computed for a response body: none for an empty body, else
/// the strong tag of its bytes.
pub fn body_etag(body: &[u8]) -> (r: Option<ETag>)
    ensures
        body@.len() == 0 ==> r is None,
        body@.len() > 0 ==> option_etag_view(r) == Some(
            ETagView { weak: false, tag: etag_data_tag(body@) },
        ),
{
    if body.len() == 0 {
        None
    } else {
        Some(entity_tag_from_data(body))
    }
}

/// Whether a response with entity tag `etag` is answered `304 Not Modified`,
/// given what was read from the request's `If-None-Match` (absent, or present
/// and perhaps ill-formed), and the request's `If-Modified-Since` and the
/// response's `Last-Modified` dates where both were read.
pub open spec fn not_modified(
    etag: ETagView,
    if_none_match: Option<Option<ETagView>>,
    if_modified_since: Option<Instant>,
    last_modified: Option<Instant>,
) -> bool {
    match if_none_match {
        Some(Some(e)) => e.tag == etag.tag,
        Some(None) => false,
        None => match (if_modified_since, last_modified) {
            (Some(since), Some(modified)) => instant_le(modified, since),
            _ => false,
        },
    }
}

/// Decides a conditional `GET` from the already-read validators. An
/// `If-None-Match` header, when present, decides alone: the tags must match
/// weakly. Otherwise the response is unchanged when it was last modified no
/// later than the `If-Modified-Since` date.
pub fn decide_not_modified(
    etag: &ETag,
    if_none_match: Option<Option<ETag>>,
    if_modified_since: Option<Instant>,
    last_modified: Option<Instant>,
) -> (r: bool)
    ensures
        r == not_modified(
            etag@,
            match if_none_match {
                Some(e) => Some(option_etag_view(e)),
                None => None,
            },
            if_modified_since,
            last_modified,
        ),
{
    match if_none_match {
        Some(Some(e)) => etag.weak_eq(&e),
        Some(None) => false,
        None => match (if_modified_since, last_modified) {
            (Some(since), Some(modified)) => modified.not_after(&since),
            _ => false,
        },
    }
}

/// The date read from an optional header, as values.
pub open spec fn header_date(h: Option<Seq<char>>) -> Option<Instant> {
    match h {
        Some(t) => match rfc2822_parse(t) {
            Some((secs, nanos)) => Some(Instant { secs, nanos }),
            None => None,
        },
        None => None,
    }
}

/// The view of an optional header.
pub open spec fn header_view(h: Option<&str>) -> Option<Seq<char>> {
    match h {
        Some(t) => Some(t@),
        None => None,
    }
}

/// The date that an optional header holds, read as RFC 2822.
pub fn header_instant(header: Option<&str>) -> (r: Option<Instant>)
    ensures
        r == header_date(header_view(header)),
{
    match header {
        Some(h) => parse_rfc2822(h),
        None => None,
    }
}

/// What becomes of a response's entity tag.
pub enum TagChoice {
    /// The response carries a well-formed `ETag` header; it is kept as it is.
    Existing(ETag),
    /// The response carries none; its body has to be read first.
    ReadBody,
    /// The body is empty: there is no tag to compute, and the response
    /// passes through as it is, with no conditional handling.
    PassThrough,
    /// The strong tag of the body's bytes, to be added as the `ETag` header.
    Computed(ETag),
}

/// What becomes of a response's entity tag, as values.
pub enum TagChoiceView {
    Existing(ETagView),
    ReadBody,
    PassThrough,
    Computed(ETagView),
}

impl View for TagChoice {
    type V = TagChoiceView;

    open spec fn view(&self) -> TagChoiceView {
        match self {
            TagChoice::Existing(e) => TagChoiceView::Existing(e@),
            TagChoice::ReadBody => TagChoiceView::ReadBody,
            TagChoice::PassThrough => TagChoiceView::PassThrough,
            TagChoice::Computed(e) => TagChoiceView::Computed(e@),
        }
    }
}

/// The choice for a response with the given `ETag` header and, when it was
/// read, body: an existing well-formed tag is taken to be better than one
/// computed here; an empty body gets none.
pub open spec fn tag_choice(header: Option<Seq<char>>, body: Option<Seq<u8>>) -> TagChoiceView {
    match match header {
        Some(h) => etag_parse(h),
        None => None,
    } {
        Some(e) => TagChoiceView::Existing(e),
        None => match body {
            None => TagChoiceView::ReadBody,
            Some(b) => if b.len() == 0 {
                TagChoiceView::PassThrough
            } else {
                TagChoiceView::Computed(ETagView { weak: false, tag: etag_data_tag(b) })
            },
        },
    }
}

/// Decides what becomes of a response's entity tag, from its `ETag` header
/// and, once read, its body.
pub fn choose_etag(header: Option<&str>, body: Option<&[u8]>) -> (r: TagChoice)
    ensures
        r@ == tag_choice(
            header_view(header),
            match body {
                Some(b) => Some(b@),
                None => None,
            },
        ),
{
    match existing_etag(header) {
        Some(e) => TagChoice::Existing(e),
        None => match body {
            None => TagChoice::ReadBody,
            Some(b) => match body_etag(b) {
                Some(e) => TagChoice::Computed(e),
                None => TagChoice::PassThrough,
            },
        },
    }
}

/// Whether a response with entity tag `etag` is answered `304 Not Modified`,
/// from the raw header texts: the request's `If-None-Match` and
/// `If-Modified-Since`, and the response's `Last-Modified`. The date of
/// `Last-Modified` is only read when `If-Modified-Since` holds a date.
pub fn is_not_modified(
    etag: &ETag,
    if_none_match: Option<&str>,
    if_modified_since: Option<&str>,
    last_modified: Option<&str>,
) -> (r: bool)
    ensures
        r == not_modified(
            etag@,
            match if_none_match {
                Some(h) => Some(etag_parse(h@)),
                None => None,
            },
            header_date(header_view(if_modified_since)),
            header_date(header_view(last_modified)),
        ),
{
    let inm = match if_none_match {
        Some(h) => Some(parse_entity_tag(h)),
        None => None,
    };
    let since = match if_modified_since {
        Some(h) => parse_rfc2822(h),
        None => None,
    };
    let modified = match (&since, last_modified) {
        (Some(_), Some(h)) => parse_rfc2822(h),
        _ => None,
    };
    decide_not_modified(etag, inm, since, modified)
}

/// The header text of an entity tag reads back as the same tag.
pub proof fn law_etag_text_roundtrip(e: ETagView)
    requires
        is_ascii_chars(e.tag),
        e.tag.len() <= MAX_TAG_LEN,
    ensures
        etag_parse(etag_text(e)) == Some(e),
{
    reveal_strlit("W/\"");
    reveal_strlit("\"");
    let s = etag_text(e);
    let n = s.len();
    if e.weak {
        assert(s.subrange(3, n - 1) =~= e.tag);
    } else {
        assert(s.subrange(1, n - 1) =~= e.tag);
    }
}

/// A request that names the response's own entity tag in `If-None-Match`
/// (as the header text of any tag with the same text) is answered
/// `304 Not Modified`, whatever its dates.
pub proof fn law_own_etag_not_modified(
    e: ETagView,
    presented: ETagView,
    if_modified_since: Option<Instant>,
    last_modified: Option<Instant>,
)
    requires
        is_ascii_chars(presented.tag),
        presented.tag.len() <= MAX_TAG_LEN,
        presented.tag == e.tag,
    ensures
        not_modified(
            e,
            Some(etag_parse(etag_text(presented))),
            if_modified_since,
            last_modified,
        ),
{
    law_etag_text_roundtrip(presented);
}

/// When `If-None-Match` is present, it decides alone: the dates play no part.
pub proof fn law_if_none_match_decides(
    e: ETagView,
    presented: Option<ETagView>,
    since1: Option<Instant>,
    modified1: Option<Instant>,
    since2: Option<Instant>,
    modified2: Option<Instant>,
)
    ensures
        not_modified(e, Some(presented), since1, modified1) == not_modified(
            e,
            Some(presented),
            since2,
            modified2,
        ),
{
}

/// Without `If-None-Match`, a response is not modified when it changed at
/// or before the date the request names, and modified when it changed after.
pub proof fn law_dates_decide(e: ETagView, since: Instant, modified: Instant)
    ensures
        not_modified(e, None, Some(since), Some(modified)) == instant_le(modified, since),
        not_modified(e, None, Some(since), Some(since)),
        not_modified(e, None, None, Some(modified)) == false,
{
}

/// A response whose `ETag` header parses as an entity tag, weak or strong,
/// keeps exactly that tag, whatever its body.
pub proof fn law_existing_tag_kept(header: Seq<char>, body: Option<Seq<u8>>)
    requires
        etag_parse(header) is Some,
    ensures
        tag_choice(Some(header), body) == TagChoiceView::Existing(etag_parse(header)->0),
{
}

/// A response whose `ETag` header is the header text of a tag, weak or
/// strong, keeps that very tag, whatever its body.
pub proof fn law_written_tag_kept(e: ETagView, body: Option<Seq<u8>>)
    requires
        is_ascii_chars(e.tag),
        e.tag.len() <= MAX_TAG_LEN,
    ensures
        tag_choice(Some(etag_text(e)), body) == TagChoiceView::Existing(e),
{
    law_etag_text_roundtrip(e);
}

/// A tag is computed only for a response without a well-formed `ETag`
/// header: a computed tag is always strong, from a non-empty body.
pub proof fn law_computed_only_without_tag(header: Option<Seq<char>>, body: Option<Seq<u8>>)
    ensures
        tag_choice(header, body) is Computed ==> {
            &&& (header matches Some(h) ==> etag_parse(h) is None)
            &&& (body matches Some(b) && b.len() > 0)
            &&& !tag_choice(header, body)->Computed_0.weak
        },
{
}

/// A well-formed `If-None-Match` tag answers `304 Not Modified` exactly when
/// its text is the response's tag text, whatever the weakness of either and
/// whatever the dates: tags that differ in any character are modified.
pub proof fn law_if_none_match_compares_tag_text(
    e: ETagView,
    presented: ETagView,
    if_modified_since: Option<Instant>,
    last_modified: Option<Instant>,
)
    ensures
        not_modified(e, Some(Some(presented)), if_modified_since, last_modified) <==> presented.tag
            == e.tag,
{
}

/// A request that presents the header text of a tag in `If-None-Match` is
/// answered `304 Not Modified` exactly when that tag's text is the
/// response's: the header text of another tag gets the full response.
pub proof fn law_presented_header_decides(
    e: ETagView,
    presented: ETagView,
    if_modified_since: Option<Instant>,
    last_modified: Option<Instant>,
)
    requires
        is_ascii_chars(presented.tag),
        presented.tag.len() <= MAX_TAG_LEN,
    ensures
        not_modified(e, Some(etag_parse(etag_text(presented))), if_modified_since, last_modified)
            <==> presented.tag == e.tag,
{
    law_etag_text_roundtrip(presented);
}

} // verus!
