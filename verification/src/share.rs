//! Links to shares and the identifiers in them.

use crate::text::{
    blank, chars_of, is_blank, lemma_nothing_to_trim, lemma_trimmed_blank, same_text, texts, trim,
    trimmed, white_space,
};
use vstd::prelude::*;
use vstd::string::*;

verus! {

/// The longest text, in characters, that is handed to the parser of URLs whatever it holds. The
/// parser counts the characters before the path in 32 bits with a sign.
pub const URL_TEXT_LIMIT: usize = 0x7fff_ff00;

/// Why a text does not name a share.
#[derive(Clone, Copy, Debug, PartialEq, Eq, Structural)]
pub enum ShareError {
    /// A URL that has no path to look into.
    NoPath,
    /// A URL whose path holds no `/d/<id>`.
    NoIdInUrl,
    /// A text that is no URL, and blank.
    EmptyId,
}

impl ShareError {
    /// The message for the user.
    pub open spec fn text(self) -> Seq<char> {
        match self {
            ShareError::NoPath => "Gofile URL has no path"@,
            ShareError::NoIdInUrl => "could not find /d/<id> in Gofile URL"@,
            ShareError::EmptyId => "content id is empty"@,
        }
    }

    /// The message for the user.
    pub fn message(&self) -> (res: String)
        ensures
            res@ == self.text(),
    {
        match self {
            ShareError::NoPath => "Gofile URL has no path".to_owned(),
            ShareError::NoIdInUrl => "could not find /d/<id> in Gofile URL".to_owned(),
            ShareError::EmptyId => "content id is empty".to_owned(),
        }
    }
}

/// What `url::Url::path_segments` gives for the URL that `url::Url::parse` reads in a text: the
/// segments of the path, or nothing for a URL without a path of segments; nothing at all where
/// the text is not a URL.
pub uninterp spec fn url_segments(input: Seq<char>) -> Option<Option<Seq<Seq<char>>>>;

/// The model of what was read of a URL.
pub open spec fn segments_view(segments: Option<Option<Vec<String>>>) -> Option<
    Option<Seq<Seq<char>>>,
> {
    match segments {
        None => None,
        Some(None) => Some(None),
        Some(Some(list)) => Some(Some(texts(list@))),
    }
}

/// The start of a link to a share.
pub open spec fn link_start() -> Seq<char> {
    "https://gofile.io/d/"@
}

/// The link to the share with the identifier `id`.
pub open spec fn share_link(id: Seq<char>) -> Seq<char> {
    link_start() + id
}

/// The characters that identifiers of shares are made of: ASCII letters and digits, `-` and `_`.
pub open spec fn id_char(c: char) -> bool {
    'a' <= c <= 'z' || 'A' <= c <= 'Z' || '0' <= c <= '9' || c == '-' || c == '_'
}

/// Whether `id` can be the identifier of a share.
pub open spec fn plain_id(id: Seq<char>) -> bool {
    id.len() > 0 && forall|i: int| 0 <= i < id.len() ==> id_char(#[trigger] id[i])
}

/// Whether `input` is the link to a share with a plain identifier.
pub open spec fn is_share_link(input: Seq<char>) -> bool {
    &&& input.len() > link_start().len()
    &&& input.take(link_start().len() as int) == link_start()
    &&& plain_id(input.skip(link_start().len() as int))
}

/// Whether `input` can be handed to the parser of URLs: it is short enough, or the parser has
/// nothing to count in it, since it has no scheme or is the link to a share.
pub open spec fn parsable(input: Seq<char>) -> bool {
    input.len() <= URL_TEXT_LIMIT || !input.contains(':') || is_share_link(input)
}

/// The identifier in the path of a link: what follows the first `d` that is not followed by blank
/// text. A blank segment after a `d` is passed over together with it.
pub open spec fn id_after_d(segments: Seq<Seq<char>>) -> Option<Seq<char>>
    decreases segments.len(),
{
    if segments.len() < 2 {
        None
    } else if segments[0] != seq!['d'] {
        id_after_d(segments.skip(1))
    } else if blank(segments[1]) {
        id_after_d(segments.skip(2))
    } else {
        Some(segments[1])
    }
}

/// The identifier that `input` stands for, given what was read of it as a URL: the one in the path
/// of the URL, or the text itself, trimmed, where it is no URL.
pub open spec fn content_id(
    input: Seq<char>,
    segments: Option<Option<Seq<Seq<char>>>>,
) -> Result<Seq<char>, ShareError> {
    match segments {
        Some(None) => Err(ShareError::NoPath),
        Some(Some(list)) => match id_after_d(list) {
            Some(id) => Ok(id),
            None => Err(ShareError::NoIdInUrl),
        },
        None => if blank(input) {
            Err(ShareError::EmptyId)
        } else {
            Ok(trimmed(input))
        },
    }
}

/// The model of a result with an identifier.
pub open spec fn id_view(res: Result<String, ShareError>) -> Result<Seq<char>, ShareError> {
    match res {
        Ok(id) => Ok(id@),
        Err(error) => Err(error),
    }
}

/// `url::Url::parse` on `input`, then `url::Url::path_segments` on the URL, the segments as
/// strings.
///
/// The result is a function of `input`, which `url_segments` names. Two cases are stated: a text
/// without a colon has no scheme, and is refused for want of a base URL; and the path of a link to
/// a share with a plain identifier consists of the segments `d` and that identifier, since nothing
/// in them is decoded, encoded or resolved.
///
/// The parser counts the characters of the user information, which precedes the host, in 32 bits
/// with a sign. Text without a colon is refused before that, and the counting in a link to a share
/// ends at the path.
#[verifier::external_body]
fn parse_segments(input: &str) -> (res: Option<Option<Vec<String>>>)
    requires
        parsable(input@),
    ensures
        segments_view(res) == url_segments(input@),
        !input@.contains(':') ==> res is None,
        is_share_link(input@) ==> segments_view(res) == Some(
            Some(seq![seq!['d'], input@.skip(link_start().len() as int)]),
        ),
{
    match url::Url::parse(input) {
        Ok(url) => Some(url.path_segments().map(|list| list.map(|s| s.to_string()).collect())),
        Err(_) => None,
    }
}

/// The identifier that follows a `d` in `segments`.
pub fn find_id(segments: &Vec<String>) -> (res: Option<String>)
    ensures
        res is Some == id_after_d(texts(segments@)) is Some,
        res matches Some(id) ==> id_after_d(texts(segments@)) == Some(id@),
{
    let ghost all = texts(segments@);
    let mut i: usize = 0;
    proof {
        assert(all.skip(0) =~= all);
        reveal_strlit("d");
        assert("d"@ =~= seq!['d']);
    }
    while i < segments.len() && i + 1 < segments.len()
        invariant
            all == texts(segments@),
            i <= segments@.len(),
            "d"@ == seq!['d'],
            id_after_d(all) == id_after_d(all.skip(i as int)),
        decreases segments@.len() - i,
    {
        assert(all.skip(i as int)[0] == segments@[i as int]@);
        assert(all.skip(i as int)[1] == segments@[i + 1]@);
        if same_text(segments[i].as_str(), "d") {
            if !is_blank(segments[i + 1].as_str()) {
                return Some(segments[i + 1].clone());
            }
            assert(all.skip(i as int).skip(2) =~= all.skip(i + 2));
            i = i + 2;
        } else {
            assert(all.skip(i as int).skip(1) =~= all.skip(i + 1));
            i = i + 1;
        }
    }
    None
}

/// The identifier that `input` stands for, given what was read of it as a URL.
pub fn resolve_content_id(input: &str, segments: Option<Option<Vec<String>>>) -> (res: Result<
    String,
    ShareError,
>)
    ensures
        id_view(res) == content_id(input@, segments_view(segments)),
{
    match segments {
        Some(None) => Err(ShareError::NoPath),
        Some(Some(list)) => match find_id(&list) {
            Some(id) => Ok(id),
            None => Err(ShareError::NoIdInUrl),
        },
        None => {
            proof {
                lemma_trimmed_blank(input@);
            }
            let id = trim(input);
            if id.is_empty() {
                Err(ShareError::EmptyId)
            } else {
                Ok(id.to_owned())
            }
        },
    }
}

fn is_id_char(c: char) -> (res: bool)
    ensures
        res == id_char(c),
{
    ('a' <= c && c <= 'z') || ('A' <= c && c <= 'Z') || ('0' <= c && c <= '9') || c == '-' || c
        == '_'
}

fn links_to_share(input: &Vec<char>) -> (res: bool)
    ensures
        res == is_share_link(input@),
{
    let start = chars_of("https://gofile.io/d/");
    if input.len() <= start.len() {
        return false;
    }
    let mut i: usize = 0;
    while i < input.len()
        invariant
            start@ == link_start(),
            start@.len() < input@.len(),
            i <= input@.len(),
            forall|k: int| 0 <= k < i && k < start@.len() ==> input@[k] == start@[k],
            forall|k: int| start@.len() <= k < i ==> id_char(#[trigger] input@[k]),
        decreases input@.len() - i,
    {
        let fits = if i < start.len() {
            input[i] == start[i]
        } else {
            is_id_char(input[i])
        };
        if !fits {
            proof {
                if i < start@.len() {
                    assert(input@.take(start@.len() as int)[i as int] != link_start()[i as int]);
                } else {
                    let id = input@.skip(start@.len() as int);
                    assert(!id_char(id[i - start@.len()]));
                }
            }
            return false;
        }
        i = i + 1;
    }
    assert(input@.take(start@.len() as int) =~= link_start());
    true
}

/// Whether `input` can be handed to the parser of URLs.
pub fn is_parsable(input: &str) -> (res: bool)
    ensures
        res == parsable(input@),
{
    let chars = chars_of(input);
    if chars.len() <= URL_TEXT_LIMIT || links_to_share(&chars) {
        return true;
    }
    let mut i: usize = 0;
    while i < chars.len()
        invariant
            chars@ == input@,
            chars@.len() > URL_TEXT_LIMIT,
            !is_share_link(chars@),
            i <= chars@.len(),
            forall|k: int| 0 <= k < i ==> chars@[k] != ':',
        decreases chars@.len() - i,
    {
        if chars[i] == ':' {
            assert(input@[i as int] == ':');
            return false;
        }
        i = i + 1;
    }
    true
}

/// The identifier of the share that `input` names, by a link or by the identifier itself.
///
/// The link to the share with a plain identifier gives that identifier, and so does the identifier
/// alone: text without a colon is taken for one, trimmed.
pub fn extract_content_id(input: &str) -> (res: Result<String, ShareError>)
    requires
        parsable(input@),
    ensures
        id_view(res) == content_id(input@, url_segments(input@)),
        forall|id: Seq<char>| #[trigger]
            plain_id(id) && (input@ == share_link(id) || input@ == id) ==> id_view(res) == Ok::<
                Seq<char>,
                ShareError,
            >(id),
        !input@.contains(':') && !blank(input@) ==> id_view(res) == Ok::<Seq<char>, ShareError>(
            trimmed(input@),
        ),
        !input@.contains(':') && blank(input@) ==> res == Err::<String, ShareError>(
            ShareError::EmptyId,
        ),
{
    let segments = parse_segments(input);
    proof {
        assert forall|id: Seq<char>| #[trigger]
            plain_id(id) && (input@ == share_link(id) || input@ == id) implies content_id(
            input@,
            segments_view(segments),
        ) == Ok::<Seq<char>, ShareError>(id) by {
            law_share_link_holds_its_id(id);
            law_plain_id_stands_for_itself(id);
            assert(id_after_d(seq![seq!['d'], id]) == Some(id));
        }
    }
    resolve_content_id(input, segments)
}

/// The link to the share with the identifier `content_id`.
pub fn share_url(content_id: &str) -> (res: String)
    ensures
        res@ == share_link(content_id@),
{
    let mut link = "https://gofile.io/d/".to_owned();
    link.append(content_id);
    link
}

/// The link that is made of a plain identifier can be read, however long it is, and it ends in that
/// identifier.
pub proof fn law_share_link_holds_its_id(id: Seq<char>)
    requires
        plain_id(id),
    ensures
        is_share_link(share_link(id)),
        share_link(id).skip(link_start().len() as int) == id,
        parsable(share_link(id)),
{
    let start = link_start().len() as int;
    assert(share_link(id).take(start) =~= link_start());
    assert(share_link(id).skip(start) =~= id);
}

/// A plain identifier can be read, however long it is, and it stands for itself: it is no URL, and
/// trimming leaves it alone.
pub proof fn law_plain_id_stands_for_itself(id: Seq<char>)
    requires
        plain_id(id),
    ensures
        !id.contains(':'),
        !blank(id),
        trimmed(id) == id,
        parsable(id),
{
    assert forall|i: int| 0 <= i < id.len() implies id[i] != ':' && !white_space(id[i]) by {
        assert(id_char(id[i]));
    }
    lemma_nothing_to_trim(id);
}

/// How the path of a link is searched: a segment that is not `d` is passed over, a `d` with a blank
/// segment after it is passed over together with that, and the first `d` with any other segment
/// after it gives that segment. Where no two segments are left, there is no identifier.
pub proof fn law_first_d_decides(
    first: Seq<char>,
    second: Seq<char>,
    rest: Seq<Seq<char>>,
)
    ensures
        id_after_d(seq![]) is None,
        id_after_d(seq![first]) is None,
        first != "d"@ ==> id_after_d(seq![first] + rest) == id_after_d(rest),
        blank(second) ==> id_after_d(seq!["d"@, second] + rest) == id_after_d(rest),
        !blank(second) ==> id_after_d(seq!["d"@, second] + rest) == Some(second),
{
    reveal_strlit("d");
    assert("d"@ =~= seq!['d']);
    let one = seq![first] + rest;
    assert(one.skip(1) =~= rest);
    let two = seq!["d"@, second] + rest;
    assert(two.skip(2) =~= rest);
    assert(two[0] == seq!['d'] && two[1] == second);
    if rest.len() == 0 {
        assert(id_after_d(rest) is None);
    }
}

/// The identifier of a link is one of its segments, unchanged, not blank, and stands after a `d`.
pub proof fn law_id_is_a_segment_after_d(segments: Seq<Seq<char>>) -> (at: int)
    requires
        id_after_d(segments) is Some,
    ensures
        0 <= at && at + 1 < segments.len(),
        segments[at] == "d"@,
        id_after_d(segments) == Some(segments[at + 1]),
        !blank(segments[at + 1]),
    decreases segments.len(),
{
    reveal_strlit("d");
    assert("d"@ =~= seq!['d']);
    if segments[0] != seq!['d'] {
        let at = law_id_is_a_segment_after_d(segments.skip(1));
        at + 1
    } else if blank(segments[1]) {
        let at = law_id_is_a_segment_after_d(segments.skip(2));
        at + 2
    } else {
        0
    }
}

/// What a text stands for: the identifier in its path where it is a URL, else the text itself
/// without white space at its ends. It stands for nothing where it is a URL without a path or
/// without an identifier in its path, or blank.
pub proof fn law_url_or_identifier(input: Seq<char>, segments: Seq<Seq<char>>)
    ensures
        content_id(input, Some(None)) == Err::<Seq<char>, ShareError>(ShareError::NoPath),
        id_after_d(segments) is None ==> content_id(input, Some(Some(segments))) == Err::<
            Seq<char>,
            ShareError,
        >(ShareError::NoIdInUrl),
        id_after_d(segments) matches Some(id) ==> content_id(input, Some(Some(segments))) == Ok::<
            Seq<char>,
            ShareError,
        >(id),
        trimmed(input).len() == 0 ==> content_id(input, None) == Err::<Seq<char>, ShareError>(
            ShareError::EmptyId,
        ),
        trimmed(input).len() > 0 ==> content_id(input, None) == Ok::<Seq<char>, ShareError>(
            trimmed(input),
        ),
{
    lemma_trimmed_blank(input);
}

/// Links start alike and end in the identifier; any letters and digits of ASCII, `-` and `_` make an
/// identifier; and text of up to some two thousand million characters can be read, and any text
/// without a colon.
pub proof fn law_links_and_identifiers(id: Seq<char>)
    ensures
        share_link(id) == "https://gofile.io/d/"@ + id,
        plain_id(id) <==> id.len() > 0 && !exists|i: int|
            0 <= i < id.len() && ({
                let c = #[trigger] id[i];
                c < '-' || '-' < c < '0' || '9' < c < 'A' || 'Z' < c < '_' || '_' < c < 'a' || 'z'
                    < c
            }),
        is_share_link(id) <==> exists|rest: Seq<char>| #[trigger]
            plain_id(rest) && id == share_link(rest),
        id.len() <= 0x7fff_ff00 || !id.contains(':') ==> parsable(id),
{
    let start = link_start().len() as int;
    if is_share_link(id) {
        let rest = id.skip(start);
        assert(plain_id(rest));
        assert(id =~= id.take(start) + rest);
    }
    assert forall|rest: Seq<char>| #[trigger] plain_id(rest) && id == share_link(rest) implies
        is_share_link(id) by {
        law_share_link_holds_its_id(rest);
    }
}

/// The models of what was read of a URL, and of an identifier, show all that they hold.
pub proof fn law_models_of_links(list: Vec<String>, id: String, error: ShareError)
    ensures
        segments_view(None) is None,
        segments_view(Some(None)) == Some(None::<Seq<Seq<char>>>),
        segments_view(Some(Some(list))) matches Some(Some(segments)) && segments.len()
            == list@.len() && forall|i: int|
            0 <= i < list@.len() ==> #[trigger] segments[i] == list@[i]@,
        id_view(Ok(id)) == Ok::<Seq<char>, ShareError>(id@),
        id_view(Err(error)) == Err::<Seq<char>, ShareError>(error),
{
}

} // verus!
