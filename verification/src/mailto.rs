//! Translation of `mailto:` links into Outlook's compose deeplink. URL
//! parsing and serialisation are the `url` crate's; which fields are carried
//! over, and how, is decided here.
use vstd::prelude::*;

use crate::encoding::{percent_decode_text, percent_decode_utf8};
use crate::text::{ascii_lowercase, chars_of, text_eq, to_ascii_lowercase};

verus! {

broadcast use vstd::string::group_string_axioms;

/// The compose page that a mailto link opens.
pub const COMPOSE_URL: &'static str = "https://outlook.office.com/mail/deeplink/compose";

/// The parts of a parsed URL that the translation reads.
#[derive(Debug)]
pub struct UrlParts {
    pub scheme: String,
    pub path: String,
    pub query: Option<String>,
}

/// Query pairs as text pairs.
pub open spec fn pairs_view(pairs: Seq<(String, String)>) -> Seq<(Seq<char>, Seq<char>)> {
    pairs.map_values(|p: (String, String)| (p.0@, p.1@))
}

/// The scheme, path and query of a `UrlParts`.
pub open spec fn url_parts_view(p: UrlParts) -> (Seq<char>, Seq<char>, Option<Seq<char>>) {
    (
        p.scheme@,
        p.path@,
        match p.query {
            Some(q) => Some(q@),
            None => None,
        },
    )
}

/// What `url::Url::parse` makes of a text: `None` when it is no URL, else
/// its scheme, path and query.
pub uninterp spec fn parsed_url(s: Seq<char>) -> Option<(Seq<char>, Seq<char>, Option<Seq<char>>)>;

/// The name/value pairs that `form_urlencoded::parse` reads from a query.
pub uninterp spec fn form_urlencoded_pairs(query: Seq<char>) -> Seq<(Seq<char>, Seq<char>)>;

/// The URL `base`, parsed by `url`, with `pairs` appended to its query by
/// `query_pairs_mut`, serialised; `None` when `base` is no URL.
pub uninterp spec fn url_with_query_pairs(
    base: Seq<char>,
    pairs: Seq<(Seq<char>, Seq<char>)>,
) -> Option<Seq<char>>;

/// `url::Url::parse`, keeping the scheme, path and query of the result.
#[verifier::external_body]
pub(crate) fn parse_url(s: &str) -> (r: Option<UrlParts>)
    ensures
        match r {
            Some(p) => parsed_url(s@) == Some(url_parts_view(p)),
            None => parsed_url(s@) is None,
        },
{
    match url::Url::parse(s) {
        Ok(u) => Some(
            UrlParts {
                scheme: u.scheme().to_owned(),
                path: u.path().to_owned(),
                query: u.query().map(str::to_owned),
            },
        ),
        Err(_) => None,
    }
}

/// `form_urlencoded::parse` (what `Url::query_pairs` runs on the query),
/// each pair as owned text.
#[verifier::external_body]
pub(crate) fn query_pairs(query: &str) -> (r: Vec<(String, String)>)
    ensures
        pairs_view(r@) == form_urlencoded_pairs(query@),
{
    url::form_urlencoded::parse(query.as_bytes()).map(|(k, v)| (k.into_owned(), v.into_owned())).collect()
}

/// `url::Url::parse(base)` followed by `query_pairs_mut().extend_pairs(pairs)`
/// and conversion into a `String`; it fails only when `base` does not parse,
/// and the compose page's URL parses.
#[verifier::external_body]
pub(crate) fn append_query_pairs(base: &str, pairs: &Vec<(String, String)>) -> (r: Option<String>)
    ensures
        match r {
            Some(u) => url_with_query_pairs(base@, pairs_view(pairs@)) == Some(u@),
            None => url_with_query_pairs(base@, pairs_view(pairs@)) is None,
        },
        r is None <==> parsed_url(base@) is None,
        base@ == COMPOSE_URL@ ==> r is Some,
{
    match url::Url::parse(base) {
        Ok(mut u) => {
            u.query_pairs_mut().extend_pairs(pairs.iter());
            Some(u.into())
        },
        Err(_) => None,
    }
}

/// The mailto header fields that are carried over to the compose page.
pub open spec fn is_forwarded_field(key: Seq<char>) -> bool {
    key == "to"@ || key == "cc"@ || key == "bcc"@ || key == "subject"@ || key == "body"@
}

/// The query pairs of a mailto link that are carried over, in order, with
/// their names in ASCII lowercase.
pub open spec fn forwarded_fields(pairs: Seq<(Seq<char>, Seq<char>)>) -> Seq<(Seq<char>, Seq<char>)>
    decreases pairs.len(),
{
    if pairs.len() == 0 {
        seq![]
    } else {
        let rest = forwarded_fields(pairs.drop_last());
        let key = ascii_lowercase(pairs.last().0);
        if is_forwarded_field(key) {
            rest.push((key, pairs.last().1))
        } else {
            rest
        }
    }
}

/// The compose query: the decoded recipient first (when there is one), then
/// the carried-over fields.
pub open spec fn compose_query(to: Seq<char>, pairs: Seq<(Seq<char>, Seq<char>)>) -> Seq<
    (Seq<char>, Seq<char>),
> {
    if to.len() > 0 {
        seq![("to"@, to)] + forwarded_fields(pairs)
    } else {
        forwarded_fields(pairs)
    }
}

/// The compose deeplink for a mailto link: `None` unless the text is a URL
/// with scheme `mailto` whose percent-decoded path is valid UTF-8.
pub open spec fn compose_link(mailto: Seq<char>) -> Option<Seq<char>> {
    match parsed_url(mailto) {
        None => None,
        Some(parts) => if parts.0 != "mailto"@ {
            None
        } else {
            match percent_decode_text(parts.1) {
                None => None,
                Some(to) => url_with_query_pairs(
                    COMPOSE_URL@,
                    compose_query(
                        to,
                        form_urlencoded_pairs(
                            match parts.2 {
                                Some(q) => q,
                                None => ""@,
                            },
                        ),
                    ),
                ),
            }
        },
    }
}

/// Only `to`, `cc`, `bcc`, `subject` and `body` ever reach the compose page.
pub proof fn compose_query_fields_are_forwarded(to: Seq<char>, pairs: Seq<(Seq<char>, Seq<char>)>)
    ensures
        forall|i: int|
            0 <= i < compose_query(to, pairs).len() ==> is_forwarded_field(
                #[trigger] compose_query(to, pairs)[i].0,
            ),
{
    lemma_forwarded_fields_keys(pairs);
    reveal_strlit("to");
    let q = compose_query(to, pairs);
    let f = forwarded_fields(pairs);
    if to.len() > 0 {
        assert forall|i: int| 0 <= i < q.len() implies is_forwarded_field(#[trigger] q[i].0) by {
            if i > 0 {
                assert(q[i] == f[i - 1]);
            }
        }
    }
}

/// The decoded recipient goes to the compose page whole: when it is not
/// empty, the first compose pair is `("to", recipient)`, and the pairs after
/// it are the carried-over fields.
pub proof fn compose_query_keeps_whole_recipient(
    to: Seq<char>,
    pairs: Seq<(Seq<char>, Seq<char>)>,
)
    ensures
        to.len() > 0 ==> compose_query(to, pairs).len() == 1 + forwarded_fields(pairs).len()
            && compose_query(to, pairs)[0] == ("to"@, to) && compose_query(to, pairs).skip(1)
            == forwarded_fields(pairs),
        to.len() == 0 ==> compose_query(to, pairs) == forwarded_fields(pairs),
{
    if to.len() > 0 {
        assert(compose_query(to, pairs).skip(1) =~= forwarded_fields(pairs));
    }
}

/// `field` is one of `pairs` under its lowercased name, value unchanged,
/// and that name is a forwarded one.
pub open spec fn is_lowered_allowed_pair(pairs: Seq<(Seq<char>, Seq<char>)>, field: (Seq<char>, Seq<char>)) -> bool {
    exists|j: int|
        0 <= j < pairs.len() && field == lowered(#[trigger] pairs[j]) && is_forwarded_field(field.0)
}

/// A pair under its ASCII-lowercased name.
pub open spec fn lowered(pair: (Seq<char>, Seq<char>)) -> (Seq<char>, Seq<char>) {
    (ascii_lowercase(pair.0), pair.1)
}

/// The carried-over fields are exactly the mailto pairs whose lowercased
/// name is `to`, `cc`, `bcc`, `subject` or `body`: each comes from such a
/// pair under its lowercased name with its value unchanged, and every such
/// pair is carried over.
pub proof fn forwarded_fields_are_the_allowed_pairs(pairs: Seq<(Seq<char>, Seq<char>)>)
    ensures
        forall|i: int|
            0 <= i < forwarded_fields(pairs).len() ==> is_lowered_allowed_pair(
                pairs,
                #[trigger] forwarded_fields(pairs)[i],
            ),
        forall|j: int|
            0 <= j < pairs.len() && is_forwarded_field(ascii_lowercase(#[trigger] pairs[j].0))
                ==> forwarded_fields(pairs).contains(lowered(pairs[j])),
    decreases pairs.len(),
{
    if pairs.len() > 0 {
        let init = pairs.drop_last();
        forwarded_fields_are_the_allowed_pairs(init);
        let rest = forwarded_fields(init);
        let f = forwarded_fields(pairs);
        let last = pairs.len() - 1;
        assert forall|i: int| 0 <= i < f.len() implies is_lowered_allowed_pair(
            pairs,
            #[trigger] f[i],
        ) by {
            if i < rest.len() {
                assert(f[i] == rest[i]);
                assert(is_lowered_allowed_pair(init, rest[i]));
                let j = choose|j: int|
                    0 <= j < init.len() && rest[i] == lowered(#[trigger] init[j])
                        && is_forwarded_field(rest[i].0);
                assert(init[j] == pairs[j]);
            } else {
                assert(f[i] == lowered(pairs[last]));
            }
        }
        assert forall|j: int|
            0 <= j < pairs.len() && is_forwarded_field(
                ascii_lowercase(#[trigger] pairs[j].0),
            ) implies f.contains(lowered(pairs[j])) by {
            if j < last {
                assert(init[j] == pairs[j]);
                assert(rest.contains(lowered(init[j])));
                let k = choose|k: int| 0 <= k < rest.len() && rest[k] == lowered(init[j]);
                assert(f[k] == rest[k]);
            } else {
                assert(f[f.len() - 1] == lowered(pairs[last]));
            }
        }
    }
}

/// A mailto link's compose page carries its whole percent-decoded path as
/// the first `to` pair (when the path is not empty), followed only by
/// forwarded fields.
pub proof fn compose_link_carries_decoded_recipient(mailto: Seq<char>)
    requires
        is_translatable_mailto(mailto),
    ensures
        exists|q: Seq<(Seq<char>, Seq<char>)>|
            #[trigger] url_with_query_pairs(COMPOSE_URL@, q) == compose_link(mailto) && (
            percent_decode_text((parsed_url(mailto)->0).1)->0.len() > 0 ==> q.len() > 0 && q[0]
                == ("to"@, percent_decode_text((parsed_url(mailto)->0).1)->0)) && (forall|i: int|
                0 <= i < q.len() ==> is_forwarded_field(#[trigger] q[i].0)),
{
    let parts = parsed_url(mailto)->0;
    let to = percent_decode_text(parts.1)->0;
    let query = match parts.2 {
        Some(q) => q,
        None => ""@,
    };
    let q = compose_query(to, form_urlencoded_pairs(query));
    compose_query_fields_are_forwarded(to, form_urlencoded_pairs(query));
    assert(url_with_query_pairs(COMPOSE_URL@, q) == compose_link(mailto));
}

/// Every field name that `forwarded_fields` keeps is a forwarded one.
proof fn lemma_forwarded_fields_keys(pairs: Seq<(Seq<char>, Seq<char>)>)
    ensures
        forall|i: int|
            0 <= i < forwarded_fields(pairs).len() ==> is_forwarded_field(
                #[trigger] forwarded_fields(pairs)[i].0,
            ),
    decreases pairs.len(),
{
    if pairs.len() > 0 {
        lemma_forwarded_fields_keys(pairs.drop_last());
        let rest = forwarded_fields(pairs.drop_last());
        let f = forwarded_fields(pairs);
        assert forall|i: int| 0 <= i < f.len() implies is_forwarded_field(#[trigger] f[i].0) by {
            if i < rest.len() {
                assert(f[i] == rest[i]);
            }
        }
    }
}

/// A link that has a compose page: a URL with scheme `mailto` whose
/// percent-decoded path is valid UTF-8.
pub open spec fn is_translatable_mailto(mailto: Seq<char>) -> bool {
    match parsed_url(mailto) {
        None => false,
        Some(parts) => parts.0 == "mailto"@ && percent_decode_text(parts.1) is Some,
    }
}

/// Whether a (lowercased) field name is carried over.
fn forwarded_field(key: &str) -> (r: bool)
    ensures
        r == is_forwarded_field(key@),
{
    text_eq(key, "to") || text_eq(key, "cc") || text_eq(key, "bcc") || text_eq(key, "subject")
        || text_eq(key, "body")
}

/// The compose query for the decoded recipient `to` and the mailto query
/// pairs: the recipient first when it is not empty, then every pair whose
/// lowercased name is `to`, `cc`, `bcc`, `subject` or `body`, in order,
/// under its lowercased name.
pub fn compose_pairs(to: &str, pairs: &Vec<(String, String)>) -> (r: Vec<(String, String)>)
    ensures
        pairs_view(r@) == compose_query(to@, pairs_view(pairs@)),
{
    let mut out: Vec<(String, String)> = Vec::new();
    let to_chars = chars_of(to);
    if to_chars.len() > 0 {
        out.push(("to".to_owned(), to.to_owned()));
    }
    let ghost head = pairs_view(out@);
    assert(head =~= if to@.len() > 0 {
        seq![("to"@, to@)]
    } else {
        seq![]
    });
    let n = pairs.len();
    for i in 0..n
        invariant
            n == pairs@.len(),
            pairs_view(out@) == head + forwarded_fields(pairs_view(pairs@).take(i as int)),
    {
        let ghost prefix = pairs_view(pairs@).take(i + 1);
        assert(prefix.drop_last() =~= pairs_view(pairs@).take(i as int));
        assert(prefix.last() == (pairs@[i as int].0@, pairs@[i as int].1@));
        let key = to_ascii_lowercase(pairs[i].0.as_str());
        if forwarded_field(key.as_str()) {
            let value = pairs[i].1.clone();
            let ghost before = out@;
            let ghost entry = (key@, value@);
            assert(forwarded_fields(prefix) == forwarded_fields(prefix.drop_last()).push(entry));
            out.push((key, value));
            assert(pairs_view(out@) =~= pairs_view(before).push(entry));
            assert(pairs_view(out@) =~= head + forwarded_fields(prefix));
        } else {
            assert(pairs_view(out@) =~= head + forwarded_fields(prefix));
        }
    }
    assert(pairs_view(pairs@).take(n as int) =~= pairs_view(pairs@));
    proof {
        if to@.len() > 0 {
        } else {
            assert(head + forwarded_fields(pairs_view(pairs@)) =~= forwarded_fields(
                pairs_view(pairs@),
            ));
        }
    }
    out
}

/// Translates a mailto link into Outlook's compose deeplink.
pub fn mailto_to_compose(mailto: &str) -> (r: Option<String>)
    ensures
        match r {
            Some(u) => compose_link(mailto@) == Some(u@),
            None => compose_link(mailto@) is None,
        },
        r is Some <==> is_translatable_mailto(mailto@),
{
    let parts = match parse_url(mailto) {
        Some(p) => p,
        None => return None,
    };
    if !text_eq(parts.scheme.as_str(), "mailto") {
        return None;
    }
    let to = match percent_decode_utf8(parts.path.as_str()) {
        Some(t) => t,
        None => return None,
    };
    let incoming = match &parts.query {
        Some(q) => query_pairs(q.as_str()),
        None => query_pairs(""),
    };
    let pairs = compose_pairs(to.as_str(), &incoming);
    append_query_pairs(COMPOSE_URL, &pairs)
}

} // verus!
