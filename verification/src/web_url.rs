//! What this library reads off a URL, and the call into the `url` crate that
//! produces it.

use vstd::prelude::*;
use crate::text_map::TextMap;

verus! {

/// The error of the `url` crate's parser. Nothing is known of its values here;
/// they are only told apart from a success.
#[verifier::external_type_specification]
#[verifier::external_body]
pub struct ExParseError(url::ParseError);

/// Whether `url::Url::parse` accepts the text `raw` as an absolute URL.
pub uninterp spec fn url_well_formed(raw: Seq<char>) -> bool;

/// What `url::Url::scheme` gives for the URL that `url::Url::parse` makes of
/// `raw`: the scheme in lower case, without the colon.
pub uninterp spec fn url_scheme(raw: Seq<char>) -> Seq<char>;

/// What `url::Url::query_pairs` yields for the URL that `url::Url::parse`
/// makes of `raw`: the names and values of the query string, decoded as
/// `application/x-www-form-urlencoded`, in the order in which they stand.
pub uninterp spec fn url_query_pairs(raw: Seq<char>) -> Seq<(Seq<char>, Seq<char>)>;

/// The parts of a URL that the dispatcher reads.
pub struct ParsedUrl {
    /// The scheme, in lower case and without the colon.
    pub scheme: String,
    /// The decoded name and value of each query parameter, in order.
    pub query_pairs: Vec<(String, String)>,
}

/// The mathematical counterpart of [`ParsedUrl`].
pub struct ParsedUrlView {
    pub scheme: Seq<char>,
    pub query_pairs: Seq<(Seq<char>, Seq<char>)>,
}

impl View for ParsedUrl {
    type V = ParsedUrlView;

    open spec fn view(&self) -> ParsedUrlView {
        ParsedUrlView { scheme: self.scheme@, query_pairs: self.query_pairs.deep_view() }
    }
}

/// Calls `url::Url::parse` on `raw`.
///
/// On success the scheme is what `url::Url::scheme` returns and the pairs are
/// what `url::Url::query_pairs` yields, each copied into an owned string.
/// The contract only names these three results; it claims nothing of what
/// they are for a given text, only that they depend on the text alone.
#[verifier::external_body]
pub(crate) fn parse_url(raw: &str) -> (parsed: Result<ParsedUrl, url::ParseError>)
    ensures
        parsed is Ok <==> url_well_formed(raw@),
        parsed matches Ok(url) ==> url@.scheme == url_scheme(raw@) && url@.query_pairs
            == url_query_pairs(raw@),
{
    let url = url::Url::parse(raw)?;
    Ok(ParsedUrl {
        scheme: url.scheme().to_string(),
        query_pairs: url.query_pairs().into_owned().collect(),
    })
}

/// The map that a sequence of query pairs stands for: each pair is inserted
/// in turn, so of two pairs with one name the later wins.
pub open spec fn query_map(pairs: Seq<(Seq<char>, Seq<char>)>) -> Map<Seq<char>, Seq<char>>
    decreases pairs.len(),
{
    if pairs.len() == 0 {
        Map::empty()
    } else {
        query_map(pairs.drop_last()).insert(pairs.last().0, pairs.last().1)
    }
}

/// A name is in the query map exactly when some pair carries it, character
/// for character.
pub proof fn lemma_query_map_names(pairs: Seq<(Seq<char>, Seq<char>)>, name: Seq<char>)
    ensures
        query_map(pairs).dom().contains(name) <==> exists|i: int|
            0 <= i < pairs.len() && (#[trigger] pairs[i]).0 == name,
    decreases pairs.len(),
{
    if pairs.len() > 0 {
        let head = pairs.drop_last();
        lemma_query_map_names(head, name);
        if query_map(pairs).dom().contains(name) {
            if pairs.last().0 == name {
                assert(pairs[pairs.len() - 1].0 == name);
            } else {
                let i = choose|i: int| 0 <= i < head.len() && (#[trigger] head[i]).0 == name;
                assert(pairs[i].0 == name);
            }
        } else {
            assert forall|i: int| 0 <= i < pairs.len() implies (#[trigger] pairs[i]).0 != name by {
                if i < head.len() {
                    assert(head[i].0 != name);
                }
            }
        }
    }
}

/// Of the pairs with one name the last gives the value.
pub proof fn lemma_last_pair_wins(pairs: Seq<(Seq<char>, Seq<char>)>, i: int)
    requires
        0 <= i < pairs.len(),
        forall|j: int| i < j < pairs.len() ==> (#[trigger] pairs[j]).0 != pairs[i].0,
    ensures
        query_map(pairs).dom().contains(pairs[i].0),
        query_map(pairs)[pairs[i].0] == pairs[i].1,
    decreases pairs.len(),
{
    if i < pairs.len() - 1 {
        let head = pairs.drop_last();
        assert(head[i] == pairs[i]);
        assert forall|j: int| i < j < head.len() implies (#[trigger] head[j]).0 != head[i].0 by {
            assert(head[j] == pairs[j]);
        }
        lemma_last_pair_wins(head, i);
        assert(pairs[pairs.len() - 1].0 != pairs[i].0);
    }
}

/// A pair put in anywhere changes nothing for the other names.
pub proof fn lemma_other_names_unchanged(
    pairs: Seq<(Seq<char>, Seq<char>)>,
    at: int,
    extra: (Seq<char>, Seq<char>),
    name: Seq<char>,
)
    requires
        0 <= at <= pairs.len(),
        extra.0 != name,
    ensures
        query_map(pairs.insert(at, extra)).dom().contains(name) == query_map(pairs).dom().contains(
            name,
        ),
        query_map(pairs.insert(at, extra))[name] == query_map(pairs)[name],
    decreases pairs.len() - at,
{
    let longer = pairs.insert(at, extra);
    if at == pairs.len() {
        assert(longer.drop_last() =~= pairs);
    } else {
        assert(longer.drop_last() =~= pairs.drop_last().insert(at, extra));
        assert(longer.last() == pairs.last());
        lemma_other_names_unchanged(pairs.drop_last(), at, extra, name);
    }
}

/// Collects the query parameters of a URL into a map from name to value.
/// Where a name occurs more than once, its last value is kept.
pub fn query_as_map(u: &ParsedUrl) -> (query: TextMap)
    ensures
        query@ == query_map(u@.query_pairs),
{
    let ghost pairs = u.query_pairs.deep_view();
    let mut query = TextMap::new();
    let mut i: usize = 0;
    assert(pairs.take(0) =~= Seq::empty());
    while i < u.query_pairs.len()
        invariant
            i <= u.query_pairs@.len(),
            pairs == u.query_pairs.deep_view(),
            query@ == query_map(pairs.take(i as int)),
        decreases u.query_pairs@.len() - i,
    {
        let pair = &u.query_pairs[i];
        proof {
            assert(pairs.take(i as int + 1).drop_last() =~= pairs.take(i as int));
            assert(pairs[i as int] == (pair.0@, pair.1@));
        }
        query.insert(pair.0.clone(), pair.1.clone());
        i += 1;
    }
    assert(pairs.take(i as int) =~= pairs);
    query
}

} // verus!
