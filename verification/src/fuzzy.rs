//! Fuzzy matching of a query against a candidate, scored by the skim matcher.

use fuzzy_matcher::skim::SkimMatcherV2;
use vstd::prelude::*;
use vstd::string::*;

verus! {

/// Whether `c` is one of the ASCII capitals.
pub open spec fn is_ascii_capital(c: char) -> bool {
    0x41 <= c as u32 <= 0x5A
}

/// The code of `c`, with the ASCII capitals mapped to their small letters.
pub open spec fn folded(c: char) -> int {
    if is_ascii_capital(c) {
        c as u32 + 0x20
    } else {
        c as u32 as int
    }
}

/// Whether a character of the candidate answers one of the query.
pub open spec fn chars_agree(a: char, b: char, exact: bool) -> bool {
    if exact {
        a == b
    } else {
        folded(a) == folded(b)
    }
}

/// Whether `query` holds an ASCII capital.
pub open spec fn has_capital(query: Seq<char>) -> bool {
    exists|i: int| 0 <= i < query.len() && is_ascii_capital(#[trigger] query[i])
}

/// Whether the characters of `query` occur in `candidate`, in their order and
/// not necessarily side by side.
pub open spec fn is_subsequence(query: Seq<char>, candidate: Seq<char>, exact: bool) -> bool
    decreases candidate.len(),
{
    if query.len() == 0 {
        true
    } else if candidate.len() == 0 {
        false
    } else if chars_agree(candidate[0], query[0], exact) {
        is_subsequence(query.drop_first(), candidate.drop_first(), exact)
    } else {
        is_subsequence(query, candidate.drop_first(), exact)
    }
}

/// Whether case is respected in matching `query`: where the caller asks for
/// it, and also where the query itself holds an ASCII capital.
pub open spec fn respects_case(query: Seq<char>, case_sensitive: bool) -> bool {
    case_sensitive || has_capital(query)
}

/// Whether `query` matches `candidate`.
pub open spec fn matches(candidate: Seq<char>, query: Seq<char>, case_sensitive: bool) -> bool {
    is_subsequence(query, candidate, respects_case(query, case_sensitive))
}

/// The relevance that the skim matcher, in its default configuration, gives to
/// `candidate` for `query`.
pub uninterp spec fn skim_score(candidate: Seq<char>, query: Seq<char>) -> Option<i64>;

/// What is known of the matcher's score: it exists exactly for a query whose
/// characters are found in order in the candidate, with case respected only
/// where the query holds an ASCII capital; and an empty query scores nothing.
pub open spec fn score_is_sound(candidate: Seq<char>, query: Seq<char>, found: Option<i64>) -> bool {
    &&& found is Some <==> matches(candidate, query, false)
    &&& query.len() == 0 ==> found == Some(0i64)
}

/// The relevance of `candidate` for `query`: the matcher's score where the
/// query matches, and nothing where it does not.
pub open spec fn scored(candidate: Seq<char>, query: Seq<char>, case_sensitive: bool) -> Option<i64> {
    if matches(candidate, query, case_sensitive) {
        skim_score(candidate, query)
    } else {
        None
    }
}

/// Calls `SkimMatcherV2::fuzzy` of the crate fuzzy_matcher, without positions, on
/// a matcher in its default configuration. The contract names the score and
/// claims of it what the function's text shows: an empty query gives zero, and
/// any other query gives a score exactly when its characters are found in order
/// in the candidate, compared exactly if the query holds an ASCII capital, and
/// else with ASCII case ignored.
#[verifier::external_body]
fn skim_fuzzy(candidate: &str, query: &str) -> (found: Option<i64>)
    ensures
        found == skim_score(candidate@, query@),
        score_is_sound(candidate@, query@, found),
{
    SkimMatcherV2::default().fuzzy(candidate, query, false).map(|found| found.0)
}

/// The code of `c`, with the ASCII capitals mapped to their small letters.
fn fold(c: char) -> (code: u32)
    ensures
        code == folded(c),
{
    let code: u32 = c as u32;
    if 0x41 <= code && code <= 0x5A {
        code + 0x20
    } else {
        code
    }
}

/// Tells whether the characters of `query` occur in `candidate`, in their
/// order; with `exact` unset, ASCII case is ignored.
pub fn occurs_in_order(query: &str, candidate: &str, exact: bool) -> (r: bool)
    ensures
        r == is_subsequence(query@, candidate@, exact),
{
    let wanted: usize = query.unicode_len();
    let given: usize = candidate.unicode_len();
    let mut j: usize = 0;
    let mut i: usize = 0;
    assert(query@.subrange(0, wanted as int) =~= query@);
    assert(candidate@.subrange(0, given as int) =~= candidate@);
    while j < wanted && i < given
        invariant
            wanted == query@.len(),
            given == candidate@.len(),
            j <= wanted,
            i <= given,
            is_subsequence(query@, candidate@, exact) == is_subsequence(
                query@.subrange(j as int, wanted as int),
                candidate@.subrange(i as int, given as int),
                exact,
            ),
        decreases given - i,
    {
        let ghost rest = query@.subrange(j as int, wanted as int);
        let ghost left = candidate@.subrange(i as int, given as int);
        let a = candidate.get_char(i);
        let b = query.get_char(j);
        assert(left[0] == a && rest[0] == b);
        assert(left.drop_first() =~= candidate@.subrange(i + 1, given as int));
        assert(rest.drop_first() =~= query@.subrange(j + 1, wanted as int));
        let agree = if exact {
            a == b
        } else {
            fold(a) == fold(b)
        };
        if agree {
            j += 1;
        }
        i += 1;
    }
    j == wanted
}

/// The relevance of `candidate` for `query`: higher is better, and `None` says
/// that the query does not match. The query matches where its characters occur
/// in the candidate in their order. Case is respected where `case_sensitive`
/// is set, and also where the query holds an ASCII capital; else ASCII case is
/// ignored.
pub fn score(candidate: &str, query: &str, case_sensitive: bool) -> (found: Option<i64>)
    ensures
        found == scored(candidate@, query@, case_sensitive),
        found is Some <==> matches(candidate@, query@, case_sensitive),
        query@.len() == 0 ==> found == Some(0i64),
{
    if case_sensitive && !occurs_in_order(query, candidate, true) {
        return None;
    }
    proof {
        if case_sensitive {
            lemma_exact_is_stricter(query@, candidate@);
        }
    }
    skim_fuzzy(candidate, query)
}

/// Whether `at` places the characters of `query` in `candidate`: one position
/// for each character, the positions growing, and at each the candidate's
/// character answering the query's.
pub open spec fn embeds(query: Seq<char>, candidate: Seq<char>, exact: bool, at: Seq<int>) -> bool {
    &&& at.len() == query.len()
    &&& forall|i: int| 0 <= i < at.len() ==> 0 <= #[trigger] at[i] < candidate.len()
    &&& forall|i: int, j: int| 0 <= i < j < at.len() ==> #[trigger] at[i] < #[trigger] at[j]
    &&& forall|i: int|
        0 <= i < at.len() ==> chars_agree(candidate[#[trigger] at[i]], query[i], exact)
}

/// A query that is a subsequence of the candidate can be placed in it.
pub proof fn lemma_subsequence_embeds(query: Seq<char>, candidate: Seq<char>, exact: bool)
    requires
        is_subsequence(query, candidate, exact),
    ensures
        exists|at: Seq<int>| embeds(query, candidate, exact, at),
    decreases candidate.len(),
{
    if query.len() == 0 {
        assert(embeds(query, candidate, exact, Seq::<int>::empty()));
    } else if chars_agree(candidate[0], query[0], exact) {
        lemma_subsequence_embeds(query.drop_first(), candidate.drop_first(), exact);
        let rest = choose|rest: Seq<int>|
            embeds(query.drop_first(), candidate.drop_first(), exact, rest);
        let at = Seq::new(query.len(), |i: int| if i == 0 { 0 } else { rest[i - 1] + 1 });
        assert forall|i: int| 0 <= i < at.len() implies chars_agree(
            candidate[#[trigger] at[i]],
            query[i],
            exact,
        ) by {
            if i > 0 {
                assert(candidate.drop_first()[rest[i - 1]] == candidate[at[i]]);
                assert(query.drop_first()[i - 1] == query[i]);
            }
        }
        assert forall|i: int, j: int| 0 <= i < j < at.len() implies #[trigger] at[i]
            < #[trigger] at[j] by {
            if i > 0 {
                assert(rest[i - 1] < rest[j - 1]);
            } else {
                assert(0 <= rest[j - 1]);
            }
        }
        assert forall|i: int| 0 <= i < at.len() implies 0 <= #[trigger] at[i] < candidate.len() by {
            if i > 0 {
                assert(0 <= rest[i - 1] < candidate.drop_first().len());
            }
        }
        assert(embeds(query, candidate, exact, at));
    } else {
        lemma_subsequence_embeds(query, candidate.drop_first(), exact);
        let rest = choose|rest: Seq<int>| embeds(query, candidate.drop_first(), exact, rest);
        let at = Seq::new(query.len(), |i: int| rest[i] + 1);
        assert forall|i: int| 0 <= i < at.len() implies chars_agree(
            candidate[#[trigger] at[i]],
            query[i],
            exact,
        ) by {
            assert(candidate.drop_first()[rest[i]] == candidate[at[i]]);
        }
        assert forall|i: int, j: int| 0 <= i < j < at.len() implies #[trigger] at[i]
            < #[trigger] at[j] by {
            assert(rest[i] < rest[j]);
        }
        assert forall|i: int| 0 <= i < at.len() implies 0 <= #[trigger] at[i] < candidate.len() by {
            assert(0 <= rest[i] < candidate.drop_first().len());
        }
        assert(embeds(query, candidate, exact, at));
    }
}

/// A query that can be placed in the candidate is a subsequence of it.
pub proof fn lemma_embeds_subsequence(
    query: Seq<char>,
    candidate: Seq<char>,
    exact: bool,
    at: Seq<int>,
)
    requires
        embeds(query, candidate, exact, at),
    ensures
        is_subsequence(query, candidate, exact),
    decreases candidate.len(),
{
    if query.len() == 0 {
    } else if candidate.len() == 0 {
        assert(0 <= at[0] < candidate.len());
    } else if chars_agree(candidate[0], query[0], exact) {
        let rest = Seq::new((query.len() - 1) as nat, |i: int| at[i + 1] - 1);
        assert forall|i: int| 0 <= i < rest.len() implies 0 <= #[trigger] rest[i]
            < candidate.drop_first().len() by {
            assert(at[0] < at[i + 1]);
            assert(0 <= at[0]);
            assert(at[i + 1] < candidate.len());
        }
        assert forall|i: int, j: int| 0 <= i < j < rest.len() implies #[trigger] rest[i]
            < #[trigger] rest[j] by {
            assert(at[i + 1] < at[j + 1]);
        }
        assert forall|i: int| 0 <= i < rest.len() implies chars_agree(
            candidate.drop_first()[#[trigger] rest[i]],
            query.drop_first()[i],
            exact,
        ) by {
            assert(at[0] < at[i + 1]);
            assert(0 <= at[0]);
            assert(chars_agree(candidate[at[i + 1]], query[i + 1], exact));
            assert(candidate.drop_first()[rest[i]] == candidate[at[i + 1]]);
        }
        lemma_embeds_subsequence(query.drop_first(), candidate.drop_first(), exact, rest);
    } else {
        let rest = Seq::new(query.len(), |i: int| at[i] - 1);
        assert(chars_agree(candidate[at[0]], query[0], exact));
        assert(at[0] != 0);
        assert(0 <= at[0]);
        assert forall|i: int| 0 <= i < rest.len() implies 0 <= #[trigger] rest[i]
            < candidate.drop_first().len() by {
            if i > 0 {
                assert(at[0] < at[i]);
            }
            assert(at[i] < candidate.len());
        }
        assert forall|i: int, j: int| 0 <= i < j < rest.len() implies #[trigger] rest[i]
            < #[trigger] rest[j] by {
            assert(at[i] < at[j]);
        }
        assert forall|i: int| 0 <= i < rest.len() implies chars_agree(
            candidate.drop_first()[#[trigger] rest[i]],
            query[i],
            exact,
        ) by {
            if i > 0 {
                assert(at[0] < at[i]);
            }
            assert(chars_agree(candidate[at[i]], query[i], exact));
            assert(candidate.drop_first()[rest[i]] == candidate[at[i]]);
        }
        lemma_embeds_subsequence(query, candidate.drop_first(), exact, rest);
    }
}

/// Whether the character of `query` at position `i` has no answer anywhere in
/// `candidate`.
pub open spec fn is_unanswered(query: Seq<char>, candidate: Seq<char>, exact: bool, i: int) -> bool {
    &&& 0 <= i < query.len()
    &&& forall|j: int| 0 <= j < candidate.len() ==> !chars_agree(#[trigger] candidate[j], query[i], exact)
}

/// A query that occurs with its case respected also occurs with case ignored.
pub proof fn lemma_exact_is_stricter(query: Seq<char>, candidate: Seq<char>)
    requires
        is_subsequence(query, candidate, true),
    ensures
        is_subsequence(query, candidate, false),
{
    lemma_subsequence_embeds(query, candidate, true);
    let at = choose|at: Seq<int>| embeds(query, candidate, true, at);
    assert(embeds(query, candidate, false, at));
    lemma_embeds_subsequence(query, candidate, false, at);
}

/// A query matches exactly when its characters can be placed in the candidate
/// in their order. So there is no score as soon as one character of the query
/// has no answer in the candidate.
pub proof fn lemma_match_is_a_subsequence_test(
    candidate: Seq<char>,
    query: Seq<char>,
    case_sensitive: bool,
)
    ensures
        matches(candidate, query, case_sensitive) <==> exists|at: Seq<int>|
            embeds(query, candidate, respects_case(query, case_sensitive), at),
        (exists|i: int| is_unanswered(query, candidate, respects_case(query, case_sensitive), i))
            ==> !matches(candidate, query, case_sensitive) && scored(
            candidate,
            query,
            case_sensitive,
        ) is None,
{
    let exact = respects_case(query, case_sensitive);
    if is_subsequence(query, candidate, exact) {
        lemma_subsequence_embeds(query, candidate, exact);
    }
    if exists|at: Seq<int>| embeds(query, candidate, exact, at) {
        let at = choose|at: Seq<int>| embeds(query, candidate, exact, at);
        lemma_embeds_subsequence(query, candidate, exact, at);
    }
    if exists|i: int| is_unanswered(query, candidate, exact, i) {
        let i = choose|i: int| is_unanswered(query, candidate, exact, i);
        if matches(candidate, query, case_sensitive) {
            let at = choose|at: Seq<int>| embeds(query, candidate, exact, at);
            assert(chars_agree(candidate[at[i]], query[i], exact));
        }
    }
}

/// Matching is monotonic: a query that does not match cannot be made to match
/// by appending characters to it.
pub proof fn lemma_appending_keeps_failing(
    candidate: Seq<char>,
    query: Seq<char>,
    more: Seq<char>,
    case_sensitive: bool,
)
    requires
        !matches(candidate, query, case_sensitive),
    ensures
        !matches(candidate, query + more, case_sensitive),
        scored(candidate, query + more, case_sensitive) is None,
{
    let longer = query + more;
    let exact = respects_case(query, case_sensitive);
    let stricter = respects_case(longer, case_sensitive);
    if matches(candidate, longer, case_sensitive) {
        lemma_subsequence_embeds(longer, candidate, stricter);
        let at = choose|at: Seq<int>| embeds(longer, candidate, stricter, at);
        let part = at.subrange(0, query.len() as int);
        if has_capital(query) {
            let i = choose|i: int| 0 <= i < query.len() && is_ascii_capital(#[trigger] query[i]);
            assert(is_ascii_capital(longer[i]));
        }
        assert(exact ==> stricter);
        assert forall|i: int| 0 <= i < part.len() implies chars_agree(
            candidate[#[trigger] part[i]],
            query[i],
            exact,
        ) by {
            assert(part[i] == at[i]);
            assert(longer[i] == query[i]);
            assert(chars_agree(candidate[at[i]], longer[i], stricter));
        }
        assert forall|i: int, j: int| 0 <= i < j < part.len() implies #[trigger] part[i]
            < #[trigger] part[j] by {
            assert(at[i] < at[j]);
        }
        assert forall|i: int| 0 <= i < part.len() implies 0 <= #[trigger] part[i]
            < candidate.len() by {
            assert(part[i] == at[i]);
        }
        assert(embeds(query, candidate, exact, part));
        lemma_embeds_subsequence(query, candidate, exact, part);
    }
}

} // verus!
