//! Web search: what is asked, and how the findings are told.
use vstd::prelude::*;

use crate::arguments::{arguments_are_read_by_key, given_text, or_message, text_argument};
use crate::json::{Json, JsonView};
use crate::path::result_view;
use crate::requests::{normal_arguments, normalize_arguments};
use crate::text::{
    blank, contains_part, decimal, decimal_stands_for_its_value, decimal_text, digit, digit_char,
    is_blank, number_of, occurs_at, part_is_contained, trim, trimmed, trimmed_is_empty,
    wide_decimal_text,
};

verus! {

/// Where searches are sent.
pub const TAVILY_SEARCH_URL: &'static str = "https://api.tavily.com/search";

/// A search to make: what is looked for, how much is wanted, and the header that says by which
/// right.
#[derive(Debug)]
pub struct SearchPlan {
    pub query: String,
    pub max_results: u8,
    pub include_answer: bool,
    pub header_name: String,
    pub header_value: String,
}

/// How well a finding fits, to two decimals. The hundredths of a number are below a hundred; more
/// than that wraps around.
#[derive(Debug, Clone, Copy, PartialEq, Eq, Structural)]
pub enum Score {
    Number { negative: bool, whole: u128, hundredths: u8 },
    Infinite { negative: bool },
    Undefined,
}

/// A finding.
#[derive(Debug)]
pub struct SearchResult {
    pub title: String,
    pub url: String,
    pub content: String,
    pub score: Score,
}

/// What a search came back with.
#[derive(Debug)]
pub struct SearchResponse {
    pub answer: Option<String>,
    pub results: Vec<SearchResult>,
}

/// What a call of `web_search` looks for.
pub open spec fn query_of(arguments: JsonView) -> Result<Seq<char>, Seq<char>> {
    or_message(
        given_text(normal_arguments(arguments), "query"@),
        "web_search requires a non-empty \"query\" argument."@,
    )
}

/// The header of a search: with a key it is sent as a bearer token, without one the search asks for
/// keyless access.
pub open spec fn search_header(api_key: Seq<char>) -> (Seq<char>, Seq<char>) {
    if trimmed(api_key).len() == 0 {
        ("X-Tavily-Access-Mode"@, "keyless"@)
    } else {
        ("Authorization"@, "Bearer "@ + trimmed(api_key))
    }
}

/// The search for a call of `web_search`.
pub fn plan_web_search(arguments: &Json, api_key: &str) -> (plan: Result<SearchPlan, String>)
    ensures
        match plan {
            Ok(plan) => {
                &&& query_of(arguments@) == Ok::<Seq<char>, Seq<char>>(plan.query@)
                &&& plan.max_results == 5
                &&& plan.include_answer
                &&& (plan.header_name@, plan.header_value@) == search_header(api_key@)
            },
            Err(message) => query_of(arguments@) == Err::<Seq<char>, Seq<char>>(message@),
        },
{
    let query = match text_argument(&normalize_arguments(arguments), "query") {
        Some(query) => query,
        None => {
            return Err("web_search requires a non-empty \"query\" argument.".to_owned());
        },
    };
    let key = trim(api_key);
    let (header_name, header_value) = if key.as_str().is_empty() {
        ("X-Tavily-Access-Mode".to_owned(), "keyless".to_owned())
    } else {
        let mut token = "Bearer ".to_owned();
        token.append(key.as_str());
        ("Authorization".to_owned(), token)
    };
    Ok(SearchPlan { query, max_results: 5, include_answer: true, header_name, header_value })
}

/// The minus sign of what is negative.
pub open spec fn sign(negative: bool) -> Seq<char> {
    if negative {
        seq!['-']
    } else {
        Seq::empty()
    }
}

impl Score {
    /// The score in characters.
    pub open spec fn text(self) -> Seq<char> {
        match self {
            Score::Number { negative, whole, hundredths } => sign(negative) + decimal(whole as nat)
                + seq!['.', digit(hundredths as nat / 10 % 10), digit(hundredths as nat % 10)],
            Score::Infinite { negative } => sign(negative) + seq!['i', 'n', 'f'],
            Score::Undefined => seq!['N', 'a', 'N'],
        }
    }

    /// The score in characters.
    pub fn to_text(&self) -> (text: String)
        ensures
            text@ == self.text(),
    {
        let mut text = String::new();
        match self {
            Score::Number { negative, whole, hundredths } => {
                if *negative {
                    text.push('-');
                }
                text.append(wide_decimal_text(*whole).as_str());
                text.push('.');
                text.push(digit_char((*hundredths / 10 % 10) as u128));
                text.push(digit_char((*hundredths % 10) as u128));
            },
            Score::Infinite { negative } => {
                if *negative {
                    text.push('-');
                }
                text.push('i');
                text.push('n');
                text.push('f');
            },
            Score::Undefined => {
                text.push('N');
                text.push('a');
                text.push('N');
            },
        }
        assert(text@ =~= self.text());
        text
    }
}

/// A finding as it is told, with its number in the list.
pub open spec fn told_result(number: nat, result: SearchResult) -> Seq<char> {
    decimal(number) + ". "@ + result.title@ + " ("@ + result.score.text() + ")\n   "@
        + result.url@ + "\n   "@ + trimmed(result.content@) + "\n"@
}

/// The findings as they are told, numbered from one on.
pub open spec fn told_results(results: Seq<SearchResult>) -> Seq<char>
    decreases results.len(),
{
    if results.len() == 0 {
        Seq::empty()
    } else {
        told_results(results.drop_last()) + told_result(results.len(), results.last())
    }
}

/// The summary that a search came with, unless it is blank.
pub open spec fn told_answer(answer: Option<String>) -> Seq<char> {
    match answer {
        Some(answer) => if blank(answer@) {
            Seq::empty()
        } else {
            "\nSummary:\n"@ + trimmed(answer@) + "\n"@
        },
        None => Seq::empty(),
    }
}

/// The findings of a search in words.
pub open spec fn search_report(query: Seq<char>, response: SearchResponse) -> Seq<char> {
    "Search results for \""@ + query + "\":\n"@ + told_answer(response.answer)
        + if response.results@.len() == 0 {
        "\nNo results found."@
    } else {
        "\nSources:\n"@ + told_results(response.results@)
    }
}

/// A finding as it is told, with its number in the list.
fn tell_result(number: u64, result: &SearchResult) -> (told: String)
    ensures
        told@ == told_result(number as nat, *result),
{
    let mut told = decimal_text(number);
    told.append(". ");
    told.append(result.title.as_str());
    told.append(" (");
    told.append(result.score.to_text().as_str());
    told.append(")\n   ");
    told.append(result.url.as_str());
    told.append("\n   ");
    told.append(trim(result.content.as_str()).as_str());
    told.append("\n");
    told
}

/// The findings of a search in words.
pub fn format_search_results(query: &str, response: &SearchResponse) -> (report: String)
    ensures
        report@ == search_report(query@, *response),
{
    let mut report = "Search results for \"".to_owned();
    report.append(query);
    report.append("\":\n");
    let ghost start = report@;
    if let Some(answer) = &response.answer {
        if !is_blank(answer.as_str()) {
            report.append("\nSummary:\n");
            report.append(trim(answer.as_str()).as_str());
            report.append("\n");
        }
    }
    assert(report@ =~= start + told_answer(response.answer));
    if response.results.len() == 0 {
        report.append("\nNo results found.");
        return report;
    }
    let ghost heading = report@;
    report.append("\nSources:\n");
    let total: usize = response.results.len();
    let mut i: usize = 0;
    assert(report@ =~= heading + ("\nSources:\n"@ + told_results(response.results@.take(0))));
    while i < total
        invariant
            i <= total == response.results@.len(),
            report@ == heading + ("\nSources:\n"@ + told_results(response.results@.take(i as int))),
        decreases total - i,
    {
        let ghost so_far = response.results@.take(i + 1);
        assert(so_far.drop_last() =~= response.results@.take(i as int));
        report.append(tell_result((i as u64) + 1, &response.results[i]).as_str());
        assert(report@ =~= heading + ("\nSources:\n"@ + told_results(so_far)));
        i += 1;
    }
    assert(response.results@.take(i as int) =~= response.results@);
    report
}

/// What a search answers: the outcome is the findings, or why there are none.
pub enum SearchOutcome {
    /// The request could not be made, for the given reason.
    Failed(String),
    /// The service refused, with the given status.
    Refused(String),
    /// The reply could not be read, for the given reason.
    Unreadable(String),
    Found(SearchResponse),
}

/// What a search answers.
pub open spec fn search_result(query: Seq<char>, outcome: SearchOutcome) -> Result<
    Seq<char>,
    Seq<char>,
> {
    match outcome {
        SearchOutcome::Failed(reason) => Err("Tavily request failed: "@ + reason@),
        SearchOutcome::Refused(status) => Err("Tavily returned HTTP "@ + status@),
        SearchOutcome::Unreadable(reason) => Err("Could not parse Tavily response: "@ + reason@),
        SearchOutcome::Found(response) => Ok(search_report(query, response)),
    }
}

/// What a search answers.
pub fn finish_search(plan: &SearchPlan, outcome: &SearchOutcome) -> (answer: Result<String, String>)
    ensures
        result_view(answer) == search_result(plan.query@, *outcome),
{
    match outcome {
        SearchOutcome::Failed(reason) => {
            let mut message = "Tavily request failed: ".to_owned();
            message.append(reason.as_str());
            Err(message)
        },
        SearchOutcome::Refused(status) => {
            let mut message = "Tavily returned HTTP ".to_owned();
            message.append(status.as_str());
            Err(message)
        },
        SearchOutcome::Unreadable(reason) => {
            let mut message = "Could not parse Tavily response: ".to_owned();
            message.append(reason.as_str());
            Err(message)
        },
        SearchOutcome::Found(response) => Ok(format_search_results(plan.query.as_str(), response)),
    }
}

/// A search looks for what stands under `query`, without white space around it; without it, it is
/// refused.
pub proof fn query_stands_under_its_key(entries: Map<Seq<char>, JsonView>)
    ensures
        match JsonView::Object(entries).field("query"@) {
            Some(JsonView::Text(text)) => query_of(JsonView::Object(entries)) == if blank(text) {
                Err::<Seq<char>, Seq<char>>(
                    "web_search requires a non-empty \"query\" argument."@,
                )
            } else {
                Ok(trimmed(text))
            },
            _ => query_of(JsonView::Object(entries)) is Err,
        },
{
    arguments_are_read_by_key(JsonView::Object(entries), "query"@);
}

/// A search carries the key where there is one, and says that it has none where it is blank.
pub proof fn searches_carry_their_key(api_key: Seq<char>)
    ensures
        blank(api_key) ==> search_header(api_key) == ("X-Tavily-Access-Mode"@, "keyless"@),
        !blank(api_key) ==> search_header(api_key) == (
            "Authorization"@,
            "Bearer "@ + trimmed(api_key),
        ),
{
    trimmed_is_empty(api_key);
}

/// A score has two decimals: its last two digits stand for the hundredths, behind a point, and what
/// stands before is the whole part, behind a minus sign where the score is negative.
pub proof fn scores_have_two_decimals(negative: bool, whole: u128, hundredths: u8)
    requires
        hundredths < 100,
    ensures
        ({
            let text = Score::Number { negative, whole, hundredths }.text();
            let point = text.len() - 3;
            &&& point > 0
            &&& text[point] == '.'
            &&& number_of(text.skip(point + 1)) == hundredths
            &&& text.take(point) == if negative {
                seq!['-'] + decimal(whole as nat)
            } else {
                decimal(whole as nat)
            }
        }),
{
    decimal_stands_for_its_value(whole as nat);
    let text = Score::Number { negative, whole, hundredths }.text();
    let point = text.len() - 3;
    let tens = digit(hundredths as nat / 10 % 10);
    let ones = digit(hundredths as nat % 10);
    assert(text.skip(point + 1) =~= seq![tens, ones]);
    reveal_with_fuel(number_of, 3);
    assert(seq![tens, ones].drop_last() =~= seq![tens]);
    assert(seq![tens].drop_last() =~= Seq::<char>::empty());
    assert(text.take(point) =~= sign(negative) + decimal(whole as nat));
    if !negative {
        assert(sign(negative) + decimal(whole as nat) =~= decimal(whole as nat));
    }
}

/// Where the findings up to a place are told, and what comes after them.
proof fn findings_before(results: Seq<SearchResult>, i: int)
    requires
        0 <= i <= results.len(),
    ensures
        told_results(results.take(i)).is_prefix_of(told_results(results)),
    decreases results.len() - i,
{
    let here = told_results(results.take(i));
    if i == results.len() {
        assert(results.take(i) =~= results);
        assert(here =~= here.subrange(0, here.len() as int));
    } else {
        findings_before(results, i + 1);
        let next = told_results(results.take(i + 1));
        assert(results.take(i + 1).drop_last() =~= results.take(i));
        assert(here =~= told_results(results).subrange(0, here.len() as int)) by {
            assert forall|k: int| 0 <= k < here.len() implies here[k] == told_results(
                results,
            )[k] by {
                assert(next[k] == here[k]);
                assert(told_results(results).subrange(0, next.len() as int)[k] == next[k]);
            }
        }
    }
}

/// Each finding is told: under its number, counted from one, with its title, its score, its address
/// and its content without white space around it. It comes behind all findings before it.
#[verifier::rlimit(40)]
pub proof fn each_finding_is_told(query: Seq<char>, response: SearchResponse, i: int) -> (at: int)
    requires
        0 <= i < response.results@.len(),
    ensures
        ({
            let report = search_report(query, response);
            let result = response.results@[i];
            let told = decimal((i + 1) as nat) + ". "@ + result.title@ + " ("@
                + result.score.text() + ")\n   "@ + result.url@ + "\n   "@ + trimmed(
                result.content@,
            ) + "\n"@;
            &&& occurs_at(report, told, at)
            &&& contains_part(report, told)
            &&& at == search_report(query, response).len() - told_results(response.results@).len()
                + told_results(response.results@.take(i)).len()
        }),
{
    let results = response.results@;
    let result = results[i];
    let report = search_report(query, response);
    let told = decimal((i + 1) as nat) + ". "@ + result.title@ + " ("@ + result.score.text()
        + ")\n   "@ + result.url@ + "\n   "@ + trimmed(result.content@) + "\n"@;
    let head = "Search results for \""@ + query + "\":\n"@ + told_answer(response.answer)
        + "\nSources:\n"@;
    let all = told_results(results);
    let before = told_results(results.take(i));
    let with = told_results(results.take(i + 1));
    assert(report =~= head + all);
    findings_before(results, i + 1);
    assert(results.take(i + 1).drop_last() =~= results.take(i));
    assert(results.take(i + 1).last() == result);
    assert(with =~= before + told);
    let behind = all.skip(with.len() as int);
    assert(all =~= with + behind) by {
        assert(with =~= all.subrange(0, with.len() as int));
    }
    assert(report =~= head + before + told + behind);
    part_is_contained(head + before, told, behind);
    (head + before).len() as int
}

/// The findings are told in their order: one behind the other.
pub proof fn findings_are_told_in_order(
    query: Seq<char>,
    response: SearchResponse,
    i: int,
    j: int,
) -> (places: (int, int))
    requires
        0 <= i < j < response.results@.len(),
    ensures
        ({
            let report = search_report(query, response);
            let first = response.results@[i];
            let second = response.results@[j];
            let first_told = decimal((i + 1) as nat) + ". "@ + first.title@ + " ("@
                + first.score.text() + ")\n   "@ + first.url@ + "\n   "@ + trimmed(first.content@)
                + "\n"@;
            let second_told = decimal((j + 1) as nat) + ". "@ + second.title@ + " ("@
                + second.score.text() + ")\n   "@ + second.url@ + "\n   "@ + trimmed(
                second.content@,
            ) + "\n"@;
            &&& occurs_at(report, first_told, places.0)
            &&& occurs_at(report, second_told, places.1)
            &&& places.0 + first_told.len() <= places.1
        }),
{
    let results = response.results@;
    let first = each_finding_is_told(query, response, i);
    let second = each_finding_is_told(query, response, j);
    assert(results.take(j).take(i + 1) =~= results.take(i + 1));
    findings_before(results.take(j), i + 1);
    assert(results.take(i + 1).drop_last() =~= results.take(i));
    assert(results.take(i + 1).last() == results[i]);
    (first, second)
}

/// A report tells nothing but its findings: another finding makes it longer by what is told of that
/// one, and nothing else.
pub proof fn another_finding_is_added(
    query: Seq<char>,
    shorter: SearchResponse,
    longer: SearchResponse,
    result: SearchResult,
)
    requires
        shorter.results@.len() > 0,
        longer.results@ == shorter.results@.push(result),
        longer.answer == shorter.answer,
    ensures
        search_report(query, longer) == search_report(query, shorter) + (decimal(
            longer.results@.len(),
        ) + ". "@ + result.title@ + " ("@ + result.score.text() + ")\n   "@ + result.url@
            + "\n   "@ + trimmed(result.content@) + "\n"@),
{
    assert(longer.results@.drop_last() =~= shorter.results@);
    let told = decimal(longer.results@.len()) + ". "@ + result.title@ + " ("@
        + result.score.text() + ")\n   "@ + result.url@ + "\n   "@ + trimmed(result.content@)
        + "\n"@;
    assert(search_report(query, longer) =~= search_report(query, shorter) + told);
}

/// A report names what was looked for, tells the summary where there is one that is not blank, and
/// says so where nothing was found.
pub proof fn reports_name_query_and_summary(query: Seq<char>, response: SearchResponse)
    ensures
        ("Search results for \""@ + query + "\":\n"@).is_prefix_of(search_report(query, response)),
        response.answer matches Some(answer) ==> (!blank(answer@) ==> contains_part(
            search_report(query, response),
            "\nSummary:\n"@ + trimmed(answer@) + "\n"@,
        )),
        response.results@.len() == 0 ==> contains_part(
            search_report(query, response),
            "\nNo results found."@,
        ),
        response.results@.len() == 0 && (response.answer is None || blank(
            response.answer->0@,
        )) ==> search_report(query, response) == "Search results for \""@ + query + "\":\n"@
            + "\nNo results found."@,
        response.results@.len() > 0 ==> contains_part(
            search_report(query, response),
            "\nSources:\n"@,
        ),
{
    let head = "Search results for \""@ + query + "\":\n"@;
    let answer = told_answer(response.answer);
    let report = search_report(query, response);
    let rest = if response.results@.len() == 0 {
        "\nNo results found."@
    } else {
        "\nSources:\n"@ + told_results(response.results@)
    };
    assert(report =~= head + answer + rest);
    assert(head =~= report.subrange(0, head.len() as int));
    part_is_contained(head, answer, rest);
    if response.results@.len() == 0 {
        part_is_contained(head + answer, rest, Seq::empty());
        assert(report =~= head + answer + rest + Seq::<char>::empty());
        if answer.len() == 0 {
            assert(report =~= head + "\nNo results found."@);
        }
    } else {
        part_is_contained(head + answer, "\nSources:\n"@, told_results(response.results@));
        assert(report =~= head + answer + "\nSources:\n"@ + told_results(response.results@));
    }
}

/// A search that came back is answered with its report, and any other is an error with the reason.
pub proof fn searches_are_answered(query: Seq<char>, outcome: SearchOutcome)
    ensures
        match outcome {
            SearchOutcome::Found(response) => search_result(query, outcome) == Ok::<
                Seq<char>,
                Seq<char>,
            >(search_report(query, response)),
            SearchOutcome::Failed(reason) => search_result(query, outcome) matches Err(message)
                && contains_part(message, reason@),
            SearchOutcome::Refused(status) => search_result(query, outcome) matches Err(message)
                && contains_part(message, status@),
            SearchOutcome::Unreadable(reason) => search_result(query, outcome) matches Err(message)
                && contains_part(message, reason@),
        },
{
    let nothing = Seq::<char>::empty();
    match outcome {
        SearchOutcome::Found(_) => {},
        SearchOutcome::Failed(reason) => {
            part_is_contained("Tavily request failed: "@, reason@, nothing);
            assert("Tavily request failed: "@ + reason@ + nothing =~= "Tavily request failed: "@
                + reason@);
        },
        SearchOutcome::Refused(status) => {
            part_is_contained("Tavily returned HTTP "@, status@, nothing);
            assert("Tavily returned HTTP "@ + status@ + nothing =~= "Tavily returned HTTP "@
                + status@);
        },
        SearchOutcome::Unreadable(reason) => {
            part_is_contained("Could not parse Tavily response: "@, reason@, nothing);
            assert("Could not parse Tavily response: "@ + reason@ + nothing
                =~= "Could not parse Tavily response: "@ + reason@);
        },
    }
}

/// A score that is no number is shown as such, and an infinite one as infinite, with its sign.
pub proof fn other_scores_are_shown_as_such()
    ensures
        Score::Undefined.text() == "NaN"@,
        (Score::Infinite { negative: false }).text() == "inf"@,
        (Score::Infinite { negative: true }).text() == "-inf"@,
{
    reveal_strlit("NaN");
    reveal_strlit("inf");
    reveal_strlit("-inf");
    assert(Score::Undefined.text() =~= "NaN"@);
    assert((Score::Infinite { negative: false }).text() =~= "inf"@);
    assert((Score::Infinite { negative: true }).text() =~= "-inf"@);
}

/// A summary stands between what was looked for and what was found, and changes nothing else; a blank
/// one is as none.
pub proof fn summary_comes_first(
    query: Seq<char>,
    response: SearchResponse,
    other: SearchResponse,
)
    requires
        response.results@ == other.results@,
        other.answer is None,
    ensures
        ({
            let head = "Search results for \""@ + query + "\":\n"@;
            let rest = search_report(query, other).skip(head.len() as int);
            search_report(query, response) == match response.answer {
                Some(answer) => if blank(answer@) {
                    head + rest
                } else {
                    head + ("\nSummary:\n"@ + trimmed(answer@) + "\n"@) + rest
                },
                None => head + rest,
            }
        }),
{
    let head = "Search results for \""@ + query + "\":\n"@;
    let told = told_answer(response.answer);
    let found = if response.results@.len() == 0 {
        "\nNo results found."@
    } else {
        "\nSources:\n"@ + told_results(response.results@)
    };
    assert(search_report(query, other) =~= head + found);
    assert(search_report(query, other).skip(head.len() as int) =~= found);
    assert(search_report(query, response) =~= head + told + found);
    if told.len() == 0 {
        assert(head + told + found =~= head + found);
    }
}

/// One finding is told alone.
pub proof fn one_finding_is_told_alone(query: Seq<char>, response: SearchResponse)
    requires
        response.results@.len() == 1,
        response.answer is None,
    ensures
        ({
            let result = response.results@[0];
            search_report(query, response) == "Search results for \""@ + query + "\":\n"@
                + "\nSources:\n"@ + ("1"@ + ". "@ + result.title@ + " ("@ + result.score.text()
                + ")\n   "@ + result.url@ + "\n   "@ + trimmed(result.content@) + "\n"@)
        }),
{
    let result = response.results@[0];
    let told = told_result(1, result);
    reveal_strlit("1");
    assert(decimal(1) =~= "1"@);
    assert(response.results@.drop_last() =~= Seq::<SearchResult>::empty());
    assert(response.results@.last() == result);
    assert(told_results(response.results@.drop_last()) =~= Seq::<char>::empty());
    assert(told_results(response.results@) =~= told);
    assert(search_report(query, response) =~= "Search results for \""@ + query + "\":\n"@
        + "\nSources:\n"@ + told);
}

} // verus!
