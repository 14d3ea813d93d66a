//! What the model's server reports of its work.
use vstd::prelude::*;

use crate::text::{
    contains_part, decimal, decimal_text, join, joined, joined_texts_are_contained, same_text,
    views,
};

verus! {

/// What the server reports of one or more requests.
#[derive(Debug, PartialEq, Eq)]
pub struct OllamaMetrics {
    pub total_duration_ns: u64,
    pub load_duration_ns: u64,
    pub prompt_eval_count: u64,
    pub prompt_eval_duration_ns: u64,
    pub eval_count: u64,
    pub eval_duration_ns: u64,
    pub request_count: u32,
    pub http_headers: Vec<(String, String)>,
}

/// The model of what the server reports.
#[verifier::ext_equal]
pub struct MetricsView {
    pub total_duration_ns: u64,
    pub load_duration_ns: u64,
    pub prompt_eval_count: u64,
    pub prompt_eval_duration_ns: u64,
    pub eval_count: u64,
    pub eval_duration_ns: u64,
    pub request_count: u32,
    pub http_headers: Seq<(Seq<char>, Seq<char>)>,
}

/// Fractions that are shown with the metrics, each already as text: durations in seconds or
/// milliseconds with two decimals, rates in tokens per second with one.
#[derive(Debug)]
pub struct MetricFigures {
    pub total_seconds: String,
    pub total_ms: String,
    pub load_ms: String,
    pub prompt_eval_ms: String,
    pub eval_ms: String,
    pub prefill_rate: String,
    pub generation_rate: String,
}

/// The texts of headers.
pub open spec fn header_views(headers: Seq<(String, String)>) -> Seq<(Seq<char>, Seq<char>)> {
    headers.map_values(|header: (String, String)| (header.0@, header.1@))
}

impl View for OllamaMetrics {
    type V = MetricsView;

    open spec fn view(&self) -> MetricsView {
        MetricsView {
            total_duration_ns: self.total_duration_ns,
            load_duration_ns: self.load_duration_ns,
            prompt_eval_count: self.prompt_eval_count,
            prompt_eval_duration_ns: self.prompt_eval_duration_ns,
            eval_count: self.eval_count,
            eval_duration_ns: self.eval_duration_ns,
            request_count: self.request_count,
            http_headers: header_views(self.http_headers@),
        }
    }
}

/// Whether `at` is the first place where a header of this name stands.
pub open spec fn first_header(
    headers: Seq<(Seq<char>, Seq<char>)>,
    name: Seq<char>,
    at: int,
) -> bool {
    &&& 0 <= at < headers.len()
    &&& headers[at].0 == name
    &&& forall|i: int| 0 <= i < at ==> (#[trigger] headers[i]).0 != name
}

/// `headers` with a header put in: the first one of that name takes the value, or a new one comes
/// last.
pub open spec fn with_header(
    headers: Seq<(Seq<char>, Seq<char>)>,
    name: Seq<char>,
    value: Seq<char>,
) -> Seq<(Seq<char>, Seq<char>)> {
    if exists|at: int| first_header(headers, name, at) {
        let at = choose|at: int| first_header(headers, name, at);
        headers.update(at, (name, value))
    } else {
        headers.push((name, value))
    }
}

/// `headers` with all of `others` put in, one after the other.
pub open spec fn merged_headers(
    headers: Seq<(Seq<char>, Seq<char>)>,
    others: Seq<(Seq<char>, Seq<char>)>,
) -> Seq<(Seq<char>, Seq<char>)>
    decreases others.len(),
{
    if others.len() == 0 {
        headers
    } else {
        with_header(
            merged_headers(headers, others.drop_last()),
            others.last().0,
            others.last().1,
        )
    }
}

/// The value of the first header of a name.
pub open spec fn header_value(
    headers: Seq<(Seq<char>, Seq<char>)>,
    name: Seq<char>,
) -> Option<Seq<char>> {
    if exists|at: int| first_header(headers, name, at) {
        Some(headers[choose|at: int| first_header(headers, name, at)].1)
    } else {
        None
    }
}

/// The value of the last header of a name.
pub open spec fn last_header_value(
    headers: Seq<(Seq<char>, Seq<char>)>,
    name: Seq<char>,
) -> Option<Seq<char>>
    decreases headers.len(),
{
    if headers.len() == 0 {
        None
    } else if headers.last().0 == name {
        Some(headers.last().1)
    } else {
        last_header_value(headers.drop_last(), name)
    }
}

/// Whether no name stands twice.
pub open spec fn distinct_names(headers: Seq<(Seq<char>, Seq<char>)>) -> bool {
    forall|i: int, j: int|
        0 <= i < j < headers.len() ==> (#[trigger] headers[i]).0 != (#[trigger] headers[j]).0
}

/// Puts a header in.
fn put_header(headers: &mut Vec<(String, String)>, name: &String, value: &String)
    ensures
        header_views(final(headers)@) == with_header(header_views(old(headers)@), name@, value@),
{
    let ghost before = header_views(headers@);
    let mut i: usize = 0;
    while i < headers.len()
        invariant
            i <= headers@.len(),
            header_views(headers@) == before,
            header_views(old(headers)@) == before,
            forall|j: int| 0 <= j < i ==> (#[trigger] before[j]).0 != name@,
        decreases headers@.len() - i,
    {
        assert(before[i as int] == (headers@[i as int].0@, headers@[i as int].1@));
        if same_text(headers[i].0.as_str(), name.as_str()) {
            assert(first_header(before, name@, i as int));
            proof {
                let chosen = choose|at: int| first_header(before, name@, at);
                assert(first_header(before, name@, chosen));
                assert(chosen == i);
            }
            headers.set(i, (name.clone(), value.clone()));
            assert(header_views(headers@) =~= before.update(i as int, (name@, value@)));
            return;
        }
        i += 1;
    }
    assert(header_views(headers@).len() == headers@.len());
    headers.push((name.clone(), value.clone()));
    assert(header_views(headers@) =~= before.push((name@, value@)));
}

impl MetricsView {
    /// Nothing reported yet, but for the headers of a reply.
    pub open spec fn nothing(http_headers: Seq<(Seq<char>, Seq<char>)>) -> MetricsView {
        MetricsView {
            total_duration_ns: 0,
            load_duration_ns: 0,
            prompt_eval_count: 0,
            prompt_eval_duration_ns: 0,
            eval_count: 0,
            eval_duration_ns: 0,
            request_count: 0,
            http_headers,
        }
    }

    /// Whether adding the numbers of `other` leads to numbers that can be held.
    pub open spec fn mergeable(self, other: MetricsView) -> bool {
        &&& self.total_duration_ns + other.total_duration_ns <= u64::MAX
        &&& self.load_duration_ns + other.load_duration_ns <= u64::MAX
        &&& self.prompt_eval_count + other.prompt_eval_count <= u64::MAX
        &&& self.prompt_eval_duration_ns + other.prompt_eval_duration_ns <= u64::MAX
        &&& self.eval_count + other.eval_count <= u64::MAX
        &&& self.eval_duration_ns + other.eval_duration_ns <= u64::MAX
        &&& self.request_count + other.request_count <= u32::MAX
    }

    /// The metrics with those of `other` added: the numbers are added, the headers put in.
    pub open spec fn plus(self, other: MetricsView) -> MetricsView
        recommends
            self.mergeable(other),
    {
        MetricsView {
            total_duration_ns: (self.total_duration_ns + other.total_duration_ns) as u64,
            load_duration_ns: (self.load_duration_ns + other.load_duration_ns) as u64,
            prompt_eval_count: (self.prompt_eval_count + other.prompt_eval_count) as u64,
            prompt_eval_duration_ns: (self.prompt_eval_duration_ns
                + other.prompt_eval_duration_ns) as u64,
            eval_count: (self.eval_count + other.eval_count) as u64,
            eval_duration_ns: (self.eval_duration_ns + other.eval_duration_ns) as u64,
            request_count: (self.request_count + other.request_count) as u32,
            http_headers: merged_headers(self.http_headers, other.http_headers),
        }
    }
}

impl OllamaMetrics {
    /// Nothing reported yet, but for the headers of a reply.
    pub fn with_headers(http_headers: Vec<(String, String)>) -> (metrics: OllamaMetrics)
        ensures
            metrics@ == MetricsView::nothing(header_views(http_headers@)),
            metrics.http_headers == http_headers,
    {
        OllamaMetrics {
            total_duration_ns: 0,
            load_duration_ns: 0,
            prompt_eval_count: 0,
            prompt_eval_duration_ns: 0,
            eval_count: 0,
            eval_duration_ns: 0,
            request_count: 0,
            http_headers,
        }
    }

    /// Whether adding the numbers of `other` leads to numbers that can be held.
    pub fn can_merge(&self, other: &OllamaMetrics) -> (can: bool)
        ensures
            can == self@.mergeable(other@),
    {
        self.total_duration_ns <= u64::MAX - other.total_duration_ns && self.load_duration_ns
            <= u64::MAX - other.load_duration_ns && self.prompt_eval_count <= u64::MAX
            - other.prompt_eval_count && self.prompt_eval_duration_ns <= u64::MAX
            - other.prompt_eval_duration_ns && self.eval_count <= u64::MAX - other.eval_count
            && self.eval_duration_ns <= u64::MAX - other.eval_duration_ns && self.request_count
            <= u32::MAX - other.request_count
    }

    /// Adds the metrics of `other`: its numbers are added, its headers put in.
    pub fn merge(&mut self, other: &Self)
        requires
            old(self)@.mergeable(other@),
        ensures
            final(self)@ == old(self)@.plus(other@),
    {
        self.total_duration_ns += other.total_duration_ns;
        self.load_duration_ns += other.load_duration_ns;
        self.prompt_eval_count += other.prompt_eval_count;
        self.prompt_eval_duration_ns += other.prompt_eval_duration_ns;
        self.eval_count += other.eval_count;
        self.eval_duration_ns += other.eval_duration_ns;
        self.request_count += other.request_count;

        let ghost start = *self;
        let ghost others = header_views(other.http_headers@);
        let mut i: usize = 0;
        assert(others.take(0) =~= Seq::empty());
        while i < other.http_headers.len()
            invariant
                i <= other.http_headers@.len(),
                others == header_views(other.http_headers@),
                self.total_duration_ns == start.total_duration_ns,
                self.load_duration_ns == start.load_duration_ns,
                self.prompt_eval_count == start.prompt_eval_count,
                self.prompt_eval_duration_ns == start.prompt_eval_duration_ns,
                self.eval_count == start.eval_count,
                self.eval_duration_ns == start.eval_duration_ns,
                self.request_count == start.request_count,
                header_views(self.http_headers@) == merged_headers(
                    header_views(start.http_headers@),
                    others.take(i as int),
                ),
            decreases other.http_headers@.len() - i,
        {
            assert(others.take(i + 1).drop_last() =~= others.take(i as int));
            put_header(
                &mut self.http_headers,
                &other.http_headers[i].0,
                &other.http_headers[i].1,
            );
            i += 1;
        }
        assert(others.take(i as int) =~= others);
    }

    /// The metrics in one line.
    pub fn summary_line(&self, figures: &MetricFigures) -> (line: String)
        ensures
            line@ == figures.total_seconds@ + "s · "@ + figures.generation_rate@ + " tok/s"@,
    {
        let mut line = figures.total_seconds.clone();
        line.append("s · ");
        line.append(figures.generation_rate.as_str());
        line.append(" tok/s");
        line
    }

    /// The lines that tell all metrics.
    pub open spec fn tooltip_lines(self, figures: MetricFigures) -> Seq<Seq<char>> {
        let plural = if self.request_count == 1 {
            Seq::<char>::empty()
        } else {
            "s"@
        };
        let numbers = seq![
            "Ollama usage ("@ + decimal(self.request_count as nat) + " API request"@ + plural
                + ")"@,
            "total_duration: "@ + figures.total_ms@ + " ms"@,
            "load_duration: "@ + figures.load_ms@ + " ms"@,
            "prompt_eval_count: "@ + decimal(self.prompt_eval_count as nat),
            "prompt_eval_duration: "@ + figures.prompt_eval_ms@ + " ms ("@ + figures.prefill_rate@
                + " tok/s prefill)"@,
            "eval_count: "@ + decimal(self.eval_count as nat),
            "eval_duration: "@ + figures.eval_ms@ + " ms ("@ + figures.generation_rate@
                + " tok/s gen)"@,
        ];
        if self.http_headers@.len() == 0 {
            numbers
        } else {
            numbers + seq![Seq::<char>::empty(), "Response headers:"@] + header_views(
                self.http_headers@,
            ).map_values(|header: (Seq<char>, Seq<char>)| header.0 + ": "@ + header.1)
        }
    }

    /// All metrics, line by line.
    pub fn tooltip_text(&self, figures: &MetricFigures) -> (text: String)
        ensures
            text@ == joined(self.tooltip_lines(*figures), "\n"@),
    {
        let mut usage = "Ollama usage (".to_owned();
        usage.append(decimal_text(self.request_count as u64).as_str());
        usage.append(" API request");
        usage.append(
            if self.request_count == 1 {
                ""
            } else {
                "s"
            },
        );
        usage.append(")");
        proof {
            reveal_strlit("");
            assert(""@ =~= Seq::<char>::empty());
        }
        let mut lines: Vec<String> = Vec::new();
        lines.push(usage);
        lines.push(measured("total_duration: ", figures.total_ms.as_str(), " ms"));
        lines.push(measured("load_duration: ", figures.load_ms.as_str(), " ms"));
        lines.push(
            measured("prompt_eval_count: ", decimal_text(self.prompt_eval_count).as_str(), ""),
        );
        let mut prefill = measured(
            "prompt_eval_duration: ",
            figures.prompt_eval_ms.as_str(),
            " ms (",
        );
        prefill.append(figures.prefill_rate.as_str());
        prefill.append(" tok/s prefill)");
        lines.push(prefill);
        lines.push(measured("eval_count: ", decimal_text(self.eval_count).as_str(), ""));
        let mut generation = measured("eval_duration: ", figures.eval_ms.as_str(), " ms (");
        generation.append(figures.generation_rate.as_str());
        generation.append(" tok/s gen)");
        lines.push(generation);
        let ghost all = self.tooltip_lines(*figures);
        assert(views(lines@) =~= all.take(7));

        if self.http_headers.len() > 0 {
            lines.push(String::new());
            lines.push("Response headers:".to_owned());
            assert(views(lines@) =~= all.take(9));
            let mut i: usize = 0;
            while i < self.http_headers.len()
                invariant
                    i <= self.http_headers@.len(),
                    0 < self.http_headers@.len(),
                    all == self.tooltip_lines(*figures),
                    views(lines@) == all.take(9 + i),
                decreases self.http_headers@.len() - i,
            {
                let (name, value) = (&self.http_headers[i].0, &self.http_headers[i].1);
                let mut line = name.clone();
                line.append(": ");
                line.append(value.as_str());
                let ghost before = views(lines@);
                lines.push(line);
                assert(all[9 + i] == line@);
                assert(views(lines@) =~= before.push(all[9 + i]));
                assert(all.take(9 + i + 1) =~= before.push(all[9 + i]));
                i += 1;
            }
            assert(all.take(9 + i) =~= all);
        } else {
            assert(all.take(7) =~= all);
        }
        join(&lines, "\n")
    }

    /// What the rate of reading the prompt is made of, in tokens and nanoseconds; without a
    /// duration the rate is zero.
    pub fn prefill_terms(&self) -> (terms: Option<(u64, u64)>)
        ensures
            terms == rate_terms(self.prompt_eval_count, self.prompt_eval_duration_ns),
    {
        tokens_per_second(self.prompt_eval_count, self.prompt_eval_duration_ns)
    }

    /// What the rate of writing the answer is made of, in tokens and nanoseconds; without a
    /// duration the rate is zero.
    pub fn generation_terms(&self) -> (terms: Option<(u64, u64)>)
        ensures
            terms == rate_terms(self.eval_count, self.eval_duration_ns),
    {
        tokens_per_second(self.eval_count, self.eval_duration_ns)
    }
}

/// What a rate is made of, unless it is zero for want of a duration.
pub open spec fn rate_terms(token_count: u64, duration_ns: u64) -> Option<(u64, u64)> {
    if duration_ns == 0 {
        None
    } else {
        Some((token_count, duration_ns))
    }
}

/// What a rate is made of, unless it is zero for want of a duration.
pub fn tokens_per_second(token_count: u64, duration_ns: u64) -> (terms: Option<(u64, u64)>)
    ensures
        terms == rate_terms(token_count, duration_ns),
{
    if duration_ns == 0 {
        return None;
    }
    Some((token_count, duration_ns))
}

/// A label, a figure and its unit.
fn measured(label: &str, figure: &str, unit: &str) -> (line: String)
    ensures
        line@ == label@ + figure@ + unit@,
{
    let mut line = label.to_owned();
    line.append(figure);
    line.append(unit);
    line
}

impl Default for OllamaMetrics {
    fn default() -> (metrics: Self)
        ensures
            metrics@ == MetricsView::nothing(Seq::empty()),
    {
        let metrics = OllamaMetrics::with_headers(Vec::new());
        assert(metrics@ =~= MetricsView::nothing(Seq::empty()));
        metrics
    }
}

impl Clone for OllamaMetrics {
    fn clone(&self) -> (copy: Self)
        ensures
            copy@ == self@,
            copy.http_headers@ == self.http_headers@,
    {
        let mut http_headers: Vec<(String, String)> = Vec::new();
        let mut i: usize = 0;
        while i < self.http_headers.len()
            invariant
                i <= self.http_headers@.len(),
                http_headers@ == self.http_headers@.take(i as int),
            decreases self.http_headers@.len() - i,
        {
            http_headers.push((self.http_headers[i].0.clone(), self.http_headers[i].1.clone()));
            i += 1;
        }
        OllamaMetrics {
            total_duration_ns: self.total_duration_ns,
            load_duration_ns: self.load_duration_ns,
            prompt_eval_count: self.prompt_eval_count,
            prompt_eval_duration_ns: self.prompt_eval_duration_ns,
            eval_count: self.eval_count,
            eval_duration_ns: self.eval_duration_ns,
            request_count: self.request_count,
            http_headers,
        }
    }
}

/// A header that is put in has its value afterwards, and every other name keeps its own.
proof fn put_in_value(
    headers: Seq<(Seq<char>, Seq<char>)>,
    name: Seq<char>,
    value: Seq<char>,
    other: Seq<char>,
)
    ensures
        header_value(with_header(headers, name, value), other) == if other == name {
            Some(value)
        } else {
            header_value(headers, other)
        },
{
    let after = with_header(headers, name, value);
    if exists|at: int| first_header(headers, name, at) {
        let at = choose|at: int| first_header(headers, name, at);
        assert(first_header(after, name, at));
        let found = choose|i: int| first_header(after, name, i);
        assert(first_header(after, name, found));
        assert(found == at);
        if other != name {
            same_first_header(headers, after, other);
        }
    } else {
        no_header(headers, name);
        let at = headers.len() as int;
        assert(first_header(after, name, at));
        let found = choose|i: int| first_header(after, name, i);
        assert(first_header(after, name, found));
        assert(found == at);
        if other != name {
            if exists|i: int| first_header(headers, other, i) {
                let i = choose|i: int| first_header(headers, other, i);
                assert(first_header(after, other, i));
                let k = choose|k: int| first_header(after, other, k);
                assert(first_header(after, other, k));
                assert(k == i);
            } else {
                no_header(headers, other);
                if exists|k: int| first_header(after, other, k) {
                    let k = choose|k: int| first_header(after, other, k);
                    assert(first_header(after, other, k));
                    if k < headers.len() {
                        assert(headers[k].0 == other);
                    }
                }
            }
        }
    }
}

/// Where there is no first header of a name, there is none.
proof fn no_header(headers: Seq<(Seq<char>, Seq<char>)>, name: Seq<char>)
    requires
        !exists|at: int| first_header(headers, name, at),
    ensures
        forall|i: int| 0 <= i < headers.len() ==> (#[trigger] headers[i]).0 != name,
    decreases headers.len(),
{
    if headers.len() > 0 {
        let before = headers.drop_last();
        if exists|at: int| first_header(before, name, at) {
            let at = choose|at: int| first_header(before, name, at);
            assert forall|i: int| 0 <= i < at implies (#[trigger] headers[i]).0 != name by {
                assert(before[i] == headers[i]);
            }
            assert(first_header(headers, name, at));
        }
        no_header(before, name);
        assert forall|i: int| 0 <= i < headers.len() implies (#[trigger] headers[i]).0 != name by {
            if i < before.len() {
                assert(before[i] == headers[i]);
            } else if headers[i].0 == name {
                assert forall|j: int| 0 <= j < i implies (#[trigger] headers[j]).0 != name by {
                    assert(before[j] == headers[j]);
                }
                assert(first_header(headers, name, i));
            }
        }
    }
}

/// Lists of headers that differ in no header of a name say the same of that name.
proof fn same_first_header(
    headers: Seq<(Seq<char>, Seq<char>)>,
    after: Seq<(Seq<char>, Seq<char>)>,
    name: Seq<char>,
)
    requires
        headers.len() == after.len(),
        forall|i: int|
            0 <= i < headers.len() ==> (#[trigger] headers[i]).0 == (#[trigger] after[i]).0,
        forall|i: int|
            0 <= i < headers.len() && (#[trigger] headers[i]).0 == name ==> headers[i] == after[i],
    ensures
        header_value(headers, name) == header_value(after, name),
{
    if exists|i: int| first_header(headers, name, i) {
        let i = choose|i: int| first_header(headers, name, i);
        assert forall|j: int| 0 <= j < i implies (#[trigger] after[j]).0 != name by {
            assert(headers[j].0 == after[j].0);
        }
        assert(headers[i].0 == after[i].0);
        assert(first_header(after, name, i));
        let k = choose|k: int| first_header(after, name, k);
        assert(first_header(after, name, k));
        assert(k == i);
    } else if exists|k: int| first_header(after, name, k) {
        let k = choose|k: int| first_header(after, name, k);
        assert forall|j: int| 0 <= j < k implies (#[trigger] headers[j]).0 != name by {
            assert(headers[j].0 == after[j].0);
        }
        assert(headers[k].0 == after[k].0);
        assert(first_header(headers, name, k));
    }
}

/// Adding the metrics of nothing changes nothing.
pub proof fn adding_nothing(metrics: MetricsView)
    ensures
        metrics.mergeable(MetricsView::nothing(Seq::empty())),
        metrics.plus(MetricsView::nothing(Seq::empty())) == metrics,
{
}

/// Putting headers in keeps the old names at their places.
pub proof fn merged_headers_keep_places(
    headers: Seq<(Seq<char>, Seq<char>)>,
    others: Seq<(Seq<char>, Seq<char>)>,
    at: int,
)
    requires
        0 <= at < headers.len(),
    ensures
        at < merged_headers(headers, others).len(),
        merged_headers(headers, others)[at].0 == headers[at].0,
    decreases others.len(),
{
    if others.len() > 0 {
        merged_headers_keep_places(headers, others.drop_last(), at);
    }
}

/// After a merge a header has the last value that the merged ones give it, or else its old one.
pub proof fn merged_header_value(
    headers: Seq<(Seq<char>, Seq<char>)>,
    others: Seq<(Seq<char>, Seq<char>)>,
    name: Seq<char>,
)
    ensures
        header_value(merged_headers(headers, others), name) == match last_header_value(
            others,
            name,
        ) {
            Some(value) => Some(value),
            None => header_value(headers, name),
        },
    decreases others.len(),
{
    if others.len() > 0 {
        merged_header_value(headers, others.drop_last(), name);
        put_in_value(
            merged_headers(headers, others.drop_last()),
            others.last().0,
            others.last().1,
            name,
        );
    }
}

/// A merge lets no header name stand twice where none did before.
pub proof fn merge_keeps_names_distinct(
    headers: Seq<(Seq<char>, Seq<char>)>,
    others: Seq<(Seq<char>, Seq<char>)>,
)
    requires
        distinct_names(headers),
    ensures
        distinct_names(merged_headers(headers, others)),
    decreases others.len(),
{
    if others.len() > 0 {
        merge_keeps_names_distinct(headers, others.drop_last());
        let before = merged_headers(headers, others.drop_last());
        let name = others.last().0;
        if !exists|at: int| first_header(before, name, at) {
            no_header(before, name);
        }
    }
}

/// Metrics are added up number by number, where the sums can be held.
pub proof fn metrics_are_added_up(first: MetricsView, second: MetricsView)
    requires
        first.mergeable(second),
    ensures
        ({
            let both = first.plus(second);
            &&& both.total_duration_ns == first.total_duration_ns + second.total_duration_ns
            &&& both.load_duration_ns == first.load_duration_ns + second.load_duration_ns
            &&& both.prompt_eval_count == first.prompt_eval_count + second.prompt_eval_count
            &&& both.prompt_eval_duration_ns == first.prompt_eval_duration_ns
                + second.prompt_eval_duration_ns
            &&& both.eval_count == first.eval_count + second.eval_count
            &&& both.eval_duration_ns == first.eval_duration_ns + second.eval_duration_ns
            &&& both.request_count == first.request_count + second.request_count
        }),
{
}

/// Metrics can be added up exactly where no sum is too large to be held.
pub proof fn sums_that_can_be_held(first: MetricsView, second: MetricsView)
    ensures
        first.mergeable(second) <==> {
            &&& first.total_duration_ns + second.total_duration_ns <= 0xffff_ffff_ffff_ffff
            &&& first.load_duration_ns + second.load_duration_ns <= 0xffff_ffff_ffff_ffff
            &&& first.prompt_eval_count + second.prompt_eval_count <= 0xffff_ffff_ffff_ffff
            &&& first.prompt_eval_duration_ns + second.prompt_eval_duration_ns
                <= 0xffff_ffff_ffff_ffff
            &&& first.eval_count + second.eval_count <= 0xffff_ffff_ffff_ffff
            &&& first.eval_duration_ns + second.eval_duration_ns <= 0xffff_ffff_ffff_ffff
            &&& first.request_count + second.request_count <= 0xffff_ffff
        },
{
}

/// A rate has its terms wherever time has passed, and none where none has.
pub proof fn rates_need_a_duration(token_count: u64, duration_ns: u64)
    ensures
        duration_ns > 0 ==> rate_terms(token_count, duration_ns) == Some(
            (token_count, duration_ns),
        ),
        duration_ns == 0 ==> rate_terms(token_count, duration_ns) is None,
{
}

/// The counts are told: how often the server was asked, and the tokens that were read and written.
#[verifier::rlimit(40)]
pub proof fn all_counts_are_told(metrics: OllamaMetrics, figures: MetricFigures)
    ensures
        ({
            let text = joined(metrics.tooltip_lines(figures), "\n"@);
            &&& contains_part(
                text,
                "Ollama usage ("@ + decimal(metrics.request_count as nat) + " API request"@ + (
                if metrics.request_count == 1 {
                    ")"@
                } else {
                    "s)"@
                }),
            )
            &&& contains_part(
                text,
                "prompt_eval_count: "@ + decimal(metrics.prompt_eval_count as nat),
            )
            &&& contains_part(text, "eval_count: "@ + decimal(metrics.eval_count as nat))
        }),
{
    let lines = metrics.tooltip_lines(figures);
    words_for_several();
    let usage = "Ollama usage ("@ + decimal(metrics.request_count as nat) + " API request"@ + (
    if metrics.request_count == 1 {
        ")"@
    } else {
        "s)"@
    });
    assert(lines[0] =~= usage);
    joined_texts_are_contained(lines, "\n"@, 0);
    joined_texts_are_contained(lines, "\n"@, 3);
    joined_texts_are_contained(lines, "\n"@, 5);
}

/// All durations are told, and the rates of reading and writing.
#[verifier::rlimit(40)]
pub proof fn all_durations_are_told(metrics: OllamaMetrics, figures: MetricFigures)
    ensures
        ({
            let text = joined(metrics.tooltip_lines(figures), "\n"@);
            &&& contains_part(text, "total_duration: "@ + figures.total_ms@ + " ms"@)
            &&& contains_part(text, "load_duration: "@ + figures.load_ms@ + " ms"@)
            &&& contains_part(
                text,
                "prompt_eval_duration: "@ + figures.prompt_eval_ms@ + " ms ("@
                    + figures.prefill_rate@ + " tok/s prefill)"@,
            )
            &&& contains_part(
                text,
                "eval_duration: "@ + figures.eval_ms@ + " ms ("@ + figures.generation_rate@
                    + " tok/s gen)"@,
            )
        }),
{
    let lines = metrics.tooltip_lines(figures);
    joined_texts_are_contained(lines, "\n"@, 1);
    joined_texts_are_contained(lines, "\n"@, 2);
    joined_texts_are_contained(lines, "\n"@, 4);
    joined_texts_are_contained(lines, "\n"@, 6);
}

/// Every header is told with its value.
pub proof fn all_headers_are_told(metrics: OllamaMetrics, figures: MetricFigures, i: int)
    requires
        0 <= i < metrics.http_headers@.len(),
    ensures
        contains_part(
            joined(metrics.tooltip_lines(figures), "\n"@),
            metrics.http_headers@[i].0@ + ": "@ + metrics.http_headers@[i].1@,
        ),
{
    let lines = metrics.tooltip_lines(figures);
    joined_texts_are_contained(lines, "\n"@, 9 + i);
    let header = header_views(metrics.http_headers@)[i];
    assert(lines[9 + i] == header.0 + ": "@ + header.1);
}

proof fn words_for_several()
    ensures
        "s)"@ == "s"@ + ")"@,
{
    reveal_strlit(")");
    reveal_strlit("s)");
    reveal_strlit("s");
    assert("s)"@ =~= "s"@ + ")"@);
}

/// At first nothing is reported, and no request was made.
pub proof fn nothing_is_reported_at_first(http_headers: Seq<(Seq<char>, Seq<char>)>)
    ensures
        ({
            let metrics = MetricsView::nothing(http_headers);
            &&& metrics.total_duration_ns == 0 && metrics.load_duration_ns == 0
            &&& metrics.prompt_eval_count == 0 && metrics.prompt_eval_duration_ns == 0
            &&& metrics.eval_count == 0 && metrics.eval_duration_ns == 0
            &&& metrics.request_count == 0
            &&& metrics.http_headers == http_headers
        }),
{
}

} // verus!
