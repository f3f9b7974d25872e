//! Building Flux queries step by step.

use vstd::prelude::*;
use vstd::string::*;

use super::query::Query;
use crate::text::{chars_of, push_char};
use crate::types::duration::{duration_text, instant_or_duration_text};
use crate::types::{Duration, InstantOrDuration};

verus! {

/// One step of a Flux query.
#[derive(Debug)]
pub enum Statement {
    Range(InstantOrDuration, InstantOrDuration),
    RangeStart(InstantOrDuration),
    RangeStop(InstantOrDuration),
    Filter(String),
    Window(Duration),
    Aggregate(String),
    Duplicate(String, String),
    AggregateWindow(String, Duration),
}

/// What a `Statement` holds.
pub enum StatementView {
    Range(InstantOrDuration, InstantOrDuration),
    RangeStart(InstantOrDuration),
    RangeStop(InstantOrDuration),
    Filter(Seq<char>),
    Window(Duration),
    Aggregate(Seq<char>),
    Duplicate(Seq<char>, Seq<char>),
    AggregateWindow(Seq<char>, Duration),
}

impl DeepView for Statement {
    type V = StatementView;

    open spec fn deep_view(&self) -> StatementView {
        match *self {
            Statement::Range(start, stop) => StatementView::Range(start, stop),
            Statement::RangeStart(start) => StatementView::RangeStart(start),
            Statement::RangeStop(stop) => StatementView::RangeStop(stop),
            Statement::Filter(filter) => StatementView::Filter(filter@),
            Statement::Window(every) => StatementView::Window(every),
            Statement::Aggregate(function) => StatementView::Aggregate(function@),
            Statement::Duplicate(column, name) => StatementView::Duplicate(column@, name@),
            Statement::AggregateWindow(function, every) => StatementView::AggregateWindow(
                function@,
                every,
            ),
        }
    }
}

impl View for Statement {
    type V = StatementView;

    open spec fn view(&self) -> StatementView {
        self.deep_view()
    }
}

/// Whether a character is white space: one of the characters with the
/// Unicode property `White_Space`.
pub open spec fn is_white_space(c: char) -> bool {
    let n = c as int;
    (0x09 <= n <= 0x0d) || n == 0x20 || n == 0x85 || n == 0xa0 || n == 0x1680 || (0x2000 <= n
        <= 0x200a) || n == 0x2028 || n == 0x2029 || n == 0x202f || n == 0x205f || n == 0x3000
}

/// A text without the white space that it begins with.
pub open spec fn trimmed_start(text: Seq<char>) -> Seq<char>
    decreases text.len(),
{
    if text.len() > 0 && is_white_space(text[0]) {
        trimmed_start(text.drop_first())
    } else {
        text
    }
}

/// The place of the first line feed of a text; the length of the text
/// where it has none.
pub open spec fn first_line_feed(text: Seq<char>) -> nat
    decreases text.len(),
{
    if text.len() == 0 || text[0] == '\n' {
        0
    } else {
        1 + first_line_feed(text.drop_first())
    }
}

/// A line without the carriage return that it ends with, if it ends with
/// one.
pub open spec fn without_return(line: Seq<char>) -> Seq<char> {
    if line.len() > 0 && line.last() == '\r' {
        line.drop_last()
    } else {
        line
    }
}

/// One line of a filter as it is written in a query: four spaces, the line
/// without the white space that it begins with, and a line feed.
pub open spec fn filter_line_text(line: Seq<char>) -> Seq<char> {
    "    "@ + trimmed_start(line) + "\n"@
}

/// The lines of a filter as they are written in a query. A line ends at a
/// line feed, or at a carriage return that a line feed follows; what
/// follows the last line feed is a line where it is not empty.
pub open spec fn filter_body_text(filter: Seq<char>) -> Seq<char>
    decreases filter.len(),
{
    if filter.len() == 0 {
        Seq::empty()
    } else {
        let n = first_line_feed(filter);
        if n >= filter.len() {
            filter_line_text(filter)
        } else {
            filter_line_text(without_return(filter.take(n as int))) + filter_body_text(
                filter.skip(n as int + 1),
            )
        }
    }
}

/// A statement as it is written in a query.
pub open spec fn statement_text(statement: StatementView) -> Seq<char> {
    match statement {
        StatementView::Range(start, stop) => "  |> range(start: "@ + instant_or_duration_text(start)
            + ", stop: "@ + instant_or_duration_text(stop) + ")\n"@,
        StatementView::RangeStart(start) => "  |> range(start: "@ + instant_or_duration_text(start)
            + ")\n"@,
        StatementView::RangeStop(stop) => "  |> range(stop: "@ + instant_or_duration_text(stop)
            + ")\n"@,
        StatementView::Filter(filter) => "  |> filter(fn: (r) =>\n"@ + filter_body_text(filter)
            + "  )\n"@,
        StatementView::Window(every) => "  |> window(every: "@ + duration_text(every) + ")\n"@,
        StatementView::Aggregate(function) => "  |> "@ + function + "()\n"@,
        StatementView::Duplicate(column, name) => "  |> duplicate(column: \""@ + column
            + "\", as: \""@ + name + "\")\n"@,
        StatementView::AggregateWindow(function, every) => "  |> aggregate_window(fn: "@ + function
            + ", every: "@ + duration_text(every) + ")\n"@,
    }
}

/// Statements as they are written in a query, one after the other.
pub open spec fn statements_text(statements: Seq<StatementView>) -> Seq<char>
    decreases statements.len(),
{
    if statements.len() == 0 {
        Seq::empty()
    } else {
        statements_text(statements.drop_last()) + statement_text(statements.last())
    }
}

/// The text of the query that reads from `bucket` and then takes the steps
/// `statements`.
pub open spec fn query_text(bucket: Seq<char>, statements: Seq<StatementView>) -> Seq<char> {
    "from(bucket: \""@ + bucket + "\")\n"@ + statements_text(statements) + "  |> yield()"@
}

/// The first line feed of a text stands after characters that are none,
/// and within the text or at its end.
pub proof fn lemma_first_line_feed(text: Seq<char>)
    ensures
        0 <= first_line_feed(text) <= text.len(),
        forall|k: int| 0 <= k < first_line_feed(text) ==> text[k] != '\n',
        first_line_feed(text) < text.len() ==> text[first_line_feed(text) as int] == '\n',
    decreases text.len(),
{
    if text.len() > 0 && text[0] != '\n' {
        let rest = text.drop_first();
        lemma_first_line_feed(rest);
        assert forall|k: int| 0 <= k < first_line_feed(text) implies text[k] != '\n' by {
            if k > 0 {
                assert(rest[k - 1] == text[k]);
            }
        }
    }
}

/// A place that no line feed precedes, and where a line feed stands or the
/// text ends, is the place of the first line feed.
pub proof fn lemma_first_line_feed_is(text: Seq<char>, place: int)
    requires
        0 <= place <= text.len(),
        forall|k: int| 0 <= k < place ==> text[k] != '\n',
        place < text.len() ==> text[place] == '\n',
    ensures
        first_line_feed(text) == place,
{
    lemma_first_line_feed(text);
    let found = first_line_feed(text) as int;
    if found < place {
        assert(text[found] == '\n');
    }
}

/// Whether a character is white space.
pub fn is_space(c: char) -> (space: bool)
    ensures
        space == is_white_space(c),
{
    (c >= '\u{9}' && c <= '\u{d}') || c == ' ' || c == '\u{85}' || c == '\u{a0}' || c == '\u{1680}'
        || (c >= '\u{2000}' && c <= '\u{200a}') || c == '\u{2028}' || c == '\u{2029}' || c
        == '\u{202f}' || c == '\u{205f}' || c == '\u{3000}'
}

/// Appends one line of a filter to `out`: four spaces, the first `length`
/// characters of `line` without the white space that they begin with, and a
/// line feed.
fn push_filter_line(out: &mut String, line: &Vec<char>, length: usize)
    requires
        length <= line@.len(),
    ensures
        final(out)@ == old(out)@ + filter_line_text(line@.take(length as int)),
{
    let ghost text = line@.take(length as int);
    out.append("    ");
    let mut k: usize = 0;
    proof {
        assert(text.skip(0) =~= text);
    }
    while k < length && is_space(line[k])
        invariant
            k <= length <= line@.len(),
            text == line@.take(length as int),
            trimmed_start(text) == trimmed_start(text.skip(k as int)),
        decreases length - k,
    {
        proof {
            assert(text.skip(k as int)[0] == line@[k as int]);
            assert(text.skip(k as int).drop_first() =~= text.skip(k + 1));
        }
        k += 1;
    }
    proof {
        if k < length {
            assert(text.skip(k as int)[0] == line@[k as int]);
        }
        assert(trimmed_start(text) == text.skip(k as int));
    }
    let ghost head = out@;
    let mut i: usize = k;
    proof {
        assert(out@ =~= head + text.subrange(k as int, i as int));
    }
    while i < length
        invariant
            k <= i <= length <= line@.len(),
            text == line@.take(length as int),
            out@ == head + text.subrange(k as int, i as int),
        decreases length - i,
    {
        push_char(out, line[i]);
        proof {
            assert(head + text.subrange(k as int, i + 1) =~= (head + text.subrange(
                k as int,
                i as int,
            )).push(line@[i as int]));
        }
        i += 1;
    }
    push_char(out, '\n');
    proof {
        assert(text.subrange(k as int, length as int) =~= text.skip(k as int));
        reveal_strlit("\n");
        assert("\n"@ =~= seq!['\n']);
        assert(out@ =~= old(out)@ + filter_line_text(text));
    }
}

/// Appends the lines of a filter to `out`.
pub fn push_filter_body(out: &mut String, filter: &str)
    ensures
        final(out)@ == old(out)@ + filter_body_text(filter@),
{
    let text = chars_of(filter);
    let ghost all = text@;
    let mut start: usize = 0;
    let mut i: usize = 0;
    proof {
        assert(all.skip(0) =~= all);
        assert(out@ =~= old(out)@ + Seq::<char>::empty());
    }
    let mut line: Vec<char> = Vec::new();
    while i < text.len()
        invariant
            start <= i <= text@.len(),
            all == text@,
            all == filter@,
            line@ == all.subrange(start as int, i as int),
            forall|k: int| start <= k < i ==> all[k] != '\n',
            out@ + filter_body_text(all.skip(start as int)) == old(out)@ + filter_body_text(all),
        decreases text@.len() - i,
    {
        let c = text[i];
        if c == '\n' {
            let length = if line.len() > 0 && line[line.len() - 1] == '\r' {
                line.len() - 1
            } else {
                line.len()
            };
            let ghost before = out@;
            push_filter_line(out, &line, length);
            proof {
                let rest = all.skip(start as int);
                lemma_first_line_feed_is(rest, i - start);
                assert(rest.take(i - start) =~= line@);
                assert(line@.take(length as int) =~= without_return(line@));
                assert(rest.skip(i - start + 1) =~= all.skip(i + 1));
                assert(before + (filter_line_text(without_return(line@)) + filter_body_text(
                    all.skip(i + 1),
                )) =~= out@ + filter_body_text(all.skip(i + 1)));
            }
            line = Vec::new();
            start = i + 1;
            proof {
                assert(line@ =~= all.subrange(start as int, start as int));
            }
        } else {
            line.push(c);
            proof {
                assert(line@ =~= all.subrange(start as int, i + 1));
            }
        }
        i += 1;
    }
    let ghost rest = all.skip(start as int);
    proof {
        assert(rest =~= line@);
        lemma_first_line_feed_is(rest, rest.len() as int);
    }
    if line.len() > 0 {
        let length = line.len();
        push_filter_line(out, &line, length);
        proof {
            assert(line@.take(length as int) =~= line@);
        }
    } else {
        proof {
            assert(out@ + Seq::<char>::empty() =~= out@);
        }
    }
}

/// Appends a statement to `out`.
pub fn push_statement(out: &mut String, statement: &Statement)
    ensures
        final(out)@ == old(out)@ + statement_text(statement@),
{
    match statement {
        Statement::Range(start, stop) => {
            out.append("  |> range(start: ");
            out.append(start.to_string().as_str());
            out.append(", stop: ");
            out.append(stop.to_string().as_str());
            out.append(")\n");
        },
        Statement::RangeStart(start) => {
            out.append("  |> range(start: ");
            out.append(start.to_string().as_str());
            out.append(")\n");
        },
        Statement::RangeStop(stop) => {
            out.append("  |> range(stop: ");
            out.append(stop.to_string().as_str());
            out.append(")\n");
        },
        Statement::Filter(filter) => {
            out.append("  |> filter(fn: (r) =>\n");
            push_filter_body(out, filter.as_str());
            out.append("  )\n");
        },
        Statement::Window(every) => {
            out.append("  |> window(every: ");
            out.append(every.to_string().as_str());
            out.append(")\n");
        },
        Statement::Aggregate(function) => {
            out.append("  |> ");
            out.append(function.as_str());
            out.append("()\n");
        },
        Statement::Duplicate(column, name) => {
            out.append("  |> duplicate(column: \"");
            out.append(column.as_str());
            out.append("\", as: \"");
            out.append(name.as_str());
            out.append("\")\n");
        },
        Statement::AggregateWindow(function, every) => {
            out.append("  |> aggregate_window(fn: ");
            out.append(function.as_str());
            out.append(", every: ");
            out.append(every.to_string().as_str());
            out.append(")\n");
        },
    }
    proof {
        assert(out@ =~= old(out)@ + statement_text(statement@));
    }
}

/// A builder for Flux queries
///
/// A query that reads the last fifteen minutes of a bucket and keeps the
/// system usage of all processors reads
///
/// ```text
/// from(bucket: "telegraf/autogen")
///   |> range(start: -15m)
///   |> filter(fn: (r) =>
///     r._measurement == "cpu" and
///     r._field == "usage_system" and
///     r.cpu == "cpu-total"
///   )
///   |> yield()
/// ```
pub struct QueryBuilder {
    bucket: String,
    statements: Vec<Statement>,
}

impl QueryBuilder {
    /// The bucket that the query reads from.
    pub closed spec fn bucket(&self) -> Seq<char> {
        self.bucket@
    }

    /// The steps of the query, in order.
    pub closed spec fn statements(&self) -> Seq<StatementView> {
        self.statements.deep_view()
    }

    /// Create a query selecting from a bucket.
    pub fn from<T: Into<String>>(bucket: T) -> (builder: Self)
        ensures
            exists|text: String| #[trigger]
                call_ensures(<T as Into<String>>::into, (bucket,), text) && builder.bucket()
                    == text@,
            builder.statements() == Seq::<StatementView>::empty(),
    {
        let text: String = bucket.into();
        assert(call_ensures(<T as Into<String>>::into, (bucket,), text));
        let builder = QueryBuilder { bucket: text, statements: Vec::new() };
        proof {
            assert(builder.statements() =~= Seq::<StatementView>::empty());
        }
        builder
    }

    /// Adds a step to the query.
    pub fn statement(&mut self, statement: Statement)
        ensures
            final(self).bucket() == old(self).bucket(),
            final(self).statements() == old(self).statements().push(statement@),
    {
        self.statements.push(statement);
        proof {
            assert(self.statements.deep_view() =~= old(self).statements.deep_view().push(
                statement@,
            ));
        }
    }

    /// Restrict query results to a start time
    pub fn range_start<T: Into<InstantOrDuration>>(self, start: T) -> (builder: Self)
        ensures
            builder.bucket() == self.bucket(),
            exists|value: InstantOrDuration| #[trigger]
                call_ensures(<T as Into<InstantOrDuration>>::into, (start,), value)
                    && builder.statements() == self.statements().push(
                    StatementView::RangeStart(value),
                ),
    {
        let value: InstantOrDuration = start.into();
        assert(call_ensures(<T as Into<InstantOrDuration>>::into, (start,), value));
        let mut builder = self;
        builder.statement(Statement::RangeStart(value));
        builder
    }

    /// Restrict query results to a stop time
    pub fn range_stop<T: Into<InstantOrDuration>>(self, stop: T) -> (builder: Self)
        ensures
            builder.bucket() == self.bucket(),
            exists|value: InstantOrDuration| #[trigger]
                call_ensures(<T as Into<InstantOrDuration>>::into, (stop,), value)
                    && builder.statements() == self.statements().push(
                    StatementView::RangeStop(value),
                ),
    {
        let value: InstantOrDuration = stop.into();
        assert(call_ensures(<T as Into<InstantOrDuration>>::into, (stop,), value));
        let mut builder = self;
        builder.statement(Statement::RangeStop(value));
        builder
    }

    /// Restrict query results to a between two instants
    pub fn range<T: Into<InstantOrDuration>, S: Into<InstantOrDuration>>(
        self,
        start: T,
        stop: S,
    ) -> (builder: Self)
        ensures
            builder.bucket() == self.bucket(),
            exists|first: InstantOrDuration, last: InstantOrDuration|
                #![trigger call_ensures(<T as Into<InstantOrDuration>>::into, (start,), first), call_ensures(<S as Into<InstantOrDuration>>::into, (stop,), last)]
                call_ensures(<T as Into<InstantOrDuration>>::into, (start,), first) && call_ensures(
                    <S as Into<InstantOrDuration>>::into,
                    (stop,),
                    last,
                ) && builder.statements() == self.statements().push(StatementView::Range(first, last)),
    {
        let first: InstantOrDuration = start.into();
        let last: InstantOrDuration = stop.into();
        assert(call_ensures(<T as Into<InstantOrDuration>>::into, (start,), first));
        assert(call_ensures(<S as Into<InstantOrDuration>>::into, (stop,), last));
        let mut builder = self;
        builder.statement(Statement::Range(first, last));
        builder
    }

    /// Add a filter to the query
    pub fn filter<T: Into<String>>(self, filter: T) -> (builder: Self)
        ensures
            builder.bucket() == self.bucket(),
            exists|text: String| #[trigger]
                call_ensures(<T as Into<String>>::into, (filter,), text) && builder.statements()
                    == self.statements().push(StatementView::Filter(text@)),
    {
        let text: String = filter.into();
        assert(call_ensures(<T as Into<String>>::into, (filter,), text));
        let mut builder = self;
        builder.statement(Statement::Filter(text));
        builder
    }

    /// Add a window to the query
    pub fn window<T: Into<Duration>>(self, every: T) -> (builder: Self)
        ensures
            builder.bucket() == self.bucket(),
            exists|duration: Duration| #[trigger]
                call_ensures(<T as Into<Duration>>::into, (every,), duration)
                    && builder.statements() == self.statements().push(
                    StatementView::Window(duration),
                ),
    {
        let duration: Duration = every.into();
        assert(call_ensures(<T as Into<Duration>>::into, (every,), duration));
        let mut builder = self;
        builder.statement(Statement::Window(duration));
        builder
    }

    /// Aggregate results
    pub fn aggregate<T: Into<String>>(self, function: T) -> (builder: Self)
        ensures
            builder.bucket() == self.bucket(),
            exists|text: String| #[trigger]
                call_ensures(<T as Into<String>>::into, (function,), text) && builder.statements()
                    == self.statements().push(StatementView::Aggregate(text@)),
    {
        let text: String = function.into();
        assert(call_ensures(<T as Into<String>>::into, (function,), text));
        let mut builder = self;
        builder.statement(Statement::Aggregate(text));
        builder
    }

    /// Aggregate results using the `mean` function
    pub fn mean(self) -> (builder: Self)
        ensures
            builder.bucket() == self.bucket(),
            builder.statements() == self.statements().push(StatementView::Aggregate("mean"@)),
    {
        let mut builder = self;
        builder.statement(Statement::Aggregate("mean".to_owned()));
        builder
    }

    /// Duplicate fields
    pub fn duplicate<T: Into<String>, S: Into<String>>(self, column: T, name: S) -> (builder: Self)
        ensures
            builder.bucket() == self.bucket(),
            exists|from: String, to: String|
                #![trigger call_ensures(<T as Into<String>>::into, (column,), from), call_ensures(<S as Into<String>>::into, (name,), to)]
                call_ensures(<T as Into<String>>::into, (column,), from) && call_ensures(
                    <S as Into<String>>::into,
                    (name,),
                    to,
                ) && builder.statements() == self.statements().push(
                    StatementView::Duplicate(from@, to@),
                ),
    {
        let from: String = column.into();
        let to: String = name.into();
        assert(call_ensures(<T as Into<String>>::into, (column,), from));
        assert(call_ensures(<S as Into<String>>::into, (name,), to));
        let mut builder = self;
        builder.statement(Statement::Duplicate(from, to));
        builder
    }

    /// Aggregate results over a window
    pub fn aggregate_window<S: Into<String>>(self, function: S, every: Duration) -> (builder: Self)
        ensures
            builder.bucket() == self.bucket(),
            exists|text: String| #[trigger]
                call_ensures(<S as Into<String>>::into, (function,), text) && builder.statements()
                    == self.statements().push(StatementView::AggregateWindow(text@, every)),
    {
        let text: String = function.into();
        assert(call_ensures(<S as Into<String>>::into, (function,), text));
        let mut builder = self;
        builder.statement(Statement::AggregateWindow(text, every));
        builder
    }

    /// Create the Flux query
    pub fn build(self) -> (query: Query)
        ensures
            query@ == query_text(self.bucket(), self.statements()),
    {
        let mut result = String::new();
        result.append("from(bucket: \"");
        result.append(self.bucket.as_str());
        result.append("\")\n");
        let ghost head = result@;
        let ghost all = self.statements.deep_view();
        let mut i: usize = 0;
        proof {
            assert(all.take(0) =~= Seq::<StatementView>::empty());
            assert(result@ =~= head + statements_text(all.take(0)));
        }
        while i < self.statements.len()
            invariant
                i <= self.statements@.len(),
                all == self.statements.deep_view(),
                result@ == head + statements_text(all.take(i as int)),
            decreases self.statements@.len() - i,
        {
            push_statement(&mut result, &self.statements[i]);
            proof {
                let longer = all.take(i + 1);
                assert(longer.drop_last() =~= all.take(i as int));
                assert(longer.last() == self.statements@[i as int]@);
                assert(result@ =~= head + (statements_text(all.take(i as int)) + statement_text(
                    longer.last(),
                )));
            }
            i += 1;
        }
        proof {
            assert(all.take(all.len() as int) =~= all);
        }
        result.append("  |> yield()");
        proof {
            assert(result@ =~= query_text(self.bucket(), self.statements()));
        }
        Query::from_text(result)
    }
}

} // verus!
