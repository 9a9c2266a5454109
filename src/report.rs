//! The report: which columns are shown, one row per file, and the totals.
use vstd::prelude::*;
use crate::metrics::{analysis, analyze_file, FileResult, MetricError};

verus! {

/// One of the four counts, as a column of the report.
#[derive(Clone, Copy, Debug, PartialEq, Eq, Structural)]
pub enum Metric {
    Lines,
    Bytes,
    Chars,
    Words,
}

/// The value of metric `m` in a file's result.
pub open spec fn metric_value(r: FileResult, m: Metric) -> usize {
    match m {
        Metric::Lines => r.lines,
        Metric::Bytes => r.bytes,
        Metric::Chars => r.chars,
        Metric::Words => r.words,
    }
}

/// The header label of metric `m`.
pub open spec fn title_of(m: Metric) -> Seq<char> {
    match m {
        Metric::Lines => "Lines"@,
        Metric::Bytes => "Bytes"@,
        Metric::Chars => "Chars"@,
        Metric::Words => "Words"@,
    }
}

/// True when no count at all was asked for, so that the defaults apply.
pub open spec fn default_on(lines: bool, bytes: bool, chars: bool, words: bool) -> bool {
    !(lines || bytes || chars || words)
}

/// The columns shown for the given enabled counts, in their fixed order.
pub open spec fn active_columns(lines: bool, bytes: bool, chars: bool, words: bool) -> Seq<Metric> {
    (if lines {
        seq![Metric::Lines]
    } else {
        seq![]
    }) + (if bytes {
        seq![Metric::Bytes]
    } else {
        seq![]
    }) + (if chars {
        seq![Metric::Chars]
    } else {
        seq![]
    }) + (if words {
        seq![Metric::Words]
    } else {
        seq![]
    })
}

/// The counts a row shows for result `r` under the given columns.
pub open spec fn row_counts(columns: Seq<Metric>, r: FileResult) -> Seq<usize> {
    columns.map_values(|m: Metric| metric_value(r, m))
}

/// The sum of metric `m` over the results `rs`.
pub open spec fn metric_total(rs: Seq<FileResult>, m: Metric) -> nat
    decreases rs.len(),
{
    if rs.len() == 0 {
        0
    } else {
        metric_total(rs.drop_last(), m) + metric_value(rs.last(), m) as nat
    }
}

impl Metric {
    /// The header label of this metric.
    pub fn title(self) -> (r: String)
        ensures
            r@ == title_of(self),
    {
        match self {
            Metric::Lines => "Lines".to_string(),
            Metric::Bytes => "Bytes".to_string(),
            Metric::Chars => "Chars".to_string(),
            Metric::Words => "Words".to_string(),
        }
    }

    /// The value of this metric in `r`.
    pub fn value_in(self, r: &FileResult) -> (v: usize)
        ensures
            v == metric_value(*r, self),
    {
        match self {
            Metric::Lines => r.lines,
            Metric::Bytes => r.bytes,
            Metric::Chars => r.chars,
            Metric::Words => r.words,
        }
    }
}

/// Running sums of the four counts over the files of one run. They are kept
/// only when `enabled`, that is when the run has more than one file.
pub struct TotalsCounter {
    pub enabled: bool,
    pub lines_total: usize,
    pub bytes_total: usize,
    pub chars_total: usize,
    pub words_total: usize,
}

/// The running total that `t` keeps for metric `m`.
pub open spec fn total_value(t: TotalsCounter, m: Metric) -> usize {
    match m {
        Metric::Lines => t.lines_total,
        Metric::Bytes => t.bytes_total,
        Metric::Chars => t.chars_total,
        Metric::Words => t.words_total,
    }
}

impl TotalsCounter {
    /// Zero totals for a run over `files_len` files.
    pub fn new(files_len: usize) -> (r: TotalsCounter)
        ensures
            r.enabled == (files_len > 1),
            r.lines_total == 0,
            r.bytes_total == 0,
            r.chars_total == 0,
            r.words_total == 0,
    {
        TotalsCounter {
            enabled: files_len > 1,
            lines_total: 0,
            bytes_total: 0,
            chars_total: 0,
            words_total: 0,
        }
    }

    /// True when adding `r` keeps every total within `usize`.
    pub open spec fn can_add(&self, r: FileResult) -> bool {
        &&& self.lines_total + r.lines <= usize::MAX
        &&& self.bytes_total + r.bytes <= usize::MAX
        &&& self.chars_total + r.chars <= usize::MAX
        &&& self.words_total + r.words <= usize::MAX
    }

    /// Adds a file's counts to the totals.
    pub fn add_to_totals(&mut self, file_result: &FileResult)
        requires
            old(self).can_add(*file_result),
        ensures
            final(self).enabled == old(self).enabled,
            final(self).lines_total == old(self).lines_total + file_result.lines,
            final(self).bytes_total == old(self).bytes_total + file_result.bytes,
            final(self).chars_total == old(self).chars_total + file_result.chars,
            final(self).words_total == old(self).words_total + file_result.words,
    {
        self.lines_total = self.lines_total + file_result.lines;
        self.bytes_total = self.bytes_total + file_result.bytes;
        self.chars_total = self.chars_total + file_result.chars;
        self.words_total = self.words_total + file_result.words;
    }
}

impl Metric {
    /// The running total of this metric in `t`.
    pub fn total_in(self, t: &TotalsCounter) -> (v: usize)
        ensures
            v == total_value(*t, self),
    {
        match self {
            Metric::Lines => t.lines_total,
            Metric::Bytes => t.bytes_total,
            Metric::Chars => t.chars_total,
            Metric::Words => t.words_total,
        }
    }
}

/// The digit characters, by value.
pub open spec fn digit_char(d: int) -> char {
    seq!['0', '1', '2', '3', '4', '5', '6', '7', '8', '9'][d]
}

/// The decimal text of `n`, without sign or leading zeros.
pub open spec fn decimal_text(n: nat) -> Seq<char>
    decreases n,
{
    if n < 10 {
        seq![digit_char(n as int)]
    } else {
        decimal_text(n / 10).push(digit_char((n % 10) as int))
    }
}

/// Relies on the `Display` impl of `usize`, through `ToString`: it writes the
/// number in decimal, with no sign, padding or separators.
#[verifier::external_body]
fn decimal(n: usize) -> (r: String)
    ensures
        r@ == decimal_text(n as nat),
{
    n.to_string()
}

/// One row of the report: the counts of the shown columns, then a label (the
/// file's name, or `total`).
pub struct Row {
    pub counts: Vec<usize>,
    pub label: String,
}

impl Row {
    /// The row as display strings: each count in decimal, then the label.
    pub fn cells(&self) -> (r: Vec<String>)
        ensures
            r@.len() == self.counts@.len() + 1,
            forall|k: int|
                0 <= k < self.counts@.len() ==> #[trigger] r@[k]@ == decimal_text(
                    self.counts@[k] as nat,
                ),
            r@.last()@ == self.label@,
    {
        let mut cells: Vec<String> = Vec::new();
        let mut k: usize = 0;
        while k < self.counts.len()
            invariant
                k <= self.counts@.len(),
                cells@.len() == k,
                forall|j: int|
                    0 <= j < k ==> #[trigger] cells@[j]@ == decimal_text(self.counts@[j] as nat),
            decreases self.counts@.len() - k,
        {
            cells.push(decimal(self.counts[k]));
            k = k + 1;
        }
        cells.push(self.label.clone());
        cells
    }
}

/// The rows of a run: the header labels, one row per file in input order, and
/// the totals row when there is one.
pub struct Report {
    pub titles: Vec<String>,
    pub rows: Vec<Row>,
    pub totals: Option<Row>,
}

/// Settles which counts are shown, and builds the report for a run.
pub struct Builder {
    lines_enabled: bool,
    bytes_enabled: bool,
    words_enabled: bool,
    chars_enabled: bool,
}

impl Builder {
    /// The flags as they stand in this builder.
    pub closed spec fn flags(&self) -> (bool, bool, bool, bool) {
        (self.lines_enabled, self.bytes_enabled, self.chars_enabled, self.words_enabled)
    }

    /// Bytes and characters are never both enabled.
    #[verifier::type_invariant]
    spec fn exclusive(self) -> bool {
        !(self.bytes_enabled && self.chars_enabled)
    }

    /// A builder with no count enabled.
    pub fn new() -> (r: Builder)
        ensures
            r.flags() == (false, false, false, false),
    {
        Builder { lines_enabled: false, bytes_enabled: false, words_enabled: false, chars_enabled: false }
    }

    /// Settles the shown counts from the requested ones: with none requested
    /// lines, bytes and words are shown, and characters, when requested, take
    /// the place of bytes.
    pub fn enable_flags(
        &mut self,
        lines_enabled: bool,
        bytes_enabled: bool,
        chars_enabled: bool,
        words_enabled: bool,
    )
        ensures
            final(self).flags() == resolve_flags(
                lines_enabled,
                bytes_enabled,
                chars_enabled,
                words_enabled,
            ),
    {
        let default: bool = !lines_enabled && !bytes_enabled && !chars_enabled && !words_enabled;
        *self =
        Builder {
            lines_enabled: lines_enabled || default,
            bytes_enabled: (bytes_enabled || default) && !chars_enabled,
            chars_enabled: chars_enabled,
            words_enabled: words_enabled || default,
        };
    }
}

/// The shown counts (lines, bytes, chars, words) for the requested ones.
pub open spec fn resolve_flags(lines: bool, bytes: bool, chars: bool, words: bool) -> (
    bool,
    bool,
    bool,
    bool,
) {
    let d = default_on(lines, bytes, chars, words);
    (lines || d, (bytes || d) && !chars, chars, words || d)
}

/// The views of a sequence of strings.
pub open spec fn string_views(v: Seq<String>) -> Seq<Seq<char>> {
    v.map_values(|t: String| t@)
}

/// The header labels for the given columns, with `File` last.
pub open spec fn titles_for(columns: Seq<Metric>) -> Seq<Seq<char>> {
    columns.map_values(|m: Metric| title_of(m)).push("File"@)
}

/// The counts of a totals row under the given columns.
pub open spec fn totals_counts(columns: Seq<Metric>, t: TotalsCounter) -> Seq<usize> {
    columns.map_values(|m: Metric| total_value(t, m))
}

/// A run in progress: the shown counts, the column schema fixed from them,
/// the table built so far and the running totals. `results` records the
/// counts of each file whose row is in the table.
pub struct TableManager {
    pub lines_enabled: bool,
    pub bytes_enabled: bool,
    pub chars_enabled: bool,
    pub words_enabled: bool,
    pub columns: Vec<Metric>,
    pub table: Report,
    pub totals_counter: TotalsCounter,
    pub results: Ghost<Seq<FileResult>>,
}

impl TableManager {
    /// The shown counts of this run.
    pub open spec fn flags(&self) -> (bool, bool, bool, bool) {
        (self.lines_enabled, self.bytes_enabled, self.chars_enabled, self.words_enabled)
    }

    /// The run is consistent: bytes and characters are never both shown, the
    /// columns and headers follow the flags, each row shows its file's counts,
    /// the totals are the sums over the files, and a totals row, once there,
    /// shows them.
    pub open spec fn wf(&self) -> bool {
        &&& !(self.bytes_enabled && self.chars_enabled)
        &&& self.columns@ == active_columns(
            self.lines_enabled,
            self.bytes_enabled,
            self.chars_enabled,
            self.words_enabled,
        )
        &&& string_views(self.table.titles@) == titles_for(self.columns@)
        &&& self.table.rows@.len() == self.results@.len()
        &&& forall|i: int|
            0 <= i < self.results@.len() ==> (#[trigger] self.table.rows@[i]).counts@ == row_counts(
                self.columns@,
                self.results@[i],
            )
        &&& self.totals_counter.enabled ==> forall|m: Metric|
            #[trigger] total_value(self.totals_counter, m) == metric_total(self.results@, m)
        &&& self.table.totals matches Some(t) ==> {
            &&& self.totals_counter.enabled
            &&& t.counts@ == totals_counts(self.columns@, self.totals_counter)
            &&& t.label@ == "total"@
        }
    }
}

impl Builder {
    /// Starts a run over `files_len` files: fixes the columns and headers from
    /// the flags, with no row yet and zero totals, kept only for more than one
    /// file.
    pub fn build(&self, files_len: usize) -> (r: TableManager)
        ensures
            r.wf(),
            r.flags() == self.flags(),
            r.table.rows@.len() == 0,
            r.table.totals is None,
            r.totals_counter.enabled == (files_len > 1),
    {
        proof {
            use_type_invariant(self);
        }
        let totals_counter = TotalsCounter::new(files_len);
        let mut columns: Vec<Metric> = Vec::new();
        if self.lines_enabled {
            columns.push(Metric::Lines);
        }
        if self.bytes_enabled {
            columns.push(Metric::Bytes);
        }
        if self.chars_enabled {
            columns.push(Metric::Chars);
        }
        if self.words_enabled {
            columns.push(Metric::Words);
        }
        assert(columns@ =~= active_columns(
            self.lines_enabled,
            self.bytes_enabled,
            self.chars_enabled,
            self.words_enabled,
        ));
        let mut titles: Vec<String> = Vec::new();
        let mut k: usize = 0;
        while k < columns.len()
            invariant
                k <= columns@.len(),
                titles@.len() == k,
                forall|j: int| 0 <= j < k ==> #[trigger] titles@[j]@ == title_of(columns@[j]),
            decreases columns@.len() - k,
        {
            titles.push(columns[k].title());
            k = k + 1;
        }
        titles.push("File".to_string());
        assert(string_views(titles@) =~= titles_for(columns@));
        TableManager {
            lines_enabled: self.lines_enabled,
            bytes_enabled: self.bytes_enabled,
            chars_enabled: self.chars_enabled,
            words_enabled: self.words_enabled,
            columns,
            table: Report { titles, rows: Vec::new(), totals: None },
            totals_counter,
            results: Ghost(Seq::empty()),
        }
    }
}

impl TableManager {
    /// What one more file of size `size` and content `content` gives: its
    /// counts, or the error that stops the run.
    pub open spec fn file_outcome(&self, size: u64, content: Seq<u8>) -> Result<
        FileResult,
        MetricError,
    > {
        match analysis(
            size,
            content,
            self.lines_enabled,
            self.bytes_enabled,
            self.chars_enabled,
            self.words_enabled,
        ) {
            Ok(r) => if self.totals_counter.enabled && !self.totals_counter.can_add(r) {
                Err(MetricError::TotalsOverflow)
            } else {
                Ok(r)
            },
            Err(e) => Err(e),
        }
    }

    /// Appends to `row_values` the counts of `file_result` for the shown
    /// columns, in column order.
    pub fn set_row_values(&self, row_values: &mut Vec<usize>, file_result: &FileResult)
        ensures
            final(row_values)@ == old(row_values)@ + row_counts(self.columns@, *file_result),
    {
        let ghost start = row_values@;
        let mut k: usize = 0;
        while k < self.columns.len()
            invariant
                k <= self.columns@.len(),
                row_values@ == start + row_counts(self.columns@.subrange(0, k as int), *file_result),
            decreases self.columns@.len() - k,
        {
            proof {
                assert(row_counts(self.columns@.subrange(0, k + 1), *file_result) =~= row_counts(
                    self.columns@.subrange(0, k as int),
                    *file_result,
                ).push(metric_value(*file_result, self.columns@[k as int])));
            }
            row_values.push(self.columns[k].value_in(file_result));
            k = k + 1;
        }
        assert(self.columns@.subrange(0, k as int) =~= self.columns@);
    }

    /// Analyses one more file, adds its counts to the totals when they are
    /// kept, and appends its row, labelled `file`. On an error nothing changes.
    pub fn set_table_row(&mut self, file: &str, size: u64, content: &[u8]) -> (r: Result<
        (),
        MetricError,
    >)
        requires
            old(self).wf(),
            old(self).table.totals is None,
        ensures
            final(self).wf(),
            final(self).table.totals is None,
            final(self).flags() == old(self).flags(),
            final(self).totals_counter.enabled == old(self).totals_counter.enabled,
            match old(self).file_outcome(size, content@) {
                Ok(fr) => {
                    &&& r == Ok::<(), MetricError>(())
                    &&& final(self).results@ == old(self).results@.push(fr)
                    &&& final(self).table.rows@.drop_last() == old(self).table.rows@
                    &&& final(self).table.rows@.last().label@ == file@
                },
                Err(e) => {
                    &&& r == Err::<(), MetricError>(e)
                    &&& *final(self) == *old(self)
                },
            },
    {
        let file_result = match analyze_file(
            size,
            content,
            self.lines_enabled,
            self.bytes_enabled,
            self.chars_enabled,
            self.words_enabled,
        ) {
            Ok(fr) => fr,
            Err(e) => {
                return Err(e);
            },
        };
        let ghost old_totals = self.totals_counter;
        if self.totals_counter.enabled {
            let t = &self.totals_counter;
            if file_result.lines > usize::MAX - t.lines_total || file_result.bytes > usize::MAX
                - t.bytes_total || file_result.chars > usize::MAX - t.chars_total
                || file_result.words > usize::MAX - t.words_total {
                return Err(MetricError::TotalsOverflow);
            }
            self.totals_counter.add_to_totals(&file_result);
        }
        let mut counts: Vec<usize> = Vec::new();
        self.set_row_values(&mut counts, &file_result);
        assert(counts@ =~= row_counts(self.columns@, file_result));
        self.table.rows.push(Row { counts, label: file.to_string() });
        let ghost old_results = self.results@;
        self.results = Ghost(self.results@.push(file_result));
        proof {
            assert(self.results@.drop_last() =~= old_results);
            assert forall|m: Metric| #[trigger]
                metric_total(self.results@, m) == metric_total(old_results, m) + metric_value(
                    file_result,
                    m,
                ) by {}
            assert forall|i: int| 0 <= i < self.results@.len() implies (
            #[trigger] self.table.rows@[i]).counts@ == row_counts(
                self.columns@,
                self.results@[i],
            ) by {
                if i < old_results.len() {
                    assert(self.results@[i] == old_results[i]);
                }
            }
            if self.totals_counter.enabled {
                assert forall|m: Metric| #[trigger]
                    total_value(self.totals_counter, m) == metric_total(self.results@, m) by {
                    assert(total_value(old_totals, m) == metric_total(old_results, m));
                    match m {
                        Metric::Lines => {},
                        Metric::Bytes => {},
                        Metric::Chars => {},
                        Metric::Words => {},
                    }
                }
            }
        }
        Ok(())
    }

    /// Closes the run: when totals are kept, appends the totals row, labelled
    /// `total`, with each shown column's sum.
    pub fn set_table_totals(&mut self)
        requires
            old(self).wf(),
            old(self).table.totals is None,
        ensures
            final(self).wf(),
            final(self).flags() == old(self).flags(),
            final(self).results@ == old(self).results@,
            final(self).table.rows@ == old(self).table.rows@,
            final(self).table.totals is Some <==> old(self).totals_counter.enabled,
    {
        if self.totals_counter.enabled {
            let mut counts: Vec<usize> = Vec::new();
            let mut k: usize = 0;
            while k < self.columns.len()
                invariant
                    k <= self.columns@.len(),
                    counts@ == totals_counts(self.columns@.subrange(0, k as int), self.totals_counter),
                decreases self.columns@.len() - k,
            {
                proof {
                    assert(totals_counts(self.columns@.subrange(0, k + 1), self.totals_counter)
                        =~= totals_counts(
                        self.columns@.subrange(0, k as int),
                        self.totals_counter,
                    ).push(total_value(self.totals_counter, self.columns@[k as int])));
                }
                counts.push(self.columns[k].total_in(&self.totals_counter));
                k = k + 1;
            }
            assert(self.columns@.subrange(0, k as int) =~= self.columns@);
            self.table.totals = Some(Row { counts, label: "total".to_string() });
        }
    }
}

/// The sum of column `k` over `rows`.
pub open spec fn column_sum(rows: Seq<Row>, k: int) -> nat
    decreases rows.len(),
{
    if rows.len() == 0 {
        0
    } else {
        column_sum(rows.drop_last(), k) + rows.last().counts@[k] as nat
    }
}

proof fn lemma_column_sum_is_metric_total(
    rows: Seq<Row>,
    results: Seq<FileResult>,
    columns: Seq<Metric>,
    k: int,
)
    requires
        0 <= k < columns.len(),
        rows.len() == results.len(),
        forall|i: int|
            0 <= i < results.len() ==> (#[trigger] rows[i]).counts@ == row_counts(
                columns,
                results[i],
            ),
    ensures
        column_sum(rows, k) == metric_total(results, columns[k]),
    decreases rows.len(),
{
    if rows.len() > 0 {
        let n = rows.len() - 1;
        let rs = rows.drop_last();
        let fs = results.drop_last();
        assert forall|i: int| 0 <= i < fs.len() implies (#[trigger] rs[i]).counts@ == row_counts(
            columns,
            fs[i],
        ) by {
            assert(rs[i] == rows[i]);
        }
        lemma_column_sum_is_metric_total(rs, fs, columns, k);
        assert(rows[n].counts@ == row_counts(columns, results[n]));
    }
}

/// The totals law: in a consistent run, a totals row exists only when totals
/// are kept (more than one file), and each of its counts is the sum of its
/// column over the file rows.
pub proof fn lemma_totals_row_sums_columns(tm: TableManager)
    requires
        tm.wf(),
        tm.table.totals is Some,
    ensures
        tm.totals_counter.enabled,
        tm.table.totals->Some_0.counts@.len() == tm.columns@.len(),
        forall|k: int|
            0 <= k < tm.columns@.len() ==> #[trigger] tm.table.totals->Some_0.counts@[k]
                == column_sum(tm.table.rows@, k),
{
    assert forall|k: int| 0 <= k < tm.columns@.len() implies #[trigger] tm.table.totals->Some_0.counts@[k]
        == column_sum(tm.table.rows@, k) by {
        lemma_column_sum_is_metric_total(tm.table.rows@, tm.results@, tm.columns@, k);
        assert(total_value(tm.totals_counter, tm.columns@[k]) == metric_total(
            tm.results@,
            tm.columns@[k],
        ));
    }
}

/// The exclusivity law: whatever is requested, the resolved flags never show
/// both bytes and characters, and neither do the columns they give.
pub proof fn lemma_bytes_chars_exclusive(lines: bool, bytes: bool, chars: bool, words: bool)
    ensures
        !(resolve_flags(lines, bytes, chars, words).1 && resolve_flags(
            lines,
            bytes,
            chars,
            words,
        ).2),
        ({
            let f = resolve_flags(lines, bytes, chars, words);
            let cols = active_columns(f.0, f.1, f.2, f.3);
            !(cols.contains(Metric::Bytes) && cols.contains(Metric::Chars))
        }),
{
    let f = resolve_flags(lines, bytes, chars, words);
    lemma_columns_follow_flags(f.0, f.1, f.2, f.3);
}

proof fn lemma_columns_follow_flags(lines: bool, bytes: bool, chars: bool, words: bool)
    ensures
        active_columns(lines, bytes, chars, words).contains(Metric::Bytes) <==> bytes,
        active_columns(lines, bytes, chars, words).contains(Metric::Chars) <==> chars,
{
    let cols = active_columns(lines, bytes, chars, words);
    if bytes {
        let j = if lines {
            1int
        } else {
            0int
        };
        assert(cols[j] == Metric::Bytes);
    }
    if chars {
        let j = (if lines {
            1int
        } else {
            0int
        }) + (if bytes {
            1int
        } else {
            0int
        });
        assert(cols[j] == Metric::Chars);
    }
}

/// A consistent run never has both a `Bytes` and a `Chars` header.
pub proof fn lemma_headers_never_show_bytes_and_chars(tm: TableManager)
    requires
        tm.wf(),
    ensures
        !(string_views(tm.table.titles@).contains("Bytes"@) && string_views(
            tm.table.titles@,
        ).contains("Chars"@)),
{
    reveal_strlit("Lines");
    reveal_strlit("Bytes");
    reveal_strlit("Chars");
    reveal_strlit("Words");
    reveal_strlit("File");
    let cols = tm.columns@;
    let titles = titles_for(cols);
    lemma_columns_follow_flags(tm.lines_enabled, tm.bytes_enabled, tm.chars_enabled, tm.words_enabled);
    if titles.contains("Bytes"@) && titles.contains("Chars"@) {
        let i = choose|i: int| 0 <= i < titles.len() && titles[i] == "Bytes"@;
        let j = choose|j: int| 0 <= j < titles.len() && titles[j] == "Chars"@;
        assert("Bytes"@[0] != "File"@[0]);
        assert("Chars"@[0] != "File"@[0]);
        assert(i < cols.len() && j < cols.len());
        assert(title_of(cols[i]) == "Bytes"@);
        assert(title_of(cols[j]) == "Chars"@);
        assert(cols[i] == Metric::Bytes) by {
            assert("Bytes"@[0] != "Lines"@[0]);
            assert("Bytes"@[0] != "Chars"@[0]);
            assert("Bytes"@[0] != "Words"@[0]);
        }
        assert(cols[j] == Metric::Chars) by {
            assert("Chars"@[0] != "Lines"@[0]);
            assert("Chars"@[0] != "Bytes"@[0]);
            assert("Chars"@[0] != "Words"@[0]);
        }
        assert(cols.contains(Metric::Bytes));
        assert(cols.contains(Metric::Chars));
    }
}

} // verus!
