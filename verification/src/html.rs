use vstd::prelude::*;
use vstd::string::*;

use crate::text::{blank_spec, is_blank, push_char};
use crate::timing::{json_bool_field, read_bool_field};

verus! {

/// What one character becomes in HTML text.
pub open spec fn escape_char(c: char) -> Seq<char> {
    if c == '&' {
        "&amp;"@
    } else if c == '<' {
        "&lt;"@
    } else if c == '>' {
        "&gt;"@
    } else if c == '"' {
        "&quot;"@
    } else {
        seq![c]
    }
}

/// A text with `&`, `<`, `>` and `"` replaced by their HTML entities.
pub open spec fn escape_spec(s: Seq<char>) -> Seq<char>
    decreases s.len(),
{
    if s.len() == 0 {
        Seq::empty()
    } else {
        escape_spec(s.drop_last()) + escape_char(s.last())
    }
}

/// Escapes a text so that it can stand inside HTML text or a quoted attribute.
pub fn escape(value: &str) -> (escaped: String)
    ensures
        escaped@ == escape_spec(value@),
{
    let mut escaped = String::new();
    let ghost chars = value@;
    for c in iter: value.chars()
        invariant
            iter.seq() == chars,
            escaped@ == escape_spec(chars.take(iter.index() as int)),
    {
        assert(chars.take(iter.index() + 1).drop_last() == chars.take(iter.index() as int));
        if c == '&' {
            escaped.append("&amp;");
        } else if c == '<' {
            escaped.append("&lt;");
        } else if c == '>' {
            escaped.append("&gt;");
        } else if c == '"' {
            escaped.append("&quot;");
        } else {
            push_char(&mut escaped, c);
        }
    }
    assert(chars.take(chars.len() as int) == chars);
    escaped
}


/// Escaped text holds no markup: no `<`, `>` or `"` survives escaping.
pub proof fn lemma_escape_leaves_no_markup(s: Seq<char>)
    ensures
        forall|i: int|
            0 <= i < escape_spec(s).len() ==> {
                let c = #[trigger] escape_spec(s)[i];
                c != '<' && c != '>' && c != '"'
            },
    decreases s.len(),
{
    reveal_strlit("&amp;");
    reveal_strlit("&lt;");
    reveal_strlit("&gt;");
    reveal_strlit("&quot;");
    if s.len() > 0 {
        lemma_escape_leaves_no_markup(s.drop_last());
        let prefix = escape_spec(s.drop_last());
        let tail = escape_char(s.last());
        assert forall|i: int| 0 <= i < escape_spec(s).len() implies {
            let c = #[trigger] escape_spec(s)[i];
            c != '<' && c != '>' && c != '"'
        } by {
            if i < prefix.len() {
                assert(escape_spec(s)[i] == prefix[i]);
            } else {
                assert(escape_spec(s)[i] == tail[i - prefix.len()]);
            }
        }
    }
}

proof fn lemma_escape_single(c: char)
    ensures
        escape_spec(seq![c]) == escape_char(c),
{
    let one = seq![c];
    assert(one.drop_last() =~= Seq::<char>::empty());
    assert(one.last() == c);
    assert(escape_spec(one.drop_last()) == Seq::<char>::empty());
    assert(escape_spec(one) == escape_spec(one.drop_last()) + escape_char(one.last()));
    assert(Seq::<char>::empty() + escape_char(c) =~= escape_char(c));
}

/// Escaping works character by character: escaping a concatenation gives the concatenation of
/// the escapes.
pub proof fn lemma_escape_concat(a: Seq<char>, b: Seq<char>)
    ensures
        escape_spec(a + b) == escape_spec(a) + escape_spec(b),
    decreases b.len(),
{
    if b.len() == 0 {
        assert(a + b =~= a);
        assert(escape_spec(a) + escape_spec(b) =~= escape_spec(a));
    } else {
        lemma_escape_concat(a, b.drop_last());
        assert((a + b).drop_last() =~= a + b.drop_last());
        assert((a + b).last() == b.last());
        assert(escape_spec(a) + escape_spec(b) =~= escape_spec(a) + escape_spec(b.drop_last())
            + escape_char(b.last()));
    }
}

/// Turns the four entities that escaping writes back into their characters, reading from the
/// left; every other character stays.
pub open spec fn unescape_spec(t: Seq<char>) -> Seq<char>
    decreases t.len(),
{
    if t.len() == 0 {
        Seq::empty()
    } else if t.len() >= 5 && t.take(5) == "&amp;"@ {
        seq!['&'] + unescape_spec(t.skip(5))
    } else if t.len() >= 4 && t.take(4) == "&lt;"@ {
        seq!['<'] + unescape_spec(t.skip(4))
    } else if t.len() >= 4 && t.take(4) == "&gt;"@ {
        seq!['>'] + unescape_spec(t.skip(4))
    } else if t.len() >= 6 && t.take(6) == "&quot;"@ {
        seq!['"'] + unescape_spec(t.skip(6))
    } else {
        seq![t[0]] + unescape_spec(t.skip(1))
    }
}

proof fn lemma_unescape_char(c: char, rest: Seq<char>)
    ensures
        unescape_spec(escape_char(c) + rest) == seq![c] + unescape_spec(rest),
{
    reveal_strlit("&amp;");
    reveal_strlit("&lt;");
    reveal_strlit("&gt;");
    reveal_strlit("&quot;");
    let e = escape_char(c);
    let t = e + rest;
    assert(t.skip(e.len() as int) =~= rest);
    if c == '&' {
        assert(t.take(5) =~= "&amp;"@);
    } else if c == '<' {
        assert(t.len() >= 5 ==> t.take(5)[1] != "&amp;"@[1]);
        assert(t.take(4) =~= "&lt;"@);
    } else if c == '>' {
        assert(t.len() >= 5 ==> t.take(5)[1] != "&amp;"@[1]);
        assert(t.take(4)[1] != "&lt;"@[1]);
        assert(t.take(4) =~= "&gt;"@);
    } else if c == '"' {
        assert(t.take(5)[1] != "&amp;"@[1]);
        assert(t.take(4)[1] != "&lt;"@[1]);
        assert(t.take(4)[1] != "&gt;"@[1]);
        assert(t.take(6) =~= "&quot;"@);
    } else {
        assert(t[0] == c);
        assert(t.len() >= 5 ==> t.take(5)[0] != "&amp;"@[0]);
        assert(t.len() >= 4 ==> t.take(4)[0] != "&lt;"@[0]);
        assert(t.len() >= 4 ==> t.take(4)[0] != "&gt;"@[0]);
        assert(t.len() >= 6 ==> t.take(6)[0] != "&quot;"@[0]);
    }
}

/// Escaping loses nothing: turning the entities back gives the original text.
pub proof fn lemma_unescape_escape(s: Seq<char>)
    ensures
        unescape_spec(escape_spec(s)) == s,
    decreases s.len(),
{
    if s.len() > 0 {
        let c = s[0];
        let rest = s.drop_first();
        assert(s =~= seq![c] + rest);
        lemma_escape_concat(seq![c], rest);
        lemma_escape_single(c);
        lemma_unescape_char(c, escape_spec(rest));
        lemma_unescape_escape(rest);
        assert(seq![c] + rest =~= s);
    } else {
        assert(escape_spec(s) =~= Seq::<char>::empty());
    }
}

/// One `<tr>` of a two-column table: a header cell and a value cell, both escaped.
pub open spec fn table_row_spec(label: Seq<char>, value: Seq<char>) -> Seq<char> {
    "<tr><th>"@ + escape_spec(label) + "</th><td>"@ + escape_spec(value) + "</td></tr>"@
}

/// Appends a table row whose header is `label` and whose cell is `value`.
pub fn table_row(html: &mut String, label: &str, value: &str)
    ensures
        final(html)@ == old(html)@ + table_row_spec(label@, value@),
{
    html.append("<tr><th>");
    let label = escape(label);
    html.append(label.as_str());
    html.append("</th><td>");
    let value = escape(value);
    html.append(value.as_str());
    html.append("</td></tr>");
}

/// A collapsible `<details>` block with an escaped title and escaped preformatted contents.
pub open spec fn details_spec(title: Seq<char>, contents: Seq<char>, open: bool) -> Seq<char> {
    (if open { "<details open>"@ } else { "<details>"@ }) + "<summary>"@ + escape_spec(title)
        + "</summary><pre>"@ + escape_spec(contents) + "</pre></details>"@
}

/// Appends a `<details>` block; it starts unfolded when `open` is set.
pub fn details(html: &mut String, title: &str, contents: &str, open: bool)
    ensures
        final(html)@ == old(html)@ + details_spec(title@, contents@, open),
{
    if open {
        html.append("<details open>");
    } else {
        html.append("<details>");
    }
    html.append("<summary>");
    let title = escape(title);
    html.append(title.as_str());
    html.append("</summary><pre>");
    let contents = escape(contents);
    html.append(contents.as_str());
    html.append("</pre></details>");
}


/// The document start of a report: doctype, metadata, escaped title, stylesheet, and the
/// opening `<body><main>`.
pub open spec fn report_head_spec(title: Seq<char>) -> Seq<char> {
    "<!doctype html><html lang=\"en\"><head><meta charset=\"utf-8\"><meta name=\"viewport\" content=\"width=device-width,initial-scale=1\"><title>"@ + escape_spec(title)
        + "</title><style>:root{color-scheme:dark;--bg:#101217;--panel:#191d25;--line:#394150;--muted:#9ba6b8;--text:#f0f3f8;--pass:#63d68a;--fail:#ff7272;--accent:#79b8ff}*{box-sizing:border-box}body{margin:0;background:var(--bg);color:var(--text);font:15px/1.5 system-ui,sans-serif}main{width:min(1180px,calc(100% - 32px));margin:0 auto 64px}header{display:flex;align-items:end;justify-content:space-between;padding:48px 0 24px;border-bottom:2px solid var(--line)}h1{margin:0;font-size:32px}h2{margin:0 0 16px;font-size:20px}h3{margin:24px 0 10px;color:var(--muted);font-size:13px;letter-spacing:.08em;text-transform:uppercase}.eyebrow{margin:0 0 4px;color:var(--accent);font-size:12px;font-weight:800;letter-spacing:.16em}.verdict{padding:8px 14px;border:2px solid currentColor;font-weight:800}.pass{color:var(--pass)}.fail{color:var(--fail)}section{margin-top:24px;padding:24px;background:var(--panel);border:1px solid var(--line)}.section-heading{display:flex;align-items:end;justify-content:space-between;margin-bottom:18px}.section-heading h2{margin:0}.headline{font-size:28px;font-weight:800;font-variant-numeric:tabular-nums}.columns{display:grid;grid-template-columns:minmax(240px,.7fr) minmax(420px,1.3fr);gap:24px}.columns h3{margin-top:0}table{width:100%;border-collapse:collapse;border:1px solid var(--line)}th,td{padding:10px 12px;border:1px solid var(--line);text-align:left;font-variant-numeric:tabular-nums}th{background:#151921;color:var(--muted);font-weight:700}td:last-child:not(:first-child),th:last-child:not(:first-child){text-align:right}.status{font-weight:800}.notice{padding:12px;border-left:4px solid var(--muted);background:#151921;color:var(--muted)}.explanation{color:var(--muted)}a{color:var(--accent)}.links{display:flex;gap:10px;margin:16px 0}.links a{padding:7px 11px;border:1px solid var(--line);text-decoration:none}details{margin-top:12px;border:1px solid var(--line)}summary{cursor:pointer;padding:11px 14px;font-weight:700}pre{max-height:560px;margin:0;padding:14px;overflow:auto;border-top:1px solid var(--line);background:#11141a;white-space:pre-wrap;font:12px/1.55 ui-monospace,monospace;color:#d9e0ea}@media(max-width:760px){header,.section-heading{align-items:start;gap:20px}.columns{grid-template-columns:1fr}.headline{font-size:22px}section{padding:16px}}</style></head><body><main>"@
}

/// Starts a report document with the given title.
pub fn report_head(title: &str) -> (html: String)
    ensures
        html@ == report_head_spec(title@),
{
    let mut html = String::from_str("<!doctype html><html lang=\"en\"><head><meta charset=\"utf-8\"><meta name=\"viewport\" content=\"width=device-width,initial-scale=1\"><title>");
    let title = escape(title);
    html.append(title.as_str());
    html.append("</title><style>:root{color-scheme:dark;--bg:#101217;--panel:#191d25;--line:#394150;--muted:#9ba6b8;--text:#f0f3f8;--pass:#63d68a;--fail:#ff7272;--accent:#79b8ff}*{box-sizing:border-box}body{margin:0;background:var(--bg);color:var(--text);font:15px/1.5 system-ui,sans-serif}main{width:min(1180px,calc(100% - 32px));margin:0 auto 64px}header{display:flex;align-items:end;justify-content:space-between;padding:48px 0 24px;border-bottom:2px solid var(--line)}h1{margin:0;font-size:32px}h2{margin:0 0 16px;font-size:20px}h3{margin:24px 0 10px;color:var(--muted);font-size:13px;letter-spacing:.08em;text-transform:uppercase}.eyebrow{margin:0 0 4px;color:var(--accent);font-size:12px;font-weight:800;letter-spacing:.16em}.verdict{padding:8px 14px;border:2px solid currentColor;font-weight:800}.pass{color:var(--pass)}.fail{color:var(--fail)}section{margin-top:24px;padding:24px;background:var(--panel);border:1px solid var(--line)}.section-heading{display:flex;align-items:end;justify-content:space-between;margin-bottom:18px}.section-heading h2{margin:0}.headline{font-size:28px;font-weight:800;font-variant-numeric:tabular-nums}.columns{display:grid;grid-template-columns:minmax(240px,.7fr) minmax(420px,1.3fr);gap:24px}.columns h3{margin-top:0}table{width:100%;border-collapse:collapse;border:1px solid var(--line)}th,td{padding:10px 12px;border:1px solid var(--line);text-align:left;font-variant-numeric:tabular-nums}th{background:#151921;color:var(--muted);font-weight:700}td:last-child:not(:first-child),th:last-child:not(:first-child){text-align:right}.status{font-weight:800}.notice{padding:12px;border-left:4px solid var(--muted);background:#151921;color:var(--muted)}.explanation{color:var(--muted)}a{color:var(--accent)}.links{display:flex;gap:10px;margin:16px 0}.links a{padding:7px 11px;border:1px solid var(--line);text-decoration:none}details{margin-top:12px;border:1px solid var(--line)}summary{cursor:pointer;padding:11px 14px;font-weight:700}pre{max-height:560px;margin:0;padding:14px;overflow:auto;border-top:1px solid var(--line);background:#11141a;white-space:pre-wrap;font:12px/1.55 ui-monospace,monospace;color:#d9e0ea}@media(max-width:760px){header,.section-heading{align-items:start;gap:20px}.columns{grid-template-columns:1fr}.headline{font-size:22px}section{padding:16px}}</style></head><body><main>");
    html
}


/// The fields of a run's record that its report shows. Text fields hold the record's values as
/// displayed (`N/A` for a missing value).
pub struct RunMetadata {
    pub example: Option<String>,
    pub success: Option<bool>,
    pub norender: Option<bool>,
    pub seed: String,
    pub deadline_secs: String,
    pub exit_code: String,
    pub artifacts_complete: String,
}

/// One frame-time statistic, formatted: the time (`x.xxx ms`) and the rate it gives (`x.x`).
pub struct StatCell {
    pub milliseconds: String,
    pub rate: String,
}

/// The frame-time statistics of a timing record, each present when the record holds it.
pub struct FrameStats {
    pub mean: Option<StatCell>,
    pub p50: Option<StatCell>,
    pub p95: Option<StatCell>,
    pub p99: Option<StatCell>,
    pub max: Option<StatCell>,
}

/// The update-work statistics of a timing record, formatted as `x.xxx ms`.
pub struct WorkStats {
    pub mean: Option<String>,
    pub p50: Option<String>,
    pub p95: Option<String>,
    pub p99: Option<String>,
    pub max: Option<String>,
}

/// The fields of a run's timing record that its report shows beside its completeness, formatted
/// for display.
pub struct TimingSummary {
    pub captured_updates: String,
    pub capture_updates: String,
    pub source_runs: String,
    pub frame_intervals: FrameStats,
    pub update_work: WorkStats,
}

/// One row of the report over all examples.
pub struct RunRow {
    pub example: Option<String>,
    pub success: Option<bool>,
}

pub open spec fn flag(b: Option<bool>) -> bool {
    b == Some(true)
}

pub open spec fn name_or_unknown(name: Option<String>) -> Seq<char> {
    match name {
        Some(n) => n@,
        None => "unknown"@,
    }
}

pub open spec fn text_or_na(t: Option<String>) -> Seq<char> {
    match t {
        Some(t) => t@,
        None => "N/A"@,
    }
}

pub open spec fn ms_or_na(c: Option<StatCell>) -> Seq<char> {
    match c {
        Some(c) => c.milliseconds@,
        None => "N/A"@,
    }
}

pub open spec fn rate_or_na(c: Option<StatCell>) -> Seq<char> {
    match c {
        Some(c) => c.rate@,
        None => "N/A"@,
    }
}

pub open spec fn pass_class(b: bool) -> Seq<char> {
    if b {
        "pass"@
    } else {
        "fail"@
    }
}

pub open spec fn pass_word(b: bool) -> Seq<char> {
    if b {
        "PASS"@
    } else {
        "FAIL"@
    }
}

/// A row of the throughput table: the statistic, its frame time and its rate.
pub open spec fn timing_row_spec(label: Seq<char>, cell: Option<StatCell>) -> Seq<char> {
    "<tr><th>"@ + escape_spec(label) + "</th><td>"@ + ms_or_na(cell) + "</td><td>"@ + rate_or_na(cell)
        + "</td></tr>"@
}

/// A row of the update-work table: the statistic and its duration.
pub open spec fn duration_row_spec(label: Seq<char>, ms: Option<String>) -> Seq<char> {
    "<tr><th>"@ + escape_spec(label) + "</th><td>"@ + text_or_na(ms) + "</td></tr>"@
}

fn push_text_or_na(html: &mut String, t: &Option<String>)
    ensures
        final(html)@ == old(html)@ + text_or_na(*t),
{
    match t {
        Some(t) => html.append(t.as_str()),
        None => html.append("N/A"),
    }
}

fn timing_row(html: &mut String, label: &str, cell: &Option<StatCell>)
    ensures
        final(html)@ == old(html)@ + timing_row_spec(label@, *cell),
{
    html.append("<tr><th>");
    let label = escape(label);
    html.append(label.as_str());
    html.append("</th><td>");
    match cell {
        Some(c) => html.append(c.milliseconds.as_str()),
        None => html.append("N/A"),
    }
    html.append("</td><td>");
    match cell {
        Some(c) => html.append(c.rate.as_str()),
        None => html.append("N/A"),
    }
    html.append("</td></tr>");
}

fn duration_row(html: &mut String, label: &str, ms: &Option<String>)
    ensures
        final(html)@ == old(html)@ + duration_row_spec(label@, *ms),
{
    html.append("<tr><th>");
    let label = escape(label);
    html.append(label.as_str());
    html.append("</th><td>");
    push_text_or_na(html, ms);
    html.append("</td></tr>");
}

/// The report's header: eyebrow, escaped example name, and the verdict.
pub open spec fn run_header_spec(example: Seq<char>, success: bool) -> Seq<char> {
    "<header><div><p class=\"eyebrow\">CLICKER PROBE</p><h1>"@ + escape_spec(example)
        + "</h1></div><div class=\"verdict "@ + pass_class(success) + "\">"@ + pass_word(success)
        + "</div></header>"@
}

/// The table of the run's settings and exit.
pub open spec fn run_section_spec(m: &RunMetadata) -> Seq<char> {
    "<section><h2>Run</h2><table><tbody>"@ + table_row_spec(
        "Mode"@,
        if flag(m.norender) { "No-render"@ } else { "Rendered"@ },
    ) + table_row_spec("Seed"@, m.seed@) + table_row_spec("Deadline"@, m.deadline_secs@ + " s"@)
        + table_row_spec("Exit code"@, m.exit_code@) + table_row_spec(
        "Artifacts complete"@,
        m.artifacts_complete@,
    ) + "</tbody></table></section>"@
}

fn push_run_section(html: &mut String, m: &RunMetadata)
    ensures
        final(html)@ == old(html)@ + run_section_spec(m),
{
    html.append("<section><h2>Run</h2><table><tbody>");
    let no_render = match m.norender {
        Some(b) => b,
        None => false,
    };
    table_row(html, "Mode", if no_render { "No-render" } else { "Rendered" });
    table_row(html, "Seed", m.seed.as_str());
    let mut deadline = m.deadline_secs.clone();
    deadline.append(" s");
    table_row(html, "Deadline", deadline.as_str());
    table_row(html, "Exit code", m.exit_code.as_str());
    table_row(html, "Artifacts complete", m.artifacts_complete.as_str());
    html.append("</tbody></table></section>");
}

/// The capture table of the timing section.
#[verifier::opaque]
pub open spec fn capture_table_spec(t: &TimingSummary, complete: bool) -> Seq<char> {
    "<div class=\"columns\"><div><h3>Capture</h3><table><tbody>"@ + table_row_spec(
        "Status"@,
        if complete { "Complete"@ } else { "N/A"@ },
    ) + table_row_spec("Captured updates"@, t.captured_updates@) + table_row_spec(
        "Target updates"@,
        t.capture_updates@,
    ) + table_row_spec("Source runs"@, t.source_runs@)
}

/// The frame statistics that the report shows: none unless the capture is complete.
pub open spec fn shown(c: Option<StatCell>, complete: bool) -> Option<StatCell> {
    if complete {
        c
    } else {
        None
    }
}

pub open spec fn shown_ms(c: Option<String>, complete: bool) -> Option<String> {
    if complete {
        c
    } else {
        None
    }
}

/// The throughput table of the timing section.
#[verifier::opaque]
pub open spec fn throughput_table_spec(f: &FrameStats, complete: bool, rate_label: Seq<char>) -> Seq<char> {
    "</tbody></table></div><div><h3>Throughput</h3><table><thead><tr><th>Statistic</th><th>Frame time</th><th>"@
        + rate_label + "</th></tr></thead><tbody>"@ + timing_row_spec("Mean"@, shown(f.mean, complete))
        + timing_row_spec("Median"@, shown(f.p50, complete)) + timing_row_spec(
        "p95"@,
        shown(f.p95, complete),
    ) + timing_row_spec("p99"@, shown(f.p99, complete)) + timing_row_spec(
        "Maximum"@,
        shown(f.max, complete),
    ) + "</tbody></table></div></div>"@
}

/// The update-work table of the timing section.
#[verifier::opaque]
pub open spec fn work_table_spec(w: &WorkStats, complete: bool) -> Seq<char> {
    "<h3>Main-world update work</h3><table><thead><tr><th>Statistic</th><th>Duration</th></tr></thead><tbody>"@
        + duration_row_spec("Mean"@, shown_ms(w.mean, complete)) + duration_row_spec(
        "Median"@,
        shown_ms(w.p50, complete),
    ) + duration_row_spec("p95"@, shown_ms(w.p95, complete)) + duration_row_spec(
        "p99"@,
        shown_ms(w.p99, complete),
    ) + duration_row_spec("Maximum"@, shown_ms(w.max, complete))
}

fn shown_cell(c: &Option<StatCell>, complete: bool) -> (out: Option<StatCell>)
    ensures
        out matches Some(o) ==> (c matches Some(i) && o.milliseconds@ == i.milliseconds@ && o.rate@
            == i.rate@),
        ms_or_na(out) == ms_or_na(shown(*c, complete)),
        rate_or_na(out) == rate_or_na(shown(*c, complete)),
{
    if !complete {
        return None;
    }
    match c {
        Some(c) => Some(StatCell { milliseconds: c.milliseconds.clone(), rate: c.rate.clone() }),
        None => None,
    }
}

fn shown_text(t: &Option<String>, complete: bool) -> (out: Option<String>)
    ensures
        text_or_na(out) == text_or_na(shown_ms(*t, complete)),
{
    if !complete {
        return None;
    }
    match t {
        Some(t) => Some(t.clone()),
        None => None,
    }
}

fn frame_row(html: &mut String, label: &str, c: &Option<StatCell>, complete: bool)
    ensures
        final(html)@ == old(html)@ + timing_row_spec(label@, shown(*c, complete)),
{
    let cell = shown_cell(c, complete);
    timing_row(html, label, &cell);
}

fn work_row(html: &mut String, label: &str, t: &Option<String>, complete: bool)
    ensures
        final(html)@ == old(html)@ + duration_row_spec(label@, shown_ms(*t, complete)),
{
    let text = shown_text(t, complete);
    duration_row(html, label, &text);
}

/// The heading of the timing section, with the mean rate as its headline.
#[verifier::opaque]
pub open spec fn headline_spec(rate: Seq<char>, rate_label: Seq<char>) -> Seq<char> {
    "<section><div class=\"section-heading\"><div><p class=\"eyebrow\">PERFORMANCE</p><h2>Update timing</h2></div><div class=\"headline\">"@
        + rate + " "@ + rate_label + "</div></div>"@
}

/// The notice shown when the capture did not complete.
#[verifier::opaque]
pub open spec fn notice_spec(complete: bool) -> Seq<char> {
    if complete {
        Seq::empty()
    } else {
        "<p class=\"notice\">N/A: this example did not produce enough post-startup Playing samples.</p>"@
    }
}

/// The explanation under the timing tables and the links to the raw records.
#[verifier::opaque]
pub open spec fn links_spec(trace_available: bool) -> Seq<char> {
    "</tbody></table><p class=\"explanation\">Frame time is measured only while the game is in Playing. Main-world update work covers First through Last.</p><div class=\"links\"><a href=\"timing.json\">timing.json</a>"@
        + (if trace_available { "<a href=\"trace.json\">trace.json</a>"@ } else { Seq::empty() })
        + "</div>"@
}

/// The performance section: headline rate, capture and throughput tables, update work,
/// links, and the raw timing record.
pub open spec fn performance_section_spec(t: &TimingSummary, complete: bool, timing: Seq<char>, trace_available: bool, no_render: bool) -> Seq<char> {
    let rate_label = if no_render { "UPS"@ } else { "FPS"@ };
    headline_spec(rate_or_na(shown(t.frame_intervals.mean, complete)), rate_label)
        + notice_spec(complete) + capture_table_spec(t, complete) + throughput_table_spec(
        &t.frame_intervals,
        complete,
        rate_label,
    ) + work_table_spec(&t.update_work, complete) + links_spec(trace_available) + details_spec(
        "Raw timing"@,
        timing,
        false,
    ) + "</section>"@
}

/// A report of a capture that did not complete shows none of its statistics: two timing
/// summaries that differ only in their statistics give the same timing section, and that
/// section carries the notice that samples were missing.
pub proof fn lemma_incomplete_timing_hides_statistics(
    t: &TimingSummary,
    other: &TimingSummary,
    timing: Seq<char>,
    trace_available: bool,
    no_render: bool,
)
    requires
        other.captured_updates@ == t.captured_updates@,
        other.capture_updates@ == t.capture_updates@,
        other.source_runs@ == t.source_runs@,
    ensures
        performance_section_spec(t, false, timing, trace_available, no_render) == performance_section_spec(
            other,
            false,
            timing,
            trace_available,
            no_render,
        ),
        notice_spec(false) == "<p class=\"notice\">N/A: this example did not produce enough post-startup Playing samples.</p>"@,
{
    reveal(capture_table_spec);
    reveal(throughput_table_spec);
    reveal(work_table_spec);
    reveal(notice_spec);
    let label = if no_render { "UPS"@ } else { "FPS"@ };
    assert(capture_table_spec(t, false) == capture_table_spec(other, false));
    assert(throughput_table_spec(&t.frame_intervals, false, label) == throughput_table_spec(
        &other.frame_intervals,
        false,
        label,
    ));
    assert(work_table_spec(&t.update_work, false) == work_table_spec(&other.update_work, false));
}

fn push_headline(html: &mut String, mean: &Option<StatCell>, complete: bool, rate_label: &str)
    ensures
        final(html)@ == old(html)@ + headline_spec(rate_or_na(shown(*mean, complete)), rate_label@),
{
    reveal(headline_spec);
    html.append(
        "<section><div class=\"section-heading\"><div><p class=\"eyebrow\">PERFORMANCE</p><h2>Update timing</h2></div><div class=\"headline\">",
    );
    let headline = shown_cell(mean, complete);
    match headline {
        Some(c) => html.append(c.rate.as_str()),
        None => html.append("N/A"),
    }
    html.append(" ");
    html.append(rate_label);
    html.append("</div></div>");
}

fn push_notice(html: &mut String, complete: bool)
    ensures
        final(html)@ == old(html)@ + notice_spec(complete),
{
    reveal(notice_spec);
    if !complete {
        html.append(
            "<p class=\"notice\">N/A: this example did not produce enough post-startup Playing samples.</p>",
        );
    } else {
        assert(html@ =~= html@ + Seq::<char>::empty());
    }
}

fn push_capture_table(html: &mut String, t: &TimingSummary, complete: bool)
    ensures
        final(html)@ == old(html)@ + capture_table_spec(t, complete),
{
    reveal(capture_table_spec);
    html.append("<div class=\"columns\"><div><h3>Capture</h3><table><tbody>");
    table_row(html, "Status", if complete { "Complete" } else { "N/A" });
    table_row(html, "Captured updates", t.captured_updates.as_str());
    table_row(html, "Target updates", t.capture_updates.as_str());
    table_row(html, "Source runs", t.source_runs.as_str());
}

fn push_throughput_table(html: &mut String, f: &FrameStats, complete: bool, rate_label: &str)
    ensures
        final(html)@ == old(html)@ + throughput_table_spec(f, complete, rate_label@),
{
    reveal(throughput_table_spec);
    html.append(
        "</tbody></table></div><div><h3>Throughput</h3><table><thead><tr><th>Statistic</th><th>Frame time</th><th>",
    );
    html.append(rate_label);
    html.append("</th></tr></thead><tbody>");
    frame_row(html, "Mean", &f.mean, complete);
    frame_row(html, "Median", &f.p50, complete);
    frame_row(html, "p95", &f.p95, complete);
    frame_row(html, "p99", &f.p99, complete);
    frame_row(html, "Maximum", &f.max, complete);
    html.append("</tbody></table></div></div>");
}

fn push_work_table(html: &mut String, w: &WorkStats, complete: bool)
    ensures
        final(html)@ == old(html)@ + work_table_spec(w, complete),
{
    reveal(work_table_spec);
    html.append(
        "<h3>Main-world update work</h3><table><thead><tr><th>Statistic</th><th>Duration</th></tr></thead><tbody>",
    );
    work_row(html, "Mean", &w.mean, complete);
    work_row(html, "Median", &w.p50, complete);
    work_row(html, "p95", &w.p95, complete);
    work_row(html, "p99", &w.p99, complete);
    work_row(html, "Maximum", &w.max, complete);
}

fn push_links(html: &mut String, trace_available: bool)
    ensures
        final(html)@ == old(html)@ + links_spec(trace_available),
{
    reveal(links_spec);
    let ghost start = html@;
    html.append(
        "</tbody></table><p class=\"explanation\">Frame time is measured only while the game is in Playing. Main-world update work covers First through Last.</p><div class=\"links\"><a href=\"timing.json\">timing.json</a>",
    );
    let ghost middle = html@;
    if trace_available {
        html.append("<a href=\"trace.json\">trace.json</a>");
    } else {
        assert(html@ =~= middle + Seq::<char>::empty());
    }
    html.append("</div>");
}

fn push_performance_section(html: &mut String, t: &TimingSummary, complete: bool, timing: &str, trace_available: bool, no_render: bool)
    ensures
        final(html)@ == old(html)@ + performance_section_spec(t, complete, timing@, trace_available, no_render),
{
    let rate_label = if no_render {
        "UPS"
    } else {
        "FPS"
    };
    push_headline(html, &t.frame_intervals.mean, complete, rate_label);
    push_notice(html, complete);
    push_capture_table(html, t, complete);
    push_throughput_table(html, &t.frame_intervals, complete, rate_label);
    push_work_table(html, &t.update_work, complete);
    push_links(html, trace_available);
    details(html, "Raw timing", timing, false);
    html.append("</section>");
}

/// The evidence and log sections that close a run report: the snapshot unfolded, the timeline
/// and standard output folded, standard error unfolded when it holds more than white space.
pub open spec fn evidence_spec(
    snapshot: Seq<char>,
    timeline: Seq<char>,
    stdout: Seq<char>,
    stderr: Seq<char>,
) -> Seq<char> {
    "<section><h2>Correctness evidence</h2>"@ + details_spec("Snapshot"@, snapshot, true)
        + details_spec("Timeline"@, timeline, false) + "</section><section><h2>Process logs</h2>"@
        + details_spec("Standard output"@, stdout, false) + details_spec(
        "Standard error"@,
        stderr,
        !blank_spec(stderr),
    ) + "</section></main></body></html>"@
}

fn push_evidence(html: &mut String, snapshot: &str, timeline: &str, stdout: &str, stderr: &str)
    ensures
        final(html)@ == old(html)@ + evidence_spec(snapshot@, timeline@, stdout@, stderr@),
{
    html.append("<section><h2>Correctness evidence</h2>");
    details(html, "Snapshot", snapshot, true);
    details(html, "Timeline", timeline, false);
    html.append("</section><section><h2>Process logs</h2>");
    details(html, "Standard output", stdout, false);
    let blank = is_blank(stderr);
    details(html, "Standard error", stderr, !blank);
    html.append("</section></main></body></html>");
    proof {
        let g = old(html)@;
        assert(html@ =~= g + evidence_spec(snapshot@, timeline@, stdout@, stderr@));
    }
}

fn push_run_header(html: &mut String, example: &Option<String>, success: Option<bool>)
    ensures
        final(html)@ == old(html)@ + run_header_spec(name_or_unknown(*example), flag(success)),
{
    let success = match success {
        Some(b) => b,
        None => false,
    };
    html.append("<header><div><p class=\"eyebrow\">CLICKER PROBE</p><h1>");
    let example = match example {
        Some(name) => escape(name.as_str()),
        None => escape("unknown"),
    };
    html.append(example.as_str());
    html.append("</h1></div><div class=\"verdict ");
    html.append(if success { "pass" } else { "fail" });
    html.append("\">");
    html.append(if success { "PASS" } else { "FAIL" });
    html.append("</div></header>");
}

/// The whole report of one run.
pub open spec fn run_report_spec(
    m: &RunMetadata,
    snapshot: Seq<char>,
    timeline: Seq<char>,
    timing: Seq<char>,
    stdout: Seq<char>,
    stderr: Seq<char>,
    trace_available: bool,
    complete: Option<bool>,
    summary: &TimingSummary,
) -> Seq<char> {
    report_head_spec("Clicker probe report"@) + run_header_spec(
        name_or_unknown(m.example),
        flag(m.success),
    ) + run_section_spec(m) + performance_section_spec(
        summary,
        flag(complete),
        timing,
        trace_available,
        flag(m.norender),
    ) + evidence_spec(snapshot, timeline, stdout, stderr)
}

/// Renders the HTML report of one run from its record, its artifacts as text, the `complete`
/// field read from its timing record (`None` where the record has none), and the summary of
/// that record.
pub fn render_run_report_with(
    metadata: &RunMetadata,
    snapshot: &str,
    timeline: &str,
    timing: &str,
    stdout: &str,
    stderr: &str,
    trace_available: bool,
    complete: Option<bool>,
    summary: &TimingSummary,
) -> (html: String)
    ensures
        html@ == run_report_spec(
            metadata,
            snapshot@,
            timeline@,
            timing@,
            stdout@,
            stderr@,
            trace_available,
            complete,
            summary,
        ),
{
    let no_render = match metadata.norender {
        Some(b) => b,
        None => false,
    };
    let is_complete = match complete {
        Some(b) => b,
        None => false,
    };
    let mut html = report_head("Clicker probe report");
    push_run_header(&mut html, &metadata.example, metadata.success);
    push_run_section(&mut html, metadata);
    push_performance_section(&mut html, summary, is_complete, timing, trace_available, no_render);
    push_evidence(&mut html, snapshot, timeline, stdout, stderr);
    html
}

/// Renders the HTML report of one run from its record, its artifacts as text, and the summary
/// of its timing record; whether the capture completed is read from the timing record itself.
pub fn render_run_report(
    metadata: &RunMetadata,
    snapshot: &str,
    timeline: &str,
    timing: &str,
    stdout: &str,
    stderr: &str,
    trace_available: bool,
    summary: &TimingSummary,
) -> (html: String)
    ensures
        html@ == run_report_spec(
            metadata,
            snapshot@,
            timeline@,
            timing@,
            stdout@,
            stderr@,
            trace_available,
            json_bool_field(timing@, "complete"@),
            summary,
        ),
{
    let complete = read_bool_field(timing, "complete");
    render_run_report_with(metadata, snapshot, timeline, timing, stdout, stderr, trace_available, complete, summary)
}

/// Whether every run of the list passed.
pub open spec fn all_passed(rows: Seq<RunRow>) -> bool {
    forall|i: int| 0 <= i < rows.len() ==> flag(#[trigger] rows[i].success)
}

/// The link row of one run in the report over all examples.
#[verifier::opaque]
pub open spec fn run_row_spec(row: RunRow) -> Seq<char> {
    let name = escape_spec(name_or_unknown(row.example));
    let passed = flag(row.success);
    "<tr><td><a href=\""@ + name + "/report.html\">"@ + name + "</a></td><td class=\"status "@
        + pass_class(passed) + "\">"@ + pass_word(passed) + "</td></tr>"@
}

fn push_run_row(html: &mut String, row: &RunRow)
    ensures
        final(html)@ == old(html)@ + run_row_spec(*row),
{
    reveal(run_row_spec);
    let example = match &row.example {
        Some(name) => escape(name.as_str()),
        None => escape("unknown"),
    };
    let passed = match row.success {
        Some(b) => b,
        None => false,
    };
    html.append("<tr><td><a href=\"");
    html.append(example.as_str());
    html.append("/report.html\">");
    html.append(example.as_str());
    html.append("</a></td><td class=\"status ");
    html.append(if passed { "pass" } else { "fail" });
    html.append("\">");
    html.append(if passed { "PASS" } else { "FAIL" });
    html.append("</td></tr>");
}

/// The rows of the report over all examples, in the order of the runs.
pub open spec fn run_rows_spec(rows: Seq<RunRow>) -> Seq<char>
    decreases rows.len(),
{
    if rows.len() == 0 {
        Seq::empty()
    } else {
        run_rows_spec(rows.drop_last()) + run_row_spec(rows.last())
    }
}

/// The whole report over all examples.
pub open spec fn all_report_spec(rows: Seq<RunRow>) -> Seq<char> {
    let success = all_passed(rows);
    report_head_spec("Clicker probe report: all examples"@)
        + "<header><div><p class=\"eyebrow\">CLICKER PROBE</p><h1>All examples</h1></div><div class=\"verdict "@
        + pass_class(success) + "\">"@ + pass_word(success)
        + "</div></header><section><h2>Runs</h2><table><thead><tr><th>Example</th><th>Result</th></tr></thead><tbody>"@
        + run_rows_spec(rows) + "</tbody></table></section></main></body></html>"@
}

/// Renders the report that links the reports of all runs, with the overall verdict.
pub fn render_all_report(rows: &Vec<RunRow>) -> (html: String)
    ensures
        html@ == all_report_spec(rows@),
{
    let mut success = true;
    let mut i: usize = 0;
    while i < rows.len()
        invariant
            i <= rows.len(),
            success == (forall|j: int| 0 <= j < i ==> flag(#[trigger] rows@[j].success)),
        decreases rows.len() - i,
    {
        let passed = match rows[i].success {
            Some(b) => b,
            None => false,
        };
        if !passed {
            success = false;
        }
        i = i + 1;
    }
    let mut html = report_head("Clicker probe report: all examples");
    html.append(
        "<header><div><p class=\"eyebrow\">CLICKER PROBE</p><h1>All examples</h1></div><div class=\"verdict ",
    );
    html.append(if success { "pass" } else { "fail" });
    html.append("\">");
    html.append(if success { "PASS" } else { "FAIL" });
    html.append(
        "</div></header><section><h2>Runs</h2><table><thead><tr><th>Example</th><th>Result</th></tr></thead><tbody>",
    );
    let ghost prefix = html@;
    let mut k: usize = 0;
    while k < rows.len()
        invariant
            k <= rows.len(),
            html@ == prefix + run_rows_spec(rows@.take(k as int)),
        decreases rows.len() - k,
    {
        push_run_row(&mut html, &rows[k]);
        proof {
            assert(rows@.take(k + 1).drop_last() =~= rows@.take(k as int));
            assert(html@ =~= prefix + run_rows_spec(rows@.take(k + 1)));
        }
        k = k + 1;
    }
    html.append("</tbody></table></section></main></body></html>");
    proof {
        assert(rows@.take(rows.len() as int) =~= rows@);
        assert(html@ =~= all_report_spec(rows@));
    }
    html
}

/// `part` occurs in `whole` as a contiguous piece.
pub open spec fn has_part(whole: Seq<char>, part: Seq<char>) -> bool {
    exists|i: int|
        0 <= i && i + part.len() <= whole.len() && #[trigger] whole.skip(i).take(part.len() as int)
            == part
}

proof fn lemma_part_between(x: Seq<char>, part: Seq<char>, y: Seq<char>)
    ensures
        has_part(x + part + y, part),
{
    let w = x + part + y;
    assert(w.skip(x.len() as int).take(part.len() as int) =~= part);
}

proof fn lemma_part_left(x: Seq<char>, w: Seq<char>, part: Seq<char>)
    requires
        has_part(w, part),
    ensures
        has_part(x + w, part),
{
    let i = choose|i: int|
        0 <= i && i + part.len() <= w.len() && #[trigger] w.skip(i).take(part.len() as int) == part;
    assert((x + w).skip(x.len() + i).take(part.len() as int) =~= w.skip(i).take(part.len() as int));
}

proof fn lemma_part_right(w: Seq<char>, y: Seq<char>, part: Seq<char>)
    requires
        has_part(w, part),
    ensures
        has_part(w + y, part),
{
    let i = choose|i: int|
        0 <= i && i + part.len() <= w.len() && #[trigger] w.skip(i).take(part.len() as int) == part;
    assert((w + y).skip(i).take(part.len() as int) =~= w.skip(i).take(part.len() as int));
}

proof fn lemma_performance_part_in_report(
    m: &RunMetadata,
    snapshot: Seq<char>,
    timeline: Seq<char>,
    timing: Seq<char>,
    stdout: Seq<char>,
    stderr: Seq<char>,
    trace_available: bool,
    complete: Option<bool>,
    summary: &TimingSummary,
    part: Seq<char>,
)
    requires
        has_part(
            performance_section_spec(summary, flag(complete), timing, trace_available, flag(m.norender)),
            part,
        ),
    ensures
        has_part(
            run_report_spec(m, snapshot, timeline, timing, stdout, stderr, trace_available, complete, summary),
            part,
        ),
{
    let perf = performance_section_spec(summary, flag(complete), timing, trace_available, flag(m.norender));
    let before = report_head_spec("Clicker probe report"@) + run_header_spec(
        name_or_unknown(m.example),
        flag(m.success),
    ) + run_section_spec(m);
    lemma_part_left(before, perf, part);
    lemma_part_right(before + perf, evidence_spec(snapshot, timeline, stdout, stderr), part);
}

proof fn lemma_throughput_part_in_section(
    t: &TimingSummary,
    complete: bool,
    timing: Seq<char>,
    trace_available: bool,
    no_render: bool,
    part: Seq<char>,
)
    requires
        has_part(throughput_table_spec(&t.frame_intervals, complete, if no_render { "UPS"@ } else { "FPS"@ }), part),
    ensures
        has_part(performance_section_spec(t, complete, timing, trace_available, no_render), part),
{
    let rate_label = if no_render { "UPS"@ } else { "FPS"@ };
    let thr = throughput_table_spec(&t.frame_intervals, complete, rate_label);
    let before = headline_spec(rate_or_na(shown(t.frame_intervals.mean, complete)), rate_label)
        + notice_spec(complete) + capture_table_spec(t, complete);
    let a = before + thr;
    lemma_part_left(before, thr, part);
    let b = a + work_table_spec(&t.update_work, complete);
    lemma_part_right(a, work_table_spec(&t.update_work, complete), part);
    let c = b + links_spec(trace_available);
    lemma_part_right(b, links_spec(trace_available), part);
    let d = c + details_spec("Raw timing"@, timing, false);
    lemma_part_right(c, details_spec("Raw timing"@, timing, false), part);
    lemma_part_right(d, "</section>"@, part);
}

proof fn lemma_work_part_in_section(
    t: &TimingSummary,
    complete: bool,
    timing: Seq<char>,
    trace_available: bool,
    no_render: bool,
    part: Seq<char>,
)
    requires
        has_part(work_table_spec(&t.update_work, complete), part),
    ensures
        has_part(performance_section_spec(t, complete, timing, trace_available, no_render), part),
{
    let rate_label = if no_render { "UPS"@ } else { "FPS"@ };
    let work = work_table_spec(&t.update_work, complete);
    let before = headline_spec(rate_or_na(shown(t.frame_intervals.mean, complete)), rate_label)
        + notice_spec(complete) + capture_table_spec(t, complete) + throughput_table_spec(
        &t.frame_intervals,
        complete,
        rate_label,
    );
    lemma_part_left(before, work, part);
    let c = before + work + links_spec(trace_available);
    lemma_part_right(before + work, links_spec(trace_available), part);
    let d = c + details_spec("Raw timing"@, timing, false);
    lemma_part_right(c, details_spec("Raw timing"@, timing, false), part);
    lemma_part_right(d, "</section>"@, part);
}

/// A report of a completed capture shows every statistic under its own label: the throughput
/// table has a row labelled Mean, Median, p95, p99 and Maximum holding the mean, median, 95th
/// and 99th percentile and maximum frame time with its rate, and the update-work table a row for
/// each of the same labels holding that statistic's duration.
pub proof fn lemma_report_rows_match_labels(
    m: &RunMetadata,
    snapshot: Seq<char>,
    timeline: Seq<char>,
    timing: Seq<char>,
    stdout: Seq<char>,
    stderr: Seq<char>,
    trace_available: bool,
    summary: &TimingSummary,
)
    ensures
        ({
            let report = run_report_spec(
                m,
                snapshot,
                timeline,
                timing,
                stdout,
                stderr,
                trace_available,
                Some(true),
                summary,
            );
            let f = summary.frame_intervals;
            let w = summary.update_work;
            &&& has_part(report, timing_row_spec("Mean"@, f.mean))
            &&& has_part(report, timing_row_spec("Median"@, f.p50))
            &&& has_part(report, timing_row_spec("p95"@, f.p95))
            &&& has_part(report, timing_row_spec("p99"@, f.p99))
            &&& has_part(report, timing_row_spec("Maximum"@, f.max))
            &&& has_part(report, duration_row_spec("Mean"@, w.mean))
            &&& has_part(report, duration_row_spec("Median"@, w.p50))
            &&& has_part(report, duration_row_spec("p95"@, w.p95))
            &&& has_part(report, duration_row_spec("p99"@, w.p99))
            &&& has_part(report, duration_row_spec("Maximum"@, w.max))
        }),
{
    reveal(throughput_table_spec);
    reveal(work_table_spec);
    let f = summary.frame_intervals;
    let w = summary.update_work;
    let no_render = flag(m.norender);
    let rate_label = if no_render { "UPS"@ } else { "FPS"@ };
    let h = "</tbody></table></div><div><h3>Throughput</h3><table><thead><tr><th>Statistic</th><th>Frame time</th><th>"@
        + rate_label + "</th></tr></thead><tbody>"@;
    let r0 = timing_row_spec("Mean"@, f.mean);
    let r1 = timing_row_spec("Median"@, f.p50);
    let r2 = timing_row_spec("p95"@, f.p95);
    let r3 = timing_row_spec("p99"@, f.p99);
    let r4 = timing_row_spec("Maximum"@, f.max);
    let tail = "</tbody></table></div></div>"@;
    let thr = throughput_table_spec(&f, true, rate_label);
    assert(thr == h + r0 + r1 + r2 + r3 + r4 + tail);
    let rows = seq![r0, r1, r2, r3, r4];
    assert forall|k: int| 0 <= k < 5 implies has_part(thr, #[trigger] rows[k]) by {
        if k == 0 {
            assert(thr =~= h + r0 + (r1 + r2 + r3 + r4 + tail));
            lemma_part_between(h, r0, r1 + r2 + r3 + r4 + tail);
        } else if k == 1 {
            assert(thr =~= (h + r0) + r1 + (r2 + r3 + r4 + tail));
            lemma_part_between(h + r0, r1, r2 + r3 + r4 + tail);
        } else if k == 2 {
            assert(thr =~= (h + r0 + r1) + r2 + (r3 + r4 + tail));
            lemma_part_between(h + r0 + r1, r2, r3 + r4 + tail);
        } else if k == 3 {
            assert(thr =~= (h + r0 + r1 + r2) + r3 + (r4 + tail));
            lemma_part_between(h + r0 + r1 + r2, r3, r4 + tail);
        } else {
            assert(thr =~= (h + r0 + r1 + r2 + r3) + r4 + tail);
            lemma_part_between(h + r0 + r1 + r2 + r3, r4, tail);
        }
    }
    let wh = "<h3>Main-world update work</h3><table><thead><tr><th>Statistic</th><th>Duration</th></tr></thead><tbody>"@;
    let d0 = duration_row_spec("Mean"@, w.mean);
    let d1 = duration_row_spec("Median"@, w.p50);
    let d2 = duration_row_spec("p95"@, w.p95);
    let d3 = duration_row_spec("p99"@, w.p99);
    let d4 = duration_row_spec("Maximum"@, w.max);
    let wt = work_table_spec(&w, true);
    assert(wt == wh + d0 + d1 + d2 + d3 + d4);
    let drows = seq![d0, d1, d2, d3, d4];
    let empty = Seq::<char>::empty();
    assert forall|k: int| 0 <= k < 5 implies has_part(wt, #[trigger] drows[k]) by {
        if k == 0 {
            assert(wt =~= wh + d0 + (d1 + d2 + d3 + d4));
            lemma_part_between(wh, d0, d1 + d2 + d3 + d4);
        } else if k == 1 {
            assert(wt =~= (wh + d0) + d1 + (d2 + d3 + d4));
            lemma_part_between(wh + d0, d1, d2 + d3 + d4);
        } else if k == 2 {
            assert(wt =~= (wh + d0 + d1) + d2 + (d3 + d4));
            lemma_part_between(wh + d0 + d1, d2, d3 + d4);
        } else if k == 3 {
            assert(wt =~= (wh + d0 + d1 + d2) + d3 + d4);
            lemma_part_between(wh + d0 + d1 + d2, d3, d4);
        } else {
            assert(wt =~= (wh + d0 + d1 + d2 + d3) + d4 + empty);
            lemma_part_between(wh + d0 + d1 + d2 + d3, d4, empty);
        }
    }
    assert forall|k: int| 0 <= k < 5 implies has_part(
        run_report_spec(m, snapshot, timeline, timing, stdout, stderr, trace_available, Some(true), summary),
        #[trigger] rows[k],
    ) && has_part(
        run_report_spec(m, snapshot, timeline, timing, stdout, stderr, trace_available, Some(true), summary),
        drows[k],
    ) by {
        assert(has_part(thr, rows[k]));
        assert(has_part(wt, drows[k]));
        lemma_throughput_part_in_section(summary, true, timing, trace_available, no_render, rows[k]);
        lemma_work_part_in_section(summary, true, timing, trace_available, no_render, drows[k]);
        lemma_performance_part_in_report(m, snapshot, timeline, timing, stdout, stderr, trace_available, Some(true), summary, rows[k]);
        lemma_performance_part_in_report(m, snapshot, timeline, timing, stdout, stderr, trace_available, Some(true), summary, drows[k]);
    }
    assert(rows[0] == r0 && rows[1] == r1 && rows[2] == r2 && rows[3] == r3 && rows[4] == r4);
    assert(drows[0] == d0 && drows[1] == d1 && drows[2] == d2 && drows[3] == d3 && drows[4] == d4);
}

} // verus!
