//! Markdown markup primitives: plain string templates for inline styles,
//! headings, lists, fenced blocks, call-outs and tables. Every function
//! states its exact output over the views of its inputs.
use vstd::prelude::*;

use crate::text::after_comma;
use crate::text::char_is_space;
use crate::text::count_leading;
use crate::text::count_leading_spaces;
use crate::text::dec_digits;
use crate::text::is_md_space;
use crate::text::leading_count;
use crate::text::leading_spaces;
use crate::text::lowercase_of;
use crate::text::repeat_seq;
use crate::text::repeat_str;
use crate::text::replace_newlines;
use crate::text::replace_nl;
use crate::text::split_after_comma;
use crate::text::starts_with;
use crate::text::str_starts_with;
use crate::text::to_lowercase;
use crate::text::trim;
use crate::text::trim_back;
use crate::text::trim_end;
use crate::text::trim_spec;
use crate::text::usize_to_string;

verus! {

/// Wrap text with back-ticks - `inline code`.
pub fn inline_code(text: &str) -> (r: String)
    ensures
        r@ == "`"@ + text@ + "`"@,
{
    let mut r = String::from_str("`");
    r.append(text);
    r.append("`");
    r
}

/// Wrap an inline equation with single `$` delimiters.
pub fn inline_equation(text: &str) -> (r: String)
    ensures
        r@ == "$"@ + text@ + "$"@,
{
    let mut r = String::from_str("$");
    r.append(text);
    r.append("$");
    r
}

/// Bold - `**text**`.
pub fn bold(text: &str) -> (r: String)
    ensures
        r@ == "**"@ + text@ + "**"@,
{
    let mut r = String::from_str("**");
    r.append(text);
    r.append("**");
    r
}

/// Italic - `_text_`.
pub fn italic(text: &str) -> (r: String)
    ensures
        r@ == "_"@ + text@ + "_"@,
{
    let mut r = String::from_str("_");
    r.append(text);
    r.append("_");
    r
}

/// Strikethrough - `~~text~~`.
pub fn strikethrough(text: &str) -> (r: String)
    ensures
        r@ == "~~"@ + text@ + "~~"@,
{
    let mut r = String::from_str("~~");
    r.append(text);
    r.append("~~");
    r
}

/// Underline using an inline HTML `<u>` tag.
pub fn underline(text: &str) -> (r: String)
    ensures
        r@ == "<u>"@ + text@ + "</u>"@,
{
    let mut r = String::from_str("<u>");
    r.append(text);
    r.append("</u>");
    r
}

/// Hyperlink - `[text](href)`.
pub fn link(text: &str, href: &str) -> (r: String)
    ensures
        r@ == "["@ + text@ + "]("@ + href@ + ")"@,
{
    let mut r = String::from_str("[");
    r.append(text);
    r.append("](");
    r.append(href);
    r.append(")");
    r
}

/// The language tag a fenced code block carries: the given language trimmed,
/// the fixed tag `plaintext` when none or blank is given, lower-cased.
pub open spec fn code_lang(language: Option<Seq<char>>) -> Seq<char> {
    lowercase_of(
        if language is Some && trim_spec(language->0).len() > 0 {
            trim_spec(language->0)
        } else {
            "plaintext"@
        },
    )
}

/// Fenced code block with an optional language identifier.
pub fn code_block(text: &str, language: Option<&str>) -> (r: String)
    ensures
        r@ == "```"@ + code_lang(
            match language {
                Option::Some(l) => Option::Some(l@),
                Option::None => Option::None,
            },
        ) + "\n"@ + trim_spec(text@) + "\n```"@,
{
    let chosen = match language {
        Option::Some(l) => {
            let t = trim(l);
            if t.unicode_len() > 0 {
                t
            } else {
                "plaintext"
            }
        },
        Option::None => "plaintext",
    };
    let lang = to_lowercase(chosen);
    let mut r = String::from_str("```");
    r.append(lang.as_str());
    r.append("\n");
    r.append(trim(text));
    r.append("\n```");
    r
}

/// Display equation block (double-dollar fenced).
pub fn equation(text: &str) -> (r: String)
    ensures
        r@ == "$$\n"@ + trim_spec(text@) + "\n$$"@,
{
    let mut r = String::from_str("$$\n");
    r.append(trim(text));
    r.append("\n$$");
    r
}

/// Heading of level one - `# text`.
pub fn heading1(text: &str) -> (r: String)
    ensures
        r@ == "# "@ + text@,
{
    let mut r = String::from_str("# ");
    r.append(text);
    r
}

/// Heading of level two - `## text`.
pub fn heading2(text: &str) -> (r: String)
    ensures
        r@ == "## "@ + text@,
{
    let mut r = String::from_str("## ");
    r.append(text);
    r
}

/// Heading of level three - `### text`.
pub fn heading3(text: &str) -> (r: String)
    ensures
        r@ == "### "@ + text@,
{
    let mut r = String::from_str("### ");
    r.append(text);
    r
}

/// Blockquote marker for one line - `> text`.
pub fn quote(text: &str) -> (r: String)
    ensures
        r@ == "> "@ + text@,
{
    let mut r = String::from_str("> ");
    r.append(text);
    r
}

/// Unordered / ordered list item: the text trimmed behind `- ` or `{n}. `.
pub fn bullet(text: &str, count: Option<usize>) -> (r: String)
    ensures
        r@ == match count {
            Option::Some(n) => dec_digits(n as nat) + ". "@ + trim_spec(text@),
            Option::None => "- "@ + trim_spec(text@),
        },
{
    match count {
        Option::Some(n) => {
            let mut r = usize_to_string(n);
            r.append(". ");
            r.append(trim(text));
            r
        },
        Option::None => {
            let mut r = String::from_str("- ");
            r.append(trim(text));
            r
        },
    }
}

/// Task-list item - `- [x] text` or `- [ ] text`.
pub fn todo(text: &str, checked: bool) -> (r: String)
    ensures
        checked ==> r@ == "- [x] "@ + text@,
        !checked ==> r@ == "- [ ] "@ + text@,
{
    let mut r = if checked {
        String::from_str("- [x] ")
    } else {
        String::from_str("- [ ] ")
    };
    r.append(text);
    r
}

/// Horizontal rule.
pub fn divider() -> (r: &'static str)
    ensures
        r@ == "---"@,
{
    "---"
}

/// Details/summary toggle markup: the children alone when no summary is
/// given, else both wrapped in a `<details>` element.
pub open spec fn toggle_spec(summary: Option<Seq<char>>, children: Option<Seq<char>>) -> Seq<
    char,
> {
    match summary {
        Option::Some(s) => "<details>\n<summary>"@ + s + "</summary>\n"@ + (match children {
            Option::Some(c) => c,
            Option::None => Seq::empty(),
        }) + "\n</details>\n\n"@,
        Option::None => match children {
            Option::Some(c) => c,
            Option::None => Seq::empty(),
        },
    }
}

/// Details/summary toggle block.
pub fn toggle(summary: Option<&str>, children: Option<&str>) -> (r: String)
    ensures
        r@ == toggle_spec(
            match summary {
                Option::Some(s) => Option::Some(s@),
                Option::None => Option::None,
            },
            match children {
                Option::Some(c) => Option::Some(c@),
                Option::None => Option::None,
            },
        ),
{
    match (summary, children) {
        (Option::None, Option::None) => String::new(),
        (Option::None, Option::Some(c)) => c.to_owned(),
        (Option::Some(s), content) => {
            let mut r = String::from_str("<details>\n<summary>");
            r.append(s);
            r.append("</summary>\n");
            match content {
                Option::Some(c) => r.append(c),
                Option::None => (),
            }
            r.append("\n</details>\n\n");
            r
        },
    }
}

/// Representation of a call-out icon.
#[derive(Debug, Clone)]
pub enum CalloutIcon {
    Emoji(String),
}

/// The text a call-out starts from: every newline replaced by a quoted
/// continuation line.
pub open spec fn callout_formatted(text: Seq<char>) -> Seq<char> {
    replace_nl(text, "  \n> "@)
}

/// Whether the formatted call-out text opens with a Markdown heading: one to
/// six hash marks, at least one whitespace character, and some content after
/// the whitespace run (the run's last character counts as content when the
/// run reaches the end and is at least two long).
pub open spec fn callout_heading(f: Seq<char>) -> bool {
    let l = leading_count(f, '#');
    let w = leading_spaces(f.skip(l as int));
    1 <= l <= 6 && l < f.len() && is_md_space(f[l as int]) && (l + w < f.len() || w >= 2)
}

/// Where the heading content starts inside the formatted call-out text.
pub open spec fn callout_content_start(f: Seq<char>) -> int {
    let l = leading_count(f, '#');
    let w = leading_spaces(f.skip(l as int));
    if l + w < f.len() {
        l + w as int
    } else {
        l + w - 1
    }
}

/// The emoji prefix of a call-out: the emoji and a space, or nothing.
pub open spec fn callout_prefix(icon: Option<CalloutIcon>) -> Seq<char> {
    match icon {
        Option::Some(CalloutIcon::Emoji(e)) => e@ + " "@,
        Option::None => Seq::empty(),
    }
}

/// The full call-out markup: a quoted line, with a heading re-emitted after
/// the quote marker so its level is preserved.
pub open spec fn callout_spec(text: Seq<char>, icon: Option<CalloutIcon>) -> Seq<char> {
    let emoji_prefix = callout_prefix(icon);
    let f = callout_formatted(text);
    if callout_heading(f) {
        let l = leading_count(f, '#');
        let sep: Seq<char> = if emoji_prefix.len() == 0 {
            Seq::empty()
        } else {
            " "@
        };
        trim_back("> "@ + f.take(l as int) + sep + " "@ + trim_back(emoji_prefix)) + f.skip(
            callout_content_start(f),
        )
    } else {
        "> "@ + emoji_prefix + f
    }
}

/// Call-out block replicating the quoted `> ` markup, with an optional emoji
/// prefix and heading-level preservation, exactly as [`callout_spec`]
/// describes.
pub fn callout(text: &str, icon: Option<CalloutIcon>) -> (r: String)
    ensures
        r@ == callout_spec(text@, icon),
{
    let emoji_prefix = match &icon {
        Option::Some(CalloutIcon::Emoji(e)) => {
            let mut p = e.clone();
            p.append(" ");
            p
        },
        Option::None => String::new(),
    };
    proof {
        assert(emoji_prefix@ =~= callout_prefix(icon));
    }
    let formatted = replace_newlines(text, "  \n> ");
    let f = formatted.as_str();
    let n = f.unicode_len();
    let l = count_leading(f, '#');
    proof {
        lemma_callout_counts(f@);
    }
    let w = count_leading_spaces(f, l);
    let heading = 1 <= l && l <= 6 && l < n && char_is_space(f.get_char(l)) && (l + w < n || w
        >= 2);
    if heading {
        let mut head = String::from_str("> ");
        head.append(f.substring_char(0, l));
        if emoji_prefix.unicode_len() > 0 {
            head.append(" ");
        }
        head.append(" ");
        head.append(trim_end(emoji_prefix.as_str()));
        let start = if l + w < n {
            l + w
        } else {
            l + w - 1
        };
        let mut r = trim_end(head.as_str()).to_owned();
        r.append(f.substring_char(start, n));
        proof {
            assert(f@.take(l as int) =~= f@.subrange(0, l as int));
            if emoji_prefix@.len() == 0 {
                assert(head@ =~= "> "@ + f@.take(l as int) + Seq::<char>::empty() + " "@
                    + trim_back(emoji_prefix@));
            }
            assert(f@.skip(callout_content_start(f@)) =~= f@.subrange(start as int, n as int));
        }
        r
    } else {
        let mut r = String::from_str("> ");
        r.append(emoji_prefix.as_str());
        r.append(f);
        r
    }
}

proof fn lemma_callout_counts(f: Seq<char>)
    ensures
        leading_count(f, '#') <= f.len(),
        leading_count(f, '#') + leading_spaces(f.skip(leading_count(f, '#') as int)) <= f.len(),
{
    crate::text::lemma_leading_count(f, '#');
    crate::text::lemma_leading_spaces(f.skip(leading_count(f, '#') as int));
}

/// Tab-level indentation: `n` four-space tabs at the front and after every
/// newline.
pub open spec fn tabbed(text: Seq<char>, n: nat) -> Seq<char> {
    if n == 0 {
        text
    } else {
        let p = repeat_seq("    "@, n);
        p + replace_nl(text, "\n"@ + p)
    }
}

/// Helper for inserting tab-level indentation (four-space "tabs"), exactly
/// as [`tabbed`] describes.
pub fn add_tab_space(text: &str, n: usize) -> (r: String)
    ensures
        r@ == tabbed(text@, n as nat),
{
    if n == 0 {
        return text.to_owned();
    }
    let p = repeat_str("    ", n);
    let mut sep = String::from_str("\n");
    sep.append(p.as_str());
    let mut r = p;
    let body = replace_newlines(text, sep.as_str());
    r.append(body.as_str());
    r
}

/// The width of column `i`: the longest cell of that column over all rows.
pub open spec fn col_width(rows: Seq<Seq<Seq<char>>>, i: int) -> nat
    decreases rows.len(),
{
    if rows.len() == 0 {
        0
    } else {
        let rest = col_width(rows.drop_last(), i);
        if i < rows.last().len() && rows.last()[i].len() > rest {
            rows.last()[i].len()
        } else {
            rest
        }
    }
}

/// One cell of a formatted row: the cell text padded with spaces to the
/// column width, a space on both sides, and the closing column separator.
pub open spec fn padded_cell(cell: Seq<char>, w: nat) -> Seq<char> {
    " "@ + cell + repeat_seq(" "@, (w - cell.len()) as nat) + " |"@
}

/// The first `k` cells of a formatted row, each padded to its column width.
pub open spec fn row_cells(row: Seq<Seq<char>>, rows: Seq<Seq<Seq<char>>>, k: int) -> Seq<char>
    decreases k,
{
    if k <= 0 {
        Seq::empty()
    } else {
        row_cells(row, rows, k - 1) + padded_cell(row[k - 1], col_width(rows, k - 1))
    }
}

/// A full formatted table row.
pub open spec fn fmt_row(row: Seq<Seq<char>>, rows: Seq<Seq<Seq<char>>>) -> Seq<char> {
    "|"@ + row_cells(row, rows, row.len() as int)
}

/// The first `k` cells of the separator row under the header.
pub open spec fn sep_cells(rows: Seq<Seq<Seq<char>>>, k: int) -> Seq<char>
    decreases k,
{
    if k <= 0 {
        Seq::empty()
    } else {
        sep_cells(rows, k - 1) + (" "@ + repeat_seq("-"@, col_width(rows, k - 1)) + " |"@)
    }
}

/// The rows of the formatted table: header, separator, then the data rows.
pub open spec fn table_lines(rows: Seq<Seq<Seq<char>>>, k: int) -> Seq<Seq<char>>
    decreases k,
{
    if k <= 1 {
        seq![fmt_row(rows[0], rows), "|"@ + sep_cells(rows, rows[0].len() as int)]
    } else {
        table_lines(rows, k - 1).push(fmt_row(rows[k - 1], rows))
    }
}

/// The whole formatted table: its rows joined by newlines.
pub open spec fn table_spec(rows: Seq<Seq<Seq<char>>>) -> Seq<char> {
    crate::text::join_with(table_lines(rows, rows.len() as int), "\n"@)
}

proof fn lemma_col_width_ge(rows: Seq<Seq<Seq<char>>>, r: int, i: int)
    requires
        0 <= r < rows.len(),
        0 <= i < rows[r].len(),
    ensures
        rows[r][i].len() <= col_width(rows, i),
    decreases rows.len(),
{
    if r == rows.len() - 1 {
        assert(rows.last() == rows[r]);
    } else {
        lemma_col_width_ge(rows.drop_last(), r, i);
        assert(rows.drop_last()[r] == rows[r]);
    }
}

/// Builds one table row from its cells and the column widths.
fn build_row(row: &Vec<String>, widths: &Vec<usize>, rows: Ghost<Seq<Seq<Seq<char>>>>) -> (r:
    String)
    requires
        row@.len() <= widths@.len(),
        forall|i: int| 0 <= i < widths@.len() ==> widths@[i] == col_width(rows@, i),
        forall|i: int|
            0 <= i < row@.len() ==> row@.map_values(|c: String| c@)[i].len() <= widths@[i],
    ensures
        r@ == fmt_row(row@.map_values(|c: String| c@), rows@),
{
    let ghost model = row@.map_values(|c: String| c@);
    let mut r = String::from_str("|");
    let mut i: usize = 0;
    while i < row.len()
        invariant
            0 <= i <= row@.len() <= widths@.len(),
            model == row@.map_values(|c: String| c@),
            forall|j: int| 0 <= j < widths@.len() ==> widths@[j] == col_width(rows@, j),
            forall|j: int| 0 <= j < row@.len() ==> model[j].len() <= widths@[j],
            r@ == "|"@ + row_cells(model, rows@, i as int),
        decreases row@.len() - i,
    {
        let cell = &row[i];
        r.append(" ");
        r.append(cell.as_str());
        let pad = repeat_str(" ", widths[i] - cell.unicode_len());
        r.append(pad.as_str());
        r.append(" |");
        i = i + 1;
    }
    r
}

/// Simple Markdown table generator. Pads each column to the width of the
/// longest cell of that column; the first row is the header. No row may be
/// wider than the header.
pub fn table(rows: &Vec<Vec<String>>) -> (r: String)
    requires
        rows@.len() > 0,
        forall|k: int|
            0 <= k < rows@.len() ==> #[trigger] rows@[k]@.len() <= rows@[0]@.len(),
    ensures
        r@ == table_spec(rows@.map_values(|row: Vec<String>| row@.map_values(|c: String| c@))),
{
    let ghost model = rows@.map_values(|row: Vec<String>| row@.map_values(|c: String| c@));
    let cols = rows[0].len();
    let mut widths: Vec<usize> = Vec::new();
    let mut i: usize = 0;
    while i < cols
        invariant
            0 <= i <= cols,
            widths@.len() == i,
            forall|j: int| 0 <= j < i ==> widths@[j] == 0,
        decreases cols - i,
    {
        widths.push(0);
        i = i + 1;
    }
    proof {
        assert(model.take(0) =~= Seq::<Seq<Seq<char>>>::empty());
    }
    let mut rix: usize = 0;
    while rix < rows.len()
        invariant
            0 <= rix <= rows@.len(),
            model == rows@.map_values(|row: Vec<String>| row@.map_values(|c: String| c@)),
            model.len() == rows@.len(),
            forall|k: int| 0 <= k < model.len() ==> model[k].len() == rows@[k]@.len(),
            widths@.len() == cols == rows@[0]@.len(),
            forall|k: int| 0 <= k < rows@.len() ==> #[trigger] rows@[k]@.len() <= cols,
            forall|j: int|
                0 <= j < cols ==> widths@[j] == col_width(model.take(rix as int), j),
        decreases rows@.len() - rix,
    {
        let row = &rows[rix];
        let mut cix: usize = 0;
        while cix < row.len()
            invariant
                0 <= cix <= row@.len(),
                row@ == rows@[rix as int]@,
                0 <= rix < rows@.len(),
                model == rows@.map_values(|row: Vec<String>| row@.map_values(|c: String| c@)),
                model.len() == rows@.len(),
                widths@.len() == cols == rows@[0]@.len(),
                row@.len() <= cols,
                forall|j: int|
                    cix <= j < cols ==> widths@[j] == col_width(model.take(rix as int), j),
                forall|j: int|
                    0 <= j < cix ==> widths@[j] == (if model[rix as int][j].len() > col_width(
                        model.take(rix as int),
                        j,
                    ) {
                        model[rix as int][j].len()
                    } else {
                        col_width(model.take(rix as int), j)
                    }),
            decreases row@.len() - cix,
        {
            let cl = row[cix].unicode_len();
            proof {
                assert(model[rix as int][cix as int] == row@[cix as int]@);
            }
            if cl > widths[cix] {
                widths.set(cix, cl);
            }
            cix = cix + 1;
        }
        proof {
            assert(model.take(rix + 1).drop_last() =~= model.take(rix as int));
            assert(model.take(rix + 1).last() == model[rix as int]);
            assert forall|j: int| 0 <= j < cols implies widths@[j] == col_width(
                model.take(rix + 1),
                j,
            ) by {
                if j < model[rix as int].len() {
                } else {
                }
            }
        }
        rix = rix + 1;
    }
    proof {
        assert(model.take(model.len() as int) =~= model);
    }
    let mut lines: Vec<String> = Vec::new();
    proof {
        assert forall|i2: int, j: int|
            0 <= i2 < model.len() && 0 <= j < model[i2].len() implies #[trigger] model[i2][j].len()
            <= col_width(model, j) by {
            lemma_col_width_ge(model, i2, j);
        }
    }
    proof {
        assert(model[0] == rows@[0]@.map_values(|c: String| c@));
        assert forall|i2: int| 0 <= i2 < rows@[0]@.len() implies rows@[0]@.map_values(
            |c: String| c@,
        )[i2].len() <= widths@[i2] by {
            assert(model[0][i2].len() <= col_width(model, i2));
        }
    }
    let header = build_row(&rows[0], &widths, Ghost(model));
    lines.push(header);
    let mut sep = String::from_str("|");
    let mut i: usize = 0;
    while i < cols
        invariant
            0 <= i <= cols == rows@[0]@.len(),
            widths@.len() == cols,
            forall|j: int| 0 <= j < cols ==> widths@[j] == col_width(model, j),
            sep@ == "|"@ + sep_cells(model, i as int),
        decreases cols - i,
    {
        sep.append(" ");
        let dashes = repeat_str("-", widths[i]);
        sep.append(dashes.as_str());
        sep.append(" |");
        i = i + 1;
    }
    lines.push(sep);
    proof {
        assert(lines@.map_values(|l: String| l@) =~= table_lines(model, 1));
    }
    let mut rix: usize = 1;
    while rix < rows.len()
        invariant
            1 <= rix <= rows@.len(),
            model == rows@.map_values(|row: Vec<String>| row@.map_values(|c: String| c@)),
            model.len() == rows@.len(),
            widths@.len() == cols == rows@[0]@.len(),
            forall|k: int| 0 <= k < rows@.len() ==> #[trigger] rows@[k]@.len() <= cols,
            forall|j: int| 0 <= j < cols ==> widths@[j] == col_width(model, j),
            forall|i2: int, j: int|
                0 <= i2 < model.len() && 0 <= j < model[i2].len() ==> #[trigger] model[i2][j].len()
                    <= col_width(model, j),
            lines@.map_values(|l: String| l@) == table_lines(model, rix as int),
        decreases rows@.len() - rix,
    {
        proof {
            assert(model[rix as int] == rows@[rix as int]@.map_values(|c: String| c@));
            assert forall|i2: int| 0 <= i2 < rows@[rix as int]@.len() implies rows@[
                rix as int
            ]@.map_values(|c: String| c@)[i2].len() <= widths@[i2] by {
                assert(model[rix as int][i2].len() <= col_width(model, i2));
            }
        }
        let line = build_row(&rows[rix], &widths, Ghost(model));
        proof {
            assert(lines@.push(line).map_values(|l: String| l@) =~= lines@.map_values(
                |l: String| l@,
            ).push(line@));
        }
        lines.push(line);
        rix = rix + 1;
    }
    crate::text::join(&lines, "\n")
}

/// Names the padded standard-alphabet base64 rendering of a byte sequence.
pub uninterp spec fn base64_of(b: Seq<u8>) -> Seq<char>;

/// Relies on base64's `Engine::encode` with the `general_purpose::STANDARD`
/// engine: the padded standard-alphabet encoding, four output characters for
/// every three input bytes; the result depends on the bytes alone.
#[verifier::external_body]
fn encode_base64(b: &Vec<u8>) -> (r: String)
    requires
        4 * ((b@.len() + 2) / 3) <= usize::MAX,
    ensures
        r@ == base64_of(b@),
        r@.len() == 4 * ((b@.len() + 2) / 3),
{
    base64::Engine::encode(&base64::engine::general_purpose::STANDARD, b.as_slice())
}

/// The Markdown an image reference turns into without a download: a plain
/// image link, a `data:` URI normalised to a PNG payload, or nothing when
/// the reference asks for an embedding that requires the remote bytes.
pub open spec fn image_md(alt: Seq<char>, href: Seq<char>, convert_to_base64: bool) -> Option<
    Seq<char>,
> {
    if starts_with(href, "data:"@) {
        Option::Some("!["@ + alt + "](data:image/png;base64,"@ + after_comma(href) + ")"@)
    } else if !convert_to_base64 {
        Option::Some("!["@ + alt + "]("@ + href + ")"@)
    } else {
        Option::None
    }
}

/// Converts an image reference to Markdown where no download is needed,
/// exactly as [`image_md`] describes. `None` asks the caller to fetch the
/// bytes and use [`image_embedded`].
pub fn image(alt: &str, href: &str, convert_to_base64: bool) -> (r: Option<String>)
    ensures
        (r is Some) == (image_md(alt@, href@, convert_to_base64) is Some),
        r is Some ==> r->0@ == image_md(alt@, href@, convert_to_base64)->0,
{
    if str_starts_with(href, "data:") {
        let mut s = String::from_str("![");
        s.append(alt);
        s.append("](data:image/png;base64,");
        let payload = split_after_comma(href);
        s.append(payload.as_str());
        s.append(")");
        Option::Some(s)
    } else if !convert_to_base64 {
        let mut s = String::from_str("![");
        s.append(alt);
        s.append("](");
        s.append(href);
        s.append(")");
        Option::Some(s)
    } else {
        Option::None
    }
}

/// Embeds already-downloaded image bytes as a base64 `data:` URI.
pub fn image_embedded(alt: &str, bytes: &Vec<u8>) -> (r: String)
    requires
        4 * ((bytes@.len() + 2) / 3) <= usize::MAX,
    ensures
        r@ == "!["@ + alt@ + "](data:image/png;base64,"@ + base64_of(bytes@) + ")"@,
{
    let mut s = String::from_str("![");
    s.append(alt);
    s.append("](data:image/png;base64,");
    let encoded = encode_base64(bytes);
    s.append(encoded.as_str());
    s.append(")");
    s
}

} // verus!
