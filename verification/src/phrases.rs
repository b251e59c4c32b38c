//! The user's phrase table: a header of comment lines, then one phrase per
//! line with its code and an optional weight, separated by tabs.

use crate::lines::{
    fields, lines, parse_i64, parsed_i64, rows_of, split_fields, split_lines, trim, trim_end,
    trimmed, trimmed_end,
};
use crate::paths::ConfigPath;
use crate::text::{chars_of, push_chars, signed_decimal, signed_decimal_string, string_of};
use crate::writer::{plan_of, plan_write, WritePlan};
use vstd::prelude::*;

verus! {

/// One phrase of the table.
#[derive(Debug, PartialEq, Eq)]
pub struct PhraseEntry {
    pub phrase: String,
    pub code: String,
    pub weight: Option<i64>,
}

/// The mathematical value of a [`PhraseEntry`].
pub struct PhraseModel {
    pub phrase: Seq<char>,
    pub code: Seq<char>,
    pub weight: Option<i64>,
}

impl View for PhraseEntry {
    type V = PhraseModel;

    open spec fn view(&self) -> PhraseModel {
        PhraseModel { phrase: self.phrase@, code: self.code@, weight: self.weight }
    }
}

/// The phrase table: its header and its phrases.
#[derive(Debug, PartialEq, Eq)]
pub struct PhrasesData {
    pub header: String,
    pub entries: Vec<PhraseEntry>,
}

/// The mathematical value of a [`PhrasesData`].
pub struct PhrasesModel {
    pub header: Seq<char>,
    pub entries: Seq<PhraseModel>,
}

/// The values of a list of phrases.
pub open spec fn entries_model(entries: Seq<PhraseEntry>) -> Seq<PhraseModel> {
    Seq::new(entries.len(), |i: int| entries[i]@)
}

impl View for PhrasesData {
    type V = PhrasesModel;

    open spec fn view(&self) -> PhrasesModel {
        PhrasesModel { header: self.header@, entries: entries_model(self.entries@) }
    }
}

/// The header of a table that has none of its own.
pub open spec fn default_header() -> Seq<char> {
    "# Rime custom phrase\n# encoding: utf-8\n#\n# format: phrase<TAB>code<TAB>weight\n#\n"@
}

/// Whether a line at the top of the table belongs to the header: it begins
/// with `#` or holds blanks alone.
pub open spec fn is_header_line(line: Seq<char>) -> bool {
    (line.len() > 0 && line[0] == '#') || trimmed(line).len() == 0
}

/// The first position at or after `from` whose line is no header line, or
/// the number of lines.
pub open spec fn header_end(rows: Seq<Seq<char>>, from: int) -> int
    decreases rows.len() - from,
{
    if from < 0 || from >= rows.len() {
        rows.len() as int
    } else if !is_header_line(rows[from]) {
        from
    } else {
        header_end(rows, from + 1)
    }
}

/// The first `count` lines, each with a line feed behind it.
pub open spec fn rows_text(rows: Seq<Seq<char>>, count: nat) -> Seq<char>
    decreases count,
{
    if count == 0 || count > rows.len() {
        Seq::empty()
    } else {
        rows_text(rows, (count - 1) as nat) + rows[count - 1] + seq!['\n']
    }
}

/// The phrase that a line holds. The line is taken without the blanks at
/// its ends; an empty line and a comment hold none. The rest is split at
/// tabs and needs a phrase and a code; the third field, if it is there and
/// not empty, is the weight where it writes an integer.
pub open spec fn entry_of(line: Seq<char>) -> Option<PhraseModel> {
    let text = trimmed(line);
    let parts = fields(text, '\t');
    if text.len() == 0 || text[0] == '#' || parts.len() < 2 {
        None
    } else {
        Some(
            PhraseModel {
                phrase: parts[0],
                code: parts[1],
                weight: if parts.len() >= 3 && parts[2].len() > 0 {
                    parsed_i64(parts[2])
                } else {
                    None
                },
            },
        )
    }
}

/// The phrases that the lines `rows[from..to]` hold, in order.
pub open spec fn entries_between(rows: Seq<Seq<char>>, from: int, to: int) -> Seq<PhraseModel>
    decreases to - from,
{
    if to <= from || from < 0 || to > rows.len() {
        Seq::empty()
    } else {
        let init = entries_between(rows, from, to - 1);
        match entry_of(rows[to - 1]) {
            Some(entry) => init.push(entry),
            None => init,
        }
    }
}

/// The table that a text holds. The header is the run of header lines at
/// the top, each with a line feed behind it, or the default header where
/// the text begins with none; the phrases are those of the lines below.
pub open spec fn phrases_of(content: Seq<char>) -> PhrasesModel {
    let rows = lines(content);
    let top = header_end(rows, 0);
    PhrasesModel {
        header: if top == 0 {
            default_header()
        } else {
            rows_text(rows, top as nat)
        },
        entries: entries_between(rows, top, rows.len() as int),
    }
}

/// The table that is read where there is no file: the default header and
/// no phrase.
pub open spec fn no_phrases() -> PhrasesModel {
    PhrasesModel { header: default_header(), entries: Seq::empty() }
}

fn is_header(line: &Vec<char>) -> (yes: bool)
    ensures
        yes == is_header_line(line@),
{
    if line.len() > 0 && line[0] == '#' {
        return true;
    }
    trim(line).len() == 0
}

/// The phrase that the line `line` holds, if it holds one.
pub fn entry_from(line: &Vec<char>) -> (entry: Option<PhraseEntry>)
    ensures
        match entry {
            Some(e) => entry_of(line@) == Some(e@),
            None => entry_of(line@) is None,
        },
{
    let text = trim(line);
    if text.len() == 0 || text[0] == '#' {
        return None;
    }
    let parts = split_fields(&text, '\t');
    assert(rows_of(parts@).len() == parts@.len());
    if parts.len() < 2 {
        return None;
    }
    assert(rows_of(parts@)[0] == parts@[0]@);
    assert(rows_of(parts@)[1] == parts@[1]@);
    let weight = if parts.len() >= 3 && parts[2].len() > 0 {
        assert(rows_of(parts@)[2] == parts@[2]@);
        parse_i64(&parts[2])
    } else {
        None
    };
    Some(PhraseEntry { phrase: string_of(&parts[0]), code: string_of(&parts[1]), weight })
}

/// The default header.
pub fn default_header_string() -> (header: String)
    ensures
        header@ == default_header(),
{
    String::from_str(
        "# Rime custom phrase\n# encoding: utf-8\n#\n# format: phrase<TAB>code<TAB>weight\n#\n",
    )
}

/// Reads the phrase table from the text of its file.
pub fn parse_custom_phrases(content: &str) -> (data: PhrasesData)
    ensures
        data@ == phrases_of(content@),
{
    let chars = chars_of(content);
    let rows = split_lines(&chars);
    let ghost model = rows_of(rows@);
    let mut top: usize = 0;
    while top < rows.len() && is_header(&rows[top])
        invariant
            top <= rows.len(),
            model == rows_of(rows@),
            header_end(model, 0) == header_end(model, top as int),
        decreases rows.len() - top,
    {
        assert(model[top as int] == rows@[top as int]@);
        top += 1;
    }
    proof {
        if top < rows.len() {
            assert(model[top as int] == rows@[top as int]@);
        }
        assert(header_end(model, 0) == top);
    }
    let header = if top == 0 {
        default_header_string()
    } else {
        let mut header = String::new();
        let mut i: usize = 0;
        assert(header@ =~= rows_text(model, 0));
        while i < top
            invariant
                i <= top <= rows.len(),
                model == rows_of(rows@),
                header@ == rows_text(model, i as nat),
            decreases top - i,
        {
            assert(model[i as int] == rows@[i as int]@);
            push_chars(&mut header, &rows[i]);
            header.push('\n');
            assert(header@ =~= rows_text(model, (i + 1) as nat));
            i += 1;
        }
        header
    };
    let mut entries: Vec<PhraseEntry> = Vec::new();
    let mut i: usize = top;
    assert(entries_model(entries@) =~= entries_between(model, top as int, top as int));
    while i < rows.len()
        invariant
            top <= i <= rows.len(),
            model == rows_of(rows@),
            entries_model(entries@) == entries_between(model, top as int, i as int),
        decreases rows.len() - i,
    {
        let ghost before = entries_model(entries@);
        assert(model[i as int] == rows@[i as int]@);
        match entry_from(&rows[i]) {
            Some(entry) => {
                entries.push(entry);
                assert(entries_model(entries@) =~= before.push(entry@));
            },
            None => {},
        }
        i += 1;
    }
    PhrasesData { header, entries }
}

/// Reads the phrase table from the text of its file; `None` stands for a
/// file that is missing or cannot be read, and gives the default header
/// and no phrase.
pub fn read_phrases(content: Option<&str>) -> (data: PhrasesData)
    ensures
        data@ == match content {
            Some(text) => phrases_of(text@),
            None => no_phrases(),
        },
{
    match content {
        Some(text) => parse_custom_phrases(text),
        None => {
            let entries: Vec<PhraseEntry> = Vec::new();
            assert(entries_model(entries@) =~= Seq::empty());
            PhrasesData { header: default_header_string(), entries }
        },
    }
}

/// The line that a phrase is written as: phrase, tab, code and, where it
/// has a weight, a tab and the weight in decimal.
pub open spec fn entry_line(entry: PhraseModel) -> Seq<char> {
    entry.phrase + seq!['\t'] + entry.code + match entry.weight {
        Some(weight) => seq!['\t'] + signed_decimal(weight as int),
        None => Seq::empty(),
    }
}

/// The lines of the first `count` phrases, each with a line feed behind
/// it.
pub open spec fn entries_text(entries: Seq<PhraseModel>, count: nat) -> Seq<char>
    decreases count,
{
    if count == 0 || count > entries.len() {
        Seq::empty()
    } else {
        entries_text(entries, (count - 1) as nat) + entry_line(entries[count - 1]) + seq!['\n']
    }
}

/// The text of a phrase table: the header without the blanks at its end,
/// a line feed, and the phrases line by line.
pub open spec fn phrases_text(header: Seq<char>, entries: Seq<PhraseModel>) -> Seq<char> {
    trimmed_end(header) + seq!['\n'] + entries_text(entries, entries.len())
}

/// The text of the phrase table with the header `header` and the phrases
/// `entries`.
pub fn serialize_phrases(header: &str, entries: &Vec<PhraseEntry>) -> (text: String)
    ensures
        text@ == phrases_text(header@, entries_model(entries@)),
{
    let ghost model = entries_model(entries@);
    let head = trim_end(&chars_of(header));
    let mut text = string_of(&head);
    text.push('\n');
    let ghost lead = text@;
    let mut i: usize = 0;
    assert(text@ =~= lead + entries_text(model, 0));
    while i < entries.len()
        invariant
            i <= entries.len(),
            model == entries_model(entries@),
            text@ == lead + entries_text(model, i as nat),
        decreases entries.len() - i,
    {
        let entry = &entries[i];
        assert(model[i as int] == entry@);
        let ghost before = text@;
        text.append(entry.phrase.as_str());
        text.push('\t');
        text.append(entry.code.as_str());
        match entry.weight {
            Some(weight) => {
                text.push('\t');
                text.append(signed_decimal_string(weight).as_str());
            },
            None => {},
        }
        text.push('\n');
        assert(text@ =~= before + entry_line(entry@) + seq!['\n']);
        assert(text@ =~= lead + entries_text(model, (i + 1) as nat));
        i += 1;
    }
    text
}

/// The name of the phrase table's file.
pub const PHRASES_FILE: &'static str = "custom_phrase.txt";

/// The plan to save the phrase table in the configuration root `root`, at
/// the time `millis` in milliseconds since the epoch.
pub fn write_phrases(root: &ConfigPath, header: &str, entries: &Vec<PhraseEntry>, millis: u128) -> (plan:
    WritePlan)
    ensures
        plan@ == plan_of(
            root@,
            PHRASES_FILE@,
            phrases_text(header@, entries_model(entries@)),
            millis as nat,
        ),
{
    plan_write(root, PHRASES_FILE, serialize_phrases(header, entries), millis)
}

} // verus!
