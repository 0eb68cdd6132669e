//! The format-listing parser: turns the downloader's human-readable
//! format table into structured records.
//!
//! Everything before the header row (the line holding the `ID`, `EXT`
//! and `RESOLUTION` column markers) is banner text and is discarded.
//! After the header, each line with at least three whitespace-separated
//! tokens becomes a record, unless its first token looks like part of a
//! separator rule.  Classification of a record as video or audio is a
//! heuristic over the line's text and may mark a record as both.

use vstd::prelude::*;
use vstd::string::StrSliceExecFns;
use vstd::string::StringExecFns;
use crate::text::contains_char;
use crate::text::contains_seq;
use crate::text::join_spaces;
use crate::text::lemma_join_spaces_push;
use crate::text::lemma_tokens_word;
use crate::text::lower;
use crate::text::split_lines;
use crate::text::split_on;
use crate::text::split_ws;
use crate::text::str_contains;
use crate::text::str_contains_char;
use crate::text::str_contains_lower;
use crate::text::str_eq;
use crate::text::tokens;
use crate::text::is_space;

verus! {

/// One selectable stream advertised by the external tool.
#[derive(Debug)]
pub struct Format {
    pub id: String,
    pub extension: String,
    pub resolution: String,
    pub description: String,
    pub is_video: bool,
    pub is_audio: bool,
}

/// The mathematical model of a record: its text fields as character
/// sequences.
pub struct FormatModel {
    pub id: Seq<char>,
    pub extension: Seq<char>,
    pub resolution: Seq<char>,
    pub description: Seq<char>,
    pub is_video: bool,
    pub is_audio: bool,
}

impl View for Format {
    type V = FormatModel;

    open spec fn view(&self) -> FormatModel {
        FormatModel {
            id: self.id@,
            extension: self.extension@,
            resolution: self.resolution@,
            description: self.description@,
            is_video: self.is_video,
            is_audio: self.is_audio,
        }
    }
}

impl DeepView for Format {
    type V = FormatModel;

    open spec fn deep_view(&self) -> FormatModel {
        self.view()
    }
}

impl Clone for Format {
    fn clone(&self) -> (r: Self)
        ensures
            r@ == self@,
    {
        Format {
            id: self.id.clone(),
            extension: self.extension.clone(),
            resolution: self.resolution.clone(),
            description: self.description.clone(),
            is_video: self.is_video,
            is_audio: self.is_audio,
        }
    }
}

impl PartialEq for Format {
    fn eq(&self, other: &Self) -> (r: bool) {
        self.id == other.id && self.extension == other.extension && self.resolution
            == other.resolution && self.description == other.description && self.is_video
            == other.is_video && self.is_audio == other.is_audio
    }
}

impl vstd::std_specs::cmp::PartialEqSpecImpl for Format {
    open spec fn obeys_eq_spec() -> bool {
        true
    }

    open spec fn eq_spec(&self, other: &Format) -> bool {
        self@ == other@
    }
}

/// A line that holds all three column markers of the format table's
/// header row.
pub open spec fn is_header_line(line: Seq<char>) -> bool {
    contains_seq(line, "ID"@) && contains_seq(line, "EXT"@) && contains_seq(line, "RESOLUTION"@)
}

/// What one line after the header contributes: a record, or nothing.
///
/// A line with fewer than three tokens cannot be a data row; a first
/// token holding `-` or `=` marks a separator rule that slipped past
/// the blank-line check.  The third token names a resolution when it
/// holds an `x`, otherwise the stream is audio-only; the remaining
/// tokens, joined by single spaces, describe the stream.
pub open spec fn spec_parse_line(line: Seq<char>) -> Option<FormatModel> {
    let ts = tokens(line);
    if ts.len() < 3 {
        None
    } else if contains_char(ts[0], '-') || contains_char(ts[0], '=') {
        None
    } else {
        let resolution = if contains_char(ts[2], 'x') {
            ts[2]
        } else {
            "audio only"@
        };
        Some(
            FormatModel {
                id: ts[0],
                extension: ts[1],
                resolution: resolution,
                description: join_spaces(ts.subrange(3, ts.len() as int)),
                is_video: resolution != "audio only"@ || contains_seq(lower(line), "video only"@)
                    || (contains_seq(line, "mp4"@) && !contains_seq(lower(line), "audio only"@)),
                is_audio: resolution == "audio only"@ || contains_seq(lower(line), "audio only"@)
                    || ts[1] == "m4a"@ || ts[1] == "mp3"@ || ts[1] == "ogg"@ || ts[1] == "opus"@,
            },
        )
    }
}

/// The records contributed by `ls`, scanning in order: a header line
/// turns the table on (and is itself skipped); lines before the first
/// header are ignored; lines after it go through `spec_parse_line`.
pub open spec fn parse_from(ls: Seq<Seq<char>>, in_table: bool) -> Seq<FormatModel>
    decreases ls.len(),
{
    if ls.len() == 0 {
        Seq::<FormatModel>::empty()
    } else if is_header_line(ls[0]) {
        parse_from(ls.drop_first(), true)
    } else if !in_table {
        parse_from(ls.drop_first(), false)
    } else {
        match spec_parse_line(ls[0]) {
            Some(f) => seq![f] + parse_from(ls.drop_first(), true),
            None => parse_from(ls.drop_first(), true),
        }
    }
}

/// The records of a whole raw listing.
pub open spec fn spec_parse_formats(text: Seq<char>) -> Seq<FormatModel> {
    parse_from(split_on(text, '\n'), false)
}

/// Parses one line of the format table.
pub fn parse_line(line: &str) -> (r: Option<Format>)
    ensures
        (match r {
            Some(f) => spec_parse_line(line@) == Some(f@),
            None => spec_parse_line(line@) is None,
        }),
{
    let toks = split_ws(line);
    let ghost ts = tokens(line@);
    proof {
        assert(toks.deep_view() == ts);
    }
    if toks.len() < 3 {
        return None;
    }
    proof {
        assert(ts[0] == toks@[0].deep_view());
        assert(ts[1] == toks@[1].deep_view());
        assert(ts[2] == toks@[2].deep_view());
    }
    if str_contains_char(toks[0].as_str(), '-') || str_contains_char(toks[0].as_str(), '=') {
        return None;
    }
    let resolution = if str_contains_char(toks[2].as_str(), 'x') {
        toks[2].clone()
    } else {
        String::from_str("audio only")
    };
    let mut description = String::new();
    let mut k: usize = 3;
    proof {
        assert(ts.subrange(3, 3) =~= Seq::<Seq<char>>::empty());
    }
    while k < toks.len()
        invariant
            toks.deep_view() == ts,
            3 <= k <= ts.len(),
            description@ == join_spaces(ts.subrange(3, k as int)),
        decreases ts.len() - k,
    {
        proof {
            assert(ts[k as int] == toks@[k as int].deep_view());
        }
        if k > 3 {
            proof {
                reveal_strlit(" ");
                assert(" "@ =~= seq![' ']);
                lemma_join_spaces_push(ts.subrange(3, k as int), ts[k as int]);
                assert(ts.subrange(3, k as int).push(ts[k as int]) =~= ts.subrange(
                    3,
                    k as int + 1,
                ));
            }
            description.append(" ");
            description.append(toks[k].as_str());
        } else {
            proof {
                assert(ts.subrange(3, 4) =~= seq![ts[3]]);
            }
            description.append(toks[k].as_str());
            assert(description@ =~= ts[3]);
        }
        k = k + 1;
    }
    let is_video = !str_eq(resolution.as_str(), "audio only") || str_contains_lower(
        line,
        "video only",
    ) || (str_contains(line, "mp4") && !str_contains_lower(line, "audio only"));
    let is_audio = str_eq(resolution.as_str(), "audio only") || str_contains_lower(
        line,
        "audio only",
    ) || str_eq(toks[1].as_str(), "m4a") || str_eq(toks[1].as_str(), "mp3") || str_eq(
        toks[1].as_str(),
        "ogg",
    ) || str_eq(toks[1].as_str(), "opus");
    Some(
        Format {
            id: toks[0].clone(),
            extension: toks[1].clone(),
            resolution,
            description,
            is_video,
            is_audio,
        },
    )
}

/// Whether `line` is the format table's header row.
pub fn is_header(line: &str) -> (r: bool)
    ensures
        r == is_header_line(line@),
{
    str_contains(line, "ID") && str_contains(line, "EXT") && str_contains(line, "RESOLUTION")
}

/// Parses a raw format listing into its records.
///
/// Never fails: unusable lines are skipped, and an input with no header
/// or no data rows yields an empty vector.
pub fn parse_formats(output: &str) -> (r: Vec<Format>)
    ensures
        r.deep_view() == spec_parse_formats(output@),
{
    let lines = split_lines(output);
    let mut r: Vec<Format> = Vec::new();
    let mut in_table = false;
    let mut i: usize = 0;
    proof {
        assert(lines.deep_view().skip(0) =~= lines.deep_view());
        assert(r.deep_view() + parse_from(lines.deep_view(), false) =~= parse_from(
            lines.deep_view(),
            false,
        ));
    }
    while i < lines.len()
        invariant
            lines.deep_view() == split_on(output@, '\n'),
            0 <= i <= lines@.len(),
            spec_parse_formats(output@) == r.deep_view() + parse_from(
                lines.deep_view().skip(i as int),
                in_table,
            ),
        decreases lines@.len() - i,
    {
        let ghost tail = lines.deep_view().skip(i as int);
        proof {
            assert(tail[0] == lines@[i as int].deep_view());
            assert(tail.drop_first() =~= lines.deep_view().skip(i as int + 1));
        }
        if is_header(lines[i].as_str()) {
            in_table = true;
        } else if in_table {
            match parse_line(lines[i].as_str()) {
                Some(f) => {
                    let ghost old_r = r.deep_view();
                    proof {
                        assert(old_r + (seq![f@] + parse_from(tail.drop_first(), true)) =~= (old_r
                            + seq![f@]) + parse_from(tail.drop_first(), true));
                    }
                    r.push(f);
                    proof {
                        assert(r.deep_view() =~= old_r + seq![r@[r@.len() - 1].deep_view()]);
                    }
                },
                None => {},
            }
        }
        i = i + 1;
    }
    proof {
        assert(lines.deep_view().skip(i as int) =~= Seq::<Seq<char>>::empty());
        assert(r.deep_view() + Seq::<FormatModel>::empty() =~= r.deep_view());
    }
    r
}

/// Header gating: a listing with no line holding all three column
/// markers yields no records at all.
pub proof fn lemma_no_header_no_records(ls: Seq<Seq<char>>)
    requires
        forall|i: int| 0 <= i < ls.len() ==> !is_header_line(#[trigger] ls[i]),
    ensures
        parse_from(ls, false) == Seq::<FormatModel>::empty(),
    decreases ls.len(),
{
    if ls.len() == 0 {
    } else {
        assert(forall|i: int|
            0 <= i < ls.drop_first().len() ==> #[trigger] ls.drop_first()[i] == ls[i + 1]);
        lemma_no_header_no_records(ls.drop_first());
    }
}

/// Header gating over a whole raw text: if no line of it is a header
/// line, parsing yields the empty sequence.
pub proof fn lemma_header_gating(text: Seq<char>)
    requires
        forall|i: int|
            0 <= i < split_on(text, '\n').len() ==> !is_header_line(
                #[trigger] split_on(text, '\n')[i],
            ),
    ensures
        spec_parse_formats(text) == Seq::<FormatModel>::empty(),
{
    lemma_no_header_no_records(split_on(text, '\n'));
}

/// Separator rejection, first half: a line with no whitespace at all
/// (such as a dashed rule) never produces a record.
pub proof fn lemma_unbroken_line_rejected(line: Seq<char>)
    requires
        forall|k: int| 0 <= k < line.len() ==> !is_space(#[trigger] line[k]),
    ensures
        spec_parse_line(line) is None,
{
    if line.len() == 0 {
    } else {
        lemma_tokens_word(line, line.len() as int);
        assert(line.subrange(line.len() as int, line.len() as int) =~= Seq::<char>::empty());
        assert(line.subrange(0, line.len() as int) =~= line);
        assert(tokens(line).len() == 1);
    }
}

/// Separator rejection, second half: a line whose first token holds a
/// `-` or `=` never produces a record.
pub proof fn lemma_separator_token_rejected(line: Seq<char>)
    requires
        tokens(line).len() >= 1,
        contains_char(tokens(line)[0], '-') || contains_char(tokens(line)[0], '='),
    ensures
        spec_parse_line(line) is None,
{
}

/// Parsing is repeatable: two results of parsing the same raw text are
/// the same sequence of records.
pub proof fn lemma_parse_deterministic(
    text: Seq<char>,
    r1: Seq<FormatModel>,
    r2: Seq<FormatModel>,
)
    requires
        r1 == spec_parse_formats(text),
        r2 == spec_parse_formats(text),
    ensures
        r1 == r2,
{
}

} // verus!
