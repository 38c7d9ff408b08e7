//! Charts: bar lines, one on each line of the text, and the two operations
//! on the text of a chart.

use crate::bar_line::{bar_line_text, parse_bar_line, transposed_bar_line, BarLine};
use crate::canonical::lemma_validated_text_is_fixed;
use crate::chord::{transposed_chord, ChordView};
use crate::error::{result_is, Error, ErrorView};
use crate::note::{parse_note_text, Note};
use crate::text::{
    chars_of, join, join_strings, lemma_parse_each_fails, lemma_parse_each_step, parse_each,
    slices_view, split, split_at_each, strings_view,
};
use crate::transpose::{Scale, Transpose};
use vstd::prelude::*;

verus! {

/// The bar lines of a chart, one for each line of its text, in order.
#[derive(Debug)]
pub struct Chart(Vec<BarLine>);

/// What each bar line of a sequence holds.
pub open spec fn lines_view(lines: Seq<BarLine>) -> Seq<Seq<Seq<ChordView>>> {
    lines.map_values(|line: BarLine| line@)
}

impl View for Chart {
    type V = Seq<Seq<Seq<ChordView>>>;

    closed spec fn view(&self) -> Seq<Seq<Seq<ChordView>>> {
        lines_view(self.0@)
    }
}

/// [`parse_bar_line`] as a value.
pub open spec fn bar_line_parser() -> spec_fn(Seq<char>) -> Result<Seq<Seq<ChordView>>, ErrorView> {
    |s: Seq<char>| parse_bar_line(s)
}

/// The chart that a text spells: one bar line for each of its lines.
pub open spec fn parse_chart(s: Seq<char>) -> Result<Seq<Seq<Seq<ChordView>>>, ErrorView> {
    parse_each(split(s, '\n'), bar_line_parser())
}

/// The canonical texts of the bar lines that have a bar, in order.
pub open spec fn line_texts(chart: Seq<Seq<Seq<ChordView>>>) -> Seq<Seq<char>>
    decreases chart.len(),
{
    if chart.len() == 0 {
        Seq::empty()
    } else if chart.last().len() == 0 {
        line_texts(chart.drop_last())
    } else {
        line_texts(chart.drop_last()).push(bar_line_text(chart.last()))
    }
}

/// The canonical text of a chart: its bar lines that have a bar, one on
/// each line.
pub open spec fn chart_text(chart: Seq<Seq<Seq<ChordView>>>) -> Seq<char> {
    join(line_texts(chart), seq!['\n'])
}

/// The chart with each bar line transposed.
pub open spec fn transposed_chart(
    chart: Seq<Seq<Seq<ChordView>>>,
    semitone_incr: int,
    scale: Scale,
) -> Seq<Seq<Seq<ChordView>>> {
    chart.map_values(|line: Seq<Seq<ChordView>>| transposed_bar_line(line, semitone_incr, scale))
}

/// The canonical text of the chart that a text spells.
pub open spec fn validated_text(text: Seq<char>) -> Result<Seq<char>, ErrorView> {
    match parse_chart(text) {
        Err(e) => Err(e),
        Ok(chart) => Ok(chart_text(chart)),
    }
}

/// The canonical text of the chart that `text` spells, moved from the key
/// `current_key` to the key `new_key` and spelled with flats where the new
/// key has one, else with sharps. The keys are read first, then the chart.
pub open spec fn transposed_text(
    text: Seq<char>,
    current_key: Seq<char>,
    new_key: Seq<char>,
) -> Result<Seq<char>, ErrorView> {
    match parse_note_text(current_key) {
        Err(e) => Err(e),
        Ok(from) => match parse_note_text(new_key) {
            Err(e) => Err(e),
            Ok(to) => match parse_chart(text) {
                Err(e) => Err(e),
                Ok(chart) => Ok(
                    chart_text(
                        transposed_chart(
                            chart,
                            to.pitch() - from.pitch(),
                            to.accidental.spec_scale(),
                        ),
                    ),
                ),
            },
        },
    }
}

impl Chart {
    /// Reads a chart from its characters.
    pub fn parse(s: &[char]) -> (r: Result<Chart, Error>)
        ensures
            result_is(r, parse_chart(s@)),
    {
        let segments = split_at_each(s, '\n');
        let ghost parts = slices_view(segments@);
        let mut lines: Vec<BarLine> = Vec::new();
        let mut i: usize = 0;
        assert(lines_view(lines@) =~= Seq::empty());
        while i < segments.len()
            invariant
                i <= segments.len(),
                parts == slices_view(segments@),
                parts == split(s@, '\n'),
                parse_each(parts.take(i as int), bar_line_parser()) == Ok::<
                    Seq<Seq<Seq<ChordView>>>,
                    ErrorView,
                >(lines_view(lines@)),
            decreases segments.len() - i,
        {
            proof {
                lemma_parse_each_step(parts, bar_line_parser(), i as int);
            }
            let ghost before = lines_view(lines@);
            match BarLine::parse(segments[i]) {
                Ok(line) => {
                    lines.push(line);
                    assert(lines_view(lines@) =~= before.push(line@));
                },
                Err(e) => {
                    proof {
                        lemma_parse_each_fails(parts, bar_line_parser(), i + 1);
                    }
                    return Err(e);
                },
            }
            i += 1;
        }
        assert(parts.take(segments.len() as int) =~= parts);
        Ok(Chart(lines))
    }

    /// Reads a chart from its text.
    pub fn from_str(s: &str) -> (r: Result<Chart, Error>)
        ensures
            result_is(r, parse_chart(s@)),
    {
        let chars = chars_of(s);
        Chart::parse(chars.as_slice())
    }

    /// The canonical text of the chart.
    pub fn to_string(&self) -> (s: String)
        ensures
            s@ == chart_text(self@),
    {
        let mut texts: Vec<String> = Vec::new();
        let mut i: usize = 0;
        while i < self.0.len()
            invariant
                i <= self.0.len(),
                strings_view(texts@) == line_texts(self@.take(i as int)),
            decreases self.0.len() - i,
        {
            assert(self@.take(i + 1).drop_last() =~= self@.take(i as int));
            if !self.0[i].is_empty() {
                let text = self.0[i].to_string();
                texts.push(text);
            }
            i += 1;
        }
        assert(self@.take(self.0.len() as int) =~= self@);
        proof {
            reveal_strlit("\n");
        }
        assert("\n"@ =~= seq!['\n']);
        join_strings(&texts, "\n")
    }
}

impl Transpose for Chart {
    open spec fn transposed(
        v: Seq<Seq<Seq<ChordView>>>,
        semitone_incr: int,
        scale: Scale,
    ) -> Seq<Seq<Seq<ChordView>>> {
        transposed_chart(v, semitone_incr, scale)
    }

    fn transpose(&self, semitone_incr: &i32, scale: &Scale) -> (r: Chart) {
        let mut lines: Vec<BarLine> = Vec::new();
        let mut i: usize = 0;
        while i < self.0.len()
            invariant
                i <= self.0.len(),
                lines_view(lines@) == transposed_chart(self@, *semitone_incr as int, *scale).take(
                    i as int,
                ),
            decreases self.0.len() - i,
        {
            let ghost before = lines_view(lines@);
            let line = self.0[i].transpose(semitone_incr, scale);
            lines.push(line);
            assert(lines_view(lines@) =~= before.push(line@));
            i += 1;
        }
        assert(transposed_chart(self@, *semitone_incr as int, *scale).take(self.0.len() as int)
            =~= transposed_chart(self@, *semitone_incr as int, *scale));
        Chart(lines)
    }
}

/// Transposing changes notes and nothing else: the chart keeps its lines,
/// each line its bars, each bar its chords and each chord its symbols. A
/// line without bars stays one.
pub proof fn lemma_transposed_keeps_shape(
    chart: Seq<Seq<Seq<ChordView>>>,
    semitone_incr: int,
    scale: Scale,
)
    ensures
        transposed_chart(chart, semitone_incr, scale).len() == chart.len(),
        forall|i: int|
            0 <= i < chart.len() ==> (#[trigger] transposed_chart(
                chart,
                semitone_incr,
                scale,
            )[i]).len() == chart[i].len(),
        forall|i: int, j: int|
            0 <= i < chart.len() && 0 <= j < chart[i].len() ==> (#[trigger] transposed_chart(
                chart,
                semitone_incr,
                scale,
            )[i][j]).len() == chart[i][j].len(),
        forall|i: int, j: int, k: int|
            0 <= i < chart.len() && 0 <= j < chart[i].len() && 0 <= k < chart[i][j].len() ==> {
                let chord = #[trigger] transposed_chart(chart, semitone_incr, scale)[i][j][k];
                &&& chord == transposed_chord(chart[i][j][k], semitone_incr, scale)
                &&& chord.symbols == chart[i][j][k].symbols
            },
{
}

/// Reads a chart and writes it out again in its canonical form, which is
/// read as a chart and written out as itself.
pub fn validate_chart(text: &str) -> (r: Result<String, Error>)
    ensures
        result_is(r, validated_text(text@)),
        r is Ok ==> validated_text(r->Ok_0@) == Ok::<Seq<char>, ErrorView>(r->Ok_0@),
{
    proof {
        if validated_text(text@) is Ok {
            lemma_validated_text_is_fixed(text@);
        }
    }
    match Chart::from_str(text) {
        Ok(chart) => Ok(chart.to_string()),
        Err(e) => Err(e),
    }
}

/// Reads a chart, moves it from one key to another and writes it out.
pub fn transpose_chart(text: &str, current_key: &str, new_key: &str) -> (r: Result<
    String,
    Error,
>)
    ensures
        result_is(r, transposed_text(text@, current_key@, new_key@)),
{
    let from = match Note::from_str(current_key) {
        Ok(note) => note,
        Err(e) => { return Err(e); },
    };
    let to = match Note::from_str(new_key) {
        Ok(note) => note,
        Err(e) => { return Err(e); },
    };
    let chart = match Chart::from_str(text) {
        Ok(chart) => chart,
        Err(e) => { return Err(e); },
    };
    let semitone_incr = from.get_semitones_diff(&to);
    let scale = to.accidental().scale();
    Ok(chart.transpose(&semitone_incr, &scale).to_string())
}

} // verus!
