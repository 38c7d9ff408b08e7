//! Bar lines: bars between `|`.

use crate::bar::{bar_text, parse_bar, transposed_bar, Bar};
use crate::chord::ChordView;
use crate::error::{result_is, Error, ErrorView};
use crate::text::{
    chars_of, join, join_strings, lemma_parse_each_fails, lemma_parse_each_step, parse_each,
    slices_view, split, split_at_each, string_of, strings_view, trim, trimmed,
};
use crate::transpose::{Scale, Transpose};
use vstd::prelude::*;
use vstd::slice::slice_subrange;

verus! {

/// The bars of one line, in order. A line with no bar stands for a blank
/// line.
#[derive(Debug)]
pub struct BarLine(Vec<Bar>);

/// What each bar of a sequence holds.
pub open spec fn bars_view(bars: Seq<Bar>) -> Seq<Seq<ChordView>> {
    bars.map_values(|bar: Bar| bar@)
}

impl View for BarLine {
    type V = Seq<Seq<ChordView>>;

    closed spec fn view(&self) -> Seq<Seq<ChordView>> {
        bars_view(self.0@)
    }
}

/// [`parse_bar`] as a value.
pub open spec fn bar_parser() -> spec_fn(Seq<char>) -> Result<Seq<ChordView>, ErrorView> {
    |s: Seq<char>| parse_bar(s)
}

/// The bar line that a text spells. Whitespace round the line does not
/// count. A line that is then empty has no bar. Any other has a `|` at
/// either end, and one bar for each part that the `|` between them leave.
/// An error of the two ends reports the text as it was given.
pub open spec fn parse_bar_line(s: Seq<char>) -> Result<Seq<Seq<ChordView>>, ErrorView> {
    let line = trim(s);
    if line.len() == 0 {
        Ok(Seq::empty())
    } else if line[0] != '|' {
        Err(ErrorView::BarLineShouldStartWithStripe(s))
    } else if line.len() < 2 || line.last() != '|' {
        Err(ErrorView::BarLineShouldEndWithStripe(s))
    } else {
        parse_each(split(line.subrange(1, line.len() - 1), '|'), bar_parser())
    }
}

/// The canonical text of each bar.
pub open spec fn bar_texts(line: Seq<Seq<ChordView>>) -> Seq<Seq<char>> {
    line.map_values(|bar: Seq<ChordView>| bar_text(bar))
}

/// The canonical text of a bar line: nothing for a line with no bar, else
/// `| `, the bars with ` | ` between each two, and ` |`.
pub open spec fn bar_line_text(line: Seq<Seq<ChordView>>) -> Seq<char> {
    if line.len() == 0 {
        Seq::empty()
    } else {
        seq!['|', ' '] + join(bar_texts(line), seq![' ', '|', ' ']) + seq![' ', '|']
    }
}

/// The bar line with each bar transposed.
pub open spec fn transposed_bar_line(
    line: Seq<Seq<ChordView>>,
    semitone_incr: int,
    scale: Scale,
) -> Seq<Seq<ChordView>> {
    line.map_values(|bar: Seq<ChordView>| transposed_bar(bar, semitone_incr, scale))
}

impl BarLine {
    /// Whether the line has no bar.
    pub fn is_empty(&self) -> (r: bool)
        ensures
            r == (self@.len() == 0),
    {
        self.0.is_empty()
    }

    /// Reads a bar line from its characters.
    pub fn parse(s: &[char]) -> (r: Result<BarLine, Error>)
        ensures
            result_is(r, parse_bar_line(s@)),
    {
        let line = trimmed(s);
        if line.len() == 0 {
            assert(bars_view(Seq::<Bar>::empty()) =~= Seq::empty());
            return Ok(BarLine(Vec::new()));
        }
        if line[0] != '|' {
            return Err(Error::BarLineShouldStartWithStripe(string_of(s)));
        }
        if line.len() < 2 || line[line.len() - 1] != '|' {
            return Err(Error::BarLineShouldEndWithStripe(string_of(s)));
        }
        let segments = split_at_each(slice_subrange(line, 1, line.len() - 1), '|');
        let ghost parts = slices_view(segments@);
        let mut bars: Vec<Bar> = Vec::new();
        let mut i: usize = 0;
        assert(bars_view(bars@) =~= Seq::empty());
        while i < segments.len()
            invariant
                i <= segments.len(),
                parts == slices_view(segments@),
                parse_bar_line(s@) == parse_each(parts, bar_parser()),
                parse_each(parts.take(i as int), bar_parser()) == Ok::<
                    Seq<Seq<ChordView>>,
                    ErrorView,
                >(bars_view(bars@)),
            decreases segments.len() - i,
        {
            proof {
                lemma_parse_each_step(parts, bar_parser(), i as int);
            }
            let ghost before = bars_view(bars@);
            match Bar::parse(segments[i]) {
                Ok(bar) => {
                    bars.push(bar);
                    assert(bars_view(bars@) =~= before.push(bar@));
                },
                Err(e) => {
                    proof {
                        lemma_parse_each_fails(parts, bar_parser(), i + 1);
                    }
                    return Err(e);
                },
            }
            i += 1;
        }
        assert(parts.take(segments.len() as int) =~= parts);
        Ok(BarLine(bars))
    }

    /// Reads a bar line from its text.
    pub fn from_str(s: &str) -> (r: Result<BarLine, Error>)
        ensures
            result_is(r, parse_bar_line(s@)),
    {
        let chars = chars_of(s);
        BarLine::parse(chars.as_slice())
    }

    /// The canonical text of the bar line.
    pub fn to_string(&self) -> (s: String)
        ensures
            s@ == bar_line_text(self@),
    {
        if self.0.is_empty() {
            return String::new();
        }
        let mut texts: Vec<String> = Vec::new();
        let mut i: usize = 0;
        while i < self.0.len()
            invariant
                i <= self.0.len(),
                strings_view(texts@) == bar_texts(self@).take(i as int),
            decreases self.0.len() - i,
        {
            let ghost before = strings_view(texts@);
            let text = self.0[i].to_string();
            texts.push(text);
            assert(strings_view(texts@) =~= before.push(text@));
            i += 1;
        }
        assert(bar_texts(self@).take(self.0.len() as int) =~= bar_texts(self@));
        proof {
            reveal_strlit("| ");
            reveal_strlit(" | ");
            reveal_strlit(" |");
        }
        assert(" | "@ =~= seq![' ', '|', ' ']);
        let mut out = "| ".to_owned();
        out.append(join_strings(&texts, " | ").as_str());
        out.append(" |");
        out
    }
}

impl Transpose for BarLine {
    open spec fn transposed(v: Seq<Seq<ChordView>>, semitone_incr: int, scale: Scale) -> Seq<
        Seq<ChordView>,
    > {
        transposed_bar_line(v, semitone_incr, scale)
    }

    fn transpose(&self, semitone_incr: &i32, scale: &Scale) -> (r: BarLine) {
        let mut bars: Vec<Bar> = Vec::new();
        let mut i: usize = 0;
        while i < self.0.len()
            invariant
                i <= self.0.len(),
                bars_view(bars@) == transposed_bar_line(
                    self@,
                    *semitone_incr as int,
                    *scale,
                ).take(i as int),
            decreases self.0.len() - i,
        {
            let ghost before = bars_view(bars@);
            let bar = self.0[i].transpose(semitone_incr, scale);
            bars.push(bar);
            assert(bars_view(bars@) =~= before.push(bar@));
            i += 1;
        }
        assert(transposed_bar_line(self@, *semitone_incr as int, *scale).take(self.0.len() as int)
            =~= transposed_bar_line(self@, *semitone_incr as int, *scale));
        BarLine(bars)
    }
}

} // verus!
