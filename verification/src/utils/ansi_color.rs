//! ANSI colour codes, as Discord's `ansi` code-block highlighter understands them.
use vstd::prelude::*;

use crate::text::{join, join_strings, views};

verus! {

/// A text style of Discord's ANSI highlighter.
#[non_exhaustive]
#[derive(Clone, Copy, Debug, PartialEq, Eq, Structural)]
pub enum Style {
    Reset,
    Bold,
    Underline,
    GreyForeground,
    RedForeground,
    GreenForeground,
    YellowForeground,
    BlueForeground,
    MagentaForeground,
    CyanForeground,
    WhiteForeground,
    FireflyDarkBlueBackground,
    OrangeBackground,
    MarbleBlueBackground,
    TurquoiseGreyBackground,
    GreyBackground,
    IndigoBackground,
    LightGreyBackground,
    WhiteBackground,
}

/// The SGR parameter of a style.
pub open spec fn style_code(s: Style) -> Seq<char> {
    match s {
        Style::Reset => "0"@,
        Style::Bold => "1"@,
        Style::Underline => "4"@,
        Style::GreyForeground => "30"@,
        Style::RedForeground => "31"@,
        Style::GreenForeground => "32"@,
        Style::YellowForeground => "33"@,
        Style::BlueForeground => "34"@,
        Style::MagentaForeground => "35"@,
        Style::CyanForeground => "36"@,
        Style::WhiteForeground => "37"@,
        Style::FireflyDarkBlueBackground => "40"@,
        Style::OrangeBackground => "41"@,
        Style::MarbleBlueBackground => "42"@,
        Style::TurquoiseGreyBackground => "43"@,
        Style::GreyBackground => "44"@,
        Style::IndigoBackground => "45"@,
        Style::LightGreyBackground => "46"@,
        Style::WhiteBackground => "47"@,
    }
}

/// The escape sequence `ESC [ p1 ; p2 ; ... m` that selects `styles`.
pub open spec fn escape_spec(styles: Seq<Style>) -> Seq<char> {
    "\x1b["@ + join(styles.map_values(|s: Style| style_code(s)), ";"@) + "m"@
}

/// `text` in `styles`, followed by a reset.
pub open spec fn format_spec(text: Seq<char>, styles: Seq<Style>) -> Seq<char> {
    escape_spec(styles) + text + escape_spec(seq![Style::Reset])
}

/// The SGR parameters of the styles: reset `0`, bold `1`, underline `4`; the
/// foreground colours, grey to white in declaration order, `30` to `37`; the
/// background colours, in declaration order, `40` to `47`.
pub proof fn lemma_style_codes()
    ensures
        style_code(Style::Reset) == seq!['0'],
        style_code(Style::Bold) == seq!['1'],
        style_code(Style::Underline) == seq!['4'],
        style_code(Style::GreyForeground) == seq!['3', '0'],
        style_code(Style::RedForeground) == seq!['3', '1'],
        style_code(Style::GreenForeground) == seq!['3', '2'],
        style_code(Style::YellowForeground) == seq!['3', '3'],
        style_code(Style::BlueForeground) == seq!['3', '4'],
        style_code(Style::MagentaForeground) == seq!['3', '5'],
        style_code(Style::CyanForeground) == seq!['3', '6'],
        style_code(Style::WhiteForeground) == seq!['3', '7'],
        style_code(Style::FireflyDarkBlueBackground) == seq!['4', '0'],
        style_code(Style::OrangeBackground) == seq!['4', '1'],
        style_code(Style::MarbleBlueBackground) == seq!['4', '2'],
        style_code(Style::TurquoiseGreyBackground) == seq!['4', '3'],
        style_code(Style::GreyBackground) == seq!['4', '4'],
        style_code(Style::IndigoBackground) == seq!['4', '5'],
        style_code(Style::LightGreyBackground) == seq!['4', '6'],
        style_code(Style::WhiteBackground) == seq!['4', '7'],
{
    reveal_strlit("0");
    reveal_strlit("1");
    reveal_strlit("30");
    reveal_strlit("31");
    reveal_strlit("32");
    reveal_strlit("33");
    reveal_strlit("34");
    reveal_strlit("35");
    reveal_strlit("36");
    reveal_strlit("37");
    reveal_strlit("4");
    reveal_strlit("40");
    reveal_strlit("41");
    reveal_strlit("42");
    reveal_strlit("43");
    reveal_strlit("44");
    reveal_strlit("45");
    reveal_strlit("46");
    reveal_strlit("47");
}

/// The escape sequence of one style is `ESC [`, that style's parameter, `m`:
/// for instance magenta text is `ESC [ 3 5 m`.
pub proof fn lemma_single_style_escape(st: Style)
    ensures
        escape_spec(seq![st]) == "\x1b["@ + style_code(st) + "m"@,
        st == Style::MagentaForeground ==> escape_spec(seq![st]) == "\x1b["@ + seq!['3', '5']
            + "m"@,
{
    let codes = seq![st].map_values(|s: Style| style_code(s));
    assert(codes =~= seq![style_code(st)]);
    lemma_style_codes();
}

impl Style {
    /// The SGR parameter of this style.
    pub fn code(&self) -> (r: &'static str)
        ensures
            r@ == style_code(*self),
    {
        match self {
            Style::Reset => "0",
            Style::Bold => "1",
            Style::Underline => "4",
            Style::GreyForeground => "30",
            Style::RedForeground => "31",
            Style::GreenForeground => "32",
            Style::YellowForeground => "33",
            Style::BlueForeground => "34",
            Style::MagentaForeground => "35",
            Style::CyanForeground => "36",
            Style::WhiteForeground => "37",
            Style::FireflyDarkBlueBackground => "40",
            Style::OrangeBackground => "41",
            Style::MarbleBlueBackground => "42",
            Style::TurquoiseGreyBackground => "43",
            Style::GreyBackground => "44",
            Style::IndigoBackground => "45",
            Style::LightGreyBackground => "46",
            Style::WhiteBackground => "47",
        }
    }
}

/// The escape sequence that selects all of `parameters`, in order.
pub fn escape_sequence(parameters: Vec<Style>) -> (r: String)
    ensures
        r@ == escape_spec(parameters@),
{
    let mut codes: Vec<String> = Vec::new();
    let mut i: usize = 0;
    while i < parameters.len()
        invariant
            i <= parameters.len(),
            views(codes@) =~= parameters@.take(i as int).map_values(|s: Style| style_code(s)),
        decreases parameters.len() - i,
    {
        let code = parameters[i].code();
        let mut c = String::new();
        c.append(code);
        let ghost before = codes@;
        codes.push(c);
        i += 1;
        proof {
            assert(views(codes@) =~= views(before).push(c@));
            assert(parameters@.take(i as int).map_values(|s: Style| style_code(s))
                =~= parameters@.take(i - 1).map_values(|s: Style| style_code(s)).push(style_code(parameters@[i - 1])));
        }
    }
    proof {
        assert(parameters@.take(parameters.len() as int) =~= parameters@);
    }
    let joined = join_strings(&codes, ";");
    let mut r = String::new();
    r.append("\x1b[");
    r.append(joined.as_str());
    r.append("m");
    r
}

/// `text` wrapped in the escape sequence for `parameters` and a reset.
pub fn format(text: &str, parameters: Vec<Style>) -> (r: String)
    ensures
        r@ == format_spec(text@, parameters@),
{
    let head = escape_sequence(parameters);
    let tail = escape_sequence(vec![Style::Reset]);
    let mut r = String::new();
    r.append(head.as_str());
    r.append(text);
    r.append(tail.as_str());
    proof {
        assert(r@ =~= format_spec(text@, parameters@));
    }
    r
}

} // verus!
