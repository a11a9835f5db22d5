use vstd::prelude::*;
use colored::Colorize;
use crate::text::{
    append_str, chars_of, copy_str, find_from, seq_contains, seq_find, seq_replace, seq_split_str,
    split_str, str_eq, string_of_range, vec_find_from, lemma_split_str_absent,
    lemma_split_str_nonempty,
};

verus! {

/// A color that the configuration can name: the sixteen terminal colors, and `Clear`, which
/// leaves text uncolored.
#[derive(Clone, Copy, Debug, PartialEq, Eq, Structural)]
pub enum CrabFetchColor {
    Black,
    Red,
    Green,
    Yellow,
    Blue,
    Magenta,
    Cyan,
    White,
    BrightBlack,
    BrightRed,
    BrightGreen,
    BrightYellow,
    BrightBlue,
    BrightMagenta,
    BrightCyan,
    BrightWhite,
    Clear,
}

/// The color that an already lowercased name stands for in `from_str` and in
/// `{color-...}` placeholders.
pub open spec fn color_by_name(name: Seq<char>) -> Option<CrabFetchColor> {
    if name == "black"@ {
        Some(CrabFetchColor::Black)
    } else if name == "red"@ {
        Some(CrabFetchColor::Red)
    } else if name == "green"@ {
        Some(CrabFetchColor::Green)
    } else if name == "yellow"@ {
        Some(CrabFetchColor::Yellow)
    } else if name == "blue"@ {
        Some(CrabFetchColor::Blue)
    } else if name == "magenta"@ {
        Some(CrabFetchColor::Magenta)
    } else if name == "cyan"@ {
        Some(CrabFetchColor::Cyan)
    } else if name == "white"@ {
        Some(CrabFetchColor::White)
    } else if name == "brightblack"@ {
        Some(CrabFetchColor::BrightBlack)
    } else if name == "brightred"@ {
        Some(CrabFetchColor::BrightRed)
    } else if name == "brightgreen"@ {
        Some(CrabFetchColor::BrightGreen)
    } else if name == "brightyellow"@ {
        Some(CrabFetchColor::BrightYellow)
    } else if name == "brightblue"@ {
        Some(CrabFetchColor::BrightBlue)
    } else if name == "brightmagenta"@ {
        Some(CrabFetchColor::BrightMagenta)
    } else if name == "brightcyan"@ {
        Some(CrabFetchColor::BrightCyan)
    } else if name == "brightwhite"@ {
        Some(CrabFetchColor::BrightWhite)
    } else if name == "clear"@ {
        Some(CrabFetchColor::Clear)
    } else {
        None
    }
}

/// What `str::to_lowercase` gives for a string: the Unicode lowercase mapping of its characters.
pub uninterp spec fn lowercase(s: Seq<char>) -> Seq<char>;

/// An ASCII character in lowercase.
pub open spec fn ascii_lower(c: char) -> char {
    if 'A' <= c && c <= 'Z' {
        ((c as u32) + 32) as char
    } else {
        c
    }
}

/// Trusted: std's `str::to_lowercase`. Its result depends on the characters of `s` alone (no
/// locale), so it is named `lowercase`; on text made only of ASCII characters it lowers the
/// letters `A`-`Z` and keeps every other character, as its documentation describes.
#[verifier::external_body]
pub(crate) fn to_lowercase(s: &str) -> (r: String)
    ensures
        r@ == lowercase(s@),
        (forall|i: int| 0 <= i < s@.len() ==> (#[trigger] s@[i] as u32) < 128) ==> r@
            == s@.map_values(|c: char| ascii_lower(c)),
{
    s.to_lowercase()
}

/// The escape sequence that ends a colored run.
pub open spec fn ansi_reset() -> Seq<char> {
    seq!['\u{1b}', '[', '0', 'm']
}

/// The parameters of the escape sequence that starts a run: the style codes (bold `1`, italic
/// `3`), then the foreground code, separated by `;`.
pub open spec fn style_codes(fg: Seq<char>, bold: bool, italic: bool) -> Seq<char> {
    let styles = if bold && italic {
        seq!['1', ';', '3']
    } else if bold {
        seq!['1']
    } else if italic {
        seq!['3']
    } else {
        Seq::<char>::empty()
    };
    if fg.len() == 0 {
        styles
    } else if styles.len() == 0 {
        fg
    } else {
        styles + seq![';'] + fg
    }
}

/// No color and no style: such text is always written as it is.
pub open spec fn is_plain_style(fg: Seq<char>, bold: bool, italic: bool) -> bool {
    fg.len() == 0 && !bold && !italic
}

/// How colored writes `text` when colors are on: the start sequence, the text with the start
/// sequence repeated after each reset it holds, and a reset.
pub open spec fn ansi_painted(text: Seq<char>, fg: Seq<char>, bold: bool, italic: bool) -> Seq<char> {
    let start = seq!['\u{1b}', '['] + style_codes(fg, bold, italic) + seq!['m'];
    start + seq_replace(text, ansi_reset(), ansi_reset() + start) + ansi_reset()
}

/// `r` is one of the ways that colored may write `text` in foreground `fg` with the given
/// styles: unchanged (colors off, or nothing to apply), or painted.
pub open spec fn colored_rendering(
    r: Seq<char>,
    text: Seq<char>,
    fg: Seq<char>,
    bold: bool,
    italic: bool,
) -> bool {
    r == text || (!is_plain_style(fg, bold, italic) && r == ansi_painted(text, fg, bold, italic))
}

/// The foreground code of a color; `Clear` has none.
pub open spec fn fg_code(c: CrabFetchColor) -> Seq<char> {
    match c {
        CrabFetchColor::Black => seq!['3', '0'],
        CrabFetchColor::Red => seq!['3', '1'],
        CrabFetchColor::Green => seq!['3', '2'],
        CrabFetchColor::Yellow => seq!['3', '3'],
        CrabFetchColor::Blue => seq!['3', '4'],
        CrabFetchColor::Magenta => seq!['3', '5'],
        CrabFetchColor::Cyan => seq!['3', '6'],
        CrabFetchColor::White => seq!['3', '7'],
        CrabFetchColor::BrightBlack => seq!['9', '0'],
        CrabFetchColor::BrightRed => seq!['9', '1'],
        CrabFetchColor::BrightGreen => seq!['9', '2'],
        CrabFetchColor::BrightYellow => seq!['9', '3'],
        CrabFetchColor::BrightBlue => seq!['9', '4'],
        CrabFetchColor::BrightMagenta => seq!['9', '5'],
        CrabFetchColor::BrightCyan => seq!['9', '6'],
        CrabFetchColor::BrightWhite => seq!['9', '7'],
        CrabFetchColor::Clear => Seq::<char>::empty(),
    }
}

/// Trusted: colored's `Colorize::color` on a `&str`, with one of its color names, then
/// `to_string`. Whether escape codes are written depends on colored's decision about the
/// terminal and the environment, which is not stated: the result is the text or its painting.
#[verifier::external_body]
fn paint(text: &str, name: &str) -> (r: String)
    requires
        exists|c: CrabFetchColor| c != CrabFetchColor::Clear && colored_name(c) == name@,
    ensures
        forall|c: CrabFetchColor|
            c != CrabFetchColor::Clear && colored_name(c) == name@ ==> colored_rendering(
                r@,
                text@,
                fg_code(c),
                false,
                false,
            ),
{
    text.color(name).to_string()
}

/// Trusted: colored's `Colorize::color` then `bold` then `to_string`; as for `paint`, the
/// result is the text or its painting, depending on the terminal and the environment.
#[verifier::external_body]
fn paint_bold(text: &str, name: &str) -> (r: String)
    requires
        exists|c: CrabFetchColor| c != CrabFetchColor::Clear && colored_name(c) == name@,
    ensures
        forall|c: CrabFetchColor|
            c != CrabFetchColor::Clear && colored_name(c) == name@ ==> colored_rendering(
                r@,
                text@,
                fg_code(c),
                true,
                false,
            ),
{
    text.color(name).bold().to_string()
}

/// Trusted: colored's `Colorize::color` then `italic` then `to_string`; as for `paint`.
#[verifier::external_body]
fn paint_italic(text: &str, name: &str) -> (r: String)
    requires
        exists|c: CrabFetchColor| c != CrabFetchColor::Clear && colored_name(c) == name@,
    ensures
        forall|c: CrabFetchColor|
            c != CrabFetchColor::Clear && colored_name(c) == name@ ==> colored_rendering(
                r@,
                text@,
                fg_code(c),
                false,
                true,
            ),
{
    text.color(name).italic().to_string()
}

/// Trusted: colored's `Colorize::color` then `bold`, `italic` and `to_string`; as for `paint`.
#[verifier::external_body]
fn paint_bold_italic(text: &str, name: &str) -> (r: String)
    requires
        exists|c: CrabFetchColor| c != CrabFetchColor::Clear && colored_name(c) == name@,
    ensures
        forall|c: CrabFetchColor|
            c != CrabFetchColor::Clear && colored_name(c) == name@ ==> colored_rendering(
                r@,
                text@,
                fg_code(c),
                true,
                true,
            ),
{
    text.color(name).bold().italic().to_string()
}

/// Trusted: colored's `Colorize::clear` then `bold` and `to_string` (no foreground color); the
/// result is the text or its painting, depending on the terminal and the environment.
#[verifier::external_body]
fn plain_bold(text: &str) -> (r: String)
    ensures
        colored_rendering(r@, text@, Seq::<char>::empty(), true, false),
{
    text.clear().bold().to_string()
}

/// Trusted: colored's `Colorize::clear` then `italic` and `to_string`; as for `plain_bold`.
#[verifier::external_body]
fn plain_italic(text: &str) -> (r: String)
    ensures
        colored_rendering(r@, text@, Seq::<char>::empty(), false, true),
{
    text.clear().italic().to_string()
}

/// Trusted: colored's `Colorize::clear` then `bold`, `italic` and `to_string`; as for
/// `plain_bold`.
#[verifier::external_body]
fn plain_bold_italic(text: &str) -> (r: String)
    ensures
        colored_rendering(r@, text@, Seq::<char>::empty(), true, true),
{
    text.clear().bold().italic().to_string()
}

/// The background code of a color; `Clear` has none.
pub open spec fn bg_code(c: CrabFetchColor) -> Seq<char> {
    match c {
        CrabFetchColor::Black => seq!['4', '0'],
        CrabFetchColor::Red => seq!['4', '1'],
        CrabFetchColor::Green => seq!['4', '2'],
        CrabFetchColor::Yellow => seq!['4', '3'],
        CrabFetchColor::Blue => seq!['4', '4'],
        CrabFetchColor::Magenta => seq!['4', '5'],
        CrabFetchColor::Cyan => seq!['4', '6'],
        CrabFetchColor::White => seq!['4', '7'],
        CrabFetchColor::BrightBlack => seq!['1', '0', '0'],
        CrabFetchColor::BrightRed => seq!['1', '0', '1'],
        CrabFetchColor::BrightGreen => seq!['1', '0', '2'],
        CrabFetchColor::BrightYellow => seq!['1', '0', '3'],
        CrabFetchColor::BrightBlue => seq!['1', '0', '4'],
        CrabFetchColor::BrightMagenta => seq!['1', '0', '5'],
        CrabFetchColor::BrightCyan => seq!['1', '0', '6'],
        CrabFetchColor::BrightWhite => seq!['1', '0', '7'],
        CrabFetchColor::Clear => Seq::<char>::empty(),
    }
}

/// Trusted: colored's `Colorize::on_color` on a `&str`, with one of its color names, then
/// `to_string`: the text on that background. As for `paint`, whether escape codes are written
/// depends on the terminal and the environment, which is not stated; when they are, the
/// background code stands where `paint` puts the foreground code.
#[verifier::external_body]
fn paint_background(text: &str, name: &str) -> (r: String)
    requires
        exists|c: CrabFetchColor| c != CrabFetchColor::Clear && colored_name(c) == name@,
    ensures
        forall|c: CrabFetchColor|
            c != CrabFetchColor::Clear && colored_name(c) == name@ ==> colored_rendering(
                r@,
                text@,
                bg_code(c),
                false,
                false,
            ),
{
    text.on_color(name).to_string()
}

/// The name that colored reads for each color other than `Clear`.
pub open spec fn colored_name(c: CrabFetchColor) -> Seq<char> {
    match c {
        CrabFetchColor::Black => "black"@,
        CrabFetchColor::Red => "red"@,
        CrabFetchColor::Green => "green"@,
        CrabFetchColor::Yellow => "yellow"@,
        CrabFetchColor::Blue => "blue"@,
        CrabFetchColor::Magenta => "magenta"@,
        CrabFetchColor::Cyan => "cyan"@,
        CrabFetchColor::White => "white"@,
        CrabFetchColor::BrightBlack => "bright black"@,
        CrabFetchColor::BrightRed => "bright red"@,
        CrabFetchColor::BrightGreen => "bright green"@,
        CrabFetchColor::BrightYellow => "bright yellow"@,
        CrabFetchColor::BrightBlue => "bright blue"@,
        CrabFetchColor::BrightMagenta => "bright magenta"@,
        CrabFetchColor::BrightCyan => "bright cyan"@,
        CrabFetchColor::BrightWhite => "bright white"@,
        CrabFetchColor::Clear => Seq::<char>::empty(),
    }
}

impl CrabFetchColor {
    /// Reads a color name, ignoring case (`"BrightRed"`, `"clear"`); any other name is refused.
    pub fn from_str(s: &str) -> (r: Result<CrabFetchColor, ()>)
        ensures
            r == (match color_by_name(lowercase(s@)) {
                Some(c) => Ok::<CrabFetchColor, ()>(c),
                None => Err(()),
            }),
            (forall|i: int| 0 <= i < s@.len() ==> (#[trigger] s@[i] as u32) < 128) ==> r == (
            match color_by_name(s@.map_values(|c: char| ascii_lower(c))) {
                Some(c) => Ok::<CrabFetchColor, ()>(c),
                None => Err(()),
            }),
    {
        let lower = to_lowercase(s);
        let l = lower.as_str();
        if str_eq(l, "black") {
            Ok(CrabFetchColor::Black)
        } else if str_eq(l, "red") {
            Ok(CrabFetchColor::Red)
        } else if str_eq(l, "green") {
            Ok(CrabFetchColor::Green)
        } else if str_eq(l, "yellow") {
            Ok(CrabFetchColor::Yellow)
        } else if str_eq(l, "blue") {
            Ok(CrabFetchColor::Blue)
        } else if str_eq(l, "magenta") {
            Ok(CrabFetchColor::Magenta)
        } else if str_eq(l, "cyan") {
            Ok(CrabFetchColor::Cyan)
        } else if str_eq(l, "white") {
            Ok(CrabFetchColor::White)
        } else if str_eq(l, "brightblack") {
            Ok(CrabFetchColor::BrightBlack)
        } else if str_eq(l, "brightred") {
            Ok(CrabFetchColor::BrightRed)
        } else if str_eq(l, "brightgreen") {
            Ok(CrabFetchColor::BrightGreen)
        } else if str_eq(l, "brightyellow") {
            Ok(CrabFetchColor::BrightYellow)
        } else if str_eq(l, "brightblue") {
            Ok(CrabFetchColor::BrightBlue)
        } else if str_eq(l, "brightmagenta") {
            Ok(CrabFetchColor::BrightMagenta)
        } else if str_eq(l, "brightcyan") {
            Ok(CrabFetchColor::BrightCyan)
        } else if str_eq(l, "brightwhite") {
            Ok(CrabFetchColor::BrightWhite)
        } else if str_eq(l, "clear") {
            Ok(CrabFetchColor::Clear)
        } else {
            Err(())
        }
    }

    /// The name that colored reads for this color (empty for `Clear`).
    fn colored_name_of(&self) -> (r: &'static str)
        ensures
            r@ == colored_name(*self),
    {
        proof {
            reveal_strlit("");
        }
        match self {
            CrabFetchColor::Black => "black",
            CrabFetchColor::Red => "red",
            CrabFetchColor::Green => "green",
            CrabFetchColor::Yellow => "yellow",
            CrabFetchColor::Blue => "blue",
            CrabFetchColor::Magenta => "magenta",
            CrabFetchColor::Cyan => "cyan",
            CrabFetchColor::White => "white",
            CrabFetchColor::BrightBlack => "bright black",
            CrabFetchColor::BrightRed => "bright red",
            CrabFetchColor::BrightGreen => "bright green",
            CrabFetchColor::BrightYellow => "bright yellow",
            CrabFetchColor::BrightBlue => "bright blue",
            CrabFetchColor::BrightMagenta => "bright magenta",
            CrabFetchColor::BrightCyan => "bright cyan",
            CrabFetchColor::BrightWhite => "bright white",
            CrabFetchColor::Clear => "",
        }
    }

    /// `text` in this color, bold and italic as asked. `Clear` without a style gives `text`
    /// itself; otherwise the text comes back painted when colored writes colors, and unchanged
    /// when it does not.
    pub fn color_string(&self, text: &str, bold: bool, italic: bool) -> (r: String)
        ensures
            colored_rendering(r@, text@, fg_code(*self), bold, italic),
            *self == CrabFetchColor::Clear && !bold && !italic ==> r@ == text@,
    {
        match self {
            CrabFetchColor::Clear => {
                if bold && italic {
                    plain_bold_italic(text)
                } else if bold {
                    plain_bold(text)
                } else if italic {
                    plain_italic(text)
                } else {
                    copy_str(text)
                }
            },
            _ => {
                let name = self.colored_name_of();
                if bold && italic {
                    paint_bold_italic(text, name)
                } else if bold {
                    paint_bold(text, name)
                } else if italic {
                    paint_italic(text, name)
                } else {
                    paint(text, name)
                }
            },
        }
    }
}

impl CrabFetchColor {
    /// `text` in this color (`Clear` excluded), as foreground or as background.
    pub fn swatch(&self, text: &str, background: bool) -> (r: String)
        requires
            *self != CrabFetchColor::Clear,
        ensures
            colored_rendering(r@, text@, if background { bg_code(*self) } else { fg_code(*self) }, false, false),
    {
        let name = self.colored_name_of();
        if background {
            paint_background(text, name)
        } else {
            paint(text, name)
        }
    }
}

/// The color that a name read case-insensitively gives: for a name of ASCII characters, the
/// color named by it with `A`-`Z` lowered; otherwise the color named by its lowercase form.
pub open spec fn name_color(name: Seq<char>) -> Option<CrabFetchColor> {
    if forall|i: int| 0 <= i < name.len() ==> (#[trigger] name[i] as u32) < 128 {
        color_by_name(name.map_values(|c: char| ascii_lower(c)))
    } else {
        color_by_name(lowercase(name))
    }
}

/// What one piece of a text split at `{color-` becomes: without a `}` it stays as it is; with
/// one, the name before it is read as a color (ignoring case), and the rest is written in that
/// color, or the piece is dropped when the name is no color.
pub open spec fn placeholder_output(piece: Seq<char>, out: Seq<char>) -> bool {
    match seq_find(piece, seq!['}']) {
        None => out == piece,
        Some(len) => match name_color(piece.take(len)) {
            None => out == Seq::<char>::empty(),
            Some(c) => colored_rendering(out, piece.skip(len + 1), fg_code(c), false, false),
        },
    }
}

/// `r` is a way of writing `s` with its `{color-NAME}` placeholders applied: `s` itself when
/// it has no placeholder, else the pieces between placeholders, each written as
/// `placeholder_output` says, one after the other.
pub open spec fn color_placeholders_rendered(s: Seq<char>, r: Seq<char>) -> bool {
    let pieces = seq_split_str(s, "{color-"@);
    &&& pieces.len() <= 1 ==> r == s
    &&& pieces.len() > 1 ==> exists|outs: Seq<Seq<char>>|
        #![trigger outs.flatten()]
        {
            &&& outs.len() == pieces.len()
            &&& forall|i: int|
                0 <= i < outs.len() ==> placeholder_output(#[trigger] pieces[i], outs[i])
            &&& r == outs.flatten()
        }
}

/// Writes the text of each `{color-NAME}` placeholder in the color `NAME` up to the next
/// placeholder. Text without placeholders comes back unchanged.
pub fn replace_color_placeholders(s: &str) -> (r: String)
    ensures
        color_placeholders_rendered(s@, r@),
        !seq_contains(s@, "{color-"@) ==> r@ == s@,
{
    proof {
        reveal_strlit("{color-");
        if !seq_contains(s@, "{color-"@) {
            lemma_split_str_absent(s@, "{color-"@);
        }
    }
    let pieces = split_str(s, "{color-");
    if pieces.len() <= 1 {
        return copy_str(s);
    }
    let ghost ps = pieces.deep_view();
    let mut out = String::new();
    let ghost mut outs: Seq<Seq<char>> = Seq::empty();
    let close: Vec<char> = vec!['}'];
    let mut i: usize = 0;
    while i < pieces.len()
        invariant
            ps == pieces.deep_view(),
            ps == seq_split_str(s@, "{color-"@),
            close@ == seq!['}'],
            0 <= i <= ps.len(),
            outs.len() == i,
            forall|j: int| 0 <= j < i ==> placeholder_output(#[trigger] ps[j], outs[j]),
            out@ == outs.flatten(),
        decreases ps.len() - i,
    {
        let piece: &str = pieces[i].as_str();
        assert(piece@ == ps[i as int]);
        let v = chars_of(piece);
        let found = vec_find_from(&v, &close, 0);
        let ghost before = outs;
        match found {
            None => {
                append_str(&mut out, piece);
                proof {
                    outs = outs.push(piece@);
                    before.lemma_flatten_push(piece@);
                }
            },
            Some(len) => {
                proof {
                    crate::text::lemma_find_from_contains(v@, seq!['}'], 0);
                }
                let vl = v.len();
                assert(len < vl);
                let name = string_of_range(&v, 0, len);
                assert(name@ == v@.take(len as int));
                match CrabFetchColor::from_str(name.as_str()) {
                    Err(_) => {
                        proof {
                            outs = outs.push(Seq::<char>::empty());
                            before.lemma_flatten_push(Seq::<char>::empty());
                        }
                    },
                    Ok(c) => {
                        let rest = string_of_range(&v, len + 1, v.len());
                        assert(rest@ == v@.skip(len + 1));
                        let painted = c.color_string(rest.as_str(), false, false);
                        append_str(&mut out, painted.as_str());
                        proof {
                            outs = outs.push(painted@);
                            before.lemma_flatten_push(painted@);
                        }
                    },
                }
            },
        }
        assert(placeholder_output(ps[i as int], outs[i as int]));
        i += 1;
    }
    proof {
        lemma_split_str_nonempty(s@, "{color-"@);
    }
    out
}

/// The plain color that a bright color brightens; every other color is its own.
pub open spec fn unbright(c: CrabFetchColor) -> CrabFetchColor {
    match c {
        CrabFetchColor::BrightBlack => CrabFetchColor::Black,
        CrabFetchColor::BrightRed => CrabFetchColor::Red,
        CrabFetchColor::BrightGreen => CrabFetchColor::Green,
        CrabFetchColor::BrightYellow => CrabFetchColor::Yellow,
        CrabFetchColor::BrightBlue => CrabFetchColor::Blue,
        CrabFetchColor::BrightMagenta => CrabFetchColor::Magenta,
        CrabFetchColor::BrightCyan => CrabFetchColor::Cyan,
        CrabFetchColor::BrightWhite => CrabFetchColor::White,
        _ => c,
    }
}

/// Every color is read back from its own name: a plain color from the name colored gives it
/// (`cyan` is `Cyan`), a bright one from that name with the space taken out (`bright cyan` is
/// written `brightcyan`), and `Clear` from `clear`.
pub proof fn lemma_color_names_round_trip(c: CrabFetchColor)
    ensures
        c != CrabFetchColor::Clear && unbright(c) == c ==> color_by_name(colored_name(c)) == Some(c),
        unbright(c) != c ==> colored_name(c) == "bright "@ + colored_name(unbright(c)) && color_by_name(
            "bright"@ + colored_name(unbright(c)),
        ) == Some(c),
        c == CrabFetchColor::Clear ==> color_by_name("clear"@) == Some(c),
{
    reveal_strlit("black");
    reveal_strlit("red");
    reveal_strlit("green");
    reveal_strlit("yellow");
    reveal_strlit("blue");
    reveal_strlit("magenta");
    reveal_strlit("cyan");
    reveal_strlit("white");
    reveal_strlit("brightblack");
    reveal_strlit("brightred");
    reveal_strlit("brightgreen");
    reveal_strlit("brightyellow");
    reveal_strlit("brightblue");
    reveal_strlit("brightmagenta");
    reveal_strlit("brightcyan");
    reveal_strlit("brightwhite");
    reveal_strlit("clear");
    reveal_strlit("bright");
    reveal_strlit("bright ");
    reveal_strlit("bright black");
    reveal_strlit("bright red");
    reveal_strlit("bright green");
    reveal_strlit("bright yellow");
    reveal_strlit("bright blue");
    reveal_strlit("bright magenta");
    reveal_strlit("bright cyan");
    reveal_strlit("bright white");
    match c {
        CrabFetchColor::Black => {
            assert(color_by_name("black"@) == Some(CrabFetchColor::Black));
        },
        CrabFetchColor::Red => {
            assert("red"@ != "black"@);
        },
        CrabFetchColor::Green => {
            assert("green"@[0] != "black"@[0]);
            assert("green"@ != "black"@ && "green"@ != "red"@);
        },
        CrabFetchColor::Yellow => {
            assert("yellow"@ != "black"@ && "yellow"@ != "red"@ && "yellow"@ != "green"@);
        },
        CrabFetchColor::Blue => {
            assert("blue"@ != "black"@ && "blue"@ != "red"@ && "blue"@ != "green"@ && "blue"@ != "yellow"@);
        },
        CrabFetchColor::Magenta => {
            assert("magenta"@ != "black"@ && "magenta"@ != "red"@ && "magenta"@ != "green"@ && "magenta"@ != "yellow"@
                && "magenta"@ != "blue"@);
        },
        CrabFetchColor::Cyan => {
            assert("cyan"@[0] != "blue"@[0]);
            assert("cyan"@ != "black"@ && "cyan"@ != "red"@ && "cyan"@ != "green"@ && "cyan"@ != "yellow"@
                && "cyan"@ != "blue"@ && "cyan"@ != "magenta"@);
        },
        CrabFetchColor::White => {
            assert("white"@[0] != "black"@[0] && "white"@[0] != "green"@[0]);
            assert("white"@ != "black"@ && "white"@ != "red"@ && "white"@ != "green"@ && "white"@ != "yellow"@
                && "white"@ != "blue"@ && "white"@ != "magenta"@ && "white"@ != "cyan"@);
        },
        CrabFetchColor::Clear => {
            lemma_not_plain_name("clear"@);
            assert("clear"@[0] == 'c' && "clear"@.len() == 5);
            assert("brightblack"@.len() == 11 && "brightred"@.len() == 9 && "brightgreen"@.len() == 11);
            assert("brightyellow"@.len() == 12 && "brightblue"@.len() == 10 && "brightmagenta"@.len() == 13);
            assert("brightcyan"@.len() == 10 && "brightwhite"@.len() == 11);
        },
        _ => {
            let base = colored_name(unbright(c));
            let joined = "bright"@ + base;
            assert(joined[0] == 'b' && joined[1] == 'r');
            lemma_not_plain_name(joined);
            assert("bright "@ + base =~= colored_name(c)) by {
                assert("bright "@ + "black"@ =~= "bright black"@);
                assert("bright "@ + "red"@ =~= "bright red"@);
                assert("bright "@ + "green"@ =~= "bright green"@);
                assert("bright "@ + "yellow"@ =~= "bright yellow"@);
                assert("bright "@ + "blue"@ =~= "bright blue"@);
                assert("bright "@ + "magenta"@ =~= "bright magenta"@);
                assert("bright "@ + "cyan"@ =~= "bright cyan"@);
                assert("bright "@ + "white"@ =~= "bright white"@);
            }
            assert("bright"@ + "black"@ =~= "brightblack"@);
            assert("bright"@ + "red"@ =~= "brightred"@);
            assert("bright"@ + "green"@ =~= "brightgreen"@);
            assert("bright"@ + "yellow"@ =~= "brightyellow"@);
            assert("bright"@ + "blue"@ =~= "brightblue"@);
            assert("bright"@ + "magenta"@ =~= "brightmagenta"@);
            assert("bright"@ + "cyan"@ =~= "brightcyan"@);
            assert("bright"@ + "white"@ =~= "brightwhite"@);
            assert("brightblack"@.len() == 11 && "brightred"@.len() == 9 && "brightgreen"@.len() == 11);
            assert("brightyellow"@.len() == 12 && "brightblue"@.len() == 10 && "brightmagenta"@.len() == 13);
            assert("brightcyan"@.len() == 10 && "brightwhite"@.len() == 11);
            assert("brightblack"@[6] == 'b' && "brightgreen"@[6] == 'g' && "brightwhite"@[6] == 'w');
            assert("brightblue"@[6] == 'b' && "brightcyan"@[6] == 'c');
        },
    }
}

/// None of the plain color names begins with `br` or with `cl`.
proof fn lemma_not_plain_name(n: Seq<char>)
    requires
        n.len() >= 2,
        (n[0] == 'b' && n[1] == 'r') || (n[0] == 'c' && n[1] == 'l'),
    ensures
        n != "black"@ && n != "red"@ && n != "green"@ && n != "yellow"@ && n != "blue"@ && n != "magenta"@
            && n != "cyan"@ && n != "white"@,
{
    reveal_strlit("black");
    reveal_strlit("red");
    reveal_strlit("green");
    reveal_strlit("yellow");
    reveal_strlit("blue");
    reveal_strlit("magenta");
    reveal_strlit("cyan");
    reveal_strlit("white");
    assert("black"@[1] == 'l' && "blue"@[1] == 'l' && "cyan"@[1] == 'y');
}

/// Different names never read as the same color: a color has one name.
pub proof fn lemma_color_names_distinct(a: Seq<char>, b: Seq<char>)
    requires
        color_by_name(a) is Some,
        color_by_name(a) == color_by_name(b),
    ensures
        a == b,
{
}

} // verus!
