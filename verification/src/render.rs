use vstd::prelude::*;
use vstd::string::StringExecFns;

use crate::color::DisplayColor;

verus! {

/// The textual encoding of one color.
#[derive(Clone, Copy, PartialEq, Eq, Structural, Debug)]
pub enum Format {
    /// Six uppercase hexadecimal digits, two per channel, no prefix.
    Hex,
    /// A decimal triplet `(R,G,B)`.
    Rgb,
    /// A fixed-width blank block, rendered as a colored strip.
    Swatch,
}

/// Which part of the terminal cell an escape sequence colors.
#[derive(Clone, Copy, PartialEq, Eq, Structural, Debug)]
pub enum Colorize {
    Fg,
    Bg,
}

/// The decimal digit character for `d`.
pub open spec fn dec_digit(d: u8) -> char {
    if d == 0 {
        '0'
    } else if d == 1 {
        '1'
    } else if d == 2 {
        '2'
    } else if d == 3 {
        '3'
    } else if d == 4 {
        '4'
    } else if d == 5 {
        '5'
    } else if d == 6 {
        '6'
    } else if d == 7 {
        '7'
    } else if d == 8 {
        '8'
    } else {
        '9'
    }
}

/// The uppercase hexadecimal digit character for `d`.
pub open spec fn hex_digit(d: u8) -> char {
    if d < 10 {
        dec_digit(d)
    } else if d == 10 {
        'A'
    } else if d == 11 {
        'B'
    } else if d == 12 {
        'C'
    } else if d == 13 {
        'D'
    } else if d == 14 {
        'E'
    } else {
        'F'
    }
}

/// `n` in decimal, without leading zeros.
pub open spec fn dec_chars(n: u8) -> Seq<char> {
    if n < 10 {
        seq![dec_digit(n)]
    } else if n < 100 {
        seq![dec_digit(n / 10), dec_digit(n % 10)]
    } else {
        seq![dec_digit(n / 100), dec_digit((n / 10) % 10), dec_digit(n % 10)]
    }
}

/// `n` as exactly two uppercase hexadecimal digits.
pub open spec fn hex_chars(n: u8) -> Seq<char> {
    seq![hex_digit(n / 16), hex_digit(n % 16)]
}

/// The hex encoding of a display color: `RRGGBB`, uppercase, no prefix.
pub open spec fn hex_code(c: DisplayColor) -> Seq<char> {
    hex_chars(c.r) + hex_chars(c.g) + hex_chars(c.b)
}

/// The decimal-triplet encoding of a display color: `(R,G,B)`.
pub open spec fn rgb_code(c: DisplayColor) -> Seq<char> {
    seq!['('] + dec_chars(c.r) + seq![','] + dec_chars(c.g) + seq![','] + dec_chars(c.b)
        + seq![')']
}

/// The blank-swatch encoding: three spaces, one block of color when
/// background-colorized.
pub open spec fn swatch_code() -> Seq<char> {
    seq![' ', ' ', ' ']
}

/// The text of one color under the chosen encoding.
pub open spec fn encoded(format: Format, c: DisplayColor) -> Seq<char> {
    match format {
        Format::Hex => hex_code(c),
        Format::Rgb => rgb_code(c),
        Format::Swatch => swatch_code(),
    }
}

/// The `R;G;B` argument list of a truecolor escape sequence.
pub open spec fn color_args(c: DisplayColor) -> Seq<char> {
    dec_chars(c.r) + seq![';'] + dec_chars(c.g) + seq![';'] + dec_chars(c.b)
}

/// The escape sequence that sets the foreground or background to the given
/// display color: `ESC [ 38;2;R;G;B m` for the foreground, `48` for the
/// background.
pub open spec fn style_prefix(mode: Colorize, c: DisplayColor) -> Seq<char> {
    match mode {
        Colorize::Fg => seq!['\u{1B}', '[', '3', '8', ';', '2', ';'] + color_args(c) + seq!['m'],
        Colorize::Bg => seq!['\u{1B}', '[', '4', '8', ';', '2', ';'] + color_args(c) + seq!['m'],
    }
}

/// The escape sequence that resets all terminal attributes.
pub open spec fn style_reset() -> Seq<char> {
    seq!['\u{1B}', '[', '0', 'm']
}

/// The colorization actually applied: the blank-swatch encoding forces
/// background colorization, whatever was configured; every other encoding
/// keeps the configured mode.
pub open spec fn effective_colorize(format: Format, colorize: Option<Colorize>) -> Option<
    Colorize,
> {
    match format {
        Format::Swatch => Some(Colorize::Bg),
        _ => colorize,
    }
}

/// The delimiter between rendered colors: empty for the blank-swatch
/// encoding (a contiguous strip), one space otherwise.
pub open spec fn delimiter(format: Format) -> Seq<char> {
    match format {
        Format::Swatch => Seq::<char>::empty(),
        _ => seq![' '],
    }
}

/// The full text of one rendered color: its encoding, wrapped in a
/// truecolor escape sequence and a reset when colorization applies.
pub open spec fn piece(format: Format, colorize: Option<Colorize>, c: DisplayColor) -> Seq<
    char,
> {
    match effective_colorize(format, colorize) {
        Some(mode) => style_prefix(mode, c) + encoded(format, c) + style_reset(),
        None => encoded(format, c),
    }
}

/// One line of output: the rendered colors in sequence order, joined by
/// the encoding's delimiter. An empty palette renders as the empty line.
pub open spec fn rendered_line(
    colors: Seq<DisplayColor>,
    format: Format,
    colorize: Option<Colorize>,
) -> Seq<char>
    decreases colors.len(),
{
    if colors.len() == 0 {
        Seq::<char>::empty()
    } else if colors.len() == 1 {
        piece(format, colorize, colors[0])
    } else {
        rendered_line(colors.drop_last(), format, colorize) + delimiter(format) + piece(
            format,
            colorize,
            colors.last(),
        )
    }
}

fn dec_digit_str(d: u8) -> (s: &'static str)
    requires
        d < 10,
    ensures
        s@ == seq![dec_digit(d)],
{
    proof {
        reveal_strlit("0");
        reveal_strlit("1");
        reveal_strlit("2");
        reveal_strlit("3");
        reveal_strlit("4");
        reveal_strlit("5");
        reveal_strlit("6");
        reveal_strlit("7");
        reveal_strlit("8");
        reveal_strlit("9");
    }
    if d == 0 {
        proof {
            assert("0"@ =~= seq![dec_digit(d)]);
        }
        "0"
    } else if d == 1 {
        proof {
            assert("1"@ =~= seq![dec_digit(d)]);
        }
        "1"
    } else if d == 2 {
        proof {
            assert("2"@ =~= seq![dec_digit(d)]);
        }
        "2"
    } else if d == 3 {
        proof {
            assert("3"@ =~= seq![dec_digit(d)]);
        }
        "3"
    } else if d == 4 {
        proof {
            assert("4"@ =~= seq![dec_digit(d)]);
        }
        "4"
    } else if d == 5 {
        proof {
            assert("5"@ =~= seq![dec_digit(d)]);
        }
        "5"
    } else if d == 6 {
        proof {
            assert("6"@ =~= seq![dec_digit(d)]);
        }
        "6"
    } else if d == 7 {
        proof {
            assert("7"@ =~= seq![dec_digit(d)]);
        }
        "7"
    } else if d == 8 {
        proof {
            assert("8"@ =~= seq![dec_digit(d)]);
        }
        "8"
    } else {
        proof {
            assert("9"@ =~= seq![dec_digit(d)]);
        }
        "9"
    }
}

fn hex_digit_str(d: u8) -> (s: &'static str)
    requires
        d < 16,
    ensures
        s@ == seq![hex_digit(d)],
{
    if d < 10 {
        dec_digit_str(d)
    } else {
        proof {
            reveal_strlit("A");
            reveal_strlit("B");
            reveal_strlit("C");
            reveal_strlit("D");
            reveal_strlit("E");
            reveal_strlit("F");
        }
        if d == 10 {
            proof {
                assert("A"@ =~= seq![hex_digit(d)]);
            }
            "A"
        } else if d == 11 {
            proof {
                assert("B"@ =~= seq![hex_digit(d)]);
            }
            "B"
        } else if d == 12 {
            proof {
                assert("C"@ =~= seq![hex_digit(d)]);
            }
            "C"
        } else if d == 13 {
            proof {
                assert("D"@ =~= seq![hex_digit(d)]);
            }
            "D"
        } else if d == 14 {
            proof {
                assert("E"@ =~= seq![hex_digit(d)]);
            }
            "E"
        } else {
            proof {
                assert("F"@ =~= seq![hex_digit(d)]);
            }
            "F"
        }
    }
}

fn push_dec(s: &mut String, n: u8)
    ensures
        final(s)@ == old(s)@ + dec_chars(n),
{
    let ghost s0 = s@;
    if n < 10 {
        s.append(dec_digit_str(n));
        proof {
            assert(s@ =~= s0 + dec_chars(n));
        }
    } else if n < 100 {
        s.append(dec_digit_str(n / 10));
        s.append(dec_digit_str(n % 10));
        proof {
            assert(s@ =~= s0 + dec_chars(n));
        }
    } else {
        s.append(dec_digit_str(n / 100));
        s.append(dec_digit_str((n / 10) % 10));
        s.append(dec_digit_str(n % 10));
        proof {
            assert(s@ =~= s0 + dec_chars(n));
        }
    }
}

fn push_hex2(s: &mut String, n: u8)
    ensures
        final(s)@ == old(s)@ + hex_chars(n),
{
    let ghost s0 = s@;
    s.append(hex_digit_str(n / 16));
    s.append(hex_digit_str(n % 16));
    proof {
        assert(s@ =~= s0 + hex_chars(n));
    }
}

fn push_encoded(s: &mut String, format: Format, c: DisplayColor)
    ensures
        final(s)@ == old(s)@ + encoded(format, c),
{
    let ghost s0 = s@;
    match format {
        Format::Hex => {
            push_hex2(s, c.r);
            push_hex2(s, c.g);
            push_hex2(s, c.b);
            proof {
                assert(s@ =~= s0 + hex_code(c));
            }
        },
        Format::Rgb => {
            s.append("(");
            push_dec(s, c.r);
            s.append(",");
            push_dec(s, c.g);
            s.append(",");
            push_dec(s, c.b);
            s.append(")");
            proof {
                reveal_strlit("(");
                reveal_strlit(",");
                reveal_strlit(")");
                assert(s@ =~= s0 + rgb_code(c));
            }
        },
        Format::Swatch => {
            s.append("   ");
            proof {
                reveal_strlit("   ");
                assert(s@ =~= s0 + swatch_code());
            }
        },
    }
}

fn push_style_prefix(s: &mut String, mode: Colorize, c: DisplayColor)
    ensures
        final(s)@ == old(s)@ + style_prefix(mode, c),
{
    let ghost s0 = s@;
    match mode {
        Colorize::Fg => {
            s.append("\u{1B}[38;2;");
        },
        Colorize::Bg => {
            s.append("\u{1B}[48;2;");
        },
    }
    push_dec(s, c.r);
    s.append(";");
    push_dec(s, c.g);
    s.append(";");
    push_dec(s, c.b);
    s.append("m");
    proof {
        reveal_strlit("\u{1B}[38;2;");
        reveal_strlit("\u{1B}[48;2;");
        reveal_strlit(";");
        reveal_strlit("m");
        assert(s@ =~= s0 + style_prefix(mode, c));
    }
}

fn push_reset(s: &mut String)
    ensures
        final(s)@ == old(s)@ + style_reset(),
{
    let ghost s0 = s@;
    s.append("\u{1B}[0m");
    proof {
        reveal_strlit("\u{1B}[0m");
        assert(s@ =~= s0 + style_reset());
    }
}

pub fn exec_effective_colorize(format: Format, colorize: Option<Colorize>) -> (r: Option<
    Colorize,
>)
    ensures
        r == effective_colorize(format, colorize),
{
    if format == Format::Swatch {
        Some(Colorize::Bg)
    } else {
        colorize
    }
}

fn delimiter_str(format: Format) -> (s: &'static str)
    ensures
        s@ == delimiter(format),
{
    if format == Format::Swatch {
        proof {
            reveal_strlit("");
            assert(""@ =~= delimiter(format));
        }
        ""
    } else {
        proof {
            reveal_strlit(" ");
            assert(" "@ =~= delimiter(format));
        }
        " "
    }
}

fn push_piece(s: &mut String, format: Format, colorize: Option<Colorize>, c: DisplayColor)
    ensures
        final(s)@ == old(s)@ + piece(format, colorize, c),
{
    let ghost s0 = s@;
    let eff = exec_effective_colorize(format, colorize);
    match eff {
        Some(mode) => {
            push_style_prefix(s, mode, c);
            push_encoded(s, format, c);
            push_reset(s);
            proof {
                assert(s@ =~= s0 + piece(format, colorize, c));
            }
        },
        None => {
            push_encoded(s, format, c);
            proof {
                assert(s@ =~= s0 + piece(format, colorize, c));
            }
        },
    }
}

/// Render one line of output for the given display colors: each color
/// encoded and, when colorization applies, wrapped in a truecolor escape
/// sequence, all joined with the encoding's delimiter. The caller writes
/// the line, newline-terminated, to its output sink.
pub fn render_line(colors: &Vec<DisplayColor>, format: Format, colorize: Option<Colorize>) -> (line:
    String)
    ensures
        line@ == rendered_line(colors@, format, colorize),
{
    let n = colors.len();
    let mut line = String::new();
    let mut i: usize = 0;
    while i < n
        invariant
            i <= n,
            n == colors@.len(),
            line@ == rendered_line(colors@.take(i as int), format, colorize),
        decreases n - i,
    {
        if i > 0 {
            let d = delimiter_str(format);
            line.append(d);
        }
        push_piece(&mut line, format, colorize, colors[i]);
        proof {
            let pre = colors@.take(i as int);
            let post = colors@.take(i as int + 1);
            assert(post.drop_last() =~= pre);
            assert(post.last() == colors@[i as int]);
            if i == 0 {
                assert(post[0] == colors@[0]);
                assert(rendered_line(post, format, colorize) == piece(
                    format,
                    colorize,
                    colors@[0],
                ));
            } else {
                assert(rendered_line(post, format, colorize) == rendered_line(
                    pre,
                    format,
                    colorize,
                ) + delimiter(format) + piece(format, colorize, colors@[i as int]));
            }
            assert(line@ =~= rendered_line(post, format, colorize));
        }
        i = i + 1;
    }
    proof {
        assert(colors@.take(n as int) =~= colors@);
    }
    line
}

/// The blank-swatch encoding renders the same line whatever colorization
/// was configured: it forces background colorization, and its delimiter is
/// the empty string.
pub proof fn lemma_swatch_forces_background(
    colors: Seq<DisplayColor>,
    colorize: Option<Colorize>,
)
    ensures
        rendered_line(colors, Format::Swatch, colorize) == rendered_line(
            colors,
            Format::Swatch,
            Some(Colorize::Bg),
        ),
        delimiter(Format::Swatch) == Seq::<char>::empty(),
    decreases colors.len(),
{
    if colors.len() <= 1 {
    } else {
        lemma_swatch_forces_background(colors.drop_last(), colorize);
    }
}

/// An empty palette renders as a zero-width line, for every encoding and
/// colorization mode.
pub proof fn lemma_empty_palette_renders_empty(format: Format, colorize: Option<Colorize>)
    ensures
        rendered_line(Seq::<DisplayColor>::empty(), format, colorize) == Seq::<char>::empty(),
{
}

} // verus!
