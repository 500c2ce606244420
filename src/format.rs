//! The two line layouts: plain, and colored with ANSI escapes.
use vstd::prelude::*;
use vstd::string::StringExecFns;
use crate::level::{Level, color_code_of, label_of};
use crate::text::{decimal, digit, pad_left, push_decimal, push_digit, push_padded, spaces};

verus! {

/// Width of the field that holds the elapsed time.
pub const STAMP_WIDTH: usize = 10;

/// Whole milliseconds in `nanos` nanoseconds, rounded to nearest (halves up).
pub open spec fn millis_of(nanos: nat) -> nat {
    nanos / 1_000_000 + if nanos % 1_000_000 >= 500_000 { 1nat } else { 0nat }
}

/// The last three decimal digits of `r`, zeros kept.
pub open spec fn three_digits(r: nat) -> Seq<char> {
    seq![digit((r / 100) % 10), digit((r / 10) % 10), digit(r % 10)]
}

/// `ms` milliseconds written as seconds with three decimals, right-aligned
/// in the stamp field.
pub open spec fn stamp_of(ms: nat) -> Seq<char> {
    pad_left(decimal(ms / 1000) + "."@ + three_digits(ms % 1000), STAMP_WIDTH as nat)
}

/// `[<stamp>] > <label> > <message>`, without escapes.
pub open spec fn plain_layout(stamp: Seq<char>, label: Seq<char>, message: Seq<char>) -> Seq<
    char,
> {
    "["@ + stamp + "] > "@ + label + " > "@ + message
}

/// The plain line for a record.
pub open spec fn plain_line_of(ms: nat, level: Level, message: Seq<char>) -> Seq<char> {
    plain_layout(stamp_of(ms), label_of(level), message)
}

/// An SGR escape sequence: ESC, `[`, the parameters, `m`.
pub open spec fn sgr(code: Seq<char>) -> Seq<char> {
    seq!['\x1B', '['] + code + seq!['m']
}

/// SGR parameters that select bold gray.
pub open spec fn gray() -> Seq<char> {
    "1;90"@
}

/// SGR parameters that select bold in the default color.
pub open spec fn default_color() -> Seq<char> {
    "1;39"@
}

/// SGR parameters that reset all attributes.
pub open spec fn reset() -> Seq<char> {
    "0"@
}

/// The plain layout with escapes around its parts: the stamp and the
/// separators in gray, the label in the color that `code` selects, the
/// message in the default color.
pub open spec fn colored_layout(
    stamp: Seq<char>,
    code: Seq<char>,
    label: Seq<char>,
    message: Seq<char>,
) -> Seq<char> {
    sgr(gray()) + "["@ + stamp + "] >"@ + sgr(reset()) + " "@ + sgr(code) + label + sgr(reset())
        + sgr(gray()) + " >"@ + sgr(reset()) + " "@ + sgr(default_color()) + message
}

/// The colored line for a record.
pub open spec fn colored_line_of(ms: nat, level: Level, message: Seq<char>) -> Seq<char> {
    colored_layout(stamp_of(ms), color_code_of(level), label_of(level), message)
}

/// The line for a record, in the layout that `color` selects.
pub open spec fn line_of(color: bool, ms: nat, level: Level, message: Seq<char>) -> Seq<char> {
    if color {
        colored_line_of(ms, level, message)
    } else {
        plain_line_of(ms, level, message)
    }
}

/// Rounds an elapsed time in nanoseconds to whole milliseconds.
pub fn millis_from_nanos(nanos: u128) -> (r: u128)
    ensures
        r == millis_of(nanos as nat),
{
    let whole = nanos / 1_000_000;
    if nanos % 1_000_000 >= 500_000 {
        whole + 1
    } else {
        whole
    }
}

/// Appends the stamp for `ms` milliseconds to `out`.
pub fn push_stamp(out: &mut String, ms: u128)
    ensures
        final(out)@ == old(out)@ + stamp_of(ms as nat),
{
    let mut body = String::new();
    push_decimal(&mut body, ms / 1000);
    body.append(".");
    let frac = ms % 1000;
    push_digit(&mut body, (frac / 100) % 10);
    push_digit(&mut body, (frac / 10) % 10);
    push_digit(&mut body, frac % 10);
    assert(body@ =~= decimal((ms / 1000) as nat) + "."@ + three_digits((ms % 1000) as nat));
    push_padded(out, body.as_str(), STAMP_WIDTH);
}

/// Builds the plain line for a record.
pub fn plain_line(ms: u128, level: Level, message: &str) -> (r: String)
    ensures
        r@ == plain_line_of(ms as nat, level, message@),
{
    let mut out = String::from_str("[");
    push_stamp(&mut out, ms);
    out.append("] > ");
    out.append(level.label());
    out.append(" > ");
    out.append(message);
    assert(out@ =~= plain_line_of(ms as nat, level, message@));
    out
}

/// Appends the SGR escape sequence with parameters `code` to `out`.
pub fn push_sgr(out: &mut String, code: &str)
    ensures
        final(out)@ == old(out)@ + sgr(code@),
{
    proof {
        reveal_strlit("\x1B[");
        reveal_strlit("m");
    }
    out.append("\x1B[");
    out.append(code);
    out.append("m");
    assert(final(out)@ =~= old(out)@ + sgr(code@));
}

/// Builds the colored line for a record.
pub fn colored_line(ms: u128, level: Level, message: &str) -> (r: String)
    ensures
        r@ == colored_line_of(ms as nat, level, message@),
{
    let mut out = String::new();
    push_sgr(&mut out, "1;90");
    out.append("[");
    push_stamp(&mut out, ms);
    out.append("] >");
    push_sgr(&mut out, "0");
    out.append(" ");
    push_sgr(&mut out, level.color_code());
    out.append(level.label());
    push_sgr(&mut out, "0");
    push_sgr(&mut out, "1;90");
    out.append(" >");
    push_sgr(&mut out, "0");
    out.append(" ");
    push_sgr(&mut out, "1;39");
    out.append(message);
    assert(out@ =~= colored_line_of(ms as nat, level, message@));
    out
}

/// What is left of `s` once every escape sequence, from an ESC up to and
/// including the next `m`, is removed; `inside` says whether `s` starts
/// within such a sequence.
pub open spec fn strip_from(s: Seq<char>, inside: bool) -> Seq<char>
    decreases s.len(),
{
    if s.len() == 0 {
        Seq::empty()
    } else if inside {
        strip_from(s.drop_first(), s[0] != 'm')
    } else if s[0] == '\x1B' {
        strip_from(s.drop_first(), true)
    } else {
        seq![s[0]] + strip_from(s.drop_first(), false)
    }
}

/// `s` with its escape sequences removed.
pub open spec fn strip_escapes(s: Seq<char>) -> Seq<char> {
    strip_from(s, false)
}

/// `t` holds no ESC character.
pub open spec fn no_escape(t: Seq<char>) -> bool {
    forall|i: int| 0 <= i < t.len() ==> t[i] != '\x1B'
}

/// `c` holds no `m`, so it can stand inside an SGR sequence.
pub open spec fn no_final_m(c: Seq<char>) -> bool {
    forall|i: int| 0 <= i < c.len() ==> c[i] != 'm'
}

proof fn lemma_strip_text(t: Seq<char>, rest: Seq<char>)
    requires
        no_escape(t),
    ensures
        strip_from(t + rest, false) == t + strip_from(rest, false),
    decreases t.len(),
{
    if t.len() == 0 {
        assert(t + rest =~= rest);
        assert(t + strip_from(rest, false) =~= strip_from(rest, false));
    } else {
        let s = t + rest;
        let tail = t.drop_first();
        assert(s[0] == t[0]);
        assert(s.drop_first() =~= tail + rest);
        lemma_strip_text(tail, rest);
        assert(t + strip_from(rest, false) =~= seq![t[0]] + (tail + strip_from(rest, false)));
    }
}

proof fn lemma_strip_inside(c: Seq<char>, rest: Seq<char>)
    requires
        no_final_m(c),
    ensures
        strip_from(c + seq!['m'] + rest, true) == strip_from(rest, false),
    decreases c.len(),
{
    let s = c + seq!['m'] + rest;
    if c.len() == 0 {
        assert(s[0] == 'm');
        assert(s.drop_first() =~= rest);
    } else {
        assert(s[0] == c[0]);
        assert(s.drop_first() =~= c.drop_first() + seq!['m'] + rest);
        lemma_strip_inside(c.drop_first(), rest);
    }
}

proof fn lemma_strip_sgr(code: Seq<char>, rest: Seq<char>)
    requires
        no_final_m(code),
    ensures
        strip_from(sgr(code) + rest, false) == strip_from(rest, false),
{
    let s = sgr(code) + rest;
    let params = seq!['['] + code;
    assert(s[0] == '\x1B');
    assert(s.drop_first() =~= params + seq!['m'] + rest);
    lemma_strip_inside(params, rest);
}

proof fn lemma_decimal_no_escape(n: nat)
    ensures
        no_escape(decimal(n)),
    decreases n,
{
    if n >= 10 {
        lemma_decimal_no_escape(n / 10);
        lemma_digit_no_escape(n % 10);
        assert(decimal(n) =~= decimal(n / 10) + seq![digit(n % 10)]);
    } else {
        lemma_digit_no_escape(n);
    }
}

proof fn lemma_digit_no_escape(d: nat)
    requires
        d < 10,
    ensures
        digit(d) != '\x1B',
{
    let ds = seq!['0', '1', '2', '3', '4', '5', '6', '7', '8', '9'];
    assert(ds[0] == '0' && ds[1] == '1' && ds[2] == '2' && ds[3] == '3' && ds[4] == '4');
    assert(ds[5] == '5' && ds[6] == '6' && ds[7] == '7' && ds[8] == '8' && ds[9] == '9');
}

proof fn lemma_stamp_no_escape(ms: nat)
    ensures
        no_escape(stamp_of(ms)),
{
    reveal_strlit(".");
    let r = ms % 1000;
    lemma_decimal_no_escape(ms / 1000);
    lemma_digit_no_escape((r / 100) % 10);
    lemma_digit_no_escape((r / 10) % 10);
    lemma_digit_no_escape(r % 10);
    let body = decimal(ms / 1000) + "."@ + three_digits(r);
    assert(no_escape(body));
    if body.len() < STAMP_WIDTH {
        assert(no_escape(spaces((STAMP_WIDTH - body.len()) as nat)));
    }
}

proof fn lemma_fixed_pieces()
    ensures
        no_final_m(gray()),
        no_final_m(reset()),
        no_final_m(default_color()),
        no_escape("["@),
        no_escape("] >"@),
        no_escape(" >"@),
        no_escape(" "@),
        "] > "@ == "] >"@ + " "@,
        " > "@ == " >"@ + " "@,
{
    reveal_strlit("[");
    reveal_strlit("] >");
    reveal_strlit("] > ");
    reveal_strlit(" ");
    reveal_strlit(" >");
    reveal_strlit(" > ");
    reveal_strlit("1;90");
    reveal_strlit("1;39");
    reveal_strlit("0");
    assert("] > "@ =~= "] >"@ + " "@);
    assert(" > "@ =~= " >"@ + " "@);
}

proof fn lemma_level_pieces(level: Level)
    ensures
        no_final_m(color_code_of(level)),
        no_escape(label_of(level)),
{
    match level {
        Level::Error => {
            reveal_strlit("1;31");
            reveal_strlit("Error ");
        },
        Level::Warn => {
            reveal_strlit("1;93");
            reveal_strlit("Warn  ");
        },
        Level::Info => {
            reveal_strlit("1;34");
            reveal_strlit("Info  ");
        },
        Level::Debug => {
            reveal_strlit("1;35");
            reveal_strlit("Debug ");
        },
        Level::Trace => {
            reveal_strlit("1;36");
            reveal_strlit("Trace ");
        },
    }
}

proof fn lemma_strip_colored_tail(code: Seq<char>, label: Seq<char>, message: Seq<char>)
    requires
        no_final_m(code),
        no_escape(label),
    ensures
        strip_from(
            sgr(reset()) + " "@ + sgr(code) + label + sgr(reset()) + sgr(gray()) + " >"@ + sgr(
                reset(),
            ) + " "@ + sgr(default_color()) + message,
            false,
        ) == " "@ + label + " >"@ + " "@ + strip_from(message, false),
{
    lemma_fixed_pieces();
    let r9 = sgr(default_color()) + message;
    let r8 = " "@ + r9;
    let r7 = sgr(reset()) + r8;
    let r6 = " >"@ + r7;
    let r5 = sgr(gray()) + r6;
    let r4 = sgr(reset()) + r5;
    let r3 = label + r4;
    let r2 = sgr(code) + r3;
    let r1 = " "@ + r2;
    let r0 = sgr(reset()) + r1;
    assert(sgr(reset()) + " "@ + sgr(code) + label + sgr(reset()) + sgr(gray()) + " >"@ + sgr(
        reset(),
    ) + " "@ + sgr(default_color()) + message =~= r0);
    lemma_strip_sgr(default_color(), message);
    lemma_strip_text(" "@, r9);
    lemma_strip_sgr(reset(), r8);
    lemma_strip_text(" >"@, r7);
    lemma_strip_sgr(gray(), r6);
    lemma_strip_sgr(reset(), r5);
    lemma_strip_text(label, r4);
    lemma_strip_sgr(code, r3);
    lemma_strip_text(" "@, r2);
    lemma_strip_sgr(reset(), r1);
    assert(" "@ + (label + (" >"@ + (" "@ + strip_from(message, false)))) =~= " "@ + label + " >"@
        + " "@ + strip_from(message, false));
}

proof fn lemma_strip_layouts(stamp: Seq<char>, code: Seq<char>, label: Seq<char>, message: Seq<char>)
    requires
        no_escape(stamp),
        no_final_m(code),
        no_escape(label),
    ensures
        strip_escapes(colored_layout(stamp, code, label, message)) == strip_escapes(
            plain_layout(stamp, label, message),
        ),
        no_escape(message) ==> strip_escapes(colored_layout(stamp, code, label, message))
            == plain_layout(stamp, label, message),
{
    lemma_fixed_pieces();
    let front = "["@ + stamp + "] >"@;
    let head = front + " "@ + label + " >"@ + " "@;
    assert(no_escape(front));
    assert(no_escape(head));
    assert(plain_layout(stamp, label, message) =~= head + message);
    lemma_strip_text(head, message);
    let tail = sgr(reset()) + " "@ + sgr(code) + label + sgr(reset()) + sgr(gray()) + " >"@ + sgr(
        reset(),
    ) + " "@ + sgr(default_color()) + message;
    assert(colored_layout(stamp, code, label, message) =~= sgr(gray()) + (front + tail));
    lemma_strip_colored_tail(code, label, message);
    lemma_strip_text(front, tail);
    lemma_strip_sgr(gray(), front + tail);
    assert(strip_escapes(colored_layout(stamp, code, label, message)) =~= head + strip_escapes(
        message,
    ));
    if no_escape(message) {
        lemma_strip_text(message, Seq::empty());
        assert(message + Seq::<char>::empty() =~= message);
    }
}

/// With its escape sequences removed, a colored line reads as the plain line
/// for the same record: the two layouts differ in escapes alone. Where the
/// message holds no ESC, what is left is the plain line itself.
pub proof fn lemma_colored_strips_to_plain(ms: nat, level: Level, message: Seq<char>)
    ensures
        strip_escapes(colored_line_of(ms, level, message)) == strip_escapes(
            plain_line_of(ms, level, message),
        ),
        no_escape(message) ==> strip_escapes(colored_line_of(ms, level, message)) == plain_line_of(
            ms,
            level,
            message,
        ),
{
    lemma_stamp_no_escape(ms);
    lemma_level_pieces(level);
    lemma_strip_layouts(stamp_of(ms), color_code_of(level), label_of(level), message);
}

} // verus!
