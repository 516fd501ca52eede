//! Rendering of transcript items into the exact line-oriented output
//! format: `[start-stop] word` spans with five-wide, two-decimal time
//! fields, space-prefixed plain words, and `<endofturn pr=P>` markers.

use vstd::prelude::*;
use vstd::string::StringExecFns;
use crate::events::ItemView;
use crate::events::OutputItem;

verus! {

/// Relies on `String::push`, which appends exactly the given character to
/// the end of the string.
#[verifier::external_body]
fn push_char(s: &mut String, c: char)
    ensures
        final(s)@ == old(s)@.push(c),
{
    s.push(c);
}

/// The decimal digit character for a value below ten.
pub open spec fn spec_digit(d: nat) -> char {
    if d == 0 {
        '0'
    } else if d == 1 {
        '1'
    } else if d == 2 {
        '2'
    } else if d == 3 {
        '3'
    } else if d == 4 {
        '4'
    } else if d == 5 {
        '5'
    } else if d == 6 {
        '6'
    } else if d == 7 {
        '7'
    } else if d == 8 {
        '8'
    } else {
        '9'
    }
}

fn digit_char(d: u64) -> (c: char)
    requires
        d < 10,
    ensures
        c == spec_digit(d as nat),
{
    match d {
        0 => '0',
        1 => '1',
        2 => '2',
        3 => '3',
        4 => '4',
        5 => '5',
        6 => '6',
        7 => '7',
        8 => '8',
        _ => '9',
    }
}

/// The decimal digit sequence of `n`, most significant digit first, with no
/// leading zeros (a single zero digit for zero).
pub open spec fn dec_digits(n: nat) -> Seq<char>
    decreases n,
{
    if n < 10 {
        seq![spec_digit(n)]
    } else {
        dec_digits(n / 10).push(spec_digit(n % 10))
    }
}

/// The decimal rendering of `n`.
pub fn u64_dec(n: u64) -> (r: String)
    ensures
        r@ =~= dec_digits(n as nat),
    decreases n,
{
    if n < 10 {
        let mut s = String::new();
        push_char(&mut s, digit_char(n));
        s
    } else {
        let mut s = u64_dec(n / 10);
        push_char(&mut s, digit_char(n % 10));
        s
    }
}

/// A time in centiseconds rendered as seconds with two decimals, left
/// padded with spaces to at least five characters.
pub open spec fn spec_time_field(c: nat) -> Seq<char> {
    let body = dec_digits(c / 100) + seq!['.', spec_digit((c / 10) % 10), spec_digit(c % 10)];
    if c < 1000 {
        seq![' '] + body
    } else {
        body
    }
}

pub fn time_field(c: u64) -> (r: String)
    ensures
        r@ =~= spec_time_field(c as nat),
{
    let mut s = String::new();
    if c < 1000 {
        push_char(&mut s, ' ');
    }
    let whole = u64_dec(c / 100);
    s.append(whole.as_str());
    push_char(&mut s, '.');
    push_char(&mut s, digit_char((c / 10) % 10));
    push_char(&mut s, digit_char(c % 10));
    s
}

/// A probability in permille rendered the way the matching decimal fraction
/// prints: `1` and `0` for the extremes, otherwise `0.` followed by up to
/// three digits with trailing zeros dropped.
pub open spec fn spec_permille(p: nat) -> Seq<char> {
    if p >= 1000 {
        seq!['1']
    } else if p == 0 {
        seq!['0']
    } else {
        seq!['0', '.', spec_digit(p / 100)] + (if p % 10 != 0 {
            seq![spec_digit((p / 10) % 10), spec_digit(p % 10)]
        } else if (p / 10) % 10 != 0 {
            seq![spec_digit((p / 10) % 10)]
        } else {
            Seq::<char>::empty()
        })
    }
}

pub fn permille_str(p: u32) -> (r: String)
    requires
        p <= 1000,
    ensures
        r@ =~= spec_permille(p as nat),
{
    let c: u64 = p as u64;
    if c >= 1000 {
        let mut s = String::new();
        push_char(&mut s, '1');
        s
    } else if c == 0 {
        let mut s = String::new();
        push_char(&mut s, '0');
        s
    } else {
        let mut s = String::new();
        push_char(&mut s, '0');
        push_char(&mut s, '.');
        push_char(&mut s, digit_char(c / 100));
        if c % 10 != 0 {
            push_char(&mut s, digit_char((c / 10) % 10));
            push_char(&mut s, digit_char(c % 10));
        } else if (c / 10) % 10 != 0 {
            push_char(&mut s, digit_char((c / 10) % 10));
        }
        s
    }
}

/// The exact text one transcript item contributes to the output stream.
/// With timestamps, each item is its own line; without, words and markers
/// are streamed space-separated on one line.
pub open spec fn spec_render_item(item: ItemView, timestamps: bool) -> Seq<char> {
    match item {
        ItemView::Plain { text } => " "@ + text,
        ItemView::Timed { text, start_centis, stop_centis } => "["@ + spec_time_field(
            start_centis as nat,
        ) + "-"@ + (match stop_centis {
            Some(sc) => spec_time_field(sc as nat),
            None => "     "@,
        }) + "] "@ + text + "\n"@,
        ItemView::Eot { permille } => if timestamps {
            "<endofturn pr="@ + spec_permille(permille as nat) + ">\n"@
        } else {
            " <endofturn pr="@ + spec_permille(permille as nat) + ">"@
        },
    }
}

pub fn render_item(item: &OutputItem, timestamps: bool) -> (r: String)
    requires
        (item@ matches ItemView::Eot { permille } ==> permille <= 1000),
    ensures
        r@ =~= spec_render_item(item@, timestamps),
{
    match item {
        OutputItem::PlainWord { text } => {
            let mut s = String::from_str(" ");
            s.append(text.as_str());
            s
        },
        OutputItem::TimedWord { text, start_centis, stop_centis } => {
            let mut s = String::from_str("[");
            let start = time_field(*start_centis);
            s.append(start.as_str());
            s.append("-");
            match stop_centis {
                Some(sc) => {
                    let stop = time_field(*sc);
                    s.append(stop.as_str());
                },
                None => {
                    s.append("     ");
                },
            }
            s.append("] ");
            s.append(text.as_str());
            s.append("\n");
            s
        },
        OutputItem::EndOfTurn { permille } => {
            let mut s = if timestamps {
                String::from_str("<endofturn pr=")
            } else {
                String::from_str(" <endofturn pr=")
            };
            let pr = permille_str(*permille);
            s.append(pr.as_str());
            if timestamps {
                s.append(">\n");
            } else {
                s.append(">");
            }
            s
        },
    }
}

} // verus!
