//! The game clock text: the time since the start of a game, from its tick count and tick rate,
//! as years, months, weeks, days and hours where there are any, then minutes and seconds, such
//! as `1d:02h:03m:04s`.
use vstd::prelude::*;

verus! {

pub const MINUTE: u64 = 60;

pub const HOUR: u64 = 3600;

pub const DAY: u64 = 86400;

pub const WEEK: u64 = 604800;

/// Thirty days.
pub const MONTH: u64 = 2592000;

/// 365 days.
pub const YEAR: u64 = 31536000;

/// The character of decimal digit `d`.
pub open spec fn digit_char(d: nat) -> char {
    ((48 + d) as u8) as char
}

/// The decimal digits of `v`, most significant first, with no leading zero.
pub open spec fn decimal(v: nat) -> Seq<char>
    decreases v,
{
    if v < 10 {
        seq![digit_char(v)]
    } else {
        decimal(v / 10) + seq![digit_char(v % 10)]
    }
}

/// `itoa::Buffer::format` on a `u64`: the decimal digits of `v`, most significant first, with no
/// leading zero.
#[verifier::external_body]
fn decimal_string(v: u64) -> (r: String)
    ensures
        r@ == decimal(v as nat),
{
    let mut buffer = itoa::Buffer::new();
    String::from(buffer.format(v))
}

/// The decimal digits of `v`, with zeros in front up to `width` characters.
pub open spec fn padded(v: nat, width: nat) -> Seq<char> {
    let n = decimal(v).len();
    Seq::new(if n < width { (width - n) as nat } else { 0 }, |i: int| '0') + decimal(v)
}

/// A part of the clock text: the padded value and its unit letter.
pub open spec fn piece(v: nat, unit: char, width: nat) -> Seq<char> {
    padded(v, width).push(unit)
}

/// `text` with `p` added, after a colon where `text` already holds something.
pub open spec fn add_piece(text: Seq<char>, p: Seq<char>) -> Seq<char> {
    if text.len() == 0 {
        p
    } else {
        text + seq![':'] + p
    }
}

/// `text` with the piece for `v` added where `v` is not zero.
pub open spec fn add_if_any(text: Seq<char>, v: nat, unit: char, width: nat) -> Seq<char> {
    if v > 0 {
        add_piece(text, piece(v, unit, width))
    } else {
        text
    }
}

/// The clock text for `tick_count` ticks at `tick_rate` ticks a second: nothing for a rate of
/// zero; else the whole seconds split into years (`y`), months of thirty days (`m`), weeks
/// (`w`), days (`d`) and hours (`h`), each shown only where it is not zero, then minutes (`m`)
/// and seconds (`s`), always shown. Every value but years and days has at least two digits.
pub open spec fn clock_text(tick_count: u64, tick_rate: u64) -> Seq<char> {
    if tick_rate == 0 {
        Seq::empty()
    } else {
        let s = (tick_count / tick_rate) as nat;
        let t1 = add_if_any(Seq::empty(), s / YEAR as nat, 'y', 0);
        let s1 = s % YEAR as nat;
        let t2 = add_if_any(t1, s1 / MONTH as nat, 'm', 2);
        let s2 = s1 % MONTH as nat;
        let t3 = add_if_any(t2, s2 / WEEK as nat, 'w', 2);
        let s3 = s2 % WEEK as nat;
        let t4 = add_if_any(t3, s3 / DAY as nat, 'd', 0);
        let s4 = s3 % DAY as nat;
        let t5 = add_if_any(t4, s4 / HOUR as nat, 'h', 2);
        let s5 = s4 % HOUR as nat;
        let t6 = add_piece(t5, piece(s5 / MINUTE as nat, 'm', 2));
        add_piece(t6, piece(s5 % MINUTE as nat, 's', 2))
    }
}

/// Appends the piece for `val` with unit `unit`, after a colon where `text` holds something.
fn push_piece(text: &mut String, val: u64, unit: &str, width: usize)
    requires
        unit@.len() == 1,
    ensures
        final(text)@ == add_piece(old(text)@, piece(val as nat, unit@[0], width as nat)),
{
    let ghost before = text@;
    proof {
        reveal_strlit(":");
        reveal_strlit("0");
    }
    if text.as_str().unicode_len() != 0 {
        text.append(":");
    }
    let ghost lead = text@;
    let digits = decimal_string(val);
    let n = digits.as_str().unicode_len();
    if n < width {
        let mut k: usize = 0;
        while k < width - n
            invariant
                k <= width - n,
                n == decimal(val as nat).len(),
                n < width,
                text@ == lead + Seq::new(k as nat, |i: int| '0'),
            decreases width - n - k,
        {
            proof {
                reveal_strlit("0");
            }
            text.append("0");
            k += 1;
            assert(text@ =~= lead + Seq::new(k as nat, |i: int| '0'));
        }
    }
    let ghost zeros = text@;
    assert(zeros =~= lead + Seq::new(
        if n < width { (width - n) as nat } else { 0 },
        |i: int| '0',
    ));
    text.append(digits.as_str());
    text.append(unit);
    assert(unit@ =~= seq![unit@[0]]);
    assert(text@ =~= add_piece(before, piece(val as nat, unit@[0], width as nat)));
}

/// The clock text, as `clock_text` says.
pub fn time_text(tick_count: u64, tick_rate: u64) -> (r: String)
    ensures
        r@ == clock_text(tick_count, tick_rate),
{
    let mut text = String::new();
    if tick_rate == 0 {
        return text;
    }
    proof {
        reveal_strlit("y");
        reveal_strlit("m");
        reveal_strlit("w");
        reveal_strlit("d");
        reveal_strlit("h");
        reveal_strlit("s");
    }
    let mut seconds = tick_count / tick_rate;
    let val = seconds / YEAR;
    if val > 0 {
        push_piece(&mut text, val, "y", 0);
    }
    seconds = seconds % YEAR;
    let val = seconds / MONTH;
    if val > 0 {
        push_piece(&mut text, val, "m", 2);
    }
    seconds = seconds % MONTH;
    let val = seconds / WEEK;
    if val > 0 {
        push_piece(&mut text, val, "w", 2);
    }
    seconds = seconds % WEEK;
    let val = seconds / DAY;
    if val > 0 {
        push_piece(&mut text, val, "d", 0);
    }
    seconds = seconds % DAY;
    let val = seconds / HOUR;
    if val > 0 {
        push_piece(&mut text, val, "h", 2);
    }
    seconds = seconds % HOUR;
    push_piece(&mut text, seconds / MINUTE, "m", 2);
    push_piece(&mut text, seconds % MINUTE, "s", 2);
    text
}

} // verus!
