//! Decimal text, and lines of text whose fractional numbers are still exact.

use vstd::prelude::*;

use crate::sampler::MEGABIT;
use crate::stats::Ratio;

verus! {

/// The character for one decimal digit.
pub open spec fn digit_char(d: int) -> char {
    (48 + d) as char
}

/// `n` in decimal, without leading zeros.
pub open spec fn dec(n: nat) -> Seq<char>
    decreases n,
{
    if n < 10 {
        seq![digit_char(n as int)]
    } else {
        dec(n / 10).push(digit_char((n % 10) as int))
    }
}

/// `n` in decimal, on at least two digits.
pub open spec fn dec2(n: nat) -> Seq<char> {
    if n < 10 {
        seq!['0'] + dec(n)
    } else {
        dec(n)
    }
}

fn digit_str(d: u128) -> (s: &'static str)
    requires
        d < 10,
    ensures
        s@ == seq![digit_char(d as int)],
{
    proof {
        reveal_strlit("0");
        reveal_strlit("1");
        reveal_strlit("2");
        reveal_strlit("3");
        reveal_strlit("4");
        reveal_strlit("5");
        reveal_strlit("6");
        reveal_strlit("7");
        reveal_strlit("8");
        reveal_strlit("9");
    }
    if d == 0 {
        "0"
    } else if d == 1 {
        "1"
    } else if d == 2 {
        "2"
    } else if d == 3 {
        "3"
    } else if d == 4 {
        "4"
    } else if d == 5 {
        "5"
    } else if d == 6 {
        "6"
    } else if d == 7 {
        "7"
    } else if d == 8 {
        "8"
    } else {
        "9"
    }
}

/// Writes `n` in decimal.
pub fn decimal(n: u128) -> (s: String)
    ensures
        s@ == dec(n as nat),
    decreases n,
{
    if n < 10 {
        digit_str(n).to_owned()
    } else {
        let mut s = decimal(n / 10);
        s.append(digit_str(n % 10));
        assert(s@ =~= dec(n as nat));
        s
    }
}

/// Writes `n` in decimal on at least two digits.
pub fn decimal2(n: u128) -> (s: String)
    ensures
        s@ == dec2(n as nat),
{
    proof {
        reveal_strlit("0");
    }
    if n < 10 {
        let mut s = "0".to_owned();
        s.append(decimal(n).as_str());
        assert("0"@ =~= seq!['0']);
        s
    } else {
        decimal(n)
    }
}

/// The characters of a text.
pub fn chars_of(s: &str) -> (v: Vec<char>)
    ensures
        v@ == s@,
{
    let mut v: Vec<char> = Vec::new();
    for c in it: s.chars()
        invariant
            v@ == it.seq().take(it.index()),
            it.seq() == s@,
    {
        v.push(c);
        assert(it.seq().take(it.index() + 1) =~= it.seq().take(it.index()).push(c));
    }
    assert(s@.take(s@.len() as int) =~= s@);
    v
}

/// Whether two texts are the same.
pub fn same_text(a: &str, b: &str) -> (r: bool)
    ensures
        r == (a@ == b@),
{
    let x = chars_of(a);
    let y = chars_of(b);
    if x.len() != y.len() {
        return false;
    }
    for i in 0..x.len()
        invariant
            x@ == a@,
            y@ == b@,
            x.len() == y.len(),
            x@.take(i as int) == y@.take(i as int),
    {
        if x[i] != y[i] {
            assert(x@[i as int] != y@[i as int]);
            return false;
        }
        assert(x@.take(i + 1) =~= x@.take(i as int).push(x@[i as int]));
        assert(y@.take(i + 1) =~= y@.take(i as int).push(y@[i as int]));
    }
    assert(x@.take(x.len() as int) =~= x@);
    assert(y@.take(y.len() as int) =~= y@);
    true
}

/// What a text holds, if there is one.
pub open spec fn opt(s: Option<String>) -> Option<Seq<char>> {
    match s {
        Some(t) => Some(t@),
        None => None,
    }
}

/// A number in a line of text: `value / per`, shown with `decimals` digits after the
/// point, right-aligned in `width` characters.
#[derive(Clone, Copy, Debug, PartialEq, Eq, Structural)]
pub struct Num {
    pub value: Ratio,
    pub per: u64,
    pub decimals: u8,
    pub width: u8,
}

/// A number in a line of text that is given as the bits of a `double`, shown as a [`Num`] is.
#[derive(Clone, Copy, Debug, PartialEq, Eq, Structural)]
pub struct Double {
    pub bits: u64,
    pub per: u64,
    pub decimals: u8,
    pub width: u8,
}

/// A piece of a line: text or a character as it stands, or a number.
#[derive(Clone, Debug)]
pub enum Piece {
    Text(String),
    Char(char),
    Num(Num),
    Double(Double),
    /// A fraction as a whole number of percent.
    Percent(Ratio),
}

/// The contents of a [`Piece`].
#[verifier::ext_equal]
pub enum PieceView {
    Text(Seq<char>),
    Char(char),
    Num(Num),
    Double(Double),
    Percent(Ratio),
}

impl View for Piece {
    type V = PieceView;

    open spec fn view(&self) -> PieceView {
        match self {
            Piece::Text(s) => PieceView::Text(s@),
            Piece::Char(c) => PieceView::Char(*c),
            Piece::Num(n) => PieceView::Num(*n),
            Piece::Double(d) => PieceView::Double(*d),
            Piece::Percent(r) => PieceView::Percent(*r),
        }
    }
}

/// The contents of a line.
pub open spec fn line_view(line: Seq<Piece>) -> Seq<PieceView> {
    line.map_values(|p: Piece| p@)
}

/// A piece of text.
pub open spec fn shown(s: Seq<char>) -> PieceView {
    PieceView::Text(s)
}

/// A number: `num / den / per` with so many decimals in so many characters.
pub open spec fn shown_num(value: Ratio, per: u64, decimals: u8, width: u8) -> PieceView {
    PieceView::Num(Num { value, per, decimals, width })
}

/// Text as a piece.
pub fn piece(s: &str) -> (p: Piece)
    ensures
        p@ == shown(s@),
{
    Piece::Text(s.to_owned())
}

/// Owned text as a piece.
pub fn owned(s: String) -> (p: Piece)
    ensures
        p@ == shown(s@),
{
    Piece::Text(s)
}

/// A fraction as a piece.
pub fn num(value: Ratio, per: u64, decimals: u8, width: u8) -> (p: Piece)
    ensures
        p@ == shown_num(value, per, decimals, width),
{
    Piece::Num(Num { value, per, decimals, width })
}

/// A whole number as a fraction.
pub open spec fn whole(n: int) -> Ratio {
    Ratio { whole: n as u128, num: 0, den: 1 }
}

/// The contents of some lines.
pub open spec fn lines_view(lines: Seq<Vec<Piece>>) -> Seq<Seq<PieceView>> {
    lines.map_values(|l: Vec<Piece>| line_view(l@))
}

/// A line of one piece of text.
pub fn line(s: &str) -> (l: Vec<Piece>)
    ensures
        line_view(l@) == seq![shown(s@)],
{
    let mut l: Vec<Piece> = Vec::new();
    l.push(piece(s));
    assert(line_view(l@) =~= seq![shown(s@)]);
    l
}

/// A line of a number and the unit behind it.
pub fn measure(value: Ratio, per: u64, decimals: u8, unit: &str) -> (l: Vec<Piece>)
    ensures
        line_view(l@) == seq![shown_num(value, per, decimals, 0), shown(unit@)],
{
    let mut l: Vec<Piece> = Vec::new();
    l.push(num(value, per, decimals, 0));
    l.push(piece(unit));
    assert(line_view(l@) =~= seq![shown_num(value, per, decimals, 0), shown(unit@)]);
    l
}

/// The text, or a dash where there is none.
pub open spec fn or_dash(s: Option<Seq<char>>) -> Seq<char> {
    match s {
        Some(t) => t,
        None => "-"@,
    }
}

/// The text, or a dash where there is none.
pub fn dashed(s: &Option<String>) -> (t: &str)
    ensures
        t@ == or_dash(opt(*s)),
{
    match s {
        Some(t) => t.as_str(),
        None => "-",
    }
}

/// Binary units.
pub const KIB: u64 = 0x400;

pub const MIB: u64 = 0x10_0000;

pub const GIB: u64 = 0x4000_0000;

pub const TIB: u64 = 0x100_0000_0000;

/// The size and the name of the largest binary unit, up to TiB, that `bytes` reach.
pub open spec fn byte_unit(bytes: u64) -> (u64, Seq<char>) {
    if bytes < KIB {
        (1, " B"@)
    } else if bytes < MIB {
        (KIB, " KiB"@)
    } else if bytes < GIB {
        (MIB, " MiB"@)
    } else if bytes < TIB {
        (GIB, " GiB"@)
    } else {
        (TIB, " TiB"@)
    }
}

/// A number of bytes in its unit.
pub open spec fn bytes_text(bytes: u64, decimals: u8) -> Seq<PieceView> {
    seq![
        shown_num(whole(bytes as int), byte_unit(bytes).0, decimals, 0),
        shown(byte_unit(bytes).1),
    ]
}

/// Shows a number of bytes in the largest binary unit, up to TiB, that it reaches.
pub fn fmt_bytes(bytes: u64, decimals: u8) -> (l: Vec<Piece>)
    ensures
        line_view(l@) == bytes_text(bytes, decimals),
{
    let (per, unit) = if bytes < KIB {
        (1, " B")
    } else if bytes < MIB {
        (KIB, " KiB")
    } else if bytes < GIB {
        (MIB, " MiB")
    } else if bytes < TIB {
        (GIB, " GiB")
    } else {
        (TIB, " TiB")
    };
    measure(Ratio { whole: bytes as u128, num: 0, den: 1 }, per, decimals, unit)
}

/// Appends one line to another.
pub fn join(a: Vec<Piece>, b: Vec<Piece>) -> (l: Vec<Piece>)
    ensures
        line_view(l@) == line_view(a@) + line_view(b@),
{
    let mut l = a;
    let mut rest = b;
    l.append(&mut rest);
    assert(line_view(l@) =~= line_view(a@) + line_view(b@));
    l
}

/// A duration as minutes and seconds, to the nearest second.
pub open spec fn clock_text(ns: u128) -> Seq<char> {
    let secs = (ns + 500_000_000) / 1_000_000_000;
    dec((secs / 60) as nat) + ":"@ + dec2((secs % 60) as nat)
}

/// Shows a duration as minutes and seconds.
pub fn fmt_clock(ns: u128) -> (s: String)
    ensures
        s@ == clock_text(ns),
{
    let up: u128 = if ns % 1_000_000_000 >= 500_000_000 {
        1
    } else {
        0
    };
    let secs: u128 = ns / 1_000_000_000 + up;
    decimal(secs / 60).concat(":").concat(decimal2(secs % 60).as_str())
}

/// A count, or a dash for none.
pub open spec fn count_text(n: nat) -> Seq<char> {
    if n == 0 {
        "-"@
    } else {
        dec(n)
    }
}

/// Shows a count, or a dash for none.
pub fn fmt_count(n: usize) -> (s: String)
    ensures
        s@ == count_text(n as nat),
{
    if n == 0 {
        "-".to_owned()
    } else {
        decimal(n as u128)
    }
}

/// A measurement with its unit, or a dash for none.
pub open spec fn opt_measure(
    value: Option<Ratio>,
    per: u64,
    decimals: u8,
    unit: Seq<char>,
) -> Seq<PieceView> {
    match value {
        Some(v) => seq![shown_num(v, per, decimals, 0), shown(unit)],
        None => seq![shown("-"@)],
    }
}

fn fmt_opt(value: Option<Ratio>, per: u64, decimals: u8, unit: &str) -> (l: Vec<Piece>)
    ensures
        line_view(l@) == opt_measure(value, per, decimals, unit@),
{
    match value {
        Some(v) => measure(v, per, decimals, unit),
        None => line("-"),
    }
}

/// Shows a rate as Mbit/s, or a dash.
pub fn fmt_opt_mbps(rate: Option<Ratio>) -> (l: Vec<Piece>)
    ensures
        line_view(l@) == opt_measure(rate, MEGABIT, 2, " Mbps"@),
{
    fmt_opt(rate, MEGABIT, 2, " Mbps")
}

/// A number of nanoseconds as a fraction, if there is one.
pub open spec fn opt_ns(ns: Option<u128>) -> Option<Ratio> {
    match ns {
        Some(n) => Some(Ratio { whole: n, num: 0, den: 1 }),
        None => None,
    }
}

/// Shows nanoseconds as seconds, or a dash.
pub fn fmt_opt_secs(ns: Option<u128>) -> (l: Vec<Piece>)
    ensures
        line_view(l@) == opt_measure(opt_ns(ns), 1_000_000_000, 1, "s"@),
{
    match ns {
        Some(n) => fmt_opt(Some(Ratio { whole: n, num: 0, den: 1 }), 1_000_000_000, 1, "s"),
        None => fmt_opt(None, 1_000_000_000, 1, "s"),
    }
}

/// Shows nanoseconds as milliseconds, or a dash.
pub fn fmt_opt_ms(ns: Option<u128>) -> (l: Vec<Piece>)
    ensures
        line_view(l@) == opt_measure(opt_ns(ns), 1_000_000, 1, " ms"@),
{
    match ns {
        Some(n) => fmt_opt(Some(Ratio { whole: n, num: 0, den: 1 }), 1_000_000, 1, " ms"),
        None => fmt_opt(None, 1_000_000, 1, " ms"),
    }
}

/// The number that digits stand for.
pub open spec fn read_digit() -> spec_fn(int, char) -> int {
    |so_far: int, c: char| 10 * so_far + (c as int - '0' as int)
}

/// A number in decimal reads back as the number. It is made of digits, and starts with a
/// zero only where it is zero.
pub proof fn law_decimal(n: nat)
    ensures
        dec(n).fold_left(0int, read_digit()) == n,
        dec(n).len() > 0,
        forall|i: int| 0 <= i < dec(n).len() ==> '0' <= #[trigger] dec(n)[i] <= '9',
        dec(n)[0] == '0' <==> n == 0,
    decreases n,
{
    let s = dec(n);
    assert(forall|d: int| 0 <= d < 10 ==> #[trigger] digit_char(d) as int == 48 + d);
    if n < 10 {
        assert(s.drop_last() =~= Seq::<char>::empty());
        reveal_with_fuel(Seq::fold_left, 2);
    } else {
        law_decimal(n / 10);
        assert(s.drop_last() =~= dec(n / 10));
        assert(s.last() == digit_char((n % 10) as int));
        assert forall|i: int| 0 <= i < s.len() implies '0' <= #[trigger] s[i] <= '9' by {
            if i < s.len() - 1 {
                assert(s[i] == dec(n / 10)[i]);
            }
        }
        assert(s[0] == dec(n / 10)[0]);
    }
}

/// A number on at least two digits reads back as the number, and has two up to 99.
pub proof fn law_two_digits(n: nat)
    ensures
        dec2(n).fold_left(0int, read_digit()) == n,
        dec2(n).len() >= 2,
        n < 100 ==> dec2(n).len() == 2,
{
    law_decimal(n);
    if n < 10 {
        let s = dec2(n);
        assert(s.drop_last() =~= seq!['0']);
        assert(s.drop_last().drop_last() =~= Seq::<char>::empty());
        assert(s.last() == dec(n)[0]);
        assert(dec(n).drop_last() =~= Seq::<char>::empty());
        reveal_with_fuel(Seq::fold_left, 3);
    } else {
        assert(dec(n).len() == dec(n / 10).len() + 1);
        if n < 100 {
            assert(dec(n / 10).len() == 1);
        }
        law_decimal(n / 10);
    }
}

/// A clock shows minutes and seconds, and is off by half a second at most: what it shows is
/// the nearest second, the later one of two that are as near.
pub proof fn law_clock(ns: u128)
    ensures
        exists|m: nat, s: nat|
            {
                &&& clock_text(ns) == #[trigger] dec(m) + ":"@ + #[trigger] dec2(s)
                &&& s < 60
                &&& (60 * m + s) * 1_000_000_000 - 500_000_000 <= ns
                &&& ns < (60 * m + s) * 1_000_000_000 + 500_000_000
            },
{
    let secs = (ns + 500_000_000) / 1_000_000_000;
    let (m, s) = ((secs / 60) as nat, (secs % 60) as nat);
    assert(clock_text(ns) == dec(m) + ":"@ + dec2(s));
    assert(60 * m + s == secs);
}

/// A size is shown in the largest of the units from B to TiB that it reaches, each 1024 of
/// the one before.
pub proof fn law_bytes(bytes: u64, decimals: u8)
    ensures
        ({
            let (per, name) = byte_unit(bytes);
            &&& name == " B"@ <== per == 1
            &&& name == " KiB"@ <== per == 1024
            &&& name == " MiB"@ <== per == 1024 * 1024
            &&& name == " GiB"@ <== per == 1024 * 1024 * 1024
            &&& name == " TiB"@ <== per == 1024 * 1024 * 1024 * 1024
            &&& per == 1 || per == 1024 || per == 1024 * 1024 || per == 1024 * 1024 * 1024 || per
                == 1024 * 1024 * 1024 * 1024
            &&& per > 1 ==> per <= bytes
            &&& per < 1024 * 1024 * 1024 * 1024 ==> bytes < 1024 * per
            &&& bytes_text(bytes, decimals) == seq![
                PieceView::Num(
                    Num {
                        value: Ratio { whole: bytes as u128, num: 0, den: 1 },
                        per,
                        decimals,
                        width: 0,
                    },
                ),
                PieceView::Text(name),
            ]
        }),
{
}

/// What is there is shown with its unit, and what is missing as a dash.
pub proof fn law_dashes(
    s: Option<Seq<char>>,
    n: nat,
    value: Option<Ratio>,
    per: u64,
    decimals: u8,
    unit: Seq<char>,
)
    ensures
        s is Some ==> or_dash(s) == s->0,
        s is None ==> or_dash(s) == "-"@,
        n > 0 ==> count_text(n).fold_left(0int, read_digit()) == n,
        n == 0 ==> count_text(n) == "-"@,
        value is Some ==> opt_measure(value, per, decimals, unit) == seq![
            PieceView::Num(Num { value: value->0, per, decimals, width: 0 }),
            PieceView::Text(unit),
        ],
        value is None ==> opt_measure(value, per, decimals, unit) == seq![PieceView::Text("-"@)],
{
    law_decimal(n);
}

/// Nanoseconds are shown as what they are.
pub proof fn law_nanoseconds(ns: Option<u128>)
    ensures
        ns is Some <==> opt_ns(ns) is Some,
        ns is Some ==> opt_ns(ns)->0.scaled() == ns->0 && opt_ns(ns)->0.den == 1,
{
    if let Some(n) = ns {
        assert(n * 1 + 0 == n) by (nonlinear_arith);
    }
}

/// A line shows each of its pieces, in order, as what the piece holds.
pub proof fn law_line(line: Seq<Piece>, i: int)
    requires
        0 <= i < line.len(),
    ensures
        line_view(line).len() == line.len(),
        line[i] matches Piece::Text(s) ==> line_view(line)[i] == PieceView::Text(s@),
        line[i] matches Piece::Char(c) ==> line_view(line)[i] == PieceView::Char(c),
        line[i] matches Piece::Num(n) ==> line_view(line)[i] == PieceView::Num(n),
        line[i] matches Piece::Double(d) ==> line_view(line)[i] == PieceView::Double(d),
        line[i] matches Piece::Percent(r) ==> line_view(line)[i] == PieceView::Percent(r),
{
}

}
