//! The width/radix/direction specifier of the `registers` and `memory`
//! commands, and the masking of a word to a width in bytes.
use vstd::prelude::*;
use vstd::arithmetic::power2::*;
use crate::text::to_chars;

verus! {

/// Width in bytes of a pointer on the debugged machine.
pub const POINTER_WIDTH: u8 = 8;

/// Whether a command reads or writes.
#[derive(Clone, Copy, Debug, PartialEq, Eq, Structural)]
pub enum Direction {
    Read,
    Write,
}

/// The radix in which a value is shown: hexadecimal, unsigned decimal or
/// signed decimal.
#[derive(Clone, Copy, Debug, PartialEq, Eq, Structural)]
pub enum Radix {
    Hex,
    Unsigned,
    Signed,
}

/// Why a specifier was rejected.
#[derive(Clone, Copy, Debug, PartialEq, Eq, Structural)]
pub enum FormatError {
    /// A character outside `1 2 4 8 r w x u d`.
    JunkCharacters,
    /// More than one of `r`, `w`.
    MultipleDirections,
    /// Neither `r` nor `w`.
    NoDirection,
    /// More than one of `x`, `u`, `d`.
    MultipleRadixes,
    /// More than one of `1`, `2`, `4`, `8`.
    MultipleWidths,
}

/// A value as it is to be shown: in hexadecimal, as an unsigned decimal
/// number, or as a signed decimal number.
#[derive(Clone, Copy, Debug, PartialEq, Eq, Structural)]
pub enum shown {
    Hex(u64),
    Unsigned(u64),
    Signed(i64),
}

/// A format specifier: the direction of the access, the radix in which a
/// value is shown, and the width of the access in bytes.
#[derive(Clone, Copy, Debug, PartialEq, Eq)]
pub struct rw_formatting {
    /// `None` until a direction has been chosen.
    pub rw: Option<Direction>,
    pub format: Radix,
    pub n_bytes: u8,
}

/// The word whose low `n_bytes` bytes are all ones and whose other bits are zero.
pub open spec fn low_mask(n_bytes: u8) -> u64 {
    if n_bytes >= 8 {
        u64::MAX
    } else {
        ((1u64 << (((n_bytes as u64) * 8) as u64)) - 1) as u64
    }
}

/// The word that a write of `val` at a width leaves where `orig` stood: the
/// low `n_bytes` bytes come from `val`, the others stay as in `orig`.
pub open spec fn overlaid(n_bytes: u8, orig: u64, val: u64) -> u64 {
    (val & low_mask(n_bytes)) | (orig & !low_mask(n_bytes))
}

/// The number that the low `n_bytes` bytes of `val` write in two's
/// complement: where the highest bit of the width is set, the number is
/// negative.
pub open spec fn signed_at(n_bytes: u8, val: u64) -> int {
    let mask = low_mask(n_bytes) as int;
    let low = (val & low_mask(n_bytes)) as int;
    if low > mask / 2 {
        low - (mask + 1)
    } else {
        low
    }
}

/// A value as a format shows it: trimmed to the width, and in the radix.
pub open spec fn shown_as(fmt: rw_formatting, val: u64) -> shown {
    match fmt.format {
        Radix::Hex => shown::Hex(val & low_mask(fmt.n_bytes)),
        Radix::Unsigned => shown::Unsigned(val & low_mask(fmt.n_bytes)),
        Radix::Signed => shown::Signed(signed_at(fmt.n_bytes, val) as i64),
    }
}

pub open spec fn is_direction(c: char) -> bool {
    c == 'r' || c == 'w'
}

pub open spec fn is_radix(c: char) -> bool {
    c == 'x' || c == 'u' || c == 'd'
}

pub open spec fn is_width(c: char) -> bool {
    c == '1' || c == '2' || c == '4' || c == '8'
}

pub open spec fn is_legal(c: char) -> bool {
    is_direction(c) || is_radix(c) || is_width(c)
}

pub open spec fn direction_chars() -> spec_fn(char) -> bool {
    |c: char| is_direction(c)
}

pub open spec fn radix_chars() -> spec_fn(char) -> bool {
    |c: char| is_radix(c)
}

pub open spec fn width_chars() -> spec_fn(char) -> bool {
    |c: char| is_width(c)
}

pub open spec fn direction_of(c: char) -> Direction {
    if c == 'r' {
        Direction::Read
    } else {
        Direction::Write
    }
}

pub open spec fn radix_of(c: char) -> Radix {
    if c == 'u' {
        Radix::Unsigned
    } else if c == 'd' {
        Radix::Signed
    } else {
        Radix::Hex
    }
}

pub open spec fn width_of(c: char) -> u8 {
    if c == '1' {
        1
    } else if c == '2' {
        2
    } else if c == '4' {
        4
    } else {
        8
    }
}

/// The meaning of a specifier. The checks are made in the order junk,
/// direction, radix, width, and the first that fails names the error. Where a
/// radix or a width is left out, hexadecimal and the pointer width stand.
pub open spec fn parse_format(s: Seq<char>) -> Result<rw_formatting, FormatError> {
    let directions = s.filter(direction_chars());
    let radixes = s.filter(radix_chars());
    let widths = s.filter(width_chars());
    if exists|i: int| 0 <= i < s.len() && !is_legal(#[trigger] s[i]) {
        Err(FormatError::JunkCharacters)
    } else if directions.len() > 1 {
        Err(FormatError::MultipleDirections)
    } else if directions.len() == 0 {
        Err(FormatError::NoDirection)
    } else if radixes.len() > 1 {
        Err(FormatError::MultipleRadixes)
    } else if widths.len() > 1 {
        Err(FormatError::MultipleWidths)
    } else {
        Ok(
            rw_formatting {
                rw: Some(direction_of(directions[0])),
                format: if radixes.len() == 0 {
                    Radix::Hex
                } else {
                    radix_of(radixes[0])
                },
                n_bytes: if widths.len() == 0 {
                    POINTER_WIDTH
                } else {
                    width_of(widths[0])
                },
            },
        )
    }
}

/// What one pass over a specifier has gathered: whether it met a character
/// of no category, how many it met of each category, and the last of each.
struct Tally {
    junk: bool,
    directions: nat,
    direction: Direction,
    radixes: nat,
    radix: Radix,
    widths: nat,
    width: u8,
}

spec fn tally_char(t: Tally, c: char) -> Tally {
    if is_direction(c) {
        Tally { directions: t.directions + 1, direction: direction_of(c), ..t }
    } else if is_radix(c) {
        Tally { radixes: t.radixes + 1, radix: radix_of(c), ..t }
    } else if is_width(c) {
        Tally { widths: t.widths + 1, width: width_of(c), ..t }
    } else {
        Tally { junk: true, ..t }
    }
}

spec fn tally(s: Seq<char>) -> Tally
    decreases s.len(),
{
    if s.len() == 0 {
        Tally {
            junk: false,
            directions: 0,
            direction: Direction::Read,
            radixes: 0,
            radix: Radix::Hex,
            widths: 0,
            width: POINTER_WIDTH,
        }
    } else {
        tally_char(tally(s.drop_last()), s.last())
    }
}

proof fn lemma_tally(s: Seq<char>)
    ensures
        tally(s).junk <==> exists|i: int| 0 <= i < s.len() && !is_legal(#[trigger] s[i]),
        tally(s).directions == s.filter(direction_chars()).len(),
        tally(s).directions > 0 ==> tally(s).direction == direction_of(
            s.filter(direction_chars()).last(),
        ),
        tally(s).radixes == s.filter(radix_chars()).len(),
        tally(s).radixes > 0 ==> tally(s).radix == radix_of(s.filter(radix_chars()).last()),
        tally(s).radixes == 0 ==> tally(s).radix == Radix::Hex,
        tally(s).widths == s.filter(width_chars()).len(),
        tally(s).widths > 0 ==> tally(s).width == width_of(s.filter(width_chars()).last()),
        tally(s).widths == 0 ==> tally(s).width == POINTER_WIDTH,
    decreases s.len(),
{
    reveal(Seq::filter);
    if s.len() > 0 {
        let front = s.drop_last();
        lemma_tally(front);
        if tally(front).junk {
            let i = choose|i: int| 0 <= i < front.len() && !is_legal(#[trigger] front[i]);
            assert(!is_legal(s[i]));
        }
        if !is_legal(s.last()) {
            assert(!is_legal(s[s.len() - 1]));
        }
        if exists|i: int| 0 <= i < s.len() && !is_legal(#[trigger] s[i]) {
            let i = choose|i: int| 0 <= i < s.len() && !is_legal(#[trigger] s[i]);
            if i < front.len() {
                assert(!is_legal(front[i]));
            }
        }
    }
}

impl rw_formatting {
    /// The blank specifier: hexadecimal, a pointer wide, no direction yet.
    pub fn New() -> (r: Self)
        ensures
            r == (rw_formatting { rw: None, format: Radix::Hex, n_bytes: POINTER_WIDTH }),
    {
        rw_formatting { rw: None, format: Radix::Hex, n_bytes: POINTER_WIDTH }
    }

    /// Keeps the low `n_bytes` bytes of `val` and clears the rest.
    pub fn trim_val(&self, val: u64) -> (r: u64)
        ensures
            r == val & low_mask(self.n_bytes),
            r <= low_mask(self.n_bytes),
    {
        let n: u8 = self.n_bytes;
        let ghost m = low_mask(n);
        assert(val & m <= m) by (bit_vector);
        if n >= 8 {
            assert(val & u64::MAX == val) by (bit_vector);
            val
        } else {
            let shift: u64 = (n as u64) * 8;
            assert(shift < 64);
            assert((1u64 << shift) >= 1) by (bit_vector)
                requires
                    shift < 64,
            ;
            val & ((1u64 << shift) - 1)
        }
    }

    /// The low `n_bytes` bytes of `val` read as a number in two's complement.
    pub fn signed_val(&self, val: u64) -> (r: i64)
        ensures
            r == signed_at(self.n_bytes, val),
    {
        let mask: u64 = self.trim_val(u64::MAX);
        let low: u64 = self.trim_val(val);
        let ghost m = low_mask(self.n_bytes);
        assert(u64::MAX & m == m) by (bit_vector);
        let half: u64 = mask / 2;
        if low > half {
            let gap: u64 = mask - low;
            -(gap as i64) - 1
        } else {
            low as i64
        }
    }

    /// A value as this format shows it.
    pub fn show(&self, val: u64) -> (r: shown)
        ensures
            r == shown_as(*self, val),
    {
        match self.format {
            Radix::Hex => shown::Hex(self.trim_val(val)),
            Radix::Unsigned => shown::Unsigned(self.trim_val(val)),
            Radix::Signed => shown::Signed(self.signed_val(val)),
        }
    }

    /// The word that a write of `val` at this width leaves where `orig` stood:
    /// the low `n_bytes` bytes come from `val`, the others stay as in `orig`.
    pub fn overlay(&self, orig: u64, val: u64) -> (r: u64)
        ensures
            r == overlaid(self.n_bytes, orig, val),
            r & low_mask(self.n_bytes) == val & low_mask(self.n_bytes),
            r & !low_mask(self.n_bytes) == orig & !low_mask(self.n_bytes),
    {
        let low: u64 = self.trim_val(val);
        let mask: u64 = self.trim_val(u64::MAX);
        let ghost m = low_mask(self.n_bytes);
        assert(u64::MAX & m == m) by (bit_vector);
        let r: u64 = low | (orig & !mask);
        assert(((val & m) | (orig & !m)) & m == val & m) by (bit_vector);
        assert(((val & m) | (orig & !m)) & !m == orig & !m) by (bit_vector);
        r
    }
}

fn direction_char(c: char) -> (r: Option<Direction>)
    ensures
        r is Some <==> is_direction(c),
        r is Some ==> r->0 == direction_of(c),
{
    if c == 'r' {
        Some(Direction::Read)
    } else if c == 'w' {
        Some(Direction::Write)
    } else {
        None
    }
}

fn radix_char(c: char) -> (r: Option<Radix>)
    ensures
        r is Some <==> is_radix(c),
        r is Some ==> r->0 == radix_of(c),
{
    if c == 'x' {
        Some(Radix::Hex)
    } else if c == 'u' {
        Some(Radix::Unsigned)
    } else if c == 'd' {
        Some(Radix::Signed)
    } else {
        None
    }
}

fn width_char(c: char) -> (r: Option<u8>)
    ensures
        r is Some <==> is_width(c),
        r is Some ==> r->0 == width_of(c),
{
    if c == '1' {
        Some(1)
    } else if c == '2' {
        Some(2)
    } else if c == '4' {
        Some(4)
    } else if c == '8' {
        Some(8)
    } else {
        None
    }
}

/// Reads a specifier such as `r`, `w1` or `rx4`.
pub fn format_rw(rw_str: &str) -> (r: Result<rw_formatting, FormatError>)
    ensures
        r == parse_format(rw_str@),
{
    let text = to_chars(rw_str);
    format_rw_text(&text)
}

/// Reads a specifier from a text.
pub fn format_rw_text(rw_str: &Vec<char>) -> (r: Result<rw_formatting, FormatError>)
    ensures
        r == parse_format(rw_str@),
{
    let len: usize = rw_str.len();
    let mut junk: bool = false;
    let mut directions: usize = 0;
    let mut direction: Direction = Direction::Read;
    let mut radixes: usize = 0;
    let mut radix: Radix = Radix::Hex;
    let mut widths: usize = 0;
    let mut width: u8 = POINTER_WIDTH;
    let mut i: usize = 0;
    while i < len
        invariant
            i <= len,
            len == rw_str@.len(),
            directions <= i,
            radixes <= i,
            widths <= i,
            tally(rw_str@.take(i as int)) == (Tally {
                junk,
                directions: directions as nat,
                direction,
                radixes: radixes as nat,
                radix,
                widths: widths as nat,
                width,
            }),
        decreases len - i,
    {
        let c: char = rw_str[i];
        proof {
            let next = rw_str@.take(i + 1);
            assert(next.drop_last() == rw_str@.take(i as int));
            assert(next.last() == c);
        }
        match direction_char(c) {
            Some(d) => {
                directions = directions + 1;
                direction = d;
            },
            None => match radix_char(c) {
                Some(x) => {
                    radixes = radixes + 1;
                    radix = x;
                },
                None => match width_char(c) {
                    Some(w) => {
                        widths = widths + 1;
                        width = w;
                    },
                    None => {
                        junk = true;
                    },
                },
            },
        }
        i = i + 1;
    }
    proof {
        assert(rw_str@.take(len as int) == rw_str@);
        lemma_tally(rw_str@);
    }
    if junk {
        Err(FormatError::JunkCharacters)
    } else if directions > 1 {
        Err(FormatError::MultipleDirections)
    } else if directions == 0 {
        Err(FormatError::NoDirection)
    } else if radixes > 1 {
        Err(FormatError::MultipleRadixes)
    } else if widths > 1 {
        Err(FormatError::MultipleWidths)
    } else {
        Ok(rw_formatting { rw: Some(direction), format: radix, n_bytes: width })
    }
}

/// A value trimmed to a width is below two to the power of the width in
/// bits, and trimming it again changes nothing.
pub proof fn lemma_trim_fits_width(n_bytes: u8, v: u64)
    ensures
        (v & low_mask(n_bytes)) < pow2((8 * n_bytes) as nat),
        (v & low_mask(n_bytes)) & low_mask(n_bytes) == v & low_mask(n_bytes),
{
    let m = low_mask(n_bytes);
    assert((v & m) & m == v & m) by (bit_vector);
    assert(v & m <= m) by (bit_vector);
    lemma2_to64();
    if n_bytes >= 8 {
        if n_bytes > 8 {
            lemma_pow2_strictly_increases(64, (8 * n_bytes) as nat);
        }
    } else {
        let shift: u64 = ((n_bytes as u64) * 8) as u64;
        lemma_pow2_strictly_increases(shift as nat, 64);
        lemma_pow2_pos(shift as nat);
        vstd::bits::lemma_u64_shl_is_mul(1, shift);
    }
}

/// A value shown as a signed number at a width lies in the range of that
/// width, and differs from the trimmed value by nothing or by two to the
/// power of the width in bits.
pub proof fn lemma_signed_in_range(n_bytes: u8, val: u64)
    ensures
        ({
            let mask = low_mask(n_bytes) as int;
            let low = (val & low_mask(n_bytes)) as int;
            let signed = signed_at(n_bytes, val);
            &&& -(mask / 2) - 1 <= signed <= mask / 2
            &&& signed == low || signed == low - (mask + 1)
            &&& i64::MIN <= signed <= i64::MAX
        }),
{
    let m = low_mask(n_bytes);
    assert(val & m <= m) by (bit_vector);
}

/// A write at a width takes its low bytes from the new value and leaves every
/// bit above the width as it was.
pub proof fn lemma_overlay_keeps_high_bits(n_bytes: u8, orig: u64, val: u64)
    ensures
        ({
            let m = low_mask(n_bytes);
            let r = overlaid(n_bytes, orig, val);
            &&& r & m == val & m
            &&& r & !m == orig & !m
            &&& n_bytes >= 8 ==> r == val
        }),
{
    let m = low_mask(n_bytes);
    assert(((val & m) | (orig & !m)) & m == val & m) by (bit_vector);
    assert(((val & m) | (orig & !m)) & !m == orig & !m) by (bit_vector);
    assert((val & u64::MAX) | (orig & !u64::MAX) == val) by (bit_vector);
}

/// A specifier that holds a character outside `1 2 4 8 r w x u d` is rejected.
pub proof fn lemma_junk_is_rejected(s: Seq<char>, i: int)
    requires
        0 <= i < s.len(),
        !is_legal(s[i]),
    ensures
        parse_format(s) == Err::<rw_formatting, FormatError>(FormatError::JunkCharacters),
{
}

/// A specifier without `r` and `w`, or with two or more of them, is rejected.
pub proof fn lemma_one_direction_required(s: Seq<char>)
    requires
        s.filter(direction_chars()).len() != 1,
    ensures
        parse_format(s) is Err,
{
}

/// An accepted specifier has a direction and a width of 1, 2, 4 or 8 bytes.
pub proof fn lemma_accepted_format(s: Seq<char>)
    requires
        parse_format(s) is Ok,
    ensures
        parse_format(s)->Ok_0.rw is Some,
        ({
            let w = parse_format(s)->Ok_0.n_bytes;
            w == 1 || w == 2 || w == 4 || w == 8
        }),
{
}

} // verus!
