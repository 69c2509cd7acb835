//! Alignment, the names of blitters and scaling modes, and the version.

use vstd::prelude::*;
use vstd::string::StringExecFns;
use crate::codec::chars_of;
use crate::error::{NcError, NcIntResult, NcResult, NCRESULT_MAX};
use crate::grid::NcDimension;
use crate::notcurses::{version_text, Notcurses};
use crate::options::NotcursesOptions;

verus! {

/// How a thing is placed within the columns it is given.
pub type NcAlign = u32;

pub const NCALIGN_UNALIGNED: NcAlign = 0;

pub const NCALIGN_LEFT: NcAlign = 1;

pub const NCALIGN_CENTER: NcAlign = 2;

pub const NCALIGN_RIGHT: NcAlign = 3;

/// A way of drawing pixels with cells.
pub type NcBlitter = u32;

pub const NCBLIT_DEFAULT: NcBlitter = 0;

pub const NCBLIT_1x1: NcBlitter = 1;

pub const NCBLIT_2x1: NcBlitter = 2;

pub const NCBLIT_2x2: NcBlitter = 3;

pub const NCBLIT_3x2: NcBlitter = 4;

pub const NCBLIT_4x1: NcBlitter = 5;

pub const NCBLIT_BRAILLE: NcBlitter = 6;

pub const NCBLIT_8x1: NcBlitter = 7;

pub const NCBLIT_SIXEL: NcBlitter = 8;

/// A way of fitting a picture to a plane.
pub type NcScale = u32;

pub const NCSCALE_NONE: NcScale = 0;

pub const NCSCALE_SCALE: NcScale = 1;

pub const NCSCALE_STRETCH: NcScale = 2;

pub const NCSCALE_NONE_HIRES: NcScale = 3;

pub const NCSCALE_SCALE_HIRES: NcScale = 4;

pub const NCVERSION_MAJOR: u32 = 2;

pub const NCVERSION_MINOR: u32 = 1;

pub const NCVERSION_PATCH: u32 = 5;

pub const NCVERSION_TWEAK: u32 = 0;

/// The column at which `cols` columns begin when aligned within `availcols`
/// columns: 0 at the left, and for what is wider than it has room; half the
/// room that is left, rounded down, in the centre; all of it at the right.
/// For no alignment, or a number that names none, the result is
/// `-NCRESULT_MAX`.
pub open spec fn align_offset(availcols: NcDimension, align: NcAlign, cols: NcDimension) -> int {
    if align == NCALIGN_LEFT {
        0
    } else if align != NCALIGN_CENTER && align != NCALIGN_RIGHT {
        -NCRESULT_MAX
    } else if cols > availcols {
        0
    } else if align == NCALIGN_CENTER {
        (availcols - cols) / 2
    } else {
        availcols - cols
    }
}

/// The column at which `cols` columns begin when aligned within
/// `availcols`: see `align_offset`. An offset that is no `NcIntResult` is
/// `NCRESULT_MAX`.
pub fn notcurses_align(availcols: NcDimension, align: NcAlign, cols: NcDimension) -> (r: NcIntResult)
    ensures
        r == if align_offset(availcols, align, cols) > NCRESULT_MAX {
            NCRESULT_MAX as int
        } else {
            align_offset(availcols, align, cols)
        },
{
    if align == NCALIGN_LEFT {
        return 0;
    }
    if align != NCALIGN_CENTER && align != NCALIGN_RIGHT {
        return -NCRESULT_MAX;
    }
    if cols > availcols {
        return 0;
    }
    let room: u32 = availcols - cols;
    let offset: u32 = if align == NCALIGN_CENTER {
        room / 2
    } else {
        room
    };
    if offset > 0x7fff_ffff {
        NCRESULT_MAX
    } else {
        offset as i32
    }
}

/// The name of a blitter; empty for a number that names none.
pub open spec fn blitter_name(blitter: NcBlitter) -> Seq<char> {
    if blitter == NCBLIT_DEFAULT {
        "default"@
    } else if blitter == NCBLIT_1x1 {
        "ascii"@
    } else if blitter == NCBLIT_2x1 {
        "half"@
    } else if blitter == NCBLIT_2x2 {
        "quad"@
    } else if blitter == NCBLIT_3x2 {
        "sex"@
    } else if blitter == NCBLIT_4x1 {
        "fourstep"@
    } else if blitter == NCBLIT_BRAILLE {
        "braille"@
    } else if blitter == NCBLIT_8x1 {
        "eightstep"@
    } else if blitter == NCBLIT_SIXEL {
        "sixel"@
    } else {
        ""@
    }
}

/// The name of a scaling mode; empty for a number that names none.
pub open spec fn scale_name(scale: NcScale) -> Seq<char> {
    if scale == NCSCALE_NONE {
        "none"@
    } else if scale == NCSCALE_SCALE {
        "scale"@
    } else if scale == NCSCALE_STRETCH {
        "stretch"@
    } else if scale == NCSCALE_NONE_HIRES {
        "hires"@
    } else if scale == NCSCALE_SCALE_HIRES {
        "scalehi"@
    } else {
        ""@
    }
}

/// Whether the character is a decimal digit.
pub open spec fn is_digit(c: char) -> bool {
    0x30 <= (c as u32) <= 0x39
}

/// The number that a string of digits stands for.
pub open spec fn digits_value(s: Seq<char>) -> int
    decreases s.len(),
{
    if s.len() == 0 {
        0
    } else {
        digits_value(s.drop_last()) * 10 + ((s.last() as u32) - 0x30)
    }
}

/// Whether the text is a margin: one digit or more, and a number that a
/// dimension can hold.
pub open spec fn is_margin(s: Seq<char>) -> bool {
    &&& s.len() >= 1
    &&& forall|i: int| 0 <= i < s.len() ==> is_digit(#[trigger] s[i])
    &&& digits_value(s) <= u32::MAX
}

/// The index of the first comma at or behind `from`; the length where
/// there is none.
pub open spec fn comma_from(s: Seq<char>, from: int) -> int
    decreases s.len() - from,
{
    if from < 0 || from >= s.len() {
        s.len() as int
    } else if s[from] == ',' {
        from
    } else {
        comma_from(s, from + 1)
    }
}

/// The margins that a text gives, as top, right, bottom and left: one
/// number for all four, or four numbers parted by commas. Nothing else is
/// a margin argument: no sign, no blank, no other count of numbers.
pub open spec fn margins_of(s: Seq<char>) -> Option<(u32, u32, u32, u32)> {
    let c1 = comma_from(s, 0);
    if c1 == s.len() {
        if is_margin(s) {
            let v = digits_value(s) as u32;
            Some((v, v, v, v))
        } else {
            None
        }
    } else {
        let c2 = comma_from(s, c1 + 1);
        let c3 = comma_from(s, c2 + 1);
        if c2 < s.len() && c3 < s.len() && comma_from(s, c3 + 1) == s.len() && is_margin(
            s.subrange(0, c1),
        ) && is_margin(s.subrange(c1 + 1, c2)) && is_margin(s.subrange(c2 + 1, c3)) && is_margin(
            s.subrange(c3 + 1, s.len() as int),
        ) {
            Some(
                (
                    digits_value(s.subrange(0, c1)) as u32,
                    digits_value(s.subrange(c1 + 1, c2)) as u32,
                    digits_value(s.subrange(c2 + 1, c3)) as u32,
                    digits_value(s.subrange(c3 + 1, s.len() as int)) as u32,
                ),
            )
        } else {
            None
        }
    }
}

proof fn lemma_digits_value_nonnegative(s: Seq<char>)
    requires
        forall|i: int| 0 <= i < s.len() ==> is_digit(#[trigger] s[i]),
    ensures
        digits_value(s) >= 0,
    decreases s.len(),
{
    if s.len() > 0 {
        assert forall|i: int| 0 <= i < s.drop_last().len() implies is_digit(
            #[trigger] s.drop_last()[i],
        ) by {
            assert(s.drop_last()[i] == s[i]);
        }
        lemma_digits_value_nonnegative(s.drop_last());
    }
}

/// The index of the first comma at or behind `from`.
fn find_comma(text: &Vec<char>, from: usize) -> (at: usize)
    requires
        from <= text@.len(),
    ensures
        at == comma_from(text@, from as int),
        from <= at <= text@.len(),
{
    let n = text.len();
    let mut i = from;
    while i < n
        invariant
            from <= i <= n,
            n == text@.len(),
            comma_from(text@, i as int) == comma_from(text@, from as int),
        decreases n - i,
    {
        if text[i] == ',' {
            return i;
        }
        i = i + 1;
    }
    i
}

/// The margin that the characters from `from` to before `to` give.
fn read_margin(text: &Vec<char>, from: usize, to: usize) -> (r: Option<u32>)
    requires
        from <= to <= text@.len(),
    ensures
        r is Some <==> is_margin(text@.subrange(from as int, to as int)),
        r matches Some(v) ==> v == digits_value(text@.subrange(from as int, to as int)),
{
    let ghost s = text@.subrange(from as int, to as int);
    if from == to {
        return None;
    }
    let mut i = from;
    let mut value: u64 = 0;
    let mut over = false;
    while i < to
        invariant
            from <= i <= to,
            to <= text@.len(),
            s == text@.subrange(from as int, to as int),
            forall|j: int| 0 <= j < i - from ==> is_digit(#[trigger] s[j]),
            !over ==> value == digits_value(s.subrange(0, i - from)) && value <= u32::MAX,
            over ==> digits_value(s.subrange(0, i - from)) > u32::MAX,
        decreases to - i,
    {
        let c = text[i];
        let v: u32 = c as u32;
        assert(s[i - from] == c);
        if v < 0x30 || v > 0x39 {
            return None;
        }
        proof {
            let next = s.subrange(0, i - from + 1);
            assert(next.drop_last() =~= s.subrange(0, i - from));
            assert forall|j: int| 0 <= j < i - from implies is_digit(
                #[trigger] s.subrange(0, i - from)[j],
            ) by {
                assert(s.subrange(0, i - from)[j] == s[j]);
            }
            lemma_digits_value_nonnegative(s.subrange(0, i - from));
        }
        if !over {
            value = value * 10 + (v - 0x30) as u64;
            if value > 0xffff_ffff {
                over = true;
            }
        }
        i = i + 1;
    }
    assert(s.subrange(0, to - from) =~= s);
    if over {
        None
    } else {
        Some(value as u32)
    }
}

fn same_text(a: &Vec<char>, b: &str) -> (r: bool)
    ensures
        r == (a@ == b@),
{
    let other = chars_of(b);
    if a.len() != other.len() {
        return false;
    }
    let n = a.len();
    let mut i: usize = 0;
    while i < n
        invariant
            i <= n,
            n == a@.len(),
            n == other@.len(),
            other@ == b@,
            forall|j: int| 0 <= j < i ==> a@[j] == other@[j],
        decreases n - i,
    {
        if a[i] != other[i] {
            return false;
        }
        i = i + 1;
    }
    assert(a@ =~= other@);
    true
}

impl Notcurses {
    /// Whether `cols` columns can be aligned within `availcols`: they can
    /// with one of the three alignments. Without one, or with a number that
    /// names none, the result is `GeometryError`. The column itself is what
    /// `notcurses_align` gives.
    pub fn align(availcols: NcDimension, align: NcAlign, cols: NcDimension) -> (r: NcResult<()>)
        ensures
            r == if align == NCALIGN_LEFT || align == NCALIGN_CENTER || align == NCALIGN_RIGHT {
                Ok::<(), NcError>(())
            } else {
                Err::<(), NcError>(NcError::GeometryError)
            },
            r is Ok <==> align_offset(availcols, align, cols) >= 0,
    {
        if notcurses_align(availcols, align, cols) < 0 {
            Err(NcError::GeometryError)
        } else {
            Ok(())
        }
    }

    /// The name of a blitter; empty for a number that names none.
    pub fn str_blitter(blitter: NcBlitter) -> (r: String)
        ensures
            r@ == blitter_name(blitter),
    {
        if blitter == NCBLIT_DEFAULT {
            String::from_str("default")
        } else if blitter == NCBLIT_1x1 {
            String::from_str("ascii")
        } else if blitter == NCBLIT_2x1 {
            String::from_str("half")
        } else if blitter == NCBLIT_2x2 {
            String::from_str("quad")
        } else if blitter == NCBLIT_3x2 {
            String::from_str("sex")
        } else if blitter == NCBLIT_4x1 {
            String::from_str("fourstep")
        } else if blitter == NCBLIT_BRAILLE {
            String::from_str("braille")
        } else if blitter == NCBLIT_8x1 {
            String::from_str("eightstep")
        } else if blitter == NCBLIT_SIXEL {
            String::from_str("sixel")
        } else {
            String::from_str("")
        }
    }

    /// The name of a scaling mode; empty for a number that names none.
    pub fn str_scalemode(scalemode: NcScale) -> (r: String)
        ensures
            r@ == scale_name(scalemode),
    {
        if scalemode == NCSCALE_NONE {
            String::from_str("none")
        } else if scalemode == NCSCALE_SCALE {
            String::from_str("scale")
        } else if scalemode == NCSCALE_STRETCH {
            String::from_str("stretch")
        } else if scalemode == NCSCALE_NONE_HIRES {
            String::from_str("hires")
        } else if scalemode == NCSCALE_SCALE_HIRES {
            String::from_str("scalehi")
        } else {
            String::from_str("")
        }
    }

    /// The blitter with the given name; `CapabilityError` where no blitter
    /// has that name.
    pub fn lex_blitter(op: &str) -> (r: NcResult<NcBlitter>)
        ensures
            match r {
                Ok(b) => b <= NCBLIT_SIXEL && op@ == blitter_name(b),
                Err(e) => e == NcError::CapabilityError && forall|b: NcBlitter|
                    b <= NCBLIT_SIXEL ==> op@ != #[trigger] blitter_name(b),
            },
    {
        let text = chars_of(op);
        let mut b: NcBlitter = 0;
        while b <= NCBLIT_SIXEL
            invariant
                b <= NCBLIT_SIXEL + 1,
                text@ == op@,
                forall|k: NcBlitter| k < b ==> op@ != #[trigger] blitter_name(k),
            decreases NCBLIT_SIXEL + 1 - b,
        {
            let name = Self::str_blitter(b);
            if same_text(&text, name.as_str()) {
                return Ok(b);
            }
            b = b + 1;
        }
        Err(NcError::CapabilityError)
    }

    /// The scaling mode with the given name; `CapabilityError` where no
    /// mode has that name.
    pub fn lex_scalemode(op: &str) -> (r: NcResult<NcScale>)
        ensures
            match r {
                Ok(s) => s <= NCSCALE_SCALE_HIRES && op@ == scale_name(s),
                Err(e) => e == NcError::CapabilityError && forall|s: NcScale|
                    s <= NCSCALE_SCALE_HIRES ==> op@ != #[trigger] scale_name(s),
            },
    {
        let text = chars_of(op);
        let mut s: NcScale = 0;
        while s <= NCSCALE_SCALE_HIRES
            invariant
                s <= NCSCALE_SCALE_HIRES + 1,
                text@ == op@,
                forall|k: NcScale| k < s ==> op@ != #[trigger] scale_name(k),
            decreases NCSCALE_SCALE_HIRES + 1 - s,
        {
            let name = Self::str_scalemode(s);
            if same_text(&text, name.as_str()) {
                return Ok(s);
            }
            s = s + 1;
        }
        Err(NcError::CapabilityError)
    }

    /// Lexes a margin argument into `options`: see `margins_of`.
    /// `GeometryError`, and no change, for a text that is none.
    pub fn lex_margins(op: &str, options: &mut NotcursesOptions) -> (r: NcResult<()>)
        ensures
            match margins_of(op@) {
                Some((t, right, b, l)) => r is Ok && *final(options) == (NotcursesOptions {
                    margin_t: t,
                    margin_r: right,
                    margin_b: b,
                    margin_l: l,
                    ..*old(options)
                }),
                None => r is Err && r->Err_0 == NcError::GeometryError && *final(options) == *old(options),
            },
    {
        let text = chars_of(op);
        let n = text.len();
        let c1 = find_comma(&text, 0);
        if c1 == n {
            assert(text@.subrange(0, n as int) =~= text@);
            return match read_margin(&text, 0, n) {
                Some(v) => {
                    options.margin_t = v;
                    options.margin_r = v;
                    options.margin_b = v;
                    options.margin_l = v;
                    Ok(())
                },
                None => Err(NcError::GeometryError),
            };
        }
        let c2 = find_comma(&text, c1 + 1);
        if c2 == n {
            return Err(NcError::GeometryError);
        }
        let c3 = find_comma(&text, c2 + 1);
        if c3 == n {
            return Err(NcError::GeometryError);
        }
        if find_comma(&text, c3 + 1) != n {
            return Err(NcError::GeometryError);
        }
        let t = match read_margin(&text, 0, c1) {
            Some(v) => v,
            None => { return Err(NcError::GeometryError); },
        };
        let right = match read_margin(&text, c1 + 1, c2) {
            Some(v) => v,
            None => { return Err(NcError::GeometryError); },
        };
        let b = match read_margin(&text, c2 + 1, c3) {
            Some(v) => v,
            None => { return Err(NcError::GeometryError); },
        };
        let l = match read_margin(&text, c3 + 1, n) {
            Some(v) => v,
            None => { return Err(NcError::GeometryError); },
        };
        options.margin_t = t;
        options.margin_r = right;
        options.margin_b = b;
        options.margin_l = l;
        Ok(())
    }

    /// The version in words.
    pub fn version() -> (r: String)
        ensures
            r@ == version_text(),
    {
        String::from_str("notcurses 2.1.5")
    }

    /// The version in numbers: major, minor, patch and tweak.
    pub fn version_components() -> (r: (u32, u32, u32, u32))
        ensures
            r == (NCVERSION_MAJOR, NCVERSION_MINOR, NCVERSION_PATCH, NCVERSION_TWEAK),
    {
        (NCVERSION_MAJOR, NCVERSION_MINOR, NCVERSION_PATCH, NCVERSION_TWEAK)
    }
}

/// No two blitters share a name, so a blitter's name leads back to it.
pub proof fn lemma_blitter_names_differ(a: NcBlitter, b: NcBlitter)
    requires
        a <= NCBLIT_SIXEL,
        b <= NCBLIT_SIXEL,
        blitter_name(a) == blitter_name(b),
    ensures
        a == b,
{
    reveal_strlit("default");
    reveal_strlit("ascii");
    reveal_strlit("half");
    reveal_strlit("quad");
    reveal_strlit("sex");
    reveal_strlit("fourstep");
    reveal_strlit("braille");
    reveal_strlit("eightstep");
    reveal_strlit("sixel");
    assert(blitter_name(NCBLIT_DEFAULT).len() == 7 && blitter_name(NCBLIT_DEFAULT)[0] == 'd');
    assert(blitter_name(NCBLIT_1x1).len() == 5 && blitter_name(NCBLIT_1x1)[0] == 'a');
    assert(blitter_name(NCBLIT_2x1).len() == 4 && blitter_name(NCBLIT_2x1)[0] == 'h');
    assert(blitter_name(NCBLIT_2x2).len() == 4 && blitter_name(NCBLIT_2x2)[0] == 'q');
    assert(blitter_name(NCBLIT_3x2).len() == 3);
    assert(blitter_name(NCBLIT_4x1).len() == 8);
    assert(blitter_name(NCBLIT_BRAILLE).len() == 7 && blitter_name(NCBLIT_BRAILLE)[0] == 'b');
    assert(blitter_name(NCBLIT_8x1).len() == 9);
    assert(blitter_name(NCBLIT_SIXEL).len() == 5 && blitter_name(NCBLIT_SIXEL)[0] == 's');
}

/// No two scaling modes share a name.
pub proof fn lemma_scale_names_differ(a: NcScale, b: NcScale)
    requires
        a <= NCSCALE_SCALE_HIRES,
        b <= NCSCALE_SCALE_HIRES,
        scale_name(a) == scale_name(b),
    ensures
        a == b,
{
    reveal_strlit("none");
    reveal_strlit("scale");
    reveal_strlit("stretch");
    reveal_strlit("hires");
    reveal_strlit("scalehi");
    assert(scale_name(NCSCALE_NONE).len() == 4);
    assert(scale_name(NCSCALE_SCALE).len() == 5 && scale_name(NCSCALE_SCALE)[0] == 's');
    assert(scale_name(NCSCALE_STRETCH).len() == 7 && scale_name(NCSCALE_STRETCH)[1] == 't');
    assert(scale_name(NCSCALE_NONE_HIRES).len() == 5 && scale_name(NCSCALE_NONE_HIRES)[0] == 'h');
    assert(scale_name(NCSCALE_SCALE_HIRES).len() == 7 && scale_name(NCSCALE_SCALE_HIRES)[1]
        == 'c');
}

} // verus!
