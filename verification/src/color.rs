//! Color roles resolved to concrete colors. A color string names one of the
//! sixteen terminal colors, gives a hex value (`#rrggbb` or the short
//! `#rgb`), or opts out with a word like `none`; parsing trims the string
//! and folds its case first, and anything unrecognized resolves to no
//! color.
use vstd::prelude::*;

verus! {

use vstd::slice::slice_to_vec;
use vstd::utf8::encode_utf8;
use crate::bytes::bytes_eq;
use crate::bytes::is_ws;
use crate::bytes::lemma_trim_end_take;
use crate::bytes::lemma_trim_start_skip;
use crate::bytes::spec_is_ws;
use crate::bytes::spec_trim;
use crate::config::ColorConfig;
use crate::fuzzy::fold_case;
use crate::fuzzy::lower_byte;

/// A concrete color: one of the sixteen terminal colors or a 24-bit value.
#[derive(Clone, Copy, PartialEq, Eq, Structural, Debug)]
pub enum ColorValue {
    Black,
    Red,
    Green,
    Yellow,
    Blue,
    Magenta,
    Cyan,
    White,
    DarkGrey,
    DarkRed,
    DarkGreen,
    DarkYellow,
    DarkBlue,
    DarkMagenta,
    DarkCyan,
    Grey,
    Rgb { r: u8, g: u8, b: u8 },
}

/// The string with every leading `#` dropped.
pub open spec fn spec_strip_hashes(s: Seq<u8>) -> Seq<u8>
    decreases s.len(),
{
    if s.len() > 0 && s[0] == 35u8 {
        spec_strip_hashes(s.drop_first())
    } else {
        s
    }
}

/// The value of a hex digit after case folding; letters `a` to `f` only.
pub open spec fn spec_hex_val(b: u8) -> Option<u8> {
    if 48 <= b <= 57 {
        Some((b - 48) as u8)
    } else if 97 <= b <= 102 {
        Some((b - 87) as u8)
    } else {
        None
    }
}

/// A hex color after trimming and folding: leading hashes drop, then six
/// digits give the three channels, or three digits each doubled; anything
/// else gives no color.
pub open spec fn spec_parse_hex(f: Seq<u8>) -> Option<ColorValue> {
    let h = spec_strip_hashes(f);
    if h.len() == 6 {
        if spec_hex_val(h[0]) is Some && spec_hex_val(h[1]) is Some && spec_hex_val(h[2]) is Some
            && spec_hex_val(h[3]) is Some && spec_hex_val(h[4]) is Some && spec_hex_val(h[5])
            is Some {
            Some(
                ColorValue::Rgb {
                    r: (spec_hex_val(h[0])->Some_0 * 16 + spec_hex_val(h[1])->Some_0) as u8,
                    g: (spec_hex_val(h[2])->Some_0 * 16 + spec_hex_val(h[3])->Some_0) as u8,
                    b: (spec_hex_val(h[4])->Some_0 * 16 + spec_hex_val(h[5])->Some_0) as u8,
                },
            )
        } else {
            None
        }
    } else if h.len() == 3 {
        if spec_hex_val(h[0]) is Some && spec_hex_val(h[1]) is Some && spec_hex_val(h[2])
            is Some {
            Some(
                ColorValue::Rgb {
                    r: (spec_hex_val(h[0])->Some_0 * 17) as u8,
                    g: (spec_hex_val(h[1])->Some_0 * 17) as u8,
                    b: (spec_hex_val(h[2])->Some_0 * 17) as u8,
                },
            )
        } else {
            None
        }
    } else {
        None
    }
}

/// A color string resolved: trim and fold, then a hex value when it starts
/// with `#`, else one of the named colors; `none`, `reverse` and anything
/// unrecognized give no color.
pub open spec fn spec_parse_color(s: Seq<u8>) -> Option<ColorValue> {
    let f = fold_case(spec_trim(s));
    if f.len() > 0 && f[0] == 35u8 {
        spec_parse_hex(f)
    } else if f == seq![98u8, 108u8, 97u8, 99u8, 107u8] {  // black
        Some(ColorValue::Black)
    } else if f == seq![114u8, 101u8, 100u8] {  // red
        Some(ColorValue::Red)
    } else if f == seq![103u8, 114u8, 101u8, 101u8, 110u8] {  // green
        Some(ColorValue::Green)
    } else if f == seq![121u8, 101u8, 108u8, 108u8, 111u8, 119u8] {  // yellow
        Some(ColorValue::Yellow)
    } else if f == seq![98u8, 108u8, 117u8, 101u8] {  // blue
        Some(ColorValue::Blue)
    } else if f == seq![109u8, 97u8, 103u8, 101u8, 110u8, 116u8, 97u8] {  // magenta
        Some(ColorValue::Magenta)
    } else if f == seq![99u8, 121u8, 97u8, 110u8] {  // cyan
        Some(ColorValue::Cyan)
    } else if f == seq![119u8, 104u8, 105u8, 116u8, 101u8] {  // white
        Some(ColorValue::White)
    } else if f == seq![100u8, 97u8, 114u8, 107u8, 103u8, 114u8, 101u8, 121u8] {  // darkgrey
        Some(ColorValue::DarkGrey)
    } else if f == seq![100u8, 97u8, 114u8, 107u8, 103u8, 114u8, 97u8, 121u8] {  // darkgray
        Some(ColorValue::DarkGrey)
    } else if f == seq![100u8, 97u8, 114u8, 107u8, 114u8, 101u8, 100u8] {  // darkred
        Some(ColorValue::DarkRed)
    } else if f == seq![100u8, 97u8, 114u8, 107u8, 103u8, 114u8, 101u8, 101u8, 110u8] {  // darkgreen
        Some(ColorValue::DarkGreen)
    } else if f == seq![100u8, 97u8, 114u8, 107u8, 121u8, 101u8, 108u8, 108u8, 111u8, 119u8] {  // darkyellow
        Some(ColorValue::DarkYellow)
    } else if f == seq![100u8, 97u8, 114u8, 107u8, 98u8, 108u8, 117u8, 101u8] {  // darkblue
        Some(ColorValue::DarkBlue)
    } else if f == seq![100u8, 97u8, 114u8, 107u8, 109u8, 97u8, 103u8, 101u8, 110u8, 116u8, 97u8] {  // darkmagenta
        Some(ColorValue::DarkMagenta)
    } else if f == seq![100u8, 97u8, 114u8, 107u8, 99u8, 121u8, 97u8, 110u8] {  // darkcyan
        Some(ColorValue::DarkCyan)
    } else if f == seq![103u8, 114u8, 101u8, 121u8] {  // grey
        Some(ColorValue::Grey)
    } else if f == seq![103u8, 114u8, 97u8, 121u8] {  // gray
        Some(ColorValue::Grey)
    } else {
        None
    }
}

/// Dropping leading hashes keeps the suffix at the first other byte.
proof fn lemma_strip_hashes_skip(s: Seq<u8>, i: int)
    requires
        0 <= i <= s.len(),
        forall|k: int| 0 <= k < i ==> s[k] == 35u8,
        i == s.len() || s[i] != 35u8,
    ensures
        spec_strip_hashes(s) == s.skip(i),
    decreases i,
{
    if i == 0 {
        assert(s.skip(0) =~= s);
    } else {
        let t = s.drop_first();
        assert(forall|k: int| 0 <= k < i - 1 ==> t[k] == 35u8);
        lemma_strip_hashes_skip(t, i - 1);
        assert(t.skip(i - 1) =~= s.skip(i));
    }
}

/// The string trimmed and case-folded, ready for matching.
fn trim_fold(s: &Vec<u8>) -> (r: Vec<u8>)
    ensures
        r@ == fold_case(spec_trim(s@)),
{
    let n = s.len();
    let mut i: usize = 0;
    while i < n && is_ws(s[i])
        invariant
            i <= n,
            n == s@.len(),
            forall|k: int| 0 <= k < i ==> spec_is_ws(s@[k]),
        decreases n - i,
    {
        i = i + 1;
    }
    let mut j: usize = n;
    while j > i && is_ws(s[j - 1])
        invariant
            i <= j <= n,
            n == s@.len(),
            forall|k: int| j <= k < n ==> spec_is_ws(s@[k]),
        decreases j,
    {
        j = j - 1;
    }
    proof {
        lemma_trim_start_skip(s@, i as int);
        lemma_trim_end_take(s@.skip(i as int), j - i);
        assert(s@.skip(i as int).take(j - i) =~= s@.subrange(i as int, j as int));
    }
    let ghost t = s@.subrange(i as int, j as int);
    let mut out: Vec<u8> = Vec::new();
    let mut k: usize = i;
    while k < j
        invariant
            i <= k <= j <= n,
            n == s@.len(),
            t == s@.subrange(i as int, j as int),
            out@.len() == k - i,
            forall|q: int| 0 <= q < k - i ==> out@[q] == lower_byte(t[q]),
        decreases j - k,
    {
        let b = s[k];
        let lb = if 65 <= b && b <= 90 {
            b + 32
        } else {
            b
        };
        out.push(lb);
        k = k + 1;
    }
    proof {
        assert(out@ =~= fold_case(t));
    }
    out
}

/// The value of a hex digit, on the folded string.
fn hex_val(b: u8) -> (r: Option<u8>)
    ensures
        r == spec_hex_val(b),
{
    if 48 <= b && b <= 57 {
        Some(b - 48)
    } else if 97 <= b && b <= 102 {
        Some(b - 87)
    } else {
        None
    }
}

/// The bytes of a configuration string.
fn string_bytes(s: &String) -> (r: Vec<u8>)
    ensures
        r@ == encode_utf8(s@),
{
    slice_to_vec(s.as_str().as_bytes())
}

impl ColorConfig {
    /// Resolves one color string, already trimmed and folded by the caller's
    /// view: this is the full resolution including trimming and folding.
    pub fn parse_color_string(color_str: &Vec<u8>) -> (r: Option<ColorValue>)
        ensures
            r == spec_parse_color(color_str@),
    {
        let f = trim_fold(color_str);
        if f.len() > 0 && f[0] == 35 {
            Self::parse_hex_color(&f)
    } else if bytes_eq(&f, &vec![98u8, 108u8, 97u8, 99u8, 107u8]) {
        proof {
            assert(f@ =~= seq![98u8, 108u8, 97u8, 99u8, 107u8]);
        }
        Some(ColorValue::Black)
    } else if bytes_eq(&f, &vec![114u8, 101u8, 100u8]) {
        proof {
            assert(f@ =~= seq![114u8, 101u8, 100u8]);
        }
        Some(ColorValue::Red)
    } else if bytes_eq(&f, &vec![103u8, 114u8, 101u8, 101u8, 110u8]) {
        proof {
            assert(f@ =~= seq![103u8, 114u8, 101u8, 101u8, 110u8]);
        }
        Some(ColorValue::Green)
    } else if bytes_eq(&f, &vec![121u8, 101u8, 108u8, 108u8, 111u8, 119u8]) {
        proof {
            assert(f@ =~= seq![121u8, 101u8, 108u8, 108u8, 111u8, 119u8]);
        }
        Some(ColorValue::Yellow)
    } else if bytes_eq(&f, &vec![98u8, 108u8, 117u8, 101u8]) {
        proof {
            assert(f@ =~= seq![98u8, 108u8, 117u8, 101u8]);
        }
        Some(ColorValue::Blue)
    } else if bytes_eq(&f, &vec![109u8, 97u8, 103u8, 101u8, 110u8, 116u8, 97u8]) {
        proof {
            assert(f@ =~= seq![109u8, 97u8, 103u8, 101u8, 110u8, 116u8, 97u8]);
        }
        Some(ColorValue::Magenta)
    } else if bytes_eq(&f, &vec![99u8, 121u8, 97u8, 110u8]) {
        proof {
            assert(f@ =~= seq![99u8, 121u8, 97u8, 110u8]);
        }
        Some(ColorValue::Cyan)
    } else if bytes_eq(&f, &vec![119u8, 104u8, 105u8, 116u8, 101u8]) {
        proof {
            assert(f@ =~= seq![119u8, 104u8, 105u8, 116u8, 101u8]);
        }
        Some(ColorValue::White)
    } else if bytes_eq(&f, &vec![100u8, 97u8, 114u8, 107u8, 103u8, 114u8, 101u8, 121u8]) {
        proof {
            assert(f@ =~= seq![100u8, 97u8, 114u8, 107u8, 103u8, 114u8, 101u8, 121u8]);
        }
        Some(ColorValue::DarkGrey)
    } else if bytes_eq(&f, &vec![100u8, 97u8, 114u8, 107u8, 103u8, 114u8, 97u8, 121u8]) {
        proof {
            assert(f@ =~= seq![100u8, 97u8, 114u8, 107u8, 103u8, 114u8, 97u8, 121u8]);
        }
        Some(ColorValue::DarkGrey)
    } else if bytes_eq(&f, &vec![100u8, 97u8, 114u8, 107u8, 114u8, 101u8, 100u8]) {
        proof {
            assert(f@ =~= seq![100u8, 97u8, 114u8, 107u8, 114u8, 101u8, 100u8]);
        }
        Some(ColorValue::DarkRed)
    } else if bytes_eq(&f, &vec![100u8, 97u8, 114u8, 107u8, 103u8, 114u8, 101u8, 101u8, 110u8]) {
        proof {
            assert(f@ =~= seq![100u8, 97u8, 114u8, 107u8, 103u8, 114u8, 101u8, 101u8, 110u8]);
        }
        Some(ColorValue::DarkGreen)
    } else if bytes_eq(&f, &vec![100u8, 97u8, 114u8, 107u8, 121u8, 101u8, 108u8, 108u8, 111u8, 119u8]) {
        proof {
            assert(f@ =~= seq![100u8, 97u8, 114u8, 107u8, 121u8, 101u8, 108u8, 108u8, 111u8, 119u8]);
        }
        Some(ColorValue::DarkYellow)
    } else if bytes_eq(&f, &vec![100u8, 97u8, 114u8, 107u8, 98u8, 108u8, 117u8, 101u8]) {
        proof {
            assert(f@ =~= seq![100u8, 97u8, 114u8, 107u8, 98u8, 108u8, 117u8, 101u8]);
        }
        Some(ColorValue::DarkBlue)
    } else if bytes_eq(&f, &vec![100u8, 97u8, 114u8, 107u8, 109u8, 97u8, 103u8, 101u8, 110u8, 116u8, 97u8]) {
        proof {
            assert(f@ =~= seq![100u8, 97u8, 114u8, 107u8, 109u8, 97u8, 103u8, 101u8, 110u8, 116u8, 97u8]);
        }
        Some(ColorValue::DarkMagenta)
    } else if bytes_eq(&f, &vec![100u8, 97u8, 114u8, 107u8, 99u8, 121u8, 97u8, 110u8]) {
        proof {
            assert(f@ =~= seq![100u8, 97u8, 114u8, 107u8, 99u8, 121u8, 97u8, 110u8]);
        }
        Some(ColorValue::DarkCyan)
    } else if bytes_eq(&f, &vec![103u8, 114u8, 101u8, 121u8]) {
        proof {
            assert(f@ =~= seq![103u8, 114u8, 101u8, 121u8]);
        }
        Some(ColorValue::Grey)
    } else if bytes_eq(&f, &vec![103u8, 114u8, 97u8, 121u8]) {
        proof {
            assert(f@ =~= seq![103u8, 114u8, 97u8, 121u8]);
        }
        Some(ColorValue::Grey)
        } else {
            proof {
            assert(f@ != seq![98u8, 108u8, 97u8, 99u8, 107u8]);
            assert(f@ != seq![114u8, 101u8, 100u8]);
            assert(f@ != seq![103u8, 114u8, 101u8, 101u8, 110u8]);
            assert(f@ != seq![121u8, 101u8, 108u8, 108u8, 111u8, 119u8]);
            assert(f@ != seq![98u8, 108u8, 117u8, 101u8]);
            assert(f@ != seq![109u8, 97u8, 103u8, 101u8, 110u8, 116u8, 97u8]);
            assert(f@ != seq![99u8, 121u8, 97u8, 110u8]);
            assert(f@ != seq![119u8, 104u8, 105u8, 116u8, 101u8]);
            assert(f@ != seq![100u8, 97u8, 114u8, 107u8, 103u8, 114u8, 101u8, 121u8]);
            assert(f@ != seq![100u8, 97u8, 114u8, 107u8, 103u8, 114u8, 97u8, 121u8]);
            assert(f@ != seq![100u8, 97u8, 114u8, 107u8, 114u8, 101u8, 100u8]);
            assert(f@ != seq![100u8, 97u8, 114u8, 107u8, 103u8, 114u8, 101u8, 101u8, 110u8]);
            assert(f@ != seq![100u8, 97u8, 114u8, 107u8, 121u8, 101u8, 108u8, 108u8, 111u8, 119u8]);
            assert(f@ != seq![100u8, 97u8, 114u8, 107u8, 98u8, 108u8, 117u8, 101u8]);
            assert(f@ != seq![100u8, 97u8, 114u8, 107u8, 109u8, 97u8, 103u8, 101u8, 110u8, 116u8, 97u8]);
            assert(f@ != seq![100u8, 97u8, 114u8, 107u8, 99u8, 121u8, 97u8, 110u8]);
            assert(f@ != seq![103u8, 114u8, 101u8, 121u8]);
            assert(f@ != seq![103u8, 114u8, 97u8, 121u8]);
            }
            None
        }
    }

    /// Resolves a hex color string (leading hashes included), already
    /// folded.
    pub fn parse_hex_color(hex: &Vec<u8>) -> (r: Option<ColorValue>)
        ensures
            r == spec_parse_hex(hex@),
    {
        let n = hex.len();
        let mut i: usize = 0;
        while i < n && hex[i] == 35
            invariant
                i <= n,
                n == hex@.len(),
                forall|k: int| 0 <= k < i ==> hex@[k] == 35u8,
            decreases n - i,
        {
            i = i + 1;
        }
        proof {
            lemma_strip_hashes_skip(hex@, i as int);
        }
        let ghost h = hex@.skip(i as int);
        let m = n - i;
        if m == 6 {
            let v0 = hex_val(hex[i]);
            let v1 = hex_val(hex[i + 1]);
            let v2 = hex_val(hex[i + 2]);
            let v3 = hex_val(hex[i + 3]);
            let v4 = hex_val(hex[i + 4]);
            let v5 = hex_val(hex[i + 5]);
            proof {
                assert(h[0] == hex@[i as int]);
                assert(h[1] == hex@[i as int + 1]);
                assert(h[2] == hex@[i as int + 2]);
                assert(h[3] == hex@[i as int + 3]);
                assert(h[4] == hex@[i as int + 4]);
                assert(h[5] == hex@[i as int + 5]);
            }
            match (v0, v1, v2, v3, v4, v5) {
                (Some(a), Some(b), Some(c), Some(d), Some(e), Some(f)) => Some(
                    ColorValue::Rgb { r: a * 16 + b, g: c * 16 + d, b: e * 16 + f },
                ),
                _ => None,
            }
        } else if m == 3 {
            let v0 = hex_val(hex[i]);
            let v1 = hex_val(hex[i + 1]);
            let v2 = hex_val(hex[i + 2]);
            proof {
                assert(h[0] == hex@[i as int]);
                assert(h[1] == hex@[i as int + 1]);
                assert(h[2] == hex@[i as int + 2]);
            }
            match (v0, v1, v2) {
                (Some(a), Some(b), Some(c)) => Some(
                    ColorValue::Rgb { r: a * 17, g: b * 17, b: c * 17 },
                ),
                _ => None,
            }
        } else {
            None
        }
    }

    /// The path bar's foreground color.
    pub fn parse_fg_color(&self) -> (r: Option<ColorValue>)
        ensures
            r == spec_parse_color(encode_utf8(self.path_fg@)),
    {
        Self::parse_color_string(&string_bytes(&self.path_fg))
    }

    /// The path bar's background color.
    pub fn parse_bg_color(&self) -> (r: Option<ColorValue>)
        ensures
            r == spec_parse_color(encode_utf8(self.path_bg@)),
    {
        Self::parse_color_string(&string_bytes(&self.path_bg))
    }

    /// The selected entry's foreground color.
    pub fn parse_selected_fg(&self) -> (r: Option<ColorValue>)
        ensures
            r == spec_parse_color(encode_utf8(self.selected_fg@)),
    {
        Self::parse_color_string(&string_bytes(&self.selected_fg))
    }

    /// The selected entry's background color.
    pub fn parse_selected_bg(&self) -> (r: Option<ColorValue>)
        ensures
            r == spec_parse_color(encode_utf8(self.selected_bg@)),
    {
        Self::parse_color_string(&string_bytes(&self.selected_bg))
    }

    /// The directory name foreground color.
    pub fn parse_directory_fg(&self) -> (r: Option<ColorValue>)
        ensures
            r == spec_parse_color(encode_utf8(self.directory_fg@)),
    {
        Self::parse_color_string(&string_bytes(&self.directory_fg))
    }

    /// The directory name background color.
    pub fn parse_directory_bg(&self) -> (r: Option<ColorValue>)
        ensures
            r == spec_parse_color(encode_utf8(self.directory_bg@)),
    {
        Self::parse_color_string(&string_bytes(&self.directory_bg))
    }

    /// The file name foreground color.
    pub fn parse_file_fg(&self) -> (r: Option<ColorValue>)
        ensures
            r == spec_parse_color(encode_utf8(self.file_fg@)),
    {
        Self::parse_color_string(&string_bytes(&self.file_fg))
    }

    /// The file name background color.
    pub fn parse_file_bg(&self) -> (r: Option<ColorValue>)
        ensures
            r == spec_parse_color(encode_utf8(self.file_bg@)),
    {
        Self::parse_color_string(&string_bytes(&self.file_bg))
    }

    /// The preview border color.
    pub fn parse_preview_border_fg(&self) -> (r: Option<ColorValue>)
        ensures
            r == spec_parse_color(encode_utf8(self.preview_border_fg@)),
    {
        Self::parse_color_string(&string_bytes(&self.preview_border_fg))
    }

    /// The cursor mark's foreground color.
    pub fn parse_cursor_fg(&self) -> (r: Option<ColorValue>)
        ensures
            r == spec_parse_color(encode_utf8(self.cursor_fg@)),
    {
        Self::parse_color_string(&string_bytes(&self.cursor_fg))
    }

    /// The cursor mark's background color.
    pub fn parse_cursor_bg(&self) -> (r: Option<ColorValue>)
        ensures
            r == spec_parse_color(encode_utf8(self.cursor_bg@)),
    {
        Self::parse_color_string(&string_bytes(&self.cursor_bg))
    }

    /// The fuzzy match highlight foreground color.
    pub fn parse_fuzzy_highlight_fg(&self) -> (r: Option<ColorValue>)
        ensures
            r == spec_parse_color(encode_utf8(self.fuzzy_highlight_fg@)),
    {
        Self::parse_color_string(&string_bytes(&self.fuzzy_highlight_fg))
    }

    /// The fuzzy match highlight background color.
    pub fn parse_fuzzy_highlight_bg(&self) -> (r: Option<ColorValue>)
        ensures
            r == spec_parse_color(encode_utf8(self.fuzzy_highlight_bg@)),
    {
        Self::parse_color_string(&string_bytes(&self.fuzzy_highlight_bg))
    }

    /// The preview line number color.
    pub fn parse_line_number_fg(&self) -> (r: Option<ColorValue>)
        ensures
            r == spec_parse_color(encode_utf8(self.line_number_fg@)),
    {
        Self::parse_color_string(&string_bytes(&self.line_number_fg))
    }
}

} // verus!
