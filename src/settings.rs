//! Reading settings from text: fixed-point decimals, bounded unsigned
//! integers and flags, each falling back to its default where it is unset
//! or does not parse.

use vstd::prelude::*;
use crate::config::{Color, Config, ConfigError, WatermarkConfig, RATIO_LIMIT};
use crate::watermark::chars_of;
use crate::request::string_option_view;

verus! {

pub open spec fn is_digit(c: char) -> bool {
    '0' <= c <= '9'
}

pub open spec fn digit_value(c: char) -> int {
    c as int - '0' as int
}

pub open spec fn all_digits(s: Seq<char>) -> bool {
    forall|i: int| 0 <= i < s.len() ==> is_digit(#[trigger] s[i])
}

/// The number that a sequence of decimal digits spells.
pub open spec fn digits_value(s: Seq<char>) -> int
    decreases s.len(),
{
    if s.len() == 0 {
        0
    } else {
        digits_value(s.drop_last()) * 10 + digit_value(s.last())
    }
}

/// The first three digits after a decimal point, in thousandths; digits
/// further right are dropped.
pub open spec fn fraction_milli(f: Seq<char>) -> int {
    (if f.len() > 0 { digit_value(f[0]) * 100 } else { 0 }) + (if f.len() > 1 {
        digit_value(f[1]) * 10
    } else {
        0
    }) + (if f.len() > 2 { digit_value(f[2]) } else { 0 })
}

/// Index of the first `.` in `s`, or its length.
pub open spec fn point_index(s: Seq<char>) -> int {
    if exists|i: int| 0 <= i < s.len() && s[i] == '.' {
        choose|i: int| 0 <= i < s.len() && s[i] == '.' && forall|j: int| 0 <= j < i ==> s[j] != '.'
    } else {
        s.len() as int
    }
}

/// `s` without a leading sign, and whether that sign was `-`.
pub open spec fn unsigned_part(s: Seq<char>) -> (Seq<char>, bool) {
    if s.len() > 0 && (s[0] == '-' || s[0] == '+') {
        (s.subrange(1, s.len() as int), s[0] == '-')
    } else {
        (s, false)
    }
}

/// The value in thousandths of a decimal number written as an optional
/// sign, digits, and optionally a point followed by digits, with at least
/// one digit in all (`-1.2`, `0.065`, `.5`, `10.`). Digits beyond the third
/// after the point are dropped.
pub open spec fn decimal_milli(s: Seq<char>) -> Option<int> {
    let (body, negative) = unsigned_part(s);
    let p = point_index(body);
    let whole = body.subrange(0, p);
    let fraction = if p < body.len() { body.subrange(p + 1, body.len() as int) } else { seq![] };
    if all_digits(whole) && all_digits(fraction) && whole.len() + fraction.len() > 0 {
        let v = digits_value(whole) * 1000 + fraction_milli(fraction);
        Some(if negative { -v } else { v })
    } else {
        None
    }
}

/// The value of an unsigned decimal integer: an optional `+` and one or
/// more digits.
pub open spec fn unsigned_value(s: Seq<char>) -> Option<int> {
    let body = if s.len() > 0 && s[0] == '+' { s.subrange(1, s.len() as int) } else { s };
    if body.len() > 0 && all_digits(body) {
        Some(digits_value(body))
    } else {
        None
    }
}

proof fn lemma_digits_nonneg(s: Seq<char>)
    requires
        all_digits(s),
    ensures
        digits_value(s) >= 0,
    decreases s.len(),
{
    if s.len() > 0 {
        assert(is_digit(s[s.len() - 1]));
        assert(all_digits(s.drop_last())) by {
            assert forall|i: int| 0 <= i < s.drop_last().len() implies is_digit(
                #[trigger] s.drop_last()[i],
            ) by {
                assert(is_digit(s[i]));
            }
        }
        lemma_digits_nonneg(s.drop_last());
    }
}

/// The digits `s[from..to]`, read as a number but capped at `cap`.
fn capped_digits(s: &Vec<char>, from: usize, to: usize, cap: u64) -> (r: u64)
    requires
        from <= to <= s@.len(),
        all_digits(s@.subrange(from as int, to as int)),
        cap <= 0xffff_ffff_ffff,
    ensures
        r == if digits_value(s@.subrange(from as int, to as int)) < cap {
            digits_value(s@.subrange(from as int, to as int))
        } else {
            cap as int
        },
{
    let mut acc: u64 = 0;
    let mut i: usize = from;
    while i < to
        invariant
            from <= i <= to <= s@.len(),
            all_digits(s@.subrange(from as int, to as int)),
            cap <= 0xffff_ffff_ffff,
            acc == if digits_value(s@.subrange(from as int, i as int)) < cap {
                digits_value(s@.subrange(from as int, i as int))
            } else {
                cap as int
            },
        decreases to - i,
    {
        let ghost prefix = s@.subrange(from as int, i as int);
        let ghost next = s@.subrange(from as int, i + 1);
        assert(is_digit(s@.subrange(from as int, to as int)[i - from]));
        assert(next.drop_last() =~= prefix);
        assert(next.last() == s@[i as int]);
        proof {
            assert(all_digits(prefix)) by {
                assert forall|j: int| 0 <= j < prefix.len() implies is_digit(#[trigger] prefix[j]) by {
                    assert(is_digit(s@.subrange(from as int, to as int)[j]));
                }
            }
            lemma_digits_nonneg(prefix);
        }
        let d: u64 = (s[i] as u32 - '0' as u32) as u64;
        let grown: u64 = acc * 10 + d;
        acc = if grown < cap { grown } else { cap };
        i = i + 1;
    }
    acc
}

/// Index of the first `.` in `s[from..]`, or the length of `s`.
fn find_point(s: &Vec<char>, from: usize) -> (p: usize)
    requires
        from <= s@.len(),
    ensures
        from <= p <= s@.len(),
        point_index(s@.subrange(from as int, s@.len() as int)) == p - from,
{
    let n: usize = s.len();
    let mut p: usize = from;
    while p < n && s[p] != '.'
        invariant
            from <= p <= n,
            n == s@.len(),
            forall|j: int| from <= j < p ==> s@[j] != '.',
        decreases n - p,
    {
        p = p + 1;
    }
    let ghost body = s@.subrange(from as int, n as int);
    proof {
        if p < n {
            let k = p - from;
            assert(body[k] == '.');
            let i = point_index(body);
            assert(0 <= i < body.len() && body[i] == '.' && forall|j: int|
                0 <= j < i ==> body[j] != '.');
            if i < k {
                assert(s@[from + i] != '.');
            }
            if i > k {
                assert(body[k] != '.');
            }
        } else {
            assert(!exists|i: int| 0 <= i < body.len() && body[i] == '.') by {
                if exists|i: int| 0 <= i < body.len() && body[i] == '.' {
                    let i = choose|i: int| 0 <= i < body.len() && body[i] == '.';
                    assert(s@[from + i] != '.');
                }
            }
        }
    }
    p
}

/// The first three digits of `s[from..]`, in thousandths (see `fraction_milli`).
fn fraction_of(s: &Vec<char>, from: usize) -> (f: u64)
    requires
        from <= s@.len(),
        all_digits(s@.subrange(from as int, s@.len() as int)),
    ensures
        f == fraction_milli(s@.subrange(from as int, s@.len() as int)),
        f < 1000,
{
    let ghost fr = s@.subrange(from as int, s@.len() as int);
    let left: usize = s.len() - from;
    let mut f: u64 = 0;
    if left > 0 {
        assert(is_digit(fr[0]));
        f = f + (s[from] as u32 - '0' as u32) as u64 * 100;
    }
    if left > 1 {
        assert(is_digit(fr[1]));
        f = f + (s[from + 1] as u32 - '0' as u32) as u64 * 10;
    }
    if left > 2 {
        assert(is_digit(fr[2]));
        f = f + (s[from + 2] as u32 - '0' as u32) as u64;
    }
    f
}

/// Parses a fixed-point setting (see `decimal_milli`); `None` where the
/// text is no such number or its value lies beyond `RATIO_LIMIT`.
pub fn parse_ratio(text: &str) -> (r: Option<i64>)
    ensures
        r == (match decimal_milli(text@) {
            Some(v) => if -RATIO_LIMIT <= v <= RATIO_LIMIT {
                Some(v as i64)
            } else {
                None::<i64>
            },
            None => None::<i64>,
        }),
{
    let s = chars_of(text);
    let n: usize = s.len();
    let signed: bool = n > 0 && (s[0] == '-' || s[0] == '+');
    let negative: bool = signed && s[0] == '-';
    let start: usize = if signed { 1 } else { 0 };
    let ghost body = s@.subrange(start as int, n as int);
    assert(unsigned_part(s@) == (body, negative)) by {
        if !signed {
            assert(body =~= s@);
        }
    }
    let p = find_point(&s, start);
    let ghost whole = body.subrange(0, p - start);
    assert(whole =~= s@.subrange(start as int, p as int));
    let frac_start: usize = if p < n { p + 1 } else { n };
    let ghost fraction = if p < n { body.subrange(p - start + 1, body.len() as int) } else { seq![] };
    assert(fraction =~= s@.subrange(frac_start as int, n as int));
    let ghost parsed = decimal_milli(s@);
    if !digits_only(&s, start, p) || !digits_only(&s, frac_start, n) || (p - start) + (n
        - frac_start) == 0 {
        assert(parsed is None);
        return None;
    }
    let w: u64 = capped_digits(&s, start, p, 1001);
    let f: u64 = fraction_of(&s, frac_start);
    let v: u64 = w * 1000 + f;
    proof {
        lemma_digits_nonneg(whole);
        assert(parsed == Some(if negative {
            -(digits_value(whole) * 1000 + f)
        } else {
            digits_value(whole) * 1000 + f
        }));
    }
    if v > RATIO_LIMIT as u64 {
        return None;
    }
    if negative {
        Some(-(v as i64))
    } else {
        Some(v as i64)
    }
}

/// Whether `s[from..to]` holds digits only.
fn digits_only(s: &Vec<char>, from: usize, to: usize) -> (r: bool)
    requires
        from <= to <= s@.len(),
    ensures
        r == all_digits(s@.subrange(from as int, to as int)),
{
    let mut i: usize = from;
    while i < to
        invariant
            from <= i <= to <= s@.len(),
            forall|j: int| from <= j < i ==> is_digit(s@[j]),
        decreases to - i,
    {
        if !(s[i] >= '0' && s[i] <= '9') {
            assert(!is_digit(s@.subrange(from as int, to as int)[i - from]));
            return false;
        }
        i = i + 1;
    }
    assert forall|j: int| 0 <= j < to - from implies is_digit(
        #[trigger] s@.subrange(from as int, to as int)[j],
    ) by {
        assert(is_digit(s@[from + j]));
    }
    true
}

/// Parses an unsigned decimal integer (see `unsigned_value`); `None` where
/// the text is no such number or its value exceeds `max`.
pub fn parse_unsigned(text: &str, max: u64) -> (r: Option<u64>)
    requires
        max <= 0xffff_ffff_fff0,
    ensures
        r == (match unsigned_value(text@) {
            Some(v) => if v <= max {
                Some(v as u64)
            } else {
                None::<u64>
            },
            None => None::<u64>,
        }),
        r matches Some(v) ==> v <= max && unsigned_value(text@) == Some(v as int),
        r is None ==> !(unsigned_value(text@) matches Some(v) && 0 <= v <= max),
{
    let s = chars_of(text);
    let n: usize = s.len();
    let start: usize = if n > 0 && s[0] == '+' { 1 } else { 0 };
    assert(start == 0 ==> s@.subrange(0, n as int) =~= s@);
    if start == n || !digits_only(&s, start, n) {
        return None;
    }
    let v: u64 = capped_digits(&s, start, n, max + 1);
    proof {
        let body = if n > 0 && s@[0] == '+' { s@.subrange(1, n as int) } else { s@ };
        assert(body =~= s@.subrange(start as int, n as int));
    }
    if v > max {
        None
    } else {
        Some(v)
    }
}

} // verus!

verus! {

/// The value of the first variable named `key`.
pub open spec fn setting_of(vars: Seq<(String, String)>, key: Seq<char>) -> Option<Seq<char>>
    decreases vars.len(),
{
    if vars.len() == 0 {
        None
    } else if vars[0].0@ == key {
        Some(vars[0].1@)
    } else {
        setting_of(vars.drop_first(), key)
    }
}

/// A fixed-point setting, or `default` where it is unset or invalid.
#[verifier::opaque]
pub open spec fn ratio_setting(vars: Seq<(String, String)>, key: Seq<char>, default: i64) -> i64 {
    match setting_of(vars, key) {
        Some(text) => match decimal_milli(text) {
            Some(v) => if -RATIO_LIMIT <= v <= RATIO_LIMIT {
                v as i64
            } else {
                default
            },
            None => default,
        },
        None => default,
    }
}

/// An unsigned setting of at most `max`, or `default` where it is unset or
/// invalid.
#[verifier::opaque]
pub open spec fn unsigned_setting(
    vars: Seq<(String, String)>,
    key: Seq<char>,
    max: u64,
    default: u64,
) -> u64 {
    match setting_of(vars, key) {
        Some(text) => match unsigned_value(text) {
            Some(v) => if v <= max {
                v as u64
            } else {
                default
            },
            None => default,
        },
        None => default,
    }
}

/// A text setting, or `default` where it is unset.
pub open spec fn text_setting(vars: Seq<(String, String)>, key: Seq<char>, default: Seq<char>) -> Seq<
    char,
> {
    match setting_of(vars, key) {
        Some(text) => text,
        None => default,
    }
}

/// Index of the first variable named `key`, or the number of variables.
fn find_setting(vars: &Vec<(String, String)>, key: &str) -> (r: usize)
    ensures
        r <= vars@.len(),
        r < vars@.len() ==> vars@[r as int].0@ == key@ && setting_of(vars@, key@) == Some(
            vars@[r as int].1@,
        ),
        r == vars@.len() ==> setting_of(vars@, key@) is None,
{
    let k = key.to_owned();
    let mut i: usize = 0;
    assert(vars@.subrange(0, vars@.len() as int) =~= vars@);
    while i < vars.len()
        invariant
            i <= vars@.len(),
            k@ == key@,
            setting_of(vars@, key@) == setting_of(vars@.subrange(i as int, vars@.len() as int), key@),
        decreases vars@.len() - i,
    {
        let ghost rest = vars@.subrange(i as int, vars@.len() as int);
        if vars[i].0 == k {
            assert(rest[0] == vars@[i as int]);
            return i;
        }
        assert(rest.drop_first() =~= vars@.subrange(i + 1, vars@.len() as int));
        i = i + 1;
    }
    i
}

/// Reads a fixed-point setting (see `ratio_setting`).
pub fn ratio_or(vars: &Vec<(String, String)>, key: &str, default: i64) -> (r: i64)
    requires
        -RATIO_LIMIT <= default <= RATIO_LIMIT,
    ensures
        r == ratio_setting(vars@, key@, default),
        -RATIO_LIMIT <= r <= RATIO_LIMIT,
{
    reveal(ratio_setting);
    let i = find_setting(vars, key);
    if i == vars.len() {
        return default;
    }
    match parse_ratio(vars[i].1.as_str()) {
        Some(v) => v,
        None => default,
    }
}

/// Reads an unsigned setting (see `unsigned_setting`).
pub fn unsigned_or(vars: &Vec<(String, String)>, key: &str, max: u64, default: u64) -> (r: u64)
    requires
        max <= 0xffff_ffff_fff0,
    ensures
        r == unsigned_setting(vars@, key@, max, default),
        r <= max || r == default,
{
    reveal(unsigned_setting);
    let i = find_setting(vars, key);
    if i == vars.len() {
        return default;
    }
    match parse_unsigned(vars[i].1.as_str(), max) {
        Some(v) => v,
        None => default,
    }
}

/// Reads a text setting (see `text_setting`).
pub fn text_or(vars: &Vec<(String, String)>, key: &str, default: &str) -> (r: String)
    ensures
        r@ == text_setting(vars@, key@, default@),
{
    let i = find_setting(vars, key);
    if i == vars.len() {
        default.to_owned()
    } else {
        vars[i].1.clone()
    }
}

/// Reads a setting that must be present.
pub fn required(vars: &Vec<(String, String)>, key: &str) -> (r: Option<String>)
    ensures
        string_option_view(r) == setting_of(vars@, key@),
{
    let i = find_setting(vars, key);
    if i == vars.len() {
        None
    } else {
        Some(vars[i].1.clone())
    }
}

/// The colour read from the four settings `<prefix>_R`, `_G`, `_B`, `_A`.
pub open spec fn color_setting(
    vars: Seq<(String, String)>,
    r: Seq<char>,
    g: Seq<char>,
    b: Seq<char>,
    a: Seq<char>,
    default: Color,
) -> Color {
    Color {
        r: unsigned_setting(vars, r, 255, default.r as u64) as u8,
        g: unsigned_setting(vars, g, 255, default.g as u64) as u8,
        b: unsigned_setting(vars, b, 255, default.b as u64) as u8,
        a: unsigned_setting(vars, a, 255, default.a as u64) as u8,
    }
}

/// The watermark settings that `vars` give, with the defaults of
/// `WatermarkConfig::default` for those unset or invalid.
#[verifier::opaque]
pub open spec fn watermark_from(vars: Seq<(String, String)>) -> WatermarkConfig {
    WatermarkConfig {
        font_height_ratio: ratio_setting(vars, "FONT_HEIGHT_RATIO"@, 100),
        font_height_min: ratio_setting(vars, "FONT_HEIGHT_MIN"@, 10_000),
        font_width_ratio: ratio_setting(vars, "FONT_WIDTH_RATIO"@, 600),
        watermark_color: color_setting(
            vars,
            "WATERMARK_COLOR_R"@,
            "WATERMARK_COLOR_G"@,
            "WATERMARK_COLOR_B"@,
            "WATERMARK_COLOR_A"@,
            Color { r: 255, g: 255, b: 255, a: 46 },
        ),
        shadow_color: color_setting(
            vars,
            "SHADOW_COLOR_R"@,
            "SHADOW_COLOR_G"@,
            "SHADOW_COLOR_B"@,
            "SHADOW_COLOR_A"@,
            Color { r: 0, g: 0, b: 0, a: 46 },
        ),
        shadow_offset_ratio: ratio_setting(vars, "SHADOW_OFFSET_RATIO"@, 65),
        char_spacing_x_ratio: ratio_setting(vars, "CHAR_SPACING_X_RATIO"@, 1100),
        char_spacing_y_ratio: ratio_setting(vars, "CHAR_SPACING_Y_RATIO"@, 400),
        global_offset_x_ratio: ratio_setting(vars, "GLOBAL_OFFSET_X_RATIO"@, -500i64),
        global_offset_y_ratio: ratio_setting(vars, "GLOBAL_OFFSET_Y_RATIO"@, -1200i64),
        jpeg_quality: if 1 <= unsigned_setting(vars, "JPEG_QUALITY"@, 100, 90) {
            unsigned_setting(vars, "JPEG_QUALITY"@, 100, 90) as u8
        } else {
            90u8
        },
    }
}

/// `c` holds the settings that `vars` give.
pub open spec fn is_config_from(c: Config, vars: Seq<(String, String)>) -> bool {
    &&& c.host@ == text_setting(vars, "HOST"@, "0.0.0.0"@)
    &&& c.port == unsigned_setting(vars, "PORT"@, 0xffff, 3333)
    &&& c.workers == unsigned_setting(vars, "WORKERS"@, 0xffff_ffff, 0)
    &&& c.log_level@ == text_setting(vars, "LOG_LEVEL"@, "error"@)
    &&& c.font_path@ == text_setting(vars, "FONT_PATH"@, "assets/DejaVuSans.ttf"@)
    &&& c.watermark == watermark_from(vars)
    &&& setting_of(vars, "MINIO_ENDPOINT"@) == Some(c.minio_endpoint@)
    &&& setting_of(vars, "MINIO_ACCESS_KEY"@) == Some(c.minio_access_key@)
    &&& setting_of(vars, "MINIO_SECRET_KEY"@) == Some(c.minio_secret_key@)
    &&& setting_of(vars, "MINIO_SECURE"@) is Some
    &&& c.minio_secure == (setting_of(vars, "MINIO_SECURE"@) == Some("true"@))
}

fn color_or(
    vars: &Vec<(String, String)>,
    r: &str,
    g: &str,
    b: &str,
    a: &str,
    default: Color,
) -> (c: Color)
    ensures
        c == color_setting(vars@, r@, g@, b@, a@, default),
{
    Color {
        r: unsigned_or(vars, r, 255, default.r as u64) as u8,
        g: unsigned_or(vars, g, 255, default.g as u64) as u8,
        b: unsigned_or(vars, b, 255, default.b as u64) as u8,
        a: unsigned_or(vars, a, 255, default.a as u64) as u8,
    }
}

/// Reads the watermark settings (see `watermark_from`).
pub fn watermark_config_from(vars: &Vec<(String, String)>) -> (c: WatermarkConfig)
    ensures
        c == watermark_from(vars@),
        c.wf(),
{
    reveal(watermark_from);
    let quality: u64 = unsigned_or(vars, "JPEG_QUALITY", 100, 90);
    WatermarkConfig {
        font_height_ratio: ratio_or(vars, "FONT_HEIGHT_RATIO", 100),
        font_height_min: ratio_or(vars, "FONT_HEIGHT_MIN", 10_000),
        font_width_ratio: ratio_or(vars, "FONT_WIDTH_RATIO", 600),
        watermark_color: color_or(
            vars,
            "WATERMARK_COLOR_R",
            "WATERMARK_COLOR_G",
            "WATERMARK_COLOR_B",
            "WATERMARK_COLOR_A",
            Color { r: 255, g: 255, b: 255, a: 46 },
        ),
        shadow_color: color_or(
            vars,
            "SHADOW_COLOR_R",
            "SHADOW_COLOR_G",
            "SHADOW_COLOR_B",
            "SHADOW_COLOR_A",
            Color { r: 0, g: 0, b: 0, a: 46 },
        ),
        shadow_offset_ratio: ratio_or(vars, "SHADOW_OFFSET_RATIO", 65),
        char_spacing_x_ratio: ratio_or(vars, "CHAR_SPACING_X_RATIO", 1100),
        char_spacing_y_ratio: ratio_or(vars, "CHAR_SPACING_Y_RATIO", 400),
        global_offset_x_ratio: ratio_or(vars, "GLOBAL_OFFSET_X_RATIO", -500),
        global_offset_y_ratio: ratio_or(vars, "GLOBAL_OFFSET_Y_RATIO", -1200),
        jpeg_quality: if quality >= 1 {
            quality as u8
        } else {
            90
        },
    }
}

impl Config {
    /// Reads all settings from `(name, value)` pairs (the first pair of a
    /// name counts). Unset or invalid settings take their defaults; the
    /// object store's endpoint, keys and security flag have none and must
    /// be set. The flag is on exactly where it reads `true`.
    pub fn from_vars(vars: &Vec<(String, String)>) -> (r: Result<Config, ConfigError>)
        ensures
            match r {
                Ok(c) => is_config_from(c, vars@) && c.watermark.wf(),
                Err(e) => match e {
                    ConfigError::MissingEndpoint => setting_of(vars@, "MINIO_ENDPOINT"@) is None,
                    ConfigError::MissingAccessKey => setting_of(vars@, "MINIO_ENDPOINT"@) is Some
                        && setting_of(vars@, "MINIO_ACCESS_KEY"@) is None,
                    ConfigError::MissingSecretKey => setting_of(vars@, "MINIO_ENDPOINT"@) is Some
                        && setting_of(vars@, "MINIO_ACCESS_KEY"@) is Some && setting_of(
                        vars@,
                        "MINIO_SECRET_KEY"@,
                    ) is None,
                    ConfigError::MissingSecure => setting_of(vars@, "MINIO_ENDPOINT"@) is Some
                        && setting_of(vars@, "MINIO_ACCESS_KEY"@) is Some && setting_of(
                        vars@,
                        "MINIO_SECRET_KEY"@,
                    ) is Some && setting_of(vars@, "MINIO_SECURE"@) is None,
                },
            },
    {
        let minio_endpoint = match required(vars, "MINIO_ENDPOINT") {
            Some(v) => v,
            None => return Err(ConfigError::MissingEndpoint),
        };
        let minio_access_key = match required(vars, "MINIO_ACCESS_KEY") {
            Some(v) => v,
            None => return Err(ConfigError::MissingAccessKey),
        };
        let minio_secret_key = match required(vars, "MINIO_SECRET_KEY") {
            Some(v) => v,
            None => return Err(ConfigError::MissingSecretKey),
        };
        let secure = match required(vars, "MINIO_SECURE") {
            Some(v) => v,
            None => return Err(ConfigError::MissingSecure),
        };
        let minio_secure: bool = secure == "true".to_owned();
        Ok(
            Config {
                host: text_or(vars, "HOST", "0.0.0.0"),
                port: unsigned_or(vars, "PORT", 0xffff, 3333) as u16,
                workers: unsigned_or(vars, "WORKERS", 0xffff_ffff, 0) as usize,
                log_level: text_or(vars, "LOG_LEVEL", "error"),
                font_path: text_or(vars, "FONT_PATH", "assets/DejaVuSans.ttf"),
                watermark: watermark_config_from(vars),
                minio_endpoint,
                minio_access_key,
                minio_secret_key,
                minio_secure,
            },
        )
    }
}

/// The names of the fixed-point settings.
pub open spec fn is_ratio_key(key: Seq<char>) -> bool {
    ||| key == "FONT_HEIGHT_RATIO"@
    ||| key == "FONT_HEIGHT_MIN"@
    ||| key == "FONT_WIDTH_RATIO"@
    ||| key == "SHADOW_OFFSET_RATIO"@
    ||| key == "CHAR_SPACING_X_RATIO"@
    ||| key == "CHAR_SPACING_Y_RATIO"@
    ||| key == "GLOBAL_OFFSET_X_RATIO"@
    ||| key == "GLOBAL_OFFSET_Y_RATIO"@
}

/// The names of the colour channel settings.
pub open spec fn is_channel_key(key: Seq<char>) -> bool {
    ||| key == "WATERMARK_COLOR_R"@
    ||| key == "WATERMARK_COLOR_G"@
    ||| key == "WATERMARK_COLOR_B"@
    ||| key == "WATERMARK_COLOR_A"@
    ||| key == "SHADOW_COLOR_R"@
    ||| key == "SHADOW_COLOR_G"@
    ||| key == "SHADOW_COLOR_B"@
    ||| key == "SHADOW_COLOR_A"@
}

/// An unsigned number within `lo..=hi`.
pub open spec fn unsigned_within(value: Seq<char>, lo: int, hi: int) -> bool {
    match unsigned_value(value) {
        Some(v) => lo <= v <= hi,
        None => false,
    }
}

/// Whether `value` is a valid value of the setting `key`; one that is not
/// is replaced by its default. Text settings, and names that are no
/// setting, take any value.
pub open spec fn valid_setting(key: Seq<char>, value: Seq<char>) -> bool {
    if is_ratio_key(key) {
        match decimal_milli(value) {
            Some(v) => -RATIO_LIMIT <= v <= RATIO_LIMIT,
            None => false,
        }
    } else if is_channel_key(key) {
        unsigned_within(value, 0, 255)
    } else if key == "JPEG_QUALITY"@ {
        unsigned_within(value, 1, 100)
    } else if key == "PORT"@ {
        unsigned_within(value, 0, 0xffff)
    } else if key == "WORKERS"@ {
        unsigned_within(value, 0, 0xffff_ffff)
    } else {
        true
    }
}

/// Whether `value` is a valid value of the setting `key` (see `valid_setting`).
pub fn setting_valid(key: &str, value: &str) -> (r: bool)
    ensures
        r == valid_setting(key@, value@),
{
    let k = key.to_owned();
    if k == "FONT_HEIGHT_RATIO".to_owned() || k == "FONT_HEIGHT_MIN".to_owned() || k == "FONT_WIDTH_RATIO".to_owned() || k == "SHADOW_OFFSET_RATIO".to_owned() || k == "CHAR_SPACING_X_RATIO".to_owned() || k == "CHAR_SPACING_Y_RATIO".to_owned() || k == "GLOBAL_OFFSET_X_RATIO".to_owned() || k == "GLOBAL_OFFSET_Y_RATIO".to_owned() {
        parse_ratio(value).is_some()
    } else if k == "WATERMARK_COLOR_R".to_owned() || k == "WATERMARK_COLOR_G".to_owned() || k == "WATERMARK_COLOR_B".to_owned() || k == "WATERMARK_COLOR_A".to_owned() || k == "SHADOW_COLOR_R".to_owned() || k == "SHADOW_COLOR_G".to_owned() || k == "SHADOW_COLOR_B".to_owned() || k == "SHADOW_COLOR_A".to_owned() {
        parse_unsigned(value, 255).is_some()
    } else if k == "JPEG_QUALITY".to_owned() {
        match parse_unsigned(value, 100) {
            Some(q) => q >= 1,
            None => false,
        }
    } else if k == "PORT".to_owned() {
        parse_unsigned(value, 0xffff).is_some()
    } else if k == "WORKERS".to_owned() {
        parse_unsigned(value, 0xffff_ffff).is_some()
    } else {
        true
    }
}

} // verus!
