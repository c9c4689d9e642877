//! Converts Wareki (JIS X 0301) based dates into Gregorian calendar dates.
//!
//! Four accepted notations, classified after width normalization:
//!
//! |            Kind             | Format example  |
//! | :-------------------------- | :-------------- |
//! | `JisX0301Basic`             | `01.02.03`      |
//! | `JisX0301Extended`          | `R01.02.03`     |
//! | `JisX0301ExtendedWithKanji` | `令01.02.03`    |
//! | `SeparatedWithKanji`        | `令和1年2月3日` |
//!
//! JIS X 0301 asks for zero-padded two-digit fields; unpadded fields are
//! accepted as well, since the padding is not always complied with even in
//! official documents. The first year of an era may be written with the
//! first-year token `元` in place of the numeral `1`.

use vstd::prelude::*;

use crate::text::chars_of;
use crate::text::half_width_char;
use crate::text::is_ascii_digit_char;
use crate::text::normalized;
use crate::text::parse_u32;
use crate::text::spec_parse_u32;
use crate::text::split_char;
use crate::text::split_on;

verus! {

const START_YEAR_OF_MEIJI: i32 = 1868;

const START_YEAR_OF_TAISHO: i32 = 1912;

const START_YEAR_OF_SHOWA: i32 = 1926;

const START_YEAR_OF_HEISEI: i32 = 1989;

const START_YEAR_OF_REIWA: i32 = 2019;

/// A Gregorian calendar date. Month and day are carried as extracted and are
/// not checked for calendrical validity here: that check belongs to the
/// date/time library that materializes a timestamp from this value.
#[derive(Clone, Copy, Debug, PartialEq, Eq, Structural)]
pub struct Date {
    /// Year
    pub year: i32,
    /// Month
    pub month: u32,
    /// Day
    pub day: u32,
}

impl Date {
    /// Returns a new `Date`.
    pub fn new(year: i32, month: u32, day: u32) -> (r: Self)
        ensures
            r == (Date { year, month, day }),
    {
        Self { year, month, day }
    }

    /// Returns the year.
    pub fn year(&self) -> (r: i32)
        ensures
            r == self.year,
    {
        self.year
    }

    /// Returns the month.
    pub fn month(&self) -> (r: u32)
        ensures
            r == self.month,
    {
        self.month
    }

    /// Returns the day.
    pub fn day(&self) -> (r: u32)
        ensures
            r == self.day,
    {
        self.day
    }
}

/// The five supported eras (Gengo).
#[derive(Clone, Copy, Debug, PartialEq, Eq, Structural)]
pub enum Gengo {
    /// Meiji
    Meiji,
    /// Taisho
    Taisho,
    /// Showa
    Showa,
    /// Heisei
    Heisei,
    /// Reiwa
    Reiwa,
}

/// The Gregorian year in which an era begins: its first year maps to exactly
/// this year.
pub open spec fn first_year_of(g: Gengo) -> int {
    match g {
        Gengo::Meiji => 1868,
        Gengo::Taisho => 1912,
        Gengo::Showa => 1926,
        Gengo::Heisei => 1989,
        Gengo::Reiwa => 2019,
    }
}

impl Gengo {
    /// Returns the first Gregorian year of the era.
    pub fn first_year(&self) -> (r: i32)
        ensures
            r == first_year_of(*self),
    {
        match *self {
            Gengo::Meiji => START_YEAR_OF_MEIJI,
            Gengo::Taisho => START_YEAR_OF_TAISHO,
            Gengo::Showa => START_YEAR_OF_SHOWA,
            Gengo::Heisei => START_YEAR_OF_HEISEI,
            Gengo::Reiwa => START_YEAR_OF_REIWA,
        }
    }

    /// Returns the romanized name of the era.
    pub fn name(&self) -> (r: &'static str)
        ensures
            *self == Gengo::Meiji ==> r@ == "Meiji"@,
            *self == Gengo::Taisho ==> r@ == "Taisho"@,
            *self == Gengo::Showa ==> r@ == "Showa"@,
            *self == Gengo::Heisei ==> r@ == "Heisei"@,
            *self == Gengo::Reiwa ==> r@ == "Reiwa"@,
    {
        match *self {
            Gengo::Meiji => "Meiji",
            Gengo::Taisho => "Taisho",
            Gengo::Showa => "Showa",
            Gengo::Heisei => "Heisei",
            Gengo::Reiwa => "Reiwa",
        }
    }
}

/// The textual shape of an input, decided by the classifier.
#[derive(PartialEq, Eq, Copy, Clone, Debug, Hash, PartialOrd, Ord, Structural)]
pub enum DateType {
    JisX0301Basic,
    JisX0301Extended,
    JisX0301ExtendedWithKanji,
    SeparatedWithKanji,
}

/// Why a conversion failed.
#[derive(Clone, Copy, Debug, PartialEq, Eq, Structural)]
pub enum ConvertError {
    /// The input's shape matches none of the four accepted notations.
    UnrecognizedFormat,
    /// A year, month, or day field is not a parseable unsigned integer, the
    /// extraction did not yield exactly three fields, or the computed year
    /// does not fit the year's range.
    MalformedField,
}

/// The first-year token `元` read as the numeral `1`; every other character is
/// left unchanged.
pub open spec fn gan_char(c: char) -> char {
    if c == '元' {
        '1'
    } else {
        c
    }
}

/// A string with every first-year token replaced by the numeral `1`.
pub open spec fn gan_replaced(s: Seq<char>) -> Seq<char> {
    s.map_values(|c: char| gan_char(c))
}

/// The end of the run of ASCII digits that starts at `from`: the first
/// position at or after `from` holding a non-digit, or the string's length.
pub open spec fn digit_run_end(s: Seq<char>, from: int) -> int
    recommends
        0 <= from <= s.len(),
    decreases s.len() - from,
{
    if from < s.len() && is_ascii_digit_char(s[from]) {
        digit_run_end(s, from + 1)
    } else {
        from
    }
}

/// True of the two-character name of one of the five eras.
pub open spec fn is_era_name(a: char, b: char) -> bool {
    ||| (a == '明' && b == '治')
    ||| (a == '大' && b == '正')
    ||| (a == '昭' && b == '和')
    ||| (a == '平' && b == '成')
    ||| (a == '令' && b == '和')
}

/// True when the string begins with the narrative pattern: a two-character
/// era name, then a digit run and `年`, a digit run and `月`, and a digit run
/// and `日`. Characters after the day unit do not affect the match.
pub open spec fn narrative_match(s: Seq<char>) -> bool {
    &&& s.len() >= 2
    &&& is_era_name(s[0], s[1])
    &&& {
        let i = digit_run_end(s, 2);
        &&& i > 2
        &&& i < s.len()
        &&& s[i] == '年'
        &&& {
            let j = digit_run_end(s, i + 1);
            &&& j > i + 1
            &&& j < s.len()
            &&& s[j] == '月'
            &&& {
                let k = digit_run_end(s, j + 1);
                &&& k > j + 1
                &&& k < s.len()
                &&& s[k] == '日'
            }
        }
    }
}

/// True of the single Latin letters that mark an era.
pub open spec fn is_latin_marker(c: char) -> bool {
    c == 'M' || c == 'T' || c == 'S' || c == 'H' || c == 'R'
}

/// True of the single Kanji era initials that mark an era.
pub open spec fn is_kanji_marker(c: char) -> bool {
    c == '明' || c == '大' || c == '昭' || c == '平' || c == '令'
}

/// The notation a normalized string falls under, or `None` when it matches no
/// accepted notation. A string without dots must match the narrative pattern;
/// a string of exactly three dot-separated segments is classified by its
/// leading character; any other segment count is unrecognized.
pub open spec fn spec_classify(s: Seq<char>) -> Option<DateType> {
    let segs = split_on(s, '.');
    if segs.len() == 1 {
        if narrative_match(s) {
            Some(DateType::SeparatedWithKanji)
        } else {
            None
        }
    } else if segs.len() == 3 {
        if s.len() > 0 && is_ascii_digit_char(s[0]) {
            Some(DateType::JisX0301Basic)
        } else if s.len() > 0 && is_latin_marker(s[0]) {
            Some(DateType::JisX0301Extended)
        } else if s.len() > 0 && is_kanji_marker(s[0]) {
            Some(DateType::JisX0301ExtendedWithKanji)
        } else {
            None
        }
    } else {
        None
    }
}

/// The era a normalized string names by its leading character. A string with
/// no recognized marker — including one that starts with a digit — resolves
/// to the most recent era, Reiwa: absence of a marker is itself meaningful,
/// so resolution is total and never fails.
pub open spec fn spec_resolve(s: Seq<char>) -> Gengo {
    if s.len() == 0 {
        Gengo::Reiwa
    } else if s[0] == 'M' || s[0] == '明' {
        Gengo::Meiji
    } else if s[0] == 'T' || s[0] == '大' {
        Gengo::Taisho
    } else if s[0] == 'S' || s[0] == '昭' {
        Gengo::Showa
    } else if s[0] == 'H' || s[0] == '平' {
        Gengo::Heisei
    } else {
        Gengo::Reiwa
    }
}

/// Relies on `String::push`: appends the given character to the end of the
/// string.
#[verifier::external_body]
fn push_char(s: &mut String, c: char)
    ensures
        final(s)@ == old(s)@.push(c),
{
    s.push(c);
}

/// Normalizes a string to half-width: full-width (Zenkaku) Latin letters,
/// digits, and punctuation are replaced by their half-width (Hankaku)
/// equivalents; Kanji and other non-dual characters pass through unchanged.
/// Total over all input strings; both classification and era resolution
/// depend on half-width marker characters and digits.
pub fn to_half_width(input: &str) -> (r: String)
    ensures
        r@ == normalized(input@),
{
    let n = input.unicode_len();
    let mut out = String::new();
    let mut i: usize = 0;
    while i < n
        invariant
            n == input@.len(),
            i <= n,
            out@ == normalized(input@.subrange(0, i as int)),
        decreases n - i,
    {
        let h = half_width_char(input.get_char(i));
        push_char(&mut out, h);
        assert(out@ =~= normalized(input@.subrange(0, i + 1)));
        i = i + 1;
    }
    assert(input@.subrange(0, n as int) =~= input@);
    out
}

/// The characters of a string, width-normalized and with every first-year
/// token replaced by the numeral `1`.
fn normalized_gan_chars(input: &str) -> (r: Vec<char>)
    ensures
        r@ == gan_replaced(normalized(input@)),
{
    let n = input.unicode_len();
    let mut out: Vec<char> = Vec::new();
    let mut i: usize = 0;
    while i < n
        invariant
            n == input@.len(),
            i <= n,
            out@ == gan_replaced(normalized(input@.subrange(0, i as int))),
        decreases n - i,
    {
        let h = half_width_char(input.get_char(i));
        let g = if h == '元' {
            '1'
        } else {
            h
        };
        out.push(g);
        assert(out@ =~= gan_replaced(normalized(input@.subrange(0, i + 1))));
        i = i + 1;
    }
    assert(input@.subrange(0, n as int) =~= input@);
    out
}

/// Returns the end of the run of ASCII digits starting at `from`.
fn scan_digit_run(v: &Vec<char>, from: usize) -> (r: usize)
    requires
        from <= v@.len(),
    ensures
        r == digit_run_end(v@, from as int),
        from <= r <= v@.len(),
    decreases v@.len() - from,
{
    let mut i = from;
    while i < v.len() && v[i] >= '0' && v[i] <= '9'
        invariant
            from <= i <= v@.len(),
            digit_run_end(v@, from as int) == digit_run_end(v@, i as int),
        decreases v@.len() - i,
    {
        i = i + 1;
    }
    i
}

/// Decides whether the character vector begins with the narrative pattern.
fn narrative_check(v: &Vec<char>) -> (r: bool)
    ensures
        r == narrative_match(v@),
{
    if v.len() < 2 {
        return false;
    }
    let a = v[0];
    let b = v[1];
    let era_ok = (a == '明' && b == '治') || (a == '大' && b == '正') || (a == '昭' && b == '和')
        || (a == '平' && b == '成') || (a == '令' && b == '和');
    if !era_ok {
        return false;
    }
    let i = scan_digit_run(v, 2);
    if !(i > 2 && i < v.len() && v[i] == '年') {
        return false;
    }
    let j = scan_digit_run(v, i + 1);
    if !(j > i + 1 && j < v.len() && v[j] == '月') {
        return false;
    }
    let k = scan_digit_run(v, j + 1);
    k > j + 1 && k < v.len() && v[k] == '日'
}

/// Classifies a normalized character vector.
fn classify_chars(v: &Vec<char>) -> (r: Option<DateType>)
    ensures
        r == spec_classify(v@),
{
    let segs = split_char(v, '.');
    proof {
        crate::text::lemma_split_on_len(v@, '.');
    }
    if segs.len() == 1 {
        if narrative_check(v) {
            Some(DateType::SeparatedWithKanji)
        } else {
            None
        }
    } else if segs.len() == 3 {
        proof {
            if v@.len() == 0 {
                assert(split_on(v@, '.') =~= seq![Seq::<char>::empty()]);
            }
        }
        let c = v[0];
        if c >= '0' && c <= '9' {
            Some(DateType::JisX0301Basic)
        } else if c == 'M' || c == 'T' || c == 'S' || c == 'H' || c == 'R' {
            Some(DateType::JisX0301Extended)
        } else if c == '明' || c == '大' || c == '昭' || c == '平' || c == '令' {
            Some(DateType::JisX0301ExtendedWithKanji)
        } else {
            None
        }
    } else {
        None
    }
}

/// Resolves the era of a normalized character vector by its leading character.
fn resolve_chars(v: &Vec<char>) -> (g: Gengo)
    ensures
        g == spec_resolve(v@),
{
    if v.len() == 0 {
        return Gengo::Reiwa;
    }
    let c = v[0];
    if c == 'M' || c == '明' {
        Gengo::Meiji
    } else if c == 'T' || c == '大' {
        Gengo::Taisho
    } else if c == 'S' || c == '昭' {
        Gengo::Showa
    } else if c == 'H' || c == '平' {
        Gengo::Heisei
    } else {
        Gengo::Reiwa
    }
}

/// Finds the notation an input falls under by inspecting its shape. The input
/// is width-normalized first. Returns `None` when the shape matches none of
/// the four accepted notations.
pub fn find_type(wareki: &str) -> (r: Option<DateType>)
    ensures
        r == spec_classify(normalized(wareki@)),
{
    let v = chars_of(wareki);
    let mut n: Vec<char> = Vec::new();
    let mut i: usize = 0;
    while i < v.len()
        invariant
            v@ == wareki@,
            i <= v@.len(),
            n@ == normalized(v@.subrange(0, i as int)),
        decreases v@.len() - i,
    {
        n.push(half_width_char(v[i]));
        assert(n@ =~= normalized(v@.subrange(0, i + 1)));
        i = i + 1;
    }
    assert(v@.subrange(0, v@.len() as int) =~= v@);
    classify_chars(&n)
}

/// Maps the leading marker character of an input to its era. The input is
/// width-normalized first. Total: an input with no recognized marker —
/// including one with no marker at all — resolves to the most recent era.
pub fn gengo_resolve(wareki: &str) -> (r: Option<Gengo>)
    ensures
        r == Some(spec_resolve(normalized(wareki@))),
{
    let n = wareki.unicode_len();
    if n == 0 {
        return Some(Gengo::Reiwa);
    }
    let c = half_width_char(wareki.get_char(0));
    assert(c == normalized(wareki@)[0]);
    if c == 'M' || c == '明' {
        Some(Gengo::Meiji)
    } else if c == 'T' || c == '大' {
        Some(Gengo::Taisho)
    } else if c == 'S' || c == '昭' {
        Some(Gengo::Showa)
    } else if c == 'H' || c == '平' {
        Some(Gengo::Heisei)
    } else {
        Some(Gengo::Reiwa)
    }
}

/// The digit fields of a narrative tail, read character by character: the day
/// unit `日` is discarded, ASCII digits pass through, and every other
/// character becomes a synthetic `.` separator.
pub open spec fn narrative_digits(s: Seq<char>) -> Seq<char>
    decreases s.len(),
{
    if s.len() == 0 {
        Seq::<char>::empty()
    } else {
        let prev = narrative_digits(s.drop_last());
        if s.last() == '日' {
            prev
        } else if is_ascii_digit_char(s.last()) {
            prev.push(s.last())
        } else {
            prev.push('.')
        }
    }
}

/// The raw year, month, and day fields of a classified input: the dot-split
/// segments, after dropping a one-character marker or munging a narrative
/// tail as the notation asks.
pub open spec fn spec_segments(s: Seq<char>, t: DateType) -> Seq<Seq<char>> {
    match t {
        DateType::JisX0301Basic => split_on(s, '.'),
        DateType::JisX0301Extended => split_on(s.skip(1), '.'),
        DateType::JisX0301ExtendedWithKanji => split_on(s.skip(1), '.'),
        DateType::SeparatedWithKanji => split_on(narrative_digits(s.skip(2)), '.'),
    }
}

/// The conversion of a string that is already width-normalized and has its
/// first-year tokens replaced: classify, resolve the era, extract exactly
/// three unsigned fields, and compute the Gregorian year as the era-relative
/// year plus the era's first year minus one, so that year one of an era maps
/// exactly to the era's first Gregorian year.
pub open spec fn spec_convert_normalized(n: Seq<char>) -> Result<Date, ConvertError> {
    match spec_classify(n) {
        None => Err(ConvertError::UnrecognizedFormat),
        Some(t) => {
            let segs = spec_segments(n, t);
            if segs.len() != 3 {
                Err(ConvertError::MalformedField)
            } else {
                match (spec_parse_u32(segs[0]), spec_parse_u32(segs[1]), spec_parse_u32(segs[2])) {
                    (Some(y), Some(m), Some(d)) => {
                        let year = y + first_year_of(spec_resolve(n)) - 1;
                        if year > i32::MAX {
                            Err(ConvertError::MalformedField)
                        } else {
                            Ok(Date { year: year as i32, month: m, day: d })
                        }
                    },
                    _ => Err(ConvertError::MalformedField),
                }
            }
        },
    }
}

/// The full conversion pipeline on any input string: width normalization,
/// first-year token replacement, then classification, era resolution, field
/// extraction, and year computation.
pub open spec fn spec_convert(s: Seq<char>) -> Result<Date, ConvertError> {
    spec_convert_normalized(gan_replaced(normalized(s)))
}

/// The suffix of a character vector from position `k` on.
fn tail_from(v: &Vec<char>, k: usize) -> (r: Vec<char>)
    requires
        k <= v@.len(),
    ensures
        r@ == v@.skip(k as int),
{
    let mut out: Vec<char> = Vec::new();
    let mut i: usize = k;
    while i < v.len()
        invariant
            k <= i <= v@.len(),
            out@ == v@.subrange(k as int, i as int),
        decreases v@.len() - i,
    {
        out.push(v[i]);
        assert(out@ =~= v@.subrange(k as int, i + 1));
        i = i + 1;
    }
    assert(v@.subrange(k as int, v@.len() as int) =~= v@.skip(k as int));
    out
}

/// The digit fields of a narrative input after its two-character era name.
fn narrative_munge(v: &Vec<char>) -> (r: Vec<char>)
    requires
        v@.len() >= 2,
    ensures
        r@ == narrative_digits(v@.skip(2)),
{
    let mut out: Vec<char> = Vec::new();
    let mut i: usize = 2;
    while i < v.len()
        invariant
            2 <= i <= v@.len(),
            out@ == narrative_digits(v@.subrange(2, i as int)),
        decreases v@.len() - i,
    {
        let ghost pre = v@.subrange(2, i as int);
        assert(v@.subrange(2, i + 1).drop_last() =~= pre);
        let c = v[i];
        if c == '日' {
        } else if c >= '0' && c <= '9' {
            out.push(c);
        } else {
            out.push('.');
        }
        assert(out@ =~= narrative_digits(v@.subrange(2, i + 1)));
        i = i + 1;
    }
    assert(v@.subrange(2, v@.len() as int) =~= v@.skip(2));
    out
}

/// Converts a Wareki (JIS X 0301) based date into a Gregorian calendar date.
///
/// Adding to the JIS X 0301 standard, some additional forms are accepted for
/// utility:
/// * full-width digits and letters, which are normalized to half-width;
/// * unpadded fields, since a leading 0 is often omitted in practical use;
/// * the first-year token `元` in place of the numeral `1` for an era's first
///   year.
///
/// Fails with `UnrecognizedFormat` when the input's shape matches none of the
/// four accepted notations, and with `MalformedField` when a field is not a
/// parseable unsigned integer, extraction does not yield exactly three
/// fields, or the computed year does not fit the year's range.
///
/// The month and day are handed through as extracted: whether they form a
/// real calendar date is for the date/time library that materializes a
/// timestamp. The first day of each era is likewise not modelled: any year
/// within an era is assumed valid, by design, so era-relative years past an
/// era's true end convert by the same arithmetic.
pub fn convert(wareki: &str) -> (r: Result<Date, ConvertError>)
    ensures
        r == spec_convert(wareki@),
{
    let v = normalized_gan_chars(wareki);
    let t = match classify_chars(&v) {
        None => {
            return Err(ConvertError::UnrecognizedFormat);
        },
        Some(t) => t,
    };
    let g = resolve_chars(&v);
    let segs: Vec<Vec<char>> = match t {
        DateType::JisX0301Basic => split_char(&v, '.'),
        DateType::JisX0301Extended | DateType::JisX0301ExtendedWithKanji => {
            proof {
                if v@.len() == 0 {
                    assert(split_on(v@, '.') =~= seq![Seq::<char>::empty()]);
                }
            }
            let tail = tail_from(&v, 1);
            split_char(&tail, '.')
        },
        DateType::SeparatedWithKanji => {
            let digits = narrative_munge(&v);
            split_char(&digits, '.')
        },
    };
    if segs.len() != 3 {
        return Err(ConvertError::MalformedField);
    }
    assert(segs.deep_view()[0] == segs@[0]@ && segs.deep_view()[1] == segs@[1]@
        && segs.deep_view()[2] == segs@[2]@);
    let y = match parse_u32(&segs[0]) {
        None => {
            return Err(ConvertError::MalformedField);
        },
        Some(y) => y,
    };
    let m = match parse_u32(&segs[1]) {
        None => {
            return Err(ConvertError::MalformedField);
        },
        Some(m) => m,
    };
    let d = match parse_u32(&segs[2]) {
        None => {
            return Err(ConvertError::MalformedField);
        },
        Some(d) => d,
    };
    let year_wide: i64 = y as i64 + g.first_year() as i64 - 1;
    if year_wide > i32::MAX as i64 {
        return Err(ConvertError::MalformedField);
    }
    Ok(Date::new(year_wide as i32, m, d))
}

} // verus!
