//! General laws of the conversion pipeline, stated over its specification
//! functions and proved once for all inputs in their ranges.

use vstd::prelude::*;

use crate::conv::ConvertError;
use crate::conv::Date;
use crate::conv::DateType;
use crate::conv::Gengo;
use crate::conv::digit_run_end;
use crate::conv::first_year_of;
use crate::conv::gan_char;
use crate::conv::gan_replaced;
use crate::conv::narrative_digits;
use crate::conv::narrative_match;
use crate::conv::spec_classify;
use crate::conv::spec_convert;
use crate::conv::spec_convert_normalized;
use crate::conv::spec_resolve;
use crate::conv::spec_segments;
use crate::text::all_digits;
use crate::text::digit_val;
use crate::text::digits_val;
use crate::text::half_char;
use crate::text::is_ascii_digit_char;
use crate::text::lemma_split_no_sep;
use crate::text::lemma_split_on_len;
use crate::text::lemma_split_prepend;
use crate::text::lemma_split_three;
use crate::text::no_sep;
use crate::text::normalized;
use crate::text::spec_parse_u32;
use crate::text::split_on;

verus! {

/// A character that both width normalization and first-year token replacement
/// leave unchanged.
pub open spec fn plain_char(c: char) -> bool {
    half_char(c) == c && gan_char(c) == c
}

/// A string of characters that normalization and token replacement leave
/// unchanged.
pub open spec fn plain_seq(s: Seq<char>) -> bool {
    forall|i: int| 0 <= i < s.len() ==> plain_char(#[trigger] s[i])
}

proof fn lemma_plain_seq(s: Seq<char>)
    requires
        plain_seq(s),
    ensures
        normalized(s) == s,
        gan_replaced(normalized(s)) == s,
{
    assert(normalized(s) =~= s);
    assert(gan_replaced(s) =~= s);
}

proof fn lemma_digit_plain(c: char)
    requires
        is_ascii_digit_char(c),
    ensures
        plain_char(c),
        c != '.',
        c != '日',
        c != '年',
        c != '月',
{
}

/// The character for one decimal digit.
pub open spec fn digit_char(n: int) -> char
    recommends
        0 <= n <= 9,
{
    (n + 48) as char
}

/// An unpadded decimal numeral for a value of at most two digits.
pub open spec fn decimal(n: int) -> Seq<char>
    recommends
        0 <= n <= 99,
{
    if n < 10 {
        seq![digit_char(n)]
    } else {
        seq![digit_char(n / 10), digit_char(n % 10)]
    }
}

proof fn lemma_decimal(n: int)
    requires
        0 <= n <= 99,
    ensures
        all_digits(decimal(n)),
        1 <= decimal(n).len() <= 2,
        digits_val(decimal(n)) == n,
        spec_parse_u32(decimal(n)) == Some(n as u32),
        plain_seq(decimal(n)),
        no_sep(decimal(n), '.'),
        forall|i: int|
            0 <= i < decimal(n).len() ==> #[trigger] decimal(n)[i] != '日' && decimal(n)[i] != '年'
                && decimal(n)[i] != '月',
{
    let s = decimal(n);
    let emp = Seq::<char>::empty();
    assert(digits_val(emp) == 0);
    if n < 10 {
        assert(s.drop_last() =~= emp);
        assert(digits_val(s) == digits_val(emp) * 10 + digit_val(digit_char(n)));
    } else {
        let hi = seq![digit_char(n / 10)];
        assert(s.drop_last() =~= hi);
        assert(hi.drop_last() =~= emp);
        assert(digits_val(hi) == digits_val(emp) * 10 + digit_val(digit_char(n / 10)));
        assert(digits_val(s) == digits_val(hi) * 10 + digit_val(digit_char(n % 10)));
    }
    assert forall|i: int| 0 <= i < s.len() implies is_ascii_digit_char(#[trigger] s[i]) by {}
    assert forall|i: int| 0 <= i < s.len() implies plain_char(#[trigger] s[i]) && s[i] != '.' && s[i]
        != '日' && s[i] != '年' && s[i] != '月' by {
        lemma_digit_plain(s[i]);
    }
}

/// A pointwise character property carries over a concatenation.
proof fn lemma_forall_concat(a: Seq<char>, b: Seq<char>, f: spec_fn(char) -> bool)
    requires
        forall|i: int| 0 <= i < a.len() ==> f(#[trigger] a[i]),
        forall|i: int| 0 <= i < b.len() ==> f(#[trigger] b[i]),
    ensures
        forall|i: int| 0 <= i < (a + b).len() ==> f(#[trigger] (a + b)[i]),
{
    assert forall|i: int| 0 <= i < (a + b).len() implies f(#[trigger] (a + b)[i]) by {
        if i < a.len() {
            assert((a + b)[i] == a[i]);
        } else {
            assert((a + b)[i] == b[i - a.len()]);
        }
    }
}

proof fn lemma_normalized_concat(a: Seq<char>, b: Seq<char>)
    ensures
        normalized(a + b) == normalized(a) + normalized(b),
{
    assert(normalized(a + b) =~= normalized(a) + normalized(b));
}

proof fn lemma_gan_concat(a: Seq<char>, b: Seq<char>)
    ensures
        gan_replaced(a + b) == gan_replaced(a) + gan_replaced(b),
{
    assert(gan_replaced(a + b) =~= gan_replaced(a) + gan_replaced(b));
}

/// The narrative munge distributes over concatenation.
proof fn lemma_nd_concat(a: Seq<char>, b: Seq<char>)
    ensures
        narrative_digits(a + b) == narrative_digits(a) + narrative_digits(b),
    decreases b.len(),
{
    if b.len() == 0 {
        assert(a + b =~= a);
        assert(narrative_digits(b) == Seq::<char>::empty());
        assert(narrative_digits(a) + narrative_digits(b) =~= narrative_digits(a));
    } else {
        let b0 = b.drop_last();
        let c = b.last();
        lemma_nd_concat(a, b0);
        assert((a + b).drop_last() =~= a + b0);
        assert(b0.push(c) =~= b);
        if c == '日' {
        } else if is_ascii_digit_char(c) {
            assert((narrative_digits(a) + narrative_digits(b0)).push(c) =~= narrative_digits(a)
                + narrative_digits(b0).push(c));
        } else {
            assert((narrative_digits(a) + narrative_digits(b0)).push('.') =~= narrative_digits(a)
                + narrative_digits(b0).push('.'));
        }
    }
}

/// The narrative munge leaves a string of digits unchanged.
proof fn lemma_nd_digits(s: Seq<char>)
    requires
        all_digits(s),
    ensures
        narrative_digits(s) == s,
    decreases s.len(),
{
    if s.len() == 0 {
        assert(narrative_digits(s) =~= s);
    } else {
        lemma_nd_digits(s.drop_last());
        lemma_digit_plain(s.last());
        assert(s.drop_last().push(s.last()) =~= s);
    }
}

/// The narrative munge of a single character.
proof fn lemma_nd_one(c: char)
    ensures
        c == '日' ==> narrative_digits(seq![c]) == Seq::<char>::empty(),
        c != '日' && is_ascii_digit_char(c) ==> narrative_digits(seq![c]) == seq![c],
        c != '日' && !is_ascii_digit_char(c) ==> narrative_digits(seq![c]) == seq!['.'],
{
    let s = seq![c];
    assert(s.drop_last() =~= Seq::<char>::empty());
    assert(narrative_digits(Seq::<char>::empty()) == Seq::<char>::empty());
    if c == '日' {
    } else if is_ascii_digit_char(c) {
        assert(Seq::<char>::empty().push(c) =~= seq![c]);
    } else {
        assert(Seq::<char>::empty().push('.') =~= seq!['.']);
    }
}

/// A maximal digit run: all digits from `from` up to `to`, and `to` is the
/// string's end or holds a non-digit.
proof fn lemma_digit_run(s: Seq<char>, from: int, to: int)
    requires
        0 <= from <= to <= s.len(),
        forall|i: int| from <= i < to ==> is_ascii_digit_char(#[trigger] s[i]),
        to == s.len() || !is_ascii_digit_char(s[to]),
    ensures
        digit_run_end(s, from) == to,
    decreases to - from,
{
    if from < to {
        lemma_digit_run(s, from + 1, to);
    }
}

/// The single Latin letter that marks an era in the dotted extended notation.
pub open spec fn marker_of(e: Gengo) -> char {
    match e {
        Gengo::Meiji => 'M',
        Gengo::Taisho => 'T',
        Gengo::Showa => 'S',
        Gengo::Heisei => 'H',
        Gengo::Reiwa => 'R',
    }
}

/// The single Kanji era initial that marks an era in the dotted notation.
pub open spec fn kanji_marker_of(e: Gengo) -> char {
    match e {
        Gengo::Meiji => '明',
        Gengo::Taisho => '大',
        Gengo::Showa => '昭',
        Gengo::Heisei => '平',
        Gengo::Reiwa => '令',
    }
}

/// The two-character Kanji name of an era.
pub open spec fn era_name_of(e: Gengo) -> Seq<char> {
    match e {
        Gengo::Meiji => seq!['明', '治'],
        Gengo::Taisho => seq!['大', '正'],
        Gengo::Showa => seq!['昭', '和'],
        Gengo::Heisei => seq!['平', '成'],
        Gengo::Reiwa => seq!['令', '和'],
    }
}

/// Three fields joined by dots.
pub open spec fn dotted(fy: Seq<char>, fm: Seq<char>, fd: Seq<char>) -> Seq<char> {
    fy + seq!['.'] + fm + seq!['.'] + fd
}

/// The plain numeric dotted notation, which carries no era marker.
pub open spec fn encode_numeric(y: u32, m: u32, d: u32) -> Seq<char> {
    dotted(decimal(y as int), decimal(m as int), decimal(d as int))
}

/// The dotted notation with a Latin era marker.
pub open spec fn encode_marker(e: Gengo, y: u32, m: u32, d: u32) -> Seq<char> {
    seq![marker_of(e)] + encode_numeric(y, m, d)
}

/// The dotted notation with a Kanji era initial.
pub open spec fn encode_kanji_marker(e: Gengo, y: u32, m: u32, d: u32) -> Seq<char> {
    seq![kanji_marker_of(e)] + encode_numeric(y, m, d)
}

/// The narrative tail after the era name: year, month, and day fields, each
/// followed by its unit character.
pub open spec fn narrative_body(ys: Seq<char>, fm: Seq<char>, fd: Seq<char>) -> Seq<char> {
    ys + seq!['年'] + fm + seq!['月'] + fd + seq!['日']
}

/// The narrative notation: the era's two-character name, then year, month,
/// and day fields each followed by a unit character.
pub open spec fn encode_narrative(e: Gengo, y: u32, m: u32, d: u32) -> Seq<char> {
    era_name_of(e) + narrative_body(decimal(y as int), decimal(m as int), decimal(d as int))
}

/// The Gregorian date an era-relative triple stands for.
pub open spec fn gregorian(e: Gengo, y: u32, m: u32, d: u32) -> Date {
    Date { year: (y + first_year_of(e) - 1) as i32, month: m, day: d }
}

proof fn lemma_digits_no_dot(s: Seq<char>)
    requires
        all_digits(s),
    ensures
        no_sep(s, '.'),
        plain_seq(s),
    decreases s.len(),
{
    assert forall|i: int| 0 <= i < s.len() implies #[trigger] s[i] != '.' by {
        lemma_digit_plain(s[i]);
    }
    assert forall|i: int| 0 <= i < s.len() implies plain_char(#[trigger] s[i]) by {
        lemma_digit_plain(s[i]);
    }
}

/// Evaluates the pipeline's last three stages on a dotted string of three
/// digit fields with no marker: it classifies as the basic notation, resolves
/// to the default era Reiwa, and converts by Reiwa's first year.
proof fn lemma_numeric_norm(fy: Seq<char>, fm: Seq<char>, fd: Seq<char>, y: u32, m: u32, d: u32)
    requires
        spec_parse_u32(fy) == Some(y),
        spec_parse_u32(fm) == Some(m),
        spec_parse_u32(fd) == Some(d),
        y + first_year_of(Gengo::Reiwa) - 1 <= i32::MAX,
    ensures
        spec_convert_normalized(dotted(fy, fm, fd)) == Ok::<Date, ConvertError>(
            gregorian(Gengo::Reiwa, y, m, d),
        ),
{
    let n = dotted(fy, fm, fd);
    lemma_digits_no_dot(fy);
    lemma_digits_no_dot(fm);
    lemma_digits_no_dot(fd);
    lemma_split_three(fy, fm, fd, '.');
    let segs = split_on(n, '.');
    assert(segs.len() == 3);
    assert(n[0] == fy[0]);
    assert(is_ascii_digit_char(n[0]));
    assert(spec_classify(n) == Some(DateType::JisX0301Basic));
    assert(spec_resolve(n) == Gengo::Reiwa);
    assert(spec_segments(n, DateType::JisX0301Basic) == seq![fy, fm, fd]);
}

/// Evaluates the pipeline's last three stages on a dotted string led by a
/// Latin era marker.
proof fn lemma_marker_norm(
    e: Gengo,
    fy: Seq<char>,
    fm: Seq<char>,
    fd: Seq<char>,
    y: u32,
    m: u32,
    d: u32,
)
    requires
        spec_parse_u32(fy) == Some(y),
        spec_parse_u32(fm) == Some(m),
        spec_parse_u32(fd) == Some(d),
        y + first_year_of(e) - 1 <= i32::MAX,
    ensures
        spec_convert_normalized(seq![marker_of(e)] + dotted(fy, fm, fd)) == Ok::<
            Date,
            ConvertError,
        >(gregorian(e, y, m, d)),
{
    let body = dotted(fy, fm, fd);
    let mk = marker_of(e);
    let n = seq![mk] + body;
    lemma_digits_no_dot(fy);
    lemma_digits_no_dot(fm);
    lemma_digits_no_dot(fd);
    lemma_split_three(fy, fm, fd, '.');
    lemma_split_prepend(mk, body, '.');
    let segs = split_on(n, '.');
    assert(segs.len() == 3);
    assert(n[0] == mk);
    assert(spec_classify(n) == Some(DateType::JisX0301Extended));
    assert(spec_resolve(n) == e);
    assert(n.skip(1) =~= body);
    assert(spec_segments(n, DateType::JisX0301Extended) == seq![fy, fm, fd]);
}

/// Evaluates the pipeline's last three stages on a dotted string led by a
/// Kanji era initial.
proof fn lemma_kanji_marker_norm(
    e: Gengo,
    fy: Seq<char>,
    fm: Seq<char>,
    fd: Seq<char>,
    y: u32,
    m: u32,
    d: u32,
)
    requires
        spec_parse_u32(fy) == Some(y),
        spec_parse_u32(fm) == Some(m),
        spec_parse_u32(fd) == Some(d),
        y + first_year_of(e) - 1 <= i32::MAX,
    ensures
        spec_convert_normalized(seq![kanji_marker_of(e)] + dotted(fy, fm, fd)) == Ok::<
            Date,
            ConvertError,
        >(gregorian(e, y, m, d)),
{
    let body = dotted(fy, fm, fd);
    let mk = kanji_marker_of(e);
    let n = seq![mk] + body;
    lemma_digits_no_dot(fy);
    lemma_digits_no_dot(fm);
    lemma_digits_no_dot(fd);
    lemma_split_three(fy, fm, fd, '.');
    lemma_split_prepend(mk, body, '.');
    let segs = split_on(n, '.');
    assert(segs.len() == 3);
    assert(n[0] == mk);
    assert(spec_classify(n) == Some(DateType::JisX0301ExtendedWithKanji));
    assert(spec_resolve(n) == e);
    assert(n.skip(1) =~= body);
    assert(spec_segments(n, DateType::JisX0301ExtendedWithKanji) == seq![fy, fm, fd]);
}

/// Evaluates the pipeline's last three stages on a narrative string: the era
/// name resolves the era, the unit characters separate the three fields, and
/// the trailing day unit is discarded.
proof fn lemma_narrative_norm(
    e: Gengo,
    fy: Seq<char>,
    fm: Seq<char>,
    fd: Seq<char>,
    y: u32,
    m: u32,
    d: u32,
)
    requires
        spec_parse_u32(fy) == Some(y),
        spec_parse_u32(fm) == Some(m),
        spec_parse_u32(fd) == Some(d),
        y + first_year_of(e) - 1 <= i32::MAX,
    ensures
        spec_convert_normalized(era_name_of(e) + narrative_body(fy, fm, fd)) == Ok::<
            Date,
            ConvertError,
        >(gregorian(e, y, m, d)),
{
    let era = era_name_of(e);
    let t1 = fy + seq!['年'];
    let t2 = t1 + fm;
    let t3 = t2 + seq!['月'];
    let t4 = t3 + fd;
    let body = t4 + seq!['日'];
    let n = era + body;
    lemma_digits_no_dot(fy);
    lemma_digits_no_dot(fm);
    lemma_digits_no_dot(fd);

    // no dot occurs anywhere in the narrative string
    let nodot = |c: char| c != '.';
    lemma_forall_concat(fy, seq!['年'], nodot);
    lemma_forall_concat(t1, fm, nodot);
    lemma_forall_concat(t2, seq!['月'], nodot);
    lemma_forall_concat(t3, fd, nodot);
    lemma_forall_concat(t4, seq!['日'], nodot);
    lemma_forall_concat(era, body, nodot);
    assert(no_sep(n, '.'));
    lemma_split_no_sep(n, '.');
    assert(split_on(n, '.').len() == 1);

    // the narrative pattern matches: era name, then three digit runs, each
    // closed by its unit character
    let i = 2 + fy.len() as int;
    let j = i + 1 + fm.len() as int;
    let k = j + 1 + fd.len() as int;
    assert(n[0] == era[0] && n[1] == era[1]);
    assert forall|x: int| 2 <= x < i implies is_ascii_digit_char(#[trigger] n[x]) by {
        assert(n[x] == fy[x - 2]);
    }
    assert(n[i] == '年');
    lemma_digit_run(n, 2, i);
    assert forall|x: int| i + 1 <= x < j implies is_ascii_digit_char(#[trigger] n[x]) by {
        assert(n[x] == fm[x - (i + 1)]);
    }
    assert(n[j] == '月');
    lemma_digit_run(n, i + 1, j);
    assert forall|x: int| j + 1 <= x < k implies is_ascii_digit_char(#[trigger] n[x]) by {
        assert(n[x] == fd[x - (j + 1)]);
    }
    assert(n[k] == '日');
    assert(k == n.len() - 1);
    lemma_digit_run(n, j + 1, k);
    assert(digit_run_end(n, 2) == i);
    assert(narrative_match(n));
    assert(spec_classify(n) == Some(DateType::SeparatedWithKanji));

    // the munge turns the narrative tail into the dotted fields
    assert(n.skip(2) =~= body);
    lemma_nd_concat(t4, seq!['日']);
    lemma_nd_concat(t3, fd);
    lemma_nd_concat(t2, seq!['月']);
    lemma_nd_concat(t1, fm);
    lemma_nd_concat(fy, seq!['年']);
    lemma_nd_one('日');
    lemma_nd_one('月');
    lemma_nd_one('年');
    lemma_nd_digits(fy);
    lemma_nd_digits(fm);
    lemma_nd_digits(fd);
    assert(narrative_digits(body) =~= dotted(fy, fm, fd));
    lemma_split_three(fy, fm, fd, '.');
    assert(spec_segments(n, DateType::SeparatedWithKanji) == seq![fy, fm, fd]);

    // era resolution by the name's first character, and the year arithmetic
    assert(spec_resolve(n) == e);
}

proof fn lemma_fields_plain(e: Gengo, fy: Seq<char>, fm: Seq<char>, fd: Seq<char>)
    requires
        all_digits(fy),
        all_digits(fm),
        all_digits(fd),
    ensures
        plain_seq(dotted(fy, fm, fd)),
        plain_seq(seq![marker_of(e)] + dotted(fy, fm, fd)),
        plain_seq(seq![kanji_marker_of(e)] + dotted(fy, fm, fd)),
        plain_seq(era_name_of(e) + narrative_body(fy, fm, fd)),
{
    lemma_digits_no_dot(fy);
    lemma_digits_no_dot(fm);
    lemma_digits_no_dot(fd);
    let pc = |c: char| plain_char(c);
    lemma_forall_concat(fy, seq!['.'], pc);
    lemma_forall_concat(fy + seq!['.'], fm, pc);
    lemma_forall_concat(fy + seq!['.'] + fm, seq!['.'], pc);
    lemma_forall_concat(fy + seq!['.'] + fm + seq!['.'], fd, pc);
    lemma_forall_concat(seq![marker_of(e)], dotted(fy, fm, fd), pc);
    lemma_forall_concat(seq![kanji_marker_of(e)], dotted(fy, fm, fd), pc);
    lemma_forall_concat(fy, seq!['年'], pc);
    lemma_forall_concat(fy + seq!['年'], fm, pc);
    lemma_forall_concat(fy + seq!['年'] + fm, seq!['月'], pc);
    lemma_forall_concat(fy + seq!['年'] + fm + seq!['月'], fd, pc);
    lemma_forall_concat(fy + seq!['年'] + fm + seq!['月'] + fd, seq!['日'], pc);
    lemma_forall_concat(era_name_of(e), narrative_body(fy, fm, fd), pc);
}

/// Round trip by era: an era-relative year, month, and day in range, written
/// in the Latin-marker, Kanji-marker, or narrative notation of an era,
/// converts to the Gregorian date whose year is the era-relative year plus
/// the era's first year minus one; the plain numeric notation, which carries
/// no marker, converts to that same date for the default era, Reiwa.
pub proof fn lemma_round_trip(e: Gengo, y: u32, m: u32, d: u32)
    requires
        1 <= y <= 60,
        1 <= m <= 12,
        1 <= d <= 28,
    ensures
        spec_convert(encode_marker(e, y, m, d)) == Ok::<Date, ConvertError>(gregorian(e, y, m, d)),
        spec_convert(encode_kanji_marker(e, y, m, d)) == Ok::<Date, ConvertError>(
            gregorian(e, y, m, d),
        ),
        spec_convert(encode_narrative(e, y, m, d)) == Ok::<Date, ConvertError>(
            gregorian(e, y, m, d),
        ),
        spec_convert(encode_numeric(y, m, d)) == Ok::<Date, ConvertError>(
            gregorian(Gengo::Reiwa, y, m, d),
        ),
{
    let fy = decimal(y as int);
    let fm = decimal(m as int);
    let fd = decimal(d as int);
    lemma_decimal(y as int);
    lemma_decimal(m as int);
    lemma_decimal(d as int);
    lemma_fields_plain(e, fy, fm, fd);
    lemma_plain_seq(dotted(fy, fm, fd));
    lemma_plain_seq(seq![marker_of(e)] + dotted(fy, fm, fd));
    lemma_plain_seq(seq![kanji_marker_of(e)] + dotted(fy, fm, fd));
    lemma_plain_seq(era_name_of(e) + narrative_body(fy, fm, fd));
    lemma_numeric_norm(fy, fm, fd, y, m, d);
    lemma_marker_norm(e, fy, fm, fd, y, m, d);
    lemma_kanji_marker_norm(e, fy, fm, fd, y, m, d);
    lemma_narrative_norm(e, fy, fm, fd, y, m, d);
}

proof fn lemma_half_char_idempotent(c: char)
    ensures
        half_char(half_char(c)) == half_char(c),
{
}

/// Width normalization is idempotent: normalizing a string a second time
/// changes nothing, for every string.
pub proof fn lemma_normalize_idempotent(s: Seq<char>)
    ensures
        normalized(normalized(s)) == normalized(s),
{
    assert forall|i: int| 0 <= i < s.len() implies half_char(half_char(#[trigger] s[i]))
        == half_char(s[i]) by {
        lemma_half_char_idempotent(s[i]);
    }
    assert(normalized(normalized(s)) =~= normalized(s));
}

/// Conversion is insensitive to width: an input converts exactly as its
/// width-normalized form does, so full-width digit and letter variants
/// convert identically to their half-width equivalents.
pub proof fn lemma_width_insensitive(s: Seq<char>)
    ensures
        spec_convert(normalized(s)) == spec_convert(s),
{
    lemma_normalize_idempotent(s);
}

/// The Latin-marker notation writing the first year with the first-year token
/// `元` in place of the numeral `1`.
pub open spec fn encode_marker_first_year(e: Gengo, m: u32, d: u32) -> Seq<char> {
    seq![marker_of(e)] + dotted(seq!['元'], decimal(m as int), decimal(d as int))
}

/// The Kanji-marker notation writing the first year with the first-year token.
pub open spec fn encode_kanji_marker_first_year(e: Gengo, m: u32, d: u32) -> Seq<char> {
    seq![kanji_marker_of(e)] + dotted(seq!['元'], decimal(m as int), decimal(d as int))
}

/// The narrative notation writing the first year with the first-year token.
pub open spec fn encode_narrative_first_year(e: Gengo, m: u32, d: u32) -> Seq<char> {
    era_name_of(e) + narrative_body(seq!['元'], decimal(m as int), decimal(d as int))
}

/// First-year token equivalence: for every era, a notation that writes the
/// era's first year with the token `元` converts exactly as the same notation
/// writing the numeral `1`, in the Latin-marker, Kanji-marker, and narrative
/// notations alike.
pub proof fn lemma_first_year_token(e: Gengo, m: u32, d: u32)
    requires
        m <= 99,
        d <= 99,
    ensures
        spec_convert(encode_marker_first_year(e, m, d)) == spec_convert(encode_marker(e, 1, m, d)),
        spec_convert(encode_kanji_marker_first_year(e, m, d)) == spec_convert(
            encode_kanji_marker(e, 1, m, d),
        ),
        spec_convert(encode_narrative_first_year(e, m, d)) == spec_convert(
            encode_narrative(e, 1, m, d),
        ),
{
    let fm = decimal(m as int);
    let fd = decimal(d as int);
    lemma_decimal(1);
    lemma_decimal(m as int);
    lemma_decimal(d as int);
    lemma_digits_no_dot(fm);
    lemma_digits_no_dot(fd);
    lemma_fields_plain(e, decimal(1int), fm, fd);
    lemma_plain_seq(seq![marker_of(e)] + dotted(decimal(1int), fm, fd));
    lemma_plain_seq(seq![kanji_marker_of(e)] + dotted(decimal(1int), fm, fd));
    lemma_plain_seq(era_name_of(e) + narrative_body(decimal(1int), fm, fd));
    assert(decimal(1int) =~= seq!['1']);

    let xm = encode_marker_first_year(e, m, d);
    assert(normalized(xm) =~= xm);
    assert(gan_replaced(xm) =~= encode_marker(e, 1, m, d));

    let xk = encode_kanji_marker_first_year(e, m, d);
    assert(normalized(xk) =~= xk);
    assert(gan_replaced(xk) =~= encode_kanji_marker(e, 1, m, d));

    let xn = encode_narrative_first_year(e, m, d);
    assert(normalized(xn) =~= xn);
    assert(gan_replaced(xn) =~= encode_narrative(e, 1, m, d));
}

/// Default-era property: an input that classifies as the plain numeric dotted
/// notation resolves to the default era, Reiwa, and converts exactly as the
/// same input with an explicit Reiwa marker prepended.
pub proof fn lemma_default_era(s: Seq<char>)
    requires
        spec_classify(gan_replaced(normalized(s))) == Some(DateType::JisX0301Basic),
    ensures
        spec_resolve(gan_replaced(normalized(s))) == Gengo::Reiwa,
        spec_convert(seq!['R'] + s) == spec_convert(s),
{
    let n = gan_replaced(normalized(s));
    lemma_split_on_len(n, '.');
    if n.len() == 0 {
        assert(split_on(n, '.') =~= seq![Seq::<char>::empty()]);
    }
    assert(is_ascii_digit_char(n[0]));
    assert(spec_resolve(n) == Gengo::Reiwa);

    lemma_normalized_concat(seq!['R'], s);
    assert(normalized(seq!['R']) =~= seq!['R']);
    lemma_gan_concat(seq!['R'], normalized(s));
    assert(gan_replaced(seq!['R']) =~= seq!['R']);
    let n1 = seq!['R'] + n;
    assert(gan_replaced(normalized(seq!['R'] + s)) == n1);

    lemma_split_prepend('R', n, '.');
    assert(split_on(n1, '.').len() == 3);
    assert(n1[0] == 'R');
    assert(spec_classify(n1) == Some(DateType::JisX0301Extended));
    assert(n1.skip(1) =~= n);
    assert(spec_segments(n1, DateType::JisX0301Extended) == spec_segments(
        n,
        DateType::JisX0301Basic,
    ));
    assert(spec_resolve(n1) == Gengo::Reiwa);
    assert(spec_convert_normalized(n1) == spec_convert_normalized(n));
}

proof fn lemma_digits_val_leading_zero(s: Seq<char>)
    ensures
        digits_val(seq!['0'] + s) == digits_val(s),
    decreases s.len(),
{
    let z = seq!['0'] + s;
    if s.len() == 0 {
        assert(z =~= seq!['0']);
        assert(z.drop_last() =~= Seq::<char>::empty());
        assert(digits_val(Seq::<char>::empty()) == 0);
        assert(digits_val(z) == digits_val(Seq::<char>::empty()) * 10 + digit_val('0'));
    } else {
        lemma_digits_val_leading_zero(s.drop_last());
        assert(z.drop_last() =~= seq!['0'] + s.drop_last());
        assert(z.last() == s.last());
    }
}

/// A leading zero does not change what a nonempty field parses to: unpadded
/// single-digit fields parse exactly as their zero-padded forms.
pub proof fn lemma_leading_zero_field(s: Seq<char>)
    requires
        s.len() >= 1,
    ensures
        spec_parse_u32(seq!['0'] + s) == spec_parse_u32(s),
{
    let z = seq!['0'] + s;
    lemma_digits_val_leading_zero(s);
    assert(all_digits(z) == all_digits(s)) by {
        if all_digits(s) {
            assert forall|i: int| 0 <= i < z.len() implies is_ascii_digit_char(
                #[trigger] z[i],
            ) by {
                if i > 0 {
                    assert(z[i] == s[i - 1]);
                }
            }
        } else {
            let w = choose|i: int| 0 <= i < s.len() && !is_ascii_digit_char(s[i]);
            assert(z[w + 1] == s[w]);
        }
    }
}


/// A decimal numeral padded with a leading zero to two digits, as JIS X 0301
/// asks for.
pub open spec fn padded(n: int) -> Seq<char>
    recommends
        0 <= n <= 99,
{
    if n < 10 {
        seq!['0', digit_char(n)]
    } else {
        decimal(n)
    }
}

proof fn lemma_padded(n: int)
    requires
        0 <= n <= 99,
    ensures
        all_digits(padded(n)),
        spec_parse_u32(padded(n)) == Some(n as u32),
{
    lemma_decimal(n);
    if n < 10 {
        assert(padded(n) =~= seq!['0'] + decimal(n));
        lemma_leading_zero_field(decimal(n));
        assert forall|i: int| 0 <= i < padded(n).len() implies is_ascii_digit_char(
            #[trigger] padded(n)[i],
        ) by {}
    }
}

/// Zero-padding equivalence: in every notation, fields padded with a leading
/// zero to the two digits that JIS X 0301 asks for convert exactly as their
/// unpadded forms.
pub proof fn lemma_zero_padding(e: Gengo, y: u32, m: u32, d: u32)
    requires
        1 <= y <= 60,
        1 <= m <= 12,
        1 <= d <= 28,
    ensures
        spec_convert(dotted(padded(y as int), padded(m as int), padded(d as int)))
            == spec_convert(encode_numeric(y, m, d)),
        spec_convert(seq![marker_of(e)] + dotted(padded(y as int), padded(m as int), padded(d as int)))
            == spec_convert(encode_marker(e, y, m, d)),
        spec_convert(
            seq![kanji_marker_of(e)] + dotted(padded(y as int), padded(m as int), padded(d as int)),
        ) == spec_convert(encode_kanji_marker(e, y, m, d)),
        spec_convert(
            era_name_of(e) + narrative_body(padded(y as int), padded(m as int), padded(d as int)),
        ) == spec_convert(encode_narrative(e, y, m, d)),
{
    let fy = padded(y as int);
    let fm = padded(m as int);
    let fd = padded(d as int);
    lemma_padded(y as int);
    lemma_padded(m as int);
    lemma_padded(d as int);
    lemma_fields_plain(e, fy, fm, fd);
    lemma_plain_seq(dotted(fy, fm, fd));
    lemma_plain_seq(seq![marker_of(e)] + dotted(fy, fm, fd));
    lemma_plain_seq(seq![kanji_marker_of(e)] + dotted(fy, fm, fd));
    lemma_plain_seq(era_name_of(e) + narrative_body(fy, fm, fd));
    lemma_numeric_norm(fy, fm, fd, y, m, d);
    lemma_marker_norm(e, fy, fm, fd, y, m, d);
    lemma_kanji_marker_norm(e, fy, fm, fd, y, m, d);
    lemma_narrative_norm(e, fy, fm, fd, y, m, d);
    lemma_round_trip(e, y, m, d);
}

} // verus!
