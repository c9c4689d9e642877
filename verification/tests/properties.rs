use wareki_conv::conv::ConvertError;
use wareki_conv::conv::Date;
use wareki_conv::conv::DateType;
use wareki_conv::conv::Gengo;
use wareki_conv::conv::convert;
use wareki_conv::conv::find_type;
use wareki_conv::conv::gengo_resolve;
use wareki_conv::conv::to_half_width;

#[test]
fn round_trip_all_notations_per_era() {
    // one era-relative triple, written in every notation of each era
    assert_eq!(convert("M30.07.15"), Ok(Date::new(1897, 7, 15)));
    assert_eq!(convert("明30.07.15"), Ok(Date::new(1897, 7, 15)));
    assert_eq!(convert("明治30年7月15日"), Ok(Date::new(1897, 7, 15)));
    assert_eq!(convert("T30.07.15"), Ok(Date::new(1941, 7, 15)));
    assert_eq!(convert("大30.07.15"), Ok(Date::new(1941, 7, 15)));
    assert_eq!(convert("大正30年7月15日"), Ok(Date::new(1941, 7, 15)));
    assert_eq!(convert("S30.07.15"), Ok(Date::new(1955, 7, 15)));
    assert_eq!(convert("昭30.07.15"), Ok(Date::new(1955, 7, 15)));
    assert_eq!(convert("昭和30年7月15日"), Ok(Date::new(1955, 7, 15)));
    assert_eq!(convert("H30.07.15"), Ok(Date::new(2018, 7, 15)));
    assert_eq!(convert("平30.07.15"), Ok(Date::new(2018, 7, 15)));
    assert_eq!(convert("平成30年7月15日"), Ok(Date::new(2018, 7, 15)));
    assert_eq!(convert("R30.07.15"), Ok(Date::new(2048, 7, 15)));
    assert_eq!(convert("令30.07.15"), Ok(Date::new(2048, 7, 15)));
    assert_eq!(convert("令和30年7月15日"), Ok(Date::new(2048, 7, 15)));
    // the numeric notation carries no marker and encodes the default era
    assert_eq!(convert("30.07.15"), Ok(Date::new(2048, 7, 15)));
}

#[test]
fn width_normalization_idempotent() {
    let once = to_half_width("Ｒ０１．０２．０３");
    let twice = to_half_width(&once);
    assert_eq!(once, twice);
    let a = to_half_width("昭和１５年１２月３１日");
    let b = to_half_width(&a);
    assert_eq!(a, b);
}

#[test]
fn width_normalization_examples() {
    assert_eq!(to_half_width("Ｒ０１．０２．０３"), "R01.02.03");
    assert_eq!(to_half_width("昭和１５年１２月３１日"), "昭和15年12月31日");
}

#[test]
fn first_year_token_equivalence() {
    assert_eq!(convert("明治元年2月3日"), convert("明治1年2月3日"));
    assert_eq!(convert("大正元年2月3日"), convert("大正1年2月3日"));
    assert_eq!(convert("昭和元年2月3日"), convert("昭和1年2月3日"));
    assert_eq!(convert("平成元年2月3日"), convert("平成1年2月3日"));
    assert_eq!(convert("令和元年2月3日"), convert("令和1年2月3日"));
    assert_eq!(convert("R元.2.3"), convert("R1.2.3"));
    assert_eq!(convert("令元.2.3"), convert("令1.2.3"));
    assert_eq!(convert("令和元年2月3日"), Ok(Date::new(2019, 2, 3)));
}

#[test]
fn default_era_is_reiwa() {
    assert_eq!(convert("01.02.03"), convert("R01.02.03"));
    assert_eq!(convert("7.8.9"), convert("R7.8.9"));
    assert_eq!(gengo_resolve("01.02.03"), Some(Gengo::Reiwa));
    // an unknown leading marker also resolves to Reiwa by design: absence of
    // a marker and an unrecognized marker are deliberately not distinguished
    assert_eq!(gengo_resolve("X01.02.03"), Some(Gengo::Reiwa));
    // while classification of the same input fails
    assert_eq!(find_type("X01.02.03"), None);
    assert_eq!(convert("X01.02.03"), Err(ConvertError::UnrecognizedFormat));
}

#[test]
fn padded_and_unpadded_agree() {
    assert_eq!(convert("1.2.3"), convert("01.02.03"));
    assert_eq!(convert("R1.2.3"), convert("R01.02.03"));
    assert_eq!(convert("令和1年2月3日"), convert("令和01年02月03日"));
}

#[test]
fn full_width_and_half_width_agree() {
    assert_eq!(convert("０６．０２．０３"), convert("06.02.03"));
    assert_eq!(convert("Ｈ０１．０２．０３"), convert("H01.02.03"));
    assert_eq!(convert("平成１年２月３日"), convert("平成1年2月3日"));
}

#[test]
fn concrete_scenarios() {
    assert_eq!(convert("明治1年2月3日"), Ok(Date::new(1868, 2, 3)));
    assert_eq!(convert("明治元年2月3日"), Ok(Date::new(1868, 2, 3)));
    assert_eq!(convert("令01.02.03"), Ok(Date::new(2019, 2, 3)));
    assert_eq!(convert("M45.2.3"), Ok(Date::new(1912, 2, 3)));
    assert_eq!(convert("H01.02.03"), Ok(Date::new(1989, 2, 3)));
    assert_eq!(convert("bogus"), Err(ConvertError::UnrecognizedFormat));
}

#[test]
fn classification() {
    assert_eq!(find_type("01.02.03"), Some(DateType::JisX0301Basic));
    assert_eq!(find_type("R01.02.03"), Some(DateType::JisX0301Extended));
    assert_eq!(find_type("令01.02.03"), Some(DateType::JisX0301ExtendedWithKanji));
    assert_eq!(find_type("令和1年2月3日"), Some(DateType::SeparatedWithKanji));
    assert_eq!(find_type("Ｒ０１．０２．０３"), Some(DateType::JisX0301Extended));
    assert_eq!(find_type("bogus"), None);
    assert_eq!(find_type("1.2"), None);
    assert_eq!(find_type("1.2.3.4"), None);
    assert_eq!(find_type(""), None);
    assert_eq!(find_type(".1.2"), None);
}

#[test]
fn era_resolution() {
    assert_eq!(gengo_resolve("M45.2.3"), Some(Gengo::Meiji));
    assert_eq!(gengo_resolve("明治45年2月3日"), Some(Gengo::Meiji));
    assert_eq!(gengo_resolve("T01.02.03"), Some(Gengo::Taisho));
    assert_eq!(gengo_resolve("大正1年2月3日"), Some(Gengo::Taisho));
    assert_eq!(gengo_resolve("S01.02.03"), Some(Gengo::Showa));
    assert_eq!(gengo_resolve("昭和1年2月3日"), Some(Gengo::Showa));
    assert_eq!(gengo_resolve("H01.02.03"), Some(Gengo::Heisei));
    assert_eq!(gengo_resolve("平成1年2月3日"), Some(Gengo::Heisei));
    assert_eq!(gengo_resolve("R01.02.03"), Some(Gengo::Reiwa));
    assert_eq!(gengo_resolve("令和1年2月3日"), Some(Gengo::Reiwa));
    assert_eq!(gengo_resolve("Ｈ０１．０２．０３"), Some(Gengo::Heisei));
    assert_eq!(gengo_resolve(""), Some(Gengo::Reiwa));
}

#[test]
fn era_attributes() {
    assert_eq!(Gengo::Meiji.first_year(), 1868);
    assert_eq!(Gengo::Taisho.first_year(), 1912);
    assert_eq!(Gengo::Showa.first_year(), 1926);
    assert_eq!(Gengo::Heisei.first_year(), 1989);
    assert_eq!(Gengo::Reiwa.first_year(), 2019);
    assert_eq!(Gengo::Meiji.name(), "Meiji");
    assert_eq!(Gengo::Taisho.name(), "Taisho");
    assert_eq!(Gengo::Showa.name(), "Showa");
    assert_eq!(Gengo::Heisei.name(), "Heisei");
    assert_eq!(Gengo::Reiwa.name(), "Reiwa");
}

#[test]
fn date_accessors() {
    let date = Date::new(2019, 2, 3);
    assert_eq!(date.year(), 2019);
    assert_eq!(date.month(), 2);
    assert_eq!(date.day(), 3);
}

#[test]
fn malformed_fields() {
    assert_eq!(convert("R01.ab.03"), Err(ConvertError::MalformedField));
    assert_eq!(convert("R.2.3"), Err(ConvertError::MalformedField));
    assert_eq!(convert("1..3"), Err(ConvertError::MalformedField));
    assert_eq!(convert("令和1年2月3日x"), Err(ConvertError::MalformedField));
    // a year field beyond the unsigned 32-bit range fails to parse
    assert_eq!(convert("4294967296.1.1"), Err(ConvertError::MalformedField));
    // a year field whose computed Gregorian year leaves the year's range
    assert_eq!(convert("4294967295.1.1"), Err(ConvertError::MalformedField));
    assert_eq!(convert("2147481630.1.1"), Err(ConvertError::MalformedField));
    assert_eq!(convert("2147481629.1.1"), Ok(Date::new(2147483647, 1, 1)));
}

#[test]
fn unrecognized_formats() {
    assert_eq!(convert(""), Err(ConvertError::UnrecognizedFormat));
    assert_eq!(convert("1.2"), Err(ConvertError::UnrecognizedFormat));
    assert_eq!(convert("1.2.3.4"), Err(ConvertError::UnrecognizedFormat));
    assert_eq!(convert(".1.2"), Err(ConvertError::UnrecognizedFormat));
    assert_eq!(convert("令和1年2月"), Err(ConvertError::UnrecognizedFormat));
    assert_eq!(convert("令和年月日"), Err(ConvertError::UnrecognizedFormat));
}

#[test]
fn month_and_day_pass_through_unvalidated() {
    // calendrical validity is the date/time library's business, not this one's
    assert_eq!(convert("R01.13.32"), Ok(Date::new(2019, 13, 32)));
    assert_eq!(convert("0.2.3"), Ok(Date::new(2018, 2, 3)));
}
