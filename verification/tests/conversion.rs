use wareki_conv::conv::Date;
use wareki_conv::conv::convert;

#[test]
fn assert_convert() {
    // DateType::JisX0301Basic
    assert_eq!(convert("01.02.03"), Ok(Date::new(2019, 2, 3)));
    assert_eq!(convert("1.2.3"), Ok(Date::new(2019, 2, 3)));
    assert_eq!(convert("10.02.03"), Ok(Date::new(2028, 2, 3)));
    assert_eq!(convert("06.2.3"), Ok(Date::new(2024, 2, 3)));
    assert_eq!(convert("０６．０２．０３"), Ok(Date::new(2024, 2, 3)));

    // DateType::JisX0301Extended
    assert_eq!(convert("R01.02.03"), Ok(Date::new(2019, 2, 3)));
    assert_eq!(convert("R10.2.3"), Ok(Date::new(2028, 2, 3)));
    assert_eq!(convert("M01.02.03"), Ok(Date::new(1868, 2, 3)));
    assert_eq!(convert("M45.2.3"), Ok(Date::new(1912, 2, 3)));
    assert_eq!(convert("T01.02.03"), Ok(Date::new(1912, 2, 3)));
    assert_eq!(convert("S01.2.3"), Ok(Date::new(1926, 2, 3)));
    assert_eq!(convert("H01.02.03"), Ok(Date::new(1989, 2, 3)));
    assert_eq!(convert("Ｈ０１．０２．０３"), Ok(Date::new(1989, 2, 3)));

    // DateType::JisX0301ExtendedWithKanji
    assert_eq!(convert("令01.02.03"), Ok(Date::new(2019, 2, 3)));
    assert_eq!(convert("令1.2.3"), Ok(Date::new(2019, 2, 3)));
    assert_eq!(convert("明01.02.03"), Ok(Date::new(1868, 2, 3)));
    assert_eq!(convert("大01.2.3"), Ok(Date::new(1912, 2, 3)));
    assert_eq!(convert("昭01.02.03"), Ok(Date::new(1926, 2, 3)));
    assert_eq!(convert("平01.2.3"), Ok(Date::new(1989, 2, 3)));
    assert_eq!(convert("平０１．０２．０３"), Ok(Date::new(1989, 2, 3)));

    // DateType::SeparatedWithKanji
    assert_eq!(convert("令和1年2月3日"), Ok(Date::new(2019, 2, 3)));
    assert_eq!(convert("明治1年2月3日"), Ok(Date::new(1868, 2, 3)));
    assert_eq!(convert("大正1年2月3日"), Ok(Date::new(1912, 2, 3)));
    assert_eq!(convert("昭和1年2月3日"), Ok(Date::new(1926, 2, 3)));
    assert_eq!(convert("平成1年2月3日"), Ok(Date::new(1989, 2, 3)));
    assert_eq!(convert("平成１年２月３日"), Ok(Date::new(1989, 2, 3)));
    assert_eq!(convert("平成元年２月３日"), Ok(Date::new(1989, 2, 3)));
}
