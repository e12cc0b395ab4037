use rs1090::co2::{emission_factor, size_class_from_ef, EfSource, EF_DEFAULT};

fn kg_per_km(tenths: u16) -> f64 {
    f64::from(tenths) / 10.0
}

#[test]
fn ef_lookup_chain() {
    let (ef, src) = emission_factor(Some("A320"), None, None);
    assert_eq!(kg_per_km(ef), 9.5);
    assert_eq!(src, EfSource::Type);

    let (ef, src) = emission_factor(Some("UNKNOWN"), Some("H"), None);
    assert_eq!(kg_per_km(ef), 22.0);
    assert_eq!(src, EfSource::Wtc);

    let (ef, src) = emission_factor(None, None, Some("A3"));
    assert_eq!(kg_per_km(ef), 9.0);
    assert_eq!(src, EfSource::Category);

    let (ef, src) = emission_factor(None, None, None);
    assert_eq!(ef, EF_DEFAULT);
    assert_eq!(src, EfSource::Default);
}

#[test]
fn size_class_buckets() {
    assert_eq!(size_class_from_ef(435), "super"); // 43.5
    assert_eq!(size_class_from_ef(200), "heavy"); // 20.0
    assert_eq!(size_class_from_ef(95), "medium"); // 9.5
    assert_eq!(size_class_from_ef(15), "light"); // 1.5
}

#[test]
fn size_class_thresholds() {
    assert_eq!(size_class_from_ef(400), "super");
    assert_eq!(size_class_from_ef(399), "heavy");
    assert_eq!(size_class_from_ef(120), "heavy");
    assert_eq!(size_class_from_ef(119), "medium");
    assert_eq!(size_class_from_ef(30), "medium");
    assert_eq!(size_class_from_ef(29), "light");
    assert_eq!(size_class_from_ef(0), "light");
}

#[test]
fn type_wins_over_wtc_and_category() {
    assert_eq!(emission_factor(Some("A388"), Some("L"), Some("A1")), (435, EfSource::Type));
    assert_eq!(emission_factor(Some("ZZZZ"), Some("L"), Some("A1")), (15, EfSource::Wtc));
    assert_eq!(emission_factor(Some("ZZZZ"), Some("X"), Some("A1")), (12, EfSource::Category));
    assert_eq!(emission_factor(Some("ZZZZ"), Some("X"), Some("Z9")), (70, EfSource::Default));
}

#[test]
fn table_extremes_and_case() {
    assert_eq!(emission_factor(Some("A124"), None, None), (569, EfSource::Type));
    assert_eq!(emission_factor(Some("B1"), None, Some("B1")), (0, EfSource::Category));
    // keys are case sensitive
    assert_eq!(emission_factor(Some("a320"), None, None), (70, EfSource::Default));
    assert_eq!(emission_factor(Some("A320 "), None, None), (70, EfSource::Default));
}

#[test]
fn source_names() {
    assert_eq!(EfSource::Type.as_str(), "type");
    assert_eq!(EfSource::Wtc.as_str(), "wtc");
    assert_eq!(EfSource::Category.as_str(), "cat");
    assert_eq!(EfSource::Default.as_str(), "default");
}
