//! The texts and documents that values are written as.
use infrastore::catalog::hash_to_hex;
use infrastore::features::{decode_features, encode_features, Feature, FeatureValue, Features};
use infrastore::instant::{instant, unix_ms_to_datetime, Period, Step};
use infrastore::kinds::{
    Dtype, ElementType, OwnerCategory, TimeReference, TimeSeriesType, UnitSystem,
};
use infrastore::listing::{
    attribute_counts_json, compact_json, counts_by_type_json, grids_json, ids_json, periods_json,
    static_summary_json, texts_json, AttributeCount, CompactReport, StaticGrid, StaticSummary,
    TypeCount,
};
use infrastore::schema::{
    decode_element_type, decode_owner_category, decode_time_reference, decode_time_series_type,
    decode_unit_system, encode_element_shape,
};
use infrastore::text::{decimal, integer, join, padded};

fn hour() -> Period {
    Period { step: Step::Millis(3_600_000), iso: "PT1H".to_string() }
}

fn features(entries: Vec<(&str, FeatureValue)>) -> Features {
    Features {
        entries: entries
            .into_iter()
            .map(|(name, value)| Feature { name: name.to_string(), value })
            .collect(),
    }
}

#[test]
fn numbers_are_written_in_decimal() {
    assert_eq!(decimal(0), "0");
    assert_eq!(decimal(u64::MAX), "18446744073709551615");
    assert_eq!(integer(i64::MIN), "-9223372036854775808");
    assert_eq!(integer(-7), "-7");
    assert_eq!(padded(7), "07");
    assert_eq!(padded(12), "12");
    assert_eq!(join(&vec!["a".to_string(), "b".to_string()], ", "), "a, b");
}

#[test]
fn a_hash_is_lower_case_hexadecimal() {
    let mut hash = [0u8; 32];
    hash[0] = 0xab;
    hash[31] = 0x0f;
    let text = hash_to_hex(&hash);
    assert_eq!(text.len(), 64);
    assert!(text.starts_with("ab00"));
    assert!(text.ends_with("000f"));
}

#[test]
fn features_are_plain_scalars_and_read_back() {
    let f = features(vec![
        ("model_year", FeatureValue::Int(2030)),
        ("scenario", FeatureValue::Str("high \"wind\"".to_string())),
        ("verified", FeatureValue::Bool(true)),
    ]);
    let text = encode_features(&f);
    assert_eq!(text, r#"{"model_year":2030,"scenario":"high \"wind\"","verified":true}"#);
    let back = decode_features(&text).unwrap();
    assert_eq!(encode_features(&back), text);
    assert_eq!(encode_features(&Features::new()), "{}");
}

#[test]
fn a_float_feature_stays_a_float() {
    let back = decode_features(r#"{"scale":1.5,"n":2}"#).unwrap();
    assert_eq!(encode_features(&back), r#"{"n":2,"scale":1.5}"#);
    assert!(matches!(back.entries[0].value, FeatureValue::Int(2)));
    assert!(matches!(back.entries[1].value, FeatureValue::Float(_)));
    let floats = [
        1.0,
        -0.0,
        0.1,
        31.245270191439438,
        121.48791951161945,
        5e-324,
        f64::MIN_POSITIVE,
        f64::MAX,
        -1.7976931348623157e308,
        9007199254740993.0,
        1e300,
    ];
    for x in floats {
        let f = features(vec![("x", FeatureValue::Float(serde_json::Value::from(x)))]);
        let back = decode_features(&encode_features(&f)).unwrap();
        match &back.entries[0].value {
            FeatureValue::Float(v) => assert_eq!(v.as_f64().unwrap().to_bits(), x.to_bits()),
            other => panic!("{x} came back as {other:?}"),
        }
    }
    let infinite = FeatureValue::Float(serde_json::Value::from(f64::INFINITY));
    assert!(decode_features(&encode_features(&features(vec![("x", infinite)]))).is_err());
}

#[test]
fn what_is_no_feature_map_is_refused() {
    assert_eq!(
        decode_features("[1]").unwrap_err(),
        "features must be a JSON object".to_string()
    );
    assert_eq!(
        decode_features(r#"{"b":null,"a":[1]}"#).unwrap_err(),
        "feature a: must be an int, float, bool, or string".to_string()
    );
    assert!(decode_features("{").unwrap_err().starts_with("features is not JSON: "));
}

#[test]
fn an_element_shape_is_a_json_array() {
    assert_eq!(encode_element_shape(&vec![]), "[]");
    assert_eq!(encode_element_shape(&vec![2, 3]), "[2,3]");
}

#[test]
fn spellings_read_back() {
    for t in [
        TimeSeriesType::SingleTimeSeries,
        TimeSeriesType::NonSequentialTimeSeries,
        TimeSeriesType::Deterministic,
        TimeSeriesType::DeterministicSingleTimeSeries,
        TimeSeriesType::Probabilistic,
        TimeSeriesType::Scenarios,
        TimeSeriesType::PersistentTimeSeries,
    ] {
        assert_eq!(decode_time_series_type(t.as_str()), Ok(t));
    }
    for c in [OwnerCategory::Component, OwnerCategory::SupplementalAttribute] {
        assert_eq!(decode_owner_category(c.as_str()), Ok(c));
    }
    for u in [UnitSystem::NaturalUnits, UnitSystem::ComponentBase] {
        assert_eq!(decode_unit_system(u.as_str()), Ok(u));
    }
}

#[test]
fn unknown_spellings_are_refused_by_column() {
    assert_eq!(
        decode_time_series_type("Wave"),
        Err("unknown time_series_type \"Wave\"".to_string())
    );
    assert_eq!(
        decode_owner_category("x\ny"),
        Err("unknown owner_category \"x\\ny\"".to_string())
    );
    assert_eq!(decode_unit_system(""), Err("unknown unit_system \"\"".to_string()));
    assert_eq!(
        decode_element_type("float64", None).unwrap_err(),
        "unknown element_type \"float64\"".to_string()
    );
    assert!(decode_element_type("f64", Some(ElementType::Scalar(Dtype::F64))).is_ok());
}

#[test]
fn the_absence_of_a_reference_reads_back() {
    let none = decode_time_reference("unspecified", Err("no such zone".to_string()));
    assert!(matches!(none, Ok(None)));
    let utc = decode_time_reference("utc", Ok(TimeReference::Utc));
    assert!(matches!(utc, Ok(Some(TimeReference::Utc))));
    assert_eq!(
        decode_time_reference("x", Err("no such zone".to_string())).unwrap_err(),
        "time_reference \"x\": no such zone".to_string()
    );
}

#[test]
fn references_have_storage_texts() {
    assert_eq!(TimeReference::Utc.as_storage_string(), "utc");
    assert_eq!(TimeReference::Zoneless.as_storage_string(), "zoneless");
    assert_eq!(TimeReference::FixedOffset(-420).as_storage_string(), "-07:00");
    assert_eq!(TimeReference::FixedOffset(330).as_storage_string(), "+05:30");
    assert_eq!(TimeReference::Zone("America/Denver".to_string()).as_storage_string(), "America/Denver");
}

#[test]
fn element_types_are_spelled() {
    assert_eq!(ElementType::Scalar(Dtype::U16).spelled(), "u16");
    assert_eq!(ElementType::Tuple { arity: 3, dtype: Dtype::F64 }.spelled(), "tuple(3,f64)");
    let curve = ElementType::Composite("piecewise_linear".to_string());
    assert_eq!(curve.spelled(), "piecewise_linear");
    assert_eq!(curve.physical_dtype(), Dtype::F64);
}

#[test]
fn the_calendar_has_a_first_and_a_last_instant() {
    assert_eq!(unix_ms_to_datetime(0), Some(0));
    assert_eq!(unix_ms_to_datetime(-8_334_601_228_800_000), Some(-8_334_601_228_800_000));
    assert_eq!(unix_ms_to_datetime(-8_334_601_228_800_001), None);
    assert_eq!(unix_ms_to_datetime(8_210_266_876_799_999), Some(8_210_266_876_799_999));
    assert_eq!(unix_ms_to_datetime(8_210_266_876_800_000), None);
    assert_eq!(unix_ms_to_datetime(i64::MAX), None);
}

#[test]
fn an_instant_is_spelled_in_utc() {
    assert_eq!(instant(1_577_836_800_000), "2020-01-01T00:00:00Z");
    assert_eq!(instant(1_577_836_800_250), "2020-01-01T00:00:00.250Z");
}

#[test]
fn months_are_counted_from_the_anchor_and_clamped() {
    let january_31 = 1_580_428_800_000;
    let february_29 = 1_582_934_400_000;
    let march_31 = 1_585_612_800_000;
    let month = Step::Months(1);
    assert_eq!(month.add_to(january_31, 0), Some(january_31));
    assert_eq!(month.add_to(january_31, 1), Some(february_29));
    assert_eq!(month.add_to(january_31, 2), Some(march_31));
    assert_eq!(Step::Months(-1).add_to(march_31, 1), Some(february_29));
    assert_eq!(Step::Millis(1_000).add_to(0, -5), Some(-5_000));
    assert_eq!(Step::Millis(i64::MAX).add_to(0, 2), None);
    assert_eq!(month.add_to(0, i64::MAX), None);
    let noon = 43_200_000;
    let march_1900 = -25_508 * 86_400_000;
    assert_eq!(month.add_to(march_1900 + noon, -1), Some(march_1900 - 28 * 86_400_000 + noon));
    assert_eq!(Step::Months(960).add_to(february_29, 1), Some(47_540 * 86_400_000));
    let last = unix_ms_to_datetime(8_210_266_876_799_999).unwrap();
    assert_eq!(month.add_to(last, 1), None);
    assert_eq!(month.add_to(last, -1), Some(last - 31 * 86_400_000));
    assert_eq!(Step::Months(-1).add_to(-8_334_601_228_800_000, 1), None);
}

#[test]
fn listings_are_json_documents() {
    assert_eq!(ids_json(&vec![3, -1]), "[3,-1]");
    assert_eq!(ids_json(&vec![]), "[]");
    assert_eq!(texts_json(&vec!["a".to_string(), "b\"".to_string()]), r#"["a","b\""]"#);
    assert_eq!(periods_json(&vec![hour()]), r#"["PT1H"]"#);
    assert_eq!(
        counts_by_type_json(&vec![TypeCount {
            time_series_type: TimeSeriesType::Scenarios,
            count: 2,
        }]),
        r#"[{"count":2,"time_series_type":"Scenarios"}]"#
    );
    assert_eq!(
        attribute_counts_json(&vec![AttributeCount {
            attribute_type: "Outage".to_string(),
            count: 4,
        }]),
        r#"[{"count":4,"type":"Outage"}]"#
    );
    assert_eq!(
        grids_json(&vec![StaticGrid { resolution: hour(), initial_timestamp: 5, length: 24 }]),
        r#"[{"initial_timestamp_ms":5,"length":24,"resolution":"PT1H"}]"#
    );
    let summary = StaticSummary {
        owner_type: "Generator".to_string(),
        owner_category: OwnerCategory::Component,
        time_series_type: TimeSeriesType::SingleTimeSeries,
        name: "load".to_string(),
        initial_timestamp: None,
        resolution: Some(hour()),
        time_step_count: Some(24),
        count: 1,
    };
    assert_eq!(
        static_summary_json(&vec![summary]),
        concat_lines(&[
            r#"[{"count":1,"initial_timestamp_ms":null,"name":"load","owner_category":"Component","#,
            r#""owner_type":"Generator","resolution":"PT1H","time_series_type":"SingleTimeSeries","#,
            r#""time_step_count":24}]"#,
        ])
    );
    assert_eq!(
        compact_json(&CompactReport {
            slots_reclaimed: 1,
            datasets_dropped: 2,
            feature_sets_reclaimed: 3,
            timestamp_sets_reclaimed: 4,
            bytes_reclaimed: 5,
        }),
        concat_lines(&[
            r#"{"bytes_reclaimed":5,"datasets_dropped":2,"feature_sets_reclaimed":3,"#,
            r#""slots_reclaimed":1,"timestamp_sets_reclaimed":4}"#,
        ])
    );
}

fn concat_lines(lines: &[&str]) -> String {
    lines.concat()
}
