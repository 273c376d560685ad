use csq_reader::exif::{CSQExifData, ExifError};
use csq_reader::token::{check_float_literal, str_eq, take_first_token};

const REQUIRED: [(&str, &str); 17] = [
    ("AtmosphericTemperature", "20.0 C"),
    ("PlanckO", "-7261"),
    ("PlanckB", "1428.0"),
    ("IRWindowTransmission", "1.0"),
    ("AtmosphericTransAlpha1", "0.006569"),
    ("RelativeHumidity", "50.0 %"),
    ("PlanckF", "1.0"),
    ("ReflectedApparentTemperature", "20.0 C"),
    ("AtmosphericTransX", "1.9"),
    ("PlanckR2", "0.012545258"),
    ("PlanckR1", "21106.77"),
    ("ObjectDistance", "1.0 m"),
    ("AtmosphericTransBeta1", "-0.002276"),
    ("IRWindowTemperature", "20.0 C"),
    ("Emissivity", "0.95"),
    ("AtmosphericTransAlpha2", "0.01262"),
    ("AtmosphericTransBeta2", "-0.00667"),
];

/// A mapping holding every required calibration field.
fn base_map() -> Vec<(String, String)> {
    REQUIRED.iter().map(|&(k, v)| (k.to_string(), v.to_string())).collect()
}

fn set(m: &mut Vec<(String, String)>, k: &str, v: &str) {
    for pair in m.iter_mut() {
        if pair.0 == k {
            pair.1 = v.to_string();
            return;
        }
    }
    m.push((k.to_string(), v.to_string()));
}

fn remove(m: &mut Vec<(String, String)>, k: &str) {
    m.retain(|pair| pair.0 != k);
}

#[test]
fn from_map_parses_first_tokens_of_required_fields() {
    let m = base_map();
    let d = CSQExifData::from_map(&m).unwrap();
    assert_eq!(d.atmospheric_temperature, "20.0");
    assert_eq!(d.planck_o, "-7261");
    assert_eq!(d.planck_b, "1428.0");
    assert_eq!(d.relative_humidity, "50.0");
    assert_eq!(d.object_distance, "1.0");
    assert_eq!(d.emissivity, "0.95");
    assert_eq!(d.atmospheric_trans_beta2, "-0.00667");
    assert_eq!(d.emissivity.parse::<f32>().unwrap(), 0.95f32);
}

#[test]
fn missing_emissivity_is_reported_by_name() {
    let mut m = base_map();
    remove(&mut m, "Emissivity");
    match CSQExifData::from_map(&m) {
        Err(ExifError::MissingField(k)) => assert_eq!(k, "Emissivity"),
        other => panic!("expected a missing-field error, got {:?}", other),
    }
}

#[test]
fn non_numeric_emissivity_is_malformed() {
    let mut m = base_map();
    set(&mut m, "Emissivity", "abc");
    match CSQExifData::from_map(&m) {
        Err(ExifError::MalformedField(k)) => assert_eq!(k, "Emissivity"),
        other => panic!("expected a malformed-field error, got {:?}", other),
    }
}

#[test]
fn annotated_emissivity_parses_to_its_leading_token() {
    let mut m = base_map();
    set(&mut m, "Emissivity", "1.0 (calculated)");
    let d = CSQExifData::from_map(&m).unwrap();
    assert_eq!(d.emissivity, "1.0");
    assert_eq!(d.emissivity.parse::<f32>().unwrap(), 1.0f32);
}

#[test]
fn whitespace_only_value_is_malformed() {
    let mut m = base_map();
    set(&mut m, "PlanckB", "   ");
    match CSQExifData::from_map(&m) {
        Err(ExifError::MalformedField(k)) => assert_eq!(k, "PlanckB"),
        other => panic!("expected a malformed-field error, got {:?}", other),
    }
}

#[test]
fn first_bad_field_in_parsing_order_wins() {
    let mut m = base_map();
    remove(&mut m, "AtmosphericTemperature");
    set(&mut m, "Emissivity", "abc");
    match CSQExifData::from_map(&m) {
        Err(ExifError::MissingField(k)) => assert_eq!(k, "AtmosphericTemperature"),
        other => panic!("expected a missing-field error, got {:?}", other),
    }
}

#[test]
fn optional_fields_are_copied_or_absent() {
    let mut m = base_map();
    set(&mut m, "CameraModel", "FLIR T1030sc 45");
    let d = CSQExifData::from_map(&m).unwrap();
    assert_eq!(d.camera_model.as_deref(), Some("FLIR T1030sc 45"));
    assert!(d.palette_name.is_none());
    assert!(d.gps_latitude.is_none());
}

#[test]
fn first_binding_of_a_duplicated_key_wins() {
    let mut m = base_map();
    m.insert(0, ("Emissivity".to_string(), "0.5".to_string()));
    let d = CSQExifData::from_map(&m).unwrap();
    assert_eq!(d.emissivity, "0.5");
}

#[test]
fn first_token_is_delimited_by_any_whitespace() {
    assert_eq!(take_first_token("1.0 (calculated)").as_deref(), Some("1.0"));
    assert_eq!(take_first_token("  -7261\tcounts").as_deref(), Some("-7261"));
    assert_eq!(take_first_token("lone").as_deref(), Some("lone"));
    assert_eq!(take_first_token(""), None);
    assert_eq!(take_first_token(" \t\n"), None);
}

#[test]
fn float_literal_grammar_accepts_standard_forms() {
    for ok in [
        "0", "1.0", "-7261", "+.5", "1.", ".25", "1e5", "2.5E-3", "-1.25e+10", "inf", "-INF",
        "Infinity", "nan", "NaN",
    ] {
        assert!(check_float_literal(ok), "{} should be accepted", ok);
        assert!(ok.parse::<f32>().is_ok(), "{} should parse", ok);
    }
}

#[test]
fn float_literal_grammar_rejects_malformed_forms() {
    for bad in [
        "", ".", "+", "-", "abc", "1.0.0", "e5", "1e", "1e+", "--1", "1 0", "0x10", "infx",
        "nana", "1,0",
    ] {
        assert!(!check_float_literal(bad), "{} should be rejected", bad);
        assert!(bad.parse::<f32>().is_err(), "{} should not parse", bad);
    }
}

#[test]
fn str_eq_compares_by_contents() {
    assert!(str_eq("Emissivity", "Emissivity"));
    assert!(!str_eq("Emissivity", "emissivity"));
    assert!(!str_eq("Planck", "PlanckB"));
    assert!(str_eq("", ""));
}
