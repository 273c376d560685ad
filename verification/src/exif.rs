//! Per-frame calibration metadata.
//!
//! An external metadata tool reports each frame's attributes as key/value
//! string pairs.  This module validates and parses that mapping into the
//! typed calibration record: every required numeric field must be present
//! and its value's first whitespace-delimited token must be a well-formed
//! floating-point literal, or the frame is rejected; the optional
//! descriptive fields are copied through as they are.
//!
//! The numeric fields are kept as their validated literal tokens, so the
//! record stays within what the verifier can speak about; the caller turns
//! a token into its machine number when it applies the radiometric model.

use vstd::prelude::*;

use crate::token::{
    check_float_literal, first_token_of, is_float_literal, str_eq, take_first_token,
};

verus! {

/// Why a frame's calibration metadata was rejected.
#[derive(Debug)]
pub enum ExifError {
    /// The named required field is absent from the metadata mapping.
    MissingField(String),
    /// The named required field's value holds no leading token, or that
    /// token is not a floating-point literal.
    MalformedField(String),
}

/// The value bound to the first occurrence of key `k` in the mapping.
pub open spec fn lookup(m: Seq<(String, String)>, k: Seq<char>) -> Option<Seq<char>>
    decreases m.len(),
{
    if m.len() == 0 {
        None
    } else if m[0].0@ == k {
        Some(m[0].1@)
    } else {
        lookup(m.drop_first(), k)
    }
}

/// The fate of one required numeric field: absent, present without a valid
/// leading floating-point token, or present with that token.
pub enum FieldStatus {
    Missing,
    Malformed,
    Good(Seq<char>),
}

/// The fate of the required field `k` in the mapping `m`.
pub open spec fn field_status(m: Seq<(String, String)>, k: Seq<char>) -> FieldStatus {
    match lookup(m, k) {
        None => FieldStatus::Missing,
        Some(v) => match first_token_of(v) {
            None => FieldStatus::Malformed,
            Some(t) => if is_float_literal(t) {
                FieldStatus::Good(t)
            } else {
                FieldStatus::Malformed
            },
        },
    }
}

/// Whether the required field `k` carries a valid numeric token.
pub open spec fn field_good(m: Seq<(String, String)>, k: Seq<char>) -> bool {
    field_status(m, k) matches FieldStatus::Good(_)
}

/// The required field `f` of the record holds exactly the valid token of
/// field `k` of the mapping.
pub open spec fn req_matches(f: String, m: Seq<(String, String)>, k: Seq<char>) -> bool {
    field_status(m, k) == FieldStatus::Good(f@)
}

/// The optional field `f` of the record mirrors field `k` of the mapping:
/// its value when present, absent otherwise.
pub open spec fn opt_matches(f: Option<String>, m: Seq<(String, String)>, k: Seq<char>) -> bool {
    match (f, lookup(m, k)) {
        (Some(v), Some(w)) => v@ == w,
        (None, None) => true,
        _ => false,
    }
}

/// The first required field, in parsing order, that is missing or
/// malformed, or `None` when every required field is good.
pub open spec fn first_bad_key(m: Seq<(String, String)>) -> Option<Seq<char>> {
    if !field_good(m, "AtmosphericTemperature"@) {
        Some("AtmosphericTemperature"@)
    } else if !field_good(m, "PlanckO"@) {
        Some("PlanckO"@)
    } else if !field_good(m, "PlanckB"@) {
        Some("PlanckB"@)
    } else if !field_good(m, "IRWindowTransmission"@) {
        Some("IRWindowTransmission"@)
    } else if !field_good(m, "AtmosphericTransAlpha1"@) {
        Some("AtmosphericTransAlpha1"@)
    } else if !field_good(m, "RelativeHumidity"@) {
        Some("RelativeHumidity"@)
    } else if !field_good(m, "PlanckF"@) {
        Some("PlanckF"@)
    } else if !field_good(m, "ReflectedApparentTemperature"@) {
        Some("ReflectedApparentTemperature"@)
    } else if !field_good(m, "AtmosphericTransX"@) {
        Some("AtmosphericTransX"@)
    } else if !field_good(m, "PlanckR2"@) {
        Some("PlanckR2"@)
    } else if !field_good(m, "PlanckR1"@) {
        Some("PlanckR1"@)
    } else if !field_good(m, "ObjectDistance"@) {
        Some("ObjectDistance"@)
    } else if !field_good(m, "AtmosphericTransBeta1"@) {
        Some("AtmosphericTransBeta1"@)
    } else if !field_good(m, "IRWindowTemperature"@) {
        Some("IRWindowTemperature"@)
    } else if !field_good(m, "Emissivity"@) {
        Some("Emissivity"@)
    } else if !field_good(m, "AtmosphericTransAlpha2"@) {
        Some("AtmosphericTransAlpha2"@)
    } else if !field_good(m, "AtmosphericTransBeta2"@) {
        Some("AtmosphericTransBeta2"@)
    } else {
        None
    }
}

/// Finds the value bound to the first occurrence of key `k`.
pub fn lookup_value(m: &Vec<(String, String)>, k: &str) -> (r: Option<String>)
    ensures
        match r {
            Some(v) => lookup(m@, k@) == Some(v@),
            None => lookup(m@, k@) is None,
        },
{
    let mut i: usize = 0;
    proof {
        assert(m@.skip(0) =~= m@);
    }
    while i < m.len()
        invariant
            i <= m@.len(),
            lookup(m@, k@) == lookup(m@.skip(i as int), k@),
        decreases m@.len() - i,
    {
        proof {
            assert(m@.skip(i as int)[0] == m@[i as int]);
        }
        if str_eq(m[i].0.as_str(), k) {
            return Some(m[i].1.clone());
        }
        proof {
            assert(m@.skip(i as int).drop_first() =~= m@.skip(i as int + 1));
        }
        i += 1;
    }
    proof {
        assert(m@.skip(m@.len() as int) =~= Seq::<(String, String)>::empty());
    }
    None
}

/// Fetches and validates the required field `k`: its value must exist and
/// its first whitespace-delimited token must be a floating-point literal.
fn get_required(m: &Vec<(String, String)>, k: &str) -> (r: Result<String, ExifError>)
    ensures
        match r {
            Ok(t) => field_status(m@, k@) == FieldStatus::Good(t@),
            Err(ExifError::MissingField(k2)) => k2@ == k@ && field_status(m@, k@) is Missing,
            Err(ExifError::MalformedField(k2)) => k2@ == k@ && field_status(m@, k@) is Malformed,
        },
{
    match lookup_value(m, k) {
        None => Err(ExifError::MissingField(k.to_owned())),
        Some(v) => match take_first_token(v.as_str()) {
            None => Err(ExifError::MalformedField(k.to_owned())),
            Some(t) => {
                if check_float_literal(t.as_str()) {
                    Ok(t)
                } else {
                    Err(ExifError::MalformedField(k.to_owned()))
                }
            },
        },
    }
}

/// The per-frame calibration record.
///
/// The numeric fields hold the validated floating-point literal token
/// taken from the mapping; the descriptive fields are carried through
/// unchanged when present.
#[derive(Debug)]
pub struct CSQExifData {
    pub overflow_color: Option<String>,
    pub gps_longitude_ref: Option<String>,
    pub gps_img_direction_ref: Option<String>,
    pub file_inode_change_date_time: Option<String>,
    pub file_permissions: Option<String>,
    pub atmospheric_temperature: String,
    pub lens_part_number: Option<String>,
    pub camera_temperature_range_min: Option<String>,
    pub camera_software: Option<String>,
    pub file_name: Option<String>,
    pub focus_step_count: Option<String>,
    pub raw_value_range_min: Option<String>,
    pub gps_latitude_ref: Option<String>,
    pub creator_software: Option<String>,
    pub camera_temperature_max_warn: Option<String>,
    pub raw_thermal_image_type: Option<String>,
    pub directory: Option<String>,
    pub file_size: Option<String>,
    pub camera_temperature_min_clip: Option<String>,
    pub filter_serial_number: Option<String>,
    pub exif_tool_version_number: Option<String>,
    pub filter_model: Option<String>,
    pub planck_o: String,
    pub camera_part_number: Option<String>,
    pub focus_distance: Option<String>,
    pub below_color: Option<String>,
    pub gps_dilution_of_precision: Option<String>,
    pub file_access_date_time: Option<String>,
    pub planck_b: String,
    pub camera_temperature_max_saturated: Option<String>,
    pub gps_position: Option<String>,
    pub palette_method: Option<String>,
    pub palette: Option<String>,
    pub isotherm2_color: Option<String>,
    pub ir_window_transmission: String,
    pub atmospheric_trans_alpha1: String,
    pub gps_longitude: Option<String>,
    pub mime_type: Option<String>,
    pub gps_valid: Option<String>,
    pub gps_altitude: Option<String>,
    pub camera_temperature_range_max: Option<String>,
    pub file_type: Option<String>,
    pub relative_humidity: String,
    pub camera_temperature_min_warn: Option<String>,
    pub camera_serial_number: Option<String>,
    pub camera_temperature_max_clip: Option<String>,
    pub underflow_color: Option<String>,
    pub raw_thermal_image: Option<String>,
    pub gps_latitude: Option<String>,
    pub planck_f: String,
    pub gps_map_datum: Option<String>,
    pub raw_value_median: Option<String>,
    pub file_type_extension: Option<String>,
    pub camera_model: Option<String>,
    pub palette_name: Option<String>,
    pub reflected_apparent_temperature: String,
    pub isotherm1_color: Option<String>,
    pub atmospheric_trans_x: String,
    pub raw_value_range: Option<String>,
    pub date_time_original: Option<String>,
    pub palette_stretch: Option<String>,
    pub planck_r2: String,
    pub raw_thermal_image_width: Option<String>,
    pub palette_file_name: Option<String>,
    pub planck_r1: String,
    pub file_modification_date_time: Option<String>,
    pub lens_model: Option<String>,
    pub lens_serial_number: Option<String>,
    pub raw_thermal_image_height: Option<String>,
    pub peak_spectral_sensitivity: Option<String>,
    pub object_distance: String,
    pub atmospheric_trans_beta1: String,
    pub ir_window_temperature: String,
    pub field_of_view: Option<String>,
    pub raw_value_range_max: Option<String>,
    pub frame_rate: Option<String>,
    pub palette_colors: Option<String>,
    pub gps_img_direction: Option<String>,
    pub emissivity: String,
    pub atmospheric_trans_alpha2: String,
    pub atmospheric_trans_beta2: String,
    pub camera_temperature_min_saturated: Option<String>,
    pub above_color: Option<String>,
}

impl CSQExifData {
    /// Well-formedness of the record: every required numeric field holds
    /// a floating-point literal token.  Construction by [`Self::from_map`]
    /// establishes it; the record is immutable afterwards.
    pub open spec fn wf(&self) -> bool {
        &&& is_float_literal(self.atmospheric_temperature@)
        &&& is_float_literal(self.planck_o@)
        &&& is_float_literal(self.planck_b@)
        &&& is_float_literal(self.ir_window_transmission@)
        &&& is_float_literal(self.atmospheric_trans_alpha1@)
        &&& is_float_literal(self.relative_humidity@)
        &&& is_float_literal(self.planck_f@)
        &&& is_float_literal(self.reflected_apparent_temperature@)
        &&& is_float_literal(self.atmospheric_trans_x@)
        &&& is_float_literal(self.planck_r2@)
        &&& is_float_literal(self.planck_r1@)
        &&& is_float_literal(self.object_distance@)
        &&& is_float_literal(self.atmospheric_trans_beta1@)
        &&& is_float_literal(self.ir_window_temperature@)
        &&& is_float_literal(self.emissivity@)
        &&& is_float_literal(self.atmospheric_trans_alpha2@)
        &&& is_float_literal(self.atmospheric_trans_beta2@)
    }
    /// Validates and parses a metadata mapping into the calibration
    /// record.  The first missing or malformed required field, in
    /// parsing order, is reported; optional fields never fail.
    #[verifier::rlimit(100)]
    pub fn from_map(m: &Vec<(String, String)>) -> (r: Result<CSQExifData, ExifError>)
        ensures
            match r {
                Ok(d) => ({
                    &&& d.wf()
                    &&& first_bad_key(m@) is None
                    &&& req_matches(d.atmospheric_temperature, m@, "AtmosphericTemperature"@)
                    &&& req_matches(d.planck_o, m@, "PlanckO"@)
                    &&& req_matches(d.planck_b, m@, "PlanckB"@)
                    &&& req_matches(d.ir_window_transmission, m@, "IRWindowTransmission"@)
                    &&& req_matches(d.atmospheric_trans_alpha1, m@, "AtmosphericTransAlpha1"@)
                    &&& req_matches(d.relative_humidity, m@, "RelativeHumidity"@)
                    &&& req_matches(d.planck_f, m@, "PlanckF"@)
                    &&& req_matches(d.reflected_apparent_temperature, m@, "ReflectedApparentTemperature"@)
                    &&& req_matches(d.atmospheric_trans_x, m@, "AtmosphericTransX"@)
                    &&& req_matches(d.planck_r2, m@, "PlanckR2"@)
                    &&& req_matches(d.planck_r1, m@, "PlanckR1"@)
                    &&& req_matches(d.object_distance, m@, "ObjectDistance"@)
                    &&& req_matches(d.atmospheric_trans_beta1, m@, "AtmosphericTransBeta1"@)
                    &&& req_matches(d.ir_window_temperature, m@, "IRWindowTemperature"@)
                    &&& req_matches(d.emissivity, m@, "Emissivity"@)
                    &&& req_matches(d.atmospheric_trans_alpha2, m@, "AtmosphericTransAlpha2"@)
                    &&& req_matches(d.atmospheric_trans_beta2, m@, "AtmosphericTransBeta2"@)
                    &&& opt_matches(d.overflow_color, m@, "OverflowColor"@)
                    &&& opt_matches(d.gps_longitude_ref, m@, "GPSLongitudeRef"@)
                    &&& opt_matches(d.gps_img_direction_ref, m@, "GPSImgDirectionRef"@)
                    &&& opt_matches(d.file_inode_change_date_time, m@, "FileInodeChangeDate/Time"@)
                    &&& opt_matches(d.file_permissions, m@, "FilePermissions"@)
                    &&& opt_matches(d.lens_part_number, m@, "LensPartNumber"@)
                    &&& opt_matches(d.camera_temperature_range_min, m@, "CameraTemperatureRangeMin"@)
                    &&& opt_matches(d.camera_software, m@, "CameraSoftware"@)
                    &&& opt_matches(d.file_name, m@, "FileName"@)
                    &&& opt_matches(d.focus_step_count, m@, "FocusStepCount"@)
                    &&& opt_matches(d.raw_value_range_min, m@, "RawValueRangeMin"@)
                    &&& opt_matches(d.gps_latitude_ref, m@, "GPSLatitudeRef"@)
                    &&& opt_matches(d.creator_software, m@, "CreatorSoftware"@)
                    &&& opt_matches(d.camera_temperature_max_warn, m@, "CameraTemperatureMaxWarn"@)
                    &&& opt_matches(d.raw_thermal_image_type, m@, "RawThermalImageType"@)
                    &&& opt_matches(d.directory, m@, "Directory"@)
                    &&& opt_matches(d.file_size, m@, "FileSize"@)
                    &&& opt_matches(d.camera_temperature_min_clip, m@, "CameraTemperatureMinClip"@)
                    &&& opt_matches(d.filter_serial_number, m@, "FilterSerialNumber"@)
                    &&& opt_matches(d.exif_tool_version_number, m@, "ExifToolVersionNumber"@)
                    &&& opt_matches(d.filter_model, m@, "FilterModel"@)
                    &&& opt_matches(d.camera_part_number, m@, "CameraPartNumber"@)
                    &&& opt_matches(d.focus_distance, m@, "FocusDistance"@)
                    &&& opt_matches(d.below_color, m@, "BelowColor"@)
                    &&& opt_matches(d.gps_dilution_of_precision, m@, "GPSDilutionOfPrecision"@)
                    &&& opt_matches(d.file_access_date_time, m@, "FileAccessDate/Time"@)
                    &&& opt_matches(d.camera_temperature_max_saturated, m@, "CameraTemperatureMaxSaturated"@)
                    &&& opt_matches(d.gps_position, m@, "GPSPosition"@)
                    &&& opt_matches(d.palette_method, m@, "PaletteMethod"@)
                    &&& opt_matches(d.palette, m@, "Palette"@)
                    &&& opt_matches(d.isotherm2_color, m@, "Isotherm2Color"@)
                    &&& opt_matches(d.gps_longitude, m@, "GPSLongitude"@)
                    &&& opt_matches(d.mime_type, m@, "MIMEType"@)
                    &&& opt_matches(d.gps_valid, m@, "GPSValid"@)
                    &&& opt_matches(d.gps_altitude, m@, "GPSAltitude"@)
                    &&& opt_matches(d.camera_temperature_range_max, m@, "CameraTemperatureRangeMax"@)
                    &&& opt_matches(d.file_type, m@, "FileType"@)
                    &&& opt_matches(d.camera_temperature_min_warn, m@, "CameraTemperatureMinWarn"@)
                    &&& opt_matches(d.camera_serial_number, m@, "CameraSerialNumber"@)
                    &&& opt_matches(d.camera_temperature_max_clip, m@, "CameraTemperatureMaxClip"@)
                    &&& opt_matches(d.underflow_color, m@, "UnderflowColor"@)
                    &&& opt_matches(d.raw_thermal_image, m@, "RawThermalImage"@)
                    &&& opt_matches(d.gps_latitude, m@, "GPSLatitude"@)
                    &&& opt_matches(d.gps_map_datum, m@, "GPSMapDatum"@)
                    &&& opt_matches(d.raw_value_median, m@, "RawValueMedian"@)
                    &&& opt_matches(d.file_type_extension, m@, "FileTypeExtension"@)
                    &&& opt_matches(d.camera_model, m@, "CameraModel"@)
                    &&& opt_matches(d.palette_name, m@, "PaletteName"@)
                    &&& opt_matches(d.isotherm1_color, m@, "Isotherm1Color"@)
                    &&& opt_matches(d.raw_value_range, m@, "RawValueRange"@)
                    &&& opt_matches(d.date_time_original, m@, "Date/TimeOriginal"@)
                    &&& opt_matches(d.palette_stretch, m@, "PaletteStretch"@)
                    &&& opt_matches(d.raw_thermal_image_width, m@, "RawThermalImageWidth"@)
                    &&& opt_matches(d.palette_file_name, m@, "PaletteFileName"@)
                    &&& opt_matches(d.file_modification_date_time, m@, "FileModificationDate/Time"@)
                    &&& opt_matches(d.lens_model, m@, "LensModel"@)
                    &&& opt_matches(d.lens_serial_number, m@, "LensSerialNumber"@)
                    &&& opt_matches(d.raw_thermal_image_height, m@, "RawThermalImageHeight"@)
                    &&& opt_matches(d.peak_spectral_sensitivity, m@, "PeakSpectralSensitivity"@)
                    &&& opt_matches(d.field_of_view, m@, "FieldOfView"@)
                    &&& opt_matches(d.raw_value_range_max, m@, "RawValueRangeMax"@)
                    &&& opt_matches(d.frame_rate, m@, "FrameRate"@)
                    &&& opt_matches(d.palette_colors, m@, "PaletteColors"@)
                    &&& opt_matches(d.gps_img_direction, m@, "GpsImgDirection"@)
                    &&& opt_matches(d.camera_temperature_min_saturated, m@, "CameraTemperatureMinSaturated"@)
                    &&& opt_matches(d.above_color, m@, "AboveColor"@)
                }),
                Err(ExifError::MissingField(k)) => ({
                    &&& first_bad_key(m@) == Some(k@)
                    &&& field_status(m@, k@) is Missing
                }),
                Err(ExifError::MalformedField(k)) => ({
                    &&& first_bad_key(m@) == Some(k@)
                    &&& field_status(m@, k@) is Malformed
                }),
            },
    {
        let atmospheric_temperature = match get_required(m, "AtmosphericTemperature") {
            Ok(t) => t,
            Err(e) => {
                return Err(e);
            },
        };
        let planck_o = match get_required(m, "PlanckO") {
            Ok(t) => t,
            Err(e) => {
                return Err(e);
            },
        };
        let planck_b = match get_required(m, "PlanckB") {
            Ok(t) => t,
            Err(e) => {
                return Err(e);
            },
        };
        let ir_window_transmission = match get_required(m, "IRWindowTransmission") {
            Ok(t) => t,
            Err(e) => {
                return Err(e);
            },
        };
        let atmospheric_trans_alpha1 = match get_required(m, "AtmosphericTransAlpha1") {
            Ok(t) => t,
            Err(e) => {
                return Err(e);
            },
        };
        let relative_humidity = match get_required(m, "RelativeHumidity") {
            Ok(t) => t,
            Err(e) => {
                return Err(e);
            },
        };
        let planck_f = match get_required(m, "PlanckF") {
            Ok(t) => t,
            Err(e) => {
                return Err(e);
            },
        };
        let reflected_apparent_temperature = match get_required(m, "ReflectedApparentTemperature") {
            Ok(t) => t,
            Err(e) => {
                return Err(e);
            },
        };
        let atmospheric_trans_x = match get_required(m, "AtmosphericTransX") {
            Ok(t) => t,
            Err(e) => {
                return Err(e);
            },
        };
        let planck_r2 = match get_required(m, "PlanckR2") {
            Ok(t) => t,
            Err(e) => {
                return Err(e);
            },
        };
        let planck_r1 = match get_required(m, "PlanckR1") {
            Ok(t) => t,
            Err(e) => {
                return Err(e);
            },
        };
        let object_distance = match get_required(m, "ObjectDistance") {
            Ok(t) => t,
            Err(e) => {
                return Err(e);
            },
        };
        let atmospheric_trans_beta1 = match get_required(m, "AtmosphericTransBeta1") {
            Ok(t) => t,
            Err(e) => {
                return Err(e);
            },
        };
        let ir_window_temperature = match get_required(m, "IRWindowTemperature") {
            Ok(t) => t,
            Err(e) => {
                return Err(e);
            },
        };
        let emissivity = match get_required(m, "Emissivity") {
            Ok(t) => t,
            Err(e) => {
                return Err(e);
            },
        };
        let atmospheric_trans_alpha2 = match get_required(m, "AtmosphericTransAlpha2") {
            Ok(t) => t,
            Err(e) => {
                return Err(e);
            },
        };
        let atmospheric_trans_beta2 = match get_required(m, "AtmosphericTransBeta2") {
            Ok(t) => t,
            Err(e) => {
                return Err(e);
            },
        };
        let overflow_color = lookup_value(m, "OverflowColor");
        let gps_longitude_ref = lookup_value(m, "GPSLongitudeRef");
        let gps_img_direction_ref = lookup_value(m, "GPSImgDirectionRef");
        let file_inode_change_date_time = lookup_value(m, "FileInodeChangeDate/Time");
        let file_permissions = lookup_value(m, "FilePermissions");
        let lens_part_number = lookup_value(m, "LensPartNumber");
        let camera_temperature_range_min = lookup_value(m, "CameraTemperatureRangeMin");
        let camera_software = lookup_value(m, "CameraSoftware");
        let file_name = lookup_value(m, "FileName");
        let focus_step_count = lookup_value(m, "FocusStepCount");
        let raw_value_range_min = lookup_value(m, "RawValueRangeMin");
        let gps_latitude_ref = lookup_value(m, "GPSLatitudeRef");
        let creator_software = lookup_value(m, "CreatorSoftware");
        let camera_temperature_max_warn = lookup_value(m, "CameraTemperatureMaxWarn");
        let raw_thermal_image_type = lookup_value(m, "RawThermalImageType");
        let directory = lookup_value(m, "Directory");
        let file_size = lookup_value(m, "FileSize");
        let camera_temperature_min_clip = lookup_value(m, "CameraTemperatureMinClip");
        let filter_serial_number = lookup_value(m, "FilterSerialNumber");
        let exif_tool_version_number = lookup_value(m, "ExifToolVersionNumber");
        let filter_model = lookup_value(m, "FilterModel");
        let camera_part_number = lookup_value(m, "CameraPartNumber");
        let focus_distance = lookup_value(m, "FocusDistance");
        let below_color = lookup_value(m, "BelowColor");
        let gps_dilution_of_precision = lookup_value(m, "GPSDilutionOfPrecision");
        let file_access_date_time = lookup_value(m, "FileAccessDate/Time");
        let camera_temperature_max_saturated = lookup_value(m, "CameraTemperatureMaxSaturated");
        let gps_position = lookup_value(m, "GPSPosition");
        let palette_method = lookup_value(m, "PaletteMethod");
        let palette = lookup_value(m, "Palette");
        let isotherm2_color = lookup_value(m, "Isotherm2Color");
        let gps_longitude = lookup_value(m, "GPSLongitude");
        let mime_type = lookup_value(m, "MIMEType");
        let gps_valid = lookup_value(m, "GPSValid");
        let gps_altitude = lookup_value(m, "GPSAltitude");
        let camera_temperature_range_max = lookup_value(m, "CameraTemperatureRangeMax");
        let file_type = lookup_value(m, "FileType");
        let camera_temperature_min_warn = lookup_value(m, "CameraTemperatureMinWarn");
        let camera_serial_number = lookup_value(m, "CameraSerialNumber");
        let camera_temperature_max_clip = lookup_value(m, "CameraTemperatureMaxClip");
        let underflow_color = lookup_value(m, "UnderflowColor");
        let raw_thermal_image = lookup_value(m, "RawThermalImage");
        let gps_latitude = lookup_value(m, "GPSLatitude");
        let gps_map_datum = lookup_value(m, "GPSMapDatum");
        let raw_value_median = lookup_value(m, "RawValueMedian");
        let file_type_extension = lookup_value(m, "FileTypeExtension");
        let camera_model = lookup_value(m, "CameraModel");
        let palette_name = lookup_value(m, "PaletteName");
        let isotherm1_color = lookup_value(m, "Isotherm1Color");
        let raw_value_range = lookup_value(m, "RawValueRange");
        let date_time_original = lookup_value(m, "Date/TimeOriginal");
        let palette_stretch = lookup_value(m, "PaletteStretch");
        let raw_thermal_image_width = lookup_value(m, "RawThermalImageWidth");
        let palette_file_name = lookup_value(m, "PaletteFileName");
        let file_modification_date_time = lookup_value(m, "FileModificationDate/Time");
        let lens_model = lookup_value(m, "LensModel");
        let lens_serial_number = lookup_value(m, "LensSerialNumber");
        let raw_thermal_image_height = lookup_value(m, "RawThermalImageHeight");
        let peak_spectral_sensitivity = lookup_value(m, "PeakSpectralSensitivity");
        let field_of_view = lookup_value(m, "FieldOfView");
        let raw_value_range_max = lookup_value(m, "RawValueRangeMax");
        let frame_rate = lookup_value(m, "FrameRate");
        let palette_colors = lookup_value(m, "PaletteColors");
        let gps_img_direction = lookup_value(m, "GpsImgDirection");
        let camera_temperature_min_saturated = lookup_value(m, "CameraTemperatureMinSaturated");
        let above_color = lookup_value(m, "AboveColor");
        Ok(CSQExifData {
            overflow_color,
            gps_longitude_ref,
            gps_img_direction_ref,
            file_inode_change_date_time,
            file_permissions,
            atmospheric_temperature,
            lens_part_number,
            camera_temperature_range_min,
            camera_software,
            file_name,
            focus_step_count,
            raw_value_range_min,
            gps_latitude_ref,
            creator_software,
            camera_temperature_max_warn,
            raw_thermal_image_type,
            directory,
            file_size,
            camera_temperature_min_clip,
            filter_serial_number,
            exif_tool_version_number,
            filter_model,
            planck_o,
            camera_part_number,
            focus_distance,
            below_color,
            gps_dilution_of_precision,
            file_access_date_time,
            planck_b,
            camera_temperature_max_saturated,
            gps_position,
            palette_method,
            palette,
            isotherm2_color,
            ir_window_transmission,
            atmospheric_trans_alpha1,
            gps_longitude,
            mime_type,
            gps_valid,
            gps_altitude,
            camera_temperature_range_max,
            file_type,
            relative_humidity,
            camera_temperature_min_warn,
            camera_serial_number,
            camera_temperature_max_clip,
            underflow_color,
            raw_thermal_image,
            gps_latitude,
            planck_f,
            gps_map_datum,
            raw_value_median,
            file_type_extension,
            camera_model,
            palette_name,
            reflected_apparent_temperature,
            isotherm1_color,
            atmospheric_trans_x,
            raw_value_range,
            date_time_original,
            palette_stretch,
            planck_r2,
            raw_thermal_image_width,
            palette_file_name,
            planck_r1,
            file_modification_date_time,
            lens_model,
            lens_serial_number,
            raw_thermal_image_height,
            peak_spectral_sensitivity,
            object_distance,
            atmospheric_trans_beta1,
            ir_window_temperature,
            field_of_view,
            raw_value_range_max,
            frame_rate,
            palette_colors,
            gps_img_direction,
            emissivity,
            atmospheric_trans_alpha2,
            atmospheric_trans_beta2,
            camera_temperature_min_saturated,
            above_color,
        })
    }
}

} // verus!
