use copernicus_viewer::safe::manifest::{
    extract_nested_text, extract_tag_text, infer_product_type_from_manifest,
};
use copernicus_viewer::safe::mapping::{mapping_from_pairs, target_path};
use copernicus_viewer::safe::product_type::{detect_product_type, ProductTypeError};

#[test]
fn detects_sl_lst() {
    let name = "S3A_SL_2_LST____20260622T102053_20260622T102353_20260622T123949_0179_141_008_2160_PS1_O_NR_005.SEN3";
    assert_eq!(detect_product_type(name).unwrap(), "S03SLSLST");
}

#[test]
fn product_type_errors() {
    assert_eq!(
        detect_product_type("landsat").unwrap_err(),
        ProductTypeError::NotSentinel3("landsat".to_string())
    );
    let err = detect_product_type("s3a_xx_9_zzz").unwrap_err();
    assert_eq!(err.message(), "unsupported Sentinel-3 SAFE product type for s3a_xx_9_zzz");
    assert_eq!(detect_product_type("s3b_ol_1_efr.sen3").unwrap(), "S03OLCEFR");
}

#[test]
fn manifest_fields() {
    let xml = "<a><productType> SL_2_LST </productType><x><y>v</y></x></a>";
    assert_eq!(extract_tag_text(xml, "productType"), Some("SL_2_LST".to_string()));
    assert_eq!(extract_tag_text(xml, "missing"), None);
    assert_eq!(extract_tag_text("<t>  </t>", "t"), None);
    assert_eq!(extract_nested_text(xml, "x", "y"), Some("v".to_string()));
    assert_eq!(infer_product_type_from_manifest(xml), Some("SLSLST".to_string()));
    assert_eq!(infer_product_type_from_manifest("OLCI Level 1 data"), Some("OLCEFR".to_string()));
    assert_eq!(infer_product_type_from_manifest("nothing"), None);
}

#[test]
fn mapping_paths_and_tables() {
    assert_eq!(target_path("coords:latitude_in"), "/coords/latitude_in");
    assert_eq!(target_path("measurements/lst"), "/measurements/lst");
    assert_eq!(target_path(""), "/");
    let pairs = vec![
        ("LST_in.nc:LST".to_string(), "/measurements/lst".to_string()),
        ("geodetic_in.nc:latitude_in".to_string(), "coords:latitude_in".to_string()),
        ("no_colon".to_string(), "/skipped".to_string()),
        ("other.nc:LST2".to_string(), "/measurements/lst".to_string()),
    ];
    let m = mapping_from_pairs("S03SLSLST", &pairs, vec![("rows".to_string(), 512)]);
    assert_eq!(m.arrays.len(), 2);
    let lst = m.arrays.iter().find(|(k, _)| k == "/measurements/lst").unwrap();
    assert_eq!(lst.1.nc_path, "other.nc");
    assert_eq!(lst.1.var_name, "LST2");
    assert_eq!(m.coord_paths, vec![("latitude_in".to_string(), "/coords/latitude_in".to_string())]);
    assert_eq!(m.chunk_sizes, vec![("rows".to_string(), 512)]);
}
