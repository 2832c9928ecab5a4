use bbsplus::status::{FfiError, BBS_ERROR_DESERIALIZE, BBS_ERROR_INVALID_LENGTH, BBS_ERROR_NULL_POINTER};
use bbsplus::types::BbsByteSlice;
use bbsplus::utils::{
    bbs_canonical_nationality, bbs_canonical_nationality_list, bbs_canonical_string,
    canonical_nationality, canonical_nationality_list, canonical_string, UtilsError,
};

#[test]
fn canonical_string_trims_and_uppercases() {
    assert_eq!(canonical_string("  cz "), "CZ");
    assert_eq!(canonical_string("pl"), "PL");
    assert_eq!(canonical_string(""), "");
}

#[test]
fn canonical_nationality_accepts_ascii_alpha2() {
    assert_eq!(canonical_nationality("cz ").unwrap(), "CZ");
    assert_eq!(canonical_nationality("IT").unwrap(), "IT");
    assert_eq!(canonical_nationality("  us").unwrap(), "US");
}

#[test]
fn canonical_nationality_rejects_invalid_codes() {
    assert_eq!(canonical_nationality(""), Err(UtilsError::InvalidLength));
    assert_eq!(canonical_nationality("abc"), Err(UtilsError::InvalidLength));
    assert_eq!(canonical_nationality("A1"), Err(UtilsError::InvalidLength));
    assert_eq!(canonical_nationality("ÇZ"), Err(UtilsError::InvalidLength));
    assert_eq!(canonical_nationality("A-"), Err(UtilsError::InvalidLength));
    assert_eq!(canonical_nationality("A B"), Err(UtilsError::InvalidLength));
}

#[test]
fn canonical_nationality_list_sorts_and_concats() {
    assert_eq!(
        canonical_nationality_list(&["it", "pl", "cz "]).unwrap(),
        "CZITPL"
    );
    assert_eq!(canonical_nationality_list(&[]).unwrap(), "");
}

#[test]
fn canonical_nationality_list_rejects_empty_entry() {
    assert_eq!(
        canonical_nationality_list(&["", "us"]),
        Err(UtilsError::InvalidLength)
    );
}

#[test]
fn canonical_string_trims_unicode_whitespace() {
    assert_eq!(canonical_string("\u{3000}\t de \u{a0}\n"), "DE");
    assert_eq!(canonical_string("straße"), "STRASSE");
    assert_eq!(canonical_string(" a b "), "A B");
}

#[test]
fn canonical_nationality_list_keeps_duplicates_and_ignores_order() {
    let a = canonical_nationality_list(&["it", "pl", "cz ", "it"]).unwrap();
    let b = canonical_nationality_list(&[" IT", "it", "CZ", "pl"]).unwrap();
    assert_eq!(a, "CZITITPL");
    assert_eq!(a, b);
    assert_eq!(canonical_nationality_list(&["de"]).unwrap(), "DE");
}

#[test]
fn canonical_nationality_list_rejects_any_bad_entry() {
    assert_eq!(
        canonical_nationality_list(&["us", "usa"]),
        Err(UtilsError::InvalidLength)
    );
    assert_eq!(UtilsError::InvalidLength.into_ffi(), FfiError::InvalidLength);
}

fn slice(bytes: &[u8]) -> BbsByteSlice {
    BbsByteSlice { data: Some(bytes.to_vec()) }
}

#[test]
fn bbs_canonical_string_reads_utf8() {
    let out = bbs_canonical_string(&slice(" pl ".as_bytes())).unwrap();
    assert_eq!(out.data, b"PL".to_vec());
    let err = bbs_canonical_string(&slice(&[0xff, 0x41])).unwrap_err();
    assert_eq!(err.code(), BBS_ERROR_DESERIALIZE);
    let err = bbs_canonical_string(&BbsByteSlice { data: None }).unwrap_err();
    assert_eq!(err.code(), BBS_ERROR_NULL_POINTER);
}

#[test]
fn bbs_canonical_nationality_reports_status() {
    let out = bbs_canonical_nationality(&slice("cz ".as_bytes())).unwrap();
    assert_eq!(out.data, b"CZ".to_vec());
    let err = bbs_canonical_nationality(&slice("czk".as_bytes())).unwrap_err();
    assert_eq!(err.code(), BBS_ERROR_INVALID_LENGTH);
    let err = bbs_canonical_nationality(&slice(&[0xc3])).unwrap_err();
    assert_eq!(err, FfiError::Deserialize);
}

#[test]
fn bbs_canonical_nationality_list_reports_first_error() {
    let items = Some(vec![Some(b"it".to_vec()), Some(b"pl".to_vec()), Some(b"cz ".to_vec())]);
    assert_eq!(bbs_canonical_nationality_list(&items).unwrap().data, b"CZITPL".to_vec());

    let items = Some(vec![Some(b"itx".to_vec()), None, Some(vec![0xff])]);
    assert_eq!(bbs_canonical_nationality_list(&items).unwrap_err(), FfiError::NullPointer);

    let items = Some(vec![Some(vec![0xff]), None]);
    assert_eq!(bbs_canonical_nationality_list(&items).unwrap_err(), FfiError::Deserialize);

    let items = Some(vec![Some(b"itx".to_vec()), Some(b"pl".to_vec())]);
    assert_eq!(bbs_canonical_nationality_list(&items).unwrap_err(), FfiError::InvalidLength);

    assert_eq!(bbs_canonical_nationality_list(&None).unwrap_err(), FfiError::NullPointer);
    assert_eq!(bbs_canonical_nationality_list(&Some(vec![])).unwrap().data, Vec::<u8>::new());
}

#[test]
fn canonical_code_is_a_fixed_point() {
    let code = canonical_nationality(" pl\t").unwrap();
    assert_eq!(code, "PL");
    assert_eq!(canonical_nationality(&code).unwrap(), code);
    assert_eq!(canonical_string(&code), code);
}
