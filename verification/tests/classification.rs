use geoformat::determine_file_type;
use geoformat::ClassificationError;
use geoformat::FileType;

#[test]
fn zip_prefix_is_excel() {
    assert_eq!(
        determine_file_type(b"PK\x03\x04rest of archive"),
        Ok(FileType::Excel)
    );
}

#[test]
fn zip_prefix_with_binary_tail_is_excel() {
    assert_eq!(
        determine_file_type(b"PK\x03\x04\xFF\x00\xFE\x01"),
        Ok(FileType::Excel)
    );
}

#[test]
fn sqlite_header_is_geopackage() {
    assert_eq!(
        determine_file_type(b"SQLite format 3\0plus page data"),
        Ok(FileType::Geopackage)
    );
}

#[test]
fn sqlite_header_alone_is_geopackage() {
    assert_eq!(
        determine_file_type(b"SQLite format 3\0"),
        Ok(FileType::Geopackage)
    );
}

#[test]
fn truncated_sqlite_header_is_unknown() {
    // The NUL terminator is part of the signature; without it no branch fits.
    assert_eq!(
        determine_file_type(b"SQLite format 3"),
        Err(ClassificationError::UnknownFormat)
    );
}

#[test]
fn shapefile_code_is_shapefile() {
    assert_eq!(
        determine_file_type(b"\x00\x00\x27\x0Atrailing"),
        Ok(FileType::Shapefile)
    );
}

#[test]
fn parquet_magic_is_parquet() {
    assert_eq!(determine_file_type(b"PAR1columns"), Ok(FileType::Parquet));
}

#[test]
fn parquet_magic_beats_geojson_markers() {
    // Binary signatures take priority over any text heuristic.
    assert_eq!(
        determine_file_type(b"PAR1{\"type\":\"FeatureCollection\"}"),
        Ok(FileType::Parquet)
    );
}

#[test]
fn feature_collection_is_geojson() {
    assert_eq!(
        determine_file_type(b"{\"type\":\"FeatureCollection\",\"features\":[]}"),
        Ok(FileType::Geojson)
    );
}

#[test]
fn single_feature_is_geojson() {
    assert_eq!(
        determine_file_type(b"{\"type\":\"Feature\",\"geometry\":null}"),
        Ok(FileType::Geojson)
    );
}

#[test]
fn reordered_geojson_keys_still_match() {
    assert_eq!(
        determine_file_type(b"{\"features\":[],\"type\":\"FeatureCollection\"}"),
        Ok(FileType::Geojson)
    );
}

#[test]
fn json_without_markers_is_invalid_geojson() {
    assert_eq!(
        determine_file_type(b"{\"foo\":1}"),
        Err(ClassificationError::InvalidGeojson)
    );
}

#[test]
fn json_with_type_but_no_feature_is_invalid_geojson() {
    assert_eq!(
        determine_file_type(b"{\"type\":\"Point\"}"),
        Err(ClassificationError::InvalidGeojson)
    );
}

#[test]
fn feature_without_type_key_is_invalid_geojson() {
    assert_eq!(
        determine_file_type(b"{\"kind\":\"Feature\"}"),
        Err(ClassificationError::InvalidGeojson)
    );
}

#[test]
fn undecodable_brace_content_is_invalid_geojson() {
    // Invalid UTF-8 degrades to empty text, so the markers cannot match
    // even though their raw bytes are present.
    assert_eq!(
        determine_file_type(b"{\xFF\"type\":\"FeatureCollection\"}"),
        Err(ClassificationError::InvalidGeojson)
    );
}

#[test]
fn matching_field_counts_are_csv() {
    assert_eq!(determine_file_type(b"a,b,c\n1,2,3\n"), Ok(FileType::Csv));
}

#[test]
fn csv_without_trailing_newline_is_csv() {
    assert_eq!(determine_file_type(b"a,b\n1,2"), Ok(FileType::Csv));
}

#[test]
fn crlf_line_endings_are_csv() {
    assert_eq!(
        determine_file_type(b"a,b\r\n1,2\r\n"),
        Ok(FileType::Csv)
    );
}

#[test]
fn only_first_two_lines_decide_csv() {
    // The third line's field count plays no part in the decision.
    assert_eq!(determine_file_type(b"a,b\n1,2\nx\n"), Ok(FileType::Csv));
}

#[test]
fn mismatched_field_counts_are_unknown() {
    assert_eq!(
        determine_file_type(b"a,b,c\n1,2\n"),
        Err(ClassificationError::UnknownFormat)
    );
}

#[test]
fn single_line_is_unknown() {
    assert_eq!(
        determine_file_type(b"a,b,c\n"),
        Err(ClassificationError::UnknownFormat)
    );
}

#[test]
fn single_column_lines_are_unknown() {
    assert_eq!(
        determine_file_type(b"alpha\nbeta\n"),
        Err(ClassificationError::UnknownFormat)
    );
}

#[test]
fn non_ascii_delimited_text_is_unknown() {
    // Well-formed UTF-8, proper field counts, but not ASCII.
    assert_eq!(
        determine_file_type("a,\u{00E9}\n1,2\n".as_bytes()),
        Err(ClassificationError::UnknownFormat)
    );
}

#[test]
fn undecodable_delimited_text_is_unknown() {
    assert_eq!(
        determine_file_type(b"a,b\n1,\xFF\n"),
        Err(ClassificationError::UnknownFormat)
    );
}

#[test]
fn empty_buffer_is_unknown() {
    assert_eq!(
        determine_file_type(b""),
        Err(ClassificationError::UnknownFormat)
    );
}

#[test]
fn short_partial_signature_is_unknown() {
    assert_eq!(
        determine_file_type(b"PK\x03"),
        Err(ClassificationError::UnknownFormat)
    );
}

#[test]
fn classification_is_idempotent_on_each_branch() {
    let inputs: Vec<&[u8]> = vec![
        b"PK\x03\x04",
        b"SQLite format 3\0",
        b"\x00\x00\x27\x0A",
        b"PAR1",
        b"{\"type\":\"Feature\"}",
        b"{\"foo\":1}",
        b"a,b\n1,2\n",
        b"",
        b"\xFF\xFE",
    ];
    for bytes in inputs {
        let first = determine_file_type(bytes);
        for _ in 0..3 {
            assert_eq!(determine_file_type(bytes), first);
        }
    }
}
