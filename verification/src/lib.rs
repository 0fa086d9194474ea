pub mod scan;

use vstd::prelude::*;

verus! {

/// The recognized file formats, as told apart by their leading bytes or by
/// the shape of their decoded text.
#[derive(Debug, PartialEq, Eq, Structural, Clone, Copy)]
pub enum FileType {
    Geopackage,
    Shapefile,
    Geojson,
    Excel,
    Csv,
    Parquet,
}

/// Why a buffer could not be classified.
#[derive(Debug, PartialEq, Eq, Structural, Clone, Copy)]
pub enum ClassificationError {
    /// The buffer looks like JSON but lacks the GeoJSON markers.
    InvalidGeojson,
    /// No signature or heuristic matched.
    UnknownFormat,
}

/// The ZIP local-file-header magic `PK\x03\x04`.
pub open spec fn zip_signature() -> Seq<u8> {
    seq![0x50u8, 0x4Bu8, 0x03u8, 0x04u8]
}

/// The 16-byte SQLite header: the ASCII text `SQLite format 3` and a NUL.
pub open spec fn sqlite_signature() -> Seq<u8> {
    seq![
        0x53u8,
        0x51u8,
        0x4Cu8,
        0x69u8,
        0x74u8,
        0x65u8,
        0x20u8,
        0x66u8,
        0x6Fu8,
        0x72u8,
        0x6Du8,
        0x61u8,
        0x74u8,
        0x20u8,
        0x33u8,
        0x00u8,
    ]
}

/// The big-endian shapefile file code `0x0000270A`.
pub open spec fn shapefile_signature() -> Seq<u8> {
    seq![0x00u8, 0x00u8, 0x27u8, 0x0Au8]
}

/// The Parquet header magic, the ASCII text `PAR1`.
pub open spec fn parquet_signature() -> Seq<u8> {
    seq![0x50u8, 0x41u8, 0x52u8, 0x31u8]
}

/// The GeoJSON key marker: the ASCII text `"type":`.
pub open spec fn type_key_marker() -> Seq<u8> {
    seq![0x22u8, 0x74u8, 0x79u8, 0x70u8, 0x65u8, 0x22u8, 0x3Au8]
}

/// The ASCII text `"FeatureCollection"`, quotes included.
pub open spec fn feature_collection_marker() -> Seq<u8> {
    seq![
        0x22u8,
        0x46u8,
        0x65u8,
        0x61u8,
        0x74u8,
        0x75u8,
        0x72u8,
        0x65u8,
        0x43u8,
        0x6Fu8,
        0x6Cu8,
        0x6Cu8,
        0x65u8,
        0x63u8,
        0x74u8,
        0x69u8,
        0x6Fu8,
        0x6Eu8,
        0x22u8,
    ]
}

/// The ASCII text `"Feature"`, quotes included.
pub open spec fn feature_marker() -> Seq<u8> {
    seq![0x22u8, 0x46u8, 0x65u8, 0x61u8, 0x74u8, 0x75u8, 0x72u8, 0x65u8, 0x22u8]
}

/// A buffer decoding to ASCII text whose first line holds at least one comma
/// and whose second line (running to the next line feed or to the end) holds
/// exactly as many commas as the first. Carriage returns need no special
/// handling here: stripping a trailing `\r` from a line changes no comma
/// count, so this matches a split into `\n`-terminated lines.
pub open spec fn csv_shaped(b: Seq<u8>) -> bool {
    let i = scan::find_first(b, 0, 0x0A);
    &&& i + 1 < b.len()
    &&& scan::commas_in(b, 0, i) >= 1
    &&& scan::commas_in(b, i + 1, scan::find_first(b, i + 1, 0x0A)) == scan::commas_in(b, 0, i)
}

/// A buffer that begins with `{`, decodes as UTF-8, and holds the `"type":`
/// key together with a `"FeatureCollection"` or `"Feature"` marker. An
/// ASCII marker occurs in decoded UTF-8 text exactly when its bytes occur
/// in the buffer, so the search is stated over the raw bytes.
pub open spec fn geojson_shaped(b: Seq<u8>) -> bool {
    &&& scan::utf8_valid(b)
    &&& scan::contains_seq(b, type_key_marker())
    &&& (scan::contains_seq(b, feature_collection_marker()) || scan::contains_seq(
        b,
        feature_marker(),
    ))
}

/// The full classification decision: binary signatures first, in a fixed
/// order, then the JSON heuristic, then the delimited-text fallback.
pub open spec fn classification(b: Seq<u8>) -> Result<FileType, ClassificationError> {
    if scan::matches_at(b, zip_signature(), 0) {
        Ok(FileType::Excel)
    } else if scan::matches_at(b, sqlite_signature(), 0) {
        Ok(FileType::Geopackage)
    } else if scan::matches_at(b, shapefile_signature(), 0) {
        Ok(FileType::Shapefile)
    } else if scan::matches_at(b, parquet_signature(), 0) {
        Ok(FileType::Parquet)
    } else if b.len() > 0 && b[0] == 0x7B {
        if geojson_shaped(b) {
            Ok(FileType::Geojson)
        } else {
            Err(ClassificationError::InvalidGeojson)
        }
    } else if scan::is_ascii_seq(b) && csv_shaped(b) {
        Ok(FileType::Csv)
    } else {
        Err(ClassificationError::UnknownFormat)
    }
}

/// Any buffer whose first four bytes are the ZIP local-file-header magic is
/// classified as `Excel`, whatever the remaining bytes hold.
pub proof fn lemma_zip_prefix_classifies_as_excel(b: Seq<u8>)
    requires
        scan::matches_at(b, zip_signature(), 0),
    ensures
        classification(b) == Ok::<FileType, ClassificationError>(FileType::Excel),
{
}

/// Any buffer beginning with the 16-byte SQLite header is classified as
/// `Geopackage`, whatever the remaining bytes hold.
pub proof fn lemma_sqlite_prefix_classifies_as_geopackage(b: Seq<u8>)
    requires
        scan::matches_at(b, sqlite_signature(), 0),
    ensures
        classification(b) == Ok::<FileType, ClassificationError>(FileType::Geopackage),
{
    if scan::matches_at(b, zip_signature(), 0) {
        assert(b.subrange(0, 4)[0] == b[0]);
        assert(b.subrange(0, 16)[0] == b[0]);
        assert(false);
    }
}

/// Any buffer whose first four bytes are the big-endian shapefile file code
/// is classified as `Shapefile`, whatever the remaining bytes hold.
pub proof fn lemma_shapefile_prefix_classifies_as_shapefile(b: Seq<u8>)
    requires
        scan::matches_at(b, shapefile_signature(), 0),
    ensures
        classification(b) == Ok::<FileType, ClassificationError>(FileType::Shapefile),
{
    assert(b.subrange(0, 4)[0] == b[0]);
    if scan::matches_at(b, sqlite_signature(), 0) {
        assert(b.subrange(0, 16)[0] == b[0]);
        assert(false);
    }
}

/// Any buffer whose first four bytes are the Parquet magic `PAR1` is
/// classified as `Parquet`, whatever the remaining bytes hold.
pub proof fn lemma_parquet_prefix_classifies_as_parquet(b: Seq<u8>)
    requires
        scan::matches_at(b, parquet_signature(), 0),
    ensures
        classification(b) == Ok::<FileType, ClassificationError>(FileType::Parquet),
{
    assert(b.subrange(0, 4)[0] == b[0]);
    assert(b.subrange(0, 4)[1] == b[1]);
    if scan::matches_at(b, sqlite_signature(), 0) {
        assert(b.subrange(0, 16)[1] == b[1]);
        assert(false);
    }
}

/// Classification is deterministic: any two results obtained for the same
/// byte sequence are equal, however many times the classifier runs.
pub proof fn lemma_classification_idempotent(
    b: Seq<u8>,
    r1: Result<FileType, ClassificationError>,
    r2: Result<FileType, ClassificationError>,
)
    requires
        r1 == classification(b),
        r2 == classification(b),
    ensures
        r1 == r2,
{
}

fn zip_signature_bytes() -> (v: Vec<u8>)
    ensures
        v@ == zip_signature(),
{
    let mut v: Vec<u8> = Vec::new();
    v.push(0x50u8);
    v.push(0x4Bu8);
    v.push(0x03u8);
    v.push(0x04u8);
    proof {
        assert(v@ =~= zip_signature());
    }
    v
}

fn sqlite_signature_bytes() -> (v: Vec<u8>)
    ensures
        v@ == sqlite_signature(),
{
    let mut v: Vec<u8> = Vec::new();
    v.push(0x53u8);
    v.push(0x51u8);
    v.push(0x4Cu8);
    v.push(0x69u8);
    v.push(0x74u8);
    v.push(0x65u8);
    v.push(0x20u8);
    v.push(0x66u8);
    v.push(0x6Fu8);
    v.push(0x72u8);
    v.push(0x6Du8);
    v.push(0x61u8);
    v.push(0x74u8);
    v.push(0x20u8);
    v.push(0x33u8);
    v.push(0x00u8);
    proof {
        assert(v@ =~= sqlite_signature());
    }
    v
}

fn shapefile_signature_bytes() -> (v: Vec<u8>)
    ensures
        v@ == shapefile_signature(),
{
    let mut v: Vec<u8> = Vec::new();
    v.push(0x00u8);
    v.push(0x00u8);
    v.push(0x27u8);
    v.push(0x0Au8);
    proof {
        assert(v@ =~= shapefile_signature());
    }
    v
}

fn parquet_signature_bytes() -> (v: Vec<u8>)
    ensures
        v@ == parquet_signature(),
{
    let mut v: Vec<u8> = Vec::new();
    v.push(0x50u8);
    v.push(0x41u8);
    v.push(0x52u8);
    v.push(0x31u8);
    proof {
        assert(v@ =~= parquet_signature());
    }
    v
}

fn type_key_marker_bytes() -> (v: Vec<u8>)
    ensures
        v@ == type_key_marker(),
{
    let mut v: Vec<u8> = Vec::new();
    v.push(0x22u8);
    v.push(0x74u8);
    v.push(0x79u8);
    v.push(0x70u8);
    v.push(0x65u8);
    v.push(0x22u8);
    v.push(0x3Au8);
    proof {
        assert(v@ =~= type_key_marker());
    }
    v
}

fn feature_collection_marker_bytes() -> (v: Vec<u8>)
    ensures
        v@ == feature_collection_marker(),
{
    let mut v: Vec<u8> = Vec::new();
    v.push(0x22u8);
    v.push(0x46u8);
    v.push(0x65u8);
    v.push(0x61u8);
    v.push(0x74u8);
    v.push(0x75u8);
    v.push(0x72u8);
    v.push(0x65u8);
    v.push(0x43u8);
    v.push(0x6Fu8);
    v.push(0x6Cu8);
    v.push(0x6Cu8);
    v.push(0x65u8);
    v.push(0x63u8);
    v.push(0x74u8);
    v.push(0x69u8);
    v.push(0x6Fu8);
    v.push(0x6Eu8);
    v.push(0x22u8);
    proof {
        assert(v@ =~= feature_collection_marker());
    }
    v
}

fn feature_marker_bytes() -> (v: Vec<u8>)
    ensures
        v@ == feature_marker(),
{
    let mut v: Vec<u8> = Vec::new();
    v.push(0x22u8);
    v.push(0x46u8);
    v.push(0x65u8);
    v.push(0x61u8);
    v.push(0x74u8);
    v.push(0x75u8);
    v.push(0x72u8);
    v.push(0x65u8);
    v.push(0x22u8);
    proof {
        assert(v@ =~= feature_marker());
    }
    v
}

/// Determine the file type of a buffer from its bytes alone. The result is
/// exactly what the `classification` decision chain states, for a buffer of
/// any length, so classification is total and never reads out of bounds.
pub fn determine_file_type(file_content: &[u8]) -> (r: Result<FileType, ClassificationError>)
    ensures
        r == classification(file_content@),
{
    let zip_sig = zip_signature_bytes();
    if scan::starts_with_bytes(file_content, zip_sig.as_slice()) {
        return Ok(FileType::Excel);
    }
    let sqlite_sig = sqlite_signature_bytes();
    if scan::starts_with_bytes(file_content, sqlite_sig.as_slice()) {
        return Ok(FileType::Geopackage);
    }
    let shapefile_sig = shapefile_signature_bytes();
    if scan::starts_with_bytes(file_content, shapefile_sig.as_slice()) {
        return Ok(FileType::Shapefile);
    }
    let parquet_sig = parquet_signature_bytes();
    if scan::starts_with_bytes(file_content, parquet_sig.as_slice()) {
        return Ok(FileType::Parquet);
    }
    if file_content.len() > 0 && file_content[0] == 0x7B {
        if scan::valid_utf8_bytes(file_content) {
            let type_key = type_key_marker_bytes();
            if scan::contains_bytes(file_content, type_key.as_slice()) {
                let collection = feature_collection_marker_bytes();
                if scan::contains_bytes(file_content, collection.as_slice()) {
                    return Ok(FileType::Geojson);
                }
                let feature = feature_marker_bytes();
                if scan::contains_bytes(file_content, feature.as_slice()) {
                    return Ok(FileType::Geojson);
                }
            }
        }
        return Err(ClassificationError::InvalidGeojson);
    }
    if scan::ascii_bytes(file_content) {
        let first_lf = scan::find_byte(file_content, 0, 0x0A);
        proof {
            scan::lemma_find_first(file_content@, 0, 0x0A);
        }
        if file_content.len() - first_lf >= 2 {
            let first_commas = scan::count_commas(file_content, 0, first_lf);
            if first_commas >= 1 {
                let second_lf = scan::find_byte(file_content, first_lf + 1, 0x0A);
                proof {
                    scan::lemma_find_first(file_content@, first_lf + 1, 0x0A);
                }
                let second_commas = scan::count_commas(file_content, first_lf + 1, second_lf);
                if second_commas == first_commas {
                    return Ok(FileType::Csv);
                }
            }
        }
    }
    Err(ClassificationError::UnknownFormat)
}

} // verus!
