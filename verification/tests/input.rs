use tsv_grep::error::Error;
use tsv_grep::input::{check_extension, require_tsv};

#[test]
fn tsv_path_is_accepted() {
    assert_eq!(check_extension("data.tsv"), Ok(()));
    assert_eq!(check_extension("dir/sub/data.tsv"), Ok(()));
    assert_eq!(check_extension("archive.tar.tsv"), Ok(()));
}

#[test]
fn other_extension_is_not_tsv() {
    assert_eq!(check_extension("data.csv"), Err(Error::NotTsv));
    assert_eq!(check_extension("data.tsv.gz"), Err(Error::NotTsv));
    assert_eq!(check_extension("data.tsvx"), Err(Error::NotTsv));
    assert_eq!(check_extension("data.ts"), Err(Error::NotTsv));
}

#[test]
fn extension_is_case_sensitive() {
    assert_eq!(check_extension("data.TSV"), Err(Error::NotTsv));
    assert_eq!(check_extension("data.Tsv"), Err(Error::NotTsv));
}

#[test]
fn missing_extension_is_not_tsv() {
    assert_eq!(check_extension("data"), Err(Error::NotTsv));
    assert_eq!(check_extension(""), Err(Error::NotTsv));
    assert_eq!(check_extension("data."), Err(Error::NotTsv));
    assert_eq!(check_extension("dir.tsv/data"), Err(Error::NotTsv));
}

#[test]
fn bare_name_tsv_has_no_extension() {
    assert_eq!(check_extension("tsv"), Err(Error::NotTsv));
    assert_eq!(check_extension(".tsv"), Err(Error::NotTsv));
}

#[test]
fn require_tsv_decides_on_the_extension_alone() {
    assert_eq!(require_tsv(Some("tsv")), Ok(()));
    assert_eq!(require_tsv(Some("TSV")), Err(Error::NotTsv));
    assert_eq!(require_tsv(Some("")), Err(Error::NotTsv));
    assert_eq!(require_tsv(Some("tsv ")), Err(Error::NotTsv));
    assert_eq!(require_tsv(Some("ts")), Err(Error::NotTsv));
    assert_eq!(require_tsv(None), Err(Error::NotTsv));
}

#[test]
fn error_messages() {
    assert_eq!(Error::NoMatches.message(), "No matches using the provided pattern");
    assert_eq!(Error::NotTsv.message(), "Provided file does not have the tsv extension");
}
