use cardinal_geocoder::error::AirmailError;

#[test]
fn decoder_error_is_kept_by_its_message() {
    let err = AirmailError::from_parser_error(mvt_reader::error::ParserError::InvalidTags);
    match err {
        AirmailError::Mvt(message) => assert_eq!(message, "Tags section contains errors"),
        _ => panic!("wrong variant"),
    }
    let err = AirmailError::from_parser_error(mvt_reader::error::ParserError::InvalidGeometry);
    match err {
        AirmailError::Mvt(message) => assert_eq!(message, "Geometry section contains errors"),
        _ => panic!("wrong variant"),
    }
}

#[test]
fn directory_error_becomes_an_io_error_with_its_message() {
    let path = std::path::PathBuf::from("/no/such/index");
    let source = tantivy::directory::error::OpenDirectoryError::DoesNotExist(path);
    let expected = source.to_string();
    match AirmailError::from_open_directory_error(source) {
        AirmailError::Io(err) => {
            assert_eq!(err.kind(), std::io::ErrorKind::Other);
            assert_eq!(err.to_string(), expected);
            assert!(!expected.is_empty());
        }
        _ => panic!("wrong variant"),
    }
}

#[test]
fn decoder_message_is_kept_as_it_is() {
    match AirmailError::from_decoder_message("Decode error: truncated".to_string()) {
        AirmailError::Mvt(message) => assert_eq!(message, "Decode error: truncated"),
        _ => panic!("wrong variant"),
    }
    match AirmailError::from_decoder_message(String::new()) {
        AirmailError::Mvt(message) => assert_eq!(message, ""),
        _ => panic!("wrong variant"),
    }
}

#[test]
fn directory_message_becomes_an_other_io_error() {
    match AirmailError::from_directory_message("no such directory".to_string()) {
        AirmailError::Io(err) => {
            assert_eq!(err.kind(), std::io::ErrorKind::Other);
            assert_eq!(err.to_string(), "no such directory");
        }
        _ => panic!("wrong variant"),
    }
}

#[test]
fn message_of_each_kind_of_error() {
    assert_eq!(
        AirmailError::InvalidIngestionState.message(),
        "Please call begin_ingestion to initialize the writer transaction prior to ingesting tiles"
    );
    assert_eq!(
        AirmailError::Mvt("Tags section contains errors".to_string()).message(),
        "MVT reader parser error: Tags section contains errors"
    );
    assert_eq!(
        AirmailError::from_parser_error(mvt_reader::error::ParserError::InvalidGeometry).message(),
        "MVT reader parser error: Geometry section contains errors"
    );
    assert_eq!(
        AirmailError::Regex(regex::Error::CompiledTooBig(10)).message(),
        "Regex error: Compiled regex exceeds size limit of 10 bytes."
    );
    assert_eq!(
        AirmailError::Regex(regex::Error::Syntax("unclosed group".to_string())).message(),
        "Regex error: unclosed group"
    );
    assert_eq!(
        AirmailError::Io(std::io::Error::new(std::io::ErrorKind::Other, "disk gone")).message(),
        "IO error: disk gone"
    );
    assert_eq!(
        AirmailError::QueryParser(tantivy::query::QueryParserError::SyntaxError(
            "a b".to_string()
        ))
        .message(),
        "Query parser error: Syntax Error: a b"
    );
    assert_eq!(
        AirmailError::Tantivy(tantivy::TantivyError::InternalError("lost".to_string())).message(),
        "Tantivy error: Internal error: 'lost'"
    );
}

#[test]
fn message_with_puts_the_detail_after_the_kind() {
    let err = AirmailError::Io(std::io::Error::new(std::io::ErrorKind::Other, "x"));
    assert_eq!(err.message_with("y"), "IO error: y");
    assert_eq!(
        AirmailError::Mvt("m".to_string()).message_with("ignored"),
        "MVT reader parser error: m"
    );
    assert_eq!(
        AirmailError::InvalidIngestionState.message_with("ignored"),
        "Please call begin_ingestion to initialize the writer transaction prior to ingesting tiles"
    );
    assert_eq!(
        AirmailError::Regex(regex::Error::CompiledTooBig(1)).message_with("d"),
        "Regex error: d"
    );
}
