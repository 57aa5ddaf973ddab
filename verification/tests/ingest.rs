use cardinal_geocoder::error::AirmailError;
use cardinal_geocoder::ingest::IngestionGate;
use cardinal_geocoder::schema::SchemafiedPoi;

fn item(cell: u64) -> SchemafiedPoi {
    SchemafiedPoi {
        content: vec![format!("={}", cell)],
        s2cell: cell,
        s2cell_parents: Vec::new(),
        tags: Vec::new(),
    }
}

#[test]
fn submit_before_begin_fails_and_changes_nothing() {
    let mut writer = IngestionGate::new();
    assert!(!writer.is_active());
    assert!(matches!(writer.submit(item(1)), Err(AirmailError::InvalidIngestionState)));
    assert!(!writer.is_active());
    writer.begin_ingestion();
    assert!(writer.commit().is_empty());
}

#[test]
fn submissions_come_out_in_order_on_commit() {
    let mut writer = IngestionGate::new();
    writer.begin_ingestion();
    assert!(writer.is_active());
    assert!(writer.submit(item(1)).is_ok());
    assert!(writer.submit(item(2)).is_ok());
    writer.begin_ingestion();
    assert!(writer.submit(item(3)).is_ok());
    let batch = writer.commit();
    let cells: Vec<u64> = batch.iter().map(|p| p.s2cell).collect();
    assert_eq!(cells, vec![1, 2, 3]);
    assert!(!writer.is_active());
    assert!(matches!(writer.submit(item(4)), Err(AirmailError::InvalidIngestionState)));
}

#[test]
fn abort_drops_what_was_submitted() {
    let mut writer = IngestionGate::new();
    writer.begin_ingestion();
    assert!(writer.submit(item(1)).is_ok());
    writer.abort();
    assert!(!writer.is_active());
    writer.begin_ingestion();
    assert!(writer.commit().is_empty());
}
