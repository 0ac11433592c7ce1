use whispernet::storage::init_batch;

#[test]
fn batch_keys_then_creates_tables() {
    let batch = init_batch("secure_passphrase");
    assert!(batch.contains("PRAGMA key = 'secure_passphrase';"));
    let key_at = batch.find("PRAGMA key").unwrap();
    let table_at = batch.find("CREATE TABLE IF NOT EXISTS handshakes").unwrap();
    assert!(key_at < table_at);
    assert!(batch.contains("CREATE TABLE IF NOT EXISTS local_config"));
}
