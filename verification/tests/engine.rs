use php_sapi::engine::zval;
use php_sapi::is_embed_available;

#[test]
fn test_zval_size() {
    // The engine's value cell is at least 16 bytes.
    assert!(std::mem::size_of::<zval>() >= 16);
}

#[test]
fn test_embed_available() {
    // The library itself never links the engine.
    let available = is_embed_available();
    assert!(!available);
}
