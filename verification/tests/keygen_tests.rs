use zkbpf::KeygenConfig;

#[test]
fn test_keygen_config_default() {
    let config = KeygenConfig::default();
    assert_eq!(config.k, 17);
    assert_eq!(config.lookup_bits, 8);
}

#[test]
fn test_keygen_config_paths() {
    let config = KeygenConfig::new(10, "/tmp/test_keys", 8);

    assert_eq!(config.params_path(), String::from("/tmp/test_keys/params_k10.bin"));
    assert_eq!(config.vk_path(), String::from("/tmp/test_keys/counter_vk_k10.bin"));
    assert_eq!(config.pk_path(), String::from("/tmp/test_keys/counter_pk_k10.bin"));
}

#[test]
fn test_keygen_config_default_paths() {
    let config = KeygenConfig::default();
    assert_eq!(config.params_path(), String::from(".cache/keys/params_k17.bin"));
}

#[test]
fn test_keygen_config_multidigit_k() {
    let config = KeygenConfig::new(20731, "keys", 12);
    assert_eq!(config.pk_path(), String::from("keys/counter_pk_k20731.bin"));
    assert_eq!(config.k, 20731);
    assert_eq!(config.cache_dir, String::from("keys"));
}
