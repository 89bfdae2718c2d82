use primus::config::{config_from_fields, decode_boot_config, parse_boot_config};
use primus::{BootConfig, ConfigError, FileSystemType};

const GUID_TEXT: &str = "E9B2B8A4-1234-4C5D-9E8F-0123456789AB";

#[test]
fn descriptor_parses_to_boot_config() {
    let text = r#"{"guid":"E9B2B8A4-1234-4C5D-9E8F-0123456789AB","fs":"FAT","kernel":"\\kernel.elf"}"#;
    let cfg = parse_boot_config(text).unwrap();
    assert_eq!(cfg.kernel(), "\\kernel.elf");
    assert_eq!(*cfg.fs(), FileSystemType::FAT);
    assert_eq!(cfg.guid, GUID_TEXT);
    assert_eq!(
        cfg.guid().bytes,
        [
            0xA4, 0xB8, 0xB2, 0xE9, 0x34, 0x12, 0x5D, 0x4C, 0x9E, 0x8F, 0x01, 0x23, 0x45, 0x67,
            0x89, 0xAB
        ]
    );
}

#[test]
fn malformed_descriptor_is_decode_error() {
    assert_eq!(parse_boot_config("{\"guid\": "), Err(ConfigError::Decode));
    assert_eq!(parse_boot_config("not json"), Err(ConfigError::Decode));
    assert_eq!(parse_boot_config(""), Err(ConfigError::Decode));
}

#[test]
fn unknown_file_system_is_schema_error() {
    let text = r#"{"guid":"E9B2B8A4-1234-4C5D-9E8F-0123456789AB","fs":"NTFS","kernel":"\\kernel.elf"}"#;
    assert_eq!(parse_boot_config(text), Err(ConfigError::Schema));
}

#[test]
fn missing_field_is_schema_error() {
    let text = r#"{"guid":"E9B2B8A4-1234-4C5D-9E8F-0123456789AB","fs":"FAT"}"#;
    assert_eq!(parse_boot_config(text), Err(ConfigError::Schema));
    assert_eq!(parse_boot_config("[1, 2]"), Err(ConfigError::Schema));
}

#[test]
fn non_string_field_is_schema_error() {
    let text = r#"{"guid":5,"fs":"FAT","kernel":"\\kernel.elf"}"#;
    assert_eq!(parse_boot_config(text), Err(ConfigError::Schema));
}

#[test]
fn bad_guid_is_schema_error() {
    let text = r#"{"guid":"E9B2B8A4-1234","fs":"FAT","kernel":"\\kernel.elf"}"#;
    assert_eq!(parse_boot_config(text), Err(ConfigError::Schema));
}

#[test]
fn empty_kernel_path_is_schema_error() {
    let text = r#"{"guid":"E9B2B8A4-1234-4C5D-9E8F-0123456789AB","fs":"FAT","kernel":""}"#;
    assert_eq!(parse_boot_config(text), Err(ConfigError::Schema));
}

#[test]
fn extra_fields_are_ignored() {
    let text = r#"{"guid":"E9B2B8A4-1234-4C5D-9E8F-0123456789AB","fs":"FAT","kernel":"k","x":1}"#;
    assert_eq!(parse_boot_config(text).unwrap().kernel, "k");
}

#[test]
fn bytes_are_decoded_lossily() {
    let mut bytes = br#"{"guid":"E9B2B8A4-1234-4C5D-9E8F-0123456789AB","fs":"FAT","kernel":"k"#.to_vec();
    bytes.push(0xFF);
    bytes.extend_from_slice(br#""}"#);
    let cfg = decode_boot_config(&bytes).unwrap();
    assert_eq!(cfg.kernel, "k\u{FFFD}");
    assert_eq!(decode_boot_config(&[0xFF, 0xFE]), Err(ConfigError::Decode));
}

#[test]
fn fields_build_config() {
    let cfg = config_from_fields(
        Some(GUID_TEXT.to_string()),
        Some("FAT".to_string()),
        Some("\\efi\\kernel".to_string()),
    );
    assert_eq!(
        cfg,
        Ok(BootConfig {
            guid: GUID_TEXT.to_string(),
            fs: FileSystemType::FAT,
            kernel: "\\efi\\kernel".to_string()
        })
    );
    assert_eq!(
        config_from_fields(None, Some("FAT".to_string()), Some("k".to_string())),
        Err(ConfigError::Schema)
    );
    assert_eq!(
        config_from_fields(
            Some(GUID_TEXT.to_string()),
            Some("fat".to_string()),
            Some("k".to_string())
        ),
        Err(ConfigError::Schema)
    );
}
