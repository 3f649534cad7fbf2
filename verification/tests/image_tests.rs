use dylibtree::{
    decode_outcome, load_binary, DecodeError, DecodeOutcome, FormatKind, ObjectClass, Platform,
};

fn push_u32(buf: &mut Vec<u8>, v: u32) {
    buf.extend_from_slice(&v.to_le_bytes());
}

// A minimal 64-bit little-endian Mach-O executable: one build-version load
// command for the given platform identifier, one dylib load command naming
// libfoo.dylib, and one run-path entry /opt/lib.
fn macho_bytes(platform: Option<u32>) -> Vec<u8> {
    let mut b: Vec<u8> = Vec::new();
    let ncmds: u32 = if platform.is_some() { 3 } else { 2 };
    let sizeofcmds: u32 = if platform.is_some() { 88 } else { 64 };
    push_u32(&mut b, 0xfeedfacf); // 64-bit magic
    push_u32(&mut b, 0x0100000c); // arm64
    push_u32(&mut b, 0); // cpu subtype
    push_u32(&mut b, 2); // executable
    push_u32(&mut b, ncmds);
    push_u32(&mut b, sizeofcmds);
    push_u32(&mut b, 0); // flags
    push_u32(&mut b, 0); // reserved
    if let Some(p) = platform {
        push_u32(&mut b, 0x32); // build-version command
        push_u32(&mut b, 24);
        push_u32(&mut b, p);
        push_u32(&mut b, 0); // minos
        push_u32(&mut b, 0); // sdk
        push_u32(&mut b, 0); // ntools
    }
    push_u32(&mut b, 0xc); // load-dylib command
    push_u32(&mut b, 40);
    push_u32(&mut b, 24); // name offset
    push_u32(&mut b, 0); // timestamp
    push_u32(&mut b, 0); // current version
    push_u32(&mut b, 0); // compatibility version
    b.extend_from_slice(b"libfoo.dylib\0\0\0\0");
    push_u32(&mut b, 0x8000001c); // rpath command
    push_u32(&mut b, 24);
    push_u32(&mut b, 12); // path offset
    b.extend_from_slice(b"/opt/lib\0\0\0\0");
    b
}

#[test]
fn decodes_dependencies_rpaths_and_platform() {
    let bytes = macho_bytes(Some(1));
    let image = load_binary(&bytes).unwrap_or_else(|_| panic!("a well-formed image decodes"));
    assert_eq!(image.libs, vec!["self".to_string(), "libfoo.dylib".to_string()]);
    assert_eq!(image.rpaths, vec!["/opt/lib".to_string()]);
    assert_eq!(image.platform, Platform::MacOs);
}

#[test]
fn simulator_platform_tag_is_read() {
    let bytes = macho_bytes(Some(7));
    let image = load_binary(&bytes).unwrap_or_else(|_| panic!("a well-formed image decodes"));
    assert_eq!(image.platform, Platform::IosSimulator);
}

#[test]
fn missing_build_version_reads_as_unknown_platform() {
    let bytes = macho_bytes(None);
    let image = load_binary(&bytes).unwrap_or_else(|_| panic!("a well-formed image decodes"));
    assert_eq!(image.platform, Platform::Unknown);
    assert_eq!(image.libs, vec!["self".to_string(), "libfoo.dylib".to_string()]);
}

#[test]
fn each_classification_is_owed_its_outcome() {
    assert_eq!(decode_outcome(&ObjectClass::Thin), DecodeOutcome::ParseAt(0));
    assert_eq!(decode_outcome(&ObjectClass::Fat(4096)), DecodeOutcome::ParseAt(4096));
    assert_eq!(
        decode_outcome(&ObjectClass::FatEmpty),
        DecodeOutcome::Fail(DecodeError::NoArchitecture),
    );
    assert_eq!(
        decode_outcome(&ObjectClass::Archive),
        DecodeOutcome::Fail(DecodeError::UnsupportedFormat(FormatKind::Archive)),
    );
    assert_eq!(
        decode_outcome(&ObjectClass::Elf),
        DecodeOutcome::Fail(DecodeError::UnsupportedFormat(FormatKind::Elf)),
    );
    assert_eq!(
        decode_outcome(&ObjectClass::Pe),
        DecodeOutcome::Fail(DecodeError::UnsupportedFormat(FormatKind::Pe)),
    );
    assert_eq!(
        decode_outcome(&ObjectClass::OtherFormat),
        DecodeOutcome::Fail(DecodeError::UnsupportedFormat(FormatKind::Other)),
    );
    assert_eq!(
        decode_outcome(&ObjectClass::UnknownMagic(0xCAFE)),
        DecodeOutcome::Fail(DecodeError::UnsupportedFormat(FormatKind::Unrecognised(0xCAFE))),
    );
    assert_eq!(
        decode_outcome(&ObjectClass::Malformed),
        DecodeOutcome::Fail(DecodeError::MalformedImage),
    );
}

#[test]
fn unrecognised_magic_is_an_unsupported_format() {
    let bytes = vec![0x42u8; 32];
    match load_binary(&bytes) {
        Err(DecodeError::UnsupportedFormat(FormatKind::Unrecognised(_))) => {},
        _ => panic!("an unknown magic must fail with its format kind"),
    }
}

#[test]
fn empty_fat_container_has_no_architecture() {
    // A multi-architecture container header (big-endian magic) listing zero
    // architecture slices.
    let mut bytes = vec![0xca, 0xfe, 0xba, 0xbe, 0, 0, 0, 0];
    bytes.resize(16, 0);
    match load_binary(&bytes) {
        Err(DecodeError::NoArchitecture) => {},
        _ => panic!("an empty container must fail with the architecture error"),
    }
}

#[test]
fn tiny_buffer_is_malformed() {
    let bytes = vec![0u8; 4];
    match load_binary(&bytes) {
        Err(DecodeError::MalformedImage) => {},
        _ => panic!("a truncated buffer must fail as malformed"),
    }
}

#[test]
fn truncated_macho_is_malformed() {
    let mut bytes = macho_bytes(Some(1));
    bytes.truncate(40);
    match load_binary(&bytes) {
        Err(DecodeError::MalformedImage) => {},
        _ => panic!("a truncated Mach-O must fail as malformed"),
    }
}
