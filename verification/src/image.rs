//! The single-architecture dependency view of a native image, and the adapter
//! that obtains it from raw object-file bytes. Low-level object-file decoding
//! is an outside capability; everything decided about its results is verified
//! here.

use vstd::prelude::*;

verus! {

/// The platform a binary was built for, read from its build-version metadata.
#[derive(Clone, Copy, Debug, PartialEq, Eq, Structural)]
pub enum Platform {
    MacOs,
    /// A physical iOS device.
    Ios,
    IosSimulator,
    TvOsSimulator,
    WatchOsSimulator,
    /// A build-version platform identifier this library does not handle.
    Other(u32),
    /// No build-version metadata was present at all.
    Unknown,
}

/// A non-native object format that was recognised but cannot be walked.
#[derive(Clone, Copy, Debug, PartialEq, Eq, Structural)]
pub enum FormatKind {
    /// A static archive.
    Archive,
    /// An ELF binary.
    Elf,
    /// A PE binary.
    Pe,
    /// Another recognised object format with no dependency metadata to walk.
    Other,
    /// An unrecognised magic number.
    Unrecognised(u64),
}

/// Why raw bytes could not be turned into a [`NativeImage`]. All of these are
/// fatal for the invocation that hit them; there is no fallback decoder.
#[derive(Clone, Copy, Debug, PartialEq, Eq, Structural)]
pub enum DecodeError {
    /// The bytes hold a recognised but unsupported object format.
    UnsupportedFormat(FormatKind),
    /// A multi-architecture container that lists no architecture at all.
    NoArchitecture,
    /// A native object whose structure could not be decoded.
    MalformedImage,
}

/// The architecture-specific parsed view of one image: its dependency
/// references and run-path entries in declared order, and its platform tag.
/// Immutable; scoped to one traversal step.
#[derive(Clone, Debug)]
pub struct NativeImage {
    /// Dependency references, in declared order; may repeat. The decoder
    /// reserves the leading `self` marker for the image's own identity entry.
    pub libs: Vec<String>,
    /// Run-path search entries, in declared order.
    pub rpaths: Vec<String>,
    /// The platform the image was built for.
    pub platform: Platform,
}

/// How the leading bytes of a file classify before any slice is decoded.
#[derive(Clone, Copy, Debug, PartialEq, Eq, Structural)]
pub enum ObjectClass {
    /// A single-architecture native object.
    Thin,
    /// A multi-architecture container; the offset of its first slice.
    Fat(usize),
    /// A multi-architecture container that lists no architectures.
    FatEmpty,
    Archive,
    Elf,
    Pe,
    /// Another recognised format.
    OtherFormat,
    /// Unrecognised magic.
    UnknownMagic(u64),
    /// The bytes could not be decoded at all.
    Malformed,
}

/// The pieces read out of one decoded slice, as plain values.
pub(crate) struct MachParts {
    pub(crate) libs: Vec<String>,
    pub(crate) rpaths: Vec<String>,
    pub(crate) platform_tag: Option<u32>,
}

/// The ghost value of one decoded slice: its dependency names and run-path
/// entries in declared order, and its raw platform identifier.
pub struct MachPartsV {
    pub libs: Seq<Seq<char>>,
    pub rpaths: Seq<Seq<char>>,
    pub platform_tag: Option<u32>,
}

/// Names how goblin's object parse classifies the bytes. The classification
/// is a function of the bytes alone, which is all this name claims; what each
/// classification is owed is stated by [`spec_decode_outcome`].
pub uninterp spec fn spec_classify(b: Seq<u8>) -> ObjectClass;

/// Names what goblin's slice parse reads out of the bytes at an offset: the
/// slice's declared parts, or nothing when no slice decodes there. The result
/// is a function of the bytes and the offset alone.
pub uninterp spec fn spec_parse_slice(b: Seq<u8>, offset: nat) -> Option<MachPartsV>;

/// Relies on goblin::Object::parse: recognises the object format of the
/// leading bytes, and for a multi-architecture container reads the offset of
/// the first architecture slice from its header table.
#[verifier::external_body]
fn classify_object(buffer: &[u8]) -> (r: ObjectClass)
    ensures
        r == spec_classify(buffer@),
{
    match goblin::Object::parse(buffer) {
        Ok(goblin::Object::Mach(goblin::mach::Mach::Binary(_))) => ObjectClass::Thin,
        Ok(goblin::Object::Mach(goblin::mach::Mach::Fat(fat))) => match fat.iter_arches().next() {
            Some(Ok(arch)) => ObjectClass::Fat(arch.offset as usize),
            Some(Err(_)) => ObjectClass::Malformed,
            None => ObjectClass::FatEmpty,
        },
        Ok(goblin::Object::Archive(_)) => ObjectClass::Archive,
        Ok(goblin::Object::Elf(_)) => ObjectClass::Elf,
        Ok(goblin::Object::PE(_)) => ObjectClass::Pe,
        Ok(goblin::Object::Unknown(magic)) => ObjectClass::UnknownMagic(magic),
        Ok(_) => ObjectClass::OtherFormat,
        Err(_) => ObjectClass::Malformed,
    }
}

/// Relies on goblin::mach::MachO::parse: decodes the slice at `offset`, whose
/// `libs` field lists the image's dependency names in declared order behind a
/// leading `self` marker, whose `rpaths` field lists its run-path entries in
/// declared order, and whose first build-version load command carries the
/// platform identifier.
#[verifier::external_body]
fn parse_macho_slice(buffer: &[u8], offset: usize) -> (r: Result<MachParts, DecodeError>)
    ensures
        (r is Ok) == (spec_parse_slice(buffer@, offset as nat) is Some),
        r is Ok ==> ({
            let p = spec_parse_slice(buffer@, offset as nat)->Some_0;
            &&& r->Ok_0.libs.deep_view() == p.libs
            &&& r->Ok_0.rpaths.deep_view() == p.rpaths
            &&& r->Ok_0.platform_tag == p.platform_tag
        }),
        r is Err ==> r->Err_0 == DecodeError::MalformedImage,
{
    let m = match goblin::mach::MachO::parse(buffer, offset) {
        Ok(m) => m,
        Err(_) => return Err(DecodeError::MalformedImage),
    };
    let platform_tag = m.load_commands.iter().find_map(|lc| match &lc.command {
        goblin::mach::load_command::CommandVariant::BuildVersion(v) => Some(v.platform),
        _ => None,
    });
    Ok(MachParts {
        libs: m.libs.iter().map(|s| s.to_string()).collect(),
        rpaths: m.rpaths.iter().map(|s| s.to_string()).collect(),
        platform_tag,
    })
}

/// What the walker does with a classified object: decode the slice at an
/// offset, or fail with the error owed to that format.
#[derive(Clone, Copy, Debug, PartialEq, Eq, Structural)]
pub enum DecodeOutcome {
    ParseAt(usize),
    Fail(DecodeError),
}

/// The outcome owed to each object classification: both multi-architecture
/// and thin native objects are decoded (a container at its first slice — its
/// dependency list is assumed consistent across slices, a documented
/// limitation); every other format fails with its own diagnostic.
pub open spec fn spec_decode_outcome(class: ObjectClass) -> DecodeOutcome {
    match class {
        ObjectClass::Thin => DecodeOutcome::ParseAt(0),
        ObjectClass::Fat(off) => DecodeOutcome::ParseAt(off),
        ObjectClass::FatEmpty => DecodeOutcome::Fail(DecodeError::NoArchitecture),
        ObjectClass::Archive => DecodeOutcome::Fail(
            DecodeError::UnsupportedFormat(FormatKind::Archive),
        ),
        ObjectClass::Elf => DecodeOutcome::Fail(DecodeError::UnsupportedFormat(FormatKind::Elf)),
        ObjectClass::Pe => DecodeOutcome::Fail(DecodeError::UnsupportedFormat(FormatKind::Pe)),
        ObjectClass::OtherFormat => DecodeOutcome::Fail(
            DecodeError::UnsupportedFormat(FormatKind::Other),
        ),
        ObjectClass::UnknownMagic(m) => DecodeOutcome::Fail(
            DecodeError::UnsupportedFormat(FormatKind::Unrecognised(m)),
        ),
        ObjectClass::Malformed => DecodeOutcome::Fail(DecodeError::MalformedImage),
    }
}

/// Decides, from a classification alone, whether decoding proceeds and at
/// which offset, or which error the format is owed.
pub fn decode_outcome(class: &ObjectClass) -> (r: DecodeOutcome)
    ensures
        r == spec_decode_outcome(*class),
{
    match class {
        ObjectClass::Thin => DecodeOutcome::ParseAt(0),
        ObjectClass::Fat(off) => DecodeOutcome::ParseAt(*off),
        ObjectClass::FatEmpty => DecodeOutcome::Fail(DecodeError::NoArchitecture),
        ObjectClass::Archive => DecodeOutcome::Fail(
            DecodeError::UnsupportedFormat(FormatKind::Archive),
        ),
        ObjectClass::Elf => DecodeOutcome::Fail(DecodeError::UnsupportedFormat(FormatKind::Elf)),
        ObjectClass::Pe => DecodeOutcome::Fail(DecodeError::UnsupportedFormat(FormatKind::Pe)),
        ObjectClass::OtherFormat => DecodeOutcome::Fail(
            DecodeError::UnsupportedFormat(FormatKind::Other),
        ),
        ObjectClass::UnknownMagic(m) => DecodeOutcome::Fail(
            DecodeError::UnsupportedFormat(FormatKind::Unrecognised(*m)),
        ),
        ObjectClass::Malformed => DecodeOutcome::Fail(DecodeError::MalformedImage),
    }
}

/// The platform that each Mach-O build-version identifier stands for:
/// 1 is macOS, 2 is iOS, 7, 8 and 9 are the iOS, tvOS and watchOS simulators;
/// a missing tag has no platform at all.
pub open spec fn spec_platform_from_tag(tag: Option<u32>) -> Platform {
    match tag {
        Option::None => Platform::Unknown,
        Option::Some(t) => if t == 1 {
            Platform::MacOs
        } else if t == 2 {
            Platform::Ios
        } else if t == 7 {
            Platform::IosSimulator
        } else if t == 8 {
            Platform::TvOsSimulator
        } else if t == 9 {
            Platform::WatchOsSimulator
        } else {
            Platform::Other(t)
        },
    }
}

/// Maps a raw build-version platform identifier to the library's platform.
pub fn platform_from_tag(tag: Option<u32>) -> (r: Platform)
    ensures
        r == spec_platform_from_tag(tag),
{
    match tag {
        Option::None => Platform::Unknown,
        Option::Some(t) => {
            if t == 1 {
                Platform::MacOs
            } else if t == 2 {
                Platform::Ios
            } else if t == 7 {
                Platform::IosSimulator
            } else if t == 8 {
                Platform::TvOsSimulator
            } else if t == 9 {
                Platform::WatchOsSimulator
            } else {
                Platform::Other(t)
            }
        },
    }
}

/// Decodes raw object-file bytes into the dependency view of their first
/// architecture slice. A format that cannot be walked fails with the error
/// [`spec_decode_outcome`] owes it; otherwise the slice named by the
/// classification is decoded, and a successful result carries exactly the
/// dependency names, run-path entries and platform that the slice declares.
/// The decoding itself is an outside capability, and may abort on an
/// adversarially crafted segment table: a caller facing untrusted files
/// contains that at the process boundary.
pub fn load_binary(buffer: &[u8]) -> (r: Result<NativeImage, DecodeError>)
    ensures
        ({
            match spec_decode_outcome(spec_classify(buffer@)) {
                DecodeOutcome::Fail(e) => r is Err && r->Err_0 == e,
                DecodeOutcome::ParseAt(off) => match spec_parse_slice(buffer@, off as nat) {
                    Option::None => r is Err && r->Err_0 == DecodeError::MalformedImage,
                    Option::Some(p) => r is Ok && r->Ok_0.libs.deep_view() == p.libs
                        && r->Ok_0.rpaths.deep_view() == p.rpaths && r->Ok_0.platform
                        == spec_platform_from_tag(p.platform_tag),
                },
            }
        }),
{
    let class = classify_object(buffer);
    match decode_outcome(&class) {
        DecodeOutcome::Fail(e) => Err(e),
        DecodeOutcome::ParseAt(off) => match parse_macho_slice(buffer, off) {
            Err(e) => Err(e),
            Ok(parts) => Ok(
                NativeImage {
                    libs: parts.libs,
                    rpaths: parts.rpaths,
                    platform: platform_from_tag(parts.platform_tag),
                },
            ),
        },
    }
}

} // verus!
