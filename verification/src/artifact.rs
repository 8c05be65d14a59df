//! What the optimizer hands over: finding it by kind, and holding a file to the
//! digest it was announced with.

use sha2::{Digest, Sha256};
use vstd::prelude::*;
use vstd::string::StringExecFns;
use vstd::string::StrSliceExecFns;

use crate::protocol::{ArtifactDescriptor, ResourceAccess, ResourceDescriptor};
use crate::text::{concat, concat3, decimal, decimal_text, same_text};

verus! {

/// What the optimizer hands over is found by its kind.
pub trait Kinded {
    /// The kind of an item.
    spec fn kind_text(&self) -> Seq<char>;

    /// Tells the kind of an item.
    fn kind(&self) -> (kind: &str)
        ensures
            kind@ == self.kind_text(),
    ;
}

impl Kinded for ArtifactDescriptor {
    open spec fn kind_text(&self) -> Seq<char> {
        self.kind@
    }

    fn kind(&self) -> (kind: &str) {
        self.kind.as_str()
    }
}

impl Kinded for ResourceDescriptor {
    open spec fn kind_text(&self) -> Seq<char> {
        self.kind@
    }

    fn kind(&self) -> (kind: &str) {
        self.kind.as_str()
    }
}

/// The items of a kind, in their order.
pub open spec fn of_kind<T: Kinded>(items: Seq<T>, kind: Seq<char>) -> Seq<T> {
    items.filter(|item: T| item.kind_text() == kind)
}

/// Finds the items of a kind.
fn matching<'a, T: Kinded>(items: &'a [T], kind: &str) -> (found: Vec<&'a T>)
    ensures
        found@.len() == of_kind(items@, kind@).len(),
        forall|j: int|
            0 <= j < found@.len() ==> *(#[trigger] found@[j]) == of_kind(items@, kind@)[j],
        forall|j: int| 0 <= j < found@.len() ==> (#[trigger] found@[j]).kind_text() == kind@,
{
    let ghost has_kind = |item: T| item.kind_text() == kind@;
    let mut found: Vec<&'a T> = Vec::new();
    let mut i: usize = 0;
    assert(items@.take(0).filter(has_kind) =~= Seq::empty()) by {
        reveal(Seq::filter);
    }
    while i < items.len()
        invariant
            i <= items@.len(),
            has_kind == (|item: T| item.kind_text() == kind@),
            found@.len() == items@.take(i as int).filter(has_kind).len(),
            forall|j: int|
                0 <= j < found@.len() ==> *(#[trigger] found@[j]) == items@.take(
                    i as int,
                ).filter(has_kind)[j],
            forall|j: int| 0 <= j < found@.len() ==> (#[trigger] found@[j]).kind_text() == kind@,
        decreases items@.len() - i,
    {
        let ghost before = items@.take(i as int);
        assert(items@.take(i + 1) =~= before.push(items@[i as int]));
        proof {
            reveal(Seq::filter);
            assert(before.push(items@[i as int]).drop_last() =~= before);
        }
        if same_text(items[i].kind(), kind) {
            found.push(&items[i]);
        }
        i = i + 1;
    }
    assert(items@.take(i as int) =~= items@);
    assert(of_kind(items@, kind@) == items@.filter(has_kind));
    found
}

/// Why a list without exactly one artifact of a kind is refused.
pub open spec fn artifact_refusal(
    artifacts: Seq<ArtifactDescriptor>,
    kind: Seq<char>,
) -> Option<Seq<char>> {
    let matching = of_kind(artifacts, kind);
    if matching.len() == 0 {
        Some("missing required "@ + kind + " artifact"@)
    } else if matching.len() > 1 {
        Some("multiple "@ + kind + " artifacts are not allowed"@)
    } else {
        None
    }
}

/// Why a list without exactly one resource of a kind, or with one that grants
/// more than reading, is refused.
pub open spec fn resource_refusal(
    resources: Seq<ResourceDescriptor>,
    kind: Seq<char>,
) -> Option<Seq<char>> {
    let matching = of_kind(resources, kind);
    if matching.len() == 0 {
        Some("missing required "@ + kind + " resource"@)
    } else if matching.len() > 1 {
        Some("multiple "@ + kind + " resources are not allowed"@)
    } else if matching[0].access != ResourceAccess::ReadOnly {
        Some(kind + " resource must be read_only"@)
    } else {
        None
    }
}

/// The one artifact of a kind.
pub fn required_artifact<'a>(artifacts: &'a [ArtifactDescriptor], kind: &str) -> (required: Result<
    &'a ArtifactDescriptor,
    String,
>)
    ensures
        match required {
            Ok(artifact) => {
                &&& artifact_refusal(artifacts@, kind@) is None
                &&& of_kind(artifacts@, kind@) == seq![*artifact]
            },
            Err(message) => artifact_refusal(artifacts@, kind@) == Some(message@),
        },
{
    let found = matching(artifacts, kind);
    if found.len() == 1 {
        assert(of_kind(artifacts@, kind@) =~= seq![*found@[0]]);
        Ok(found[0])
    } else if found.len() == 0 {
        Err(concat3("missing required ", kind, " artifact"))
    } else {
        Err(concat3("multiple ", kind, " artifacts are not allowed"))
    }
}

/// The one resource of a kind, which must be read-only.
pub fn required_read_only_resource<'a>(
    resources: &'a [ResourceDescriptor],
    kind: &str,
) -> (required: Result<&'a ResourceDescriptor, String>)
    ensures
        match required {
            Ok(resource) => {
                &&& resource_refusal(resources@, kind@) is None
                &&& of_kind(resources@, kind@) == seq![*resource]
            },
            Err(message) => resource_refusal(resources@, kind@) == Some(message@),
        },
{
    let found = matching(resources, kind);
    if found.len() == 1 {
        let resource = found[0];
        assert(of_kind(resources@, kind@) =~= seq![*resource]);
        if resource.access == ResourceAccess::ReadOnly {
            Ok(resource)
        } else {
            Err(concat(resource.kind.as_str(), " resource must be read_only"))
        }
    } else if found.len() == 0 {
        Err(concat3("missing required ", kind, " resource"))
    } else {
        Err(concat3("multiple ", kind, " resources are not allowed"))
    }
}

/// The SHA-256 digest of a byte sequence.
pub uninterp spec fn sha256(data: Seq<u8>) -> Seq<u8>;

/// What SHA-256 is defined on: fewer than two to the 64th bits.
pub open spec fn hashable(data: Seq<u8>) -> bool {
    data.len() < 0x2000_0000_0000_0000
}

/// `sha2::Sha256::digest`: the SHA-256 digest of `data`, which the bytes alone
/// decide and which is 32 bytes long. Longer input would overflow its bit count.
#[verifier::external_body]
fn sha256_digest(data: &[u8]) -> (digest: Vec<u8>)
    requires
        hashable(data@),
    ensures
        digest@ == sha256(data@),
        digest@.len() == 32,
{
    Sha256::digest(data).to_vec()
}

/// The hexadecimal digit of a number below sixteen.
pub open spec fn hex_digit(n: u8) -> char {
    if n < 10 {
        ('0' as u8 + n) as char
    } else {
        ('a' as u8 + n - 10) as char
    }
}

/// Bytes written in lower-case hexadecimal.
pub open spec fn hex(bytes: Seq<u8>) -> Seq<char> {
    Seq::new(
        2 * bytes.len(),
        |i: int|
            if i % 2 == 0 {
                hex_digit(bytes[i / 2] / 16)
            } else {
                hex_digit(bytes[i / 2] % 16)
            },
    )
}

fn hex_digit_text(n: u8) -> (text: &'static str)
    requires
        n < 16,
    ensures
        text@ == seq![hex_digit(n)],
{
    proof {
        reveal_strlit("0");
        reveal_strlit("1");
        reveal_strlit("2");
        reveal_strlit("3");
        reveal_strlit("4");
        reveal_strlit("5");
        reveal_strlit("6");
        reveal_strlit("7");
        reveal_strlit("8");
        reveal_strlit("9");
        reveal_strlit("a");
        reveal_strlit("b");
        reveal_strlit("c");
        reveal_strlit("d");
        reveal_strlit("e");
        reveal_strlit("f");
    }
    let text = match n {
        0 => "0",
        1 => "1",
        2 => "2",
        3 => "3",
        4 => "4",
        5 => "5",
        6 => "6",
        7 => "7",
        8 => "8",
        9 => "9",
        10 => "a",
        11 => "b",
        12 => "c",
        13 => "d",
        14 => "e",
        _ => "f",
    };
    assert(text@ =~= seq![hex_digit(n)]);
    text
}

/// Writes bytes in lower-case hexadecimal.
pub fn hex_text(bytes: &[u8]) -> (text: String)
    ensures
        text@ == hex(bytes@),
{
    let mut text = String::new();
    let mut i: usize = 0;
    while i < bytes.len()
        invariant
            i <= bytes@.len(),
            text@ =~= hex(bytes@.take(i as int)),
        decreases bytes@.len() - i,
    {
        text.append(hex_digit_text(bytes[i] / 16));
        text.append(hex_digit_text(bytes[i] % 16));
        i = i + 1;
    }
    assert(bytes@.take(i as int) =~= bytes@);
    text
}

/// Hexadecimal is ASCII.
pub proof fn lemma_hex_ascii(bytes: Seq<u8>)
    ensures
        vstd::utf8::is_ascii_chars(hex(bytes)),
{
    assert forall|i: int| 0 <= i < hex(bytes).len() implies (#[trigger] hex(bytes)[i]) as nat <= 127 by {
        let n = if i % 2 == 0 { bytes[i / 2] / 16 } else { bytes[i / 2] % 16 };
        assert(hex(bytes)[i] == hex_digit(n));
        assert(n < 16);
    }
}

/// Why bytes with the digest `digest` are not those that were announced.
pub open spec fn digest_refusal(artifact: ArtifactDescriptor, digest: Seq<u8>) -> Option<
    Seq<char>,
> {
    if hex(digest) == artifact.sha256@ {
        None
    } else {
        Some(artifact.kind@ + " artifact SHA-256 mismatch"@)
    }
}

/// Accepts bytes whose digest is the announced one.
pub fn accept_digest(artifact: &ArtifactDescriptor, bytes: Vec<u8>, digest: &[u8]) -> (accepted:
    Result<Vec<u8>, String>)
    ensures
        match accepted {
            Ok(same) => digest_refusal(*artifact, digest@) is None && same == bytes,
            Err(message) => digest_refusal(*artifact, digest@) == Some(message@),
        },
{
    let hexadecimal = hex_text(digest);
    if same_text(hexadecimal.as_str(), artifact.sha256.as_str()) {
        Ok(bytes)
    } else {
        Err(concat(artifact.kind.as_str(), " artifact SHA-256 mismatch"))
    }
}

/// Why what was read for an artifact is refused.
pub open spec fn read_refusal(artifact: ArtifactDescriptor, read: Result<Vec<u8>, String>) -> Option<
    Seq<char>,
> {
    match read {
        Ok(bytes) => digest_refusal(artifact, sha256(bytes@)),
        Err(error) => Some("cannot read "@ + artifact.kind@ + " artifact: "@ + error@),
    }
}

/// The bytes of an artifact, from what reading its file gave.
pub fn verified_artifact_bytes(
    artifact: &ArtifactDescriptor,
    read: Result<Vec<u8>, String>,
) -> (verified: Result<Vec<u8>, String>)
    requires
        read matches Ok(bytes) ==> hashable(bytes@),
    ensures
        match verified {
            Ok(bytes) => read_refusal(*artifact, read) is None && read == Ok::<_, String>(bytes),
            Err(message) => read_refusal(*artifact, read) == Some(message@),
        },
{
    match read {
        Ok(bytes) => {
            let digest = sha256_digest(bytes.as_slice());
            accept_digest(artifact, bytes, digest.as_slice())
        },
        Err(error) => {
            let mut message = concat3("cannot read ", artifact.kind.as_str(), " artifact: ");
            message.append(error.as_str());
            Err(message)
        },
    }
}

/// The leading characters of a digest that identify a snapshot.
pub open spec fn digest_prefix(sha256: Seq<char>) -> Seq<char> {
    if sha256.len() < 16 {
        sha256
    } else {
        sha256.take(16)
    }
}

/// The leading characters of a digest.
pub fn leading_digits(sha256: &str) -> (prefix: String)
    requires
        vstd::utf8::is_ascii_chars(sha256@),
    ensures
        prefix@ == digest_prefix(sha256@),
{
    let length = sha256.unicode_len();
    let prefix = sha256.substring_ascii(
        0,
        if length < 16 {
            length
        } else {
            16
        },
    );
    assert(prefix@ =~= digest_prefix(sha256@));
    prefix.to_owned()
}

/// The identifier of the snapshot of `eligible` candidates that the artifact whose
/// digest begins with `prefix` lists.
pub open spec fn snapshot_identifier(prefix: Seq<char>, eligible: nat) -> Seq<char> {
    "sqlite:"@ + prefix + ":"@ + decimal(eligible)
}

/// Writes the identifier of a snapshot.
pub fn identify_snapshot(prefix: &str, eligible: usize) -> (identifier: String)
    ensures
        identifier@ == snapshot_identifier(prefix@, eligible as nat),
{
    let mut identifier = concat3("sqlite:", prefix, ":");
    identifier.append(decimal_text(eligible as u64).as_str());
    identifier
}

} // verus!
