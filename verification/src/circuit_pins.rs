//! Circuit artifact pinning for MPC sessions.
//!
//! When a proof session starts (deal phase) the coordinator hashes the artifact
//! file of every circuit that will be used during that session and keeps those
//! hashes. On every subsequent proof submission (reveal, showdown) the hashes
//! are computed again and compared against the pinned values. If any artifact
//! has changed since the session was opened the submission is rejected,
//! preventing a circuit upgrade from silently affecting an in-flight game.
//!
//! # Hash function
//! SHA-256 over the raw file bytes, hex-encoded.
//!
//! # Artifact path convention
//! `<circuit_dir>/<circuit_name>/target/<circuit_name>.json`
//!
//! The files are read by the caller: each artifact comes with its contents, or
//! with the reason why it could not be read.
use crate::hashing::{hex_text_is_injective, sha256_digest, sha256_hex, sha256_hex_text};
use crate::sequences::first_occurrences;
use crate::string_map::{keys_exact, StringMap};
use crate::text::{trim_end, trimmed_end};
use vstd::prelude::*;

verus! {

/// The hashes that a session's circuits are pinned to, by circuit name.
#[derive(Debug)]
pub struct PinnedArtifacts {
    pins: StringMap<String>,
}

impl View for PinnedArtifacts {
    type V = Map<Seq<char>, Seq<char>>;

    closed spec fn view(&self) -> Map<Seq<char>, Seq<char>> {
        self.pins@.map_values(|hash: String| hash@)
    }
}

// ---------------------------------------------------------------------------
// One artifact
// ---------------------------------------------------------------------------

/// Where a circuit's artifact lies.
pub open spec fn artifact_path_text(circuit_dir: Seq<char>, circuit_name: Seq<char>) -> Seq<char> {
    trimmed_end(circuit_dir, '/') + "/"@ + circuit_name + "/target/"@ + circuit_name + ".json"@
}

/// Where a circuit's artifact lies. `circuit_dir` is the root directory that
/// contains one sub-directory per circuit.
pub fn artifact_path(circuit_dir: &str, circuit_name: &str) -> (path: String)
    ensures
        path@ == artifact_path_text(circuit_dir@, circuit_name@),
{
    let mut path: String = trim_end(circuit_dir, '/').to_owned();
    path.append("/");
    path.append(circuit_name);
    path.append("/target/");
    path.append(circuit_name);
    path.append(".json");
    path
}

/// What reading a file gave: its bytes, or the reason why it failed.
pub open spec fn read_view(read: Result<Vec<u8>, String>) -> Result<Seq<u8>, Seq<char>> {
    match read {
        Ok(bytes) => Ok(bytes@),
        Err(reason) => Err(reason@),
    }
}

/// What reading several files gave.
pub open spec fn reads_view(reads: Seq<Result<Vec<u8>, String>>) -> Seq<
    Result<Seq<u8>, Seq<char>>,
> {
    reads.map_values(|read: Result<Vec<u8>, String>| read_view(read))
}

/// A result whose value and error are texts.
pub open spec fn text_result(r: Result<String, String>) -> Result<Seq<char>, Seq<char>> {
    match r {
        Ok(text) => Ok(text@),
        Err(text) => Err(text@),
    }
}

/// The hash of an artifact, or the message that it could not be read.
pub open spec fn artifact_hash(
    circuit_dir: Seq<char>,
    circuit_name: Seq<char>,
    read: Result<Seq<u8>, Seq<char>>,
) -> Result<Seq<char>, Seq<char>> {
    match read {
        Ok(bytes) => Ok(sha256_hex(bytes)),
        Err(reason) => Err(
            "cannot read circuit artifact '"@ + artifact_path_text(circuit_dir, circuit_name)
                + "': "@ + reason,
        ),
    }
}

/// Compute the SHA-256 hex digest of a single circuit artifact file. `read` is
/// what reading the file at its path gave.
pub fn hash_artifact(
    circuit_dir: &str,
    circuit_name: &str,
    read: &Result<Vec<u8>, String>,
) -> (r: Result<String, String>)
    ensures
        text_result(r) == artifact_hash(circuit_dir@, circuit_name@, read_view(*read)),
        r is Ok ==> r->Ok_0@.len() == 64,
{
    match read {
        Ok(bytes) => Ok(sha256_hex_text(bytes.as_slice())),
        Err(reason) => {
            let mut message: String = "cannot read circuit artifact '".to_owned();
            message.append(artifact_path(circuit_dir, circuit_name).as_str());
            message.append("': ");
            message.append(reason.as_str());
            Err(message)
        },
    }
}

// ---------------------------------------------------------------------------
// Pinning
// ---------------------------------------------------------------------------

/// The texts of a list of names.
pub open spec fn name_texts(names: Seq<&str>) -> Seq<Seq<char>> {
    names.map_values(|name: &str| name@)
}

/// What pinning circuits gives: the hash of each, or the message for the first
/// artifact that could not be read.
pub open spec fn pin_result(
    circuit_dir: Seq<char>,
    names: Seq<Seq<char>>,
    reads: Seq<Result<Seq<u8>, Seq<char>>>,
) -> Result<Map<Seq<char>, Seq<char>>, Seq<char>>
    decreases names.len(),
{
    if names.len() == 0 {
        Ok(Map::empty())
    } else {
        match pin_result(circuit_dir, names.drop_last(), reads.drop_last()) {
            Err(message) => Err(message),
            Ok(pins) => match artifact_hash(circuit_dir, names.last(), reads.last()) {
                Err(message) => Err(message),
                Ok(hash) => Ok(pins.insert(names.last(), hash)),
            },
        }
    }
}

/// Pinning stops at the first artifact that could not be read.
proof fn pinning_stops_at_failure(
    circuit_dir: Seq<char>,
    names: Seq<Seq<char>>,
    reads: Seq<Result<Seq<u8>, Seq<char>>>,
    n: int,
)
    requires
        names.len() == reads.len(),
        0 <= n <= names.len(),
        pin_result(circuit_dir, names.take(n), reads.take(n)) is Err,
    ensures
        pin_result(circuit_dir, names, reads) == pin_result(
            circuit_dir,
            names.take(n),
            reads.take(n),
        ),
    decreases names.len() - n,
{
    if n < names.len() {
        assert(names.take(n + 1).drop_last() =~= names.take(n));
        assert(reads.take(n + 1).drop_last() =~= reads.take(n));
        pinning_stops_at_failure(circuit_dir, names, reads, n + 1);
    } else {
        assert(names.take(n) =~= names);
        assert(reads.take(n) =~= reads);
    }
}

impl PinnedArtifacts {
    /// The circuit names, in the order in which they were first pinned.
    pub closed spec fn names(&self) -> Seq<Seq<char>> {
        self.pins.keys()
    }

    /// No pins.
    pub fn new() -> (pinned: Self)
        ensures
            pinned@ == Map::<Seq<char>, Seq<char>>::empty(),
            pinned.names() == Seq::<Seq<char>>::empty(),
    {
        let pinned = PinnedArtifacts { pins: StringMap::new() };
        assert(pinned@ =~= Map::<Seq<char>, Seq<char>>::empty());
        pinned
    }

    /// Pins a circuit to a hash, in place of the one that it was pinned to.
    pub fn pin(&mut self, name: String, hash: String)
        ensures
            final(self)@ == old(self)@.insert(name@, hash@),
            final(self).names() == if old(self)@.dom().contains(name@) {
                old(self).names()
            } else {
                old(self).names().push(name@)
            },
    {
        let ghost before = self.pins@;
        self.pins.insert(name, hash);
        assert(self@ =~= before.map_values(|hash: String| hash@).insert(name@, hash@));
    }

    /// The number of pinned circuits.
    pub fn len(&self) -> (n: usize)
        ensures
            n == self.names().len(),
            keys_exact(self@, self.names()),
    {
        let n: usize = self.pins.len();
        assert forall|key: Seq<char>|
            #[trigger] self@.dom().contains(key) <==> self.names().contains(key) by {
            assert(self.pins@.dom().contains(key) <==> self.pins.keys().contains(key));
        }
        n
    }

    /// The circuit that was pinned as number `i`.
    pub fn name_at(&self, i: usize) -> (name: &String)
        requires
            i < self.names().len(),
        ensures
            name@ == self.names()[i as int],
    {
        self.pins.key_at(i)
    }

    /// The hash that a circuit is pinned to, if it is pinned.
    pub fn get(&self, circuit_name: &str) -> (hash: Option<&String>)
        ensures
            match hash {
                Some(hash) => self@.dom().contains(circuit_name@) && hash@ == self@[circuit_name@],
                None => !self@.dom().contains(circuit_name@),
            },
    {
        let name: String = circuit_name.to_owned();
        self.pins.get(&name)
    }

    /// Tells whether a circuit is pinned.
    pub fn contains_key(&self, circuit_name: &str) -> (r: bool)
        ensures
            r == self@.dom().contains(circuit_name@),
    {
        self.get(circuit_name).is_some()
    }
}

/// Hash every circuit artifact that will be needed for a table session and
/// return the map of circuit names to hashes.
///
/// `circuit_names` should name every circuit variant that may be called during
/// this session (deal, all reveal variants, showdown). `reads` holds what
/// reading the artifact of each gave.
pub fn pin_artifacts(
    circuit_dir: &str,
    circuit_names: &[&str],
    reads: &[Result<Vec<u8>, String>],
) -> (r: Result<PinnedArtifacts, String>)
    requires
        circuit_names@.len() == reads@.len(),
    ensures
        match r {
            Ok(pinned) => pin_result(
                circuit_dir@,
                name_texts(circuit_names@),
                reads_view(reads@),
            ) == Ok::<Map<Seq<char>, Seq<char>>, Seq<char>>(pinned@) && keys_exact(
                pinned@,
                pinned.names(),
            ) && (forall|name: Seq<char>| #[trigger]
                pinned@.dom().contains(name) ==> pinned@[name].len() == 64) && pinned.names()
                == first_occurrences(name_texts(circuit_names@)),
            Err(message) => pin_result(
                circuit_dir@,
                name_texts(circuit_names@),
                reads_view(reads@),
            ) == Err::<Map<Seq<char>, Seq<char>>, Seq<char>>(message@),
        },
{
    let ghost names = name_texts(circuit_names@);
    let ghost files = reads_view(reads@);
    let mut pins: StringMap<String> = StringMap::new();
    let mut i: usize = 0;
    assert(pins@.map_values(|hash: String| hash@) =~= Map::<Seq<char>, Seq<char>>::empty());
    assert(names.take(0) =~= Seq::empty());
    while i < circuit_names.len()
        invariant
            i <= circuit_names.len(),
            circuit_names@.len() == reads@.len(),
            names == name_texts(circuit_names@),
            files == reads_view(reads@),
            keys_exact(pins@, pins.keys()),
            pins.keys() == first_occurrences(names.take(i as int)),
            forall|k: Seq<char>| #[trigger] pins@.dom().contains(k) ==> pins@[k]@.len() == 64,
            pin_result(circuit_dir@, names.take(i as int), files.take(i as int)) == Ok::<
                Map<Seq<char>, Seq<char>>,
                Seq<char>,
            >(pins@.map_values(|hash: String| hash@)),
        decreases circuit_names.len() - i,
    {
        let name: &str = circuit_names[i];
        proof {
            assert(names.take(i + 1).drop_last() =~= names.take(i as int));
            assert(files.take(i + 1).drop_last() =~= files.take(i as int));
            assert(names.take(i + 1).last() == name@);
            assert(files.take(i + 1).last() == read_view(reads@[i as int]));
        }
        match hash_artifact(circuit_dir, name, &reads[i]) {
            Err(message) => {
                proof {
                    pinning_stops_at_failure(circuit_dir@, names, files, i + 1);
                }
                return Err(message);
            },
            Ok(hash) => {
                let ghost before = pins@;
                let ghost text = hash;
                pins.insert(name.to_owned(), hash);
                assert(pins@.map_values(|hash: String| hash@) =~= before.map_values(
                    |hash: String| hash@,
                ).insert(name@, text@));
            },
        }
        i = i + 1;
    }
    assert(names.take(names.len() as int) =~= names);
    assert(files.take(files.len() as int) =~= files);
    let pinned = PinnedArtifacts { pins };
    assert(keys_exact(pinned@, pinned.names())) by {
        assert forall|key: Seq<char>|
            #[trigger] pinned@.dom().contains(key) <==> pinned.names().contains(key) by {
            assert(pins@.dom().contains(key) <==> pins.keys().contains(key));
        }
    }
    Ok(pinned)
}

// ---------------------------------------------------------------------------
// Verifying
// ---------------------------------------------------------------------------

/// What is wrong with a pinned artifact, if anything: it cannot be read, or its
/// hash is not the pinned one.
pub open spec fn pin_error(
    circuit_dir: Seq<char>,
    name: Seq<char>,
    expected: Seq<char>,
    read: Result<Seq<u8>, Seq<char>>,
) -> Option<Seq<char>> {
    match artifact_hash(circuit_dir, name, read) {
        Err(message) => Some(message),
        Ok(actual) => if actual == expected {
            None
        } else {
            Some(
                "circuit artifact '"@ + name + "' has changed since session start (pinned="@
                    + expected + ", current="@ + actual + ")"@,
            )
        },
    }
}

/// Verify that every artifact named in `pinned` still has the same hash on disk.
/// `reads` holds what reading the artifact of each pinned circuit gave, in the
/// order in which they were pinned. Returns `Ok(())` if all hashes match, or an
/// error message naming the first mismatched circuit.
pub fn verify_pinned_artifacts(
    circuit_dir: &str,
    pinned: &PinnedArtifacts,
    reads: &[Result<Vec<u8>, String>],
) -> (r: Result<(), String>)
    requires
        reads@.len() == pinned.names().len(),
    ensures
        match r {
            Ok(()) => forall|i: int|
                0 <= i < reads@.len() ==> pin_error(
                    circuit_dir@,
                    #[trigger] pinned.names()[i],
                    pinned@[pinned.names()[i]],
                    read_view(reads@[i]),
                ) is None,
            Err(message) => exists|i: int|
                {
                    &&& 0 <= i < reads@.len()
                    &&& pin_error(
                        circuit_dir@,
                        #[trigger] pinned.names()[i],
                        pinned@[pinned.names()[i]],
                        read_view(reads@[i]),
                    ) == Some(message@)
                    &&& forall|j: int|
                        0 <= j < i ==> pin_error(
                            circuit_dir@,
                            #[trigger] pinned.names()[j],
                            pinned@[pinned.names()[j]],
                            read_view(reads@[j]),
                        ) is None
                },
        },
{
    let mut i: usize = 0;
    while i < reads.len()
        invariant
            i <= reads.len(),
            reads@.len() == pinned.names().len(),
            forall|j: int|
                0 <= j < i ==> pin_error(
                    circuit_dir@,
                    #[trigger] pinned.names()[j],
                    pinned@[pinned.names()[j]],
                    read_view(reads@[j]),
                ) is None,
        decreases reads.len() - i,
    {
        let name: &String = pinned.pins.key_at(i);
        let expected: &String = pinned.pins.value_at(i);
        assert(name@ == pinned.names()[i as int]);
        assert(expected@ == pinned@[name@]);
        let actual: String = match hash_artifact(circuit_dir, name.as_str(), &reads[i]) {
            Ok(actual) => actual,
            Err(message) => return Err(message),
        };
        if actual != *expected {
            let mut message: String = "circuit artifact '".to_owned();
            message.append(name.as_str());
            message.append("' has changed since session start (pinned=");
            message.append(expected.as_str());
            message.append(", current=");
            message.append(actual.as_str());
            message.append(")");
            return Err(message);
        }
        i = i + 1;
    }
    Ok(())
}

// ---------------------------------------------------------------------------
// What pinning promises
// ---------------------------------------------------------------------------

/// True when `reads` are what reading the artifacts of `names` gives on a disk.
pub open spec fn read_from(
    disk: spec_fn(Seq<char>) -> Result<Seq<u8>, Seq<char>>,
    names: Seq<Seq<char>>,
    reads: Seq<Result<Seq<u8>, Seq<char>>>,
) -> bool {
    &&& reads.len() == names.len()
    &&& forall|i: int| 0 <= i < names.len() ==> #[trigger] reads[i] == disk(names[i])
}

/// Pinning succeeds exactly when every artifact can be read. It then pins the
/// named circuits, no others, each to the hash of its artifact.
pub proof fn pinning_pins_the_disk(
    circuit_dir: Seq<char>,
    disk: spec_fn(Seq<char>) -> Result<Seq<u8>, Seq<char>>,
    names: Seq<Seq<char>>,
    reads: Seq<Result<Seq<u8>, Seq<char>>>,
)
    requires
        read_from(disk, names, reads),
    ensures
        pin_result(circuit_dir, names, reads) is Ok <==> forall|i: int|
            0 <= i < names.len() ==> disk(#[trigger] names[i]) is Ok,
        pin_result(circuit_dir, names, reads) is Ok ==> forall|name: Seq<char>| #[trigger]
            pin_result(circuit_dir, names, reads)->Ok_0.dom().contains(name) <==> names.contains(
                name,
            ),
        pin_result(circuit_dir, names, reads) is Ok ==> forall|name: Seq<char>|
            names.contains(name) ==> artifact_hash(circuit_dir, name, disk(name)) == Ok::<
                Seq<char>,
                Seq<char>,
            >(#[trigger] pin_result(circuit_dir, names, reads)->Ok_0[name]),
    decreases names.len(),
{
    if names.len() > 0 {
        let head = names.drop_last();
        let head_reads = reads.drop_last();
        let last = names.last();
        assert forall|i: int| 0 <= i < head.len() implies #[trigger] head_reads[i] == disk(
            head[i],
        ) by {
            assert(reads[i] == disk(names[i]));
        }
        pinning_pins_the_disk(circuit_dir, disk, head, head_reads);
        assert(reads[names.len() - 1] == disk(names[names.len() - 1]));
        let result = pin_result(circuit_dir, names, reads);
        if result is Ok {
            let earlier = pin_result(circuit_dir, head, head_reads)->Ok_0;
            assert forall|i: int| 0 <= i < names.len() implies disk(#[trigger] names[i]) is Ok by {
                if i < head.len() {
                    assert(disk(head[i]) is Ok);
                }
            }
            assert forall|name: Seq<char>| #[trigger]
                result->Ok_0.dom().contains(name) <==> names.contains(name) by {
                named_last(names, name);
                assert(earlier.dom().contains(name) <==> head.contains(name));
            }
            assert forall|name: Seq<char>| names.contains(name) implies artifact_hash(
                circuit_dir,
                name,
                disk(name),
            ) == Ok::<Seq<char>, Seq<char>>(#[trigger] result->Ok_0[name]) by {
                named_last(names, name);
                if name != last {
                    assert(artifact_hash(circuit_dir, name, disk(name)) == Ok::<
                        Seq<char>,
                        Seq<char>,
                    >(earlier[name]));
                }
            }
        } else {
            if forall|i: int| 0 <= i < names.len() ==> disk(#[trigger] names[i]) is Ok {
                assert forall|i: int| 0 <= i < head.len() implies disk(
                    #[trigger] head[i],
                ) is Ok by {
                    assert(disk(names[i]) is Ok);
                }
                assert(disk(names[names.len() - 1]) is Ok);
            }
        }
    }
}

/// A name is in a list when it is the last one or among the others.
proof fn named_last(names: Seq<Seq<char>>, name: Seq<char>)
    requires
        names.len() > 0,
    ensures
        names.contains(name) <==> names.drop_last().contains(name) || name == names.last(),
{
    if names.contains(name) {
        let i = choose|i: int| 0 <= i < names.len() && names[i] == name;
        if i < names.len() - 1 {
            assert(names.drop_last()[i] == name);
        }
    }
    if names.drop_last().contains(name) {
        let i = choose|i: int| 0 <= i < names.len() - 1 && names.drop_last()[i] == name;
        assert(names[i] == name);
    }
    assert(names[names.len() - 1] == names.last());
}

/// As long as the artifacts are unchanged, every pinned circuit verifies.
pub proof fn unchanged_artifacts_verify(
    circuit_dir: Seq<char>,
    disk: spec_fn(Seq<char>) -> Result<Seq<u8>, Seq<char>>,
    names: Seq<Seq<char>>,
    reads: Seq<Result<Seq<u8>, Seq<char>>>,
    name: Seq<char>,
)
    requires
        read_from(disk, names, reads),
        pin_result(circuit_dir, names, reads) is Ok,
        pin_result(circuit_dir, names, reads)->Ok_0.dom().contains(name),
    ensures
        pin_error(
            circuit_dir,
            name,
            pin_result(circuit_dir, names, reads)->Ok_0[name],
            disk(name),
        ) is None,
{
    pinning_pins_the_disk(circuit_dir, disk, names, reads);
    assert(names.contains(name));
}

/// A pinned artifact that cannot be read any more, or whose bytes have another
/// SHA-256 digest, is rejected.
pub proof fn changed_artifact_is_rejected(
    circuit_dir: Seq<char>,
    disk: spec_fn(Seq<char>) -> Result<Seq<u8>, Seq<char>>,
    names: Seq<Seq<char>>,
    reads: Seq<Result<Seq<u8>, Seq<char>>>,
    name: Seq<char>,
    now: Result<Seq<u8>, Seq<char>>,
)
    requires
        read_from(disk, names, reads),
        pin_result(circuit_dir, names, reads) is Ok,
        pin_result(circuit_dir, names, reads)->Ok_0.dom().contains(name),
        now is Err || sha256_digest(now->Ok_0) != sha256_digest(disk(name)->Ok_0),
    ensures
        pin_error(
            circuit_dir,
            name,
            pin_result(circuit_dir, names, reads)->Ok_0[name],
            now,
        ) is Some,
{
    pinning_pins_the_disk(circuit_dir, disk, names, reads);
    assert(names.contains(name));
    if now is Ok {
        let (before, after) = (sha256_digest(disk(name)->Ok_0), sha256_digest(now->Ok_0));
        if sha256_hex(disk(name)->Ok_0) == sha256_hex(now->Ok_0) {
            hex_text_is_injective(before, after);
        }
        let i = choose|i: int| 0 <= i < names.len() && names[i] == name;
        assert(disk(names[i]) is Ok);
    }
}

} // verus!
