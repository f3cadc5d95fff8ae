//! Circuit artifacts that a session is pinned to.
use crate::circuit_pins::{
    artifact_hash, artifact_path, hash_artifact, name_texts, pin_artifacts, pin_result, read_view,
    reads_view, verify_pinned_artifacts, PinnedArtifacts,
};
use crate::guarantees::basics::{hex_text_spells, nibble, spells};
use crate::hashing::{hex_text, sha256_digest};
use crate::sequences::{distinct_items_are_kept, first_occurrences_in_order, occurs_first};
use crate::text::trim_end;
use vstd::prelude::*;

verus! {

// ---------------------------------------------------------------------------
// One artifact
// ---------------------------------------------------------------------------

/// An artifact lies below the directory, whose slashes at the end do not count:
/// in the circuit's own directory, under `target`, by the circuit's name.
pub proof fn artifact_lies_below_its_circuit(
    dir: &str,
    name: &str,
    root: &str,
    path: String,
)
    requires
        call_ensures(trim_end, (dir, '/'), root),
        call_ensures(artifact_path, (dir, name), path),
    ensures
        path@ == root@ + "/"@ + name@ + "/target/"@ + name@ + ".json"@,
{
}

/// True when a message says that an artifact could not be read, and why.
pub open spec fn says_unreadable(message: Seq<char>, path: Seq<char>, why: Seq<char>) -> bool {
    message == "cannot read circuit artifact '"@ + path + "': "@ + why
}

/// An artifact that was read is hashed: the SHA-256 digest of its bytes, spelled
/// in hexadecimal. One that was not is refused with its path and the reason.
pub proof fn artifact_is_hashed(
    dir: &str,
    name: &str,
    read: Result<Vec<u8>, String>,
    path: String,
    r: Result<String, String>,
)
    requires
        call_ensures(hash_artifact, (dir, name, &read), r),
        call_ensures(artifact_path, (dir, name), path),
    ensures
        r is Ok <==> read is Ok,
        r is Ok ==> spells(r->Ok_0@, sha256_digest(read->Ok_0@)) && r->Ok_0@.len() == 64,
        r is Err ==> says_unreadable(r->Err_0@, path@, read->Err_0@),
{
    if read is Ok {
        hex_text_spells(sha256_digest(read->Ok_0@));
    }
}

/// Bytes are spelled in one way only.
proof fn spelling_is_unique(a: Seq<char>, b: Seq<char>, data: Seq<u8>)
    requires
        spells(a, data),
        spells(b, data),
    ensures
        a == b,
{
    assert forall|k: int| 0 <= k < a.len() implies a[k] == b[k] by {
        let i = k / 2;
        assert(k == 2 * i || k == 2 * i + 1);
        let byte = data[i];
        assert(16 * nibble(a[2 * i]) + nibble(a[2 * i + 1]) == 16 * nibble(b[2 * i]) + nibble(
            b[2 * i + 1],
        ));
        assert(nibble(a[2 * i]) == nibble(b[2 * i]));
        assert(nibble(a[2 * i + 1]) == nibble(b[2 * i + 1]));
    }
    assert(a =~= b);
}

// ---------------------------------------------------------------------------
// The pins
// ---------------------------------------------------------------------------

/// Without pins no circuit is pinned.
pub proof fn nothing_is_pinned_at_first(
    pinned: PinnedArtifacts,
    name: &str,
    hash: Option<&String>,
    n: usize,
)
    requires
        call_ensures(PinnedArtifacts::new, (), pinned),
        call_ensures(PinnedArtifacts::get, (&pinned, name), hash),
        call_ensures(PinnedArtifacts::len, (&pinned,), n),
    ensures
        hash is None,
        n == 0,
{
}

/// A pinned circuit is found with its hash, and every other keeps what it had.
pub proof fn pinned_hash_is_found(
    pinned: &mut PinnedArtifacts,
    name: String,
    hash: String,
    done: (),
    asked: &str,
    before: Option<&String>,
    after: Option<&String>,
    known: bool,
    known_after: bool,
)
    requires
        call_ensures(PinnedArtifacts::pin, (pinned, name, hash), done),
        call_ensures(PinnedArtifacts::get, (&*old(pinned), asked), before),
        call_ensures(PinnedArtifacts::get, (&*final(pinned), asked), after),
        call_ensures(PinnedArtifacts::contains_key, (&*old(pinned), asked), known),
        call_ensures(PinnedArtifacts::contains_key, (&*final(pinned), asked), known_after),
    ensures
        known <==> before is Some,
        known_after <==> after is Some,
        asked@ == name@ ==> after is Some && after->0@ == hash@,
        asked@ != name@ ==> (after is Some <==> before is Some),
        asked@ != name@ && before is Some ==> after->0@ == before->0@,
{
}

/// A newly pinned circuit comes last, one that was pinned keeps its place, and
/// every name is told by its number.
pub proof fn pins_are_in_order(
    pinned: &mut PinnedArtifacts,
    name: String,
    hash: String,
    done: (),
    n: usize,
    m: usize,
    i: usize,
    told: &String,
    told_after: &String,
    asked: &str,
    known: bool,
)
    requires
        call_ensures(PinnedArtifacts::pin, (pinned, name, hash), done),
        call_ensures(PinnedArtifacts::len, (&*old(pinned),), n),
        call_ensures(PinnedArtifacts::len, (&*final(pinned),), m),
        call_ensures(PinnedArtifacts::contains_key, (&*old(pinned), asked), known),
        asked@ == name@,
        i < n,
        call_ensures(PinnedArtifacts::name_at, (&*old(pinned), i), told),
        call_ensures(PinnedArtifacts::name_at, (&*final(pinned), i), told_after),
    ensures
        known ==> m == n,
        !known ==> m == n + 1,
        told_after@ == told@,
{
}

// ---------------------------------------------------------------------------
// Pinning and verifying
// ---------------------------------------------------------------------------

/// True when every artifact was read.
spec fn all_read(reads: Seq<Result<Seq<u8>, Seq<char>>>) -> bool {
    forall|i: int| 0 <= i < reads.len() ==> #[trigger] reads[i] is Ok
}

/// True when artifact `i` is the first that was not read.
spec fn first_unread(reads: Seq<Result<Seq<u8>, Seq<char>>>, i: int) -> bool {
    &&& 0 <= i < reads.len()
    &&& reads[i] is Err
    &&& all_read(reads.take(i))
}

/// True when no name after name `i` is the same.
spec fn last_of_its_name(names: Seq<Seq<char>>, i: int) -> bool {
    &&& 0 <= i < names.len()
    &&& forall|j: int| i < j < names.len() ==> #[trigger] names[j] != names[i]
}

/// Pinning succeeds when everything was read, else it tells the first artifact
/// that was not.
proof fn pinning_ends(dir: Seq<char>, names: Seq<Seq<char>>, reads: Seq<Result<Seq<u8>, Seq<char>>>)
    requires
        names.len() == reads.len(),
    ensures
        pin_result(dir, names, reads) is Ok <==> all_read(reads),
        pin_result(dir, names, reads) is Err ==> exists|i: int| #[trigger]
            first_unread(reads, i) && artifact_hash(dir, names[i], reads[i]) == Err::<
                Seq<char>,
                Seq<char>,
            >(pin_result(dir, names, reads)->Err_0),
    decreases names.len(),
{
    if names.len() > 0 {
        let (fewer, read) = (names.drop_last(), reads.drop_last());
        let n = names.len() - 1;
        pinning_ends(dir, fewer, read);
        let earlier = pin_result(dir, fewer, read);
        if earlier is Err {
            let i = choose|i: int| #[trigger]
                first_unread(read, i) && artifact_hash(dir, fewer[i], read[i]) == Err::<
                    Seq<char>,
                    Seq<char>,
                >(earlier->Err_0);
            assert(reads[i] is Err);
            assert(reads.take(i) =~= read.take(i));
            assert(first_unread(reads, i));
        } else {
            assert(reads.take(n) =~= read);
            if reads[n] is Err {
                assert(first_unread(reads, n));
            } else {
                assert forall|i: int| 0 <= i < reads.len() implies #[trigger] reads[i] is Ok by {
                    if i < n {
                        assert(read[i] is Ok);
                    }
                }
            }
        }
    }
}

/// Pinning pins the named circuits, each to the digest of its last artifact.
proof fn pinning_pins(dir: Seq<char>, names: Seq<Seq<char>>, reads: Seq<Result<Seq<u8>, Seq<char>>>)
    requires
        names.len() == reads.len(),
        pin_result(dir, names, reads) is Ok,
    ensures
        forall|name: Seq<char>| #[trigger]
            pin_result(dir, names, reads)->Ok_0.dom().contains(name) <==> names.contains(name),
        forall|i: int| #[trigger]
            last_of_its_name(names, i) ==> pin_result(dir, names, reads)->Ok_0[names[i]]
                == hex_text(sha256_digest(reads[i]->Ok_0)),
    decreases names.len(),
{
    if names.len() > 0 {
        let (fewer, read) = (names.drop_last(), reads.drop_last());
        let n = names.len() - 1;
        pinning_pins(dir, fewer, read);
        let pins = pin_result(dir, names, reads)->Ok_0;
        assert forall|name: Seq<char>| #[trigger]
            pins.dom().contains(name) <==> names.contains(name) by {
            if fewer.contains(name) {
                let k = choose|k: int| 0 <= k < fewer.len() && fewer[k] == name;
                assert(names[k] == name);
            }
            if names.contains(name) {
                let k = choose|k: int| 0 <= k < names.len() && names[k] == name;
                if k < n {
                    assert(fewer[k] == name);
                }
            }
            assert(names[n] == names.last());
        }
        assert forall|i: int| #[trigger] last_of_its_name(names, i) implies pins[names[i]]
            == hex_text(sha256_digest(reads[i]->Ok_0)) by {
            if i < n {
                assert(names[n] != names[i]);
                assert forall|j: int| i < j < fewer.len() implies #[trigger] fewer[j]
                    != fewer[i] by {
                    assert(names[j] != names[i]);
                }
                assert(last_of_its_name(fewer, i));
            }
        }
    }
}

/// Pinning succeeds exactly when every artifact was read. It then pins the named
/// circuits and no others, each to the digest of its artifact, in the order in
/// which they are first named. Of a circuit named twice the later artifact counts.
pub proof fn read_artifacts_are_pinned(
    dir: &str,
    names: &[&str],
    reads: &[Result<Vec<u8>, String>],
    r: Result<PinnedArtifacts, String>,
)
    requires
        names@.len() == reads@.len(),
        call_ensures(pin_artifacts, (dir, names, reads), r),
    ensures
        r is Ok <==> forall|i: int| 0 <= i < reads@.len() ==> #[trigger] reads@[i] is Ok,
        r is Ok ==> {
            let pins = r->Ok_0@;
            let order = r->Ok_0.names();
            &&& order.no_duplicates()
            &&& forall|name: Seq<char>| #[trigger]
                pins.dom().contains(name) <==> exists|i: int|
                    0 <= i < names@.len() && (#[trigger] names@[i])@ == name
            &&& forall|name: Seq<char>| #[trigger]
                order.contains(name) <==> pins.dom().contains(name)
            &&& forall|i: int|
                #![trigger names@[i]]
                0 <= i < names@.len() && (forall|j: int|
                    i < j < names@.len() ==> (#[trigger] names@[j])@ != names@[i]@) ==> spells(
                    pins[names@[i]@],
                    sha256_digest(reads@[i]->Ok_0@),
                )
            &&& forall|a: int, b: int, i: int, j: int|
                0 <= a < b < order.len() && #[trigger] first_named(names@, order[a], i)
                    && #[trigger] first_named(names@, order[b], j) ==> i < j
        },
{
    let texts = name_texts(names@);
    let files = reads_view(reads@);
    pinning_ends(dir@, texts, files);
    if r is Ok {
        pinning_pins(dir@, texts, files);
        assert forall|i: int| 0 <= i < reads@.len() implies #[trigger] reads@[i] is Ok by {
            assert(files[i] is Ok);
        }
        let pins = r->Ok_0@;
        let order = r->Ok_0.names();
        first_occurrences_in_order(texts);
        assert forall|name: Seq<char>| #[trigger]
            pins.dom().contains(name) <==> exists|i: int|
                0 <= i < names@.len() && (#[trigger] names@[i])@ == name by {
            if texts.contains(name) {
                let i = choose|i: int| 0 <= i < texts.len() && texts[i] == name;
                assert(names@[i]@ == name);
            }
            if exists|i: int| 0 <= i < names@.len() && (#[trigger] names@[i])@ == name {
                let i = choose|i: int| 0 <= i < names@.len() && (#[trigger] names@[i])@ == name;
                assert(texts[i] == name);
            }
        }
        assert forall|i: int|
            #![trigger names@[i]]
            0 <= i < names@.len() && (forall|j: int|
                i < j < names@.len() ==> (#[trigger] names@[j])@ != names@[i]@) implies spells(
            pins[names@[i]@],
            sha256_digest(reads@[i]->Ok_0@),
        ) by {
            assert(texts[i] == names@[i]@);
            assert(last_of_its_name(texts, i)) by {
                assert forall|j: int| i < j < texts.len() implies #[trigger] texts[j]
                    != texts[i] by {
                    assert(names@[j]@ != names@[i]@);
                }
            }
            assert(files[i] == read_view(reads@[i]));
            assert(reads@[i] is Ok);
            hex_text_spells(sha256_digest(reads@[i]->Ok_0@));
        }
        assert forall|name: Seq<char>, i: int| #[trigger]
            first_named(names@, name, i) implies occurs_first(texts, name, i) by {
            assert forall|j: int| 0 <= j < i implies #[trigger] texts[j] != name by {
                assert(names@[j]@ != name);
            }
        }
    } else {
        let i = choose|i: int| 0 <= i < files.len() && #[trigger] files[i] is Err;
        assert(reads@[i] is Err);
    }
}

/// True when `i` is where a name first stands in a list of names.
pub open spec fn first_named(names: Seq<&str>, name: Seq<char>, i: int) -> bool {
    &&& 0 <= i < names.len()
    &&& names[i]@ == name
    &&& forall|j: int| 0 <= j < i ==> (#[trigger] names[j])@ != name
}

/// Pinning fails with the first artifact that was not read: the message says where
/// it lies and why.
pub proof fn first_unread_artifact_is_told(
    dir: &str,
    names: &[&str],
    reads: &[Result<Vec<u8>, String>],
    r: Result<PinnedArtifacts, String>,
    i: int,
    path: String,
)
    requires
        names@.len() == reads@.len(),
        call_ensures(pin_artifacts, (dir, names, reads), r),
        0 <= i < reads@.len(),
        reads@[i] is Err,
        forall|j: int| 0 <= j < i ==> #[trigger] reads@[j] is Ok,
        call_ensures(artifact_path, (dir, names@[i]), path),
    ensures
        r is Err,
        says_unreadable(r->Err_0@, path@, reads@[i]->Err_0@),
{
    let texts = name_texts(names@);
    let files = reads_view(reads@);
    pinning_ends(dir@, texts, files);
    assert(files[i] is Err);
    let k = choose|k: int| #[trigger]
        first_unread(files, k) && artifact_hash(dir@, texts[k], files[k]) == Err::<
            Seq<char>,
            Seq<char>,
        >(pin_result(dir@, texts, files)->Err_0);
    if k < i {
        assert(reads@[k] is Ok);
    } else if i < k {
        assert(files.take(k)[i] is Ok);
    }
}

/// True when the artifact of a pinned circuit was read and has the pinned digest.
pub open spec fn is_unchanged(pinned: Seq<char>, read: Result<Vec<u8>, String>) -> bool {
    read is Ok && spells(pinned, sha256_digest(read->Ok_0@))
}

/// Verifying succeeds exactly when the artifact of every pinned circuit was read
/// and has the digest it is pinned to.
pub proof fn unchanged_artifacts_are_verified(
    dir: &str,
    pinned: PinnedArtifacts,
    reads: &[Result<Vec<u8>, String>],
    r: Result<(), String>,
)
    requires
        reads@.len() == pinned.names().len(),
        call_ensures(verify_pinned_artifacts, (dir, &pinned, reads), r),
    ensures
        r is Ok <==> forall|i: int|
            0 <= i < reads@.len() ==> is_unchanged(
                pinned@[#[trigger] pinned.names()[i]],
                reads@[i],
            ),
{
    assert forall|i: int| 0 <= i < reads@.len() implies (is_unchanged(
        pinned@[#[trigger] pinned.names()[i]],
        reads@[i],
    ) <==> pin_error_at(dir@, pinned, reads@, i) is None) by {
        pin_is_spelled(dir@, pinned, reads@, i);
    }
    if r is Ok {
        assert forall|i: int| 0 <= i < reads@.len() implies is_unchanged(
            pinned@[#[trigger] pinned.names()[i]],
            reads@[i],
        ) by {
            assert(pin_error_at(dir@, pinned, reads@, i) is None);
        }
    } else {
        let i = choose|i: int|
            0 <= i < reads@.len() && crate::circuit_pins::pin_error(
                dir@,
                #[trigger] pinned.names()[i],
                pinned@[pinned.names()[i]],
                read_view(reads@[i]),
            ) == Some(r->Err_0@);
        assert(pin_error_at(dir@, pinned, reads@, i) is Some);
    }
}

/// What is wrong with the artifact of pin `i`.
spec fn pin_error_at(
    dir: Seq<char>,
    pinned: PinnedArtifacts,
    reads: Seq<Result<Vec<u8>, String>>,
    i: int,
) -> Option<Seq<char>> {
    crate::circuit_pins::pin_error(
        dir,
        pinned.names()[i],
        pinned@[pinned.names()[i]],
        read_view(reads[i]),
    )
}

/// Nothing is wrong with an artifact exactly when it is unchanged.
proof fn pin_is_spelled(
    dir: Seq<char>,
    pinned: PinnedArtifacts,
    reads: Seq<Result<Vec<u8>, String>>,
    i: int,
)
    requires
        0 <= i < reads.len(),
    ensures
        is_unchanged(pinned@[pinned.names()[i]], reads[i]) <==> pin_error_at(
            dir,
            pinned,
            reads,
            i,
        ) is None,
{
    if reads[i] is Ok {
        let digest = sha256_digest(reads[i]->Ok_0@);
        hex_text_spells(digest);
        if spells(pinned@[pinned.names()[i]], digest) {
            spelling_is_unique(pinned@[pinned.names()[i]], hex_text(digest), digest);
        }
    }
}

/// Verifying fails with the first circuit that is not as it was pinned. One that
/// was not read is told by its path and the reason; one that changed by its name,
/// the pinned digest and the present one.
pub proof fn first_changed_artifact_is_told(
    dir: &str,
    pinned: PinnedArtifacts,
    reads: &[Result<Vec<u8>, String>],
    r: Result<(), String>,
    i: int,
    name: &str,
    path: String,
)
    requires
        reads@.len() == pinned.names().len(),
        call_ensures(verify_pinned_artifacts, (dir, &pinned, reads), r),
        0 <= i < reads@.len(),
        !is_unchanged(pinned@[pinned.names()[i]], reads@[i]),
        forall|j: int|
            0 <= j < i ==> is_unchanged(pinned@[#[trigger] pinned.names()[j]], reads@[j]),
        name@ == pinned.names()[i],
        call_ensures(artifact_path, (dir, name), path),
    ensures
        r is Err,
        reads@[i] is Err ==> says_unreadable(r->Err_0@, path@, reads@[i]->Err_0@),
        reads@[i] is Ok ==> exists|actual: Seq<char>| #[trigger]
            spells(actual, sha256_digest(reads@[i]->Ok_0@)) && r->Err_0@ == "circuit artifact '"@
                + name@ + "' has changed since session start (pinned="@ + pinned@[name@]
                + ", current="@ + actual + ")"@,
{
    pin_is_spelled(dir@, pinned, reads@, i);
    assert(pinned.names()[i] == name@);
    if r is Ok {
        assert(pin_error_at(dir@, pinned, reads@, i) is None);
    } else {
        let k = choose|k: int|
            {
                &&& 0 <= k < reads@.len()
                &&& crate::circuit_pins::pin_error(
                    dir@,
                    #[trigger] pinned.names()[k],
                    pinned@[pinned.names()[k]],
                    read_view(reads@[k]),
                ) == Some(r->Err_0@)
                &&& forall|j: int|
                    0 <= j < k ==> crate::circuit_pins::pin_error(
                        dir@,
                        #[trigger] pinned.names()[j],
                        pinned@[pinned.names()[j]],
                        read_view(reads@[j]),
                    ) is None
            };
        pin_is_spelled(dir@, pinned, reads@, k);
        if i < k {
            assert(pinned.names()[i] == name@);
            assert(pin_error_at(dir@, pinned, reads@, i) is None);
        }
        assert(k == i);
        if reads@[i] is Ok {
            hex_text_spells(sha256_digest(reads@[i]->Ok_0@));
        }
    }
}

/// Where no circuit is named twice, artifacts pinned together are verified as long
/// as each is read with a digest as it was, and are refused as soon as one is not.
pub proof fn pinned_artifacts_are_guarded(
    dir: &str,
    names: &[&str],
    reads: &[Result<Vec<u8>, String>],
    pinned: Result<PinnedArtifacts, String>,
    later: &[Result<Vec<u8>, String>],
    r: Result<(), String>,
)
    requires
        names@.len() == reads@.len(),
        later@.len() == reads@.len(),
        forall|i: int, j: int|
            0 <= i < j < names@.len() ==> (#[trigger] names@[i])@ != (#[trigger] names@[j])@,
        call_ensures(pin_artifacts, (dir, names, reads), pinned),
        pinned is Ok,
        call_ensures(verify_pinned_artifacts, (dir, &pinned->Ok_0, later), r),
    ensures
        r is Ok <==> forall|i: int|
            0 <= i < later@.len() ==> (#[trigger] later@[i]) is Ok && sha256_digest(
                later@[i]->Ok_0@,
            ) == sha256_digest(reads@[i]->Ok_0@),
{
    let texts = name_texts(names@);
    let pins = pinned->Ok_0;
    read_artifacts_are_pinned(dir, names, reads, pinned);
    assert forall|i: int, j: int| 0 <= i < texts.len() && 0 <= j < texts.len() && i != j implies
        texts[i] != texts[j] by {
        if i < j {
            assert(names@[i]@ != names@[j]@);
        } else {
            assert(names@[j]@ != names@[i]@);
        }
    }
    distinct_items_are_kept(texts);
    assert(pins.names() == texts);
    unchanged_artifacts_are_verified(dir, pins, later, r);
    assert forall|i: int| 0 <= i < later@.len() implies (is_unchanged(
        pins@[#[trigger] pins.names()[i]],
        later@[i],
    ) <==> later@[i] is Ok && sha256_digest(later@[i]->Ok_0@) == sha256_digest(
        reads@[i]->Ok_0@,
    )) by {
        let name = names@[i];
        assert(texts[i] == name@);
        let was = sha256_digest(reads@[i]->Ok_0@);
        assert(spells(pins@[name@], was));
        if later@[i] is Ok {
            let is = sha256_digest(later@[i]->Ok_0@);
            if spells(pins@[name@], is) {
                assert(was =~= is) by {
                    assert forall|k: int| 0 <= k < was.len() implies was[k] == is[k] by {}
                }
            }
        }
    }
    if r is Ok {
        assert forall|i: int| 0 <= i < later@.len() implies (#[trigger] later@[i]) is Ok
            && sha256_digest(later@[i]->Ok_0@) == sha256_digest(reads@[i]->Ok_0@) by {
            assert(is_unchanged(pins@[pins.names()[i]], later@[i]));
        }
    } else {
        let i = choose|i: int|
            0 <= i < later@.len() && !is_unchanged(
                pins@[#[trigger] pins.names()[i]],
                later@[i],
            );
        assert(!(later@[i] is Ok && sha256_digest(later@[i]->Ok_0@) == sha256_digest(
            reads@[i]->Ok_0@,
        )));
    }
}

} // verus!
