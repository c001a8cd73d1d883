//! Reading installed versions back from the names of the binaries.

use vstd::prelude::*;
use crate::paths::{join, join_path};
use crate::text::{
    is_ascii_digit, lemma_split_fields_concat, lemma_split_fields_nonempty, lemma_split_fields_single,
    split_fields,
};
use crate::version::{
    decimal, lemma_decimal_digits_only, law_version_order, semver_parse, version_order, version_text,
    Version, VersionModel,
};

verus! {

broadcast use vstd::seq_lib::group_to_multiset_ensures;

/// The second `-`-separated field of a binary's file name: the version in
/// `gql-<version>`.
pub open spec fn version_field(name: Seq<char>) -> Option<Seq<char>> {
    let fields = split_fields(name, '-');
    if fields.len() >= 2 {
        Some(fields[1])
    } else {
        None
    }
}

/// The second `-`-separated field of `name`, if it has one.
pub fn version_field_of(name: &str) -> (field: Option<String>)
    ensures
        match field {
            Some(f) => version_field(name@) == Some(f@),
            None => version_field(name@) is None,
        },
{
    let len = name.unicode_len();
    let mut dashes: usize = 0;
    let mut start: usize = 0;
    let mut end: usize = 0;
    let mut i: usize = 0;
    while i < len
        invariant
            len == name@.len(),
            i <= len,
            dashes <= 2,
            split_fields(name@.take(i as int), '-').len() >= 1,
            (split_fields(name@.take(i as int), '-').len() >= 2) == (dashes >= 1),
            (split_fields(name@.take(i as int), '-').len() >= 3) == (dashes >= 2),
            dashes >= 1 ==> start <= end <= i && split_fields(name@.take(i as int), '-')[1]
                == name@.subrange(start as int, end as int),
            dashes == 1 ==> end == i,
        decreases len - i,
    {
        let c = name.get_char(i);
        let ghost before = name@.take(i as int);
        let ghost after = name@.take(i + 1);
        assert(after.drop_last() =~= before);
        assert(after.last() == c);
        if c == '-' {
            if dashes == 0 {
                start = i + 1;
                end = i + 1;
                dashes = 1;
            } else if dashes == 1 {
                dashes = 2;
            }
        } else if dashes == 1 {
            end = i + 1;
            assert(name@.subrange(start as int, end as int) =~= name@.subrange(start as int, i as int).push(c));
        }
        i = i + 1;
    }
    assert(name@.take(len as int) =~= name@);
    if dashes >= 1 {
        Some(String::from_str(name.substring_char(start, end)))
    } else {
        None
    }
}

/// The version that a binary named `name` holds, as `semver` parses its
/// version field.
pub open spec fn binary_name_version(name: Seq<char>) -> Option<VersionModel> {
    match version_field(name) {
        Some(field) => semver_parse(field),
        None => None,
    }
}

/// Why no version could be read from a binary's name.
#[derive(Debug)]
pub enum BinaryNameError {
    /// The name has no `-`, so no version field.
    MissingVersionField,
    /// The version field is no semantic version.
    InvalidVersion,
}

/// Reads the version from the file name of an installed binary, `gql-<version>`.
pub fn version_from_binary_name(name: &str) -> (v: Result<Version, BinaryNameError>)
    ensures
        match v {
            Ok(v) => binary_name_version(name@) == Some(v@),
            Err(BinaryNameError::MissingVersionField) => version_field(name@) is None,
            Err(BinaryNameError::InvalidVersion) => version_field(name@) is Some
                && binary_name_version(name@) is None,
        },
{
    match version_field_of(name) {
        None => Err(BinaryNameError::MissingVersionField),
        Some(field) => match Version::parse(field.as_str()) {
            Some(v) => Ok(v),
            None => Err(BinaryNameError::InvalidVersion),
        },
    }
}

/// The version that the `gql-latest` link points to, given the file name of
/// the link's target (`None` where there is no link).
///
/// A target name that holds no version is answered with an error, exactly on
/// the names where gqlup cannot go on; the program stops on it (it unwraps
/// the error), so a caller never sees a made-up version.
pub fn resolve_current_latest_version(link_target_name: Option<&str>) -> (v: Result<
    Option<Version>,
    BinaryNameError,
>)
    ensures
        match link_target_name {
            None => v is Ok && v->Ok_0 is None,
            Some(name) => match v {
                Ok(Some(v)) => binary_name_version(name@) == Some(v@),
                Ok(None) => false,
                Err(BinaryNameError::MissingVersionField) => version_field(name@) is None,
                Err(BinaryNameError::InvalidVersion) => version_field(name@) is Some
                    && binary_name_version(name@) is None,
            },
        },
{
    match link_target_name {
        None => Ok(None),
        Some(name) => match version_from_binary_name(name) {
            Ok(v) => Ok(Some(v)),
            Err(e) => Err(e),
        },
    }
}

/// The parts of each version in `vs`.
pub open spec fn models(vs: Seq<Version>) -> Seq<VersionModel> {
    vs.map_values(|v: Version| v@)
}

/// Each version is at least as high as the one after it.
pub open spec fn descending(vs: Seq<VersionModel>) -> bool {
    forall|i: int| 0 <= i < vs.len() - 1 ==> version_order(#[trigger] vs[i], vs[i + 1]) >= 0
}

/// Every version is at least as high as every version after it.
pub open spec fn sorted_descending(vs: Seq<VersionModel>) -> bool {
    forall|i: int, j: int| 0 <= i < j < vs.len() ==> version_order(#[trigger] vs[i], #[trigger] vs[j]) >= 0
}

/// By transitivity, a list ordered pair by neighbouring pair is ordered
/// throughout.
pub proof fn lemma_descending_sorted(vs: Seq<VersionModel>)
    requires
        descending(vs),
    ensures
        sorted_descending(vs),
{
    assert forall|i: int, j: int| 0 <= i < j < vs.len() implies version_order(
        #[trigger] vs[i],
        #[trigger] vs[j],
    ) >= 0 by {
        lemma_descending_prefix(vs, i, j);
    }
}

proof fn lemma_descending_prefix(vs: Seq<VersionModel>, i: int, j: int)
    requires
        descending(vs),
        0 <= i < j < vs.len(),
    ensures
        version_order(vs[i], vs[j]) >= 0,
    decreases j - i,
{
    if j > i + 1 {
        lemma_descending_prefix(vs, i, j - 1);
        assert(version_order(vs[j - 1], vs[j]) >= 0);
        law_version_order(vs[i], vs[j - 1], vs[j]);
    }
}

/// Inserts `v` into a descending list, before the first version below it.
pub fn insert_descending(sorted: &mut Vec<Version>, v: Version)
    requires
        descending(models(old(sorted)@)),
    ensures
        descending(models(final(sorted)@)),
        models(final(sorted)@).to_multiset() == models(old(sorted)@).to_multiset().insert(v@),
{
    let n = sorted.len();
    let mut k: usize = 0;
    while k < n
        invariant
            n == sorted.len(),
            k <= n,
            forall|j: int| 0 <= j < k ==> version_order(#[trigger] sorted@[j]@, v@) >= 0,
        ensures
            k <= n,
            forall|j: int| 0 <= j < k ==> version_order(#[trigger] sorted@[j]@, v@) >= 0,
            k < n ==> version_order(v@, sorted@[k as int]@) > 0,
        decreases n - k,
    {
        if sorted[k].compare(&v) < 0 {
            break;
        }
        k = k + 1;
    }
    let ghost old_models = models(sorted@);
    let ghost vm = v@;
    assert(forall|j: int| 0 <= j < n ==> old_models[j] == #[trigger] sorted@[j]@);
    sorted.insert(k, v);
    assert(models(sorted@) =~= old_models.insert(k as int, vm));
    assert forall|i: int| 0 <= i < models(sorted@).len() - 1 implies version_order(
        #[trigger] models(sorted@)[i],
        models(sorted@)[i + 1],
    ) >= 0 by {
        if i < k - 1 {
            assert(models(sorted@)[i] == old_models[i]);
            assert(models(sorted@)[i + 1] == old_models[i + 1]);
        } else if i == k - 1 {
            assert(models(sorted@)[i] == old_models[i]);
        } else if i == k {
        } else {
            assert(models(sorted@)[i] == old_models[i - 1]);
            assert(models(sorted@)[i + 1] == old_models[i]);
        }
    }
}


/// An entry of the binaries directory: its file name and whether it is a
/// symbolic link (such as `gql-latest`).
#[derive(Debug)]
pub struct DirEntry {
    pub file_name: String,
    pub is_symlink: bool,
}

/// An entry whose version can be read, or one that is skipped.
pub open spec fn readable(e: DirEntry) -> bool {
    e.is_symlink || binary_name_version(e.file_name@) is Some
}

/// The versions of the binaries among `entries`, in directory order.
pub open spec fn local_models(entries: Seq<DirEntry>) -> Seq<VersionModel>
    decreases entries.len(),
{
    if entries.len() == 0 {
        Seq::empty()
    } else {
        let rest = local_models(entries.drop_last());
        let e = entries.last();
        if e.is_symlink {
            rest
        } else {
            match binary_name_version(e.file_name@) {
                Some(m) => rest.push(m),
                None => rest,
            }
        }
    }
}

/// The entries that are not symbolic links: the installed binaries.
pub open spec fn non_links(entries: Seq<DirEntry>) -> Seq<DirEntry> {
    entries.filter(|e: DirEntry| !e.is_symlink)
}

/// Where every binary's name holds a version, each binary gives exactly one
/// version: there are as many versions as binaries, the version of each
/// binary is among them, and each of them is the version of some binary.
pub proof fn law_every_binary_counted(entries: Seq<DirEntry>)
    requires
        forall|i: int| 0 <= i < entries.len() ==> readable(#[trigger] entries[i]),
    ensures
        local_models(entries).len() == non_links(entries).len(),
        forall|i: int|
            0 <= i < entries.len() && !(#[trigger] entries[i]).is_symlink ==> local_models(
                entries,
            ).contains(binary_name_version(entries[i].file_name@)->Some_0),
        forall|k: int|
            0 <= k < local_models(entries).len() ==> exists|i: int|
                0 <= i < entries.len() && !(#[trigger] entries[i]).is_symlink && binary_name_version(
                    entries[i].file_name@,
                ) == Some(#[trigger] local_models(entries)[k]),
    decreases entries.len(),
{
    if entries.len() > 0 {
        let e0 = entries.drop_last();
        let last = entries.last();
        assert forall|i: int| 0 <= i < e0.len() implies readable(#[trigger] e0[i]) by {
            assert(e0[i] == entries[i]);
        }
        law_every_binary_counted(e0);
        assert(e0.push(last) =~= entries);
        e0.lemma_filter_push(last, |e: DirEntry| !e.is_symlink);
        let rest = local_models(e0);
        assert forall|i: int|
            0 <= i < entries.len() && !(#[trigger] entries[i]).is_symlink implies local_models(
                entries,
            ).contains(binary_name_version(entries[i].file_name@)->Some_0) by {
            if i < e0.len() {
                assert(e0[i] == entries[i]);
                let m = binary_name_version(entries[i].file_name@)->Some_0;
                let k = choose|k: int| 0 <= k < rest.len() && rest[k] == m;
                if !last.is_symlink {
                    assert(local_models(entries)[k] == m);
                }
            } else {
                assert(local_models(entries).last() == binary_name_version(last.file_name@)->Some_0);
            }
        }
        assert forall|k: int| 0 <= k < local_models(entries).len() implies exists|i: int|
            0 <= i < entries.len() && !(#[trigger] entries[i]).is_symlink && binary_name_version(
                entries[i].file_name@,
            ) == Some(#[trigger] local_models(entries)[k]) by {
            if k < rest.len() {
                assert(local_models(entries)[k] == rest[k]);
                let i = choose|i: int|
                    0 <= i < e0.len() && !(#[trigger] e0[i]).is_symlink && binary_name_version(
                        e0[i].file_name@,
                    ) == Some(#[trigger] rest[k]);
                assert(entries[i] == e0[i]);
            } else {
                let i = entries.len() - 1;
                assert(entries[i] == last);
            }
        }
    } else {
        reveal(Seq::filter);
    }
}

/// A binary in the directory whose name holds no version.
#[derive(Debug)]
pub struct LocalVersionError {
    pub file_name: String,
    pub cause: BinaryNameError,
}

/// The error names entry `i` and says why its name holds no version.
pub open spec fn names_failure(e: LocalVersionError, entry: DirEntry) -> bool {
    &&& e.file_name@ == entry.file_name@
    &&& match e.cause {
        BinaryNameError::MissingVersionField => version_field(entry.file_name@) is None,
        BinaryNameError::InvalidVersion => version_field(entry.file_name@) is Some,
    }
}

/// The installed versions, newest first: the version of every entry that is
/// not a symbolic link. Fails on the first such entry whose name holds no
/// version, and only then; the program stops on that error (it unwraps it),
/// so no partial list is ever used.
pub fn resolve_local_versions(entries: &Vec<DirEntry>) -> (r: Result<Vec<Version>, LocalVersionError>)
    ensures
        match r {
            Ok(vs) => {
                &&& forall|i: int| 0 <= i < entries@.len() ==> readable(#[trigger] entries@[i])
                &&& sorted_descending(models(vs@))
                &&& models(vs@).to_multiset() == local_models(entries@).to_multiset()
                &&& vs@.len() == non_links(entries@).len()
                &&& forall|i: int|
                    0 <= i < entries@.len() && !(#[trigger] entries@[i]).is_symlink ==> exists|k: int|
                        0 <= k < vs@.len() && binary_name_version(entries@[i].file_name@) == Some(
                            (#[trigger] vs@[k])@,
                        )
                &&& forall|k: int|
                    0 <= k < vs@.len() ==> exists|i: int|
                        0 <= i < entries@.len() && !(#[trigger] entries@[i]).is_symlink
                            && binary_name_version(entries@[i].file_name@) == Some((#[trigger] vs@[k])@)
            },
            Err(e) => exists|i: int|
                0 <= i < entries@.len() && !readable(#[trigger] entries@[i]) && (forall|j: int|
                    0 <= j < i ==> readable(#[trigger] entries@[j])) && names_failure(e, entries@[i]),
        },
{
    let mut sorted: Vec<Version> = Vec::new();
    let n = entries.len();
    let mut i: usize = 0;
    while i < n
        invariant
            n == entries@.len(),
            i <= n,
            forall|j: int| 0 <= j < i ==> readable(#[trigger] entries@[j]),
            descending(models(sorted@)),
            models(sorted@).to_multiset() == local_models(entries@.take(i as int)).to_multiset(),
        decreases n - i,
    {
        let entry = &entries[i];
        assert(entries@.take(i + 1).drop_last() =~= entries@.take(i as int));
        assert(entries@.take(i + 1).last() == entries@[i as int]);
        if !entry.is_symlink {
            match version_from_binary_name(entry.file_name.as_str()) {
                Ok(v) => {
                    insert_descending(&mut sorted, v);
                },
                Err(cause) => {
                    let e = LocalVersionError { file_name: entry.file_name.clone(), cause };
                    assert(!readable(entries@[i as int]));
                    return Err(e);
                },
            }
        }
        i = i + 1;
    }
    assert(entries@.take(n as int) =~= entries@);
    proof {
        lemma_descending_sorted(models(sorted@));
        law_every_binary_counted(entries@);
        let ms = models(sorted@);
        let lm = local_models(entries@);
        assert(ms.to_multiset().len() == ms.len());
        assert(lm.to_multiset().len() == lm.len());
        assert(ms.len() == lm.len());
        assert forall|i: int|
            0 <= i < entries@.len() && !(#[trigger] entries@[i]).is_symlink implies exists|k: int|
                0 <= k < sorted@.len() && binary_name_version(entries@[i].file_name@) == Some(
                    (#[trigger] sorted@[k])@,
                ) by {
            let m = binary_name_version(entries@[i].file_name@)->Some_0;
            assert(lm.contains(m));
            assert(lm.to_multiset().count(m) > 0);
            assert(ms.contains(m));
            let k = choose|k: int| 0 <= k < ms.len() && ms[k] == m;
            assert(sorted@[k]@ == ms[k]);
        }
        assert forall|k: int| 0 <= k < sorted@.len() implies exists|i: int|
            0 <= i < entries@.len() && !(#[trigger] entries@[i]).is_symlink && binary_name_version(
                entries@[i].file_name@,
            ) == Some((#[trigger] sorted@[k])@) by {
            let m = ms[k];
            assert(ms.contains(m));
            assert(ms.to_multiset().count(m) > 0);
            assert(lm.contains(m));
            let j = choose|j: int| 0 <= j < lm.len() && lm[j] == m;
            assert(lm[j] == m);
        }
    }
    Ok(sorted)
}


/// `gql-<version>`, the file name of an installed binary.
pub open spec fn binary_name(version: Seq<char>) -> Seq<char> {
    "gql-"@ + version
}

pub fn version_binary_name(version: &str) -> (name: String)
    ensures
        name@ == binary_name(version@),
{
    let mut name = String::from_str("gql-");
    name.append(version);
    name
}

/// Where the binary of `version` is installed: `<binaries>/gql-<version>`.
pub fn version_binary_path(binaries: &str, version: &str) -> (path: String)
    ensures
        path@ == join_path(binaries@, binary_name(version@)),
{
    let name = version_binary_name(version);
    join(binaries, name.as_str())
}


/// The first `-`-separated field of `gql-<text>` is `gql`, so the version
/// field is `text` up to its first `-`: all of it when it holds none.
proof fn lemma_version_field_of_binary_name(prefix: Seq<char>, rest: Seq<char>)
    requires
        forall|i: int| 0 <= i < prefix.len() ==> prefix[i] != '-',
    ensures
        version_field(binary_name(prefix)) == Some(prefix),
        version_field(binary_name(prefix + seq!['-'] + rest)) == Some(prefix),
{
    reveal_strlit("gql-");
    let gql = seq!['g', 'q', 'l'];
    lemma_split_fields_single(gql, '-');
    lemma_split_fields_single(prefix, '-');
    assert(binary_name(prefix) =~= gql + seq!['-'] + prefix);
    lemma_split_fields_concat(gql, prefix, '-');
    assert(binary_name(prefix + seq!['-'] + rest) =~= gql + seq!['-'] + (prefix + seq!['-'] + rest));
    lemma_split_fields_concat(gql, prefix + seq!['-'] + rest, '-');
    lemma_split_fields_concat(prefix, rest, '-');
}

/// The text `major.minor.patch` of a version.
pub open spec fn release_numbers_text(v: VersionModel) -> Seq<char> {
    decimal(v.0 as nat) + seq!['.'] + decimal(v.1 as nat) + seq!['.'] + decimal(v.2 as nat)
}

/// `major.minor.patch` is made of digits and dots, so holds no `-`.
proof fn lemma_release_numbers_no_dash(v: VersionModel)
    ensures
        forall|i: int| 0 <= i < release_numbers_text(v).len() ==> #[trigger] release_numbers_text(v)[i] != '-',
{
    lemma_decimal_digits_only(v.0 as nat);
    lemma_decimal_digits_only(v.1 as nat);
    lemma_decimal_digits_only(v.2 as nat);
    let nums = release_numbers_text(v);
    assert forall|i: int| 0 <= i < nums.len() implies nums[i] != '-' by {
        let d0 = decimal(v.0 as nat);
        let d1 = decimal(v.1 as nat);
        let d2 = decimal(v.2 as nat);
        if i < d0.len() {
            assert(is_ascii_digit(d0[i]));
        } else if i == d0.len() {
        } else if i < d0.len() + 1 + d1.len() {
            assert(is_ascii_digit(d1[i - d0.len() - 1]));
        } else if i == d0.len() + 1 + d1.len() {
        } else {
            assert(is_ascii_digit(d2[i - d0.len() - 2 - d1.len()]));
        }
    }
}

/// The binary that `install` writes for a version, `gql-<version>`, is read
/// back as that very version text when the text holds no `-`: the version
/// has no pre-release and its build metadata holds no `-`.
pub proof fn law_binary_name_round_trip(v: VersionModel)
    requires
        v.3.len() == 0,
        forall|i: int| 0 <= i < v.4.len() ==> v.4[i] != '-',
    ensures
        version_field(binary_name(version_text(v))) == Some(version_text(v)),
{
    lemma_release_numbers_no_dash(v);
    let nums = release_numbers_text(v);
    let t = version_text(v);
    let build = if v.4.len() > 0 {
        seq!['+'] + v.4
    } else {
        Seq::empty()
    };
    assert(t =~= nums + build);
    assert forall|i: int| 0 <= i < t.len() implies t[i] != '-' by {
        if i < nums.len() {
            assert(t[i] == nums[i]);
        } else if i > nums.len() {
            assert(t[i] == v.4[i - nums.len() - 1]);
        }
    }
    lemma_version_field_of_binary_name(t, Seq::empty());
}

/// A version with a pre-release is written `major.minor.patch-pre...`, so
/// its binary's name is read back as `major.minor.patch` alone.
pub proof fn law_binary_name_drops_prerelease(v: VersionModel)
    requires
        v.3.len() > 0,
    ensures
        version_field(binary_name(version_text(v))) == Some(release_numbers_text(v)),
{
    lemma_release_numbers_no_dash(v);
    let nums = release_numbers_text(v);
    let rest = v.3 + (if v.4.len() > 0 {
        seq!['+'] + v.4
    } else {
        Seq::empty()
    });
    assert(version_text(v) =~= nums + seq!['-'] + rest);
    lemma_version_field_of_binary_name(nums, rest);
}

/// The file name of the binary of a version, `gql-<version>`. Reading the
/// version back from that name gives the same version when the written
/// version holds no `-` (no pre-release, no `-` in the build metadata).
pub fn binary_name_of(v: &Version) -> (name: String)
    ensures
        name@ == binary_name(version_text(v@)),
        v@.3.len() == 0 && (forall|i: int| 0 <= i < v@.4.len() ==> v@.4[i] != '-')
            ==> binary_name_version(name@) == Some(v@),
        v@.3.len() > 0 ==> version_field(name@) == Some(release_numbers_text(v@)),
{
    let text = v.to_string();
    proof {
        if v@.3.len() == 0 && (forall|i: int| 0 <= i < v@.4.len() ==> v@.4[i] != '-') {
            law_binary_name_round_trip(v@);
        }
        if v@.3.len() > 0 {
            law_binary_name_drops_prerelease(v@);
        }
    }
    version_binary_name(text.as_str())
}

/// Whether two texts are equal.
pub fn same_text(a: &str, b: &str) -> (same: bool)
    ensures
        same == (a@ == b@),
{
    a.to_owned() == b.to_owned()
}

/// Whether a requested version is the word `latest`.
pub fn names_latest(version: &str) -> (latest: bool)
    ensures
        latest == (version@ == "latest"@),
{
    same_text(version, "latest")
}

} // verus!
