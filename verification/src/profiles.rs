//! Profile discovery: turning the entries of a browser's state document
//! into profile descriptors, each with the derived path of its bookmarks
//! file under the profile-root directory.

use vstd::prelude::*;

use vstd::string::StringExecFns;

verus! {

/// Why the profile list could not be read from the state document.
#[derive(Clone, Copy, PartialEq, Eq, Structural, Debug)]
pub enum SchemaError {
    /// The state document has no profile-info collection.
    MissingInfoCache,
    /// A profile entry has no display-name field.
    MissingProfileName,
}

/// One discovered profile: its directory key, its user-facing display name,
/// and the derived path of its bookmarks file.
#[derive(Debug)]
pub struct ProfileDescriptor {
    pub key: String,
    pub display_name: String,
    pub bookmarks_path: String,
}

/// The path of a profile's bookmarks file:
/// `<profile root>/<profile key>/Bookmarks`.
pub open spec fn bookmarks_path_spec(root: Seq<char>, key: Seq<char>) -> Seq<char> {
    root + seq!['/'] + key + seq!['/'] + "Bookmarks"@
}

/// Builds the path of a profile's bookmarks file.
pub fn bookmarks_path(root: &String, key: &String) -> (r: String)
    ensures
        r@ == bookmarks_path_spec(root@, key@),
{
    let mut p = root.clone();
    p.append("/");
    p.append(key.as_str());
    p.append("/");
    p.append("Bookmarks");
    proof {
        reveal_strlit("/");
        assert("/"@ =~= seq!['/']);
        assert(p@ =~= bookmarks_path_spec(root@, key@));
    }
    p
}

/// Whether the descriptors are exactly the reading of the given entries
/// under the given profile root.
pub open spec fn profiles_match(
    ps: Seq<ProfileDescriptor>,
    root: Seq<char>,
    entries: Seq<(String, Option<String>)>,
) -> bool {
    &&& ps.len() == entries.len()
    &&& forall|i: int|
        0 <= i < entries.len() ==> {
            &&& (#[trigger] ps[i]).key@ == entries[i].0@
            &&& ps[i].display_name@ == entries[i].1->0@
            &&& ps[i].bookmarks_path@ == bookmarks_path_spec(root, entries[i].0@)
        }
}

/// Reads the profile list out of a state document's profile-info
/// collection, handed over as one `(directory key, display name)` pair per
/// entry in the document's own order, or `None` when the collection is
/// absent.  Fails with [`SchemaError::MissingInfoCache`] exactly when the
/// collection is absent, and with [`SchemaError::MissingProfileName`]
/// exactly when some entry has no display name.
pub fn list_profiles(
    profile_root: &String,
    info_cache: &Option<Vec<(String, Option<String>)>>,
) -> (r: Result<Vec<ProfileDescriptor>, SchemaError>)
    ensures
        match r {
            Result::Err(e) => {
                if e is MissingInfoCache {
                    info_cache is None
                } else {
                    info_cache is Some && exists|i: int|
                        0 <= i < info_cache->0@.len() && (#[trigger] info_cache->0@[i]).1 is None
                }
            },
            Result::Ok(ps) => {
                &&& info_cache is Some
                &&& forall|i: int|
                    0 <= i < info_cache->0@.len() ==> (#[trigger] info_cache->0@[i]).1 is Some
                &&& profiles_match(ps@, profile_root@, info_cache->0@)
            },
        },
{
    let entries = match info_cache {
        None => {
            return Err(SchemaError::MissingInfoCache);
        },
        Some(es) => es,
    };
    let mut out: Vec<ProfileDescriptor> = Vec::new();
    let mut i: usize = 0;
    while i < entries.len()
        invariant
            info_cache is Some,
            entries@ == info_cache->0@,
            i <= entries@.len(),
            forall|k: int| 0 <= k < i ==> (#[trigger] entries@[k]).1 is Some,
            profiles_match(out@, profile_root@, entries@.take(i as int)),
        decreases entries@.len() - i,
    {
        let name = match &entries[i].1 {
            None => {
                proof {
                    assert(info_cache->0@[i as int].1 is None);
                }
                return Err(SchemaError::MissingProfileName);
            },
            Some(n) => n.clone(),
        };
        let key = entries[i].0.clone();
        let path = bookmarks_path(profile_root, &key);
        out.push(ProfileDescriptor { key, display_name: name, bookmarks_path: path });
        proof {
            assert(entries@.take(i + 1) =~= entries@.take(i as int).push(entries@[i as int]));
            assert(forall|k: int|
                0 <= k < i ==> #[trigger] entries@.take(i + 1)[k] == entries@.take(i as int)[k]);
        }
        i = i + 1;
    }
    proof {
        assert(entries@.take(entries@.len() as int) =~= entries@);
    }
    Ok(out)
}

} // verus!
