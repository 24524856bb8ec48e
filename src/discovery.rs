//! Finding the variants under `<home>/.ssh`: each immediate subdirectory is one variant,
//! and the first `.pub` file in it names its key pair.

use vstd::prelude::*;
use vstd::string::*;

use crate::errors::VariantError;
use crate::model::{KeyPair, Variant, VariantView};

verus! {

/// One immediate entry of the convention root, as the file system listed it.
pub struct Entry {
    /// The final path segment, or `None` where it is not valid text.
    pub name: Option<String>,
    /// Whether the entry is a directory.
    pub is_dir: bool,
    /// For a directory, the names of the regular files directly inside it, in listing order
    /// (`None` for a name that is not valid text); empty otherwise.
    pub files: Vec<Option<String>>,
}

/// `name` placed under the directory `dir`.
pub open spec fn join(dir: Seq<char>, name: Seq<char>) -> Seq<char> {
    dir + "/"@ + name
}

pub open spec fn ends_with(s: Seq<char>, suffix: Seq<char>) -> bool {
    s.len() >= suffix.len() && s.subrange(s.len() - suffix.len(), s.len() as int) == suffix
}

/// A public key file name: ends with `.pub` and is not `config`.
pub open spec fn is_key_file(name: Seq<char>) -> bool {
    name != "config"@ && ends_with(name, ".pub"@)
}

/// The name with its last four characters (the `.pub` suffix) taken off.
pub open spec fn strip_pub(name: Seq<char>) -> Seq<char> {
    name.subrange(0, name.len() - 4)
}

/// Key-pair resolution over the file names from index `i` on: the first public key
/// file name, an invalid name met before it, or no key at all.
pub open spec fn scan_keys(files: Seq<Option<String>>, i: int) -> Result<Seq<char>, VariantError>
    decreases files.len() - i,
{
    if i < 0 || i >= files.len() {
        Err(VariantError::NoPrivateKey)
    } else {
        match files[i] {
            None => Err(VariantError::InvalidName),
            Some(n) => if is_key_file(n@) {
                Ok(n@)
            } else {
                scan_keys(files, i + 1)
            },
        }
    }
}

/// The variant that a directory entry of `root` stands for, or why it cannot be one.
pub open spec fn entry_variant(root: Seq<char>, e: Entry) -> Result<VariantView, VariantError> {
    match e.name {
        None => Err(VariantError::InvalidName),
        Some(n) => match scan_keys(e.files@, 0) {
            Ok(k) => Ok(
                VariantView {
                    name: n@,
                    public_key: join(join(root, n@), k),
                    private_key: join(join(root, n@), strip_pub(k)),
                },
            ),
            Err(x) => Err(x),
        },
    }
}

/// Discovery over a listing: one variant per directory entry, in listing order; the first
/// directory that cannot be a variant fails the whole scan.
pub open spec fn discover(root: Seq<char>, es: Seq<Entry>) -> Result<Seq<VariantView>, VariantError>
    decreases es.len(),
{
    if es.len() == 0 {
        Ok(Seq::empty())
    } else {
        match discover(root, es.drop_last()) {
            Err(x) => Err(x),
            Ok(vs) => if !es.last().is_dir {
                Ok(vs)
            } else {
                match entry_variant(root, es.last()) {
                    Ok(v) => Ok(vs.push(v)),
                    Err(x) => Err(x),
                }
            },
        }
    }
}

/// The directory entries of a listing, in order.
pub open spec fn dirs(es: Seq<Entry>) -> Seq<Entry>
    decreases es.len(),
{
    if es.len() == 0 {
        Seq::empty()
    } else if es.last().is_dir {
        dirs(es.drop_last()).push(es.last())
    } else {
        dirs(es.drop_last())
    }
}

pub open spec fn views(vs: Seq<Variant>) -> Seq<VariantView> {
    vs.map_values(|v: Variant| v@)
}

/// A failure on a prefix of the listing is the failure of the whole listing.
proof fn lemma_discover_failure_persists(root: Seq<char>, es: Seq<Entry>, k: int)
    requires
        0 <= k <= es.len(),
        discover(root, es.subrange(0, k)) is Err,
    ensures
        discover(root, es) == discover(root, es.subrange(0, k)),
    decreases es.len(),
{
    if k == es.len() {
        assert(es.subrange(0, k) =~= es);
    } else {
        assert(es.drop_last().subrange(0, k) =~= es.subrange(0, k));
        lemma_discover_failure_persists(root, es.drop_last(), k);
    }
}

fn join_path(dir: &String, name: &str) -> (r: String)
    ensures
        r@ == join(dir@, name@),
{
    let mut r = dir.clone();
    r.append("/");
    r.append(name);
    r
}

fn is_key_name(name: &String) -> (r: bool)
    ensures
        r == is_key_file(name@),
{
    proof {
        reveal_strlit(".pub");
    }
    let s = name.as_str();
    let l = s.unicode_len();
    if l < 4 {
        return false;
    }
    let tail = String::from_str(s.substring_char(l - 4, l));
    let suffix = String::from_str(".pub");
    let config = String::from_str("config");
    tail.eq(&suffix) && !name.eq(&config)
}

/// The key pair of the variant directory `dir`, from the names of its regular files in
/// listing order: the first name (other than `config`) that ends with `.pub` is the public
/// key, and the same name without that suffix is the private key beside it.
pub fn keys(dir: &String, files: &Vec<Option<String>>) -> (r: Result<KeyPair, VariantError>)
    ensures
        match scan_keys(files@, 0) {
            Ok(k) => r is Ok && r->Ok_0.0@ == join(dir@, k) && r->Ok_0.1@ == join(dir@, strip_pub(k)),
            Err(x) => r == Err::<KeyPair, VariantError>(x),
        },
{
    let mut i: usize = 0;
    while i < files.len()
        invariant
            0 <= i <= files@.len(),
            scan_keys(files@, 0) == scan_keys(files@, i as int),
        decreases files@.len() - i,
    {
        match &files[i] {
            None => {
                return Err(VariantError::InvalidName);
            },
            Some(n) => {
                if is_key_name(n) {
                    proof {
                        reveal_strlit(".pub");
                    }
                    let s = n.as_str();
                    let l = s.unicode_len();
                    let public = join_path(dir, s);
                    let private = join_path(dir, s.substring_char(0, l - 4));
                    return Ok((public, private));
                }
            },
        }
        i += 1;
    }
    Err(VariantError::NoPrivateKey)
}


/// All variants under the convention root `root`, from a listing of its immediate entries
/// (`None` where `root` does not exist or is not a directory).
pub fn variants(root: &String, listing: Option<Vec<Entry>>) -> (r: Result<Vec<Variant>, VariantError>)
    ensures
        match listing {
            None => r == Err::<Vec<Variant>, VariantError>(VariantError::NoRoot),
            Some(es) => match discover(root@, es@) {
                Ok(vs) => r is Ok && views(r->Ok_0@) == vs,
                Err(x) => r == Err::<Vec<Variant>, VariantError>(x),
            },
        },
{
    let entries = match listing {
        None => {
            return Err(VariantError::NoRoot);
        },
        Some(es) => es,
    };
    let mut found: Vec<Variant> = Vec::new();
    let mut i: usize = 0;
    proof {
        assert(entries@.subrange(0, 0) =~= Seq::<Entry>::empty());
        assert(views(found@) =~= Seq::<VariantView>::empty());
    }
    while i < entries.len()
        invariant
            listing == Some(entries),
            0 <= i <= entries@.len(),
            discover(root@, entries@.subrange(0, i as int)) == Ok::<Seq<VariantView>, VariantError>(
                views(found@),
            ),
        decreases entries@.len() - i,
    {
        let e = &entries[i];
        proof {
            assert(entries@.subrange(0, i + 1).drop_last() =~= entries@.subrange(0, i as int));
            assert(entries@.subrange(0, i + 1).last() == entries@[i as int]);
        }
        if e.is_dir {
            let name = match &e.name {
                None => {
                    proof {
                        lemma_discover_failure_persists(root@, entries@, i + 1);
                    }
                    return Err(VariantError::InvalidName);
                },
                Some(n) => n,
            };
            let dir = join_path(root, name.as_str());
            let pair = match keys(&dir, &e.files) {
                Err(x) => {
                    proof {
                        lemma_discover_failure_persists(root@, entries@, i + 1);
                    }
                    return Err(x);
                },
                Ok(p) => p,
            };
            let v = Variant { name: name.clone(), keys: pair };
            let ghost before = found@;
            found.push(v);
            proof {
                assert(views(found@) =~= views(before).push(v@));
            }
        }
        i += 1;
    }
    proof {
        assert(entries@.subrange(0, entries@.len() as int) =~= entries@);
    }
    Ok(found)
}

/// The index of the first variant from index `i` on that carries `name`.
pub open spec fn first_named(vs: Seq<VariantView>, name: Seq<char>, i: int) -> Option<int>
    decreases vs.len() - i,
{
    if i < 0 || i >= vs.len() {
        None
    } else if vs[i].name == name {
        Some(i)
    } else {
        first_named(vs, name, i + 1)
    }
}

/// The variant called `name` among those that discovery found.
pub fn find_by_name(variants: Vec<Variant>, name: &String) -> (r: Result<Variant, VariantError>)
    ensures
        match first_named(views(variants@), name@, 0) {
            Some(k) => r == Ok::<Variant, VariantError>(variants@[k]),
            None => r == Err::<Variant, VariantError>(VariantError::NotFound),
        },
{
    let ghost all = variants@;
    let mut pool = variants;
    let mut i: usize = 0;
    while i < pool.len()
        invariant
            pool@ == all,
            all == variants@,
            0 <= i <= all.len(),
            first_named(views(all), name@, 0) == first_named(views(all), name@, i as int),
        decreases all.len() - i,
    {
        assert(views(all)[i as int] == all[i as int]@);
        if pool[i].name.eq(name) {
            assert(first_named(views(all), name@, i as int) == Some(i as int));
            let v = pool.remove(i);
            assert(v == all[i as int]);
            return Ok(v);
        }
        i += 1;
    }
    Err(VariantError::NotFound)
}

/// The key file that resolution picks is a public key file name.
pub proof fn lemma_scan_picks_key_file(files: Seq<Option<String>>, i: int)
    ensures
        scan_keys(files, i) is Ok ==> is_key_file(scan_keys(files, i)->Ok_0),
    decreases files.len() - i,
{
    if 0 <= i < files.len() {
        lemma_scan_picks_key_file(files, i + 1);
    }
}

/// A directory whose files all have valid names, none of them a public key file (for
/// instance one that holds only `config`), has no private key.
pub proof fn lemma_keyless_files(files: Seq<Option<String>>, i: int)
    requires
        forall|j: int| 0 <= j < files.len() ==> (#[trigger] files[j]) is Some && !is_key_file(files[j]->Some_0@),
    ensures
        scan_keys(files, i) == Err::<Seq<char>, VariantError>(VariantError::NoPrivateKey),
    decreases files.len() - i,
{
    if 0 <= i < files.len() {
        lemma_keyless_files(files, i + 1);
    }
}

/// The public key of a variant is the path of its private key followed by `.pub`.
pub proof fn lemma_entry_key_pair(root: Seq<char>, e: Entry)
    requires
        entry_variant(root, e) is Ok,
    ensures
        entry_variant(root, e)->Ok_0.public_key == entry_variant(root, e)->Ok_0.private_key + ".pub"@,
{
    reveal_strlit(".pub");
    lemma_scan_picks_key_file(e.files@, 0);
    let k = scan_keys(e.files@, 0)->Ok_0;
    assert(k =~= strip_pub(k) + ".pub"@);
    let d = join(root, e.name->Some_0@);
    assert(join(d, k) =~= join(d, strip_pub(k)) + ".pub"@);
}

/// Discovery yields exactly one variant per directory of the listing, in listing order, each
/// named after its directory and with a public key that is its private key path followed by
/// `.pub`; it fails exactly when some directory cannot be a variant.
pub proof fn lemma_discovery_shape(root: Seq<char>, es: Seq<Entry>)
    ensures
        discover(root, es) is Ok <==> forall|k: int|
            0 <= k < dirs(es).len() ==> (#[trigger] entry_variant(root, dirs(es)[k])) is Ok,
        discover(root, es) is Ok ==> {
            let vs = discover(root, es)->Ok_0;
            &&& vs.len() == dirs(es).len()
            &&& forall|k: int|
                0 <= k < vs.len() ==> entry_variant(root, #[trigger] dirs(es)[k]) == Ok::<
                    VariantView,
                    VariantError,
                >(vs[k])
            &&& forall|k: int|
                0 <= k < vs.len() ==> (#[trigger] vs[k]).name == dirs(es)[k].name->Some_0@
                    && vs[k].public_key == vs[k].private_key + ".pub"@
        },
    decreases es.len(),
{
    if es.len() > 0 {
        let prev = es.drop_last();
        lemma_discovery_shape(root, prev);
        if es.last().is_dir {
            let ds = dirs(es);
            assert(ds == dirs(prev).push(es.last()));
            assert(ds[ds.len() - 1] == es.last());
            if entry_variant(root, es.last()) is Ok {
                lemma_entry_key_pair(root, es.last());
            }
            if discover(root, es) is Ok {
                let vs = discover(root, es)->Ok_0;
                assert forall|k: int| 0 <= k < vs.len() implies (#[trigger] vs[k]).name
                    == ds[k].name->Some_0@ && vs[k].public_key == vs[k].private_key + ".pub"@ by {
                    if k < vs.len() - 1 {
                        assert(ds[k] == dirs(prev)[k]);
                    }
                }
            }
            if forall|k: int| 0 <= k < ds.len() ==> (#[trigger] entry_variant(root, ds[k])) is Ok {
                assert(entry_variant(root, ds[ds.len() - 1]) is Ok);
                assert forall|k: int| 0 <= k < dirs(prev).len() implies (#[trigger] entry_variant(
                    root,
                    dirs(prev)[k],
                )) is Ok by {
                    assert(ds[k] == dirs(prev)[k]);
                }
            }
        }
    }
}

proof fn lemma_dirs_hold(es: Seq<Entry>, k: int)
    requires
        0 <= k < es.len(),
        es[k].is_dir,
    ensures
        exists|j: int| 0 <= j < dirs(es).len() && dirs(es)[j] == es[k],
    decreases es.len(),
{
    let prev = es.drop_last();
    if k == es.len() - 1 {
        assert(dirs(es)[dirs(es).len() - 1] == es[k]);
    } else {
        lemma_dirs_hold(prev, k);
        let j = choose|j: int| 0 <= j < dirs(prev).len() && dirs(prev)[j] == prev[k];
        assert(dirs(es)[j] == es[k]);
    }
}

/// A directory without any public key file (for instance one that holds only `config`) is no
/// variant, and discovery over a listing that holds it fails.
pub proof fn lemma_keyless_directory_fails(root: Seq<char>, es: Seq<Entry>, k: int)
    requires
        0 <= k < es.len(),
        es[k].is_dir,
        es[k].name is Some,
        forall|j: int|
            0 <= j < es[k].files@.len() ==> (#[trigger] es[k].files@[j]) is Some && !is_key_file(
                es[k].files@[j]->Some_0@,
            ),
    ensures
        entry_variant(root, es[k]) == Err::<VariantView, VariantError>(VariantError::NoPrivateKey),
        discover(root, es) is Err,
{
    lemma_keyless_files(es[k].files@, 0);
    lemma_dirs_hold(es, k);
    lemma_discovery_shape(root, es);
}

} // verus!
