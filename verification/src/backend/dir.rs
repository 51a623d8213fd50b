//! Backend that keeps each key in a JSON file of a directory.
//!
//! The key with thumbprint `t` lives in `t.jwk` while it is advertised and in `.t.jwk`
//! while it is not. The file system is touched by the caller; the functions here decide,
//! from what the caller found on disk, what to report and which files to write, rename or
//! remove.
use vstd::prelude::*;
use crate::error::{StoreError, StoreErrorView};
use crate::jwk::{JwkView, MyJwkEcKey, is_valid_thumbprint, spec_thumbprint, validate_thumbprint};
use crate::keys::{KeyMap, KeyView, KeyWithMetadata, spec_metadata, with_advertise};
use crate::text::{is_url_safe_char, str_equal};

verus! {

/// The file name suffix of key files.
pub open spec fn jwk_suffix() -> Seq<char> {
    seq!['.', 'j', 'w', 'k']
}

/// The name of the file of an advertised key.
pub open spec fn advertised_name(t: Seq<char>) -> Seq<char> {
    t + jwk_suffix()
}

/// The name of the file of a key that is not advertised.
pub open spec fn unadvertised_name(t: Seq<char>) -> Seq<char> {
    seq!['.'] + t + jwk_suffix()
}

/// The index of the last `.` of a name, if any.
pub open spec fn last_dot(name: Seq<char>) -> Option<int>
    decreases name.len(),
{
    if name.len() == 0 {
        None
    } else if name.last() == '.' {
        Some(name.len() - 1)
    } else {
        last_dot(name.drop_last())
    }
}

proof fn lemma_last_dot(name: Seq<char>)
    ensures
        match last_dot(name) {
            Some(i) => 0 <= i < name.len() && name[i] == '.',
            None => forall|j: int| 0 <= j < name.len() ==> name[j] != '.',
        },
    decreases name.len(),
{
    if name.len() > 0 && name.last() != '.' {
        lemma_last_dot(name.drop_last());
        if last_dot(name) is None {
            assert forall|j: int| 0 <= j < name.len() implies name[j] != '.' by {
                if j < name.len() - 1 {
                    assert(name.drop_last()[j] == name[j]);
                }
            }
        }
    }
}

/// The extension of a file name, as `std::path::Path::extension` gives it: the part after
/// the last `.`, unless there is no `.`, the only `.` starts the name, or the name is `..`.
pub open spec fn spec_extension(name: Seq<char>) -> Option<Seq<char>> {
    if name =~= seq!['.', '.'] {
        None
    } else {
        match last_dot(name) {
            None => None,
            Some(i) => if i == 0 { None } else { Some(name.subrange(i + 1, name.len() as int)) },
        }
    }
}

/// A file name with the extension `jwk`.
pub open spec fn is_key_file_name(name: Seq<char>) -> bool {
    spec_extension(name) == Some(seq!['j', 'w', 'k'])
}

/// A file name that starts with a dot.
pub open spec fn starts_with_dot(name: Seq<char>) -> bool {
    name.len() > 0 && name[0] == '.'
}

/// An entry of the key directory: its file name and, for a key file that could be read
/// and parsed, the key it holds.
pub struct DirEntry {
    pub file_name: String,
    pub key: Option<MyJwkEcKey>,
}

/// The mathematical value of a [`DirEntry`].
pub struct DirEntryView {
    pub file_name: Seq<char>,
    pub key: Option<JwkView>,
}

impl View for DirEntry {
    type V = DirEntryView;

    open spec fn view(&self) -> DirEntryView {
        DirEntryView {
            file_name: self.file_name@,
            key: match self.key {
                Some(k) => Some(k@),
                None => None,
            },
        }
    }
}

/// The key that a directory entry contributes, if any: one that was read from a key file.
/// A key whose file name starts with a dot is in its unadvertised file and is reported as
/// not advertised; any other key file holds an advertised key.
pub open spec fn entry_key(e: DirEntryView) -> Option<KeyView> {
    if is_key_file_name(e.file_name) {
        match e.key {
            Some(k) => Some(with_advertise(spec_metadata(k), !starts_with_dot(e.file_name))),
            None => None,
        }
    } else {
        None
    }
}

/// The keys of a directory listing, each under its thumbprint; a later entry replaces an
/// earlier one with the same thumbprint.
pub open spec fn spec_collect(s: Seq<DirEntryView>) -> Map<Seq<char>, KeyView>
    decreases s.len(),
{
    if s.len() == 0 {
        Map::empty()
    } else {
        let m = spec_collect(s.drop_last());
        match entry_key(s.last()) {
            Some(k) => m.insert(k.thumbprint, k),
            None => m,
        }
    }
}

/// Whether the advertised and the unadvertised file of one key exist as regular files.
#[derive(Debug, Clone, Copy, PartialEq, Eq, Structural)]
pub struct KeyFiles {
    pub advertised: bool,
    pub unadvertised: bool,
}

/// The outcome of checking one key before it is moved to the state whose file is `target`:
/// `Ok(true)` when its file must be renamed, `Ok(false)` when it is already there.
pub open spec fn spec_move_check(t: Seq<char>, target: bool, source: bool) -> Result<bool, StoreErrorView> {
    if target && !source {
        Ok(false)
    } else if !target && source {
        Ok(true)
    } else if !target && !source {
        Err(StoreErrorView::NoKeysFound(t))
    } else {
        Err(StoreErrorView::AdvertisedAndUnadvertised(t))
    }
}

/// The renames that advertise (when `advertise`) or unadvertise a pair of keys, or the
/// reason why they are refused.
pub open spec fn spec_move_plan(
    signing: Seq<char>,
    derive: Seq<char>,
    signing_files: KeyFiles,
    derive_files: KeyFiles,
    advertise: bool,
) -> Result<Seq<(Seq<char>, Seq<char>)>, StoreErrorView> {
    if !is_valid_thumbprint(signing) {
        Err(StoreErrorView::InvalidThumbprint(signing))
    } else if !is_valid_thumbprint(derive) {
        Err(StoreErrorView::InvalidThumbprint(derive))
    } else {
        let s_check = if advertise {
            spec_move_check(signing, signing_files.advertised, signing_files.unadvertised)
        } else {
            spec_move_check(signing, signing_files.unadvertised, signing_files.advertised)
        };
        let d_check = if advertise {
            spec_move_check(derive, derive_files.advertised, derive_files.unadvertised)
        } else {
            spec_move_check(derive, derive_files.unadvertised, derive_files.advertised)
        };
        match s_check {
            Err(e) => Err(e),
            Ok(move_signing) => match d_check {
                Err(e) => Err(e),
                Ok(move_derive) => Ok(
                    (if move_signing { seq![spec_rename(signing, advertise)] } else { Seq::empty() })
                    + (if move_derive { seq![spec_rename(derive, advertise)] } else { Seq::empty() })
                ),
            },
        }
    }
}

/// The rename that moves a key's file to the advertised (or unadvertised) name.
pub open spec fn spec_rename(t: Seq<char>, advertise: bool) -> (Seq<char>, Seq<char>) {
    if advertise {
        (unadvertised_name(t), advertised_name(t))
    } else {
        (advertised_name(t), unadvertised_name(t))
    }
}

/// A rename of a file of the key directory.
pub struct Rename {
    pub from: String,
    pub to: String,
}

/// The names of the renames of a plan.
pub open spec fn renames_view(v: Seq<Rename>) -> Seq<(Seq<char>, Seq<char>)> {
    v.map_values(|r: Rename| (r.from@, r.to@))
}

/// The files to write when storing a pair of keys.
pub struct StorePlan {
    pub signing_file: String,
    pub derive_file: String,
}

/// The unadvertised files to remove when deleting a pair of keys.
pub struct DeletePlan {
    pub signing_file: Option<String>,
    pub derive_file: Option<String>,
}

/// Which key of a pair a check is about.
#[derive(Debug, Clone, Copy, PartialEq, Eq, Structural)]
pub enum KeyRole {
    Signing,
    Derive,
}

/// `base` is a prefix of `path`, component by component.
pub open spec fn components_prefix(base: Seq<Seq<char>>, path: Seq<Seq<char>>) -> bool {
    base.len() <= path.len() && forall|i: int| 0 <= i < base.len() ==> #[trigger] path[i] == base[i]
}

/// Which file a lookup reads a key from: `Ok(true)` for its advertised file, which is
/// preferred, `Ok(false)` for its unadvertised one.
pub open spec fn spec_choose_key_file(t: Seq<char>, files: KeyFiles) -> Result<bool, StoreErrorView> {
    if files.advertised {
        Ok(true)
    } else if files.unadvertised {
        Ok(false)
    } else {
        Err(StoreErrorView::NoKeyFound(t))
    }
}

/// The result of reading one key file: the key, or the parser's message.
pub open spec fn spec_key_from_file(advertised: bool, parsed: Result<JwkView, Seq<char>>) -> Result<Option<KeyView>, StoreErrorView> {
    match parsed {
        Ok(k) => Ok(Some(with_advertise(spec_metadata(k), advertised))),
        Err(m) => Err(StoreErrorView::UnparsableKey(m)),
    }
}

/// The name of the file of an advertised key: the thumbprint followed by `.jwk`.
pub fn advertised_file_name(thumbprint: &str) -> (r: String)
    ensures
        r@ == advertised_name(thumbprint@),
{
    let mut s = thumbprint.to_owned();
    s.append(".jwk");
    proof {
        reveal_strlit(".jwk");
    }
    assert(s@ =~= advertised_name(thumbprint@));
    s
}

/// The name of the file of a key that is not advertised: a dot, the thumbprint, `.jwk`.
pub fn unadvertised_file_name(thumbprint: &str) -> (r: String)
    ensures
        r@ == unadvertised_name(thumbprint@),
{
    let mut s = ".".to_owned();
    s.append(thumbprint);
    s.append(".jwk");
    proof {
        reveal_strlit(".");
        reveal_strlit(".jwk");
    }
    assert(s@ =~= unadvertised_name(thumbprint@));
    s
}

/// The index of the last `.` of a name.
fn find_last_dot(name: &str) -> (r: Option<usize>)
    ensures
        match r {
            Some(i) => last_dot(name@) == Some(i as int),
            None => last_dot(name@) == None::<int>,
        },
{
    let n = name.unicode_len();
    let mut i: usize = n;
    assert(name@.subrange(0, n as int) =~= name@);
    while i > 0
        invariant
            n == name@.len(),
            i <= n,
            last_dot(name@) == last_dot(name@.subrange(0, i as int)),
        decreases i,
    {
        let c = name.get_char(i - 1);
        let ghost p = name@.subrange(0, i as int);
        assert(p.last() == c);
        if c == '.' {
            return Some(i - 1);
        }
        assert(p.drop_last() =~= name@.subrange(0, i - 1));
        i = i - 1;
    }
    None
}

/// Whether a file name has the extension `jwk`, as `Path::extension` reads it.
pub fn is_key_file(name: &str) -> (r: bool)
    ensures
        r == is_key_file_name(name@),
{
    let n = name.unicode_len();
    proof {
        lemma_last_dot(name@);
    }
    match find_last_dot(name) {
        None => false,
        Some(i) => {
            if i == 0 || n - i != 4 {
                proof {
                    if !(name@ =~= seq!['.', '.']) && i != 0 {
                        assert(name@.subrange(i + 1, n as int).len() != 3);
                    }
                }
                return false;
            }
            let a = name.get_char(i + 1);
            let b = name.get_char(i + 2);
            let c = name.get_char(i + 3);
            let r = a == 'j' && b == 'w' && c == 'k';
            proof {
                if name@ =~= seq!['.', '.'] {
                    assert(n == 2);
                }
                let e = name@.subrange(i + 1, n as int);
                if r {
                    assert(e =~= seq!['j', 'w', 'k']);
                } else {
                    assert(e[0] == a && e[1] == b && e[2] == c);
                }
            }
            r
        },
    }
}

/// Whether a file name starts with a dot.
pub fn file_name_starts_with_dot(name: &str) -> (r: bool)
    ensures
        r == starts_with_dot(name@),
{
    name.unicode_len() > 0 && name.get_char(0) == '.'
}

/// Which files of key `t` a directory listing holds.
pub open spec fn files_in(dir: Set<Seq<char>>, t: Seq<char>) -> KeyFiles {
    KeyFiles { advertised: dir.contains(advertised_name(t)), unadvertised: dir.contains(unadvertised_name(t)) }
}

/// The directory listing after a sequence of renames, or `None` when a rename finds no
/// file to move.
pub open spec fn apply_renames(dir: Set<Seq<char>>, rs: Seq<(Seq<char>, Seq<char>)>) -> Option<Set<Seq<char>>>
    decreases rs.len(),
{
    if rs.len() == 0 {
        Some(dir)
    } else {
        match apply_renames(dir, rs.drop_last()) {
            None => None,
            Some(d) => if d.contains(rs.last().0) {
                Some(d.remove(rs.last().0).insert(rs.last().1))
            } else {
                None
            },
        }
    }
}

proof fn lemma_names_distinct(t1: Seq<char>, t2: Seq<char>)
    requires
        is_valid_thumbprint(t1),
        is_valid_thumbprint(t2),
    ensures
        advertised_name(t1) != unadvertised_name(t2),
        t1 != t2 ==> advertised_name(t1) != advertised_name(t2),
        t1 != t2 ==> unadvertised_name(t1) != unadvertised_name(t2),
{
    assert(jwk_suffix().len() == 4);
    assert(advertised_name(t1)[0] == t1[0]);
    assert(unadvertised_name(t2)[0] == '.');
    assert(is_url_safe_char(t1[0]));
    assert(advertised_name(t1).len() == t1.len() + 4);
    assert(advertised_name(t2).len() == t2.len() + 4);
    assert(unadvertised_name(t1).len() == t1.len() + 5);
    assert(unadvertised_name(t2).len() == t2.len() + 5);
    if advertised_name(t1) == advertised_name(t2) {
        assert(t1.len() == t2.len());
        assert forall|i: int| 0 <= i < t1.len() implies t1[i] == t2[i] by {
            assert(advertised_name(t1)[i] == t1[i]);
            assert(advertised_name(t2)[i] == t2[i]);
        }
        assert(t1 =~= t2);
    }
    if unadvertised_name(t1) == unadvertised_name(t2) {
        assert(t1.len() == t2.len());
        assert forall|i: int| 0 <= i < t1.len() implies t1[i] == t2[i] by {
            assert(unadvertised_name(t1)[i + 1] == t1[i]);
            assert(unadvertised_name(t2)[i + 1] == t2[i]);
        }
        assert(t1 =~= t2);
    }
}

proof fn lemma_apply_one(d: Set<Seq<char>>, r: (Seq<char>, Seq<char>))
    ensures
        apply_renames(d, seq![r]) == if d.contains(r.0) { Some(d.remove(r.0).insert(r.1)) } else { None::<Set<Seq<char>>> },
{
    assert(seq![r].drop_last() =~= Seq::<(Seq<char>, Seq<char>)>::empty());
    assert(apply_renames(d, Seq::<(Seq<char>, Seq<char>)>::empty()) == Some(d));
}

proof fn lemma_apply_two(d: Set<Seq<char>>, r1: (Seq<char>, Seq<char>), r2: (Seq<char>, Seq<char>))
    ensures
        apply_renames(d, seq![r1, r2]) == match apply_renames(d, seq![r1]) {
            None => None,
            Some(d1) => if d1.contains(r2.0) { Some(d1.remove(r2.0).insert(r2.1)) } else { None::<Set<Seq<char>>> },
        },
{
    assert(seq![r1, r2].drop_last() =~= seq![r1]);
}

/// A planned advertisement (or unadvertisement) of two keys with different thumbprints,
/// carried out on the directory the plan was made from, leaves both keys with exactly the
/// target file and no other file changed. The plans are those that
/// `DirBackend::plan_advertise` and `DirBackend::plan_unadvertise` return.
pub proof fn law_move_plan_effect(dir: Set<Seq<char>>, signing: Seq<char>, derive: Seq<char>, advertise: bool, f: Seq<char>)
    requires
        signing != derive,
    ensures
        spec_move_plan(signing, derive, files_in(dir, signing), files_in(dir, derive), advertise) matches Ok(rs) ==> {
            &&& apply_renames(dir, rs) matches Some(d2)
            &&& files_in(d2, signing) == KeyFiles { advertised: advertise, unadvertised: !advertise }
            &&& files_in(d2, derive) == KeyFiles { advertised: advertise, unadvertised: !advertise }
            &&& (f != advertised_name(signing) && f != unadvertised_name(signing) && f != advertised_name(derive)
                && f != unadvertised_name(derive) ==> (d2.contains(f) <==> dir.contains(f)))
        },
{
    let sf = files_in(dir, signing);
    let df = files_in(dir, derive);
    if let Ok(rs) = spec_move_plan(signing, derive, sf, df, advertise) {
        lemma_names_distinct(signing, derive);
        lemma_names_distinct(derive, signing);
        lemma_names_distinct(signing, signing);
        lemma_names_distinct(derive, derive);
        let ms = if advertise { !sf.advertised } else { !sf.unadvertised };
        let md = if advertise { !df.advertised } else { !df.unadvertised };
        let r1 = spec_rename(signing, advertise);
        let r2 = spec_rename(derive, advertise);
        if ms && md {
            assert(rs =~= seq![r1, r2]);
            lemma_apply_two(dir, r1, r2);
            lemma_apply_one(dir, r1);
        } else if ms {
            assert(rs =~= seq![r1]);
            lemma_apply_one(dir, r1);
        } else if md {
            assert(rs =~= seq![r2]);
            lemma_apply_one(dir, r2);
        } else {
            assert(rs =~= Seq::<(Seq<char>, Seq<char>)>::empty());
        }
    }
}

/// Unadvertising two keys right after advertising them, on a directory where each had only
/// its unadvertised file, gives back the directory as it was: the renames of
/// `DirBackend::plan_unadvertise` undo those of `DirBackend::plan_advertise`.
pub proof fn law_unadvertise_undoes_advertise(dir: Set<Seq<char>>, signing: Seq<char>, derive: Seq<char>)
    requires
        signing != derive,
        is_valid_thumbprint(signing),
        is_valid_thumbprint(derive),
        files_in(dir, signing) == (KeyFiles { advertised: false, unadvertised: true }),
        files_in(dir, derive) == (KeyFiles { advertised: false, unadvertised: true }),
    ensures
        spec_move_plan(signing, derive, files_in(dir, signing), files_in(dir, derive), true) matches Ok(rs1)
            && apply_renames(dir, rs1) matches Some(d2)
            && spec_move_plan(signing, derive, files_in(d2, signing), files_in(d2, derive), false) matches Ok(rs2)
            && apply_renames(d2, rs2) == Some(dir),
{
    let rs1 = spec_move_plan(signing, derive, files_in(dir, signing), files_in(dir, derive), true)->Ok_0;
    law_move_plan_effect(dir, signing, derive, true, seq![]);
    let d2 = apply_renames(dir, rs1)->Some_0;
    assert(files_in(d2, signing) == (KeyFiles { advertised: true, unadvertised: false }));
    assert(files_in(d2, derive) == (KeyFiles { advertised: true, unadvertised: false }));
    assert(spec_move_plan(signing, derive, files_in(d2, signing), files_in(d2, derive), false) is Ok);
    let rs2 = spec_move_plan(signing, derive, files_in(d2, signing), files_in(d2, derive), false)->Ok_0;
    law_move_plan_effect(d2, signing, derive, false, seq![]);
    assert(apply_renames(d2, rs2) is Some);
    let d3 = apply_renames(d2, rs2)->Some_0;
    assert forall|f: Seq<char>| d3.contains(f) <==> dir.contains(f) by {
        law_move_plan_effect(dir, signing, derive, true, f);
        law_move_plan_effect(d2, signing, derive, false, f);
    }
    assert(d3 =~= dir);
}

/// Two keys with different thumbprints that were just stored, each in its unadvertised
/// file (the files of `DirBackend::plan_store`), can be advertised:
/// `DirBackend::plan_advertise` accepts them.
pub proof fn law_store_then_advertise(dir: Set<Seq<char>>, signing: Seq<char>, derive: Seq<char>)
    requires
        signing != derive,
        is_valid_thumbprint(signing),
        is_valid_thumbprint(derive),
        !files_in(dir, signing).advertised,
        !files_in(dir, signing).unadvertised,
        !files_in(dir, derive).advertised,
        !files_in(dir, derive).unadvertised,
    ensures
        ({
            let d2 = dir.insert(unadvertised_name(signing)).insert(unadvertised_name(derive));
            spec_move_plan(signing, derive, files_in(d2, signing), files_in(d2, derive), true) is Ok
        }),
{
    lemma_names_distinct(signing, derive);
    lemma_names_distinct(derive, signing);
    lemma_names_distinct(signing, signing);
    lemma_names_distinct(derive, derive);
}

proof fn lemma_last_dot_suffix(x: Seq<char>)
    ensures
        last_dot(x + jwk_suffix()) == Some(x.len() as int),
{
    let n = x + jwk_suffix();
    assert(n.drop_last() =~= x + seq!['.', 'j', 'w']);
    assert((x + seq!['.', 'j', 'w']).drop_last() =~= x + seq!['.', 'j']);
    assert((x + seq!['.', 'j']).drop_last() =~= x + seq!['.']);
    reveal_with_fuel(last_dot, 4);
}

proof fn lemma_key_file_name(x: Seq<char>)
    requires
        x.len() > 0,
    ensures
        is_key_file_name(x + jwk_suffix()),
{
    let n = x + jwk_suffix();
    lemma_last_dot_suffix(x);
    assert(!(n =~= seq!['.', '.']) ) by {
        assert(n.len() != 2);
    }
    assert(n.subrange(x.len() as int + 1, n.len() as int) =~= seq!['j', 'w', 'k']);
}

/// The files that the store writes are key files: a listing reads a key from its advertised
/// file as advertised and from its unadvertised file as not advertised, exactly as a lookup
/// that reads the same file does (`DirBackend::collect_keys` against
/// `DirBackend::key_from_file`).
pub proof fn law_listing_matches_lookup(t: Seq<char>, k: JwkView, advertised: bool)
    requires
        is_valid_thumbprint(t),
    ensures
        ({
            let name = if advertised { advertised_name(t) } else { unadvertised_name(t) };
            &&& entry_key(DirEntryView { file_name: name, key: Some(k) }) == Some(with_advertise(spec_metadata(k), advertised))
            &&& spec_key_from_file(advertised, Ok(k)) == Ok::<Option<KeyView>, StoreErrorView>(Some(with_advertise(spec_metadata(k), advertised)))
        }),
{
    lemma_key_file_name(t);
    assert(unadvertised_name(t) =~= (seq!['.'] + t) + jwk_suffix());
    lemma_key_file_name(seq!['.'] + t);
    assert(advertised_name(t)[0] == t[0]);
    assert(is_url_safe_char(t[0]));
}

/// A key that was just stored, in a directory that held no file of it, reads back by lookup
/// and by listing as the same key, not advertised: `DirBackend::choose_key_file` picks its
/// unadvertised file, and `DirBackend::key_from_file` and `DirBackend::collect_keys` read
/// it as not advertised.
pub proof fn law_store_then_get(dir: Set<Seq<char>>, t: Seq<char>, other: Seq<char>, k: JwkView)
    requires
        is_valid_thumbprint(t),
        is_valid_thumbprint(other),
        !files_in(dir, t).advertised,
        !files_in(dir, t).unadvertised,
    ensures
        ({
            let d2 = dir.insert(unadvertised_name(t)).insert(unadvertised_name(other));
            &&& spec_choose_key_file(t, files_in(d2, t)) == Ok::<bool, StoreErrorView>(false)
            &&& spec_key_from_file(false, Ok(k)) == Ok::<Option<KeyView>, StoreErrorView>(Some(spec_metadata(k)))
            &&& entry_key(DirEntryView { file_name: unadvertised_name(t), key: Some(k) }) == Some(spec_metadata(k))
        }),
{
    lemma_names_distinct(t, other);
    lemma_names_distinct(t, t);
    law_listing_matches_lookup(t, k, false);
    assert(with_advertise(spec_metadata(k), false) == spec_metadata(k));
}

/// Advertising (or unadvertising) a pair a second time, right after it succeeded, renames
/// nothing. It holds for any two thumbprints, equal ones too: the first request succeeds
/// when its plan is accepted and every rename of the plan finds its file. The plans are
/// those of `DirBackend::plan_advertise` and `DirBackend::plan_unadvertise`.
pub proof fn law_move_twice_renames_nothing(dir: Set<Seq<char>>, signing: Seq<char>, derive: Seq<char>, advertise: bool)
    requires
        spec_move_plan(signing, derive, files_in(dir, signing), files_in(dir, derive), advertise) matches Ok(rs)
            && apply_renames(dir, rs) is Some,
    ensures
        ({
            let rs = spec_move_plan(signing, derive, files_in(dir, signing), files_in(dir, derive), advertise)->Ok_0;
            let d2 = apply_renames(dir, rs)->Some_0;
            spec_move_plan(signing, derive, files_in(d2, signing), files_in(d2, derive), advertise)
                == Ok::<Seq<(Seq<char>, Seq<char>)>, StoreErrorView>(Seq::empty())
        }),
{
    let rs = spec_move_plan(signing, derive, files_in(dir, signing), files_in(dir, derive), advertise)->Ok_0;
    let d2 = apply_renames(dir, rs)->Some_0;
    if signing != derive {
        law_move_plan_effect(dir, signing, derive, advertise, seq![]);
    } else {
        lemma_names_distinct(signing, signing);
        let f = files_in(dir, signing);
        let moves = if advertise { !f.advertised } else { !f.unadvertised };
        let r = spec_rename(signing, advertise);
        if moves {
            // Both renames move the same file: the second finds nothing to move.
            assert(rs =~= seq![r, r]);
            lemma_apply_two(dir, r, r);
            lemma_apply_one(dir, r);
            assert(false);
        } else {
            assert(rs =~= Seq::<(Seq<char>, Seq<char>)>::empty());
            assert(d2 == dir);
        }
    }
    let rs2 = spec_move_plan(signing, derive, files_in(d2, signing), files_in(d2, derive), advertise)->Ok_0;
    assert(rs2 =~= Seq::<(Seq<char>, Seq<char>)>::empty());
}

/// One law over storing, advertising and listing: after a pair of new keys is stored, a
/// listing and a lookup both report the signing key as not advertised; after the pair is
/// advertised, both report it as advertised. The steps are `DirBackend::plan_store`,
/// `DirBackend::plan_advertise`, `DirBackend::collect_keys` for the listing, and
/// `DirBackend::choose_key_file` with `DirBackend::key_from_file` for the lookup.
pub proof fn law_store_advertise_list(dir: Set<Seq<char>>, signing: Seq<char>, derive: Seq<char>, k: JwkView)
    requires
        signing != derive,
        is_valid_thumbprint(signing),
        is_valid_thumbprint(derive),
        !files_in(dir, signing).advertised,
        !files_in(dir, signing).unadvertised,
        !files_in(dir, derive).advertised,
        !files_in(dir, derive).unadvertised,
    ensures
        ({
            let d1 = dir.insert(unadvertised_name(signing)).insert(unadvertised_name(derive));
            let stored = with_advertise(spec_metadata(k), false);
            let advertised = with_advertise(spec_metadata(k), true);
            &&& files_in(d1, signing) == (KeyFiles { advertised: false, unadvertised: true })
            &&& entry_key(DirEntryView { file_name: unadvertised_name(signing), key: Some(k) }) == Some(stored)
            &&& spec_choose_key_file(signing, files_in(d1, signing)) == Ok::<bool, StoreErrorView>(false)
            &&& spec_key_from_file(false, Ok(k)) == Ok::<Option<KeyView>, StoreErrorView>(Some(stored))
            &&& spec_move_plan(signing, derive, files_in(d1, signing), files_in(d1, derive), true) matches Ok(rs)
            &&& apply_renames(d1, rs) matches Some(d2)
            &&& files_in(d2, signing) == (KeyFiles { advertised: true, unadvertised: false })
            &&& entry_key(DirEntryView { file_name: advertised_name(signing), key: Some(k) }) == Some(advertised)
            &&& spec_choose_key_file(signing, files_in(d2, signing)) == Ok::<bool, StoreErrorView>(true)
            &&& spec_key_from_file(true, Ok(k)) == Ok::<Option<KeyView>, StoreErrorView>(Some(advertised))
        }),
{
    let d1 = dir.insert(unadvertised_name(signing)).insert(unadvertised_name(derive));
    law_store_then_get(dir, signing, derive, k);
    law_store_then_advertise(dir, signing, derive);
    law_listing_matches_lookup(signing, k, false);
    law_listing_matches_lookup(signing, k, true);
    law_move_plan_effect(d1, signing, derive, true, seq![]);
}

/// A listing does not depend on entries that are not key files: removing one from anywhere
/// in the listing gives the same keys from `DirBackend::collect_keys`.
pub proof fn law_listing_ignores_other_files(a: Seq<DirEntryView>, e: DirEntryView, b: Seq<DirEntryView>)
    requires
        !is_key_file_name(e.file_name),
    ensures
        spec_collect(a + seq![e] + b) == spec_collect(a + b),
    decreases b.len(),
{
    if b.len() == 0 {
        assert(a + seq![e] + b =~= a.push(e));
        assert(a + b =~= a);
        assert(a.push(e).drop_last() =~= a);
    } else {
        law_listing_ignores_other_files(a, e, b.drop_last());
        assert((a + seq![e] + b).drop_last() =~= a + seq![e] + b.drop_last());
        assert((a + b).drop_last() =~= a + b.drop_last());
        assert((a + seq![e] + b).last() == b.last());
        assert((a + b).last() == b.last());
    }
}

/// A key directory.
pub struct DirBackend {
    path: String,
}

impl DirBackend {
    pub closed spec fn spec_path(&self) -> Seq<char> {
        self.path@
    }

    /// The path of the key directory.
    pub fn path(&self) -> (r: &String)
        ensures
            r@ == self.spec_path(),
    {
        &self.path
    }

    /// A backend for the directory at `path`, given whether it exists and whether it is a
    /// directory.
    pub fn new(path: String, exists: bool, is_dir: bool) -> (r: Result<DirBackend, StoreError>)
        ensures
            !exists ==> (r matches Err(StoreError::DatabaseMissing(p)) && p@ == path@),
            exists && !is_dir ==> (r matches Err(StoreError::NotADirectory(p)) && p@ == path@),
            exists && is_dir ==> (r matches Ok(b) && b.spec_path() == path@),
    {
        if !exists {
            return Err(StoreError::DatabaseMissing(path));
        }
        if !is_dir {
            return Err(StoreError::NotADirectory(path));
        }
        Ok(DirBackend { path })
    }

    /// Checks, before the keys are listed, that the directory still exists and is a
    /// directory.
    pub fn check_database(&self, exists: bool, is_dir: bool) -> (r: Result<(), StoreError>)
        ensures
            !exists ==> (r matches Err(StoreError::DatabaseMissing(p)) && p@ == self.spec_path()),
            exists && !is_dir ==> (r matches Err(StoreError::NotADirectory(p)) && p@ == self.spec_path()),
            exists && is_dir ==> r is Ok,
    {
        if !exists {
            return Err(StoreError::DatabaseMissing(self.path.clone()));
        }
        if !is_dir {
            return Err(StoreError::NotADirectory(self.path.clone()));
        }
        Ok(())
    }

    /// Checks, before a key is looked up, that the directory is a directory.
    pub fn check_directory(&self, is_dir: bool) -> (r: Result<(), StoreError>)
        ensures
            !is_dir ==> (r matches Err(StoreError::NotADirectory(p)) && p@ == self.spec_path()),
            is_dir ==> r is Ok,
    {
        if !is_dir {
            return Err(StoreError::NotADirectory(self.path.clone()));
        }
        Ok(())
    }

    /// The keys of a directory listing. Entries that are not key files, and key files that
    /// could not be read or parsed, are skipped; a key whose file name starts with a dot is
    /// reported as not advertised, any other as advertised; a later entry replaces an
    /// earlier one with the same thumbprint.
    pub fn collect_keys(entries: &Vec<DirEntry>) -> (r: KeyMap)
        ensures
            r.wf(),
            r@ == spec_collect(entries@.map_values(|e: DirEntry| e@)),
    {
        let ghost views = entries@.map_values(|e: DirEntry| e@);
        let mut map = KeyMap::new();
        let mut i: usize = 0;
        while i < entries.len()
            invariant
                i <= entries@.len(),
                views == entries@.map_values(|e: DirEntry| e@),
                map.wf(),
                map@ == spec_collect(views.subrange(0, i as int)),
            decreases entries@.len() - i,
        {
            let e = &entries[i];
            proof {
                assert(views.subrange(0, i + 1).drop_last() =~= views.subrange(0, i as int));
                assert(views.subrange(0, i + 1).last() == e@);
            }
            if is_key_file(e.file_name.as_str()) {
                match &e.key {
                    Some(k) => {
                        let mut meta = KeyWithMetadata::from(k.duplicate());
                        meta.advertise = !file_name_starts_with_dot(e.file_name.as_str());
                        map.insert(meta);
                    },
                    None => {},
                }
            }
            i = i + 1;
        }
        assert(views.subrange(0, entries@.len() as int) =~= views);
        map
    }

    /// Which file holds a key: `Ok(true)` for its advertised file, which is preferred,
    /// `Ok(false)` for its unadvertised one.
    pub fn choose_key_file(thumbprint: &str, advertised_present: bool, unadvertised_present: bool) -> (r: Result<bool, StoreError>)
        ensures
            spec_choose_key_file(thumbprint@, KeyFiles { advertised: advertised_present, unadvertised: unadvertised_present })
                == match r { Ok(b) => Ok(b), Err(e) => Err(e@) },
    {
        if advertised_present {
            Ok(true)
        } else if unadvertised_present {
            Ok(false)
        } else {
            Err(StoreError::NoKeyFound(thumbprint.to_owned()))
        }
    }

    /// The key read from its file, with the advertisement state of the file it came from.
    pub fn key_from_file(advertised: bool, parsed: Result<MyJwkEcKey, String>) -> (r: Result<Option<KeyWithMetadata>, StoreError>)
        ensures
            spec_key_from_file(advertised, match parsed { Ok(k) => Ok(k@), Err(m) => Err(m@) }) == match r {
                Ok(Some(k)) => Ok(Some(k@)),
                Ok(None) => Ok(None),
                Err(e) => Err(e@),
            },
    {
        match parsed {
            Ok(jwk) => {
                let mut meta = KeyWithMetadata::from(jwk);
                meta.advertise = advertised;
                Ok(Some(meta))
            },
            Err(message) => Err(StoreError::UnparsableKey(message)),
        }
    }

    /// The files to write for a new pair of keys: the unadvertised file of each. Refused
    /// when either key already has a file.
    pub fn plan_store(signing_key: &MyJwkEcKey, derive_key: &MyJwkEcKey, signing_files: KeyFiles, derive_files: KeyFiles) -> (r: Result<StorePlan, StoreError>)
        ensures
            signing_files.advertised || signing_files.unadvertised ==>
                (r matches Err(StoreError::SigningKeyExists(t)) && t@ == spec_thumbprint(signing_key@)),
            !(signing_files.advertised || signing_files.unadvertised) && (derive_files.advertised || derive_files.unadvertised) ==>
                (r matches Err(StoreError::DeriveKeyExists(t)) && t@ == spec_thumbprint(derive_key@)),
            !(signing_files.advertised || signing_files.unadvertised) && !(derive_files.advertised || derive_files.unadvertised) ==>
                (r matches Ok(p)
                    && p.signing_file@ == unadvertised_name(spec_thumbprint(signing_key@))
                    && p.derive_file@ == unadvertised_name(spec_thumbprint(derive_key@))),
    {
        let signing_thumbprint = signing_key.thumbprint();
        let derive_thumbprint = derive_key.thumbprint();
        if signing_files.advertised || signing_files.unadvertised {
            return Err(StoreError::SigningKeyExists(signing_thumbprint));
        }
        if derive_files.advertised || derive_files.unadvertised {
            return Err(StoreError::DeriveKeyExists(derive_thumbprint));
        }
        Ok(StorePlan {
            signing_file: unadvertised_file_name(signing_thumbprint.as_str()),
            derive_file: unadvertised_file_name(derive_thumbprint.as_str()),
        })
    }

    fn move_check(thumbprint: &str, target: bool, source: bool) -> (r: Result<bool, StoreError>)
        ensures
            spec_move_check(thumbprint@, target, source) == match r {
                Ok(b) => Ok(b),
                Err(e) => Err(e@),
            },
    {
        if target && !source {
            Ok(false)
        } else if !target && source {
            Ok(true)
        } else if !target && !source {
            Err(StoreError::NoKeysFound(thumbprint.to_owned()))
        } else {
            Err(StoreError::AdvertisedAndUnadvertised(thumbprint.to_owned()))
        }
    }

    fn rename_for(thumbprint: &str, advertise: bool) -> (r: Rename)
        ensures
            (r.from@, r.to@) == spec_rename(thumbprint@, advertise),
    {
        if advertise {
            Rename { from: unadvertised_file_name(thumbprint), to: advertised_file_name(thumbprint) }
        } else {
            Rename { from: advertised_file_name(thumbprint), to: unadvertised_file_name(thumbprint) }
        }
    }

    fn plan_move(
        signing_thumbprint: &str,
        derive_thumbprint: &str,
        signing_files: KeyFiles,
        derive_files: KeyFiles,
        advertise: bool,
    ) -> (r: Result<Vec<Rename>, StoreError>)
        ensures
            spec_move_plan(signing_thumbprint@, derive_thumbprint@, signing_files, derive_files, advertise) == match r {
                Ok(v) => Ok(renames_view(v@)),
                Err(e) => Err(e@),
            },
    {
        if let Err(e) = validate_thumbprint(signing_thumbprint) {
            return Err(e);
        }
        if let Err(e) = validate_thumbprint(derive_thumbprint) {
            return Err(e);
        }
        let move_signing = if advertise {
            Self::move_check(signing_thumbprint, signing_files.advertised, signing_files.unadvertised)
        } else {
            Self::move_check(signing_thumbprint, signing_files.unadvertised, signing_files.advertised)
        };
        let move_signing = match move_signing {
            Ok(b) => b,
            Err(e) => return Err(e),
        };
        let move_derive = if advertise {
            Self::move_check(derive_thumbprint, derive_files.advertised, derive_files.unadvertised)
        } else {
            Self::move_check(derive_thumbprint, derive_files.unadvertised, derive_files.advertised)
        };
        let move_derive = match move_derive {
            Ok(b) => b,
            Err(e) => return Err(e),
        };
        let mut plan: Vec<Rename> = Vec::new();
        if move_signing {
            plan.push(Self::rename_for(signing_thumbprint, advertise));
        }
        if move_derive {
            plan.push(Self::rename_for(derive_thumbprint, advertise));
        }
        assert(renames_view(plan@) =~= (if move_signing { seq![spec_rename(signing_thumbprint@, advertise)] } else { Seq::empty() })
            + (if move_derive { seq![spec_rename(derive_thumbprint@, advertise)] } else { Seq::empty() }));
        Ok(plan)
    }

    /// The renames that advertise a pair of keys: each key whose only file is unadvertised
    /// is moved to its advertised file. Refused for a malformed thumbprint, a key with no
    /// file, or a key with both files.
    pub fn plan_advertise(
        signing_thumbprint: &str,
        derive_thumbprint: &str,
        signing_files: KeyFiles,
        derive_files: KeyFiles,
    ) -> (r: Result<Vec<Rename>, StoreError>)
        ensures
            spec_move_plan(signing_thumbprint@, derive_thumbprint@, signing_files, derive_files, true) == match r {
                Ok(v) => Ok(renames_view(v@)),
                Err(e) => Err(e@),
            },
    {
        Self::plan_move(signing_thumbprint, derive_thumbprint, signing_files, derive_files, true)
    }

    /// The renames that unadvertise a pair of keys: each key whose only file is advertised
    /// is moved to its unadvertised file. Refused for a malformed thumbprint, a key with no
    /// file, or a key with both files.
    pub fn plan_unadvertise(
        signing_thumbprint: &str,
        derive_thumbprint: &str,
        signing_files: KeyFiles,
        derive_files: KeyFiles,
    ) -> (r: Result<Vec<Rename>, StoreError>)
        ensures
            spec_move_plan(signing_thumbprint@, derive_thumbprint@, signing_files, derive_files, false) == match r {
                Ok(v) => Ok(renames_view(v@)),
                Err(e) => Err(e@),
            },
    {
        Self::plan_move(signing_thumbprint, derive_thumbprint, signing_files, derive_files, false)
    }

    /// The files to remove when deleting a pair of keys: the unadvertised file of each key
    /// that has one. Refused for a malformed thumbprint, and while either key is advertised.
    pub fn plan_delete(signing_thumbprint: &str, derive_thumbprint: &str, signing_files: KeyFiles, derive_files: KeyFiles) -> (r: Result<DeletePlan, StoreError>)
        ensures
            !is_valid_thumbprint(signing_thumbprint@) ==>
                (r matches Err(StoreError::InvalidThumbprint(t)) && t@ == signing_thumbprint@),
            is_valid_thumbprint(signing_thumbprint@) && !is_valid_thumbprint(derive_thumbprint@) ==>
                (r matches Err(StoreError::InvalidThumbprint(t)) && t@ == derive_thumbprint@),
            is_valid_thumbprint(signing_thumbprint@) && is_valid_thumbprint(derive_thumbprint@) ==> {
                &&& signing_files.advertised ==>
                    (r matches Err(StoreError::SigningKeyAdvertised(t)) && t@ == signing_thumbprint@)
                &&& !signing_files.advertised && derive_files.advertised ==>
                    (r matches Err(StoreError::DeriveKeyAdvertised(t)) && t@ == derive_thumbprint@)
                &&& !signing_files.advertised && !derive_files.advertised ==> (r matches Ok(p) && {
                    &&& (p.signing_file matches Some(f) ==> f@ == unadvertised_name(signing_thumbprint@))
                    &&& (p.signing_file is Some <==> signing_files.unadvertised)
                    &&& (p.derive_file matches Some(f) ==> f@ == unadvertised_name(derive_thumbprint@))
                    &&& (p.derive_file is Some <==> derive_files.unadvertised)
                })
            },
    {
        if let Err(e) = validate_thumbprint(signing_thumbprint) {
            return Err(e);
        }
        if let Err(e) = validate_thumbprint(derive_thumbprint) {
            return Err(e);
        }
        if signing_files.advertised {
            return Err(StoreError::SigningKeyAdvertised(signing_thumbprint.to_owned()));
        }
        if derive_files.advertised {
            return Err(StoreError::DeriveKeyAdvertised(derive_thumbprint.to_owned()));
        }
        let signing_file = if signing_files.unadvertised {
            Some(unadvertised_file_name(signing_thumbprint))
        } else {
            None
        };
        let derive_file = if derive_files.unadvertised {
            Some(unadvertised_file_name(derive_thumbprint))
        } else {
            None
        };
        Ok(DeletePlan { signing_file, derive_file })
    }

    fn is_components_prefix(base: &Vec<String>, path: &Vec<String>) -> (r: bool)
        ensures
            r == components_prefix(base@.map_values(|c: String| c@), path@.map_values(|c: String| c@)),
    {
        let ghost b = base@.map_values(|c: String| c@);
        let ghost p = path@.map_values(|c: String| c@);
        if base.len() > path.len() {
            return false;
        }
        let mut i: usize = 0;
        while i < base.len()
            invariant
                base@.len() <= path@.len(),
                i <= base@.len(),
                b == base@.map_values(|c: String| c@),
                p == path@.map_values(|c: String| c@),
                forall|j: int| 0 <= j < i ==> #[trigger] p[j] == b[j],
            decreases base@.len() - i,
        {
            if !str_equal(base[i].as_str(), path[i].as_str()) {
                assert(p[i as int] != b[i as int]);
                return false;
            }
            i = i + 1;
        }
        true
    }

    /// Checks that the canonical path of a key file lies inside the canonical path of the
    /// key directory, comparing whole components as `Path::starts_with` does.
    pub fn confirm_in_store(role: KeyRole, thumbprint: &str, base: &Vec<String>, path: &Vec<String>) -> (r: Result<(), StoreError>)
        ensures
            components_prefix(base@.map_values(|c: String| c@), path@.map_values(|c: String| c@)) ==> r is Ok,
            !components_prefix(base@.map_values(|c: String| c@), path@.map_values(|c: String| c@)) ==> match role {
                KeyRole::Signing => r matches Err(StoreError::SigningKeyOutsideStore(t)) && t@ == thumbprint@,
                KeyRole::Derive => r matches Err(StoreError::DeriveKeyOutsideStore(t)) && t@ == thumbprint@,
            },
    {
        let inside = Self::is_components_prefix(base, path);
        if inside {
            Ok(())
        } else {
            match role {
                KeyRole::Signing => Err(StoreError::SigningKeyOutsideStore(thumbprint.to_owned())),
                KeyRole::Derive => Err(StoreError::DeriveKeyOutsideStore(thumbprint.to_owned())),
            }
        }
    }
}

} // verus!
