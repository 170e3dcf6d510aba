//! Where a daemon's configuration and state come from.

use vstd::prelude::*;
use vstd::utf8::encode_utf8;

use crate::error::Failure;
use crate::text::{chars_of, joined, texts};

verus! {

/// What reading a file, or a directory, came to.
#[derive(Debug)]
pub enum Reading<T> {
    /// It holds this.
    Contents(T),
    /// It is not there.
    NotFound,
    /// It could not be read.
    Failed(Failure),
}

/// What was read, if it is there: a file or a directory need not be there.
pub open spec fn if_present<T>(read: Reading<T>) -> Result<Option<T>, Seq<char>> {
    match read {
        Reading::Contents(contents) => Ok(Some(contents)),
        Reading::NotFound => Ok(None),
        Reading::Failed(e) => Err(e@),
    }
}

/// The contents of an optional file or directory; that it is not there is no error.
pub fn optional<T>(read: Reading<T>) -> (r: Result<Option<T>, Failure>)
    ensures
        crate::error::outcome(r) == if_present(read),
{
    match read {
        Reading::Contents(contents) => Ok(Some(contents)),
        Reading::NotFound => Ok(None),
        Reading::Failed(e) => Err(e),
    }
}

/// The place of `name` in the directory `base`.
pub open spec fn join(base: Seq<char>, name: Seq<char>) -> Seq<char> {
    if base.len() == 0 || base.last() == '/' {
        base + name
    } else {
        base + "/"@ + name
    }
}

/// The place of `name`, which is not absolute, in the directory `base`.
pub fn join_path(base: &str, name: &str) -> (r: String)
    ensures
        r@ == join(base@, name@),
{
    let v = chars_of(base);
    if v.len() == 0 || v[v.len() - 1] == '/' {
        joined(base, name)
    } else {
        let head = joined(base, "/");
        joined(head.as_str(), name)
    }
}

/// The file of a daemon's state, by the directory of its user's configuration.
pub fn state_path(user_config_path: &str) -> (r: String)
    ensures
        r@ == join(user_config_path@, "state.toml"@),
{
    join_path(user_config_path, "state.toml")
}

/// What to do about a daemon's state when it starts: parse this text, or, where there is no
/// state yet, take the default.
pub fn read_state(read: Reading<String>) -> (r: Result<Option<String>, Failure>)
    ensures
        crate::error::outcome(r) == if_present(read),
{
    optional(read)
}

/// A daemon's state as it is to be written.
#[derive(Debug)]
pub struct StateWrite {
    /// The directory to make first, with those above it.
    pub dir: String,
    /// The file to write.
    pub file: String,
}

/// Where a daemon's state is to be written.
pub fn write_state(user_config_path: &str) -> (r: StateWrite)
    ensures
        r.dir@ == user_config_path@,
        r.file@ == join(user_config_path@, "state.toml"@),
{
    StateWrite { dir: user_config_path.to_owned(), file: state_path(user_config_path) }
}

/// The index of the last dot among the first `n` bytes of `name`, or -1.
pub open spec fn last_dot(name: Seq<u8>, n: int) -> int
    decreases n,
{
    if n <= 0 {
        -1
    } else if name[n - 1] == 46 {
        n - 1
    } else {
        last_dot(name, n - 1)
    }
}

/// The extension of a file name: what stands behind its last dot. A name without a dot, or
/// with none but its first character, has no extension; neither has the name of the parent
/// directory.
pub open spec fn extension(name: Seq<u8>) -> Option<Seq<u8>> {
    let i = last_dot(name, name.len() as int);
    if i <= 0 || name == seq![46u8, 46u8] {
        None
    } else {
        Some(name.skip(i + 1))
    }
}

/// Whether the file `name` has one of the extensions.
pub open spec fn has_extension(name: Seq<u8>, extensions: Seq<Seq<char>>) -> bool {
    extension(name) is Some && exists|k: int|
        0 <= k < extensions.len() && encode_utf8(#[trigger] extensions[k]) == extension(name)->0
}

/// The files of `names` that have one of the extensions.
pub open spec fn fragments(names: Seq<Seq<u8>>, extensions: Seq<Seq<char>>) -> Seq<Seq<u8>>
    decreases names.len(),
{
    if names.len() == 0 {
        seq![]
    } else if has_extension(names.last(), extensions) {
        fragments(names.drop_last(), extensions).push(names.last())
    } else {
        fragments(names.drop_last(), extensions)
    }
}

/// Whether `a` does not come behind `b` in the order of names: byte by byte, and a name before
/// its continuations.
pub open spec fn name_le(a: Seq<u8>, b: Seq<u8>) -> bool
    decreases a.len(),
{
    if a.len() == 0 {
        true
    } else if b.len() == 0 {
        false
    } else if a[0] != b[0] {
        a[0] < b[0]
    } else {
        name_le(a.skip(1), b.skip(1))
    }
}

/// Whether the names are in order.
pub open spec fn in_order(names: Seq<Seq<u8>>) -> bool {
    forall|i: int, j: int|
        0 <= i < j < names.len() ==> name_le(#[trigger] names[i], #[trigger] names[j])
}

/// The names as sequences of bytes.
pub open spec fn byte_names(names: Seq<Vec<u8>>) -> Seq<Seq<u8>> {
    names.map_values(|n: Vec<u8>| n@)
}

/// The order of names is total.
pub proof fn lemma_name_total(a: Seq<u8>, b: Seq<u8>)
    ensures
        name_le(a, b) || name_le(b, a),
    decreases a.len(),
{
    if a.len() > 0 && b.len() > 0 && a[0] == b[0] {
        lemma_name_total(a.skip(1), b.skip(1));
    }
}

/// The order of names is transitive.
pub proof fn lemma_name_transitive(a: Seq<u8>, b: Seq<u8>, c: Seq<u8>)
    requires
        name_le(a, b),
        name_le(b, c),
    ensures
        name_le(a, c),
    decreases a.len(),
{
    if a.len() > 0 && b.len() > 0 && c.len() > 0 && a[0] == b[0] && b[0] == c[0] {
        lemma_name_transitive(a.skip(1), b.skip(1), c.skip(1));
    }
}

/// Names that come neither before nor behind each other are the same.
pub proof fn lemma_name_antisymmetric(a: Seq<u8>, b: Seq<u8>)
    requires
        name_le(a, b),
        name_le(b, a),
    ensures
        a == b,
    decreases a.len(),
{
    if a.len() > 0 && b.len() > 0 {
        lemma_name_antisymmetric(a.skip(1), b.skip(1));
        assert(a =~= seq![a[0]] + a.skip(1));
        assert(b =~= seq![b[0]] + b.skip(1));
    } else {
        assert(a =~= b);
    }
}

/// Whether `a` does not come behind `b`.
fn is_name_le(a: &Vec<u8>, b: &Vec<u8>) -> (r: bool)
    ensures
        r == name_le(a@, b@),
{
    let mut i: usize = 0;
    assert(a@.skip(0) =~= a@);
    assert(b@.skip(0) =~= b@);
    while i < a.len() && i < b.len() && a[i] == b[i]
        invariant
            i <= a.len(),
            i <= b.len(),
            name_le(a@.skip(i as int), b@.skip(i as int)) == name_le(a@, b@),
        decreases a.len() - i,
    {
        assert(a@.skip(i as int).skip(1) =~= a@.skip(i + 1));
        assert(b@.skip(i as int).skip(1) =~= b@.skip(i + 1));
        i += 1;
    }
    if i == a.len() {
        true
    } else if i == b.len() {
        false
    } else {
        a[i] < b[i]
    }
}

/// Whether two byte strings are the same.
fn same_bytes(a: &[u8], b: &[u8]) -> (r: bool)
    ensures
        r == (a@ == b@),
{
    if a.len() != b.len() {
        return false;
    }
    let mut i: usize = 0;
    while i < a.len()
        invariant
            i <= a.len(),
            a.len() == b.len(),
            forall|k: int| 0 <= k < i ==> a@[k] == b@[k],
        decreases a.len() - i,
    {
        if a[i] != b[i] {
            return false;
        }
        i += 1;
    }
    assert(a@ =~= b@);
    true
}

/// Whether the file `name` has one of the extensions.
fn with_extension(name: &Vec<u8>, extensions: &Vec<String>) -> (r: bool)
    ensures
        r == has_extension(name@, texts(extensions@)),
{
    let mut n: usize = name.len();
    while n > 0 && name[n - 1] != 46
        invariant
            n <= name.len(),
            last_dot(name@, n as int) == last_dot(name@, name@.len() as int),
        decreases n,
    {
        n -= 1;
    }
    if n <= 1 {
        return false;
    }
    if name.len() == 2 && name[0] == 46 && name[1] == 46 {
        assert(name@ =~= seq![46u8, 46u8]);
        return false;
    }
    let mut ext: Vec<u8> = Vec::new();
    let mut i: usize = n;
    while i < name.len()
        invariant
            n <= i <= name.len(),
            ext@ == name@.subrange(n as int, i as int),
        decreases name.len() - i,
    {
        ext.push(name[i]);
        i += 1;
        assert(ext@ =~= name@.subrange(n as int, i as int));
    }
    assert(ext@ =~= name@.skip(n as int));
    assert(extension(name@) == Some(ext@)) by {
        assert(last_dot(name@, n as int) == n - 1);
        if name@ == seq![46u8, 46u8] {
            assert(name@.len() == 2 && name@[0] == 46 && name@[1] == 46);
        }
    }
    let ghost exts = texts(extensions@);
    let mut k: usize = 0;
    while k < extensions.len()
        invariant
            k <= extensions.len(),
            exts == texts(extensions@),
            extension(name@) == Some(ext@),
            forall|m: int| 0 <= m < k ==> encode_utf8(#[trigger] exts[m]) != ext@,
        decreases extensions.len() - k,
    {
        assert(exts[k as int] == extensions@[k as int]@);
        if same_bytes(ext.as_slice(), extensions[k].as_str().as_bytes()) {
            return true;
        }
        k += 1;
    }
    false
}

/// The fragments of a configuration: the files of a directory that have one of the extensions,
/// in the order of their names.
pub fn read_config_directory(names: Vec<Vec<u8>>, extensions: &Vec<String>) -> (r: Vec<Vec<u8>>)
    ensures
        in_order(byte_names(r@)),
        byte_names(r@).to_multiset() == fragments(
            byte_names(names@),
            texts(extensions@),
        ).to_multiset(),
{
    let ghost all = byte_names(names@);
    let ghost exts = texts(extensions@);
    let mut entries: Vec<Vec<u8>> = Vec::new();
    let mut i: usize = 0;
    assert(byte_names(entries@) =~= Seq::<Seq<u8>>::empty());
    while i < names.len()
        invariant
            i <= names.len(),
            all == byte_names(names@),
            exts == texts(extensions@),
            in_order(byte_names(entries@)),
            byte_names(entries@).to_multiset() == fragments(
                all.take(i as int),
                exts,
            ).to_multiset(),
        decreases names.len() - i,
    {
        assert(all.take(i + 1).drop_last() =~= all.take(i as int));
        assert(all.take(i + 1).last() == names@[i as int]@);
        if with_extension(&names[i], extensions) {
            let ghost before = fragments(all.take(i as int), exts);
            insert_in_order(&mut entries, &names[i]);
            proof {
                vstd::seq_lib::to_multiset_build(before, names@[i as int]@);
            }
        }
        i += 1;
    }
    assert(all.take(i as int) =~= all);
    entries
}

/// Puts `name` in its place among names in order.
fn insert_in_order(entries: &mut Vec<Vec<u8>>, name: &Vec<u8>)
    requires
        in_order(byte_names(old(entries)@)),
    ensures
        in_order(byte_names(final(entries)@)),
        byte_names(final(entries)@).to_multiset() == byte_names(
            old(entries)@,
        ).to_multiset().insert(name@),
{
    let ghost before = byte_names(entries@);
    let mut p: usize = 0;
    while p < entries.len() && is_name_le(&entries[p], name)
        invariant
            p <= entries.len(),
            before == byte_names(entries@),
            entries@ == old(entries)@,
            forall|k: int| 0 <= k < p ==> name_le(#[trigger] before[k], name@),
        decreases entries.len() - p,
    {
        assert(before[p as int] == entries@[p as int]@);
        p += 1;
    }
    let copy = name.clone();
    assert(copy@ =~= name@);
    entries.insert(p, copy);
    proof {
        let after = byte_names(entries@);
        assert(after =~= before.insert(p as int, name@));
        assert forall|a: int, b: int| 0 <= a < b < after.len() implies name_le(
            #[trigger] after[a],
            #[trigger] after[b],
        ) by {
            lemma_insert_in_order(before, name@, p as int, a, b);
        }
        assert(after.remove(p as int) =~= before);
        assert(after[p as int] == name@);
        vstd::seq_lib::to_multiset_remove(after, p as int);
        after.to_multiset_ensures();
        assert(after.contains(name@));
        assert(after.to_multiset() =~= before.to_multiset().insert(name@));
    }
}

proof fn lemma_insert_in_order(before: Seq<Seq<u8>>, name: Seq<u8>, p: int, a: int, b: int)
    requires
        in_order(before),
        0 <= p <= before.len(),
        forall|k: int| 0 <= k < p ==> name_le(#[trigger] before[k], name),
        p < before.len() ==> !name_le(before[p], name),
        0 <= a < b < before.len() + 1,
    ensures
        name_le(before.insert(p, name)[a], before.insert(p, name)[b]),
{
    if a == p {
        lemma_name_total(name, before[p]);
        if b - 1 > p {
            assert(name_le(before[p], before[b - 1]));
            lemma_name_transitive(name, before[p], before[b - 1]);
        }
    }
}

/// A source of configuration.
#[derive(Debug)]
pub enum ConfigSource {
    /// This file.
    File(String),
    /// The fragment with this name in this directory.
    Fragment(String, Vec<u8>),
}

/// A `ConfigSource` with its strings as such.
pub enum ConfigSourceView {
    File(Seq<char>),
    Fragment(Seq<char>, Seq<u8>),
}

impl View for ConfigSource {
    type V = ConfigSourceView;

    open spec fn view(&self) -> ConfigSourceView {
        match self {
            ConfigSource::File(path) => ConfigSourceView::File(path@),
            ConfigSource::Fragment(dir, name) => ConfigSourceView::Fragment(dir@, name@),
        }
    }
}

/// The sources of configuration below a directory: a file, then fragments.
pub open spec fn sources_below(dir: Seq<char>, names: Seq<Seq<u8>>) -> Seq<ConfigSourceView> {
    seq![ConfigSourceView::File(join(dir, "config.toml"@))] + names.map_values(
        |n: Seq<u8>| ConfigSourceView::Fragment(join(dir, "config.toml.d"@), n),
    )
}

/// The directory of the fragments below `dir`.
pub fn fragment_dir(dir: &str) -> (r: String)
    ensures
        r@ == join(dir@, "config.toml.d"@),
{
    join_path(dir, "config.toml.d")
}

/// Adds the sources of configuration below `dir`.
fn add_sources(sources: &mut Vec<ConfigSource>, dir: &str, names: Vec<Vec<u8>>)
    ensures
        final(sources)@.map_values(|s: ConfigSource| s@) == old(sources)@.map_values(
            |s: ConfigSource| s@,
        ) + sources_below(dir@, byte_names(names@)),
{
    let ghost done = sources@.map_values(|s: ConfigSource| s@);
    let ghost all = byte_names(names@);
    sources.push(ConfigSource::File(join_path(dir, "config.toml")));
    assert(all.take(0) =~= Seq::<Seq<u8>>::empty());
    assert(sources@.map_values(|s: ConfigSource| s@) =~= done + sources_below(dir@, all.take(0)));
    let mut i: usize = 0;
    while i < names.len()
        invariant
            i <= names.len(),
            all == byte_names(names@),
            sources@.map_values(|s: ConfigSource| s@) == done + sources_below(
                dir@,
                all.take(i as int),
            ),
        decreases names.len() - i,
    {
        let name = names[i].clone();
        assert(name@ =~= names@[i as int]@);
        let ghost before = sources@.map_values(|s: ConfigSource| s@);
        sources.push(ConfigSource::Fragment(fragment_dir(dir), name));
        i += 1;
        assert(all.take(i as int) =~= all.take(i - 1).push(name@));
        assert(sources@.map_values(|s: ConfigSource| s@) =~= before.push(
            ConfigSourceView::Fragment(join(dir@, "config.toml.d"@), name@),
        ));
        assert(sources@.map_values(|s: ConfigSource| s@) =~= done + sources_below(
            dir@,
            all.take(i as int),
        ));
    }
    assert(all.take(i as int) =~= all);
}

/// The extensions of configuration files.
///
/// Trusted: `config::FileStoredFormat::file_extensions` of `config::FileFormat::Toml`, which
/// is the one extension `toml`.
#[verifier::external_body]
fn toml_extensions() -> (r: Vec<String>)
    ensures
        texts(r@) == seq!["toml"@],
{
    let format = ::config::FileFormat::Toml;
    ::config::FileStoredFormat::file_extensions(&format).iter().map(|e| e.to_string()).collect()
}

/// The fragments below a directory of configuration, by what was read of it: none where it is
/// not there.
pub fn config_fragments(dir: Reading<Vec<Vec<u8>>>) -> (r: Result<Vec<Vec<u8>>, Failure>)
    ensures
        match (r, if_present(dir)) {
            (Ok(a), Ok(Some(names))) => in_order(byte_names(a@)) && byte_names(a@).to_multiset()
                == fragments(byte_names(names@), seq!["toml"@]).to_multiset(),
            (Ok(a), Ok(None)) => a@.len() == 0,
            (Err(a), Err(b)) => a@ == b,
            _ => false,
        },
{
    match optional(dir) {
        Ok(Some(names)) => Ok(read_config_directory(names, &toml_extensions())),
        Ok(None) => Ok(Vec::new()),
        Err(e) => Err(e),
    }
}

/// The sources of a daemon's configuration, in order; a later source goes before an earlier
/// one. The system's come first, so that the user's go before them, and the fragments of each
/// go before its file.
pub fn read_config(
    system: &str,
    system_fragments: Vec<Vec<u8>>,
    user: &str,
    user_fragments: Vec<Vec<u8>>,
) -> (r: Vec<ConfigSource>)
    ensures
        r@.map_values(|s: ConfigSource| s@) == sources_below(
            system@,
            byte_names(system_fragments@),
        ) + sources_below(user@, byte_names(user_fragments@)),
{
    let mut sources: Vec<ConfigSource> = Vec::new();
    let ghost empty = sources@.map_values(|s: ConfigSource| s@);
    assert(empty =~= Seq::<ConfigSourceView>::empty());
    add_sources(&mut sources, system, system_fragments);
    add_sources(&mut sources, user, user_fragments);
    assert(sources@.map_values(|s: ConfigSource| s@) =~= sources_below(
        system@,
        byte_names(system_fragments@),
    ) + sources_below(user@, byte_names(user_fragments@)));
    sources
}

/// How often a name occurs among the fragments: as often as among all names, if it has one of
/// the extensions, and else never.
proof fn lemma_fragments_count(names: Seq<Seq<u8>>, extensions: Seq<Seq<char>>, name: Seq<u8>)
    ensures
        fragments(names, extensions).to_multiset().count(name) == if has_extension(
            name,
            extensions,
        ) {
            names.to_multiset().count(name)
        } else {
            0
        },
    decreases names.len(),
{
    if names.len() > 0 {
        let init = names.drop_last();
        let last = names.last();
        lemma_fragments_count(init, extensions, name);
        vstd::seq_lib::to_multiset_build(init, last);
        assert(init.push(last) =~= names);
        vstd::seq_lib::to_multiset_build(fragments(init, extensions), last);
    } else {
        assert(names =~= Seq::<Seq<u8>>::empty());
        names.to_multiset_ensures();
    }
}

/// The order of names is a total order.
proof fn lemma_name_ordering()
    ensures
        vstd::relations::total_ordering(|a: Seq<u8>, b: Seq<u8>| name_le(a, b)),
{
    let le = |a: Seq<u8>, b: Seq<u8>| name_le(a, b);
    assert forall|a: Seq<u8>| #[trigger] le(a, a) by {
        lemma_name_total(a, a);
    }
    assert forall|a: Seq<u8>, b: Seq<u8>| #[trigger] le(a, b) && #[trigger] le(b, a) implies a
        == b by {
        lemma_name_antisymmetric(a, b);
    }
    assert forall|a: Seq<u8>, b: Seq<u8>, c: Seq<u8>| #[trigger] le(a, b) && #[trigger] le(
        b,
        c,
    ) implies le(a, c) by {
        lemma_name_transitive(a, b, c);
    }
    assert forall|a: Seq<u8>, b: Seq<u8>| #[trigger] le(a, b) || le(b, a) by {
        lemma_name_total(a, b);
    }
}

/// The fragments do not depend on the order in which the directory lists its files: whatever
/// is in order and holds the fragments of either listing is one and the same sequence.
pub proof fn law_fragments_order_free(
    listing: Seq<Seq<u8>>,
    other: Seq<Seq<u8>>,
    extensions: Seq<Seq<char>>,
    a: Seq<Seq<u8>>,
    b: Seq<Seq<u8>>,
)
    requires
        listing.to_multiset() == other.to_multiset(),
        in_order(a),
        in_order(b),
        a.to_multiset() == fragments(listing, extensions).to_multiset(),
        b.to_multiset() == fragments(other, extensions).to_multiset(),
    ensures
        a == b,
{
    let le = |a: Seq<u8>, b: Seq<u8>| name_le(a, b);
    assert(a.to_multiset() =~= b.to_multiset()) by {
        assert forall|name: Seq<u8>| #[trigger]
            a.to_multiset().count(name) == b.to_multiset().count(name) by {
            lemma_fragments_count(listing, extensions, name);
            lemma_fragments_count(other, extensions, name);
        }
    }
    lemma_name_ordering();
    assert(vstd::relations::sorted_by(a, le));
    assert(vstd::relations::sorted_by(b, le));
    vstd::seq_lib::lemma_sorted_unique(a, b, le);
}

/// The source that decides a setting, where `sets` tells which sources have it: the last one,
/// since a later source goes before an earlier one.
pub open spec fn deciding(
    sources: Seq<ConfigSourceView>,
    sets: spec_fn(ConfigSourceView) -> bool,
) -> Option<ConfigSourceView>
    decreases sources.len(),
{
    if sources.len() == 0 {
        None
    } else if sets(sources.last()) {
        Some(sources.last())
    } else {
        deciding(sources.drop_last(), sets)
    }
}

proof fn lemma_deciding_in_parts(
    a: Seq<ConfigSourceView>,
    b: Seq<ConfigSourceView>,
    sets: spec_fn(ConfigSourceView) -> bool,
)
    ensures
        deciding(a + b, sets) == (match deciding(b, sets) {
            Some(source) => Some(source),
            None => deciding(a, sets),
        }),
    decreases b.len(),
{
    if b.len() == 0 {
        assert(a + b =~= a);
    } else {
        assert((a + b).last() == b.last());
        assert((a + b).drop_last() =~= a + b.drop_last());
        lemma_deciding_in_parts(a, b.drop_last(), sets);
    }
}

/// A setting that the user has is decided by the user's sources, any other by the system's.
pub proof fn law_config_precedence(
    system: Seq<char>,
    system_names: Seq<Seq<u8>>,
    user: Seq<char>,
    user_names: Seq<Seq<u8>>,
    sets: spec_fn(ConfigSourceView) -> bool,
)
    ensures
        deciding(sources_below(system, system_names) + sources_below(user, user_names), sets) == (
        match deciding(sources_below(user, user_names), sets) {
            Some(source) => Some(source),
            None => deciding(sources_below(system, system_names), sets),
        }),
{
    lemma_deciding_in_parts(
        sources_below(system, system_names),
        sources_below(user, user_names),
        sets,
    );
}

/// The fragment `name` below the directory `dir`.
pub open spec fn fragment_below(dir: Seq<char>, name: Seq<u8>) -> ConfigSourceView {
    ConfigSourceView::Fragment(join(dir, "config.toml.d"@), name)
}

/// Below one directory, the system's or the user's, the last fragment that has a setting decides
/// it. Where no fragment has it, the file decides if it has the setting, and else nothing does.
pub proof fn law_last_fragment_decides(
    dir: Seq<char>,
    names: Seq<Seq<u8>>,
    sets: spec_fn(ConfigSourceView) -> bool,
)
    ensures
        forall|i: int|
            0 <= i < names.len() && sets(fragment_below(dir, #[trigger] names[i])) && (forall|j: int|
                i < j < names.len() ==> !sets(fragment_below(dir, #[trigger] names[j])))
                ==> deciding(sources_below(dir, names), sets) == Some(
                fragment_below(dir, names[i]),
            ),
        (forall|j: int|
            0 <= j < names.len() ==> !sets(fragment_below(dir, #[trigger] names[j]))) ==> deciding(
            sources_below(dir, names),
            sets,
        ) == if sets(ConfigSourceView::File(join(dir, "config.toml"@))) {
            Some(ConfigSourceView::File(join(dir, "config.toml"@)))
        } else {
            None
        },
{
    let file = seq![ConfigSourceView::File(join(dir, "config.toml"@))];
    let fragments = names.map_values(
        |n: Seq<u8>| ConfigSourceView::Fragment(join(dir, "config.toml.d"@), n),
    );
    lemma_deciding_in_parts(file, fragments, sets);
    assert(deciding(file, sets) == if sets(file[0]) {
        Some(file[0])
    } else {
        None
    }) by {
        assert(file.drop_last() =~= seq![]);
        reveal_with_fuel(deciding, 2);
    }
    assert forall|k: int| 0 <= k < names.len() implies #[trigger] fragments[k] == fragment_below(
        dir,
        names[k],
    ) by {}
    assert forall|i: int|
        0 <= i < names.len() && sets(fragment_below(dir, #[trigger] names[i])) && (forall|j: int|
            i < j < names.len() ==> !sets(fragment_below(dir, #[trigger] names[j])))
        implies deciding(sources_below(dir, names), sets) == Some(
        fragment_below(dir, names[i]),
    ) by {
        assert forall|j: int| i < j < fragments.len() implies !sets(#[trigger] fragments[j]) by {
            assert(!sets(fragment_below(dir, names[j])));
        }
        lemma_deciding_last(fragments, sets, i);
    }
    if forall|j: int| 0 <= j < names.len() ==> !sets(fragment_below(dir, #[trigger] names[j])) {
        assert forall|j: int| 0 <= j < fragments.len() implies !sets(#[trigger] fragments[j]) by {
            assert(!sets(fragment_below(dir, names[j])));
        }
        lemma_deciding_none(fragments, sets);
    }
}

/// The last source that has a setting decides it.
proof fn lemma_deciding_last(
    sources: Seq<ConfigSourceView>,
    sets: spec_fn(ConfigSourceView) -> bool,
    i: int,
)
    requires
        0 <= i < sources.len(),
        sets(sources[i]),
        forall|j: int| i < j < sources.len() ==> !sets(#[trigger] sources[j]),
    ensures
        deciding(sources, sets) == Some(sources[i]),
    decreases sources.len(),
{
    if i < sources.len() - 1 {
        assert(!sets(sources[sources.len() - 1]));
        assert forall|j: int| i < j < sources.drop_last().len() implies !sets(
            #[trigger] sources.drop_last()[j],
        ) by {
            assert(!sets(sources[j]));
        }
        lemma_deciding_last(sources.drop_last(), sets, i);
    }
}

proof fn lemma_deciding_none(
    sources: Seq<ConfigSourceView>,
    sets: spec_fn(ConfigSourceView) -> bool,
)
    requires
        forall|k: int| 0 <= k < sources.len() ==> !sets(#[trigger] sources[k]),
    ensures
        deciding(sources, sets) is None,
    decreases sources.len(),
{
    if sources.len() > 0 {
        assert(!sets(sources[sources.len() - 1]));
        assert forall|k: int| 0 <= k < sources.drop_last().len() implies !sets(
            #[trigger] sources.drop_last()[k],
        ) by {
            assert(!sets(sources[k]));
        }
        lemma_deciding_none(sources.drop_last(), sets);
    }
}

/// What stands behind the last dot is the extension, unless nothing stands before that dot.
pub proof fn law_extension(stem: Seq<u8>, ext: Seq<u8>)
    requires
        forall|k: int| 0 <= k < ext.len() ==> ext[k] != 46,
        stem.len() > 0,
        !(stem == seq![46u8] && ext.len() == 0),
    ensures
        extension(stem + seq![46u8] + ext) == Some(ext),
        extension(seq![46u8] + ext) is None,
        extension(ext) is None,
{
    let s = stem + seq![46u8] + ext;
    assert forall|k: int| stem.len() < k < s.len() implies s[k] != 46 by {
        assert(s[k] == ext[k - stem.len() - 1]);
    }
    lemma_last_dot(s, stem.len() as int, s.len() as int);
    assert(s.skip(stem.len() as int + 1) =~= ext);
    if s == seq![46u8, 46u8] {
        assert(stem.len() == 1);
        assert(s[0] == stem[0]);
        assert(stem =~= seq![46u8]);
    }
    let t = seq![46u8] + ext;
    assert forall|k: int| 0 < k < t.len() implies t[k] != 46 by {
        assert(t[k] == ext[k - 1]);
    }
    lemma_last_dot(t, 0, t.len() as int);
    lemma_no_dot(ext, ext.len() as int);
}

proof fn lemma_last_dot(s: Seq<u8>, i: int, n: int)
    requires
        0 <= i < n <= s.len(),
        s[i] == 46,
        forall|k: int| i < k < n ==> s[k] != 46,
    ensures
        last_dot(s, n) == i,
    decreases n,
{
    if n > i + 1 {
        lemma_last_dot(s, i, n - 1);
    }
}

proof fn lemma_no_dot(s: Seq<u8>, n: int)
    requires
        0 <= n <= s.len(),
        forall|k: int| 0 <= k < n ==> s[k] != 46,
    ensures
        last_dot(s, n) == -1,
    decreases n,
{
    if n > 0 {
        lemma_no_dot(s, n - 1);
    }
}

/// A file is a fragment if and only if it is listed and has one of the extensions, and it is one
/// as often as it is listed.
pub proof fn law_fragments_by_extension(
    names: Seq<Seq<u8>>,
    extensions: Seq<Seq<char>>,
    name: Seq<u8>,
)
    ensures
        fragments(names, extensions).contains(name) <==> names.contains(name) && exists|k: int|
            0 <= k < extensions.len() && extension(name) == Some(
                encode_utf8(#[trigger] extensions[k]),
            ),
{
    lemma_fragments_count(names, extensions, name);
    names.to_multiset_ensures();
    fragments(names, extensions).to_multiset_ensures();
    if has_extension(name, extensions) {
        let k = choose|k: int|
            0 <= k < extensions.len() && encode_utf8(#[trigger] extensions[k]) == extension(
                name,
            )->0;
        assert(extension(name) == Some(encode_utf8(extensions[k])));
    }
}

/// Names are ordered by the first byte in which they differ, and a name comes before its
/// continuations.
pub proof fn law_name_order(common: Seq<u8>, x: u8, y: u8, a: Seq<u8>, b: Seq<u8>)
    ensures
        x != y ==> (name_le(common + seq![x] + a, common + seq![y] + b) <==> x < y),
        name_le(common, common + a),
        !name_le(common + seq![x] + a, common),
    decreases common.len(),
{
    let p = common + seq![x] + a;
    let q = common + seq![y] + b;
    if common.len() > 0 {
        let rest = common.skip(1);
        law_name_order(rest, x, y, a, b);
        assert(p.skip(1) =~= rest + seq![x] + a);
        assert(q.skip(1) =~= rest + seq![y] + b);
        assert((common + a).skip(1) =~= rest + a);
        assert(p[0] == common[0] && q[0] == common[0] && (common + a)[0] == common[0]);
    } else {
        assert(p[0] == x);
        assert(q[0] == y);
    }
}

/// A name in a directory stands behind one slash, whether or not the directory ends in one.
pub proof fn law_join(base: Seq<char>, name: Seq<char>)
    requires
        base.len() > 0,
        base.last() != '/',
    ensures
        join(base, name) == base + seq!['/'] + name,
        join(base + seq!['/'], name) == base + seq!['/'] + name,
        join(Seq::empty(), name) == name,
{
    reveal_strlit("/");
    assert(join(base, name) =~= base + seq!['/'] + name);
    assert((base + seq!['/']).last() == '/');
    assert(join(base + seq!['/'], name) =~= base + seq!['/'] + name);
    assert(join(Seq::empty(), name) =~= name);
}

/// What was read is taken as it is, what is not there is no error, and what cannot be read is
/// one, for its own reason.
pub proof fn law_if_present<T>(contents: T, e: Failure)
    ensures
        if_present(Reading::Contents(contents)) == Ok::<Option<T>, Seq<char>>(Some(contents)),
        if_present(Reading::<T>::NotFound) == Ok::<Option<T>, Seq<char>>(None),
        if_present(Reading::<T>::Failed(e)) == Err::<Option<T>, Seq<char>>(e@),
{
}

/// The name of the folder above has no extension, though a character stands before its last dot.
pub proof fn law_no_extension_above()
    ensures
        extension(seq![46u8, 46u8]) is None,
        extension(Seq::empty()) is None,
{
}

} // verus!
