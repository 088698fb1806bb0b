//! The manifest of a package, and the edit that makes the build tool package
//! nothing but the library.

use cargo_util_schemas::manifest::{TomlManifest, TomlTarget};
use vstd::prelude::*;
use crate::text::{chars_of, contains, occurs_in, same_text, text_of};

verus! {

/// A manifest as `cargo_util_schemas` reads it. Nothing is known of what it
/// holds.
#[verifier::external_type_specification]
#[verifier::external_body]
pub struct ExTomlManifest(TomlManifest);

/// A target that a manifest declares, as `cargo_util_schemas` reads it.
#[verifier::external_type_specification]
#[verifier::external_body]
pub struct ExTomlTarget(TomlTarget);

/// What `toml` reports of a text that is no manifest.
#[verifier::external_type_specification]
#[verifier::external_body]
pub struct ExParseFailure(toml::de::Error);

/// What `toml` reports of a manifest it cannot write.
#[verifier::external_type_specification]
#[verifier::external_body]
pub struct ExRenderFailure(toml::ser::Error);

/// The keys of the tables of `text`, read by `toml::from_str` as a plain
/// table: each key after the keys of the tables that lead to it. Nothing where
/// the text is not in the format at all.
pub uninterp spec fn key_paths(text: Seq<char>) -> Option<Seq<Seq<Seq<char>>>>;

/// What `toml::from_str` makes of `text`, read as a manifest; nothing where the
/// text is no manifest.
pub uninterp spec fn manifest_read(text: Seq<char>) -> Option<Manifest>;

/// The text that `toml::to_string_pretty` writes for `manifest`; none where it
/// cannot write one.
pub uninterp spec fn manifest_written(manifest: Manifest) -> Option<Seq<char>>;

/// Whether the name of a package's source begins with its kind: a `+` stands
/// before the first colon.
pub open spec fn names_source_kind(key: Seq<char>) -> bool {
    exists|i: int|
        0 <= i < key.len() && #[trigger] key[i] == '+' && forall|j: int|
            0 <= j < i ==> key[j] != ':'
}

/// Whether nothing follows the first `#` but blanks and control characters.
pub open spec fn ends_in_empty_fragment(key: Seq<char>) -> bool {
    exists|h: int|
        0 <= h < key.len() && #[trigger] key[h] == '#' && (forall|j: int|
            0 <= j < h ==> key[j] != '#') && (forall|j: int|
            h < j < key.len() ==> key[j] as u32 <= 32)
}

/// The address `text` as `url::Url` writes it after it has read it and taken
/// the query out of it; none where `text` is no address.
pub uninterp spec fn address_without_query(text: Seq<char>) -> Option<Seq<char>>;

/// The position of the first `c` in `s`, or the length of `s` where it holds
/// none.
pub open spec fn first_index(s: Seq<char>, c: char) -> int
    decreases s.len(),
{
    if s.len() == 0 || s[0] == c {
        0
    } else {
        1 + first_index(s.drop_first(), c)
    }
}

/// What follows the first `+` in `s`.
pub open spec fn after_plus(s: Seq<char>) -> Seq<char> {
    let at = first_index(s, '+');
    if 0 <= at < s.len() {
        s.subrange(at + 1, s.len() as int)
    } else {
        Seq::empty()
    }
}

/// Whether the address `key` is still one when the kind of its source is
/// taken off: when what follows the first `+` of the address, written without
/// its query, is an address.
pub open spec fn strips_well(key: Seq<char>) -> bool {
    address_without_query(key) matches Some(written) && address_without_query(
        after_plus(written),
    ) is Some
}

/// Whether the manifest reader can be given `key` as the name of a package in
/// a profile. A name in the form of an address, with `://`, must not end in a
/// fragment that holds nothing, and where it begins with the kind of its
/// source, it must still be an address without it: on other names the reader
/// may not return.
pub open spec fn readable_spec(key: Seq<char>) -> bool {
    occurs_in("://"@, key) ==> !ends_in_empty_fragment(key) && (names_source_kind(key)
        ==> strips_well(key))
}

/// Whether the key at the end of `path` stands below `profile`, where the
/// packages named in profiles stand.
pub open spec fn below_profile(path: Seq<Seq<char>>) -> bool {
    path.len() >= 2 && path[0] == "profile"@
}

/// Whether the manifest reader can be given a text with these keys.
pub open spec fn readable_keys(paths: Seq<Seq<Seq<char>>>) -> bool {
    forall|i: int|
        0 <= i < paths.len() && below_profile(#[trigger] paths[i]) ==> readable_spec(
            paths[i].last(),
        )
}

/// Whether the manifest reader can be given `text`.
pub open spec fn readable(text: Seq<char>) -> bool {
    key_paths(text) matches Some(paths) ==> readable_keys(paths)
}

/// The manifest that `text` holds: what the manifest reader makes of it.
/// A text that is not in the format, or that the reader cannot be given, holds
/// none.
pub open spec fn manifest_of(text: Seq<char>) -> Option<Manifest> {
    if key_paths(text) is Some && readable(text) {
        manifest_read(text)
    } else {
        None
    }
}

/// A manifest, with what the packaging rules look at held apart from the
/// rest: whether it has a package section, whether that section switches the
/// discovery of example targets on or off, and the binary targets it declares.
pub struct Manifest {
    has_package: bool,
    example_discovery: Option<bool>,
    binaries: Option<Vec<TomlTarget>>,
    rest: TomlManifest,
}

/// A manifest that cannot be edited.
#[derive(Debug, Clone, PartialEq, Eq)]
pub enum ManifestError {
    /// The text is no manifest; with what the parser said.
    Parse(String),
    /// The edited manifest cannot be written as text; with what the writer
    /// said.
    Render(String),
}

pub enum ManifestErrorView {
    Parse(Seq<char>),
    Render(Seq<char>),
}

impl View for ManifestError {
    type V = ManifestErrorView;

    open spec fn view(&self) -> ManifestErrorView {
        match self {
            ManifestError::Parse(s) => ManifestErrorView::Parse(s@),
            ManifestError::Render(s) => ManifestErrorView::Render(s@),
        }
    }
}

impl DeepView for ManifestError {
    type V = ManifestErrorView;

    open spec fn deep_view(&self) -> ManifestErrorView {
        self@
    }
}

impl ManifestError {
    /// The error in words: what the parser or the writer said.
    pub open spec fn message_of(e: ManifestErrorView) -> Seq<char> {
        match e {
            ManifestErrorView::Parse(said) => said,
            ManifestErrorView::Render(said) => said,
        }
    }

    /// The error in words: what the parser or the writer said.
    pub fn message(&self) -> (r: String)
        ensures
            r@ == Self::message_of(self@),
    {
        match self {
            ManifestError::Parse(said) => said.clone(),
            ManifestError::Render(said) => said.clone(),
        }
    }
}

/// `toml::from_str`, asked for a `toml::Table`. The contract names what the
/// walk over the result hands out: for each key of each table, also of those
/// inside arrays, the keys that lead to it and the key itself.
#[verifier::external_body]
fn table_keys(text: &str) -> (r: Result<Vec<Vec<String>>, toml::de::Error>)
    ensures
        match r {
            Ok(paths) => key_paths(text@) == Some(paths.deep_view()),
            Err(_) => key_paths(text@) is None,
        },
{
    let root = toml::Value::Table(toml::from_str(text)?);
    let (mut found, mut open) = (Vec::new(), vec![(Vec::new(), &root)]);
    while let Some((path, value)) = open.pop() {
        if let toml::Value::Table(table) = value {
            for (key, inner) in table {
                let here: Vec<String> = path.iter().cloned().chain([key.clone()]).collect();
                found.push(here.clone());
                open.push((here, inner));
            }
        } else if let toml::Value::Array(items) = value {
            items.iter().for_each(|inner| open.push((path.clone(), inner)));
        }
    }
    Ok(found)
}

/// `toml::from_str`, asked for a `TomlManifest`. The contract names what it
/// returns, with the list of binary targets and the example flag moved out of
/// the document into fields of their own. It asks for a text that the reader
/// can be given: a key below `profile` is read as the name of a package where
/// it stands for one, and on a name that is an address and begins with the
/// kind of its source, or ends in an empty fragment, the reader may not
/// return.
#[verifier::external_body]
fn read_manifest(text: &str) -> (r: Result<Manifest, toml::de::Error>)
    requires
        readable(text@),
    ensures
        match r {
            Ok(manifest) => manifest_read(text@) == Some(manifest),
            Err(_) => manifest_read(text@) is None,
        },
{
    let mut rest: TomlManifest = toml::from_str(text)?;
    let binaries = rest.bin.take();
    let example_discovery = rest.package.as_ref().and_then(|p| p.autoexamples);
    Ok(Manifest { has_package: rest.package.is_some(), example_discovery, binaries, rest })
}

/// `url::Url::parse`, then `Url::set_query` with no query, then the address
/// as a `String`. The contract names the text.
#[verifier::external_body]
fn plain_address(text: &str) -> (r: Option<String>)
    ensures
        r.deep_view() == address_without_query(text@),
{
    match url::Url::parse(text) {
        Ok(mut address) => {
            address.set_query(None);
            Some(String::from(address))
        },
        Err(_) => None,
    }
}

/// `first_index` is the first position that holds `c`.
pub proof fn lemma_first_index(s: Seq<char>, c: char, n: int)
    requires
        0 <= n <= s.len(),
        forall|j: int| 0 <= j < n ==> s[j] != c,
        n == s.len() || s[n] == c,
    ensures
        first_index(s, c) == n,
    decreases n,
{
    if n > 0 {
        let t = s.drop_first();
        assert forall|j: int| 0 <= j < n - 1 implies t[j] != c by {
            assert(t[j] == s[j + 1]);
        }
        lemma_first_index(t, c, n - 1);
    }
}

/// The position of the first `c` in `v`, or the length of `v` where it holds
/// none.
fn first_position(v: &Vec<char>, c: char) -> (i: usize)
    ensures
        i <= v@.len(),
        forall|j: int| 0 <= j < i ==> v@[j] != c,
        i < v@.len() ==> v@[i as int] == c,
        i == first_index(v@, c),
{
    let mut i: usize = 0;
    while i < v.len() && v[i] != c
        invariant
            i <= v@.len(),
            forall|j: int| 0 <= j < i ==> v@[j] != c,
        decreases v@.len() - i,
    {
        i += 1;
    }
    proof {
        lemma_first_index(v@, c, i as int);
    }
    i
}

/// Whether the address `key` is still one when the kind of its source is
/// taken off.
pub fn is_address_without_kind(key: &str) -> (r: bool)
    ensures
        r == strips_well(key@),
{
    match plain_address(key) {
        None => false,
        Some(written) => {
            let v = chars_of(written.as_str());
            let plus = first_position(&v, '+');
            let rest = if plus < v.len() {
                text_of(&v, plus + 1, v.len())
            } else {
                String::new()
            };
            assert(rest@ == after_plus(written@));
            plain_address(rest.as_str()).is_some()
        },
    }
}

/// Whether the manifest reader can be given `key` as the name of a package in
/// a profile.
pub fn is_readable_spec(key: &str) -> (r: bool)
    ensures
        r == readable_spec(key@),
{
    if !contains(key, "://") {
        return true;
    }
    let v = chars_of(key);
    let colon = first_position(&v, ':');
    let plus = first_position(&v, '+');
    if plus < colon {
        assert(names_source_kind(key@)) by {
            assert(key@[plus as int] == '+');
        }
        if !is_address_without_kind(key) {
            return false;
        }
    } else {
        assert(!names_source_kind(key@)) by {
            if names_source_kind(key@) {
                let i = choose|i: int|
                    0 <= i < key@.len() && #[trigger] key@[i] == '+' && forall|j: int|
                        0 <= j < i ==> key@[j] != ':';
                if colon < i {
                    assert(key@[colon as int] == ':');
                }
            }
        }
    }
    let hash = first_position(&v, '#');
    if hash == v.len() {
        assert(!ends_in_empty_fragment(key@));
        return true;
    }
    let mut j: usize = hash + 1;
    while j < v.len()
        invariant
            v@ == key@,
            occurs_in("://"@, key@),
            names_source_kind(key@) ==> strips_well(key@),
            hash < j <= v@.len(),
            v@[hash as int] == '#',
            forall|k: int| 0 <= k < hash ==> v@[k] != '#',
            forall|k: int| hash < k < j ==> v@[k] as u32 <= 32,
        decreases v@.len() - j,
    {
        if v[j] as u32 > 32 {
            assert(!ends_in_empty_fragment(key@)) by {
                if ends_in_empty_fragment(key@) {
                    let h = choose|h: int|
                        0 <= h < key@.len() && #[trigger] key@[h] == '#' && (forall|j: int|
                            0 <= j < h ==> key@[j] != '#') && (forall|j: int|
                            h < j < key@.len() ==> key@[j] as u32 <= 32);
                    if h < hash {
                        assert(key@[h] != '#');
                    } else if hash < h {
                        assert(key@[hash as int] != '#');
                    } else {
                        assert(key@[j as int] as u32 <= 32);
                    }
                }
            }
            return true;
        }
        j += 1;
    }
    assert(ends_in_empty_fragment(key@)) by {
        assert(key@[hash as int] == '#');
    }
    false
}

/// Whether the manifest reader can be given a text with these keys.
pub fn are_readable_keys(paths: &Vec<Vec<String>>) -> (r: bool)
    ensures
        r == readable_keys(paths.deep_view()),
{
    let mut i: usize = 0;
    while i < paths.len()
        invariant
            i <= paths@.len(),
            forall|k: int|
                0 <= k < i && below_profile(#[trigger] paths.deep_view()[k])
                    ==> readable_spec(paths.deep_view()[k].last()),
        decreases paths@.len() - i,
    {
        let path = &paths[i];
        let n = path.len();
        assert(paths.deep_view()[i as int] == path.deep_view());
        if n >= 2 {
            assert(path.deep_view()[0] == path@[0]@);
            assert(path.deep_view().last() == path@[n - 1]@);
            if same_text(path[0].as_str(), "profile") && !is_readable_spec(path[n - 1].as_str()) {
                return false;
            }
        }
        i += 1;
    }
    true
}

/// `toml::to_string_pretty`, on the document with the list of binary targets
/// and the example flag moved back into it. The contract names the text.
#[verifier::external_body]
fn write_manifest(manifest: Manifest) -> (r: Result<String, toml::ser::Error>)
    ensures
        match r {
            Ok(text) => manifest_written(manifest) == Some(text@),
            Err(_) => manifest_written(manifest) is None,
        },
{
    let mut rest = manifest.rest;
    rest.bin = manifest.binaries;
    if let Some(package) = rest.package.as_mut() {
        package.autoexamples = manifest.example_discovery;
    }
    toml::to_string_pretty(&rest)
}

/// What goes wrong with a manifest, without the words for it.
pub enum ManifestFailure {
    Parse,
    Render,
}

/// The text of the manifest `text` after the edit for packaging: what is
/// written for the manifest that is read from `text`, once it is made ready
/// for packaging.
pub open spec fn edited_manifest(text: Seq<char>) -> Result<Seq<char>, ManifestFailure> {
    match manifest_of(text) {
        None => Err(ManifestFailure::Parse),
        Some(manifest) => match manifest_written(manifest.packaged()) {
            Some(edited) => Ok(edited),
            None => Err(ManifestFailure::Render),
        },
    }
}

/// Whether `result` is what editing the manifest `text` gives. The words of an
/// error are those of the parser or the writer, and are left open.
pub open spec fn is_edit_of(text: Seq<char>, result: Result<Seq<char>, ManifestErrorView>) -> bool {
    match edited_manifest(text) {
        Ok(edited) => result == Ok::<Seq<char>, ManifestErrorView>(edited),
        Err(ManifestFailure::Parse) => result is Err && result->Err_0 is Parse,
        Err(ManifestFailure::Render) => result is Err && result->Err_0 is Render,
    }
}

/// The result of editing a manifest, as contracts speak of it.
pub open spec fn edit_view(edited: Result<String, ManifestError>) -> Result<
    Seq<char>,
    ManifestErrorView,
> {
    match edited {
        Ok(text) => Ok(text@),
        Err(e) => Err(e@),
    }
}

impl Manifest {
    /// The example flag belongs to the package section.
    #[verifier::type_invariant]
    pub closed spec fn inv(&self) -> bool {
        !self.has_package ==> self.example_discovery is None
    }

    /// Whether the manifest has a package section.
    pub closed spec fn package_section(&self) -> bool {
        self.has_package
    }

    /// What the package section says of the discovery of example targets.
    pub closed spec fn examples(&self) -> Option<bool> {
        self.example_discovery
    }

    /// Whether the manifest declares binary targets.
    pub closed spec fn declares_binaries(&self) -> bool {
        self.binaries is Some
    }

    /// What the manifest holds besides.
    pub closed spec fn remainder(&self) -> TomlManifest {
        self.rest
    }

    /// The manifest made ready for packaging.
    pub closed spec fn packaged(self) -> Manifest {
        Manifest {
            has_package: self.has_package,
            example_discovery: if self.has_package {
                Some(false)
            } else {
                None
            },
            binaries: None,
            rest: self.rest,
        }
    }

    /// Reads a manifest. A text that is no manifest gives a parse error, and
    /// so does one that the manifest reader cannot be given.
    pub fn parse(text: &str) -> (r: Result<Manifest, ManifestError>)
        ensures
            match r {
                Ok(manifest) => manifest_of(text@) == Some(manifest),
                Err(e) => manifest_of(text@) is None && e is Parse,
            },
    {
        match table_keys(text) {
            Err(e) => Err(ManifestError::Parse(e.to_string())),
            Ok(paths) => {
                if !are_readable_keys(&paths) {
                    return Err(
                        ManifestError::Parse(
                            "a profile names a package by an address that cannot be read".to_owned(),
                        ),
                    );
                }
                match read_manifest(text) {
                    Ok(m) => Ok(m),
                    Err(e) => Err(ManifestError::Parse(e.to_string())),
                }
            },
        }
    }

    /// Whether the manifest has a package section.
    pub fn has_package_section(&self) -> (r: bool)
        ensures
            r == self.package_section(),
    {
        self.has_package
    }

    /// What the package section says of the discovery of example targets.
    pub fn example_discovery(&self) -> (r: Option<bool>)
        ensures
            r == self.examples(),
    {
        self.example_discovery
    }

    /// Whether the manifest declares binary targets.
    pub fn has_binaries(&self) -> (r: bool)
        ensures
            r == self.declares_binaries(),
    {
        self.binaries.is_some()
    }

    /// The manifest to package the library from: the discovery of example
    /// targets is switched off where there is a package section, and no
    /// binary target is declared. Nothing else changes.
    pub fn for_packaging(self) -> (r: Manifest)
        ensures
            r == self.packaged(),
            r.package_section() == self.package_section(),
            r.examples() == if self.package_section() {
                Some(false)
            } else {
                None::<bool>
            },
            !r.declares_binaries(),
            r.remainder() == self.remainder(),
    {
        let example_discovery = if self.has_package {
            Some(false)
        } else {
            None
        };
        Manifest {
            has_package: self.has_package,
            example_discovery,
            binaries: None,
            rest: self.rest,
        }
    }

    /// The manifest as text.
    pub fn render(self) -> (r: Result<String, ManifestError>)
        ensures
            match r {
                Ok(text) => manifest_written(self) == Some(text@),
                Err(e) => manifest_written(self) is None && e is Render,
            },
    {
        match write_manifest(self) {
            Ok(text) => Ok(text),
            Err(e) => Err(ManifestError::Render(e.to_string())),
        }
    }
}

/// The text of the manifest `text` after the edit for packaging; a parse error
/// for a text that is no manifest.
pub fn edit_manifest(text: &str) -> (r: Result<String, ManifestError>)
    ensures
        is_edit_of(text@, edit_view(r)),
{
    match Manifest::parse(text) {
        Ok(m) => m.for_packaging().render(),
        Err(e) => Err(e),
    }
}

} // verus!
