//! The effective profile of a host: the mappings of the host's own section
//! of a document, and behind them the mappings of the section `localhost`.

use vstd::prelude::*;
use crate::document::{find_entry, parse_toml, retrieve_table, table_nodes, toml_document, Item,
    Kind, Node};
use crate::lines::texts;

verus! {

/// The key under which a host's section holds its mappings.
pub const MAPPINGS_LABEL: &'static str = "mappings";

/// The name of the section whose mappings stand behind every host's own.
pub const DEFAULT_HOST: &'static str = "localhost";

/// Where in a document a table was expected.
#[derive(Clone, Copy, Debug, PartialEq, Eq)]
pub enum Place {
    /// At the top level, under the name of a host.
    Section,
    /// In a host's section, under the key `mappings`.
    Mappings,
}

/// A value that had to be a table and is none.
#[derive(Debug, PartialEq)]
pub struct SchemaError {
    /// The host whose section is at fault.
    pub section: String,
    /// Whether the section itself or its `mappings` is no table.
    pub place: Place,
    /// The type of the value that was found.
    pub found: Kind,
}

/// A [`SchemaError`] with its section as a sequence of characters.
pub struct SchemaFault {
    pub section: Seq<char>,
    pub place: Place,
    pub found: Kind,
}

impl View for SchemaError {
    type V = SchemaFault;

    open spec fn view(&self) -> SchemaFault {
        SchemaFault { section: self.section@, place: self.place, found: self.found }
    }
}

/// Why no profile could be loaded.
#[derive(Debug, PartialEq)]
pub enum LoadError {
    /// No path was given and the platform names no configuration directory.
    ConfigDirUnavailable,
    /// The text is no TOML document.
    Parse(toml::de::Error),
    /// A host's section, or a section's `mappings`, is no table.
    Schema(SchemaError),
}

/// Why a lookup gave no text.
#[derive(Debug, PartialEq)]
pub enum LookupError {
    /// No key was asked for.
    NoKeys,
    /// Neither tier has the key.
    KeyNotFound { key: String },
    /// The key's value is of another type than string.
    NotAString { key: String, found: Kind },
}

/// A [`LookupError`] with its key as a sequence of characters.
pub enum LookupFault {
    NoKeys,
    KeyNotFound { key: Seq<char> },
    NotAString { key: Seq<char>, found: Kind },
}

impl View for LookupError {
    type V = LookupFault;

    open spec fn view(&self) -> LookupFault {
        match self {
            LookupError::NoKeys => LookupFault::NoKeys,
            LookupError::KeyNotFound { key } => LookupFault::KeyNotFound { key: key@ },
            LookupError::NotAString { key, found } => LookupFault::NotAString {
                key: key@,
                found: *found,
            },
        }
    }
}

/// The mappings that a document holds for the host `name`: none where the
/// document has no such section or the section has no `mappings`, and a fault
/// where the section or its `mappings` is something else than a table.
pub open spec fn section_mappings(doc: Map<Seq<char>, Node>, name: Seq<char>) -> Result<
    Option<Map<Seq<char>, Node>>,
    SchemaFault,
> {
    if !doc.contains_key(name) {
        Ok(None)
    } else {
        match doc[name] {
            Node::Table(section) => {
                if !section.contains_key(MAPPINGS_LABEL@) {
                    Ok(None)
                } else {
                    match section[MAPPINGS_LABEL@] {
                        Node::Table(mappings) => Ok(Some(mappings)),
                        other => Err(
                            SchemaFault {
                                section: name,
                                place: Place::Mappings,
                                found: other.kind(),
                            },
                        ),
                    }
                }
            },
            other => Err(SchemaFault { section: name, place: Place::Section, found: other.kind() }),
        }
    }
}

/// The two tiers of an effective profile.
pub struct Tiers {
    /// The mappings of the host's own section.
    pub current: Option<Map<Seq<char>, Node>>,
    /// The mappings of the section `localhost`.
    pub default: Option<Map<Seq<char>, Node>>,
}

impl Tiers {
    /// The value of a key: the one in the host's own mappings where they have
    /// the key, else the one in the default mappings.
    pub open spec fn lookup(self, key: Seq<char>) -> Option<Node> {
        if self.current is Some && self.current->0.contains_key(key) {
            Some(self.current->0[key])
        } else if self.default is Some && self.default->0.contains_key(key) {
            Some(self.default->0[key])
        } else {
            None
        }
    }

    /// The text of a key: that of its value where the value is a string.
    pub open spec fn resolved(self, key: Seq<char>) -> Result<Seq<char>, LookupFault> {
        match self.lookup(key) {
            None => Err(LookupFault::KeyNotFound { key }),
            Some(Node::String(text)) => Ok(text),
            Some(other) => Err(LookupFault::NotAString { key, found: other.kind() }),
        }
    }

    /// The key at `at` has no text, and every key before it has one.
    pub open spec fn fails_first_at(self, keys: Seq<Seq<char>>, at: int) -> bool {
        &&& 0 <= at < keys.len()
        &&& self.resolved(keys[at]) is Err
        &&& forall|before: int| 0 <= before < at ==> self.resolved(#[trigger] keys[before]) is Ok
    }

    /// The texts of the keys, in the order of the keys. Where a key has no
    /// text, the outcome is the fault of the first such key, and where there
    /// is no key at all, it is a fault as well.
    pub open spec fn resolved_all(self, keys: Seq<Seq<char>>) -> Result<
        Seq<Seq<char>>,
        LookupFault,
    > {
        if keys.len() == 0 {
            Err(LookupFault::NoKeys)
        } else if exists|at: int| self.fails_first_at(keys, at) {
            let at = choose|at: int| self.fails_first_at(keys, at);
            Err(self.resolved(keys[at])->Err_0)
        } else {
            Ok(Seq::new(keys.len(), |i: int| self.resolved(keys[i])->Ok_0))
        }
    }
}

/// The effective profile of `host` in a document. The host's section is
/// read first and leaves the document; the section `localhost` is read from
/// what is left, so a host named `localhost` has no default tier.
pub open spec fn profile_of(doc: Map<Seq<char>, Node>, host: Seq<char>) -> Result<
    Tiers,
    SchemaFault,
> {
    match section_mappings(doc, host) {
        Err(fault) => Err(fault),
        Ok(current) => match section_mappings(doc.remove(host), DEFAULT_HOST@) {
            Err(fault) => Err(fault),
            Ok(default) => Ok(Tiers { current, default }),
        },
    }
}

/// The mappings in force for one host.
#[derive(Debug)]
pub struct EffectiveProfiles {
    default: Option<toml::Table>,
    current: Option<toml::Table>,
}

impl View for EffectiveProfiles {
    type V = Tiers;

    closed spec fn view(&self) -> Tiers {
        Tiers {
            current: match self.current {
                Some(table) => Some(table_nodes(table)),
                None => None,
            },
            default: match self.default {
                Some(table) => Some(table_nodes(table)),
                None => None,
            },
        }
    }
}

/// Takes the section of the host `name` out of the document and hands out its
/// mappings.
fn retrieve_mappings(doc: &mut toml::Table, name: &str) -> (out: Result<
    Option<toml::Table>,
    SchemaError,
>)
    ensures
        table_nodes(*final(doc)) == table_nodes(*old(doc)).remove(name@),
        match section_mappings(table_nodes(*old(doc)), name@) {
            Ok(Some(mappings)) => out matches Ok(Some(table)) && table_nodes(table) == mappings,
            Ok(None) => out matches Ok(None),
            Err(fault) => out matches Err(error) && error@ == fault,
        },
{
    match retrieve_table(doc, name) {
        None => Ok(None),
        Some(Err(found)) => Err(
            SchemaError { section: name.to_owned(), place: Place::Section, found },
        ),
        Some(Ok(mut section)) => match retrieve_table(&mut section, MAPPINGS_LABEL) {
            None => Ok(None),
            Some(Err(found)) => Err(
                SchemaError { section: name.to_owned(), place: Place::Mappings, found },
            ),
            Some(Ok(mappings)) => Ok(Some(mappings)),
        },
    }
}

impl EffectiveProfiles {
    /// Reads a text as a TOML document.
    pub fn read_profile(text: &str) -> (out: Result<toml::Table, LoadError>)
        ensures
            match toml_document(text@) {
                Some(doc) => out matches Ok(table) && table_nodes(table) == doc,
                None => out matches Err(LoadError::Parse(_)),
            },
    {
        match parse_toml(text) {
            Ok(table) => Ok(table),
            Err(error) => Err(LoadError::Parse(error)),
        }
    }

    /// Derives the effective profile of `host` from a document.
    pub fn parse_profile(profile: toml::Table, host: &str) -> (out: Result<Self, LoadError>)
        ensures
            match profile_of(table_nodes(profile), host@) {
                Ok(tiers) => out matches Ok(loaded) && loaded@ == tiers,
                Err(fault) => out matches Err(LoadError::Schema(error)) && error@ == fault,
            },
    {
        let mut profile = profile;
        let current = match retrieve_mappings(&mut profile, host) {
            Ok(current) => current,
            Err(error) => {
                return Err(LoadError::Schema(error));
            },
        };
        let default = match retrieve_mappings(&mut profile, DEFAULT_HOST) {
            Ok(default) => default,
            Err(error) => {
                return Err(LoadError::Schema(error));
            },
        };
        Ok(EffectiveProfiles { default, current })
    }

    /// Loads the effective profile of `host` from the text of a profile
    /// file.
    pub fn load(text: &str, host: &str) -> (out: Result<Self, LoadError>)
        ensures
            match toml_document(text@) {
                None => out matches Err(LoadError::Parse(_)),
                Some(doc) => match profile_of(doc, host@) {
                    Ok(tiers) => out matches Ok(loaded) && loaded@ == tiers,
                    Err(fault) => out matches Err(LoadError::Schema(error)) && error@ == fault,
                },
            },
    {
        let profile = Self::read_profile(text)?;
        Self::parse_profile(profile, host)
    }

    /// The value of `key`: the host's own where it has one, else the default.
    pub fn get<'a>(&'a self, key: &str) -> (out: Option<Item<'a>>)
        ensures
            match out {
                Some(item) => self@.lookup(key@) == Some(item@),
                None => self@.lookup(key@) is None,
            },
    {
        let own = match &self.current {
            Some(table) => find_entry(table, key),
            None => None,
        };
        match own {
            Some(item) => Some(item),
            None => match &self.default {
                Some(table) => find_entry(table, key),
                None => None,
            },
        }
    }

    /// The text of `key`. A key that neither tier has and a value that is no
    /// string are told apart, and no value of another type is turned into
    /// text.
    pub fn resolve(&self, key: &str) -> (out: Result<String, LookupError>)
        ensures
            match self@.resolved(key@) {
                Ok(text) => out matches Ok(found) && found@ == text,
                Err(fault) => out matches Err(error) && error@ == fault,
            },
    {
        match self.get(key) {
            None => Err(LookupError::KeyNotFound { key: key.to_owned() }),
            Some(Item::String(text)) => Ok(text.to_owned()),
            Some(other) => Err(
                LookupError::NotAString { key: key.to_owned(), found: other.kind() },
            ),
        }
    }

    /// The texts of the keys, in the order of the keys, or the error of the
    /// first key that has no text. To ask for no key at all is an error too.
    pub fn resolve_all(&self, keys: &Vec<String>) -> (out: Result<Vec<String>, LookupError>)
        ensures
            match self@.resolved_all(texts(keys@)) {
                Ok(all) => out matches Ok(found) && texts(found@) == all,
                Err(fault) => out matches Err(error) && error@ == fault,
            },
    {
        if keys.len() == 0 {
            return Err(LookupError::NoKeys);
        }
        let mut found: Vec<String> = Vec::new();
        let mut at: usize = 0;
        while at < keys.len()
            invariant
                at <= keys.len(),
                found.len() == at,
                forall|i: int|
                    0 <= i < at ==> self@.resolved(#[trigger] texts(keys@)[i]) == Ok::<
                        Seq<char>,
                        LookupFault,
                    >(found[i]@),
            decreases keys.len() - at,
        {
            match self.resolve(keys[at].as_str()) {
                Ok(text) => {
                    found.push(text);
                },
                Err(error) => {
                    proof {
                        // This key is the first without a text, and there is
                        // one first only.
                        assert(self@.fails_first_at(texts(keys@), at as int));
                        let first = choose|first: int| self@.fails_first_at(texts(keys@), first);
                        assert(first == at) by {
                            assert(self@.resolved(texts(keys@)[first]) is Err);
                            assert(self@.resolved(texts(keys@)[at as int]) is Err);
                        }
                    }
                    return Err(error);
                },
            }
            at = at + 1;
        }
        proof {
            assert forall|first: int| !self@.fails_first_at(texts(keys@), first) by {
                if 0 <= first < keys.len() {
                    assert(self@.resolved(texts(keys@)[first]) is Ok);
                }
            }
            assert(texts(found@) =~= Seq::new(
                keys.len() as nat,
                |i: int| self@.resolved(texts(keys@)[i])->Ok_0,
            ));
        }
        Ok(found)
    }
}

/// A key with a text in the host's own mappings has that text, whatever the
/// default mappings hold. The documents in which `localhost` has a section
/// or `mappings` that is no table are left out: for them no profile loads.
pub proof fn lemma_own_mapping_wins(
    doc: Map<Seq<char>, Node>,
    host: Seq<char>,
    section: Map<Seq<char>, Node>,
    mappings: Map<Seq<char>, Node>,
    key: Seq<char>,
    text: Seq<char>,
)
    requires
        doc.contains_key(host),
        doc[host] == Node::Table(section),
        section.contains_key(MAPPINGS_LABEL@),
        section[MAPPINGS_LABEL@] == Node::Table(mappings),
        mappings.contains_key(key),
        mappings[key] == Node::String(text),
        profile_of(doc, host) is Ok,
    ensures
        profile_of(doc, host) matches Ok(tiers) && tiers.lookup(key) == Some(Node::String(text))
            && tiers.resolved(key) == Ok::<Seq<char>, LookupFault>(text),
{
}

/// A key that the host's own mappings lack has the value that the mappings
/// of `localhost` give it, for every host but `localhost` itself. The
/// documents in which the host's section or its `mappings` is no table are
/// left out: for them no profile loads.
pub proof fn lemma_default_mapping_fills_in(
    doc: Map<Seq<char>, Node>,
    host: Seq<char>,
    section: Map<Seq<char>, Node>,
    mappings: Map<Seq<char>, Node>,
    key: Seq<char>,
    value: Node,
)
    requires
        host != DEFAULT_HOST@,
        section_mappings(doc, host) matches Ok(own) && (own matches Some(held)
            ==> !held.contains_key(key)),
        doc.contains_key(DEFAULT_HOST@),
        doc[DEFAULT_HOST@] == Node::Table(section),
        section.contains_key(MAPPINGS_LABEL@),
        section[MAPPINGS_LABEL@] == Node::Table(mappings),
        mappings.contains_key(key),
        mappings[key] == value,
    ensures
        profile_of(doc, host) matches Ok(tiers) && tiers.lookup(key) == Some(value) && (
        value matches Node::String(text) ==> tiers.resolved(key) == Ok::<Seq<char>, LookupFault>(
            text,
        )),
{
}

/// The profile of the host `localhost` has no default tier: the one section
/// is read once, as the host's own, and a key that its mappings lack has no
/// value.
pub proof fn lemma_localhost_has_no_default(doc: Map<Seq<char>, Node>, key: Seq<char>)
    requires
        profile_of(doc, DEFAULT_HOST@) is Ok,
    ensures
        profile_of(doc, DEFAULT_HOST@) matches Ok(tiers) && tiers.default is None
            && section_mappings(doc, DEFAULT_HOST@) == Ok::<
            Option<Map<Seq<char>, Node>>,
            SchemaFault,
        >(tiers.current) && ((tiers.current matches Some(own) ==> !own.contains_key(key))
            ==> tiers.lookup(key) is None),
{
}

/// A section that the document lacks is no error: the tier is then empty, and
/// whether the profile loads lies with the other section alone.
pub proof fn lemma_absent_section_is_no_error(doc: Map<Seq<char>, Node>, host: Seq<char>)
    ensures
        !doc.contains_key(host) ==> match section_mappings(doc, DEFAULT_HOST@) {
            Ok(default) => profile_of(doc, host) == Ok::<Tiers, SchemaFault>(
                Tiers { current: None, default },
            ),
            Err(fault) => profile_of(doc, host) == Err::<Tiers, SchemaFault>(fault),
        },
        !doc.contains_key(DEFAULT_HOST@) ==> match section_mappings(doc, host) {
            Ok(current) => profile_of(doc, host) == Ok::<Tiers, SchemaFault>(
                Tiers { current, default: None },
            ),
            Err(fault) => profile_of(doc, host) == Err::<Tiers, SchemaFault>(fault),
        },
{
    if !doc.contains_key(host) {
        assert(doc.remove(host) =~= doc);
    }
}

/// A key that neither tier has is not found, which is no error of the
/// profile and differs from a value of the wrong type.
pub proof fn lemma_absent_key_is_not_found(tiers: Tiers, key: Seq<char>)
    requires
        tiers.current matches Some(own) ==> !own.contains_key(key),
        tiers.default matches Some(other) ==> !other.contains_key(key),
    ensures
        tiers.lookup(key) is None,
        tiers.resolved(key) == Err::<Seq<char>, LookupFault>(LookupFault::KeyNotFound { key }),
{
}

/// A key whose value is no string has no text: the lookup names the type
/// that it found.
pub proof fn lemma_other_types_are_refused(tiers: Tiers, key: Seq<char>)
    requires
        tiers.lookup(key) matches Some(value) && value !is String,
    ensures
        tiers.lookup(key) matches Some(value) && tiers.resolved(key) == Err::<
            Seq<char>,
            LookupFault,
        >(LookupFault::NotAString { key, found: value.kind() }),
{
}

} // verus!
