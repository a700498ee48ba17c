//! The attribute resolver: from the attributes on a record to the name of the
//! generated type and the byte order of its integer fields.

use crate::schema::{
    AttrStyle, Attribute, AttributeView, Definition, DefinitionView, Meta, MetaView, NestedMeta,
    NestedMetaView,
};
use crate::text::{copied, joined, same_text};
use vstd::prelude::*;

verus! {

/// The byte order that a record asks for.
#[derive(Clone, Copy, Debug, PartialEq, Eq, Structural)]
pub enum Endian {
    /// Most significant byte first.
    Big,
    /// Least significant byte first.
    Little,
    /// Whatever order the running machine stores integers in.
    Native,
}

/// The resolved configuration of one record.
#[derive(Clone, Debug, PartialEq, Eq)]
pub struct Config {
    pub output_name: String,
    pub endian: Endian,
}

/// A `Config` as plain values.
pub struct ConfigView {
    pub output_name: Seq<char>,
    pub endian: Endian,
}

impl View for Config {
    type V = ConfigView;

    open spec fn view(&self) -> ConfigView {
        ConfigView { output_name: self.output_name@, endian: self.endian }
    }
}

/// Why a record's attributes resolve to no configuration. `attr` counts the
/// record's attributes from zero, `entry` the entries of that attribute's list.
#[derive(Clone, Copy, Debug, PartialEq, Eq, Structural)]
pub enum ConfigError {
    /// The attribute's tokens form no attribute at all.
    InvalidAttribute { attr: usize },
    /// The attribute does not stand before the record.
    InnerAttribute { attr: usize },
    /// A configuration attribute without a parenthesised list.
    NotAList { attr: usize },
    /// An entry that is not of the form `key = "value"`.
    MalformedEntry { attr: usize, entry: usize },
    /// A key other than `name` and `endian`.
    UnknownKey { attr: usize, entry: usize },
    /// An `endian` value other than `"big"` and `"little"`.
    UnknownEndian { attr: usize, entry: usize },
}

/// The path that marks an attribute as configuration.
pub open spec fn config_path() -> Seq<char> {
    "nocopy_macro"@
}

/// The name of the generated type where no attribute gives one.
pub open spec fn default_name(record: Seq<char>) -> Seq<char> {
    record + "Buffer"@
}

/// The configuration before any attribute is read.
pub open spec fn initial_config(record: Seq<char>) -> ConfigView {
    ConfigView { output_name: default_name(record), endian: Endian::Native }
}

/// `cfg` after one entry of a configuration attribute.
pub open spec fn entry_applied(cfg: ConfigView, entry: NestedMetaView, attr: nat, pos: nat) -> Result<
    ConfigView,
    ConfigError,
> {
    match entry {
        NestedMetaView::NameValue { key, value } => {
            if key == "name"@ {
                Ok(ConfigView { output_name: value, endian: cfg.endian })
            } else if key == "endian"@ {
                if value == "big"@ {
                    Ok(ConfigView { output_name: cfg.output_name, endian: Endian::Big })
                } else if value == "little"@ {
                    Ok(ConfigView { output_name: cfg.output_name, endian: Endian::Little })
                } else {
                    Err(ConfigError::UnknownEndian { attr: attr as usize, entry: pos as usize })
                }
            } else {
                Err(ConfigError::UnknownKey { attr: attr as usize, entry: pos as usize })
            }
        },
        _ => Err(ConfigError::MalformedEntry { attr: attr as usize, entry: pos as usize }),
    }
}

/// `cfg` after the entries from `from` on, taken left to right; the first entry
/// that fails decides.
pub open spec fn entries_applied(
    cfg: ConfigView,
    entries: Seq<NestedMetaView>,
    attr: nat,
    from: nat,
) -> Result<ConfigView, ConfigError>
    decreases entries.len() - from,
{
    if from >= entries.len() {
        Ok(cfg)
    } else {
        match entry_applied(cfg, entries[from as int], attr, from) {
            Ok(next) => entries_applied(next, entries, attr, from + 1),
            Err(e) => Err(e),
        }
    }
}

/// `cfg` after one attribute of the record. An attribute under another path
/// changes nothing, but it too has to stand before the record.
pub open spec fn attribute_applied(cfg: ConfigView, a: AttributeView, attr: nat) -> Result<
    ConfigView,
    ConfigError,
> {
    if a.style != AttrStyle::Outer {
        Err(ConfigError::InnerAttribute { attr: attr as usize })
    } else if a.path != config_path() {
        Ok(cfg)
    } else {
        match a.meta {
            MetaView::List { nested } => entries_applied(cfg, nested, attr, 0),
            _ => Err(ConfigError::NotAList { attr: attr as usize }),
        }
    }
}

/// `cfg` after the attributes from `from` on, taken left to right; the first
/// attribute that fails decides.
pub open spec fn attributes_applied(cfg: ConfigView, attrs: Seq<AttributeView>, from: nat) -> Result<
    ConfigView,
    ConfigError,
>
    decreases attrs.len() - from,
{
    if from >= attrs.len() {
        Ok(cfg)
    } else {
        match attribute_applied(cfg, attrs[from as int], from) {
            Ok(next) => attributes_applied(next, attrs, from + 1),
            Err(e) => Err(e),
        }
    }
}

/// The configuration that a definition's attributes resolve to: later entries
/// override earlier ones, and nothing is resolved where any attribute fails.
pub open spec fn resolved(def: DefinitionView) -> Result<ConfigView, ConfigError> {
    attributes_applied(initial_config(def.name), def.attrs, 0)
}

/// Whether `r` is the exec form of the spec result `s`.
pub open spec fn config_result_is(r: Result<Config, ConfigError>, s: Result<ConfigView, ConfigError>) -> bool {
    match r {
        Ok(cfg) => s == Ok::<ConfigView, ConfigError>(cfg@),
        Err(e) => s == Err::<ConfigView, ConfigError>(e),
    }
}

/// Applies the attribute at position `index` to `cfg`.
pub fn apply_attribute(cfg: Config, attribute: &Attribute, index: usize) -> (r: Result<
    Config,
    ConfigError,
>)
    ensures
        config_result_is(r, attribute_applied(cfg@, attribute@, index as nat)),
{
    let ghost start = cfg@;
    match attribute.style {
        AttrStyle::Outer => {},
        AttrStyle::Inner => {
            return Err(ConfigError::InnerAttribute { attr: index });
        },
    }
    if !same_text(attribute.path.as_str(), "nocopy_macro") {
        return Ok(cfg);
    }
    match &attribute.meta {
        Meta::List { nested } => {
            let ghost entries = nested@.map_values(|n: NestedMeta| n@);
            let mut output_name = cfg.output_name;
            let mut endian = cfg.endian;
            let mut j: usize = 0;
            while j < nested.len()
                invariant
                    j <= nested.len(),
                    entries == nested@.map_values(|n: NestedMeta| n@),
                    attribute_applied(start, attribute@, index as nat) == entries_applied(
                        ConfigView { output_name: output_name@, endian },
                        entries,
                        index as nat,
                        j as nat,
                    ),
                    start == cfg@,
                decreases nested.len() - j,
            {
                match &nested[j] {
                    NestedMeta::NameValue { key, value } => {
                        if same_text(key.as_str(), "name") {
                            output_name = copied(value.as_str());
                        } else if same_text(key.as_str(), "endian") {
                            if same_text(value.as_str(), "big") {
                                endian = Endian::Big;
                            } else if same_text(value.as_str(), "little") {
                                endian = Endian::Little;
                            } else {
                                return Err(ConfigError::UnknownEndian { attr: index, entry: j });
                            }
                        } else {
                            return Err(ConfigError::UnknownKey { attr: index, entry: j });
                        }
                    },
                    _ => {
                        return Err(ConfigError::MalformedEntry { attr: index, entry: j });
                    },
                }
                j += 1;
            }
            Ok(Config { output_name, endian })
        },
        _ => Err(ConfigError::NotAList { attr: index }),
    }
}

/// Resolves the configuration of a record from its attributes.
///
/// Starting from the default name (the record's name followed by `Buffer`) and
/// the native byte order, the attributes are read in source order. Each must
/// stand before the record. Those under the path `nocopy_macro` must carry a
/// list of `key = "value"` entries with the keys `name` and `endian`; the others
/// are passed over.
pub fn extract_meta(ast: &Definition) -> (r: Result<Config, ConfigError>)
    ensures
        config_result_is(r, resolved(ast@)),
{
    let mut cfg = Config {
        output_name: joined(ast.name.as_str(), "Buffer"),
        endian: Endian::Native,
    };
    let mut i: usize = 0;
    while i < ast.attrs.len()
        invariant
            i <= ast.attrs.len(),
            resolved(ast@) == attributes_applied(cfg@, ast@.attrs, i as nat),
        decreases ast.attrs.len() - i,
    {
        match apply_attribute(cfg, &ast.attrs[i], i) {
            Ok(next) => {
                cfg = next;
            },
            Err(e) => {
                return Err(e);
            },
        }
        i += 1;
    }
    Ok(cfg)
}

/// Whether an entry of a configuration attribute can never be applied: its form
/// is not `key = "value"`, its key is unknown, or it gives `endian` a value that
/// names no byte order.
pub open spec fn entry_rejected(entry: NestedMetaView) -> bool {
    match entry {
        NestedMetaView::NameValue { key, value } => {
            if key == "name"@ {
                false
            } else if key == "endian"@ {
                value != "big"@ && value != "little"@
            } else {
                true
            }
        },
        _ => true,
    }
}

/// Whether an attribute can never be applied: it does not stand before the
/// record, or it is a configuration attribute that has no list or holds a
/// rejected entry.
pub open spec fn attribute_rejected(a: AttributeView) -> bool {
    ||| a.style != AttrStyle::Outer
    ||| a.path == config_path() && match a.meta {
        MetaView::List { nested } => exists|j: int|
            0 <= j < nested.len() && entry_rejected(#[trigger] nested[j]),
        _ => true,
    }
}

proof fn lemma_entries_apply_unless_rejected(
    cfg: ConfigView,
    entries: Seq<NestedMetaView>,
    attr: nat,
    from: nat,
)
    ensures
        entries_applied(cfg, entries, attr, from) is Ok <==> forall|j: int|
            from <= j < entries.len() ==> !entry_rejected(#[trigger] entries[j]),
    decreases entries.len() - from,
{
    if from < entries.len() {
        match entry_applied(cfg, entries[from as int], attr, from) {
            Ok(next) => {
                lemma_entries_apply_unless_rejected(next, entries, attr, from + 1);
            },
            Err(_) => {
                assert(entry_rejected(entries[from as int]));
            },
        }
    }
}

proof fn lemma_attributes_apply_unless_rejected(
    cfg: ConfigView,
    attrs: Seq<AttributeView>,
    from: nat,
)
    ensures
        attributes_applied(cfg, attrs, from) is Ok <==> forall|k: int|
            from <= k < attrs.len() ==> !attribute_rejected(#[trigger] attrs[k]),
    decreases attrs.len() - from,
{
    if from < attrs.len() {
        let a = attrs[from as int];
        if let MetaView::List { nested } = a.meta {
            lemma_entries_apply_unless_rejected(cfg, nested, from, 0);
        }
        match attribute_applied(cfg, a, from) {
            Ok(next) => {
                lemma_attributes_apply_unless_rejected(next, attrs, from + 1);
            },
            Err(_) => {
                assert(attribute_rejected(a));
            },
        }
    }
}

/// Fatal cases: a configuration resolves if and only if no attribute of the
/// record is rejected. One unknown key, one malformed `endian` value, one
/// attribute out of place is enough for nothing to be resolved, whatever the
/// other attributes say.
pub proof fn lemma_resolves_unless_rejected(def: DefinitionView)
    ensures
        resolved(def) is Ok <==> forall|k: int|
            0 <= k < def.attrs.len() ==> !attribute_rejected(#[trigger] def.attrs[k]),
{
    lemma_attributes_apply_unless_rejected(initial_config(def.name), def.attrs, 0);
}

/// Whether entry `j` of attribute `k` is a configuration entry with the key
/// `key`.
pub open spec fn keyed(attrs: Seq<AttributeView>, k: int, j: int, key: Seq<char>) -> bool {
    &&& 0 <= k < attrs.len()
    &&& attrs[k].path == config_path()
    &&& attrs[k].meta matches MetaView::List { nested }
    &&& 0 <= j < nested.len()
    &&& nested[j] matches NestedMetaView::NameValue { key: found, .. }
    &&& found == key
}

/// Whether entry `j` of attribute `k` is the last configuration entry with the
/// key `key`, in source order.
pub open spec fn last_keyed(attrs: Seq<AttributeView>, k: int, j: int, key: Seq<char>) -> bool {
    &&& keyed(attrs, k, j, key)
    &&& forall|k2: int, j2: int| #[trigger]
        keyed(attrs, k2, j2, key) ==> k2 < k || (k2 == k && j2 <= j)
}

/// The value of entry `j` of attribute `k`.
pub open spec fn value_at(attrs: Seq<AttributeView>, k: int, j: int) -> Seq<char> {
    attrs[k].meta->nested[j]->value
}

spec fn setting(cfg: ConfigView, key: Seq<char>) -> Seq<char> {
    if key == "name"@ {
        cfg.output_name
    } else {
        match cfg.endian {
            Endian::Big => "big"@,
            Endian::Little => "little"@,
            Endian::Native => Seq::empty(),
        }
    }
}

spec fn has_key(entry: NestedMetaView, key: Seq<char>) -> bool {
    entry matches NestedMetaView::NameValue { key: found, .. } && found == key
}

proof fn lemma_keys_differ()
    ensures
        "name"@ != "endian"@,
        "big"@ != "little"@,
        "big"@.len() > 0,
        "little"@.len() > 0,
{
    reveal_strlit("name");
    reveal_strlit("endian");
    reveal_strlit("big");
    reveal_strlit("little");
    assert("name"@.len() == 4);
    assert("endian"@.len() == 6);
    assert("big"@.len() == 3);
    assert("little"@.len() == 6);
}

proof fn lemma_entries_setting(
    cfg: ConfigView,
    entries: Seq<NestedMetaView>,
    attr: nat,
    from: nat,
    key: Seq<char>,
)
    requires
        key == "name"@ || key == "endian"@,
        entries_applied(cfg, entries, attr, from) is Ok,
    ensures
        (forall|j: int| from <= j < entries.len() ==> !has_key(#[trigger] entries[j], key))
            ==> setting(entries_applied(cfg, entries, attr, from)->Ok_0, key) == setting(cfg, key),
        forall|j: int|
            from <= j < entries.len() && has_key(#[trigger] entries[j], key) && (forall|j2: int|
                j < j2 < entries.len() ==> !has_key(#[trigger] entries[j2], key)) ==> setting(
                entries_applied(cfg, entries, attr, from)->Ok_0,
                key,
            ) == entries[j]->value,
    decreases entries.len() - from,
{
    lemma_keys_differ();
    if from < entries.len() {
        let next = entry_applied(cfg, entries[from as int], attr, from)->Ok_0;
        lemma_entries_setting(next, entries, attr, from + 1, key);
    }
}

proof fn lemma_attributes_setting_kept(
    cfg: ConfigView,
    attrs: Seq<AttributeView>,
    from: nat,
    key: Seq<char>,
)
    requires
        key == "name"@ || key == "endian"@,
        attributes_applied(cfg, attrs, from) is Ok,
        forall|k: int, j: int| from <= k ==> !keyed(attrs, k, j, key),
    ensures
        setting(attributes_applied(cfg, attrs, from)->Ok_0, key) == setting(cfg, key),
    decreases attrs.len() - from,
{
    if from < attrs.len() {
        let a = attrs[from as int];
        let next = attribute_applied(cfg, a, from)->Ok_0;
        if a.path == config_path() {
            let nested = a.meta->nested;
            lemma_entries_setting(cfg, nested, from, 0, key);
            assert forall|j: int| 0 <= j < nested.len() implies !has_key(
                #[trigger] nested[j],
                key,
            ) by {
                assert(!keyed(attrs, from as int, j, key));
            }
        }
        lemma_attributes_setting_kept(next, attrs, from + 1, key);
    }
}

proof fn lemma_attributes_setting_last(
    cfg: ConfigView,
    attrs: Seq<AttributeView>,
    from: nat,
    key: Seq<char>,
    k: int,
    j: int,
)
    requires
        key == "name"@ || key == "endian"@,
        attributes_applied(cfg, attrs, from) is Ok,
        from <= k,
        last_keyed(attrs, k, j, key),
    ensures
        setting(attributes_applied(cfg, attrs, from)->Ok_0, key) == value_at(attrs, k, j),
    decreases attrs.len() - from,
{
    let a = attrs[from as int];
    let next = attribute_applied(cfg, a, from)->Ok_0;
    if from < k {
        lemma_attributes_setting_last(next, attrs, from + 1, key, k, j);
    } else {
        let nested = a.meta->nested;
        lemma_entries_setting(cfg, nested, from, 0, key);
        assert forall|j2: int| j < j2 < nested.len() implies !has_key(#[trigger] nested[j2], key) by {
            if has_key(nested[j2], key) {
                assert(keyed(attrs, k, j2, key));
            }
        }
        assert(has_key(nested[j], key));
        assert(setting(next, key) == nested[j]->value);
        assert forall|k2: int, j2: int| from + 1 <= k2 implies !keyed(attrs, k2, j2, key) by {
            if keyed(attrs, k2, j2, key) {
                assert(k2 < k || (k2 == k && j2 <= j));
            }
        }
        lemma_attributes_setting_kept(next, attrs, from + 1, key);
    }
}

/// Defaults: where no configuration entry names the generated type, it is named
/// after the record, with `Buffer` behind; where none names a byte order, the
/// order is the machine's.
pub proof fn lemma_defaults(def: DefinitionView)
    requires
        resolved(def) is Ok,
    ensures
        (forall|k: int, j: int| !keyed(def.attrs, k, j, "name"@)) ==> resolved(
            def,
        )->Ok_0.output_name == def.name + "Buffer"@,
        (forall|k: int, j: int| !keyed(def.attrs, k, j, "endian"@)) ==> resolved(def)->Ok_0.endian
            == Endian::Native,
{
    lemma_keys_differ();
    if forall|k: int, j: int| !keyed(def.attrs, k, j, "name"@) {
        lemma_attributes_setting_kept(initial_config(def.name), def.attrs, 0, "name"@);
    }
    if forall|k: int, j: int| !keyed(def.attrs, k, j, "endian"@) {
        lemma_attributes_setting_kept(initial_config(def.name), def.attrs, 0, "endian"@);
    }
}

/// Overriding: the generated type has the name that the last `name` entry gives,
/// in source order, whatever came before it.
pub proof fn lemma_last_name_wins(def: DefinitionView, k: int, j: int)
    requires
        resolved(def) is Ok,
        last_keyed(def.attrs, k, j, "name"@),
    ensures
        resolved(def)->Ok_0.output_name == value_at(def.attrs, k, j),
{
    lemma_attributes_setting_last(initial_config(def.name), def.attrs, 0, "name"@, k, j);
}

/// Overriding: the byte order is the one that the last `endian` entry names, in
/// source order, whatever came before it.
pub proof fn lemma_last_endian_wins(def: DefinitionView, k: int, j: int)
    requires
        resolved(def) is Ok,
        last_keyed(def.attrs, k, j, "endian"@),
    ensures
        value_at(def.attrs, k, j) == "big"@ ==> resolved(def)->Ok_0.endian == Endian::Big,
        value_at(def.attrs, k, j) == "little"@ ==> resolved(def)->Ok_0.endian == Endian::Little,
        value_at(def.attrs, k, j) == "big"@ || value_at(def.attrs, k, j) == "little"@,
{
    lemma_keys_differ();
    lemma_attributes_setting_last(initial_config(def.name), def.attrs, 0, "endian"@, k, j);
    lemma_resolves_unless_rejected(def);
    assert(!attribute_rejected(def.attrs[k]));
    assert(!entry_rejected(def.attrs[k].meta->nested[j]));
}

} // verus!
