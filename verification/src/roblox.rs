//! Builds the Roblox standard-library description from a parsed API dump:
//! the well-known global instances, the enum table, the creatable-instance
//! and service-name constants, and inheritance by deep merge with a base
//! library.

use vstd::prelude::*;
use crate::standard_library::{clone_field, clone_strings, lookup_entry, lookup_struct_entry,
    sp_entries_like, sp_merged_entries, spec_lookup,
    spec_lookup_struct_in, Argument, ArgumentType, Field, Meta, Required, StandardLibrary,
    Writable};

verus! {

/// One parameter of an API member; only its presence matters here.
pub struct ApiParameter {
    pub name: String,
}

/// The type an API property carries: a class reference or anything else.
pub enum ApiValueType {
    Class { name: String },
    Other { name: String },
}

/// The read/write security levels of a property; `None` on both means
/// an unrestricted property.
pub struct ApiPropertySecurity {
    pub read: String,
    pub write: String,
}

/// One member of an API class.
pub enum ApiMember {
    Callback { name: String, tags: Option<Vec<String>> },
    Event { name: String, tags: Option<Vec<String>> },
    Function { name: String, tags: Option<Vec<String>>, parameters: Vec<ApiParameter> },
    Property {
        name: String,
        tags: Option<Vec<String>>,
        security: ApiPropertySecurity,
        value_type: ApiValueType,
    },
}

/// One class of the API dump.
pub struct ApiClass {
    pub name: String,
    pub superclass: String,
    pub tags: Vec<String>,
    pub members: Vec<ApiMember>,
}

pub struct ApiEnumItem {
    pub name: String,
}

pub struct ApiEnum {
    pub name: String,
    pub items: Vec<ApiEnumItem>,
}

/// A parsed API dump: classes and enums.
pub struct ApiDump {
    pub classes: Vec<ApiClass>,
    pub enums: Vec<ApiEnum>,
}

/// A defect in the input data that stops generation: a class the dump does
/// not define, an inheritance chain that never ends (a cycle), or a base
/// description missing a table the generator must patch.
#[derive(Debug)]
pub enum GenerateError {
    MissingClass(String),
    InheritanceCycle(String),
    MalformedBase(String),
}

/// Replacing the first entry keyed like `key`, or appending a new one.
pub open spec fn sp_map_insert(entries: Seq<(String, Field)>, key: String, value: Field) -> Seq<
    (String, Field),
>
    decreases entries.len(),
{
    if entries.len() == 0 {
        seq![(key, value)]
    } else if entries[0].0@ == key@ {
        seq![(entries[0].0, value)] + entries.skip(1)
    } else {
        seq![entries[0]] + sp_map_insert(entries.skip(1), key, value)
    }
}

/// After an insert, the inserted key resolves to the new value and every
/// other key resolves as before.
pub proof fn lemma_map_insert_lookup(entries: Seq<(String, Field)>, key: String, value: Field)
    ensures
        spec_lookup(sp_map_insert(entries, key, value), key@) == Some(value),
        forall|other: Seq<char>|
            other != key@ ==> #[trigger] spec_lookup(sp_map_insert(entries, key, value), other)
                == spec_lookup(entries, other),
    decreases entries.len(),
{
    if entries.len() == 0 {
        let result = sp_map_insert(entries, key, value);
        assert(result == seq![(key, value)]);
        assert(result.skip(1) =~= Seq::<(String, Field)>::empty());
        assert(result[0] == (key, value));
        assert forall|other: Seq<char>| other != key@ implies #[trigger] spec_lookup(
            result,
            other,
        ) == spec_lookup(entries, other) by {
            assert(spec_lookup(result.skip(1), other) is None);
        }
    } else if entries[0].0@ == key@ {
        let result = sp_map_insert(entries, key, value);
        assert(result == seq![(entries[0].0, value)] + entries.skip(1));
        assert(result.skip(1) =~= entries.skip(1));
        assert(result[0] == (entries[0].0, value));
        assert forall|other: Seq<char>| other != key@ implies #[trigger] spec_lookup(
            result,
            other,
        ) == spec_lookup(entries, other) by {
            assert(spec_lookup(result, other) == spec_lookup(entries.skip(1), other));
        }
    } else {
        lemma_map_insert_lookup(entries.skip(1), key, value);
        let result = sp_map_insert(entries, key, value);
        assert(result == seq![entries[0]] + sp_map_insert(entries.skip(1), key, value));
        assert(result.skip(1) =~= sp_map_insert(entries.skip(1), key, value));
        assert(result[0] == entries[0]);
        assert(spec_lookup(result, key@) == Some(value));
        assert forall|other: Seq<char>| other != key@ implies #[trigger] spec_lookup(
            result,
            other,
        ) == spec_lookup(entries, other) by {
            if entries[0].0@ == other {
            } else {
                assert(spec_lookup(sp_map_insert(entries.skip(1), key, value), other)
                    == spec_lookup(entries.skip(1), other));
            }
        }
    }
}

/// Inserts into an association list: replaces the first entry with the same
/// key text, or appends.
pub fn map_insert(entries: Vec<(String, Field)>, key: String, value: Field) -> (r: Vec<
    (String, Field),
>)
    ensures
        r@ == sp_map_insert(entries@, key, value),
    decreases entries@.len(),
{
    let mut entries = entries;
    if entries.len() == 0 {
        let mut r: Vec<(String, Field)> = Vec::new();
        r.push((key, value));
        assert(r@ =~= seq![(key, value)]);
        r
    } else {
        let ghost e0 = entries@;
        let head = entries.remove(0);
        assert(entries@ =~= e0.skip(1));
        if head.0 == key {
            let mut r: Vec<(String, Field)> = Vec::new();
            r.push((head.0, value));
            r.append(&mut entries);
            proof {
                assert(r@ =~= seq![(e0[0].0, value)] + e0.skip(1));
            }
            r
        } else {
            let mut rest = map_insert(entries, key, value);
            let mut r: Vec<(String, Field)> = Vec::new();
            r.push(head);
            r.append(&mut rest);
            proof {
                assert(r@ =~= seq![e0[0]] + sp_map_insert(e0.skip(1), key, value));
            }
            r
        }
    }
}

/// Inserting a struct table under a name: replaces the first table of that
/// name, or appends a new one.
pub open spec fn sp_struct_insert(
    structs: Seq<(String, Vec<(String, Field)>)>,
    key: String,
    value: Vec<(String, Field)>,
) -> Seq<(String, Vec<(String, Field)>)>
    decreases structs.len(),
{
    if structs.len() == 0 {
        seq![(key, value)]
    } else if structs[0].0@ == key@ {
        seq![(structs[0].0, value)] + structs.skip(1)
    } else {
        seq![structs[0]] + sp_struct_insert(structs.skip(1), key, value)
    }
}

/// After a struct insert, the inserted name resolves to the new table and
/// every other name resolves as before.
pub proof fn lemma_struct_insert_lookup(
    structs: Seq<(String, Vec<(String, Field)>)>,
    key: String,
    value: Vec<(String, Field)>,
)
    ensures
        spec_lookup_struct_in(sp_struct_insert(structs, key, value), key@) == Some(value@),
        forall|other: Seq<char>|
            other != key@ ==> #[trigger] spec_lookup_struct_in(
                sp_struct_insert(structs, key, value),
                other,
            ) == spec_lookup_struct_in(structs, other),
    decreases structs.len(),
{
    let result = sp_struct_insert(structs, key, value);
    if structs.len() == 0 {
        assert(result == seq![(key, value)]);
        assert(result.skip(1) =~= Seq::<(String, Vec<(String, Field)>)>::empty());
        assert(result[0] == (key, value));
        assert forall|other: Seq<char>| other != key@ implies #[trigger] spec_lookup_struct_in(
            result,
            other,
        ) == spec_lookup_struct_in(structs, other) by {
            assert(spec_lookup_struct_in(result.skip(1), other) is None);
        }
    } else if structs[0].0@ == key@ {
        assert(result == seq![(structs[0].0, value)] + structs.skip(1));
        assert(result.skip(1) =~= structs.skip(1));
        assert(result[0] == (structs[0].0, value));
        assert forall|other: Seq<char>| other != key@ implies #[trigger] spec_lookup_struct_in(
            result,
            other,
        ) == spec_lookup_struct_in(structs, other) by {
            assert(spec_lookup_struct_in(result, other) == spec_lookup_struct_in(
                structs.skip(1),
                other,
            ));
        }
    } else {
        lemma_struct_insert_lookup(structs.skip(1), key, value);
        assert(result == seq![structs[0]] + sp_struct_insert(structs.skip(1), key, value));
        assert(result.skip(1) =~= sp_struct_insert(structs.skip(1), key, value));
        assert(result[0] == structs[0]);
        assert(spec_lookup_struct_in(result, key@) == Some(value@));
        assert forall|other: Seq<char>| other != key@ implies #[trigger] spec_lookup_struct_in(
            result,
            other,
        ) == spec_lookup_struct_in(structs, other) by {
            if structs[0].0@ == other {
            } else {
                assert(spec_lookup_struct_in(sp_struct_insert(structs.skip(1), key, value), other)
                    == spec_lookup_struct_in(structs.skip(1), other));
            }
        }
    }
}

/// Inserts a struct table into the struct list.
pub fn struct_insert(
    structs: Vec<(String, Vec<(String, Field)>)>,
    key: String,
    value: Vec<(String, Field)>,
) -> (r: Vec<(String, Vec<(String, Field)>)>)
    ensures
        r@ == sp_struct_insert(structs@, key, value),
    decreases structs@.len(),
{
    let mut structs = structs;
    if structs.len() == 0 {
        let mut r: Vec<(String, Vec<(String, Field)>)> = Vec::new();
        r.push((key, value));
        assert(r@ =~= seq![(key, value)]);
        r
    } else {
        let ghost e0 = structs@;
        let head = structs.remove(0);
        assert(structs@ =~= e0.skip(1));
        if head.0 == key {
            let mut r: Vec<(String, Vec<(String, Field)>)> = Vec::new();
            r.push((head.0, value));
            r.append(&mut structs);
            proof {
                assert(r@ =~= seq![(e0[0].0, value)] + e0.skip(1));
            }
            r
        } else {
            let mut rest = struct_insert(structs, key, value);
            let mut r: Vec<(String, Vec<(String, Field)>)> = Vec::new();
            r.push(head);
            r.append(&mut rest);
            proof {
                assert(r@ =~= seq![e0[0]] + sp_struct_insert(e0.skip(1), key, value));
            }
            r
        }
    }
}

/// Replaces the struct table registered under `key`, in place.
fn register_struct(
    structs: &mut Vec<(String, Vec<(String, Field)>)>,
    key: String,
    value: Vec<(String, Field)>,
)
    ensures
        final(structs)@ == sp_struct_insert(old(structs)@, key, value),
        spec_lookup_struct_in(final(structs)@, key@) is Some,
        forall|s: Seq<char>|
            spec_lookup_struct_in(old(structs)@, s) is Some ==> #[trigger] spec_lookup_struct_in(
                final(structs)@,
                s,
            ) is Some,
{
    let ghost structs0 = structs@;
    let ghost gkey = key;
    let ghost gvalue = value;
    let mut current: Vec<(String, Vec<(String, Field)>)> = Vec::new();
    core::mem::swap(structs, &mut current);
    let mut inserted = struct_insert(current, key, value);
    core::mem::swap(structs, &mut inserted);
    proof {
        assert(structs@ == sp_struct_insert(structs0, gkey, gvalue));
        lemma_struct_insert_monotone(structs0, gkey, gvalue);
    }
}

/// Whether `tags` holds the tag `t`.
pub open spec fn sp_has_tag(tags: Seq<String>, t: Seq<char>) -> bool {
    exists|i: int| 0 <= i < tags.len() && (#[trigger] tags[i])@ == t
}

/// Decides `sp_has_tag`.
pub fn has_tag(tags: &Vec<String>, t: &str) -> (r: bool)
    ensures
        r == sp_has_tag(tags@, t@),
{
    let wanted: String = t.to_owned();
    let mut i: usize = 0;
    while i < tags.len()
        invariant
            i <= tags@.len(),
            forall|j: int| 0 <= j < i ==> (#[trigger] tags@[j])@ != t@,
        decreases tags@.len() - i,
    {
        if tags[i] == wanted {
            return true;
        }
        i += 1;
    }
    false
}

/// The first class of the dump named `name`, if any.
pub open spec fn sp_find_class(classes: Seq<ApiClass>, name: Seq<char>) -> Option<ApiClass>
    decreases classes.len(),
{
    if classes.len() == 0 {
        None
    } else if classes[0].name@ == name {
        Some(classes[0])
    } else {
        sp_find_class(classes.skip(1), name)
    }
}

/// Finds a class of the dump by name.
pub fn find_class<'a>(api: &'a ApiDump, name: &String) -> (r: Option<&'a ApiClass>)
    ensures
        match r {
            Some(c) => sp_find_class(api.classes@, name@) == Some(*c),
            None => sp_find_class(api.classes@, name@) is None,
        },
{
    let mut i: usize = 0;
    assert(api.classes@.skip(0) =~= api.classes@);
    while i < api.classes.len()
        invariant
            i <= api.classes@.len(),
            sp_find_class(api.classes@, name@) == sp_find_class(
                api.classes@.skip(i as int),
                name@,
            ),
        decreases api.classes@.len() - i,
    {
        assert(api.classes@.skip(i as int)[0] == api.classes@[i as int]);
        assert(api.classes@.skip(i as int).skip(1) =~= api.classes@.skip(i + 1));
        if api.classes[i].name == *name {
            return Some(&api.classes[i]);
        }
        i += 1;
    }
    None
}

/// The name a member declares.
pub open spec fn sp_member_name(m: ApiMember) -> Seq<char> {
    match m {
        ApiMember::Callback { name, tags } => name@,
        ApiMember::Event { name, tags } => name@,
        ApiMember::Function { name, tags, parameters } => name@,
        ApiMember::Property { name, tags, security, value_type } => name@,
    }
}

/// Whether a member's tags mark it deprecated.
pub open spec fn sp_member_deprecated(m: ApiMember) -> bool {
    match m {
        ApiMember::Callback { name, tags } => tags matches Some(t) && sp_has_tag(
            t@,
            "Deprecated"@,
        ),
        ApiMember::Event { name, tags } => tags matches Some(t) && sp_has_tag(t@, "Deprecated"@),
        ApiMember::Function { name, tags, parameters } => tags matches Some(t) && sp_has_tag(
            t@,
            "Deprecated"@,
        ),
        ApiMember::Property { name, tags, security, value_type } => tags matches Some(t)
            && sp_has_tag(t@, "Deprecated"@),
    }
}

/// Whether a member is written into a class table: not skipped as
/// deprecated, and for a property, unrestricted on both sides.
pub open spec fn sp_member_written(m: ApiMember, show_deprecated: bool) -> bool {
    &&& (sp_member_deprecated(m) ==> show_deprecated)
    &&& (m matches ApiMember::Property { name, tags, security, value_type } ==> (security.read@
        == "None"@ && security.write@ == "None"@))
}

/// The field a written member contributes to its class table, or `None`
/// for a property the security levels hide. A class-typed property first
/// registers that class's struct table.
fn member_field(
    structs: &mut Vec<(String, Vec<(String, Field)>)>,
    api: &ApiDump,
    m: &ApiMember,
    show_deprecated: bool,
    fuel: usize,
) -> (r: Result<Option<(String, Field)>, GenerateError>)
    ensures
        forall|s: Seq<char>|
            spec_lookup_struct_in(old(structs)@, s) is Some ==> #[trigger] spec_lookup_struct_in(
                final(structs)@,
                s,
            ) is Some,
        r matches Ok(op) ==> (match op {
            Some(pair) => pair.0@ == sp_member_name(*m),
            None => true,
        }),
        r matches Ok(op) ==> (op is Some <==> (m matches ApiMember::Property {
            name,
            tags,
            security,
            value_type,
        } ==> (security.read@ == "None"@ && security.write@ == "None"@))),
    decreases fuel, 2int,
{
    match m {
        ApiMember::Callback { name, tags } => Ok(
            Some((name.clone(), Field::Property { writable: Some(Writable::Overridden) })),
        ),
        ApiMember::Event { name, tags } => Ok(
            Some((name.clone(), Field::Struct("Event".to_owned()))),
        ),
        ApiMember::Function { name, tags, parameters } => {
            let mut arguments: Vec<Argument> = Vec::new();
            let mut i: usize = 0;
            while i < parameters.len()
                invariant
                    i <= parameters@.len(),
                decreases parameters@.len() - i,
            {
                arguments.push(
                    Argument {
                        argument_type: ArgumentType::Any,
                        required: Required::NotRequired,
                    },
                );
                i += 1;
            }
            Ok(Some((name.clone(), Field::Function { arguments, method: true })))
        },
        ApiMember::Property { name, tags, security, value_type } => {
            let none_level: String = "None".to_owned();
            if security.read == none_level && security.write == none_level {
                match value_type {
                    ApiValueType::Class { name: class_name } => {
                        if fuel == 0 {
                            return Err(GenerateError::InheritanceCycle(class_name.clone()));
                        }
                        match write_class_struct(structs, api, class_name, show_deprecated, fuel
                            - 1) {
                            Ok(()) => {},
                            Err(e) => {
                                return Err(e);
                            },
                        }
                        Ok(Some((name.clone(), Field::Struct(class_name.clone()))))
                    },
                    ApiValueType::Other { name: other_name } => {
                        let tag_list: Vec<String> = match tags {
                            Some(t) => clone_strings(t),
                            None => Vec::new(),
                        };
                        let writable = if has_tag(&tag_list, "ReadOnly") {
                            None
                        } else {
                            Some(Writable::Overridden)
                        };
                        Ok(Some((name.clone(), Field::Property { writable })))
                    },
                }
            } else {
                Ok(None)
            }
        },
    }
}

/// Inserting keeps every present key present, and the inserted key present.
proof fn lemma_map_insert_monotone(entries: Seq<(String, Field)>, key: String, value: Field)
    ensures
        forall|k: Seq<char>|
            spec_lookup(entries, k) is Some ==> #[trigger] spec_lookup(
                sp_map_insert(entries, key, value),
                k,
            ) is Some,
        spec_lookup(sp_map_insert(entries, key, value), key@) is Some,
{
    lemma_map_insert_lookup(entries, key, value);
    assert forall|k: Seq<char>|
        spec_lookup(entries, k) is Some implies #[trigger] spec_lookup(
        sp_map_insert(entries, key, value),
        k,
    ) is Some by {
        if k == key@ {
        }
    }
}

/// Whether `table` resolves every written member of `class_name` and of
/// its whole superclass chain, followed for at most `fuel` steps.
pub open spec fn sp_chain_members_present(
    api: ApiDump,
    class_name: Seq<char>,
    table: Seq<(String, Field)>,
    show_deprecated: bool,
    fuel: nat,
) -> bool
    decreases fuel,
{
    match sp_find_class(api.classes@, class_name) {
        Some(cls) => {
            &&& forall|i: int|
                0 <= i < cls.members@.len() && sp_member_written(
                    #[trigger] cls.members@[i],
                    show_deprecated,
                ) ==> spec_lookup(table, sp_member_name(cls.members@[i])) is Some
            &&& (cls.superclass@ != "<<<ROOT>>>"@ ==> fuel > 0 && sp_chain_members_present(
                api,
                cls.superclass@,
                table,
                show_deprecated,
                (fuel - 1) as nat,
            ))
        },
        None => false,
    }
}

/// Writes every member of `class_name` and of its superclasses into the
/// table, superclasses last. Keys already present stay present; every
/// written member of the whole chain ends up resolvable.
pub fn write_class_members(
    structs: &mut Vec<(String, Vec<(String, Field)>)>,
    table: Vec<(String, Field)>,
    api: &ApiDump,
    class_name: &String,
    show_deprecated: bool,
    fuel: usize,
) -> (r: Result<Vec<(String, Field)>, GenerateError>)
    ensures
        forall|s: Seq<char>|
            spec_lookup_struct_in(old(structs)@, s) is Some ==> #[trigger] spec_lookup_struct_in(
                final(structs)@,
                s,
            ) is Some,
        r matches Ok(out) ==> forall|k: Seq<char>|
            spec_lookup(table@, k) is Some ==> #[trigger] spec_lookup(out@, k) is Some,
        r matches Ok(out) ==> sp_chain_members_present(
            *api,
            class_name@,
            out@,
            show_deprecated,
            fuel as nat,
        ),
    decreases fuel, 1int,
{
    let cls = match find_class(api, class_name) {
        Some(cls) => cls,
        None => {
            return Err(GenerateError::MissingClass(class_name.clone()));
        },
    };
    let mut table = table;
    let ghost table0 = table@;
    let mut i: usize = 0;
    while i < cls.members.len()
        invariant
            i <= cls.members@.len(),
            sp_find_class(api.classes@, class_name@) == Some(*cls),
            forall|k: Seq<char>|
                spec_lookup(table0, k) is Some ==> #[trigger] spec_lookup(table@, k) is Some,
            forall|s: Seq<char>|
                spec_lookup_struct_in(old(structs)@, s) is Some
                    ==> #[trigger] spec_lookup_struct_in(structs@, s) is Some,
            forall|j: int|
                0 <= j < i && sp_member_written(#[trigger] cls.members@[j], show_deprecated)
                    ==> spec_lookup(table@, sp_member_name(cls.members@[j])) is Some,
        decreases cls.members@.len() - i, 2int,
    {
        let member = &cls.members[i];
        let deprecated = match member {
            ApiMember::Callback { name, tags } => match tags {
                Some(t) => has_tag(t, "Deprecated"),
                None => false,
            },
            ApiMember::Event { name, tags } => match tags {
                Some(t) => has_tag(t, "Deprecated"),
                None => false,
            },
            ApiMember::Function { name, tags, parameters } => match tags {
                Some(t) => has_tag(t, "Deprecated"),
                None => false,
            },
            ApiMember::Property { name, tags, security, value_type } => match tags {
                Some(t) => has_tag(t, "Deprecated"),
                None => false,
            },
        };
        assert(deprecated == sp_member_deprecated(cls.members@[i as int]));
        if show_deprecated || !deprecated {
            if fuel == 0 {
                return Err(GenerateError::InheritanceCycle(class_name.clone()));
            }
            let ghost table_mid = table@;
            match member_field(structs, api, member, show_deprecated, fuel - 1) {
                Ok(Some((name, field))) => {
                    let ghost gname = name;
                    let ghost gfield = field;
                    table = map_insert(table, name, field);
                    proof {
                        lemma_map_insert_monotone(table_mid, gname, gfield);
                    }
                },
                Ok(None) => {},
                Err(e) => {
                    return Err(e);
                },
            }
        }
        i += 1;
    }
    let root_marker: String = "<<<ROOT>>>".to_owned();
    if !(cls.superclass == root_marker) {
        if fuel == 0 {
            return Err(GenerateError::InheritanceCycle(class_name.clone()));
        }
        let superclass = cls.superclass.clone();
        let ghost table_pre = table@;
        match write_class_members(structs, table, api, &superclass, show_deprecated, fuel - 1) {
            Ok(out) => {
                proof {
                    lemma_chain_members_monotone(
                        *api,
                        cls.superclass@,
                        out@,
                        show_deprecated,
                        (fuel - 1) as nat,
                        fuel as nat,
                    );
                }
                Ok(out)
            },
            Err(e) => Err(e),
        }
    } else {
        Ok(table)
    }
}

/// A chain that is present under some fuel is present under more fuel.
proof fn lemma_chain_members_monotone(
    api: ApiDump,
    class_name: Seq<char>,
    table: Seq<(String, Field)>,
    show_deprecated: bool,
    lower: nat,
    higher: nat,
)
    requires
        sp_chain_members_present(api, class_name, table, show_deprecated, lower),
        lower <= higher,
    ensures
        sp_chain_members_present(api, class_name, table, show_deprecated, higher),
    decreases lower,
{
    match sp_find_class(api.classes@, class_name) {
        Some(cls) => {
            if cls.superclass@ != "<<<ROOT>>>"@ {
                lemma_chain_members_monotone(
                    api,
                    cls.superclass@,
                    table,
                    show_deprecated,
                    (lower - 1) as nat,
                    (higher - 1) as nat,
                );
            }
        },
        None => {},
    }
}

/// Registers the struct table of `class_name`, building it from the class's
/// members with everything else inherited from `Instance`; already
/// registered names are left alone.
pub fn write_class_struct(
    structs: &mut Vec<(String, Vec<(String, Field)>)>,
    api: &ApiDump,
    class_name: &String,
    show_deprecated: bool,
    fuel: usize,
) -> (r: Result<(), GenerateError>)
    ensures
        forall|s: Seq<char>|
            spec_lookup_struct_in(old(structs)@, s) is Some ==> #[trigger] spec_lookup_struct_in(
                final(structs)@,
                s,
            ) is Some,
        r is Ok ==> spec_lookup_struct_in(final(structs)@, class_name@) is Some,
    decreases fuel, 0int,
{
    match lookup_struct_entry(structs, class_name) {
        Some(existing) => {
            return Ok(());
        },
        None => {},
    }
    register_struct(structs, class_name.clone(), Vec::new());
    let mut table: Vec<(String, Field)> = Vec::new();
    table.push(("*".to_owned(), Field::Struct("Instance".to_owned())));
    if fuel == 0 {
        return Err(GenerateError::InheritanceCycle(class_name.clone()));
    }
    let table = match write_class_members(
        structs,
        table,
        api,
        class_name,
        show_deprecated,
        fuel - 1,
    ) {
        Ok(out) => out,
        Err(e) => {
            return Err(e);
        },
    };
    register_struct(structs, class_name.clone(), table);
    Ok(())
}

/// A struct insert keeps every present name present, the inserted one too.
proof fn lemma_struct_insert_monotone(
    structs: Seq<(String, Vec<(String, Field)>)>,
    key: String,
    value: Vec<(String, Field)>,
)
    ensures
        forall|s: Seq<char>|
            spec_lookup_struct_in(structs, s) is Some ==> #[trigger] spec_lookup_struct_in(
                sp_struct_insert(structs, key, value),
                s,
            ) is Some,
        spec_lookup_struct_in(sp_struct_insert(structs, key, value), key@) is Some,
{
    lemma_struct_insert_lookup(structs, key, value);
    assert forall|s: Seq<char>|
        spec_lookup_struct_in(structs, s) is Some implies #[trigger] spec_lookup_struct_in(
        sp_struct_insert(structs, key, value),
        s,
    ) is Some by {
        if s == key@ {
        }
    }
}

/// Writes a well-known global as an instance of `class_name`, registering
/// the class's struct table first.
pub fn write_class(
    globals: Vec<(String, Field)>,
    structs: &mut Vec<(String, Vec<(String, Field)>)>,
    api: &ApiDump,
    global_name: &str,
    class_name: &str,
    show_deprecated: bool,
    fuel: usize,
) -> (r: Result<Vec<(String, Field)>, GenerateError>)
    ensures
        forall|s: Seq<char>|
            spec_lookup_struct_in(old(structs)@, s) is Some ==> #[trigger] spec_lookup_struct_in(
                final(structs)@,
                s,
            ) is Some,
        r matches Ok(out) ==> {
            &&& (spec_lookup(out@, global_name@) matches Some(f) && f matches Field::Struct(cn)
                && cn@ == class_name@)
            &&& forall|k: Seq<char>|
                k != global_name@ ==> #[trigger] spec_lookup(out@, k) == spec_lookup(globals@, k)
            &&& spec_lookup_struct_in(final(structs)@, class_name@) is Some
        },
{
    let owned_class: String = class_name.to_owned();
    match write_class_struct(structs, api, &owned_class, show_deprecated, fuel) {
        Ok(()) => {},
        Err(e) => {
            return Err(e);
        },
    }
    let key: String = global_name.to_owned();
    let value = Field::Struct(owned_class);
    let ghost gkey = key;
    let ghost gvalue = value;
    let out = map_insert(globals, key, value);
    proof {
        lemma_map_insert_lookup(globals@, gkey, gvalue);
    }
    Ok(out)
}

/// Writes the `Enum` global: one table per API enum, each with its items
/// and a `GetEnumItems` method.
pub fn write_enums(globals: Vec<(String, Field)>, api: &ApiDump) -> (r: Vec<(String, Field)>)
    ensures
        spec_lookup(r@, "Enum"@) matches Some(f) && f matches Field::Table(children) && forall|
            i: int,
        |
            0 <= i < api.enums@.len() ==> spec_lookup(
                children@,
                (#[trigger] api.enums@[i]).name@,
            ) is Some,
        forall|k: Seq<char>|
            k != "Enum"@ ==> #[trigger] spec_lookup(r@, k) == spec_lookup(globals@, k),
{
    let mut children: Vec<(String, Field)> = Vec::new();
    let mut i: usize = 0;
    while i < api.enums.len()
        invariant
            i <= api.enums@.len(),
            forall|j: int|
                0 <= j < i ==> spec_lookup(children@, (#[trigger] api.enums@[j]).name@) is Some,
        decreases api.enums@.len() - i,
    {
        let enum_entry = &api.enums[i];
        let mut enum_table: Vec<(String, Field)> = Vec::new();
        enum_table = map_insert(
            enum_table,
            "GetEnumItems".to_owned(),
            Field::Function { arguments: Vec::new(), method: true },
        );
        let mut j: usize = 0;
        while j < enum_entry.items.len()
            invariant
                j <= enum_entry.items@.len(),
            decreases enum_entry.items@.len() - j,
        {
            enum_table = map_insert(
                enum_table,
                enum_entry.items[j].name.clone(),
                Field::Struct("EnumItem".to_owned()),
            );
            j += 1;
        }
        let ghost children_mid = children@;
        let key = enum_entry.name.clone();
        let ghost gkey = key;
        let ghost gvalue = Field::Table(enum_table);
        children = map_insert(children, key, Field::Table(enum_table));
        proof {
            lemma_map_insert_monotone(children_mid, gkey, gvalue);
        }
        i += 1;
    }
    let key: String = "Enum".to_owned();
    let value = Field::Table(children);
    let ghost gkey = key;
    let ghost gvalue = value;
    let out = map_insert(globals, key, value);
    proof {
        lemma_map_insert_lookup(globals@, gkey, gvalue);
    }
    out
}

/// The names of the classes that can be created, in dump order.
pub open spec fn sp_creatable(classes: Seq<ApiClass>) -> Seq<String>
    decreases classes.len(),
{
    if classes.len() == 0 {
        Seq::empty()
    } else if !sp_has_tag(classes[0].tags@, "NotCreatable"@) {
        seq![classes[0].name] + sp_creatable(classes.skip(1))
    } else {
        sp_creatable(classes.skip(1))
    }
}

/// The names of the service classes, in dump order.
pub open spec fn sp_services(classes: Seq<ApiClass>) -> Seq<String>
    decreases classes.len(),
{
    if classes.len() == 0 {
        Seq::empty()
    } else if sp_has_tag(classes[0].tags@, "Service"@) {
        seq![classes[0].name] + sp_services(classes.skip(1))
    } else {
        sp_services(classes.skip(1))
    }
}

/// Collects the creatable class names.
fn creatable_names(api: &ApiDump) -> (r: Vec<String>)
    ensures
        r@ == sp_creatable(api.classes@),
{
    let mut out: Vec<String> = Vec::new();
    let mut i: usize = 0;
    assert(api.classes@.skip(0) =~= api.classes@);
    while i < api.classes.len()
        invariant
            i <= api.classes@.len(),
            sp_creatable(api.classes@) == out@ + sp_creatable(api.classes@.skip(i as int)),
        decreases api.classes@.len() - i,
    {
        assert(api.classes@.skip(i as int)[0] == api.classes@[i as int]);
        assert(api.classes@.skip(i as int).skip(1) =~= api.classes@.skip(i + 1));
        let ghost prev = out@;
        if !has_tag(&api.classes[i].tags, "NotCreatable") {
            out.push(api.classes[i].name.clone());
            proof {
                assert(prev + (seq![api.classes@[i as int].name] + sp_creatable(
                    api.classes@.skip(i + 1),
                )) =~= out@ + sp_creatable(api.classes@.skip(i + 1)));
            }
        }
        i += 1;
    }
    proof {
        assert(api.classes@.skip(i as int) =~= Seq::<ApiClass>::empty());
        assert(out@ + Seq::<String>::empty() =~= out@);
    }
    out
}

/// Collects the service class names.
fn service_names(api: &ApiDump) -> (r: Vec<String>)
    ensures
        r@ == sp_services(api.classes@),
{
    let mut out: Vec<String> = Vec::new();
    let mut i: usize = 0;
    assert(api.classes@.skip(0) =~= api.classes@);
    while i < api.classes.len()
        invariant
            i <= api.classes@.len(),
            sp_services(api.classes@) == out@ + sp_services(api.classes@.skip(i as int)),
        decreases api.classes@.len() - i,
    {
        assert(api.classes@.skip(i as int)[0] == api.classes@[i as int]);
        assert(api.classes@.skip(i as int).skip(1) =~= api.classes@.skip(i + 1));
        let ghost prev = out@;
        if has_tag(&api.classes[i].tags, "Service") {
            out.push(api.classes[i].name.clone());
            proof {
                assert(prev + (seq![api.classes@[i as int].name] + sp_services(
                    api.classes@.skip(i + 1),
                )) =~= out@ + sp_services(api.classes@.skip(i + 1)));
            }
        }
        i += 1;
    }
    proof {
        assert(api.classes@.skip(i as int) =~= Seq::<ApiClass>::empty());
        assert(out@ + Seq::<String>::empty() =~= out@);
    }
    out
}

/// Replaces `Instance.new` with a constructor constrained to the names of
/// the creatable classes. The base description must already declare
/// `Instance` as a table with a `new` member.
pub fn write_instance_new(globals: Vec<(String, Field)>, api: &ApiDump) -> (r: Result<
    Vec<(String, Field)>,
    GenerateError,
>)
    ensures
        r matches Ok(out) ==> {
            &&& (spec_lookup(out@, "Instance"@) matches Some(f) && f matches Field::Table(t)
                && (spec_lookup(t@, "new"@) matches Some(nf) && nf matches Field::Function {
                    arguments,
                    method,
                } && !method && arguments@.len() == 1 && arguments@[0].required
                    == Required::Required(None) && (arguments@[0].argument_type
                    matches ArgumentType::Constant(cs) && cs@ == sp_creatable(api.classes@))))
            &&& forall|k: Seq<char>|
                k != "Instance"@ ==> #[trigger] spec_lookup(out@, k) == spec_lookup(globals@, k)
        },
        r is Err ==> !(spec_lookup(globals@, "Instance"@) matches Some(f)
            && f matches Field::Table(t) && spec_lookup(t@, "new"@) is Some),
{
    let instance_key: String = "Instance".to_owned();
    let table = match lookup_entry(&globals, &instance_key) {
        Some(Field::Table(t)) => t,
        _ => {
            return Err(GenerateError::MalformedBase(instance_key));
        },
    };
    match lookup_entry(table, &"new".to_owned()) {
        Some(existing) => {},
        None => {
            return Err(GenerateError::MalformedBase(instance_key));
        },
    }
    let names = creatable_names(api);
    let constructor = Field::Function {
        arguments: {
            let mut args: Vec<Argument> = Vec::new();
            args.push(
                Argument {
                    argument_type: ArgumentType::Constant(names),
                    required: Required::Required(None),
                },
            );
            args
        },
        method: false,
    };
    let shell = clone_table_shell(table);
    let ghost gshell = shell@;
    let new_key: String = "new".to_owned();
    let ghost gnewkey = new_key;
    let ghost gconstructor = constructor;
    let new_table = map_insert(shell, new_key, constructor);
    proof {
        lemma_map_insert_lookup(gshell, gnewkey, gconstructor);
        assert(spec_lookup(new_table@, "new"@) == Some(gconstructor));
    }
    let ghost ginstance_key = instance_key;
    let ghost gtable_field = Field::Table(new_table);
    let out = map_insert(globals, instance_key, Field::Table(new_table));
    proof {
        lemma_map_insert_lookup(globals@, ginstance_key, gtable_field);
        assert(spec_lookup(out@, "Instance"@) == Some(gtable_field));
    }
    Ok(out)
}

/// Copies the entries of a table so a replacement can be built from it.
fn clone_table_shell(entries: &Vec<(String, Field)>) -> (r: Vec<(String, Field)>)
    ensures
        sp_entries_like(r@, entries@),
{
    crate::standard_library::clone_entries(entries)
}

/// Replaces `DataModel.GetService` with a method constrained to the names
/// of the service classes. The base description must already declare a
/// `DataModel` struct with a `GetService` member.
pub fn write_get_service(
    structs: &mut Vec<(String, Vec<(String, Field)>)>,
    api: &ApiDump,
) -> (r: Result<(), GenerateError>)
    ensures
        r matches Ok(o) ==> {
            &&& (spec_lookup_struct_in(final(structs)@, "DataModel"@) matches Some(dm)
                && (spec_lookup(dm, "GetService"@) matches Some(gf)
                && gf matches Field::Function { arguments, method } && method && arguments@.len()
                    == 1 && arguments@[0].required == Required::Required(None)
                    && (arguments@[0].argument_type matches ArgumentType::Constant(cs) && cs@
                    == sp_services(api.classes@))))
            &&& forall|n: Seq<char>|
                n != "DataModel"@ ==> #[trigger] spec_lookup_struct_in(final(structs)@, n)
                    == spec_lookup_struct_in(old(structs)@, n)
        },
        r is Err ==> !(spec_lookup_struct_in(old(structs)@, "DataModel"@) matches Some(dm)
            && spec_lookup(dm, "GetService"@) is Some),
        r is Err ==> final(structs)@ == old(structs)@,
{
    let data_model_key: String = "DataModel".to_owned();
    let data_model = match lookup_struct_entry(structs, &data_model_key) {
        Some(dm) => dm,
        None => {
            return Err(GenerateError::MalformedBase(data_model_key));
        },
    };
    match lookup_entry(data_model, &"GetService".to_owned()) {
        Some(existing) => {},
        None => {
            return Err(GenerateError::MalformedBase(data_model_key));
        },
    }
    let names = service_names(api);
    let getter = Field::Function {
        arguments: {
            let mut args: Vec<Argument> = Vec::new();
            args.push(
                Argument {
                    argument_type: ArgumentType::Constant(names),
                    required: Required::Required(None),
                },
            );
            args
        },
        method: true,
    };
    let shell = clone_table_shell(data_model);
    let ghost gshell = shell@;
    let service_key: String = "GetService".to_owned();
    let ghost gservice_key = service_key;
    let ghost ggetter = getter;
    let new_table = map_insert(shell, service_key, getter);
    proof {
        lemma_map_insert_lookup(gshell, gservice_key, ggetter);
        assert(spec_lookup(new_table@, "GetService"@) == Some(ggetter));
    }
    let ghost structs0 = structs@;
    let ghost gdm_key = data_model_key;
    let ghost gnew_table = new_table;
    register_struct(structs, data_model_key, new_table);
    proof {
        lemma_struct_insert_lookup(structs0, gdm_key, gnew_table);
        assert(spec_lookup_struct_in(structs@, "DataModel"@) == Some(gnew_table@));
    }
    Ok(())
}

/// When deprecated members are shown, aliases the `Event` struct's
/// `Connect` and `Wait` under their deprecated lower-case names. The base
/// description must declare both.
pub fn deprecated_event_methods(
    structs: &mut Vec<(String, Vec<(String, Field)>)>,
    show_deprecated: bool,
) -> (r: Result<(), GenerateError>)
    ensures
        !show_deprecated ==> r is Ok && final(structs)@ == old(structs)@,
        r matches Ok(o) && show_deprecated ==> (spec_lookup_struct_in(
            final(structs)@,
            "Event"@,
        ) matches Some(ev) && spec_lookup(ev, "connect"@) is Some && spec_lookup(
            ev,
            "wait"@,
        ) is Some),
        r is Err ==> !(spec_lookup_struct_in(old(structs)@, "Event"@) matches Some(ev)
            && spec_lookup(ev, "Connect"@) is Some && spec_lookup(ev, "Wait"@) is Some),
{
    if !show_deprecated {
        return Ok(());
    }
    let event_key: String = "Event".to_owned();
    let event_table = match lookup_struct_entry(structs, &event_key) {
        Some(ev) => ev,
        None => {
            return Err(GenerateError::MalformedBase(event_key));
        },
    };
    let connect = match lookup_entry(event_table, &"Connect".to_owned()) {
        Some(f) => clone_field(f),
        None => {
            return Err(GenerateError::MalformedBase(event_key));
        },
    };
    let wait = match lookup_entry(event_table, &"Wait".to_owned()) {
        Some(f) => clone_field(f),
        None => {
            return Err(GenerateError::MalformedBase(event_key));
        },
    };
    let shell = clone_table_shell(event_table);
    let ghost gshell = shell@;
    let connect_key: String = "connect".to_owned();
    let ghost gconnect_key = connect_key;
    let ghost gconnect = connect;
    let with_connect = map_insert(shell, connect_key, connect);
    proof {
        lemma_map_insert_lookup(gshell, gconnect_key, gconnect);
    }
    let ghost gwith_connect = with_connect@;
    let wait_key: String = "wait".to_owned();
    let ghost gwait_key = wait_key;
    let ghost gwait = wait;
    let with_wait = map_insert(with_connect, wait_key, wait);
    proof {
        lemma_map_insert_lookup(gwith_connect, gwait_key, gwait);
        reveal_strlit("connect");
        reveal_strlit("wait");
        assert("connect"@.len() == 7 && "wait"@.len() == 4);
        assert(spec_lookup(with_wait@, "wait"@) == Some(gwait));
        assert(spec_lookup(with_wait@, "connect"@) == Some(gconnect));
    }
    let ghost structs0 = structs@;
    let ghost gevent_key = event_key;
    let ghost gnew_table = with_wait;
    register_struct(structs, event_key, with_wait);
    proof {
        lemma_struct_insert_lookup(structs0, gevent_key, gnew_table);
        assert(spec_lookup_struct_in(structs@, "Event"@) == Some(gnew_table@));
    }
    Ok(())
}

/// Builds the Roblox standard-library description.
pub struct RobloxGenerator {
    /// The base description the generated one starts from and extends.
    pub std: StandardLibrary,
    /// Whether deprecated API members are written out.
    pub show_deprecated: bool,
}

impl RobloxGenerator {
    /// Generates the description: the well-known globals, the enums, the
    /// constrained constructors, and the deprecated event aliases, then
    /// inherits everything else from `base` by deep merge.
    pub fn generate(self, api: &ApiDump, base: StandardLibrary) -> (r: Result<
        StandardLibrary,
        GenerateError,
    >)
        ensures
            r matches Ok(lib) ==> spec_lookup(lib.globals@, "Enum"@) is Some,
    {
        let RobloxGenerator { std, show_deprecated } = self;
        let StandardLibrary { globals, meta } = std;
        let meta = match meta {
            Some(m) => m,
            None => Meta { name: None, base: None, structs: None },
        };
        let mut structs = match meta.structs {
            Some(s) => s,
            None => Vec::new(),
        };
        let fuel = if api.classes.len() < usize::MAX {
            api.classes.len() + 1
        } else {
            usize::MAX
        };
        let globals = match write_class(
            globals,
            &mut structs,
            api,
            "game",
            "DataModel",
            show_deprecated,
            fuel,
        ) {
            Ok(g) => g,
            Err(e) => {
                return Err(e);
            },
        };
        let globals = match write_class(
            globals,
            &mut structs,
            api,
            "plugin",
            "Plugin",
            show_deprecated,
            fuel,
        ) {
            Ok(g) => g,
            Err(e) => {
                return Err(e);
            },
        };
        let globals = match write_class(
            globals,
            &mut structs,
            api,
            "script",
            "Script",
            show_deprecated,
            fuel,
        ) {
            Ok(g) => g,
            Err(e) => {
                return Err(e);
            },
        };
        let globals = match write_class(
            globals,
            &mut structs,
            api,
            "workspace",
            "Workspace",
            show_deprecated,
            fuel,
        ) {
            Ok(g) => g,
            Err(e) => {
                return Err(e);
            },
        };
        let globals = write_enums(globals, api);
        let globals = match write_instance_new(globals, api) {
            Ok(g) => g,
            Err(e) => {
                return Err(e);
            },
        };
        match write_get_service(&mut structs, api) {
            Ok(o) => {},
            Err(e) => {
                return Err(e);
            },
        }
        match deprecated_event_methods(&mut structs, show_deprecated) {
            Ok(o) => {},
            Err(e) => {
                return Err(e);
            },
        }
        let generated = StandardLibrary {
            globals,
            meta: Some(Meta { name: meta.name, base: meta.base, structs: Some(structs) }),
        };
        let ghost ggen = generated;
        let merged = generated.extend(base);
        proof {
            lemma_merged_keeps_child_keys(merged.globals@, ggen.globals@, base.globals@, "Enum"@);
        }
        Ok(merged)
    }
}

/// A merged table resolves every key its child resolves.
proof fn lemma_merged_keeps_child_keys(
    re: Seq<(String, Field)>,
    ce: Seq<(String, Field)>,
    be: Seq<(String, Field)>,
    k: Seq<char>,
)
    requires
        sp_merged_entries(re, ce, be),
        spec_lookup(ce, k) is Some,
    ensures
        spec_lookup(re, k) is Some,
{
    lemma_lookup_index(ce, k);
    let i = choose|i: int| 0 <= i < ce.len() && ce[i].0@ == k;
    assert(re[i].0 == ce[i].0);
    lemma_index_lookup(re, k, i);
}

/// A resolvable key occurs at some index.
proof fn lemma_lookup_index(entries: Seq<(String, Field)>, k: Seq<char>)
    requires
        spec_lookup(entries, k) is Some,
    ensures
        exists|i: int| 0 <= i < entries.len() && (#[trigger] entries[i]).0@ == k,
    decreases entries.len(),
{
    if entries.len() > 0 {
        if entries[0].0@ == k {
            assert(entries[0].0@ == k);
        } else {
            lemma_lookup_index(entries.skip(1), k);
            let i = choose|i: int| 0 <= i < entries.skip(1).len() && (#[trigger] entries.skip(
                1,
            )[i]).0@ == k;
            assert(entries[i + 1].0@ == k);
        }
    }
}

/// A key occurring at some index resolves.
proof fn lemma_index_lookup(entries: Seq<(String, Field)>, k: Seq<char>, i: int)
    requires
        0 <= i < entries.len(),
        entries[i].0@ == k,
    ensures
        spec_lookup(entries, k) is Some,
    decreases entries.len(),
{
    if entries[0].0@ == k {
    } else {
        assert(entries.skip(1)[i - 1] == entries[i]);
        lemma_index_lookup(entries.skip(1), k, i - 1);
    }
}

} // verus!
