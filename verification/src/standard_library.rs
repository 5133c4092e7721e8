//! The standard-library model: a declarative description of the embedding
//! environment's globals, with dotted-path lookup and inheritance by deep
//! merge.

use vstd::prelude::*;

verus! {

/// The primitive type a call argument is declared or classified as.
#[derive(Clone, Debug, PartialEq, Eq)]
#[verifier::ext_equal]
pub enum ArgumentType {
    /// Matches every argument.
    Any,
    Bool,
    /// One of a fixed set of literal strings.
    Constant(Vec<String>),
    /// A named custom type, shown to the user by its name.
    Display(String),
    Function,
    Nil,
    Number,
    String,
    Table,
    /// A trailing slot that consumes any number of call arguments.
    Vararg,
}

/// Whether a required argument carries a suggestion message.
#[derive(Clone, Debug, PartialEq, Eq)]
#[verifier::ext_equal]
pub enum Required {
    NotRequired,
    /// Required; the message, when present, is attached to diagnostics about
    /// a missing use of the argument.
    Required(Option<String>),
}

/// How a property may be written.
#[derive(Clone, Debug, PartialEq, Eq)]
pub enum Writable {
    /// Writable as a whole.
    Overridden,
}

/// One declared argument of a standard-library function.
#[derive(Clone, Debug, PartialEq, Eq)]
#[verifier::ext_equal]
pub struct Argument {
    pub argument_type: ArgumentType,
    pub required: Required,
}

/// What one global (or member) name offers.
#[derive(Debug, PartialEq, Eq)]
#[verifier::ext_equal]
pub enum Field {
    /// A callable, with its declared arguments; `method` marks `:` calls.
    Function { arguments: Vec<Argument>, method: bool },
    /// A plain value.
    Property { writable: Option<Writable> },
    /// A reference into the struct table, by struct name.
    Struct(String),
    /// A nested table of members.
    Table(Vec<(String, Field)>),
}

/// Metadata of a standard-library description.
#[verifier::ext_equal]
pub struct Meta {
    /// The environment's name, such as `roblox`.
    pub name: Option<String>,
    /// The name of a base library this one inherits from.
    pub base: Option<String>,
    /// Named member tables used to model instance-like values.
    pub structs: Option<Vec<(String, Vec<(String, Field)>)>>,
}

/// A standard-library description: globals by name, plus metadata.
#[verifier::ext_equal]
pub struct StandardLibrary {
    pub globals: Vec<(String, Field)>,
    pub meta: Option<Meta>,
}

/// The first entry of `entries` whose key reads `name`, if any.
pub open spec fn spec_lookup(entries: Seq<(String, Field)>, name: Seq<char>) -> Option<Field>
    decreases entries.len(),
{
    if entries.len() == 0 {
        None
    } else if entries[0].0@ == name {
        Some(entries[0].1)
    } else {
        spec_lookup(entries.skip(1), name)
    }
}

/// The struct table registered under `name`, if any.
pub open spec fn spec_lookup_struct(lib: StandardLibrary, name: Seq<char>) -> Option<
    Seq<(String, Field)>,
>
{
    match lib.meta {
        Some(meta) => match meta.structs {
            Some(structs) => spec_lookup_struct_in(structs@, name),
            None => None,
        },
        None => None,
    }
}

/// The first struct entry of `structs` named `name`, if any.
pub open spec fn spec_lookup_struct_in(
    structs: Seq<(String, Vec<(String, Field)>)>,
    name: Seq<char>,
) -> Option<Seq<(String, Field)>>
    decreases structs.len(),
{
    if structs.len() == 0 {
        None
    } else if structs[0].0@ == name {
        Some(structs[0].1@)
    } else {
        spec_lookup_struct_in(structs.skip(1), name)
    }
}

/// Descends from `current` through the remaining path segments: a `Table`
/// resolves the next segment among its members, a `Struct` resolves it in the
/// named struct table, and any other field fails when segments remain.
pub open spec fn spec_descend(lib: StandardLibrary, current: Field, rest: Seq<String>) -> Option<
    Field,
>
    decreases rest.len(),
{
    if rest.len() == 0 {
        Some(current)
    } else {
        match current {
            Field::Table(entries) => match spec_lookup(entries@, rest[0]@) {
                Some(next) => spec_descend(lib, next, rest.skip(1)),
                None => None,
            },
            Field::Struct(struct_name) => match spec_lookup_struct(lib, struct_name@) {
                Some(members) => match spec_lookup(members, rest[0]@) {
                    Some(next) => spec_descend(lib, next, rest.skip(1)),
                    None => None,
                },
                None => None,
            },
            _ => None,
        }
    }
}

/// What `find_global` returns: the field a dotted name path resolves to.
pub open spec fn spec_find_global(lib: StandardLibrary, path: Seq<String>) -> Option<Field> {
    if path.len() == 0 {
        None
    } else {
        match spec_lookup(lib.globals@, path[0]@) {
            Some(first) => spec_descend(lib, first, path.skip(1)),
            None => None,
        }
    }
}

/// The first entry of `entries` keyed `name`, as a reference.
pub fn lookup_entry<'a>(entries: &'a Vec<(String, Field)>, name: &String) -> (r: Option<&'a Field>)
    ensures
        match r {
            Some(f) => spec_lookup(entries@, name@) == Some(*f),
            None => spec_lookup(entries@, name@) is None,
        },
{
    let mut i: usize = 0;
    assert(entries@.skip(0) =~= entries@);
    while i < entries.len()
        invariant
            i <= entries.len(),
            spec_lookup(entries@, name@) == spec_lookup(entries@.skip(i as int), name@),
        decreases entries.len() - i,
    {
        assert(entries@.skip(i as int)[0] == entries@[i as int]);
        assert(entries@.skip(i as int).skip(1) =~= entries@.skip(i + 1));
        if entries[i].0 == *name {
            return Some(&entries[i].1);
        }
        i += 1;
    }
    None
}

/// The struct table named `name` among `structs`, as a reference.
pub fn lookup_struct_entry<'a>(
    structs: &'a Vec<(String, Vec<(String, Field)>)>,
    name: &String,
) -> (r: Option<&'a Vec<(String, Field)>>)
    ensures
        match r {
            Some(members) => spec_lookup_struct_in(structs@, name@) == Some(members@),
            None => spec_lookup_struct_in(structs@, name@) is None,
        },
{
    let mut i: usize = 0;
    assert(structs@.skip(0) =~= structs@);
    while i < structs.len()
        invariant
            i <= structs.len(),
            spec_lookup_struct_in(structs@, name@) == spec_lookup_struct_in(
                structs@.skip(i as int),
                name@,
            ),
        decreases structs.len() - i,
    {
        assert(structs@.skip(i as int)[0] == structs@[i as int]);
        assert(structs@.skip(i as int).skip(1) =~= structs@.skip(i + 1));
        if structs[i].0 == *name {
            return Some(&structs[i].1);
        }
        i += 1;
    }
    None
}

impl StandardLibrary {
    /// Resolves a dotted name path such as `math.ceil` against the globals,
    /// descending through `Table` members and `Struct` references.
    pub fn find_global<'a>(&'a self, path: &Vec<String>) -> (r: Option<&'a Field>)
        ensures
            match r {
                Some(f) => spec_find_global(*self, path@) == Some(*f),
                None => spec_find_global(*self, path@) is None,
            },
    {
        if path.len() == 0 {
            return None;
        }
        let mut current: &Field = match lookup_entry(&self.globals, &path[0]) {
            Some(f) => f,
            None => {
                return None;
            },
        };
        let mut i: usize = 1;
        while i < path.len()
            invariant
                1 <= i <= path@.len(),
                spec_find_global(*self, path@) == spec_descend(*self, *current, path@.skip(i as int)),
            decreases path.len() - i,
        {
            assert(path@.skip(i as int)[0] == path@[i as int]);
            assert(path@.skip(i as int).skip(1) =~= path@.skip(i + 1));
            match current {
                Field::Table(entries) => {
                    match lookup_entry(entries, &path[i]) {
                        Some(next) => {
                            current = next;
                        },
                        None => {
                            return None;
                        },
                    }
                },
                Field::Struct(struct_name) => {
                    let members = match &self.meta {
                        Some(meta) => match &meta.structs {
                            Some(structs) => lookup_struct_entry(structs, struct_name),
                            None => None,
                        },
                        None => None,
                    };
                    match members {
                        Some(members) => match lookup_entry(members, &path[i]) {
                            Some(next) => {
                                current = next;
                            },
                            None => {
                                return None;
                            },
                        },
                        None => {
                            return None;
                        },
                    }
                },
                _ => {
                    return None;
                },
            }
            i += 1;
        }
        assert(path@.skip(i as int) =~= Seq::<String>::empty());
        Some(current)
    }
}

/// Whether two argument types read the same: constant sets and display
/// names compare by text.
pub open spec fn sp_type_like(a: ArgumentType, b: ArgumentType) -> bool {
    match (a, b) {
        (ArgumentType::Any, ArgumentType::Any) => true,
        (ArgumentType::Bool, ArgumentType::Bool) => true,
        (ArgumentType::Constant(x), ArgumentType::Constant(y)) => x@ == y@,
        (ArgumentType::Display(x), ArgumentType::Display(y)) => x@ == y@,
        (ArgumentType::Function, ArgumentType::Function) => true,
        (ArgumentType::Nil, ArgumentType::Nil) => true,
        (ArgumentType::Number, ArgumentType::Number) => true,
        (ArgumentType::String, ArgumentType::String) => true,
        (ArgumentType::Table, ArgumentType::Table) => true,
        (ArgumentType::Vararg, ArgumentType::Vararg) => true,
        _ => false,
    }
}

/// Whether two requiredness markers read the same.
pub open spec fn sp_required_like(a: Required, b: Required) -> bool {
    match (a, b) {
        (Required::NotRequired, Required::NotRequired) => true,
        (Required::Required(x), Required::Required(y)) => match (x, y) {
            (None, None) => true,
            (Some(xm), Some(ym)) => xm@ == ym@,
            _ => false,
        },
        _ => false,
    }
}

/// Whether two declared arguments read the same.
pub open spec fn sp_argument_like(a: Argument, b: Argument) -> bool {
    sp_type_like(a.argument_type, b.argument_type) && sp_required_like(a.required, b.required)
}

/// Whether two fields read the same: equal up to the text of every string
/// and the contents of every nested table.
pub open spec fn sp_field_like(a: Field, b: Field) -> bool
    decreases a, 1int,
{
    match (a, b) {
        (
            Field::Function { arguments: aa, method: am },
            Field::Function { arguments: ba, method: bm },
        ) => am == bm && aa@.len() == ba@.len() && (forall|i: int|
            0 <= i < aa@.len() ==> sp_argument_like(#[trigger] aa@[i], ba@[i])),
        (Field::Property { writable: aw }, Field::Property { writable: bw }) => aw == bw,
        (Field::Struct(x), Field::Struct(y)) => x@ == y@,
        (Field::Table(ae), Field::Table(be)) => sp_entries_like(ae@, be@),
        _ => false,
    }
}

/// Whether two member tables read the same, entry for entry.
pub open spec fn sp_entries_like(ae: Seq<(String, Field)>, be: Seq<(String, Field)>) -> bool
    decreases ae, 0int,
{
    ae.len() == be.len() && (forall|i: int|
        0 <= i < ae.len() ==> (#[trigger] ae[i]).0@ == be[i].0@ && sp_field_like(
            ae[i].1,
            be[i].1,
        ))
}

/// Whether `r` is the deep merge of `c` over `b`: two tables merge entry by
/// entry, and on any other pair the overriding field wins whole.
pub open spec fn sp_merged_field(r: Field, c: Field, b: Field) -> bool
    decreases c, 3int,
{
    match (c, b) {
        (Field::Table(ce), Field::Table(be)) => (r matches Field::Table(re))
            && sp_merged_entries(r->Table_0@, ce@, be@),
        _ => sp_field_like(r, c),
    }
}

/// Whether `re` merges `ce` over `be`: the child's entries in order, each
/// merged with the base entry of the same key when there is one, followed by
/// exactly the base entries whose keys the child lacks.
pub open spec fn sp_merged_entries(
    re: Seq<(String, Field)>,
    ce: Seq<(String, Field)>,
    be: Seq<(String, Field)>,
) -> bool
    decreases ce, 2int,
{
    &&& re.len() >= ce.len()
    &&& forall|i: int|
        0 <= i < ce.len() ==> (#[trigger] re[i]).0 == ce[i].0 && (match spec_lookup(
            be,
            ce[i].0@,
        ) {
            Some(bv) => sp_merged_field(re[i].1, ce[i].1, bv),
            None => sp_field_like(re[i].1, ce[i].1),
        })
    &&& sp_rest_like(re.skip(ce.len() as int), be, ce)
}

/// Whether `rest` reads as the base entries whose keys the child does not
/// declare, in order.
pub open spec fn sp_rest_like(
    rest: Seq<(String, Field)>,
    be: Seq<(String, Field)>,
    ce: Seq<(String, Field)>,
) -> bool
    decreases be.len(),
{
    if be.len() == 0 {
        rest.len() == 0
    } else if spec_lookup(ce, be[0].0@) is None {
        rest.len() >= 1 && rest[0].0 == be[0].0 && sp_field_like(rest[0].1, be[0].1)
            && sp_rest_like(rest.skip(1), be.skip(1), ce)
    } else {
        sp_rest_like(rest, be.skip(1), ce)
    }
}

/// Extending a read-alike rest by the next unmatched base entry.
proof fn lemma_rest_like_extend(
    rest: Seq<(String, Field)>,
    be: Seq<(String, Field)>,
    ce: Seq<(String, Field)>,
    j: int,
    x: (String, Field),
)
    requires
        0 <= j < be.len(),
        sp_rest_like(rest, be.take(j), ce),
        spec_lookup(ce, be[j].0@) is None,
        x.0 == be[j].0,
        sp_field_like(x.1, be[j].1),
    ensures
        sp_rest_like(rest.push(x), be.take(j + 1), ce),
    decreases j,
{
    if j == 0 {
        assert(be.take(0) =~= Seq::<(String, Field)>::empty());
        assert(be.take(1) =~= seq![be[0]]);
        assert(rest.push(x)[0] == x);
        assert(rest.push(x).skip(1) =~= Seq::<(String, Field)>::empty());
        assert(seq![be[0]].skip(1) =~= Seq::<(String, Field)>::empty());
        assert(sp_rest_like(rest.push(x).skip(1), be.take(j + 1).skip(1), ce));
        assert(sp_rest_like(rest.push(x), be.take(j + 1), ce));
    } else {
        assert(be.take(j)[0] == be[0]);
        assert(be.take(j + 1)[0] == be[0]);
        assert(be.take(j).skip(1) =~= be.skip(1).take(j - 1));
        assert(be.take(j + 1).skip(1) =~= be.skip(1).take(j));
        assert(be.skip(1)[j - 1] == be[j]);
        if spec_lookup(ce, be[0].0@) is None {
            lemma_rest_like_extend(rest.skip(1), be.skip(1), ce, j - 1, x);
            assert(rest.push(x).skip(1) =~= rest.skip(1).push(x));
            assert(rest.push(x)[0] == rest[0]);
            assert(sp_rest_like(rest.push(x).skip(1), be.take(j + 1).skip(1), ce));
            assert(sp_rest_like(rest.push(x), be.take(j + 1), ce));
        } else {
            lemma_rest_like_extend(rest, be.skip(1), ce, j - 1, x);
            assert(sp_rest_like(rest.push(x), be.take(j + 1).skip(1), ce));
            assert(sp_rest_like(rest.push(x), be.take(j + 1), ce));
        }
    }
}

/// Passing over a matched base entry keeps a read-alike rest read-alike.
proof fn lemma_rest_like_matched(
    rest: Seq<(String, Field)>,
    be: Seq<(String, Field)>,
    ce: Seq<(String, Field)>,
    j: int,
)
    requires
        0 <= j < be.len(),
        sp_rest_like(rest, be.take(j), ce),
        spec_lookup(ce, be[j].0@) is Some,
    ensures
        sp_rest_like(rest, be.take(j + 1), ce),
    decreases j,
{
    if j == 0 {
        assert(be.take(0) =~= Seq::<(String, Field)>::empty());
        assert(be.take(1) =~= seq![be[0]]);
        assert(seq![be[0]].skip(1) =~= Seq::<(String, Field)>::empty());
    } else {
        assert(be.take(j)[0] == be[0]);
        assert(be.take(j + 1)[0] == be[0]);
        assert(be.take(j).skip(1) =~= be.skip(1).take(j - 1));
        assert(be.take(j + 1).skip(1) =~= be.skip(1).take(j));
        assert(be.skip(1)[j - 1] == be[j]);
        if spec_lookup(ce, be[0].0@) is None {
            lemma_rest_like_matched(rest.skip(1), be.skip(1), ce, j - 1);
        } else {
            lemma_rest_like_matched(rest, be.skip(1), ce, j - 1);
        }
    }
}

/// Copies a vector of strings, text for text.
pub fn clone_strings(v: &Vec<String>) -> (r: Vec<String>)
    ensures
        r@ == v@,
{
    let mut out: Vec<String> = Vec::new();
    let mut i: usize = 0;
    while i < v.len()
        invariant
            i <= v@.len(),
            out@.len() == i,
            forall|j: int| 0 <= j < i ==> out@[j] == v@[j],
        decreases v@.len() - i,
    {
        out.push(v[i].clone());
        i += 1;
    }
    proof {
        assert(out@ =~= v@);
    }
    out
}

/// Copies one declared argument.
fn clone_argument(a: &Argument) -> (r: Argument)
    ensures
        sp_argument_like(r, *a),
{
    let argument_type = match &a.argument_type {
        ArgumentType::Any => ArgumentType::Any,
        ArgumentType::Bool => ArgumentType::Bool,
        ArgumentType::Constant(options) => ArgumentType::Constant(clone_strings(options)),
        ArgumentType::Display(name) => ArgumentType::Display(name.clone()),
        ArgumentType::Function => ArgumentType::Function,
        ArgumentType::Nil => ArgumentType::Nil,
        ArgumentType::Number => ArgumentType::Number,
        ArgumentType::String => ArgumentType::String,
        ArgumentType::Table => ArgumentType::Table,
        ArgumentType::Vararg => ArgumentType::Vararg,
    };
    let required = match &a.required {
        Required::NotRequired => Required::NotRequired,
        Required::Required(message) => Required::Required(
            match message {
                Some(m) => Some(m.clone()),
                None => None,
            },
        ),
    };
    Argument { argument_type, required }
}

/// Copies one field, tables and all.
#[verifier::rlimit(60)]
pub fn clone_field(f: &Field) -> (r: Field)
    ensures
        sp_field_like(r, *f),
    decreases *f, 1int,
{
    match f {
        Field::Function { arguments, method } => {
            let mut out: Vec<Argument> = Vec::new();
            let mut i: usize = 0;
            while i < arguments.len()
                invariant
                    i <= arguments@.len(),
                    out@.len() == i,
                    forall|j: int| 0 <= j < i ==> sp_argument_like(#[trigger] out@[j], arguments@[j]),
                decreases arguments@.len() - i,
            {
                out.push(clone_argument(&arguments[i]));
                i += 1;
            }
            let r = Field::Function { arguments: out, method: *method };
            proof {
                assert(sp_field_like(r, *f));
            }
            r
        },
        Field::Property { writable } => {
            let r = Field::Property {
                writable: match writable {
                    Some(Writable::Overridden) => Some(Writable::Overridden),
                    None => None,
                },
            };
            proof {
                if *writable is Some {
                    assert((*writable)->0 == Writable::Overridden);
                    assert(r->Property_writable == Some(Writable::Overridden));
                } else {
                    assert(r->Property_writable is None);
                }
                assert(sp_field_like(r, *f));
            }
            r
        },
        Field::Struct(name) => {
            let r = Field::Struct(name.clone());
            proof {
                assert(sp_field_like(r, *f));
            }
            r
        },
        Field::Table(entries) => {
            let r = Field::Table(clone_entries(entries));
            proof {
                assert(sp_field_like(r, *f));
            }
            r
        },
    }
}

/// Copies a member table, entry by entry.
pub fn clone_entries(entries: &Vec<(String, Field)>) -> (r: Vec<(String, Field)>)
    ensures
        sp_entries_like(r@, entries@),
    decreases *entries, 0int,
{
    let mut out: Vec<(String, Field)> = Vec::new();
    let mut i: usize = 0;
    while i < entries.len()
        invariant
            i <= entries@.len(),
            out@.len() == i,
            forall|j: int|
                0 <= j < i ==> (#[trigger] out@[j]).0@ == entries@[j].0@ && sp_field_like(
                    out@[j].1,
                    entries@[j].1,
                ),
        decreases entries@.len() - i,
    {
        proof {
            assert(decreases_to!(*entries => entries@));
            assert(decreases_to!(entries@ => entries@[i as int]));
            assert(decreases_to!(entries@[i as int] => entries@[i as int].1));
        }
        let value = clone_field(&entries[i].1);
        out.push((entries[i].0.clone(), value));
        i += 1;
    }
    out
}

/// Merges `child` over `base`, the child winning except where two tables
/// merge entry by entry.
pub fn merge_field(child: &Field, base: &Field) -> (r: Field)
    ensures
        sp_merged_field(r, *child, *base),
    decreases *child, 2int,
{
    match (child, base) {
        (Field::Table(ce), Field::Table(be)) => {
            proof {
                assert(decreases_to!(*child => *ce));
            }
            Field::Table(merge_entries(ce, be))
        },
        _ => clone_field(child),
    }
}

/// Merges two member tables: the child's entries in order, merged with the
/// base entry of the same key when there is one, then the base entries the
/// child lacks.
pub fn merge_entries(ce: &Vec<(String, Field)>, be: &Vec<(String, Field)>) -> (r: Vec<
    (String, Field),
>)
    ensures
        sp_merged_entries(r@, ce@, be@),
    decreases *ce, 1int,
{
    let mut out: Vec<(String, Field)> = Vec::new();
    let mut i: usize = 0;
    while i < ce.len()
        invariant
            i <= ce@.len(),
            out@.len() == i,
            forall|j: int|
                0 <= j < i ==> (#[trigger] out@[j]).0 == ce@[j].0 && (match spec_lookup(
                    be@,
                    ce@[j].0@,
                ) {
                    Some(bv) => sp_merged_field(out@[j].1, ce@[j].1, bv),
                    None => sp_field_like(out@[j].1, ce@[j].1),
                }),
        decreases ce@.len() - i,
    {
        proof {
            assert(decreases_to!(*ce => ce@));
            assert(decreases_to!(ce@ => ce@[i as int]));
            assert(decreases_to!(ce@[i as int] => ce@[i as int].1));
        }
        let merged = match lookup_entry(be, &ce[i].0) {
            Some(bv) => merge_field(&ce[i].1, bv),
            None => clone_field(&ce[i].1),
        };
        out.push((ce[i].0.clone(), merged));
        i += 1;
    }
    let ghost split = out@.len() as int;
    let ghost part1 = out@;
    let mut j: usize = 0;
    assert(out@.skip(split) =~= Seq::<(String, Field)>::empty());
    assert(be@.take(0) =~= Seq::<(String, Field)>::empty());
    while j < be.len()
        invariant
            j <= be@.len(),
            out@.len() >= split,
            split == ce@.len(),
            out@.take(split) == part1,
            forall|k: int|
                0 <= k < ce@.len() ==> (#[trigger] out@[k]).0 == ce@[k].0 && (match spec_lookup(
                    be@,
                    ce@[k].0@,
                ) {
                    Some(bv) => sp_merged_field(out@[k].1, ce@[k].1, bv),
                    None => sp_field_like(out@[k].1, ce@[k].1),
                }),
            sp_rest_like(out@.skip(split), be@.take(j as int), ce@),
        decreases be@.len() - j,
    {
        match lookup_entry(ce, &be[j].0) {
            Some(cv) => {
                proof {
                    lemma_rest_like_matched(out@.skip(split), be@, ce@, j as int);
                }
            },
            None => {
                let value = clone_field(&be[j].1);
                let ghost prev = out@;
                out.push((be[j].0.clone(), value));
                proof {
                    assert(out@.skip(split) =~= prev.skip(split).push(
                        (out@[out@.len() - 1].0, out@[out@.len() - 1].1),
                    ));
                    assert(out@[out@.len() - 1].0 == be@[j as int].0);
                    lemma_rest_like_extend(
                        prev.skip(split),
                        be@,
                        ce@,
                        j as int,
                        (out@[out@.len() - 1].0, out@[out@.len() - 1].1),
                    );
                    assert(out@.take(split) =~= prev.take(split));
                }
            },
        }
        j += 1;
    }
    proof {
        assert(be@.take(j as int) =~= be@);
    }
    out
}

/// Whether a merged struct table list merges `cs` over `bs`: the child's
/// struct tables in order, each merged member-wise with the base's table of
/// the same name, then tables that read as the base's remaining ones.
pub open spec fn sp_merged_structs(
    rs: Seq<(String, Vec<(String, Field)>)>,
    cs: Seq<(String, Vec<(String, Field)>)>,
    bs: Seq<(String, Vec<(String, Field)>)>,
) -> bool {
    &&& rs.len() >= cs.len()
    &&& forall|i: int|
        0 <= i < cs.len() ==> (#[trigger] rs[i]).0 == cs[i].0 && (match spec_lookup_struct_in(
            bs,
            cs[i].0@,
        ) {
            Some(bm) => sp_merged_entries(rs[i].1@, cs[i].1@, bm),
            None => sp_entries_like(rs[i].1@, cs[i].1@),
        })
    &&& sp_struct_rest_like(rs.skip(cs.len() as int), bs, cs)
}

/// Whether `rest` reads as the base's struct tables the child lacks.
pub open spec fn sp_struct_rest_like(
    rest: Seq<(String, Vec<(String, Field)>)>,
    bs: Seq<(String, Vec<(String, Field)>)>,
    cs: Seq<(String, Vec<(String, Field)>)>,
) -> bool
    decreases bs.len(),
{
    if bs.len() == 0 {
        rest.len() == 0
    } else if spec_lookup_struct_in(cs, bs[0].0@) is None {
        rest.len() >= 1 && rest[0].0 == bs[0].0 && sp_entries_like(rest[0].1@, bs[0].1@)
            && sp_struct_rest_like(rest.skip(1), bs.skip(1), cs)
    } else {
        sp_struct_rest_like(rest, bs.skip(1), cs)
    }
}

/// Extending a read-alike struct rest by the next unmatched base table.
proof fn lemma_struct_rest_like_extend(
    rest: Seq<(String, Vec<(String, Field)>)>,
    bs: Seq<(String, Vec<(String, Field)>)>,
    cs: Seq<(String, Vec<(String, Field)>)>,
    j: int,
    x: (String, Vec<(String, Field)>),
)
    requires
        0 <= j < bs.len(),
        sp_struct_rest_like(rest, bs.take(j), cs),
        spec_lookup_struct_in(cs, bs[j].0@) is None,
        x.0 == bs[j].0,
        sp_entries_like(x.1@, bs[j].1@),
    ensures
        sp_struct_rest_like(rest.push(x), bs.take(j + 1), cs),
    decreases j,
{
    if j == 0 {
        assert(bs.take(0) =~= Seq::<(String, Vec<(String, Field)>)>::empty());
        assert(bs.take(1) =~= seq![bs[0]]);
        assert(rest.push(x)[0] == x);
        assert(rest.push(x).skip(1) =~= Seq::<(String, Vec<(String, Field)>)>::empty());
        assert(seq![bs[0]].skip(1) =~= Seq::<(String, Vec<(String, Field)>)>::empty());
        assert(sp_struct_rest_like(rest.push(x).skip(1), bs.take(j + 1).skip(1), cs));
        assert(sp_struct_rest_like(rest.push(x), bs.take(j + 1), cs));
    } else {
        assert(bs.take(j)[0] == bs[0]);
        assert(bs.take(j + 1)[0] == bs[0]);
        assert(bs.take(j).skip(1) =~= bs.skip(1).take(j - 1));
        assert(bs.take(j + 1).skip(1) =~= bs.skip(1).take(j));
        assert(bs.skip(1)[j - 1] == bs[j]);
        if spec_lookup_struct_in(cs, bs[0].0@) is None {
            lemma_struct_rest_like_extend(rest.skip(1), bs.skip(1), cs, j - 1, x);
            assert(rest.push(x).skip(1) =~= rest.skip(1).push(x));
            assert(rest.push(x)[0] == rest[0]);
            assert(sp_struct_rest_like(rest.push(x).skip(1), bs.take(j + 1).skip(1), cs));
            assert(sp_struct_rest_like(rest.push(x), bs.take(j + 1), cs));
        } else {
            lemma_struct_rest_like_extend(rest, bs.skip(1), cs, j - 1, x);
            assert(sp_struct_rest_like(rest.push(x), bs.take(j + 1).skip(1), cs));
            assert(sp_struct_rest_like(rest.push(x), bs.take(j + 1), cs));
        }
    }
}

/// Passing over a matched base table keeps a read-alike struct rest so.
proof fn lemma_struct_rest_like_matched(
    rest: Seq<(String, Vec<(String, Field)>)>,
    bs: Seq<(String, Vec<(String, Field)>)>,
    cs: Seq<(String, Vec<(String, Field)>)>,
    j: int,
)
    requires
        0 <= j < bs.len(),
        sp_struct_rest_like(rest, bs.take(j), cs),
        spec_lookup_struct_in(cs, bs[j].0@) is Some,
    ensures
        sp_struct_rest_like(rest, bs.take(j + 1), cs),
    decreases j,
{
    if j == 0 {
        assert(bs.take(0) =~= Seq::<(String, Vec<(String, Field)>)>::empty());
        assert(bs.take(1) =~= seq![bs[0]]);
        assert(seq![bs[0]].skip(1) =~= Seq::<(String, Vec<(String, Field)>)>::empty());
    } else {
        assert(bs.take(j)[0] == bs[0]);
        assert(bs.take(j + 1)[0] == bs[0]);
        assert(bs.take(j).skip(1) =~= bs.skip(1).take(j - 1));
        assert(bs.take(j + 1).skip(1) =~= bs.skip(1).take(j));
        assert(bs.skip(1)[j - 1] == bs[j]);
        if spec_lookup_struct_in(cs, bs[0].0@) is None {
            lemma_struct_rest_like_matched(rest.skip(1), bs.skip(1), cs, j - 1);
        } else {
            lemma_struct_rest_like_matched(rest, bs.skip(1), cs, j - 1);
        }
    }
}

/// Merges two struct table lists.
pub fn merge_structs(
    cs: &Vec<(String, Vec<(String, Field)>)>,
    bs: &Vec<(String, Vec<(String, Field)>)>,
) -> (r: Vec<(String, Vec<(String, Field)>)>)
    ensures
        sp_merged_structs(r@, cs@, bs@),
{
    let mut out: Vec<(String, Vec<(String, Field)>)> = Vec::new();
    let mut i: usize = 0;
    while i < cs.len()
        invariant
            i <= cs@.len(),
            out@.len() == i,
            forall|j: int|
                0 <= j < i ==> (#[trigger] out@[j]).0 == cs@[j].0 && (match spec_lookup_struct_in(
                    bs@,
                    cs@[j].0@,
                ) {
                    Some(bm) => sp_merged_entries(out@[j].1@, cs@[j].1@, bm),
                    None => sp_entries_like(out@[j].1@, cs@[j].1@),
                }),
        decreases cs@.len() - i,
    {
        let merged = match lookup_struct_entry(bs, &cs[i].0) {
            Some(bm) => merge_entries(&cs[i].1, bm),
            None => clone_entries(&cs[i].1),
        };
        out.push((cs[i].0.clone(), merged));
        i += 1;
    }
    let ghost split = out@.len() as int;
    let mut j: usize = 0;
    assert(out@.skip(split) =~= Seq::<(String, Vec<(String, Field)>)>::empty());
    assert(bs@.take(0) =~= Seq::<(String, Vec<(String, Field)>)>::empty());
    while j < bs.len()
        invariant
            j <= bs@.len(),
            out@.len() >= split,
            split == cs@.len(),
            forall|k: int|
                0 <= k < cs@.len() ==> (#[trigger] out@[k]).0 == cs@[k].0 && (match spec_lookup_struct_in(
                    bs@,
                    cs@[k].0@,
                ) {
                    Some(bm) => sp_merged_entries(out@[k].1@, cs@[k].1@, bm),
                    None => sp_entries_like(out@[k].1@, cs@[k].1@),
                }),
            sp_struct_rest_like(out@.skip(split), bs@.take(j as int), cs@),
        decreases bs@.len() - j,
    {
        match lookup_struct_entry(cs, &bs[j].0) {
            Some(cm) => {
                proof {
                    lemma_struct_rest_like_matched(out@.skip(split), bs@, cs@, j as int);
                }
            },
            None => {
                let value = clone_entries(&bs[j].1);
                let ghost prev = out@;
                out.push((bs[j].0.clone(), value));
                proof {
                    assert(out@.skip(split) =~= prev.skip(split).push(
                        (out@[out@.len() - 1].0, out@[out@.len() - 1].1),
                    ));
                    lemma_struct_rest_like_extend(
                        prev.skip(split),
                        bs@,
                        cs@,
                        j as int,
                        (out@[out@.len() - 1].0, out@[out@.len() - 1].1),
                    );
                }
            },
        }
        j += 1;
    }
    proof {
        assert(bs@.take(j as int) =~= bs@);
    }
    out
}

/// Whether `r` combines metadata `c` over `b`: the child's fields take
/// precedence, and struct tables merge.
pub open spec fn sp_merged_meta(r: Option<Meta>, c: Option<Meta>, b: Option<Meta>) -> bool {
    match (c, b) {
        (None, None) => r is None,
        (Some(cm), None) => r == Some(cm),
        (None, Some(bm)) => r == Some(bm),
        (Some(cm), Some(bm)) => (r matches Some(m)) && {
            let m = r->0;
            &&& m.name == (if cm.name is Some {
                cm.name
            } else {
                bm.name
            })
            &&& m.base == (if cm.base is Some {
                cm.base
            } else {
                bm.base
            })
            &&& (match (cm.structs, bm.structs) {
                (Some(cstr), Some(bstr)) => (m.structs matches Some(ms)) && sp_merged_structs(
                    m.structs->0@,
                    cstr@,
                    bstr@,
                ),
                (Some(cstr), None) => m.structs == Some(cstr),
                (None, Some(bstr)) => m.structs == Some(bstr),
                (None, None) => m.structs is None,
            })
        },
    }
}

impl StandardLibrary {
    /// Inherits from `base`: a deep union in which this library's entries
    /// win over the base's entries of the same key, recursively for tables
    /// and struct tables, and this library's metadata takes precedence.
    pub fn extend(self, base: StandardLibrary) -> (r: StandardLibrary)
        ensures
            sp_merged_entries(r.globals@, self.globals@, base.globals@),
            sp_merged_meta(r.meta, self.meta, base.meta),
    {
        let StandardLibrary { globals, meta } = self;
        let merged_globals = merge_entries(&globals, &base.globals);
        let merged_meta = match (meta, base.meta) {
            (None, None) => None,
            (Some(cm), None) => Some(cm),
            (None, Some(bm)) => Some(bm),
            (Some(cm), Some(bm)) => {
                let structs = match (cm.structs, bm.structs) {
                    (Some(cstr), Some(bstr)) => Some(merge_structs(&cstr, &bstr)),
                    (Some(cstr), None) => Some(cstr),
                    (None, Some(bstr)) => Some(bstr),
                    (None, None) => None,
                };
                Some(
                    Meta {
                        name: if cm.name.is_some() {
                            cm.name
                        } else {
                            bm.name
                        },
                        base: if cm.base.is_some() {
                            cm.base
                        } else {
                            bm.base
                        },
                        structs,
                    },
                )
            },
        };
        StandardLibrary { globals: merged_globals, meta: merged_meta }
    }
}

} // verus!
