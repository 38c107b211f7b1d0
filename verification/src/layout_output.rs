//! Rendering of the decoded metadata: the C#-like `dump.cs` text and the
//! `methods.json` map from method signatures to RVAs.
use vstd::prelude::*;
use vstd::string::StringExecFns;

use crate::layout_model::{
    fields_view, spec_type_def, spec_type_def_display_name, spec_read_enum_values, LayoutImageView, spec_read_fields, spec_read_interface_names, spec_read_method,
    spec_read_parent_name, LayoutEnumValue, LayoutEnumValueView, LayoutField, LayoutFieldView, LayoutMetadata,
    LayoutMetadataView, LayoutMethod, LayoutMethodView, LayoutTypeDef, LayoutTypeDefView,
};
use crate::errors::LayoutError;
use crate::strings::string_result_view;
use crate::method_map::{entries_map, pretty_json_string_map, MethodMap};
use crate::text::{
    decimal, hexadecimal, join, join_with, push_decimal, push_hex, push_signed_decimal, signed_decimal, str_eq,
};

verus! {

/// The C# accessibility keyword of a type, from its visibility bits.
pub open spec fn spec_type_visibility(flags: u32) -> Seq<char> {
    let v = flags & 0x7u32;
    if v == 1 || v == 2 {
        "public"@
    } else if v == 3 {
        "private"@
    } else if v == 4 {
        "protected"@
    } else if v == 6 {
        "protected internal"@
    } else {
        "internal"@
    }
}

/// The accessibility keyword of a type with attribute `flags`.
pub fn type_visibility(flags: u32) -> (r: &'static str)
    ensures
        r@ == spec_type_visibility(flags),
{
    let v = flags & 0x7;
    if v == 1 || v == 2 {
        "public"
    } else if v == 3 {
        "private"
    } else if v == 4 {
        "protected"
    } else if v == 6 {
        "protected internal"
    } else {
        "internal"
    }
}

/// The declaration keywords of a type: its accessibility, then `interface`, `enum`,
/// `struct`, or a class kind (`static class`, `abstract class`, `sealed class`, `class`).
pub open spec fn spec_type_prefix(t: LayoutTypeDefView) -> Seq<char> {
    let visibility = spec_type_visibility(t.flags);
    if t.flags & 0x20u32 != 0 {
        visibility + " interface"@
    } else if t.is_enum {
        visibility + " enum"@
    } else if t.is_value_type {
        visibility + " struct"@
    } else if t.flags & 0x80u32 != 0 && t.flags & 0x100u32 != 0 {
        visibility + " static class"@
    } else if t.flags & 0x80u32 != 0 {
        visibility + " abstract class"@
    } else if t.flags & 0x700u32 == 0 {
        visibility + " sealed class"@
    } else {
        visibility + " class"@
    }
}

/// The declaration keywords of `type_def`.
pub fn type_prefix(type_def: &LayoutTypeDef) -> (r: String)
    ensures
        r@ == spec_type_prefix(type_def@),
{
    let flags = type_def.flags;
    let mut out = String::new();
    out.append(type_visibility(flags));
    if flags & 0x20 != 0 {
        out.append(" interface");
    } else if type_def.is_enum {
        out.append(" enum");
    } else if type_def.is_value_type {
        out.append(" struct");
    } else if flags & 0x80 != 0 && flags & 0x100 != 0 {
        out.append(" static class");
    } else if flags & 0x80 != 0 {
        out.append(" abstract class");
    } else if flags & 0x700 == 0 {
        out.append(" sealed class");
    } else {
        out.append(" class");
    }
    assert(Seq::<char>::empty() + spec_type_visibility(flags) =~= spec_type_visibility(flags));
    out
}

/// The accessibility keyword (with its trailing space) of a method, from its flags.
pub open spec fn method_access(flags: u16) -> Seq<char> {
    let a = flags & 0x7u16;
    if a == 1 {
        "private "@
    } else if a == 2 || a == 3 {
        "internal "@
    } else if a == 4 {
        "protected "@
    } else if a == 5 {
        "protected internal "@
    } else if a == 6 {
        "public "@
    } else {
        ""@
    }
}

/// The modifiers of a method: accessibility, `static`, then `abstract`/`override`,
/// `sealed override`, `virtual` or `override`, then `extern`.
pub open spec fn spec_method_prefix(flags: u16) -> Seq<char> {
    let is_static = if flags & 0x10u16 != 0 {
        "static "@
    } else {
        ""@
    };
    let overriding = if flags & 0x0400u16 != 0 {
        if flags & 0x0100u16 == 0 {
            "abstract override "@
        } else {
            "abstract "@
        }
    } else if flags & 0x20u16 != 0 && (flags & 0x40u16 != 0 || flags & 0x0100u16 == 0) {
        "sealed override "@
    } else if flags & 0x40u16 != 0 {
        if flags & 0x0100u16 != 0 {
            "virtual "@
        } else {
            "override "@
        }
    } else {
        ""@
    };
    let is_extern = if flags & 0x2000u16 != 0 {
        "extern "@
    } else {
        ""@
    };
    method_access(flags) + is_static + overriding + is_extern
}

/// The modifiers of a method with attribute `flags`.
pub fn method_prefix(flags: u16) -> (r: String)
    ensures
        r@ == spec_method_prefix(flags),
{
    let a = flags & 0x7;
    let access = if a == 1 {
        "private "
    } else if a == 2 || a == 3 {
        "internal "
    } else if a == 4 {
        "protected "
    } else if a == 5 {
        "protected internal "
    } else if a == 6 {
        "public "
    } else {
        ""
    };
    let mut out = String::new();
    out.append(access);
    assert(out@ =~= method_access(flags));
    if flags & 0x10 != 0 {
        out.append("static ");
    } else {
        out.append("");
    }
    if flags & 0x0400 != 0 {
        out.append("abstract ");
        if flags & 0x0100 == 0 {
            out.append("override ");
            proof {
                reveal_strlit("abstract ");
                reveal_strlit("override ");
                reveal_strlit("abstract override ");
            }
            assert(out@ =~= method_access(flags) + (if flags & 0x10u16 != 0 {
                "static "@
            } else {
                ""@
            }) + "abstract override "@);
        }
    } else if flags & 0x20 != 0 && (flags & 0x40 != 0 || flags & 0x0100 == 0) {
        out.append("sealed override ");
    } else if flags & 0x40 != 0 {
        if flags & 0x0100 != 0 {
            out.append("virtual ");
        } else {
            out.append("override ");
        }
    } else {
        out.append("");
    }
    if flags & 0x2000 != 0 {
        out.append("extern ");
    } else {
        out.append("");
    }
    out
}

/// The accessibility keyword (with its trailing space) of a field, from its flags.
pub open spec fn field_access(flags: u16) -> Seq<char> {
    let a = flags & 0x7u16;
    if a == 1 {
        "private "@
    } else if a == 2 {
        "private protected "@
    } else if a == 3 {
        "internal "@
    } else if a == 4 {
        "protected "@
    } else if a == 5 {
        "protected internal "@
    } else if a == 6 {
        "public "@
    } else {
        ""@
    }
}

/// The modifiers of a field: accessibility, then `const` for a literal, else `static`
/// and `readonly` as the flags give them.
pub open spec fn spec_field_prefix(flags: u16) -> Seq<char> {
    if flags & 0x40u16 != 0 {
        field_access(flags) + "const "@
    } else {
        field_access(flags) + (if flags & 0x10u16 != 0 {
            "static "@
        } else {
            ""@
        }) + (if flags & 0x20u16 != 0 {
            "readonly "@
        } else {
            ""@
        })
    }
}

/// The modifiers of a field with attribute `flags`.
pub fn field_prefix(flags: u16) -> (r: String)
    ensures
        r@ == spec_field_prefix(flags),
{
    let a = flags & 0x7;
    let access = if a == 1 {
        "private "
    } else if a == 2 {
        "private protected "
    } else if a == 3 {
        "internal "
    } else if a == 4 {
        "protected "
    } else if a == 5 {
        "protected internal "
    } else if a == 6 {
        "public "
    } else {
        ""
    };
    let mut out = String::new();
    out.append(access);
    assert(out@ =~= field_access(flags));
    if flags & 0x40 != 0 {
        out.append("const ");
        return out;
    }
    if flags & 0x10 != 0 {
        out.append("static ");
    } else {
        out.append("");
    }
    if flags & 0x20 != 0 {
        out.append("readonly ");
    } else {
        out.append("");
    }
    out
}

/// The `dump.cs` line of a field, with its constant value when it has one.
pub open spec fn spec_write_field(field: LayoutFieldView, enum_value: Option<i32>) -> Seq<char> {
    let head = "\t"@ + spec_field_prefix(field.flags) + field.field_type + " "@ + field.name;
    let value = match enum_value {
        Some(v) => " = "@ + signed_decimal(v as int),
        None => ""@,
    };
    head + value + "; // 0x"@ + hexadecimal(field.offset as nat, false) + "\n"@
}

/// Renders a field as a `dump.cs` line.
pub fn write_field(field: &LayoutField, enum_value: Option<i32>) -> (r: String)
    ensures
        r@ == spec_write_field(field@, enum_value),
{
    let mut out = String::new();
    out.append("\t");
    let prefix = field_prefix(field.flags);
    out.append(prefix.as_str());
    out.append(field.field_type.as_str());
    out.append(" ");
    out.append(field.name.as_str());
    match enum_value {
        Some(v) => {
            out.append(" = ");
            push_signed_decimal(&mut out, v as i64);
        },
        None => {
            out.append("");
        },
    }
    out.append("; // 0x");
    push_hex(&mut out, field.offset as u64, false);
    out.append("\n");
    out
}

/// The `dump.cs` lines of a method: a comment with its RVA and VA, then its signature.
pub open spec fn spec_write_method(method: LayoutMethodView) -> Seq<char> {
    let address = if method.va == 0 {
        "\t// RVA: 0x0 VA: 0x0\n\t"@
    } else {
        "\t// RVA: 0x"@ + hexadecimal(method.rva as nat, false) + " VA: 0x"@ + hexadecimal(method.va as nat, false)
            + "\n\t"@
    };
    "\n"@ + address + spec_method_prefix(method.flags) + method.return_type + " "@ + method.name + "("@ + join_with(
        method.dump_params,
        ", "@,
    ) + ") { }\n"@
}

/// Renders a method as `dump.cs` lines.
pub fn write_method(method: &LayoutMethod) -> (r: String)
    ensures
        r@ == spec_write_method(method@),
{
    let mut out = String::new();
    out.append("\n");
    if method.va == 0 {
        out.append("\t// RVA: 0x0 VA: 0x0\n\t");
    } else {
        out.append("\t// RVA: 0x");
        push_hex(&mut out, method.rva, false);
        out.append(" VA: 0x");
        push_hex(&mut out, method.va, false);
        out.append("\n\t");
    }
    let prefix = method_prefix(method.flags);
    out.append(prefix.as_str());
    out.append(method.return_type.as_str());
    out.append(" ");
    out.append(method.name.as_str());
    out.append("(");
    let params = join(&method.dump_params, ", ");
    out.append(params.as_str());
    out.append(") { }\n");
    out
}


/// The value of the last constant named `name` in `values`, if any.
pub open spec fn enum_value_named(values: Seq<LayoutEnumValueView>, name: Seq<char>) -> Option<i32>
    decreases values.len(),
{
    if values.len() == 0 {
        None
    } else if values.last().name == name {
        Some(values.last().value)
    } else {
        enum_value_named(values.drop_last(), name)
    }
}

/// Looks up the value of the last constant named `name`.
pub fn find_enum_value(values: &Vec<LayoutEnumValue>, name: &str) -> (r: Option<i32>)
    ensures
        r == enum_value_named(values@.map_values(|v: LayoutEnumValue| v@), name@),
{
    let ghost views = values@.map_values(|v: LayoutEnumValue| v@);
    assert(views.take(values@.len() as int) =~= views);
    let mut i: usize = values.len();
    while i > 0
        invariant
            i <= values@.len(),
            views == values@.map_values(|v: LayoutEnumValue| v@),
            enum_value_named(views, name@) == enum_value_named(views.take(i as int), name@),
        decreases i,
    {
        let ghost prefix = views.take(i as int);
        assert(prefix.last() == values@[i - 1]@);
        assert(prefix.drop_last() =~= views.take(i - 1));
        if str_eq(values[i - 1].name.as_str(), name) {
            return Some(values[i - 1].value);
        }
        i -= 1;
    }
    assert(views.take(0) =~= Seq::<LayoutEnumValueView>::empty());
    None
}

/// The constants that annotate the fields of a type: those of an enum that decodes
/// without error, else none.
pub open spec fn type_enum_values(m: LayoutMetadataView, type_index: usize, type_def: LayoutTypeDefView) -> Seq<
    LayoutEnumValueView,
> {
    if type_def.is_enum {
        match spec_read_enum_values(m, type_index, type_def) {
            Ok(values) => values,
            Err(_) => Seq::empty(),
        }
    } else {
        Seq::empty()
    }
}

/// The `dump.cs` lines of `fields`, each with the constant of the same name in `values`.
pub open spec fn fields_text(fields: Seq<LayoutFieldView>, values: Seq<LayoutEnumValueView>) -> Seq<char>
    decreases fields.len(),
{
    if fields.len() == 0 {
        Seq::empty()
    } else {
        fields_text(fields.drop_last(), values) + spec_write_field(
            fields.last(),
            enum_value_named(values, fields.last().name),
        )
    }
}

/// The `dump.cs` lines of the `count` methods from `start` (with `start + count` within
/// the `usize` range).
pub open spec fn spec_methods_text(m: LayoutMetadataView, start: usize, count: nat) -> Result<Seq<char>, LayoutError>
    decreases count,
{
    if count == 0 {
        Ok(Seq::empty())
    } else {
        match spec_methods_text(m, start, (count - 1) as nat) {
            Err(e) => Err(e),
            Ok(previous) => match spec_read_method(m, (start + count - 1) as usize) {
                Err(e) => Err(e),
                Ok(method) => Ok(previous + spec_write_method(method)),
            },
        }
    }
}

/// The base type name, if any, followed by the interface names.
pub open spec fn type_suffixes(parent: Option<Seq<char>>, interfaces: Seq<Seq<char>>) -> Seq<Seq<char>> {
    match parent {
        Some(p) => seq![p] + interfaces,
        None => interfaces,
    }
}

/// The comment lines that open a type's `dump.cs` block.
pub open spec fn type_header(type_def: LayoutTypeDefView, type_index: int) -> Seq<char> {
    "\n// Namespace: "@ + type_def.namespace + "\n"@ + "// TypeDefIndex: "@ + decimal(type_index as nat) + "\n"@ + (
    if type_def.flags & 0x2000u32 != 0 {
        "[Serializable]\n"@
    } else {
        ""@
    })
}

/// A type's declaration line, its opening brace and the fields heading.
pub open spec fn type_declaration(type_def: LayoutTypeDefView, suffixes: Seq<Seq<char>>) -> Seq<char> {
    spec_type_prefix(type_def) + " "@ + type_def.name + (if suffixes.len() > 0 {
        " : "@ + join_with(suffixes, ", "@)
    } else {
        ""@
    }) + "\n{"@ + "\n\t// Fields\n"@
}

/// The `dump.cs` block of type `type_index`: header, declaration with base type and
/// interfaces, fields (with enum constants), methods.
pub open spec fn spec_write_type(m: LayoutMetadataView, type_def: LayoutTypeDefView, type_index: usize) -> Result<
    Seq<char>,
    LayoutError,
> {
    match spec_read_parent_name(m, type_def) {
        Err(e) => Err(e),
        Ok(parent) => match spec_read_interface_names(m, type_def) {
            Err(e) => Err(e),
            Ok(interfaces) => match spec_read_fields(m, type_index, type_def) {
                Err(e) => Err(e),
                Ok(fields) => {
                    let body = type_header(type_def, type_index as int) + type_declaration(
                        type_def,
                        type_suffixes(parent, interfaces),
                    ) + fields_text(fields, type_enum_values(m, type_index, type_def)) + "\n\t// Methods\n"@;
                    match type_def.method_start {
                        None => Ok(body + "}\n"@),
                        Some(start) => if start + type_def.method_count > usize::MAX {
                            Err(LayoutError::ArithmeticOverflow)
                        } else {
                            match spec_methods_text(m, start, type_def.method_count as nat) {
                                Err(e) => Err(e),
                                Ok(methods) => Ok(body + methods + "}\n"@),
                            }
                        },
                    }
                },
            },
        },
    }
}

proof fn lemma_methods_text_error(m: LayoutMetadataView, start: usize, failing: nat, count: nat, e: LayoutError)
    requires
        failing <= count,
        spec_methods_text(m, start, failing) == Err::<Seq<char>, LayoutError>(e),
    ensures
        spec_methods_text(m, start, count) == Err::<Seq<char>, LayoutError>(e),
    decreases count - failing,
{
    if failing < count {
        lemma_methods_text_error(m, start, failing + 1, count, e);
    }
}

/// Appends the `dump.cs` lines of the `count` methods from `start` to `out`.
fn append_methods(metadata: &mut LayoutMetadata, out: &mut String, start: usize, count: usize) -> (r: Result<
    (),
    LayoutError,
>)
    requires
        old(metadata).wf(),
        start + count <= usize::MAX,
    ensures
        final(metadata).wf(),
        final(metadata)@ == old(metadata)@,
        match r {
            Ok(_) => exists|text: Seq<char>|
                spec_methods_text(old(metadata)@, start, count as nat) == Ok::<Seq<char>, LayoutError>(text)
                    && final(out)@ == old(out)@ + text,
            Err(e) => spec_methods_text(old(metadata)@, start, count as nat) == Err::<Seq<char>, LayoutError>(e),
        },
{
    let ghost m = metadata@;
    let ghost initial = out@;
    let ghost mut text: Seq<char> = Seq::empty();
    assert(initial + text =~= initial);
    let mut local: usize = 0;
    while local < count
        invariant
            local <= count,
            metadata.wf(),
            metadata@ == m,
            m == old(metadata)@,
            start + count <= usize::MAX,
            spec_methods_text(m, start, local as nat) == Ok::<Seq<char>, LayoutError>(text),
            out@ == initial + text,
        decreases count - local,
    {
        let method_index = start + local;
        assert(((start + (local + 1) as nat - 1) as usize) == method_index);
        let method = match metadata.read_method(method_index) {
            Ok(v) => v,
            Err(e) => {
                proof {
                    lemma_methods_text_error(m, start, (local + 1) as nat, count as nat, e);
                }
                return Err(e);
            },
        };
        let rendered = write_method(&method);
        out.append(rendered.as_str());
        proof {
            text = text + rendered@;
            assert(out@ =~= initial + text);
        }
        local += 1;
    }
    Ok(())
}

/// Renders the comment lines that open the block of type `type_index`.
fn write_type_header(type_def: &LayoutTypeDef, type_index: usize) -> (r: String)
    ensures
        r@ == type_header(type_def@, type_index as int),
{
    let mut out = String::new();
    out.append("\n// Namespace: ");
    out.append(type_def.namespace.as_str());
    out.append("\n");
    out.append("// TypeDefIndex: ");
    push_decimal(&mut out, type_index as u64);
    out.append("\n");
    if type_def.flags & 0x2000 != 0 {
        out.append("[Serializable]\n");
    } else {
        out.append("");
    }
    assert(out@ =~= type_header(type_def@, type_index as int));
    out
}

/// The names that follow a type's declaration: its base type, then its interfaces.
fn type_suffix_names(metadata: &mut LayoutMetadata, type_def: &LayoutTypeDef) -> (r: Result<Vec<String>, LayoutError>)
    requires
        old(metadata).wf(),
    ensures
        final(metadata).wf(),
        final(metadata)@ == old(metadata)@,
        match r {
            Ok(names) => exists|parent: Option<Seq<char>>, interfaces: Seq<Seq<char>>|
                spec_read_parent_name(old(metadata)@, type_def@) == Ok::<Option<Seq<char>>, LayoutError>(parent)
                    && spec_read_interface_names(old(metadata)@, type_def@) == Ok::<Seq<Seq<char>>, LayoutError>(
                    interfaces,
                ) && names.deep_view() == type_suffixes(parent, interfaces),
            Err(e) => spec_read_parent_name(old(metadata)@, type_def@) == Err::<Option<Seq<char>>, LayoutError>(e)
                || (spec_read_parent_name(old(metadata)@, type_def@) is Ok && spec_read_interface_names(
                old(metadata)@,
                type_def@,
            ) == Err::<Seq<Seq<char>>, LayoutError>(e)),
        },
{
    let parent = metadata.read_parent_name(type_def)?;
    let interfaces = metadata.read_interface_names(type_def)?;
    let ghost parent_view: Option<Seq<char>> = match parent {
        Some(ref name) => Some(name@),
        None => None,
    };
    let mut suffixes: Vec<String> = Vec::new();
    match parent {
        Some(name) => {
            suffixes.push(name);
        },
        None => {},
    }
    let ghost parent_views = suffixes.deep_view();
    assert(parent_views =~= type_suffixes(parent_view, Seq::empty()));
    let mut i: usize = 0;
    while i < interfaces.len()
        invariant
            i <= interfaces@.len(),
            suffixes.deep_view() == parent_views + interfaces.deep_view().take(i as int),
        decreases interfaces@.len() - i,
    {
        let ghost before = suffixes.deep_view();
        suffixes.push(interfaces[i].clone());
        assert(interfaces.deep_view().take(i + 1) =~= interfaces.deep_view().take(i as int).push(
            interfaces@[i as int]@,
        ));
        assert(suffixes.deep_view() =~= before.push(interfaces@[i as int]@));
        i += 1;
    }
    assert(interfaces.deep_view().take(interfaces@.len() as int) =~= interfaces.deep_view());
    assert(suffixes.deep_view() =~= type_suffixes(parent_view, interfaces.deep_view()));
    Ok(suffixes)
}

/// Renders a type's declaration line, opening brace and fields heading.
fn write_type_declaration(type_def: &LayoutTypeDef, suffixes: &Vec<String>) -> (r: String)
    ensures
        r@ == type_declaration(type_def@, suffixes.deep_view()),
{
    let prefix = type_prefix(type_def);
    let mut declaration = String::new();
    declaration.append(prefix.as_str());
    declaration.append(" ");
    declaration.append(type_def.name.as_str());
    if suffixes.len() > 0 {
        declaration.append(" : ");
        let joined = join(suffixes, ", ");
        declaration.append(joined.as_str());
    } else {
        declaration.append("");
    }
    declaration.append("\n{");
    declaration.append("\n\t// Fields\n");
    assert(declaration@ =~= type_declaration(type_def@, suffixes.deep_view()));
    declaration
}

/// Renders the `dump.cs` lines of `fields`, annotating constants with their `values`.
fn write_fields(fields: &Vec<LayoutField>, values: &Vec<LayoutEnumValue>) -> (r: String)
    ensures
        r@ == fields_text(fields_view(fields@), values@.map_values(|v: LayoutEnumValue| v@)),
{
    let ghost field_views = fields_view(fields@);
    let ghost value_views = values@.map_values(|v: LayoutEnumValue| v@);
    let mut out = String::new();
    let mut k: usize = 0;
    assert(field_views.take(0) =~= Seq::<LayoutFieldView>::empty());
    while k < fields.len()
        invariant
            k <= fields@.len(),
            field_views == fields_view(fields@),
            value_views == values@.map_values(|v: LayoutEnumValue| v@),
            out@ == fields_text(field_views.take(k as int), value_views),
        decreases fields@.len() - k,
    {
        let field = &fields[k];
        let found = find_enum_value(values, field.name.as_str());
        let line = write_field(field, found);
        out.append(line.as_str());
        let ghost taken = field_views.take(k + 1);
        assert(taken.drop_last() =~= field_views.take(k as int));
        assert(taken.last() == field@);
        assert(out@ =~= fields_text(taken, value_views));
        k += 1;
    }
    assert(field_views.take(fields@.len() as int) =~= field_views);
    out
}

/// The enum constants that annotate the fields of a type (none when it is not an enum
/// or its constants do not decode).
fn annotation_values(metadata: &mut LayoutMetadata, type_def: &LayoutTypeDef, type_index: usize) -> (r: Vec<
    LayoutEnumValue,
>)
    requires
        old(metadata).wf(),
    ensures
        final(metadata).wf(),
        final(metadata)@ == old(metadata)@,
        r@.map_values(|v: LayoutEnumValue| v@) == type_enum_values(old(metadata)@, type_index, type_def@),
{
    let values: Vec<LayoutEnumValue> = if type_def.is_enum {
        match metadata.read_enum_values(type_index, type_def) {
            Ok(values) => values,
            Err(_) => Vec::new(),
        }
    } else {
        Vec::new()
    };
    assert(values@.map_values(|v: LayoutEnumValue| v@) =~= type_enum_values(old(metadata)@, type_index, type_def@));
    values
}

/// Renders the `dump.cs` block of type `type_index`, described by `type_def`.
pub fn write_type(metadata: &mut LayoutMetadata, type_def: &LayoutTypeDef, type_index: usize) -> (r: Result<
    String,
    LayoutError,
>)
    requires
        old(metadata).wf(),
    ensures
        final(metadata).wf(),
        final(metadata)@ == old(metadata)@,
        string_result_view(r) == spec_write_type(old(metadata)@, type_def@, type_index),
{
    let ghost m = metadata@;
    let mut out = write_type_header(type_def, type_index);
    let suffixes = type_suffix_names(metadata, type_def)?;
    let declaration = write_type_declaration(type_def, &suffixes);
    out.append(declaration.as_str());
    let values = annotation_values(metadata, type_def, type_index);
    let fields = metadata.read_fields(type_index, type_def)?;
    let fields_part = write_fields(&fields, &values);
    out.append(fields_part.as_str());
    out.append("\n\t// Methods\n");
    let ghost body = out@;
    match type_def.method_start {
        None => {},
        Some(start) => {
            if start > usize::MAX - type_def.method_count {
                return Err(LayoutError::ArithmeticOverflow);
            }
            append_methods(metadata, &mut out, start, type_def.method_count)?;
        },
    }
    out.append("}\n");
    Ok(out)
}


/// The watermark line that opens `dump.cs`.
pub open spec fn dump_cs_banner() -> Seq<char> {
    "// FirelfyShelter static asm parse\n\n"@
}

/// One `// Image <index>: <name>` line for each of the first `count` images.
pub open spec fn image_lines(images: Seq<LayoutImageView>, count: nat) -> Seq<char>
    decreases count,
{
    if count == 0 {
        Seq::empty()
    } else {
        image_lines(images, (count - 1) as nat) + "// Image "@ + decimal((count - 1) as nat) + ": "@ + images[count
            - 1].name + "\n"@
    }
}

/// The block of type `type_index`.
#[verifier::opaque]
pub open spec fn spec_type_block(m: LayoutMetadataView, type_index: int) -> Result<Seq<char>, LayoutError> {
    match spec_type_def(m, type_index) {
        Err(e) => Err(e),
        Ok(type_def) => spec_write_type(m, type_def, type_index as usize),
    }
}

/// Renders the block of type `type_index`.
fn type_block(metadata: &mut LayoutMetadata, type_index: usize) -> (r: Result<String, LayoutError>)
    requires
        old(metadata).wf(),
    ensures
        final(metadata).wf(),
        final(metadata)@ == old(metadata)@,
        string_result_view(r) == spec_type_block(old(metadata)@, type_index as int),
{
    proof {
        reveal(spec_type_block);
    }
    let type_def = metadata.type_def(type_index)?.duplicate();
    write_type(metadata, &type_def, type_index)
}

/// The blocks of the `count` types from `start`.
pub open spec fn spec_types_text(m: LayoutMetadataView, start: usize, count: nat) -> Result<Seq<char>, LayoutError>
    decreases count,
{
    if count == 0 {
        Ok(Seq::empty())
    } else {
        match spec_types_text(m, start, (count - 1) as nat) {
            Err(e) => Err(e),
            Ok(previous) => match spec_type_block(m, start + count - 1) {
                Err(e) => Err(e),
                Ok(text) => Ok(previous + text),
            },
        }
    }
}

/// The type blocks of `image`, provided the end of its type range is a `usize`.
pub open spec fn spec_image_text(m: LayoutMetadataView, image: LayoutImageView) -> Result<Seq<char>, LayoutError> {
    if image.type_start + image.type_count > usize::MAX {
        Err(LayoutError::ArithmeticOverflow)
    } else {
        spec_types_text(m, image.type_start, image.type_count as nat)
    }
}

/// The type blocks of the first `count` images, image by image.
pub open spec fn spec_images_text(m: LayoutMetadataView, count: nat) -> Result<Seq<char>, LayoutError>
    decreases count,
{
    if count == 0 {
        Ok(Seq::empty())
    } else {
        match spec_images_text(m, (count - 1) as nat) {
            Err(e) => Err(e),
            Ok(previous) => match spec_image_text(m, m.images[count - 1]) {
                Err(e) => Err(e),
                Ok(text) => Ok(previous + text),
            },
        }
    }
}

/// The whole `dump.cs`: the banner, one line per image, then every image's type blocks.
pub open spec fn spec_build_dump_cs(m: LayoutMetadataView) -> Result<Seq<char>, LayoutError> {
    match spec_images_text(m, m.images.len()) {
        Err(e) => Err(e),
        Ok(types) => Ok(dump_cs_banner() + image_lines(m.images, m.images.len()) + types),
    }
}

proof fn lemma_types_text_error(m: LayoutMetadataView, start: usize, failing: nat, count: nat, e: LayoutError)
    requires
        failing <= count,
        spec_types_text(m, start, failing) == Err::<Seq<char>, LayoutError>(e),
    ensures
        spec_types_text(m, start, count) == Err::<Seq<char>, LayoutError>(e),
    decreases count - failing,
{
    if failing < count {
        lemma_types_text_error(m, start, failing + 1, count, e);
    }
}

proof fn lemma_images_text_error(m: LayoutMetadataView, failing: nat, count: nat, e: LayoutError)
    requires
        failing <= count,
        spec_images_text(m, failing) == Err::<Seq<char>, LayoutError>(e),
    ensures
        spec_images_text(m, count) == Err::<Seq<char>, LayoutError>(e),
    decreases count - failing,
{
    if failing < count {
        lemma_images_text_error(m, failing + 1, count, e);
    }
}

/// Appends the blocks of the `count` types from `start` to `out`.
fn append_types(metadata: &mut LayoutMetadata, out: &mut String, start: usize, count: usize) -> (r: Result<
    (),
    LayoutError,
>)
    requires
        old(metadata).wf(),
        start + count <= usize::MAX,
    ensures
        final(metadata).wf(),
        final(metadata)@ == old(metadata)@,
        match r {
            Ok(_) => exists|text: Seq<char>|
                spec_types_text(old(metadata)@, start, count as nat) == Ok::<Seq<char>, LayoutError>(text)
                    && final(out)@ == old(out)@ + text,
            Err(e) => spec_types_text(old(metadata)@, start, count as nat) == Err::<Seq<char>, LayoutError>(e),
        },
{
    let ghost m = metadata@;
    let ghost initial = out@;
    let ghost mut text: Seq<char> = Seq::empty();
    assert(initial + text =~= initial);
    let mut local: usize = 0;
    while local < count
        invariant
            local <= count,
            start + count <= usize::MAX,
            metadata.wf(),
            metadata@ == m,
            m == old(metadata)@,
            spec_types_text(m, start, local as nat) == Ok::<Seq<char>, LayoutError>(text),
            out@ == initial + text,
        decreases count - local,
    {
        let type_index = start + local;
        assert(((start + (local + 1) as nat - 1) as usize) == type_index);
        let block = match type_block(metadata, type_index) {
            Ok(v) => v,
            Err(e) => {
                proof {
                    lemma_types_text_error(m, start, (local + 1) as nat, count as nat, e);
                }
                return Err(e);
            },
        };
        out.append(block.as_str());
        proof {
            text = text + block@;
            assert(out@ =~= initial + text);
        }
        local += 1;
    }
    Ok(())
}

/// Appends the type blocks of image `image_index` to `out`.
fn append_image_types(metadata: &mut LayoutMetadata, out: &mut String, image_index: usize) -> (r: Result<
    (),
    LayoutError,
>)
    requires
        old(metadata).wf(),
        image_index < old(metadata)@.images.len(),
    ensures
        final(metadata).wf(),
        final(metadata)@ == old(metadata)@,
        match r {
            Ok(_) => exists|text: Seq<char>|
                spec_image_text(old(metadata)@, old(metadata)@.images[image_index as int]) == Ok::<
                    Seq<char>,
                    LayoutError,
                >(text) && final(out)@ == old(out)@ + text,
            Err(e) => spec_image_text(old(metadata)@, old(metadata)@.images[image_index as int]) == Err::<
                Seq<char>,
                LayoutError,
            >(e),
        },
{
    let ghost m = metadata@;
    let images = metadata.images();
    assert(images[image_index as int]@ == m.images[image_index as int]);
    let type_start = images[image_index].type_start;
    let type_count = images[image_index].type_count;
    if type_start > usize::MAX - type_count {
        return Err(LayoutError::ArithmeticOverflow);
    }
    append_types(metadata, out, type_start, type_count)
}

/// Renders the whole `dump.cs` text of the metadata.
pub fn build_dump_cs(metadata: &mut LayoutMetadata) -> (r: Result<String, LayoutError>)
    requires
        old(metadata).wf(),
    ensures
        final(metadata).wf(),
        final(metadata)@ == old(metadata)@,
        string_result_view(r) == spec_build_dump_cs(old(metadata)@),
{
    let ghost m = metadata@;
    let mut out = String::new();
    out.append("// FirelfyShelter static asm parse\n\n");
    let image_count = metadata.images().len();
    let mut index: usize = 0;
    assert(out@ =~= dump_cs_banner() + image_lines(m.images, 0));
    while index < image_count
        invariant
            index <= image_count,
            image_count == m.images.len(),
            metadata@ == m,
            out@ == dump_cs_banner() + image_lines(m.images, index as nat),
        decreases image_count - index,
    {
        let image = &metadata.images()[index];
        assert(image@ == m.images[index as int]);
        out.append("// Image ");
        push_decimal(&mut out, index as u64);
        out.append(": ");
        out.append(image.name.as_str());
        out.append("\n");
        assert(out@ =~= dump_cs_banner() + image_lines(m.images, (index + 1) as nat));
        index += 1;
    }
    let ghost head = out@;
    let ghost mut text: Seq<char> = Seq::empty();
    assert(head + text =~= head);
    let mut image_index: usize = 0;
    while image_index < image_count
        invariant
            image_index <= image_count,
            image_count == m.images.len(),
            metadata.wf(),
            metadata@ == m,
            m == old(metadata)@,
            head == dump_cs_banner() + image_lines(m.images, m.images.len()),
            spec_images_text(m, image_index as nat) == Ok::<Seq<char>, LayoutError>(text),
            out@ == head + text,
        decreases image_count - image_index,
    {
        let ghost before = out@;
        match append_image_types(metadata, &mut out, image_index) {
            Ok(()) => {},
            Err(e) => {
                proof {
                    lemma_images_text_error(m, (image_index + 1) as nat, image_count as nat, e);
                }
                return Err(e);
            },
        }
        proof {
            let added = choose|added: Seq<char>|
                spec_image_text(m, m.images[image_index as int]) == Ok::<Seq<char>, LayoutError>(added) && out@
                    == before + added;
            text = text + added;
            assert(out@ =~= head + text);
        }
        image_index += 1;
    }
    Ok(out)
}


/// The `methods.json` key of a method of the type displayed as `display_name`.
pub open spec fn method_json_key(display_name: Seq<char>, method: LayoutMethodView) -> Seq<char> {
    display_name + "::"@ + method.name + "("@ + join_with(method.method_json_params, ","@) + ")"@
}

/// The `methods.json` value of a method: its RVA in lower-case hexadecimal.
pub open spec fn method_json_value(method: LayoutMethodView) -> Seq<char> {
    "0x"@ + hexadecimal(method.rva as nat, false)
}

/// The key/value entries of the `count` methods from `start` of the type displayed as
/// `display_name`, in order.
pub open spec fn spec_type_method_entries(m: LayoutMetadataView, display_name: Seq<char>, start: usize, count: nat) -> Result<
    Seq<(Seq<char>, Seq<char>)>,
    LayoutError,
>
    decreases count,
{
    if count == 0 {
        Ok(Seq::empty())
    } else {
        match spec_type_method_entries(m, display_name, start, (count - 1) as nat) {
            Err(e) => Err(e),
            Ok(previous) => match spec_read_method(m, (start + count - 1) as usize) {
                Err(e) => Err(e),
                Ok(method) => Ok(previous.push((method_json_key(display_name, method), method_json_value(method)))),
            },
        }
    }
}

/// The entries of type `type_index`'s methods; none when it has no method range.
pub open spec fn spec_type_entries(m: LayoutMetadataView, type_index: int) -> Result<Seq<(Seq<char>, Seq<char>)>, LayoutError> {
    match spec_type_def(m, type_index) {
        Err(e) => Err(e),
        Ok(type_def) => match type_def.method_start {
            None => Ok(Seq::empty()),
            Some(start) => match spec_type_def_display_name(m, type_index, true) {
                Err(e) => Err(e),
                Ok(display_name) => if start + type_def.method_count > usize::MAX {
                    Err(LayoutError::ArithmeticOverflow)
                } else {
                    spec_type_method_entries(m, display_name, start, type_def.method_count as nat)
                },
            },
        },
    }
}

/// The entries of the `count` types from `start`, in order.
pub open spec fn spec_types_entries(m: LayoutMetadataView, start: usize, count: nat) -> Result<
    Seq<(Seq<char>, Seq<char>)>,
    LayoutError,
>
    decreases count,
{
    if count == 0 {
        Ok(Seq::empty())
    } else {
        match spec_types_entries(m, start, (count - 1) as nat) {
            Err(e) => Err(e),
            Ok(previous) => match spec_type_entries(m, start + count - 1) {
                Err(e) => Err(e),
                Ok(entries) => Ok(previous + entries),
            },
        }
    }
}

/// The entries of the types of `image`, provided the end of its type range is a `usize`.
pub open spec fn spec_image_entries(m: LayoutMetadataView, image: LayoutImageView) -> Result<
    Seq<(Seq<char>, Seq<char>)>,
    LayoutError,
> {
    if image.type_start + image.type_count > usize::MAX {
        Err(LayoutError::ArithmeticOverflow)
    } else {
        spec_types_entries(m, image.type_start, image.type_count as nat)
    }
}

/// The entries of the first `count` images, image by image.
pub open spec fn spec_images_entries(m: LayoutMetadataView, count: nat) -> Result<Seq<(Seq<char>, Seq<char>)>, LayoutError>
    decreases count,
{
    if count == 0 {
        Ok(Seq::empty())
    } else {
        match spec_images_entries(m, (count - 1) as nat) {
            Err(e) => Err(e),
            Ok(previous) => match spec_image_entries(m, m.images[count - 1]) {
                Err(e) => Err(e),
                Ok(entries) => Ok(previous + entries),
            },
        }
    }
}

/// The method map of `methods.json`: every method of every image's types, keyed by
/// signature; a later method with the same key replaces an earlier one.
pub open spec fn spec_methods_map(m: LayoutMetadataView) -> Result<Map<Seq<char>, Seq<char>>, LayoutError> {
    match spec_images_entries(m, m.images.len()) {
        Err(e) => Err(e),
        Ok(entries) => Ok(entries_map(entries)),
    }
}

proof fn lemma_entries_map_concat(a: Seq<(Seq<char>, Seq<char>)>, b: Seq<(Seq<char>, Seq<char>)>, k: nat)
    requires
        k <= b.len(),
    ensures
        entries_map(a + b.take(k as int)) == fold_entries(entries_map(a), b.take(k as int)),
    decreases k,
{
    if k > 0 {
        lemma_entries_map_concat(a, b, (k - 1) as nat);
        assert((a + b.take(k as int)).drop_last() =~= a + b.take(k - 1));
        assert(b.take(k as int).drop_last() =~= b.take(k - 1));
    } else {
        assert(a + b.take(0) =~= a);
    }
}

/// `base` after inserting the entries of `entries` in order.
pub open spec fn fold_entries(base: Map<Seq<char>, Seq<char>>, entries: Seq<(Seq<char>, Seq<char>)>) -> Map<
    Seq<char>,
    Seq<char>,
>
    decreases entries.len(),
{
    if entries.len() == 0 {
        base
    } else {
        fold_entries(base, entries.drop_last()).insert(entries.last().0, entries.last().1)
    }
}

/// The map of `a + b` is the map of `a` with the entries of `b` inserted in order.
proof fn lemma_entries_map_append(a: Seq<(Seq<char>, Seq<char>)>, b: Seq<(Seq<char>, Seq<char>)>)
    ensures
        entries_map(a + b) == fold_entries(entries_map(a), b),
{
    lemma_entries_map_concat(a, b, b.len());
    assert(b.take(b.len() as int) =~= b);
}

proof fn lemma_type_method_entries_error(
    m: LayoutMetadataView,
    display_name: Seq<char>,
    start: usize,
    failing: nat,
    count: nat,
    e: LayoutError,
)
    requires
        failing <= count,
        spec_type_method_entries(m, display_name, start, failing) == Err::<Seq<(Seq<char>, Seq<char>)>, LayoutError>(e),
    ensures
        spec_type_method_entries(m, display_name, start, count) == Err::<Seq<(Seq<char>, Seq<char>)>, LayoutError>(e),
    decreases count - failing,
{
    if failing < count {
        lemma_type_method_entries_error(m, display_name, start, failing + 1, count, e);
    }
}

proof fn lemma_types_entries_error(m: LayoutMetadataView, start: usize, failing: nat, count: nat, e: LayoutError)
    requires
        failing <= count,
        spec_types_entries(m, start, failing) == Err::<Seq<(Seq<char>, Seq<char>)>, LayoutError>(e),
    ensures
        spec_types_entries(m, start, count) == Err::<Seq<(Seq<char>, Seq<char>)>, LayoutError>(e),
    decreases count - failing,
{
    if failing < count {
        lemma_types_entries_error(m, start, failing + 1, count, e);
    }
}

proof fn lemma_images_entries_error(m: LayoutMetadataView, failing: nat, count: nat, e: LayoutError)
    requires
        failing <= count,
        spec_images_entries(m, failing) == Err::<Seq<(Seq<char>, Seq<char>)>, LayoutError>(e),
    ensures
        spec_images_entries(m, count) == Err::<Seq<(Seq<char>, Seq<char>)>, LayoutError>(e),
    decreases count - failing,
{
    if failing < count {
        lemma_images_entries_error(m, failing + 1, count, e);
    }
}

/// Whether a step that inserts entries into `map` agrees with the `expected` entries:
/// on success the map gained them in order, on failure the same error was expected.
pub open spec fn insertion_agrees(
    r: Result<(), LayoutError>,
    expected: Result<Seq<(Seq<char>, Seq<char>)>, LayoutError>,
    before: Map<Seq<char>, Seq<char>>,
    after: Map<Seq<char>, Seq<char>>,
) -> bool {
    match r {
        Ok(_) => exists|entries: Seq<(Seq<char>, Seq<char>)>|
            expected == Ok::<Seq<(Seq<char>, Seq<char>)>, LayoutError>(entries) && after == fold_entries(before, entries),
        Err(e) => expected == Err::<Seq<(Seq<char>, Seq<char>)>, LayoutError>(e),
    }
}

/// The `methods.json` key of `method`, a method of the type displayed as `display_name`.
fn method_key_text(display_name: &str, method: &LayoutMethod) -> (r: String)
    ensures
        r@ == method_json_key(display_name@, method@),
{
    let mut key = String::new();
    key.append(display_name);
    key.append("::");
    key.append(method.name.as_str());
    key.append("(");
    let params = join(&method.method_json_params, ",");
    key.append(params.as_str());
    key.append(")");
    assert(key@ =~= method_json_key(display_name@, method@));
    key
}

/// The `methods.json` value of `method`.
fn method_value_text(method: &LayoutMethod) -> (r: String)
    ensures
        r@ == method_json_value(method@),
{
    let mut value = String::new();
    value.append("0x");
    push_hex(&mut value, method.rva, false);
    value
}

/// Inserts the entries of the `count` methods from `start` of the type displayed as `display_name`.
fn insert_type_methods(
    metadata: &mut LayoutMetadata,
    map: &mut MethodMap,
    display_name: &str,
    start: usize,
    count: usize,
) -> (r: Result<(), LayoutError>)
    requires
        old(metadata).wf(),
        old(map).wf(),
        start + count <= usize::MAX,
    ensures
        final(metadata).wf(),
        final(metadata)@ == old(metadata)@,
        final(map).wf(),
        insertion_agrees(r, spec_type_method_entries(old(metadata)@, display_name@, start, count as nat), old(map)@, final(map)@),
{
    let ghost m = metadata@;
    let ghost initial = map@;
    let ghost mut done: Seq<(Seq<char>, Seq<char>)> = Seq::empty();
    let mut local: usize = 0;
    while local < count
        invariant
            local <= count,
            start + count <= usize::MAX,
            metadata.wf(),
            metadata@ == m,
            m == old(metadata)@,
            map.wf(),
            initial == old(map)@,
            spec_type_method_entries(m, display_name@, start, local as nat) == Ok::<Seq<(Seq<char>, Seq<char>)>, LayoutError>(done),
            map@ == fold_entries(initial, done),
        decreases count - local,
    {
        let method_index = start + local;
        assert(((start + (local + 1) as nat - 1) as usize) == method_index);
        let method = match metadata.read_method(method_index) {
            Ok(v) => v,
            Err(e) => {
                proof {
                    lemma_type_method_entries_error(m, display_name@, start, (local + 1) as nat, count as nat, e);
                }
                return Err(e);
            },
        };
        let key = method_key_text(display_name, &method);
        let value = method_value_text(&method);
        let ghost entry = (key@, value@);
        map.insert(key, value);
        proof {
            let previous = done;
            done = done.push(entry);
            assert(done.drop_last() =~= previous);
        }
        local += 1;
    }
    Ok(())
}

/// Inserts the entries of type `type_index`'s methods.
fn insert_type_entries(metadata: &mut LayoutMetadata, map: &mut MethodMap, type_index: usize) -> (r: Result<
    (),
    LayoutError,
>)
    requires
        old(metadata).wf(),
        old(map).wf(),
    ensures
        final(metadata).wf(),
        final(metadata)@ == old(metadata)@,
        final(map).wf(),
        insertion_agrees(r, spec_type_entries(old(metadata)@, type_index as int), old(map)@, final(map)@),
{
    let type_def = metadata.type_def(type_index)?.duplicate();
    let start = match type_def.method_start {
        None => {
            assert(fold_entries(map@, Seq::empty()) == map@);
            return Ok(());
        },
        Some(start) => start,
    };
    let display_name = metadata.type_def_display_name(type_index, true)?;
    if start > usize::MAX - type_def.method_count {
        return Err(LayoutError::ArithmeticOverflow);
    }
    insert_type_methods(metadata, map, display_name.as_str(), start, type_def.method_count)
}

/// Inserts the entries of the `count` types from `start`.
fn insert_types_entries(metadata: &mut LayoutMetadata, map: &mut MethodMap, start: usize, count: usize) -> (r: Result<
    (),
    LayoutError,
>)
    requires
        old(metadata).wf(),
        old(map).wf(),
        start + count <= usize::MAX,
    ensures
        final(metadata).wf(),
        final(metadata)@ == old(metadata)@,
        final(map).wf(),
        insertion_agrees(r, spec_types_entries(old(metadata)@, start, count as nat), old(map)@, final(map)@),
{
    let ghost m = metadata@;
    let ghost initial = map@;
    let ghost mut done: Seq<(Seq<char>, Seq<char>)> = Seq::empty();
    let mut local: usize = 0;
    while local < count
        invariant
            local <= count,
            start + count <= usize::MAX,
            metadata.wf(),
            metadata@ == m,
            m == old(metadata)@,
            map.wf(),
            initial == old(map)@,
            spec_types_entries(m, start, local as nat) == Ok::<Seq<(Seq<char>, Seq<char>)>, LayoutError>(done),
            map@ == fold_entries(initial, done),
        decreases count - local,
    {
        let type_index = start + local;
        assert(((start + (local + 1) as nat - 1) as usize) == type_index);
        let ghost before = map@;
        match insert_type_entries(metadata, map, type_index) {
            Ok(()) => {},
            Err(e) => {
                proof {
                    lemma_types_entries_error(m, start, (local + 1) as nat, count as nat, e);
                }
                return Err(e);
            },
        }
        proof {
            let added = choose|added: Seq<(Seq<char>, Seq<char>)>|
                spec_type_entries(m, type_index as int) == Ok::<Seq<(Seq<char>, Seq<char>)>, LayoutError>(added)
                    && map@ == fold_entries(before, added);
            lemma_fold_entries_append(initial, done, added);
            done = done + added;
        }
        local += 1;
    }
    Ok(())
}

/// Inserting `a + b` is inserting `a`, then `b`.
proof fn lemma_fold_entries_append(
    base: Map<Seq<char>, Seq<char>>,
    a: Seq<(Seq<char>, Seq<char>)>,
    b: Seq<(Seq<char>, Seq<char>)>,
)
    ensures
        fold_entries(base, a + b) == fold_entries(fold_entries(base, a), b),
    decreases b.len(),
{
    if b.len() == 0 {
        assert(a + b =~= a);
    } else {
        lemma_fold_entries_append(base, a, b.drop_last());
        assert((a + b).drop_last() =~= a + b.drop_last());
    }
}

/// Inserts the entries of the types of image `image_index`.
fn insert_image_entries(metadata: &mut LayoutMetadata, map: &mut MethodMap, image_index: usize) -> (r: Result<
    (),
    LayoutError,
>)
    requires
        old(metadata).wf(),
        old(map).wf(),
        image_index < old(metadata)@.images.len(),
    ensures
        final(metadata).wf(),
        final(metadata)@ == old(metadata)@,
        final(map).wf(),
        insertion_agrees(
            r,
            spec_image_entries(old(metadata)@, old(metadata)@.images[image_index as int]),
            old(map)@,
            final(map)@,
        ),
{
    let ghost m = metadata@;
    let images = metadata.images();
    assert(images[image_index as int]@ == m.images[image_index as int]);
    let type_start = images[image_index].type_start;
    let type_count = images[image_index].type_count;
    if type_start > usize::MAX - type_count {
        return Err(LayoutError::ArithmeticOverflow);
    }
    insert_types_entries(metadata, map, type_start, type_count)
}

/// Collects the method map of `methods.json`.
pub fn build_method_map(metadata: &mut LayoutMetadata) -> (r: Result<MethodMap, LayoutError>)
    requires
        old(metadata).wf(),
    ensures
        final(metadata).wf(),
        final(metadata)@ == old(metadata)@,
        match r {
            Ok(map) => map.wf() && spec_methods_map(old(metadata)@) == Ok::<Map<Seq<char>, Seq<char>>, LayoutError>(map@),
            Err(e) => spec_methods_map(old(metadata)@) == Err::<Map<Seq<char>, Seq<char>>, LayoutError>(e),
        },
{
    let ghost m = metadata@;
    let mut map = MethodMap::new();
    let ghost mut done: Seq<(Seq<char>, Seq<char>)> = Seq::empty();
    let image_count = metadata.images().len();
    let mut image_index: usize = 0;
    while image_index < image_count
        invariant
            image_index <= image_count,
            image_count == m.images.len(),
            metadata.wf(),
            metadata@ == m,
            m == old(metadata)@,
            map.wf(),
            spec_images_entries(m, image_index as nat) == Ok::<Seq<(Seq<char>, Seq<char>)>, LayoutError>(done),
            map@ == fold_entries(Map::empty(), done),
        decreases image_count - image_index,
    {
        let ghost before = map@;
        match insert_image_entries(metadata, &mut map, image_index) {
            Ok(()) => {},
            Err(e) => {
                proof {
                    lemma_images_entries_error(m, (image_index + 1) as nat, image_count as nat, e);
                }
                return Err(e);
            },
        }
        proof {
            let added = choose|added: Seq<(Seq<char>, Seq<char>)>|
                spec_image_entries(m, m.images[image_index as int]) == Ok::<Seq<(Seq<char>, Seq<char>)>, LayoutError>(
                    added,
                ) && map@ == fold_entries(before, added);
            lemma_fold_entries_append(Map::empty(), done, added);
            done = done + added;
        }
        image_index += 1;
    }
    proof {
        lemma_entries_map_append(Seq::empty(), done);
        assert(Seq::<(Seq<char>, Seq<char>)>::empty() + done =~= done);
    }
    Ok(map)
}

/// Whether a rendering of the method map agrees with the expected map: an error of the
/// map's decoding is passed on; otherwise the text is the JSON rendering of the map.
pub open spec fn json_agrees(r: Result<String, LayoutError>, expected: Result<Map<Seq<char>, Seq<char>>, LayoutError>) -> bool {
    match expected {
        Err(e) => r == Err::<String, LayoutError>(e),
        Ok(map) => r matches Ok(text) && text@ == pretty_json_string_map(map),
    }
}

/// Renders `methods.json`: the method map as a pretty-printed JSON object.
pub fn build_methods_json(metadata: &mut LayoutMetadata) -> (r: Result<String, LayoutError>)
    requires
        old(metadata).wf(),
    ensures
        final(metadata).wf(),
        final(metadata)@ == old(metadata)@,
        json_agrees(r, spec_methods_map(old(metadata)@)),
{
    let map = build_method_map(metadata)?;
    map.to_pretty_json()
}


/// Every `dump.cs` that renders starts with the watermark line.
pub proof fn lemma_dump_cs_starts_with_banner(m: LayoutMetadataView)
    ensures
        spec_build_dump_cs(m) matches Ok(text) ==> text.take(dump_cs_banner().len() as int) == dump_cs_banner(),
{
    match spec_build_dump_cs(m) {
        Ok(text) => {
            let rest = image_lines(m.images, m.images.len()) + spec_images_text(m, m.images.len())->Ok_0;
            assert(text =~= dump_cs_banner() + rest);
            assert(text.take(dump_cs_banner().len() as int) =~= dump_cs_banner());
        },
        Err(_) => {},
    }
}


/// `(key, value)` is the `methods.json` entry of some method of a type displayed somehow:
/// `Type::Name(params)` and `0x<rva>`.
pub open spec fn is_method_entry(key: Seq<char>, value: Seq<char>) -> bool {
    exists|display_name: Seq<char>, method: LayoutMethodView|
        #![trigger method_json_key(display_name, method)]
        key == display_name + seq![':', ':'] + method.name + seq!['('] + join_with(method.method_json_params, seq![','])
            + seq![')'] && value == seq!['0', 'x'] + hexadecimal(method.rva as nat, false)
            && key == method_json_key(display_name, method)
}

/// Every entry of `entries` is a method's entry.
pub open spec fn all_method_entries(entries: Seq<(Seq<char>, Seq<char>)>) -> bool {
    forall|i: int| 0 <= i < entries.len() ==> is_method_entry(#[trigger] entries[i].0, entries[i].1)
}

proof fn lemma_concat_method_entries(a: Seq<(Seq<char>, Seq<char>)>, b: Seq<(Seq<char>, Seq<char>)>)
    requires
        all_method_entries(a),
        all_method_entries(b),
    ensures
        all_method_entries(a + b),
{
    assert forall|i: int| 0 <= i < (a + b).len() implies is_method_entry(#[trigger] (a + b)[i].0, (a + b)[i].1) by {
        if i < a.len() {
            assert((a + b)[i] == a[i]);
        } else {
            assert((a + b)[i] == b[i - a.len()]);
        }
    }
}

proof fn lemma_json_punctuation()
    ensures
        "::"@ == seq![':', ':'],
        "("@ == seq!['('],
        ")"@ == seq![')'],
        ","@ == seq![','],
        "0x"@ == seq!['0', 'x'],
{
    reveal_strlit("::");
    reveal_strlit("(");
    reveal_strlit(")");
    reveal_strlit(",");
    reveal_strlit("0x");
    assert("::"@ =~= seq![':', ':']);
    assert("("@ =~= seq!['(']);
    assert(")"@ =~= seq![')']);
    assert(","@ =~= seq![',']);
    assert("0x"@ =~= seq!['0', 'x']);
}

proof fn lemma_type_method_entries_form(m: LayoutMetadataView, display_name: Seq<char>, start: usize, count: nat)
    ensures
        spec_type_method_entries(m, display_name, start, count) matches Ok(entries) ==> all_method_entries(entries),
    decreases count,
{
    if count > 0 {
        lemma_type_method_entries_form(m, display_name, start, (count - 1) as nat);
        if let Ok(entries) = spec_type_method_entries(m, display_name, start, count) {
            let previous = spec_type_method_entries(m, display_name, start, (count - 1) as nat)->Ok_0;
            let method = spec_read_method(m, (start + count - 1) as usize)->Ok_0;
            lemma_json_punctuation();
            assert(is_method_entry(method_json_key(display_name, method), method_json_value(method)));
            assert(entries == previous.push((method_json_key(display_name, method), method_json_value(method))));
            assert forall|i: int| 0 <= i < entries.len() implies is_method_entry(#[trigger] entries[i].0, entries[i].1) by {
                if i < previous.len() {
                    assert(entries[i] == previous[i]);
                }
            }
        }
    }
}

proof fn lemma_types_entries_form(m: LayoutMetadataView, start: usize, count: nat)
    ensures
        spec_types_entries(m, start, count) matches Ok(entries) ==> all_method_entries(entries),
    decreases count,
{
    if count > 0 {
        lemma_types_entries_form(m, start, (count - 1) as nat);
        if let Ok(entries) = spec_types_entries(m, start, count) {
            let previous = spec_types_entries(m, start, (count - 1) as nat)->Ok_0;
            let type_index = start + count - 1;
            let own = spec_type_entries(m, type_index)->Ok_0;
            let type_def = spec_type_def(m, type_index)->Ok_0;
            if let Some(method_start) = type_def.method_start {
                let display_name = spec_type_def_display_name(m, type_index, true)->Ok_0;
                lemma_type_method_entries_form(m, display_name, method_start, type_def.method_count as nat);
            }
            lemma_concat_method_entries(previous, own);
        }
    }
}

proof fn lemma_images_entries_form(m: LayoutMetadataView, count: nat)
    ensures
        spec_images_entries(m, count) matches Ok(entries) ==> all_method_entries(entries),
    decreases count,
{
    if count > 0 {
        lemma_images_entries_form(m, (count - 1) as nat);
        if let Ok(entries) = spec_images_entries(m, count) {
            let previous = spec_images_entries(m, (count - 1) as nat)->Ok_0;
            let image = m.images[count - 1];
            lemma_types_entries_form(m, image.type_start, image.type_count as nat);
            lemma_concat_method_entries(previous, spec_image_entries(m, image)->Ok_0);
        }
    }
}

proof fn lemma_entries_map_from_entries(entries: Seq<(Seq<char>, Seq<char>)>)
    ensures
        forall|k: Seq<char>|
            #[trigger] entries_map(entries).contains_key(k) ==> exists|i: int|
                0 <= i < entries.len() && entries[i].0 == k && entries[i].1 == entries_map(entries)[k],
    decreases entries.len(),
{
    if entries.len() > 0 {
        let rest = entries.drop_last();
        lemma_entries_map_from_entries(rest);
        assert forall|k: Seq<char>| #[trigger] entries_map(entries).contains_key(k) implies exists|i: int|
            0 <= i < entries.len() && entries[i].0 == k && entries[i].1 == entries_map(entries)[k] by {
            if k == entries.last().0 {
                assert(entries[entries.len() - 1].0 == k);
            } else {
                assert(entries_map(rest).contains_key(k));
                let i = choose|i: int| 0 <= i < rest.len() && rest[i].0 == k && rest[i].1 == entries_map(rest)[k];
                assert(entries[i] == rest[i]);
            }
        }
    }
}

/// Every entry of the `methods.json` map is a method's: its key is
/// `Type::Name(param,param)` and its value `0x` and the RVA in lower-case hexadecimal.
pub proof fn lemma_methods_map_entry_format(m: LayoutMetadataView)
    ensures
        spec_methods_map(m) matches Ok(map) ==> forall|key: Seq<char>|
            #[trigger] map.contains_key(key) ==> is_method_entry(key, map[key]),
{
    if let Ok(map) = spec_methods_map(m) {
        let entries = spec_images_entries(m, m.images.len())->Ok_0;
        lemma_images_entries_form(m, m.images.len());
        lemma_entries_map_from_entries(entries);
        assert forall|key: Seq<char>| #[trigger] map.contains_key(key) implies is_method_entry(key, map[key]) by {
            let i = choose|i: int| 0 <= i < entries.len() && entries[i].0 == key && entries[i].1 == entries_map(entries)[key];
            assert(is_method_entry(entries[i].0, entries[i].1));
        }
    }
}

/// The type indices that `dump.cs` renders for `images`: image by image, every index of
/// the image's range `type_start..type_start + type_count`, in order.
pub open spec fn dumped_type_indices(images: Seq<LayoutImageView>) -> Seq<int>
    decreases images.len(),
{
    if images.len() == 0 {
        Seq::empty()
    } else {
        let last = images.last();
        dumped_type_indices(images.drop_last()) + Seq::new(last.type_count as nat, |j: int| last.type_start + j)
    }
}

/// The blocks of the types `indices`, one after the other.
pub open spec fn blocks_of(m: LayoutMetadataView, indices: Seq<int>) -> Seq<char>
    decreases indices.len(),
{
    if indices.len() == 0 {
        Seq::empty()
    } else {
        blocks_of(m, indices.drop_last()) + spec_type_block(m, indices.last())->Ok_0
    }
}

proof fn lemma_blocks_of_concat(m: LayoutMetadataView, a: Seq<int>, b: Seq<int>)
    ensures
        blocks_of(m, a + b) == blocks_of(m, a) + blocks_of(m, b),
    decreases b.len(),
{
    if b.len() == 0 {
        assert(a + b =~= a);
    } else {
        lemma_blocks_of_concat(m, a, b.drop_last());
        assert((a + b).drop_last() =~= a + b.drop_last());
        assert((a + b).last() == b.last());
    }
}

proof fn lemma_types_text_blocks(m: LayoutMetadataView, start: usize, count: nat)
    ensures
        spec_types_text(m, start, count) matches Ok(text) ==> {
            let indices = Seq::new(count, |j: int| start + j);
            &&& text == blocks_of(m, indices)
            &&& forall|j: int| 0 <= j < count ==> #[trigger] spec_type_block(m, start + j) is Ok
        },
    decreases count,
{
    if count > 0 {
        lemma_types_text_blocks(m, start, (count - 1) as nat);
        let indices = Seq::new(count, |j: int| start + j);
        assert(indices.drop_last() =~= Seq::new((count - 1) as nat, |j: int| start + j));
        assert(indices.last() == start + count - 1);
        if let Ok(text) = spec_types_text(m, start, count) {
            assert(spec_type_block(m, start + (count - 1)) is Ok);
        }
    }
}

proof fn lemma_images_text_blocks(m: LayoutMetadataView, count: nat)
    requires
        count <= m.images.len(),
    ensures
        spec_images_text(m, count) matches Ok(text) ==> {
            let indices = dumped_type_indices(m.images.take(count as int));
            &&& text == blocks_of(m, indices)
            &&& forall|j: int| 0 <= j < indices.len() ==> spec_type_block(m, #[trigger] indices[j]) is Ok
        },
    decreases count,
{
    if count > 0 {
        lemma_images_text_blocks(m, (count - 1) as nat);
        let images = m.images.take(count as int);
        assert(images.drop_last() =~= m.images.take(count - 1));
        assert(images.last() == m.images[count - 1]);
        if let Ok(text) = spec_images_text(m, count) {
            let image = m.images[count - 1];
            let before = dumped_type_indices(m.images.take(count - 1));
            let own = Seq::new(image.type_count as nat, |j: int| image.type_start + j);
            lemma_types_text_blocks(m, image.type_start, image.type_count as nat);
            lemma_blocks_of_concat(m, before, own);
            let indices = dumped_type_indices(images);
            assert(indices == before + own);
            assert forall|j: int| 0 <= j < indices.len() implies spec_type_block(m, #[trigger] indices[j]) is Ok by {
                if j < before.len() {
                    assert(indices[j] == before[j]);
                } else {
                    assert(indices[j] == own[j - before.len()]);
                    assert(spec_type_block(m, image.type_start + (j - before.len())) is Ok);
                }
            }
        }
    }
}

/// `dump.cs` is the banner, one line per image, then, image by image, the block of every
/// type index in the image's range `type_start..type_start + type_count`, in order (so with
/// images that partition the type table, each type appears exactly once).
pub proof fn lemma_dump_cs_type_order(m: LayoutMetadataView)
    ensures
        spec_build_dump_cs(m) matches Ok(text) ==> {
            let indices = dumped_type_indices(m.images);
            &&& forall|j: int| 0 <= j < indices.len() ==> spec_type_block(m, #[trigger] indices[j]) is Ok
            &&& text == dump_cs_banner() + image_lines(m.images, m.images.len()) + blocks_of(m, indices)
        },
{
    lemma_images_text_blocks(m, m.images.len());
    assert(m.images.take(m.images.len() as int) =~= m.images);
}
} // verus!
