//! The struct transformer: named fields are removed by name, and new public
//! fields are appended.

use vstd::prelude::*;
use crate::config::{ConfigView, HijektConfig};
use crate::emit::Emission;
use crate::syntax::{lowercased, parses_as_ident, parses_as_type, lowercase};
use crate::text::{accepted, texts, contains_text, trimmed, trim};

verus! {

/// A named field.
#[derive(Debug, Clone, PartialEq, Eq)]
pub struct Field {
    pub name: String,
    /// The field's type, as text.
    pub ty: String,
    /// Whether the transformer appended the field; such a field is public.
    pub added: bool,
}

pub struct FieldView {
    pub name: Seq<char>,
    pub ty: Seq<char>,
    pub added: bool,
}

impl View for Field {
    type V = FieldView;

    open spec fn view(&self) -> FieldView {
        FieldView { name: self.name@, ty: self.ty@, added: self.added }
    }
}

/// The views of a list of fields, in order.
pub open spec fn fields_view(v: Seq<Field>) -> Seq<FieldView> {
    v.map_values(|f: Field| f@)
}

/// A struct declaration.
#[derive(Debug, PartialEq, Eq)]
pub struct StructDecl {
    /// Where the caller keeps what is not modelled here.
    pub source: usize,
    pub name: String,
    /// Whether the struct has named fields. One that has not is never changed.
    pub named: bool,
    pub fields: Vec<Field>,
}

/// The first `n` fields without those named by `targets`, in order.
pub open spec fn kept_prefix(fields: Seq<FieldView>, targets: Set<Seq<char>>, n: nat) -> Seq<FieldView>
    decreases n,
{
    if n == 0 || n > fields.len() {
        Seq::empty()
    } else {
        let rest = kept_prefix(fields, targets, (n - 1) as nat);
        if targets.contains(fields[n - 1].name) {
            rest
        } else {
            rest.push(fields[n - 1])
        }
    }
}

/// The place of the first `:` at or after `i` that separates a name from a
/// type, or the text's length. A `::` is a path separator and is passed over.
pub open spec fn separator_from(text: Seq<char>, i: nat) -> nat
    decreases text.len() - i,
{
    if i >= text.len() {
        text.len()
    } else if text[i as int] != ':' {
        separator_from(text, i + 1)
    } else if i + 1 < text.len() && text[(i + 1) as int] == ':' {
        separator_from(text, i + 2)
    } else {
        i
    }
}

/// Whether a character is replaced in a synthesized name.
pub open spec fn is_joined(c: char) -> bool {
    c == '<' || c == '>' || c == ' ' || c == ','
}

/// From place `i` on, a type text as part of a field name: each `::`, `<`,
/// `>`, space and `,` becomes `_`.
pub open spec fn sanitized_from(text: Seq<char>, i: nat) -> Seq<char>
    decreases text.len() - i,
{
    if i >= text.len() {
        Seq::empty()
    } else {
        let c = text[i as int];
        if c == ':' && i + 1 < text.len() && text[(i + 1) as int] == ':' {
            seq!['_'] + sanitized_from(text, i + 2)
        } else if is_joined(c) {
            seq!['_'] + sanitized_from(text, i + 1)
        } else {
            seq![c] + sanitized_from(text, i + 1)
        }
    }
}

/// The name synthesized for a field that is given by its type alone.
pub open spec fn synthesized_name(text: Seq<char>) -> Seq<char> {
    "hijekt_"@ + sanitized_from(lowercased(text), 0)
}

/// The field that an `add` entry describes. `name: type` describes that
/// field, both parts trimmed. A text without a separating `:` is a type
/// alone and describes a field of the synthesized name.
pub open spec fn candidate(text: Seq<char>) -> FieldView {
    let k = separator_from(text, 0);
    if k < text.len() {
        FieldView {
            name: trimmed(text.subrange(0, k as int)),
            ty: trimmed(text.subrange((k + 1) as int, text.len() as int)),
            added: true,
        }
    } else {
        FieldView { name: synthesized_name(text), ty: text, added: true }
    }
}

/// `base` followed by the fields that the accepted ones among the first `n`
/// entries describe, in declared order. An entry that is not accepted is
/// dropped.
pub open spec fn appended_prefix(
    base: Seq<FieldView>,
    adds: Seq<Seq<char>>,
    answers: Seq<bool>,
    n: nat,
) -> Seq<FieldView>
    decreases n,
{
    if n == 0 || n > adds.len() {
        base
    } else {
        let rest = appended_prefix(base, adds, answers, (n - 1) as nat);
        if accepted(answers, n - 1) {
            rest.push(candidate(adds[n - 1]))
        } else {
            rest
        }
    }
}

/// The fields of the transformed struct: the surviving fields in their
/// order, then the fields of the accepted entries in declared order.
pub open spec fn transformed_fields(c: ConfigView, fields: Seq<FieldView>, answers: Seq<bool>) -> Seq<
    FieldView,
> {
    appended_prefix(kept_prefix(fields, c.rm.to_set(), fields.len()), c.add, answers, c.add.len())
}

/// Whether `e` is what the struct transformer owes for `item` under `c`,
/// where `answers` says of each `add` entry whether its name parses as an
/// identifier and its type as a type.
pub open spec fn struct_decided(c: ConfigView, item: StructDecl, answers: Seq<bool>, e: Emission) -> bool {
    &&& e matches Emission::Struct { feature, fields, original }
    &&& feature@ == c.feat
    &&& original == item
    &&& fields_view(fields@) == if item.named {
        transformed_fields(c, fields_view(item.fields@), answers)
    } else {
        fields_view(item.fields@)
    }
}

/// Whether `e` is what the struct transformer owes for `item` under `c`,
/// whatever the parser says of the entries.
pub open spec fn struct_emitted(c: ConfigView, item: StructDecl, e: Emission) -> bool {
    exists|answers: Seq<bool>|
        answers.len() == c.add.len() && #[trigger] struct_decided(c, item, answers, e)
}

/// A type text as part of a field name.
pub fn sanitize(text: &str) -> (r: String)
    ensures
        r@ == sanitized_from(text@, 0),
{
    let n = text.unicode_len();
    let mut out = String::new();
    let mut i: usize = 0;
    proof {
        assert(out@ + sanitized_from(text@, 0) =~= sanitized_from(text@, 0));
    }
    while i < n
        invariant
            i <= n,
            n == text@.len(),
            out@ + sanitized_from(text@, i as nat) == sanitized_from(text@, 0),
        decreases n - i,
    {
        let c = text.get_char(i);
        let ghost before = out@;
        if c == ':' && i + 1 < n && text.get_char(i + 1) == ':' {
            out.push('_');
            proof {
                assert(out@ + sanitized_from(text@, (i + 2) as nat) =~= before + sanitized_from(
                    text@,
                    i as nat,
                ));
            }
            i += 2;
        } else {
            if c == '<' || c == '>' || c == ' ' || c == ',' {
                out.push('_');
            } else {
                out.push(c);
            }
            proof {
                assert(out@ + sanitized_from(text@, (i + 1) as nat) =~= before + sanitized_from(
                    text@,
                    i as nat,
                ));
            }
            i += 1;
        }
    }
    proof {
        assert(out@ + sanitized_from(text@, n as nat) =~= out@);
    }
    out
}

/// The place of the first `:` that separates a name from a type, or the
/// text's length.
pub fn find_separator(text: &str) -> (k: usize)
    ensures
        k == separator_from(text@, 0),
{
    let n = text.unicode_len();
    let mut i: usize = 0;
    while i < n
        invariant
            i <= n,
            n == text@.len(),
            separator_from(text@, i as nat) == separator_from(text@, 0),
        decreases n - i,
    {
        if text.get_char(i) != ':' {
            i += 1;
        } else if i + 1 < n && text.get_char(i + 1) == ':' {
            i += 2;
        } else {
            return i;
        }
    }
    n
}

/// The field that an `add` entry describes.
pub fn candidate_of(text: &String) -> (f: Field)
    ensures
        f@ == candidate(text@),
{
    let s = text.as_str();
    let n = s.unicode_len();
    let k = find_separator(s);
    if k < n {
        let name = trim(s.substring_char(0, k));
        let ty = trim(s.substring_char(k + 1, n));
        Field { name, ty, added: true }
    } else {
        let low = lowercase(s);
        let name = String::from_str("hijekt_").concat(sanitize(low.as_str()).as_str());
        Field { name, ty: text.clone(), added: true }
    }
}

/// The described field where both its name and its type were accepted;
/// nothing otherwise.
pub fn decide_field(described: Field, name_ok: bool, ty_ok: bool) -> (r: Option<Field>)
    ensures
        r == if name_ok && ty_ok {
            Some(described)
        } else {
            None::<Field>
        },
{
    if name_ok && ty_ok {
        Some(described)
    } else {
        None
    }
}

/// The field that an `add` entry gives: the described field, where the
/// parser takes its name as an identifier and its type as a type; nothing
/// otherwise.
pub fn field_from_entry(text: &String) -> (r: Option<Field>)
    ensures
        r matches Some(f) ==> f@ == candidate(text@),
{
    let described = candidate_of(text);
    let name_ok = parses_as_ident(described.name.as_str());
    let ty_ok = parses_as_type(described.ty.as_str());
    decide_field(described, name_ok, ty_ok)
}

/// Transforms a struct, given for each `add` entry whether it is accepted; a
/// missing answer rejects. With named fields, the fields named by `rm` are
/// removed, then the fields of the accepted entries are appended in declared
/// order. A struct without named fields keeps its fields. The struct as it
/// was given is kept for the inactive feature.
pub fn decide_struct(config: HijektConfig, item: StructDecl, answers: &Vec<bool>) -> (e: Emission)
    ensures
        struct_decided(config@, item, answers@, e),
        e matches Emission::Struct { feature, .. } && feature == config.feat,
{
    let ghost before = fields_view(item.fields@);
    let ghost targets = texts(config.rm@).to_set();
    let mut fields: Vec<Field> = Vec::new();
    let mut i: usize = 0;
    proof {
        assert(fields_view(fields@) =~= Seq::empty());
    }
    while i < item.fields.len()
        invariant
            i <= item.fields.len(),
            before == fields_view(item.fields@),
            targets == texts(config.rm@).to_set(),
            fields_view(fields@) == (if item.named {
                kept_prefix(before, targets, i as nat)
            } else {
                before.take(i as int)
            }),
        decreases item.fields.len() - i,
    {
        let f = &item.fields[i];
        if !item.named || !contains_text(&config.rm, &f.name) {
            let copy = Field { name: f.name.clone(), ty: f.ty.clone(), added: f.added };
            let ghost head = fields@;
            fields.push(copy);
            proof {
                assert(fields_view(fields@) =~= fields_view(head).push(copy@));
                assert(before.take(i + 1) =~= before.take(i as int).push(before[i as int]));
            }
        }
        i += 1;
    }
    proof {
        assert(before.take(item.fields.len() as int) =~= before);
    }
    if item.named {
        let ghost base = fields_view(fields@);
        let mut j: usize = 0;
        while j < config.add.len()
            invariant
                j <= config.add.len(),
                appended_prefix(base, texts(config.add@), answers@, j as nat) == fields_view(
                    fields@,
                ),
            decreases config.add.len() - j,
        {
            if j < answers.len() && answers[j] {
                let f = candidate_of(&config.add[j]);
                let ghost head = fields@;
                fields.push(f);
                proof {
                    assert(fields_view(fields@) =~= fields_view(head).push(f@));
                }
            }
            j += 1;
        }
    }
    Emission::Struct { feature: config.feature_flag(), fields, original: item }
}

/// Transforms a struct. With named fields, the fields named by `rm` are
/// removed, then each `add` entry that the parser accepts gives a field, in
/// declared order; an entry that it does not accept is dropped. A struct
/// without named fields keeps its fields. The struct as it was given is kept
/// for the inactive feature.
pub fn handle_struct(config: HijektConfig, item: StructDecl) -> (e: Emission)
    ensures
        struct_emitted(config@, item, e),
        e matches Emission::Struct { feature, original, .. } && feature == config.feat && original
            == item,
{
    let mut answers: Vec<bool> = Vec::new();
    let mut j: usize = 0;
    while j < config.add.len()
        invariant
            j <= config.add.len(),
            answers@.len() == j,
        decreases config.add.len() - j,
    {
        answers.push(field_from_entry(&config.add[j]).is_some());
        j += 1;
    }
    decide_struct(config, item, &answers)
}

/// A text without a `:` has no separator.
pub proof fn lemma_no_colon(text: Seq<char>, i: nat)
    requires
        forall|j: int| 0 <= j < text.len() ==> text[j] != ':',
    ensures
        separator_from(text, i) == text.len(),
    decreases text.len() - i,
{
    if i < text.len() {
        lemma_no_colon(text, i + 1);
    }
}

/// A text without a `:` is a type alone: it describes a field of exactly
/// that type, named by the sanitized lowercase text behind the fixed prefix.
pub proof fn lemma_type_alone(text: Seq<char>)
    requires
        forall|j: int| 0 <= j < text.len() ==> text[j] != ':',
    ensures
        candidate(text) == (FieldView {
            name: "hijekt_"@ + sanitized_from(lowercased(text), 0),
            ty: text,
            added: true,
        }),
{
    lemma_no_colon(text, 0);
}

/// A sanitized text holds none of `<`, `>`, space and `,`.
pub proof fn lemma_sanitized_is_clean(text: Seq<char>, i: nat)
    ensures
        forall|j: int|
            0 <= j < sanitized_from(text, i).len() ==> !is_joined(
                #[trigger] sanitized_from(text, i)[j],
            ),
    decreases text.len() - i,
{
    if i < text.len() {
        let c = text[i as int];
        let out = sanitized_from(text, i);
        let rest = if c == ':' && i + 1 < text.len() && text[(i + 1) as int] == ':' {
            sanitized_from(text, i + 2)
        } else {
            sanitized_from(text, i + 1)
        };
        if c == ':' && i + 1 < text.len() && text[(i + 1) as int] == ':' {
            lemma_sanitized_is_clean(text, i + 2);
        } else {
            lemma_sanitized_is_clean(text, i + 1);
        }
        assert forall|j: int| 0 <= j < out.len() implies !is_joined(#[trigger] out[j]) by {
            if j > 0 {
                assert(out[j] == rest[j - 1]);
            }
        }
    }
}

/// The surviving fields come first: whatever is appended, the result opens
/// with `base`.
pub proof fn lemma_survivors_first(
    base: Seq<FieldView>,
    adds: Seq<Seq<char>>,
    answers: Seq<bool>,
    n: nat,
)
    requires
        n <= adds.len(),
    ensures
        appended_prefix(base, adds, answers, n).len() >= base.len(),
        appended_prefix(base, adds, answers, n).take(base.len() as int) == base,
    decreases n,
{
    if n == 0 {
        assert(base.take(base.len() as int) =~= base);
    } else {
        lemma_survivors_first(base, adds, answers, (n - 1) as nat);
        let rest = appended_prefix(base, adds, answers, (n - 1) as nat);
        if accepted(answers, n - 1) {
            assert(rest.push(candidate(adds[n - 1])).take(base.len() as int) =~= rest.take(
                base.len() as int,
            ));
        }
    }
}

} // verus!
