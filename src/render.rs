//! What the emitted `Display` implementations print. Templates are read in
//! the subset of Rust's format syntax that the generated code relies on:
//! `{{` and `}}` escape a brace, `{}` takes the next positional value and
//! `{name}` takes a bound name. Anything else (`{0}`, `{:?}`, a stray brace,
//! a missing value) is outside that subset and renders to `None`.
use crate::common::{decimal_string, opt_view};
use crate::enum_error::{
    arg_name, default_template, fields_view, template_or_default, EnumError, EnumVariant, VariantModel,
};
use crate::struct_error::{StructError, StructErrorVariant, StructShape};
use vstd::prelude::*;

verus! {

/// Puts `p` in front of a rendered text; nothing comes of nothing.
pub open spec fn then(p: Seq<char>, o: Option<Seq<char>>) -> Option<Seq<char>> {
    match o {
        Some(x) => Some(p + x),
        None => None,
    }
}

/// The index of the first brace at or after `j`, or the template's length.
pub open spec fn brace_from(t: Seq<char>, j: int) -> int
    decreases t.len() - j,
{
    if j < 0 || j >= t.len() {
        t.len() as int
    } else if t[j] == '{' || t[j] == '}' {
        j
    } else {
        brace_from(t, j + 1)
    }
}

/// The value of the first binding named `name`, from index `k` on.
pub open spec fn lookup_from(named: Seq<(Seq<char>, Seq<char>)>, name: Seq<char>, k: int) -> Option<Seq<char>>
    decreases named.len() - k,
{
    if k < 0 || k >= named.len() {
        None
    } else if named[k].0 == name {
        Some(named[k].1)
    } else {
        lookup_from(named, name, k + 1)
    }
}

/// The text of template `t` from index `i` on, where `next` is the next
/// positional value to take.
pub open spec fn instantiate_from(
    t: Seq<char>,
    i: int,
    next: int,
    pos: Seq<Seq<char>>,
    named: Seq<(Seq<char>, Seq<char>)>,
) -> Option<Seq<char>>
    decreases t.len() - i,
{
    if i < 0 || i >= t.len() {
        Some(Seq::empty())
    } else if t[i] == '{' {
        if i + 1 < t.len() && t[i + 1] == '{' {
            then(seq!['{'], instantiate_from(t, i + 2, next, pos, named))
        } else {
            let k = brace_from(t, i + 1);
            if k <= i || k >= t.len() || t[k] == '{' {
                None
            } else if k == i + 1 {
                if 0 <= next < pos.len() {
                    then(pos[next], instantiate_from(t, k + 1, next + 1, pos, named))
                } else {
                    None
                }
            } else {
                match lookup_from(named, t.subrange(i + 1, k), 0) {
                    Some(v) => then(v, instantiate_from(t, k + 1, next, pos, named)),
                    None => None,
                }
            }
        }
    } else if t[i] == '}' {
        if i + 1 < t.len() && t[i + 1] == '}' {
            then(seq!['}'], instantiate_from(t, i + 2, next, pos, named))
        } else {
            None
        }
    } else {
        then(seq![t[i]], instantiate_from(t, i + 1, next, pos, named))
    }
}

/// The text of template `t` with positional values `pos` and bindings `named`.
pub open spec fn instantiate(t: Seq<char>, pos: Seq<Seq<char>>, named: Seq<(Seq<char>, Seq<char>)>) -> Option<Seq<char>> {
    instantiate_from(t, 0, 0, pos, named)
}

/// The views of name bindings.
pub open spec fn bindings_view(b: Seq<(String, String)>) -> Seq<(Seq<char>, Seq<char>)> {
    b.map_values(|p: (String, String)| (p.0@, p.1@))
}

/// The views of strings.
pub open spec fn strings_view(v: Seq<String>) -> Seq<Seq<char>> {
    v.map_values(|s: String| s@)
}

proof fn lemma_then_then(a: Seq<char>, b: Seq<char>, o: Option<Seq<char>>)
    ensures
        then(a, then(b, o)) == then(a + b, o),
{
    if let Some(x) = o {
        assert(a + (b + x) =~= (a + b) + x);
    }
}

fn find_brace(t: &str, n: usize, j: usize) -> (k: usize)
    requires
        n == t@.len(),
        j <= n,
    ensures
        j <= k <= n,
        k == brace_from(t@, j as int),
{
    let mut k = j;
    while k < n
        invariant
            n == t@.len(),
            j <= k <= n,
            brace_from(t@, j as int) == brace_from(t@, k as int),
        decreases n - k,
    {
        let c = t.get_char(k);
        if c == '{' || c == '}' {
            return k;
        }
        k = k + 1;
    }
    k
}

fn lookup<'a>(named: &'a Vec<(String, String)>, name: &String) -> (r: Option<&'a String>)
    ensures
        match r {
            Some(v) => lookup_from(bindings_view(named@), name@, 0) == Some(v@),
            None => lookup_from(bindings_view(named@), name@, 0) is None,
        },
{
    let mut k: usize = 0;
    while k < named.len()
        invariant
            k <= named@.len(),
            lookup_from(bindings_view(named@), name@, 0) == lookup_from(bindings_view(named@), name@, k as int),
        decreases named@.len() - k,
    {
        if named[k].0 == *name {
            return Some(&named[k].1);
        }
        k = k + 1;
    }
    None
}

/// Renders `template` with positional values `pos` and bindings `named`.
pub fn instantiate_template(template: &str, pos: &Vec<String>, named: &Vec<(String, String)>) -> (r: Option<String>)
    ensures
        opt_view(r) == instantiate(template@, strings_view(pos@), bindings_view(named@)),
{
    let ghost p = strings_view(pos@);
    let ghost b = bindings_view(named@);
    let n = template.unicode_len();
    let mut out = String::new();
    let mut i: usize = 0;
    let mut next: usize = 0;
    while i < n
        invariant
            n == template@.len(),
            i <= n,
            next <= pos@.len(),
            p == strings_view(pos@),
            b == bindings_view(named@),
            instantiate(template@, p, b) == then(out@, instantiate_from(template@, i as int, next as int, p, b)),
        decreases n - i,
    {
        let c = template.get_char(i);
        if c == '{' {
            if i + 1 < n && template.get_char(i + 1) == '{' {
                proof { lemma_then_then(out@, template@.subrange(i as int, i + 1), instantiate_from(template@, i + 2, next as int, p, b)); }
                assert(template@.subrange(i as int, i + 1) =~= seq!['{']);
                out.append(template.substring_char(i, i + 1));
                i = i + 2;
            } else {
                let k = find_brace(template, n, i + 1);
                if k >= n || template.get_char(k) == '{' {
                    return None;
                }
                if k == i + 1 {
                    if next >= pos.len() {
                        return None;
                    }
                    proof { lemma_then_then(out@, p[next as int], instantiate_from(template@, k + 1, next + 1, p, b)); }
                    out.append(pos[next].as_str());
                    next = next + 1;
                } else {
                    let name = String::from_str(template.substring_char(i + 1, k));
                    match lookup(named, &name) {
                        Some(v) => {
                            proof { lemma_then_then(out@, v@, instantiate_from(template@, k + 1, next as int, p, b)); }
                            out.append(v.as_str());
                        },
                        None => return None,
                    }
                }
                i = k + 1;
            }
        } else if c == '}' {
            if i + 1 < n && template.get_char(i + 1) == '}' {
                proof { lemma_then_then(out@, template@.subrange(i as int, i + 1), instantiate_from(template@, i + 2, next as int, p, b)); }
                assert(template@.subrange(i as int, i + 1) =~= seq!['}']);
                out.append(template.substring_char(i, i + 1));
                i = i + 2;
            } else {
                return None;
            }
        } else {
            proof { lemma_then_then(out@, template@.subrange(i as int, i + 1), instantiate_from(template@, i + 1, next as int, p, b)); }
            assert(template@.subrange(i as int, i + 1) =~= seq![c]);
            out.append(template.substring_char(i, i + 1));
            i = i + 1;
        }
    }
    assert(out@ + Seq::<char>::empty() =~= out@);
    Some(out)
}

/// Named fields bound to their values, in order.
pub open spec fn field_bindings(fields: Seq<(Option<Seq<char>>, Seq<char>)>, values: Seq<Seq<char>>) -> Seq<(Seq<char>, Seq<char>)> {
    Seq::new(fields.len(), |k: int| (fields[k].1, values[k]))
}

/// Positions bound to `arg_0`, `arg_1`, ... in order.
pub open spec fn arg_bindings(values: Seq<Seq<char>>) -> Seq<(Seq<char>, Seq<char>)> {
    Seq::new(values.len(), |k: int| (arg_name(k as nat), values[k]))
}

/// What the match arm of variant `c` yields, given the shown text of each of
/// its payload positions (after any `display` transform): named fields by
/// name, a single payload or a discriminant as `{}`, several unnamed fields
/// as `arg_<i>`. The number of values must match the payload.
pub open spec fn render_variant(c: VariantModel, values: Seq<Seq<char>>) -> Option<Seq<char>> {
    match c {
        VariantModel::AnonymousStruct { fields, format, .. } => if values.len() == fields.len() {
            instantiate(format, Seq::empty(), field_bindings(fields, values))
        } else {
            None
        },
        VariantModel::Discriminant { format, .. } => if values.len() == 1 {
            instantiate(template_or_default(format), values, Seq::empty())
        } else {
            None
        },
        VariantModel::SingleType { format, .. } => if values.len() == 1 {
            instantiate(template_or_default(format), values, Seq::empty())
        } else {
            None
        },
        VariantModel::Tuple { format, displays, .. } => if values.len() == displays.len() {
            instantiate(format, Seq::empty(), arg_bindings(values))
        } else {
            None
        },
        VariantModel::Unit { format, .. } => if values.len() == 0 {
            instantiate(format, Seq::empty(), Seq::empty())
        } else {
            None
        },
    }
}

/// What an enum's `Display` prints: the variant's text fed to the type-level
/// template, or shown as it is.
pub open spec fn render_enum(format: Option<Seq<char>>, c: VariantModel, values: Seq<Seq<char>>) -> Option<Seq<char>> {
    match render_variant(c, values) {
        Some(inner) => instantiate(template_or_default(format), seq![inner], Seq::empty()),
        None => None,
    }
}

/// What a struct's `Display` prints, given the shown text of each field.
pub open spec fn render_struct(format: Seq<char>, shape: StructShape, values: Seq<Seq<char>>) -> Option<Seq<char>> {
    match shape {
        StructShape::Named(fields) => if values.len() == fields.len() {
            instantiate(format, Seq::empty(), field_bindings(fields, values))
        } else {
            None
        },
        StructShape::SingleUnnamed(_) => if values.len() == 1 {
            instantiate(format, values, Seq::empty())
        } else {
            None
        },
        StructShape::Unit => if values.len() == 0 {
            instantiate(format, Seq::empty(), Seq::empty())
        } else {
            None
        },
        StructShape::Unnamed(displays) => if values.len() == displays.len() {
            instantiate(format, Seq::empty(), arg_bindings(values))
        } else {
            None
        },
    }
}

fn bind_fields(fields: &Vec<(Option<String>, String)>, values: &Vec<String>) -> (r: Vec<(String, String)>)
    requires
        fields@.len() == values@.len(),
    ensures
        bindings_view(r@) == field_bindings(fields_view(fields@), strings_view(values@)),
{
    let mut out: Vec<(String, String)> = Vec::new();
    let mut i: usize = 0;
    while i < fields.len()
        invariant
            i <= fields@.len() == values@.len(),
            bindings_view(out@) =~= field_bindings(fields_view(fields@), strings_view(values@)).subrange(0, i as int),
        decreases fields@.len() - i,
    {
        let ghost before = out@;
        out.push((fields[i].1.clone(), values[i].clone()));
        assert(bindings_view(out@) =~= bindings_view(before).push((fields@[i as int].1@, values@[i as int]@)));
        i = i + 1;
    }
    assert(field_bindings(fields_view(fields@), strings_view(values@)).subrange(0, i as int)
        =~= field_bindings(fields_view(fields@), strings_view(values@)));
    out
}

fn bind_args(values: &Vec<String>) -> (r: Vec<(String, String)>)
    ensures
        bindings_view(r@) == arg_bindings(strings_view(values@)),
{
    let mut out: Vec<(String, String)> = Vec::new();
    let mut i: usize = 0;
    while i < values.len()
        invariant
            i <= values@.len(),
            bindings_view(out@) =~= arg_bindings(strings_view(values@)).subrange(0, i as int),
        decreases values@.len() - i,
    {
        let mut name = String::from_str("arg_");
        let digits = decimal_string(i);
        name.append(digits.as_str());
        let ghost before = out@;
        out.push((name, values[i].clone()));
        assert(bindings_view(out@) =~= bindings_view(before).push((arg_name(i as nat), values@[i as int]@)));
        i = i + 1;
    }
    assert(arg_bindings(strings_view(values@)).subrange(0, i as int) =~= arg_bindings(strings_view(values@)));
    out
}

fn default_or(format: &Option<String>) -> (r: &str)
    ensures
        r@ == template_or_default(opt_view(*format)),
{
    match format {
        Some(f) => f.as_str(),
        None => "{}",
    }
}

impl EnumVariant {
    /// The text this variant's match arm yields, given the shown text of each
    /// payload position.
    pub fn render(&self, values: &Vec<String>) -> (r: Option<String>)
        ensures
            opt_view(r) == render_variant(self@, strings_view(values@)),
    {
        let none: Vec<(String, String)> = Vec::new();
        let no_pos: Vec<String> = Vec::new();
        assert(bindings_view(none@) =~= Seq::empty());
        assert(strings_view(no_pos@) =~= Seq::empty());
        match self {
            EnumVariant::AnonymousStruct { fields, format, .. } => {
                if values.len() != fields.len() {
                    return None;
                }
                let named = bind_fields(fields, values);
                instantiate_template(format.as_str(), &no_pos, &named)
            },
            EnumVariant::Discriminant { format, .. } | EnumVariant::SingleType { format, .. } => {
                if values.len() != 1 {
                    return None;
                }
                instantiate_template(default_or(format), values, &none)
            },
            EnumVariant::Tuple { format, displays, .. } => {
                if values.len() != displays.len() {
                    return None;
                }
                let named = bind_args(values);
                instantiate_template(format.as_str(), &no_pos, &named)
            },
            EnumVariant::Unit { format, .. } => {
                if values.len() != 0 {
                    return None;
                }
                instantiate_template(format.as_str(), &no_pos, &none)
            },
        }
    }
}

impl EnumError {
    /// What `Display` prints for the variant at `variant`, given the shown
    /// text of each of its payload positions.
    pub fn render(&self, variant: usize, values: &Vec<String>) -> (r: Option<String>)
        ensures
            opt_view(r) == if variant < self.variants@.len() {
                render_enum(opt_view(self.format), self.variants@[variant as int]@, strings_view(values@))
            } else {
                None
            },
    {
        if variant >= self.variants.len() {
            return None;
        }
        match self.variants[variant].render(values) {
            Some(inner) => {
                let mut pos: Vec<String> = Vec::new();
                pos.push(inner);
                let none: Vec<(String, String)> = Vec::new();
                assert(bindings_view(none@) =~= Seq::empty());
                assert(strings_view(pos@) =~= seq![pos@[0]@]);
                instantiate_template(default_or(&self.format), &pos, &none)
            },
            None => None,
        }
    }
}

impl StructError {
    /// What `Display` prints, given the shown text of each field.
    pub fn render(&self, values: &Vec<String>) -> (r: Option<String>)
        ensures
            opt_view(r) == render_struct(self.format@, self.variant@, strings_view(values@)),
    {
        let none: Vec<(String, String)> = Vec::new();
        let no_pos: Vec<String> = Vec::new();
        assert(bindings_view(none@) =~= Seq::empty());
        assert(strings_view(no_pos@) =~= Seq::empty());
        match &self.variant {
            StructErrorVariant::Named(fields) => {
                if values.len() != fields.len() {
                    return None;
                }
                let named = bind_fields(fields, values);
                instantiate_template(self.format.as_str(), &no_pos, &named)
            },
            StructErrorVariant::SingleUnnamed(_) => {
                if values.len() != 1 {
                    return None;
                }
                instantiate_template(self.format.as_str(), values, &none)
            },
            StructErrorVariant::Unit => {
                if values.len() != 0 {
                    return None;
                }
                instantiate_template(self.format.as_str(), &no_pos, &none)
            },
            StructErrorVariant::Unnamed(displays) => {
                if values.len() != displays.len() {
                    return None;
                }
                let named = bind_args(values);
                instantiate_template(self.format.as_str(), &no_pos, &named)
            },
        }
    }
}

/// Whether `p` holds no brace, so that a template reads it as plain text.
pub open spec fn plain_text(p: Seq<char>) -> bool {
    forall|k: int| 0 <= k < p.len() ==> p[k] != '{' && p[k] != '}'
}

proof fn lemma_plain_then_slot_from(p: Seq<char>, x: Seq<char>, i: int)
    requires
        plain_text(p),
        0 <= i <= p.len(),
    ensures
        instantiate_from(p + seq!['{', '}'], i, 0, seq![x], Seq::empty()) == Some(p.subrange(i, p.len() as int) + x),
    decreases p.len() - i,
{
    let t = p + seq!['{', '}'];
    if i == p.len() {
        assert(t[i] == '{' && t[i + 1] == '}');
        assert(brace_from(t, i + 1) == i + 1);
        assert(instantiate_from(t, i + 2, 1, seq![x], Seq::empty()) == Some(Seq::<char>::empty()));
        assert(p.subrange(i, p.len() as int) + x =~= x + Seq::<char>::empty());
    } else {
        lemma_plain_then_slot_from(p, x, i + 1);
        assert(t[i] == p[i]);
        assert(seq![p[i]] + (p.subrange(i + 1, p.len() as int) + x) =~= p.subrange(i, p.len() as int) + x);
    }
}

/// A template of plain text followed by `{}` prints that text followed by
/// its one positional value.
pub proof fn lemma_plain_then_slot(p: Seq<char>, x: Seq<char>)
    requires
        plain_text(p),
    ensures
        instantiate(p + default_template(), seq![x], Seq::empty()) == Some(p + x),
{
    reveal_strlit("{}");
    assert(default_template() =~= seq!['{', '}']);
    lemma_plain_then_slot_from(p, x, 0);
    assert(p.subrange(0, p.len() as int) =~= p);
}

/// The default template prints its one value unchanged.
pub proof fn lemma_default_template_shows_value(x: Seq<char>)
    ensures
        instantiate(default_template(), seq![x], Seq::empty()) == Some(x),
{
    lemma_plain_then_slot(Seq::empty(), x);
    assert(Seq::<char>::empty() + default_template() =~= default_template());
    assert(Seq::<char>::empty() + x =~= x);
}

/// A single payload without a template of its own prints exactly the text
/// of its payload, and so does the enum when it has no type-level template.
pub proof fn lemma_single_payload_shows_payload(c: VariantModel, shown: Seq<char>)
    requires
        c matches VariantModel::SingleType { format: None, .. },
    ensures
        render_variant(c, seq![shown]) == Some(shown),
        render_enum(None, c, seq![shown]) == Some(shown),
{
    lemma_default_template_shows_value(shown);
}

/// A type-level template of plain text followed by `{}` prints that text
/// followed by the text of the matched variant.
pub proof fn lemma_type_level_composition(prefix: Seq<char>, c: VariantModel, values: Seq<Seq<char>>)
    requires
        plain_text(prefix),
        render_variant(c, values) is Some,
    ensures
        render_enum(Some(prefix + default_template()), c, values) == Some(prefix + render_variant(c, values)->Some_0),
{
    lemma_plain_then_slot(prefix, render_variant(c, values)->Some_0);
}

} // verus!
