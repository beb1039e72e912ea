//! Host module generation from a Rust crate: the Rust types a binding can carry,
//! the rules that decide which bindings are kept, and the names the generated
//! modules use.
use vstd::prelude::*;

use crate::text::{
    lemma_text_less_irreflexive, lemma_text_less_total, lemma_text_less_trans, push_char, push_str, str_eq,
    text_less, text_less_exec,
};

verus! {

/// What to generate: the crate's bindings, under the module name given or, by
/// default, the crate's name with `_` for `-`.
#[derive(Debug, Clone)]
pub struct HostGenOptions {
    pub crate_name: String,
    pub module_name: Option<String>,
}

/// What was generated: the module, the number of declarations, the exports left
/// out with the reason, and the two files written.
#[derive(Debug, Clone)]
pub struct HostGenResult {
    pub module_name: String,
    pub declarations: usize,
    pub skipped: Vec<String>,
    pub kiro_path: String,
    pub rust_path: String,
}

/// Where a dependency's library is and what Cargo calls it.
#[derive(Debug, Clone)]
pub struct ResolvedCrate {
    pub root: String,
    pub manifest_path: String,
    pub package_name: String,
    pub version: String,
}

/// Whether a record is passed by value or viewed through a borrow.
#[derive(Debug, Clone, Copy, PartialEq, Eq, Structural)]
pub enum RecordMode {
    Owned,
    InputView,
}

/// A Rust type that a binding can carry across to Kiro.
#[derive(Debug)]
pub enum RustType {
    Str { borrowed: bool },
    Bytes { borrowed: bool },
    Num { rust: String },
    Bool,
    Void,
    List(Box<RustType>),
    MapOf(Box<RustType>),
    StringEnum(String),
    VectorValues { owned: bool },
    OutputBuffer,
    Record { name: String, mode: RecordMode },
    Handle(String),
}

/// A parameter of a binding: its Kiro name, its Rust name and its type.
#[derive(Debug)]
pub struct Param {
    pub name: String,
    pub rust_name: String,
    pub rust_type: RustType,
}

/// What a binding calls.
#[derive(Debug)]
pub enum BindingSource {
    CrateFunction { path: String },
    Constructor { path: String },
    Method { crate_ident: String, method_name: String, receiver_mutable: bool, receiver_consuming: bool },
    ManualFunction { module: String, function: String },
}

/// A function exported to Kiro.
#[derive(Debug)]
pub struct Binding {
    pub exported_name: String,
    pub source: BindingSource,
    pub params: Vec<Param>,
    pub return_type: RustType,
    pub can_error: bool,
    pub error_name: Option<String>,
    pub output_buffer: Option<String>,
    pub pure: bool,
}

/// A field of a record.
#[derive(Debug)]
pub struct RecordField {
    pub name: String,
    pub rust_type: RustType,
}

/// A record type and its fields.
#[derive(Debug)]
pub struct RecordDef {
    pub mode: RecordMode,
    pub fields: Vec<RecordField>,
}

/// Whether a type carries a vector of values, at any depth of lists and maps.
pub open spec fn uses_vector_values_spec(t: RustType) -> bool
    decreases t,
{
    match t {
        RustType::VectorValues { .. } => true,
        RustType::List(inner) => uses_vector_values_spec(*inner),
        RustType::MapOf(inner) => uses_vector_values_spec(*inner),
        _ => false,
    }
}

pub fn type_uses_vector_values(t: &RustType) -> (r: bool)
    ensures
        r == uses_vector_values_spec(*t),
    decreases t,
{
    match t {
        RustType::VectorValues { .. } => true,
        RustType::List(inner) => type_uses_vector_values(inner),
        RustType::MapOf(inner) => type_uses_vector_values(inner),
        _ => false,
    }
}

/// Whether a type is carried as an opaque value rather than converted.
pub fn contains_opaque_type(t: &RustType) -> (r: bool)
    ensures
        r == (match *t {
            RustType::Handle(_) | RustType::Record { .. } | RustType::List(_) | RustType::MapOf(_)
            | RustType::OutputBuffer | RustType::Void => true,
            RustType::VectorValues { owned } => !owned,
            _ => false,
        }),
{
    match t {
        RustType::Handle(_) | RustType::Record { .. } | RustType::List(_) | RustType::MapOf(_)
        | RustType::OutputBuffer | RustType::Void => true,
        RustType::Str { .. } | RustType::Bytes { .. } | RustType::Num { .. } | RustType::Bool
        | RustType::StringEnum(_) => false,
        RustType::VectorValues { owned } => !*owned,
    }
}

/// Whether a type borrows, at any depth of lists and maps.
pub open spec fn borrows(t: RustType) -> bool
    decreases t,
{
    match t {
        RustType::Str { borrowed } => borrowed,
        RustType::Bytes { borrowed } => borrowed,
        RustType::List(inner) => borrows(*inner),
        RustType::MapOf(inner) => borrows(*inner),
        RustType::VectorValues { owned } => !owned,
        _ => false,
    }
}

pub fn contains_borrowed_type(t: &RustType) -> (r: bool)
    ensures
        r == borrows(*t),
    decreases t,
{
    match t {
        RustType::Str { borrowed } => *borrowed,
        RustType::Bytes { borrowed } => *borrowed,
        RustType::List(inner) => contains_borrowed_type(inner),
        RustType::MapOf(inner) => contains_borrowed_type(inner),
        RustType::VectorValues { owned } => !*owned,
        _ => false,
    }
}

/// Why a type cannot be returned, if it cannot: a borrowed record or a borrowed
/// vector of values, at any depth of lists and maps.
pub open spec fn input_view_return_error(t: RustType) -> Option<Seq<char>>
    decreases t,
{
    match t {
        RustType::Record { mode: RecordMode::InputView, .. } => Some("borrowed record returns are unsupported"@),
        RustType::VectorValues { owned: false } => Some("borrowed vector value returns are unsupported"@),
        RustType::List(inner) => input_view_return_error(*inner),
        RustType::MapOf(inner) => input_view_return_error(*inner),
        _ => None,
    }
}

pub fn reject_input_view_return(t: &RustType) -> (r: Result<(), String>)
    ensures
        match input_view_return_error(*t) {
            None => r is Ok,
            Some(m) => r matches Err(e) && e@ == m,
        },
    decreases t,
{
    match t {
        RustType::Record { mode: RecordMode::InputView, .. } => Err(String::from_str("borrowed record returns are unsupported")),
        RustType::VectorValues { owned: false } => Err(String::from_str("borrowed vector value returns are unsupported")),
        RustType::List(inner) => reject_input_view_return(inner),
        RustType::MapOf(inner) => reject_input_view_return(inner),
        _ => Ok(()),
    }
}

/// The positions of the mutable output buffers among the parameters.
pub open spec fn buffer_positions(ps: Seq<Param>) -> Seq<int>
    decreases ps.len(),
{
    if ps.len() == 0 {
        Seq::empty()
    } else if ps.last().rust_type is OutputBuffer {
        buffer_positions(ps.drop_last()).push(ps.len() - 1)
    } else {
        buffer_positions(ps.drop_last())
    }
}

proof fn lemma_buffer_positions_bounds(ps: Seq<Param>)
    ensures
        forall|k: int| 0 <= k < buffer_positions(ps).len() ==> 0 <= #[trigger] buffer_positions(ps)[k] < ps.len()
            && ps[buffer_positions(ps)[k]].rust_type is OutputBuffer,
    decreases ps.len(),
{
    if ps.len() > 0 {
        lemma_buffer_positions_bounds(ps.drop_last());
    }
}

/// The Rust `usize` among number types.
pub open spec fn is_usize(t: RustType) -> bool {
    match t {
        RustType::Num { rust } => rust@ == "usize"@,
        _ => false,
    }
}

/// A function that fills a mutable byte buffer and returns the length written is
/// exported as one returning the bytes: with no buffer nothing changes; with one,
/// the return must be `usize`, becomes owned bytes, and the buffer's Rust name is
/// given back; more than one is refused.
pub fn adapt_output_buffer(params: &Vec<Param>, return_type: &mut RustType) -> (r: Result<Option<String>, String>)
    ensures
        buffer_positions(params@).len() == 0 ==> (r matches Ok(None) && *final(return_type) == *old(return_type)),
        buffer_positions(params@).len() > 1 ==> (r matches Err(e) && e@ == "multiple mutable output buffers are unsupported"@
            && *final(return_type) == *old(return_type)),
        buffer_positions(params@).len() == 1 ==> if is_usize(*old(return_type)) {
            &&& r matches Ok(Some(n)) && n@ == params@[buffer_positions(params@)[0]].rust_name@
            &&& *final(return_type) == (RustType::Bytes { borrowed: false })
        } else {
            &&& r matches Err(e) && e@ == "mutable output buffer requires a usize return"@
            &&& *final(return_type) == *old(return_type)
        },
{
    let ghost ps = params@;
    let mut first: Option<usize> = None;
    let mut second = false;
    let mut i: usize = 0;
    proof {
        lemma_buffer_positions_bounds(ps);
    }
    while i < params.len()
        invariant
            ps == params@,
            i <= ps.len(),
            buffer_positions(ps.subrange(0, i as int)).len() == 0 ==> first is None && !second,
            buffer_positions(ps.subrange(0, i as int)).len() >= 1 ==> (first matches Some(k)
                && k as int == buffer_positions(ps.subrange(0, i as int))[0]),
            second == (buffer_positions(ps.subrange(0, i as int)).len() > 1),
        decreases params.len() - i,
    {
        proof {
            let pre = ps.subrange(0, i + 1);
            assert(pre.drop_last() =~= ps.subrange(0, i as int));
            assert(pre.last() == ps[i as int]);
            lemma_positions_prefix(ps, i as int);
        }
        if let RustType::OutputBuffer = params[i].rust_type {
            if first.is_none() {
                first = Some(i);
            } else {
                second = true;
            }
        }
        i += 1;
    }
    proof {
        assert(ps.subrange(0, ps.len() as int) =~= ps);
    }
    let k = match first {
        None => return Ok(None),
        Some(k) => k,
    };
    if second {
        return Err(String::from_str("multiple mutable output buffers are unsupported"));
    }
    let usize_return = match &*return_type {
        RustType::Num { rust } => str_eq(rust.as_str(), "usize"),
        _ => false,
    };
    if !usize_return {
        return Err(String::from_str("mutable output buffer requires a usize return"));
    }
    let name = params[k].rust_name.clone();
    *return_type = RustType::Bytes { borrowed: false };
    Ok(Some(name))
}

proof fn lemma_positions_prefix(ps: Seq<Param>, i: int)
    requires
        0 <= i < ps.len(),
    ensures
        buffer_positions(ps.subrange(0, i + 1)) == (if ps[i].rust_type is OutputBuffer {
            buffer_positions(ps.subrange(0, i)).push(i)
        } else {
            buffer_positions(ps.subrange(0, i))
        }),
{
    assert(ps.subrange(0, i + 1).drop_last() =~= ps.subrange(0, i));
}

/// A name Kiro accepts: lower-case ASCII letters and `_`, at least one.
pub open spec fn kiro_identifier(name: Seq<char>) -> bool {
    name.len() > 0 && forall|i: int| 0 <= i < name.len() ==> name[i] == '_' || ('a' <= #[trigger] name[i] && name[i] <= 'z')
}

pub fn is_kiro_identifier(name: &str) -> (r: bool)
    ensures
        r == kiro_identifier(name@),
{
    let cs = crate::text::chars_of(name);
    if cs.len() == 0 {
        return false;
    }
    let mut i: usize = 0;
    while i < cs.len()
        invariant
            cs@ == name@,
            i <= cs@.len(),
            forall|j: int| 0 <= j < i ==> cs@[j] == '_' || ('a' <= #[trigger] cs@[j] && cs@[j] <= 'z'),
        decreases cs.len() - i,
    {
        let c = cs[i];
        if !(c == '_' || ('a' <= c && c <= 'z')) {
            return false;
        }
        i += 1;
    }
    true
}

/// The lower-case letter of an upper-case ASCII letter; any other character as it is.
pub open spec fn ascii_lower(c: char) -> char {
    if 'A' <= c && c <= 'Z' {
        ((c as u32) + 32) as char
    } else {
        c
    }
}

/// The lower-case letter of an upper-case ASCII letter; any other character as it is.
fn to_ascii_lowercase(c: char) -> (r: char)
    ensures
        r == ascii_lower(c),
{
    if 'A' <= c && c <= 'Z' {
        let b: u8 = c as u8;
        (b + 32) as char
    } else {
        c
    }
}

/// A name in `snake_case`: each upper-case ASCII letter becomes its lower-case
/// letter, with `_` before it unless it is the first character.
pub open spec fn snake_case(name: Seq<char>) -> Seq<char>
    decreases name.len(),
{
    if name.len() == 0 {
        Seq::empty()
    } else {
        let c = name.last();
        let rest = snake_case(name.drop_last());
        if 'A' <= c && c <= 'Z' {
            if name.len() > 1 {
                rest.push('_').push(ascii_lower(c))
            } else {
                rest.push(ascii_lower(c))
            }
        } else {
            rest.push(c)
        }
    }
}

pub fn to_snake_case(name: &str) -> (r: String)
    ensures
        r@ == snake_case(name@),
{
    let cs = crate::text::chars_of(name);
    let mut out = String::new();
    let mut i: usize = 0;
    while i < cs.len()
        invariant
            cs@ == name@,
            i <= cs@.len(),
            out@ == snake_case(cs@.subrange(0, i as int)),
        decreases cs.len() - i,
    {
        let c = cs[i];
        proof {
            assert(cs@.subrange(0, i + 1).drop_last() =~= cs@.subrange(0, i as int));
            assert(cs@.subrange(0, i + 1).last() == c);
        }
        if 'A' <= c && c <= 'Z' {
            if i > 0 {
                push_char(&mut out, '_');
            }
            push_char(&mut out, to_ascii_lowercase(c));
        } else {
            push_char(&mut out, c);
        }
        i += 1;
    }
    proof {
        assert(cs@.subrange(0, cs@.len() as int) =~= cs@);
    }
    out
}

/// The module that holds a host module's hand-written exports.
pub fn manual_module_name(module_name: &str) -> (r: String)
    ensures
        r@ == "__kiro_manual_"@ + module_name@,
{
    let mut r = String::from_str("__kiro_manual_");
    push_str(&mut r, module_name);
    r
}

/// The text before the first `::`, or all of it.
pub open spec fn first_path_segment(s: Seq<char>) -> Seq<char>
    decreases s.len(),
{
    if s.len() < 2 {
        s
    } else if s[0] == ':' && s[1] == ':' {
        Seq::empty()
    } else {
        seq![s[0]] + first_path_segment(s.subrange(1, s.len() as int))
    }
}

fn first_segment(s: &str) -> (r: String)
    ensures
        r@ == first_path_segment(s@),
{
    let cs = crate::text::chars_of(s);
    let mut i: usize = 0;
    proof {
        assert(cs@.subrange(0, cs@.len() as int) =~= cs@);
        assert(cs@.subrange(0, 0) + first_path_segment(cs@) =~= first_path_segment(cs@));
    }
    while cs.len() - i > 1 && !(cs[i] == ':' && cs[i + 1] == ':')
        invariant
            cs@ == s@,
            i <= cs@.len(),
            first_path_segment(s@) == cs@.subrange(0, i as int) + first_path_segment(cs@.subrange(i as int, cs@.len() as int)),
        decreases cs.len() - i,
    {
        proof {
            let t = cs@.subrange(i as int, cs@.len() as int);
            assert(t.subrange(1, t.len() as int) =~= cs@.subrange(i + 1, cs@.len() as int));
            assert(cs@.subrange(0, i + 1) =~= cs@.subrange(0, i as int) + seq![t[0]]);
        }
        i += 1;
    }
    let mut r = String::new();
    let mut j: usize = 0;
    let end: usize = if cs.len() - i > 1 { i } else { cs.len() };
    proof {
        let t = cs@.subrange(i as int, cs@.len() as int);
        if i + 1 < cs@.len() {
            assert(first_path_segment(t) == Seq::<char>::empty());
            assert(cs@.subrange(0, i as int) + Seq::<char>::empty() =~= cs@.subrange(0, i as int));
        } else {
            assert(first_path_segment(t) == t);
            assert(cs@.subrange(0, i as int) + t =~= cs@.subrange(0, cs@.len() as int));
        }
    }
    while j < end
        invariant
            cs@ == s@,
            end <= cs@.len(),
            j <= end,
            r@ == cs@.subrange(0, j as int),
        decreases end - j,
    {
        push_char(&mut r, cs[j]);
        proof {
            assert(r@ =~= cs@.subrange(0, j + 1));
        }
        j += 1;
    }
    r
}

/// The Rust path of a handle type as glue names it: under the crate a binding
/// comes from, or under the hand-written module.
pub open spec fn handle_payload_text(source: BindingSource, handle_type: Seq<char>) -> Seq<char> {
    match source {
        BindingSource::Method { crate_ident, .. } => first_path_segment(crate_ident@) + "::"@ + handle_type,
        BindingSource::CrateFunction { path } => first_path_segment(path@) + "::"@ + handle_type,
        BindingSource::Constructor { path } => first_path_segment(path@) + "::"@ + handle_type,
        BindingSource::ManualFunction { module, .. } => module@ + "::"@ + handle_type,
    }
}

pub fn handle_payload_type(binding: &Binding, handle_type: &str) -> (r: String)
    ensures
        r@ == handle_payload_text(binding.source, handle_type@),
{
    let mut r = match &binding.source {
        BindingSource::Method { crate_ident, .. } => first_segment(crate_ident.as_str()),
        BindingSource::CrateFunction { path } => first_segment(path.as_str()),
        BindingSource::Constructor { path } => first_segment(path.as_str()),
        BindingSource::ManualFunction { module, .. } => String::from_str(module.as_str()),
    };
    push_str(&mut r, "::");
    push_str(&mut r, handle_type);
    r
}

/// A simple enum exported as strings: its variants.
#[derive(Debug)]
pub struct SimpleEnumDef {
    pub variants: Vec<String>,
}

/// The names in a list of names.
pub open spec fn name_set(v: Seq<String>) -> Set<Seq<char>> {
    Set::new(|x: Seq<char>| exists|i: int| 0 <= i < v.len() && v[i]@ == x)
}

/// The names come in the order of their characters, none twice: a list kept as a set.
pub open spec fn sorted_names(v: Seq<String>) -> bool {
    forall|i: int, j: int| 0 <= i < j < v.len() ==> text_less(#[trigger] v[i]@, #[trigger] v[j]@)
}

/// The texts of a list of strings.
pub open spec fn texts(v: Seq<String>) -> Seq<Seq<char>> {
    v.map_values(|s: String| s@)
}

/// Whether a name is in a list of names.
pub fn has_name(v: &Vec<String>, n: &str) -> (r: bool)
    ensures
        r == name_set(v@).contains(n@),
{
    let mut i: usize = 0;
    while i < v.len()
        invariant
            i <= v@.len(),
            forall|j: int| 0 <= j < i ==> (#[trigger] v@[j])@ != n@,
        decreases v.len() - i,
    {
        if str_eq(v[i].as_str(), n) {
            proof {
                assert(name_set(v@).contains(n@));
            }
            return true;
        }
        i += 1;
    }
    false
}

/// Adds a name to a sorted list of names, in its place, unless it is there.
fn add_name(v: &mut Vec<String>, n: &str)
    requires
        sorted_names(old(v)@),
    ensures
        sorted_names(final(v)@),
        name_set(final(v)@) == name_set(old(v)@).insert(n@),
{
    let mut p: usize = 0;
    while p < v.len() && text_less_exec(v[p].as_str(), n)
        invariant
            p <= v@.len(),
            forall|i: int| 0 <= i < p ==> text_less(#[trigger] v@[i]@, n@),
        decreases v.len() - p,
    {
        p += 1;
    }
    if p < v.len() && str_eq(v[p].as_str(), n) {
        proof {
            assert(name_set(v@).contains(n@));
            assert(name_set(v@) =~= name_set(v@).insert(n@));
        }
        return;
    }
    let ghost before = v@;
    proof {
        assert forall|k: int| p <= k < before.len() implies text_less(n@, #[trigger] before[k]@) by {
            lemma_text_less_total(n@, before[p as int]@);
            if k > p {
                lemma_text_less_trans(n@, before[p as int]@, before[k]@);
            }
        }
    }
    v.insert(p, String::from_str(n));
    proof {
        let w = v@;
        assert(w =~= before.insert(p as int, w[p as int]));
        assert forall|i: int, j: int| 0 <= i < j < w.len() implies text_less(#[trigger] w[i]@, #[trigger] w[j]@) by {
            if j < p {
                assert(w[i] == before[i] && w[j] == before[j]);
            } else if j == p {
                assert(w[i] == before[i]);
            } else if i < p {
                assert(w[i] == before[i] && w[j] == before[j - 1]);
                lemma_text_less_trans(before[i]@, n@, before[j - 1]@);
            } else if i == p {
                assert(w[j] == before[j - 1]);
            } else {
                assert(w[i] == before[i - 1] && w[j] == before[j - 1]);
            }
        }
        assert forall|x: Seq<char>| name_set(w).contains(x) <==> name_set(before).insert(n@).contains(x) by {
            if name_set(w).contains(x) {
                let i = choose|i: int| 0 <= i < w.len() && w[i]@ == x;
                if i < p {
                    assert(w[i] == before[i]);
                } else if i > p {
                    assert(w[i] == before[i - 1]);
                }
            }
            if name_set(before).contains(x) {
                let i = choose|i: int| 0 <= i < before.len() && before[i]@ == x;
                if i < p {
                    assert(w[i] == before[i]);
                } else {
                    assert(w[i + 1] == before[i]);
                }
            }
            if x == n@ {
                assert(w[p as int]@ == n@);
            }
        }
        assert(name_set(w) =~= name_set(before).insert(n@));
    }
}

/// The handle types a type names, at any depth of lists and maps.
pub open spec fn handle_names(t: RustType) -> Set<Seq<char>>
    decreases t,
{
    match t {
        RustType::Handle(n) => Set::empty().insert(n@),
        RustType::List(inner) => handle_names(*inner),
        RustType::MapOf(inner) => handle_names(*inner),
        _ => Set::empty(),
    }
}

/// Adds the handle types a type names to a sorted list of names.
pub fn collect_handle_names(t: &RustType, handles: &mut Vec<String>)
    requires
        sorted_names(old(handles)@),
    ensures
        sorted_names(final(handles)@),
        name_set(final(handles)@) == name_set(old(handles)@).union(handle_names(*t)),
    decreases t,
{
    match t {
        RustType::Handle(n) => {
            add_name(handles, n.as_str());
            proof {
                assert(name_set(old(handles)@).insert(n@) =~= name_set(old(handles)@).union(handle_names(*t)));
            }
        },
        RustType::List(inner) => collect_handle_names(inner, handles),
        RustType::MapOf(inner) => collect_handle_names(inner, handles),
        _ => {
            proof {
                assert(name_set(handles@) =~= name_set(handles@).union(handle_names(*t)));
            }
        },
    }
}

/// The handle types the parameters name.
pub open spec fn params_handles(ps: Seq<Param>) -> Set<Seq<char>>
    decreases ps.len(),
{
    if ps.len() == 0 {
        Set::empty()
    } else {
        params_handles(ps.drop_last()).union(handle_names(ps.last().rust_type))
    }
}

/// The handle types a binding names, in its parameters or its return type.
pub open spec fn binding_handles(b: Binding) -> Set<Seq<char>> {
    params_handles(b.params@).union(handle_names(b.return_type))
}

fn collect_binding_handles(b: &Binding, handles: &mut Vec<String>)
    requires
        sorted_names(old(handles)@),
    ensures
        sorted_names(final(handles)@),
        name_set(final(handles)@) == name_set(old(handles)@).union(binding_handles(*b)),
{
    let ghost start = name_set(handles@);
    let mut i: usize = 0;
    proof {
        assert(start =~= start.union(params_handles(b.params@.subrange(0, 0))));
    }
    while i < b.params.len()
        invariant
            i <= b.params@.len(),
            sorted_names(handles@),
            name_set(handles@) == start.union(params_handles(b.params@.subrange(0, i as int))),
        decreases b.params.len() - i,
    {
        let ghost before = name_set(handles@);
        collect_handle_names(&b.params[i].rust_type, handles);
        proof {
            let pre = b.params@.subrange(0, i + 1);
            assert(pre.drop_last() =~= b.params@.subrange(0, i as int));
            assert(pre.last() == b.params@[i as int]);
            assert(name_set(handles@) =~= start.union(params_handles(pre)));
        }
        i += 1;
    }
    proof {
        assert(b.params@.subrange(0, b.params@.len() as int) =~= b.params@);
    }
    let ghost mid = name_set(handles@);
    collect_handle_names(&b.return_type, handles);
    proof {
        assert(name_set(handles@) =~= start.union(binding_handles(*b)));
    }
}

/// The least of a set of names in the order of their characters.
pub open spec fn least_name(s: Set<Seq<char>>) -> Seq<char> {
    choose|h: Seq<char>| s.contains(h) && forall|g: Seq<char>| s.contains(g) ==> !text_less(g, h)
}

proof fn lemma_least_name(s: Set<Seq<char>>, h: Seq<char>)
    requires
        s.contains(h),
        forall|g: Seq<char>| s.contains(g) ==> !text_less(g, h),
    ensures
        least_name(s) == h,
{
    let l = least_name(s);
    assert(s.contains(l) && forall|g: Seq<char>| s.contains(g) ==> !text_less(g, l));
    lemma_text_less_total(l, h);
}

/// The handle types that a binding names and that are also in `inc`.
pub open spec fn common_handles(b: Binding, inc: Set<Seq<char>>) -> Set<Seq<char>> {
    binding_handles(b).intersect(inc)
}

/// The least handle type that a binding names among those in `inc`, if any.
fn least_common_handle(b: &Binding, inc: &Vec<String>) -> (r: Option<String>)
    ensures
        match r {
            None => forall|h: Seq<char>| !common_handles(*b, name_set(inc@)).contains(h),
            Some(h) => common_handles(*b, name_set(inc@)).contains(h@)
                && least_name(common_handles(*b, name_set(inc@))) == h@,
        },
{
    let mut referenced: Vec<String> = Vec::new();
    proof {
        assert(name_set(referenced@) =~= Set::<Seq<char>>::empty());
    }
    collect_binding_handles(b, &mut referenced);
    let ghost common = common_handles(*b, name_set(inc@));
    let mut best: Option<usize> = None;
    let mut i: usize = 0;
    while i < referenced.len()
        invariant
            i <= referenced@.len(),
            name_set(referenced@) == binding_handles(*b),
            common == common_handles(*b, name_set(inc@)),
            match best {
                None => forall|j: int| 0 <= j < i ==> !name_set(inc@).contains(#[trigger] referenced@[j]@),
                Some(k) => k < i && common.contains(referenced@[k as int]@)
                    && forall|j: int| 0 <= j < i && name_set(inc@).contains(#[trigger] referenced@[j]@)
                        ==> !text_less(referenced@[j]@, referenced@[k as int]@),
            },
        decreases referenced.len() - i,
    {
        if has_name(inc, referenced[i].as_str()) {
            proof {
                assert(name_set(referenced@).contains(referenced@[i as int]@));
            }
            match best {
                None => {
                    proof {
                        lemma_text_less_irreflexive(referenced@[i as int]@);
                    }
                    best = Some(i);
                },
                Some(k) => {
                    if text_less_exec(referenced[i].as_str(), referenced[k].as_str()) {
                        proof {
                            lemma_text_less_irreflexive(referenced@[i as int]@);
                            assert forall|j: int| 0 <= j < i + 1 && name_set(inc@).contains(#[trigger] referenced@[j]@)
                                implies !text_less(referenced@[j]@, referenced@[i as int]@) by {
                                if j < i {
                                    if text_less(referenced@[j]@, referenced@[i as int]@) {
                                        lemma_text_less_trans(referenced@[j]@, referenced@[i as int]@, referenced@[k as int]@);
                                    }
                                }
                            }
                        }
                        best = Some(i);
                    }
                },
            }
        }
        i += 1;
    }
    match best {
        None => {
            proof {
                assert forall|h: Seq<char>| !common.contains(h) by {
                    if common.contains(h) {
                        assert(name_set(referenced@).contains(h));
                        let j = choose|j: int| 0 <= j < referenced@.len() && referenced@[j]@ == h;
                        assert(name_set(inc@).contains(referenced@[j]@));
                    }
                }
            }
            None
        },
        Some(k) => {
            proof {
                assert forall|g: Seq<char>| common.contains(g) implies !text_less(g, referenced@[k as int]@) by {
                    assert(name_set(referenced@).contains(g));
                    let j = choose|j: int| 0 <= j < referenced@.len() && referenced@[j]@ == g;
                    assert(name_set(inc@).contains(referenced@[j]@));
                }
                lemma_least_name(common, referenced@[k as int]@);
            }
            Some(referenced[k].clone())
        },
    }
}

/// The names a list keeps after those in `inc` are taken out, in order.
pub open spec fn without_names(v: Seq<String>, inc: Set<Seq<char>>) -> Seq<Seq<char>>
    decreases v.len(),
{
    if v.len() == 0 {
        Seq::empty()
    } else if inc.contains(v.last()@) {
        without_names(v.drop_last(), inc)
    } else {
        without_names(v.drop_last(), inc).push(v.last()@)
    }
}

/// Takes the names in `inc` out of a sorted list of names, keeping the order of the rest.
fn retain_names(v: &mut Vec<String>, inc: &Vec<String>)
    requires
        sorted_names(old(v)@),
    ensures
        texts(final(v)@) == without_names(old(v)@, name_set(inc@)),
        sorted_names(final(v)@),
{
    let ghost all = v@;
    let mut rest: Vec<String> = Vec::new();
    std::mem::swap(v, &mut rest);
    let ghost mut taken: int = 0;
    proof {
        assert(texts(v@) =~= without_names(all.subrange(0, 0), name_set(inc@)));
    }
    while rest.len() > 0
        invariant
            0 <= taken <= all.len(),
            sorted_names(all),
            rest@ == all.subrange(taken, all.len() as int),
            texts(v@) == without_names(all.subrange(0, taken), name_set(inc@)),
            sorted_names(v@),
            forall|j: int| 0 <= j < v@.len() ==> exists|k: int| 0 <= k < taken && (#[trigger] v@[j])@ == all[k]@,
        decreases rest.len(),
    {
        let x = rest.remove(0);
        let ghost before = v@;
        proof {
            let pre = all.subrange(0, taken + 1);
            assert(pre.drop_last() =~= all.subrange(0, taken));
            assert(pre.last() == x);
            assert(rest@ =~= all.subrange(taken + 1, all.len() as int));
        }
        if !has_name(inc, x.as_str()) {
            v.push(x);
            proof {
                assert(texts(v@) =~= texts(before).push(x@));
                assert forall|i: int, j: int| 0 <= i < j < v@.len() implies text_less(#[trigger] v@[i]@, #[trigger] v@[j]@) by {
                    if j == before.len() {
                        assert(v@[i] == before[i]);
                        let k = choose|k: int| 0 <= k < taken && before[i]@ == all[k]@;
                        assert(all[taken] == x);
                        assert(text_less(all[k]@, all[taken]@));
                    } else {
                        assert(v@[i] == before[i] && v@[j] == before[j]);
                    }
                }
                assert forall|j: int| 0 <= j < v@.len() implies exists|k: int| 0 <= k < taken + 1 && (#[trigger] v@[j])@ == all[k]@ by {
                    if j < before.len() {
                        assert(v@[j] == before[j]);
                        let k = choose|k: int| 0 <= k < taken && before[j]@ == all[k]@;
                        assert(0 <= k < taken + 1 && v@[j]@ == all[k]@);
                    } else {
                        assert(v@[j]@ == all[taken]@);
                    }
                }
            }
        } else {
            proof {
                assert forall|j: int| 0 <= j < v@.len() implies exists|k: int| 0 <= k < taken + 1 && (#[trigger] v@[j])@ == all[k]@ by {
                    let k = choose|k: int| 0 <= k < taken && v@[j]@ == all[k]@;
                    assert(0 <= k < taken + 1 && v@[j]@ == all[k]@);
                }
            }
        }
        proof {
            taken = taken + 1;
        }
    }
    proof {
        assert(all.subrange(0, taken) =~= all);
    }
}

/// Collects what a crate exports to Kiro and decides which of it is kept.
#[derive(Debug)]
pub struct Collector {
    pub bindings: Vec<Binding>,
    pub handles: Vec<String>,
    pub copy_handles: Vec<String>,
    pub mutable_handles: Vec<String>,
    pub consuming_handles: Vec<String>,
    pub records: Vec<(String, RecordDef)>,
    pub simple_enums: Vec<(String, SimpleEnumDef)>,
    pub skipped: Vec<String>,
    pub crate_ident: String,
    pub manual_module: String,
    pub is_zova: bool,
}

/// The message of a binding left out for a handle that is not thread-safe.
pub open spec fn unsafe_handle_text(name: Seq<char>, handle: Seq<char>) -> Seq<char> {
    name + ": handle '"@ + handle + "' does not satisfy the Kiro handle thread-safety contract"@
}

/// The bindings kept when the handles in `inc` are taken out, and the messages of
/// those left out, both in order.
pub open spec fn split_incompatible(bs: Seq<Binding>, inc: Set<Seq<char>>) -> (Seq<Binding>, Seq<Seq<char>>)
    decreases bs.len(),
{
    if bs.len() == 0 {
        (Seq::empty(), Seq::empty())
    } else {
        let (kept, msgs) = split_incompatible(bs.drop_last(), inc);
        let b = bs.last();
        if exists|h: Seq<char>| common_handles(b, inc).contains(h) {
            (kept, msgs.push(unsafe_handle_text(b.exported_name@, least_name(common_handles(b, inc)))))
        } else {
            (kept.push(b), msgs)
        }
    }
}

/// The parameter at `index` is a handle passed by value that is not `Copy`; a
/// method's receiver is not counted.
pub open spec fn unsupported_at(p: Param, index: int, method: bool, copy: Set<Seq<char>>) -> Option<Seq<char>> {
    match p.rust_type {
        RustType::Handle(t) => if (index == 0 && method) || copy.contains(t@) { None } else { Some(t@) },
        _ => None,
    }
}

/// The first parameter, from `from` on, that is an unsupported by-value handle.
pub open spec fn first_unsupported(ps: Seq<Param>, from: int, method: bool, copy: Set<Seq<char>>) -> Option<Seq<char>>
    decreases ps.len() - from,
{
    if from < 0 || from >= ps.len() {
        None
    } else {
        match unsupported_at(ps[from], from, method, copy) {
            Some(t) => Some(t),
            None => first_unsupported(ps, from + 1, method, copy),
        }
    }
}

/// The message of a binding left out for a by-value handle that is not `Copy`.
pub open spec fn by_value_text(name: Seq<char>, handle: Seq<char>) -> Seq<char> {
    name + ": by-value handle '"@ + handle + "' is unsupported unless it is Copy"@
}

/// The bindings kept when by-value handles must be `Copy`, and the messages of
/// those left out, both in order.
pub open spec fn split_by_value(bs: Seq<Binding>, copy: Set<Seq<char>>) -> (Seq<Binding>, Seq<Seq<char>>)
    decreases bs.len(),
{
    if bs.len() == 0 {
        (Seq::empty(), Seq::empty())
    } else {
        let (kept, msgs) = split_by_value(bs.drop_last(), copy);
        let b = bs.last();
        match first_unsupported(b.params@, 0, b.source is Method, copy) {
            Some(t) => (kept, msgs.push(by_value_text(b.exported_name@, t))),
            None => (kept.push(b), msgs),
        }
    }
}

/// The handle a consuming method takes as its receiver, if the binding is one.
pub open spec fn consumed_handle(b: Binding) -> Option<Seq<char>> {
    if (b.source matches BindingSource::Method { receiver_consuming, .. } && receiver_consuming) && b.params@.len() > 0 {
        match b.params@[0].rust_type {
            RustType::Handle(t) => Some(t@),
            _ => None,
        }
    } else {
        None
    }
}

/// The handles that consuming methods among the bindings take.
pub open spec fn consumed_handles(bs: Seq<Binding>) -> Set<Seq<char>>
    decreases bs.len(),
{
    if bs.len() == 0 {
        Set::empty()
    } else {
        match consumed_handle(bs.last()) {
            Some(t) => consumed_handles(bs.drop_last()).insert(t),
            None => consumed_handles(bs.drop_last()),
        }
    }
}

/// No two bindings share an exported name.
pub open spec fn distinct_exports(bs: Seq<Binding>) -> bool {
    forall|i: int, j: int| 0 <= i < j < bs.len() ==> bs[i].exported_name@ != bs[j].exported_name@
}

/// Whether a binding of the given exported name is in the list.
fn exports_name(bs: &Vec<Binding>, name: &str) -> (r: bool)
    ensures
        r == exists|i: int| 0 <= i < bs@.len() && (#[trigger] bs@[i]).exported_name@ == name@,
{
    let mut i: usize = 0;
    while i < bs.len()
        invariant
            i <= bs@.len(),
            forall|j: int| 0 <= j < i ==> (#[trigger] bs@[j]).exported_name@ != name@,
        decreases bs.len() - i,
    {
        if str_eq(bs[i].exported_name.as_str(), name) {
            return true;
        }
        i += 1;
    }
    false
}

impl Collector {
    /// The handle lists are sets of names, kept sorted.
    pub open spec fn well_formed(&self) -> bool {
        &&& sorted_names(self.handles@)
        &&& sorted_names(self.copy_handles@)
        &&& sorted_names(self.mutable_handles@)
        &&& sorted_names(self.consuming_handles@)
    }

    /// An empty collector for a crate and the module of its hand-written exports.
    pub fn new(crate_ident: &str, manual_module: &str, is_zova: bool) -> (c: Collector)
        ensures
            c.well_formed(),
            c.bindings@.len() == 0,
            c.handles@.len() == 0,
            c.copy_handles@.len() == 0,
            c.mutable_handles@.len() == 0,
            c.consuming_handles@.len() == 0,
            c.records@.len() == 0,
            c.simple_enums@.len() == 0,
            c.skipped@.len() == 0,
            c.crate_ident@ == crate_ident@,
            c.manual_module@ == manual_module@,
            c.is_zova == is_zova,
    {
        Collector {
            bindings: Vec::new(),
            handles: Vec::new(),
            copy_handles: Vec::new(),
            mutable_handles: Vec::new(),
            consuming_handles: Vec::new(),
            records: Vec::new(),
            simple_enums: Vec::new(),
            skipped: Vec::new(),
            crate_ident: String::from_str(crate_ident),
            manual_module: String::from_str(manual_module),
            is_zova,
        }
    }

    /// Adds a binding unless one of the same exported name is there; the handle
    /// types it names are recorded.
    pub fn push_binding(&mut self, binding: Binding)
        requires
            old(self).well_formed(),
        ensures
            final(self).well_formed(),
            distinct_exports(old(self).bindings@) ==> distinct_exports(final(self).bindings@),
            (exists|i: int| 0 <= i < old(self).bindings@.len() && (#[trigger] old(self).bindings@[i]).exported_name@ == binding.exported_name@)
                ==> *final(self) == *old(self),
            !(exists|i: int| 0 <= i < old(self).bindings@.len() && (#[trigger] old(self).bindings@[i]).exported_name@ == binding.exported_name@)
                ==> {
                &&& final(self).bindings@ == old(self).bindings@.push(binding)
                &&& name_set(final(self).handles@) == name_set(old(self).handles@).union(binding_handles(binding))
                &&& final(self).copy_handles == old(self).copy_handles
                &&& final(self).mutable_handles == old(self).mutable_handles
                &&& final(self).consuming_handles == old(self).consuming_handles
                &&& final(self).records == old(self).records
                &&& final(self).simple_enums == old(self).simple_enums
                &&& final(self).skipped == old(self).skipped
                &&& final(self).crate_ident == old(self).crate_ident
                &&& final(self).manual_module == old(self).manual_module
                &&& final(self).is_zova == old(self).is_zova
            },
    {
        if exports_name(&self.bindings, binding.exported_name.as_str()) {
            return;
        }
        collect_binding_handles(&binding, &mut self.handles);
        self.bindings.push(binding);
    }

    /// Leaves out the bindings that name a handle in `incompatible`, each with a
    /// message that names the least such handle, and forgets those handles.
    pub fn remove_incompatible_handles(&mut self, incompatible: &Vec<String>)
        requires
            old(self).well_formed(),
        ensures
            final(self).well_formed(),
            incompatible@.len() == 0 ==> *final(self) == *old(self),
            incompatible@.len() > 0 ==> {
                let inc = name_set(incompatible@);
                let (kept, msgs) = split_incompatible(old(self).bindings@, inc);
                &&& final(self).bindings@ == kept
                &&& texts(final(self).skipped@) == texts(old(self).skipped@) + msgs
                &&& texts(final(self).handles@) == without_names(old(self).handles@, inc)
                &&& texts(final(self).copy_handles@) == without_names(old(self).copy_handles@, inc)
                &&& texts(final(self).mutable_handles@) == without_names(old(self).mutable_handles@, inc)
                &&& texts(final(self).consuming_handles@) == without_names(old(self).consuming_handles@, inc)
                &&& final(self).records == old(self).records
                &&& final(self).simple_enums == old(self).simple_enums
                &&& final(self).crate_ident == old(self).crate_ident
                &&& final(self).manual_module == old(self).manual_module
                &&& final(self).is_zova == old(self).is_zova
            },
    {
        if incompatible.len() == 0 {
            return;
        }
        let ghost inc = name_set(incompatible@);
        let ghost all = self.bindings@;
        let ghost old_skipped = texts(self.skipped@);
        let mut rest: Vec<Binding> = Vec::new();
        std::mem::swap(&mut self.bindings, &mut rest);
        let ghost mut taken: int = 0;
        while rest.len() > 0
            invariant
                inc == name_set(incompatible@),
                self.handles == old(self).handles,
                self.copy_handles == old(self).copy_handles,
                self.mutable_handles == old(self).mutable_handles,
                self.consuming_handles == old(self).consuming_handles,
                self.records == old(self).records,
                self.simple_enums == old(self).simple_enums,
                self.crate_ident == old(self).crate_ident,
                self.manual_module == old(self).manual_module,
                self.is_zova == old(self).is_zova,
                0 <= taken <= all.len(),
                rest@ == all.subrange(taken, all.len() as int),
                self.bindings@ == split_incompatible(all.subrange(0, taken), inc).0,
                texts(self.skipped@) == old_skipped + split_incompatible(all.subrange(0, taken), inc).1,
            decreases rest.len(),
        {
            let b = rest.remove(0);
            proof {
                let pre = all.subrange(0, taken + 1);
                assert(pre.drop_last() =~= all.subrange(0, taken));
                assert(pre.last() == b);
                assert(rest@ =~= all.subrange(taken + 1, all.len() as int));
            }
            match least_common_handle(&b, incompatible) {
                Some(h) => {
                    let ghost before = texts(self.skipped@);
                    let mut m = String::from_str(b.exported_name.as_str());
                    push_str(&mut m, ": handle '");
                    push_str(&mut m, h.as_str());
                    push_str(&mut m, "' does not satisfy the Kiro handle thread-safety contract");
                    self.skipped.push(m);
                    proof {
                        assert(common_handles(b, inc).contains(h@));
                        assert(m@ =~= unsafe_handle_text(b.exported_name@, h@));
                        assert(texts(self.skipped@) =~= before.push(m@));
                    }
                },
                None => {
                    self.bindings.push(b);
                },
            }
            proof {
                taken = taken + 1;
            }
        }
        proof {
            assert(all.subrange(0, taken) =~= all);
        }
        retain_names(&mut self.handles, incompatible);
        retain_names(&mut self.copy_handles, incompatible);
        retain_names(&mut self.mutable_handles, incompatible);
        retain_names(&mut self.consuming_handles, incompatible);
    }
}

/// The first parameter that is an unsupported by-value handle.
fn unsupported_input(b: &Binding, copy: &Vec<String>) -> (r: Option<String>)
    ensures
        match first_unsupported(b.params@, 0, b.source is Method, name_set(copy@)) {
            None => r is None,
            Some(t) => r matches Some(s) && s@ == t,
        },
{
    let method = match &b.source {
        BindingSource::Method { .. } => true,
        _ => false,
    };
    let ghost ps = b.params@;
    let ghost cs = name_set(copy@);
    let mut i: usize = 0;
    while i < b.params.len()
        invariant
            ps == b.params@,
            cs == name_set(copy@),
            method == (b.source is Method),
            i <= ps.len(),
            first_unsupported(ps, 0, method, cs) == first_unsupported(ps, i as int, method, cs),
        decreases b.params.len() - i,
    {
        if let RustType::Handle(t) = &b.params[i].rust_type {
            let receiver = i == 0 && method;
            if !receiver && !has_name(copy, t.as_str()) {
                return Some(t.clone());
            }
        }
        i += 1;
    }
    None
}

/// A binding whose error type is named `Error`.
pub open spec fn fails_with_error(b: Binding) -> bool {
    b.error_name matches Some(e) && e@ == "Error"@
}

impl Collector {
    /// Leaves out the bindings that take a handle by value, other than a method's
    /// receiver, whose type is not `Copy`, each with a message; then records the
    /// handles that consuming methods of the kept bindings take.
    pub fn remove_non_copy_owned_inputs(&mut self)
        requires
            old(self).well_formed(),
        ensures
            final(self).well_formed(),
            ({
                let (kept, msgs) = split_by_value(old(self).bindings@, name_set(old(self).copy_handles@));
                &&& final(self).bindings@ == kept
                &&& texts(final(self).skipped@) == texts(old(self).skipped@) + msgs
                &&& name_set(final(self).consuming_handles@) == consumed_handles(kept)
                &&& final(self).handles == old(self).handles
                &&& final(self).copy_handles == old(self).copy_handles
                &&& final(self).mutable_handles == old(self).mutable_handles
                &&& final(self).records == old(self).records
                &&& final(self).simple_enums == old(self).simple_enums
                &&& final(self).crate_ident == old(self).crate_ident
                &&& final(self).manual_module == old(self).manual_module
                &&& final(self).is_zova == old(self).is_zova
            }),
    {
        let ghost copy = name_set(self.copy_handles@);
        let ghost all = self.bindings@;
        let ghost old_skipped = texts(self.skipped@);
        let mut rest: Vec<Binding> = Vec::new();
        std::mem::swap(&mut self.bindings, &mut rest);
        let ghost mut taken: int = 0;
        while rest.len() > 0
            invariant
                copy == name_set(self.copy_handles@),
                self.handles == old(self).handles,
                self.copy_handles == old(self).copy_handles,
                self.mutable_handles == old(self).mutable_handles,
                self.consuming_handles == old(self).consuming_handles,
                self.records == old(self).records,
                self.simple_enums == old(self).simple_enums,
                self.crate_ident == old(self).crate_ident,
                self.manual_module == old(self).manual_module,
                self.is_zova == old(self).is_zova,
                0 <= taken <= all.len(),
                rest@ == all.subrange(taken, all.len() as int),
                self.bindings@ == split_by_value(all.subrange(0, taken), copy).0,
                texts(self.skipped@) == old_skipped + split_by_value(all.subrange(0, taken), copy).1,
            decreases rest.len(),
        {
            let b = rest.remove(0);
            proof {
                let pre = all.subrange(0, taken + 1);
                assert(pre.drop_last() =~= all.subrange(0, taken));
                assert(pre.last() == b);
                assert(rest@ =~= all.subrange(taken + 1, all.len() as int));
            }
            match unsupported_input(&b, &self.copy_handles) {
                Some(t) => {
                    let ghost before = texts(self.skipped@);
                    let mut m = String::from_str(b.exported_name.as_str());
                    push_str(&mut m, ": by-value handle '");
                    push_str(&mut m, t.as_str());
                    push_str(&mut m, "' is unsupported unless it is Copy");
                    self.skipped.push(m);
                    proof {
                        assert(m@ =~= by_value_text(b.exported_name@, t@));
                        assert(texts(self.skipped@) =~= before.push(m@));
                    }
                },
                None => {
                    self.bindings.push(b);
                },
            }
            proof {
                taken = taken + 1;
            }
        }
        proof {
            assert(all.subrange(0, taken) =~= all);
        }
        let mut consuming: Vec<String> = Vec::new();
        let mut i: usize = 0;
        proof {
            assert(name_set(consuming@) =~= consumed_handles(self.bindings@.subrange(0, 0)));
        }
        while i < self.bindings.len()
            invariant
                i <= self.bindings@.len(),
                sorted_names(consuming@),
                name_set(consuming@) == consumed_handles(self.bindings@.subrange(0, i as int)),
            decreases self.bindings.len() - i,
        {
            let b = &self.bindings[i];
            proof {
                let pre = self.bindings@.subrange(0, i + 1);
                assert(pre.drop_last() =~= self.bindings@.subrange(0, i as int));
                assert(pre.last() == *b);
            }
            let consuming_method = match &b.source {
                BindingSource::Method { receiver_consuming, .. } => *receiver_consuming,
                _ => false,
            };
            if consuming_method && b.params.len() > 0 {
                if let RustType::Handle(t) = &b.params[0].rust_type {
                    add_name(&mut consuming, t.as_str());
                }
            }
            i += 1;
        }
        proof {
            assert(self.bindings@.subrange(0, self.bindings@.len() as int) =~= self.bindings@);
        }
        self.consuming_handles = consuming;
    }

    /// A handle that a consuming method takes and that is not `Copy` can be used once.
    pub fn is_one_shot_handle(&self, handle_type: &str) -> (r: bool)
        ensures
            r == (name_set(self.consuming_handles@).contains(handle_type@) && !name_set(self.copy_handles@).contains(handle_type@)),
    {
        has_name(&self.consuming_handles, handle_type) && !has_name(&self.copy_handles, handle_type)
    }

    /// The bindings or records carry a vector of values somewhere.
    pub open spec fn uses_vector_values_spec(&self) -> bool {
        ||| exists|i: int, j: int| 0 <= i < self.bindings@.len() && 0 <= j < self.bindings@[i].params@.len()
            && uses_vector_values_spec(#[trigger] self.bindings@[i].params@[j].rust_type)
        ||| exists|i: int| 0 <= i < self.bindings@.len() && uses_vector_values_spec(#[trigger] self.bindings@[i].return_type)
        ||| exists|i: int, j: int| 0 <= i < self.records@.len() && 0 <= j < self.records@[i].1.fields@.len()
            && uses_vector_values_spec(#[trigger] self.records@[i].1.fields@[j].rust_type)
    }

    pub fn uses_vector_values(&self) -> (r: bool)
        ensures
            r == self.uses_vector_values_spec(),
    {
        let mut i: usize = 0;
        while i < self.bindings.len()
            invariant
                i <= self.bindings@.len(),
                forall|a: int, j: int| 0 <= a < i && 0 <= j < self.bindings@[a].params@.len()
                    ==> !uses_vector_values_spec(#[trigger] self.bindings@[a].params@[j].rust_type),
                forall|a: int| 0 <= a < i ==> !uses_vector_values_spec(#[trigger] self.bindings@[a].return_type),
            decreases self.bindings.len() - i,
        {
            let b = &self.bindings[i];
            let mut j: usize = 0;
            while j < b.params.len()
                invariant
                    i < self.bindings@.len(),
                    j <= b.params@.len(),
                    *b == self.bindings@[i as int],
                    forall|k: int| 0 <= k < j ==> !uses_vector_values_spec(#[trigger] b.params@[k].rust_type),
                decreases b.params.len() - j,
            {
                if type_uses_vector_values(&b.params[j].rust_type) {
                    proof {
                        assert(uses_vector_values_spec(self.bindings@[i as int].params@[j as int].rust_type));
                    }
                    return true;
                }
                j += 1;
            }
            if type_uses_vector_values(&b.return_type) {
                proof {
                    assert(uses_vector_values_spec(self.bindings@[i as int].return_type));
                }
                return true;
            }
            i += 1;
        }
        let mut i: usize = 0;
        while i < self.records.len()
            invariant
                i <= self.records@.len(),
                !(exists|a: int, j: int| 0 <= a < self.bindings@.len() && 0 <= j < self.bindings@[a].params@.len()
                    && uses_vector_values_spec(#[trigger] self.bindings@[a].params@[j].rust_type)),
                !(exists|a: int| 0 <= a < self.bindings@.len() && uses_vector_values_spec(#[trigger] self.bindings@[a].return_type)),
                forall|a: int, j: int| 0 <= a < i && 0 <= j < self.records@[a].1.fields@.len()
                    ==> !uses_vector_values_spec(#[trigger] self.records@[a].1.fields@[j].rust_type),
            decreases self.records.len() - i,
        {
            let fields = &self.records[i].1.fields;
            let mut j: usize = 0;
            while j < fields.len()
                invariant
                    i < self.records@.len(),
                    j <= fields@.len(),
                    *fields == self.records@[i as int].1.fields,
                    forall|k: int| 0 <= k < j ==> !uses_vector_values_spec(#[trigger] fields@[k].rust_type),
                decreases fields.len() - j,
            {
                if type_uses_vector_values(&fields[j].rust_type) {
                    proof {
                        assert(uses_vector_values_spec(self.records@[i as int].1.fields@[j as int].rust_type));
                    }
                    return true;
                }
                j += 1;
            }
            i += 1;
        }
        false
    }

    /// A `zova` crate whose bindings fail with its `Error` type.
    pub fn uses_zova_errors(&self) -> (r: bool)
        ensures
            r == (self.is_zova && exists|i: int| 0 <= i < self.bindings@.len() && fails_with_error(#[trigger] self.bindings@[i])),
    {
        if !self.is_zova {
            return false;
        }
        let mut i: usize = 0;
        while i < self.bindings.len()
            invariant
                i <= self.bindings@.len(),
                self.is_zova,
                forall|j: int| 0 <= j < i ==> !fails_with_error(#[trigger] self.bindings@[j]),
            decreases self.bindings.len() - i,
        {
            if let Some(e) = &self.bindings[i].error_name {
                if str_eq(e.as_str(), "Error") {
                    proof {
                        assert(fails_with_error(self.bindings@[i as int]));
                    }
                    return true;
                }
            }
            i += 1;
        }
        false
    }

    /// The number of declarations a generated module holds: one per binding, per
    /// handle, per record, and one for the vector of values where it is used.
    pub fn declarations(&self) -> (r: usize)
        requires
            self.bindings@.len() + self.handles@.len() + self.records@.len() + 1 <= usize::MAX,
        ensures
            r == self.bindings@.len() + self.handles@.len() + self.records@.len()
                + (if self.uses_vector_values_spec() { 1int } else { 0int }),
    {
        let extra: usize = if self.uses_vector_values() { 1 } else { 0 };
        self.bindings.len() + self.handles.len() + self.records.len() + extra
    }
}

/// The bindings come in the order of their exported names.
pub open spec fn sorted_by_name(bs: Seq<Binding>) -> bool {
    forall|i: int, j: int| 0 <= i < j < bs.len() ==> !text_less(#[trigger] bs[j].exported_name@, #[trigger] bs[i].exported_name@)
}

/// The position at which a binding goes into sorted bindings: after every one whose
/// name does not come after its own.
fn insertion_point(sorted: &Vec<Binding>, name: &str) -> (p: usize)
    requires
        sorted_by_name(sorted@),
    ensures
        p <= sorted@.len(),
        forall|i: int| 0 <= i < p ==> !text_less(name@, #[trigger] sorted@[i].exported_name@),
        forall|i: int| p <= i < sorted@.len() ==> text_less(name@, #[trigger] sorted@[i].exported_name@),
{
    let mut p: usize = sorted.len();
    while p > 0 && text_less_exec(name, sorted[p - 1].exported_name.as_str())
        invariant
            p <= sorted@.len(),
            sorted_by_name(sorted@),
            forall|i: int| p <= i < sorted@.len() ==> text_less(name@, #[trigger] sorted@[i].exported_name@),
        decreases p,
    {
        p -= 1;
    }
    proof {
        if p > 0 {
            assert forall|i: int| 0 <= i < p implies !text_less(name@, #[trigger] sorted@[i].exported_name@) by {
                if i < p - 1 && text_less(name@, sorted@[i].exported_name@) {
                    let a = sorted@[i].exported_name@;
                    let b = sorted@[p - 1].exported_name@;
                    lemma_text_less_total(a, b);
                    if text_less(a, b) {
                        assert(!text_less(b, a));
                    }
                    if text_less(b, a) {
                        assert(false);
                    }
                    lemma_text_less_trans_not_before(name@, a, b);
                }
            }
        }
    }
    p
}

/// If `x` comes before `a`, and `a` comes before `b` or is `b`, then `x` comes before `b`.
proof fn lemma_text_less_trans_not_before(x: Seq<char>, a: Seq<char>, b: Seq<char>)
    requires
        text_less(x, a),
        text_less(a, b) || a == b,
    ensures
        text_less(x, b),
{
    if a != b {
        lemma_text_less_trans(x, a, b);
    }
}

impl Collector {
    /// Puts the bindings in the order of their exported names; bindings of equal
    /// names keep their order.
    pub fn sort_bindings(&mut self)
        ensures
            sorted_by_name(final(self).bindings@),
            final(self).bindings@.to_multiset() == old(self).bindings@.to_multiset(),
            final(self).handles == old(self).handles,
            final(self).copy_handles == old(self).copy_handles,
            final(self).mutable_handles == old(self).mutable_handles,
            final(self).consuming_handles == old(self).consuming_handles,
            final(self).records == old(self).records,
            final(self).simple_enums == old(self).simple_enums,
            final(self).skipped == old(self).skipped,
            final(self).crate_ident == old(self).crate_ident,
            final(self).manual_module == old(self).manual_module,
            final(self).is_zova == old(self).is_zova,
    {
        let ghost all = self.bindings@;
        let mut rest: Vec<Binding> = Vec::new();
        std::mem::swap(&mut self.bindings, &mut rest);
        let ghost mut taken: int = 0;
        proof {
            assert(all.subrange(0, 0) =~= Seq::<Binding>::empty());
        }
        while rest.len() > 0
            invariant
                self.handles == old(self).handles,
                self.copy_handles == old(self).copy_handles,
                self.mutable_handles == old(self).mutable_handles,
                self.consuming_handles == old(self).consuming_handles,
                self.records == old(self).records,
                self.simple_enums == old(self).simple_enums,
                self.skipped == old(self).skipped,
                self.crate_ident == old(self).crate_ident,
                self.manual_module == old(self).manual_module,
                self.is_zova == old(self).is_zova,
                0 <= taken <= all.len(),
                rest@ == all.subrange(taken, all.len() as int),
                sorted_by_name(self.bindings@),
                self.bindings@.to_multiset() == all.subrange(0, taken).to_multiset(),
            decreases rest.len(),
        {
            let b = rest.remove(0);
            proof {
                let pre = all.subrange(0, taken + 1);
                assert(pre =~= all.subrange(0, taken).push(b));
                assert(rest@ =~= all.subrange(taken + 1, all.len() as int));
            }
            let p = insertion_point(&self.bindings, b.exported_name.as_str());
            let ghost before = self.bindings@;
            let ghost bname = b.exported_name@;
            let ghost gb = b;
            self.bindings.insert(p, b);
            proof {
                let s = self.bindings@;
                assert(s =~= before.insert(p as int, gb));
                vstd::seq_lib::to_multiset_insert(before, p as int, gb);
                vstd::seq_lib::to_multiset_build(all.subrange(0, taken), gb);
                assert(all.subrange(0, taken + 1) =~= all.subrange(0, taken).push(gb));
                assert forall|i: int, j: int| 0 <= i < j < s.len() implies !text_less(#[trigger] s[j].exported_name@, #[trigger] s[i].exported_name@) by {
                    if i < p && j == p {
                        assert(s[i] == before[i]);
                    } else if i == p && j > p {
                        assert(s[j] == before[j - 1]);
                        lemma_text_less_asym(bname, s[j].exported_name@);
                    } else if j < p {
                        assert(s[i] == before[i] && s[j] == before[j]);
                    } else if i < p && j > p {
                        assert(s[i] == before[i] && s[j] == before[j - 1]);
                    } else {
                        assert(s[i] == before[i - 1] && s[j] == before[j - 1]);
                    }
                }
                taken = taken + 1;
            }
        }
        proof {
            assert(all.subrange(0, taken) =~= all);
        }
    }
}

/// A text that comes before another does not come after it.
proof fn lemma_text_less_asym(a: Seq<char>, b: Seq<char>)
    requires
        text_less(a, b),
    ensures
        !text_less(b, a),
{
    if text_less(b, a) {
        lemma_text_less_trans(a, b, a);
        lemma_text_less_irreflexive(a);
    }
}

/// Whether an export passes the filter of allowed names, where there is one.
pub fn is_allowed_name(allowed_names: Option<&Vec<String>>, name: &str) -> (r: bool)
    ensures
        r == match allowed_names {
            None => true,
            Some(names) => name_set(names@).contains(name@),
        },
{
    match allowed_names {
        None => true,
        Some(names) => has_name(names, name),
    }
}

/// The text with every `-` replaced by `_`.
pub open spec fn dashes_to_underscores(s: Seq<char>) -> Seq<char> {
    Seq::new(s.len(), |i: int| if s[i] == '-' { '_' } else { s[i] })
}

/// The name of the module generated for a crate: the one asked for, or the
/// crate's name with `_` for `-`.
pub fn host_module_name(options: &HostGenOptions) -> (r: String)
    ensures
        r@ == match options.module_name {
            Some(m) => m@,
            None => dashes_to_underscores(options.crate_name@),
        },
{
    match &options.module_name {
        Some(m) => m.clone(),
        None => crate_ident_of(options.crate_name.as_str()),
    }
}

/// A crate's name as a Rust identifier: `_` for `-`.
pub fn crate_ident_of(crate_name: &str) -> (r: String)
    ensures
        r@ == dashes_to_underscores(crate_name@),
{
    let cs = crate::text::chars_of(crate_name);
    let mut r = String::new();
    let mut i: usize = 0;
    while i < cs.len()
        invariant
            cs@ == crate_name@,
            i <= cs@.len(),
            r@ == dashes_to_underscores(cs@).subrange(0, i as int),
        decreases cs.len() - i,
    {
        let c = if cs[i] == '-' { '_' } else { cs[i] };
        push_char(&mut r, c);
        proof {
            assert(r@ =~= dashes_to_underscores(cs@).subrange(0, i + 1));
        }
        i += 1;
    }
    proof {
        assert(dashes_to_underscores(cs@).subrange(0, cs@.len() as int) =~= dashes_to_underscores(cs@));
    }
    r
}

/// Of the bindings that the removal of incompatible handles keeps, none names an
/// incompatible handle; every binding is either kept or reported.
pub proof fn lemma_kept_bindings_avoid_incompatible(bs: Seq<Binding>, inc: Set<Seq<char>>)
    ensures
        forall|i: int, h: Seq<char>| 0 <= i < split_incompatible(bs, inc).0.len()
            ==> !(#[trigger] common_handles(split_incompatible(bs, inc).0[i], inc).contains(h)),
        split_incompatible(bs, inc).0.len() + split_incompatible(bs, inc).1.len() == bs.len(),
    decreases bs.len(),
{
    if bs.len() > 0 {
        lemma_kept_bindings_avoid_incompatible(bs.drop_last(), inc);
    }
}

/// Of the bindings that the check of by-value handles keeps, none takes a handle
/// by value that is not `Copy`; every binding is either kept or reported.
pub proof fn lemma_kept_bindings_take_copy_handles(bs: Seq<Binding>, copy: Set<Seq<char>>)
    ensures
        forall|i: int| 0 <= i < split_by_value(bs, copy).0.len()
            ==> first_unsupported((#[trigger] split_by_value(bs, copy).0[i]).params@, 0, split_by_value(bs, copy).0[i].source is Method, copy) is None,
        split_by_value(bs, copy).0.len() + split_by_value(bs, copy).1.len() == bs.len(),
    decreases bs.len(),
{
    if bs.len() > 0 {
        lemma_kept_bindings_take_copy_handles(bs.drop_last(), copy);
    }
}

} // verus!
