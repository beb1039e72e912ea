use vstd::prelude::*;

use super::ids::{ErrorId, HandleId, StructId, TypeId};

verus! {

/// A semantic type; composite types name their parts by `TypeId` in a `TypeTable`.
#[derive(Debug, Clone)]
pub enum SemType {
    Unknown,
    Void,
    Bool,
    Num,
    Str,
    Bytes,
    Range,
    Address(TypeId),
    Pipe(TypeId),
    List(TypeId),
    MapOf(TypeId, TypeId),
    Function { params: Vec<TypeId>, return_type: TypeId },
    Struct(StructId),
    Handle(HandleId),
    Error(ErrorId),
}

/// The mathematical value of a semantic type: the same shape, with parameter lists as sequences.
pub enum SemTypeModel {
    Unknown,
    Void,
    Bool,
    Num,
    Str,
    Bytes,
    Range,
    Address(TypeId),
    Pipe(TypeId),
    List(TypeId),
    MapOf(TypeId, TypeId),
    Function { params: Seq<TypeId>, return_type: TypeId },
    Struct(StructId),
    Handle(HandleId),
    Error(ErrorId),
}

impl View for SemType {
    type V = SemTypeModel;

    open spec fn view(&self) -> SemTypeModel {
        match self {
            SemType::Unknown => SemTypeModel::Unknown,
            SemType::Void => SemTypeModel::Void,
            SemType::Bool => SemTypeModel::Bool,
            SemType::Num => SemTypeModel::Num,
            SemType::Str => SemTypeModel::Str,
            SemType::Bytes => SemTypeModel::Bytes,
            SemType::Range => SemTypeModel::Range,
            SemType::Address(t) => SemTypeModel::Address(*t),
            SemType::Pipe(t) => SemTypeModel::Pipe(*t),
            SemType::List(t) => SemTypeModel::List(*t),
            SemType::MapOf(k, v) => SemTypeModel::MapOf(*k, *v),
            SemType::Function { params, return_type } => SemTypeModel::Function { params: params@, return_type: *return_type },
            SemType::Struct(t) => SemTypeModel::Struct(*t),
            SemType::Handle(t) => SemTypeModel::Handle(*t),
            SemType::Error(t) => SemTypeModel::Error(*t),
        }
    }
}

/// The types the table holds from its creation, in order.
pub open spec fn primitive_types() -> Seq<SemTypeModel> {
    seq![SemTypeModel::Unknown, SemTypeModel::Void, SemTypeModel::Bool, SemTypeModel::Num, SemTypeModel::Str]
}

/// Two type-id lists are equal.
fn same_ids(a: &Vec<TypeId>, b: &Vec<TypeId>) -> (r: bool)
    ensures
        r == (a@ == b@),
{
    if a.len() != b.len() {
        return false;
    }
    let mut i: usize = 0;
    while i < a.len()
        invariant
            a@.len() == b@.len(),
            i <= a.len(),
            forall|j: int| 0 <= j < i ==> a@[j] == b@[j],
        decreases a.len() - i,
    {
        if a[i] != b[i] {
            return false;
        }
        i += 1;
    }
    assert(a@ =~= b@);
    true
}

/// A semantic type equal to `t`.
pub fn copy_sem_type(t: &SemType) -> (r: SemType)
    ensures
        r@ == t@,
{
    match t {
        SemType::Unknown => SemType::Unknown,
        SemType::Void => SemType::Void,
        SemType::Bool => SemType::Bool,
        SemType::Num => SemType::Num,
        SemType::Str => SemType::Str,
        SemType::Bytes => SemType::Bytes,
        SemType::Range => SemType::Range,
        SemType::Address(x) => SemType::Address(*x),
        SemType::Pipe(x) => SemType::Pipe(*x),
        SemType::List(x) => SemType::List(*x),
        SemType::MapOf(k, v) => SemType::MapOf(*k, *v),
        SemType::Function { params, return_type } => {
            let mut ps: Vec<TypeId> = Vec::new();
            let mut i: usize = 0;
            while i < params.len()
                invariant
                    i <= params@.len(),
                    ps@ == params@.subrange(0, i as int),
                decreases params.len() - i,
            {
                ps.push(params[i]);
                i += 1;
            }
            assert(params@.subrange(0, params@.len() as int) =~= params@);
            SemType::Function { params: ps, return_type: *return_type }
        },
        SemType::Struct(x) => SemType::Struct(*x),
        SemType::Handle(x) => SemType::Handle(*x),
        SemType::Error(x) => SemType::Error(*x),
    }
}

/// Structural equality of semantic types.
pub fn same_sem_type(a: &SemType, b: &SemType) -> (r: bool)
    ensures
        r == (a@ == b@),
{
    match (a, b) {
        (SemType::Unknown, SemType::Unknown) => true,
        (SemType::Void, SemType::Void) => true,
        (SemType::Bool, SemType::Bool) => true,
        (SemType::Num, SemType::Num) => true,
        (SemType::Str, SemType::Str) => true,
        (SemType::Bytes, SemType::Bytes) => true,
        (SemType::Range, SemType::Range) => true,
        (SemType::Address(x), SemType::Address(y)) => x == y,
        (SemType::Pipe(x), SemType::Pipe(y)) => x == y,
        (SemType::List(x), SemType::List(y)) => x == y,
        (SemType::MapOf(k1, v1), SemType::MapOf(k2, v2)) => k1 == k2 && v1 == v2,
        (
            SemType::Function { params: p1, return_type: r1 },
            SemType::Function { params: p2, return_type: r2 },
        ) => {
            if r1 != r2 {
                return false;
            }
            same_ids(p1, p2)
        },
        (SemType::Struct(x), SemType::Struct(y)) => x == y,
        (SemType::Handle(x), SemType::Handle(y)) => x == y,
        (SemType::Error(x), SemType::Error(y)) => x == y,
        _ => false,
    }
}

/// An interning table of semantic types: each type occurs once, and the
/// primitive types hold the first five IDs.
#[derive(Clone, Debug)]
pub struct TypeTable {
    types: Vec<SemType>,
}

impl View for TypeTable {
    type V = Seq<SemTypeModel>;

    closed spec fn view(&self) -> Seq<SemTypeModel> {
        self.types@.map_values(|t: SemType| t@)
    }
}

/// The result of interning `ty` into the table contents `s`: the new contents and the type's ID.
pub open spec fn spec_intern(s: Seq<SemTypeModel>, ty: SemTypeModel) -> (Seq<SemTypeModel>, int) {
    if s.contains(ty) {
        (s, s.index_of(ty))
    } else {
        (s.push(ty), s.len() as int)
    }
}

/// No type occurs twice.
pub open spec fn distinct_types(s: Seq<SemTypeModel>) -> bool {
    forall|i: int, j: int| 0 <= i < j < s.len() ==> s[i] != s[j]
}

impl TypeTable {
    /// Invariant of the table: at most `u32::MAX + 1` types, the primitive types first, no type twice.
    pub open spec fn wf(self) -> bool {
        &&& self@.len() >= 5
        &&& self@.len() <= u32::MAX + 1
        &&& self@.subrange(0, 5) == primitive_types()
        &&& distinct_types(self@)
    }

    pub fn new() -> (t: TypeTable)
        ensures
            t@ == primitive_types(),
            t.wf(),
    {
        let mut types: Vec<SemType> = Vec::new();
        types.push(SemType::Unknown);
        types.push(SemType::Void);
        types.push(SemType::Bool);
        types.push(SemType::Num);
        types.push(SemType::Str);
        let t = TypeTable { types };
        assert(t@ =~= primitive_types());
        assert(t@.subrange(0, 5) =~= primitive_types());
        t
    }

    /// Returns the ID of `ty`, adding it to the table when it is not there yet.
    pub fn intern(&mut self, ty: SemType) -> (id: TypeId)
        requires
            old(self).wf(),
            old(self)@.contains(ty@) || old(self)@.len() <= u32::MAX,
        ensures
            final(self).wf(),
            (final(self)@, id.0 as int) == spec_intern(old(self)@, ty@),
            final(self)@[id.0 as int] == ty@,
    {
        let ghost s = self@;
        let mut i: usize = 0;
        while i < self.types.len()
            invariant
                s == self@,
                self.wf(),
                i <= self@.len(),
                self@.len() == self.types@.len(),
                self@.len() <= u32::MAX + 1,
                distinct_types(self@),
                forall|j: int| 0 <= j < i ==> self@[j] != ty@,
            decreases self.types.len() - i,
        {
            if same_sem_type(&self.types[i], &ty) {
                proof {
                    assert(self@[i as int] == ty@);
                    assert(s.contains(ty@));
                    let k = s.index_of(ty@);
                    assert(s[k] == ty@);
                    assert(k == i as int);
                }
                return TypeId(i as u32);
            }
            i += 1;
        }
        proof {
            assert(!s.contains(ty@));
        }
        let id = TypeId(self.types.len() as u32);
        let ghost tv = ty@;
        let mut types: Vec<SemType> = Vec::new();
        std::mem::swap(&mut types, &mut self.types);
        types.push(ty);
        let ghost nv = types@.map_values(|t: SemType| t@);
        proof {
            assert(nv =~= s.push(tv));
            assert(nv.subrange(0, 5) =~= s.subrange(0, 5));
            assert(distinct_types(nv)) by {
                assert forall|a: int, b: int| 0 <= a < b < nv.len() implies nv[a] != nv[b] by {
                    if b == s.len() {
                        assert(s.contains(s[a]));
                    }
                }
            }
        }
        self.types = types;
        assert(self@ == nv);
        id
    }

    pub fn get(&self, id: TypeId) -> (r: Option<&SemType>)
        ensures
            (id.0 as int) < self@.len() ==> r.is_some() && r.unwrap()@ == self@[id.0 as int],
            (id.0 as int) >= self@.len() ==> r.is_none(),
    {
        let index = id.0 as usize;
        if index < self.types.len() {
            Some(&self.types[index])
        } else {
            None
        }
    }

    /// A table with the same types.
    pub fn copy(&self) -> (t: TypeTable)
        ensures
            t@ == self@,
    {
        let mut types: Vec<SemType> = Vec::new();
        let mut i: usize = 0;
        while i < self.types.len()
            invariant
                i <= self.types@.len(),
                types@.len() == i,
                forall|j: int| 0 <= j < i ==> (#[trigger] types@[j])@ == self.types@[j]@,
            decreases self.types.len() - i,
        {
            types.push(copy_sem_type(&self.types[i]));
            i += 1;
        }
        let t = TypeTable { types };
        assert(t@ =~= self@);
        t
    }

    pub fn len(&self) -> (n: usize)
        ensures
            n == self@.len(),
    {
        self.types.len()
    }

    pub fn is_empty(&self) -> (r: bool)
        ensures
            r == (self@.len() == 0),
    {
        self.types.len() == 0
    }
}

/// Interning a type twice yields the same ID, and the second call leaves the table as it was.
pub proof fn lemma_intern_idempotent(s: Seq<SemTypeModel>, ty: SemTypeModel)
    ensures
        spec_intern(spec_intern(s, ty).0, ty) == spec_intern(s, ty),
{
    if !s.contains(ty) {
        let t = s.push(ty);
        assert(t[s.len() as int] == ty);
        assert(t.contains(ty));
    }
}

/// After interning, the ID names the interned type, and the types already in the table keep their IDs.
pub proof fn lemma_intern_get(s: Seq<SemTypeModel>, ty: SemTypeModel)
    ensures
        0 <= spec_intern(s, ty).1 < spec_intern(s, ty).0.len(),
        spec_intern(s, ty).0[spec_intern(s, ty).1] == ty,
        forall|i: int| 0 <= i < s.len() ==> #[trigger] spec_intern(s, ty).0[i] == s[i],
{
    if s.contains(ty) {
        let k = s.index_of(ty);
        assert(s[k] == ty);
    }
}

} // verus!
