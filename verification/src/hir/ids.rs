use vstd::prelude::*;

verus! {

/// An index that does not fit the `u32` range of semantic identifiers.
#[derive(Clone, Copy, Debug)]
pub struct IdOverflow {
    pub kind: &'static str,
    pub value: usize,
}

impl IdOverflow {
    pub fn kind(self) -> (kind: &'static str)
        ensures
            kind == self.kind,
    {
        self.kind
    }

    pub fn value(self) -> (value: usize)
        ensures
            value == self.value,
    {
        self.value
    }
}

/// Dense `u32` identifier; its index into the table that owns it is `self.0`.
#[derive(Clone, Copy, Debug, PartialEq, Eq, Structural, PartialOrd, Ord, Hash)]
pub struct SourceId(pub u32);

impl SourceId {
    pub fn new(raw: u32) -> (id: Self)
        ensures
            id.0 == raw,
    {
        SourceId(raw)
    }

    pub fn raw(self) -> (raw: u32)
        ensures
            raw == self.0,
    {
        self.0
    }

    /// Builds the identifier for a table index; fails when the index exceeds the `u32` range.
    pub fn try_from_index(value: usize) -> (res: Result<Self, IdOverflow>)
        ensures
            value <= u32::MAX ==> res == Ok::<Self, IdOverflow>(SourceId(value as u32)),
            value > u32::MAX ==> res == Err::<Self, IdOverflow>(IdOverflow { kind: "SourceId", value }),
    {
        if value <= 0xffff_ffffusize {
            Ok(SourceId(value as u32))
        } else {
            Err(IdOverflow { kind: "SourceId", value })
        }
    }

    /// The table index this identifier names.
    pub fn index(self) -> (index: usize)
        ensures
            index == self.0,
    {
        self.0 as usize
    }
}

/// Dense `u32` identifier; its index into the table that owns it is `self.0`.
#[derive(Clone, Copy, Debug, PartialEq, Eq, Structural, PartialOrd, Ord, Hash)]
pub struct ModuleId(pub u32);

impl ModuleId {
    pub fn new(raw: u32) -> (id: Self)
        ensures
            id.0 == raw,
    {
        ModuleId(raw)
    }

    pub fn raw(self) -> (raw: u32)
        ensures
            raw == self.0,
    {
        self.0
    }

    /// Builds the identifier for a table index; fails when the index exceeds the `u32` range.
    pub fn try_from_index(value: usize) -> (res: Result<Self, IdOverflow>)
        ensures
            value <= u32::MAX ==> res == Ok::<Self, IdOverflow>(ModuleId(value as u32)),
            value > u32::MAX ==> res == Err::<Self, IdOverflow>(IdOverflow { kind: "ModuleId", value }),
    {
        if value <= 0xffff_ffffusize {
            Ok(ModuleId(value as u32))
        } else {
            Err(IdOverflow { kind: "ModuleId", value })
        }
    }

    /// The table index this identifier names.
    pub fn index(self) -> (index: usize)
        ensures
            index == self.0,
    {
        self.0 as usize
    }
}

/// Dense `u32` identifier; its index into the table that owns it is `self.0`.
#[derive(Clone, Copy, Debug, PartialEq, Eq, Structural, PartialOrd, Ord, Hash)]
pub struct FunctionId(pub u32);

impl FunctionId {
    pub fn new(raw: u32) -> (id: Self)
        ensures
            id.0 == raw,
    {
        FunctionId(raw)
    }

    pub fn raw(self) -> (raw: u32)
        ensures
            raw == self.0,
    {
        self.0
    }

    /// Builds the identifier for a table index; fails when the index exceeds the `u32` range.
    pub fn try_from_index(value: usize) -> (res: Result<Self, IdOverflow>)
        ensures
            value <= u32::MAX ==> res == Ok::<Self, IdOverflow>(FunctionId(value as u32)),
            value > u32::MAX ==> res == Err::<Self, IdOverflow>(IdOverflow { kind: "FunctionId", value }),
    {
        if value <= 0xffff_ffffusize {
            Ok(FunctionId(value as u32))
        } else {
            Err(IdOverflow { kind: "FunctionId", value })
        }
    }

    /// The table index this identifier names.
    pub fn index(self) -> (index: usize)
        ensures
            index == self.0,
    {
        self.0 as usize
    }
}

/// Dense `u32` identifier; its index into the table that owns it is `self.0`.
#[derive(Clone, Copy, Debug, PartialEq, Eq, Structural, PartialOrd, Ord, Hash)]
pub struct HostFunctionId(pub u32);

impl HostFunctionId {
    pub fn new(raw: u32) -> (id: Self)
        ensures
            id.0 == raw,
    {
        HostFunctionId(raw)
    }

    pub fn raw(self) -> (raw: u32)
        ensures
            raw == self.0,
    {
        self.0
    }

    /// Builds the identifier for a table index; fails when the index exceeds the `u32` range.
    pub fn try_from_index(value: usize) -> (res: Result<Self, IdOverflow>)
        ensures
            value <= u32::MAX ==> res == Ok::<Self, IdOverflow>(HostFunctionId(value as u32)),
            value > u32::MAX ==> res == Err::<Self, IdOverflow>(IdOverflow { kind: "HostFunctionId", value }),
    {
        if value <= 0xffff_ffffusize {
            Ok(HostFunctionId(value as u32))
        } else {
            Err(IdOverflow { kind: "HostFunctionId", value })
        }
    }

    /// The table index this identifier names.
    pub fn index(self) -> (index: usize)
        ensures
            index == self.0,
    {
        self.0 as usize
    }
}

/// Dense `u32` identifier; its index into the table that owns it is `self.0`.
#[derive(Clone, Copy, Debug, PartialEq, Eq, Structural, PartialOrd, Ord, Hash)]
pub struct StructId(pub u32);

impl StructId {
    pub fn new(raw: u32) -> (id: Self)
        ensures
            id.0 == raw,
    {
        StructId(raw)
    }

    pub fn raw(self) -> (raw: u32)
        ensures
            raw == self.0,
    {
        self.0
    }

    /// Builds the identifier for a table index; fails when the index exceeds the `u32` range.
    pub fn try_from_index(value: usize) -> (res: Result<Self, IdOverflow>)
        ensures
            value <= u32::MAX ==> res == Ok::<Self, IdOverflow>(StructId(value as u32)),
            value > u32::MAX ==> res == Err::<Self, IdOverflow>(IdOverflow { kind: "StructId", value }),
    {
        if value <= 0xffff_ffffusize {
            Ok(StructId(value as u32))
        } else {
            Err(IdOverflow { kind: "StructId", value })
        }
    }

    /// The table index this identifier names.
    pub fn index(self) -> (index: usize)
        ensures
            index == self.0,
    {
        self.0 as usize
    }
}

/// Dense `u32` identifier; its index into the table that owns it is `self.0`.
#[derive(Clone, Copy, Debug, PartialEq, Eq, Structural, PartialOrd, Ord, Hash)]
pub struct HandleId(pub u32);

impl HandleId {
    pub fn new(raw: u32) -> (id: Self)
        ensures
            id.0 == raw,
    {
        HandleId(raw)
    }

    pub fn raw(self) -> (raw: u32)
        ensures
            raw == self.0,
    {
        self.0
    }

    /// Builds the identifier for a table index; fails when the index exceeds the `u32` range.
    pub fn try_from_index(value: usize) -> (res: Result<Self, IdOverflow>)
        ensures
            value <= u32::MAX ==> res == Ok::<Self, IdOverflow>(HandleId(value as u32)),
            value > u32::MAX ==> res == Err::<Self, IdOverflow>(IdOverflow { kind: "HandleId", value }),
    {
        if value <= 0xffff_ffffusize {
            Ok(HandleId(value as u32))
        } else {
            Err(IdOverflow { kind: "HandleId", value })
        }
    }

    /// The table index this identifier names.
    pub fn index(self) -> (index: usize)
        ensures
            index == self.0,
    {
        self.0 as usize
    }
}

/// Dense `u32` identifier; its index into the table that owns it is `self.0`.
#[derive(Clone, Copy, Debug, PartialEq, Eq, Structural, PartialOrd, Ord, Hash)]
pub struct ErrorId(pub u32);

impl ErrorId {
    pub fn new(raw: u32) -> (id: Self)
        ensures
            id.0 == raw,
    {
        ErrorId(raw)
    }

    pub fn raw(self) -> (raw: u32)
        ensures
            raw == self.0,
    {
        self.0
    }

    /// Builds the identifier for a table index; fails when the index exceeds the `u32` range.
    pub fn try_from_index(value: usize) -> (res: Result<Self, IdOverflow>)
        ensures
            value <= u32::MAX ==> res == Ok::<Self, IdOverflow>(ErrorId(value as u32)),
            value > u32::MAX ==> res == Err::<Self, IdOverflow>(IdOverflow { kind: "ErrorId", value }),
    {
        if value <= 0xffff_ffffusize {
            Ok(ErrorId(value as u32))
        } else {
            Err(IdOverflow { kind: "ErrorId", value })
        }
    }

    /// The table index this identifier names.
    pub fn index(self) -> (index: usize)
        ensures
            index == self.0,
    {
        self.0 as usize
    }
}

/// Dense `u32` identifier; its index into the table that owns it is `self.0`.
#[derive(Clone, Copy, Debug, PartialEq, Eq, Structural, PartialOrd, Ord, Hash)]
pub struct FieldId(pub u32);

impl FieldId {
    pub fn new(raw: u32) -> (id: Self)
        ensures
            id.0 == raw,
    {
        FieldId(raw)
    }

    pub fn raw(self) -> (raw: u32)
        ensures
            raw == self.0,
    {
        self.0
    }

    /// Builds the identifier for a table index; fails when the index exceeds the `u32` range.
    pub fn try_from_index(value: usize) -> (res: Result<Self, IdOverflow>)
        ensures
            value <= u32::MAX ==> res == Ok::<Self, IdOverflow>(FieldId(value as u32)),
            value > u32::MAX ==> res == Err::<Self, IdOverflow>(IdOverflow { kind: "FieldId", value }),
    {
        if value <= 0xffff_ffffusize {
            Ok(FieldId(value as u32))
        } else {
            Err(IdOverflow { kind: "FieldId", value })
        }
    }

    /// The table index this identifier names.
    pub fn index(self) -> (index: usize)
        ensures
            index == self.0,
    {
        self.0 as usize
    }
}

/// Dense `u32` identifier; its index into the table that owns it is `self.0`.
#[derive(Clone, Copy, Debug, PartialEq, Eq, Structural, PartialOrd, Ord, Hash)]
pub struct LocalId(pub u32);

impl LocalId {
    pub fn new(raw: u32) -> (id: Self)
        ensures
            id.0 == raw,
    {
        LocalId(raw)
    }

    pub fn raw(self) -> (raw: u32)
        ensures
            raw == self.0,
    {
        self.0
    }

    /// Builds the identifier for a table index; fails when the index exceeds the `u32` range.
    pub fn try_from_index(value: usize) -> (res: Result<Self, IdOverflow>)
        ensures
            value <= u32::MAX ==> res == Ok::<Self, IdOverflow>(LocalId(value as u32)),
            value > u32::MAX ==> res == Err::<Self, IdOverflow>(IdOverflow { kind: "LocalId", value }),
    {
        if value <= 0xffff_ffffusize {
            Ok(LocalId(value as u32))
        } else {
            Err(IdOverflow { kind: "LocalId", value })
        }
    }

    /// The table index this identifier names.
    pub fn index(self) -> (index: usize)
        ensures
            index == self.0,
    {
        self.0 as usize
    }
}

/// Dense `u32` identifier; its index into the table that owns it is `self.0`.
#[derive(Clone, Copy, Debug, PartialEq, Eq, Structural, PartialOrd, Ord, Hash)]
pub struct TypeId(pub u32);

impl TypeId {
    pub fn new(raw: u32) -> (id: Self)
        ensures
            id.0 == raw,
    {
        TypeId(raw)
    }

    pub fn raw(self) -> (raw: u32)
        ensures
            raw == self.0,
    {
        self.0
    }

    /// Builds the identifier for a table index; fails when the index exceeds the `u32` range.
    pub fn try_from_index(value: usize) -> (res: Result<Self, IdOverflow>)
        ensures
            value <= u32::MAX ==> res == Ok::<Self, IdOverflow>(TypeId(value as u32)),
            value > u32::MAX ==> res == Err::<Self, IdOverflow>(IdOverflow { kind: "TypeId", value }),
    {
        if value <= 0xffff_ffffusize {
            Ok(TypeId(value as u32))
        } else {
            Err(IdOverflow { kind: "TypeId", value })
        }
    }

    /// The table index this identifier names.
    pub fn index(self) -> (index: usize)
        ensures
            index == self.0,
    {
        self.0 as usize
    }
}
} // verus!
