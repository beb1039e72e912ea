use vstd::prelude::*;

verus! {

/// An index that does not fit the `u32` range of EIR identifiers.
#[derive(Clone, Copy, Debug)]
pub struct EirIdOverflow {
    pub kind: &'static str,
    pub value: usize,
}

/// Dense `u32` identifier; its index into the table that owns it is `self.0`.
#[derive(Clone, Copy, Debug, PartialEq, Eq, Structural, PartialOrd, Ord, Hash)]
pub struct BlockId(pub u32);

impl BlockId {
    pub fn new(raw: u32) -> (id: Self)
        ensures
            id.0 == raw,
    {
        BlockId(raw)
    }

    pub fn raw(self) -> (raw: u32)
        ensures
            raw == self.0,
    {
        self.0
    }

    /// Builds the identifier for a table index; fails when the index exceeds the `u32` range.
    pub fn try_from_index(value: usize) -> (res: Result<Self, EirIdOverflow>)
        ensures
            value <= u32::MAX ==> res == Ok::<Self, EirIdOverflow>(BlockId(value as u32)),
            value > u32::MAX ==> res == Err::<Self, EirIdOverflow>(EirIdOverflow { kind: "BlockId", value }),
    {
        if value <= 0xffff_ffffusize {
            Ok(BlockId(value as u32))
        } else {
            Err(EirIdOverflow { kind: "BlockId", value })
        }
    }

    /// The table index this identifier names.
    pub fn index(self) -> (index: usize)
        ensures
            index == self.0,
    {
        self.0 as usize
    }
}

/// Dense `u32` identifier; its index into the table that owns it is `self.0`.
#[derive(Clone, Copy, Debug, PartialEq, Eq, Structural, PartialOrd, Ord, Hash)]
pub struct SlotId(pub u32);

impl SlotId {
    pub fn new(raw: u32) -> (id: Self)
        ensures
            id.0 == raw,
    {
        SlotId(raw)
    }

    pub fn raw(self) -> (raw: u32)
        ensures
            raw == self.0,
    {
        self.0
    }

    /// Builds the identifier for a table index; fails when the index exceeds the `u32` range.
    pub fn try_from_index(value: usize) -> (res: Result<Self, EirIdOverflow>)
        ensures
            value <= u32::MAX ==> res == Ok::<Self, EirIdOverflow>(SlotId(value as u32)),
            value > u32::MAX ==> res == Err::<Self, EirIdOverflow>(EirIdOverflow { kind: "SlotId", value }),
    {
        if value <= 0xffff_ffffusize {
            Ok(SlotId(value as u32))
        } else {
            Err(EirIdOverflow { kind: "SlotId", value })
        }
    }

    /// The table index this identifier names.
    pub fn index(self) -> (index: usize)
        ensures
            index == self.0,
    {
        self.0 as usize
    }
}

/// Dense `u32` identifier; its index into the table that owns it is `self.0`.
#[derive(Clone, Copy, Debug, PartialEq, Eq, Structural, PartialOrd, Ord, Hash)]
pub struct ConstId(pub u32);

impl ConstId {
    pub fn new(raw: u32) -> (id: Self)
        ensures
            id.0 == raw,
    {
        ConstId(raw)
    }

    pub fn raw(self) -> (raw: u32)
        ensures
            raw == self.0,
    {
        self.0
    }

    /// Builds the identifier for a table index; fails when the index exceeds the `u32` range.
    pub fn try_from_index(value: usize) -> (res: Result<Self, EirIdOverflow>)
        ensures
            value <= u32::MAX ==> res == Ok::<Self, EirIdOverflow>(ConstId(value as u32)),
            value > u32::MAX ==> res == Err::<Self, EirIdOverflow>(EirIdOverflow { kind: "ConstId", value }),
    {
        if value <= 0xffff_ffffusize {
            Ok(ConstId(value as u32))
        } else {
            Err(EirIdOverflow { kind: "ConstId", value })
        }
    }

    /// The table index this identifier names.
    pub fn index(self) -> (index: usize)
        ensures
            index == self.0,
    {
        self.0 as usize
    }
}

/// Dense `u32` identifier; its index into the table that owns it is `self.0`.
#[derive(Clone, Copy, Debug, PartialEq, Eq, Structural, PartialOrd, Ord, Hash)]
pub struct GlobalId(pub u32);

impl GlobalId {
    pub fn new(raw: u32) -> (id: Self)
        ensures
            id.0 == raw,
    {
        GlobalId(raw)
    }

    pub fn raw(self) -> (raw: u32)
        ensures
            raw == self.0,
    {
        self.0
    }

    /// Builds the identifier for a table index; fails when the index exceeds the `u32` range.
    pub fn try_from_index(value: usize) -> (res: Result<Self, EirIdOverflow>)
        ensures
            value <= u32::MAX ==> res == Ok::<Self, EirIdOverflow>(GlobalId(value as u32)),
            value > u32::MAX ==> res == Err::<Self, EirIdOverflow>(EirIdOverflow { kind: "GlobalId", value }),
    {
        if value <= 0xffff_ffffusize {
            Ok(GlobalId(value as u32))
        } else {
            Err(EirIdOverflow { kind: "GlobalId", value })
        }
    }

    /// The table index this identifier names.
    pub fn index(self) -> (index: usize)
        ensures
            index == self.0,
    {
        self.0 as usize
    }
}
} // verus!
