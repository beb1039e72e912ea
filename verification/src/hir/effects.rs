use vstd::prelude::*;

verus! {

/// A set of effect flags, one bit per effect.
#[derive(Clone, Copy, Debug, PartialEq, Eq, Structural, Hash, Default)]
pub struct Effects(pub u8);

impl Effects {
    pub fn none() -> (e: Effects)
        ensures
            e.0 == 0u8,
    {
        Effects(0)
    }

    pub fn pure() -> (e: Effects)
        ensures
            e.0 == 1u8,
    {
        Effects(1)
    }

    pub fn may_fail() -> (e: Effects)
        ensures
            e.0 == 2u8,
    {
        Effects(2)
    }

    pub fn may_block() -> (e: Effects)
        ensures
            e.0 == 4u8,
    {
        Effects(4)
    }

    pub fn may_spawn() -> (e: Effects)
        ensures
            e.0 == 8u8,
    {
        Effects(8)
    }

    pub fn host_call() -> (e: Effects)
        ensures
            e.0 == 16u8,
    {
        Effects(16)
    }

    pub fn indirect_call() -> (e: Effects)
        ensures
            e.0 == 32u8,
    {
        Effects(32)
    }


    /// Every bit of `other` is set in `self`.
    pub open spec fn spec_contains(self, other: Effects) -> bool {
        self.0 & other.0 == other.0
    }

    pub fn contains(self, other: Effects) -> (r: bool)
        ensures
            r == self.spec_contains(other),
    {
        self.0 & other.0 == other.0
    }

    pub fn is_empty(self) -> (r: bool)
        ensures
            r == (self.0 == 0),
    {
        self.0 == 0
    }

    /// The union of two effect sets.
    pub fn union(self, rhs: Effects) -> (r: Effects)
        ensures
            r.0 == self.0 | rhs.0,
    {
        Effects(self.0 | rhs.0)
    }
}

/// The flag names, in declaration order, with their bits.
pub open spec fn flag_bit(i: int) -> u8 {
    if i == 0 { 1u8 } else if i == 1 { 2u8 } else if i == 2 { 4u8 } else if i == 3 { 8u8 } else if i == 4 { 16u8 } else { 32u8 }
}

pub open spec fn flag_name(i: int) -> Seq<char> {
    if i == 0 {
        "PURE"@
    } else if i == 1 {
        "MAY_FAIL"@
    } else if i == 2 {
        "MAY_BLOCK"@
    } else if i == 3 {
        "MAY_SPAWN"@
    } else if i == 4 {
        "HOST_CALL"@
    } else {
        "INDIRECT_CALL"@
    }
}

/// The names of the flags among the first `k` that `e` holds, in order.
pub open spec fn set_flag_names(e: Effects, k: int) -> Seq<Seq<char>>
    decreases k,
{
    if k <= 0 {
        Seq::empty()
    } else {
        let rest = set_flag_names(e, k - 1);
        if e.0 & flag_bit(k - 1) == flag_bit(k - 1) { rest.push(flag_name(k - 1)) } else { rest }
    }
}

/// How a set of effects is described: `NONE`, or its flags joined by ` | `.
pub open spec fn effects_text(e: Effects) -> Seq<char> {
    if e.0 == 0 {
        "NONE"@
    } else {
        crate::text::join_with(set_flag_names(e, 6), " | "@)
    }
}

impl Effects {
    /// `NONE`, or the names of the flags it holds joined by ` | ` (unnamed bits are left out).
    pub fn describe(self) -> (s: String)
        ensures
            s@ == effects_text(self),
    {
        if self.0 == 0 {
            return String::from_str("NONE");
        }
        let mut s = String::new();
        let mut k: usize = 0;
        let mut count: usize = 0;
        while k < 6
            invariant
                k <= 6,
                count == set_flag_names(self, k as int).len(),
                count <= k,
                s@ == crate::text::join_with(set_flag_names(self, k as int), " | "@),
            decreases 6 - k,
        {
            let (bit, name): (u8, &str) = if k == 0 {
                (1u8, "PURE")
            } else if k == 1 {
                (2u8, "MAY_FAIL")
            } else if k == 2 {
                (4u8, "MAY_BLOCK")
            } else if k == 3 {
                (8u8, "MAY_SPAWN")
            } else if k == 4 {
                (16u8, "HOST_CALL")
            } else {
                (32u8, "INDIRECT_CALL")
            };
            if self.0 & bit == bit {
                proof {
                    crate::text::lemma_join_push(set_flag_names(self, k as int), " | "@, name@);
                }
                if count > 0 {
                    crate::text::push_str(&mut s, " | ");
                }
                crate::text::push_str(&mut s, name);
                count = count + 1;
            }
            k = k + 1;
        }
        s
    }
}

/// The union contains both operands, and what it contains beyond a flag of one operand is in the other.
pub proof fn lemma_union_contains(a: Effects, b: Effects)
    ensures
        Effects(a.0 | b.0).spec_contains(a),
        Effects(a.0 | b.0).spec_contains(b),
        Effects(a.0 | b.0) == Effects(b.0 | a.0),
{
    let x: u8 = a.0;
    let y: u8 = b.0;
    assert((x | y) & x == x) by (bit_vector);
    assert((x | y) & y == y) by (bit_vector);
    assert((x | y) == (y | x)) by (bit_vector);
}

/// Containment is reflexive and transitive, and the empty set is contained in every set.
pub proof fn lemma_contains_order(a: Effects, b: Effects, c: Effects)
    ensures
        a.spec_contains(a),
        a.spec_contains(Effects(0)),
        a.spec_contains(b) && b.spec_contains(c) ==> a.spec_contains(c),
{
    let x: u8 = a.0;
    let y: u8 = b.0;
    let z: u8 = c.0;
    assert(x & x == x) by (bit_vector);
    assert(x & 0u8 == 0u8) by (bit_vector);
    assert((x & y == y && y & z == z) ==> x & z == z) by (bit_vector);
}

} // verus!
