//! What generated programs and host glue share at run time: the error a host
//! function returns, and the runtime operations on values of the types that are
//! not numbers (truth, equality, concatenation, assignment, loop variables).
use vstd::prelude::*;

use crate::text::{push_char, push_str};

verus! {

/// The error a host function returns; its name is that of a Kiro error definition.
#[derive(Clone, Debug)]
pub struct KiroError {
    pub name: String,
    pub message: Option<String>,
}

/// `name`, or `name: message` where there is a message.
pub open spec fn host_error_text(e: KiroError) -> Seq<char> {
    match e.message {
        Some(m) => e.name@ + ": "@ + m@,
        None => e.name@,
    }
}

impl KiroError {
    pub fn new(name: &str) -> (e: KiroError)
        ensures
            e.name@ == name@,
            e.message is None,
    {
        KiroError { name: name.to_string(), message: None }
    }

    pub fn message(name: &str, message: &str) -> (e: KiroError)
        ensures
            e.name@ == name@,
            e.message matches Some(m) && m@ == message@,
    {
        KiroError { name: name.to_string(), message: Some(message.to_string()) }
    }

    /// The text of the error.
    pub fn to_text(&self) -> (s: String)
        ensures
            s@ == host_error_text(*self),
    {
        let mut s = self.name.clone();
        if let Some(m) = &self.message {
            push_str(&mut s, ": ");
            push_str(&mut s, m.as_str());
        }
        s
    }
}

/// Whether a value counts as true in a condition.
pub trait KiroTruthy {
    spec fn spec_truthy(&self) -> bool;

    fn kiro_truthy(&self) -> (r: bool)
        ensures
            r == self.spec_truthy();
}

impl KiroTruthy for bool {
    open spec fn spec_truthy(&self) -> bool {
        *self
    }

    fn kiro_truthy(&self) -> (r: bool) {
        *self
    }
}

/// A result is true when it holds a value, false when it holds an error.
impl<T, E> KiroTruthy for Result<T, E> {
    open spec fn spec_truthy(&self) -> bool {
        self is Ok
    }

    fn kiro_truthy(&self) -> (r: bool) {
        self.is_ok()
    }
}

/// Equality of runtime values.
pub trait KiroEq {
    spec fn spec_kiro_eq(&self, other: &Self) -> bool;

    fn kiro_eq(&self, other: &Self) -> (r: bool)
        ensures
            r == self.spec_kiro_eq(other);
}

impl KiroEq for bool {
    open spec fn spec_kiro_eq(&self, other: &Self) -> bool {
        *self == *other
    }

    fn kiro_eq(&self, other: &Self) -> (r: bool) {
        *self == *other
    }
}

impl KiroEq for String {
    open spec fn spec_kiro_eq(&self, other: &Self) -> bool {
        self@ == other@
    }

    fn kiro_eq(&self, other: &Self) -> (r: bool) {
        crate::text::str_eq(self.as_str(), other.as_str())
    }
}

/// Lists are equal when they have the same length and equal items in order.
impl<T: KiroEq> KiroEq for Vec<T> {
    open spec fn spec_kiro_eq(&self, other: &Self) -> bool {
        &&& self@.len() == other@.len()
        &&& forall|i: int| 0 <= i < self@.len() ==> (#[trigger] self@[i]).spec_kiro_eq(&other@[i])
    }

    fn kiro_eq(&self, other: &Self) -> (r: bool) {
        if self.len() != other.len() {
            return false;
        }
        let mut i: usize = 0;
        while i < self.len()
            invariant
                i <= self@.len(),
                self@.len() == other@.len(),
                forall|j: int| 0 <= j < i ==> (#[trigger] self@[j]).spec_kiro_eq(&other@[j]),
            decreases self.len() - i,
        {
            if !self[i].kiro_eq(&other[i]) {
                return false;
            }
            i += 1;
        }
        true
    }
}

/// String concatenation of runtime values.
pub trait KiroAdd<Rhs> {
    type Output;

    fn kiro_add(self, rhs: Rhs) -> Self::Output;
}

impl KiroAdd<String> for String {
    type Output = String;

    fn kiro_add(self, rhs: String) -> (r: String)
        ensures
            r@ == self@ + rhs@,
    {
        let mut s = self;
        push_str(&mut s, rhs.as_str());
        s
    }
}

impl KiroAdd<bool> for String {
    type Output = String;

    fn kiro_add(self, rhs: bool) -> (r: String)
        ensures
            r@ == self@ + (if rhs { "true"@ } else { "false"@ }),
    {
        let mut s = self;
        push_str(&mut s, if rhs { "true" } else { "false" });
        s
    }
}

impl KiroAdd<String> for bool {
    type Output = String;

    fn kiro_add(self, rhs: String) -> (r: String)
        ensures
            r@ == (if self { "true"@ } else { "false"@ }) + rhs@,
    {
        let mut s = String::from_str(if self { "true" } else { "false" });
        push_str(&mut s, rhs.as_str());
        s
    }
}

/// Assignment to a runtime variable.
pub trait KiroAssign<Rhs> {
    fn kiro_assign(&mut self, rhs: Rhs);
}

impl<T> KiroAssign<T> for T {
    fn kiro_assign(&mut self, rhs: T)
        ensures
            *final(self) == rhs,
    {
        *self = rhs;
    }
}

/// The value a loop variable takes for an item of what the loop walks.
pub trait AsKiroLoopVar {
    type Out;

    fn as_kiro(self) -> Self::Out;
}

/// A character of a string becomes a one-character string.
impl AsKiroLoopVar for char {
    type Out = String;

    fn as_kiro(self) -> (r: String)
        ensures
            r@ == seq![self],
    {
        let mut s = String::new();
        push_char(&mut s, self);
        s
    }
}

impl AsKiroLoopVar for String {
    type Out = String;

    fn as_kiro(self) -> (r: String)
        ensures
            r == self,
    {
        self
    }
}

impl AsKiroLoopVar for bool {
    type Out = bool;

    fn as_kiro(self) -> (r: bool)
        ensures
            r == self,
    {
        self
    }
}

/// What a loop walks, as the list of its items in order.
pub trait KiroIter: Sized {
    type Item;

    spec fn spec_items(self) -> Seq<Self::Item>;

    fn kiro_iter(self) -> (r: Vec<Self::Item>)
        ensures
            r@ == self.spec_items();
}

/// The integers from the start up to, not including, the end.
impl KiroIter for core::ops::Range<i64> {
    type Item = i64;

    open spec fn spec_items(self) -> Seq<i64> {
        Seq::new(
            if self.start < self.end { (self.end - self.start) as nat } else { 0nat },
            |i: int| (self.start + i) as i64,
        )
    }

    fn kiro_iter(self) -> (r: Vec<i64>) {
        let mut r: Vec<i64> = Vec::new();
        let mut x: i64 = self.start;
        while x < self.end
            invariant
                self.start <= x <= self.end || (x == self.start && self.start >= self.end),
                r@.len() == x - self.start,
                forall|i: int| 0 <= i < r@.len() ==> #[trigger] r@[i] == self.start + i,
            decreases self.end - x,
        {
            r.push(x);
            x += 1;
        }
        proof {
            assert(r@ =~= self.spec_items());
        }
        r
    }
}

/// The items of a list, in order.
impl<T> KiroIter for Vec<T> {
    type Item = T;

    open spec fn spec_items(self) -> Seq<T> {
        self@
    }

    fn kiro_iter(self) -> (r: Vec<T>) {
        self
    }
}

/// The characters of a string, in order.
impl KiroIter for String {
    type Item = char;

    open spec fn spec_items(self) -> Seq<char> {
        self@
    }

    fn kiro_iter(self) -> (r: Vec<char>) {
        crate::text::chars_of(self.as_str())
    }
}

} // verus!
