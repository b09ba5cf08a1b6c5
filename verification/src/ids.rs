//! Typed identifiers for entities addressed by events.

use vstd::prelude::*;
use crate::text::str_eq;

verus! {

/// Whether `c` may appear in an identifier.
pub open spec fn is_id_char(c: char) -> bool {
    ||| 'a' as u32 <= c as u32 <= 'z' as u32
    ||| 'A' as u32 <= c as u32 <= 'Z' as u32
    ||| '0' as u32 <= c as u32 <= '9' as u32
    ||| c == '_'
}

/// A valid identifier: nonempty, word characters only.
pub open spec fn is_valid_id(s: Seq<char>) -> bool {
    s.len() > 0 && forall|i: int| 0 <= i < s.len() ==> is_id_char(#[trigger] s[i])
}

/// Whether the characters of `s` form a valid identifier.
pub fn check_valid_id(s: &str) -> (r: bool)
    ensures
        r == is_valid_id(s@),
{
    let n = s.unicode_len();
    if n == 0 {
        return false;
    }
    let mut i: usize = 0;
    while i < n
        invariant
            i <= n,
            n == s@.len(),
            forall|j: int| 0 <= j < i ==> is_id_char(#[trigger] s@[j]),
        decreases n - i,
    {
        let c = s.get_char(i);
        let u = c as u32;
        let ok = ('a' as u32 <= u && u <= 'z' as u32) || ('A' as u32 <= u && u <= 'Z' as u32) || (
        '0' as u32 <= u && u <= '9' as u32) || c == '_';
        if !ok {
            return false;
        }
        i += 1;
    }
    true
}

/// A validated variable identifier.
#[derive(Clone, Debug, PartialEq, Eq)]
pub struct VarId {
    pub id: String,
}

impl View for VarId {
    type V = Seq<char>;

    open spec fn view(&self) -> Seq<char> {
        self.id@
    }
}

impl VarId {
    /// Wrap `id`, rejecting anything that is not a valid identifier.
    pub fn new(id: &str) -> (r: Result<VarId, String>)
        ensures
            match r {
                Ok(v) => is_valid_id(id@) && v@ == id@,
                Err(_) => !is_valid_id(id@),
            },
    {
        if check_valid_id(id) {
            Ok(VarId { id: String::from_str(id) })
        } else {
            Err(String::from_str("invalid identifier"))
        }
    }

    /// The identifier text.
    pub fn as_str(&self) -> (r: &str)
        ensures
            r@ == self@,
    {
        self.id.as_str()
    }

    /// Content equality with another identifier.
    pub fn eq_id(&self, other: &VarId) -> (r: bool)
        ensures
            r == (self@ == other@),
    {
        str_eq(self.id.as_str(), other.id.as_str())
    }
}

/// A validated layout identifier.
#[derive(Clone, Debug, PartialEq, Eq)]
pub struct LayoutId {
    pub id: String,
}

impl View for LayoutId {
    type V = Seq<char>;

    open spec fn view(&self) -> Seq<char> {
        self.id@
    }
}

impl LayoutId {
    /// Wrap `id`, rejecting anything that is not a valid identifier.
    pub fn new(id: &str) -> (r: Result<LayoutId, String>)
        ensures
            match r {
                Ok(v) => is_valid_id(id@) && v@ == id@,
                Err(_) => !is_valid_id(id@),
            },
    {
        if check_valid_id(id) {
            Ok(LayoutId { id: String::from_str(id) })
        } else {
            Err(String::from_str("invalid identifier"))
        }
    }

    /// The identifier text.
    pub fn as_str(&self) -> (r: &str)
        ensures
            r@ == self@,
    {
        self.id.as_str()
    }
}

} // verus!
