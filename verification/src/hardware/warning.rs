//! Warnings attached to a report or to one of its entries.

use vstd::prelude::*;

verus! {

/// `w` is the warning `code` with `message` and `hint`.
pub open spec fn warning_is(w: HdrtWarning, code: Seq<char>, message: Seq<char>, hint: Seq<char>) -> bool {
    &&& w.code@ == code
    &&& w.message@ == message
    &&& w.hint matches Some(h) && h@ == hint
}

/// A problem met while collecting, with an optional hint for the user.
#[derive(Debug)]
pub struct HdrtWarning {
    pub code: String,
    pub message: String,
    pub hint: Option<String>,
}

impl HdrtWarning {
    /// A warning with a hint.
    pub fn with_hint(code: &str, message: &str, hint: &str) -> (r: Self)
        ensures
            r.code@ == code@,
            r.message@ == message@,
            r.hint matches Some(h) && h@ == hint@,
    {
        HdrtWarning {
            code: String::from_str(code),
            message: String::from_str(message),
            hint: Some(String::from_str(hint)),
        }
    }

    /// A field-for-field copy.
    pub fn duplicate(&self) -> (r: Self)
        ensures
            r == *self,
    {
        HdrtWarning {
            code: self.code.clone(),
            message: self.message.clone(),
            hint: crate::hardware::copy_opt_string(&self.hint),
        }
    }
}

/// Copies of every warning in `v`, in order.
pub fn copy_warnings(v: &Vec<HdrtWarning>) -> (r: Vec<HdrtWarning>)
    ensures
        r@ == v@,
{
    let mut r: Vec<HdrtWarning> = Vec::new();
    let mut i: usize = 0;
    while i < v.len()
        invariant
            i <= v.len(),
            r@ == v@.subrange(0, i as int),
        decreases v.len() - i,
    {
        r.push(v[i].duplicate());
        assert(v@.subrange(0, i + 1) =~= v@.subrange(0, i as int).push(v@[i as int]));
        i += 1;
    }
    assert(v@.subrange(0, v.len() as int) =~= v@);
    r
}

/// Appends copies of every warning in `src` to `dst`.
pub fn extend_warnings(dst: &mut Vec<HdrtWarning>, src: &Vec<HdrtWarning>)
    ensures
        final(dst)@ == old(dst)@ + src@,
{
    let mut i: usize = 0;
    while i < src.len()
        invariant
            i <= src.len(),
            dst@ == old(dst)@ + src@.subrange(0, i as int),
        decreases src.len() - i,
    {
        dst.push(src[i].duplicate());
        assert(src@.subrange(0, i + 1) =~= src@.subrange(0, i as int).push(src@[i as int]));
        i += 1;
    }
    assert(src@.subrange(0, src.len() as int) =~= src@);
}

} // verus!
