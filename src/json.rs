use vstd::prelude::*;

use crate::geometry::{Point, Rect, Size};

verus! {

#[verifier::external_type_specification]
#[verifier::external_body]
pub struct ExJsonError(serde_json::Error);

/// The decimal digits of `n`, without leading zeros.
pub open spec fn digits_of(n: nat) -> Seq<char>
    decreases n,
{
    let digit = seq!['0', '1', '2', '3', '4', '5', '6', '7', '8', '9'];
    if n < 10 {
        seq![digit[n as int]]
    } else {
        digits_of(n / 10).push(digit[(n % 10) as int])
    }
}

/// `n` in decimal, with a minus sign when negative.
pub open spec fn decimal(n: int) -> Seq<char> {
    if n < 0 {
        seq!['-'] + digits_of((-n) as nat)
    } else {
        digits_of(n as nat)
    }
}

/// The compact JSON text of an array of two integers: `[a,b]`.
pub open spec fn json_of_pair(values: Seq<i32>) -> Seq<char> {
    seq!['['] + decimal(values[0] as int) + seq![','] + decimal(values[1] as int) + seq![']']
}

/// The compact JSON text of an array of two arrays of two integers:
/// `[[a,b],[c,d]]`.
pub open spec fn json_of_pairs(first: Seq<i32>, second: Seq<i32>) -> Seq<char> {
    seq!['['] + json_of_pair(first) + seq![','] + json_of_pair(second) + seq![']']
}

/// Relies on `serde_json::to_string` at `[i32; 2]`: compact JSON, the
/// integers written in decimal; writing integers into its in-memory buffer
/// cannot fail.
#[verifier::external_body]
fn pair_to_json(values: [i32; 2]) -> (r: Result<String, serde_json::Error>)
    ensures
        r is Ok,
        r is Ok ==> r->Ok_0@ == json_of_pair(values@),
{
    serde_json::to_string(&values)
}

/// Relies on `serde_json::to_string` at `[[i32; 2]; 2]`: compact JSON, the
/// integers written in decimal; writing integers into its in-memory buffer
/// cannot fail.
#[verifier::external_body]
fn pairs_to_json(values: [[i32; 2]; 2]) -> (r: Result<String, serde_json::Error>)
    ensures
        r is Ok,
        r is Ok ==> r->Ok_0@ == json_of_pairs(values@[0]@, values@[1]@),
{
    serde_json::to_string(&values)
}

impl Point {
    /// Returns the point as the JSON array `[x,y]`.
    pub fn to_json_array(&self) -> (r: Result<String, serde_json::Error>)
        ensures
            r is Ok,
            r is Ok ==> r->Ok_0@ == json_of_pair(seq![self.x, self.y]),
    {
        pair_to_json(self.to_array())
    }
}

impl Size {
    /// Returns the size as the JSON array `[width,height]`.
    pub fn to_json_array(&self) -> (r: Result<String, serde_json::Error>)
        ensures
            r is Ok,
            r is Ok ==> r->Ok_0@ == json_of_pair(seq![self.width, self.height]),
    {
        pair_to_json(self.to_array())
    }
}

impl Rect {
    /// Returns the origin and size as an array of two arrays.
    pub fn to_array(&self) -> (a: [[i32; 2]; 2])
        ensures
            a@[0]@ == seq![self.origin.x, self.origin.y],
            a@[1]@ == seq![self.size.width, self.size.height],
    {
        [self.origin.to_array(), self.size.to_array()]
    }

    /// Returns the rectangle as the JSON array `[[x,y],[width,height]]`.
    pub fn to_json_array(&self) -> (r: Result<String, serde_json::Error>)
        ensures
            r is Ok,
            r is Ok ==> r->Ok_0@ == json_of_pairs(
                seq![self.origin.x, self.origin.y],
                seq![self.size.width, self.size.height],
            ),
    {
        pairs_to_json(self.to_array())
    }
}

} // verus!
