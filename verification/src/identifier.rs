//! Random identifiers: version 4 UUIDs in their usual text form.

use vstd::prelude::*;

verus! {

/// `c` is a digit or one of `a` to `f`.
pub open spec fn is_lower_hex(c: char) -> bool {
    ('0' <= c && c <= '9') || ('a' <= c && c <= 'f')
}

/// `text` has the shape of a version 4 UUID: 36 characters, a hyphen after
/// the 8th, 12th, 16th and 20th hexadecimal digit, lowercase hexadecimal
/// digits elsewhere, the version digit `4`, and a variant digit from `8` to
/// `b`.
pub open spec fn is_uuid_text(text: Seq<char>) -> bool {
    &&& text.len() == 36
    &&& forall|i: int|
        0 <= i < 36 ==> if i == 8 || i == 13 || i == 18 || i == 23 {
            #[trigger] text[i] == '-'
        } else {
            is_lower_hex(text[i])
        }
    &&& text[14] == '4'
    &&& (text[19] == '8' || text[19] == '9' || text[19] == 'a' || text[19] == 'b')
}

/// A fresh random identifier: `uuid::Uuid::new_v4`, written out by its
/// `Display`, which is the hyphenated lowercase form.
#[verifier::external_body]
fn new_uuid_text() -> (text: String)
    ensures
        is_uuid_text(text@),
{
    uuid::Uuid::new_v4().to_string()
}

/// Generates `count` random identifiers, in the order drawn.
pub fn generate_uuid(count: u8) -> (list: Vec<String>)
    ensures
        list@.len() == count,
        forall|i: int| 0 <= i < list@.len() ==> is_uuid_text(#[trigger] list@[i]@),
{
    let mut list: Vec<String> = Vec::new();
    let mut made: u8 = 0;
    while made < count
        invariant
            made <= count,
            list@.len() == made,
            forall|i: int| 0 <= i < list@.len() ==> is_uuid_text(#[trigger] list@[i]@),
        decreases count - made,
    {
        list.push(new_uuid_text());
        made += 1;
    }
    list
}

} // verus!
