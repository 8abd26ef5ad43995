use vstd::prelude::*;

verus! {

/// A lowercase hexadecimal digit.
pub open spec fn is_lower_hex(c: char) -> bool {
    ('0' <= c && c <= '9') || ('a' <= c && c <= 'f')
}

/// The hyphenated text form of a UUID: 32 lowercase hex digits in groups of
/// 8, 4, 4, 4 and 12, separated by hyphens.
pub open spec fn is_uuid_text(s: Seq<char>) -> bool {
    &&& s.len() == 36
    &&& forall|i: int|
        0 <= i < 36 ==> if i == 8 || i == 13 || i == 18 || i == 23 {
            s[i] == '-'
        } else {
            is_lower_hex(#[trigger] s[i])
        }
}

/// Relies on uuid::Uuid::new_v4 and the Display impl of uuid::Uuid: a random
/// version-4 UUID, written in its lowercase hyphenated form.
#[verifier::external_body]
pub(crate) fn fresh_id() -> (r: String)
    ensures
        is_uuid_text(r@),
{
    uuid::Uuid::new_v4().to_string()
}

/// Whether a name can stand as one path component: not empty, not `.` or `..`, and without `/`.
pub open spec fn is_path_component(s: Seq<char>) -> bool {
    &&& s.len() > 0
    &&& s != seq!['.']
    &&& s != seq!['.', '.']
    &&& forall|i: int| 0 <= i < s.len() ==> s[i] != '/'
}

/// Every UUID text is a single path component.
pub proof fn lemma_uuid_is_path_component(s: Seq<char>)
    requires
        is_uuid_text(s),
    ensures
        is_path_component(s),
{
    assert forall|i: int| 0 <= i < s.len() implies s[i] != '/' by {
        if !(i == 8 || i == 13 || i == 18 || i == 23) {
            assert(is_lower_hex(s[i]));
        }
    }
}

} // verus!

verus! {

/// A fresh snapshot identifier: UUID text, hence a single path component, so that its
/// staging and final directories sit directly under the store's directories.
pub fn new_snapshot_id() -> (r: String)
    ensures
        is_uuid_text(r@),
        is_path_component(r@),
{
    let id = fresh_id();
    proof {
        lemma_uuid_is_path_component(id@);
    }
    id
}

} // verus!
