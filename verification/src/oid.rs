//! Object ids as text, and the check of a tree id given by a caller.
use vstd::prelude::*;

use crate::git::oid_parse;

verus! {

/// A hex digit of either case.
pub open spec fn is_hex_digit(c: char) -> bool {
    ||| ('0' <= c && c <= '9')
    ||| ('a' <= c && c <= 'f')
    ||| ('A' <= c && c <= 'F')
}

/// A hex digit in lower case.
pub open spec fn is_lower_hex_digit(c: char) -> bool {
    ||| ('0' <= c && c <= '9')
    ||| ('a' <= c && c <= 'f')
}

/// The lower-case form of a hex digit.
pub open spec fn lower_hex(c: char) -> char {
    if 'A' <= c && c <= 'F' {
        ((c as int) + 32) as char
    } else {
        c
    }
}

/// The text of an object id: 40 lower-case hex digits.
pub open spec fn is_canonical_oid(s: Seq<char>) -> bool {
    &&& s.len() == 40
    &&& forall|i: int| 0 <= i < s.len() ==> #[trigger] is_lower_hex_digit(s[i])
}

/// The id that a text names, as its canonical text: defined for 1 to 40 hex
/// digits of either case; the digits are put in lower case and the missing
/// low digits are zeros.
pub open spec fn spec_oid_text(s: Seq<char>) -> Option<Seq<char>> {
    if 1 <= s.len() <= 40 && forall|i: int| 0 <= i < s.len() ==> #[trigger] is_hex_digit(s[i]) {
        Some(Seq::new(40, |i: int| if i < s.len() { lower_hex(s[i]) } else { '0' }))
    } else {
        None
    }
}

/// The text of an id names that id again: it is canonical, and reading it
/// gives it back.
pub proof fn lemma_oid_text_canonical(s: Seq<char>)
    requires
        spec_oid_text(s) is Some,
    ensures
        is_canonical_oid(spec_oid_text(s).unwrap()),
        spec_oid_text(spec_oid_text(s).unwrap()) == spec_oid_text(s),
{
    let c = spec_oid_text(s).unwrap();
    assert forall|i: int| 0 <= i < c.len() implies #[trigger] is_lower_hex_digit(c[i]) by {
        if i < s.len() {
            assert(is_hex_digit(s[i]));
        }
    }
    lemma_canonical_oid_reads_back(c);
}

/// The text of an id reads as itself.
pub proof fn lemma_canonical_oid_reads_back(s: Seq<char>)
    requires
        is_canonical_oid(s),
    ensures
        spec_oid_text(s) == Some(s),
{
    assert forall|i: int| 0 <= i < s.len() implies #[trigger] is_hex_digit(s[i]) by {
        assert(is_lower_hex_digit(s[i]));
    }
    assert(spec_oid_text(s).unwrap() =~= s) by {
        assert forall|i: int| 0 <= i < s.len() implies lower_hex(#[trigger] s[i]) == s[i] by {
            assert(is_lower_hex_digit(s[i]));
        }
    }
}

/// The message given when a tree id is not a valid object id.
pub open spec fn invalid_tree_message() -> Seq<char> {
    "Tree ID not valid oid"@
}

/// Reads an optional tree id: absent stays absent; present must be a valid
/// object id (1 to 40 hex digits) and is given on as the canonical text of
/// that id, else the answer is the error message "Tree ID not valid oid".
pub fn clean_tree(tree: Option<String>) -> (res: Result<Option<String>, String>)
    ensures
        tree is None ==> res matches Ok(None),
        tree matches Some(t) ==> (res is Ok <==> spec_oid_text(t@) is Some),
        tree matches Some(t) ==> (res matches Ok(Some(id)) ==> Some(id@) == spec_oid_text(t@)),
        tree is Some && res is Ok ==> res->Ok_0 is Some,
        res matches Err(msg) ==> msg@ == invalid_tree_message(),
{
    match tree {
        Some(tree) => match oid_parse(tree.as_str()) {
            Ok(text) => Ok(Some(text)),
            Err(_) => {
                proof {
                    reveal_strlit("Tree ID not valid oid");
                }
                Err(String::from_str("Tree ID not valid oid"))
            },
        },
        None => Ok(None),
    }
}

/// The canonical text of the id that `text` names, if it names one.
pub fn object_id_text(text: &String) -> (res: Option<String>)
    ensures
        res is Some <==> spec_oid_text(text@) is Some,
        res matches Some(id) ==> Some(id@) == spec_oid_text(text@),
{
    match oid_parse(text.as_str()) {
        Ok(text) => Some(text),
        Err(_) => None,
    }
}

} // verus!
