//! The trusted boundary to the declarative-language text services.
//!
//! Reading, writing and removing attributes in config text, and
//! canonical pretty-printing, are done by outside crates. Each call
//! stands behind one wrapper whose contract names the call's result;
//! everything the library proves about config text rests on these
//! contracts and on nothing else.
//!
//! The editor crate panics on some degenerate inputs (its source
//! unwraps, for instance, while following a dotted path past an
//! attribute whose value is not a set, and its child-count arithmetic
//! underflows on `inherit` entries). This library promises that its
//! verified functions do not panic, so each editor call runs on a
//! scoped worker thread: a panic there is joined as an error and
//! surfaces as the call's failure outcome, never as a crash.

use vstd::prelude::*;

verus! {

/// What `nix_editor::read::readvalue` returns for a text and an
/// attribute path: the raw value token, or nothing when the text does
/// not parse, the attribute is absent, or the call fails by panicking.
pub uninterp spec fn nix_read_value(text: Seq<char>, attr: Seq<char>) -> Option<Seq<char>>;

/// Relies on `nix_editor::read::readvalue`: deterministic in the text
/// and the attribute path; yields a token exactly when it returns one.
/// The call is panic-isolated on a scoped thread
/// (`crossbeam_utils::thread::scope`), so a panic inside the editor
/// counts as no token.
#[verifier::external_body]
pub(crate) fn read_value(text: &str, attr: &str) -> (r: Option<String>)
    ensures
        match r {
            Some(v) => nix_read_value(text@, attr@) == Some(v@),
            None => nix_read_value(text@, attr@) is None,
        },
{
    let outcome = crossbeam_utils::thread::scope(|s| {
        s.spawn(|_| nix_editor::read::readvalue(text, attr)).join()
    });
    match outcome {
        Ok(Ok(Ok(v))) => Some(v),
        _ => None,
    }
}

/// What `nix_editor::read::getarrvals` returns: the element tokens of
/// the array at an attribute path, or nothing on failure (a parse
/// error, an absent attribute, or a panic inside the editor).
pub uninterp spec fn nix_read_array(text: Seq<char>, attr: Seq<char>) -> Option<Seq<Seq<char>>>;

/// Relies on `nix_editor::read::getarrvals`: deterministic in the text
/// and the attribute path; yields tokens exactly when it returns them.
/// Panic-isolated like `read_value`.
#[verifier::external_body]
pub(crate) fn read_array(text: &str, attr: &str) -> (r: Option<Vec<String>>)
    ensures
        match r {
            Some(vs) => nix_read_array(text@, attr@) == Some(vs.deep_view()),
            None => nix_read_array(text@, attr@) is None,
        },
{
    let outcome = crossbeam_utils::thread::scope(|s| {
        s.spawn(|_| nix_editor::read::getarrvals(text, attr)).join()
    });
    match outcome {
        Ok(Ok(Ok(vs))) => Some(vs),
        _ => None,
    }
}

/// Exactly the characters with the Unicode `White_Space` property,
/// which Rust's `char::is_whitespace` and `str::trim_start` go by.
pub open spec fn is_space_char(c: char) -> bool {
    ||| 9 <= c as u32 <= 13
    ||| c as u32 == 32
    ||| c as u32 == 0x85
    ||| c as u32 == 0xA0
    ||| c as u32 == 0x1680
    ||| 0x2000 <= c as u32 <= 0x200A
    ||| c as u32 == 0x2028
    ||| c as u32 == 0x2029
    ||| c as u32 == 0x202F
    ||| c as u32 == 0x205F
    ||| c as u32 == 0x3000
}

/// The string's first non-whitespace character is `'{'`: the shape on
/// which the attribute writer would splice a whole attribute set in,
/// walking a hash map whose order varies between runs. Only such
/// values are kept away from the writer.
pub open spec fn opens_attrset(s: Seq<char>) -> bool {
    exists|i: int|
        0 <= i < s.len() && #[trigger] s[i] == '{' && (forall|k: int|
            0 <= k < i ==> is_space_char(#[trigger] s[k]))
}

/// Whether a character has the Unicode `White_Space` property.
fn is_space(c: char) -> (r: bool)
    ensures
        r == is_space_char(c),
{
    let cv = c as u32;
    (9 <= cv && cv <= 13) || cv == 32 || cv == 0x85 || cv == 0xA0 || cv == 0x1680 || (0x2000
        <= cv && cv <= 0x200A) || cv == 0x2028 || cv == 0x2029 || cv == 0x202F || cv == 0x205F
        || cv == 0x3000
}

/// Whether a raw value string opens an attribute-set literal.
pub fn opens_attrset_in(s: &str) -> (r: bool)
    ensures
        r == opens_attrset(s@),
{
    let len = s.unicode_len();
    let mut i: usize = 0;
    while i < len
        invariant
            0 <= i <= len,
            len == s@.len(),
            forall|k: int| 0 <= k < i ==> is_space_char(#[trigger] s@[k]),
        decreases len - i,
    {
        let c = s.get_char(i);
        if !is_space(c) {
            if c == '{' {
                proof {
                    assert(s@[i as int] == '{' && (forall|k: int|
                        0 <= k < i ==> is_space_char(#[trigger] s@[k])));
                }
                return true;
            } else {
                proof {
                    assert(!opens_attrset(s@)) by {
                        if opens_attrset(s@) {
                            let j = choose|j: int|
                                0 <= j < s@.len() && #[trigger] s@[j] == '{' && (forall|k: int|
                                    0 <= k < j ==> is_space_char(#[trigger] s@[k]));
                            if j < i {
                                assert(is_space_char(s@[j]));
                            } else if j > i {
                                assert(is_space_char(s@[i as int]));
                            }
                        }
                    }
                }
                return false;
            }
        }
        i = i + 1;
    }
    proof {
        assert(!opens_attrset(s@)) by {
            if opens_attrset(s@) {
                let j = choose|j: int|
                    0 <= j < s@.len() && #[trigger] s@[j] == '{' && (forall|k: int|
                        0 <= k < j ==> is_space_char(#[trigger] s@[k]));
                assert(is_space_char(s@[j]));
            }
        }
    }
    false
}

/// A string whose first character is neither whitespace nor `'{'`
/// never opens an attribute set.
pub proof fn lemma_plain_head_not_attrset(s: Seq<char>)
    requires
        s.len() > 0,
        !is_space_char(s[0]),
        s[0] != '{',
    ensures
        !opens_attrset(s),
{
    if opens_attrset(s) {
        let j = choose|j: int|
            0 <= j < s.len() && #[trigger] s[j] == '{' && (forall|k: int|
                0 <= k < j ==> is_space_char(#[trigger] s[k]));
        if j > 0 {
            assert(is_space_char(s[0]));
        }
    }
}

/// What `nix_editor::write::write` returns: the text with the raw
/// literal installed at the attribute path, or nothing on failure
/// (a parse error, a value written over an attribute set, or a panic
/// inside the editor).
pub uninterp spec fn nix_write_attr(text: Seq<char>, attr: Seq<char>, val: Seq<char>) -> Option<
    Seq<char>,
>;

/// Relies on `nix_editor::write::write`: for a value that does not
/// open an attribute-set literal the call is deterministic in text,
/// path and literal, and yields text exactly when it returns some.
/// Values opening an attribute set are kept out by the precondition,
/// since for those the crate's output depends on hash-map order.
/// Panic-isolated like `read_value`, so the editor's unwraps (a dotted
/// path reaching past a non-set value, a valueless attribute) count as
/// a failed write.
#[verifier::external_body]
pub(crate) fn write_attr(text: &str, attr: &str, val: &str) -> (r: Option<String>)
    requires
        !opens_attrset(val@),
    ensures
        match r {
            Some(out) => nix_write_attr(text@, attr@, val@) == Some(out@),
            None => nix_write_attr(text@, attr@, val@) is None,
        },
{
    let outcome = crossbeam_utils::thread::scope(|s| {
        s.spawn(|_| nix_editor::write::write(text, attr, val)).join()
    });
    match outcome {
        Ok(Ok(Ok(out))) => Some(out),
        _ => None,
    }
}

/// Relies on `nix_editor::write::write`, for values that may open an
/// attribute-set literal: on that branch the editor merges the set
/// entry by entry, walking a hash map, so the text it produces may
/// differ between runs. Nothing is therefore promised of the result;
/// the write still happens, as the original behaviour asks.
/// Panic-isolated like `read_value`.
#[verifier::external_body]
pub(crate) fn write_attr_any(text: &str, attr: &str, val: &str) -> Option<String> {
    let outcome = crossbeam_utils::thread::scope(|s| {
        s.spawn(|_| nix_editor::write::write(text, attr, val)).join()
    });
    match outcome {
        Ok(Ok(Ok(out))) => Some(out),
        _ => None,
    }
}

/// What `nix_editor::write::deref` returns: the text with the
/// attribute removed, or nothing on failure (a parse error, an absent
/// attribute, or a panic inside the editor).
pub uninterp spec fn nix_remove_attr(text: Seq<char>, attr: Seq<char>) -> Option<Seq<char>>;

/// Relies on `nix_editor::write::deref`: deterministic in the text and
/// the attribute path; yields text exactly when it returns some.
/// Panic-isolated like `read_value`, so the editor's unwrap on a
/// dotted path reaching past a non-set value counts as a failed
/// removal.
#[verifier::external_body]
pub(crate) fn remove_attr(text: &str, attr: &str) -> (r: Option<String>)
    ensures
        match r {
            Some(out) => nix_remove_attr(text@, attr@) == Some(out@),
            None => nix_remove_attr(text@, attr@) is None,
        },
{
    let outcome = crossbeam_utils::thread::scope(|s| {
        s.spawn(|_| nix_editor::write::deref(text, attr)).join()
    });
    match outcome {
        Ok(Ok(Ok(out))) => Some(out),
        _ => None,
    }
}

/// What `nixpkgs_fmt::reformat_string` returns: the canonical
/// pretty-printed form of a text.
pub uninterp spec fn fmt_of(text: Seq<char>) -> Seq<char>;

/// Relies on `nixpkgs_fmt::reformat_string`: a rule-driven rewrite,
/// deterministic in the text, and idempotent — formatting a formatted
/// text changes nothing, as the crate documents and tests.
#[verifier::external_body]
pub(crate) fn reformat(text: &str) -> (r: String)
    ensures
        r@ == fmt_of(text@),
        fmt_of(r@) == r@,
{
    nixpkgs_fmt::reformat_string(text)
}

} // verus!
