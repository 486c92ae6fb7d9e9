//! Reading the model's replies: free text, a list of strings, an ownership
//! record, or a security level.
use vstd::prelude::*;
use crate::records::{Ownership, SecurityLevel};
use crate::text::{chars_of, contains_chars, contains_seq, find_first, occurs_at, starts_with_seq};

verus! {

/// The error type of `serde_json`, carried through without looking inside.
#[verifier::external_type_specification]
#[verifier::external_body]
pub struct ExJsonError(serde_json::Error);

/// Why a reply could not be read.
#[derive(Clone, Copy, Debug, PartialEq, Eq, Structural)]
pub enum ReplyError {
    /// The reply opens a reasoning block that it never closes.
    MissingClosingTag,
    /// The reply is not JSON of the requested shape.
    NotJson,
    /// The reply names no security level.
    NoKeyword,
}

/// The tag that opens a reasoning block.
pub open spec fn think_open() -> Seq<char> {
    "<think>"@
}

/// The tag that closes a reasoning block.
pub open spec fn think_close() -> Seq<char> {
    "</think>"@
}

/// The first position at which `pat` occurs in `s` (meaningful when it occurs).
pub open spec fn first_index(s: Seq<char>, pat: Seq<char>) -> int {
    choose|i: int| occurs_at(s, pat, i) && forall|k: int| 0 <= k < i ==> !occurs_at(s, pat, k)
}

/// A reply with its leading reasoning block removed: everything after the
/// first closing tag when the reply starts with the opening tag; the reply
/// itself when it does not; nothing when the block is never closed.
pub open spec fn without_reasoning(s: Seq<char>) -> Option<Seq<char>> {
    if !starts_with_seq(s, think_open()) {
        Some(s)
    } else if !contains_seq(s, think_close()) {
        None
    } else {
        Some(s.skip(first_index(s, think_close()) + think_close().len()))
    }
}

proof fn lemma_first_index(s: Seq<char>, pat: Seq<char>, i: int)
    requires
        occurs_at(s, pat, i),
        forall|k: int| 0 <= k < i ==> !occurs_at(s, pat, k),
    ensures
        first_index(s, pat) == i,
{
    let j = first_index(s, pat);
    assert(occurs_at(s, pat, j) && forall|k: int| 0 <= k < j ==> !occurs_at(s, pat, k));
    if j < i {
        assert(!occurs_at(s, pat, j));
    }
    if i < j {
        assert(!occurs_at(s, pat, i));
    }
}

/// Removes a leading reasoning block from a reply.
pub fn strip_reasoning(reply: &str) -> (r: Result<String, ReplyError>)
    ensures
        match without_reasoning(reply@) {
            Some(t) => r matches Ok(x) && x@ == t,
            None => r == Err::<String, ReplyError>(ReplyError::MissingClosingTag),
        },
{
    let cs = chars_of(reply);
    let open = chars_of("<think>");
    if !crate::text::occurs_at_exec(&cs, &open, 0) {
        assert(reply@.skip(0) =~= reply@);
        return Ok(reply.substring_char(0, cs.len()).to_owned());
    }
    let close = chars_of("</think>");
    let n = cs.len();
    match find_first(&cs, &close) {
        None => Err(ReplyError::MissingClosingTag),
        Some(i) => {
            proof {
                lemma_first_index(reply@, think_close(), i as int);
                assert(occurs_at(cs@, close@, i as int));
                assert(i + close@.len() <= n);
            }
            let start = i + close.len();
            Ok(reply.substring_char(start, n).to_owned())
        },
    }
}

/// The security level a text names: the first keyword it contains, in the
/// order Critical, High, Medium, Low, Best, Unknown.
pub open spec fn level_in(s: Seq<char>) -> Option<SecurityLevel> {
    if contains_seq(s, "Critical"@) {
        Some(SecurityLevel::CriticalRisk)
    } else if contains_seq(s, "High"@) {
        Some(SecurityLevel::HighRisk)
    } else if contains_seq(s, "Medium"@) {
        Some(SecurityLevel::MediumRisk)
    } else if contains_seq(s, "Low"@) {
        Some(SecurityLevel::LowRisk)
    } else if contains_seq(s, "Best"@) {
        Some(SecurityLevel::BestPracticesCompliant)
    } else if contains_seq(s, "Unknown"@) {
        Some(SecurityLevel::UnknownUnassessed)
    } else {
        None
    }
}

/// Finds the security level a text names, by keyword priority.
pub fn classify_level(text: &str) -> (r: Option<SecurityLevel>)
    ensures
        r == level_in(text@),
{
    let cs = chars_of(text);
    if contains_chars(&cs, &chars_of("Critical")) {
        Some(SecurityLevel::CriticalRisk)
    } else if contains_chars(&cs, &chars_of("High")) {
        Some(SecurityLevel::HighRisk)
    } else if contains_chars(&cs, &chars_of("Medium")) {
        Some(SecurityLevel::MediumRisk)
    } else if contains_chars(&cs, &chars_of("Low")) {
        Some(SecurityLevel::LowRisk)
    } else if contains_chars(&cs, &chars_of("Best")) {
        Some(SecurityLevel::BestPracticesCompliant)
    } else if contains_chars(&cs, &chars_of("Unknown")) {
        Some(SecurityLevel::UnknownUnassessed)
    } else {
        None
    }
}

/// What reading a security-level reply gives.
pub open spec fn level_reply(s: Seq<char>) -> Result<SecurityLevel, ReplyError> {
    match without_reasoning(s) {
        None => Err(ReplyError::MissingClosingTag),
        Some(t) => match level_in(t) {
            Some(l) => Ok(l),
            None => Err(ReplyError::NoKeyword),
        },
    }
}

/// Reads a security-level reply: strips reasoning, then scans for keywords.
pub fn parse_security_level(reply: &str) -> (r: Result<SecurityLevel, ReplyError>)
    ensures
        r == level_reply(reply@),
{
    let text = strip_reasoning(reply)?;
    match classify_level(text.as_str()) {
        Some(l) => Ok(l),
        None => Err(ReplyError::NoKeyword),
    }
}

/// The characters of each string.
pub open spec fn strings_view(v: Seq<String>) -> Seq<Seq<char>> {
    v.map_values(|x: String| x@)
}

/// The characters of an optional string.
pub open spec fn opt_view(o: Option<String>) -> Option<Seq<char>> {
    match o {
        Some(x) => Some(x@),
        None => None,
    }
}

/// The strings of a JSON array of strings, as `serde_json` decodes it;
/// nothing when the text is not such an array.
pub uninterp spec fn json_string_list(s: Seq<char>) -> Option<Seq<Seq<char>>>;

/// The members of a JSON object whose values are strings or null, in key
/// order, as `serde_json` decodes it; nothing when the text is not such an object.
pub uninterp spec fn json_nullable_string_object(s: Seq<char>) -> Option<
    Seq<(Seq<char>, Option<Seq<char>>)>,
>;

/// Relies on `serde_json::from_str` to decode a JSON array of strings.
#[verifier::external_body]
fn decode_string_list(s: &str) -> (r: Result<Vec<String>, serde_json::Error>)
    ensures
        match r {
            Ok(v) => json_string_list(s@) == Some(strings_view(v@)),
            Err(_) => json_string_list(s@) is None,
        },
{
    serde_json::from_str::<Vec<String>>(s)
}

/// The members of an object as plain values.
pub open spec fn fields_view(v: Seq<(String, Option<String>)>) -> Seq<(Seq<char>, Option<Seq<char>>)> {
    v.map_values(|e: (String, Option<String>)| (e.0@, opt_view(e.1)))
}

/// Relies on `serde_json::from_str` to decode a JSON object whose values are
/// strings or null into a `BTreeMap`, whose entries are handed out in key order.
#[verifier::external_body]
fn decode_nullable_string_object(s: &str) -> (r: Result<Vec<(String, Option<String>)>, serde_json::Error>)
    ensures
        match r {
            Ok(v) => json_nullable_string_object(s@) == Some(fields_view(v@)),
            Err(_) => json_nullable_string_object(s@) is None,
        },
{
    match serde_json::from_str::<std::collections::BTreeMap<String, Option<String>>>(s) {
        Ok(m) => Ok(m.into_iter().collect()),
        Err(e) => Err(e),
    }
}

/// What reading a reply that must be a JSON list of strings gives.
pub open spec fn warnings_reply(s: Seq<char>) -> Result<Seq<Seq<char>>, ReplyError> {
    match without_reasoning(s) {
        None => Err(ReplyError::MissingClosingTag),
        Some(t) => match json_string_list(t) {
            Some(v) => Ok(v),
            None => Err(ReplyError::NotJson),
        },
    }
}

/// Reads a reply that must be a JSON list of strings.
pub fn parse_string_list(reply: &str) -> (r: Result<Vec<String>, ReplyError>)
    ensures
        match warnings_reply(reply@) {
            Ok(v) => r matches Ok(x) && strings_view(x@) == v,
            Err(e) => r == Err::<Vec<String>, ReplyError>(e),
        },
{
    let text = strip_reasoning(reply)?;
    match decode_string_list(text.as_str()) {
        Ok(v) => Ok(v),
        Err(_) => Err(ReplyError::NotJson),
    }
}

/// The value of the last member named `name`, or nothing when there is none
/// or it is null.
pub open spec fn member(fields: Seq<(Seq<char>, Option<Seq<char>>)>, name: Seq<char>) -> Option<Seq<char>>
    decreases fields.len(),
{
    if fields.len() == 0 {
        None
    } else if fields.last().0 == name {
        fields.last().1
    } else {
        member(fields.drop_last(), name)
    }
}

/// The six ownership fields, in the order they are declared.
pub open spec fn ownership_fields(o: Ownership) -> Seq<Option<Seq<char>>> {
    seq![
        opt_view(o.address_owned),
        opt_view(o.object_owned),
        opt_view(o.wrapped),
        opt_view(o.shared),
        opt_view(o.immutable),
        opt_view(o.event),
    ]
}

/// The member names of the six ownership fields.
pub open spec fn ownership_names() -> Seq<Seq<char>> {
    seq!["address_owned"@, "object_owned"@, "wrapped"@, "shared"@, "immutable"@, "event"@]
}

/// The ownership record that a decoded object describes.
pub open spec fn ownership_matches(o: Ownership, fields: Seq<(Seq<char>, Option<Seq<char>>)>) -> bool {
    forall|k: int| 0 <= k < 6 ==> #[trigger] ownership_fields(o)[k] == member(fields, ownership_names()[k])
}

fn member_value(fields: &Vec<(String, Option<String>)>, name: &str) -> (r: Option<String>)
    ensures
        opt_view(r) == member(fields_view(fields@), name@),
{
    let mut i: usize = fields.len();
    assert(fields@.subrange(0, i as int) =~= fields@);
    while i > 0
        invariant
            i <= fields.len(),
            member(fields_view(fields@), name@) == member(fields_view(fields@.subrange(0, i as int)), name@),
        decreases i,
    {
        let ghost pre = fields_view(fields@.subrange(0, i as int));
        assert(pre.drop_last() =~= fields_view(fields@.subrange(0, i - 1)));
        if crate::text::str_equal(fields[i - 1].0.as_str(), name) {
            return match &fields[i - 1].1 {
                Some(v) => Some(v.clone()),
                None => None,
            };
        }
        i = i - 1;
    }
    None
}

/// Builds the ownership record from the members of a decoded object; members
/// with other names are ignored.
pub fn ownership_from_fields(fields: &Vec<(String, Option<String>)>) -> (r: Ownership)
    ensures
        ownership_matches(r, fields_view(fields@)),
{
    let r = Ownership {
        address_owned: member_value(fields, "address_owned"),
        object_owned: member_value(fields, "object_owned"),
        wrapped: member_value(fields, "wrapped"),
        shared: member_value(fields, "shared"),
        immutable: member_value(fields, "immutable"),
        event: member_value(fields, "event"),
    };
    assert forall|k: int| 0 <= k < 6 implies #[trigger] ownership_fields(r)[k] == member(
        fields_view(fields@),
        ownership_names()[k],
    ) by {
        if k == 0 {
        } else if k == 1 {
        } else if k == 2 {
        } else if k == 3 {
        } else if k == 4 {
        } else {
        }
    }
    r
}

/// Reads a reply that must be a JSON object of ownership conditions.
pub fn parse_ownership(reply: &str) -> (r: Result<Ownership, ReplyError>)
    ensures
        match without_reasoning(reply@) {
            None => r == Err::<Ownership, ReplyError>(ReplyError::MissingClosingTag),
            Some(t) => match json_nullable_string_object(t) {
                Some(f) => r matches Ok(o) && ownership_matches(o, f),
                None => r == Err::<Ownership, ReplyError>(ReplyError::NotJson),
            },
        },
{
    let text = strip_reasoning(reply)?;
    match decode_nullable_string_object(text.as_str()) {
        Ok(fields) => Ok(ownership_from_fields(&fields)),
        Err(_) => Err(ReplyError::NotJson),
    }
}

} // verus!
