//! Object identifiers as raw bytes, and the lines that name them: updated
//! references after a fetch and the summary of a commit.

use vstd::prelude::*;
use crate::text::{lower_hex, pad_left};

verus! {

/// Whether every byte of an object identifier is zero.
pub open spec fn all_zero(bytes: Seq<u8>) -> bool {
    forall|i: int| 0 <= i < bytes.len() ==> bytes[i] == 0
}

/// `git2::Oid::from_bytes` followed by `Oid::is_zero`: for 20 bytes the
/// conversion succeeds, and the identifier is zero exactly when every byte is
/// zero.
#[verifier::external_body]
fn oid_is_zero(bytes: &[u8]) -> (zero: bool)
    requires
        bytes@.len() == 20,
    ensures
        zero == all_zero(bytes@),
{
    git2::Oid::from_bytes(bytes).unwrap().is_zero()
}

/// `git2::Oid::from_bytes` followed by the `Display` of `Oid`: for 20 bytes
/// the conversion succeeds, and the text is the lower-case hexadecimal
/// notation of the bytes, two digits per byte.
#[verifier::external_body]
fn oid_hex(bytes: &[u8]) -> (hex: String)
    requires
        bytes@.len() == 20,
    ensures
        hex@ == lower_hex(bytes@),
{
    git2::Oid::from_bytes(bytes).unwrap().to_string()
}

/// The hexadecimal notation has two characters per byte.
pub proof fn lemma_lower_hex_len(bytes: Seq<u8>)
    ensures
        lower_hex(bytes).len() == 2 * bytes.len(),
    decreases bytes.len(),
{
    if bytes.len() > 0 {
        lemma_lower_hex_len(bytes.drop_last());
    }
}

/// The line that reports one updated reference after a fetch: a new
/// reference when its old identifier is zero, else the old and the new
/// identifier. Identifiers stand in fields of 20 and 10 characters.
pub open spec fn tip_line_spec(refname: Seq<char>, old_id: Seq<u8>, new_id: Seq<u8>) -> Seq<char> {
    if all_zero(old_id) {
        "[new]     "@ + pad_left(lower_hex(new_id), 20) + " "@ + refname
    } else {
        "[updated] "@ + pad_left(lower_hex(old_id), 10) + ".."@ + pad_left(lower_hex(new_id), 10) + " "@
            + refname
    }
}

/// The line that reports one updated reference after a fetch.
pub fn tip_line(refname: &str, old_id: &[u8], new_id: &[u8]) -> (line: String)
    requires
        old_id@.len() == 20,
        new_id@.len() == 20,
    ensures
        line@ == tip_line_spec(refname@, old_id@, new_id@),
{
    proof {
        lemma_lower_hex_len(old_id@);
        lemma_lower_hex_len(new_id@);
    }
    let new_hex = oid_hex(new_id);
    if oid_is_zero(old_id) {
        let mut line = String::from_str("[new]     ");
        line.append(new_hex.as_str());
        line.append(" ");
        line.append(refname);
        assert(line@ =~= tip_line_spec(refname@, old_id@, new_id@));
        line
    } else {
        let old_hex = oid_hex(old_id);
        let mut line = String::from_str("[updated] ");
        line.append(old_hex.as_str());
        line.append("..");
        line.append(new_hex.as_str());
        line.append(" ");
        line.append(refname);
        assert(line@ =~= tip_line_spec(refname@, old_id@, new_id@));
        line
    }
}

/// What the description of a commit prints: a heading line, then the
/// identifier, the author and the message (or a stand-in when the commit has
/// no readable message).
pub open spec fn commit_summary_spec(id: Seq<u8>, author: Seq<char>, message: Option<Seq<char>>) -> Seq<Seq<char>> {
    seq![
        "display parent commit"@,
        "commit "@ + lower_hex(id) + "\nAuthor: "@ + author + "\nDate:   \n    "@ + (match message {
            Some(m) => m,
            None => "no commit message"@,
        }),
    ]
}

/// The lines that describe a commit.
pub fn commit_summary(id: &[u8], author: &str, message: Option<&str>) -> (lines: Vec<String>)
    requires
        id@.len() == 20,
    ensures
        lines.deep_view() == commit_summary_spec(
            id@,
            author@,
            match message {
                Some(m) => Some(m@),
                None => None,
            },
        ),
{
    let mut body = String::from_str("commit ");
    let hex = oid_hex(id);
    body.append(hex.as_str());
    body.append("\nAuthor: ");
    body.append(author);
    body.append("\nDate:   \n    ");
    match message {
        Some(m) => body.append(m),
        None => body.append("no commit message"),
    }
    let mut lines: Vec<String> = Vec::new();
    lines.push(String::from_str("display parent commit"));
    lines.push(body);
    assert(lines.deep_view() =~= commit_summary_spec(
        id@,
        author@,
        match message {
            Some(m) => Some(m@),
            None => None,
        },
    ));
    lines
}


/// A reference whose old identifier is zero is reported as new, with its new
/// identifier in full; any other as updated, with both identifiers in full,
/// old before new. The reference name ends the line.
pub proof fn lemma_tip_line(refname: Seq<char>, old_id: Seq<u8>, new_id: Seq<u8>)
    requires
        old_id.len() == 20,
        new_id.len() == 20,
    ensures
        all_zero(old_id) ==> tip_line_spec(refname, old_id, new_id) == "[new]     "@ + lower_hex(new_id) + " "@
            + refname,
        !all_zero(old_id) ==> tip_line_spec(refname, old_id, new_id) == "[updated] "@ + lower_hex(old_id) + ".."@
            + lower_hex(new_id) + " "@ + refname,
        tip_line_spec(refname, old_id, new_id).len() == (if all_zero(old_id) { 51 + refname.len() } else {
            93 + refname.len()
        }),
{
    lemma_lower_hex_len(old_id);
    lemma_lower_hex_len(new_id);
    reveal_strlit("[new]     ");
    reveal_strlit("[updated] ");
    reveal_strlit(" ");
    reveal_strlit("..");
}

} // verus!
