//! Bounded-diff verification: a freshly written configuration file is
//! accepted only when its line diff against the previous contents has at
//! most one inserted and at most one deleted line, and every changed
//! line holds the managed key's literal name. Any other shape is treated
//! as a corruption signal.

use vstd::prelude::*;
use vstd::string::*;

use crate::locator::{find_pat, lemma_find_pat_bounds};
use crate::text::lemma_filter_push;
use crate::Error;

verus! {

/// Diff tag: the line is common to both texts.
pub const TAG_EQUAL: u8 = 0;

/// Diff tag: the line occurs only in the new text.
pub const TAG_INSERT: u8 = 1;

/// Diff tag: the line occurs only in the old text.
pub const TAG_DELETE: u8 = 2;

/// The line diff of two texts: the sequence of (tag, line) pairs that a
/// minimal line diff of `old` against `new` walks through, in order.
/// The result depends on the two texts alone.
pub uninterp spec fn line_diff(old: Seq<char>, new: Seq<char>) -> Seq<(u8, Seq<char>)>;

/// The view of a computed change list.
pub open spec fn pairs_view(s: Seq<(u8, String)>) -> Seq<(u8, Seq<char>)> {
    s.map_values(|p: (u8, String)| (p.0, p.1@))
}

/// Relies on similar's `TextDiff::from_lines` and `iter_all_changes`:
/// the flattened line diff of two texts, each change mapped to its tag
/// (equal, insert or delete) and its line text. The diff is computed
/// from the two texts alone.
#[verifier::external_body]
fn diff_lines(old: &str, new: &str) -> (r: Vec<(u8, String)>)
    ensures
        pairs_view(r@) == line_diff(old@, new@),
{
    let diff = similar::TextDiff::from_lines(old, new);
    diff.iter_all_changes()
        .map(|change| {
            let tag: u8 = match change.tag() {
                similar::ChangeTag::Equal => 0,
                similar::ChangeTag::Insert => 1,
                similar::ChangeTag::Delete => 2,
            };
            (tag, change.value().to_string())
        })
        .collect()
}

/// The managed key whose name every changed line must contain.
pub open spec fn managed_key() -> Seq<char> {
    "LaunchOptions"@
}

/// Whether a changed line is acceptable: it mentions the managed key.
pub open spec fn line_mentions_key(t: Seq<char>) -> bool {
    find_pat(t, managed_key(), 0, t.len() as int) is Some
}

/// The predicate selecting inserted lines.
pub open spec fn insert_pred() -> spec_fn((u8, Seq<char>)) -> bool {
    |p: (u8, Seq<char>)| p.0 == TAG_INSERT
}

/// The predicate selecting deleted lines.
pub open spec fn delete_pred() -> spec_fn((u8, Seq<char>)) -> bool {
    |p: (u8, Seq<char>)| p.0 == TAG_DELETE
}

/// A change list passes verification when every inserted or deleted
/// line mentions the managed key, and there is at most one of each.
pub open spec fn diff_ok(changes: Seq<(u8, Seq<char>)>) -> bool {
    &&& forall|k: int|
        0 <= k < changes.len() && ((#[trigger] changes[k]).0 == TAG_INSERT || changes[k].0
            == TAG_DELETE) ==> line_mentions_key(changes[k].1)
    &&& changes.filter(insert_pred()).len() <= 1
    &&& changes.filter(delete_pred()).len() <= 1
}

/// A passing change list changed the file when it inserted a line.
pub open spec fn diff_changed(changes: Seq<(u8, Seq<char>)>) -> bool {
    changes.filter(insert_pred()).len() > 0
}

/// A prefix never holds more matches than the whole.
proof fn lemma_filter_take_le<A>(s: Seq<A>, pred: spec_fn(A) -> bool, i: int)
    requires
        0 <= i <= s.len(),
    ensures
        s.take(i).filter(pred).len() <= s.filter(pred).len(),
    decreases s.len() - i,
{
    if i == s.len() {
        assert(s.take(i) =~= s);
    } else {
        assert(s.take(i + 1) =~= s.take(i).push(s[i]));
        lemma_filter_push(s.take(i), pred, s[i]);
        lemma_filter_take_le(s, pred, i + 1);
    }
}

/// Whether `t` contains the managed key's name.
fn mentions_key(t: &str) -> (r: bool)
    ensures
        r == line_mentions_key(t@),
{
    let n = t.unicode_len();
    let key = "LaunchOptions";
    proof {
        reveal_strlit("LaunchOptions");
    }
    match crate::locator::find_sub(t, key, 0, n) {
        Some(_) => true,
        None => false,
    }
}

/// Check the shape of a computed change list: every changed line must
/// mention the managed key, and at most one line may be inserted and at
/// most one deleted. Returns whether the new text differs from the old
/// one (a line was inserted).
pub fn verify_diff_changes(changes: &Vec<(u8, String)>) -> (r: Result<bool, Error>)
    ensures
        r is Ok <==> diff_ok(pairs_view(changes@)),
        r matches Ok(b) ==> b == diff_changed(pairs_view(changes@)),
{
    let ghost dv = pairs_view(changes@);
    let n = changes.len();
    let mut inserts: usize = 0;
    let mut deletes: usize = 0;
    let mut i: usize = 0;
    proof {
        assert(dv.take(0) =~= Seq::<(u8, Seq<char>)>::empty());
        reveal(Seq::filter);
    }
    while i < n
        invariant
            n == dv.len(),
            dv == pairs_view(changes@),
            0 <= i <= n,
            inserts == dv.take(i as int).filter(insert_pred()).len(),
            deletes == dv.take(i as int).filter(delete_pred()).len(),
            inserts <= 1,
            deletes <= 1,
            forall|k: int|
                0 <= k < i && ((#[trigger] dv[k]).0 == TAG_INSERT || dv[k].0 == TAG_DELETE)
                    ==> line_mentions_key(dv[k].1),
            forall|k: int| 0 <= k < n ==> dv[k] == (changes@[k].0, changes@[k].1@),
        decreases n - i,
    {
        let tag = changes[i].0;
        assert(dv[i as int].0 == tag);
        proof {
            assert(dv.take(i as int + 1) =~= dv.take(i as int).push(dv[i as int]));
            lemma_filter_push(dv.take(i as int), insert_pred(), dv[i as int]);
            lemma_filter_push(dv.take(i as int), delete_pred(), dv[i as int]);
        }
        if tag == TAG_INSERT {
            if !mentions_key(changes[i].1.as_str()) {
                proof {
                    lemma_filter_take_le(dv, insert_pred(), i as int);
                }
                return Err(Error::Custom(String::from_str(
                    "Tried to incorrectly insert a line unrelated to the launch options",
                )));
            }
            if inserts == 1 {
                proof {
                    lemma_filter_take_le(dv, insert_pred(), i as int + 1);
                }
                return Err(Error::Custom(String::from_str("More than one line is different")));
            }
            inserts = inserts + 1;
        } else if tag == TAG_DELETE {
            if !mentions_key(changes[i].1.as_str()) {
                return Err(Error::Custom(String::from_str(
                    "Tried to incorrectly delete a line unrelated to the launch options",
                )));
            }
            if deletes == 1 {
                proof {
                    lemma_filter_take_le(dv, delete_pred(), i as int + 1);
                }
                return Err(Error::Custom(String::from_str("More than one line is different")));
            }
            deletes = deletes + 1;
        }
        i = i + 1;
    }
    proof {
        assert(dv.take(n as int) =~= dv);
    }
    Ok(inserts > 0)
}

/// Verify that the new contents differ from the old ones only in the
/// bounded way the patcher allows, by line-diffing the two texts.
/// Returns whether the new text actually changes the file.
pub fn verify_file_diff(old_contents: &str, new_contents: &str) -> (r: Result<bool, Error>)
    ensures
        r is Ok <==> diff_ok(line_diff(old_contents@, new_contents@)),
        r matches Ok(b) ==> b == diff_changed(line_diff(old_contents@, new_contents@)),
{
    let changes = diff_lines(old_contents, new_contents);
    verify_diff_changes(&changes)
}

} // verus!
