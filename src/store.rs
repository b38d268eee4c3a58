//! The append-only log of submissions: what a single append turns the stored sequence into.
//!
//! Reading and writing the file, and the lock that lets one append run at a time, belong
//! to the caller; this module decides what is written from what was read.
use vstd::prelude::*;

use crate::record::ResponseEntry;

verus! {

/// What reading the store gave.
#[derive(Debug)]
pub enum StoreContent {
    /// No store exists yet.
    Missing,
    /// The store exists but could not be read.
    Unreadable,
    /// The store was read but does not hold a sequence of entries.
    Corrupt,
    /// The store was read and holds these entries, oldest first.
    Entries(Vec<ResponseEntry>),
}

/// Why an append did not happen.
#[derive(PartialEq, Eq, Structural, Clone, Copy, Debug)]
pub enum StoreError {
    /// The store exists but could not be read; nothing was written.
    Read,
    /// The new sequence could not be written.
    Write,
}

/// The entries an append starts from. A corrupt store counts as empty: availability is
/// preferred to refusing submissions over a store that is already damaged.
pub open spec fn prior_of(read: StoreContent) -> Result<Seq<ResponseEntry>, StoreError> {
    match read {
        StoreContent::Missing => Ok(Seq::empty()),
        StoreContent::Unreadable => Err(StoreError::Read),
        StoreContent::Corrupt => Ok(Seq::empty()),
        StoreContent::Entries(v) => Ok(v@),
    }
}

/// The sequence an append writes, or the error that stops it before any write.
pub open spec fn appended(read: StoreContent, entry: ResponseEntry) -> Result<
    Seq<ResponseEntry>,
    StoreError,
> {
    match prior_of(read) {
        Ok(s) => Ok(s.push(entry)),
        Err(e) => Err(e),
    }
}

/// The entries to start from, given what reading the store gave.
pub fn prior_entries(read: StoreContent) -> (r: Result<Vec<ResponseEntry>, StoreError>)
    ensures
        match (r, prior_of(read)) {
            (Ok(v), Ok(s)) => v@ == s,
            (Err(e), Err(f)) => e == f,
            _ => false,
        },
{
    match read {
        StoreContent::Missing => Ok(Vec::new()),
        StoreContent::Unreadable => Err(StoreError::Read),
        StoreContent::Corrupt => Ok(Vec::new()),
        StoreContent::Entries(v) => Ok(v),
    }
}

/// The whole sequence to write back after appending `entry`: the prior entries in their
/// order with `entry` last. Fails, before any write, only when the store is unreadable.
pub fn append_submission(read: StoreContent, entry: ResponseEntry) -> (r: Result<
    Vec<ResponseEntry>,
    StoreError,
>)
    ensures
        match (r, appended(read, entry)) {
            (Ok(v), Ok(s)) => v@ == s,
            (Err(e), Err(f)) => e == f,
            _ => false,
        },
{
    match prior_entries(read) {
        Ok(mut v) => {
            v.push(entry);
            Ok(v)
        },
        Err(e) => Err(e),
    }
}

/// The store after a run of appends, one at a time, starting from `s`.
pub open spec fn after_appends(s: Seq<ResponseEntry>, news: Seq<ResponseEntry>) -> Seq<
    ResponseEntry,
>
    decreases news.len(),
{
    if news.len() == 0 {
        s
    } else {
        after_appends(s, news.drop_last()).push(news.last())
    }
}

/// Two appends in sequence, the second reading what the first wrote, leave the prior
/// entries in place followed by the first entry and then the second.
pub proof fn lemma_sequential_appends_keep_order(
    first: StoreContent,
    second: StoreContent,
    a: ResponseEntry,
    b: ResponseEntry,
)
    requires
        appended(first, a) is Ok,
        prior_of(second) == appended(first, a),
    ensures
        appended(second, b) is Ok,
        appended(second, b)->Ok_0 == prior_of(first)->Ok_0 + seq![a, b],
{
    assert(appended(second, b)->Ok_0 =~= prior_of(first)->Ok_0 + seq![a, b]);
}

/// Appends that run one at a time, each reading what the last wrote, lose and duplicate
/// nothing: the store ends as the prior entries followed by every new entry once, in the
/// order the appends ran.
pub proof fn lemma_serialized_appends(s: Seq<ResponseEntry>, news: Seq<ResponseEntry>)
    ensures
        after_appends(s, news) == s + news,
        after_appends(s, news).len() == s.len() + news.len(),
    decreases news.len(),
{
    if news.len() > 0 {
        lemma_serialized_appends(s, news.drop_last());
        assert(s + news =~= (s + news.drop_last()).push(news.last()));
    } else {
        assert(s + news =~= s);
    }
}

} // verus!
