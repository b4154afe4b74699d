//! Which replies become journal entries, and what the reminder says.
use crate::date::CivilDate;
use vstd::prelude::*;

verus! {

/// Whether `pat` occurs in `s` starting at position `i`.
pub open spec fn occurs_at(s: Seq<char>, pat: Seq<char>, i: int) -> bool {
    0 <= i && i + pat.len() <= s.len() && s.subrange(i, i + pat.len()) == pat
}

/// Whether `pat` occurs anywhere in `s`.
pub open spec fn contains(s: Seq<char>, pat: Seq<char>) -> bool {
    exists|i: int| occurs_at(s, pat, i)
}

/// The bracketed form `<address>` used in "Display Name <address>" headers.
pub open spec fn bracketed(address: Seq<char>) -> Seq<char> {
    seq!['<'] + address + seq!['>']
}

/// A sender header names the journal's author when it is the author's address
/// itself or holds it in brackets.
pub open spec fn authorized(from: Seq<char>, target: Seq<char>) -> bool {
    from == target || contains(from, bracketed(target))
}

/// Whether `pat` occurs in `s` at position `i`.
fn matches_at(s: &str, pat: &str, i: usize) -> (r: bool)
    requires
        i + pat@.len() <= s@.len(),
        s@.len() <= usize::MAX,
    ensures
        r == occurs_at(s@, pat@, i as int),
{
    let n = pat.unicode_len();
    let mut k: usize = 0;
    while k < n
        invariant
            n == pat@.len(),
            i + n <= s@.len(),
            s@.len() <= usize::MAX,
            0 <= k <= n,
            forall|j: int| 0 <= j < k ==> s@[i + j] == pat@[j],
        decreases n - k,
    {
        if s.get_char(i + k) != pat.get_char(k) {
            assert(s@.subrange(i as int, i + n)[k as int] != pat@[k as int]);
            return false;
        }
        k = k + 1;
    }
    assert(s@.subrange(i as int, i + n) =~= pat@);
    true
}

/// Whether `pat` occurs anywhere in `s`.
pub fn contains_text(s: &str, pat: &str) -> (r: bool)
    ensures
        r == contains(s@, pat@),
{
    let n = s.unicode_len();
    let m = pat.unicode_len();
    if m > n {
        return false;
    }
    let mut i: usize = 0;
    loop
        invariant
            n == s@.len(),
            m == pat@.len(),
            m <= n,
            i <= n - m,
            forall|j: int| 0 <= j < i ==> !occurs_at(s@, pat@, j),
        ensures
            forall|j: int| 0 <= j <= n - m ==> !occurs_at(s@, pat@, j),
        decreases n - m - i,
    {
        if matches_at(s, pat, i) {
            return true;
        }
        if i == n - m {
            break;
        }
        i = i + 1;
    }
    assert forall|j: int| !occurs_at(s@, pat@, j) by {
        if 0 <= j <= n - m {
        }
    }
    false
}

/// Whether a reply with sender header `from` comes from the journal's author,
/// whose address is `target`: the header is the address itself, or holds it as
/// `<address>`.
pub fn sender_is_authorized(from: &str, target: &str) -> (r: bool)
    ensures
        r == authorized(from@, target@),
{
    let mut pat = String::from_str("<");
    pat.append(target);
    pat.append(">");
    proof {
        reveal_strlit("<");
        reveal_strlit(">");
        assert(pat@ =~= bracketed(target@));
    }
    let same = from.unicode_len() == target.unicode_len() && contains_text(from, target);
    proof {
        if same {
            let i = choose|i: int| occurs_at(from@, target@, i);
            assert(i == 0);
            assert(from@.subrange(0, target@.len() as int) =~= from@);
        }
        if !same && from@ == target@ {
            assert(from@.subrange(0, from@.len() as int) =~= from@);
            assert(occurs_at(from@, target@, 0));
        }
    }
    same || contains_text(from, pat.as_str())
}

/// What becomes of one reply.
#[derive(Clone, Copy, Debug, PartialEq, Eq, Structural)]
pub enum IngestAction {
    /// Not from the journal's author: dropped without a word.
    Ignore,
    /// The day already has its entry: the reply is dropped and the author is
    /// told so.
    RejectDuplicate,
    /// The reply becomes the entry of its day.
    Insert,
}

/// The action owed to a reply with sender header `from`, when the day it was
/// sent on already has an entry (`already_stored`) or not.
pub open spec fn ingest_action(from: Seq<char>, target: Seq<char>, already_stored: bool) -> IngestAction {
    if !authorized(from, target) {
        IngestAction::Ignore
    } else if already_stored {
        IngestAction::RejectDuplicate
    } else {
        IngestAction::Insert
    }
}

/// Decides what becomes of a reply with sender header `from`, given whether
/// its day already holds an entry: the first entry of a day wins.
pub fn decide_ingest(from: &str, target: &str, already_stored: bool) -> (r: IngestAction)
    ensures
        r == ingest_action(from@, target@, already_stored),
{
    if !sender_is_authorized(from, target) {
        IngestAction::Ignore
    } else if already_stored {
        IngestAction::RejectDuplicate
    } else {
        IngestAction::Insert
    }
}

/// A stored entry as the store's contents see it: its date and its text.
pub type StoredEntry = (CivilDate, Seq<char>);

/// Whether some entry of `store` has date `date`.
pub open spec fn has_entry_on(store: Seq<StoredEntry>, date: CivilDate) -> bool {
    exists|i: int| 0 <= i < store.len() && store[i].0 == date
}

/// No two entries of `store` share a date.
pub open spec fn one_entry_per_date(store: Seq<StoredEntry>) -> bool {
    forall|i: int, j: int|
        0 <= i < store.len() && 0 <= j < store.len() && i != j ==> store[i].0 != store[j].0
}

/// The texts of the entries of `store` dated `date`, in order of storage.
pub open spec fn bodies_on(store: Seq<StoredEntry>, date: CivilDate) -> Seq<Seq<char>>
    decreases store.len(),
{
    if store.len() == 0 {
        Seq::empty()
    } else {
        let rest = bodies_on(store.drop_last(), date);
        if store.last().0 == date {
            rest.push(store.last().1)
        } else {
            rest
        }
    }
}

/// The store after a reply from `from`, sent on `date` with text `body`, went
/// through the ingestion rule, the store being asked first whether `date` has
/// an entry.
pub open spec fn ingest(
    store: Seq<StoredEntry>,
    target: Seq<char>,
    from: Seq<char>,
    date: CivilDate,
    body: Seq<char>,
) -> Seq<StoredEntry> {
    if ingest_action(from, target, has_entry_on(store, date)) == IngestAction::Insert {
        store.push((date, body))
    } else {
        store
    }
}

/// A reply as the ingestion rule sees it: sender header, date sent, text.
pub type Reply = (Seq<char>, CivilDate, Seq<char>);

/// The store after `replies` went through the ingestion rule, in order.
pub open spec fn ingest_all(store: Seq<StoredEntry>, target: Seq<char>, replies: Seq<Reply>) -> Seq<
    StoredEntry,
>
    decreases replies.len(),
{
    if replies.len() == 0 {
        store
    } else {
        let r = replies.last();
        ingest(ingest_all(store, target, replies.drop_last()), target, r.0, r.1, r.2)
    }
}

/// Ingestion keeps at most one entry per date: from a store with one entry per
/// date, any sequence of replies leaves a store with one entry per date.
pub proof fn lemma_ingest_keeps_one_entry_per_date(
    store: Seq<StoredEntry>,
    target: Seq<char>,
    replies: Seq<Reply>,
)
    requires
        one_entry_per_date(store),
    ensures
        one_entry_per_date(ingest_all(store, target, replies)),
    decreases replies.len(),
{
    if replies.len() > 0 {
        let before = ingest_all(store, target, replies.drop_last());
        lemma_ingest_keeps_one_entry_per_date(store, target, replies.drop_last());
        let r = replies.last();
        let after = ingest(before, target, r.0, r.1, r.2);
        if after != before {
            assert forall|i: int, j: int|
                0 <= i < after.len() && 0 <= j < after.len() && i != j implies after[i].0
                != after[j].0 by {
                if i < before.len() && j < before.len() {
                    assert(after[i] == before[i] && after[j] == before[j]);
                } else if i < before.len() {
                    assert(after[i] == before[i]);
                } else {
                    assert(after[j] == before[j]);
                }
            }
        }
    }
}

/// The first reply of a day wins: once a date has an entry, a later reply on
/// that date from the author is rejected with a notice and changes nothing.
pub proof fn lemma_second_reply_same_day_rejected(
    store: Seq<StoredEntry>,
    target: Seq<char>,
    first: Seq<char>,
    second: Seq<char>,
    date: CivilDate,
)
    requires
        !has_entry_on(store, date),
    ensures
        ingest_action(target, target, has_entry_on(store, date)) == IngestAction::Insert,
        ingest_action(
            target,
            target,
            has_entry_on(ingest(store, target, target, date, first), date),
        ) == IngestAction::RejectDuplicate,
        ingest(ingest(store, target, target, date, first), target, target, date, second) == ingest(
            store,
            target,
            target,
            date,
            first,
        ),
        bodies_on(
            ingest(ingest(store, target, target, date, first), target, target, date, second),
            date,
        ) == seq![first],
{
    let s1 = ingest(store, target, target, date, first);
    assert(s1 == store.push((date, first)));
    assert(s1[store.len() as int].0 == date);
    lemma_bodies_on_absent(store, date);
    assert(s1.drop_last() =~= store);
    assert(bodies_on(s1, date) =~= seq![first]);
}

/// A store with no entry on `date` has no text for it.
proof fn lemma_bodies_on_absent(store: Seq<StoredEntry>, date: CivilDate)
    requires
        !has_entry_on(store, date),
    ensures
        bodies_on(store, date) == Seq::<Seq<char>>::empty(),
    decreases store.len(),
{
    if store.len() > 0 {
        let rest = store.drop_last();
        assert(!has_entry_on(rest, date)) by {
            if has_entry_on(rest, date) {
                let i = choose|i: int| 0 <= i < rest.len() && rest[i].0 == date;
                assert(store[i] == rest[i]);
            }
        }
        assert(store[store.len() - 1].0 != date);
        lemma_bodies_on_absent(rest, date);
    }
}

/// Storing then reading back: once a reply from the author is stored for a
/// date that had no entry, that date reads back exactly its text, unchanged.
pub proof fn lemma_store_then_read_back(
    store: Seq<StoredEntry>,
    target: Seq<char>,
    date: CivilDate,
    body: Seq<char>,
)
    requires
        !has_entry_on(store, date),
    ensures
        bodies_on(ingest(store, target, target, date, body), date) == seq![body],
{
    lemma_second_reply_same_day_rejected(store, target, body, body, date);
}

} // verus!
