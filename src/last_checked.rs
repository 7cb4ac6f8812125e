//! The last-seen post per watched account, stored as a JSON list of
//! `"accountId:tweetId"` entries.
//!
//! The list reads as a map from account to post id: an entry with exactly one
//! `:` maps the text before it to the text after it, a later entry for the
//! same account overrides an earlier one in place, and any other entry is
//! skipped. Accounts keep the order in which they first appear: the map is
//! an ordered list of pairs with distinct accounts, so the stored text is
//! the same on every run, where a hash map would write its entries in the
//! order its hasher happens to walk them.

use vstd::prelude::*;

use crate::json::{encode_string_list, json_string_list, json_string_list_of, parse_string_list};
use crate::text::{push_signed_decimal, signed_decimal, views};

verus! {

pub type Entries = Seq<(Seq<char>, Seq<char>)>;

pub open spec fn is_first_colon(e: Seq<char>, k: int) -> bool {
    &&& 0 <= k < e.len()
    &&& e[k] == ':'
    &&& forall|j: int| 0 <= j < k ==> e[j] != ':'
}

pub open spec fn no_colon_from(e: Seq<char>, from: int) -> bool {
    forall|j: int| from <= j < e.len() ==> e[j] != ':'
}

/// The two sides of an entry with exactly one `:`.
pub open spec fn entry_parts(e: Seq<char>) -> Option<(Seq<char>, Seq<char>)> {
    if exists|k: int| is_first_colon(e, k) && no_colon_from(e, k + 1) {
        let k = choose|k: int| is_first_colon(e, k) && no_colon_from(e, k + 1);
        Some((e.subrange(0, k), e.subrange(k + 1, e.len() as int)))
    } else {
        None
    }
}

pub open spec fn unique_keys(m: Entries) -> bool {
    forall|i: int, j: int| 0 <= i < j < m.len() ==> m[i].0 != m[j].0
}

/// `m` with `key` mapped to `value`: in place where `key` is there, else at the end.
pub open spec fn put(m: Entries, key: Seq<char>, value: Seq<char>) -> Entries {
    if exists|i: int| 0 <= i < m.len() && m[i].0 == key {
        let i = choose|i: int| 0 <= i < m.len() && m[i].0 == key;
        m.update(i, (key, value))
    } else {
        m.push((key, value))
    }
}

/// The map a list of entries reads as.
pub open spec fn entries_of(list: Seq<Seq<char>>) -> Entries
    decreases list.len(),
{
    if list.len() == 0 {
        Seq::empty()
    } else {
        let m = entries_of(list.drop_last());
        match entry_parts(list.last()) {
            Some(p) => put(m, p.0, p.1),
            None => m,
        }
    }
}

pub open spec fn entry_text(p: (Seq<char>, Seq<char>)) -> Seq<char> {
    p.0 + ":"@ + p.1
}

/// The stored list after `tweet` became the last-seen post of `target`; a
/// stored text that is not a JSON list of strings counts as an empty list.
pub open spec fn merged_last_checked(current: Seq<char>, target: i64, tweet: Seq<char>) -> Seq<
    char,
> {
    let m = match json_string_list_of(current) {
        Some(list) => entries_of(list),
        None => Seq::empty(),
    };
    json_string_list(
        put(m, signed_decimal(target as int), tweet).map_values(
            |p: (Seq<char>, Seq<char>)| entry_text(p),
        ),
    )
}

pub open spec fn pair_views(m: Seq<(String, String)>) -> Entries {
    m.map_values(|p: (String, String)| (p.0@, p.1@))
}

proof fn lemma_first_colon_unique(e: Seq<char>, k: int, l: int)
    requires
        is_first_colon(e, k),
        is_first_colon(e, l),
    ensures
        k == l,
{
    if k < l {
        assert(e[k] != ':');
    } else if l < k {
        assert(e[l] != ':');
    }
}

/// The index of the first `:` of `e`, or its length where there is none.
fn first_colon(e: &str) -> (r: usize)
    ensures
        r <= e@.len(),
        forall|j: int| 0 <= j < r ==> e@[j] != ':',
        r < e@.len() ==> e@[r as int] == ':',
{
    let n = e.unicode_len();
    let mut k: usize = 0;
    while k < n
        invariant
            n == e@.len(),
            k <= n,
            forall|j: int| 0 <= j < k ==> e@[j] != ':',
        decreases n - k,
    {
        if e.get_char(k) == ':' {
            return k;
        }
        k += 1;
    }
    k
}

/// Whether `e` has a `:` at or after `from`.
fn colon_from(e: &str, from: usize) -> (r: bool)
    ensures
        r == !no_colon_from(e@, from as int),
{
    let n = e.unicode_len();
    let mut k: usize = from;
    while k < n
        invariant
            n == e@.len(),
            from <= k || n <= k,
            forall|j: int| from <= j < k ==> e@[j] != ':',
        decreases n - k,
    {
        if e.get_char(k) == ':' {
            return true;
        }
        k += 1;
    }
    false
}

/// The two sides of an entry with exactly one `:`.
fn split_entry(e: &str) -> (r: Option<(String, String)>)
    ensures
        match entry_parts(e@) {
            Some(p) => (r matches Some(q) && q.0@ == p.0 && q.1@ == p.1),
            None => r is None,
        },
{
    let n = e.unicode_len();
    let k = first_colon(e);
    if k == n {
        proof {
            assert forall|l: int| !(is_first_colon(e@, l) && no_colon_from(e@, l + 1)) by {
                if is_first_colon(e@, l) {
                    assert(e@[l] == ':');
                }
            }
        }
        return None;
    }
    if colon_from(e, k + 1) {
        proof {
            assert forall|l: int| !(is_first_colon(e@, l) && no_colon_from(e@, l + 1)) by {
                if is_first_colon(e@, l) {
                    lemma_first_colon_unique(e@, k as int, l);
                }
            }
        }
        return None;
    }
    proof {
        assert(is_first_colon(e@, k as int) && no_colon_from(e@, k + 1));
        let c = choose|c: int| is_first_colon(e@, c) && no_colon_from(e@, c + 1);
        lemma_first_colon_unique(e@, k as int, c);
    }
    let before = e.substring_char(0, k).to_owned();
    let after = e.substring_char(k + 1, n).to_owned();
    Some((before, after))
}

/// Maps `key` to `value` in `m`.
fn put_entry(m: &mut Vec<(String, String)>, key: String, value: String)
    requires
        unique_keys(pair_views(old(m)@)),
    ensures
        pair_views(final(m)@) == put(pair_views(old(m)@), key@, value@),
        unique_keys(pair_views(final(m)@)),
{
    let ghost pm = pair_views(m@);
    let mut i: usize = 0;
    while i < m.len()
        invariant
            pm == pair_views(m@),
            pm == pair_views(old(m)@),
            unique_keys(pm),
            i <= m@.len(),
            forall|j: int| 0 <= j < i ==> pm[j].0 != key@,
        decreases m@.len() - i,
    {
        if m[i].0 == key {
            proof {
                assert(pm[i as int].0 == key@);
                let c = choose|c: int| 0 <= c < pm.len() && pm[c].0 == key@;
                assert(c == i) by {
                    if c != i as int {
                        assert(pm[i as int].0 == key@);
                    }
                }
            }
            m.set(i, (key, value));
            assert(pair_views(m@) =~= pm.update(i as int, (key@, value@)));
            assert(put(pm, key@, value@) == pm.update(i as int, (key@, value@)));
            return;
        }
        i += 1;
    }
    m.push((key, value));
    assert(pair_views(m@) =~= pm.push((key@, value@)));
}

/// The stored last-seen list after `tweet_id` became the last-seen post of
/// `target_bot_id`, given the stored list `current`.
pub fn merge_last_checked(current: &str, target_bot_id: i64, tweet_id: &str) -> (r: String)
    ensures
        r@ == merged_last_checked(current@, target_bot_id, tweet_id@),
{
    let mut m: Vec<(String, String)> = Vec::new();
    let ghost parsed: Option<Seq<Seq<char>>> = json_string_list_of(current@);
    match parse_string_list(current) {
        Ok(list) => {
            let mut i: usize = 0;
            while i < list.len()
                invariant
                    i <= list@.len(),
                    unique_keys(pair_views(m@)),
                    pair_views(m@) == entries_of(views(list@).take(i as int)),
                decreases list@.len() - i,
            {
                proof {
                    assert(views(list@).take(i + 1).drop_last() =~= views(list@).take(i as int));
                    assert(views(list@).take(i + 1).last() == list@[i as int]@);
                }
                match split_entry(list[i].as_str()) {
                    Some((k, v)) => put_entry(&mut m, k, v),
                    None => {},
                }
                i += 1;
            }
            assert(views(list@).take(list@.len() as int) =~= views(list@));
        },
        Err(_) => {
            assert(pair_views(m@) =~= Seq::<(Seq<char>, Seq<char>)>::empty());
        },
    }
    let mut key = String::new();
    push_signed_decimal(&mut key, target_bot_id);
    assert(key@ =~= signed_decimal(target_bot_id as int));
    put_entry(&mut m, key, tweet_id.to_owned());
    let mut texts: Vec<String> = Vec::new();
    let mut j: usize = 0;
    while j < m.len()
        invariant
            j <= m@.len(),
            views(texts@) == pair_views(m@).take(j as int).map_values(
                |p: (Seq<char>, Seq<char>)| entry_text(p),
            ),
        decreases m@.len() - j,
    {
        let ghost before = texts@;
        let mut t = m[j].0.clone();
        t.append(":");
        t.append(m[j].1.as_str());
        assert(t@ == entry_text(pair_views(m@)[j as int]));
        texts.push(t);
        proof {
            assert(views(texts@) =~= views(before).push(t@));
            assert(pair_views(m@).take(j + 1) =~= pair_views(m@).take(j as int).push(
                pair_views(m@)[j as int],
            ));
            assert(views(texts@) =~= pair_views(m@).take(j + 1).map_values(
                |p: (Seq<char>, Seq<char>)| entry_text(p),
            ));
        }
        j += 1;
    }
    assert(pair_views(m@).take(m@.len() as int) =~= pair_views(m@));
    encode_string_list(&texts).unwrap()
}

/// Reading a stored list never names an account twice.
pub proof fn lemma_entries_unique(list: Seq<Seq<char>>)
    ensures
        unique_keys(entries_of(list)),
    decreases list.len(),
{
    if list.len() > 0 {
        lemma_entries_unique(list.drop_last());
        let m = entries_of(list.drop_last());
        if let Some(p) = entry_parts(list.last()) {
            lemma_put_is_map_update(m, p.0, p.1);
        }
    }
}

/// Putting an account maps it to the new post id, keeps every other
/// account's entry, adds no other entry, and names no account twice.
pub proof fn lemma_put_is_map_update(m: Entries, key: Seq<char>, value: Seq<char>)
    requires
        unique_keys(m),
    ensures
        unique_keys(put(m, key, value)),
        put(m, key, value).contains((key, value)),
        forall|i: int|
            0 <= i < m.len() && m[i].0 != key ==> put(m, key, value).contains(#[trigger] m[i]),
        forall|i: int|
            0 <= i < put(m, key, value).len() && (#[trigger] put(m, key, value)[i]).0 != key
                ==> m.contains(put(m, key, value)[i]),
{
    let r = put(m, key, value);
    if exists|i: int| 0 <= i < m.len() && m[i].0 == key {
        let c = choose|i: int| 0 <= i < m.len() && m[i].0 == key;
        assert(r[c] == (key, value));
        assert forall|i: int| 0 <= i < m.len() && m[i].0 != key implies r.contains(
            #[trigger] m[i],
        ) by {
            assert(r[i] == m[i]);
        }
        assert forall|i: int| 0 <= i < r.len() && (#[trigger] r[i]).0 != key implies m.contains(
            r[i],
        ) by {
            assert(r[i] == m[i]);
        }
    } else {
        assert(r[m.len() as int] == (key, value));
        assert forall|i: int| 0 <= i < m.len() && m[i].0 != key implies r.contains(
            #[trigger] m[i],
        ) by {
            assert(r[i] == m[i]);
        }
        assert forall|i: int| 0 <= i < r.len() && (#[trigger] r[i]).0 != key implies m.contains(
            r[i],
        ) by {
            assert(r[i] == m[i]);
        }
    }
}

} // verus!
