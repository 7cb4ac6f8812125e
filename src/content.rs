//! Scheduled content: a single text, or a list of texts posted in rotation.
//!
//! A row made from a list keeps its first text in `content` as well, for
//! readers that know nothing of lists, and starts its rotation at index 0.

use vstd::prelude::*;

use crate::json::{encode_string_list, json_string_list, json_string_list_of, parse_string_list};
use crate::text::{blank, is_blank, views};

verus! {

/// Why a rotation step could not be taken.
#[derive(Debug, Clone, Copy, PartialEq, Eq, Structural)]
pub enum ContentError {
    /// The stored list is not a JSON list of strings.
    InvalidList,
}

impl ContentError {
    /// A text for the user.
    pub fn message(&self) -> (r: String)
        ensures
            r@ == match self {
                ContentError::InvalidList => "JSON解析エラー: content list is not a list of strings"@,
            },
    {
        match self {
            ContentError::InvalidList => "JSON解析エラー: content list is not a list of strings".to_owned(),
        }
    }
}

/// The index after one rotation step: the next position, or the first once
/// the next would be past the end.
pub open spec fn next_index_of(current: int, len: int) -> int {
    if current + 1 >= len {
        0
    } else {
        current + 1
    }
}

/// The index of the text to post after the one at `current_index`, in a list
/// of `list_len` texts.
pub fn next_post_index(current_index: i32, list_len: usize) -> (r: i64)
    ensures
        r == next_index_of(current_index as int, list_len as int),
{
    let next: i64 = current_index as i64 + 1;
    if next as i128 >= list_len as i128 {
        0
    } else {
        next
    }
}

/// One rotation step on a list of `n` texts from a valid index `i` lands on
/// `(i + 1) mod n`.
pub proof fn lemma_rotation_step(i: int, n: int)
    requires
        0 <= i < n,
    ensures
        next_index_of(i, n) == (i + 1) % n,
{
    if i + 1 >= n {
        assert((i + 1) % n == 0) by {
            vstd::arithmetic::div_mod::lemma_mod_self_0(n);
        }
    } else {
        vstd::arithmetic::div_mod::lemma_small_mod((i + 1) as nat, n as nat);
    }
}

/// The index after one rotation step over the list stored as JSON text.
pub fn rotate_post_index(current_index: i32, content_list_json: &str) -> (r: Result<i64, ContentError>)
    ensures
        match json_string_list_of(content_list_json@) {
            Some(list) => r == Ok::<i64, ContentError>(
                next_index_of(current_index as int, list.len() as int) as i64,
            ),
            None => r == Err::<i64, ContentError>(ContentError::InvalidList),
        },
{
    match parse_string_list(content_list_json) {
        Ok(list) => Ok(next_post_index(current_index, list.len())),
        Err(_) => Err(ContentError::InvalidList),
    }
}

/// The fields of a new scheduled row made from a list of texts.
#[derive(Debug, Clone)]
pub struct ScheduledContent {
    /// The first text, for readers that know only single texts.
    pub content: String,
    /// The whole list as JSON text.
    pub content_list: String,
    pub current_index: i64,
    pub scheduled_times: String,
}

/// The row to store for a list of texts posted at `scheduled_times`, or `None`
/// where either is empty and nothing is to be stored.
pub fn scheduled_content_from_list(scheduled_times: &str, content_list: &Vec<String>) -> (r: Option<
    ScheduledContent,
>)
    ensures
        r is Some <==> scheduled_times@.len() > 0 && content_list@.len() > 0,
        r matches Some(row) ==> {
            &&& row.content@ == content_list@[0]@
            &&& row.content_list@ == json_string_list(views(content_list@))
            &&& row.current_index == 0
            &&& row.scheduled_times@ == scheduled_times@
        },
{
    if scheduled_times.is_empty() || content_list.len() == 0 {
        return None;
    }
    let list = encode_string_list(content_list).unwrap();
    Some(
        ScheduledContent {
            content: content_list[0].clone(),
            content_list: list,
            current_index: 0,
            scheduled_times: scheduled_times.to_owned(),
        },
    )
}

/// Whether a single text posted at `scheduled_times` is stored: both must
/// hold something, the text once trimmed.
pub fn stores_single_content(scheduled_times: &str, content: &str) -> (r: bool)
    ensures
        r == (scheduled_times@.len() > 0 && !blank(content@)),
{
    !scheduled_times.is_empty() && !is_blank(content)
}

} // verus!
