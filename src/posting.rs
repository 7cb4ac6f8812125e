//! What an outbound post's outcome means: the id read from the API's reply,
//! and the log entry and answer made from success or failure. A failed post
//! is logged too, with the text that was attempted.

use vstd::prelude::*;

verus! {

/// The string at `data.id` of a JSON text: `None` when the text is not JSON,
/// `Some(None)` when it holds no string there.
pub uninterp spec fn json_data_id_of(body: Seq<char>) -> Option<Option<Seq<char>>>;

/// Relies on `serde_json::from_str::<serde_json::Value>`, on indexing a value
/// by a key (which gives `Null` where there is no such key), and on
/// `Value::as_str`.
#[verifier::external_body]
fn data_id_in(body: &str) -> (r: Result<Option<String>, serde_json::Error>)
    ensures
        match r {
            Ok(id) => json_data_id_of(body@) == Some(
                match id {
                    Some(s) => Some(s@),
                    None => None,
                },
            ),
            Err(_) => json_data_id_of(body@) is None,
        },
{
    let v: serde_json::Value = serde_json::from_str(body)?;
    Ok(v["data"]["id"].as_str().map(|s| s.to_owned()))
}

/// Why a post did not yield a post id.
#[derive(Debug, Clone)]
pub enum PostError {
    /// The API answered with a status other than success; the raw body is kept.
    Rejected { status: String, body: String },
    /// The API answered with success, but not with JSON.
    InvalidJson,
    /// The API answered with success and JSON, but with no string at `data.id`.
    MissingId,
}

impl PostError {
    /// A text for the user.
    pub fn message(&self) -> (r: String)
        ensures
            r@ == match self {
                PostError::Rejected { status, body } => "Twitter API エラー ("@ + status@ + "): "@
                    + body@,
                PostError::InvalidJson => "JSON解析エラー: response body is not JSON"@,
                PostError::MissingId => "ツイートIDが取得できませんでした"@,
            },
    {
        match self {
            PostError::Rejected { status, body } => {
                let mut m = "Twitter API エラー (".to_owned();
                m.append(status.as_str());
                m.append("): ");
                m.append(body.as_str());
                m
            },
            PostError::InvalidJson => "JSON解析エラー: response body is not JSON".to_owned(),
            PostError::MissingId => "ツイートIDが取得できませんでした".to_owned(),
        }
    }
}

/// The id of the new post, from the API's reply: its status line and whether
/// that status is a success, and its body.
pub fn tweet_id_from_response(success: bool, status: &str, body: &str) -> (r: Result<String, PostError>)
    ensures
        !success ==> (r matches Err(PostError::Rejected { status: s, body: b }) && s@ == status@
            && b@ == body@),
        success ==> match json_data_id_of(body@) {
            None => r matches Err(PostError::InvalidJson),
            Some(None) => r matches Err(PostError::MissingId),
            Some(Some(id)) => (r matches Ok(x) && x@ == id),
        },
{
    if !success {
        return Err(PostError::Rejected { status: status.to_owned(), body: body.to_owned() });
    }
    match data_id_in(body) {
        Ok(Some(id)) => Ok(id),
        Ok(None) => Err(PostError::MissingId),
        Err(_) => Err(PostError::InvalidJson),
    }
}

/// An execution log entry to store; the caller stamps it with the time.
#[derive(Debug, Clone)]
pub struct ExecutionLogEntry {
    pub account_id: i64,
    pub log_type: String,
    pub message: String,
    pub tweet_id: Option<String>,
    pub tweet_content: Option<String>,
    pub status: String,
}

/// The answer to a manual post.
#[derive(Debug, Clone)]
pub struct PostResponse {
    pub success: bool,
    pub tweet_id: Option<String>,
    pub message: String,
}

pub open spec fn opt_view(o: Option<String>) -> Option<Seq<char>> {
    match o {
        Some(s) => Some(s@),
        None => None,
    }
}

/// The log entry and the answer for a manual post of `content` from
/// `account_id` that ended in `outcome`: the new post's id, or the reason it
/// failed.
pub fn record_post_outcome(account_id: i64, content: &str, outcome: &Result<String, String>) -> (r: (
    ExecutionLogEntry,
    PostResponse,
))
    ensures
        r.0.account_id == account_id,
        opt_view(r.0.tweet_content) == Some(content@),
        match outcome {
            Ok(id) => {
                &&& r.0.log_type@ == "tweet"@
                &&& r.0.message@ == "テスト投稿が成功しました"@
                &&& opt_view(r.0.tweet_id) == Some(id@)
                &&& r.0.status@ == "success"@
                &&& r.1.success
                &&& opt_view(r.1.tweet_id) == Some(id@)
                &&& r.1.message@ == "テスト投稿が成功しました！"@
            },
            Err(e) => {
                &&& r.0.log_type@ == "error"@
                &&& r.0.message@ == "テスト投稿に失敗しました: "@ + e@
                &&& r.0.tweet_id is None
                &&& r.0.status@ == "error"@
                &&& !r.1.success
                &&& r.1.tweet_id is None
                &&& r.1.message@ == "投稿に失敗しました: "@ + e@
            },
        },
{
    match outcome {
        Ok(id) => (
            ExecutionLogEntry {
                account_id,
                log_type: "tweet".to_owned(),
                message: "テスト投稿が成功しました".to_owned(),
                tweet_id: Some(id.clone()),
                tweet_content: Some(content.to_owned()),
                status: "success".to_owned(),
            },
            PostResponse {
                success: true,
                tweet_id: Some(id.clone()),
                message: "テスト投稿が成功しました！".to_owned(),
            },
        ),
        Err(e) => {
            let mut log_message = "テスト投稿に失敗しました: ".to_owned();
            log_message.append(e.as_str());
            let mut answer = "投稿に失敗しました: ".to_owned();
            answer.append(e.as_str());
            (
                ExecutionLogEntry {
                    account_id,
                    log_type: "error".to_owned(),
                    message: log_message,
                    tweet_id: None,
                    tweet_content: Some(content.to_owned()),
                    status: "error".to_owned(),
                },
                PostResponse { success: false, tweet_id: None, message: answer },
            )
        },
    }
}

} // verus!
