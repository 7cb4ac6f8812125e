use twilia::accounts::{validate_new_account, AccountError};
use twilia::content::{
    next_post_index, rotate_post_index, scheduled_content_from_list, stores_single_content,
    ContentError,
};
use twilia::export::adjust_export_path;
use twilia::last_checked::merge_last_checked;
use twilia::posting::{record_post_outcome, tweet_id_from_response, PostError};
use twilia::reply_rules::{fan_out_reply_rules, reply_targets_json, LegacyReplyRule, ReplySettingsError};

fn legacy(target: i64, repliers: &str, last: Option<&str>) -> LegacyReplyRule {
    LegacyReplyRule {
        target_bot_id: target,
        reply_bot_ids: repliers.to_string(),
        reply_content: "thanks!".to_string(),
        is_active: true,
        created_at: "2024-01-01T00:00:00+00:00".to_string(),
        last_checked_tweet_id: last.map(|s| s.to_string()),
    }
}

#[test]
fn fan_out_gives_one_rule_per_replier() {
    let now = "2024-06-01T00:00:00+00:00";
    let out = fan_out_reply_rules(&vec![legacy(7, "[11,12,13]", Some("555"))], now);
    assert_eq!(out.len(), 3);
    let repliers: Vec<i64> = out.iter().map(|r| r.reply_bot_id).collect();
    assert_eq!(repliers, vec![11, 12, 13]);
    for r in &out {
        assert_eq!(r.target_bot_ids, "[7]");
        assert_eq!(r.reply_content, "thanks!");
        assert!(r.is_active);
        assert_eq!(r.last_checked_tweet_ids, "[\"7:555\"]");
        assert_eq!(r.created_at, "2024-01-01T00:00:00+00:00");
        assert_eq!(r.updated_at, now);
    }
}

#[test]
fn fan_out_keeps_rule_order_and_drops_unreadable_repliers() {
    let out = fan_out_reply_rules(
        &vec![legacy(-3, "[1]", None), legacy(4, "not json", Some("9")), legacy(5, "[2, 3]", None)],
        "now",
    );
    assert_eq!(out.len(), 3);
    assert_eq!(out[0].target_bot_ids, "[-3]");
    assert_eq!(out[0].last_checked_tweet_ids, "[]");
    assert_eq!(out[1].target_bot_ids, "[5]");
    assert_eq!(out[1].reply_bot_id, 2);
    assert_eq!(out[2].reply_bot_id, 3);
    assert!(fan_out_reply_rules(&vec![], "now").is_empty());
    assert!(fan_out_reply_rules(&vec![legacy(1, "[]", None)], "now").is_empty());
}

#[test]
fn inactive_legacy_rule_is_carried_inactive() {
    let mut old = legacy(9, "[1,2]", None);
    old.is_active = false;
    let out = fan_out_reply_rules(&vec![old, legacy(4, "[3]", None)], "now");
    assert_eq!(out.len(), 3);
    assert!(!out[0].is_active && !out[1].is_active);
    assert_eq!(out[0].target_bot_ids, "[9]");
    assert!(out[2].is_active);
}

#[test]
fn rotation_wraps_past_the_end() {
    assert_eq!(next_post_index(2, 3), 0);
    assert_eq!(next_post_index(0, 3), 1);
    assert_eq!(next_post_index(1, 3), 2);
    assert_eq!(next_post_index(0, 1), 0);
    assert_eq!(next_post_index(5, 3), 0);
    assert_eq!(next_post_index(i32::MAX, usize::MAX), i32::MAX as i64 + 1);
}

#[test]
fn rotation_over_stored_list() {
    assert_eq!(rotate_post_index(2, "[\"a\",\"b\",\"c\"]"), Ok(0));
    assert_eq!(rotate_post_index(0, "[\"a\",\"b\",\"c\"]"), Ok(1));
    assert_eq!(rotate_post_index(0, "{}"), Err(ContentError::InvalidList));
    assert!(ContentError::InvalidList.message().starts_with("JSON"));
}

#[test]
fn list_row_mirrors_first_text() {
    let list = vec!["first \"one\"".to_string(), "second".to_string()];
    let row = scheduled_content_from_list("09:00,18:00", &list).unwrap();
    assert_eq!(row.content, "first \"one\"");
    assert_eq!(row.content_list, "[\"first \\\"one\\\"\",\"second\"]");
    assert_eq!(row.current_index, 0);
    assert_eq!(row.scheduled_times, "09:00,18:00");
    assert!(scheduled_content_from_list("", &list).is_none());
    assert!(scheduled_content_from_list("09:00", &vec![]).is_none());
}

#[test]
fn list_text_escapes_control_characters() {
    let list = vec!["a\nb\u{1}\\c\u{8}\u{c}\r\t\u{7f}é".to_string()];
    let row = scheduled_content_from_list("09:00", &list).unwrap();
    assert_eq!(row.content_list, "[\"a\\nb\\u0001\\\\c\\b\\f\\r\\t\u{7f}é\"]");
}

#[test]
fn single_text_needs_times_and_text() {
    assert!(stores_single_content("09:00", "hello"));
    assert!(!stores_single_content("", "hello"));
    assert!(!stores_single_content("09:00", " \t\u{3000}\n"));
}

#[test]
fn last_seen_entry_added_to_empty_list() {
    assert_eq!(merge_last_checked("[]", 5, "100"), "[\"5:100\"]");
}

#[test]
fn last_seen_entry_replaced_in_place() {
    assert_eq!(merge_last_checked("[\"5:1\",\"6:2\"]", 5, "100"), "[\"5:100\",\"6:2\"]");
    assert_eq!(merge_last_checked("[\"6:2\"]", -5, "100"), "[\"6:2\",\"-5:100\"]");
}

#[test]
fn last_seen_list_skips_malformed_entries() {
    assert_eq!(
        merge_last_checked("[\"nocolon\",\"a:b:c\",\"6:2\",\"6:3\"]", 7, "9"),
        "[\"6:3\",\"7:9\"]"
    );
    assert_eq!(merge_last_checked("garbage", 7, "9"), "[\"7:9\"]");
}

#[test]
fn account_fields_checked_in_order() {
    assert_eq!(validate_new_account("bot", "k", "ks", "t", "ts"), Ok(()));
    assert_eq!(validate_new_account("  ", "", "", "", ""), Err(AccountError::EmptyAccountName));
    assert_eq!(validate_new_account("bot", " ", "", "", ""), Err(AccountError::EmptyApiKey));
    assert_eq!(validate_new_account("bot", "k", "", "", ""), Err(AccountError::EmptyApiKeySecret));
    assert_eq!(validate_new_account("bot", "k", "ks", "\n", ""), Err(AccountError::EmptyAccessToken));
    assert_eq!(
        validate_new_account("bot", "k", "ks", "t", ""),
        Err(AccountError::EmptyAccessTokenSecret)
    );
    assert_eq!(AccountError::EmptyApiKey.message(), "API Keyが空です");
}

#[test]
fn reply_settings_checked_and_encoded() {
    assert_eq!(reply_targets_json(&vec![1, -2, 30], "hi"), Ok("[1,-2,30]".to_string()));
    assert_eq!(reply_targets_json(&vec![1], "   "), Err(ReplySettingsError::EmptyContent));
    assert_eq!(reply_targets_json(&vec![], "hi"), Err(ReplySettingsError::NoTargets));
    assert_eq!(ReplySettingsError::NoTargets.message(), "監視対象Botが選択されていません");
}

#[test]
fn export_path_under_data_moves_up() {
    assert_eq!(adjust_export_path("data/export.json"), "../data/export.json");
    assert_eq!(adjust_export_path("out/export.json"), "out/export.json");
    assert_eq!(adjust_export_path("data"), "data");
}

#[test]
fn response_with_id_is_success() {
    let r = tweet_id_from_response(true, "201 Created", "{\"data\":{\"id\":\"1234\",\"text\":\"hi\"}}");
    assert_eq!(r.unwrap(), "1234");
}

#[test]
fn response_without_id_or_json_fails() {
    assert!(matches!(tweet_id_from_response(true, "200 OK", "{\"data\":{}}"), Err(PostError::MissingId)));
    assert!(matches!(tweet_id_from_response(true, "200 OK", "{\"data\":{\"id\":5}}"), Err(PostError::MissingId)));
    assert!(matches!(tweet_id_from_response(true, "200 OK", "<html>"), Err(PostError::InvalidJson)));
}

#[test]
fn rejected_response_keeps_raw_body() {
    let e = tweet_id_from_response(false, "401 Unauthorized", "{\"title\":\"Unauthorized\"}").unwrap_err();
    assert_eq!(e.message(), "Twitter API エラー (401 Unauthorized): {\"title\":\"Unauthorized\"}");
}

#[test]
fn failed_post_still_logged_with_content() {
    let (log, answer) = record_post_outcome(3, "hello", &Err("boom".to_string()));
    assert_eq!(log.account_id, 3);
    assert_eq!(log.log_type, "error");
    assert_eq!(log.status, "error");
    assert_eq!(log.tweet_content.as_deref(), Some("hello"));
    assert_eq!(log.message, "テスト投稿に失敗しました: boom");
    assert!(!answer.success);
    assert_eq!(answer.message, "投稿に失敗しました: boom");
    let (log, answer) = record_post_outcome(3, "hello", &Ok("77".to_string()));
    assert_eq!(log.log_type, "tweet");
    assert_eq!(log.tweet_id.as_deref(), Some("77"));
    assert!(answer.success);
    assert_eq!(answer.tweet_id.as_deref(), Some("77"));
}
