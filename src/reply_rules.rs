//! Reply rules, before and after they turned from one watched account with
//! many repliers into many watched accounts with one replier.

use vstd::prelude::*;

use crate::json::{
    encode_id_list, encode_string_list, json_int_list, json_int_list_of, json_string_list,
    parse_id_list,
};
use crate::text::{blank, is_blank, push_signed_decimal, signed_decimal};

verus! {

/// A rule as the older table held it: one watched account, the replying
/// accounts as a JSON list of ids, whether it is active, and at most one
/// last-seen post id.
#[derive(Debug, Clone)]
pub struct LegacyReplyRule {
    pub target_bot_id: i64,
    pub reply_bot_ids: String,
    pub reply_content: String,
    pub is_active: bool,
    pub created_at: String,
    pub last_checked_tweet_id: Option<String>,
}

pub ghost struct LegacyReplyRuleView {
    pub target_bot_id: i64,
    pub reply_bot_ids: Seq<char>,
    pub reply_content: Seq<char>,
    pub is_active: bool,
    pub created_at: Seq<char>,
    pub last_checked_tweet_id: Option<Seq<char>>,
}

impl View for LegacyReplyRule {
    type V = LegacyReplyRuleView;

    open spec fn view(&self) -> LegacyReplyRuleView {
        LegacyReplyRuleView {
            target_bot_id: self.target_bot_id,
            reply_bot_ids: self.reply_bot_ids@,
            reply_content: self.reply_content@,
            is_active: self.is_active,
            created_at: self.created_at@,
            last_checked_tweet_id: match self.last_checked_tweet_id {
                Some(t) => Some(t@),
                None => None,
            },
        }
    }
}

/// A rule as the current table holds it: the watched accounts as a JSON list
/// of ids, one replier, and the last-seen post per watched account as a JSON
/// list of `"accountId:tweetId"` entries.
#[derive(Debug, Clone)]
pub struct ReplyRule {
    pub target_bot_ids: String,
    pub reply_bot_id: i64,
    pub reply_content: String,
    pub is_active: bool,
    pub last_checked_tweet_ids: String,
    pub created_at: String,
    pub updated_at: String,
}

pub ghost struct ReplyRuleView {
    pub target_bot_ids: Seq<char>,
    pub reply_bot_id: i64,
    pub reply_content: Seq<char>,
    pub is_active: bool,
    pub last_checked_tweet_ids: Seq<char>,
    pub created_at: Seq<char>,
    pub updated_at: Seq<char>,
}

impl View for ReplyRule {
    type V = ReplyRuleView;

    open spec fn view(&self) -> ReplyRuleView {
        ReplyRuleView {
            target_bot_ids: self.target_bot_ids@,
            reply_bot_id: self.reply_bot_id,
            reply_content: self.reply_content@,
            is_active: self.is_active,
            last_checked_tweet_ids: self.last_checked_tweet_ids@,
            created_at: self.created_at@,
            updated_at: self.updated_at@,
        }
    }
}

pub open spec fn legacy_views(rules: Seq<LegacyReplyRule>) -> Seq<LegacyReplyRuleView> {
    rules.map_values(|l: LegacyReplyRule| l@)
}

pub open spec fn rule_views(rules: Seq<ReplyRule>) -> Seq<ReplyRuleView> {
    rules.map_values(|r: ReplyRule| r@)
}

/// One entry of a last-seen list: `accountId:tweetId`.
pub open spec fn last_checked_entry(account: i64, tweet: Seq<char>) -> Seq<char> {
    signed_decimal(account as int) + ":"@ + tweet
}

/// The legacy last-seen id, scoped to the rule's one watched account.
pub open spec fn carried_last_checked(l: LegacyReplyRuleView) -> Seq<char> {
    match l.last_checked_tweet_id {
        Some(t) => json_string_list(seq![last_checked_entry(l.target_bot_id, t)]),
        None => "[]"@,
    }
}

/// The current-shape rule made from a legacy one for one of its repliers.
pub open spec fn carried_rule(l: LegacyReplyRuleView, replier: i64, now: Seq<char>) -> ReplyRuleView {
    ReplyRuleView {
        target_bot_ids: json_int_list(seq![l.target_bot_id]),
        reply_bot_id: replier,
        reply_content: l.reply_content,
        is_active: l.is_active,
        last_checked_tweet_ids: carried_last_checked(l),
        created_at: l.created_at,
        updated_at: now,
    }
}

/// A legacy rule becomes one rule per replier, in the repliers' order; one
/// whose repliers are not a JSON list of ids is dropped.
pub open spec fn fan_out_rule(l: LegacyReplyRuleView, now: Seq<char>) -> Seq<ReplyRuleView> {
    match json_int_list_of(l.reply_bot_ids) {
        Some(repliers) => repliers.map_values(|r: i64| carried_rule(l, r, now)),
        None => Seq::empty(),
    }
}

pub open spec fn fan_out(legacy: Seq<LegacyReplyRuleView>, now: Seq<char>) -> Seq<ReplyRuleView>
    decreases legacy.len(),
{
    if legacy.len() == 0 {
        Seq::empty()
    } else {
        fan_out(legacy.drop_last(), now) + fan_out_rule(legacy.last(), now)
    }
}

fn carried_last_checked_text(target: i64, last: &Option<String>) -> (r: String)
    ensures
        r@ == carried_last_checked(
            LegacyReplyRuleView {
                target_bot_id: target,
                reply_bot_ids: Seq::empty(),
                reply_content: Seq::empty(),
                is_active: true,
                created_at: Seq::empty(),
                last_checked_tweet_id: match last {
                    Some(t) => Some(t@),
                    None => None,
                },
            },
        ),
{
    match last {
        Some(tweet) => {
            let mut entry = String::new();
            push_signed_decimal(&mut entry, target);
            entry.append(":");
            entry.append(tweet.as_str());
            assert(entry@ =~= last_checked_entry(target, tweet@));
            let entries = vec![entry];
            assert(crate::text::views(entries@) =~= seq![last_checked_entry(target, tweet@)]);
            encode_string_list(&entries).unwrap()
        },
        None => "[]".to_owned(),
    }
}

/// Rewrites legacy rules into current-shape rules, one per (rule, replier),
/// stamped with `now` as their update time.
pub fn fan_out_reply_rules(legacy: &Vec<LegacyReplyRule>, now: &str) -> (r: Vec<ReplyRule>)
    ensures
        rule_views(r@) == fan_out(legacy_views(legacy@), now@),
{
    let mut out: Vec<ReplyRule> = Vec::new();
    let mut i: usize = 0;
    while i < legacy.len()
        invariant
            i <= legacy@.len(),
            rule_views(out@) == fan_out(legacy_views(legacy@).take(i as int), now@),
        decreases legacy@.len() - i,
    {
        let l = &legacy[i];
        let ghost start = out@;
        proof {
            assert(legacy_views(legacy@).take(i + 1).drop_last() =~= legacy_views(legacy@).take(
                i as int,
            ));
            assert(legacy_views(legacy@).take(i + 1).last() == l@);
        }
        match parse_id_list(l.reply_bot_ids.as_str()) {
            Ok(repliers) => {
                let ids = vec![l.target_bot_id];
                assert(ids@ =~= seq![l.target_bot_id]);
                let targets = encode_id_list(&ids).unwrap();
                let last = carried_last_checked_text(l.target_bot_id, &l.last_checked_tweet_id);
                let mut j: usize = 0;
                while j < repliers.len()
                    invariant
                        i < legacy@.len(),
                        l == legacy@[i as int],
                        j <= repliers@.len(),
                        json_int_list_of(l.reply_bot_ids@) == Some(repliers@),
                        targets@ == json_int_list(seq![l.target_bot_id]),
                        last@ == carried_last_checked(l@),
                        out@.len() == start.len() + j,
                        forall|k: int| 0 <= k < start.len() ==> out@[k] == start[k],
                        forall|m: int|
                            start.len() <= m < out@.len() ==> #[trigger] out@[m]@ == carried_rule(
                                l@,
                                repliers@[m - start.len()],
                                now@,
                            ),
                    decreases repliers@.len() - j,
                {
                    out.push(
                        ReplyRule {
                            target_bot_ids: targets.clone(),
                            reply_bot_id: repliers[j],
                            reply_content: l.reply_content.clone(),
                            is_active: l.is_active,
                            last_checked_tweet_ids: last.clone(),
                            created_at: l.created_at.clone(),
                            updated_at: now.to_owned(),
                        },
                    );
                    j += 1;
                }
                proof {
                    assert(rule_views(out@) =~= rule_views(start) + fan_out_rule(l@, now@));
                }
            },
            Err(_) => {
                proof {
                    assert(rule_views(out@) =~= rule_views(start) + fan_out_rule(l@, now@));
                }
            },
        }
        i += 1;
    }
    proof {
        assert(legacy_views(legacy@).take(legacy@.len() as int) =~= legacy_views(legacy@));
    }
    out
}

/// A legacy rule watching `T` whose repliers read as the list `rs` becomes
/// exactly `rs.len()` rules: the k-th has replier `rs[k]`, watches `[T]` alone,
/// and keeps the reply text, the active flag and the creation time. Inactive
/// rules are carried over like active ones. No replier is dropped or
/// repeated beyond its occurrences in `rs`.
pub proof fn lemma_fan_out_one_rule(l: LegacyReplyRuleView, rs: Seq<i64>, now: Seq<char>)
    requires
        json_int_list_of(l.reply_bot_ids) == Some(rs),
    ensures
        fan_out(seq![l], now).len() == rs.len(),
        fan_out(seq![l], now).map_values(|x: ReplyRuleView| x.reply_bot_id) == rs,
        forall|k: int|
            0 <= k < rs.len() ==> {
                let x = #[trigger] fan_out(seq![l], now)[k];
                &&& x.target_bot_ids == json_int_list(seq![l.target_bot_id])
                &&& x.reply_content == l.reply_content
                &&& x.created_at == l.created_at
                &&& x.is_active == l.is_active
            },
{
    assert(seq![l].drop_last() =~= Seq::<LegacyReplyRuleView>::empty());
    assert(seq![l].last() == l);
    assert(fan_out(Seq::<LegacyReplyRuleView>::empty(), now) =~= Seq::<ReplyRuleView>::empty());
    assert(fan_out(seq![l], now) =~= fan_out_rule(l, now));
    assert(fan_out(seq![l], now).map_values(|x: ReplyRuleView| x.reply_bot_id) =~= rs);
}

/// Why new reply settings were refused.
#[derive(Debug, Clone, Copy, PartialEq, Eq, Structural)]
pub enum ReplySettingsError {
    /// The reply text is empty once trimmed.
    EmptyContent,
    /// No account to watch was chosen.
    NoTargets,
}

impl ReplySettingsError {
    /// A text for the user.
    pub fn message(&self) -> (r: String)
        ensures
            r@ == match self {
                ReplySettingsError::EmptyContent => "返信内容が空です"@,
                ReplySettingsError::NoTargets => "監視対象Botが選択されていません"@,
            },
    {
        match self {
            ReplySettingsError::EmptyContent => "返信内容が空です".to_owned(),
            ReplySettingsError::NoTargets => "監視対象Botが選択されていません".to_owned(),
        }
    }
}

/// The stored form of the watched accounts of new reply settings, once the
/// settings are found acceptable: a reply text that is not blank, and at
/// least one watched account.
pub fn reply_targets_json(target_bot_ids: &Vec<i64>, reply_content: &str) -> (r: Result<
    String,
    ReplySettingsError,
>)
    ensures
        blank(reply_content@) ==> r matches Err(ReplySettingsError::EmptyContent),
        !blank(reply_content@) && target_bot_ids@.len() == 0 ==> r matches Err(
            ReplySettingsError::NoTargets,
        ),
        !blank(reply_content@) && target_bot_ids@.len() > 0 ==> (r matches Ok(s) && s@
            == json_int_list(target_bot_ids@)),
{
    if is_blank(reply_content) {
        return Err(ReplySettingsError::EmptyContent);
    }
    if target_bot_ids.len() == 0 {
        return Err(ReplySettingsError::NoTargets);
    }
    Ok(encode_id_list(target_bot_ids).unwrap())
}

} // verus!
