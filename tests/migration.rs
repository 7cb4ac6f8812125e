use twilia::catalog::Catalog;
use twilia::migration::{
    next_step, plan, AddedColumn, Step, INSERT_REPLY_RULE_SQL, LEGACY_REPLY_RULES_QUERY,
};
use twilia::schema::{all_tables, create_table_sql, Table};

fn cols(names: &[&str]) -> Option<Vec<String>> {
    Some(names.iter().map(|s| s.to_string()).collect())
}

const BOT_ACCOUNTS: &[&str] = &[
    "id", "account_name", "api_key", "api_key_secret", "access_token", "access_token_secret",
    "api_type", "status", "created_at", "updated_at",
];
const BOT_CONFIGS: &[&str] = &[
    "id", "account_id", "is_enabled", "auto_tweet_enabled", "tweet_interval_minutes",
    "tweet_templates", "hashtags", "created_at", "updated_at",
];
const REPLY_SETTINGS: &[&str] = &[
    "id", "target_bot_ids", "reply_bot_id", "reply_content", "is_active",
    "last_checked_tweet_ids", "created_at", "updated_at",
];
const LEGACY_REPLY_SETTINGS: &[&str] = &[
    "id", "target_bot_id", "reply_bot_ids", "reply_content", "is_active",
    "last_checked_tweet_id", "created_at", "updated_at",
];
const EXECUTION_LOGS: &[&str] = &[
    "id", "account_id", "log_type", "message", "tweet_id", "tweet_content", "status", "created_at",
];
const SCHEDULED_TWEETS: &[&str] = &[
    "id", "account_id", "content", "content_list", "current_index", "scheduled_times",
    "is_active", "created_at", "updated_at",
];
const LEGACY_SCHEDULED_TWEETS: &[&str] = &["id", "account_id", "content", "created_at", "updated_at"];
const USER_SETTINGS: &[&str] = &["id", "user_id", "plan_type", "max_accounts", "created_at", "updated_at"];
const APP_SETTINGS: &[&str] = &["key", "value", "updated_at"];

fn catalog_of(tables: &[(&str, &[&str])]) -> Catalog {
    let mut c = Catalog::new();
    for (name, columns) in tables {
        c.record_table(name.to_string(), Some(1), cols(columns));
    }
    c
}

fn current_catalog() -> Catalog {
    catalog_of(&[
        ("bot_accounts", BOT_ACCOUNTS),
        ("bot_configs", BOT_CONFIGS),
        ("reply_settings", REPLY_SETTINGS),
        ("execution_logs", EXECUTION_LOGS),
        ("scheduled_tweets", SCHEDULED_TWEETS),
        ("user_settings", USER_SETTINGS),
        ("app_settings", APP_SETTINGS),
        ("sqlite_sequence", &["name", "seq"]),
    ])
}

#[test]
fn empty_store_takes_the_fresh_install_path() {
    let c = Catalog::new();
    assert_eq!(plan(&c), vec![Step::FreshInstall]);
    assert_eq!(next_step(&c), Some(Step::FreshInstall));
}

#[test]
fn fresh_install_creates_every_table_then_seeds_one_row() {
    let st = Step::FreshInstall.statements();
    assert_eq!(st.len(), 8);
    let tables = all_tables();
    for (i, t) in tables.iter().enumerate() {
        assert_eq!(st[i].sql, create_table_sql(*t));
        assert!(st[i].sql.starts_with("CREATE TABLE "));
        assert!(!st[i].binds_now);
    }
    assert!(st[7].sql.starts_with("INSERT OR IGNORE INTO user_settings"));
    assert!(st[7].binds_now);
    let inserts = st.iter().filter(|s| s.sql.starts_with("INSERT")).count();
    assert_eq!(inserts, 1);
}

#[test]
fn creation_order_puts_referenced_table_first() {
    let t = all_tables();
    assert_eq!(t.len(), 7);
    assert_eq!(t[0], Table::BotAccounts);
    assert_eq!(t[0].name(), "bot_accounts");
}

#[test]
fn create_statement_lists_columns_and_constraints() {
    assert_eq!(
        create_table_sql(Table::AppSettings),
        "CREATE TABLE app_settings (key TEXT PRIMARY KEY, value TEXT NOT NULL, updated_at TEXT NOT NULL)"
    );
    assert_eq!(
        create_table_sql(Table::ReplySettings),
        "CREATE TABLE reply_settings (id INTEGER PRIMARY KEY AUTOINCREMENT, target_bot_ids TEXT NOT NULL, reply_bot_id INTEGER NOT NULL, reply_content TEXT NOT NULL, is_active BOOLEAN DEFAULT 1, last_checked_tweet_ids TEXT, created_at TEXT NOT NULL, updated_at TEXT NOT NULL, FOREIGN KEY (reply_bot_id) REFERENCES bot_accounts(id) ON DELETE CASCADE)"
    );
}

#[test]
fn current_store_needs_nothing() {
    let c = current_catalog();
    assert!(plan(&c).is_empty());
    assert_eq!(next_step(&c), None);
}

#[test]
fn legacy_store_is_upgraded_in_order() {
    let c = catalog_of(&[
        ("bot_accounts", BOT_ACCOUNTS),
        ("bot_configs", BOT_CONFIGS),
        ("reply_settings", LEGACY_REPLY_SETTINGS),
        ("execution_logs", EXECUTION_LOGS),
        ("scheduled_tweets", LEGACY_SCHEDULED_TWEETS),
        ("user_settings", USER_SETTINGS),
        ("app_settings", APP_SETTINGS),
    ]);
    assert_eq!(
        plan(&c),
        vec![
            Step::AddColumn(AddedColumn::ContentList),
            Step::AddColumn(AddedColumn::CurrentIndex),
            Step::AddColumn(AddedColumn::ScheduledTimes),
            Step::AddColumn(AddedColumn::IsActive),
            Step::RebuildReplySettings,
        ]
    );
    let add = Step::AddColumn(AddedColumn::CurrentIndex).statements();
    assert_eq!(add.len(), 1);
    assert_eq!(add[0].sql, "ALTER TABLE scheduled_tweets ADD COLUMN current_index INTEGER DEFAULT 0");
    let add = Step::AddColumn(AddedColumn::ScheduledTimes).statements();
    assert_eq!(add[0].sql, "ALTER TABLE scheduled_tweets ADD COLUMN scheduled_times TEXT DEFAULT ''");
    let rebuild = Step::RebuildReplySettings.statements();
    assert_eq!(rebuild.len(), 2);
    assert_eq!(rebuild[0].sql, "DROP TABLE reply_settings");
    assert_eq!(rebuild[1].sql, create_table_sql(Table::ReplySettings));
}

#[test]
fn upgrade_then_rerun_plans_nothing() {
    let before = catalog_of(&[
        ("bot_accounts", BOT_ACCOUNTS),
        ("reply_settings", LEGACY_REPLY_SETTINGS),
        ("scheduled_tweets", LEGACY_SCHEDULED_TWEETS),
    ]);
    let steps = plan(&before);
    assert_eq!(steps[0], Step::CreateTable(Table::BotConfigs));
    assert!(steps.contains(&Step::CreateTable(Table::UserSettings)));
    assert_eq!(steps.last(), Some(&Step::RebuildReplySettings));
    // The store after those steps, as introspection would see it.
    let after = catalog_of(&[
        ("bot_accounts", BOT_ACCOUNTS),
        ("reply_settings", REPLY_SETTINGS),
        ("scheduled_tweets", &[
            "id", "account_id", "content", "created_at", "updated_at", "content_list",
            "current_index", "scheduled_times", "is_active",
        ]),
        ("bot_configs", BOT_CONFIGS),
        ("execution_logs", EXECUTION_LOGS),
        ("user_settings", USER_SETTINGS),
        ("app_settings", APP_SETTINGS),
    ]);
    assert!(plan(&after).is_empty());
}

#[test]
fn partial_store_takes_the_upgrade_path() {
    let c = catalog_of(&[("user_settings", USER_SETTINGS)]);
    let steps = plan(&c);
    assert_eq!(steps[0], Step::CreateTable(Table::BotAccounts));
    assert!(!steps.contains(&Step::FreshInstall));
    assert_eq!(steps.len(), 6);
}

#[test]
fn upgrade_path_writes_no_settings_row() {
    let c = catalog_of(&[("bot_accounts", BOT_ACCOUNTS)]);
    let steps = plan(&c);
    assert!(steps.contains(&Step::CreateTable(Table::UserSettings)));
    for step in steps {
        for st in step.statements() {
            assert!(!st.sql.starts_with("INSERT"));
            assert!(!st.binds_now);
        }
    }
    let st = Step::CreateTable(Table::UserSettings).statements();
    assert_eq!(st.len(), 1);
    assert_eq!(st[0].sql, create_table_sql(Table::UserSettings));
}

#[test]
fn failed_probe_counts_as_absent() {
    let mut c = Catalog::new();
    c.record_table("bot_accounts".to_string(), None, cols(BOT_ACCOUNTS));
    c.record_table("bot_configs".to_string(), Some(0), cols(BOT_CONFIGS));
    assert!(!c.has_table("bot_accounts"));
    assert!(!c.has_table("bot_configs"));
    assert_eq!(plan(&c), vec![Step::FreshInstall]);
    c.record_table("reply_settings".to_string(), Some(1), None);
    assert!(c.has_table("reply_settings"));
    assert!(!c.has_column("reply_settings", "target_bot_ids"));
}

#[test]
fn introspection_answers_by_name() {
    let c = current_catalog();
    assert!(c.has_table("scheduled_tweets"));
    assert!(!c.has_table("scheduled"));
    assert!(c.has_column("scheduled_tweets", "content_list"));
    assert!(!c.has_column("bot_accounts", "content_list"));
}

#[test]
fn queries_for_the_rebuild() {
    assert_eq!(LEGACY_REPLY_RULES_QUERY, "SELECT * FROM reply_settings");
    assert!(INSERT_REPLY_RULE_SQL.starts_with("INSERT INTO reply_settings (target_bot_ids"));
}

#[test]
fn rerunning_after_each_step_walks_the_plan() {
    let mut tables: Vec<(&str, Vec<&str>)> = vec![
        ("bot_accounts", BOT_ACCOUNTS.to_vec()),
        ("bot_configs", BOT_CONFIGS.to_vec()),
        ("reply_settings", LEGACY_REPLY_SETTINGS.to_vec()),
        ("execution_logs", EXECUTION_LOGS.to_vec()),
        ("scheduled_tweets", LEGACY_SCHEDULED_TWEETS.to_vec()),
        ("user_settings", USER_SETTINGS.to_vec()),
        ("app_settings", APP_SETTINGS.to_vec()),
    ];
    let build = |tables: &Vec<(&str, Vec<&str>)>| {
        let mut c = Catalog::new();
        for (name, columns) in tables {
            c.record_table(name.to_string(), Some(1), cols(columns));
        }
        c
    };
    let mut remaining = plan(&build(&tables));
    let mut rounds = 0;
    while let Some(step) = next_step(&build(&tables)) {
        assert_eq!(step, remaining[0]);
        match step {
            Step::AddColumn(a) => tables[4].1.push(a.name()),
            Step::RebuildReplySettings => tables[2].1 = REPLY_SETTINGS.to_vec(),
            other => panic!("unexpected step {:?}", other),
        }
        remaining.remove(0);
        assert_eq!(plan(&build(&tables)), remaining);
        rounds += 1;
    }
    assert_eq!(rounds, 5);
}
