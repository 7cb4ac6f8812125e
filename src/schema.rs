//! The current logical schema: the governed tables, their columns, and the
//! statements that create them.

use vstd::prelude::*;

use crate::text::{join, join_strings, views};

verus! {

/// The tables this store is made of, in an order where a table comes after
/// every table it refers to.
#[derive(Debug, Clone, Copy, PartialEq, Eq, Structural)]
pub enum Table {
    BotAccounts,
    BotConfigs,
    ReplySettings,
    ExecutionLogs,
    ScheduledTweets,
    UserSettings,
    AppSettings,
}

impl Table {
    pub open spec fn spec_name(self) -> Seq<char> {
        match self {
            Table::BotAccounts => "bot_accounts"@,
            Table::BotConfigs => "bot_configs"@,
            Table::ReplySettings => "reply_settings"@,
            Table::ExecutionLogs => "execution_logs"@,
            Table::ScheduledTweets => "scheduled_tweets"@,
            Table::UserSettings => "user_settings"@,
            Table::AppSettings => "app_settings"@,
        }
    }

    /// The table's name in the store.
    pub fn name(self) -> (r: &'static str)
        ensures
            r@ == self.spec_name(),
    {
        match self {
            Table::BotAccounts => "bot_accounts",
            Table::BotConfigs => "bot_configs",
            Table::ReplySettings => "reply_settings",
            Table::ExecutionLogs => "execution_logs",
            Table::ScheduledTweets => "scheduled_tweets",
            Table::UserSettings => "user_settings",
            Table::AppSettings => "app_settings",
        }
    }
}

/// Every governed table, each after the tables it refers to.
pub open spec fn creation_order() -> Seq<Table> {
    seq![
        Table::BotAccounts,
        Table::BotConfigs,
        Table::ReplySettings,
        Table::ExecutionLogs,
        Table::ScheduledTweets,
        Table::UserSettings,
        Table::AppSettings,
    ]
}

/// Every governed table, each after the tables it refers to.
pub fn all_tables() -> (r: Vec<Table>)
    ensures
        r@ == creation_order(),
{
    let r = vec![
        Table::BotAccounts,
        Table::BotConfigs,
        Table::ReplySettings,
        Table::ExecutionLogs,
        Table::ScheduledTweets,
        Table::UserSettings,
        Table::AppSettings,
    ];
    assert(r@ =~= creation_order());
    r
}

/// Each column of a table as (name, declaration), in table order.
pub open spec fn column_defs(t: Table) -> Seq<(Seq<char>, Seq<char>)> {
    match t {
        Table::BotAccounts => seq![
            ("id"@, "INTEGER PRIMARY KEY AUTOINCREMENT"@),
            ("account_name"@, "TEXT NOT NULL UNIQUE"@),
            ("api_key"@, "TEXT NOT NULL"@),
            ("api_key_secret"@, "TEXT NOT NULL"@),
            ("access_token"@, "TEXT NOT NULL"@),
            ("access_token_secret"@, "TEXT NOT NULL"@),
            ("api_type"@, "TEXT NOT NULL DEFAULT 'Free'"@),
            ("status"@, "TEXT DEFAULT 'inactive'"@),
            ("created_at"@, "TEXT NOT NULL"@),
            ("updated_at"@, "TEXT NOT NULL"@),
        ],
        Table::BotConfigs => seq![
            ("id"@, "INTEGER PRIMARY KEY AUTOINCREMENT"@),
            ("account_id"@, "INTEGER NOT NULL"@),
            ("is_enabled"@, "BOOLEAN DEFAULT 0"@),
            ("auto_tweet_enabled"@, "BOOLEAN DEFAULT 0"@),
            ("tweet_interval_minutes"@, "INTEGER DEFAULT 60"@),
            ("tweet_templates"@, "TEXT"@),
            ("hashtags"@, "TEXT"@),
            ("created_at"@, "TEXT NOT NULL"@),
            ("updated_at"@, "TEXT NOT NULL"@),
        ],
        Table::ReplySettings => seq![
            ("id"@, "INTEGER PRIMARY KEY AUTOINCREMENT"@),
            ("target_bot_ids"@, "TEXT NOT NULL"@),
            ("reply_bot_id"@, "INTEGER NOT NULL"@),
            ("reply_content"@, "TEXT NOT NULL"@),
            ("is_active"@, "BOOLEAN DEFAULT 1"@),
            ("last_checked_tweet_ids"@, "TEXT"@),
            ("created_at"@, "TEXT NOT NULL"@),
            ("updated_at"@, "TEXT NOT NULL"@),
        ],
        Table::ExecutionLogs => seq![
            ("id"@, "INTEGER PRIMARY KEY AUTOINCREMENT"@),
            ("account_id"@, "INTEGER NOT NULL"@),
            ("log_type"@, "TEXT NOT NULL"@),
            ("message"@, "TEXT NOT NULL"@),
            ("tweet_id"@, "TEXT"@),
            ("tweet_content"@, "TEXT"@),
            ("status"@, "TEXT NOT NULL"@),
            ("created_at"@, "TEXT NOT NULL"@),
        ],
        Table::ScheduledTweets => seq![
            ("id"@, "INTEGER PRIMARY KEY AUTOINCREMENT"@),
            ("account_id"@, "INTEGER NOT NULL"@),
            ("content"@, "TEXT NOT NULL"@),
            ("content_list"@, "TEXT"@),
            ("current_index"@, "INTEGER DEFAULT 0"@),
            ("scheduled_times"@, "TEXT NOT NULL"@),
            ("is_active"@, "BOOLEAN DEFAULT 1"@),
            ("created_at"@, "TEXT NOT NULL"@),
            ("updated_at"@, "TEXT NOT NULL"@),
        ],
        Table::UserSettings => seq![
            ("id"@, "INTEGER PRIMARY KEY AUTOINCREMENT"@),
            ("user_id"@, "TEXT NOT NULL UNIQUE DEFAULT 'default'"@),
            ("plan_type"@, "TEXT DEFAULT 'starter'"@),
            ("max_accounts"@, "INTEGER DEFAULT 999"@),
            ("created_at"@, "TEXT NOT NULL"@),
            ("updated_at"@, "TEXT NOT NULL"@),
        ],
        Table::AppSettings => seq![
            ("key"@, "TEXT PRIMARY KEY"@),
            ("value"@, "TEXT NOT NULL"@),
            ("updated_at"@, "TEXT NOT NULL"@),
        ],
    }
}

/// The table constraints that follow the columns.
pub open spec fn table_constraints(t: Table) -> Seq<Seq<char>> {
    match t {
        Table::BotAccounts => Seq::empty(),
        Table::BotConfigs => seq!["FOREIGN KEY (account_id) REFERENCES bot_accounts(id) ON DELETE CASCADE"@],
        Table::ReplySettings => seq!["FOREIGN KEY (reply_bot_id) REFERENCES bot_accounts(id) ON DELETE CASCADE"@],
        Table::ExecutionLogs => seq!["FOREIGN KEY (account_id) REFERENCES bot_accounts(id) ON DELETE CASCADE"@],
        Table::ScheduledTweets => seq!["FOREIGN KEY (account_id) REFERENCES bot_accounts(id) ON DELETE CASCADE"@],
        Table::UserSettings => Seq::empty(),
        Table::AppSettings => Seq::empty(),
    }
}

pub open spec fn column_names(t: Table) -> Seq<Seq<char>> {
    column_defs(t).map_values(|d: (Seq<char>, Seq<char>)| d.0)
}

/// The columns a table has in the current schema.
pub open spec fn column_set(t: Table) -> Set<Seq<char>> {
    column_names(t).to_set()
}

/// `name declaration`.
pub open spec fn column_clause(d: (Seq<char>, Seq<char>)) -> Seq<char> {
    d.0 + " "@ + d.1
}

/// `CREATE TABLE name (column, ..., constraint, ...)`.
pub open spec fn create_table_sql_of(t: Table) -> Seq<char> {
    "CREATE TABLE "@ + t.spec_name() + " ("@ + join(
        column_defs(t).map_values(|d: (Seq<char>, Seq<char>)| column_clause(d)) + table_constraints(t),
        ", "@,
    ) + ")"@
}

fn clause(name: &str, decl: &str) -> (r: String)
    ensures
        r@ == column_clause((name@, decl@)),
{
    let mut r = name.to_owned();
    r.append(" ");
    r.append(decl);
    r
}

/// The column clauses of a table followed by its constraints.
fn table_clauses(t: Table) -> (r: Vec<String>)
    ensures
        views(r@) == column_defs(t).map_values(|d: (Seq<char>, Seq<char>)| column_clause(d))
            + table_constraints(t),
{
    let mut r: Vec<String> = Vec::new();
    match t {
        Table::BotAccounts => {
            r.push(clause("id", "INTEGER PRIMARY KEY AUTOINCREMENT"));
            r.push(clause("account_name", "TEXT NOT NULL UNIQUE"));
            r.push(clause("api_key", "TEXT NOT NULL"));
            r.push(clause("api_key_secret", "TEXT NOT NULL"));
            r.push(clause("access_token", "TEXT NOT NULL"));
            r.push(clause("access_token_secret", "TEXT NOT NULL"));
            r.push(clause("api_type", "TEXT NOT NULL DEFAULT 'Free'"));
            r.push(clause("status", "TEXT DEFAULT 'inactive'"));
            r.push(clause("created_at", "TEXT NOT NULL"));
            r.push(clause("updated_at", "TEXT NOT NULL"));
        },
        Table::BotConfigs => {
            r.push(clause("id", "INTEGER PRIMARY KEY AUTOINCREMENT"));
            r.push(clause("account_id", "INTEGER NOT NULL"));
            r.push(clause("is_enabled", "BOOLEAN DEFAULT 0"));
            r.push(clause("auto_tweet_enabled", "BOOLEAN DEFAULT 0"));
            r.push(clause("tweet_interval_minutes", "INTEGER DEFAULT 60"));
            r.push(clause("tweet_templates", "TEXT"));
            r.push(clause("hashtags", "TEXT"));
            r.push(clause("created_at", "TEXT NOT NULL"));
            r.push(clause("updated_at", "TEXT NOT NULL"));
            r.push("FOREIGN KEY (account_id) REFERENCES bot_accounts(id) ON DELETE CASCADE".to_owned());
        },
        Table::ReplySettings => {
            r.push(clause("id", "INTEGER PRIMARY KEY AUTOINCREMENT"));
            r.push(clause("target_bot_ids", "TEXT NOT NULL"));
            r.push(clause("reply_bot_id", "INTEGER NOT NULL"));
            r.push(clause("reply_content", "TEXT NOT NULL"));
            r.push(clause("is_active", "BOOLEAN DEFAULT 1"));
            r.push(clause("last_checked_tweet_ids", "TEXT"));
            r.push(clause("created_at", "TEXT NOT NULL"));
            r.push(clause("updated_at", "TEXT NOT NULL"));
            r.push("FOREIGN KEY (reply_bot_id) REFERENCES bot_accounts(id) ON DELETE CASCADE".to_owned());
        },
        Table::ExecutionLogs => {
            r.push(clause("id", "INTEGER PRIMARY KEY AUTOINCREMENT"));
            r.push(clause("account_id", "INTEGER NOT NULL"));
            r.push(clause("log_type", "TEXT NOT NULL"));
            r.push(clause("message", "TEXT NOT NULL"));
            r.push(clause("tweet_id", "TEXT"));
            r.push(clause("tweet_content", "TEXT"));
            r.push(clause("status", "TEXT NOT NULL"));
            r.push(clause("created_at", "TEXT NOT NULL"));
            r.push("FOREIGN KEY (account_id) REFERENCES bot_accounts(id) ON DELETE CASCADE".to_owned());
        },
        Table::ScheduledTweets => {
            r.push(clause("id", "INTEGER PRIMARY KEY AUTOINCREMENT"));
            r.push(clause("account_id", "INTEGER NOT NULL"));
            r.push(clause("content", "TEXT NOT NULL"));
            r.push(clause("content_list", "TEXT"));
            r.push(clause("current_index", "INTEGER DEFAULT 0"));
            r.push(clause("scheduled_times", "TEXT NOT NULL"));
            r.push(clause("is_active", "BOOLEAN DEFAULT 1"));
            r.push(clause("created_at", "TEXT NOT NULL"));
            r.push(clause("updated_at", "TEXT NOT NULL"));
            r.push("FOREIGN KEY (account_id) REFERENCES bot_accounts(id) ON DELETE CASCADE".to_owned());
        },
        Table::UserSettings => {
            r.push(clause("id", "INTEGER PRIMARY KEY AUTOINCREMENT"));
            r.push(clause("user_id", "TEXT NOT NULL UNIQUE DEFAULT 'default'"));
            r.push(clause("plan_type", "TEXT DEFAULT 'starter'"));
            r.push(clause("max_accounts", "INTEGER DEFAULT 999"));
            r.push(clause("created_at", "TEXT NOT NULL"));
            r.push(clause("updated_at", "TEXT NOT NULL"));
        },
        Table::AppSettings => {
            r.push(clause("key", "TEXT PRIMARY KEY"));
            r.push(clause("value", "TEXT NOT NULL"));
            r.push(clause("updated_at", "TEXT NOT NULL"));
        },
    }
    assert(views(r@) =~= column_defs(t).map_values(|d: (Seq<char>, Seq<char>)| column_clause(d))
        + table_constraints(t));
    r
}

/// The statement that creates `t` in its current form.
pub fn create_table_sql(t: Table) -> (r: String)
    ensures
        r@ == create_table_sql_of(t),
{
    let clauses = table_clauses(t);
    let body = join_strings(&clauses, ", ");
    let mut r = "CREATE TABLE ".to_owned();
    r.append(t.name());
    r.append(" (");
    r.append(body.as_str());
    r.append(")");
    r
}

} // verus!
